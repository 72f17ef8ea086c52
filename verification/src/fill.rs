//! What a fill rule writes for a matched document.

use vstd::prelude::*;
use vstd::string::*;
use crate::document::{field_text, field_to_text, FieldValue, Record};
use crate::rules::Filler;
use crate::text::{format_id_string, normalized};

verus! {

/// The text that is written where the referenced document was not found.
pub open spec fn reference_missing() -> Seq<char> {
    seq!['N', 'O', ' ', 'I', 'D']
}

/// The text that is written where the referenced document was found but
/// lacks the field that the rule asks for.
pub open spec fn field_missing() -> Seq<char> {
    seq!['N', 'O', ' ', 'F', 'I', 'E', 'L', 'D']
}

/// The text of a value as a rule writes it: in canonical form where the rule
/// asks for it, else as it is.
pub open spec fn written_text(apply_format: bool, text: Seq<char>) -> Seq<char> {
    if apply_format {
        normalized(text)
    } else {
        text
    }
}

/// What a rule without a reference writes for a document: the text of its
/// field, or nothing where the document lacks the field.
pub open spec fn direct_text(filler: Filler, document: Record) -> Option<Seq<char>> {
    match document.value_of(filler.field@) {
        Some(value) => Some(written_text(filler.apply_format, field_text(value))),
        None => None,
    }
}

/// What a rule with a reference writes once the other collection has
/// answered: the text of the target field, or one of two markers, which are
/// written as they are.
pub open spec fn referenced_text(
    apply_format: bool,
    target: Seq<char>,
    found: Option<Record>,
) -> Seq<char> {
    match found {
        Some(document) => match document.value_of(target) {
            Some(value) => written_text(apply_format, field_text(value)),
            None => field_missing(),
        },
        None => reference_missing(),
    }
}

/// The marker for a referenced document that was not found.
pub fn reference_missing_marker() -> (r: String)
    ensures
        r@ == reference_missing(),
{
    proof {
        reveal_strlit("NO ID");
    }
    let r = "NO ID".to_owned();
    assert(r@ =~= reference_missing());
    r
}

/// The marker for a referenced document that lacks the target field.
pub fn field_missing_marker() -> (r: String)
    ensures
        r@ == field_missing(),
{
    proof {
        reveal_strlit("NO FIELD");
    }
    let r = "NO FIELD".to_owned();
    assert(r@ =~= field_missing());
    r
}

/// Renders a value as a rule writes it.
pub fn render_value(apply_format: bool, value: &FieldValue) -> (r: String)
    ensures
        r@ == written_text(apply_format, field_text(*value)),
{
    let text = field_to_text(value);
    if apply_format {
        format_id_string(text.as_str())
    } else {
        text
    }
}

/// Resolves what a rule with a reference writes, from the answer of the
/// other collection.
pub fn resolve_reference(apply_format: bool, target: &String, found: &Option<Record>) -> (r: String)
    ensures
        r@ == referenced_text(apply_format, target@, *found),
{
    match found {
        Some(document) => match document.get(target) {
            Some(value) => render_value(apply_format, value),
            None => field_missing_marker(),
        },
        None => reference_missing_marker(),
    }
}

/// The two markers differ from each other and from a text of no characters:
/// a sheet shows which of the three happened.
pub proof fn lemma_markers_differ()
    ensures
        reference_missing() != field_missing(),
        reference_missing().len() > 0,
        field_missing().len() > 0,
{
    assert(reference_missing()[3] == 'I');
    assert(field_missing()[3] == 'F');
}

/// A rule with a reference never writes the same for a document that was
/// not found as for one that was found without the target field, and in
/// neither case a text of no characters.
pub proof fn lemma_missing_reference_shows(apply_format: bool, target: Seq<char>, document: Record)
    requires
        document.value_of(target) is None,
    ensures
        referenced_text(apply_format, target, None) != referenced_text(
            apply_format,
            target,
            Some(document),
        ),
        referenced_text(apply_format, target, None).len() > 0,
        referenced_text(apply_format, target, Some(document)).len() > 0,
{
    lemma_markers_differ();
}

} // verus!
