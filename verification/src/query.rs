//! The filter of one data row: the conditions of every query, and on top of
//! them one condition for each match rule whose cell holds a usable text.

use vstd::prelude::*;
use vstd::string::*;
use crate::cell::{cell_text, cell_to_text, Sheet};
use crate::filter::{escaped, Condition, ConditionView, Filter};
use crate::rules::Matcher;
use crate::text::{format_id_string, normalized, trimmed};

verus! {

/// A text is blank when it has no characters, or none once it is trimmed.
pub open spec fn is_blank(text: Seq<char>) -> bool {
    text.len() == 0 || trimmed(text).len() == 0
}

/// The text by which a cell is matched: trimmed, or in canonical form where
/// the rule asks for it. `None` where the cell is blank.
pub open spec fn match_text(normalize: bool, text: Seq<char>) -> Option<Seq<char>> {
    if is_blank(text) {
        None
    } else if normalize {
        Some(normalized(text))
    } else {
        Some(trimmed(text))
    }
}

/// The text by which a rule matches a row, if the row has a usable cell in
/// the rule's column.
pub open spec fn cell_match_text(sheet: Sheet, row: int, matcher: Matcher) -> Option<Seq<char>> {
    match sheet.cell(row, matcher.column as int) {
        Some(cell) => match_text(matcher.normalize, cell_text(cell)),
        None => None,
    }
}

/// The condition that a text lays on a field: the field holds the text
/// somewhere, letter for letter but for the case.
pub open spec fn holds_text(text: Seq<char>) -> ConditionView {
    ConditionView { pattern: escaped(text), negated: false }
}

/// The conditions of a row: those of `base`, and the condition of each rule
/// that has a usable cell, laid down in the order of the rules.
pub open spec fn row_conditions(
    sheet: Sheet,
    row: int,
    matchers: Seq<Matcher>,
    base: Map<Seq<char>, ConditionView>,
) -> Map<Seq<char>, ConditionView>
    decreases matchers.len(),
{
    if matchers.len() == 0 {
        base
    } else {
        let before = row_conditions(sheet, row, matchers.drop_last(), base);
        match cell_match_text(sheet, row, matchers.last()) {
            Some(text) => before.insert(matchers.last().field@, holds_text(text)),
            None => before,
        }
    }
}

/// A row is eligible when at least one rule has a usable cell in it.
pub open spec fn row_eligible(sheet: Sheet, row: int, matchers: Seq<Matcher>) -> bool {
    exists|i: int| 0 <= i < matchers.len() && cell_match_text(sheet, row, #[trigger] matchers[i]) is Some
}

/// The filter of a row, if the row is eligible.
pub open spec fn row_filter(
    sheet: Sheet,
    row: int,
    matchers: Seq<Matcher>,
    base: Map<Seq<char>, ConditionView>,
) -> Option<Map<Seq<char>, ConditionView>> {
    if row_eligible(sheet, row, matchers) {
        Some(row_conditions(sheet, row, matchers, base))
    } else {
        None
    }
}

/// A row is without a filter exactly when every match rule finds its cell
/// absent or blank, whatever conditions the queries of the run carry.
pub proof fn lemma_blank_row_has_no_filter(
    sheet: Sheet,
    row: int,
    matchers: Seq<Matcher>,
    base: Map<Seq<char>, ConditionView>,
)
    ensures
        row_filter(sheet, row, matchers, base) is None <==> forall|i: int|
            0 <= i < matchers.len() ==> match sheet.cell(row, (#[trigger] matchers[i]).column as int) {
                Some(cell) => is_blank(cell_text(cell)),
                None => true,
            },
{
    if row_filter(sheet, row, matchers, base) is None {
        assert forall|i: int| 0 <= i < matchers.len() implies match sheet.cell(
            row,
            (#[trigger] matchers[i]).column as int,
        ) {
            Some(cell) => is_blank(cell_text(cell)),
            None => true,
        } by {
            assert(cell_match_text(sheet, row, matchers[i]) is None);
        }
    } else {
        let w = choose|i: int|
            0 <= i < matchers.len() && cell_match_text(sheet, row, #[trigger] matchers[i]) is Some;
        assert(sheet.cell(row, matchers[w].column as int) is Some);
    }
}

/// A row without text has no filter: no cell of a match rule's column in it
/// holds a character. An empty cell never leads to a query.
pub proof fn lemma_row_without_text_has_no_filter(
    sheet: Sheet,
    row: int,
    matchers: Seq<Matcher>,
    base: Map<Seq<char>, ConditionView>,
)
    requires
        forall|i: int|
            0 <= i < matchers.len() ==> match sheet.cell(row, (#[trigger] matchers[i]).column as int) {
                Some(cell) => cell_text(cell).len() == 0,
                None => true,
            },
    ensures
        row_filter(sheet, row, matchers, base) is None,
{
    lemma_blank_row_has_no_filter(sheet, row, matchers, base);
}

/// The filter of a row keeps every condition of the run on a field that no
/// usable match rule names, and holds a condition for each field that one names.
pub proof fn lemma_row_conditions_cover(
    sheet: Sheet,
    row: int,
    matchers: Seq<Matcher>,
    base: Map<Seq<char>, ConditionView>,
    field: Seq<char>,
)
    ensures
        (forall|i: int|
            0 <= i < matchers.len() && cell_match_text(sheet, row, #[trigger] matchers[i]) is Some
                ==> matchers[i].field@ != field) ==> (row_conditions(
            sheet,
            row,
            matchers,
            base,
        ).dom().contains(field) <==> base.dom().contains(field)) && (base.dom().contains(field)
            ==> row_conditions(sheet, row, matchers, base)[field] == base[field]),
        (exists|i: int|
            0 <= i < matchers.len() && cell_match_text(sheet, row, #[trigger] matchers[i]) is Some
                && matchers[i].field@ == field) ==> row_conditions(
            sheet,
            row,
            matchers,
            base,
        ).dom().contains(field) && !row_conditions(sheet, row, matchers, base)[field].negated,
    decreases matchers.len(),
{
    if matchers.len() > 0 {
        let head = matchers.drop_last();
        let n = matchers.len() - 1;
        lemma_row_conditions_cover(sheet, row, head, base, field);
        assert(matchers.last() == matchers[n]);
        if forall|i: int|
            0 <= i < matchers.len() && cell_match_text(sheet, row, #[trigger] matchers[i]) is Some
                ==> matchers[i].field@ != field {
            assert forall|i: int|
                0 <= i < head.len() && cell_match_text(
                    sheet,
                    row,
                    #[trigger] head[i],
                ) is Some implies head[i].field@ != field by {
                assert(head[i] == matchers[i]);
            }
        }
        if exists|i: int|
            0 <= i < matchers.len() && cell_match_text(sheet, row, #[trigger] matchers[i]) is Some
                && matchers[i].field@ == field {
            let w = choose|i: int|
                0 <= i < matchers.len() && cell_match_text(
                    sheet,
                    row,
                    #[trigger] matchers[i],
                ) is Some && matchers[i].field@ == field;
            if w < n {
                assert(head[w] == matchers[w]);
            }
        }
    }
}

/// Derives the text by which a cell is matched from the text of the cell.
pub fn match_value(normalize: bool, text: &str) -> (r: Option<String>)
    ensures
        match_text(normalize, text@) is Some <==> r is Some,
        r matches Some(s) ==> match_text(normalize, text@) == Some(s@),
{
    if text.is_empty() {
        return None;
    }
    let trimmed_text = text.trim();
    if trimmed_text.is_empty() {
        None
    } else if normalize {
        Some(format_id_string(text))
    } else {
        Some(trimmed_text.to_owned())
    }
}

/// Builds the filter of a row on top of `base`. `None` where the row is not
/// eligible: no rule has a usable cell in it.
pub fn build_row_filter(sheet: &Sheet, row: usize, matchers: &Vec<Matcher>, base: &Filter) -> (r:
    Option<Filter>)
    ensures
        row_filter(*sheet, row as int, matchers@, base@) is Some <==> r is Some,
        r matches Some(f) ==> row_filter(*sheet, row as int, matchers@, base@) == Some(f@),
{
    let mut filter = base.duplicate();
    let mut eligible = false;
    let mut i: usize = 0;
    assert(matchers@.take(0) =~= Seq::<Matcher>::empty());
    while i < matchers.len()
        invariant
            0 <= i <= matchers@.len(),
            filter@ == row_conditions(*sheet, row as int, matchers@.take(i as int), base@),
            eligible <==> row_eligible(*sheet, row as int, matchers@.take(i as int)),
        decreases matchers@.len() - i,
    {
        let matcher = &matchers[i];
        let ghost before = matchers@.take(i as int);
        let ghost after = matchers@.take(i + 1);
        proof {
            assert(after.drop_last() =~= before);
            assert(after.last() == matchers@[i as int]);
        }
        let mut usable = false;
        if let Some(cell) = sheet.cell_at(row, matcher.column) {
            let text = cell_to_text(cell);
            if let Some(value) = match_value(matcher.normalize, text.as_str()) {
                let pattern = regex::escape(value.as_str());
                filter.insert(matcher.field.clone(), Condition { pattern, negated: false });
                usable = true;
            }
        }
        proof {
            assert(usable <==> cell_match_text(*sheet, row as int, matchers@[i as int]) is Some);
            if row_eligible(*sheet, row as int, before) {
                let w = choose|k: int|
                    0 <= k < before.len() && cell_match_text(
                        *sheet,
                        row as int,
                        #[trigger] before[k],
                    ) is Some;
                assert(after[w] == before[w]);
            }
            if usable {
                assert(cell_match_text(*sheet, row as int, after[i as int]) is Some);
            }
            if row_eligible(*sheet, row as int, after) {
                let w = choose|k: int|
                    0 <= k < after.len() && cell_match_text(
                        *sheet,
                        row as int,
                        #[trigger] after[k],
                    ) is Some;
                if w < i {
                    assert(before[w] == after[w]);
                }
            }
        }
        if usable {
            eligible = true;
        }
        i += 1;
    }
    assert(matchers@.take(matchers@.len() as int) =~= matchers@);
    if eligible {
        Some(filter)
    } else {
        None
    }
}

} // verus!
