//! The rules of a run as a user writes them, and what they compile to.

use vstd::prelude::*;
use vstd::string::*;
use crate::column::{col_letter_to_index, column_index};
use crate::error::{ConfigError, ConfigErrorView};
use crate::filter::{escaped, Condition, ConditionView, Filter};
use crate::text::uppercased;

verus! {

/// How the text of a field is held against a fixed value. Letter case is
/// always set aside.
#[derive(Clone, Copy, Debug, PartialEq, Eq)]
pub enum FilterOperator {
    /// The text is the value.
    Equals,
    /// The text holds the value somewhere.
    Contains,
    /// The text is not the value.
    NotEquals,
    /// The text begins with the value.
    StartsWith,
}

/// A condition that every query of a run carries.
#[derive(Clone, Debug)]
pub struct StaticFilter {
    /// The field of the document. A filter without a field is passed over.
    pub field: String,
    /// How the text of the field is held against the value.
    pub operator: FilterOperator,
    /// The value, taken letter for letter.
    pub value: String,
}

/// Binds a column of the sheet to a field of the document: the row matches
/// the documents whose field holds the text of the cell.
#[derive(Clone, Debug)]
pub struct MatchRule {
    /// The column, in letters.
    pub col_letter: String,
    /// The row of the column's header, counted from one.
    pub row_num: u32,
    /// The field of the document.
    pub mongo_field: String,
    /// Whether the text of the cell is brought into canonical form first.
    pub use_last_8: bool,
}

/// Binds a field of the matched document to a column of the sheet.
#[derive(Clone, Debug)]
pub struct FillRule {
    /// The field of the matched document.
    pub mongo_field: String,
    /// The column that is written, in letters.
    pub col_letter: String,
    /// A row, counted from one. It places nothing: a value is written to the
    /// row that matched.
    pub row_num: u32,
    /// Whether the value is brought into canonical form before it is written.
    pub apply_format: bool,
    /// Whether the field holds the identity of a document of another
    /// collection, from which the value is taken.
    pub is_lookup: bool,
    /// The other collection.
    pub lookup_coll: String,
    /// The field of the other document that is written.
    pub lookup_target: String,
}

/// A match rule with its column as an index.
#[derive(Clone, Debug)]
pub struct Matcher {
    /// The column, counted from zero.
    pub column: usize,
    /// The field of the document.
    pub field: String,
    /// Whether the text of the cell is brought into canonical form first.
    pub normalize: bool,
}

/// Where a fill rule takes its value from in another collection.
#[derive(Clone, Debug)]
pub struct Reference {
    /// The other collection.
    pub collection: String,
    /// The field of the other document that is written.
    pub target: String,
}

/// A fill rule with its column as an index.
#[derive(Clone, Debug)]
pub struct Filler {
    /// The column that is written, counted from zero.
    pub column: usize,
    /// The field of the matched document.
    pub field: String,
    /// Whether the value is brought into canonical form before it is written.
    pub apply_format: bool,
    /// The other collection and field, where the value is taken from there.
    pub reference: Option<Reference>,
}

impl FilterOperator {
    /// The name of the operator with its sign.
    pub open spec fn label_text(self) -> Seq<char> {
        match self {
            FilterOperator::Equals => "Igual a (=)"@,
            FilterOperator::Contains => "Contiene (LIKE)"@,
            FilterOperator::NotEquals => "Diferente de (!=)"@,
            FilterOperator::StartsWith => "Empieza por (^...)"@,
        }
    }

    /// The name of the operator.
    pub open spec fn name_text(self) -> Seq<char> {
        match self {
            FilterOperator::Equals => "Igual a"@,
            FilterOperator::Contains => "Contiene"@,
            FilterOperator::NotEquals => "Diferente de"@,
            FilterOperator::StartsWith => "Empieza por"@,
        }
    }

    /// The name of the operator with its sign, as a chosen operator is shown.
    pub fn label(self) -> (r: &'static str)
        ensures
            r@ == self.label_text(),
    {
        match self {
            FilterOperator::Equals => "Igual a (=)",
            FilterOperator::Contains => "Contiene (LIKE)",
            FilterOperator::NotEquals => "Diferente de (!=)",
            FilterOperator::StartsWith => "Empieza por (^...)",
        }
    }

    /// The name of the operator, as it is offered for choice.
    pub fn name(self) -> (r: &'static str)
        ensures
            r@ == self.name_text(),
    {
        match self {
            FilterOperator::Equals => "Igual a",
            FilterOperator::Contains => "Contiene",
            FilterOperator::NotEquals => "Diferente de",
            FilterOperator::StartsWith => "Empieza por",
        }
    }
}

impl MatchRule {
    /// The rule that a user starts from: the first column below a header in
    /// the first row, matched against the identity of the document as it is.
    pub fn starter() -> (r: MatchRule)
        ensures
            r.col_letter@ == "A"@,
            r.row_num == 2,
            r.mongo_field@ == "_id"@,
            !r.use_last_8,
    {
        MatchRule {
            col_letter: "A".to_owned(),
            row_num: 2,
            mongo_field: "_id".to_owned(),
            use_last_8: false,
        }
    }
}

impl StaticFilter {
    /// The filter that a user starts from.
    pub fn starter() -> (r: StaticFilter)
        ensures
            r.field@ == "sState"@,
            r.operator == FilterOperator::Equals,
            r.value@ == "Activo"@,
    {
        StaticFilter {
            field: "sState".to_owned(),
            operator: FilterOperator::Equals,
            value: "Activo".to_owned(),
        }
    }
}

impl FillRule {
    /// The rule that a user starts from: the second column, no field yet,
    /// nothing looked up and nothing brought into canonical form.
    pub fn starter() -> (r: FillRule)
        ensures
            r.mongo_field@.len() == 0,
            r.col_letter@ == "B"@,
            r.row_num == 1,
            !r.apply_format,
            !r.is_lookup,
            r.lookup_coll@.len() == 0,
            r.lookup_target@.len() == 0,
    {
        FillRule {
            mongo_field: String::new(),
            col_letter: "B".to_owned(),
            row_num: 1,
            apply_format: false,
            is_lookup: false,
            lookup_coll: String::new(),
            lookup_target: String::new(),
        }
    }
}

/// The pattern that an operator makes of a value.
pub open spec fn operator_pattern(operator: FilterOperator, value: Seq<char>) -> Seq<char> {
    match operator {
        FilterOperator::Equals => seq!['^'] + escaped(value) + seq!['$'],
        FilterOperator::Contains => escaped(value),
        FilterOperator::NotEquals => seq!['^'] + escaped(value) + seq!['$'],
        FilterOperator::StartsWith => seq!['^'] + escaped(value),
    }
}

/// The condition that a static filter lays on its field.
pub open spec fn static_condition(operator: FilterOperator, value: Seq<char>) -> ConditionView {
    ConditionView {
        pattern: operator_pattern(operator, value),
        negated: operator is NotEquals,
    }
}

/// The filter that static filters make together, taken in order. A filter
/// without a field adds nothing; of two on one field the later one counts.
pub open spec fn static_filter(filters: Seq<StaticFilter>) -> Map<Seq<char>, ConditionView>
    decreases filters.len(),
{
    if filters.len() == 0 {
        Map::empty()
    } else {
        let before = static_filter(filters.drop_last());
        let last = filters.last();
        if last.field@.len() == 0 {
            before
        } else {
            before.insert(last.field@, static_condition(last.operator, last.value@))
        }
    }
}

/// Of the static filters on one field the last one counts: its condition is
/// the condition of the field, whatever came before it.
pub proof fn lemma_later_filter_counts(filters: Seq<StaticFilter>, i: int)
    requires
        0 <= i < filters.len(),
        filters[i].field@.len() > 0,
        forall|j: int| i < j < filters.len() ==> (#[trigger] filters[j]).field@ != filters[i].field@,
    ensures
        static_filter(filters).dom().contains(filters[i].field@),
        static_filter(filters)[filters[i].field@] == static_condition(
            filters[i].operator,
            filters[i].value@,
        ),
    decreases filters.len(),
{
    let n = filters.len() - 1;
    assert(filters.last() == filters[n]);
    if i < n {
        let head = filters.drop_last();
        assert(head[i] == filters[i]);
        assert forall|j: int| i < j < head.len() implies (#[trigger] head[j]).field@
            != head[i].field@ by {
            assert(head[j] == filters[j]);
        }
        lemma_later_filter_counts(head, i);
        assert(filters[n].field@ != filters[i].field@);
    }
}

/// The static filters name exactly the fields of those among them that have one.
pub proof fn lemma_static_filter_fields(filters: Seq<StaticFilter>, field: Seq<char>)
    ensures
        static_filter(filters).dom().contains(field) <==> field.len() > 0 && exists|i: int|
            0 <= i < filters.len() && (#[trigger] filters[i]).field@ == field,
    decreases filters.len(),
{
    if filters.len() > 0 {
        let head = filters.drop_last();
        let n = filters.len() - 1;
        lemma_static_filter_fields(head, field);
        assert(filters.last() == filters[n]);
        if field.len() > 0 && exists|i: int|
            0 <= i < filters.len() && (#[trigger] filters[i]).field@ == field {
            let w = choose|i: int| 0 <= i < filters.len() && (#[trigger] filters[i]).field@ == field;
            if w < n {
                assert(head[w] == filters[w]);
            }
        }
        if static_filter(filters).dom().contains(field) {
            if filters[n].field@ == field && field.len() > 0 {
            } else {
                assert(static_filter(head).dom().contains(field));
                let w = choose|i: int| 0 <= i < head.len() && (#[trigger] head[i]).field@ == field;
                assert(head[w] == filters[w]);
            }
        }
    }
}

/// Makes the condition of a static filter.
pub fn make_condition(operator: FilterOperator, value: &str) -> (r: Condition)
    ensures
        r@ == static_condition(operator, value@),
{
    let literal = regex::escape(value);
    proof {
        reveal_strlit("^");
        reveal_strlit("$");
    }
    match operator {
        FilterOperator::Equals => {
            let mut pattern = "^".to_owned();
            pattern.append(literal.as_str());
            pattern.append("$");
            assert(pattern@ =~= seq!['^'] + escaped(value@) + seq!['$']);
            Condition { pattern, negated: false }
        },
        FilterOperator::Contains => Condition { pattern: literal, negated: false },
        FilterOperator::NotEquals => {
            let mut pattern = "^".to_owned();
            pattern.append(literal.as_str());
            pattern.append("$");
            assert(pattern@ =~= seq!['^'] + escaped(value@) + seq!['$']);
            Condition { pattern, negated: true }
        },
        FilterOperator::StartsWith => {
            let mut pattern = "^".to_owned();
            pattern.append(literal.as_str());
            assert(pattern@ =~= seq!['^'] + escaped(value@));
            Condition { pattern, negated: false }
        },
    }
}

/// Makes the filter that every query of a run starts from.
pub fn build_static_filter(filters: &Vec<StaticFilter>) -> (r: Filter)
    ensures
        r@ == static_filter(filters@),
{
    let mut filter = Filter::new();
    let mut i: usize = 0;
    assert(filters@.take(0) =~= Seq::<StaticFilter>::empty());
    while i < filters.len()
        invariant
            0 <= i <= filters@.len(),
            filter@ == static_filter(filters@.take(i as int)),
        decreases filters@.len() - i,
    {
        let item = &filters[i];
        proof {
            let t = filters@.take(i + 1);
            assert(t.drop_last() =~= filters@.take(i as int));
            assert(t.last() == filters@[i as int]);
        }
        if !item.field.as_str().is_empty() {
            let condition = make_condition(item.operator, item.value.as_str());
            filter.insert(item.field.clone(), condition);
        }
        i += 1;
    }
    assert(filters@.take(filters@.len() as int) =~= filters@);
    filter
}

/// The last row that a match rule counts to the head of the sheet, counted
/// from zero.
pub open spec fn header_row(rule: MatchRule) -> int {
    if rule.row_num > 0 {
        rule.row_num - 1
    } else {
        0
    }
}

/// The header boundary: the largest header row of the rules, zero without rules.
pub open spec fn header_boundary_of(rules: Seq<MatchRule>) -> int
    decreases rules.len(),
{
    if rules.len() == 0 {
        0
    } else {
        let before = header_boundary_of(rules.drop_last());
        if header_row(rules.last()) > before {
            header_row(rules.last())
        } else {
            before
        }
    }
}

/// Finds the header boundary: the last row, counted from zero, that is copied
/// and never matched.
pub fn header_boundary(rules: &Vec<MatchRule>) -> (r: usize)
    ensures
        r == header_boundary_of(rules@),
        r < u32::MAX,
{
    let mut boundary: usize = 0;
    let mut i: usize = 0;
    assert(rules@.take(0) =~= Seq::<MatchRule>::empty());
    while i < rules.len()
        invariant
            0 <= i <= rules@.len(),
            boundary == header_boundary_of(rules@.take(i as int)),
            boundary < u32::MAX,
        decreases rules@.len() - i,
    {
        let row_num = rules[i].row_num;
        let row: usize = if row_num > 0 {
            (row_num - 1) as usize
        } else {
            0
        };
        proof {
            let t = rules@.take(i + 1);
            assert(t.drop_last() =~= rules@.take(i as int));
            assert(t.last() == rules@[i as int]);
        }
        if row > boundary {
            boundary = row;
        }
        i += 1;
    }
    assert(rules@.take(rules@.len() as int) =~= rules@);
    boundary
}

/// The header boundary is above no header row of the rules, and where it is
/// above zero it is the header row of one of them.
pub proof fn lemma_header_boundary_is_reached(rules: Seq<MatchRule>)
    ensures
        header_boundary_of(rules) >= 0,
        forall|i: int| 0 <= i < rules.len() ==> header_row(#[trigger] rules[i]) <= header_boundary_of(rules),
        header_boundary_of(rules) > 0 ==> exists|i: int|
            0 <= i < rules.len() && (#[trigger] rules[i]).row_num - 1 == header_boundary_of(rules),
    decreases rules.len(),
{
    if rules.len() > 0 {
        let head = rules.drop_last();
        let n = rules.len() - 1;
        lemma_header_boundary_is_reached(head);
        assert(rules.last() == rules[n]);
        assert forall|i: int| 0 <= i < rules.len() implies header_row(#[trigger] rules[i])
            <= header_boundary_of(rules) by {
            if i < n {
                assert(head[i] == rules[i]);
            }
        }
        if header_boundary_of(rules) > 0 {
            if header_row(rules[n]) > header_boundary_of(head) {
                assert(rules[n].row_num - 1 == header_boundary_of(rules));
            } else {
                let k = choose|i: int|
                    0 <= i < head.len() && (#[trigger] head[i]).row_num - 1 == header_boundary_of(head);
                assert(head[k] == rules[k]);
                assert(rules[k].row_num - 1 == header_boundary_of(rules));
            }
        }
    }
}

/// The header boundary is the largest row number among the rules less one,
/// and zero where no rule has a row number above zero.
pub proof fn lemma_header_boundary(rules: Seq<MatchRule>)
    ensures
        forall|i: int|
            0 <= i < rules.len() ==> (#[trigger] rules[i]).row_num - 1 <= header_boundary_of(rules),
        (forall|i: int| 0 <= i < rules.len() ==> (#[trigger] rules[i]).row_num == 0)
            ==> header_boundary_of(rules) == 0,
        (exists|i: int| 0 <= i < rules.len() && (#[trigger] rules[i]).row_num > 0) ==> exists|i: int|
            0 <= i < rules.len() && (#[trigger] rules[i]).row_num - 1 == header_boundary_of(rules),
{
    lemma_header_boundary_is_reached(rules);
    assert forall|i: int| 0 <= i < rules.len() implies (#[trigger] rules[i]).row_num - 1
        <= header_boundary_of(rules) by {
        assert(header_row(rules[i]) <= header_boundary_of(rules));
    }
    if exists|i: int| 0 <= i < rules.len() && (#[trigger] rules[i]).row_num > 0 {
        let w = choose|i: int| 0 <= i < rules.len() && (#[trigger] rules[i]).row_num > 0;
        assert(header_row(rules[w]) <= header_boundary_of(rules));
        if header_boundary_of(rules) == 0 {
            assert(rules[w].row_num - 1 == header_boundary_of(rules));
        }
    }
}

/// The columns of match rules, as their users wrote them.
pub open spec fn match_columns(rules: Seq<MatchRule>) -> Seq<Seq<char>> {
    Seq::new(rules.len(), |i: int| rules[i].col_letter@)
}

/// The columns of fill rules, as their users wrote them.
pub open spec fn fill_columns(rules: Seq<FillRule>) -> Seq<Seq<char>> {
    Seq::new(rules.len(), |i: int| rules[i].col_letter@)
}

/// Every one of the texts names a column.
pub open spec fn all_columns_valid(columns: Seq<Seq<char>>) -> bool {
    forall|i: int| 0 <= i < columns.len() ==> column_index(#[trigger] columns[i]) is Some
}

/// The text at `i` is the first that names no column.
pub open spec fn first_invalid_column(columns: Seq<Seq<char>>, i: int) -> bool {
    &&& 0 <= i < columns.len()
    &&& column_index(columns[i]) is None
    &&& forall|j: int| 0 <= j < i ==> column_index(#[trigger] columns[j]) is Some
}

/// The error for the first of the texts that names no column.
pub open spec fn column_fault(columns: Seq<Seq<char>>, error: ConfigErrorView) -> bool {
    exists|i: int|
        #[trigger] first_invalid_column(columns, i) && error == ConfigErrorView::InvalidColumn(
            uppercased(columns[i]),
        )
}

/// The matcher is what the rule compiles to.
pub open spec fn is_matcher_of(matcher: Matcher, rule: MatchRule) -> bool {
    &&& column_index(rule.col_letter@) == Some(matcher.column as int)
    &&& matcher.field@ == rule.mongo_field@
    &&& matcher.normalize == rule.use_last_8
}

/// The filler is what the rule compiles to.
pub open spec fn is_filler_of(filler: Filler, rule: FillRule) -> bool {
    &&& column_index(rule.col_letter@) == Some(filler.column as int)
    &&& filler.field@ == rule.mongo_field@
    &&& filler.apply_format == rule.apply_format
    &&& filler.reference is Some <==> rule.is_lookup
    &&& filler.reference matches Some(reference) ==> reference.collection@ == rule.lookup_coll@
        && reference.target@ == rule.lookup_target@
}

/// Compiles the match rules in order and stops at the first whose column is
/// not valid.
pub fn compile_match_rules(rules: &Vec<MatchRule>) -> (r: Result<Vec<Matcher>, ConfigError>)
    ensures
        all_columns_valid(match_columns(rules@)) <==> r is Ok,
        r matches Ok(matchers) ==> matchers@.len() == rules@.len() && forall|i: int|
            0 <= i < rules@.len() ==> is_matcher_of(#[trigger] matchers@[i], rules@[i]),
        r matches Err(e) ==> column_fault(match_columns(rules@), e@),
{
    let mut matchers: Vec<Matcher> = Vec::new();
    let mut i: usize = 0;
    while i < rules.len()
        invariant
            0 <= i <= rules@.len(),
            matchers@.len() == i,
            forall|j: int| 0 <= j < i ==> column_index(#[trigger] match_columns(rules@)[j]) is Some,
            forall|j: int| 0 <= j < i ==> is_matcher_of(#[trigger] matchers@[j], rules@[j]),
        decreases rules@.len() - i,
    {
        let rule = &rules[i];
        match col_letter_to_index(rule.col_letter.as_str()) {
            Ok(column) => {
                matchers.push(
                    Matcher { column, field: rule.mongo_field.clone(), normalize: rule.use_last_8 },
                );
            },
            Err(e) => {
                proof {
                    assert(first_invalid_column(match_columns(rules@), i as int));
                    assert(!all_columns_valid(match_columns(rules@)));
                }
                return Err(e);
            },
        }
        i += 1;
    }
    Ok(matchers)
}

/// Compiles the fill rules in order and stops at the first whose column is
/// not valid.
pub fn compile_fill_rules(rules: &Vec<FillRule>) -> (r: Result<Vec<Filler>, ConfigError>)
    ensures
        all_columns_valid(fill_columns(rules@)) <==> r is Ok,
        r matches Ok(fillers) ==> fillers@.len() == rules@.len() && forall|i: int|
            0 <= i < rules@.len() ==> is_filler_of(#[trigger] fillers@[i], rules@[i]),
        r matches Err(e) ==> column_fault(fill_columns(rules@), e@),
{
    let mut fillers: Vec<Filler> = Vec::new();
    let mut i: usize = 0;
    while i < rules.len()
        invariant
            0 <= i <= rules@.len(),
            fillers@.len() == i,
            forall|j: int| 0 <= j < i ==> column_index(#[trigger] fill_columns(rules@)[j]) is Some,
            forall|j: int| 0 <= j < i ==> is_filler_of(#[trigger] fillers@[j], rules@[j]),
        decreases rules@.len() - i,
    {
        let rule = &rules[i];
        match col_letter_to_index(rule.col_letter.as_str()) {
            Ok(column) => {
                let reference = if rule.is_lookup {
                    Some(
                        Reference {
                            collection: rule.lookup_coll.clone(),
                            target: rule.lookup_target.clone(),
                        },
                    )
                } else {
                    None
                };
                fillers.push(
                    Filler {
                        column,
                        field: rule.mongo_field.clone(),
                        apply_format: rule.apply_format,
                        reference,
                    },
                );
            },
            Err(e) => {
                proof {
                    assert(first_invalid_column(fill_columns(rules@), i as int));
                    assert(!all_columns_valid(fill_columns(rules@)));
                }
                return Err(e);
            },
        }
        i += 1;
    }
    Ok(fillers)
}

} // verus!
