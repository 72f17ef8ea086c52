//! Query filters: a condition on the text of a field, and a filter that holds
//! one condition for each field it names.

use vstd::prelude::*;
use vstd::string::*;

verus! {

/// A character that has a meaning of its own in a pattern.
pub open spec fn is_meta_character(c: char) -> bool {
    c == '\\' || c == '.' || c == '+' || c == '*' || c == '?' || c == '(' || c == ')' || c == '|'
        || c == '[' || c == ']' || c == '{' || c == '}' || c == '^' || c == '$' || c == '#' || c
        == '&' || c == '-' || c == '~'
}

/// One character as a pattern that matches only that character.
pub open spec fn escaped_char(c: char) -> Seq<char> {
    if is_meta_character(c) {
        seq!['\\', c]
    } else {
        seq![c]
    }
}

/// A text as a pattern that matches only that text: a backslash stands before
/// each character that has a meaning of its own.
pub open spec fn escaped(s: Seq<char>) -> Seq<char>
    decreases s.len(),
{
    if s.len() == 0 {
        Seq::empty()
    } else {
        escaped(s.drop_last()) + escaped_char(s.last())
    }
}

/// `regex::escape` of the regex crate. Taken on trust: it copies the text
/// character by character and puts a backslash before each of the eighteen
/// characters that the pattern syntax gives a meaning, as `escaped` says.
pub assume_specification[ regex::escape ](pattern: &str) -> (r: String)
    ensures
        r@ == escaped(pattern@),
;

/// A pattern that spells out one text and nothing else: no character in it
/// has a meaning of its own, because each one that could stands behind a
/// backslash.
pub open spec fn is_literal_pattern(p: Seq<char>) -> bool
    decreases p.len(),
{
    if p.len() == 0 {
        true
    } else if p[0] == '\\' {
        p.len() >= 2 && is_meta_character(p[1]) && is_literal_pattern(p.skip(2))
    } else {
        !is_meta_character(p[0]) && is_literal_pattern(p.skip(1))
    }
}

/// The text that a literal pattern spells out.
pub open spec fn literal_of(p: Seq<char>) -> Seq<char>
    decreases p.len(),
{
    if p.len() == 0 {
        Seq::empty()
    } else if p[0] == '\\' && p.len() >= 2 {
        seq![p[1]] + literal_of(p.skip(2))
    } else {
        seq![p[0]] + literal_of(p.skip(1))
    }
}

/// A literal pattern followed by another is literal, and spells out the two
/// texts one after the other.
pub proof fn lemma_literal_patterns_join(a: Seq<char>, b: Seq<char>)
    requires
        is_literal_pattern(a),
        is_literal_pattern(b),
    ensures
        is_literal_pattern(a + b),
        literal_of(a + b) == literal_of(a) + literal_of(b),
    decreases a.len(),
{
    if a.len() == 0 {
        assert(a + b =~= b);
        assert(literal_of(a) + literal_of(b) =~= literal_of(b));
    } else if a[0] == '\\' {
        lemma_literal_patterns_join(a.skip(2), b);
        assert((a + b).skip(2) =~= a.skip(2) + b);
        assert(literal_of(a + b) =~= literal_of(a) + literal_of(b));
    } else {
        lemma_literal_patterns_join(a.skip(1), b);
        assert((a + b).skip(1) =~= a.skip(1) + b);
        assert(literal_of(a + b) =~= literal_of(a) + literal_of(b));
    }
}

/// An escaped text is never read as a fragment of the pattern language: it
/// is a literal pattern, and the text it spells out is the text itself.
pub proof fn lemma_escaped_is_literal(s: Seq<char>)
    ensures
        is_literal_pattern(escaped(s)),
        literal_of(escaped(s)) == s,
    decreases s.len(),
{
    if s.len() > 0 {
        let head = escaped(s.drop_last());
        let tail = escaped_char(s.last());
        lemma_escaped_is_literal(s.drop_last());
        assert(is_literal_pattern(tail) && literal_of(tail) =~= seq![s.last()]) by {
            let rest = if is_meta_character(s.last()) {
                tail.skip(2)
            } else {
                tail.skip(1)
            };
            assert(rest =~= Seq::<char>::empty());
            assert(is_literal_pattern(rest));
            assert(literal_of(rest) =~= Seq::<char>::empty());
        }
        lemma_literal_patterns_join(head, tail);
        assert(s.drop_last() + seq![s.last()] =~= s);
    }
}

/// What a condition says, over plain values.
pub struct ConditionView {
    /// The pattern that the text of the field is held against.
    pub pattern: Seq<char>,
    /// Whether the condition holds where the pattern does not match.
    pub negated: bool,
}

/// A condition on the text of a field: it matches a pattern, letter case
/// set aside, or it does not.
#[derive(Debug, Clone, PartialEq, Eq)]
pub struct Condition {
    /// The pattern that the text of the field is held against.
    pub pattern: String,
    /// Whether the condition holds where the pattern does not match.
    pub negated: bool,
}

impl View for Condition {
    type V = ConditionView;

    open spec fn view(&self) -> ConditionView {
        ConditionView { pattern: self.pattern@, negated: self.negated }
    }
}

impl Condition {
    /// The option under which every pattern is matched: letter case is set aside.
    pub fn options() -> (r: &'static str)
        ensures
            r@ == seq!['i'],
    {
        proof {
            reveal_strlit("i");
        }
        let r = "i";
        assert(r@ =~= seq!['i']);
        r
    }

    /// A copy of the condition.
    pub fn duplicate(&self) -> (r: Condition)
        ensures
            r@ == self@,
    {
        Condition { pattern: self.pattern.clone(), negated: self.negated }
    }
}

/// A condition together with the field it is about.
#[derive(Debug, Clone, PartialEq, Eq)]
pub struct Clause {
    /// The name of the field.
    pub field: String,
    /// The condition on it.
    pub condition: Condition,
}

/// The conditions that a list of clauses lays down, field by field. Where a
/// field comes twice, the later clause counts.
pub open spec fn clauses_map(clauses: Seq<Clause>) -> Map<Seq<char>, ConditionView>
    decreases clauses.len(),
{
    if clauses.len() == 0 {
        Map::empty()
    } else {
        clauses_map(clauses.drop_last()).insert(clauses.last().field@, clauses.last().condition@)
    }
}

/// No field comes twice.
pub open spec fn distinct_fields(clauses: Seq<Clause>) -> bool {
    forall|i: int, j: int|
        0 <= i < j < clauses.len() ==> (#[trigger] clauses[i]).field@ != (#[trigger] clauses[j]).field@
}

/// A field that no clause names has no condition.
pub proof fn lemma_absent_field(clauses: Seq<Clause>, field: Seq<char>)
    requires
        forall|i: int| 0 <= i < clauses.len() ==> (#[trigger] clauses[i]).field@ != field,
    ensures
        !clauses_map(clauses).dom().contains(field),
    decreases clauses.len(),
{
    if clauses.len() > 0 {
        let head = clauses.drop_last();
        assert forall|i: int| 0 <= i < head.len() implies (#[trigger] head[i]).field@ != field by {
            assert(head[i] == clauses[i]);
        }
        lemma_absent_field(head, field);
        assert(clauses.last() == clauses[clauses.len() - 1]);
    }
}

/// Where no field comes twice, each clause is the condition of its field.
pub proof fn lemma_present_field(clauses: Seq<Clause>, i: int)
    requires
        distinct_fields(clauses),
        0 <= i < clauses.len(),
    ensures
        clauses_map(clauses).dom().contains(clauses[i].field@),
        clauses_map(clauses)[clauses[i].field@] == clauses[i].condition@,
    decreases clauses.len(),
{
    let head = clauses.drop_last();
    if i < clauses.len() - 1 {
        assert(distinct_fields(head)) by {
            assert forall|a: int, b: int| 0 <= a < b < head.len() implies (#[trigger] head[a]).field@
                != (#[trigger] head[b]).field@ by {
                assert(head[a] == clauses[a] && head[b] == clauses[b]);
            }
        }
        lemma_present_field(head, i);
        assert(head[i] == clauses[i]);
        assert(clauses[i].field@ != clauses[clauses.len() - 1].field@);
    }
}

/// Where no field comes twice, replacing a clause by one for the same field
/// gives that field its new condition and leaves the others as they were.
pub proof fn lemma_replaced_clause(clauses: Seq<Clause>, i: int, clause: Clause)
    requires
        distinct_fields(clauses),
        0 <= i < clauses.len(),
        clause.field@ == clauses[i].field@,
    ensures
        distinct_fields(clauses.update(i, clause)),
        clauses_map(clauses.update(i, clause)) == clauses_map(clauses).insert(
            clause.field@,
            clause.condition@,
        ),
    decreases clauses.len(),
{
    let after = clauses.update(i, clause);
    let head = clauses.drop_last();
    assert(distinct_fields(after)) by {
        assert forall|a: int, b: int| 0 <= a < b < after.len() implies (#[trigger] after[a]).field@
            != (#[trigger] after[b]).field@ by {
            assert(after[a].field@ == clauses[a].field@);
            assert(after[b].field@ == clauses[b].field@);
        }
    }
    if i == clauses.len() - 1 {
        assert(after.drop_last() =~= head);
        assert(clauses_map(after) =~= clauses_map(clauses).insert(clause.field@, clause.condition@));
    } else {
        assert(distinct_fields(head)) by {
            assert forall|a: int, b: int| 0 <= a < b < head.len() implies (#[trigger] head[a]).field@
                != (#[trigger] head[b]).field@ by {
                assert(head[a] == clauses[a] && head[b] == clauses[b]);
            }
        }
        assert(head[i] == clauses[i]);
        lemma_replaced_clause(head, i, clause);
        assert(after.drop_last() =~= head.update(i, clause));
        assert(after.last() == clauses.last());
        assert(clauses[i].field@ != clauses[clauses.len() - 1].field@);
        assert(clauses_map(after) =~= clauses_map(clauses).insert(clause.field@, clause.condition@));
    }
}

/// Where no field comes twice, there are as many conditions as clauses.
pub proof fn lemma_count_fields(clauses: Seq<Clause>)
    requires
        distinct_fields(clauses),
    ensures
        clauses_map(clauses).dom().finite(),
        clauses_map(clauses).dom().len() == clauses.len(),
    decreases clauses.len(),
{
    if clauses.len() > 0 {
        let head = clauses.drop_last();
        assert(distinct_fields(head)) by {
            assert forall|a: int, b: int| 0 <= a < b < head.len() implies (#[trigger] head[a]).field@
                != (#[trigger] head[b]).field@ by {
                assert(head[a] == clauses[a] && head[b] == clauses[b]);
            }
        }
        lemma_count_fields(head);
        assert forall|i: int| 0 <= i < head.len() implies (#[trigger] head[i]).field@
            != clauses.last().field@ by {
            assert(head[i] == clauses[i]);
            assert(clauses.last() == clauses[clauses.len() - 1]);
        }
        lemma_absent_field(head, clauses.last().field@);
    }
}

/// A filter: for each field it names, the condition that a document must meet.
/// A document passes when it meets them all.
#[derive(Debug, PartialEq, Eq)]
pub struct Filter {
    clauses: Vec<Clause>,
}

impl View for Filter {
    type V = Map<Seq<char>, ConditionView>;

    closed spec fn view(&self) -> Map<Seq<char>, ConditionView> {
        clauses_map(self.clauses@)
    }
}

impl Filter {
    #[verifier::type_invariant]
    spec fn well_formed(&self) -> bool {
        distinct_fields(self.clauses@)
    }

    /// A filter that every document passes.
    pub fn new() -> (r: Filter)
        ensures
            r@ == Map::<Seq<char>, ConditionView>::empty(),
    {
        Filter { clauses: Vec::new() }
    }

    /// The number of fields that the filter names.
    pub fn len(&self) -> (n: usize)
        ensures
            self@.dom().finite(),
            n == self@.dom().len(),
    {
        proof {
            use_type_invariant(self);
            lemma_count_fields(self.clauses@);
        }
        self.clauses.len()
    }

    /// The condition on a field, if the filter names it.
    pub fn get(&self, field: &String) -> (r: Option<&Condition>)
        ensures
            self@.dom().contains(field@) <==> r is Some,
            r matches Some(c) ==> self@[field@] == c@,
    {
        proof {
            use_type_invariant(self);
        }
        let mut i: usize = 0;
        while i < self.clauses.len()
            invariant
                0 <= i <= self.clauses@.len(),
                distinct_fields(self.clauses@),
                forall|j: int| 0 <= j < i ==> (#[trigger] self.clauses@[j]).field@ != field@,
            decreases self.clauses@.len() - i,
        {
            if self.clauses[i].field == *field {
                proof {
                    lemma_present_field(self.clauses@, i as int);
                }
                return Some(&self.clauses[i].condition);
            }
            i += 1;
        }
        proof {
            lemma_absent_field(self.clauses@, field@);
        }
        None
    }

    /// Lays down the condition on a field. A condition that the filter held
    /// for that field is replaced: of two conditions on one field the later
    /// one counts.
    pub fn insert(&mut self, field: String, condition: Condition)
        ensures
            final(self)@ == old(self)@.insert(field@, condition@),
    {
        proof {
            use_type_invariant(&*self);
        }
        let mut clauses: Vec<Clause> = Vec::new();
        std::mem::swap(&mut self.clauses, &mut clauses);
        let ghost before = clauses@;
        let mut i: usize = 0;
        while i < clauses.len()
            invariant
                0 <= i <= clauses@.len(),
                clauses@ == before,
                before == old(self).clauses@,
                distinct_fields(before),
                forall|j: int| 0 <= j < i ==> (#[trigger] before[j]).field@ != field@,
            decreases clauses@.len() - i,
        {
            if clauses[i].field == field {
                let clause = Clause { field, condition };
                proof {
                    lemma_replaced_clause(before, i as int, clause);
                }
                clauses.set(i, clause);
                self.clauses = clauses;
                return ;
            }
            i += 1;
        }
        let clause = Clause { field, condition };
        proof {
            let after = before.push(clause);
            assert(after.drop_last() =~= before);
            assert forall|a: int, b: int| 0 <= a < b < after.len() implies (#[trigger] after[a]).field@
                != (#[trigger] after[b]).field@ by {
                assert(after[a] == before[a]);
                if b < before.len() {
                    assert(after[b] == before[b]);
                }
            }
        }
        clauses.push(clause);
        self.clauses = clauses;
    }

    /// The clauses of the filter, one for each field it names.
    pub fn clauses(&self) -> (r: &Vec<Clause>)
        ensures
            distinct_fields(r@),
            clauses_map(r@) == self@,
    {
        proof {
            use_type_invariant(self);
        }
        &self.clauses
    }

    /// A copy of the filter.
    pub fn duplicate(&self) -> (r: Filter)
        ensures
            r@ == self@,
    {
        proof {
            use_type_invariant(self);
        }
        let mut clauses: Vec<Clause> = Vec::new();
        let mut i: usize = 0;
        while i < self.clauses.len()
            invariant
                0 <= i <= self.clauses@.len(),
                distinct_fields(self.clauses@),
                clauses@.len() == i,
                forall|j: int|
                    0 <= j < i ==> (#[trigger] clauses@[j]).field@ == self.clauses@[j].field@
                        && clauses@[j].condition@ == self.clauses@[j].condition@,
            decreases self.clauses@.len() - i,
        {
            let clause = Clause {
                field: self.clauses[i].field.clone(),
                condition: self.clauses[i].condition.duplicate(),
            };
            clauses.push(clause);
            i += 1;
        }
        proof {
            lemma_same_clauses(clauses@, self.clauses@);
        }
        Filter { clauses }
    }
}

impl Clone for Filter {
    fn clone(&self) -> (r: Filter)
        ensures
            r@ == self@,
    {
        self.duplicate()
    }
}

/// Lists of clauses that agree field by field and condition by condition lay
/// down the same conditions.
pub proof fn lemma_same_clauses(a: Seq<Clause>, b: Seq<Clause>)
    requires
        a.len() == b.len(),
        forall|j: int|
            0 <= j < a.len() ==> (#[trigger] a[j]).field@ == b[j].field@ && a[j].condition@
                == b[j].condition@,
    ensures
        clauses_map(a) == clauses_map(b),
        distinct_fields(b) ==> distinct_fields(a),
    decreases a.len(),
{
    if a.len() > 0 {
        let ha = a.drop_last();
        let hb = b.drop_last();
        assert forall|j: int| 0 <= j < ha.len() implies (#[trigger] ha[j]).field@ == hb[j].field@
            && ha[j].condition@ == hb[j].condition@ by {
            assert(ha[j] == a[j] && hb[j] == b[j]);
        }
        lemma_same_clauses(ha, hb);
        assert(a.last() == a[a.len() - 1]);
    }
    if distinct_fields(b) {
        assert forall|i: int, j: int| 0 <= i < j < a.len() implies (#[trigger] a[i]).field@ != (
        #[trigger] a[j]).field@ by {
            assert(a[i].field@ == b[i].field@);
            assert(a[j].field@ == b[j].field@);
        }
    }
}

} // verus!
