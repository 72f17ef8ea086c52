//! Documents as the store returns them, and the text of their fields.

use vstd::prelude::*;
use vstd::string::*;
use crate::text::{decimal_text, signed_to_text};

verus! {

/// The value of one field of a document.
#[derive(Debug, Clone, PartialEq, Eq)]
pub enum FieldValue {
    /// A text.
    Text(String),
    /// An integer of 32 bits.
    Int32(i32),
    /// An integer of 64 bits.
    Int64(i64),
    /// A number with a fractional type, as it prints.
    Double(String),
    /// The identity of a document, as it prints.
    Identity(String),
    /// A point in time, in its structural text form.
    Timestamp(String),
    /// Any other value, in its structural text form.
    Other(String),
}

impl FieldValue {
    /// A copy of the value.
    pub fn duplicate(&self) -> (r: FieldValue)
        ensures
            r == *self,
    {
        match self {
            FieldValue::Text(s) => FieldValue::Text(s.clone()),
            FieldValue::Int32(v) => FieldValue::Int32(*v),
            FieldValue::Int64(v) => FieldValue::Int64(*v),
            FieldValue::Double(s) => FieldValue::Double(s.clone()),
            FieldValue::Identity(s) => FieldValue::Identity(s.clone()),
            FieldValue::Timestamp(s) => FieldValue::Timestamp(s.clone()),
            FieldValue::Other(s) => FieldValue::Other(s.clone()),
        }
    }
}

/// `s` without its double quotes.
pub open spec fn without_quotes(s: Seq<char>) -> Seq<char>
    decreases s.len(),
{
    if s.len() == 0 {
        s
    } else if s.last() == '"' {
        without_quotes(s.drop_last())
    } else {
        without_quotes(s.drop_last()).push(s.last())
    }
}

/// The text of a field value. Structural text loses its double quotes.
pub open spec fn field_text(value: FieldValue) -> Seq<char> {
    match value {
        FieldValue::Text(s) => s@,
        FieldValue::Int32(v) => decimal_text(v as int),
        FieldValue::Int64(v) => decimal_text(v as int),
        FieldValue::Double(s) => s@,
        FieldValue::Identity(s) => s@,
        FieldValue::Timestamp(s) => without_quotes(s@),
        FieldValue::Other(s) => without_quotes(s@),
    }
}

/// Removes the double quotes from a text.
pub fn strip_quotes(s: &str) -> (r: String)
    ensures
        r@ == without_quotes(s@),
{
    let n = s.unicode_len();
    let mut out = String::new();
    let mut i: usize = 0;
    while i < n
        invariant
            n == s@.len(),
            0 <= i <= n,
            out@ == without_quotes(s@.take(i as int)),
        decreases n - i,
    {
        let c = s.get_char(i);
        proof {
            let t = s@.take(i + 1);
            assert(t.drop_last() =~= s@.take(i as int));
            assert(t.last() == c);
            assert(s@.subrange(i as int, i + 1) =~= seq![c]);
        }
        if c != '"' {
            out.append(s.substring_char(i, i + 1));
        }
        i += 1;
    }
    proof {
        assert(s@.take(n as int) =~= s@);
    }
    out
}

/// Turns a field value into the text that is written to the sheet.
pub fn field_to_text(value: &FieldValue) -> (r: String)
    ensures
        r@ == field_text(*value),
{
    match value {
        FieldValue::Text(s) => s.clone(),
        FieldValue::Int32(v) => signed_to_text(*v as i64),
        FieldValue::Int64(v) => signed_to_text(*v),
        FieldValue::Double(s) => s.clone(),
        FieldValue::Identity(s) => s.clone(),
        FieldValue::Timestamp(s) => strip_quotes(s.as_str()),
        FieldValue::Other(s) => strip_quotes(s.as_str()),
    }
}

/// One field of a document.
#[derive(Debug, Clone, PartialEq, Eq)]
pub struct Field {
    /// The name of the field.
    pub name: String,
    /// Its value.
    pub value: FieldValue,
}

/// A document: its fields in the order in which the store gave them.
#[derive(Debug, Clone, PartialEq, Eq)]
pub struct Record {
    /// The fields.
    pub fields: Vec<Field>,
}

/// The value of the first of `fields` with a name, if there is one.
pub open spec fn field_value(fields: Seq<Field>, name: Seq<char>) -> Option<FieldValue>
    decreases fields.len(),
{
    if fields.len() == 0 {
        None
    } else if fields[0].name@ == name {
        Some(fields[0].value)
    } else {
        field_value(fields.drop_first(), name)
    }
}

impl Record {
    /// The value of the first field with a name, if there is one.
    pub open spec fn value_of(&self, name: Seq<char>) -> Option<FieldValue> {
        field_value(self.fields@, name)
    }

    /// The value of the first field with a name, if there is one.
    pub fn get(&self, name: &String) -> (r: Option<&FieldValue>)
        ensures
            self.value_of(name@) is Some <==> r is Some,
            r matches Some(v) ==> self.value_of(name@) == Some(*v),
    {
        let mut i: usize = 0;
        assert(self.fields@.skip(0) =~= self.fields@);
        while i < self.fields.len()
            invariant
                0 <= i <= self.fields@.len(),
                field_value(self.fields@, name@) == field_value(self.fields@.skip(i as int), name@),
            decreases self.fields@.len() - i,
        {
            proof {
                assert(self.fields@.skip(i as int).drop_first() =~= self.fields@.skip(i + 1));
            }
            if self.fields[i].name == *name {
                return Some(&self.fields[i].value);
            }
            i += 1;
        }
        None
    }
}

} // verus!
