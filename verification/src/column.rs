//! Column letters of a sheet and their zero-based indices.

use vstd::prelude::*;
use vstd::string::*;
use crate::error::{ConfigError, ConfigErrorView};
use crate::text::uppercased;

verus! {

/// One of the letters A to Z.
pub open spec fn is_column_letter(c: char) -> bool {
    'A' <= c <= 'Z'
}

/// The digit a letter stands for: A is 1, Z is 26.
pub open spec fn letter_value(c: char) -> int {
    c as int - 'A' as int + 1
}

/// Every character of `s` is one of the letters A to Z.
pub open spec fn all_column_letters(s: Seq<char>) -> bool {
    forall|i: int| 0 <= i < s.len() ==> is_column_letter(#[trigger] s[i])
}

/// The number that `s` writes in base 26 with the digits 1 to 26, the most
/// significant letter first.
pub open spec fn letters_value(s: Seq<char>) -> int
    decreases s.len(),
{
    if s.len() == 0 {
        0
    } else {
        letters_value(s.drop_last()) * 26 + letter_value(s.last())
    }
}

/// The zero-based index of the column that the letters `s` name, if they name one.
pub open spec fn column_of(s: Seq<char>) -> Option<int> {
    if s.len() > 0 && all_column_letters(s) {
        Some(letters_value(s) - 1)
    } else {
        None
    }
}

/// The letters name a column that a `usize` can hold.
pub open spec fn names_column(s: Seq<char>) -> bool {
    column_of(s) is Some && column_of(s)->0 <= usize::MAX
}

/// A prefix of letters never has a larger value than the whole.
pub proof fn lemma_prefix_value(s: Seq<char>, k: int)
    requires
        all_column_letters(s),
        0 <= k <= s.len(),
    ensures
        0 <= letters_value(s.take(k)) <= letters_value(s),
        k > 0 ==> letters_value(s.take(k)) >= 1,
    decreases s.len() - k,
{
    if k == s.len() {
        assert(s.take(k) =~= s);
        lemma_value_positive(s);
    } else {
        lemma_prefix_value(s, k + 1);
        let t = s.take(k + 1);
        assert(t.drop_last() =~= s.take(k));
        assert(t.last() == s[k]);
        assert(is_column_letter(s[k]));
        lemma_value_positive(s.take(k));
    }
}

/// Letters have a value of at least zero, and of at least one unless there are none.
pub proof fn lemma_value_positive(s: Seq<char>)
    requires
        all_column_letters(s),
    ensures
        letters_value(s) >= 0,
        s.len() > 0 ==> letters_value(s) >= 1,
    decreases s.len(),
{
    if s.len() > 0 {
        assert(is_column_letter(s.last()));
        lemma_value_positive(s.drop_last());
    }
}

/// The letter that stands for the digit `d + 1`: A for 0, Z for 25.
pub open spec fn letter_of(d: nat) -> char {
    ('A' as int + d) as char
}

/// The letters that name the column with zero-based index `n`.
pub open spec fn column_letters(n: nat) -> Seq<char>
    decreases n,
{
    if n < 26 {
        seq![letter_of(n)]
    } else {
        column_letters((n / 26 - 1) as nat).push(letter_of(n % 26))
    }
}

/// Naming is one to one: letters that name the same column are the same letters.
pub proof fn lemma_column_of_injective(a: Seq<char>, b: Seq<char>)
    requires
        column_of(a) is Some,
        column_of(a) == column_of(b),
    ensures
        a == b,
    decreases a.len(),
{
    let head_a = a.drop_last();
    let head_b = b.drop_last();
    assert(is_column_letter(a.last()));
    assert(is_column_letter(b.last()));
    assert(all_column_letters(head_a)) by {
        assert forall|i: int| 0 <= i < head_a.len() implies is_column_letter(
            #[trigger] head_a[i],
        ) by {
            assert(head_a[i] == a[i]);
        }
    }
    assert(all_column_letters(head_b)) by {
        assert forall|i: int| 0 <= i < head_b.len() implies is_column_letter(
            #[trigger] head_b[i],
        ) by {
            assert(head_b[i] == b[i]);
        }
    }
    lemma_value_positive(head_a);
    lemma_value_positive(head_b);
    assert(letters_value(head_a) == letters_value(head_b));
    assert(a.last() == b.last());
    if head_a.len() > 0 {
        lemma_column_of_injective(head_a, head_b);
    }
    assert(head_a =~= head_b);
    assert(a =~= head_a.push(a.last()));
    assert(b =~= head_b.push(b.last()));
}

/// Naming reaches every column: `column_letters(n)` names the column `n`,
/// and a column that a `usize` can hold has a name that is accepted.
pub proof fn lemma_column_of_surjective(n: nat)
    ensures
        column_of(column_letters(n)) == Some(n as int),
        n <= usize::MAX ==> names_column(column_letters(n)),
    decreases n,
{
    let s = column_letters(n);
    if n < 26 {
        assert(s.drop_last() =~= Seq::<char>::empty());
        assert(s.last() == letter_of(n));
        assert(letters_value(s.drop_last()) == 0);
    } else {
        let m = (n / 26 - 1) as nat;
        lemma_column_of_surjective(m);
        assert(s.drop_last() =~= column_letters(m));
        assert(s.last() == letter_of(n % 26));
        assert forall|i: int| 0 <= i < s.len() implies is_column_letter(#[trigger] s[i]) by {
            if i < s.len() - 1 {
                assert(s[i] == column_letters(m)[i]);
            }
        }
    }
}

/// Decodes letters that were already brought to upper case.
/// Letters that are empty or hold anything but A to Z name no column.
pub fn decode_column(letters: &str) -> (r: Option<usize>)
    ensures
        names_column(letters@) <==> r is Some,
        r matches Some(i) ==> column_of(letters@) == Some(i as int),
        letters@.len() == 0 ==> r is None,
        !all_column_letters(letters@) ==> r is None,
{
    let n = letters.unicode_len();
    if n == 0 {
        return None;
    }
    let mut value: u128 = 0;
    let mut i: usize = 0;
    while i < n
        invariant
            n == letters@.len(),
            0 <= i <= n,
            all_column_letters(letters@.take(i as int)),
            value == letters_value(letters@.take(i as int)),
            value <= usize::MAX as int + 1,
        decreases n - i,
    {
        let c = letters.get_char(i);
        if !('A' <= c && c <= 'Z') {
            assert(!is_column_letter(letters@[i as int]));
            return None;
        }
        let digit: u128 = (c as u32 - 'A' as u32 + 1) as u128;
        let next: u128 = value * 26 + digit;
        proof {
            let t = letters@.take(i + 1);
            assert(t.drop_last() =~= letters@.take(i as int));
            assert(t.last() == c);
            assert(next == letters_value(t));
            assert forall|j: int| 0 <= j < t.len() implies is_column_letter(#[trigger] t[j]) by {
                if j < i {
                    assert(t[j] == letters@.take(i as int)[j]);
                }
            }
        }
        if next > usize::MAX as u128 + 1 {
            proof {
                if all_column_letters(letters@) {
                    lemma_prefix_value(letters@, i + 1);
                }
            }
            return None;
        }
        value = next;
        i += 1;
    }
    proof {
        assert(letters@.take(n as int) =~= letters@);
        lemma_value_positive(letters@);
    }
    Some((value - 1) as usize)
}

/// The zero-based index of the column that a user's text names. Lower case
/// is accepted; white space is not, nor anything else but letters. `None`
/// where the text names no column that a `usize` can hold.
pub open spec fn column_index(letter: Seq<char>) -> Option<int> {
    let letters = uppercased(letter);
    if names_column(letters) {
        column_of(letters)
    } else {
        None
    }
}

/// Reads a column as a user writes it, in either case. A text that is
/// empty or holds anything but letters, white space included, is an invalid
/// column. The error carries the text in upper case.
pub fn col_letter_to_index(letter: &str) -> (r: Result<usize, ConfigError>)
    ensures
        column_index(letter@) is Some <==> r is Ok,
        r matches Ok(i) ==> column_index(letter@) == Some(i as int),
        r matches Err(e) ==> e@ == ConfigErrorView::InvalidColumn(uppercased(letter@)),
        uppercased(letter@).len() == 0 ==> r is Err,
        !all_column_letters(uppercased(letter@)) ==> r is Err,
{
    let letters = letter.to_uppercase();
    match decode_column(letters.as_str()) {
        Some(i) => Ok(i),
        None => Err(ConfigError::InvalidColumn(letters)),
    }
}

} // verus!
