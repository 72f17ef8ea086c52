//! Text transforms shared by the matching side and the filling side.

use vstd::prelude::*;
use vstd::string::*;

verus! {

/// What `str::trim` makes of a text with the characters `s`: the text
/// without the white space at its two ends, as Unicode defines white space.
pub uninterp spec fn trimmed(s: Seq<char>) -> Seq<char>;

/// What `str::to_uppercase` makes of a text with the characters `s`: the
/// text in upper case, as Unicode defines it.
pub uninterp spec fn uppercased(s: Seq<char>) -> Seq<char>;

/// `str::trim` of the standard library. Taken on trust, and no more than
/// this: what it returns depends on the characters of the text alone, and
/// goes by the name `trimmed`.
pub assume_specification[ str::trim ](s: &str) -> (r: &str)
    ensures
        r@ == trimmed(s@),
;

/// `str::to_uppercase` of the standard library. Taken on trust, and no more
/// than this: what it returns depends on the characters of the text alone,
/// and goes by the name `uppercased`.
pub assume_specification[ str::to_uppercase ](s: &str) -> (r: String)
    ensures
        r@ == uppercased(s@),
;

/// The number of characters an identifier keeps.
pub const ID_WIDTH: usize = 8;

/// The last `n` characters of `s`, or all of `s` when it has no more than `n`.
pub open spec fn last_chars(s: Seq<char>, n: nat) -> Seq<char> {
    if s.len() > n {
        s.subrange(s.len() - n, s.len() as int)
    } else {
        s
    }
}

/// The canonical form of an identifier: trimmed, upper case, last eight characters.
pub open spec fn normalized(s: Seq<char>) -> Seq<char> {
    last_chars(uppercased(trimmed(s)), ID_WIDTH as nat)
}

/// What is kept of a text is its ending, and no longer than asked.
pub proof fn lemma_last_chars_is_ending(s: Seq<char>, n: nat)
    ensures
        last_chars(s, n).len() == if s.len() > n {
            n
        } else {
            s.len()
        },
        s.subrange(0, s.len() - last_chars(s, n).len()) + last_chars(s, n) == s,
        last_chars(last_chars(s, n), n) == last_chars(s, n),
{
    assert(s.subrange(0, s.len() - last_chars(s, n).len()) + last_chars(s, n) =~= s);
}

/// The canonical form is no longer than eight characters, and it is the
/// whole of the trimmed upper-case text where that is no longer.
pub proof fn lemma_normalized_is_short(s: Seq<char>)
    ensures
        normalized(s).len() <= ID_WIDTH,
        uppercased(trimmed(s)).len() <= ID_WIDTH ==> normalized(s) == uppercased(trimmed(s)),
{
}

/// Bringing a text into canonical form changes nothing where the text is
/// in that form already: trimmed, in upper case and no longer than eight
/// characters.
pub proof fn lemma_canonical_text_is_fixed(s: Seq<char>)
    requires
        uppercased(trimmed(s)) == s,
        s.len() <= ID_WIDTH,
    ensures
        normalized(s) == s,
{
}

/// Keeps the last `n` characters of `s`.
pub fn keep_last(s: &str, n: usize) -> (r: String)
    ensures
        r@ == last_chars(s@, n as nat),
{
    let len = s.unicode_len();
    if len > n {
        s.substring_char(len - n, len).to_owned()
    } else {
        s.to_owned()
    }
}

/// Brings an identifier into its canonical form. A text that is no longer
/// than eight characters once it is trimmed and in upper case is kept whole.
pub fn format_id_string(input: &str) -> (r: String)
    ensures
        r@ == normalized(input@),
        r@.len() <= ID_WIDTH,
        uppercased(trimmed(input@)).len() <= ID_WIDTH ==> r@ == uppercased(trimmed(input@)),
{
    let upper = input.trim().to_uppercase();
    keep_last(upper.as_str(), ID_WIDTH)
}

/// The character that writes the decimal digit `d`.
pub open spec fn digit_char(d: nat) -> char {
    ('0' as int + d) as char
}

/// The decimal digits of `n`, without leading zeros.
pub open spec fn decimal_digits(n: nat) -> Seq<char>
    decreases n,
{
    if n < 10 {
        seq![digit_char(n)]
    } else {
        decimal_digits(n / 10).push(digit_char(n % 10))
    }
}

/// The decimal text of `v`, with a minus sign in front of a negative number.
pub open spec fn decimal_text(v: int) -> Seq<char> {
    if v < 0 {
        seq!['-'] + decimal_digits((-v) as nat)
    } else {
        decimal_digits(v as nat)
    }
}

/// The text of a truth value.
pub open spec fn bool_text(b: bool) -> Seq<char> {
    if b {
        seq!['t', 'r', 'u', 'e']
    } else {
        seq!['f', 'a', 'l', 's', 'e']
    }
}

fn digit_str(d: u64) -> (r: &'static str)
    requires
        d < 10,
    ensures
        r@ == seq![digit_char(d as nat)],
{
    proof {
        reveal_strlit("0");
        reveal_strlit("1");
        reveal_strlit("2");
        reveal_strlit("3");
        reveal_strlit("4");
        reveal_strlit("5");
        reveal_strlit("6");
        reveal_strlit("7");
        reveal_strlit("8");
        reveal_strlit("9");
    }
    let r = if d == 0 {
        "0"
    } else if d == 1 {
        "1"
    } else if d == 2 {
        "2"
    } else if d == 3 {
        "3"
    } else if d == 4 {
        "4"
    } else if d == 5 {
        "5"
    } else if d == 6 {
        "6"
    } else if d == 7 {
        "7"
    } else if d == 8 {
        "8"
    } else {
        "9"
    };
    assert(r@ =~= seq![digit_char(d as nat)]);
    r
}

/// Writes `n` in decimal.
pub fn unsigned_to_text(n: u64) -> (r: String)
    ensures
        r@ == decimal_digits(n as nat),
    decreases n,
{
    if n < 10 {
        digit_str(n).to_owned()
    } else {
        let mut s = unsigned_to_text(n / 10);
        s.append(digit_str(n % 10));
        s
    }
}

/// Writes `v` in decimal.
pub fn signed_to_text(v: i64) -> (r: String)
    ensures
        r@ == decimal_text(v as int),
{
    if v < 0 {
        let magnitude: u64 = if v == i64::MIN {
            9223372036854775808u64
        } else {
            (-v) as u64
        };
        let mut s = "-".to_owned();
        proof {
            reveal_strlit("-");
        }
        let digits = unsigned_to_text(magnitude);
        s.append(digits.as_str());
        assert(s@ =~= decimal_text(v as int));
        s
    } else {
        unsigned_to_text(v as u64)
    }
}

/// Writes a truth value as `true` or `false`.
pub fn bool_to_text(b: bool) -> (r: String)
    ensures
        r@ == bool_text(b),
{
    proof {
        reveal_strlit("true");
        reveal_strlit("false");
    }
    let r = if b {
        "true".to_owned()
    } else {
        "false".to_owned()
    };
    assert(r@ =~= bool_text(b));
    r
}

} // verus!
