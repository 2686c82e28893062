//! Plain-text helpers shared by the reporting and parsing code: rendering an
//! unsigned integer as decimal digits, reading digits back, and left-padding
//! a label to a column width.

use vstd::prelude::*;

verus! {

/// The character for a single decimal digit value.
pub open spec fn spec_digit_char(d: nat) -> char {
    if d == 0 {
        '0'
    } else if d == 1 {
        '1'
    } else if d == 2 {
        '2'
    } else if d == 3 {
        '3'
    } else if d == 4 {
        '4'
    } else if d == 5 {
        '5'
    } else if d == 6 {
        '6'
    } else if d == 7 {
        '7'
    } else if d == 8 {
        '8'
    } else {
        '9'
    }
}

/// Whether a character is a decimal digit.
pub open spec fn spec_is_digit(c: char) -> bool {
    c == '0' || c == '1' || c == '2' || c == '3' || c == '4' || c == '5' || c == '6' || c == '7'
        || c == '8' || c == '9'
}

/// The numeric value of a decimal digit character.
pub open spec fn spec_digit_val(c: char) -> nat {
    if c == '0' {
        0
    } else if c == '1' {
        1
    } else if c == '2' {
        2
    } else if c == '3' {
        3
    } else if c == '4' {
        4
    } else if c == '5' {
        5
    } else if c == '6' {
        6
    } else if c == '7' {
        7
    } else if c == '8' {
        8
    } else {
        9
    }
}

/// The canonical decimal rendering of a natural number: no leading zeros,
/// and the single digit `0` for zero.
pub open spec fn spec_digits(v: nat) -> Seq<char>
    decreases v,
{
    if v < 10 {
        seq![spec_digit_char(v)]
    } else {
        spec_digits(v / 10) + seq![spec_digit_char(v % 10)]
    }
}

/// The natural number denoted by a sequence of digit characters
/// (most significant first); sequences with non-digits have no meaning
/// and callers guard with `spec_all_digits`.
pub open spec fn spec_parse_digits(s: Seq<char>) -> nat
    decreases s.len(),
{
    if s.len() == 0 {
        0
    } else {
        spec_parse_digits(s.drop_last()) * 10 + spec_digit_val(s.last())
    }
}

/// Every character of the sequence is a decimal digit.
pub open spec fn spec_all_digits(s: Seq<char>) -> bool {
    forall|i: int| 0 <= i < s.len() ==> spec_is_digit(#[trigger] s[i])
}

/// A run of `n` space characters.
pub open spec fn spec_spaces(n: nat) -> Seq<char>
    decreases n,
{
    if n == 0 {
        Seq::empty()
    } else {
        spec_spaces((n - 1) as nat) + seq![' ']
    }
}

/// The single-character string for one digit value.
fn digit_to_str(d: u128) -> (r: &'static str)
    requires
        d < 10,
    ensures
        r@ == seq![spec_digit_char(d as nat)],
        r@.len() == 1,
{
    proof {
        reveal_strlit("0");
        reveal_strlit("1");
        reveal_strlit("2");
        reveal_strlit("3");
        reveal_strlit("4");
        reveal_strlit("5");
        reveal_strlit("6");
        reveal_strlit("7");
        reveal_strlit("8");
        reveal_strlit("9");
    }
    if d == 0 {
        "0"
    } else if d == 1 {
        "1"
    } else if d == 2 {
        "2"
    } else if d == 3 {
        "3"
    } else if d == 4 {
        "4"
    } else if d == 5 {
        "5"
    } else if d == 6 {
        "6"
    } else if d == 7 {
        "7"
    } else if d == 8 {
        "8"
    } else {
        "9"
    }
}

/// Renders a 128-bit unsigned integer as its canonical decimal digits.
pub fn u128_to_string(v: u128) -> (r: String)
    ensures
        r@ == spec_digits(v as nat),
    decreases v,
{
    if v < 10 {
        String::from_str(digit_to_str(v))
    } else {
        let prefix = u128_to_string(v / 10);
        prefix.concat(digit_to_str(v % 10))
    }
}

/// Renders a 64-bit unsigned integer as its canonical decimal digits.
pub fn u64_to_string(v: u64) -> (r: String)
    ensures
        r@ == spec_digits(v as nat),
{
    u128_to_string(v as u128)
}

/// Left-pads `s` with spaces to `width` characters; a string already that
/// wide is returned unchanged.
pub open spec fn spec_pad_left(s: Seq<char>, width: nat) -> Seq<char> {
    if s.len() >= width {
        s
    } else {
        spec_spaces((width - s.len()) as nat) + s
    }
}

/// A string of `n` spaces.
pub fn spaces(n: usize) -> (r: String)
    ensures
        r@ == spec_spaces(n as nat),
{
    let mut out = String::new();
    let mut i: usize = 0;
    while i < n
        invariant
            i <= n,
            out@ == spec_spaces(i as nat),
        decreases n - i,
    {
        out.append(" ");
        proof {
            reveal_strlit(" ");
            assert(" "@ =~= seq![' ']);
            assert(out@ =~= spec_spaces((i + 1) as nat));
        }
        i = i + 1;
    }
    out
}

/// Right-aligns `s` in a field of `width` columns.
pub fn pad_left(s: &str, width: usize) -> (r: String)
    ensures
        r@ == spec_pad_left(s@, width as nat),
{
    let len = s.unicode_len();
    if len >= width {
        String::from_str(s)
    } else {
        let pad = spaces(width - len);
        pad.concat(s)
    }
}

/// A parse of a prefix of a digit string never exceeds the parse of the
/// whole: appending characters can only grow the denoted value.
pub proof fn lemma_parse_prefix_le(s: Seq<char>, i: int)
    requires
        0 <= i <= s.len(),
    ensures
        spec_parse_digits(s.subrange(0, i)) <= spec_parse_digits(s),
    decreases s.len() - i,
{
    if i == s.len() {
        assert(s.subrange(0, i) =~= s);
    } else {
        lemma_parse_prefix_le(s, i + 1);
        let shorter = s.subrange(0, i);
        let longer = s.subrange(0, i + 1);
        assert(longer.drop_last() =~= shorter);
        assert(spec_parse_digits(longer) == spec_parse_digits(shorter) * 10 + spec_digit_val(
            longer.last(),
        ));
    }
}

/// Parsing the canonical rendering of a value gives the value back.
pub proof fn lemma_parse_digits_of(v: nat)
    ensures
        spec_parse_digits(spec_digits(v)) == v,
        spec_digits(v).len() >= 1,
        spec_all_digits(spec_digits(v)),
    decreases v,
{
    if v < 10 {
        let s = spec_digits(v);
        assert(s == seq![spec_digit_char(v)]);
        assert(s.drop_last() =~= Seq::<char>::empty());
        assert(spec_parse_digits(s.drop_last()) == 0);
        assert(s.last() == spec_digit_char(v));
        assert(spec_digit_val(spec_digit_char(v)) == v);
        assert(spec_parse_digits(s) == v);
        assert forall|i: int| 0 <= i < s.len() implies spec_is_digit(#[trigger] s[i]) by {
            assert(s[i] == spec_digit_char(v));
        }
    } else {
        lemma_parse_digits_of(v / 10);
        let whole = spec_digits(v);
        let prefix = spec_digits(v / 10);
        assert(whole.drop_last() =~= prefix);
        assert(whole.last() == spec_digit_char(v % 10));
        assert(spec_digit_val(spec_digit_char(v % 10)) == v % 10);
        assert(spec_parse_digits(whole) == spec_parse_digits(prefix) * 10 + v % 10);
        assert(spec_parse_digits(prefix) == v / 10);
        assert(v / 10 * 10 + v % 10 == v) by (nonlinear_arith);
        assert forall|i: int| 0 <= i < whole.len() implies spec_is_digit(#[trigger] whole[i]) by {
            if i < prefix.len() {
                assert(whole[i] == prefix[i]);
            } else {
                assert(whole[i] == spec_digit_char(v % 10));
            }
        }
    }
}

} // verus!
