//! The balance/token model: converting a human-entered decimal amount into
//! an integer base-unit balance, using a token's decimal exponent as a
//! power-of-ten multiplier.
//!
//! A valid amount is a run of digits, optionally followed by a point and at
//! least one fractional digit; it denominates exactly when it has no more
//! fractional digits than the token allows and the shifted value fits an
//! unsigned 128-bit balance.

use vstd::prelude::*;

use crate::deposit::{digit_char_value, is_digit_char};
use crate::error::ErrorVariant;
use crate::text::{
    lemma_parse_prefix_le, spec_all_digits, spec_digit_val, spec_is_digit, spec_parse_digits,
};

verus! {

/// A token's metadata, fetched once per session: its display symbol and the
/// number of decimal places of its base unit.
#[derive(Clone, Debug, PartialEq, Eq)]
pub struct TokenMetadata {
    /// The token's display symbol.
    pub symbol: String,
    /// Base-ten exponent between one token and one base unit.
    pub decimals: u8,
}

/// A balance as the operator supplied it: already in base units, or a
/// decimal string still to be denominated against the token's metadata.
#[derive(Clone, Debug, PartialEq, Eq)]
pub enum BalanceVariant {
    /// A raw integer base-unit value.
    Raw(u128),
    /// A decimal string requiring denomination.
    Denominated(String),
}

/// Ten to the `n`.
pub open spec fn spec_pow10(n: nat) -> nat
    decreases n,
{
    if n == 0 {
        1
    } else {
        10 * spec_pow10((n - 1) as nat)
    }
}

/// The index of the first decimal point, or the length when there is none.
pub open spec fn spec_dot_pos(s: Seq<char>) -> nat
    decreases s.len(),
{
    if s.len() == 0 {
        0
    } else if s[0] == '.' {
        0
    } else {
        1 + spec_dot_pos(s.subrange(1, s.len() as int))
    }
}

/// The digits before the first point.
pub open spec fn spec_int_part(s: Seq<char>) -> Seq<char> {
    if spec_dot_pos(s) >= s.len() {
        s
    } else {
        s.subrange(0, spec_dot_pos(s) as int)
    }
}

/// The digits after the first point; empty when there is no point.
pub open spec fn spec_frac_part(s: Seq<char>) -> Seq<char> {
    if spec_dot_pos(s) >= s.len() {
        Seq::empty()
    } else {
        s.subrange(spec_dot_pos(s) as int + 1, s.len() as int)
    }
}

/// A well-formed decimal amount for a token with `d` decimal places: a
/// nonempty run of digits, optionally a point followed by at least one and
/// at most `d` fractional digits.
pub open spec fn spec_valid_decimal(s: Seq<char>, d: nat) -> bool {
    &&& spec_int_part(s).len() >= 1
    &&& spec_all_digits(spec_int_part(s))
    &&& spec_all_digits(spec_frac_part(s))
    &&& (spec_dot_pos(s) < s.len() ==> spec_frac_part(s).len() >= 1)
    &&& spec_frac_part(s).len() <= d
}

/// The base-unit value a valid decimal amount denotes: its digits with the
/// point removed, scaled up by the fractional places the token still allows.
pub open spec fn spec_denominated(s: Seq<char>, d: nat) -> nat {
    spec_parse_digits(spec_int_part(s) + spec_frac_part(s)) * spec_pow10(
        (d - spec_frac_part(s).len()) as nat,
    )
}

/// The first point stands where no earlier character is a point.
proof fn lemma_dot_pos_at(s: Seq<char>, m: int)
    requires
        0 <= m <= s.len(),
        forall|j: int| 0 <= j < m ==> s[j] != '.',
        m < s.len() ==> s[m] == '.',
    ensures
        spec_dot_pos(s) == m,
    decreases m,
{
    if s.len() == 0 {
    } else if m == 0 {
    } else {
        let rest = s.subrange(1, s.len() as int);
        lemma_dot_pos_at(rest, m - 1);
    }
}

/// Ten to a sum is the product of ten to each part.
proof fn lemma_pow10_adds(a: nat, b: nat)
    ensures
        spec_pow10(a + b) == spec_pow10(a) * spec_pow10(b),
    decreases a,
{
    if a == 0 {
        assert(spec_pow10(0) == 1);
    } else {
        lemma_pow10_adds((a - 1) as nat, b);
        assert(spec_pow10(a) == 10 * spec_pow10((a - 1) as nat));
        assert((a + b - 1) as nat == (a - 1) as nat + b);
        assert(spec_pow10(a + b) == 10 * spec_pow10((a - 1) as nat + b));
        assert(10 * (spec_pow10((a - 1) as nat) * spec_pow10(b)) == (10 * spec_pow10(
            (a - 1) as nat,
        )) * spec_pow10(b)) by (nonlinear_arith);
    }
}

/// Ten to any exponent is at least one.
proof fn lemma_pow10_pos(n: nat)
    ensures
        spec_pow10(n) >= 1,
    decreases n,
{
    if n > 0 {
        lemma_pow10_pos((n - 1) as nat);
    }
}

/// Converts a decimal amount string to its base-unit balance, using `d`
/// decimal places; fails with `InvalidAmount` naming the text when the
/// string is not a well-formed decimal, has more than `d` fractional
/// digits, or denotes a value over the largest 128-bit balance.
pub fn denominate(s: &str, d: u8) -> (r: Result<u128, ErrorVariant>)
    ensures
        spec_valid_decimal(s@, d as nat) && spec_denominated(s@, d as nat) <= u128::MAX ==> r
            == Result::<u128, ErrorVariant>::Ok(spec_denominated(s@, d as nat) as u128),
        !(spec_valid_decimal(s@, d as nat) && spec_denominated(s@, d as nat) <= u128::MAX)
            ==> (match r {
            Result::Err(ErrorVariant::InvalidAmount(t)) => t@ == s@,
            _ => false,
        }),
{
    let n = s.unicode_len();
    let mut p: usize = 0;
    while p < n && s.get_char(p) != '.'
        invariant
            0 <= p <= n == s@.len(),
            forall|j: int| 0 <= j < p ==> s@[j] != '.',
        decreases n - p,
    {
        p = p + 1;
    }
    proof {
        lemma_dot_pos_at(s@, p as int);
    }
    let ghost int_part = spec_int_part(s@);
    let ghost frac_part = spec_frac_part(s@);
    let ghost digits = int_part + frac_part;
    if p == 0 {
        return Err(ErrorVariant::InvalidAmount(s.to_owned()));
    }
    let frac_len: usize = if p < n {
        n - p - 1
    } else {
        0
    };
    if p < n && frac_len == 0 {
        return Err(ErrorVariant::InvalidAmount(s.to_owned()));
    }
    if frac_len > d as usize {
        proof {
            assert(frac_part.len() == frac_len);
        }
        return Err(ErrorVariant::InvalidAmount(s.to_owned()));
    }
    proof {
        assert(digits.len() == n - if p < n { 1int } else { 0int });
        assert forall|j: int| 0 <= j < digits.len() implies digits[j] == s@[
            if j < p { j } else { j + 1 }
        ] by {
            if j < p {
                assert(digits[j] == int_part[j]);
            } else {
                assert(digits[j] == frac_part[j - p]);
            }
        }
    }
    let mut acc: u128 = 0;
    let mut i: usize = 0;
    while i < n
        invariant
            0 <= i <= n == s@.len(),
            0 < p <= n,
            p < n ==> s@[p as int] == '.',
            int_part == spec_int_part(s@),
            frac_part == spec_frac_part(s@),
            digits == int_part + frac_part,
            digits.len() == n - if p < n { 1int } else { 0int },
            forall|j: int| 0 <= j < digits.len() ==> digits[j] == s@[if j < p { j } else { j + 1 }],
            i != p ==> spec_all_digits(digits.subrange(0, if i < p { i as int } else { i - 1 })),
            i != p ==> acc as nat == spec_parse_digits(
                digits.subrange(0, if i < p { i as int } else { i - 1 }),
            ),
            i == p ==> spec_all_digits(digits.subrange(0, p as int)),
            i == p ==> acc as nat == spec_parse_digits(digits.subrange(0, p as int)),
        decreases n - i,
    {
        let ghost m: int = if i < p { i as int } else { i - 1 };
        if i != p {
            let c = s.get_char(i);
            proof {
                assert(digits[m] == s@[i as int]);
            }
            if !is_digit_char(c) {
                proof {
                    assert(!spec_is_digit(digits[m]));
                    if spec_valid_decimal(s@, d as nat) {
                        if m < p {
                            assert(int_part[m] == digits[m]);
                        } else {
                            assert(frac_part[m - p] == digits[m]);
                        }
                        assert(false);
                    }
                }
                return Err(ErrorVariant::InvalidAmount(s.to_owned()));
            }
            let v = digit_char_value(c);
            let stepped = match acc.checked_mul(10) {
                Some(t) => t.checked_add(v as u128),
                None => None,
            };
            match stepped {
                Some(next) => {
                    proof {
                        let grown = digits.subrange(0, m + 1);
                        assert(grown.drop_last() =~= digits.subrange(0, m));
                        assert(grown.last() == digits[m]);
                    }
                    acc = next;
                },
                None => {
                    proof {
                        let grown = digits.subrange(0, m + 1);
                        assert(grown.drop_last() =~= digits.subrange(0, m));
                        assert(grown.last() == digits[m]);
                        assert(spec_parse_digits(grown) > u128::MAX);
                        lemma_parse_prefix_le(digits, m + 1);
                        if spec_valid_decimal(s@, d as nat) {
                            let e = (d - frac_part.len()) as nat;
                            lemma_pow10_pos(e);
                            assert(spec_parse_digits(digits) * spec_pow10(e) >= spec_parse_digits(
                                digits,
                            ) * 1) by (nonlinear_arith)
                                requires
                                    spec_pow10(e) >= 1,
                            ;
                        }
                    }
                    return Err(ErrorVariant::InvalidAmount(s.to_owned()));
                },
            }
        }
        i = i + 1;
    }
    proof {
        assert(digits.subrange(0, digits.len() as int) =~= digits);
    }
    let mut e: usize = d as usize - frac_len;
    let ghost shift = e as nat;
    proof {
        lemma_pow10_pos(shift);
        assert(frac_part.len() == frac_len);
        assert(spec_pow10(0) == 1);
        assert(acc as nat == spec_parse_digits(digits));
        assert(shift - e as nat == 0);
        assert(spec_parse_digits(digits) * spec_pow10(0) == spec_parse_digits(digits));
    }
    while e > 0
        invariant
            0 <= e <= shift,
            spec_all_digits(digits),
            spec_parse_digits(digits) <= u128::MAX,
            acc as nat == spec_parse_digits(digits) * spec_pow10((shift - e) as nat),
            digits == spec_int_part(s@) + spec_frac_part(s@),
            shift == (d - spec_frac_part(s@).len()) as nat,
        decreases e,
    {
        match acc.checked_mul(10) {
            Some(next) => {
                proof {
                    lemma_pow10_adds((shift - e) as nat, 1);
                    assert(spec_pow10(0) == 1);
                    assert(spec_pow10(1) == 10);
                    assert((spec_parse_digits(digits) * spec_pow10((shift - e) as nat)) * 10
                        == spec_parse_digits(digits) * (spec_pow10((shift - e) as nat) * 10))
                        by (nonlinear_arith);
                }
                acc = next;
                e = e - 1;
            },
            None => {
                proof {
                    let done = (shift - e) as nat;
                    lemma_pow10_adds(done + 1, (e - 1) as nat);
                    lemma_pow10_adds(done, 1);
                    lemma_pow10_pos((e - 1) as nat);
                    lemma_pow10_pos(done);
                    assert(spec_pow10(0) == 1);
                    assert(spec_pow10(1) == 10);
                    let v = spec_parse_digits(digits);
                    assert(v * spec_pow10(done) * 10 > u128::MAX);
                    assert(v * spec_pow10(shift) >= v * spec_pow10(done) * 10)
                        by (nonlinear_arith)
                        requires
                            spec_pow10(shift) == spec_pow10(done) * 10 * spec_pow10(
                                (e - 1) as nat,
                            ),
                            spec_pow10((e - 1) as nat) >= 1,
                            v >= 0,
                            spec_pow10(done) >= 1,
                    ;
                }
                return Err(ErrorVariant::InvalidAmount(s.to_owned()));
            },
        }
    }
    proof {
        assert forall|j: int| 0 <= j < int_part.len() implies spec_is_digit(
            #[trigger] int_part[j],
        ) by {
            assert(int_part[j] == digits[j]);
        }
        assert forall|j: int| 0 <= j < frac_part.len() implies spec_is_digit(
            #[trigger] frac_part[j],
        ) by {
            assert(frac_part[j] == digits[int_part.len() + j]);
        }
        assert(spec_valid_decimal(s@, d as nat));
        assert(acc as nat == spec_denominated(s@, d as nat));
    }
    Ok(acc)
}

/// A run of `n` zero digits.
pub open spec fn spec_zeros(n: nat) -> Seq<char>
    decreases n,
{
    if n == 0 {
        Seq::empty()
    } else {
        spec_zeros((n - 1) as nat) + seq!['0']
    }
}

/// The amount string with its decimal point manually shifted `d` places to
/// the right: the digits with the point removed, padded with the zeros the
/// fractional part leaves unused.
pub open spec fn spec_point_shifted(s: Seq<char>, d: nat) -> Seq<char> {
    spec_int_part(s) + spec_frac_part(s) + spec_zeros((d - spec_frac_part(s).len()) as nat)
}

/// Appending `k` zero digits multiplies the denoted value by ten to the `k`.
proof fn lemma_parse_append_zeros(a: Seq<char>, k: nat)
    ensures
        spec_parse_digits(a + spec_zeros(k)) == spec_parse_digits(a) * spec_pow10(k),
    decreases k,
{
    if k == 0 {
        assert(a + spec_zeros(0) =~= a);
        assert(spec_pow10(0) == 1);
    } else {
        lemma_parse_append_zeros(a, (k - 1) as nat);
        let whole = a + spec_zeros(k);
        assert(whole.drop_last() =~= a + spec_zeros((k - 1) as nat));
        assert(whole.last() == '0');
        assert(spec_digit_val('0') == 0);
        assert(spec_parse_digits(whole) == spec_parse_digits(a + spec_zeros((k - 1) as nat)) * 10);
        assert((spec_parse_digits(a) * spec_pow10((k - 1) as nat)) * 10 == spec_parse_digits(a) * (
        spec_pow10((k - 1) as nat) * 10)) by (nonlinear_arith);
    }
}

/// Denominating a valid decimal amount yields the same integer as manually
/// shifting its decimal point `d` places to the right and reading the
/// resulting digit string.
pub proof fn lemma_denominate_shifts_point(s: Seq<char>, d: nat)
    requires
        spec_valid_decimal(s, d),
    ensures
        spec_denominated(s, d) == spec_parse_digits(spec_point_shifted(s, d)),
{
    lemma_parse_append_zeros(
        spec_int_part(s) + spec_frac_part(s),
        (d - spec_frac_part(s).len()) as nat,
    );
}

impl BalanceVariant {
    /// Resolves this balance to base units: a raw value is returned as it
    /// stands, a decimal string is denominated against the token's decimal
    /// places.
    pub fn denominate_balance(&self, token_metadata: &TokenMetadata) -> (r: Result<
        u128,
        ErrorVariant,
    >)
        ensures
            (match *self {
                BalanceVariant::Raw(v) => r == Result::<u128, ErrorVariant>::Ok(v),
                BalanceVariant::Denominated(s) => {
                    if spec_valid_decimal(s@, token_metadata.decimals as nat) && spec_denominated(
                        s@,
                        token_metadata.decimals as nat,
                    ) <= u128::MAX {
                        r == Result::<u128, ErrorVariant>::Ok(
                            spec_denominated(s@, token_metadata.decimals as nat) as u128,
                        )
                    } else {
                        match r {
                            Result::Err(ErrorVariant::InvalidAmount(t)) => t@ == s@,
                            _ => false,
                        }
                    }
                },
            }),
    {
        match self {
            BalanceVariant::Raw(v) => Ok(*v),
            BalanceVariant::Denominated(s) => denominate(s.as_str(), token_metadata.decimals),
        }
    }
}

} // verus!
