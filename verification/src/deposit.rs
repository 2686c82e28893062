//! The storage-deposit outcome of a contract execution: either the caller was
//! refunded balance by the contracts involved, or was charged balance for the
//! storage the transaction consumed.
//!
//! The variant order gives the deterministic ordering (`Refund` before
//! `Charge`) used for comparisons, and the tagged single-key encoding
//! (`{"Refund":n}` / `{"Charge":n}`) is written and read back by verified
//! functions.

use vstd::prelude::*;

use crate::text::{
    lemma_parse_digits_of, lemma_parse_prefix_le, spec_all_digits, spec_digit_val, spec_digits,
    spec_is_digit, spec_parse_digits, u128_to_string,
};

verus! {

/// Balance moved to or from the caller to cover contract storage.
#[derive(Clone, Copy, Debug, PartialEq, Eq, Structural, PartialOrd, Ord, Hash)]
pub enum StorageDeposit {
    /// The transaction reduced storage consumption: the amount was
    /// transferred from the involved contracts back to the call origin.
    Refund(u128),
    /// The transaction increased overall storage usage: the amount was
    /// transferred from the call origin to the contracts involved.
    Charge(u128),
}

/// The opening of the tagged encoding of a refund: `{"Refund":`.
pub open spec fn spec_refund_prefix() -> Seq<char> {
    seq!['{', '"', 'R', 'e', 'f', 'u', 'n', 'd', '"', ':']
}

/// The opening of the tagged encoding of a charge: `{"Charge":`.
pub open spec fn spec_charge_prefix() -> Seq<char> {
    seq!['{', '"', 'C', 'h', 'a', 'r', 'g', 'e', '"', ':']
}

/// The tagged single-key encoding of a deposit: the variant name as key,
/// the amount in canonical decimal as value.
pub open spec fn spec_deposit_json(d: StorageDeposit) -> Seq<char> {
    match d {
        StorageDeposit::Refund(v) => spec_refund_prefix() + spec_digits(v as nat) + seq!['}'],
        StorageDeposit::Charge(v) => spec_charge_prefix() + spec_digits(v as nat) + seq!['}'],
    }
}

/// What reading the tagged encoding yields: the deposit denoted by `s`, or
/// nothing when `s` is not `{"Refund":digits}` or `{"Charge":digits}` with an
/// amount that fits 128 bits.
pub open spec fn spec_parse_deposit(s: Seq<char>) -> Option<StorageDeposit> {
    if s.len() >= 12 && s.last() == '}' {
        let mid = s.subrange(10, s.len() - 1);
        if spec_all_digits(mid) && spec_parse_digits(mid) <= u128::MAX {
            if s.subrange(0, 10) == spec_refund_prefix() {
                Some(StorageDeposit::Refund(spec_parse_digits(mid) as u128))
            } else if s.subrange(0, 10) == spec_charge_prefix() {
                Some(StorageDeposit::Charge(spec_parse_digits(mid) as u128))
            } else {
                None
            }
        } else {
            None
        }
    } else {
        None
    }
}

impl StorageDeposit {
    /// The deposited or refunded amount.
    pub open spec fn spec_amount(self) -> u128 {
        match self {
            StorageDeposit::Refund(v) => v,
            StorageDeposit::Charge(v) => v,
        }
    }

    /// The display form used in reports, e.g. `Charge(50)`.
    pub open spec fn spec_display(self) -> Seq<char> {
        match self {
            StorageDeposit::Refund(v) => "Refund("@ + spec_digits(v as nat) + ")"@,
            StorageDeposit::Charge(v) => "Charge("@ + spec_digits(v as nat) + ")"@,
        }
    }

    /// Renders the deposit for a report line, e.g. `Charge(50)`.
    pub fn to_display_string(&self) -> (r: String)
        ensures
            r@ == self.spec_display(),
    {
        let (head, amount) = match self {
            StorageDeposit::Refund(v) => ("Refund(", *v),
            StorageDeposit::Charge(v) => ("Charge(", *v),
        };
        let mut out = String::from_str(head);
        let digits = u128_to_string(amount);
        out.append(digits.as_str());
        out.append(")");
        out
    }

    /// Writes the tagged single-key encoding, e.g. `{"Refund":50}`.
    pub fn to_json(&self) -> (r: String)
        ensures
            r@ == spec_deposit_json(*self),
    {
        proof {
            reveal_strlit("{\"Refund\":");
            reveal_strlit("{\"Charge\":");
            reveal_strlit("}");
        }
        let (head, amount) = match self {
            StorageDeposit::Refund(v) => ("{\"Refund\":", *v),
            StorageDeposit::Charge(v) => ("{\"Charge\":", *v),
        };
        proof {
            assert("{\"Refund\":"@ =~= spec_refund_prefix());
            assert("{\"Charge\":"@ =~= spec_charge_prefix());
            assert("}"@ =~= seq!['}']);
        }
        let mut out = String::from_str(head);
        let digits = u128_to_string(amount);
        out.append(digits.as_str());
        out.append("}");
        proof {
            assert(out@ =~= spec_deposit_json(*self));
        }
        out
    }
}

/// Whether the executable character is a decimal digit.
pub fn is_digit_char(c: char) -> (r: bool)
    ensures
        r == spec_is_digit(c),
{
    c == '0' || c == '1' || c == '2' || c == '3' || c == '4' || c == '5' || c == '6' || c == '7'
        || c == '8' || c == '9'
}

/// The numeric value of a digit character.
pub fn digit_char_value(c: char) -> (r: u8)
    requires
        spec_is_digit(c),
    ensures
        r as nat == spec_digit_val(c),
{
    if c == '0' {
        0
    } else if c == '1' {
        1
    } else if c == '2' {
        2
    } else if c == '3' {
        3
    } else if c == '4' {
        4
    } else if c == '5' {
        5
    } else if c == '6' {
        6
    } else if c == '7' {
        7
    } else if c == '8' {
        8
    } else {
        9
    }
}

/// Reads a deposit back from its tagged single-key encoding.
pub fn deposit_from_json(s: &str) -> (r: Option<StorageDeposit>)
    ensures
        r == spec_parse_deposit(s@),
{
    let n = s.unicode_len();
    if n < 12 {
        return None;
    }
    if s.get_char(n - 1) != '}' {
        return None;
    }
    proof {
        reveal_strlit("{\"Refund\":");
        reveal_strlit("{\"Charge\":");
        assert("{\"Refund\":"@ =~= spec_refund_prefix());
        assert("{\"Charge\":"@ =~= spec_charge_prefix());
    }
    let refund = str_has_prefix(s, "{\"Refund\":");
    let charge = str_has_prefix(s, "{\"Charge\":");
    if !refund && !charge {
        return None;
    }
    let ghost mid = s@.subrange(10, s@.len() - 1);
    let mut acc: u128 = 0;
    let mut i: usize = 10;
    while i < n - 1
        invariant
            12 <= n == s@.len(),
            10 <= i <= n - 1,
            mid == s@.subrange(10, s@.len() - 1),
            spec_all_digits(mid.subrange(0, i - 10)),
            acc as nat == spec_parse_digits(mid.subrange(0, i - 10)),
        decreases n - i,
    {
        let c = s.get_char(i);
        proof {
            assert(mid[i - 10] == s@[i as int]);
        }
        if !is_digit_char(c) {
            proof {
                assert(!spec_is_digit(mid[i - 10]));
            }
            return None;
        }
        let d = digit_char_value(c);
        let stepped = match acc.checked_mul(10) {
            Some(t) => t.checked_add(d as u128),
            None => None,
        };
        match stepped {
            Some(next) => {
                proof {
                    let grown = mid.subrange(0, i - 10 + 1);
                    assert(grown.drop_last() =~= mid.subrange(0, i - 10));
                    assert(grown.last() == mid[i - 10]);
                }
                acc = next;
                i = i + 1;
            },
            None => {
                proof {
                    if spec_all_digits(mid) {
                        let grown = mid.subrange(0, i - 10 + 1);
                        assert(grown.drop_last() =~= mid.subrange(0, i - 10));
                        assert(grown.last() == mid[i - 10]);
                        assert(spec_parse_digits(grown) > u128::MAX);
                        lemma_parse_prefix_le(mid, i - 10 + 1);
                    }
                }
                return None;
            },
        }
    }
    proof {
        assert(mid.subrange(0, mid.len() as int) =~= mid);
    }
    if refund {
        Some(StorageDeposit::Refund(acc))
    } else {
        Some(StorageDeposit::Charge(acc))
    }
}

/// Whether `s` starts with the characters of `p`.
pub fn str_has_prefix(s: &str, p: &str) -> (r: bool)
    ensures
        r == (s@.len() >= p@.len() && s@.subrange(0, p@.len() as int) == p@),
{
    let sn = s.unicode_len();
    let pn = p.unicode_len();
    if sn < pn {
        return false;
    }
    let mut i: usize = 0;
    while i < pn
        invariant
            0 <= i <= pn == p@.len(),
            pn <= sn == s@.len(),
            forall|j: int| 0 <= j < i ==> s@[j] == p@[j],
        decreases pn - i,
    {
        if s.get_char(i) != p.get_char(i) {
            proof {
                assert(s@.subrange(0, p@.len() as int)[i as int] != p@[i as int]);
            }
            return false;
        }
        i = i + 1;
    }
    proof {
        assert(s@.subrange(0, p@.len() as int) =~= p@);
    }
    true
}

/// Writing a deposit through the tagged encoding and reading it back is the
/// identity: every `StorageDeposit` survives the round trip unchanged.
pub proof fn lemma_deposit_json_round_trip(d: StorageDeposit)
    ensures
        spec_parse_deposit(spec_deposit_json(d)) == Some(d),
{
    let v = d.spec_amount() as nat;
    lemma_parse_digits_of(v);
    let digits = spec_digits(v);
    let s = spec_deposit_json(d);
    assert(s.len() == 11 + digits.len());
    assert(s.last() == '}');
    assert(s.subrange(10, s.len() - 1) =~= digits);
    match d {
        StorageDeposit::Refund(_) => {
            assert(s.subrange(0, 10) =~= spec_refund_prefix());
        },
        StorageDeposit::Charge(_) => {
            assert(s.subrange(0, 10) =~= spec_charge_prefix());
            assert(s.subrange(0, 10) != spec_refund_prefix()) by {
                assert(spec_charge_prefix()[2] != spec_refund_prefix()[2]);
            }
        },
    }
}

} // verus!
