//! The confirmation gate: classifying the one line the operator types after
//! the pending transaction's summary is shown. An empty line or `y`/`Y`
//! proceeds, `n`/`N` declines, and anything else is rejected with the
//! offending text named verbatim.
//!
//! Whitespace here is the Unicode `White_Space` set, the same characters a
//! standard trim removes.

use vstd::prelude::*;

use crate::error::ErrorVariant;

verus! {

/// Whether `c` is one of the blanks trimmed from the operator's input: the
/// Unicode `White_Space` characters.
pub open spec fn spec_is_blank(c: char) -> bool {
    ||| c == '\u{09}'
    ||| c == '\u{0A}'
    ||| c == '\u{0B}'
    ||| c == '\u{0C}'
    ||| c == '\u{0D}'
    ||| c == ' '
    ||| c == '\u{85}'
    ||| c == '\u{A0}'
    ||| c == '\u{1680}'
    ||| ('\u{2000}' <= c && c <= '\u{200A}')
    ||| c == '\u{2028}'
    ||| c == '\u{2029}'
    ||| c == '\u{202F}'
    ||| c == '\u{205F}'
    ||| c == '\u{3000}'
}

/// `s` without its leading blanks.
pub open spec fn spec_trim_start(s: Seq<char>) -> Seq<char>
    decreases s.len(),
{
    if s.len() > 0 && spec_is_blank(s[0]) {
        spec_trim_start(s.subrange(1, s.len() as int))
    } else {
        s
    }
}

/// `s` without its trailing blanks.
pub open spec fn spec_trim_end(s: Seq<char>) -> Seq<char>
    decreases s.len(),
{
    if s.len() > 0 && spec_is_blank(s.last()) {
        spec_trim_end(s.drop_last())
    } else {
        s
    }
}

/// `s` without leading and trailing blanks.
pub open spec fn spec_trim(s: Seq<char>) -> Seq<char> {
    spec_trim_end(spec_trim_start(s))
}

/// The trimmed input proceeds: it is empty, `y` or `Y`.
pub open spec fn spec_input_proceeds(s: Seq<char>) -> bool {
    spec_trim(s) == Seq::<char>::empty() || spec_trim(s) == seq!['y'] || spec_trim(s) == seq!['Y']
}

/// The trimmed input declines: it is `n` or `N`.
pub open spec fn spec_input_declines(s: Seq<char>) -> bool {
    spec_trim(s) == seq!['n'] || spec_trim(s) == seq!['N']
}

/// Whether the executable character is a trimmed blank.
fn is_blank_char(c: char) -> (r: bool)
    ensures
        r == spec_is_blank(c),
{
    c == '\u{09}' || c == '\u{0A}' || c == '\u{0B}' || c == '\u{0C}' || c == '\u{0D}' || c == ' '
        || c == '\u{85}' || c == '\u{A0}' || c == '\u{1680}' || ('\u{2000}' <= c && c
        <= '\u{200A}') || c == '\u{2028}' || c == '\u{2029}' || c == '\u{202F}' || c == '\u{205F}'
        || c == '\u{3000}'
}

/// Dropping blanks from the front, one index at a time, reaches
/// `spec_trim_start`.
proof fn lemma_trim_start_at(s: Seq<char>, a: int)
    requires
        0 <= a <= s.len(),
        forall|j: int| 0 <= j < a ==> spec_is_blank(#[trigger] s[j]),
        a < s.len() ==> !spec_is_blank(s[a]),
    ensures
        spec_trim_start(s) == s.subrange(a, s.len() as int),
    decreases a,
{
    if a == 0 {
        assert(s.subrange(0, s.len() as int) =~= s);
    } else {
        let rest = s.subrange(1, s.len() as int);
        lemma_trim_start_at(rest, a - 1);
        assert(rest.subrange(a - 1, rest.len() as int) =~= s.subrange(a, s.len() as int));
    }
}

/// Dropping blanks from the back, one index at a time, reaches
/// `spec_trim_end`.
proof fn lemma_trim_end_at(s: Seq<char>, b: int)
    requires
        0 <= b <= s.len(),
        forall|j: int| b <= j < s.len() ==> spec_is_blank(#[trigger] s[j]),
        b > 0 ==> !spec_is_blank(s[b - 1]),
    ensures
        spec_trim_end(s) == s.subrange(0, b),
    decreases s.len() - b,
{
    if b == s.len() {
        assert(s.subrange(0, b) =~= s);
    } else {
        let shorter = s.drop_last();
        lemma_trim_end_at(shorter, b);
        assert(shorter.subrange(0, b) =~= s.subrange(0, b));
    }
}

/// Returns `s` without leading or trailing blanks.
pub fn trim_blanks(s: &str) -> (r: String)
    ensures
        r@ == spec_trim(s@),
{
    let n = s.unicode_len();
    let mut a: usize = 0;
    while a < n && is_blank_char(s.get_char(a))
        invariant
            0 <= a <= n == s@.len(),
            forall|j: int| 0 <= j < a ==> spec_is_blank(#[trigger] s@[j]),
        decreases n - a,
    {
        a = a + 1;
    }
    let mut b: usize = n;
    while b > a && is_blank_char(s.get_char(b - 1))
        invariant
            a <= b <= n == s@.len(),
            forall|j: int| 0 <= j < a ==> spec_is_blank(#[trigger] s@[j]),
            a < n ==> !spec_is_blank(s@[a as int]),
            forall|j: int| b <= j < n ==> spec_is_blank(#[trigger] s@[j]),
        decreases b,
    {
        b = b - 1;
    }
    proof {
        lemma_trim_start_at(s@, a as int);
        let started = s@.subrange(a as int, s@.len() as int);
        lemma_trim_end_at(started, b - a);
        assert(started.subrange(0, b - a) =~= s@.subrange(a as int, b as int));
    }
    let trimmed = s.substring_char(a, b);
    trimmed.to_owned()
}

/// The heading shown above the transaction summary before confirmation is
/// read.
pub fn confirm_prompt_heading() -> (r: String)
    ensures
        r@ == "Confirm transaction details: (skip with --skip-confirm)"@,
{
    String::from_str("Confirm transaction details: (skip with --skip-confirm)")
}

/// The question shown when the confirmation line is read; an empty answer
/// counts as yes.
pub fn confirm_prompt_question() -> (r: String)
    ensures
        r@ == "Submit? (Y/n): "@,
{
    String::from_str("Submit? (Y/n): ")
}

/// Classifies one line of confirmation input: `Ok` to proceed, `Declined`
/// for an `n`, and `InvalidInput` naming any other text verbatim (trimmed).
pub fn parse_confirmation(input: &str) -> (r: Result<(), ErrorVariant>)
    ensures
        spec_input_proceeds(input@) ==> r == Result::<(), ErrorVariant>::Ok(()),
        spec_input_declines(input@) ==> r == Result::<(), ErrorVariant>::Err(
            ErrorVariant::Declined,
        ),
        !spec_input_proceeds(input@) && !spec_input_declines(input@) ==> (match r {
            Result::Err(ErrorVariant::InvalidInput(t)) => t@ == spec_trim(input@),
            _ => false,
        }),
{
    let trimmed = trim_blanks(input);
    let n = trimmed.as_str().unicode_len();
    if n == 0 {
        proof {
            assert(trimmed@ =~= Seq::<char>::empty());
        }
        return Ok(());
    }
    if n == 1 {
        let c = trimmed.as_str().get_char(0);
        proof {
            assert(trimmed@ =~= seq![trimmed@[0]]);
        }
        if c == 'y' || c == 'Y' {
            return Ok(());
        }
        if c == 'n' || c == 'N' {
            return Err(ErrorVariant::Declined);
        }
        return Err(ErrorVariant::InvalidInput(trimmed));
    }
    Err(ErrorVariant::InvalidInput(trimmed))
}

} // verus!
