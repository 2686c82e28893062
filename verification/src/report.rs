//! The result reporter: the outcome of a dry-run or an on-chain execution,
//! and its rendering as aligned key/value lines.
//!
//! A width parameter controls the left column so that several reporters in
//! one session align. Only the first debug-message line carries the
//! `Debug Message` label; the lines after it are indented under a blank
//! label field of the same width.

use vstd::prelude::*;

use crate::deposit::StorageDeposit;
use crate::error::{ErrorVariant, ModuleErrorData};
use crate::text::{spec_digits, spec_pad_left, spec_spaces, pad_left, u64_to_string};

verus! {

/// The widest key the reporter prints (`Storage Deposit`), plus one.
pub const MAX_KEY_COL_WIDTH: usize = 16;

/// The default left-column width of the status and report lines.
pub const DEFAULT_KEY_COL_WIDTH: usize = 16;

/// What one simulated or on-chain contract execution produced: gas figures,
/// the storage-deposit movement, the raw debug-message bytes, and the module
/// error if the execution failed. Never mutated after creation.
#[derive(Clone, Debug, PartialEq, Eq)]
pub struct ExecutionResult {
    /// Gas actually consumed by the execution.
    pub gas_consumed: u64,
    /// Gas that must be supplied for the execution to succeed.
    pub gas_required: u64,
    /// Balance moved to or from the caller for storage.
    pub storage_deposit: StorageDeposit,
    /// The debug channel, a byte sequence expected to carry text.
    pub debug_message: Vec<u8>,
    /// The module error, present when the execution reverted.
    pub error: Option<ModuleErrorData>,
}

impl ExecutionResult {
    /// The execution completed without a module error.
    pub open spec fn spec_is_success(self) -> bool {
        self.error is None
    }

    /// Whether the execution completed without a module error.
    pub fn is_success(&self) -> (r: bool)
        ensures
            r == self.spec_is_success(),
    {
        self.error.is_none()
    }
}

/// What decoding a byte sequence as UTF-8 text yields; the result depends on
/// the bytes alone.
pub uninterp spec fn utf8_decoding(bytes: Seq<u8>) -> Option<Seq<char>>;

/// Relies on `core::str::from_utf8`: decodes the bytes as UTF-8 text, and
/// fails exactly when they are not valid UTF-8.
#[verifier::external_body]
fn decode_utf8_bytes(bytes: &Vec<u8>) -> (r: Option<String>)
    ensures
        r matches Some(s) ==> utf8_decoding(bytes@) == Some(s@),
        r is None <==> utf8_decoding(bytes@) is None,
{
    match core::str::from_utf8(bytes.as_slice()) {
        core::result::Result::Ok(s) => Some(s.to_owned()),
        core::result::Result::Err(_) => None,
    }
}

/// The number of characters before the first line feed, or the length of the
/// whole sequence when it has none.
pub open spec fn spec_first_line_len(s: Seq<char>) -> nat
    decreases s.len(),
{
    if s.len() == 0 {
        0
    } else if s[0] == '\n' {
        0
    } else {
        1 + spec_first_line_len(s.subrange(1, s.len() as int))
    }
}

/// A terminated line without its carriage return, when it ends in one.
pub open spec fn spec_strip_cr(l: Seq<char>) -> Seq<char> {
    if l.len() > 0 && l.last() == '\r' {
        l.drop_last()
    } else {
        l
    }
}

/// The lines of a text: split at each line feed, a carriage return before a
/// line feed dropped, and a final line ending opening no empty line.
pub open spec fn spec_lines(s: Seq<char>) -> Seq<Seq<char>>
    decreases s.len(),
{
    if s.len() == 0 {
        Seq::empty()
    } else {
        let k = spec_first_line_len(s);
        if k >= s.len() {
            seq![s]
        } else {
            seq![spec_strip_cr(s.subrange(0, k as int))] + spec_lines(
                s.subrange(k as int + 1, s.len() as int),
            )
        }
    }
}

/// The first line of `s` ends where its first line feed stands.
proof fn lemma_first_line_len_at(s: Seq<char>, m: int)
    requires
        0 <= m <= s.len(),
        forall|j: int| 0 <= j < m ==> s[j] != '\n',
        m < s.len() ==> s[m] == '\n',
    ensures
        spec_first_line_len(s) == m,
    decreases m,
{
    if s.len() == 0 {
    } else if m == 0 {
    } else {
        let rest = s.subrange(1, s.len() as int);
        lemma_first_line_len_at(rest, m - 1);
    }
}

/// The characters of one line within `s`, with its boundaries.
spec fn line_bounds_ok(s: Seq<char>, start: int, j: int) -> bool {
    &&& 0 <= start <= j <= s.len()
    &&& forall|k: int| start <= k < j ==> s[k] != '\n'
    &&& j < s.len() ==> s[j] == '\n'
}

/// Splitting after a full line is one line followed by the split of the
/// rest.
proof fn lemma_lines_step(s: Seq<char>, start: int, j: int)
    requires
        line_bounds_ok(s, start, j),
    ensures
        j < s.len() ==> spec_lines(s.subrange(start, s.len() as int)) == seq![
            spec_strip_cr(s.subrange(start, j)),
        ] + spec_lines(s.subrange(j + 1, s.len() as int)),
        j == s.len() && start < j ==> spec_lines(s.subrange(start, s.len() as int)) == seq![
            s.subrange(start, j),
        ],
        j == s.len() && start == j ==> spec_lines(s.subrange(start, s.len() as int))
            == Seq::<Seq<char>>::empty(),
{
    let suffix = s.subrange(start, s.len() as int);
    lemma_first_line_len_at(suffix, j - start);
    if j < s.len() {
        assert(suffix.subrange(0, j - start) =~= s.subrange(start, j));
        assert(suffix.subrange(j - start + 1, suffix.len() as int) =~= s.subrange(
            j + 1,
            s.len() as int,
        ));
    } else if start < j {
        assert(suffix =~= s.subrange(start, j));
    }
}

/// Viewing the elements of a vector after a push is viewing them before and
/// pushing the view.
proof fn lemma_map_view_push(v: Seq<String>, x: String)
    ensures
        v.push(x).map_values(|l: String| l@) == v.map_values(|l: String| l@).push(x@),
{
    assert(v.push(x).map_values(|l: String| l@) =~= v.map_values(|l: String| l@).push(x@));
}

/// Splits a text into its lines: at each line feed, dropping a carriage
/// return that stands right before one, with no empty line after a final
/// line feed.
pub fn split_lines(s: &str) -> (r: Vec<String>)
    ensures
        r@.map_values(|l: String| l@) == spec_lines(s@),
{
    let n = s.unicode_len();
    let mut out: Vec<String> = Vec::new();
    let mut start: usize = 0;
    let mut j: usize = 0;
    proof {
        assert(s@.subrange(0, s@.len() as int) =~= s@);
        assert(out@.map_values(|l: String| l@) =~= Seq::<Seq<char>>::empty());
    }
    while j < n
        invariant
            0 <= start <= j <= n == s@.len(),
            forall|k: int| start <= k < j ==> s@[k] != '\n',
            spec_lines(s@) == out@.map_values(|l: String| l@) + spec_lines(
                s@.subrange(start as int, s@.len() as int),
            ),
        decreases n - j,
    {
        let c = s.get_char(j);
        if c == '\n' {
            let line = if j > start && s.get_char(j - 1) == '\r' {
                s.substring_char(start, j - 1)
            } else {
                s.substring_char(start, j)
            };
            proof {
                lemma_lines_step(s@, start as int, j as int);
                assert(spec_strip_cr(s@.subrange(start as int, j as int)) =~= line@);
            }
            let owned = line.to_owned();
            let ghost pre = out@.map_values(|l: String| l@);
            proof {
                lemma_map_view_push(out@, owned);
            }
            out.push(owned);
            proof {
                assert(out@.map_values(|l: String| l@) =~= pre + seq![line@]);
                assert(pre + seq![line@] + spec_lines(s@.subrange(j + 1, s@.len() as int)) =~= pre
                    + (seq![line@] + spec_lines(s@.subrange(j + 1, s@.len() as int))));
            }
            start = j + 1;
        }
        j = j + 1;
    }
    proof {
        lemma_lines_step(s@, start as int, n as int);
    }
    if start < n {
        let line = s.substring_char(start, n);
        let owned = line.to_owned();
        proof {
            lemma_map_view_push(out@, owned);
        }
        out.push(owned);
    }
    out
}

/// One aligned report line: the label right-aligned in `width` columns, one
/// space, then the value.
pub open spec fn spec_labelled_line(label: Seq<char>, value: Seq<char>, width: nat) -> Seq<char> {
    spec_pad_left(label, width) + seq![' '] + value
}

/// Builds one aligned report line.
pub fn name_value_line(name: &str, value: &str, width: usize) -> (r: String)
    ensures
        r@ == spec_labelled_line(name@, value@, width as nat),
{
    let mut out = pad_left(name, width);
    out.append(" ");
    out.append(value);
    proof {
        reveal_strlit(" ");
        assert(" "@ =~= seq![' ']);
        assert(out@ =~= spec_labelled_line(name@, value@, width as nat));
    }
    out
}

/// The aligned block of debug-message lines: only the first line carries the
/// `Debug Message` label; every later line stands under a blank label field
/// of the same width.
pub open spec fn spec_debug_block(lines: Seq<Seq<char>>, width: nat) -> Seq<Seq<char>> {
    if lines.len() == 0 {
        Seq::empty()
    } else {
        seq![spec_labelled_line("Debug Message"@, lines[0], width)] + lines.subrange(
            1,
            lines.len() as int,
        ).map_values(|l: Seq<char>| spec_labelled_line(Seq::<char>::empty(), l, width))
    }
}

/// Formats the debug-message lines with the label on the first line only.
pub fn format_debug_lines(lines: &Vec<String>, width: usize) -> (r: Vec<String>)
    ensures
        r@.map_values(|l: String| l@) == spec_debug_block(
            lines@.map_values(|l: String| l@),
            width as nat,
        ),
{
    let ghost views = lines@.map_values(|l: String| l@);
    let mut out: Vec<String> = Vec::new();
    let mut i: usize = 0;
    while i < lines.len()
        invariant
            0 <= i <= lines.len() == views.len(),
            views == lines@.map_values(|l: String| l@),
            out@.map_values(|l: String| l@) == spec_debug_block(
                views.subrange(0, i as int),
                width as nat,
            ),
        decreases lines.len() - i,
    {
        let line = if i == 0 {
            name_value_line("Debug Message", lines[0].as_str(), width)
        } else {
            name_value_line("", lines[i].as_str(), width)
        };
        let ghost pre = out@.map_values(|l: String| l@);
        proof {
            lemma_map_view_push(out@, line);
        }
        out.push(line);
        proof {
            let prev = views.subrange(0, i as int);
            let cur = views.subrange(0, i + 1);
            reveal_strlit("");
            assert(""@ =~= Seq::<char>::empty());
            assert(out@.map_values(|l: String| l@) == pre.push(line@));
            if i == 0 {
                assert(out@.map_values(|l: String| l@) =~= spec_debug_block(cur, width as nat));
            } else {
                assert(cur.subrange(1, cur.len() as int) =~= prev.subrange(
                    1,
                    prev.len() as int,
                ).push(views[i as int]));
                assert(out@.map_values(|l: String| l@) =~= spec_debug_block(cur, width as nat));
            }
        }
        i = i + 1;
    }
    proof {
        assert(views.subrange(0, views.len() as int) =~= views);
    }
    out
}

/// The full report of an execution result: the gas figures, the storage
/// deposit, then the debug block.
pub open spec fn spec_result_lines(
    gas_consumed: u64,
    gas_required: u64,
    deposit: StorageDeposit,
    debug_text: Seq<char>,
    width: nat,
) -> Seq<Seq<char>> {
    seq![
        spec_labelled_line("Gas Consumed"@, spec_digits(gas_consumed as nat), width),
        spec_labelled_line("Gas Required"@, spec_digits(gas_required as nat), width),
        spec_labelled_line("Storage Deposit"@, deposit.spec_display(), width),
    ] + spec_debug_block(spec_lines(debug_text), width)
}

/// Renders the report lines of an execution result whose debug message is
/// already decoded text.
pub fn format_contract_exec_result(
    gas_consumed: u64,
    gas_required: u64,
    deposit: &StorageDeposit,
    debug_text: &str,
    width: usize,
) -> (r: Vec<String>)
    ensures
        r@.map_values(|l: String| l@) == spec_result_lines(
            gas_consumed,
            gas_required,
            *deposit,
            debug_text@,
            width as nat,
        ),
{
    let mut out: Vec<String> = Vec::new();
    let consumed = u64_to_string(gas_consumed);
    out.push(name_value_line("Gas Consumed", consumed.as_str(), width));
    let required = u64_to_string(gas_required);
    out.push(name_value_line("Gas Required", required.as_str(), width));
    let deposit_text = deposit.to_display_string();
    out.push(name_value_line("Storage Deposit", deposit_text.as_str(), width));
    let lines = split_lines(debug_text);
    let block = format_debug_lines(&lines, width);
    let mut k: usize = 0;
    let ghost head = out@.map_values(|l: String| l@);
    let ghost block_views = block@.map_values(|l: String| l@);
    while k < block.len()
        invariant
            0 <= k <= block.len() == block_views.len(),
            block_views == block@.map_values(|l: String| l@),
            out@.map_values(|l: String| l@) == head + block_views.subrange(0, k as int),
        decreases block.len() - k,
    {
        let line = block[k].clone();
        proof {
            assert(block_views.subrange(0, k + 1) =~= block_views.subrange(0, k as int).push(
                block_views[k as int],
            ));
            lemma_map_view_push(out@, line);
        }
        out.push(line);
        proof {
            assert(out@.map_values(|l: String| l@) =~= head + block_views.subrange(0, k + 1));
        }
        k = k + 1;
    }
    proof {
        assert(block_views.subrange(0, block_views.len() as int) =~= block_views);
        assert(out@.map_values(|l: String| l@) =~= spec_result_lines(
            gas_consumed,
            gas_required,
            *deposit,
            debug_text@,
            width as nat,
        ));
    }
    out
}

/// Renders the report of a dry-run or submission result, decoding the debug
/// bytes first; fails with `EncodingError` when they are not valid text.
pub fn display_contract_exec_result(result: &ExecutionResult, width: usize) -> (r: Result<
    Vec<String>,
    ErrorVariant,
>)
    ensures
        r is Err <==> utf8_decoding(result.debug_message@) is None,
        r matches Err(e) ==> e == ErrorVariant::EncodingError,
        r matches Ok(lines) ==> utf8_decoding(result.debug_message@) matches Some(text)
            && lines@.map_values(|l: String| l@) == spec_result_lines(
            result.gas_consumed,
            result.gas_required,
            result.storage_deposit,
            text,
            width as nat,
        ),
{
    match decode_utf8_bytes(&result.debug_message) {
        Some(text) => Ok(
            format_contract_exec_result(
                result.gas_consumed,
                result.gas_required,
                &result.storage_deposit,
                text.as_str(),
                width,
            ),
        ),
        None => Err(ErrorVariant::EncodingError),
    }
}

/// Renders only the debug-message block of a result; fails with
/// `EncodingError` when the bytes are not valid text.
pub fn display_contract_exec_result_debug(result: &ExecutionResult, width: usize) -> (r: Result<
    Vec<String>,
    ErrorVariant,
>)
    ensures
        r is Err <==> utf8_decoding(result.debug_message@) is None,
        r matches Err(e) ==> e == ErrorVariant::EncodingError,
        r matches Ok(lines) ==> utf8_decoding(result.debug_message@) matches Some(text)
            && lines@.map_values(|l: String| l@) == spec_debug_block(
            spec_lines(text),
            width as nat,
        ),
{
    match decode_utf8_bytes(&result.debug_message) {
        Some(text) => {
            let lines = split_lines(text.as_str());
            Ok(format_debug_lines(&lines, width))
        },
        None => Err(ErrorVariant::EncodingError),
    }
}

/// Only the first debug line carries the label: every later line of the
/// block stands behind a blank label field of the full width, so the text
/// aligns under the first line's text.
pub proof fn lemma_debug_block_alignment(lines: Seq<Seq<char>>, width: nat, i: int)
    requires
        lines.len() > 0,
        1 <= i < lines.len(),
    ensures
        spec_debug_block(lines, width).len() == lines.len(),
        spec_debug_block(lines, width)[0] == spec_labelled_line("Debug Message"@, lines[0], width),
        spec_debug_block(lines, width)[i] == spec_spaces(width) + seq![' '] + lines[i],
{
    assert(spec_pad_left(Seq::<char>::empty(), width) =~= spec_spaces(width));
}

/// The status line printed before a dry-run, naming the operation.
pub fn print_dry_running_status(msg: &str) -> (r: String)
    ensures
        r@ == spec_pad_left("Dry-running"@, DEFAULT_KEY_COL_WIDTH as nat) + " "@ + msg@
            + " (skip with --skip-dry-run)"@,
{
    let mut out = pad_left("Dry-running", DEFAULT_KEY_COL_WIDTH);
    out.append(" ");
    out.append(msg);
    out.append(" (skip with --skip-dry-run)");
    out
}

/// The status line printed after a successful dry-run, naming the gas
/// estimate.
pub fn print_gas_required_success(gas: u64) -> (r: String)
    ensures
        r@ == spec_pad_left("Success!"@, DEFAULT_KEY_COL_WIDTH as nat)
            + " Gas required estimated at "@ + spec_digits(gas as nat),
{
    let mut out = pad_left("Success!", DEFAULT_KEY_COL_WIDTH);
    out.append(" Gas required estimated at ");
    let digits = u64_to_string(gas);
    out.append(digits.as_str());
    out
}

} // verus!
