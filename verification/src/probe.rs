//! The duration prober: how it is invoked and how its answer is read.
//!
//! The prober is an external program that prints the playable length of a
//! media file. Running it is the caller's business; this module fixes the
//! command line and turns exit status and standard output into a duration.

use vstd::prelude::*;
use vstd::utf8::{decode_utf8, valid_utf8};
use crate::text::{all_digits, digit_value, digits_value, is_digit, text_chars};

verus! {

/// Why a probe gave no duration.
#[derive(Clone, Copy, Debug, PartialEq, Eq, Structural)]
pub enum ProbeError {
    /// The prober could not be run at all.
    NotStarted,
    /// The prober did not end within the time allowed.
    TimedOut,
    /// The prober ran and reported failure.
    ExitStatus,
    /// The prober's output is not UTF-8 text.
    NotUtf8,
    /// The whole-seconds part of the output is not a decimal integer.
    NotNumeric,
    /// The duration does not fit the millisecond range of `i64`.
    OutOfRange,
}

/// Milliseconds in one second.
pub const MILLIS_PER_SECOND: i64 = 1000;

/// The largest number of whole seconds whose millisecond count fits an `i64`.
pub const MAX_SECONDS: u64 = 9223372036854775;

/// Unicode white space, the characters that trimming removes.
pub open spec fn is_space(c: char) -> bool {
    let u = c as u32;
    ||| (0x09 <= u && u <= 0x0d)
    ||| u == 0x20
    ||| u == 0x85
    ||| u == 0xa0
    ||| u == 0x1680
    ||| (0x2000 <= u && u <= 0x200a)
    ||| u == 0x2028
    ||| u == 0x2029
    ||| u == 0x202f
    ||| u == 0x205f
    ||| u == 0x3000
}

/// How many characters stand before the first `.` of `s` (all of them if there is none).
pub open spec fn dot_index(s: Seq<char>) -> int
    decreases s.len(),
{
    if s.len() == 0 || s[0] == '.' {
        0
    } else {
        1 + dot_index(s.drop_first())
    }
}

/// The text before the first `.`: the whole-seconds part of a printed duration.
pub open spec fn whole_part(s: Seq<char>) -> Seq<char> {
    s.take(dot_index(s))
}

/// `s` without the white space at its start.
pub open spec fn trim_start(s: Seq<char>) -> Seq<char>
    decreases s.len(),
{
    if s.len() > 0 && is_space(s[0]) {
        trim_start(s.drop_first())
    } else {
        s
    }
}

/// `s` without the white space at its end.
pub open spec fn trim_end(s: Seq<char>) -> Seq<char>
    decreases s.len(),
{
    if s.len() > 0 && is_space(s.last()) {
        trim_end(s.drop_last())
    } else {
        s
    }
}

/// `s` without the white space at either end.
pub open spec fn trim(s: Seq<char>) -> Seq<char> {
    trim_end(trim_start(s))
}

/// Whether `t` begins with a sign character.
pub open spec fn has_sign(t: Seq<char>) -> bool {
    t.len() > 0 && (t[0] == '-' || t[0] == '+')
}

/// The whole seconds that a printed duration states, if it states any.
///
/// Only the text before the first `.` counts. With the white space around it
/// removed it must be an optional sign followed by one or more digits.
pub open spec fn spec_whole_seconds(text: Seq<char>) -> Option<int> {
    let t = trim(whole_part(text));
    let digits = if has_sign(t) { t.drop_first() } else { t };
    if digits.len() == 0 || !all_digits(digits) {
        None
    } else if has_sign(t) && t[0] == '-' {
        Some(-(digits_value(digits) as int))
    } else {
        Some(digits_value(digits) as int)
    }
}

/// The duration in milliseconds that a printed duration states, or why it states none.
pub open spec fn spec_duration_of_text(text: Seq<char>) -> Result<i64, ProbeError> {
    match spec_whole_seconds(text) {
        None => Err(ProbeError::NotNumeric),
        Some(seconds) => if -(MAX_SECONDS as int) <= seconds <= MAX_SECONDS as int {
            Ok((seconds * 1000) as i64)
        } else {
            Err(ProbeError::OutOfRange)
        },
    }
}

/// What a finished probe amounts to: a duration in milliseconds, or the reason for none.
///
/// `success` is the prober's exit status, `stdout` what it printed.
pub open spec fn spec_probe_result(success: bool, stdout: Seq<u8>) -> Result<i64, ProbeError> {
    if !success {
        Err(ProbeError::ExitStatus)
    } else if !valid_utf8(stdout) {
        Err(ProbeError::NotUtf8)
    } else {
        spec_duration_of_text(decode_utf8(stdout))
    }
}

/// `dot_index` is the first position that holds a `.`, or the length.
pub proof fn lemma_dot_index(s: Seq<char>, n: int)
    requires
        0 <= n <= s.len(),
        forall|i: int| 0 <= i < n ==> s[i] != '.',
        n == s.len() || s[n] == '.',
    ensures
        dot_index(s) == n,
    decreases n,
{
    if n > 0 {
        lemma_dot_index(s.drop_first(), n - 1);
    }
}

fn is_space_char(c: char) -> (b: bool)
    ensures
        b == is_space(c),
{
    let u: u32 = c as u32;
    (0x09 <= u && u <= 0x0d) || u == 0x20 || u == 0x85 || u == 0xa0 || u == 0x1680 || (0x2000 <= u
        && u <= 0x200a) || u == 0x2028 || u == 0x2029 || u == 0x202f || u == 0x205f || u == 0x3000
}

/// Reads a printed duration: the whole seconds before the first `.`, in milliseconds.
pub fn duration_of_text(text: &str) -> (r: Result<i64, ProbeError>)
    ensures
        r == spec_duration_of_text(text@),
{
    let chars = text_chars(text);
    let n: usize = chars.len();
    let mut end: usize = 0;
    while end < n && chars[end] != '.'
        invariant
            end <= n,
            n == chars.len(),
            forall|i: int| 0 <= i < end ==> chars@[i] != '.',
        decreases n - end,
    {
        end = end + 1;
    }
    proof {
        lemma_dot_index(chars@, end as int);
        assert(whole_part(chars@) =~= chars@.subrange(0, end as int));
    }
    let mut lo: usize = 0;
    while lo < end && is_space_char(chars[lo])
        invariant
            lo <= end <= n,
            n == chars.len(),
            trim_start(chars@.subrange(0, end as int)) == trim_start(
                chars@.subrange(lo as int, end as int),
            ),
        decreases end - lo,
    {
        proof {
            assert(chars@.subrange(lo as int, end as int).drop_first() =~= chars@.subrange(
                lo + 1,
                end as int,
            ));
        }
        lo = lo + 1;
    }
    let mut hi: usize = end;
    while hi > lo && is_space_char(chars[hi - 1])
        invariant
            lo <= hi <= end <= n,
            n == chars.len(),
            trim_end(chars@.subrange(lo as int, end as int)) == trim_end(
                chars@.subrange(lo as int, hi as int),
            ),
        decreases hi - lo,
    {
        proof {
            assert(chars@.subrange(lo as int, hi as int).drop_last() =~= chars@.subrange(
                lo as int,
                hi - 1,
            ));
        }
        hi = hi - 1;
    }
    let ghost t = chars@.subrange(lo as int, hi as int);
    assert(trim(whole_part(chars@)) == t);
    let mut start: usize = lo;
    let mut negative: bool = false;
    if lo < hi && (chars[lo] == '-' || chars[lo] == '+') {
        negative = chars[lo] == '-';
        start = lo + 1;
    }
    let ghost digits = chars@.subrange(start as int, hi as int);
    assert(digits =~= if has_sign(t) { t.drop_first() } else { t });
    assert(negative == (has_sign(t) && t[0] == '-'));
    if start == hi {
        return Err(ProbeError::NotNumeric);
    }
    let mut acc: u64 = 0;
    let mut over: bool = false;
    let mut i: usize = start;
    while i < hi
        invariant
            start <= i <= hi <= n,
            n == chars.len(),
            digits == chars@.subrange(start as int, hi as int),
            !all_digits(digits) ==> spec_duration_of_text(text@) == Err::<i64, ProbeError>(
                ProbeError::NotNumeric,
            ),
            all_digits(chars@.subrange(start as int, i as int)),
            !over ==> acc == digits_value(chars@.subrange(start as int, i as int)) && acc
                <= MAX_SECONDS,
            over ==> digits_value(chars@.subrange(start as int, i as int)) > MAX_SECONDS,
        decreases hi - i,
    {
        let c: char = chars[i];
        let u: u32 = c as u32;
        if u < 0x30 || u > 0x39 {
            proof {
                assert(digits[i - start] == c);
                assert(!is_digit(c));
            }
            return Err(ProbeError::NotNumeric);
        }
        let d: u64 = (u - 0x30) as u64;
        proof {
            let next = chars@.subrange(start as int, i + 1);
            assert(next.drop_last() =~= chars@.subrange(start as int, i as int));
            assert(next.last() == c);
            assert(is_digit(c));
            assert(digit_value(c) == d);
            assert forall|j: int| 0 <= j < next.len() implies is_digit(#[trigger] next[j]) by {
                if j < i - start {
                    assert(next[j] == chars@.subrange(start as int, i as int)[j]);
                }
            }
        }
        if !over {
            let next_value: u64 = acc * 10 + d;
            if next_value > MAX_SECONDS {
                over = true;
            } else {
                acc = next_value;
            }
        }
        i = i + 1;
    }
    assert(chars@.subrange(start as int, i as int) == digits);
    if over {
        Err(ProbeError::OutOfRange)
    } else if negative {
        Ok(-((acc * 1000) as i64))
    } else {
        Ok((acc * 1000) as i64)
    }
}

/// The error of `core::str::from_utf8`, carried through and never looked into.
#[verifier::external_type_specification]
#[verifier::external_body]
pub struct ExUtf8Error(core::str::Utf8Error);

/// `core::str::from_utf8` succeeds exactly on valid UTF-8, and the text it
/// returns is those bytes decoded.
pub assume_specification<'a>[ core::str::from_utf8 ](v: &'a [u8]) -> (r: Result<
    &'a str,
    core::str::Utf8Error,
>)
    ensures
        r is Ok <==> valid_utf8(v@),
        r matches Ok(s) ==> s@ == decode_utf8(v@),
;

/// Turns a finished probe into a duration in milliseconds.
///
/// `success` says whether the prober exited with success, `stdout` is what it
/// printed. A failed exit is reported before the output is looked at.
pub fn probe_result(success: bool, stdout: &[u8]) -> (r: Result<i64, ProbeError>)
    ensures
        r == spec_probe_result(success, stdout@),
{
    if !success {
        return Err(ProbeError::ExitStatus);
    }
    match core::str::from_utf8(stdout) {
        Ok(text) => duration_of_text(text),
        Err(_) => Err(ProbeError::NotUtf8),
    }
}

/// The name of the prober program.
pub const PROBER_PROGRAM: &'static str = "ffprobe";

/// The arguments that make the prober print the duration of the file at `path` and nothing else.
pub open spec fn spec_probe_args(path: Seq<char>) -> Seq<Seq<char>> {
    seq![
        "-i"@,
        path,
        "-show_entries"@,
        "format=duration"@,
        "-v"@,
        "quiet"@,
        "-of"@,
        "default=noprint_wrappers=1:nokey=1"@,
    ]
}

/// The prober's command line for the file at `path`.
pub fn probe_args(path: &str) -> (args: Vec<String>)
    ensures
        args.deep_view() == spec_probe_args(path@),
{
    let mut args: Vec<String> = Vec::new();
    args.push("-i".to_owned());
    args.push(path.to_owned());
    args.push("-show_entries".to_owned());
    args.push("format=duration".to_owned());
    args.push("-v".to_owned());
    args.push("quiet".to_owned());
    args.push("-of".to_owned());
    args.push("default=noprint_wrappers=1:nokey=1".to_owned());
    assert(args.deep_view() =~= spec_probe_args(path@));
    args
}

} // verus!
