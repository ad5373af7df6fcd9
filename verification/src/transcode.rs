//! The transcoder: how it is invoked.
//!
//! The transcoder is an external program that converts the source from a
//! given offset on, into one output file that may be capped in size. Running
//! it is the caller's business; this module fixes the command line.

use vstd::prelude::*;
use vstd::string::StringExecFns;
use crate::text::{decimal, push_decimal, push_zero_padded, zero_padded};

verus! {

/// Why a transcoding run gave no output file.
#[derive(Clone, Copy, Debug, PartialEq, Eq, Structural)]
pub enum TranscodeError {
    /// No scratch file could be set up for the output.
    NoScratchFile,
    /// The transcoder could not be run at all.
    NotStarted,
    /// The transcoder did not end within the time allowed.
    TimedOut,
    /// The transcoder ran and reported failure.
    ExitStatus,
}

/// The name of the transcoder program.
pub const TRANSCODER_PROGRAM: &'static str = "ffmpeg";

/// An offset of `ms` milliseconds written in seconds: the whole seconds, and
/// after a `.` the milliseconds without trailing zeros, where there are any.
pub open spec fn spec_offset_text(ms: nat) -> Seq<char> {
    let whole = decimal(ms / 1000);
    let fraction = ms % 1000;
    if fraction == 0 {
        whole
    } else if fraction % 100 == 0 {
        whole + seq!['.'] + decimal(fraction / 100)
    } else if fraction % 10 == 0 {
        whole + seq!['.'] + zero_padded(fraction / 10, 2)
    } else {
        whole + seq!['.'] + zero_padded(fraction, 3)
    }
}

/// The seek offset as the transcoder takes it.
pub fn offset_text(ms: u64) -> (text: String)
    ensures
        text@ == spec_offset_text(ms as nat),
{
    let mut text = String::new();
    push_decimal(&mut text, ms / 1000);
    let fraction: u64 = ms % 1000;
    if fraction != 0 {
        proof {
            reveal_strlit(".");
        }
        text.append(".");
        assert(text@ =~= decimal((ms / 1000) as nat) + seq!['.']);
        if fraction % 100 == 0 {
            push_decimal(&mut text, fraction / 100);
        } else if fraction % 10 == 0 {
            push_zero_padded(&mut text, fraction / 10, 2);
        } else {
            push_zero_padded(&mut text, fraction, 3);
        }
    } else {
        assert(text@ =~= decimal((ms / 1000) as nat));
    }
    text
}

/// The arguments that cap the output size, where there is a cap.
pub open spec fn spec_size_cap_args(max_bytes: Option<u64>) -> Seq<Seq<char>> {
    match max_bytes {
        Some(cap) => seq!["-fs"@, decimal(cap as nat)],
        None => seq![],
    }
}

/// The transcoder's arguments: overwrite, read `input`, seek to the offset,
/// cap the size where asked, write `format` to `output`.
pub open spec fn spec_transcode_args(
    input: Seq<char>,
    offset_ms: nat,
    max_bytes: Option<u64>,
    format: Seq<char>,
    output: Seq<char>,
) -> Seq<Seq<char>> {
    seq!["-y"@, "-i"@, input, "-ss"@, spec_offset_text(offset_ms)] + spec_size_cap_args(max_bytes)
        + seq!["-f"@, format, output]
}

/// The transcoder's command line for one segment: read the file at `input`
/// from `offset_ms` on, and write it in `format` to the file at `output`,
/// stopping at `max_bytes` bytes where that is given.
pub fn transcode_args(
    input: &str,
    offset_ms: u64,
    max_bytes: Option<u64>,
    format: &str,
    output: &str,
) -> (args: Vec<String>)
    ensures
        args.deep_view() == spec_transcode_args(
            input@,
            offset_ms as nat,
            max_bytes,
            format@,
            output@,
        ),
{
    let mut args: Vec<String> = Vec::new();
    args.push("-y".to_owned());
    args.push("-i".to_owned());
    args.push(input.to_owned());
    args.push("-ss".to_owned());
    args.push(offset_text(offset_ms));
    match max_bytes {
        Some(cap) => {
            args.push("-fs".to_owned());
            let mut text = String::new();
            push_decimal(&mut text, cap);
            assert(text@ =~= decimal(cap as nat));
            args.push(text);
        },
        None => {},
    }
    args.push("-f".to_owned());
    args.push(format.to_owned());
    args.push(output.to_owned());
    assert(args.deep_view() =~= spec_transcode_args(
        input@,
        offset_ms as nat,
        max_bytes,
        format@,
        output@,
    ));
    args
}

} // verus!
