//! The panic report's message line.
use vstd::prelude::*;
use vstd::string::StringSliceAdditionalSpecFns;

use crate::backtrace::{
    backtrace, backtrace_text, chain_length, frame_line_text, frame_lines_text, header_text,
    walk_frames, FrameMemory, StackFrame,
};
use crate::format::{dec_text, hex_text, push_bytes, push_dec, push_str};

verus! {

/// Where a fatal condition was raised.
#[derive(Clone, Copy, Debug)]
pub struct SourceLocation<'a> {
    pub file: &'a str,
    pub line: u32,
}

/// A fatal condition as handed to the panic reporter.
#[derive(Clone, Copy, Debug)]
pub struct PanicRecord<'a> {
    pub location: Option<SourceLocation<'a>>,
    pub message: Option<&'a str>,
}

/// The start of the message line: with the source location when it is known.
pub open spec fn panic_prefix_text(core: u64, location: Option<SourceLocation>) -> Seq<u8> {
    match location {
        Some(loc) => "Core #".spec_bytes() + dec_text(core as nat) + " panicked at ".spec_bytes()
            + loc.file.spec_bytes() + ":".spec_bytes() + dec_text(loc.line as nat)
            + ": ".spec_bytes(),
        None => "Core #".spec_bytes() + dec_text(core as nat) + " panic: ".spec_bytes(),
    }
}

/// The message, or a fixed fallback when there is none.
pub open spec fn panic_reason_text(message: Option<&str>) -> Seq<u8> {
    match message {
        Some(m) => m.spec_bytes(),
        None => "Unknown reason".spec_bytes(),
    }
}

/// The whole message line of a panic report, line terminator included.
pub open spec fn panic_line_text(core: u64, record: PanicRecord) -> Seq<u8> {
    panic_prefix_text(core, record.location) + panic_reason_text(record.message)
        + "\n".spec_bytes()
}

/// Formats the message line that a panic report begins with.
pub fn panic_line(core: u64, record: &PanicRecord) -> (r: Vec<u8>)
    ensures
        r@ == panic_line_text(core, *record),
{
    let mut out: Vec<u8> = Vec::new();
    push_str(&mut out, "Core #");
    push_dec(&mut out, core);
    match record.location {
        Some(loc) => {
            push_str(&mut out, " panicked at ");
            push_str(&mut out, loc.file);
            push_str(&mut out, ":");
            push_dec(&mut out, loc.line as u64);
            push_str(&mut out, ": ");
        },
        None => {
            push_str(&mut out, " panic: ");
        },
    }
    match record.message {
        Some(m) => push_str(&mut out, m),
        None => push_str(&mut out, "Unknown reason"),
    }
    push_str(&mut out, "\n");
    out
}

/// A whole panic report: the message line, then the backtrace of `frames`.
pub open spec fn panic_report_text(core: u64, record: PanicRecord, frames: Seq<StackFrame>) -> Seq<
    u8,
> {
    panic_line_text(core, record) + backtrace_text(frames)
}

/// Formats the whole panic report of `core`: the message line, then the
/// backtrace of the frame chain that starts at `start` in `memory`.
pub fn panic_report(core: u64, record: &PanicRecord, start: StackFrame, memory: &FrameMemory) -> (r:
    Vec<u8>)
    requires
        exists|k: nat| k <= u64::MAX && chain_length(memory.base, memory.words@, start, k),
    ensures
        forall|k: nat|
            chain_length(memory.base, memory.words@, start, k) ==> r@ == panic_report_text(
                core,
                *record,
                walk_frames(memory.base, memory.words@, start, k),
            ),
{
    let mut out = panic_line(core, record);
    let trace = backtrace(start, memory);
    push_bytes(&mut out, trace.as_slice());
    out
}

/// The line-feed byte.
pub open spec fn line_feed() -> u8 {
    10
}

/// `b` holds no line feed.
pub open spec fn single_line(b: Seq<u8>) -> bool {
    forall|i: int| 0 <= i < b.len() ==> b[i] != line_feed()
}

/// `b` is one line: its only line feed is its last byte.
pub open spec fn one_line(b: Seq<u8>) -> bool {
    &&& b.len() > 0
    &&& b.last() == line_feed()
    &&& single_line(b.drop_last())
}

proof fn lemma_dec_single_line(n: nat)
    ensures
        single_line(dec_text(n)),
    decreases n,
{
    if n >= 10 {
        lemma_dec_single_line(n / 10);
    }
}

proof fn lemma_hex_single_line(n: nat, upper: bool)
    ensures
        single_line(hex_text(n, upper)),
    decreases n,
{
    if n >= 16 {
        lemma_hex_single_line(n / 16, upper);
    }
}

proof fn lemma_join_single_line(a: Seq<u8>, b: Seq<u8>)
    requires
        single_line(a),
        single_line(b),
    ensures
        single_line(a + b),
{
    assert forall|i: int| 0 <= i < (a + b).len() implies (a + b)[i] != line_feed() by {
        if i >= a.len() {
            assert((a + b)[i] == b[i - a.len()]);
        }
    }
}

proof fn lemma_literals_single_line()
    ensures
        single_line("Core #".spec_bytes()),
        single_line(" panicked at ".spec_bytes()),
        single_line(":".spec_bytes()),
        single_line(": ".spec_bytes()),
        single_line(" panic: ".spec_bytes()),
        single_line("Unknown reason".spec_bytes()),
        single_line("#".spec_bytes()),
        single_line(": 0x".spec_bytes()),
        "\n".spec_bytes() == seq![line_feed()],
        header_text().drop_last() == "Backtrace:".spec_bytes(),
        header_text().len() == 11,
        header_text().last() == line_feed(),
        single_line("Backtrace:".spec_bytes()),
{
    broadcast use vstd::string::is_ascii_spec_bytes;

    reveal_strlit("Core #");
    assert(vstd::string::is_ascii("Core #"));
    reveal_strlit(" panicked at ");
    assert(vstd::string::is_ascii(" panicked at "));
    reveal_strlit(":");
    assert(vstd::string::is_ascii(":"));
    reveal_strlit(": ");
    assert(vstd::string::is_ascii(": "));
    reveal_strlit(" panic: ");
    assert(vstd::string::is_ascii(" panic: "));
    reveal_strlit("Unknown reason");
    assert(vstd::string::is_ascii("Unknown reason"));
    reveal_strlit("#");
    assert(vstd::string::is_ascii("#"));
    reveal_strlit(": 0x");
    assert(vstd::string::is_ascii(": 0x"));
    reveal_strlit("\n");
    assert(vstd::string::is_ascii("\n"));
    reveal_strlit("Backtrace:\n");
    assert(vstd::string::is_ascii("Backtrace:\n"));
    reveal_strlit("Backtrace:");
    assert(vstd::string::is_ascii("Backtrace:"));
    assert("\n".spec_bytes() =~= seq![line_feed()]);
    assert(header_text().drop_last() =~= "Backtrace:".spec_bytes());
}

/// Each frame line is one line.
pub proof fn lemma_frame_line_one_line(index: nat, ret: u64)
    ensures
        one_line(frame_line_text(index, ret)),
{
    lemma_literals_single_line();
    lemma_dec_single_line(index);
    lemma_hex_single_line(ret as nat, true);
    let body = "#".spec_bytes() + dec_text(index) + ": 0x".spec_bytes() + hex_text(ret as nat, true);
    lemma_join_single_line("#".spec_bytes(), dec_text(index));
    lemma_join_single_line("#".spec_bytes() + dec_text(index), ": 0x".spec_bytes());
    lemma_join_single_line(
        "#".spec_bytes() + dec_text(index) + ": 0x".spec_bytes(),
        hex_text(ret as nat, true),
    );
    assert(frame_line_text(index, ret).drop_last() =~= body);
}

/// Every panic report is exactly one message line (when the file name and the
/// message hold no line feed), then the line `Backtrace:`, then one line per
/// frame, the frame with index `n` written `#n: 0x` and its return address
/// in hexadecimal, numbered from zero in order.
pub proof fn lemma_report_shape(core: u64, record: PanicRecord, frames: Seq<StackFrame>)
    requires
        record.location matches Some(loc) ==> single_line(loc.file.spec_bytes()),
        record.message matches Some(m) ==> single_line(m.spec_bytes()),
    ensures
        one_line(panic_line_text(core, record)),
        panic_report_text(core, record, frames) == panic_line_text(core, record) + header_text()
            + frame_lines_text(frames),
        one_line(header_text()),
        header_text().drop_last() == "Backtrace:".spec_bytes(),
        frames.len() > 0 ==> frame_lines_text(frames) == frame_lines_text(frames.drop_last())
            + frame_line_text((frames.len() - 1) as nat, frames.last().return_address),
        forall|n: nat, ret: u64| one_line(#[trigger] frame_line_text(n, ret)),
        forall|n: nat, ret: u64|
            #[trigger] frame_line_text(n, ret) == "#".spec_bytes() + dec_text(n)
                + ": 0x".spec_bytes() + hex_text(ret as nat, true) + seq![line_feed()],
{
    lemma_literals_single_line();
    lemma_dec_single_line(core as nat);
    let prefix = panic_prefix_text(core, record.location);
    let reason = panic_reason_text(record.message);
    lemma_join_single_line("Core #".spec_bytes(), dec_text(core as nat));
    match record.location {
        Some(loc) => {
            lemma_dec_single_line(loc.line as nat);
            let a = "Core #".spec_bytes() + dec_text(core as nat);
            lemma_join_single_line(a, " panicked at ".spec_bytes());
            lemma_join_single_line(a + " panicked at ".spec_bytes(), loc.file.spec_bytes());
            lemma_join_single_line(
                a + " panicked at ".spec_bytes() + loc.file.spec_bytes(),
                ":".spec_bytes(),
            );
            lemma_join_single_line(
                a + " panicked at ".spec_bytes() + loc.file.spec_bytes() + ":".spec_bytes(),
                dec_text(loc.line as nat),
            );
            lemma_join_single_line(
                a + " panicked at ".spec_bytes() + loc.file.spec_bytes() + ":".spec_bytes()
                    + dec_text(loc.line as nat),
                ": ".spec_bytes(),
            );
        },
        None => {
            lemma_join_single_line(
                "Core #".spec_bytes() + dec_text(core as nat),
                " panic: ".spec_bytes(),
            );
        },
    }
    lemma_join_single_line(prefix, reason);
    assert(panic_line_text(core, record).drop_last() =~= prefix + reason);
    assert(one_line(header_text()));
    assert forall|n: nat, ret: u64| one_line(#[trigger] frame_line_text(n, ret)) by {
        lemma_frame_line_one_line(n, ret);
    }
}

} // verus!
