//! Frame-pointer stack walking and the backtrace it prints.
//!
//! Each frame record on the stack holds two words: the caller's frame
//! pointer and the return address into the caller. A walk starts from one
//! frame pointer / return address pair and follows the saved frame pointers
//! until it reaches a null one. Nothing bounds the depth: the walk relies on
//! the calling convention having left a chain that ends in null.
use vstd::prelude::*;
use vstd::string::StringSliceAdditionalSpecFns;

use crate::format::{dec_text, hex_text, push_bytes, push_dec, push_hex, push_str};

verus! {

/// A frame pointer and the return address that belongs to it.
#[derive(Clone, Copy, Debug, PartialEq, Eq, Structural)]
pub struct StackFrame {
    pub frame_pointer: u64,
    pub return_address: u64,
}

/// A walk in progress: the current frame and how many frame lines have been
/// emitted before it.
#[derive(Clone, Copy, Debug)]
pub struct StackWalker {
    pub frame: StackFrame,
    pub index: u64,
}

/// The header line that opens a backtrace.
pub open spec fn header_text() -> Seq<u8> {
    "Backtrace:\n".spec_bytes()
}

/// The line of the frame with index `index` and return address `ret`, in
/// upper-case hexadecimal.
pub open spec fn frame_line_text(index: nat, ret: u64) -> Seq<u8> {
    "#".spec_bytes() + dec_text(index) + ": 0x".spec_bytes() + hex_text(ret as nat, true)
        + "\n".spec_bytes()
}

/// The lines of `frames`, numbered from zero.
pub open spec fn frame_lines_text(frames: Seq<StackFrame>) -> Seq<u8>
    decreases frames.len(),
{
    if frames.len() == 0 {
        Seq::empty()
    } else {
        frame_lines_text(frames.drop_last()) + frame_line_text(
            (frames.len() - 1) as nat,
            frames.last().return_address,
        )
    }
}

/// A whole backtrace of `frames`: the header, then one line per frame.
pub open spec fn backtrace_text(frames: Seq<StackFrame>) -> Seq<u8> {
    header_text() + frame_lines_text(frames)
}

/// Formats the header line of a backtrace.
pub fn backtrace_header() -> (r: Vec<u8>)
    ensures
        r@ == header_text(),
{
    let mut out: Vec<u8> = Vec::new();
    push_str(&mut out, "Backtrace:\n");
    out
}

impl StackWalker {
    /// Starts a walk at `start`, with frame index zero.
    pub fn new(start: StackFrame) -> (r: StackWalker)
        ensures
            r.frame == start,
            r.index == 0,
    {
        StackWalker { frame: start, index: 0 }
    }

    /// Whether the walk has reached the null frame pointer.
    pub fn is_done(&self) -> (r: bool)
        ensures
            r == (self.frame.frame_pointer == 0),
    {
        self.frame.frame_pointer == 0
    }

    /// The line that the current frame prints.
    pub fn frame_line(&self) -> (r: Vec<u8>)
        ensures
            r@ == frame_line_text(self.index as nat, self.frame.return_address),
    {
        let mut out: Vec<u8> = Vec::new();
        push_str(&mut out, "#");
        push_dec(&mut out, self.index);
        push_str(&mut out, ": 0x");
        push_hex(&mut out, self.frame.return_address, true);
        push_str(&mut out, "\n");
        out
    }

    /// Moves to the caller's frame, the pair read at the current frame
    /// pointer.
    pub fn advance(&mut self, caller: StackFrame)
        requires
            old(self).frame.frame_pointer != 0,
            old(self).index < u64::MAX,
        ensures
            final(self).frame == caller,
            final(self).index == old(self).index + 1,
    {
        self.frame = caller;
        self.index = self.index + 1;
    }
}

/// A region of memory as consecutive 64-bit words, the first at address
/// `base`: the stand-in for the stack that a walk reads frame records from.
#[derive(Clone, Debug)]
pub struct FrameMemory {
    pub base: u64,
    pub words: Vec<u64>,
}

/// The frame record stored at `address`: the two words there, when both lie
/// in the region and the address is word aligned.
pub open spec fn load_at(base: u64, words: Seq<u64>, address: u64) -> Option<StackFrame> {
    let offset = address - base;
    if address >= base && offset % 8 == 0 && offset / 8 + 1 < words.len() {
        Some(
            StackFrame {
                frame_pointer: words[offset / 8],
                return_address: words[offset / 8 + 1],
            },
        )
    } else {
        None
    }
}

/// The frame after `f` in a walk: the record stored at its frame pointer.
pub open spec fn caller_of(base: u64, words: Seq<u64>, f: StackFrame) -> StackFrame {
    match load_at(base, words, f.frame_pointer) {
        Some(c) => c,
        None => StackFrame { frame_pointer: 0, return_address: 0 },
    }
}

/// The frame reached after `i` steps of a walk from `start`.
pub open spec fn nth_frame(base: u64, words: Seq<u64>, start: StackFrame, i: nat) -> StackFrame
    decreases i,
{
    if i == 0 {
        start
    } else {
        caller_of(base, words, nth_frame(base, words, start, (i - 1) as nat))
    }
}

/// The walk from `start` visits exactly `k` frames with a non-null frame
/// pointer, each with a record in memory, and then reaches a null one.
pub open spec fn chain_length(base: u64, words: Seq<u64>, start: StackFrame, k: nat) -> bool {
    &&& forall|i: nat|
        i < k ==> (#[trigger] nth_frame(base, words, start, i)).frame_pointer != 0 && load_at(
            base,
            words,
            nth_frame(base, words, start, i).frame_pointer,
        ) is Some
    &&& nth_frame(base, words, start, k).frame_pointer == 0
}

/// The first `k` frames of the walk from `start`.
pub open spec fn walk_frames(base: u64, words: Seq<u64>, start: StackFrame, k: nat) -> Seq<
    StackFrame,
> {
    Seq::new(k, |i: int| nth_frame(base, words, start, i as nat))
}

/// A walk has one length at most: it stops at the first null frame pointer.
pub proof fn lemma_chain_length_unique(
    base: u64,
    words: Seq<u64>,
    start: StackFrame,
    k1: nat,
    k2: nat,
)
    requires
        chain_length(base, words, start, k1),
        chain_length(base, words, start, k2),
    ensures
        k1 == k2,
{
    if k1 < k2 {
        assert(nth_frame(base, words, start, k1).frame_pointer != 0);
    } else if k2 < k1 {
        assert(nth_frame(base, words, start, k2).frame_pointer != 0);
    }
}

/// The words of a well-formed chain of `ras.len()` frame records laid out
/// from `base`, sixteen bytes apart: record `i` holds the frame pointer and
/// return address of frame `i + 1`, and the last record holds a null frame
/// pointer.
pub open spec fn chain_words(base: u64, ras: Seq<u64>) -> Seq<u64> {
    Seq::new(
        2 * ras.len(),
        |j: int|
            if j / 2 + 1 < ras.len() {
                if j % 2 == 0 {
                    (base + 16 * (j / 2 + 1)) as u64
                } else {
                    ras[j / 2 + 1]
                }
            } else {
                0
            },
    )
}

/// Where a walk of that chain starts: frame zero, or the null frame pointer
/// when the chain is empty.
pub open spec fn chain_start(base: u64, ras: Seq<u64>) -> StackFrame {
    if ras.len() == 0 {
        StackFrame { frame_pointer: 0, return_address: 0 }
    } else {
        StackFrame { frame_pointer: base, return_address: ras[0] }
    }
}

proof fn lemma_chain_nth(base: u64, ras: Seq<u64>, i: nat)
    requires
        base != 0,
        base % 8 == 0,
        base + 16 * ras.len() <= u64::MAX,
        i < ras.len(),
    ensures
        nth_frame(base, chain_words(base, ras), chain_start(base, ras), i) == (StackFrame {
            frame_pointer: (base + 16 * i) as u64,
            return_address: ras[i as int],
        }),
    decreases i,
{
    if i > 0 {
        let w = chain_words(base, ras);
        lemma_chain_nth(base, ras, (i - 1) as nat);
        let fp = (base + 16 * (i - 1)) as u64;
        assert(16 * (i - 1) <= 16 * ras.len()) by (nonlinear_arith)
            requires
                i <= ras.len(),
        ;
        assert((16 * (i - 1)) % 8 == 0 && (16 * (i - 1)) / 8 == 2 * (i - 1)) by (nonlinear_arith);
        assert(fp - base == 16 * (i - 1));
        assert(load_at(base, w, fp) == Some(
            StackFrame { frame_pointer: w[2 * (i - 1)], return_address: w[2 * (i - 1) + 1] },
        ));
        assert(w[2 * (i - 1)] == (base + 16 * i) as u64);
    }
}

/// A walk of a well-formed chain of K frame records ending in a null frame
/// pointer visits exactly K frames, in order, with the chain's return
/// addresses, so its backtrace has exactly K frame lines; with K = 0 it is
/// the header alone.
pub proof fn lemma_synthetic_chain_walk(base: u64, ras: Seq<u64>)
    requires
        base != 0,
        base % 8 == 0,
        base + 16 * ras.len() <= u64::MAX,
    ensures
        chain_length(base, chain_words(base, ras), chain_start(base, ras), ras.len()),
        walk_frames(base, chain_words(base, ras), chain_start(base, ras), ras.len()).len()
            == ras.len(),
        forall|i: int|
            0 <= i < ras.len() ==> (#[trigger] walk_frames(
                base,
                chain_words(base, ras),
                chain_start(base, ras),
                ras.len(),
            )[i]).return_address == ras[i],
        ras.len() == 0 ==> backtrace_text(
            walk_frames(base, chain_words(base, ras), chain_start(base, ras), 0),
        ) == header_text(),
{
    let w = chain_words(base, ras);
    let st = chain_start(base, ras);
    let n = ras.len();
    assert forall|i: nat| i < n implies (#[trigger] nth_frame(base, w, st, i)).frame_pointer != 0
        && load_at(base, w, nth_frame(base, w, st, i).frame_pointer) is Some by {
        lemma_chain_nth(base, ras, i);
        assert(16 * i <= 16 * n) by (nonlinear_arith)
            requires
                i <= n,
        ;
        assert((16 * i) % 8 == 0 && (16 * i) / 8 == 2 * i) by (nonlinear_arith);
    }
    if n > 0 {
        lemma_chain_nth(base, ras, (n - 1) as nat);
        assert(16 * (n - 1) <= 16 * n) by (nonlinear_arith);
        assert((16 * (n - 1)) % 8 == 0 && (16 * (n - 1)) / 8 == 2 * (n - 1)) by (nonlinear_arith);
        assert(w[2 * (n - 1)] == 0);
    }
    assert forall|i: int| 0 <= i < n implies (#[trigger] walk_frames(base, w, st, n)[i]).return_address
        == ras[i] by {
        lemma_chain_nth(base, ras, i as nat);
    }
    if n == 0 {
        assert(walk_frames(base, w, st, 0) =~= Seq::<StackFrame>::empty());
        assert(backtrace_text(walk_frames(base, w, st, 0)) =~= header_text());
    }
}

impl FrameMemory {
    /// The frame record stored at `address`, if the region holds it.
    pub fn load(&self, address: u64) -> (r: Option<StackFrame>)
        ensures
            r == load_at(self.base, self.words@, address),
    {
        if address < self.base {
            return None;
        }
        let offset = address - self.base;
        if offset % 8 != 0 {
            return None;
        }
        let k = offset / 8;
        if k + 1 < self.words.len() as u64 {
            let i = k as usize;
            Some(StackFrame { frame_pointer: self.words[i], return_address: self.words[i + 1] })
        } else {
            None
        }
    }
}

/// Walks the frame chain from `start` through `memory` and formats the
/// backtrace: the header, then one line per frame with a non-null frame
/// pointer, numbered from zero, each with that frame's return address.
pub fn backtrace(start: StackFrame, memory: &FrameMemory) -> (r: Vec<u8>)
    requires
        exists|k: nat| k <= u64::MAX && chain_length(memory.base, memory.words@, start, k),
    ensures
        forall|k: nat|
            chain_length(memory.base, memory.words@, start, k) ==> r@ == backtrace_text(
                walk_frames(memory.base, memory.words@, start, k),
            ),
{
    let ghost base = memory.base;
    let ghost words = memory.words@;
    let ghost k: nat = choose|k: nat| k <= u64::MAX && chain_length(base, words, start, k);
    let mut walker = StackWalker::new(start);
    let mut out = backtrace_header();
    assert(walk_frames(base, words, start, 0) =~= Seq::<StackFrame>::empty());
    while !walker.is_done()
        invariant
            base == memory.base,
            words == memory.words@,
            k <= u64::MAX,
            chain_length(base, words, start, k),
            walker.index <= k,
            walker.frame == nth_frame(base, words, start, walker.index as nat),
            out@ == backtrace_text(walk_frames(base, words, start, walker.index as nat)),
        decreases k - walker.index,
    {
        let ghost i = walker.index as nat;
        assert(i < k);
        let line = walker.frame_line();
        push_bytes(&mut out, line.as_slice());
        assert(walk_frames(base, words, start, i + 1).drop_last() =~= walk_frames(
            base,
            words,
            start,
            i,
        ));
        assert(nth_frame(base, words, start, i).frame_pointer != 0);
        match memory.load(walker.frame.frame_pointer) {
            Some(caller) => {
                walker.advance(caller);
            },
            None => {
                assert(false);
            },
        }
    }
    proof {
        if walker.index < k {
            assert(nth_frame(base, words, start, walker.index as nat).frame_pointer != 0);
        }
        assert forall|k2: nat| chain_length(base, words, start, k2) implies out@ == backtrace_text(
            walk_frames(base, words, start, k2),
        ) by {
            lemma_chain_length_unique(base, words, start, k, k2);
        }
    }
    out
}

} // verus!
