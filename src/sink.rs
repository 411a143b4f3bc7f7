//! The one output channel that all cores share, with the lock that
//! serialises access to it. Acquisition is a single attempt that succeeds
//! only when nobody holds the lock; a caller that must block retries.
use vstd::prelude::*;

use crate::format::push_bytes;

verus! {

/// The shared sink: who holds its lock, and every byte written to it so far.
#[derive(Debug)]
pub struct SharedSink {
    owner: Option<u64>,
    output: Vec<u8>,
}

/// The abstract state of the sink.
pub struct SinkState {
    pub owner: Option<u64>,
    pub output: Seq<u8>,
}

/// One operation on the sink by one core.
pub enum SinkOp {
    Lock(u64),
    Write(u64, Seq<u8>),
    Unlock(u64),
}

/// The effect of one operation. A lock attempt succeeds only on a free
/// lock; only the holder's writes reach the output, appended whole; only the
/// holder releases.
pub open spec fn apply(s: SinkState, op: SinkOp) -> SinkState {
    match op {
        SinkOp::Lock(core) => if s.owner is None {
            SinkState { owner: Some(core), output: s.output }
        } else {
            s
        },
        SinkOp::Write(core, bytes) => if s.owner == Some(core) {
            SinkState { owner: s.owner, output: s.output + bytes }
        } else {
            s
        },
        SinkOp::Unlock(core) => if s.owner == Some(core) {
            SinkState { owner: None, output: s.output }
        } else {
            s
        },
    }
}

/// The state after a schedule of operations, in order.
pub open spec fn run(s: SinkState, ops: Seq<SinkOp>) -> SinkState
    decreases ops.len(),
{
    if ops.len() == 0 {
        s
    } else {
        run(apply(s, ops[0]), ops.drop_first())
    }
}

/// What `core` writes in `ops`, in order.
pub open spec fn writes_of(core: u64, ops: Seq<SinkOp>) -> Seq<u8>
    decreases ops.len(),
{
    if ops.len() == 0 {
        Seq::empty()
    } else {
        let rest = writes_of(core, ops.drop_first());
        match ops[0] {
            SinkOp::Write(c, bytes) => if c == core {
                bytes + rest
            } else {
                rest
            },
            _ => rest,
        }
    }
}

impl SharedSink {
    /// The sink's abstract state.
    pub closed spec fn state(&self) -> SinkState {
        SinkState { owner: self.owner, output: self.output@ }
    }

    /// A free sink with nothing written yet.
    pub fn new() -> (r: SharedSink)
        ensures
            r.state().owner is None,
            r.state().output == Seq::<u8>::empty(),
    {
        SharedSink { owner: None, output: Vec::new() }
    }

    /// One attempt by `core` to take the lock: it succeeds exactly when the
    /// lock is free.
    pub fn try_lock(&mut self, core: u64) -> (r: bool)
        ensures
            r == (old(self).state().owner is None),
            final(self).state() == apply(old(self).state(), SinkOp::Lock(core)),
    {
        if self.owner.is_none() {
            self.owner = Some(core);
            true
        } else {
            false
        }
    }

    /// Writes `bytes` for `core`, which holds the lock.
    pub fn write(&mut self, core: u64, bytes: &[u8])
        requires
            old(self).state().owner == Some(core),
        ensures
            final(self).state() == apply(old(self).state(), SinkOp::Write(core, bytes@)),
            final(self).state().output == old(self).state().output + bytes@,
    {
        push_bytes(&mut self.output, bytes);
    }

    /// Releases the lock held by `core`.
    pub fn unlock(&mut self, core: u64)
        requires
            old(self).state().owner == Some(core),
        ensures
            final(self).state() == apply(old(self).state(), SinkOp::Unlock(core)),
            final(self).state().owner is None,
    {
        self.owner = None;
    }

    /// The core that holds the lock, if any.
    pub fn owner(&self) -> (r: Option<u64>)
        ensures
            r == self.state().owner,
    {
        self.owner
    }

    /// Everything written so far.
    pub fn output(&self) -> (r: &Vec<u8>)
        ensures
            r@ == self.state().output,
    {
        &self.output
    }
}

proof fn lemma_run_split(s: SinkState, a: Seq<SinkOp>, b: Seq<SinkOp>)
    ensures
        run(s, a + b) == run(run(s, a), b),
    decreases a.len(),
{
    if a.len() == 0 {
        assert(a + b =~= b);
    } else {
        assert((a + b).drop_first() =~= a.drop_first() + b);
        lemma_run_split(apply(s, a[0]), a.drop_first(), b);
    }
}

proof fn lemma_output_grows(s: SinkState, ops: Seq<SinkOp>)
    ensures
        run(s, ops).output.len() >= s.output.len(),
        run(s, ops).output.subrange(0, s.output.len() as int) == s.output,
    decreases ops.len(),
{
    if ops.len() > 0 {
        let t = apply(s, ops[0]);
        lemma_output_grows(t, ops.drop_first());
        assert(t.output.subrange(0, s.output.len() as int) =~= s.output);
        assert(run(s, ops).output.subrange(0, s.output.len() as int) =~= t.output.subrange(
            0,
            s.output.len() as int,
        ));
    }
}

proof fn lemma_held_section(s: SinkState, core: u64, ops: Seq<SinkOp>)
    requires
        s.owner == Some(core),
        forall|i: int| 0 <= i < ops.len() ==> ops[i] != SinkOp::Unlock(core),
    ensures
        run(s, ops).owner == Some(core),
        run(s, ops).output == s.output + writes_of(core, ops),
    decreases ops.len(),
{
    if ops.len() == 0 {
        assert(s.output + Seq::<u8>::empty() =~= s.output);
    } else {
        let t = apply(s, ops[0]);
        assert forall|i: int| 0 <= i < ops.drop_first().len() implies ops.drop_first()[i]
            != SinkOp::Unlock(core) by {
            assert(ops.drop_first()[i] == ops[i + 1]);
        }
        assert(ops[0] != SinkOp::Unlock(core));
        lemma_held_section(t, core, ops.drop_first());
        match ops[0] {
            SinkOp::Write(c, bytes) => {
                if c == core {
                    assert(s.output + bytes + writes_of(core, ops.drop_first()) =~= s.output + (
                    bytes + writes_of(core, ops.drop_first())));
                }
            },
            _ => {},
        }
    }
}

/// Mutual exclusion on the shared sink: whatever other cores attempt, in
/// any interleaving, everything that one core writes while it holds the lock
/// (from a successful lock to its unlock) stands contiguous and unaltered in
/// the final output, at the offset where the output ended when that stretch
/// began. In particular each single write appears whole.
pub proof fn lemma_locked_writes_contiguous(
    s: SinkState,
    core: u64,
    before: Seq<SinkOp>,
    held: Seq<SinkOp>,
    after: Seq<SinkOp>,
)
    requires
        run(s, before).owner == Some(core),
        forall|i: int| 0 <= i < held.len() ==> held[i] != SinkOp::Unlock(core),
    ensures
        ({
            let start = run(s, before).output.len() as int;
            let out = run(s, before + held + after).output;
            &&& start + writes_of(core, held).len() <= out.len()
            &&& out.subrange(start as int, start + writes_of(core, held).len()) == writes_of(
                core,
                held,
            )
        }),
{
    let m = run(s, before);
    lemma_run_split(s, before, held);
    lemma_run_split(s, before + held, after);
    lemma_held_section(m, core, held);
    let h = run(m, held);
    lemma_output_grows(h, after);
    let out = run(s, before + held + after).output;
    let start = m.output.len() as int;
    let len = writes_of(core, held).len() as int;
    assert(out.subrange(start, start + len) =~= out.subrange(0, h.output.len() as int).subrange(
        start,
        start + len,
    ));
    assert(h.output.subrange(start, start + len) =~= writes_of(core, held));
}

} // verus!
