//! The life of one core: it boots, runs, and ends halted, either normally or
//! through a fault and a panic report. Halted is terminal.
use vstd::prelude::*;

verus! {

/// Where a core stands in its life.
#[derive(Clone, Copy, Debug, PartialEq, Eq, Structural)]
pub enum CoreState {
    Booting,
    Running,
    Faulted,
    Panicking,
    Halted,
}

/// What happens to a core.
#[derive(Clone, Copy, Debug, PartialEq, Eq, Structural)]
pub enum CoreEvent {
    /// Its boot work is done.
    Started,
    /// It finished its work normally.
    Finished,
    /// A hardware exception was trapped.
    Trapped,
    /// A fatal condition was raised (a captured trap, an assertion, a failed
    /// diagnostic write).
    Fatal,
    /// Its panic report has been written.
    Reported,
}

/// The state after `event`. A core leaves a state only by the events named
/// for it; any other event leaves it where it is. Nothing leaves `Halted`.
pub open spec fn next_state(s: CoreState, event: CoreEvent) -> CoreState {
    match (s, event) {
        (CoreState::Booting, CoreEvent::Started) => CoreState::Running,
        (CoreState::Booting, CoreEvent::Fatal) => CoreState::Panicking,
        (CoreState::Running, CoreEvent::Finished) => CoreState::Halted,
        (CoreState::Running, CoreEvent::Trapped) => CoreState::Faulted,
        (CoreState::Running, CoreEvent::Fatal) => CoreState::Panicking,
        (CoreState::Faulted, CoreEvent::Fatal) => CoreState::Panicking,
        (CoreState::Panicking, CoreEvent::Reported) => CoreState::Halted,
        _ => s,
    }
}

/// The state after each event of `events` in turn.
pub open spec fn run_events(s: CoreState, events: Seq<CoreEvent>) -> CoreState
    decreases events.len(),
{
    if events.len() == 0 {
        s
    } else {
        run_events(next_state(s, events[0]), events.drop_first())
    }
}

impl CoreState {
    /// The state after `event`.
    pub fn step(self, event: CoreEvent) -> (r: CoreState)
        ensures
            r == next_state(self, event),
    {
        match (self, event) {
            (CoreState::Booting, CoreEvent::Started) => CoreState::Running,
            (CoreState::Booting, CoreEvent::Fatal) => CoreState::Panicking,
            (CoreState::Running, CoreEvent::Finished) => CoreState::Halted,
            (CoreState::Running, CoreEvent::Trapped) => CoreState::Faulted,
            (CoreState::Running, CoreEvent::Fatal) => CoreState::Panicking,
            (CoreState::Faulted, CoreEvent::Fatal) => CoreState::Panicking,
            (CoreState::Panicking, CoreEvent::Reported) => CoreState::Halted,
            _ => self,
        }
    }

    /// Parks the core for good.
    pub fn halt(&mut self)
        ensures
            *final(self) == CoreState::Halted,
    {
        *self = CoreState::Halted;
    }

    /// Whether the core is halted.
    pub fn is_halted(&self) -> (r: bool)
        ensures
            r == (*self == CoreState::Halted),
    {
        match self {
            CoreState::Halted => true,
            _ => false,
        }
    }
}

/// A halted core never resumes: whatever events follow, and at every point
/// among them, it stays halted.
pub proof fn lemma_halted_is_terminal(events: Seq<CoreEvent>)
    ensures
        forall|i: int|
            0 <= i <= events.len() ==> #[trigger] run_events(
                CoreState::Halted,
                events.subrange(0, i),
            ) == CoreState::Halted,
{
    assert forall|i: int| 0 <= i <= events.len() implies #[trigger] run_events(
        CoreState::Halted,
        events.subrange(0, i),
    ) == CoreState::Halted by {
        lemma_halted_stays(events.subrange(0, i));
    }
}

proof fn lemma_halted_stays(events: Seq<CoreEvent>)
    ensures
        run_events(CoreState::Halted, events) == CoreState::Halted,
    decreases events.len(),
{
    if events.len() > 0 {
        lemma_halted_stays(events.drop_first());
    }
}

} // verus!
