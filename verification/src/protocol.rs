use vstd::prelude::*;

verus! {

/// Where a persistent worker stands in the cycle of one step.
#[derive(Clone, Copy, Debug, PartialEq, Eq, Structural)]
pub enum Phase {
    /// Waiting at the first rendezvous, where the driver releases the pool
    /// once it has published the step size and the snapshot.
    Idle,
    /// Computing the velocity increments of its own indices from the
    /// snapshot that the driver published for this step.
    Compute,
    /// Moving the particles at its own indices on.
    Commit,
    /// Done writing; waiting at the second rendezvous until every worker
    /// is done writing.
    Rendezvous,
    /// Out of the cycle for good.
    Stopped,
}

/// What the runtime reports once it has done what a phase waits for.
#[derive(Clone, Copy, Debug, PartialEq, Eq, Structural)]
pub enum Event {
    /// The pool was released; `stop` says that it is being shut down.
    Released { stop: bool },
    /// This worker has computed its increments.
    ReadDone,
    /// This worker has moved its particles on and let go of them.
    WriteDone,
    /// Every worker is done writing; `leader` marks the one worker that the
    /// rendezvous singled out.
    Arrived { leader: bool },
    /// A lock or a thread of the pool has failed.
    Failed,
}

/// The phase to enter, and whether this worker is the one that tells the
/// driver that the step is complete.
#[derive(Clone, Copy, Debug, PartialEq, Eq, Structural)]
pub struct Turn {
    pub phase: Phase,
    pub signal: bool,
}

/// The cycle of a step: released, compute, write, wait for all writes, and
/// idle again, with a rendezvous of all participants at its start and at its
/// end. A shutdown is taken at the release; a failure, or an event that the
/// phase does not wait for, stops the worker for good. The leader of the
/// second rendezvous, and nobody else, signals completion.
pub open spec fn turn_of(phase: Phase, event: Event) -> Turn {
    match (phase, event) {
        (Phase::Idle, Event::Released { stop }) => Turn {
            phase: if stop {
                Phase::Stopped
            } else {
                Phase::Compute
            },
            signal: false,
        },
        (Phase::Compute, Event::ReadDone) => Turn { phase: Phase::Commit, signal: false },
        (Phase::Commit, Event::WriteDone) => Turn { phase: Phase::Rendezvous, signal: false },
        (Phase::Rendezvous, Event::Arrived { leader }) => Turn {
            phase: Phase::Idle,
            signal: leader,
        },
        _ => Turn { phase: Phase::Stopped, signal: false },
    }
}

/// The events of one complete step, as one worker sees them.
pub open spec fn step_events(leader: bool) -> Seq<Event> {
    seq![
        Event::Released { stop: false },
        Event::ReadDone,
        Event::WriteDone,
        Event::Arrived { leader },
    ]
}

/// The phase after the events `events`, taken in order from `phase`.
pub open spec fn phase_after(phase: Phase, events: Seq<Event>) -> Phase
    decreases events.len(),
{
    if events.len() == 0 {
        phase
    } else {
        turn_of(phase_after(phase, events.drop_last()), events.last()).phase
    }
}

/// How many completion signals the events `events` draw from a worker that
/// starts in `phase`.
pub open spec fn signals_during(phase: Phase, events: Seq<Event>) -> nat
    decreases events.len(),
{
    if events.len() == 0 {
        0
    } else {
        let earlier = signals_during(phase, events.drop_last());
        if turn_of(phase_after(phase, events.drop_last()), events.last()).signal {
            earlier + 1
        } else {
            earlier
        }
    }
}

impl Phase {
    /// The turn that `event` brings about in this phase.
    pub fn turn(self, event: Event) -> (turn: Turn)
        ensures
            turn == turn_of(self, event),
    {
        match (self, event) {
            (Phase::Idle, Event::Released { stop }) => Turn {
                phase: if stop {
                    Phase::Stopped
                } else {
                    Phase::Compute
                },
                signal: false,
            },
            (Phase::Compute, Event::ReadDone) => Turn { phase: Phase::Commit, signal: false },
            (Phase::Commit, Event::WriteDone) => Turn { phase: Phase::Rendezvous, signal: false },
            (Phase::Rendezvous, Event::Arrived { leader }) => Turn {
                phase: Phase::Idle,
                signal: leader,
            },
            _ => Turn { phase: Phase::Stopped, signal: false },
        }
    }
}

/// A complete step brings an idle worker back to idle, and draws one
/// completion signal from the leader and none from anybody else.
pub proof fn lemma_step_returns_to_idle(leader: bool)
    ensures
        phase_after(Phase::Idle, step_events(leader)) == Phase::Idle,
        signals_during(Phase::Idle, step_events(leader)) == (if leader {
            1nat
        } else {
            0nat
        }),
{
    let events = step_events(leader);
    let three = events.drop_last();
    let two = three.drop_last();
    let one = two.drop_last();
    let none = one.drop_last();
    assert(none.len() == 0);
    assert(phase_after(Phase::Idle, none) == Phase::Idle);
    assert(one.last() == Event::Released { stop: false });
    assert(phase_after(Phase::Idle, one) == Phase::Compute);
    assert(two.last() == Event::ReadDone);
    assert(phase_after(Phase::Idle, two) == Phase::Commit);
    assert(three.last() == Event::WriteDone);
    assert(phase_after(Phase::Idle, three) == Phase::Rendezvous);
    assert(events.last() == Event::Arrived { leader });
    assert(signals_during(Phase::Idle, none) == 0);
    assert(signals_during(Phase::Idle, one) == 0);
    assert(signals_during(Phase::Idle, two) == 0);
    assert(signals_during(Phase::Idle, three) == 0);
}

/// How many of the workers are marked as leader.
pub open spec fn leaders_among(leaders: Seq<bool>) -> nat
    decreases leaders.len(),
{
    if leaders.len() == 0 {
        0
    } else if leaders.last() {
        leaders_among(leaders.drop_last()) + 1
    } else {
        leaders_among(leaders.drop_last())
    }
}

/// How many completion signals one step draws from a pool of idle workers,
/// of which `leaders` marks the leaders of the second rendezvous.
pub open spec fn signals_of_pool(leaders: Seq<bool>) -> nat
    decreases leaders.len(),
{
    if leaders.len() == 0 {
        0
    } else {
        signals_of_pool(leaders.drop_last()) + signals_during(
            Phase::Idle,
            step_events(leaders.last()),
        )
    }
}

/// A step draws as many completion signals from the pool as the second
/// rendezvous names leaders: with one leader, the driver is told once.
pub proof fn lemma_one_signal_for_each_leader(leaders: Seq<bool>)
    ensures
        signals_of_pool(leaders) == leaders_among(leaders),
    decreases leaders.len(),
{
    if leaders.len() > 0 {
        lemma_one_signal_for_each_leader(leaders.drop_last());
        lemma_step_returns_to_idle(leaders.last());
    }
}

/// A stopped worker stays stopped and never signals, whatever happens.
pub proof fn lemma_stopped_is_final(events: Seq<Event>)
    ensures
        phase_after(Phase::Stopped, events) == Phase::Stopped,
        signals_during(Phase::Stopped, events) == 0,
    decreases events.len(),
{
    if events.len() > 0 {
        lemma_stopped_is_final(events.drop_last());
    }
}

/// A worker waits in two phases only, `Idle` and `Rendezvous`, and the
/// events that end these waits are the two rendezvous of a step: no other
/// event leads out of them into the cycle.
pub proof fn lemma_waits_end_at_a_rendezvous(phase: Phase, event: Event)
    requires
        phase == Phase::Idle || phase == Phase::Rendezvous,
        turn_of(phase, event).phase != Phase::Stopped,
    ensures
        phase == Phase::Idle ==> event == (Event::Released { stop: false }),
        phase == Phase::Rendezvous ==> event is Arrived,
{
}

} // verus!
