use vstd::prelude::*;

verus! {

/// The pause between the end of one tick and the start of the next, in
/// milliseconds.
pub const PERIOD_MS: u64 = 2000;

/// Where the scheduler stands.
#[derive(Clone, Copy, Debug, PartialEq, Eq, Structural)]
pub enum Phase {
    /// Not started.
    Idle,
    /// A tick is running.
    Ticking,
    /// The tick's notification is being sent.
    Notifying,
    /// Waiting out the period.
    Sleeping,
    /// Terminal: the receiving end is gone.
    Stopped,
}

/// What the thread running the scheduler reports back.
#[derive(Clone, Copy, Debug, PartialEq, Eq, Structural)]
pub enum Event {
    /// The thread has started.
    Started,
    /// The tick asked for is complete.
    Ticked,
    /// The notification was delivered to the channel.
    Sent,
    /// The channel's receiving end is closed.
    SendFailed,
    /// The period has passed.
    Woke,
}

/// What the scheduler asks of the thread running it.
#[derive(Clone, Copy, Debug, PartialEq, Eq, Structural)]
pub enum Action {
    /// Run one tick of the engine.
    Tick,
    /// Send one notification.
    Notify,
    /// Sleep for `PERIOD_MS`.
    Sleep,
    /// Leave the loop: the thread ends.
    Exit,
    /// Nothing: the event did not fit the phase.
    Wait,
}

/// One transition: tick, notify, sleep, tick again; a failed send stops the
/// scheduler for good. An event that does not fit the phase changes nothing.
pub open spec fn step(p: Phase, e: Event) -> (Phase, Action) {
    match (p, e) {
        (Phase::Stopped, _) => (Phase::Stopped, Action::Exit),
        (Phase::Idle, Event::Started) => (Phase::Ticking, Action::Tick),
        (Phase::Ticking, Event::Ticked) => (Phase::Notifying, Action::Notify),
        (Phase::Notifying, Event::Sent) => (Phase::Sleeping, Action::Sleep),
        (Phase::Notifying, Event::SendFailed) => (Phase::Stopped, Action::Exit),
        (Phase::Sleeping, Event::Woke) => (Phase::Ticking, Action::Tick),
        _ => (p, Action::Wait),
    }
}

/// The phase reached from `p` by the events `evs`, and the actions asked on
/// the way.
pub open spec fn run(p: Phase, evs: Seq<Event>) -> (Phase, Seq<Action>)
    decreases evs.len(),
{
    if evs.len() == 0 {
        (p, Seq::empty())
    } else {
        let (q, acts) = run(p, evs.drop_last());
        let (r, a) = step(q, evs.last());
        (r, acts.push(a))
    }
}

/// How many times `a` occurs in `acts`.
pub open spec fn count(acts: Seq<Action>, a: Action) -> nat
    decreases acts.len(),
{
    if acts.len() == 0 {
        0
    } else {
        count(acts.drop_last(), a) + if acts.last() == a {
            1nat
        } else {
            0nat
        }
    }
}

/// The event that a closed receiving end gives back for each action: every
/// send fails, every other action completes.
pub open spec fn closed_answer(a: Action) -> Event {
    match a {
        Action::Tick => Event::Ticked,
        Action::Notify => Event::SendFailed,
        _ => Event::Woke,
    }
}

/// The phase `n` steps on from `p`, with `a` asked last, against a closed
/// receiving end.
pub open spec fn drive_closed(p: Phase, a: Action, n: nat) -> Phase
    decreases n,
{
    if n == 0 {
        p
    } else {
        let (q, b) = step(p, closed_answer(a));
        drive_closed(q, b, (n - 1) as nat)
    }
}

/// The action that a phase is waiting on.
pub open spec fn pending(p: Phase) -> Action {
    match p {
        Phase::Idle => Action::Wait,
        Phase::Ticking => Action::Tick,
        Phase::Notifying => Action::Notify,
        Phase::Sleeping => Action::Sleep,
        Phase::Stopped => Action::Exit,
    }
}

/// Every tick is followed by exactly one notification, before the next tick
/// starts, whatever the reads of the tick gave: over any run from the start,
/// the ticks asked for are the notifications asked for, plus the one tick
/// still running, if any.
pub proof fn lemma_one_notification_per_tick(evs: Seq<Event>)
    ensures
        count(run(Phase::Idle, evs).1, Action::Tick) == count(run(Phase::Idle, evs).1, Action::Notify)
            + if run(Phase::Idle, evs).0 == Phase::Ticking {
            1nat
        } else {
            0nat
        },
        run(Phase::Idle, evs).0 == Phase::Notifying ==> count(run(Phase::Idle, evs).1, Action::Tick)
            == count(run(Phase::Idle, evs).1, Action::Notify),
    decreases evs.len(),
{
    if evs.len() > 0 {
        lemma_one_notification_per_tick(evs.drop_last());
        let (q, acts) = run(Phase::Idle, evs.drop_last());
        let (r, a) = step(q, evs.last());
        assert(acts.push(a).drop_last() =~= acts);
        assert(run(Phase::Idle, evs) == (r, acts.push(a)));
    }
}

/// Once the receiving end is closed, the scheduler stops within one sleep and
/// one tick: from whatever phase it is in, three steps reach `Stopped`, and it
/// stays there.
pub proof fn lemma_closed_receiver_stops(p: Phase, e: Event)
    ensures
        drive_closed(p, pending(p), 3) == Phase::Stopped || p == Phase::Idle,
        step(Phase::Stopped, e) == (Phase::Stopped, Action::Exit),
{
    reveal_with_fuel(drive_closed, 4);
}

/// The decisions of the thread that drives the engine.
pub struct Scheduler {
    phase: Phase,
}

impl Scheduler {
    pub closed spec fn phase_spec(&self) -> Phase {
        self.phase
    }

    /// A scheduler that has not started.
    pub fn new() -> (r: Scheduler)
        ensures
            r.phase_spec() == Phase::Idle,
    {
        Scheduler { phase: Phase::Idle }
    }

    pub fn phase(&self) -> (r: Phase)
        ensures
            r == self.phase_spec(),
    {
        self.phase
    }

    /// Takes in what the thread reports and says what it is to do next.
    pub fn next(&mut self, e: Event) -> (r: Action)
        ensures
            (final(self).phase_spec(), r) == step(old(self).phase_spec(), e),
    {
        let (p, a) = match (self.phase, e) {
            (Phase::Stopped, _) => (Phase::Stopped, Action::Exit),
            (Phase::Idle, Event::Started) => (Phase::Ticking, Action::Tick),
            (Phase::Ticking, Event::Ticked) => (Phase::Notifying, Action::Notify),
            (Phase::Notifying, Event::Sent) => (Phase::Sleeping, Action::Sleep),
            (Phase::Notifying, Event::SendFailed) => (Phase::Stopped, Action::Exit),
            (Phase::Sleeping, Event::Woke) => (Phase::Ticking, Action::Tick),
            (q, _) => (q, Action::Wait),
        };
        self.phase = p;
        a
    }
}

} // verus!
