//! Waiting for the compositor to release the back buffer.
//!
//! The back buffer was presented two frames before the last, so the compositor is almost always
//! done with it. It may not be where frames are drawn faster than the display refreshes, and
//! writing to the surface while it is being read would risk tearing. But the wait is bounded: it
//! happens on the main thread, which the compositor needs to make progress, so a wait without end
//! would be a deadlock. When the time is up, drawing goes ahead.
use vstd::prelude::*;

verus! {

/// How long to wait before drawing into the back buffer anyway, in nanoseconds.
pub const BACK_BUFFER_WAIT_TIMEOUT: u128 = 10_000_000;

/// How far a wait has come.
#[derive(Clone, Copy, Debug, PartialEq, Eq, Structural)]
pub enum WaitStage {
    /// Not known yet whether there is anything to wait for.
    Start,
    /// The clock runs, and the next thing to find out is whether the buffer is still in use.
    Polling,
    /// The buffer is still in use, and the next thing to find out is how long the wait has lasted.
    Timing,
    /// The wait is over, by a release or because the time was up.
    Over { timed_out: bool },
}

/// Something that a wait asked for.
#[derive(Clone, Copy, Debug, PartialEq, Eq, Structural)]
pub enum WaitEvent {
    /// Whether the compositor is using the back buffer.
    InUse(bool),
    /// The nanoseconds since the clock was started.
    Elapsed(u128),
}

/// What to do next.
#[derive(Clone, Copy, Debug, PartialEq, Eq, Structural)]
pub enum WaitAction {
    /// Start the clock, and find out whether the buffer is in use.
    StartClock,
    /// Read the clock.
    ReadClock,
    /// Let other threads run, and find out whether the buffer is in use.
    Yield,
    /// Lock the buffer.
    Lock,
    /// Report that the compositor still holds all buffers, and lock the buffer.
    ReportAndLock,
}

impl WaitStage {
    /// Whether this is the event that is waited for.
    pub open spec fn expects(self, event: WaitEvent) -> bool {
        match self {
            WaitStage::Start | WaitStage::Polling => event is InUse,
            WaitStage::Timing => event is Elapsed,
            WaitStage::Over { .. } => false,
        }
    }

    /// Where an event leads.
    pub open spec fn after(self, event: WaitEvent) -> WaitStage {
        match event {
            WaitEvent::InUse(false) => WaitStage::Over { timed_out: false },
            WaitEvent::InUse(true) => if self is Start {
                WaitStage::Polling
            } else {
                WaitStage::Timing
            },
            WaitEvent::Elapsed(nanos) => if nanos > BACK_BUFFER_WAIT_TIMEOUT {
                WaitStage::Over { timed_out: true }
            } else {
                WaitStage::Polling
            },
        }
    }

    /// What is to be done on reaching this point from `from`.
    pub open spec fn action_from(self, from: WaitStage) -> WaitAction {
        match self {
            WaitStage::Over { timed_out: true } => WaitAction::ReportAndLock,
            WaitStage::Over { timed_out: false } => WaitAction::Lock,
            WaitStage::Timing => WaitAction::ReadClock,
            _ => if from is Start {
                WaitAction::StartClock
            } else {
                WaitAction::Yield
            },
        }
    }
}

/// A wait for the back buffer. It is over only once the events have made it so, and serves for one
/// frame.
#[derive(Debug)]
pub struct BackBufferWait {
    stage: WaitStage,
}

impl View for BackBufferWait {
    type V = WaitStage;

    closed spec fn view(&self) -> WaitStage {
        self.stage
    }
}

impl BackBufferWait {
    /// A wait that has not begun. The first thing to find out is whether the buffer is in use.
    pub fn new() -> (wait: Self)
        ensures
            wait@ is Start,
    {
        BackBufferWait { stage: WaitStage::Start }
    }

    /// How far the wait has come.
    pub fn stage(&self) -> (stage: WaitStage)
        ensures
            stage == self@,
    {
        self.stage
    }

    /// Takes an event that was waited for, and says what to do next.
    pub fn step(&mut self, event: WaitEvent) -> (action: WaitAction)
        requires
            old(self)@.expects(event),
        ensures
            final(self)@ == old(self)@.after(event),
            action == final(self)@.action_from(old(self)@),
            match event {
                WaitEvent::InUse(false) => final(self)@ == (WaitStage::Over { timed_out: false })
                    && action == WaitAction::Lock,
                WaitEvent::InUse(true) => if old(self)@ is Start {
                    final(self)@ == WaitStage::Polling && action == WaitAction::StartClock
                } else {
                    final(self)@ == WaitStage::Timing && action == WaitAction::ReadClock
                },
                WaitEvent::Elapsed(nanos) => if nanos > 10_000_000 {
                    final(self)@ == (WaitStage::Over { timed_out: true }) && action
                        == WaitAction::ReportAndLock
                } else {
                    final(self)@ == WaitStage::Polling && action == WaitAction::Yield
                },
            },
    {
        match event {
            WaitEvent::InUse(false) => {
                self.stage = WaitStage::Over { timed_out: false };
                WaitAction::Lock
            },
            WaitEvent::InUse(true) => {
                match self.stage {
                    WaitStage::Start => {
                        self.stage = WaitStage::Polling;
                        WaitAction::StartClock
                    },
                    _ => {
                        self.stage = WaitStage::Timing;
                        WaitAction::ReadClock
                    },
                }
            },
            WaitEvent::Elapsed(nanos) => {
                if BACK_BUFFER_WAIT_TIMEOUT < nanos {
                    self.stage = WaitStage::Over { timed_out: true };
                    WaitAction::ReportAndLock
                } else {
                    self.stage = WaitStage::Polling;
                    WaitAction::Yield
                }
            },
        }
    }
}

/// Where a wait stands after a number of events.
pub open spec fn wait_after(events: Seq<WaitEvent>) -> WaitStage
    decreases events.len(),
{
    if events.len() == 0 {
        WaitStage::Start
    } else {
        wait_after(events.drop_last()).after(events.last())
    }
}

/// Every event came when it was waited for.
pub open spec fn in_turn(events: Seq<WaitEvent>) -> bool
    decreases events.len(),
{
    events.len() == 0 || {
        &&& in_turn(events.drop_last())
        &&& wait_after(events.drop_last()).expects(events.last())
    }
}

/// The wait is bounded. While it goes on, every reading of the clock was within the time allowed;
/// the first reading beyond it ends the wait, and nothing else times it out.
pub proof fn law_wait_is_bounded(events: Seq<WaitEvent>)
    requires
        in_turn(events),
    ensures
        !(wait_after(events) is Over) ==> forall|i: int|
            0 <= i < events.len() ==> ((#[trigger] events[i]) matches WaitEvent::Elapsed(nanos)
                ==> nanos <= BACK_BUFFER_WAIT_TIMEOUT),
        (wait_after(events) == (WaitStage::Over { timed_out: true })) <==> (events.len() > 0
            && (events.last() matches WaitEvent::Elapsed(nanos) && nanos
            > BACK_BUFFER_WAIT_TIMEOUT)),
    decreases events.len(),
{
    if events.len() > 0 {
        let before = events.drop_last();
        law_wait_is_bounded(before);
        if !(wait_after(events) is Over) {
            assert forall|i: int| 0 <= i < events.len() implies ((#[trigger] events[i]) matches
                WaitEvent::Elapsed(nanos) ==> nanos <= BACK_BUFFER_WAIT_TIMEOUT) by {
                if i < before.len() {
                    assert(before[i] == events[i]);
                }
            }
        }
    }
}

/// The wait ends without a timeout exactly when the compositor was last seen not to use the
/// buffer. Until then it was seen to use it every time.
pub proof fn law_release_ends_the_wait(events: Seq<WaitEvent>)
    requires
        in_turn(events),
    ensures
        (wait_after(events) == (WaitStage::Over { timed_out: false })) <==> (events.len() > 0
            && events.last() == WaitEvent::InUse(false)),
        forall|i: int|
            0 <= i < events.len() - 1 ==> #[trigger] events[i] != WaitEvent::InUse(false),
    decreases events.len(),
{
    if events.len() > 0 {
        let before = events.drop_last();
        law_release_ends_the_wait(before);
        assert forall|i: int| 0 <= i < events.len() - 1 implies #[trigger] events[i]
            != WaitEvent::InUse(false) by {
            assert(before[i] == events[i]);
        }
    }
}

/// Where the buffer is free to begin with, there is no wait: the first event ends it, and the clock
/// is not even started.
pub proof fn law_free_buffer_is_not_waited_for()
    ensures
        WaitStage::Start.after(WaitEvent::InUse(false)) == (WaitStage::Over {
            timed_out: false,
        }),
        WaitStage::Start.after(WaitEvent::InUse(false)).action_from(WaitStage::Start)
            == WaitAction::Lock,
{
}

/// Where a wait stands is told by the last event. It is at its start only before the first one.
proof fn lemma_stage(events: Seq<WaitEvent>)
    requires
        in_turn(events),
    ensures
        wait_after(events) is Start <==> events.len() == 0,
        wait_after(events) is Polling ==> events.len() % 2 == 1,
        wait_after(events) is Timing ==> events.len() % 2 == 0,
        wait_after(events) is Over <==> events.len() > 0 && (events.last() == WaitEvent::InUse(
            false,
        ) || (events.last() matches WaitEvent::Elapsed(nanos) && nanos > 10_000_000)),
    decreases events.len(),
{
    if events.len() > 0 {
        lemma_stage(events.drop_last());
    }
}

/// What came in turn up to some event came in turn.
proof fn lemma_in_turn_so_far(events: Seq<WaitEvent>, n: int)
    requires
        in_turn(events),
        0 <= n <= events.len(),
    ensures
        in_turn(events.take(n)),
    decreases events.len(),
{
    if n == events.len() {
        assert(events.take(n) =~= events);
    } else {
        lemma_in_turn_so_far(events.drop_last(), n);
        assert(events.drop_last().take(n) =~= events.take(n));
    }
}

/// The clock is started once, at the beginning of the wait, and what is done then depends on the
/// event alone. Whatever events came in turn, the clock is started exactly on the first one, if it
/// says that the buffer is in use, and never again. Each later report that the buffer is still in
/// use has the clock read, so the readings measure the whole wait; a reading of no more than ten
/// milliseconds lets other threads run, and a longer one ends the wait.
pub proof fn law_clock_is_started_once(events: Seq<WaitEvent>, i: int)
    requires
        in_turn(events),
        0 <= i < events.len(),
    ensures
        ({
            let action = wait_after(events.take(i + 1)).action_from(wait_after(events.take(i)));
            &&& action == WaitAction::StartClock <==> i == 0 && events[i] == WaitEvent::InUse(true)
            &&& action == WaitAction::ReadClock <==> i > 0 && events[i] == WaitEvent::InUse(true)
            &&& action == WaitAction::Yield <==> (events[i] matches WaitEvent::Elapsed(nanos)
                && nanos <= 10_000_000)
            &&& action == WaitAction::ReportAndLock <==> (events[i] matches WaitEvent::Elapsed(
                nanos,
            ) && nanos > 10_000_000)
            &&& action == WaitAction::Lock <==> events[i] == WaitEvent::InUse(false)
        }),
{
    lemma_in_turn_so_far(events, i);
    lemma_in_turn_so_far(events, i + 1);
    lemma_stage(events.take(i));
    assert(events.take(i + 1).drop_last() =~= events.take(i));
    assert(events.take(i + 1).last() == events[i]);
}

/// A wait never comes back to its start: whatever came before, each event leads on. A reading of no
/// more than ten milliseconds leads back to polling, after letting other threads run, and where the
/// buffer is then still in use, the clock is read again.
pub proof fn law_wait_never_starts_over(stage: WaitStage, event: WaitEvent)
    requires
        stage.expects(event),
    ensures
        !(stage.after(event) is Start),
        stage.after(event).action_from(stage) == WaitAction::StartClock ==> stage is Start,
        stage.after(event) is Timing ==> stage.after(event).action_from(stage)
            == WaitAction::ReadClock,
        (event matches WaitEvent::Elapsed(nanos) && nanos <= 10_000_000) ==> {
            let polling = stage.after(event);
            let timing = polling.after(WaitEvent::InUse(true));
            &&& polling == WaitStage::Polling
            &&& polling.action_from(stage) == WaitAction::Yield
            &&& timing == WaitStage::Timing
            &&& timing.action_from(polling) == WaitAction::ReadClock
        },
{
}

/// Which events come in turn is told by the events themselves. First comes whether the buffer is in
/// use, twice where it is, and from then on a reading of the clock and whether it is in use take
/// turns. Nothing comes after the buffer was released or a reading was longer than ten
/// milliseconds.
pub proof fn law_events_take_turns(events: Seq<WaitEvent>)
    ensures
        in_turn(events) <==> forall|i: int|
            0 <= i < events.len() ==> {
                &&& i == 0 || i % 2 == 1 ==> (#[trigger] events[i]) is InUse
                &&& i > 0 && i % 2 == 0 ==> events[i] is Elapsed
                &&& i < events.len() - 1 ==> match events[i] {
                    WaitEvent::InUse(in_use) => in_use,
                    WaitEvent::Elapsed(nanos) => nanos <= 10_000_000,
                }
            },
    decreases events.len(),
{
    if events.len() > 0 {
        let earlier = events.drop_last();
        let n = earlier.len() as int;
        law_events_take_turns(earlier);
        assert(forall|i: int| 0 <= i < n ==> #[trigger] earlier[i] == events[i]);
        if in_turn(earlier) {
            lemma_stage(earlier);
            if n > 0 {
                assert(earlier.last() == events[n - 1]);
            }
            assert(events.last() == events[n]);
            if in_turn(events) {
                assert forall|i: int| 0 <= i < events.len() implies ({
                    &&& i == 0 || i % 2 == 1 ==> (#[trigger] events[i]) is InUse
                    &&& i > 0 && i % 2 == 0 ==> events[i] is Elapsed
                    &&& i < events.len() - 1 ==> match events[i] {
                        WaitEvent::InUse(in_use) => in_use,
                        WaitEvent::Elapsed(nanos) => nanos <= 10_000_000,
                    }
                }) by {
                    if i < n {
                        assert(earlier[i] == events[i]);
                    }
                }
            } else {
                assert(!wait_after(earlier).expects(events[n]));
                if n > 0 {
                    assert(events[n - 1] == earlier[n - 1]);
                }
            }
        } else {
            let k = choose|k: int|
                0 <= k < n && !({
                    &&& k == 0 || k % 2 == 1 ==> (#[trigger] earlier[k]) is InUse
                    &&& k > 0 && k % 2 == 0 ==> earlier[k] is Elapsed
                    &&& k < n - 1 ==> match earlier[k] {
                        WaitEvent::InUse(in_use) => in_use,
                        WaitEvent::Elapsed(nanos) => nanos <= 10_000_000,
                    }
                });
            assert(earlier[k] == events[k]);
        }
    }
}

} // verus!
