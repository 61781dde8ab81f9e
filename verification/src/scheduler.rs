//! The schedule of aggregation runs: one at startup, then one per tick of a
//! fixed interval, never two at a time.
//!
//! The scheduler decides; its caller keeps the clock and performs the runs.
//! It is told of every startup, tick and end of a run, and answers each with
//! an order.

use vstd::prelude::*;

verus! {

/// What the scheduler is told.
#[derive(Clone, Copy, Debug, PartialEq, Eq, Structural)]
pub enum Signal {
    /// The process has started.
    Startup,
    /// The interval has elapsed once more.
    Tick,
    /// The run in flight has ended; `true` where it succeeded.
    Finished(bool),
}

/// What the scheduler answers.
#[derive(Clone, Copy, Debug, PartialEq, Eq, Structural)]
pub enum Order {
    /// Start a run now.
    Run,
    /// A run is still in flight: let this tick pass. It is not made up for.
    Skip,
    /// Nothing to do until the next tick.
    Rest,
    /// The run failed: log it and go on. The previous tables stand until a
    /// later run succeeds.
    Report,
}

/// The scheduler: whether a run is in flight.
#[derive(Clone, Copy, Debug, PartialEq, Eq, Structural)]
pub struct Scheduler {
    pub running: bool,
}

/// The order that answers a signal.
pub open spec fn order_for(running: bool, signal: Signal) -> Order {
    match signal {
        Signal::Startup | Signal::Tick => if running {
            Order::Skip
        } else {
            Order::Run
        },
        Signal::Finished(succeeded) => if running && !succeeded {
            Order::Report
        } else {
            Order::Rest
        },
    }
}

/// Whether a run is in flight once a signal is answered.
pub open spec fn running_after(running: bool, signal: Signal) -> bool {
    match signal {
        Signal::Startup | Signal::Tick => true,
        Signal::Finished(_) => false,
    }
}

/// Whether a run is in flight after the given signals, starting with none.
pub open spec fn running_at(signals: Seq<Signal>) -> bool
    decreases signals.len(),
{
    if signals.len() == 0 {
        false
    } else {
        running_after(running_at(signals.drop_last()), signals.last())
    }
}

/// The order that answers signal `i` of a history.
pub open spec fn order_at(signals: Seq<Signal>, i: int) -> Order
    recommends
        0 <= i < signals.len(),
{
    order_for(running_at(signals.take(i)), signals[i])
}

impl Scheduler {
    /// A scheduler with no run in flight.
    pub fn new() -> (s: Scheduler)
        ensures
            !s.running,
    {
        Scheduler { running: false }
    }

    /// Answers one signal.
    pub fn on_signal(&mut self, signal: Signal) -> (order: Order)
        ensures
            order == order_for(old(self).running, signal),
            final(self).running == running_after(old(self).running, signal),
            order == Order::Run ==> !old(self).running,
    {
        let running = self.running;
        match signal {
            Signal::Startup | Signal::Tick => {
                self.running = true;
                if running {
                    Order::Skip
                } else {
                    Order::Run
                }
            },
            Signal::Finished(succeeded) => {
                self.running = false;
                if running && !succeeded {
                    Order::Report
                } else {
                    Order::Rest
                }
            },
        }
    }
}

/// A run stays in flight until its end is signalled.
pub proof fn run_stays_in_flight(signals: Seq<Signal>, from: int, to: int)
    requires
        0 <= from <= to <= signals.len(),
        running_at(signals.take(from)),
        forall|k: int| from <= k < to ==> !(signals[k] is Finished),
    ensures
        running_at(signals.take(to)),
    decreases to - from,
{
    if from < to {
        run_stays_in_flight(signals, from, to - 1);
        assert(signals.take(to).drop_last() =~= signals.take(to - 1));
    }
}

/// Runs never overlap: between any two orders to run, the end of a run is
/// signalled.
pub proof fn runs_never_overlap(signals: Seq<Signal>, i: int, j: int)
    requires
        0 <= i < j < signals.len(),
        order_at(signals, i) == Order::Run,
        order_at(signals, j) == Order::Run,
    ensures
        exists|k: int| i < k < j && #[trigger] signals[k] is Finished,
{
    if forall|k: int| i < k < j ==> !(#[trigger] signals[k] is Finished) {
        assert(signals.take(i + 1).drop_last() =~= signals.take(i));
        assert(signals.take(i + 1).last() == signals[i]);
        assert(running_at(signals.take(i + 1)));
        run_stays_in_flight(signals, i + 1, j);
        assert(false);
    }
}

/// Where no run is in flight, a tick starts one: a failed or a skipped run
/// holds back no later tick.
pub proof fn tick_runs_when_idle(signals: Seq<Signal>, i: int)
    requires
        0 < i < signals.len(),
        signals[i - 1] is Finished,
        signals[i] == Signal::Tick,
    ensures
        order_at(signals, i) == Order::Run,
{
    assert(signals.take(i).drop_last() =~= signals.take(i - 1));
    assert(signals.take(i).last() == signals[i - 1]);
}

/// The first signal, where it is the startup, starts a run at once.
pub proof fn startup_runs(signals: Seq<Signal>)
    requires
        signals.len() > 0,
        signals[0] == Signal::Startup,
    ensures
        order_at(signals, 0) == Order::Run,
{
    assert(signals.take(0).len() == 0);
}

} // verus!
