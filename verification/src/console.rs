//! How the components of a console react to what arrives on the bus that joins
//! them. A host runs each component's loop: it receives, asks here what to do
//! next, and does it.

use vstd::prelude::*;

verus! {

/// What travels on the bus.
#[derive(Debug, Clone, Copy, PartialEq, Eq, Structural)]
pub enum Event {
    /// The clock has ticked.
    Tick,
    /// Every component is to stop.
    Exit,
}

/// What the clock does next.
#[derive(Debug, Clone, Copy, PartialEq, Eq, Structural)]
pub enum ClockStep {
    /// Leave the loop.
    Stop,
    /// Put a `Tick` on the bus, then rest for `CLOCK_PERIOD_SECS`.
    Tick,
}

/// What a component that listens to the bus does next.
#[derive(Debug, Clone, Copy, PartialEq, Eq, Structural)]
pub enum ListenerStep {
    /// Leave the loop.
    Stop,
    /// Report that a tick has arrived, and listen on.
    ReportTick,
    /// Report that nothing could be received, and listen on.
    ReportError,
}

/// The seconds that the clock rests between two ticks.
pub const CLOCK_PERIOD_SECS: u64 = 1;

/// The clock's next step, given what was waiting on the bus, if anything was:
/// it stops on `Exit` and ticks otherwise, also on its own ticks and on an
/// empty or failing bus.
pub fn clock_step(pending: Option<Event>) -> (step: ClockStep)
    ensures
        step == ClockStep::Stop <==> pending == Some(Event::Exit),
        step == ClockStep::Tick <==> pending != Some(Event::Exit),
{
    match pending {
        Some(Event::Exit) => ClockStep::Stop,
        _ => ClockStep::Tick,
    }
}

/// A listener's next step, given what it received, `None` standing for a
/// failed receive: it stops on `Exit`, reports a `Tick`, and reports a failure.
pub fn listener_step(received: Option<Event>) -> (step: ListenerStep)
    ensures
        step == ListenerStep::Stop <==> received == Some(Event::Exit),
        step == ListenerStep::ReportTick <==> received == Some(Event::Tick),
        step == ListenerStep::ReportError <==> received is None,
{
    match received {
        Some(Event::Exit) => ListenerStep::Stop,
        Some(Event::Tick) => ListenerStep::ReportTick,
        None => ListenerStep::ReportError,
    }
}

} // verus!
