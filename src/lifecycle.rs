use vstd::prelude::*;

verus! {

/// Where the loopback stands between start-up and shutdown.
#[derive(Clone, Copy, Debug, PartialEq, Eq, Structural)]
pub enum Phase {
    Idle,
    Configuring,
    Streaming,
    ShuttingDown,
    Stopped,
}

/// What moves the loopback from one phase to the next.
#[derive(Clone, Copy, Debug, PartialEq, Eq, Structural)]
pub enum Event {
    /// Device discovery and configuration begin.
    Start,
    /// Both devices were found, configured, and their streams are playing.
    StreamsStarted,
    /// A device was missing, or a configuration or a stream could not be had.
    SetupFailed,
    /// The operator asked the process to stop.
    Interrupted,
    /// Both streams have been torn down.
    StreamsClosed,
}

/// The phase that `event` leads to from `phase`; `None` where the event cannot
/// happen in that phase.
pub open spec fn spec_next_phase(phase: Phase, event: Event) -> Option<Phase> {
    match (phase, event) {
        (Phase::Idle, Event::Start) => Some(Phase::Configuring),
        (Phase::Configuring, Event::StreamsStarted) => Some(Phase::Streaming),
        (Phase::Configuring, Event::SetupFailed) => Some(Phase::Stopped),
        (Phase::Streaming, Event::Interrupted) => Some(Phase::ShuttingDown),
        (Phase::ShuttingDown, Event::StreamsClosed) => Some(Phase::Stopped),
        _ => None,
    }
}

/// Steps the lifecycle: start-up runs through configuration into streaming,
/// a failed set-up stops before any stream plays, an interrupt while
/// streaming begins the shutdown, and closing the streams ends it.
pub fn next_phase(phase: Phase, event: Event) -> (r: Option<Phase>)
    ensures
        r == spec_next_phase(phase, event),
{
    match (phase, event) {
        (Phase::Idle, Event::Start) => Some(Phase::Configuring),
        (Phase::Configuring, Event::StreamsStarted) => Some(Phase::Streaming),
        (Phase::Configuring, Event::SetupFailed) => Some(Phase::Stopped),
        (Phase::Streaming, Event::Interrupted) => Some(Phase::ShuttingDown),
        (Phase::ShuttingDown, Event::StreamsClosed) => Some(Phase::Stopped),
        _ => None,
    }
}

/// One turn of the shutdown watch while streaming: the phase after the stop
/// flag was read as `interrupted`. Any other phase is left as it is.
pub fn watch(phase: Phase, interrupted: bool) -> (r: Phase)
    ensures
        phase == Phase::Streaming && interrupted ==> r == Phase::ShuttingDown,
        !(phase == Phase::Streaming && interrupted) ==> r == phase,
{
    if interrupted {
        match next_phase(phase, Event::Interrupted) {
            Some(p) => p,
            None => phase,
        }
    } else {
        phase
    }
}

} // verus!
