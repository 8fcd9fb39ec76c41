use loopback::{next_phase, watch, Event, Phase};

#[test]
fn start_up_and_shutdown() {
    let p = next_phase(Phase::Idle, Event::Start).unwrap();
    assert_eq!(p, Phase::Configuring);
    let p = next_phase(p, Event::StreamsStarted).unwrap();
    assert_eq!(p, Phase::Streaming);
    let p = next_phase(p, Event::Interrupted).unwrap();
    assert_eq!(p, Phase::ShuttingDown);
    let p = next_phase(p, Event::StreamsClosed).unwrap();
    assert_eq!(p, Phase::Stopped);
}

#[test]
fn failed_set_up_stops_before_streaming() {
    assert_eq!(next_phase(Phase::Configuring, Event::SetupFailed), Some(Phase::Stopped));
    assert_eq!(next_phase(Phase::Idle, Event::StreamsStarted), None);
    assert_eq!(next_phase(Phase::Stopped, Event::Start), None);
    assert_eq!(next_phase(Phase::Configuring, Event::Interrupted), None);
}

#[test]
fn watch_only_acts_on_an_interrupt_while_streaming() {
    assert_eq!(watch(Phase::Streaming, false), Phase::Streaming);
    assert_eq!(watch(Phase::Streaming, true), Phase::ShuttingDown);
    assert_eq!(watch(Phase::Stopped, true), Phase::Stopped);
    assert_eq!(watch(Phase::Configuring, true), Phase::Configuring);
}
