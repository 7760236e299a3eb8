use pov_display::fsm::{Event, Phase, PovState};

#[test]
fn starts_idle() {
    let s = PovState::new();
    assert_eq!(s.state_name(), "idle");
    assert!(!s.is_running());
    assert!(!s.is_loading());
    assert_eq!(PovState::default().current(), Phase::Idle);
}

#[test]
fn start_stop_cycle() {
    let mut s = PovState::new();
    s.handle(&Event::Start);
    assert_eq!(s.state_name(), "running");
    assert!(s.is_running());
    s.handle(&Event::Stop);
    assert_eq!(s.state_name(), "idle");
}

#[test]
fn upload_pauses_and_start_resumes() {
    let mut s = PovState::new();
    s.handle(&Event::Start);
    s.handle(&Event::Upload);
    assert_eq!(s.state_name(), "loading");
    assert!(s.is_loading());
    s.handle(&Event::Stop);
    assert_eq!(s.state_name(), "loading");
    s.handle(&Event::Start);
    assert_eq!(s.state_name(), "running");
}

#[test]
fn fault_and_reset() {
    let mut s = PovState::new();
    s.handle(&Event::Fault);
    assert_eq!(s.state_name(), "error");
    for e in [Event::Start, Event::Stop, Event::Upload, Event::Fault] {
        s.handle(&e);
        assert_eq!(s.current(), Phase::Error);
    }
    s.handle(&Event::Reset);
    assert_eq!(s.state_name(), "idle");
    s.handle(&Event::Reset);
    assert_eq!(s.state_name(), "idle");
}

#[test]
fn fault_while_loading() {
    let mut s = PovState::new();
    s.handle(&Event::Upload);
    s.handle(&Event::Fault);
    assert_eq!(s.current(), Phase::Error);
}
