use rps_server::acceptor::{Acceptor, AcceptorAction, AcceptorEvent, AcceptorPhase};

#[test]
fn new_acceptor_is_binding() {
    assert_eq!(Acceptor::new().phase, AcceptorPhase::Binding);
}

#[test]
fn binds_when_started() {
    let mut acceptor = Acceptor::new();
    assert_eq!(acceptor.step(AcceptorEvent::Started), AcceptorAction::Bind);
    assert_eq!(acceptor.phase, AcceptorPhase::Binding);
}

#[test]
fn accepts_once_bound() {
    let mut acceptor = Acceptor::new();
    assert_eq!(acceptor.step(AcceptorEvent::Started), AcceptorAction::Bind);
    assert_eq!(acceptor.step(AcceptorEvent::Bound), AcceptorAction::Accept);
    assert_eq!(acceptor.phase, AcceptorPhase::Accepting);
}

#[test]
fn serves_each_connection_and_goes_on() {
    let mut acceptor = Acceptor::new();
    acceptor.step(AcceptorEvent::Bound);
    for _ in 0..5 {
        assert_eq!(acceptor.step(AcceptorEvent::Accepted), AcceptorAction::Serve);
        assert_eq!(acceptor.phase, AcceptorPhase::Accepting);
    }
}

#[test]
fn passes_over_a_failed_attempt() {
    let mut acceptor = Acceptor::new();
    acceptor.step(AcceptorEvent::Bound);
    assert_eq!(acceptor.step(AcceptorEvent::AcceptFailed), AcceptorAction::Accept);
    assert_eq!(acceptor.phase, AcceptorPhase::Accepting);
    assert_eq!(acceptor.step(AcceptorEvent::Accepted), AcceptorAction::Serve);
    assert_eq!(acceptor.phase, AcceptorPhase::Accepting);
}

#[test]
fn bind_failure_is_reported_once() {
    let mut acceptor = Acceptor::new();
    assert_eq!(acceptor.step(AcceptorEvent::BindFailed), AcceptorAction::Fail);
    assert_eq!(acceptor.phase, AcceptorPhase::Failed);
    let events = [
        AcceptorEvent::Started,
        AcceptorEvent::Bound,
        AcceptorEvent::BindFailed,
        AcceptorEvent::Accepted,
        AcceptorEvent::AcceptFailed,
    ];
    for event in events {
        assert_eq!(acceptor.step(event), AcceptorAction::Stop);
        assert_eq!(acceptor.phase, AcceptorPhase::Failed);
    }
}

#[test]
fn nothing_is_served_before_the_address_is_bound() {
    for event in [AcceptorEvent::Accepted, AcceptorEvent::AcceptFailed] {
        let mut acceptor = Acceptor::new();
        assert_eq!(acceptor.step(event), AcceptorAction::Bind);
        assert_eq!(acceptor.phase, AcceptorPhase::Binding);
    }
}

#[test]
fn an_accepting_acceptor_stays_accepting() {
    let mut acceptor = Acceptor::new();
    acceptor.step(AcceptorEvent::Bound);
    for event in [AcceptorEvent::Started, AcceptorEvent::Bound, AcceptorEvent::BindFailed] {
        assert_eq!(acceptor.step(event), AcceptorAction::Accept);
        assert_eq!(acceptor.phase, AcceptorPhase::Accepting);
    }
}
