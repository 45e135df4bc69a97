use copter_link::manager::{
    ConnectError, ConnectionManager, ManagerAction, ManagerEvent, TickScheduler,
};
use copter_link::message::Message;

#[test]
fn fresh_manager_is_disconnected() {
    let m = ConnectionManager::new();
    assert!(!m.is_connected());
    assert!(m.connect_allowed());
    assert!(!m.disconnect_allowed());
}

#[test]
fn failed_port_open_reports_connect_failed() {
    let mut m = ConnectionManager::new();
    assert_eq!(m.connect(false), Err(ConnectError::ConnectFailed));
    assert!(!m.is_connected());
    // the attempt is retryable
    assert_eq!(m.connect(true), Ok(()));
    assert!(m.is_connected());
}

#[test]
fn successful_connect_flips_the_controls() {
    let mut m = ConnectionManager::new();
    assert_eq!(m.connect(true), Ok(()));
    assert!(m.is_connected());
    assert!(!m.connect_allowed());
    assert!(m.disconnect_allowed());
}

#[test]
fn second_connect_is_rejected() {
    let mut m = ConnectionManager::new();
    assert_eq!(m.connect(true), Ok(()));
    assert_eq!(m.connect(true), Err(ConnectError::AlreadyConnected));
    assert_eq!(m.connect(false), Err(ConnectError::AlreadyConnected));
    assert!(m.is_connected());
}

#[test]
fn disconnect_twice_equals_disconnect_once() {
    let mut m = ConnectionManager::new();
    assert_eq!(m.connect(true), Ok(()));
    let first = m.handle_event(ManagerEvent::DisconnectRequest);
    let connected_after_first = m.is_connected();
    let second = m.handle_event(ManagerEvent::DisconnectRequest);
    assert_eq!(first, ManagerAction::Idle);
    assert_eq!(second, first);
    assert!(!connected_after_first);
    assert!(!m.is_connected());
}

#[test]
fn send_is_dropped_while_disconnected() {
    let mut m = ConnectionManager::new();
    assert_eq!(m.send(Message::EnableMotor), None);
    m.connect(true).unwrap();
    assert_eq!(m.send(Message::EnableMotor), Some(Message::EnableMotor));
    m.disconnect();
    assert_eq!(m.send(Message::EnableMotor), None);
}

#[test]
fn keepalive_pings_increase_by_one() {
    let mut m = ConnectionManager::new();
    m.connect(true).unwrap();
    assert_eq!(m.keepalive_tick(), Some(Message::Ping(0)));
    assert_eq!(m.keepalive_tick(), Some(Message::Ping(1)));
    assert_eq!(m.keepalive_tick(), Some(Message::Ping(2)));
}

#[test]
fn keepalive_is_silent_while_disconnected() {
    let mut m = ConnectionManager::new();
    assert_eq!(m.keepalive_tick(), None);
    m.connect(true).unwrap();
    m.keepalive_tick();
    m.disconnect();
    assert_eq!(m.keepalive_tick(), None);
}

#[test]
fn reconnect_restarts_the_ping_sequence() {
    let mut m = ConnectionManager::new();
    m.connect(true).unwrap();
    assert_eq!(m.keepalive_tick(), Some(Message::Ping(0)));
    assert_eq!(m.keepalive_tick(), Some(Message::Ping(1)));
    m.disconnect();
    m.connect(true).unwrap();
    assert_eq!(m.keepalive_tick(), Some(Message::Ping(0)));
}

#[test]
fn ping_sequence_wraps_after_the_16_bit_range() {
    let mut m = ConnectionManager::new();
    m.connect(true).unwrap();
    for expected in 0..=u16::MAX {
        assert_eq!(m.keepalive_tick(), Some(Message::Ping(expected)));
    }
    // the counter is 16 bits: one full range later it starts over.
    assert_eq!(m.keepalive_tick(), Some(Message::Ping(0)));
}

#[test]
fn connection_error_forces_disconnected() {
    let mut m = ConnectionManager::new();
    m.connect(true).unwrap();
    let a = m.handle_event(ManagerEvent::ConnectionError);
    assert_eq!(a, ManagerAction::Idle);
    assert!(!m.is_connected());
    assert!(m.connect_allowed());
}

#[test]
fn scheduler_polls_every_fifth_and_toggles_every_twentieth_update() {
    let mut t = TickScheduler::new();
    let mut polls = 0;
    let mut toggles = 0;
    for n in 1..=40u32 {
        let due = t.tick();
        let expect_toggle = n % 20 == 0;
        let expect_poll = n % 5 == 0;
        let mut expected = Vec::new();
        if expect_toggle {
            expected.push(Message::ToggleLed);
        }
        if expect_poll {
            expected.push(Message::QueryMotion);
        }
        assert_eq!(due, expected, "update {n}");
        polls += due.iter().filter(|&&m| m == Message::QueryMotion).count();
        toggles += due.iter().filter(|&&m| m == Message::ToggleLed).count();
    }
    assert_eq!(polls, 8);
    assert_eq!(toggles, 2);
}

#[test]
fn events_drive_the_full_lifecycle() {
    let mut m = ConnectionManager::new();
    let a = m.handle_event(ManagerEvent::ConnectRequest { port_opened: true });
    assert_eq!(a, ManagerAction::ConnectOutcome(Ok(())));
    let a = m.handle_event(ManagerEvent::KeepAlive);
    assert_eq!(a, ManagerAction::Enqueue(Message::Ping(0)));
    let a = m.handle_event(ManagerEvent::Received(Message::QueryMotion));
    assert_eq!(a, ManagerAction::Deliver(Message::QueryMotion));
    let a = m.handle_event(ManagerEvent::DisconnectRequest);
    assert_eq!(a, ManagerAction::Idle);
    let a = m.handle_event(ManagerEvent::KeepAlive);
    assert_eq!(a, ManagerAction::Idle);
    let a = m.handle_event(ManagerEvent::ConnectRequest { port_opened: false });
    assert_eq!(a, ManagerAction::ConnectOutcome(Err(ConnectError::ConnectFailed)));
}
