use nautilus_socket::config::{Mode, SocketConfig};
use nautilus_socket::controller::{Controller, ControllerAction, ControllerEvent};
use nautilus_socket::framing::encode_frame;
use nautilus_socket::state::{
    heartbeat_action, reader_after_handler, ClientStatus, ConnectionState, HeartbeatAction, ReaderStep, SendGate,
};

fn echo_config(max_tries: Option<u64>, heartbeat: Option<(u64, Vec<u8>)>) -> SocketConfig {
    SocketConfig::new("127.0.0.1:0".to_string(), Mode::Plain, b"\r\n".to_vec(), heartbeat, None, max_tries)
        .unwrap()
}

#[test]
fn echo_frames_reach_handler_in_order() {
    let config = echo_config(None, None);
    let mut wire = config.frame(b"Hello");
    wire.extend_from_slice(&config.frame(b"World"));
    let mut decoder = config.decoder();
    let mut delivered = Vec::new();
    for byte in wire.chunks(1) {
        decoder.extend(byte);
        while let Some(frame) = decoder.next_frame() {
            delivered.push(frame);
        }
    }
    assert_eq!(delivered, vec![b"Hello".to_vec(), b"World".to_vec()]);
}

#[test]
fn peer_closing_leads_to_reconnect_not_close() {
    let mut c = Controller::new(None);
    assert_eq!(c.step(ControllerEvent::Tick { disconnect: false, alive: false }), ControllerAction::Reconnect);
    assert_ne!(c.state, ConnectionState::Closed);
}

#[test]
fn exhausted_retries_close_after_two_failed_rounds() {
    let mut c = Controller::new(echo_config(Some(2), None).max_reconnection_tries);
    let mut actions = Vec::new();
    for _ in 0..2 {
        actions.push(c.step(ControllerEvent::Tick { disconnect: false, alive: false }));
        actions.push(c.step(ControllerEvent::ReconnectFailed));
    }
    assert_eq!(
        actions,
        vec![
            ControllerAction::Reconnect,
            ControllerAction::RetryLater,
            ControllerAction::Reconnect,
            ControllerAction::GiveUp
        ]
    );
    let st = ClientStatus { state: c.state, disconnect: false };
    assert_eq!(st.send_gate(), SendGate::NotConnected);
}

#[test]
fn close_with_dead_reader_reaches_closed_state() {
    let mut c = Controller::new(None);
    assert_eq!(c.step(ControllerEvent::Tick { disconnect: false, alive: false }), ControllerAction::Reconnect);
    assert_eq!(c.step(ControllerEvent::ReconnectFailed), ControllerAction::RetryLater);
    assert_eq!(c.step(ControllerEvent::Tick { disconnect: true, alive: false }), ControllerAction::Cleanup);
    assert_eq!(c.state, ConnectionState::Closed);
    assert_eq!(c.step(ControllerEvent::Tick { disconnect: true, alive: false }), ControllerAction::Stopped);
}

#[test]
fn user_close_reaches_closed_state() {
    let mut c = Controller::new(None);
    assert_eq!(c.step(ControllerEvent::Tick { disconnect: false, alive: true }), ControllerAction::Idle);
    assert_eq!(c.step(ControllerEvent::Tick { disconnect: true, alive: true }), ControllerAction::ShutdownAndExit);
    let st = ClientStatus { state: c.state, disconnect: true };
    assert!(st.is_closed() && st.is_disconnecting() && !st.is_active());
}

#[test]
fn heartbeat_writes_ping_line_while_active() {
    let config = echo_config(None, Some((1, b"ping".to_vec())));
    let (period, message) = config.heartbeat_message().unwrap();
    assert_eq!(period, 1);
    assert_eq!(message, b"ping\r\n".to_vec());
    assert_eq!(heartbeat_action(ConnectionState::Active), HeartbeatAction::Send);
    let mut decoder = config.decoder();
    decoder.extend(&message);
    decoder.extend(&message);
    assert_eq!(decoder.drain_frames(), vec![b"ping".to_vec(), b"ping".to_vec()]);
}

#[test]
fn handler_error_keeps_later_frames_buffered() {
    let config = echo_config(None, None);
    let mut decoder = config.decoder();
    let mut wire = encode_frame(b"hello", b"\r\n");
    wire.extend_from_slice(&encode_frame(b"ERR", b"\r\n"));
    wire.extend_from_slice(&encode_frame(b"after", b"\r\n"));
    decoder.extend(&wire);
    let mut handled = Vec::new();
    while let Some(frame) = decoder.next_frame() {
        let handler_ok = frame != b"ERR".to_vec();
        if handler_ok {
            handled.push(frame);
        }
        if reader_after_handler(handler_ok) == ReaderStep::ReadMore {
            break;
        }
    }
    assert_eq!(handled, vec![b"hello".to_vec()]);
    decoder.extend(b"");
    assert_eq!(decoder.drain_frames(), vec![b"after".to_vec()]);
    let mut c = Controller::new(None);
    assert_eq!(c.step(ControllerEvent::Tick { disconnect: false, alive: true }), ControllerAction::Idle);
    assert!(ClientStatus { state: c.state, disconnect: false }.is_active());
}

#[test]
fn auto_reconnect_notifies_once_per_success() {
    let mut c = Controller::new(None);
    let mut notified = 0;
    for _ in 0..3 {
        assert_eq!(c.step(ControllerEvent::Tick { disconnect: false, alive: false }), ControllerAction::Reconnect);
        assert!(ClientStatus { state: c.state, disconnect: false }.is_reconnecting());
        if c.step(ControllerEvent::ReconnectSucceeded) == ControllerAction::NotifyReconnected {
            notified += 1;
        }
        assert_eq!(c.state, ConnectionState::Active);
        assert_eq!(c.step(ControllerEvent::Tick { disconnect: false, alive: true }), ControllerAction::Idle);
    }
    assert_eq!(notified, 3);
}
