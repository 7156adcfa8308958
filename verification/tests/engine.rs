use native_voice::code_can_be_handled;
use native_voice::error::{classify_error, HostSignal, ProtocolError};
use native_voice::payloads::EncryptionMode;
use native_voice::protocol::{
    decode_control, discovery_request, parse_ipv4, ControlEvent, DiscordVoiceProtocol,
    EngineAction, ProtocolBuilder, SignallingStage,
};
use native_voice::state::LifecycleStage;

fn fresh_engine() -> DiscordVoiceProtocol {
    let mut builder = ProtocolBuilder::new("voice.example.com".to_owned());
    builder.server("41771983423143937".to_owned());
    builder.session("my_session_id".to_owned());
    builder.auth("my_token".to_owned());
    builder.user("80351110224678912".to_owned());
    builder.build()
}

fn feed(proto: &mut DiscordVoiceProtocol, text: &[u8], now_ms: u64) -> Vec<EngineAction> {
    let ev = decode_control(text).expect("decode failed");
    proto.apply_event(ev, now_ms).expect("apply failed")
}

fn discovery_reply(ip: &str, port: u16) -> [u8; 70] {
    let mut buf = [0u8; 70];
    buf[4..4 + ip.len()].copy_from_slice(ip.as_bytes());
    buf[68] = (port >> 8) as u8;
    buf[69] = (port & 0xff) as u8;
    buf
}

#[test]
fn fresh_engine_has_no_key() {
    let proto = fresh_engine();
    assert_eq!(proto.stage, SignallingStage::AwaitingHello);
    assert_eq!(proto.secret_key, vec![0u8; 32]);
    assert!(!proto.has_session_key());
    assert_eq!(proto.heartbeat_interval, u64::MAX);
}

#[test]
fn handshake_reaches_established() {
    let mut proto = fresh_engine();

    // HELLO: the advertised interval is capped at 5000 ms.
    let actions = feed(&mut proto, b"{\"op\":8,\"d\":{\"heartbeat_interval\":41250}}", 1_000);
    assert_eq!(proto.heartbeat_interval, 5000);
    assert_eq!(proto.last_heartbeat, 1_000);
    assert_eq!(proto.stage, SignallingStage::Identifying);
    assert!(matches!(actions[..], [EngineAction::SetReadTimeout(5000)]));

    let identify = proto.identify();
    assert!(String::from_utf8(identify).unwrap().starts_with("{\"op\":0,"));
    assert_eq!(proto.stage, SignallingStage::AwaitingReady);

    // READY: essentials stored, discovery kicked off.
    let actions = feed(
        &mut proto,
        b"{\"op\":2,\"d\":{\"ssrc\":1,\"ip\":\"203.0.113.5\",\"port\":50001,\"modes\":[\"xsalsa20_poly1305\",\"xsalsa20_poly1305_lite\"]}}",
        2_000,
    );
    assert_eq!(proto.ssrc, 1);
    assert_eq!(proto.port, 50001);
    assert_eq!(proto.endpoint_ip, "203.0.113.5");
    assert_eq!(proto.encryption, EncryptionMode::XSalsa20Poly1305Lite);
    assert_eq!(proto.stage, SignallingStage::Discovering);
    assert_eq!(actions.len(), 2);
    match &actions[0] {
        EngineAction::OpenUdp { ip, port } => {
            assert_eq!(ip, "203.0.113.5");
            assert_eq!(*port, 50001);
        }
        other => panic!("expected OpenUdp, got {:?}", other),
    }
    match &actions[1] {
        EngineAction::SendDiscovery(d) => assert_eq!(d, &discovery_request(1)),
        other => panic!("expected SendDiscovery, got {:?}", other),
    }

    // Discovery: the reflexive address comes back; SELECT_PROTOCOL goes out.
    let reply = discovery_reply("203.0.113.5", 50001);
    let actions = proto.handle_discovery_response(&reply).unwrap();
    assert_eq!(proto.stage, SignallingStage::AwaitingSessionDescription);
    match &actions[..] {
        [EngineAction::SendText(t)] => {
            assert_eq!(
                String::from_utf8(t.clone()).unwrap(),
                "{\"op\":1,\"d\":{\"protocol\":\"udp\",\"data\":{\"address\":\"203.0.113.5\",\"port\":50001,\"mode\":\"xsalsa20_poly1305_lite\"}}}"
            );
        }
        other => panic!("expected one SendText, got {:?}", other),
    }

    // SESSION_DESCRIPTION: the key lands, the lifecycle goes Connected.
    let mut text =
        String::from("{\"op\":4,\"d\":{\"mode\":\"xsalsa20_poly1305_lite\",\"secret_key\":[");
    for i in 0..32 {
        if i > 0 {
            text.push(',');
        }
        text.push_str(&i.to_string());
    }
    text.push_str("]}}");
    let actions = feed(&mut proto, text.as_bytes(), 3_000);
    assert_eq!(proto.stage, SignallingStage::Established);
    assert_eq!(proto.encryption, EncryptionMode::XSalsa20Poly1305Lite);
    let expected: Vec<u8> = (0..32).collect();
    assert_eq!(proto.secret_key, expected);
    assert!(proto.has_session_key());
    assert_eq!(proto.heartbeat_interval, 5000);
    assert!(matches!(
        actions[..],
        [EngineAction::SetLifecycle(LifecycleStage::Connected)]
    ));
}

#[test]
fn short_advertised_interval_is_kept() {
    let mut proto = fresh_engine();
    feed(&mut proto, b"{\"op\":8,\"d\":{\"heartbeat_interval\":1234}}", 0);
    assert_eq!(proto.heartbeat_interval, 1234);
}

#[test]
fn ready_without_common_mode_fails() {
    let mut proto = fresh_engine();
    feed(&mut proto, b"{\"op\":8,\"d\":{\"heartbeat_interval\":41250}}", 0);
    let ev = decode_control(
        b"{\"op\":2,\"d\":{\"ssrc\":1,\"ip\":\"203.0.113.5\",\"port\":50001,\"modes\":[\"aead_aes256_gcm\"]}}",
    )
    .unwrap();
    assert!(matches!(
        proto.apply_event(ev, 0),
        Err(ProtocolError::Parse(_))
    ));
}

#[test]
fn ready_with_bad_ip_fails() {
    let mut proto = fresh_engine();
    let ev = decode_control(
        b"{\"op\":2,\"d\":{\"ssrc\":1,\"ip\":\"not-an-ip\",\"port\":50001,\"modes\":[\"xsalsa20_poly1305\"]}}",
    )
    .unwrap();
    match proto.apply_event(ev, 0) {
        Err(ProtocolError::Io(m)) => assert_eq!(m, "invalid IP address"),
        other => panic!("expected an Io error, got {:?}", other.is_ok()),
    }
}

#[test]
fn discovery_retries_then_succeeds() {
    let mut proto = fresh_engine();
    feed(&mut proto, b"{\"op\":8,\"d\":{\"heartbeat_interval\":41250}}", 0);
    proto.identify();
    feed(
        &mut proto,
        b"{\"op\":2,\"d\":{\"ssrc\":7,\"ip\":\"203.0.113.5\",\"port\":50001,\"modes\":[\"xsalsa20_poly1305_lite\"]}}",
        0,
    );

    // Two malformed replies: no null terminator anywhere in the scan range.
    let garbage = [0x41u8; 70];
    for attempt in 1..=2u8 {
        let actions = proto.handle_discovery_response(&garbage).unwrap();
        assert_eq!(proto.discovery_attempts, attempt);
        assert_eq!(proto.stage, SignallingStage::Discovering);
        assert!(matches!(actions[..], [EngineAction::SendDiscovery(_)]));
    }

    // The third reply is valid: the handshake proceeds.
    let reply = {
        let mut buf = [0u8; 70];
        buf[4..15].copy_from_slice(b"203.0.113.5");
        buf[68] = 0xC3;
        buf[69] = 0x51;
        buf
    };
    let actions = proto.handle_discovery_response(&reply).unwrap();
    assert_eq!(proto.stage, SignallingStage::AwaitingSessionDescription);
    assert!(matches!(actions[..], [EngineAction::SendText(_)]));
}

#[test]
fn discovery_gives_up_after_five_retries() {
    let mut proto = fresh_engine();
    let garbage = [0x41u8; 70];
    for _ in 0..5 {
        assert!(proto.handle_discovery_response(&garbage).is_ok());
    }
    match proto.handle_discovery_response(&garbage) {
        Err(ProtocolError::Io(m)) => assert_eq!(m, "could not find end of IP"),
        other => panic!("expected an Io error, got {:?}", other.is_ok()),
    }
}

#[test]
fn discovery_request_layout() {
    let req = discovery_request(0xDEADBEEF);
    assert_eq!(req.len(), 70);
    assert_eq!(&req[0..2], &[0, 1]);
    assert_eq!(&req[2..4], &[0, 70]);
    assert_eq!(&req[4..8], &[0xDE, 0xAD, 0xBE, 0xEF]);
    assert!(req[8..].iter().all(|&b| b == 0));
}

#[test]
fn heartbeat_due_and_emitted() {
    let mut proto = fresh_engine();
    feed(&mut proto, b"{\"op\":8,\"d\":{\"heartbeat_interval\":5000}}", 10_000);
    assert!(!proto.heartbeat_due(14_999));
    assert_eq!(proto.poll_prelude(14_999), None);
    assert!(proto.heartbeat_due(15_000));
    let text = proto.poll_prelude(15_001).expect("a heartbeat is due");
    assert_eq!(String::from_utf8(text).unwrap(), "{\"op\":3,\"d\":15001}");
    assert_eq!(proto.last_heartbeat, 15_001);
    // And it is no longer due right after.
    assert_eq!(proto.poll_prelude(15_002), None);
}

#[test]
fn peer_heartbeat_is_answered_immediately() {
    let mut proto = fresh_engine();
    let actions = feed(&mut proto, b"{\"op\":3,\"d\":123}", 42_000);
    match &actions[..] {
        [EngineAction::SendText(t)] => {
            assert_eq!(String::from_utf8(t.clone()).unwrap(), "{\"op\":3,\"d\":42000}");
        }
        other => panic!("expected one SendText, got {:?}", other),
    }
    assert_eq!(proto.last_heartbeat, 42_000);
}

#[test]
fn ack_ring_keeps_twenty_samples() {
    let mut proto = fresh_engine();
    for i in 0..25u64 {
        proto.last_heartbeat = 0;
        let actions = feed(&mut proto, b"{\"op\":6,\"d\":1}", 100 + i);
        assert!(actions.is_empty());
    }
    assert_eq!(proto.recent_acks.len(), 20);
    // The oldest five samples fell out.
    assert_eq!(proto.recent_acks[0], 105);
    assert_eq!(proto.recent_acks[19], 124);
    assert_eq!(proto.get_latency(), Some(124));
    let avg: u64 = (105..125u64).sum::<u64>() / 20;
    assert_eq!(proto.get_average_latency(), Some(avg));
}

#[test]
fn empty_ring_has_no_latency() {
    let proto = fresh_engine();
    assert_eq!(proto.get_latency(), None);
    assert_eq!(proto.get_average_latency(), None);
}

#[test]
fn peer_close_surfaces_its_code() {
    let mut proto = fresh_engine();
    let (actions, err) = proto.handle_close(Some(4006));
    assert_eq!(proto.close_code, 4006);
    assert_eq!(proto.stage, SignallingStage::Closed);
    assert!(matches!(
        actions[..],
        [EngineAction::SetLifecycle(LifecycleStage::Disconnected)]
    ));
    assert!(matches!(err, ProtocolError::Closed(4006)));
    assert!(matches!(classify_error(err), HostSignal::Reconnect(4006)));
}

#[test]
fn terminal_close_codes_are_not_resumed() {
    for code in [1000u16, 4014, 4015] {
        assert!(!code_can_be_handled(code));
        assert!(matches!(
            classify_error(ProtocolError::Closed(code)),
            HostSignal::ConnectionClosed(c) if c == code
        ));
    }
    for code in [4001u16, 4006, 4013, 4016, 4999] {
        assert!(code_can_be_handled(code));
        assert!(matches!(
            classify_error(ProtocolError::Closed(code)),
            HostSignal::Reconnect(c) if c == code
        ));
    }
}

#[test]
fn other_errors_classify_as_connection_errors() {
    match classify_error(ProtocolError::Parse("bad frame".to_owned())) {
        HostSignal::ConnectionError(m) => assert_eq!(m, "parse error: bad frame"),
        _ => panic!("expected ConnectionError"),
    }
    match classify_error(ProtocolError::Io("socket gone".to_owned())) {
        HostSignal::ConnectionError(m) => assert_eq!(m, "socket gone"),
        _ => panic!("expected ConnectionError"),
    }
    assert!(matches!(
        classify_error(ProtocolError::Crypto),
        HostSignal::ConnectionError(_)
    ));
    assert!(matches!(
        classify_error(ProtocolError::Codec("x".to_owned())),
        HostSignal::ConnectionError(_)
    ));
}

#[test]
fn disconnect_twice_yields_the_same_code() {
    let mut proto = fresh_engine();
    let first = proto.close(1000);
    let snapshot = proto.close_code;
    let second = proto.close(1000);
    assert_eq!(proto.close_code, snapshot);
    for actions in [first, second] {
        assert_eq!(actions.len(), 2);
        assert!(matches!(
            actions[0],
            EngineAction::SetLifecycle(LifecycleStage::Disconnected)
        ));
        match &actions[1] {
            EngineAction::SendClose { code, reason } => {
                assert_eq!(*code, 1000);
                assert_eq!(reason, "closing connection");
            }
            other => panic!("expected SendClose, got {:?}", other),
        }
    }
    assert!(matches!(
        classify_error(ProtocolError::Closed(proto.close_code)),
        HostSignal::ConnectionClosed(1000)
    ));
}

#[test]
fn resume_serializes_from_engine_state() {
    let mut proto = fresh_engine();
    let text = proto.resume();
    assert_eq!(
        String::from_utf8(text).unwrap(),
        "{\"op\":7,\"d\":{\"token\":\"my_token\",\"server_id\":\"41771983423143937\",\"session_id\":\"my_session_id\"}}"
    );
    assert_eq!(proto.stage, SignallingStage::AwaitingReady);
}

#[test]
fn speaking_text_from_engine() {
    let mut proto = fresh_engine();
    let text = proto.speaking(native_voice::payloads::SpeakingFlags::microphone());
    assert_eq!(
        String::from_utf8(text).unwrap(),
        "{\"op\":5,\"d\":{\"speaking\":1,\"delay\":0}}"
    );
}

#[test]
fn ipv4_literals() {
    assert_eq!(parse_ipv4(b"203.0.113.5"), Some(vec![203, 0, 113, 5]));
    assert_eq!(parse_ipv4(b"0.0.0.0"), Some(vec![0, 0, 0, 0]));
    assert_eq!(parse_ipv4(b"255.255.255.255"), Some(vec![255, 255, 255, 255]));
    assert_eq!(parse_ipv4(b"256.0.0.1"), None);
    assert_eq!(parse_ipv4(b"01.2.3.4"), None);
    assert_eq!(parse_ipv4(b"1.2.3"), None);
    assert_eq!(parse_ipv4(b"1.2.3.4.5"), None);
    assert_eq!(parse_ipv4(b"1.2.3.4 "), None);
    assert_eq!(parse_ipv4(b""), None);
}

#[test]
fn lifecycle_register_transitions() {
    let mut state = native_voice::state::PlayingState::new();
    assert!(state.is_disconnected());
    state.connected();
    assert!(state.is_connected());
    assert_eq!(state.stage(), LifecycleStage::Connected);
    state.playing();
    assert!(state.is_playing());
    state.paused();
    assert!(state.is_paused());
    state.finished();
    assert!(state.is_finished());
    state.finished();
    assert!(state.is_finished());
    state.disconnected();
    assert!(state.is_disconnected());
}
