use native_voice::payloads::{
    EncryptionMode, Heartbeat, Identify, IdentifyInfo, Opcode, Ready, Resume, ResumeInfo,
    SelectProtocol, SelectProtocolInfo, Speaking, SpeakingFlags,
};
use native_voice::protocol::{decode_control, ControlEvent};

fn s(x: &str) -> String {
    x.to_owned()
}

#[test]
fn identify_serializes_exactly() {
    let msg = Identify::new(IdentifyInfo {
        server_id: s("41771983423143937"),
        user_id: s("80351110224678912"),
        session_id: s("my_session_id"),
        token: s("my_token"),
    });
    assert_eq!(msg.op, Opcode::IDENTIFY);
    let text = String::from_utf8(msg.to_json()).unwrap();
    assert_eq!(
        text,
        "{\"op\":0,\"d\":{\"server_id\":\"41771983423143937\",\"user_id\":\"80351110224678912\",\"session_id\":\"my_session_id\",\"token\":\"my_token\"}}"
    );
}

#[test]
fn resume_serializes_exactly() {
    let msg = Resume::new(ResumeInfo {
        token: s("my_token"),
        server_id: s("41771983423143937"),
        session_id: s("my_session_id"),
    });
    assert_eq!(msg.op, Opcode::RESUME);
    let text = String::from_utf8(msg.to_json()).unwrap();
    assert_eq!(
        text,
        "{\"op\":7,\"d\":{\"token\":\"my_token\",\"server_id\":\"41771983423143937\",\"session_id\":\"my_session_id\"}}"
    );
}

#[test]
fn select_protocol_serializes_exactly() {
    let msg = SelectProtocol::from_addr(s("203.0.113.5"), 50001, EncryptionMode::XSalsa20Poly1305Lite);
    let text = String::from_utf8(msg.to_json()).unwrap();
    assert_eq!(
        text,
        "{\"op\":1,\"d\":{\"protocol\":\"udp\",\"data\":{\"address\":\"203.0.113.5\",\"port\":50001,\"mode\":\"xsalsa20_poly1305_lite\"}}}"
    );
}

#[test]
fn select_protocol_new_uses_udp() {
    let msg = SelectProtocol::new(SelectProtocolInfo {
        address: s("10.0.0.1"),
        port: 1,
        mode: s("xsalsa20_poly1305"),
    });
    let text = String::from_utf8(msg.to_json()).unwrap();
    assert!(text.starts_with("{\"op\":1,\"d\":{\"protocol\":\"udp\""));
}

#[test]
fn heartbeat_serializes_exactly() {
    let msg = Heartbeat::new(1501184119561);
    let text = String::from_utf8(msg.to_json()).unwrap();
    assert_eq!(text, "{\"op\":3,\"d\":1501184119561}");
}

#[test]
fn heartbeat_now_is_a_heartbeat() {
    let msg = Heartbeat::now();
    let text = String::from_utf8(msg.to_json()).unwrap();
    assert!(text.starts_with("{\"op\":3,\"d\":"));
}

#[test]
fn speaking_serializes_exactly() {
    let msg = Speaking::new(SpeakingFlags::microphone());
    let text = String::from_utf8(msg.to_json()).unwrap();
    assert_eq!(text, "{\"op\":5,\"d\":{\"speaking\":1,\"delay\":0}}");
    let off = Speaking::new(SpeakingFlags::off());
    assert_eq!(
        String::from_utf8(off.to_json()).unwrap(),
        "{\"op\":5,\"d\":{\"speaking\":0,\"delay\":0}}"
    );
}

#[test]
fn speaking_flags_combine() {
    let mut flags = SpeakingFlags::new(0);
    flags.toggle(SpeakingFlags::MICROPHONE);
    flags.toggle(SpeakingFlags::PRIORITY);
    let msg = Speaking::new(flags);
    assert_eq!(
        String::from_utf8(msg.to_json()).unwrap(),
        "{\"op\":5,\"d\":{\"speaking\":5,\"delay\":0}}"
    );
    assert_eq!(SpeakingFlags::SOUNDSHARE, 2);
}

#[test]
fn string_escaping_round_trip() {
    let msg = Identify::new(IdentifyInfo {
        server_id: s("a\"b"),
        user_id: s("c\\d"),
        session_id: s("e\nf"),
        token: s("g\u{1}h"),
    });
    let text = String::from_utf8(msg.to_json()).unwrap();
    assert!(text.contains("\"server_id\":\"a\\\"b\""));
    assert!(text.contains("\"user_id\":\"c\\\\d\""));
    assert!(text.contains("\"session_id\":\"e\\nf\""));
    assert!(text.contains("\"token\":\"g\\u0001h\""));
}

#[test]
fn best_mode_is_lite_over_suffix_over_full() {
    let rd = Ready {
        ssrc: 1,
        ip: s("203.0.113.5"),
        port: 50001,
        modes: vec![s("xsalsa20_poly1305"), s("xsalsa20_poly1305_lite")],
    };
    assert!(matches!(
        rd.get_encryption_mode(),
        Ok(EncryptionMode::XSalsa20Poly1305Lite)
    ));

    let rd = Ready {
        ssrc: 1,
        ip: s("203.0.113.5"),
        port: 50001,
        modes: vec![
            s("xsalsa20_poly1305_suffix"),
            s("aead_aes256_gcm"),
            s("xsalsa20_poly1305"),
        ],
    };
    assert!(matches!(
        rd.get_encryption_mode(),
        Ok(EncryptionMode::XSalsa20Poly1305Suffix)
    ));

    let rd = Ready {
        ssrc: 1,
        ip: s("203.0.113.5"),
        port: 50001,
        modes: vec![s("xsalsa20_poly1305")],
    };
    assert!(matches!(
        rd.get_encryption_mode(),
        Ok(EncryptionMode::XSalsa20Poly1305)
    ));
}

#[test]
fn no_known_mode_fails_negotiation() {
    let rd = Ready {
        ssrc: 1,
        ip: s("203.0.113.5"),
        port: 50001,
        modes: vec![s("aead_aes256_gcm"), s("plain")],
    };
    match rd.get_encryption_mode() {
        Err(native_voice::error::ProtocolError::Parse(m)) => {
            assert_eq!(m, "No best supported encryption mode found");
        }
        other => panic!("expected a parse error, got {:?}", other.is_ok()),
    }
    let rd = Ready {
        ssrc: 1,
        ip: s("203.0.113.5"),
        port: 50001,
        modes: vec![],
    };
    assert!(rd.get_encryption_mode().is_err());
}

#[test]
fn mode_names_round_trip() {
    for mode in [
        EncryptionMode::XSalsa20Poly1305,
        EncryptionMode::XSalsa20Poly1305Suffix,
        EncryptionMode::XSalsa20Poly1305Lite,
    ] {
        assert_eq!(EncryptionMode::from_name(&mode.name()), Some(mode));
    }
    assert_eq!(EncryptionMode::from_name(&s("nonsense")), None);
}

#[test]
fn hello_frame_decodes() {
    let ev = decode_control(b"{\"op\":8,\"d\":{\"heartbeat_interval\":41250}}").unwrap();
    match ev {
        ControlEvent::Hello(h) => assert_eq!(h.heartbeat_interval, 41250),
        _ => panic!("expected a HELLO event"),
    }
}

#[test]
fn hello_interval_fraction_is_truncated() {
    let ev = decode_control(b"{\"op\":8,\"d\":{\"heartbeat_interval\":41250.75}}").unwrap();
    match ev {
        ControlEvent::Hello(h) => assert_eq!(h.heartbeat_interval, 41250),
        _ => panic!("expected a HELLO event"),
    }
}

#[test]
fn hello_member_order_and_extras_are_free() {
    let ev = decode_control(
        b" { \"d\" : {\"x\":[1,{\"y\":null}],\"heartbeat_interval\":13,\"z\":\"q\"} , \"op\" : 8 } ",
    )
    .unwrap();
    match ev {
        ControlEvent::Hello(h) => assert_eq!(h.heartbeat_interval, 13),
        _ => panic!("expected a HELLO event"),
    }
}

#[test]
fn skipped_members_may_hold_any_number_shape() {
    let ev = decode_control(
        b"{\"op\":8,\"d\":{\"a\":-12,\"b\":1.5e-3,\"c\":2E+8,\"heartbeat_interval\":41250}}",
    )
    .unwrap();
    match ev {
        ControlEvent::Hello(h) => assert_eq!(h.heartbeat_interval, 41250),
        _ => panic!("expected a HELLO event"),
    }
}

#[test]
fn ready_frame_decodes() {
    let ev = decode_control(
        b"{\"op\":2,\"d\":{\"ssrc\":1,\"ip\":\"203.0.113.5\",\"port\":50001,\"modes\":[\"xsalsa20_poly1305\",\"xsalsa20_poly1305_lite\"]}}",
    )
    .unwrap();
    match ev {
        ControlEvent::Ready(rd) => {
            assert_eq!(rd.ssrc, 1);
            assert_eq!(rd.ip, "203.0.113.5");
            assert_eq!(rd.port, 50001);
            assert_eq!(rd.modes, vec![s("xsalsa20_poly1305"), s("xsalsa20_poly1305_lite")]);
        }
        _ => panic!("expected a READY event"),
    }
}

#[test]
fn session_description_decodes() {
    let mut text = String::from("{\"op\":4,\"d\":{\"mode\":\"xsalsa20_poly1305_lite\",\"secret_key\":[");
    for i in 0..32 {
        if i > 0 {
            text.push(',');
        }
        text.push_str(&i.to_string());
    }
    text.push_str("]}}");
    let ev = decode_control(text.as_bytes()).unwrap();
    match ev {
        ControlEvent::SessionDescription(sd) => {
            assert_eq!(sd.mode, "xsalsa20_poly1305_lite");
            let expected: Vec<u8> = (0..32).collect();
            assert_eq!(sd.secret_key, expected);
        }
        _ => panic!("expected a SESSION_DESCRIPTION event"),
    }
}

#[test]
fn short_secret_key_is_a_parse_error() {
    let r = decode_control(b"{\"op\":4,\"d\":{\"mode\":\"xsalsa20_poly1305\",\"secret_key\":[1,2,3]}}");
    assert!(matches!(
        r,
        Err(native_voice::error::ProtocolError::Parse(_))
    ));
}

#[test]
fn heartbeat_opcodes_decode() {
    assert!(matches!(
        decode_control(b"{\"op\":3,\"d\":1501184119561}").unwrap(),
        ControlEvent::HeartbeatRequested
    ));
    assert!(matches!(
        decode_control(b"{\"op\":6,\"d\":1501184119561}").unwrap(),
        ControlEvent::HeartbeatAck
    ));
}

#[test]
fn unknown_opcodes_are_ignored() {
    for op in [9u8, 12, 13, 200] {
        let text = format!("{{\"op\":{},\"d\":null}}", op);
        assert!(matches!(
            decode_control(text.as_bytes()).unwrap(),
            ControlEvent::Ignored
        ));
    }
}

#[test]
fn malformed_frames_are_parse_errors() {
    let cases: [&[u8]; 7] = [
        b"",
        b"not json",
        b"{\"op\":8}",
        b"{\"d\":{}}",
        b"{\"op\":8,\"d\":{\"heartbeat_interval\":41250}} trailing",
        b"{\"op\":8,\"op\":8,\"d\":{}}",
        b"{\"op\":999,\"d\":null}",
    ];
    for case in cases {
        assert!(
            matches!(
                decode_control(case),
                Err(native_voice::error::ProtocolError::Parse(_))
            ),
            "case {:?} should fail",
            String::from_utf8_lossy(case)
        );
    }
}

#[test]
fn duplicate_payload_member_is_a_parse_error() {
    let r = decode_control(b"{\"op\":8,\"d\":{\"heartbeat_interval\":1,\"heartbeat_interval\":2}}");
    assert!(matches!(
        r,
        Err(native_voice::error::ProtocolError::Parse(_))
    ));
}

#[test]
fn missing_ready_member_is_a_parse_error() {
    let r = decode_control(b"{\"op\":2,\"d\":{\"ssrc\":1,\"ip\":\"1.2.3.4\",\"port\":5}}");
    assert!(matches!(
        r,
        Err(native_voice::error::ProtocolError::Parse(_))
    ));
}

#[test]
fn string_escapes_decode() {
    let ev = decode_control(
        b"{\"op\":2,\"d\":{\"ssrc\":1,\"ip\":\"a\\\"b\\\\c\\/d\\n\",\"port\":5,\"modes\":[\"xsalsa20_poly1305\"]}}",
    )
    .unwrap();
    match ev {
        ControlEvent::Ready(rd) => assert_eq!(rd.ip, "a\"b\\c/d\n"),
        _ => panic!("expected a READY event"),
    }
}
