use native_voice::payloads::EncryptionMode;
use native_voice::player::{
    pipeline_directive, send_failure_is_drop, InPlaceBuffer, PacketBuilder, PipelineDirective,
    BUFFER_OFFSET, FRAME_SIZE, MAX_BUFFER_SIZE, SAMPLES_PER_FRAME,
};
use native_voice::state::LifecycleStage;
use native_voice::Debugger;

use xsalsa20poly1305::aead::generic_array::GenericArray;
use xsalsa20poly1305::aead::Aead;
use xsalsa20poly1305::{KeyInit, XSalsa20Poly1305};

fn builder(mode: EncryptionMode) -> PacketBuilder {
    PacketBuilder {
        sequence: 0,
        timestamp: 0,
        lite_nonce: 0,
        ssrc: 0xDEADBEEF,
        mode,
        key: (0..32).collect(),
    }
}

/// Reconstructs the AEAD nonce from a finished datagram, as a receiver
/// would for each scheme.
fn nonce_from_packet(mode: EncryptionMode, pkt: &[u8]) -> Vec<u8> {
    match mode {
        EncryptionMode::XSalsa20Poly1305Lite => {
            let mut n = pkt[pkt.len() - 4..].to_vec();
            n.resize(24, 0);
            n
        }
        _ => pkt[pkt.len() - 24..].to_vec(),
    }
}

fn sealed_region(mode: EncryptionMode, pkt: &[u8]) -> &[u8] {
    match mode {
        EncryptionMode::XSalsa20Poly1305Lite => &pkt[12..pkt.len() - 4],
        _ => &pkt[12..pkt.len() - 24],
    }
}

#[test]
fn lite_packet_shape() {
    let mut b = builder(EncryptionMode::XSalsa20Poly1305Lite);
    b.lite_nonce = 7;
    let payload = vec![0u8; 100];
    let pkt = b.build_packet(&payload);
    // The sequence steps before the header is written.
    assert_eq!(
        &pkt[0..12],
        &[0x80, 0x78, 0x00, 0x01, 0x00, 0x00, 0x00, 0x00, 0xDE, 0xAD, 0xBE, 0xEF]
    );
    // The tail is the 4-byte counter as it stood when the packet was built.
    assert_eq!(&pkt[pkt.len() - 4..], &[0x00, 0x00, 0x00, 0x07]);
    assert_eq!(pkt.len(), 12 + 100 + 16 + 4);
    assert_eq!(b.sequence, 1);
    assert_eq!(b.lite_nonce, 8);
    assert_eq!(b.timestamp, 0);
}

#[test]
fn round_trip_all_modes() {
    for mode in [
        EncryptionMode::XSalsa20Poly1305,
        EncryptionMode::XSalsa20Poly1305Suffix,
        EncryptionMode::XSalsa20Poly1305Lite,
    ] {
        let mut b = builder(mode);
        let payload: Vec<u8> = (0..200u32).map(|i| (i * 7) as u8).collect();
        let pkt = b.build_packet(&payload);

        let nonce = nonce_from_packet(mode, &pkt);
        let cipher = XSalsa20Poly1305::new(GenericArray::from_slice(&b.key));
        let opened = cipher
            .decrypt(GenericArray::from_slice(&nonce), sealed_region(mode, &pkt))
            .expect("the datagram must decrypt under the reconstructed nonce");
        assert_eq!(opened, payload, "mode {:?}", mode);
    }
}

#[test]
fn full_mode_nonce_is_the_padded_header() {
    let mut b = builder(EncryptionMode::XSalsa20Poly1305);
    let pkt = b.build_packet(&[1, 2, 3]);
    let nonce = nonce_from_packet(EncryptionMode::XSalsa20Poly1305, &pkt);
    assert_eq!(&nonce[0..12], &pkt[0..12]);
    assert!(nonce[12..].iter().all(|&x| x == 0));
}

#[test]
fn lite_tail_is_the_nonce_prefix() {
    let mut b = builder(EncryptionMode::XSalsa20Poly1305Lite);
    b.lite_nonce = 0x01020304;
    let pkt = b.build_packet(&[9; 50]);
    let nonce = nonce_from_packet(EncryptionMode::XSalsa20Poly1305Lite, &pkt);
    assert_eq!(&pkt[pkt.len() - 4..], &nonce[0..4]);
    assert_eq!(&nonce[0..4], &[1, 2, 3, 4]);
    assert!(nonce[4..].iter().all(|&x| x == 0));
}

#[test]
fn tampered_datagram_fails_to_open() {
    let mut b = builder(EncryptionMode::XSalsa20Poly1305Lite);
    let payload = vec![5u8; 64];
    let mut pkt = b.build_packet(&payload);
    let mid = 12 + 8;
    pkt[mid] ^= 0x01;
    let nonce = nonce_from_packet(EncryptionMode::XSalsa20Poly1305Lite, &pkt);
    let cipher = XSalsa20Poly1305::new(GenericArray::from_slice(&b.key));
    assert!(cipher
        .decrypt(
            GenericArray::from_slice(&nonce),
            sealed_region(EncryptionMode::XSalsa20Poly1305Lite, &pkt)
        )
        .is_err());
}

#[test]
fn sequence_and_timestamp_progressions() {
    let mut b = builder(EncryptionMode::XSalsa20Poly1305Lite);
    for i in 0..5u16 {
        let pkt = b.build_packet(&[0; 10]);
        let seq = u16::from_be_bytes([pkt[2], pkt[3]]);
        let ts = u32::from_be_bytes([pkt[4], pkt[5], pkt[6], pkt[7]]);
        assert_eq!(seq, i + 1);
        assert_eq!(ts, 960 * i as u32);
        b.after_send(false);
    }
    assert_eq!(b.sequence, 5);
    assert_eq!(b.timestamp, 4800);
    assert_eq!(b.lite_nonce, 5);
}

#[test]
fn dropped_send_keeps_the_timestamp() {
    let mut b = builder(EncryptionMode::XSalsa20Poly1305Lite);
    b.build_packet(&[0; 10]);
    b.after_send(true);
    assert_eq!(b.timestamp, 0);
    assert_eq!(b.sequence, 1);
    assert_eq!(b.lite_nonce, 1);
    b.build_packet(&[0; 10]);
    b.after_send(false);
    // The drop moved sequence and counter on, but not the timestamp.
    assert_eq!(b.sequence, 2);
    assert_eq!(b.timestamp, 960);
}

#[test]
fn pause_window_leaves_no_sequence_gap() {
    // A paused stretch issues no builds and no sends, so the sequence
    // resumes exactly where it stopped, with no gap beyond drops.
    let mut b = builder(EncryptionMode::XSalsa20Poly1305Lite);
    let stages = [
        LifecycleStage::Playing,
        LifecycleStage::Playing,
        LifecycleStage::Paused,
        LifecycleStage::Paused,
        LifecycleStage::Playing,
    ];
    let mut sent: Vec<u16> = Vec::new();
    for stage in stages {
        match pipeline_directive(stage) {
            PipelineDirective::Proceed => {
                let pkt = b.build_packet(&[0; 10]);
                sent.push(u16::from_be_bytes([pkt[2], pkt[3]]));
                b.after_send(false);
            }
            PipelineDirective::WaitUntilNotPaused => {}
            _ => panic!("unexpected directive"),
        }
    }
    assert_eq!(sent, vec![1, 2, 3]);
}

#[test]
fn counters_wrap() {
    let mut b = builder(EncryptionMode::XSalsa20Poly1305Lite);
    b.sequence = 0xFFFF;
    b.lite_nonce = 0xFFFFFFFF;
    b.timestamp = 0xFFFFFFFF;
    let pkt = b.build_packet(&[0; 10]);
    assert_eq!(&pkt[2..4], &[0, 0]);
    assert_eq!(b.sequence, 0);
    assert_eq!(b.lite_nonce, 0);
    b.after_send(false);
    assert_eq!(b.timestamp, 959);
}

#[test]
fn builder_snapshots_the_engine() {
    let mut engine = native_voice::protocol::ProtocolBuilder::new("e".to_owned()).build();
    engine.ssrc = 99;
    engine.encryption = EncryptionMode::XSalsa20Poly1305Suffix;
    engine.secret_key = (100..132).collect();
    let b = PacketBuilder::from_protocol(&engine);
    assert_eq!(b.ssrc, 99);
    assert_eq!(b.mode, EncryptionMode::XSalsa20Poly1305Suffix);
    assert_eq!(b.key, engine.secret_key);
    assert_eq!(b.sequence, 0);
    assert_eq!(b.timestamp, 0);
}

#[test]
fn debugger_packet_has_the_full_nonce_tail() {
    let key: Vec<u8> = (0..32).collect();
    let mut d = Debugger::new(key.clone());
    d.ssrc = 0xDEADBEEF;
    d.lite_nonce = 7;
    let payload = vec![3u8; 80];
    let pkt = d.prepare_packet(&payload);
    assert_eq!(
        &pkt[0..12],
        &[0x80, 0x78, 0x00, 0x01, 0x00, 0x00, 0x00, 0x00, 0xDE, 0xAD, 0xBE, 0xEF]
    );
    // This path appends the whole 24-byte nonce.
    assert_eq!(pkt.len(), 12 + 80 + 16 + 24);
    let nonce = &pkt[pkt.len() - 24..];
    assert_eq!(&nonce[0..4], &[0, 0, 0, 7]);
    // It advances the timestamp immediately.
    assert_eq!(d.timestamp, 960);
    assert_eq!(d.sequence, 1);
    assert_eq!(d.lite_nonce, 8);

    let cipher = XSalsa20Poly1305::new(GenericArray::from_slice(&key));
    let opened = cipher
        .decrypt(GenericArray::from_slice(nonce), &pkt[12..pkt.len() - 24])
        .expect("the debugger datagram must decrypt");
    assert_eq!(opened, payload);
}

#[test]
fn debugger_encrypt_matches_the_cipher() {
    let key: Vec<u8> = (0..32).collect();
    let d = Debugger::new(key.clone());
    let nonce = [9u8; 24];
    let sealed = d.encrypt(&nonce, b"hello voice");
    let cipher = XSalsa20Poly1305::new(GenericArray::from_slice(&key));
    let expected = cipher
        .encrypt(GenericArray::from_slice(&nonce), b"hello voice".as_slice())
        .unwrap();
    assert_eq!(sealed, expected);
}

#[test]
fn in_place_buffer_append_and_overflow() {
    let mut buf = InPlaceBuffer::new(vec![0; 8], 2);
    assert_eq!(buf.len(), 2);
    assert!(buf.extend_from_slice(&[1, 2, 3]).is_ok());
    assert_eq!(buf.len(), 5);
    assert!(buf.extend_from_slice(&[4, 5, 6, 7]).is_err());
    assert_eq!(buf.len(), 5);
    assert!(buf.extend_from_slice(&[4, 5, 6]).is_ok());
    assert_eq!(buf.len(), 8);
    assert!(!buf.is_empty());
}

#[test]
fn in_place_buffer_truncate() {
    let mut buf = InPlaceBuffer::new(vec![9; 6], 6);
    buf.truncate(2);
    assert_eq!(buf.len(), 2);
    buf.truncate(10);
    assert_eq!(buf.len(), 2);
    let empty = InPlaceBuffer::new(Vec::new(), 0);
    assert!(empty.is_empty());
}

#[test]
fn pipeline_directives_follow_the_lifecycle() {
    assert!(matches!(
        pipeline_directive(LifecycleStage::Finished),
        PipelineDirective::Exit
    ));
    assert!(matches!(
        pipeline_directive(LifecycleStage::Paused),
        PipelineDirective::WaitUntilNotPaused
    ));
    assert!(matches!(
        pipeline_directive(LifecycleStage::Disconnected),
        PipelineDirective::Reconnect
    ));
    assert!(matches!(
        pipeline_directive(LifecycleStage::Connected),
        PipelineDirective::Proceed
    ));
    assert!(matches!(
        pipeline_directive(LifecycleStage::Playing),
        PipelineDirective::Proceed
    ));
}

#[test]
fn only_would_block_and_timeouts_are_drops() {
    assert!(send_failure_is_drop(true, false));
    assert!(send_failure_is_drop(false, true));
    assert!(!send_failure_is_drop(false, false));
}

#[test]
fn frame_constants() {
    assert_eq!(SAMPLES_PER_FRAME, 960);
    assert_eq!(FRAME_SIZE, 3840);
    assert_eq!(BUFFER_OFFSET, 12);
    assert_eq!(MAX_BUFFER_SIZE, 1363);
}
