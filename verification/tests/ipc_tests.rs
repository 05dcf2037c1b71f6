use musicpresence::discord_ipc::{
    decode_frame, decode_frame_header, encode_frame, handshake_accepted, pipe_name, pipe_to_probe, Activity,
    Assets, IpcError, IpcSession, FRAME_HEADER_LEN, OPCODE_FRAME, OPCODE_HANDSHAKE,
};

#[test]
fn frame_layout_is_little_endian() {
    let f = encode_frame(OPCODE_HANDSHAKE, b"{}");
    assert_eq!(f, vec![0, 0, 0, 0, 2, 0, 0, 0, b'{', b'}']);
    let f = encode_frame(0x0102_0304, &[]);
    assert_eq!(f, vec![4, 3, 2, 1, 0, 0, 0, 0]);
}

#[test]
fn frame_round_trip() {
    for (op, payload) in [(0u32, b"".to_vec()), (1, b"{\"cmd\":\"SET_ACTIVITY\"}".to_vec()), (u32::MAX, vec![0xff; 300])] {
        let f = encode_frame(op, &payload);
        assert_eq!(f.len(), FRAME_HEADER_LEN + payload.len());
        assert_eq!(decode_frame(&f), Some((op, payload.clone())));
        let mut longer = f.clone();
        longer.extend_from_slice(b"next frame");
        assert_eq!(decode_frame(&longer), Some((op, payload)));
    }
}

#[test]
fn incomplete_frames_are_not_read() {
    let f = encode_frame(OPCODE_FRAME, b"READY");
    for n in 0..f.len() {
        assert_eq!(decode_frame(&f[..n]), None);
    }
}

#[test]
fn header_decoding() {
    let h = decode_frame_header(&[1, 0, 0, 0, 0x10, 0x27, 0, 0]);
    assert_eq!(h.opcode, 1);
    assert_eq!(h.length, 10000);
}

#[test]
fn handshake_needs_ready_frame() {
    assert!(handshake_accepted(1, b"{\"evt\":\"READY\",\"data\":{}}"));
    assert!(!handshake_accepted(0, b"{\"evt\":\"READY\"}"));
    assert!(!handshake_accepted(1, b"{\"evt\":\"ERROR\"}"));
    assert!(!handshake_accepted(1, b"READ"));
    assert!(handshake_accepted(1, b"READY"));
}

#[test]
fn pipe_names() {
    assert_eq!(pipe_name(0), r"\\.\pipe\discord-ipc-0");
    assert_eq!(pipe_name(9), r"\\.\pipe\discord-ipc-9");
}

#[test]
fn session_lifecycle() {
    let mut s = IpcSession::new("123".to_string());
    assert_eq!(s.client_id(), "123");
    assert!(!s.is_connected());
    assert!(!s.complete_handshake(1, b"nope"));
    assert!(!s.is_connected());
    assert!(s.complete_handshake(1, b"READY"));
    assert!(s.is_connected());
    assert_eq!(s.finish_set_activity(true), Ok(()));
    assert!(s.is_connected());
    assert_eq!(s.finish_clear_activity(false), Ok(()));
    assert!(s.is_connected());
    assert_eq!(s.finish_set_activity(false), Err(IpcError::WriteFailed));
    assert!(!s.is_connected());
}

#[test]
fn session_client_switch() {
    let mut s = IpcSession::new("a".to_string());
    s.complete_handshake(1, b"READY");
    assert!(!s.needs_client_switch("a"));
    assert!(s.needs_client_switch("b"));
    s.switch_client("b");
    assert_eq!(s.client_id(), "b");
    assert!(!s.is_connected());
    s.disconnect();
    assert!(!s.is_connected());
}

#[test]
fn error_messages() {
    assert_eq!(IpcError::Unreachable.message(), "Discord is not running or the IPC pipe is unreachable.");
    assert_eq!(IpcError::WriteFailed.message(), "Error writing to Discord pipe");
    assert_eq!(IpcError::NotConnected.message(), "Pipe not connected");
}

#[test]
fn defaults_are_empty() {
    let a = Activity::default();
    assert!(a.activity_type.is_none() && a.name.is_none() && a.buttons.is_none());
    let s = Assets::default();
    assert!(s.large_image.is_none() && s.small_text.is_none());
}

#[test]
fn pipes_probed_in_order_then_give_up() {
    for i in 0..10u32 {
        assert_eq!(pipe_to_probe(i), Some(format!(r"\\.\pipe\discord-ipc-{}", i)));
    }
    assert_eq!(pipe_to_probe(10), None);
    assert_eq!(pipe_to_probe(u32::MAX), None);
}
