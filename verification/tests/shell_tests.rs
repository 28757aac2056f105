use tix_core::protocol::shell::{
    classify_shell_response, ShellExecuteRequest, ShellExitStatus, ShellOutputChunk,
    ShellResizeRequest, ShellResponseKind,
};
use tix_core::{Command, MessageType, Packet, ProtocolFlags, TixError};

#[test]
fn shell_execute_request_roundtrip() {
    let req = ShellExecuteRequest::new("dir /w")
        .with_timeout(5000)
        .with_pty()
        .with_working_dir("C:\\Users")
        .with_env("FOO", "BAR");

    let bytes = req.to_bytes().unwrap();
    let decoded = ShellExecuteRequest::from_bytes(&bytes).unwrap();

    assert_eq!(req, decoded);
    assert_eq!(decoded.command, "dir /w");
    assert!(decoded.pty);
    assert_eq!(decoded.timeout_ms, 5000);
    assert_eq!(decoded.env.iter().find(|(k, _)| k == "FOO").unwrap().1, "BAR");
    assert_eq!(decoded.working_dir.as_deref(), Some("C:\\Users"));
}

#[test]
fn shell_output_chunk_roundtrip() {
    let chunk = ShellOutputChunk::stdout(0, b"Hello, World!\n".to_vec());
    let bytes = chunk.to_bytes().unwrap();
    let decoded = ShellOutputChunk::from_bytes(&bytes).unwrap();
    assert_eq!(chunk, decoded);
    assert!(decoded.is_stdout);
}

#[test]
fn shell_exit_status_roundtrip() {
    let exit = ShellExitStatus::success(0, 42);
    let bytes = exit.to_bytes().unwrap();
    let decoded = ShellExitStatus::from_bytes(&bytes).unwrap();
    assert_eq!(exit, decoded);
}

#[test]
fn shell_exit_failed() {
    let exit = ShellExitStatus::failed("command not found");
    assert_eq!(exit.exit_code, -1);
    assert_eq!(exit.error.as_deref(), Some("command not found"));

    let bytes = exit.to_bytes().unwrap();
    let decoded = ShellExitStatus::from_bytes(&bytes).unwrap();
    assert_eq!(decoded.error.as_deref(), Some("command not found"));
}

#[test]
fn shell_resize_roundtrip() {
    let resize = ShellResizeRequest::new(42, 120, 40);
    let bytes = resize.to_bytes().unwrap();
    let decoded = ShellResizeRequest::from_bytes(&bytes).unwrap();
    assert_eq!(resize, decoded);
}

#[test]
fn shell_payloads_have_these_bytes() {
    // integers at their width, little endian
    assert_eq!(
        ShellResizeRequest::new(42, 120, 40).to_bytes().unwrap(),
        vec![42, 0, 0, 0, 0, 0, 0, 0, 120, 0, 40, 0]
    );
    // a byte string behind its length, a flag as one byte
    assert_eq!(
        ShellOutputChunk::stderr(1, vec![0xAA, 0xBB]).to_bytes().unwrap(),
        vec![1, 0, 0, 0, 0, 0, 0, 0, 2, 0, 0, 0, 0, 0, 0, 0, 0xAA, 0xBB, 0]
    );
    // an optional text behind one byte
    assert_eq!(
        ShellExitStatus::success(-2, 3).to_bytes().unwrap(),
        vec![0xFE, 0xFF, 0xFF, 0xFF, 3, 0, 0, 0, 0, 0, 0, 0, 0]
    );
    assert_eq!(
        ShellExitStatus::failed("no").to_bytes().unwrap(),
        vec![0xFF, 0xFF, 0xFF, 0xFF, 0, 0, 0, 0, 0, 0, 0, 0, 1, 2, 0, 0, 0, 0, 0, 0, 0, b'n', b'o']
    );
    // the environment travels as a map does: its length, then names and values
    let req = ShellExecuteRequest::new("x").with_env("A", "1");
    let as_map: std::collections::HashMap<String, String> = req.env.iter().cloned().collect();
    let expected =
        bincode::serialize(&(&req.command, req.pty, req.timeout_ms, &as_map, &req.working_dir))
            .unwrap();
    assert_eq!(req.to_bytes().unwrap(), expected);
}

#[test]
fn bytes_that_are_no_shell_payload_are_refused() {
    assert!(matches!(ShellResizeRequest::from_bytes(&[1, 2, 3]), Err(TixError::Encoding(_))));
    assert!(matches!(ShellOutputChunk::from_bytes(&[]), Err(TixError::Encoding(_))));
    // a length that the bytes do not hold
    let mut bytes = ShellOutputChunk::stdout(0, vec![1, 2, 3]).to_bytes().unwrap();
    bytes.truncate(bytes.len() - 2);
    assert!(matches!(ShellOutputChunk::from_bytes(&bytes), Err(TixError::Encoding(_))));
    // a flag that is neither 0 nor 1
    let mut bytes = ShellOutputChunk::stdout(0, vec![1]).to_bytes().unwrap();
    let last = bytes.len() - 1;
    bytes[last] = 7;
    assert!(matches!(ShellOutputChunk::from_bytes(&bytes), Err(TixError::Encoding(_))));
    // text that is no UTF-8
    let mut bytes = ShellExecuteRequest::new("ab").to_bytes().unwrap();
    bytes[8] = 0xFF;
    assert!(matches!(ShellExecuteRequest::from_bytes(&bytes), Err(TixError::Encoding(_))));
}

#[test]
fn classify_streaming_response() {
    let flags_streaming = ProtocolFlags::streaming();
    let flags_final = ProtocolFlags::final_fragment();
    let flags_none = ProtocolFlags::none();

    assert!(flags_streaming.contains(ProtocolFlags::streaming()));
    assert!(!flags_streaming.contains(ProtocolFlags::final_fragment()));
    assert!(flags_final.contains(ProtocolFlags::final_fragment()));
    assert!(!flags_none.contains(ProtocolFlags::streaming()));
}

#[test]
fn shell_execute_into_packet() {
    let req = ShellExecuteRequest::new("echo hello");
    let packet = req.into_packet(1).unwrap();

    assert_eq!(packet.command().unwrap(), Command::ShellExecute);
    assert_eq!(packet.request_id(), 1);
    assert_eq!(packet.message_type(), MessageType::Command);

    // Verify payload can be deserialized back
    let decoded = ShellExecuteRequest::from_bytes(packet.payload()).unwrap();
    assert_eq!(decoded.command, "echo hello");
}

#[test]
fn shell_request_defaults() {
    let req = ShellExecuteRequest::new("ls");
    assert_eq!(req.command, "ls");
    assert!(!req.pty);
    assert_eq!(req.timeout_ms, 30_000);
    assert!(req.env.is_empty());
    assert!(req.working_dir.is_none());
}

#[test]
fn with_env_replaces_the_value_of_a_name() {
    let req = ShellExecuteRequest::new("env")
        .with_env("A", "1")
        .with_env("B", "2")
        .with_env("A", "3");
    assert_eq!(
        req.env,
        vec![
            ("A".to_string(), "3".to_string()),
            ("B".to_string(), "2".to_string())
        ]
    );
}

#[test]
fn shell_packets_carry_their_flags() {
    let chunk = ShellOutputChunk::stderr(3, b"oops".to_vec());
    assert!(!chunk.is_stdout);
    assert_eq!(chunk.chunk_number, 3);
    let p = chunk.clone().into_packet(5).unwrap();
    assert_eq!(p.message_type(), MessageType::Response);
    assert_eq!(p.command().unwrap(), Command::ShellExecute);
    assert_eq!(p.flags(), ProtocolFlags::streaming());
    assert_eq!(p.payload(), chunk.to_bytes().unwrap().as_slice());
    assert_eq!(ShellOutputChunk::from_bytes(p.payload()).unwrap(), chunk);
    assert_eq!(classify_shell_response(&p), ShellResponseKind::OutputChunk);

    let exit = ShellExitStatus::success(0, 1).into_packet(5).unwrap();
    assert_eq!(exit.flags(), ProtocolFlags::final_fragment());
    assert_eq!(exit.message_type(), MessageType::Response);
    assert_eq!(classify_shell_response(&exit), ShellResponseKind::Exit);

    let resize = ShellResizeRequest::new(5, 80, 24).into_packet(6).unwrap();
    assert_eq!(resize.command().unwrap(), Command::ShellResize);
    assert_eq!(resize.message_type(), MessageType::Command);
    assert_eq!(resize.flags(), ProtocolFlags::none());

    let single = Packet::new_response(5, Command::ShellExecute, vec![1]).unwrap();
    assert_eq!(classify_shell_response(&single), ShellResponseKind::LegacySingle);

    // the final flag wins over the streaming flag
    let both = Packet::new_response_with_flags(
        5,
        Command::ShellExecute,
        vec![1],
        ProtocolFlags::streaming() | ProtocolFlags::final_fragment(),
    )
    .unwrap();
    assert_eq!(classify_shell_response(&both), ShellResponseKind::Exit);
}

#[test]
fn oversized_payload_is_refused_by_into_packet() {
    // 8 bytes of length and the command fill the packet; the other fields are 18 bytes more
    let command = "x".repeat(256 * 1024 - 8);
    let r = ShellExecuteRequest::new(&command).into_packet(1);
    assert!(matches!(r, Err(TixError::PayloadTooLarge { size: 262162, max: 262144 })));
    // a payload that just fits
    let chunk = ShellOutputChunk::stdout(0, vec![0u8; 256 * 1024 - 17]);
    assert_eq!(chunk.into_packet(1).unwrap().payload().len(), 256 * 1024);
    let chunk = ShellOutputChunk::stdout(0, vec![0u8; 256 * 1024 - 16]);
    assert!(matches!(
        chunk.into_packet(1),
        Err(TixError::PayloadTooLarge { size: 262145, max: 262144 })
    ));
}

#[test]
fn a_resize_request_is_read_from_its_first_twelve_bytes() {
    let resize = ShellResizeRequest::new(u64::MAX, 0x0102, 0xFFFE);
    let mut bytes = resize.to_bytes().unwrap();
    assert_eq!(bytes, vec![0xFF, 0xFF, 0xFF, 0xFF, 0xFF, 0xFF, 0xFF, 0xFF, 2, 1, 0xFE, 0xFF]);
    bytes.push(0);
    assert_eq!(ShellResizeRequest::from_bytes(&bytes).unwrap(), resize);
    assert!(matches!(ShellResizeRequest::from_bytes(&bytes[..11]), Err(TixError::Encoding(_))));
}
