use husk::base64::{base64_decode, base64_encode};
use husk::proto::{
    decode_message, default_read_timeout, encode_message, FrameReader, ProtocolError, ReadEvent,
    ReadStep, MAX_MESSAGE_SIZE,
};

fn member<'a>(v: &'a serde_json::Value, path: &[&str]) -> &'a serde_json::Value {
    let mut at = v;
    for key in path {
        at = at.get(key).unwrap();
    }
    at
}

/// Frames a JSON text, takes it out of the frame again, and parses it.
fn through_frame(text: &str) -> serde_json::Value {
    let encoded = encode_message(text.as_bytes()).unwrap();
    let (decoded, consumed) = decode_message(&encoded).unwrap().unwrap();
    assert_eq!(consumed, encoded.len());
    assert_eq!(decoded, text.as_bytes());
    serde_json::from_slice(&decoded).unwrap()
}

#[test]
fn lib_roundtrip_exec_request() {
    let v = through_frame(
        r#"{"Exec":{"command":"ls","args":["-la"],"working_dir":"/tmp","env":[["FOO","bar"]]}}"#,
    );
    assert_eq!(member(&v, &["Exec", "command"]), "ls");
    assert_eq!(member(&v, &["Exec", "args"]).get(0).unwrap(), "-la");
    assert_eq!(member(&v, &["Exec", "working_dir"]), "/tmp");
}

#[test]
fn lib_roundtrip_ping_pong() {
    assert_eq!(through_frame("\"Ping\""), "Ping");
    assert_eq!(through_frame("\"Pong\""), "Pong");
}

#[test]
fn lib_incomplete_buffer_returns_none() {
    let encoded = encode_message(b"\"Ping\"").unwrap();
    let partial = &encoded[..encoded.len() - 1];
    assert!(decode_message(partial).unwrap().is_none());
}

#[test]
fn lib_empty_buffer_returns_none() {
    assert!(decode_message(&[]).unwrap().is_none());
}

#[test]
fn lib_oversized_message_rejected() {
    let mut buf = vec![0u8; 8];
    let bogus_len = (MAX_MESSAGE_SIZE as u32 + 1).to_be_bytes();
    buf[..4].copy_from_slice(&bogus_len);
    let result = decode_message(&buf);
    assert!(matches!(result, Err(ProtocolError::MessageTooLarge { .. })));
}

#[test]
fn roundtrip_shell_start() {
    let v = through_frame(
        r#"{"ShellStart":{"command":"/bin/bash","env":[["TERM","xterm-256color"]],"cols":80,"rows":24}}"#,
    );
    assert_eq!(member(&v, &["ShellStart", "command"]), "/bin/bash");
    assert_eq!(member(&v, &["ShellStart", "cols"]), 80);
    assert_eq!(member(&v, &["ShellStart", "rows"]), 24);
}

#[test]
fn roundtrip_shell_start_default_command() {
    let v = through_frame(r#"{"ShellStart":{"command":null,"env":[],"cols":120,"rows":40}}"#);
    assert!(member(&v, &["ShellStart", "command"]).is_null());
    assert_eq!(member(&v, &["ShellStart", "cols"]), 120);
    assert_eq!(member(&v, &["ShellStart", "rows"]), 40);
}

#[test]
fn roundtrip_shell_data_request() {
    let text = format!("{{\"ShellData\":{{\"data\":\"{}\"}}}}", base64_encode(b"ls -la\n"));
    let v = through_frame(&text);
    let data = member(&v, &["ShellData", "data"]).as_str().unwrap();
    assert_eq!(base64_decode(data).unwrap(), b"ls -la\n");
}

#[test]
fn roundtrip_shell_resize() {
    let v = through_frame(r#"{"ShellResize":{"cols":200,"rows":50}}"#);
    assert_eq!(member(&v, &["ShellResize", "cols"]), 200);
    assert_eq!(member(&v, &["ShellResize", "rows"]), 50);
}

#[test]
fn roundtrip_shell_started() {
    assert_eq!(through_frame("\"ShellStarted\""), "ShellStarted");
}

#[test]
fn roundtrip_shell_data_response() {
    let text = format!(
        "{{\"ShellData\":{{\"data\":\"{}\"}}}}",
        base64_encode(b"total 42\ndrwxr-xr-x")
    );
    let v = through_frame(&text);
    let data = member(&v, &["ShellData", "data"]).as_str().unwrap();
    assert_eq!(base64_decode(data).unwrap(), b"total 42\ndrwxr-xr-x");
}

#[test]
fn roundtrip_shell_exit() {
    let v = through_frame(r#"{"ShellExit":{"exit_code":42}}"#);
    assert_eq!(member(&v, &["ShellExit", "exit_code"]), 42);
}

#[test]
fn roundtrip_shell_exit_zero() {
    let v = through_frame(r#"{"ShellExit":{"exit_code":0}}"#);
    assert_eq!(member(&v, &["ShellExit", "exit_code"]), 0);
}

#[test]
fn frame_is_length_and_payload() {
    assert_eq!(encode_message(b"abc").unwrap(), [0, 0, 0, 3, b'a', b'b', b'c']);
    let too_long = vec![0u8; MAX_MESSAGE_SIZE + 1];
    assert!(matches!(
        encode_message(&too_long),
        Err(ProtocolError::MessageTooLarge { size }) if size == MAX_MESSAGE_SIZE + 1
    ));
}

#[test]
fn decoding_leaves_what_follows_the_frame() {
    let mut buf = encode_message(b"one").unwrap();
    buf.extend(encode_message(b"two").unwrap());
    let (first, used) = decode_message(&buf).unwrap().unwrap();
    assert_eq!(first, b"one");
    let (second, _) = decode_message(&buf[used..]).unwrap().unwrap();
    assert_eq!(second, b"two");
}

/// Feeds bytes to a reader, as many as it asks for at a time.
fn feed(bytes: &[u8]) -> ReadStep {
    let (mut reader, mut step) = FrameReader::start(30);
    let mut at = 0;
    loop {
        match step {
            ReadStep::Read { len, .. } => {
                if at + len > bytes.len() {
                    return reader.step(ReadEvent::Failed {
                        eof: true,
                        received: bytes.len() - at,
                        message: "unexpected end of file".to_string(),
                    });
                }
                step = reader.step(ReadEvent::Bytes(bytes[at..at + len].to_vec()));
                at += len;
            }
            done => return done,
        }
    }
}

#[test]
fn read_message_reads_chunked_payload() {
    let payload = vec![b'x'; 200_000];
    match feed(&encode_message(&payload).unwrap()) {
        ReadStep::Message(got) => assert_eq!(got, payload),
        _ => panic!("expected a message"),
    }
}

#[test]
fn read_message_times_out_on_slow_payload() {
    let (mut reader, step) = FrameReader::start(30);
    assert!(matches!(step, ReadStep::Read { len: 4, .. }));
    let step = reader.step(ReadEvent::Bytes(1000u32.to_be_bytes().to_vec()));
    assert!(matches!(step, ReadStep::Read { .. }));
    match reader.step(ReadEvent::TimedOut) {
        ReadStep::Fail(ProtocolError::ReadTimeout { declared, timeout_secs }) => {
            assert_eq!(declared, 1000);
            assert_eq!(timeout_secs, 30);
        }
        _ => panic!("expected a timeout"),
    }
}

#[test]
fn eof_returns_none() {
    assert!(matches!(feed(&[]), ReadStep::Closed));
}

#[test]
fn reader_fails_on_a_frame_that_is_cut_off() {
    let encoded = encode_message(b"abcdef").unwrap();
    match feed(&encoded[..7]) {
        ReadStep::Fail(ProtocolError::Io(m)) => assert_eq!(m, "unexpected end of file"),
        _ => panic!("expected an error"),
    }
}

#[test]
fn reader_fails_on_a_length_that_is_cut_off() {
    let encoded = encode_message(b"abcdef").unwrap();
    for n in 1..4 {
        match feed(&encoded[..n]) {
            ReadStep::Fail(ProtocolError::Io(m)) => assert_eq!(m, "unexpected end of file"),
            _ => panic!("expected an error"),
        }
    }
}

#[test]
fn reader_fails_where_the_stream_fails() {
    let (mut reader, _) = FrameReader::start(30);
    let reset = ReadEvent::Failed { eof: false, received: 0, message: "reset".to_string() };
    assert!(matches!(reader.step(reset), ReadStep::Fail(ProtocolError::Io(_))));
}

#[test]
fn reader_refuses_a_length_that_is_too_great() {
    let bytes = (MAX_MESSAGE_SIZE as u32 + 1).to_be_bytes();
    assert!(matches!(
        feed(&bytes),
        ReadStep::Fail(ProtocolError::MessageTooLarge { .. })
    ));
}

#[test]
fn read_timeout_comes_from_the_environment() {
    assert_eq!(default_read_timeout(None), 30);
    assert_eq!(default_read_timeout(Some("5")), 5);
    assert_eq!(default_read_timeout(Some("five")), 30);
}

#[test]
fn protocol_errors_in_words() {
    assert_eq!(
        ProtocolError::MessageTooLarge { size: 20 }.message(),
        "message too large: 20 bytes (max 16777216)"
    );
    assert!(ProtocolError::ReadTimeout { declared: 10, timeout_secs: 3 }.message().contains("10"));
    assert!(ProtocolError::Json("bad".to_string()).message().contains("bad"));
    assert!(ProtocolError::Io("gone".to_string()).message().contains("gone"));
}
