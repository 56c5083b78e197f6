use nsq_async_rs::error::{Error, IoErrorKind, ProtocolError};
use nsq_async_rs::protocol::{
    read_frame, Command, Frame, FrameType, IdentifyConfig, Message, Protocol, FRAME_TYPE_ERROR,
    FRAME_TYPE_MESSAGE, FRAME_TYPE_RESPONSE, HEARTBEAT, MAGIC_V2, OK,
};

fn identify_json(config: &IdentifyConfig) -> Vec<u8> {
    let mut map = serde_json::Map::new();
    if let Some(v) = &config.client_id {
        map.insert("client_id".to_string(), serde_json::Value::from(v.clone()));
    }
    if let Some(v) = &config.hostname {
        map.insert("hostname".to_string(), serde_json::Value::from(v.clone()));
    }
    if let Some(v) = config.feature_negotiation {
        map.insert("feature_negotiation".to_string(), serde_json::Value::from(v));
    }
    if let Some(v) = config.heartbeat_interval {
        map.insert("heartbeat_interval".to_string(), serde_json::Value::from(v));
    }
    if let Some(v) = &config.user_agent {
        map.insert("user_agent".to_string(), serde_json::Value::from(v.clone()));
    }
    serde_json::to_vec(&serde_json::Value::Object(map)).unwrap()
}

#[test]
fn test_identify_command() {
    let config = IdentifyConfig {
        client_id: Some("test_client".to_string()),
        hostname: Some("test_host".to_string()),
        feature_negotiation: Some(true),
        ..Default::default()
    };

    let cmd = Command::Identify(identify_json(&config));
    let bytes = cmd.to_bytes().unwrap();

    assert!(bytes.starts_with(b"IDENTIFY\n"));
}

#[test]
fn test_publish_command() {
    let topic = "test_topic".to_string();
    let message = b"test message".to_vec();

    let cmd = Command::Publish(topic, message.clone());
    let bytes = cmd.to_bytes().unwrap();

    assert!(bytes.starts_with(b"PUB test_topic\n"));

    let message_size_bytes = &bytes[15..19];
    let message_size = u32::from_be_bytes(message_size_bytes.try_into().unwrap());
    assert_eq!(message_size as usize, message.len());

    let actual_message = &bytes[19..];
    assert_eq!(actual_message, message.as_slice());
}

#[test]
fn identify_frame_carries_json_length() {
    let json = br#"{"client_id":"a"}"#.to_vec();
    let bytes = Command::Identify(json.clone()).to_bytes().unwrap();
    let mut expected = b"IDENTIFY\n".to_vec();
    expected.extend_from_slice(&(json.len() as u32).to_be_bytes());
    expected.extend_from_slice(&json);
    assert_eq!(bytes, expected);
}

#[test]
fn every_command_encodes_as_documented() {
    let cases: Vec<(Command, Vec<u8>)> = vec![
        (Command::Subscribe("t".to_string(), "c".to_string()), b"SUB t c\n".to_vec()),
        (Command::Ready(0), b"RDY 0\n".to_vec()),
        (Command::Ready(4294967295), b"RDY 4294967295\n".to_vec()),
        (Command::Finish("abc".to_string()), b"FIN abc\n".to_vec()),
        (Command::Requeue("abc".to_string(), 5000), b"REQ abc 5000\n".to_vec()),
        (Command::Touch("abc".to_string()), b"TOUCH abc\n".to_vec()),
        (Command::Nop, b"NOP\n".to_vec()),
        (Command::Cls, b"CLS\n".to_vec()),
        (Command::Auth(None), b"AUTH\n\0\0\0\0".to_vec()),
        (Command::Auth(Some("s3".to_string())), b"AUTH\n\0\0\0\x02s3".to_vec()),
        (
            Command::DelayedPublish("t".to_string(), b"xy".to_vec(), 1500),
            b"DPUB t 1500\n\0\0\0\x02xy".to_vec(),
        ),
    ];
    for (cmd, expected) in cases {
        assert_eq!(cmd.to_bytes().unwrap(), expected);
    }
}

#[test]
fn multi_publish_counts_sizes() {
    let cmd = Command::Mpublish("t".to_string(), vec![b"ab".to_vec(), b"c".to_vec()]);
    let bytes = cmd.to_bytes().unwrap();
    let mut expected = b"MPUB t\n".to_vec();
    // 4 (count) + (4 + 2) + (4 + 1)
    expected.extend_from_slice(&15u32.to_be_bytes());
    expected.extend_from_slice(&2u32.to_be_bytes());
    expected.extend_from_slice(&2u32.to_be_bytes());
    expected.extend_from_slice(b"ab");
    expected.extend_from_slice(&1u32.to_be_bytes());
    expected.extend_from_slice(b"c");
    assert_eq!(bytes, expected);
}

#[test]
fn multi_byte_topic_is_utf8_encoded() {
    let bytes = Command::Finish("é".to_string()).to_bytes().unwrap();
    assert_eq!(bytes, "FIN é\n".as_bytes().to_vec());
}

#[test]
fn constants_hold_the_protocol_bytes() {
    assert_eq!(&MAGIC_V2, b"  V2");
    assert_eq!(&HEARTBEAT, b"_heartbeat_");
    assert_eq!(&OK, b"OK");
    assert_eq!(FRAME_TYPE_RESPONSE, 0);
    assert_eq!(FRAME_TYPE_ERROR, 1);
    assert_eq!(FRAME_TYPE_MESSAGE, 2);
}

#[test]
fn write_command_joins_params_with_spaces() {
    assert_eq!(Protocol::write_command(b"NOP", &[]), b"NOP\n".to_vec());
    let p1: &[u8] = b"topic";
    let p2: &[u8] = b"chan";
    assert_eq!(Protocol::write_command(b"SUB", &[p1, p2]), b"SUB topic chan\n".to_vec());
}

#[test]
fn encode_command_prefixes_size() {
    let cmd = Protocol::encode_command("PUB", Some(b"hi"), &["t"]);
    let mut expected = 8u32.to_be_bytes().to_vec();
    expected.extend_from_slice(b"PUB t\nhi");
    assert_eq!(cmd, expected);
    let bare = Protocol::encode_command("NOP", None, &[]);
    let mut expected = 4u32.to_be_bytes().to_vec();
    expected.extend_from_slice(b"NOP\n");
    assert_eq!(bare, expected);
}

fn message_payload(ts: u64, attempts: u16, id: &[u8; 16], body: &[u8]) -> Vec<u8> {
    let mut p = Vec::new();
    p.extend_from_slice(&ts.to_be_bytes());
    p.extend_from_slice(&attempts.to_be_bytes());
    p.extend_from_slice(id);
    p.extend_from_slice(body);
    p
}

#[test]
fn decode_frame_roundtrips_a_message() {
    let mut data = 2i32.to_be_bytes().to_vec();
    data.extend_from_slice(&message_payload(987654321, 3, b"0123456789abcdef", b"payload"));
    match Protocol::decode_frame(&data).unwrap() {
        Frame::Message(m) => {
            assert_eq!(m.timestamp, 987654321);
            assert_eq!(m.attempts, 3);
            assert_eq!(m.id, b"0123456789abcdef".to_vec());
            assert_eq!(m.body, b"payload".to_vec());
            assert!(!m.has_responded());
            assert!(!m.is_auto_response_disabled());
        }
        other => panic!("unexpected frame {:?}", other),
    }
}

#[test]
fn decode_frame_response_error_and_unknown() {
    let mut data = 0i32.to_be_bytes().to_vec();
    data.extend_from_slice(b"OK");
    assert!(matches!(Protocol::decode_frame(&data).unwrap(), Frame::Response(b) if b == b"OK"));
    let mut data = 1i32.to_be_bytes().to_vec();
    data.extend_from_slice(b"E_BAD");
    assert!(matches!(Protocol::decode_frame(&data).unwrap(), Frame::Error(b) if b == b"E_BAD"));
    let data = 7i32.to_be_bytes().to_vec();
    assert!(matches!(
        Protocol::decode_frame(&data),
        Err(Error::Protocol(ProtocolError::InvalidFrameType(7)))
    ));
    let data = (-1i32).to_be_bytes().to_vec();
    assert!(matches!(
        Protocol::decode_frame(&data),
        Err(Error::Protocol(ProtocolError::InvalidFrameType(-1)))
    ));
    assert!(matches!(
        Protocol::decode_frame(&[0, 0]),
        Err(Error::Protocol(ProtocolError::InvalidFrameSize))
    ));
    // A message frame with fewer than four payload bytes.
    let mut data = 2i32.to_be_bytes().to_vec();
    data.extend_from_slice(&[1, 2]);
    assert!(matches!(
        Protocol::decode_frame(&data),
        Err(Error::Protocol(ProtocolError::InvalidFrameSize))
    ));
}

#[test]
fn decode_message_reads_fields() {
    let p = message_payload(1, 2, b"ffffffffffffffff", b"");
    let m = Protocol::decode_message(&p).unwrap();
    assert_eq!(m.timestamp, 1);
    assert_eq!(m.attempts, 2);
    assert_eq!(m.body, Vec::<u8>::new());
    assert!(matches!(
        Protocol::decode_message(&[1, 2, 3]),
        Err(Error::Protocol(ProtocolError::InvalidFrameSize))
    ));
}

#[test]
fn read_frame_roundtrips_and_checks_sizes() {
    let mut data = 6u32.to_be_bytes().to_vec();
    data.extend_from_slice(&0u32.to_be_bytes());
    data.extend_from_slice(b"OK");
    data.extend_from_slice(b"trailing");
    let (ft, frame) = read_frame(&data).unwrap();
    assert_eq!(ft, FrameType::Response);
    assert_eq!(frame, b"OK");

    match read_frame(&[0, 0, 0]) {
        Err(Error::Protocol(ProtocolError::Other(m))) => assert_eq!(m, "帧数据不完整"),
        _ => panic!("expected an incomplete frame"),
    }
    let mut short = 100u32.to_be_bytes().to_vec();
    short.extend_from_slice(&0u32.to_be_bytes());
    assert!(read_frame(&short).is_err());

    let mut unknown = 4u32.to_be_bytes().to_vec();
    unknown.extend_from_slice(&9u32.to_be_bytes());
    match read_frame(&unknown) {
        Err(Error::Protocol(ProtocolError::Other(m))) => assert_eq!(m, "未知帧类型: 9"),
        _ => panic!("expected an unknown frame type"),
    }
}

#[test]
fn frame_type_from_code() {
    assert_eq!(FrameType::try_from(0u32).unwrap(), FrameType::Response);
    assert_eq!(FrameType::try_from(1u32).unwrap(), FrameType::Error);
    assert_eq!(FrameType::try_from(2u32).unwrap(), FrameType::Message);
    match FrameType::from_code(42) {
        Err(Error::Protocol(ProtocolError::Other(m))) => assert_eq!(m, "未知帧类型: 42"),
        _ => panic!("expected an error"),
    }
}

#[test]
fn from_bytes_errors_name_their_cause() {
    match Message::from_bytes(&[0u8; 20]) {
        Err(Error::Protocol(ProtocolError::Other(m))) => assert_eq!(m, "消息大小不足"),
        _ => panic!("expected a size error"),
    }
    let mut bad = vec![0u8; 4];
    bad.extend_from_slice(&1u32.to_be_bytes());
    bad.extend_from_slice(&[0u8; 26]);
    match Message::from_bytes(&bad) {
        Err(Error::Protocol(ProtocolError::Other(m))) => assert_eq!(m, "无效的帧类型: 1"),
        _ => panic!("expected a frame type error"),
    }
    // 26 bytes with the message type: the id runs past the end.
    let mut truncated = vec![0u8; 4];
    truncated.extend_from_slice(&2u32.to_be_bytes());
    truncated.extend_from_slice(&[0u8; 18]);
    match Message::from_bytes(&truncated) {
        Err(Error::Io(e)) => {
            assert_eq!(e.kind, IoErrorKind::UnexpectedEof);
            assert_eq!(e.message, "failed to fill whole buffer");
        }
        _ => panic!("expected an I/O error"),
    }
}

#[test]
fn default_identify_config_uses_host_name() {
    let config = IdentifyConfig::default();
    assert_eq!(config.client_id, config.hostname);
    assert!(config.hostname.is_some());
    assert_eq!(config.feature_negotiation, Some(true));
    assert_eq!(config.heartbeat_interval, Some(30000));
    assert_eq!(config.output_buffer_size, Some(16384));
    assert_eq!(config.output_buffer_timeout, Some(250));
    assert_eq!(config.tls_v1, None);
    assert_eq!(config.snappy, None);
    assert_eq!(config.sample_rate, None);
    assert_eq!(config.user_agent, Some("rust-nsq/0.1.9".to_string()));
    assert_eq!(config.msg_timeout, Some(60000));
    let named = IdentifyConfig::for_host("h1".to_string());
    assert_eq!(named.client_id, Some("h1".to_string()));
}

#[test]
fn error_texts_match_their_display() {
    assert_eq!(Error::Config("x".to_string()).describe(), "配置错误: x");
    assert_eq!(
        Error::Protocol(ProtocolError::InvalidFrameType(-3)).describe(),
        "协议错误: Invalid frame type: -3"
    );
    assert_eq!(Error::Timeout("late".to_string()).describe(), "操作超时");
    assert_eq!(ProtocolError::InvalidFrameSize.describe(), "Invalid frame size");
}

#[test]
fn write_command_matches_command_bytes() {
    let sub = Protocol::write_command(b"SUB", &[b"t".as_slice(), b"c".as_slice()]);
    assert_eq!(sub, Command::Subscribe("t".to_string(), "c".to_string()).to_bytes().unwrap());
    let req = Protocol::write_command(b"REQ", &[b"id".as_slice(), b"250".as_slice()]);
    assert_eq!(req, Command::Requeue("id".to_string(), 250).to_bytes().unwrap());
    let rdy = Protocol::write_command(b"RDY", &[b"7".as_slice()]);
    assert_eq!(rdy, Command::Ready(7).to_bytes().unwrap());
    let fin = Protocol::write_command(b"FIN", &[b"id".as_slice()]);
    assert_eq!(fin, Command::Finish("id".to_string()).to_bytes().unwrap());
    let touch = Protocol::write_command(b"TOUCH", &[b"id".as_slice()]);
    assert_eq!(touch, Command::Touch("id".to_string()).to_bytes().unwrap());
    assert_eq!(Protocol::write_command(b"NOP", &[]), Command::Nop.to_bytes().unwrap());
    assert_eq!(Protocol::write_command(b"CLS", &[]), Command::Cls.to_bytes().unwrap());
}
