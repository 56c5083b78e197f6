use nsq_async_rs::connection::{
    auth_reply_len, check_auth_reply_size, check_frame_size, check_identify_reply_size, close_command, frame_data_len, frame_from_parts, heartbeat_command,
    identify_reply_len, message_of, ping_timeout_error,
};
use nsq_async_rs::error::{Error, ProtocolError};
use nsq_async_rs::protocol::{Command, Frame, Message};

#[test]
fn identify_reply_header() {
    assert_eq!(identify_reply_len(6, 0).unwrap(), 2);
    assert!(matches!(identify_reply_len(0, 0), Err(Error::Protocol(ProtocolError::InvalidFrameSize))));
    assert!(matches!(
        identify_reply_len(6, 1),
        Err(Error::Protocol(ProtocolError::InvalidFrameType(1)))
    ));
}

#[test]
fn auth_reply_header() {
    assert_eq!(auth_reply_len(4, 0).unwrap(), 0);
    match auth_reply_len(0, 0) {
        Err(Error::Auth(m)) => assert_eq!(m, "认证响应大小为0"),
        _ => panic!("expected an auth error"),
    }
    match auth_reply_len(8, 1) {
        Err(Error::Auth(m)) => assert_eq!(m, "认证失败，帧类型 1"),
        _ => panic!("expected an auth error"),
    }
}

#[test]
fn frame_header() {
    assert!(check_frame_size(4).is_ok());
    assert!(matches!(check_frame_size(3), Err(Error::Protocol(ProtocolError::InvalidFrameSize))));
    assert_eq!(frame_data_len(10, 2).unwrap(), 6);
    assert!(matches!(frame_data_len(3, 0), Err(Error::Protocol(ProtocolError::InvalidFrameSize))));
    assert!(matches!(
        frame_data_len(10, 5),
        Err(Error::Protocol(ProtocolError::InvalidFrameType(5)))
    ));
}

#[test]
fn frames_from_parts() {
    let frame = frame_from_parts(&0i32.to_be_bytes(), b"_heartbeat_").unwrap();
    assert!(matches!(&frame, Frame::Response(b) if b == b"_heartbeat_"));
    assert!(message_of(frame).is_none());
    let mut payload = 5u64.to_be_bytes().to_vec();
    payload.extend_from_slice(&1u16.to_be_bytes());
    payload.extend_from_slice(b"msg-manual-00001");
    payload.extend_from_slice(b"manual-body");
    let frame = frame_from_parts(&2i32.to_be_bytes(), &payload).unwrap();
    let m: Message = message_of(frame).unwrap();
    assert_eq!(m.body, b"manual-body".to_vec());
    assert_eq!(m.id_string(), "msg-manual-00001");
}

#[test]
fn heartbeat_close_and_ping_timeout() {
    assert!(matches!(heartbeat_command(), Command::Nop));
    assert!(matches!(close_command(), Command::Cls));
    match ping_timeout_error(5) {
        Error::Timeout(m) => assert_eq!(m, "Ping 操作超时 (5秒)"),
        _ => panic!("expected a timeout"),
    }
}

#[test]
fn reply_sizes_are_checked_before_the_type() {
    assert!(check_identify_reply_size(6).is_ok());
    assert!(matches!(
        check_identify_reply_size(0),
        Err(Error::Protocol(ProtocolError::InvalidFrameSize))
    ));
    assert!(check_auth_reply_size(6).is_ok());
    match check_auth_reply_size(0) {
        Err(Error::Auth(m)) => assert_eq!(m, "认证响应大小为0"),
        _ => panic!("expected an auth error"),
    }
}
