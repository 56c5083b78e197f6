use nsq_async_rs::consumer::{
    after_handler, already_connected, check_names, is_connection_error, is_valid_channel_name, is_valid_topic_name,
    on_frame, should_reconnect, subscribe_commands, FollowUp, FrameAction, Reconnect,
    MAX_RETRY_DELAY_SECS,
};
use nsq_async_rs::error::{Error, IoError, IoErrorKind, ProtocolError};
use nsq_async_rs::protocol::{Command, Frame, Message, Response};

#[test]
fn topic_and_channel_names() {
    assert!(is_valid_topic_name("test_topic"));
    assert!(is_valid_topic_name("a.b-c_9"));
    assert!(!is_valid_topic_name(""));
    assert!(!is_valid_topic_name("has space"));
    assert!(!is_valid_topic_name("chan#ephemeral"));
    assert!(!is_valid_topic_name(&"x".repeat(65)));
    assert!(is_valid_topic_name(&"x".repeat(64)));
    assert!(!is_valid_topic_name("é"));
    assert!(is_valid_channel_name("chan#ephemeral"));
    assert!(is_valid_channel_name("*"));
    assert!(!is_valid_channel_name("a/b"));
}

#[test]
fn check_names_reports_the_bad_name() {
    assert!(check_names("test_topic", "test_channel").is_ok());
    match check_names("bad topic", "test_channel") {
        Err(Error::Other(m)) => assert_eq!(m, "Invalid topic name: bad topic"),
        _ => panic!("expected a topic error"),
    }
    match check_names("good", "bad/channel") {
        Err(Error::Other(m)) => assert_eq!(m, "Invalid channel name: bad/channel"),
        _ => panic!("expected a channel error"),
    }
}

#[test]
fn subscription_starts_with_sub_then_rdy() {
    let (sub, rdy) = subscribe_commands(&"test_topic".to_string(), &"test_channel".to_string(), 3);
    assert_eq!(sub.to_bytes().unwrap(), b"SUB test_topic test_channel\n".to_vec());
    assert_eq!(rdy.to_bytes().unwrap(), b"RDY 3\n".to_vec());
}

#[test]
fn frames_get_their_actions() {
    assert!(matches!(on_frame(Frame::Response(b"_heartbeat_".to_vec())), FrameAction::Reply(Command::Nop)));
    assert!(matches!(on_frame(Frame::Response(b"OK".to_vec())), FrameAction::Ignore));
    match on_frame(Frame::Error(b"E_INVALID cannot FIN".to_vec())) {
        FrameAction::Fail(Error::Protocol(ProtocolError::Other(m))) => {
            assert_eq!(m, "E_INVALID cannot FIN")
        }
        _ => panic!("expected a failure"),
    }
    match on_frame(Frame::Error(b"E_FIN_FAILED".to_vec())) {
        FrameAction::LogError(m) => assert_eq!(m, "E_FIN_FAILED"),
        _ => panic!("expected a log"),
    }
    let m = Message::new(vec![7; 16], b"x".to_vec(), 1, 1);
    assert!(matches!(on_frame(Frame::Message(m)), FrameAction::Deliver(d) if d.body == b"x"));
}

#[test]
fn handler_outcome_follow_ups() {
    let m = Message::new(b"msg-success-0001".to_vec(), b"hello".to_vec(), 1, 1);
    match after_handler(true, false, &m) {
        FollowUp::SendFinish(c) => assert_eq!(c.to_bytes().unwrap(), b"FIN msg-success-0001\n".to_vec()),
        _ => panic!("expected FIN"),
    }
    match after_handler(false, false, &m) {
        FollowUp::SendRequeue(c) => {
            assert_eq!(c.to_bytes().unwrap(), b"REQ msg-success-0001 0\n".to_vec())
        }
        _ => panic!("expected REQ"),
    }
    assert!(matches!(after_handler(true, true, &m), FollowUp::Nothing));
    let mut answered = m.clone();
    let _ = answered.respond(Response::Finish, true);
    assert!(matches!(after_handler(true, true, &answered), FollowUp::CountFinished));
    assert!(matches!(after_handler(false, false, &answered), FollowUp::CountRequeued));
    let mut off = m.clone();
    off.disable_auto_response();
    assert!(matches!(after_handler(true, false, &off), FollowUp::Nothing));
}

#[test]
fn reconnect_delay_doubles_to_a_cap() {
    let mut r = Reconnect::new();
    let pauses: Vec<u64> = (0..8).map(|_| r.failed(true)).collect();
    assert_eq!(pauses, vec![1, 2, 4, 8, 16, 32, 60, 60]);
    assert_eq!(r.failures, 8);
    assert_eq!(r.delay_secs, MAX_RETRY_DELAY_SECS);
    r.reconnected();
    assert_eq!(r.delay_secs, 1);
    assert_eq!(r.failures, 0);
    assert_eq!(r.failed(false), 1);
    assert_eq!(r.delay_secs, 1);
}

fn io(kind: IoErrorKind, message: &str) -> Error {
    Error::Io(IoError { kind, message: message.to_string() })
}

#[test]
fn connection_errors_are_recognized() {
    assert!(is_connection_error(&io(IoErrorKind::BrokenPipe, "x")));
    assert!(is_connection_error(&io(IoErrorKind::ConnectionReset, "x")));
    assert!(is_connection_error(&io(IoErrorKind::ConnectionAborted, "x")));
    assert!(is_connection_error(&io(IoErrorKind::UnexpectedEof, "x")));
    assert!(!is_connection_error(&io(IoErrorKind::Other, "x")));
    assert!(is_connection_error(&Error::Other("early eof".to_string())));
    assert!(!is_connection_error(&Error::Config("bad".to_string())));
    assert!(should_reconnect(&Error::Timeout("t".to_string()), true));
    assert!(!should_reconnect(&Error::Timeout("t".to_string()), false));
    assert!(!should_reconnect(&Error::Config("bad".to_string()), true));
}

#[test]
fn reconnecting_to_a_known_address_is_skipped() {
    let connected = vec!["127.0.0.1:4150".to_string(), "h:1".to_string()];
    assert!(already_connected(&connected, "h:1"));
    assert!(!already_connected(&connected, "h:2"));
    assert!(!already_connected(&vec![], "h:1"));
}
