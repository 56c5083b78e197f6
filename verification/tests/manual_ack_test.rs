use nsq_async_rs::protocol::{Command, Message, Response, ResponseAction};

#[test]
fn test_message_creation_and_state() {
    let msg = Message::new(
        vec![1, 2, 3, 4, 5, 6, 7, 8, 9, 10, 11, 12, 13, 14, 15, 16],
        b"test body".to_vec(),
        123456789,
        1,
    );

    assert_eq!(msg.attempts, 1);
    assert_eq!(msg.timestamp, 123456789);
    assert_eq!(msg.body, b"test body");
    assert!(!msg.is_auto_response_disabled(), "默认应该启用自动响应");
    assert!(!msg.has_responded(), "初始状态不应该已响应");
}

#[test]
fn test_disable_auto_response() {
    let mut msg = Message::new(vec![1; 16], b"test".to_vec(), 123456789, 1);

    assert!(!msg.is_auto_response_disabled(), "初始应该启用自动响应");

    msg.disable_auto_response();

    assert!(msg.is_auto_response_disabled(), "调用后应该禁用自动响应");
}

#[test]
fn test_message_id_string() {
    let id = b"0123456789abcdef".to_vec();
    let msg = Message::new(id.clone(), b"body".to_vec(), 0, 0);

    let id_str = msg.id_string();
    assert_eq!(id_str, "0123456789abcdef");
}

#[test]
fn test_message_clone_preserves_state() {
    let mut msg = Message::new(vec![1; 16], b"test".to_vec(), 123, 1);
    msg.disable_auto_response();

    let cloned = msg.clone();

    assert!(cloned.is_auto_response_disabled(), "克隆应该保持禁用状态");
    assert_eq!(cloned.attempts, msg.attempts);
    assert_eq!(cloned.timestamp, msg.timestamp);
}

#[test]
fn test_has_responded_idempotency() {
    let msg = Message::new(vec![1; 16], b"test".to_vec(), 123, 1);

    assert!(!msg.has_responded());

    assert!(!msg.has_responded());
    assert!(!msg.has_responded());
}

#[test]
fn test_message_retry_attempts() {
    let msg1 = Message::new(vec![1; 16], b"test".to_vec(), 123, 1);
    let msg2 = Message::new(vec![2; 16], b"test".to_vec(), 123, 3);
    let msg3 = Message::new(vec![3; 16], b"test".to_vec(), 123, 5);

    assert_eq!(msg1.attempts, 1);
    assert_eq!(msg2.attempts, 3);
    assert_eq!(msg3.attempts, 5);

    assert!(msg1.attempts <= 3, "attempts <= 3 应该重试");
    assert!(msg2.attempts <= 3, "attempts = 3 应该是最后一次重试");
    assert!(msg3.attempts > 3, "attempts > 3 应该放弃");
}

#[test]
fn test_message_from_bytes() {
    let mut bytes = Vec::new();
    bytes.extend_from_slice(&[0u8; 4]);
    bytes.extend_from_slice(&2u32.to_be_bytes());
    bytes.extend_from_slice(&123456789u64.to_be_bytes());
    bytes.extend_from_slice(&2u16.to_be_bytes());
    bytes.extend_from_slice(b"0123456789abcdef");
    bytes.extend_from_slice(b"Hello NSQ!");

    let result = Message::from_bytes(&bytes);

    assert!(result.is_ok(), "应该成功解析消息");

    let msg = result.unwrap();
    assert_eq!(msg.timestamp, 123456789);
    assert_eq!(msg.attempts, 2);
    assert_eq!(msg.body, b"Hello NSQ!");
    assert!(!msg.is_auto_response_disabled());
    assert!(!msg.has_responded());
}

#[test]
fn test_message_from_bytes_invalid() {
    let short_bytes = vec![0u8; 20];
    let result = Message::from_bytes(&short_bytes);
    assert!(result.is_err(), "太短的消息应该解析失败");

    let mut invalid_type = Vec::new();
    invalid_type.extend_from_slice(&[0u8; 4]);
    invalid_type.extend_from_slice(&1u32.to_be_bytes());
    invalid_type.extend_from_slice(&[0u8; 26]);

    let result = Message::from_bytes(&invalid_type);
    assert!(result.is_err(), "无效帧类型应该解析失败");
}

#[test]
fn test_disable_auto_response_idempotency() {
    let mut msg = Message::new(vec![1; 16], b"test".to_vec(), 123456789, 1);

    msg.disable_auto_response();
    assert!(msg.is_auto_response_disabled());

    msg.disable_auto_response();
    assert!(msg.is_auto_response_disabled(), "重复禁用应该是幂等的");
}

#[test]
fn answering_without_connection_fails_but_marks_finish() {
    let mut msg = Message::new(vec![1; 16], b"test".to_vec(), 123456789, 1);
    assert!(matches!(msg.respond(Response::Finish, false), ResponseAction::NoConnection));
    assert!(msg.has_responded());
    // A second answer of any kind is skipped.
    assert!(matches!(msg.respond(Response::Finish, false), ResponseAction::AlreadyResponded));
    assert!(matches!(msg.respond(Response::Requeue(5000), true), ResponseAction::AlreadyResponded));
    assert!(matches!(msg.respond(Response::Touch, true), ResponseAction::AlreadyResponded));
}

#[test]
fn touch_never_answers_a_message() {
    let mut msg = Message::new(b"0123456789abcdef".to_vec(), b"b".to_vec(), 1, 1);
    assert!(matches!(msg.respond(Response::Touch, false), ResponseAction::NoConnection));
    assert!(!msg.has_responded());
    match msg.respond(Response::Touch, true) {
        ResponseAction::Send(Command::Touch(id)) => assert_eq!(id, "0123456789abcdef"),
        _ => panic!("expected a TOUCH"),
    }
    assert!(!msg.has_responded());
}

#[test]
fn answers_carry_the_message_id() {
    let mut a = Message::new(b"0123456789abcdef".to_vec(), b"b".to_vec(), 1, 1);
    match a.respond(Response::Requeue(250), true) {
        ResponseAction::Send(Command::Requeue(id, delay)) => {
            assert_eq!(id, "0123456789abcdef");
            assert_eq!(delay, 250);
        }
        _ => panic!("expected a REQ"),
    }
    assert!(a.has_responded());
    let mut b = Message::new(b"0123456789abcdef".to_vec(), b"b".to_vec(), 1, 1);
    match b.respond(Response::Finish, true) {
        ResponseAction::Send(Command::Finish(id)) => assert_eq!(id, "0123456789abcdef"),
        _ => panic!("expected a FIN"),
    }
}

#[test]
fn invalid_utf8_id_is_replaced() {
    let msg = Message::new(vec![0xff, b'a'], b"".to_vec(), 0, 0);
    assert_eq!(msg.id_string(), "\u{FFFD}a");
}
