use nsq_async_rs::commands::{
    command_reply, lookup_nsqd_nodes, mpublish_needed, mpublish_texts, publish_texts,
    subscribe_reply,
};
use nsq_async_rs::error::{Error, ProtocolError};
use nsq_async_rs::lookup::{lookup_url, node_address, node_addresses, LookupProducer};
use nsq_async_rs::producer::{
    delay_millis, delayed_publish_command, multi_publish_command, node_for_topic, ping_node,
    ping_target, publish_command, publish_reply, publish_target, PublishTarget,
};
use nsq_async_rs::protocol::{Command, Frame, Message};

#[test]
fn publish_goes_to_first_nsqd_then_lookupd() {
    let nsqd = vec!["127.0.0.1:4150".to_string(), "other:4150".to_string()];
    let lookupd = vec!["127.0.0.1:4161".to_string()];
    assert!(matches!(publish_target(&nsqd, &lookupd), Ok(PublishTarget::Nsqd(a)) if a == "127.0.0.1:4150"));
    assert!(matches!(publish_target(&vec![], &lookupd), Ok(PublishTarget::Lookup(a)) if a == "127.0.0.1:4161"));
    match publish_target(&vec![], &vec![]) {
        Err(Error::Config(m)) => assert_eq!(m, "未配置nsqd或nsqlookupd地址"),
        _ => panic!("expected a configuration error"),
    }
    assert_eq!(node_for_topic(&vec!["n1".to_string()], "t").unwrap(), "n1");
    match node_for_topic(&vec![], "t") {
        Err(Error::Connection(m)) => assert_eq!(m, "nsqlookupd未找到主题 t 的生产者"),
        _ => panic!("expected a connection error"),
    }
}

#[test]
fn ping_targets() {
    let nsqd = vec!["a:1".to_string()];
    assert!(matches!(ping_target(Some("x:2"), &nsqd, &vec![]), Ok(PublishTarget::Nsqd(a)) if a == "x:2"));
    assert!(matches!(ping_target(None, &nsqd, &vec![]), Ok(PublishTarget::Nsqd(a)) if a == "a:1"));
    assert!(matches!(ping_target(None, &vec![], &vec!["l:3".to_string()]), Ok(PublishTarget::Lookup(a)) if a == "l:3"));
    match ping_target(None, &vec![], &vec![]) {
        Err(Error::Config(m)) => assert_eq!(m, "没有配置 NSQ 服务器地址"),
        _ => panic!("expected a configuration error"),
    }
    match ping_node(&vec![]) {
        Err(Error::Connection(m)) => assert_eq!(m, "没有可用的 NSQ 服务器地址"),
        _ => panic!("expected a connection error"),
    }
}

#[test]
fn publish_replies() {
    assert!(publish_reply(Frame::Response(b"OK".to_vec())).is_ok());
    match publish_reply(Frame::Error(b"E_BAD_TOPIC".to_vec())) {
        Err(Error::Protocol(ProtocolError::Other(m))) => assert_eq!(m, "E_BAD_TOPIC"),
        _ => panic!("expected an error"),
    }
    let m = Message::new(vec![0; 16], vec![], 0, 0);
    match publish_reply(Frame::Message(m)) {
        Err(Error::Protocol(ProtocolError::Other(m))) => assert_eq!(m, "收到意外响应"),
        _ => panic!("expected an error"),
    }
}

#[test]
fn publish_commands() {
    assert_eq!(delay_millis(1000), 1000);
    assert_eq!(delay_millis((1u128 << 32) + 7), 7);
    assert_eq!(publish_command("t", b"m").to_bytes().unwrap(), b"PUB t\n\0\0\0\x01m".to_vec());
    assert_eq!(
        delayed_publish_command("t", b"m", 1000).to_bytes().unwrap(),
        b"DPUB t 1000\n\0\0\0\x01m".to_vec()
    );
    assert!(multi_publish_command("t", vec![]).is_none());
    assert!(matches!(multi_publish_command("t", vec![b"a".to_vec()]), Some(Command::Mpublish(_, b)) if b.len() == 1));
}

#[test]
fn one_shot_command_replies() {
    assert_eq!(lookup_nsqd_nodes("127.0.0.1:4161", "t"), vec!["127.0.0.1:4161".to_string()]);
    let texts = publish_texts();
    assert!(command_reply(&Frame::Response(vec![]), &texts).is_ok());
    match command_reply(&Frame::Error(b"E_X".to_vec()), &texts) {
        Err(Error::Protocol(ProtocolError::Other(m))) => assert_eq!(m, "发布消息时出错: E_X"),
        _ => panic!("expected an error"),
    }
    let m = Message::new(vec![0; 16], vec![], 0, 0);
    match command_reply(&Frame::Message(m), &mpublish_texts()) {
        Err(Error::Protocol(ProtocolError::Other(m))) => assert_eq!(m, "批量发布消息时收到意外响应"),
        _ => panic!("expected an error"),
    }
    assert!(matches!(subscribe_reply(&Frame::Response(vec![]), 7), Ok(Command::Ready(7))));
    match subscribe_reply(&Frame::Error(b"E_Y".to_vec()), 7) {
        Err(Error::Protocol(ProtocolError::Other(m))) => assert_eq!(m, "订阅时出错: E_Y"),
        _ => panic!("expected an error"),
    }
    assert!(!mpublish_needed(&vec![]));
    assert!(mpublish_needed(&vec![vec![1]]));
}

#[test]
fn lookup_addresses() {
    assert_eq!(lookup_url("http://127.0.0.1:4161", "t"), "http://127.0.0.1:4161/lookup?topic=t");
    assert_eq!(node_address("nsqd", 4150), "127.0.0.1:4150");
    assert_eq!(node_address("10.0.0.2", 4151), "10.0.0.2:4151");
    let producers = vec![
        LookupProducer { broadcast_address: "nsqd".to_string(), tcp_port: 1 },
        LookupProducer { broadcast_address: "h".to_string(), tcp_port: 65535 },
    ];
    assert_eq!(node_addresses(&producers), vec!["127.0.0.1:1".to_string(), "h:65535".to_string()]);
}
