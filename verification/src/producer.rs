//! The decisions of a producer: which nsqd it publishes to, what it sends,
//! and how it reads nsqd's reply.

use crate::error::{joined_text, owned, Error, ProtocolError, Result};
use crate::protocol::{Command, Frame};
use crate::wire::{lossy_text, utf8_lossy};
use vstd::prelude::*;

verus! {

/// Where a producer finds the nsqd it talks to.
#[derive(Debug, Clone)]
pub enum PublishTarget {
    /// This nsqd address.
    Nsqd(String),
    /// The nsqd nodes this nsqlookupd reports.
    Lookup(String),
}

/// The topic a producer looks up when it only wants an nsqd to ping.
pub const PING_TOPIC: &'static str = "_ping_topic";

/// Chooses where to publish: the first configured nsqd, else the first
/// configured nsqlookupd, else a configuration error.
pub fn publish_target(nsqd_addresses: &Vec<String>, nsqlookupd_addresses: &Vec<String>) -> (r: Result<
    PublishTarget,
>)
    ensures
        nsqd_addresses@.len() > 0 ==> (r matches Ok(PublishTarget::Nsqd(a)) && a@
            == nsqd_addresses@[0]@),
        nsqd_addresses@.len() == 0 && nsqlookupd_addresses@.len() > 0 ==> (r matches Ok(
            PublishTarget::Lookup(a),
        ) && a@ == nsqlookupd_addresses@[0]@),
        nsqd_addresses@.len() == 0 && nsqlookupd_addresses@.len() == 0 ==> (r matches Err(
            Error::Config(m),
        ) && m@ == "未配置nsqd或nsqlookupd地址"@),
{
    if nsqd_addresses.len() > 0 {
        return Ok(PublishTarget::Nsqd(nsqd_addresses[0].clone()));
    }
    if nsqlookupd_addresses.len() > 0 {
        return Ok(PublishTarget::Lookup(nsqlookupd_addresses[0].clone()));
    }
    Err(Error::Config(owned("未配置nsqd或nsqlookupd地址")))
}

/// The node to publish `topic` to among those nsqlookupd reported: the
/// first, or a connection error when there is none.
pub fn node_for_topic(nodes: &Vec<String>, topic: &str) -> (r: Result<String>)
    ensures
        nodes@.len() > 0 ==> (r matches Ok(a) && a@ == nodes@[0]@),
        nodes@.len() == 0 ==> (r matches Err(Error::Connection(m)) && m@ == "nsqlookupd未找到主题 "@
            + topic@ + " 的生产者"@),
{
    if nodes.len() > 0 {
        return Ok(nodes[0].clone());
    }
    let mut m = joined_text("nsqlookupd未找到主题 ", topic);
    m.append(" 的生产者");
    Err(Error::Connection(m))
}

/// Chooses whom to ping: the given address, else the first configured nsqd,
/// else the nodes the first configured nsqlookupd reports, else a
/// configuration error.
pub fn ping_target(
    addr: Option<&str>,
    nsqd_addresses: &Vec<String>,
    nsqlookupd_addresses: &Vec<String>,
) -> (r: Result<PublishTarget>)
    ensures
        addr matches Some(a) ==> (r matches Ok(PublishTarget::Nsqd(t)) && t@ == a@),
        addr is None && nsqd_addresses@.len() > 0 ==> (r matches Ok(PublishTarget::Nsqd(t)) && t@
            == nsqd_addresses@[0]@),
        addr is None && nsqd_addresses@.len() == 0 && nsqlookupd_addresses@.len() > 0 ==> (r matches Ok(
            PublishTarget::Lookup(t),
        ) && t@ == nsqlookupd_addresses@[0]@),
        addr is None && nsqd_addresses@.len() == 0 && nsqlookupd_addresses@.len() == 0 ==> (r matches Err(
            Error::Config(m),
        ) && m@ == "没有配置 NSQ 服务器地址"@),
{
    match addr {
        Some(a) => Ok(PublishTarget::Nsqd(owned(a))),
        None => {
            if nsqd_addresses.len() > 0 {
                Ok(PublishTarget::Nsqd(nsqd_addresses[0].clone()))
            } else if nsqlookupd_addresses.len() > 0 {
                Ok(PublishTarget::Lookup(nsqlookupd_addresses[0].clone()))
            } else {
                Err(Error::Config(owned("没有配置 NSQ 服务器地址")))
            }
        },
    }
}

/// The node to ping among those nsqlookupd reported: the first, or a
/// connection error when there is none.
pub fn ping_node(nodes: &Vec<String>) -> (r: Result<String>)
    ensures
        nodes@.len() > 0 ==> (r matches Ok(a) && a@ == nodes@[0]@),
        nodes@.len() == 0 ==> (r matches Err(Error::Connection(m)) && m@ == "没有可用的 NSQ 服务器地址"@),
{
    if nodes.len() > 0 {
        Ok(nodes[0].clone())
    } else {
        Err(Error::Connection(owned("没有可用的 NSQ 服务器地址")))
    }
}

/// Reads nsqd's reply to a publish: a response means success; an error
/// frame fails with its text; a message is unexpected.
pub fn publish_reply(frame: Frame) -> (r: Result<()>)
    ensures
        match frame {
            Frame::Response(_) => r is Ok,
            Frame::Error(data) => r matches Err(Error::Protocol(ProtocolError::Other(m))) && m@
                == utf8_lossy(data@),
            Frame::Message(_) => r matches Err(Error::Protocol(ProtocolError::Other(m))) && m@
                == "收到意外响应"@,
        },
{
    match frame {
        Frame::Response(_) => Ok(()),
        Frame::Error(data) => Err(Error::Protocol(ProtocolError::Other(lossy_text(data.as_slice())))),
        Frame::Message(_) => Err(Error::Protocol(ProtocolError::Other(owned("收到意外响应")))),
    }
}

/// A delay in whole milliseconds as a DPUB command carries it: truncated to
/// 32 bits as `as u32` truncates.
pub fn delay_millis(millis: u128) -> (r: u32)
    ensures
        r == millis as u32,
{
    millis as u32
}

/// The command that publishes `body` to `topic`.
pub fn publish_command(topic: &str, body: &[u8]) -> (c: Command)
    ensures
        c matches Command::Publish(t, b) && t@ == topic@ && b@ == body@,
{
    Command::Publish(owned(topic), vstd::slice::slice_to_vec(body))
}

/// The command that publishes `body` to `topic` after `delay_ms`.
pub fn delayed_publish_command(topic: &str, body: &[u8], delay_ms: u32) -> (c: Command)
    ensures
        c matches Command::DelayedPublish(t, b, d) && t@ == topic@ && b@ == body@ && d == delay_ms,
{
    Command::DelayedPublish(owned(topic), vstd::slice::slice_to_vec(body), delay_ms)
}

/// The command that publishes all of `bodies` to `topic` at once, or none
/// when there is nothing to publish.
pub fn multi_publish_command(topic: &str, bodies: Vec<Vec<u8>>) -> (c: Option<Command>)
    ensures
        bodies@.len() == 0 ==> c is None,
        bodies@.len() > 0 ==> (c matches Some(Command::Mpublish(t, b)) && t@ == topic@ && b
            == bodies),
{
    if bodies.len() == 0 {
        None
    } else {
        Some(Command::Mpublish(owned(topic), bodies))
    }
}

} // verus!
