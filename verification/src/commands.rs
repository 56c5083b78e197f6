//! One-shot commands: discovering nsqd, and reading nsqd's reply to a
//! publish, a multi-publish or a subscription.

use crate::error::{joined_text, owned, Error, ProtocolError, Result};
use crate::protocol::{Command, Frame};
use crate::wire::{lossy_text, utf8_lossy};
use vstd::prelude::*;

verus! {

/// The nsqd nodes for a topic. Without an HTTP query to nsqlookupd, the
/// given address itself is taken as the one node.
pub fn lookup_nsqd_nodes(nsqlookupd_addr: &str, topic: &str) -> (r: Vec<String>)
    ensures
        r@.len() == 1,
        r@[0]@ == nsqlookupd_addr@,
{
    let mut nodes: Vec<String> = Vec::new();
    nodes.push(owned(nsqlookupd_addr));
    nodes
}

/// How a reply is read: the prefix of the message when nsqd answers with an
/// error, and the message when it answers with something unexpected.
pub struct ReplyTexts {
    pub failure: &'static str,
    pub unexpected: &'static str,
}

/// The texts of the reply to a publish.
pub fn publish_texts() -> (t: ReplyTexts)
    ensures
        t.failure@ == "发布消息时出错: "@,
        t.unexpected@ == "发布消息时收到意外响应"@,
{
    ReplyTexts { failure: "发布消息时出错: ", unexpected: "发布消息时收到意外响应" }
}

/// The texts of the reply to a multi-publish.
pub fn mpublish_texts() -> (t: ReplyTexts)
    ensures
        t.failure@ == "批量发布消息时出错: "@,
        t.unexpected@ == "批量发布消息时收到意外响应"@,
{
    ReplyTexts { failure: "批量发布消息时出错: ", unexpected: "批量发布消息时收到意外响应" }
}

/// The texts of the reply to a subscription.
pub fn subscribe_texts() -> (t: ReplyTexts)
    ensures
        t.failure@ == "订阅时出错: "@,
        t.unexpected@ == "订阅时收到意外响应"@,
{
    ReplyTexts { failure: "订阅时出错: ", unexpected: "订阅时收到意外响应" }
}

/// Reads nsqd's reply to a command: a response means success; an error
/// frame fails with its text after the failure prefix; anything else fails
/// as unexpected.
pub fn command_reply(frame: &Frame, texts: &ReplyTexts) -> (r: Result<()>)
    ensures
        match frame {
            Frame::Response(_) => r is Ok,
            Frame::Error(data) => r matches Err(Error::Protocol(ProtocolError::Other(m))) && m@
                == texts.failure@ + utf8_lossy(data@),
            Frame::Message(_) => r matches Err(Error::Protocol(ProtocolError::Other(m))) && m@
                == texts.unexpected@,
        },
{
    match frame {
        Frame::Response(_) => Ok(()),
        Frame::Error(data) => {
            let text = lossy_text(data.as_slice());
            Err(Error::Protocol(ProtocolError::Other(joined_text(texts.failure, text.as_str()))))
        },
        Frame::Message(_) => Err(Error::Protocol(ProtocolError::Other(owned(texts.unexpected)))),
    }
}

/// Reads nsqd's reply to a subscription: on success, the RDY command that
/// announces `ready_count` must follow.
pub fn subscribe_reply(frame: &Frame, ready_count: u32) -> (r: Result<Command>)
    ensures
        match frame {
            Frame::Response(_) => r == Ok::<Command, Error>(Command::Ready(ready_count)),
            Frame::Error(data) => r matches Err(Error::Protocol(ProtocolError::Other(m))) && m@
                == "订阅时出错: "@ + utf8_lossy(data@),
            Frame::Message(_) => r matches Err(Error::Protocol(ProtocolError::Other(m))) && m@
                == "订阅时收到意外响应"@,
        },
{
    let texts = subscribe_texts();
    match command_reply(frame, &texts) {
        Ok(()) => Ok(Command::Ready(ready_count)),
        Err(e) => Err(e),
    }
}

/// Whether a multi-publish must go out: not when there is nothing to publish.
pub fn mpublish_needed(messages: &Vec<Vec<u8>>) -> (r: bool)
    ensures
        r == (messages@.len() > 0),
{
    messages.len() > 0
}

} // verus!
