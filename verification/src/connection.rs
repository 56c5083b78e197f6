//! The decisions of a connection to nsqd: checking the handshake replies,
//! sizing and decoding the frames it reads, and the commands it sends for
//! heartbeats and closing.

use crate::error::{digits_text, owned, text_with_number, Error, ProtocolError, Result};
use crate::protocol::{decode_frame_undefined, frame_decoding, Command, Frame, Message, Protocol};
use crate::wire::{decimal, push_all};
use vstd::prelude::*;

verus! {

/// Reply headers the handshake cannot read: a response frame whose nonzero
/// size cannot even hold its type, so that no data length follows from it.
pub open spec fn reply_header_undefined(size: u32, frame_type: u32) -> bool {
    1 <= size < 4 && frame_type == 0
}

/// Checks the size of the reply to IDENTIFY, before its frame type is read:
/// it must not be zero.
pub fn check_identify_reply_size(size: u32) -> (r: Result<()>)
    ensures
        size == 0 ==> r matches Err(Error::Protocol(ProtocolError::InvalidFrameSize)),
        size != 0 ==> r is Ok,
{
    if size == 0 {
        Err(Error::Protocol(ProtocolError::InvalidFrameSize))
    } else {
        Ok(())
    }
}

/// Checks the size of the reply to AUTH, before its frame type is read: it
/// must not be zero.
pub fn check_auth_reply_size(size: u32) -> (r: Result<()>)
    ensures
        size == 0 ==> (r matches Err(Error::Auth(m)) && m@ == "认证响应大小为0"@),
        size != 0 ==> r is Ok,
{
    if size == 0 {
        Err(Error::Auth(owned("认证响应大小为0")))
    } else {
        Ok(())
    }
}

/// Checks the header of the reply to IDENTIFY: a nonzero size and the
/// response frame type; gives the number of data bytes to read.
pub fn identify_reply_len(size: u32, frame_type: u32) -> (r: Result<u32>)
    requires
        !reply_header_undefined(size, frame_type),
    ensures
        size == 0 ==> r matches Err(Error::Protocol(ProtocolError::InvalidFrameSize)),
        size != 0 && frame_type != 0 ==> (r matches Err(
            Error::Protocol(ProtocolError::InvalidFrameType(t)),
        ) && t == frame_type as i32),
        size != 0 && frame_type == 0 ==> r == Ok::<u32, Error>((size - 4) as u32),
{
    check_identify_reply_size(size)?;
    if frame_type != 0 {
        return Err(Error::Protocol(ProtocolError::InvalidFrameType(frame_type as i32)));
    }
    Ok(size - 4)
}

/// Checks the header of the reply to AUTH: a nonzero size and the response
/// frame type; gives the number of data bytes to read.
pub fn auth_reply_len(size: u32, frame_type: u32) -> (r: Result<u32>)
    requires
        !reply_header_undefined(size, frame_type),
    ensures
        size == 0 ==> (r matches Err(Error::Auth(m)) && m@ == "认证响应大小为0"@),
        size != 0 && frame_type != 0 ==> (r matches Err(Error::Auth(m)) && m@ == "认证失败，帧类型 "@
            + digits_text(decimal(frame_type as nat))),
        size != 0 && frame_type == 0 ==> r == Ok::<u32, Error>((size - 4) as u32),
{
    check_auth_reply_size(size)?;
    if frame_type != 0 {
        return Err(Error::Auth(text_with_number("认证失败，帧类型 ", frame_type as u64)));
    }
    Ok(size - 4)
}

/// Checks the size of a frame being read, before its type is read: it must
/// hold at least the four bytes of the type.
pub fn check_frame_size(size: u32) -> (r: Result<()>)
    ensures
        size < 4 ==> r matches Err(Error::Protocol(ProtocolError::InvalidFrameSize)),
        size >= 4 ==> r is Ok,
{
    if size < 4 {
        Err(Error::Protocol(ProtocolError::InvalidFrameSize))
    } else {
        Ok(())
    }
}

/// Checks the header of a frame being read: a size that holds at least the
/// type, and a known frame type; gives the number of data bytes to read.
pub fn frame_data_len(size: u32, frame_type: i32) -> (r: Result<u32>)
    ensures
        size < 4 ==> r matches Err(Error::Protocol(ProtocolError::InvalidFrameSize)),
        size >= 4 && 0 <= frame_type <= 2 ==> r == Ok::<u32, Error>((size - 4) as u32),
        size >= 4 && !(0 <= frame_type <= 2) ==> (r matches Err(
            Error::Protocol(ProtocolError::InvalidFrameType(t)),
        ) && t == frame_type),
{
    check_frame_size(size)?;
    if 0 <= frame_type && frame_type <= 2 {
        Ok(size - 4)
    } else {
        Err(Error::Protocol(ProtocolError::InvalidFrameType(frame_type)))
    }
}

/// Decodes a frame from its four type bytes and its data.
pub fn frame_from_parts(frame_type: &[u8; 4], data: &[u8]) -> (r: Result<Frame>)
    requires
        !decode_frame_undefined(frame_type@ + data@),
    ensures
        frame_decoding(frame_type@ + data@, r),
{
    let mut frame_data: Vec<u8> = Vec::new();
    push_all(&mut frame_data, frame_type);
    push_all(&mut frame_data, data);
    Protocol::decode_frame(frame_data.as_slice())
}

/// The message a frame carries, if it is a message frame.
pub fn message_of(frame: Frame) -> (r: Option<Message>)
    ensures
        match frame {
            Frame::Message(m) => r == Some(m),
            _ => r is None,
        },
{
    match frame {
        Frame::Message(m) => Some(m),
        _ => None,
    }
}

/// The command that answers a heartbeat.
pub fn heartbeat_command() -> (c: Command)
    ensures
        c == Command::Nop,
{
    Command::Nop
}

/// The command that asks nsqd to close the connection.
pub fn close_command() -> (c: Command)
    ensures
        c == Command::Cls,
{
    Command::Cls
}

/// The error of a ping that did not finish within `secs` seconds.
pub fn ping_timeout_error(secs: u64) -> (e: Error)
    ensures
        e matches Error::Timeout(m) && m@ == "Ping 操作超时 ("@ + digits_text(decimal(secs as nat))
            + "秒)"@,
{
    let mut m = text_with_number("Ping 操作超时 (", secs);
    m.append("秒)");
    Error::Timeout(m)
}

} // verus!
