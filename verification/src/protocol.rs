//! The NSQ wire protocol, version 2: commands a client sends, frames a server
//! sends back, and the messages those frames carry.

use crate::error::{
    digits_text, fails_with_protocol_other, owned, text_with_number, Error, IoError, IoErrorKind,
    ProtocolError, Result,
};
use crate::wire::{
    be_u16, be_u32, be_u64, decimal, lemma_be_u32_prefix, lemma_u16_roundtrip, lemma_u32_roundtrip,
    lemma_u64_roundtrip, lossy_text, push_all, push_be_u32, push_decimal, read_be_i32, read_be_u16,
    read_be_u32, read_be_u64, u16_be_bytes, u32_be_bytes, u64_be_bytes, utf8_lossy,
};
use vstd::slice::slice_to_vec;
use vstd::prelude::*;
use vstd::utf8::encode_utf8;

verus! {

/// The protocol magic a client sends first: the bytes of "  V2".
pub const MAGIC_V2: [u8; 4] = [32, 32, 86, 50];

/// The body of a heartbeat response frame: the bytes of "_heartbeat_".
pub const HEARTBEAT: [u8; 11] = [95, 104, 101, 97, 114, 116, 98, 101, 97, 116, 95];

/// The body of a plain success response frame: the bytes of "OK".
pub const OK: [u8; 2] = [79, 75];

/// Frame type of a response frame.
pub const FRAME_TYPE_RESPONSE: i32 = 0;

/// Frame type of an error frame.
pub const FRAME_TYPE_ERROR: i32 = 1;

/// Frame type of a message frame.
pub const FRAME_TYPE_MESSAGE: i32 = 2;

/// Command names.
pub const IDENTIFY: &'static str = "IDENTIFY";
pub const SUB: &'static str = "SUB";
pub const PUB: &'static str = "PUB";
pub const MPUB: &'static str = "MPUB";
pub const RDY: &'static str = "RDY";
pub const FIN: &'static str = "FIN";
pub const REQ: &'static str = "REQ";
pub const TOUCH: &'static str = "TOUCH";
pub const CLS: &'static str = "CLS";
pub const NOP: &'static str = "NOP";
pub const AUTH: &'static str = "AUTH";

/// The UTF-8 bytes of a text.
pub open spec fn utf8(s: Seq<char>) -> Seq<u8> {
    encode_utf8(s)
}

/// The line feed that ends a command line.
pub open spec fn newline() -> Seq<u8> {
    seq![10u8]
}

/// A space between the words of a command line.
pub open spec fn space() -> Seq<u8> {
    seq![32u8]
}

/// Commands a client sends to nsqd.
#[derive(Debug, Clone)]
pub enum Command {
    /// Identify the client; holds the client's `IdentifyConfig` as JSON.
    Identify(Vec<u8>),
    /// Subscribe to a topic and channel.
    Subscribe(String, String),
    /// Publish one message to a topic.
    Publish(String, Vec<u8>),
    /// Publish one message to a topic, delayed by the given milliseconds.
    DelayedPublish(String, Vec<u8>, u32),
    /// Publish several messages to a topic at once.
    Mpublish(String, Vec<Vec<u8>>),
    /// Announce how many more messages the client is ready for.
    Ready(u32),
    /// Mark a message, by id, as processed.
    Finish(String),
    /// Put a message, by id, back in the queue after the given milliseconds.
    Requeue(String, u32),
    /// Reset the timeout of a message in flight, by id.
    Touch(String),
    /// Answer a heartbeat.
    Nop,
    /// Ask the server to close the connection cleanly.
    Cls,
    /// Authenticate with an optional secret.
    Auth(Option<String>),
}

/// The size field of a multi-publish body: four bytes for the count, and for
/// each message four bytes for its length and the message itself.
pub open spec fn mpub_size(bodies: Seq<Seq<u8>>) -> int
    decreases bodies.len(),
{
    if bodies.len() == 0 {
        4
    } else {
        mpub_size(bodies.drop_last()) + 4 + bodies.last().len()
    }
}

/// The messages of a multi-publish body, each after its four-byte length.
pub open spec fn mpub_frames(bodies: Seq<Seq<u8>>) -> Seq<u8>
    decreases bodies.len(),
{
    if bodies.len() == 0 {
        Seq::empty()
    } else {
        mpub_frames(bodies.drop_last()) + u32_be_bytes(bodies.last().len() as u32) + bodies.last()
    }
}

/// `mpub_size` never shrinks as messages are added.
pub proof fn lemma_mpub_size_grows(bodies: Seq<Seq<u8>>, i: int)
    requires
        0 <= i <= bodies.len(),
    ensures
        4 <= mpub_size(bodies.take(i)) <= mpub_size(bodies),
    decreases bodies.len() - i,
{
    if i < bodies.len() {
        lemma_mpub_size_grows(bodies, i + 1);
        assert(bodies.take(i + 1).drop_last() =~= bodies.take(i));
    } else {
        assert(bodies.take(i) =~= bodies);
    }
    lemma_mpub_size_at_least_four(bodies.take(i));
}

/// `mpub_size` is at least the four bytes of the count.
pub proof fn lemma_mpub_size_at_least_four(bodies: Seq<Seq<u8>>)
    ensures
        mpub_size(bodies) >= 4,
    decreases bodies.len(),
{
    if bodies.len() > 0 {
        lemma_mpub_size_at_least_four(bodies.drop_last());
    }
}

impl Command {
    /// The bytes that encode this command on the wire.
    pub open spec fn wire_bytes(&self) -> Seq<u8> {
        match self {
            Command::Identify(json) => utf8("IDENTIFY"@) + newline() + u32_be_bytes(
                json@.len() as u32,
            ) + json@,
            Command::Subscribe(topic, channel) => utf8("SUB"@) + space() + utf8(topic@) + space()
                + utf8(channel@) + newline(),
            Command::Publish(topic, body) => utf8("PUB"@) + space() + utf8(topic@) + newline()
                + u32_be_bytes(body@.len() as u32) + body@,
            Command::DelayedPublish(topic, body, delay) => utf8("DPUB"@) + space() + utf8(topic@)
                + space() + decimal(*delay as nat) + newline() + u32_be_bytes(body@.len() as u32)
                + body@,
            Command::Mpublish(topic, bodies) => utf8("MPUB"@) + space() + utf8(topic@) + newline()
                + u32_be_bytes(mpub_size(bodies.deep_view()) as u32) + u32_be_bytes(
                bodies@.len() as u32,
            ) + mpub_frames(bodies.deep_view()),
            Command::Ready(count) => utf8("RDY"@) + space() + decimal(*count as nat) + newline(),
            Command::Finish(id) => utf8("FIN"@) + space() + utf8(id@) + newline(),
            Command::Requeue(id, delay) => utf8("REQ"@) + space() + utf8(id@) + space() + decimal(
                *delay as nat,
            ) + newline(),
            Command::Touch(id) => utf8("TOUCH"@) + space() + utf8(id@) + newline(),
            Command::Nop => utf8("NOP"@) + newline(),
            Command::Cls => utf8("CLS"@) + newline(),
            Command::Auth(Some(secret)) => utf8("AUTH"@) + newline() + u32_be_bytes(
                utf8(secret@).len() as u32,
            ) + utf8(secret@),
            Command::Auth(None) => utf8("AUTH"@) + newline() + u32_be_bytes(0),
        }
    }

    /// Whether this command can be encoded: the size field of a
    /// multi-publish must be countable in a `usize`.
    pub open spec fn encodable(&self) -> bool {
        match self {
            Command::Mpublish(_, bodies) => mpub_size(bodies.deep_view()) <= usize::MAX,
            _ => true,
        }
    }

    /// Encodes this command for the wire. Lengths are written as big-endian
    /// `u32`, truncated as `as u32` truncates.
    pub fn to_bytes(&self) -> (r: Result<Vec<u8>>)
        requires
            self.encodable(),
        ensures
            r matches Ok(bytes) && bytes@ == self.wire_bytes(),
    {
        let mut buf: Vec<u8> = Vec::new();
        match self {
            Command::Identify(json) => {
                push_all(&mut buf, "IDENTIFY".as_bytes());
                buf.push(10u8);
                push_be_u32(&mut buf, json.len() as u32);
                push_all(&mut buf, json.as_slice());
            },
            Command::Subscribe(topic, channel) => {
                push_all(&mut buf, "SUB".as_bytes());
                buf.push(32u8);
                push_all(&mut buf, topic.as_str().as_bytes());
                buf.push(32u8);
                push_all(&mut buf, channel.as_str().as_bytes());
                buf.push(10u8);
            },
            Command::Publish(topic, body) => {
                push_all(&mut buf, "PUB".as_bytes());
                buf.push(32u8);
                push_all(&mut buf, topic.as_str().as_bytes());
                buf.push(10u8);
                push_be_u32(&mut buf, body.len() as u32);
                push_all(&mut buf, body.as_slice());
            },
            Command::DelayedPublish(topic, body, delay) => {
                push_all(&mut buf, "DPUB".as_bytes());
                buf.push(32u8);
                push_all(&mut buf, topic.as_str().as_bytes());
                buf.push(32u8);
                push_decimal(&mut buf, *delay as u64);
                buf.push(10u8);
                push_be_u32(&mut buf, body.len() as u32);
                push_all(&mut buf, body.as_slice());
            },
            Command::Mpublish(topic, bodies) => {
                push_all(&mut buf, "MPUB".as_bytes());
                buf.push(32u8);
                push_all(&mut buf, topic.as_str().as_bytes());
                buf.push(10u8);
                let total = mpub_total_size(bodies);
                push_be_u32(&mut buf, total as u32);
                push_be_u32(&mut buf, bodies.len() as u32);
                push_mpub_frames(&mut buf, bodies);
            },
            Command::Ready(count) => {
                push_all(&mut buf, "RDY".as_bytes());
                buf.push(32u8);
                push_decimal(&mut buf, *count as u64);
                buf.push(10u8);
            },
            Command::Finish(id) => {
                push_all(&mut buf, "FIN".as_bytes());
                buf.push(32u8);
                push_all(&mut buf, id.as_str().as_bytes());
                buf.push(10u8);
            },
            Command::Requeue(id, delay) => {
                push_all(&mut buf, "REQ".as_bytes());
                buf.push(32u8);
                push_all(&mut buf, id.as_str().as_bytes());
                buf.push(32u8);
                push_decimal(&mut buf, *delay as u64);
                buf.push(10u8);
            },
            Command::Touch(id) => {
                push_all(&mut buf, "TOUCH".as_bytes());
                buf.push(32u8);
                push_all(&mut buf, id.as_str().as_bytes());
                buf.push(10u8);
            },
            Command::Nop => {
                push_all(&mut buf, "NOP".as_bytes());
                buf.push(10u8);
            },
            Command::Cls => {
                push_all(&mut buf, "CLS".as_bytes());
                buf.push(10u8);
            },
            Command::Auth(secret) => {
                push_all(&mut buf, "AUTH".as_bytes());
                buf.push(10u8);
                match secret {
                    Some(s) => {
                        let bytes = s.as_str().as_bytes();
                        push_be_u32(&mut buf, bytes.len() as u32);
                        push_all(&mut buf, bytes);
                    },
                    None => {
                        push_be_u32(&mut buf, 0);
                    },
                }
            },
        }
        assert(buf@ =~= self.wire_bytes());
        Ok(buf)
    }
}

/// The size field of a multi-publish body, counted in a `usize`.
fn mpub_total_size(bodies: &Vec<Vec<u8>>) -> (total: usize)
    requires
        mpub_size(bodies.deep_view()) <= usize::MAX,
    ensures
        total == mpub_size(bodies.deep_view()),
{
    let ghost all = bodies.deep_view();
    let mut total: usize = 4;
    let mut i: usize = 0;
    while i < bodies.len()
        invariant
            all == bodies.deep_view(),
            i <= bodies@.len(),
            mpub_size(all) <= usize::MAX,
            total == mpub_size(all.take(i as int)),
        decreases bodies@.len() - i,
    {
        proof {
            lemma_mpub_size_grows(all, i + 1);
            assert(all.take(i + 1).drop_last() =~= all.take(i as int));
        }
        total = total + 4 + bodies[i].len();
        i = i + 1;
    }
    assert(all.take(i as int) =~= all);
    total
}

/// Appends each message of a multi-publish after its four-byte length.
fn push_mpub_frames(buf: &mut Vec<u8>, bodies: &Vec<Vec<u8>>)
    ensures
        final(buf)@ == old(buf)@ + mpub_frames(bodies.deep_view()),
{
    let ghost all = bodies.deep_view();
    let mut i: usize = 0;
    while i < bodies.len()
        invariant
            all == bodies.deep_view(),
            i <= bodies@.len(),
            buf@ == old(buf)@ + mpub_frames(all.take(i as int)),
        decreases bodies@.len() - i,
    {
        let body = &bodies[i];
        push_be_u32(buf, body.len() as u32);
        push_all(buf, body.as_slice());
        proof {
            assert(all.take(i + 1).drop_last() =~= all.take(i as int));
            assert(all.take(i + 1).last() == body@);
        }
        i = i + 1;
        assert(buf@ =~= old(buf)@ + mpub_frames(all.take(i as int)));
    }
    assert(all.take(i as int) =~= all);
}

/// A message delivered by nsqd, with the state of the client's answer to it.
#[derive(Debug, Clone)]
pub struct Message {
    /// The message's unique id (16 bytes on the wire).
    pub id: Vec<u8>,
    /// When the message was published, in nanoseconds.
    pub timestamp: u64,
    /// How many times the message has been delivered.
    pub attempts: u16,
    /// The message body.
    pub body: Vec<u8>,
    /// Whether automatic answers are disabled and whether it was answered.
    pub answer: AnswerState,
}

/// Whether automatic FIN/REQ is disabled for a message, and whether the
/// message has been finished or requeued.
#[derive(Debug, Clone, Copy)]
pub struct AnswerState {
    auto_response_disabled: bool,
    responded: bool,
}

impl AnswerState {
    /// Whether automatic FIN/REQ is disabled.
    pub closed spec fn auto_off(self) -> bool {
        self.auto_response_disabled
    }

    /// Whether the message has been finished or requeued.
    pub closed spec fn answered(self) -> bool {
        self.responded
    }

    /// Automatic answers enabled, nothing answered.
    pub fn fresh() -> (r: AnswerState)
        ensures
            !r.auto_off(),
            !r.answered(),
    {
        AnswerState { auto_response_disabled: false, responded: false }
    }
}

/// How a client can answer a message.
#[derive(Debug, Clone, Copy, PartialEq, Eq, Structural)]
pub enum Response {
    /// The message was processed (FIN).
    Finish,
    /// The message should be delivered again after the given milliseconds (REQ).
    Requeue(u32),
    /// The message needs more time (TOUCH).
    Touch,
}

/// What answering a message requires of the connection.
#[derive(Debug, Clone)]
pub enum ResponseAction {
    /// The message was answered before: nothing is sent and the answer succeeds.
    AlreadyResponded,
    /// The message has no connection to answer on: the answer fails.
    NoConnection,
    /// This command must be sent.
    Send(Command),
}

/// The step an answer takes, without the command it sends.
pub enum ResponseStep {
    Skip,
    NoConnection,
    Send,
}

/// Whether an answer closes the message: finishing and requeueing do,
/// touching does not.
pub open spec fn closes_message(r: Response) -> bool {
    !(r is Touch)
}

/// Whether a message is answered after answering `r`, given whether it was
/// answered before.
pub open spec fn answered_after(answered: bool, r: Response) -> bool {
    answered || closes_message(r)
}

/// The step an answer takes.
pub open spec fn response_step(answered: bool, has_connection: bool) -> ResponseStep {
    if answered {
        ResponseStep::Skip
    } else if has_connection {
        ResponseStep::Send
    } else {
        ResponseStep::NoConnection
    }
}

/// The step of an action.
pub open spec fn step_of(a: ResponseAction) -> ResponseStep {
    match a {
        ResponseAction::AlreadyResponded => ResponseStep::Skip,
        ResponseAction::NoConnection => ResponseStep::NoConnection,
        ResponseAction::Send(_) => ResponseStep::Send,
    }
}

/// Whether `c` is the command that answers `r` for the message with id `id`;
/// the id travels as the text of its bytes.
pub open spec fn answers(c: Command, r: Response, id: Seq<u8>) -> bool {
    match r {
        Response::Finish => c matches Command::Finish(s) && s@ == utf8_lossy(id),
        Response::Requeue(delay) => c matches Command::Requeue(s, d) && s@ == utf8_lossy(id) && d
            == delay,
        Response::Touch => c matches Command::Touch(s) && s@ == utf8_lossy(id),
    }
}

/// Whether `m` carries exactly the fields a message frame payload encodes,
/// with no answer recorded yet.
pub open spec fn decodes_message(m: Message, payload: Seq<u8>) -> bool {
    &&& m.timestamp == be_u64(payload)
    &&& m.attempts == be_u16(payload.subrange(8, 10))
    &&& m.id@ == payload.subrange(10, 26)
    &&& m.body@ == payload.subrange(26, payload.len() as int)
    &&& m.is_fresh()
}

impl Message {
    /// Whether automatic FIN/REQ is disabled for this message.
    pub open spec fn auto_response_off(self) -> bool {
        self.answer.auto_off()
    }

    /// Whether this message has been finished or requeued.
    pub open spec fn answered(self) -> bool {
        self.answer.answered()
    }

    /// Whether this message is as delivered: automatic answers enabled and
    /// no answer given.
    pub open spec fn is_fresh(self) -> bool {
        !self.auto_response_off() && !self.answered()
    }

    /// A message with the given fields, automatic answers enabled and not
    /// answered.
    pub fn new(id: Vec<u8>, body: Vec<u8>, timestamp: u64, attempts: u16) -> (m: Message)
        ensures
            m.id@ == id@,
            m.body@ == body@,
            m.timestamp == timestamp,
            m.attempts == attempts,
            m.is_fresh(),
    {
        Message { id, timestamp, attempts, body, answer: AnswerState::fresh() }
    }

    /// Parses a whole message frame: size (4 bytes, skipped), frame type
    /// (4 bytes, must be 2), timestamp (8), attempts (2), id (16), body (rest).
    pub fn from_bytes(bytes: &[u8]) -> (r: Result<Message>)
        ensures
            bytes@.len() < 26 ==> fails_with_protocol_other(r, "消息大小不足"@),
            bytes@.len() >= 26 && be_u32(bytes@.subrange(4, 8)) != 2 ==> fails_with_protocol_other(
                r,
                "无效的帧类型: "@ + digits_text(decimal(be_u32(bytes@.subrange(4, 8)) as nat)),
            ),
            26 <= bytes@.len() < 34 && be_u32(bytes@.subrange(4, 8)) == 2 ==> (r matches Err(
                Error::Io(e),
            ) && e.kind == IoErrorKind::UnexpectedEof && e.message@
                == "failed to fill whole buffer"@),
            bytes@.len() >= 34 && be_u32(bytes@.subrange(4, 8)) == 2 ==> (r matches Ok(m)
                && decodes_message(m, bytes@.subrange(8, bytes@.len() as int))),
    {
        if bytes.len() < 26 {
            return Err(Error::Protocol(ProtocolError::Other(owned("消息大小不足"))));
        }
        let frame_type = read_be_u32(&bytes[4..8]);
        if frame_type != 2 {
            return Err(
                Error::Protocol(ProtocolError::Other(text_with_number("无效的帧类型: ", frame_type as u64))),
            );
        }
        let timestamp = read_be_u64(&bytes[8..16]);
        let attempts = read_be_u16(&bytes[16..18]);
        if bytes.len() < 34 {
            return Err(
                Error::Io(
                    IoError {
                        kind: IoErrorKind::UnexpectedEof,
                        message: owned("failed to fill whole buffer"),
                    },
                ),
            );
        }
        let id = slice_to_vec(&bytes[18..34]);
        let body = slice_to_vec(&bytes[34..bytes.len()]);
        let ghost payload = bytes@.subrange(8, bytes@.len() as int);
        assert(payload.subrange(8, 10) =~= bytes@.subrange(16, 18));
        assert(payload.subrange(10, 26) =~= bytes@.subrange(18, 34));
        assert(payload.subrange(26, payload.len() as int) =~= bytes@.subrange(34, bytes@.len() as int));
        assert(be_u64(payload) == be_u64(bytes@.subrange(8, 16))) by {
            assert(payload.subrange(4, 8) =~= bytes@.subrange(8, 16).subrange(4, 8));
        }
        Ok(Message { id, timestamp, attempts, body, answer: AnswerState::fresh() })
    }

    /// The id as text: its bytes decoded as UTF-8, invalid sequences replaced.
    pub fn id_string(&self) -> (r: String)
        ensures
            r@ == utf8_lossy(self.id@),
    {
        lossy_text(self.id.as_slice())
    }

    /// Disables automatic FIN/REQ for this message.
    pub fn disable_auto_response(&mut self)
        ensures
            final(self).auto_response_off(),
            final(self).answered() == old(self).answered(),
            final(self).id == old(self).id,
            final(self).body == old(self).body,
            final(self).timestamp == old(self).timestamp,
            final(self).attempts == old(self).attempts,
    {
        self.answer.auto_response_disabled = true;
    }

    /// Whether automatic FIN/REQ is disabled for this message.
    pub fn is_auto_response_disabled(&self) -> (r: bool)
        ensures
            r == self.auto_response_off(),
    {
        self.answer.auto_response_disabled
    }

    /// Whether this message has been finished or requeued.
    pub fn has_responded(&self) -> (r: bool)
        ensures
            r == self.answered(),
    {
        self.answer.responded
    }

    /// Records an answer and says what it requires: a message is answered at
    /// most once, and touching does not answer it.
    pub fn respond(&mut self, response: Response, has_connection: bool) -> (a: ResponseAction)
        ensures
            final(self).answered() == answered_after(old(self).answered(), response),
            step_of(a) == response_step(old(self).answered(), has_connection),
            a matches ResponseAction::Send(c) ==> answers(c, response, old(self).id@),
            final(self).auto_response_off() == old(self).auto_response_off(),
            final(self).id == old(self).id,
            final(self).body == old(self).body,
            final(self).timestamp == old(self).timestamp,
            final(self).attempts == old(self).attempts,
    {
        if self.answer.responded {
            return ResponseAction::AlreadyResponded;
        }
        match response {
            Response::Touch => {},
            _ => {
                self.answer.responded = true;
            },
        }
        if !has_connection {
            return ResponseAction::NoConnection;
        }
        let id = self.id_string();
        match response {
            Response::Finish => ResponseAction::Send(Command::Finish(id)),
            Response::Requeue(delay) => ResponseAction::Send(Command::Requeue(id, delay)),
            Response::Touch => ResponseAction::Send(Command::Touch(id)),
        }
    }
}

/// A message, once finished or requeued, is answered for good: every later
/// answer of any kind is skipped, whatever the connection.
pub proof fn law_message_is_answered_once(first: Response, later: Response, has_connection: bool)
    requires
        closes_message(first),
    ensures
        answered_after(answered_after(false, first), later),
        response_step(answered_after(false, first), has_connection) == ResponseStep::Skip,
{
}

/// Touching a message never answers it.
pub proof fn law_touch_keeps_message_open(answered: bool)
    ensures
        answered_after(answered, Response::Touch) == answered,
{
}

/// Frame types nsqd sends.
#[derive(Debug, Clone, Copy, PartialEq, Eq, Structural)]
pub enum FrameType {
    /// A response to a command.
    Response,
    /// An error.
    Error,
    /// A message.
    Message,
}

/// The frame type a code stands for.
pub open spec fn frame_type_of(code: u32) -> Option<FrameType> {
    if code == 0 {
        Some(FrameType::Response)
    } else if code == 1 {
        Some(FrameType::Error)
    } else if code == 2 {
        Some(FrameType::Message)
    } else {
        None
    }
}

impl FrameType {
    /// The frame type a code stands for, or a protocol error naming the code.
    pub fn from_code(value: u32) -> (r: Result<FrameType>)
        ensures
            frame_type_of(value) matches Some(t) ==> r == Ok::<FrameType, Error>(t),
            frame_type_of(value) is None ==> fails_with_protocol_other(
                r,
                "未知帧类型: "@ + digits_text(decimal(value as nat)),
            ),
    {
        if value == 0 {
            Ok(FrameType::Response)
        } else if value == 1 {
            Ok(FrameType::Error)
        } else if value == 2 {
            Ok(FrameType::Message)
        } else {
            Err(Error::Protocol(ProtocolError::Other(text_with_number("未知帧类型: ", value as u64))))
        }
    }
}

impl TryFrom<u32> for FrameType {
    type Error = Error;

    fn try_from(value: u32) -> (r: Result<FrameType>)
        ensures
            frame_type_of(value) matches Some(t) ==> r == Ok::<FrameType, Error>(t),
            frame_type_of(value) is None ==> fails_with_protocol_other(
                r,
                "未知帧类型: "@ + digits_text(decimal(value as nat)),
            ),
    {
        FrameType::from_code(value)
    }
}

/// The generic conversion contract does not apply: its error carries a
/// message that no spec value can spell out; `try_from`'s own `ensures`
/// states the result instead.
impl vstd::std_specs::convert::TryFromSpecImpl<u32> for FrameType {
    open spec fn obeys_try_from_spec() -> bool {
        false
    }

    open spec fn try_from_spec(v: u32) -> Result<FrameType> {
        vstd::pervasive::arbitrary()
    }
}

/// Inputs `read_frame` does not accept: a complete frame of a known type
/// whose size field is below four, so that its data would end before the
/// eight header bytes.
pub open spec fn read_frame_undefined(data: Seq<u8>) -> bool {
    &&& data.len() >= 8
    &&& be_u32(data) + 4 <= data.len()
    &&& frame_type_of(be_u32(data.subrange(4, 8))) is Some
    &&& be_u32(data) < 4
}

/// Reads one frame from the start of `data`: a four-byte size, a four-byte
/// frame type, and `size - 4` bytes of frame data, which are returned.
pub fn read_frame(data: &[u8]) -> (r: Result<(FrameType, &[u8])>)
    requires
        !read_frame_undefined(data@),
    ensures
        data@.len() < 8 ==> fails_with_protocol_other(r, "帧数据不完整"@),
        data@.len() >= 8 && be_u32(data@) + 4 > data@.len() ==> fails_with_protocol_other(
            r,
            "帧数据不完整"@,
        ),
        data@.len() >= 8 && be_u32(data@) + 4 <= data@.len() ==> match frame_type_of(
            be_u32(data@.subrange(4, 8)),
        ) {
            Some(t) => r matches Ok((ft, frame)) && ft == t && frame@ == data@.subrange(
                8,
                be_u32(data@) + 4,
            ),
            None => fails_with_protocol_other(
                r,
                "未知帧类型: "@ + digits_text(decimal(be_u32(data@.subrange(4, 8)) as nat)),
            ),
        },
{
    if data.len() < 8 {
        return Err(Error::Protocol(ProtocolError::Other(owned("帧数据不完整"))));
    }
    let size = read_be_u32(data);
    if (data.len() as u64) < (size as u64) + 4 {
        return Err(Error::Protocol(ProtocolError::Other(owned("帧数据不完整"))));
    }
    let frame_type = FrameType::from_code(read_be_u32(&data[4..8]))?;
    let end = size as usize + 4;
    Ok((frame_type, &data[8..end]))
}

/// Frames nsqd sends.
#[derive(Debug)]
pub enum Frame {
    /// A response, with its data.
    Response(Vec<u8>),
    /// An error, with its data.
    Error(Vec<u8>),
    /// A message.
    Message(Message),
}

/// Inputs `Protocol::decode_frame` does not accept (a frame's type and data,
/// without its size): a message frame whose payload has at least four bytes
/// but fewer than the 26 of a message header.
pub open spec fn decode_frame_undefined(data: Seq<u8>) -> bool {
    &&& data.len() >= 4
    &&& be_u32(data) as i32 == FRAME_TYPE_MESSAGE
    &&& 4 <= data.len() - 4 < 26
}

/// What decoding `data` (a frame's type and data, without its size) gives:
/// a response or error frame with the data, a message decoded from it, or
/// an error for data too short or an unknown type.
pub open spec fn frame_decoding(data: Seq<u8>, r: Result<Frame>) -> bool {
    if data.len() < 4 {
        r matches Err(Error::Protocol(ProtocolError::InvalidFrameSize))
    } else {
        let t = be_u32(data) as i32;
        let rest = data.subrange(4, data.len() as int);
        if t == FRAME_TYPE_RESPONSE {
            r matches Ok(Frame::Response(b)) && b@ == rest
        } else if t == FRAME_TYPE_ERROR {
            r matches Ok(Frame::Error(b)) && b@ == rest
        } else if t == FRAME_TYPE_MESSAGE {
            if rest.len() < 4 {
                r matches Err(Error::Protocol(ProtocolError::InvalidFrameSize))
            } else {
                r matches Ok(Frame::Message(m)) && decodes_message(m, rest)
            }
        } else {
            r matches Err(Error::Protocol(ProtocolError::InvalidFrameType(code))) && code == t
        }
    }
}

/// Encoders and decoders of the protocol.
pub struct Protocol;

/// `params` joined by single spaces.
pub open spec fn joined(params: Seq<Seq<u8>>) -> Seq<u8>
    decreases params.len(),
{
    if params.len() == 0 {
        Seq::empty()
    } else if params.len() == 1 {
        params[0]
    } else {
        joined(params.drop_last()) + space() + params.last()
    }
}

/// Each of `params` after a space.
pub open spec fn spaced(params: Seq<Seq<char>>) -> Seq<u8>
    decreases params.len(),
{
    if params.len() == 0 {
        Seq::empty()
    } else {
        spaced(params.drop_last()) + space() + utf8(params.last())
    }
}

/// The bytes an optional slice holds.
pub open spec fn opt_bytes(body: Option<&[u8]>) -> Option<Seq<u8>> {
    match body {
        Some(b) => Some(b@),
        None => None,
    }
}

/// The byte strings a slice of byte slices holds.
pub open spec fn byte_strings(params: Seq<&[u8]>) -> Seq<Seq<u8>> {
    params.map_values(|p: &[u8]| p@)
}

/// The texts a slice of string slices holds.
pub open spec fn texts(params: Seq<&str>) -> Seq<Seq<char>> {
    params.map_values(|p: &str| p@)
}

/// A command line: the name, the parameters after a space, a line feed.
pub open spec fn command_line(cmd: Seq<u8>, params: Seq<Seq<u8>>) -> Seq<u8> {
    if params.len() == 0 {
        cmd + newline()
    } else {
        cmd + space() + joined(params) + newline()
    }
}

/// The payload of a size-prefixed command: name, parameters, line feed, body.
pub open spec fn sized_payload(name: Seq<char>, body: Option<Seq<u8>>, params: Seq<Seq<char>>) -> Seq<u8> {
    utf8(name) + spaced(params) + newline() + match body {
        Some(b) => b,
        None => Seq::empty(),
    }
}

impl Protocol {
    /// A command line: `cmd`, then the parameters separated by spaces (after
    /// a space, if there are any), then a line feed.
    pub fn write_command(cmd: &[u8], params: &[&[u8]]) -> (r: Vec<u8>)
        ensures
            r@ == command_line(cmd@, byte_strings(params@)),
    {
        let ghost ps = byte_strings(params@);
        let mut buf: Vec<u8> = Vec::new();
        push_all(&mut buf, cmd);
        if params.len() > 0 {
            buf.push(32u8);
            let mut i: usize = 0;
            while i < params.len()
                invariant
                    ps == byte_strings(params@),
                    0 < params@.len(),
                    i <= params@.len(),
                    buf@ == cmd@ + space() + joined(ps.take(i as int)),
                decreases params@.len() - i,
            {
                if i > 0 {
                    buf.push(32u8);
                }
                push_all(&mut buf, params[i]);
                proof {
                    assert(ps.take(i + 1).drop_last() =~= ps.take(i as int));
                    assert(ps.take(i + 1).last() == params@[i as int]@);
                    if i == 0 {
                        assert(ps.take(1)[0] == params@[0]@);
                    }
                }
                i = i + 1;
                assert(buf@ =~= cmd@ + space() + joined(ps.take(i as int)));
            }
            assert(ps.take(i as int) =~= ps);
        }
        buf.push(10u8);
        assert(buf@ =~= command_line(cmd@, ps));
        buf
    }

    /// Decodes the payload of a message frame: timestamp (8 bytes), attempts
    /// (2), id (16), body (rest).
    pub fn decode_message(data: &[u8]) -> (r: Result<Message>)
        requires
            !(4 <= data@.len() < 26),
        ensures
            data@.len() < 4 ==> r matches Err(Error::Protocol(ProtocolError::InvalidFrameSize)),
            data@.len() >= 26 ==> (r matches Ok(m) && decodes_message(m, data@)),
    {
        if data.len() < 4 {
            return Err(Error::Protocol(ProtocolError::InvalidFrameSize));
        }
        let timestamp = read_be_u64(&data[0..8]);
        let attempts = read_be_u16(&data[8..10]);
        let id = slice_to_vec(&data[10..26]);
        let body = slice_to_vec(&data[26..data.len()]);
        assert(be_u64(data@.subrange(0, 8)) == be_u64(data@)) by {
            assert(data@.subrange(0, 8).subrange(4, 8) =~= data@.subrange(4, 8));
        }
        Ok(Message { timestamp, attempts, id, body, answer: AnswerState::fresh() })
    }

    /// Decodes a frame given without its size: a four-byte type, then data.
    pub fn decode_frame(data: &[u8]) -> (r: Result<Frame>)
        requires
            !decode_frame_undefined(data@),
        ensures
            frame_decoding(data@, r),
    {
        if data.len() < 4 {
            return Err(Error::Protocol(ProtocolError::InvalidFrameSize));
        }
        let frame_type = read_be_i32(data);
        let frame_data = &data[4..data.len()];
        if frame_type == FRAME_TYPE_RESPONSE {
            Ok(Frame::Response(slice_to_vec(frame_data)))
        } else if frame_type == FRAME_TYPE_ERROR {
            Ok(Frame::Error(slice_to_vec(frame_data)))
        } else if frame_type == FRAME_TYPE_MESSAGE {
            let msg = Self::decode_message(frame_data)?;
            Ok(Frame::Message(msg))
        } else {
            Err(Error::Protocol(ProtocolError::InvalidFrameType(frame_type)))
        }
    }

    /// A size-prefixed command: four big-endian bytes holding the size of
    /// the rest (truncated to `u32`), then the name, each parameter after a
    /// space, a line feed, and the body if there is one.
    pub fn encode_command(name: &str, body: Option<&[u8]>, params: &[&str]) -> (r: Vec<u8>)
        ensures
            r@ == u32_be_bytes(
                sized_payload(name@, opt_bytes(body), texts(params@)).len() as u32,
            ) + sized_payload(name@, opt_bytes(body), texts(params@)),
    {
        let ghost ps = texts(params@);
        let mut payload: Vec<u8> = Vec::new();
        push_all(&mut payload, name.as_bytes());
        let mut i: usize = 0;
        while i < params.len()
            invariant
                ps == texts(params@),
                i <= params@.len(),
                payload@ == utf8(name@) + spaced(ps.take(i as int)),
            decreases params@.len() - i,
        {
            payload.push(32u8);
            push_all(&mut payload, params[i].as_bytes());
            proof {
                assert(ps.take(i + 1).drop_last() =~= ps.take(i as int));
                assert(ps.take(i + 1).last() == params@[i as int]@);
            }
            i = i + 1;
            assert(payload@ =~= utf8(name@) + spaced(ps.take(i as int)));
        }
        assert(ps.take(i as int) =~= ps);
        payload.push(10u8);
        match body {
            Some(b) => push_all(&mut payload, b),
            None => {},
        }
        assert(payload@ =~= sized_payload(name@, opt_bytes(body), ps));
        let mut cmd: Vec<u8> = Vec::new();
        push_be_u32(&mut cmd, payload.len() as u32);
        push_all(&mut cmd, payload.as_slice());
        cmd
    }
}

/// The command line `Protocol::write_command` builds from a command's name
/// and parameters is the line `Command::to_bytes` writes for that command:
/// SUB with a topic and a channel, FIN and TOUCH with an id, REQ with an id
/// and a delay, RDY with a count, NOP and CLS with none.
pub proof fn law_write_command_matches_commands(
    topic: String,
    channel: String,
    id: String,
    count: u32,
    delay: u32,
)
    ensures
        command_line(utf8("SUB"@), seq![utf8(topic@), utf8(channel@)]) == Command::Subscribe(
            topic,
            channel,
        ).wire_bytes(),
        command_line(utf8("FIN"@), seq![utf8(id@)]) == Command::Finish(id).wire_bytes(),
        command_line(utf8("TOUCH"@), seq![utf8(id@)]) == Command::Touch(id).wire_bytes(),
        command_line(utf8("REQ"@), seq![utf8(id@), decimal(delay as nat)]) == Command::Requeue(
            id,
            delay,
        ).wire_bytes(),
        command_line(utf8("RDY"@), seq![decimal(count as nat)]) == Command::Ready(count).wire_bytes(),
        command_line(utf8("NOP"@), Seq::<Seq<u8>>::empty()) == Command::Nop.wire_bytes(),
        command_line(utf8("CLS"@), Seq::<Seq<u8>>::empty()) == Command::Cls.wire_bytes(),
{
    let sub = seq![utf8(topic@), utf8(channel@)];
    assert(sub.drop_last() =~= seq![utf8(topic@)]);
    assert(joined(seq![utf8(topic@)]) == utf8(topic@));
    assert(sub.last() == utf8(channel@));
    assert(joined(sub) =~= utf8(topic@) + space() + utf8(channel@));
    assert(command_line(utf8("SUB"@), sub) =~= Command::Subscribe(topic, channel).wire_bytes());
    let req = seq![utf8(id@), decimal(delay as nat)];
    assert(req.drop_last() =~= seq![utf8(id@)]);
    assert(joined(seq![utf8(id@)]) == utf8(id@));
    assert(req.last() == decimal(delay as nat));
    assert(joined(req) =~= utf8(id@) + space() + decimal(delay as nat));
    assert(command_line(utf8("REQ"@), req) =~= Command::Requeue(id, delay).wire_bytes());
    assert(command_line(utf8("FIN"@), seq![utf8(id@)]) =~= Command::Finish(id).wire_bytes());
    assert(command_line(utf8("TOUCH"@), seq![utf8(id@)]) =~= Command::Touch(id).wire_bytes());
    assert(command_line(utf8("RDY"@), seq![decimal(count as nat)]) =~= Command::Ready(
        count,
    ).wire_bytes());
}

/// In a size-prefixed command every parameter follows exactly one space:
/// adding the next parameter adds a space and its UTF-8 bytes, so the
/// parameters take one byte each beyond their own bytes.
pub proof fn law_spaced_puts_one_space_before_each(params: Seq<Seq<char>>)
    ensures
        spaced(Seq::<Seq<char>>::empty()).len() == 0,
        forall|i: int|
            0 <= i < params.len() ==> #[trigger] spaced(params.take(i + 1)) == spaced(params.take(i))
                + seq![32u8] + utf8(params[i]),
        forall|i: int|
            0 <= i < params.len() ==> #[trigger] spaced(params.take(i + 1)).len() == spaced(
                params.take(i),
            ).len() + 1 + utf8(params[i]).len(),
{
    assert forall|i: int| 0 <= i < params.len() implies #[trigger] spaced(params.take(i + 1))
        == spaced(params.take(i)) + seq![32u8] + utf8(params[i]) by {
        assert(params.take(i + 1).drop_last() =~= params.take(i));
        assert(params.take(i + 1).last() == params[i]);
    }
    assert forall|i: int| 0 <= i < params.len() implies #[trigger] spaced(params.take(i + 1)).len()
        == spaced(params.take(i)).len() + 1 + utf8(params[i]).len() by {
        assert(params.take(i + 1).drop_last() =~= params.take(i));
        assert(params.take(i + 1).last() == params[i]);
    }
}

/// In a command line the parameters are separated by exactly one space:
/// the first stands alone, and each later one adds a space and its bytes.
pub proof fn law_joined_separates_by_one_space(params: Seq<Seq<u8>>)
    ensures
        params.len() > 0 ==> joined(params.take(1)) == params[0],
        forall|i: int|
            1 <= i < params.len() ==> #[trigger] joined(params.take(i + 1)) == joined(params.take(i))
                + seq![32u8] + params[i],
{
    if params.len() > 0 {
        assert(params.take(1).len() == 1);
        assert(params.take(1)[0] == params[0]);
    }
    assert forall|i: int| 1 <= i < params.len() implies #[trigger] joined(params.take(i + 1))
        == joined(params.take(i)) + seq![32u8] + params[i] by {
        assert(params.take(i + 1).drop_last() =~= params.take(i));
        assert(params.take(i + 1).last() == params[i]);
    }
}

/// The payload of a message frame: timestamp, attempts, id, body.
pub open spec fn message_payload(timestamp: u64, attempts: u16, id: Seq<u8>, body: Seq<u8>) -> Seq<
    u8,
> {
    u64_be_bytes(timestamp) + u16_be_bytes(attempts) + id + body
}

/// Decoding a message payload gives back the timestamp, attempts, id and
/// body it was built from, with the message unanswered; as the data of a
/// message frame it decodes without failure.
pub proof fn law_message_payload_roundtrip(timestamp: u64, attempts: u16, id: Seq<u8>, body: Seq<u8>)
    requires
        id.len() == 16,
    ensures
        ({
            let p = message_payload(timestamp, attempts, id, body);
            let frame = u32_be_bytes(FRAME_TYPE_MESSAGE as u32) + p;
            &&& p.len() >= 26
            &&& !decode_frame_undefined(frame)
            &&& be_u32(frame) as i32 == FRAME_TYPE_MESSAGE
            &&& frame.subrange(4, frame.len() as int) == p
            &&& forall|m: Message| #[trigger]
                decodes_message(m, p) ==> m.timestamp == timestamp && m.attempts == attempts
                    && m.id@ == id && m.body@ == body && m.is_fresh()
        }),
{
    let p = message_payload(timestamp, attempts, id, body);
    let frame = u32_be_bytes(FRAME_TYPE_MESSAGE as u32) + p;
    lemma_u64_roundtrip(timestamp);
    lemma_u16_roundtrip(attempts);
    lemma_u32_roundtrip(FRAME_TYPE_MESSAGE as u32);
    assert(p.subrange(0, 8) =~= u64_be_bytes(timestamp));
    assert(be_u64(p) == be_u64(p.subrange(0, 8))) by {
        assert(p.subrange(0, 8).subrange(4, 8) =~= p.subrange(4, 8));
    }
    assert(p.subrange(8, 10) =~= u16_be_bytes(attempts));
    assert(p.subrange(10, 26) =~= id);
    assert(p.subrange(26, p.len() as int) =~= body);
    assert(frame.subrange(4, frame.len() as int) =~= p);
    assert(be_u32(frame) == be_u32(u32_be_bytes(FRAME_TYPE_MESSAGE as u32))) by {
        assert(frame.subrange(0, 4) =~= u32_be_bytes(FRAME_TYPE_MESSAGE as u32).subrange(0, 4));
        lemma_be_u32_prefix(frame, u32_be_bytes(FRAME_TYPE_MESSAGE as u32));
    }
}

/// A size-prefixed frame: size (data length plus four), type code, data.
pub open spec fn sized_frame(code: u32, data: Seq<u8>) -> Seq<u8> {
    u32_be_bytes((data.len() + 4) as u32) + u32_be_bytes(code) + data
}

/// Reading a frame that was written with a known type code gives back that
/// type and exactly its data, whatever follows the frame.
pub proof fn law_read_frame_roundtrip(code: u32, data: Seq<u8>, rest: Seq<u8>)
    requires
        code <= 2,
        data.len() + 4 <= u32::MAX,
    ensures
        ({
            let bytes = sized_frame(code, data) + rest;
            &&& !read_frame_undefined(bytes)
            &&& bytes.len() >= 8
            &&& be_u32(bytes) + 4 <= bytes.len()
            &&& frame_type_of(be_u32(bytes.subrange(4, 8))) == frame_type_of(code)
            &&& bytes.subrange(8, be_u32(bytes) + 4) == data
        }),
{
    let size = (data.len() + 4) as u32;
    let bytes = sized_frame(code, data) + rest;
    lemma_u32_roundtrip(size);
    lemma_u32_roundtrip(code);
    assert(be_u32(bytes) == size) by {
        assert(bytes.subrange(0, 4) =~= u32_be_bytes(size).subrange(0, 4));
        lemma_be_u32_prefix(bytes, u32_be_bytes(size));
    }
    assert(bytes.subrange(4, 8) =~= u32_be_bytes(code));
    assert(bytes.subrange(8, size + 4) =~= data);
}

/// The size prefix of a size-prefixed command counts exactly the bytes that
/// follow it (modulo 2^32).
pub proof fn law_encode_command_size_prefix(name: Seq<char>, body: Option<Seq<u8>>, params: Seq<Seq<char>>)
    ensures
        ({
            let p = sized_payload(name, body, params);
            let cmd = u32_be_bytes(p.len() as u32) + p;
            &&& be_u32(cmd) == (cmd.len() - 4) as u32
            &&& cmd.subrange(4, cmd.len() as int) == p
        }),
{
    let p = sized_payload(name, body, params);
    let cmd = u32_be_bytes(p.len() as u32) + p;
    lemma_u32_roundtrip(p.len() as u32);
    assert(cmd.subrange(0, 4) =~= u32_be_bytes(p.len() as u32).subrange(0, 4));
    lemma_be_u32_prefix(cmd, u32_be_bytes(p.len() as u32));
    assert(cmd.subrange(4, cmd.len() as int) =~= p);
}

/// A published body travels after its length: the bytes of a PUB command
/// are its command line, four bytes holding the body's length, and the body.
pub proof fn law_publish_body_is_length_prefixed(topic: String, body: Vec<u8>)
    requires
        body@.len() <= u32::MAX,
    ensures
        ({
            let line = utf8("PUB"@) + space() + utf8(topic@) + newline();
            let w = Command::Publish(topic, body).wire_bytes();
            &&& w.subrange(0, line.len() as int) == line
            &&& be_u32(w.subrange(line.len() as int, (line.len() + 4) as int)) == body@.len()
            &&& w.subrange((line.len() + 4) as int, w.len() as int) == body@
        }),
{
    let line = utf8("PUB"@) + space() + utf8(topic@) + newline();
    let w = Command::Publish(topic, body).wire_bytes();
    lemma_u32_roundtrip(body@.len() as u32);
    assert(w.subrange(0, line.len() as int) =~= line);
    assert(w.subrange(line.len() as int, (line.len() + 4) as int) =~= u32_be_bytes(body@.len() as u32));
    assert(w.subrange((line.len() + 4) as int, w.len() as int) =~= body@);
}

/// The `IDENTIFY` settings a client announces.
#[derive(Debug, Clone, PartialEq)]
pub struct IdentifyConfig {
    /// Client identifier; the host name by default.
    pub client_id: Option<String>,
    /// Client host name.
    pub hostname: Option<String>,
    /// Whether the client negotiates features.
    pub feature_negotiation: Option<bool>,
    /// Heartbeat interval in milliseconds.
    pub heartbeat_interval: Option<i32>,
    /// Output buffer size in bytes.
    pub output_buffer_size: Option<i32>,
    /// Output buffer timeout in milliseconds.
    pub output_buffer_timeout: Option<i32>,
    /// Whether to upgrade to TLS.
    pub tls_v1: Option<bool>,
    /// Whether to use snappy compression.
    pub snappy: Option<bool>,
    /// Sample rate for the messages delivered.
    pub sample_rate: Option<i32>,
    /// User agent.
    pub user_agent: Option<String>,
    /// Message timeout in milliseconds.
    pub msg_timeout: Option<i32>,
}

/// The user agent this client announces.
pub const USER_AGENT: &'static str = "rust-nsq/0.1.9";

/// The machine's host name, by `hostname::get`, when it is valid Unicode.
/// Nothing is stated of it: it depends on the machine.
#[verifier::external_body]
fn system_hostname() -> (r: Option<String>) {
    hostname::get().ok().and_then(|h| h.into_string().ok())
}

/// A host name, or "unknown" when there is none.
pub fn hostname_or_unknown(hostname: Option<String>) -> (r: String)
    ensures
        match hostname {
            Some(h) => r@ == h@,
            None => r@ == "unknown"@,
        },
{
    match hostname {
        Some(h) => h,
        None => owned("unknown"),
    }
}

impl IdentifyConfig {
    /// Whether `c` holds the default settings for the host name `host`.
    pub open spec fn is_default_for(c: IdentifyConfig, host: Seq<char>) -> bool {
        &&& c.client_id matches Some(id) && id@ == host
        &&& c.hostname matches Some(h) && h@ == host
        &&& c.feature_negotiation == Some(true)
        &&& c.heartbeat_interval == Some(30000i32)
        &&& c.output_buffer_size == Some(16384i32)
        &&& c.output_buffer_timeout == Some(250i32)
        &&& c.tls_v1 is None
        &&& c.snappy is None
        &&& c.sample_rate is None
        &&& c.user_agent matches Some(ua) && ua@ == USER_AGENT@
        &&& c.msg_timeout == Some(60000i32)
    }

    /// The default settings for the host name `hostname`: it is both client
    /// id and host name.
    pub fn for_host(hostname: String) -> (r: IdentifyConfig)
        ensures
            Self::is_default_for(r, hostname@),
    {
        IdentifyConfig {
            client_id: Some(hostname.clone()),
            hostname: Some(hostname),
            feature_negotiation: Some(true),
            heartbeat_interval: Some(30000),
            output_buffer_size: Some(16384),
            output_buffer_timeout: Some(250),
            tls_v1: None,
            snappy: None,
            sample_rate: None,
            user_agent: Some(owned(USER_AGENT)),
            msg_timeout: Some(60000),
        }
    }
}

impl Default for IdentifyConfig {
    /// The default settings for this machine's host name, or for "unknown"
    /// when the host name cannot be had.
    fn default() -> (r: IdentifyConfig)
        ensures
            exists|host: Seq<char>| Self::is_default_for(r, host),
    {
        let r = IdentifyConfig::for_host(hostname_or_unknown(system_hostname()));
        assert(Self::is_default_for(r, r.hostname->0@));
        r
    }
}

} // verus!
