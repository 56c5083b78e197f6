//! The decisions of a consumer: which topic and channel names it accepts, how
//! it answers each frame nsqd sends, how it answers a message once its
//! handler is done, how it keeps nsqd's RDY count topped up, and when and how
//! soon it reconnects.

use crate::error::{contains_text, owned, text_contains, Error, IoErrorKind, ProtocolError, Result};
use crate::protocol::{utf8, Command, Frame, HEARTBEAT};
use crate::wire::{contains_bytes, contains_run, lossy_text, utf8_lossy};
use vstd::prelude::*;
use vstd::string::StrSliceExecFns;

verus! {

/// Errors specific to consumers.
#[derive(Debug, Clone)]
pub enum ConsumerError {
    InvalidTopic(String),
    InvalidChannel(String),
    ConnectionError(String),
    ProtocolError(String),
}

/// A message as a consumer sees it.
#[derive(Debug, Clone)]
pub struct Message {
    pub id: Vec<u8>,
    pub body: Vec<u8>,
    pub attempts: u16,
    pub timestamp: u64,
}

/// Counters of a consumer.
#[derive(Debug, Clone, Copy)]
pub struct ConsumerStats {
    pub messages_received: u64,
    pub messages_finished: u64,
    pub messages_requeued: u64,
    pub connections: i32,
}

/// ASCII letters and digits.
pub open spec fn is_ascii_alphanumeric(c: char) -> bool {
    ||| 48 <= c as u32 <= 57
    ||| 65 <= c as u32 <= 90
    ||| 97 <= c as u32 <= 122
}

/// Characters allowed in a topic name: ASCII letters and digits, `_`, `-`, `.`.
pub open spec fn topic_char(c: char) -> bool {
    is_ascii_alphanumeric(c) || c == '_' || c == '-' || c == '.'
}

/// Characters allowed in a channel name: those of topic names, `#` and `*`.
pub open spec fn channel_char(c: char) -> bool {
    topic_char(c) || c == '#' || c == '*'
}

/// A valid topic name: 1 to 64 bytes long, of topic characters only.
pub open spec fn valid_topic_name(s: &str) -> bool {
    &&& 1 <= utf8(s@).len() <= 64
    &&& forall|i: int| 0 <= i < s@.len() ==> topic_char(#[trigger] s@[i])
}

/// A valid channel name: 1 to 64 bytes long, of channel characters only.
pub open spec fn valid_channel_name(s: &str) -> bool {
    &&& 1 <= utf8(s@).len() <= 64
    &&& forall|i: int| 0 <= i < s@.len() ==> channel_char(#[trigger] s@[i])
}

fn is_alphanumeric(c: char) -> (r: bool)
    ensures
        r == is_ascii_alphanumeric(c),
{
    let v = c as u32;
    (48 <= v && v <= 57) || (65 <= v && v <= 90) || (97 <= v && v <= 122)
}

/// Whether `name` is 1 to 64 bytes long and, when `channel` is set, of
/// channel characters only, else of topic characters only.
fn valid_name(name: &str, channel: bool) -> (r: bool)
    ensures
        channel ==> r == valid_channel_name(name),
        !channel ==> r == valid_topic_name(name),
{
    let len = name.as_bytes().len();
    if len == 0 || len > 64 {
        return false;
    }
    let n = name.unicode_len();
    let mut i: usize = 0;
    while i < n
        invariant
            n == name@.len(),
            i <= n,
            channel ==> forall|k: int| 0 <= k < i ==> channel_char(#[trigger] name@[k]),
            !channel ==> forall|k: int| 0 <= k < i ==> topic_char(#[trigger] name@[k]),
        decreases n - i,
    {
        let c = name.get_char(i);
        let ok = is_alphanumeric(c) || c == '_' || c == '-' || c == '.' || (channel && (c == '#'
            || c == '*'));
        if !ok {
            return false;
        }
        i = i + 1;
    }
    true
}

/// Whether `topic` is a valid topic name.
pub fn is_valid_topic_name(topic: &str) -> (r: bool)
    ensures
        r == valid_topic_name(topic),
{
    valid_name(topic, false)
}

/// Whether `channel` is a valid channel name.
pub fn is_valid_channel_name(channel: &str) -> (r: bool)
    ensures
        r == valid_channel_name(channel),
{
    valid_name(channel, true)
}

/// Checks the names a consumer is created with: the topic first, then the
/// channel; the error names the offending name.
pub fn check_names(topic: &str, channel: &str) -> (r: Result<()>)
    ensures
        valid_topic_name(topic) && valid_channel_name(channel) <==> r is Ok,
        !valid_topic_name(topic) ==> (r matches Err(Error::Other(m)) && m@ == "Invalid topic name: "@
            + topic@),
        valid_topic_name(topic) && !valid_channel_name(channel) ==> (r matches Err(Error::Other(m))
            && m@ == "Invalid channel name: "@ + channel@),
{
    if !is_valid_topic_name(topic) {
        let mut m = owned("Invalid topic name: ");
        m.append(topic);
        return Err(Error::Other(m));
    }
    if !is_valid_channel_name(channel) {
        let mut m = owned("Invalid channel name: ");
        m.append(channel);
        return Err(Error::Other(m));
    }
    Ok(())
}

/// The commands a consumer sends on a fresh connection, in order: subscribe
/// to the topic and channel, then announce readiness for `max_in_flight`
/// messages (cast to `u32` as `as` casts).
pub fn subscribe_commands(topic: &String, channel: &String, max_in_flight: i32) -> (r: (
    Command,
    Command,
))
    ensures
        r.0 matches Command::Subscribe(t, c) && t@ == topic@ && c@ == channel@,
        r.1 == Command::Ready(max_in_flight as u32),
{
    (Command::Subscribe(topic.clone(), channel.clone()), Command::Ready(max_in_flight as u32))
}

/// What a consumer does with a frame it reads.
#[derive(Debug)]
pub enum FrameAction {
    /// Answer a heartbeat with this command.
    Reply(Command),
    /// Nothing to do.
    Ignore,
    /// Log the error frame's text and go on.
    LogError(String),
    /// Stop serving the connection with this error.
    Fail(Error),
    /// Hand this message to the handler.
    Deliver(crate::protocol::Message),
}

/// The bytes of "E_INVALID", the error nsqd sends for a malformed command.
pub open spec fn e_invalid() -> Seq<u8> {
    seq![69u8, 95, 73, 78, 86, 65, 76, 73, 68]
}

/// Whether two byte slices are equal.
fn bytes_equal(a: &[u8], b: &[u8]) -> (r: bool)
    ensures
        r == (a@ == b@),
{
    if a.len() != b.len() {
        return false;
    }
    let mut i: usize = 0;
    while i < a.len()
        invariant
            a@.len() == b@.len(),
            i <= a@.len(),
            forall|k: int| 0 <= k < i ==> a@[k] == b@[k],
        decreases a@.len() - i,
    {
        if a[i] != b[i] {
            return false;
        }
        i = i + 1;
    }
    assert(a@ =~= b@);
    true
}

/// Decides what a frame read from nsqd requires: a heartbeat response is
/// answered with NOP and other responses are ignored; an error frame stops
/// the connection when its data holds "E_INVALID" and is logged otherwise;
/// a message goes to the handler.
pub fn on_frame(frame: Frame) -> (a: FrameAction)
    ensures
        match frame {
            Frame::Response(data) => if data@ == HEARTBEAT@ {
                a matches FrameAction::Reply(Command::Nop)
            } else {
                a is Ignore
            },
            Frame::Error(data) => if contains_run(data@, e_invalid()) {
                a matches FrameAction::Fail(Error::Protocol(ProtocolError::Other(m))) && m@
                    == utf8_lossy(data@)
            } else {
                a matches FrameAction::LogError(m) && m@ == utf8_lossy(data@)
            },
            Frame::Message(m) => a matches FrameAction::Deliver(d) && d == m,
        },
{
    match frame {
        Frame::Response(data) => {
            let heartbeat = HEARTBEAT;
            if bytes_equal(data.as_slice(), &heartbeat) {
                FrameAction::Reply(Command::Nop)
            } else {
                FrameAction::Ignore
            }
        },
        Frame::Error(data) => {
            let text = lossy_text(data.as_slice());
            let marker: [u8; 9] = [69, 95, 73, 78, 86, 65, 76, 73, 68];
            assert(marker@ == e_invalid());
            if contains_bytes(data.as_slice(), &marker) {
                FrameAction::Fail(Error::Protocol(ProtocolError::Other(text)))
            } else {
                FrameAction::LogError(text)
            }
        },
        Frame::Message(m) => FrameAction::Deliver(m),
    }
}

/// How a consumer follows up on a message once its handler has returned.
#[derive(Debug)]
pub enum FollowUp {
    /// Send this FIN; on success count the message as finished.
    SendFinish(Command),
    /// Send this REQ; on success count the message as requeued.
    SendRequeue(Command),
    /// The handler finished or requeued the message itself: count it finished.
    CountFinished,
    /// The handler failed after finishing or requeueing the message itself:
    /// count it requeued.
    CountRequeued,
    /// Nothing to send or count.
    Nothing,
}

/// Whether the consumer answers a message on its own: automatic answers are
/// enabled for the consumer and the message, and the message is unanswered.
pub open spec fn answers_automatically(
    disable_auto_response: bool,
    m: crate::protocol::Message,
) -> bool {
    !disable_auto_response && !m.auto_response_off() && !m.answered()
}

/// Decides the follow-up once the handler returned: with automatic answers,
/// FIN after success and REQ with no delay after failure; a message the
/// handler answered itself is only counted.
pub fn after_handler(handler_ok: bool, disable_auto_response: bool, m: &crate::protocol::Message) -> (f:
    FollowUp)
    ensures
        answers_automatically(disable_auto_response, *m) ==> if handler_ok {
            f matches FollowUp::SendFinish(Command::Finish(id)) && id@ == utf8_lossy(m.id@)
        } else {
            f matches FollowUp::SendRequeue(Command::Requeue(id, delay)) && id@ == utf8_lossy(
                m.id@,
            ) && delay == 0
        },
        !answers_automatically(disable_auto_response, *m) && m.answered() ==> if handler_ok {
            f is CountFinished
        } else {
            f is CountRequeued
        },
        !answers_automatically(disable_auto_response, *m) && !m.answered() ==> f is Nothing,
{
    let auto = !disable_auto_response && !m.is_auto_response_disabled() && !m.has_responded();
    if auto {
        if handler_ok {
            FollowUp::SendFinish(Command::Finish(m.id_string()))
        } else {
            FollowUp::SendRequeue(Command::Requeue(m.id_string(), 0))
        }
    } else if m.has_responded() {
        if handler_ok {
            FollowUp::CountFinished
        } else {
            FollowUp::CountRequeued
        }
    } else {
        FollowUp::Nothing
    }
}

/// A message answered by hand, or one whose automatic answers are off for
/// the consumer or for the message itself, never gets an automatic FIN or
/// REQ: each message is answered at most once.
pub proof fn law_manual_answers_are_not_repeated(disable_auto_response: bool, m: crate::protocol::Message)
    requires
        disable_auto_response || m.auto_response_off() || m.answered(),
    ensures
        !answers_automatically(disable_auto_response, m),
{
}

/// Half of `x`, rounded toward zero, as Rust's integer division rounds.
pub open spec fn half_toward_zero(x: int) -> int {
    if x >= 0 {
        x / 2
    } else {
        -((-x) / 2)
    }
}

/// Halving rounds toward zero: twice the half is `x` or, for odd `x`, one
/// step closer to zero than `x`.
pub proof fn law_half_rounds_toward_zero(x: int)
    ensures
        x >= 0 ==> 0 <= x - 2 * half_toward_zero(x) <= 1,
        x < 0 ==> -1 <= x - 2 * half_toward_zero(x) <= 0,
{
}

/// The RDY count a consumer believes it has left on one connection.
#[derive(Debug, Clone, Copy)]
pub struct RdyCounter {
    /// Messages nsqd may still send before the count runs out.
    pub total: i32,
    /// The count the consumer announces when it tops up.
    pub max_in_flight: i32,
}

impl RdyCounter {
    /// The counter after the initial RDY was sent: the full count.
    pub fn start(max_in_flight: i32) -> (r: RdyCounter)
        ensures
            r.total == max_in_flight,
            r.max_in_flight == max_in_flight,
    {
        RdyCounter { total: max_in_flight, max_in_flight }
    }

    /// Counts one handled message: the count drops by one, and when what
    /// remains is at most half of `max_in_flight` a RDY for the full count
    /// must be sent. A count already at `i32::MIN` cannot drop.
    pub fn message_done(&mut self) -> (r: Option<Command>)
        requires
            old(self).total > i32::MIN,
        ensures
            final(self).total == old(self).total - 1,
            final(self).max_in_flight == old(self).max_in_flight,
            old(self).total - 1 <= half_toward_zero(old(self).max_in_flight as int) ==> r == Some(
                Command::Ready(old(self).max_in_flight as u32),
            ),
            old(self).total - 1 > half_toward_zero(old(self).max_in_flight as int) ==> r is None,
    {
        let remaining = self.total - 1;
        self.total = remaining;
        let m = self.max_in_flight as i64;
        let half: i64 = if m >= 0 {
            m / 2
        } else {
            -((-m) / 2)
        };
        if (remaining as i64) <= half {
            Some(Command::Ready(self.max_in_flight as u32))
        } else {
            None
        }
    }

    /// Records that the top-up RDY was sent: the full count again.
    pub fn replenished(&mut self)
        ensures
            final(self).total == old(self).max_in_flight,
            final(self).max_in_flight == old(self).max_in_flight,
    {
        self.total = self.max_in_flight;
    }
}

/// Whether a consumer is already connected to `addr`, given the addresses
/// it is connected to; connecting to it again then does nothing.
pub fn already_connected(connected: &Vec<String>, addr: &str) -> (r: bool)
    ensures
        r == exists|i: int| 0 <= i < connected@.len() && #[trigger] connected@[i]@ == addr@,
{
    let wanted = owned(addr);
    let mut i: usize = 0;
    while i < connected.len()
        invariant
            i <= connected@.len(),
            wanted@ == addr@,
            forall|k: int| 0 <= k < i ==> #[trigger] connected@[k]@ != addr@,
        decreases connected@.len() - i,
    {
        if connected[i] == wanted {
            return true;
        }
        i = i + 1;
    }
    false
}

/// Topic names may hold ASCII letters of either case, ASCII digits, `_`,
/// `-` and `.`, and nothing else; channel names may also hold `#` and `*`.
pub proof fn law_name_characters(c: char)
    ensures
        topic_char(c) <==> (('a' as u32) <= (c as u32) <= ('z' as u32) || ('A' as u32) <= (c as u32)
            <= ('Z' as u32) || ('0' as u32) <= (c as u32) <= ('9' as u32) || c == '_' || c == '-'
            || c == '.'),
        channel_char(c) <==> (topic_char(c) || c == '#' || c == '*'),
{
}

/// Whether an error means the connection broke, so that reconnecting may help.
pub open spec fn is_broken_connection(e: Error) -> bool {
    e matches Error::Io(io) && (io.kind == IoErrorKind::BrokenPipe || io.kind
        == IoErrorKind::ConnectionReset || io.kind == IoErrorKind::ConnectionAborted || io.kind
        == IoErrorKind::UnexpectedEof)
}

/// Whether an error means the connection was lost: a broken, reset or
/// aborted connection, input that ended early, or an error whose text
/// mentions "early eof".
pub open spec fn lost_connection(e: Error) -> bool {
    is_broken_connection(e) || contains_text(e.text(), "early eof"@)
}

/// Whether an error means the connection was lost.
pub fn is_connection_error(e: &Error) -> (r: bool)
    ensures
        r == lost_connection(*e),
{
    let broken = match e {
        Error::Io(io) => match io.kind {
            IoErrorKind::BrokenPipe => true,
            IoErrorKind::ConnectionReset => true,
            IoErrorKind::ConnectionAborted => true,
            IoErrorKind::UnexpectedEof => true,
            IoErrorKind::Other => false,
        },
        _ => false,
    };
    if broken {
        return true;
    }
    let text = e.describe();
    text_contains(text.as_str(), "early eof")
}

/// Only a broken connection (a broken pipe, a reset or aborted connection,
/// input that ended early), an error whose text mentions "early eof", or a
/// timeout makes a running consumer reconnect; any other error, such as a
/// protocol error from nsqd, ends the connection for good unless its text
/// mentions "early eof".
pub proof fn law_what_makes_a_consumer_reconnect(e: Error, p: ProtocolError)
    ensures
        !(e is Io) ==> (lost_connection(e) == contains_text(e.text(), "early eof"@)),
        e matches Error::Io(io) ==> (lost_connection(e) == (io.kind == IoErrorKind::BrokenPipe
            || io.kind == IoErrorKind::ConnectionReset || io.kind == IoErrorKind::ConnectionAborted
            || io.kind == IoErrorKind::UnexpectedEof || contains_text(e.text(), "early eof"@))),
        lost_connection(Error::Protocol(p)) == contains_text(
            "协议错误: "@ + p.text(),
            "early eof"@,
        ),
{
}

/// Whether a consumer tries to reconnect after serving a connection failed
/// with `e`: only while it runs, and only when the connection was lost or
/// an operation timed out; any other error ends the connection for good.
pub fn should_reconnect(e: &Error, running: bool) -> (r: bool)
    ensures
        r == (running && (lost_connection(*e) || e is Timeout)),
{
    if !running {
        return false;
    }
    if is_connection_error(e) {
        return true;
    }
    match e {
        Error::Timeout(_) => true,
        _ => false,
    }
}

/// The longest pause between reconnection attempts, in seconds.
pub const MAX_RETRY_DELAY_SECS: u64 = 60;

/// The delay after the current one under the backoff strategy: doubled,
/// capped at the maximum.
pub open spec fn next_delay(d: u64) -> u64 {
    if 2 * d <= MAX_RETRY_DELAY_SECS {
        (2 * d) as u64
    } else {
        MAX_RETRY_DELAY_SECS
    }
}

/// The reconnection state of one connection: the next base delay in seconds
/// and the failures since the last successful connection.
#[derive(Debug, Clone, Copy)]
pub struct Reconnect {
    pub delay_secs: u64,
    pub failures: u32,
}

impl Reconnect {
    /// The state before any failure: a delay of one second.
    pub fn new() -> (r: Reconnect)
        ensures
            r.delay_secs == 1,
            r.failures == 0,
    {
        Reconnect { delay_secs: 1, failures: 0 }
    }

    /// Whether the state is one the consumer can reach.
    pub open spec fn wf(self) -> bool {
        1 <= self.delay_secs <= MAX_RETRY_DELAY_SECS
    }

    /// Counts a failure and gives the base pause before the next attempt, in
    /// seconds. With the backoff strategy the pause is the current delay,
    /// and the delay doubles up to the maximum; without it the delay stays.
    pub fn failed(&mut self, backoff_strategy: bool) -> (pause: u64)
        requires
            old(self).wf(),
            old(self).failures < u32::MAX,
        ensures
            final(self).wf(),
            pause == old(self).delay_secs,
            final(self).failures == old(self).failures + 1,
            backoff_strategy ==> final(self).delay_secs == next_delay(old(self).delay_secs),
            !backoff_strategy ==> final(self).delay_secs == old(self).delay_secs,
    {
        self.failures = self.failures + 1;
        let pause = self.delay_secs;
        if backoff_strategy {
            let doubled = self.delay_secs * 2;
            self.delay_secs = if doubled <= MAX_RETRY_DELAY_SECS {
                doubled
            } else {
                MAX_RETRY_DELAY_SECS
            };
        }
        pause
    }

    /// Records a successful reconnection: back to a one-second delay.
    pub fn reconnected(&mut self)
        ensures
            final(self).delay_secs == 1,
            final(self).failures == 0,
    {
        self.delay_secs = 1;
        self.failures = 0;
    }
}

/// Under the backoff strategy the next delay doubles the current one until
/// that would pass sixty seconds, and is sixty seconds from then on.
pub proof fn law_backoff_doubles_up_to_a_minute(d: u64)
    ensures
        2 * d <= 60 ==> next_delay(d) == 2 * d,
        2 * d > 60 ==> next_delay(d) == 60,
{
}

/// The pause before reconnecting never exceeds the maximum and never
/// shrinks from one failure to the next.
pub proof fn law_reconnect_delay_is_bounded(r: Reconnect)
    requires
        r.wf(),
    ensures
        r.delay_secs <= MAX_RETRY_DELAY_SECS,
        1 <= next_delay(r.delay_secs) <= MAX_RETRY_DELAY_SECS,
        r.delay_secs <= next_delay(r.delay_secs),
{
}

} // verus!
