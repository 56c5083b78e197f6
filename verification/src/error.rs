//! Error types of the client.

use crate::wire::{decimal, signed_decimal};
use vstd::prelude::*;
use vstd::string::StrSliceExecFns;

verus! {

/// The kind of an I/O failure, as far as the client's decisions depend on it.
#[derive(Debug, Clone, Copy, PartialEq, Eq, Structural)]
pub enum IoErrorKind {
    /// The peer closed the connection while a write was in progress.
    BrokenPipe,
    /// The peer reset the connection.
    ConnectionReset,
    /// The connection was aborted.
    ConnectionAborted,
    /// The input ended before the expected number of bytes was read.
    UnexpectedEof,
    /// Any other failure.
    Other,
}

/// An I/O failure: its kind and its message.
#[derive(Debug, Clone)]
pub struct IoError {
    pub kind: IoErrorKind,
    pub message: String,
}

/// Errors of the NSQ wire protocol.
#[derive(Debug, Clone)]
pub enum ProtocolError {
    /// An I/O failure while reading a frame.
    Io(IoError),
    /// A frame whose size field cannot be right.
    InvalidFrameSize,
    /// A peer that does not speak protocol version 2.
    InvalidMagicVersion,
    /// A frame type other than response, error and message.
    InvalidFrameType(i32),
    /// Any other protocol failure, with its message.
    Other(String),
}

/// Errors of the client library.
#[derive(Debug, Clone)]
pub enum Error {
    /// An I/O failure.
    Io(IoError),
    /// A value could not be serialized; the serializer's message.
    Serialize(String),
    /// A connection could not be made or used.
    Connection(String),
    /// The peer broke the protocol.
    Protocol(ProtocolError),
    /// An operation did not finish in time.
    Timeout(String),
    /// Authentication failed.
    Auth(String),
    /// A message handler failed.
    MessageHandling(String),
    /// The configuration is unusable.
    Config(String),
    /// An HTTP request failed; the HTTP client's message.
    Http(String),
    /// Any other failure.
    Other(String),
}

/// The result type of the client library.
pub type Result<T> = std::result::Result<T, Error>;

/// Whether an error is a protocol error carrying exactly the message `text`.
pub open spec fn is_protocol_other(r: Error, text: Seq<char>) -> bool {
    r matches Error::Protocol(ProtocolError::Other(m)) && m@ == text
}

/// Whether `r` failed with a protocol error carrying exactly the message `text`.
pub open spec fn fails_with_protocol_other<T>(r: Result<T>, text: Seq<char>) -> bool {
    r matches Err(e) && is_protocol_other(e, text)
}

/// Builds an owned string with the same characters as `text`.
pub fn owned(text: &str) -> (r: String)
    ensures
        r@ == text@,
{
    text.to_owned()
}

/// Appends one character to `s`, with `String::push`.
#[verifier::external_body]
pub(crate) fn push_char(s: &mut String, c: char)
    ensures
        final(s)@ == old(s)@.push(c),
{
    s.push(c)
}

/// The characters of the decimal numeral `digits`.
pub open spec fn digits_text(digits: Seq<u8>) -> Seq<char> {
    digits.map_values(|b: u8| b as char)
}

/// Appends the characters of the decimal numeral of `n` to `s`.
pub fn push_decimal_text(s: &mut String, n: u64)
    ensures
        final(s)@ == old(s)@ + digits_text(decimal(n as nat)),
    decreases n,
{
    if n >= 10 {
        push_decimal_text(s, n / 10);
    }
    let digit = (48 + n % 10) as u8;
    push_char(s, digit as char);
    assert(final(s)@ =~= old(s)@ + digits_text(decimal(n as nat)));
}

/// `prefix` followed by the decimal numeral of `n`.
pub fn text_with_number(prefix: &str, n: u64) -> (r: String)
    ensures
        r@ == prefix@ + digits_text(decimal(n as nat)),
{
    let mut s = owned(prefix);
    push_decimal_text(&mut s, n);
    s
}

/// Appends the characters of the signed decimal numeral of `n` to `s`.
pub fn push_signed_decimal_text(s: &mut String, n: i32)
    ensures
        final(s)@ == old(s)@ + digits_text(signed_decimal(n as int)),
{
    if n < 0 {
        push_char(s, '-');
        let magnitude: u64 = (0i64 - n as i64) as u64;
        push_decimal_text(s, magnitude);
        assert(digits_text(signed_decimal(n as int)) =~= seq!['-'] + digits_text(
            decimal((-n) as nat),
        ));
        assert(final(s)@ =~= old(s)@ + digits_text(signed_decimal(n as int)));
    } else {
        push_decimal_text(s, n as u64);
    }
}

/// `prefix` followed by `text`.
pub fn joined_text(prefix: &str, text: &str) -> (r: String)
    ensures
        r@ == prefix@ + text@,
{
    let mut s = owned(prefix);
    s.append(text);
    s
}

impl ProtocolError {
    /// The text a protocol error displays.
    pub open spec fn text(self) -> Seq<char> {
        match self {
            ProtocolError::Io(io) => "IO error: "@ + io.message@,
            ProtocolError::InvalidFrameSize => "Invalid frame size"@,
            ProtocolError::InvalidMagicVersion => "Invalid magic version"@,
            ProtocolError::InvalidFrameType(t) => "Invalid frame type: "@ + digits_text(
                signed_decimal(t as int),
            ),
            ProtocolError::Other(m) => "Protocol error: "@ + m@,
        }
    }

    /// The text this error displays.
    pub fn describe(&self) -> (r: String)
        ensures
            r@ == self.text(),
    {
        match self {
            ProtocolError::Io(io) => joined_text("IO error: ", io.message.as_str()),
            ProtocolError::InvalidFrameSize => owned("Invalid frame size"),
            ProtocolError::InvalidMagicVersion => owned("Invalid magic version"),
            ProtocolError::InvalidFrameType(t) => {
                let mut s = owned("Invalid frame type: ");
                push_signed_decimal_text(&mut s, *t);
                s
            },
            ProtocolError::Other(m) => joined_text("Protocol error: ", m.as_str()),
        }
    }
}

impl Error {
    /// The text an error displays.
    pub open spec fn text(self) -> Seq<char> {
        match self {
            Error::Io(io) => "IO错误: "@ + io.message@,
            Error::Serialize(m) => "序列化错误: "@ + m@,
            Error::Connection(m) => "连接错误: "@ + m@,
            Error::Protocol(p) => "协议错误: "@ + p.text(),
            Error::Timeout(_) => "操作超时"@,
            Error::Auth(m) => "认证失败: "@ + m@,
            Error::MessageHandling(m) => "消息处理错误: "@ + m@,
            Error::Config(m) => "配置错误: "@ + m@,
            Error::Http(m) => "HTTP错误: "@ + m@,
            Error::Other(m) => "其他错误: "@ + m@,
        }
    }

    /// The text this error displays.
    pub fn describe(&self) -> (r: String)
        ensures
            r@ == self.text(),
    {
        match self {
            Error::Io(io) => joined_text("IO错误: ", io.message.as_str()),
            Error::Serialize(m) => joined_text("序列化错误: ", m.as_str()),
            Error::Connection(m) => joined_text("连接错误: ", m.as_str()),
            Error::Protocol(p) => {
                let inner = p.describe();
                joined_text("协议错误: ", inner.as_str())
            },
            Error::Timeout(_) => owned("操作超时"),
            Error::Auth(m) => joined_text("认证失败: ", m.as_str()),
            Error::MessageHandling(m) => joined_text("消息处理错误: ", m.as_str()),
            Error::Config(m) => joined_text("配置错误: ", m.as_str()),
            Error::Http(m) => joined_text("HTTP错误: ", m.as_str()),
            Error::Other(m) => joined_text("其他错误: ", m.as_str()),
        }
    }
}

/// Whether `pat` occurs in `s` as a contiguous run of characters.
pub open spec fn contains_text(s: Seq<char>, pat: Seq<char>) -> bool {
    exists|i: int| 0 <= i && i + pat.len() <= s.len() && #[trigger] s.subrange(i, i + pat.len()) == pat
}

/// Whether `pat` occurs in `s` starting at character `at`.
fn text_at(s: &str, pat: &str, at: usize, n: usize, m: usize) -> (r: bool)
    requires
        n == s@.len(),
        m == pat@.len(),
        at + m <= n,
    ensures
        r == (s@.subrange(at as int, at + m) == pat@),
{
    let mut j: usize = 0;
    while j < m
        invariant
            n == s@.len(),
            m == pat@.len(),
            at + m <= n,
            j <= m,
            forall|k: int| 0 <= k < j ==> s@[at + k] == pat@[k],
        decreases m - j,
    {
        if s.get_char(at + j) != pat.get_char(j) {
            assert(s@.subrange(at as int, at + m)[j as int] != pat@[j as int]);
            return false;
        }
        j = j + 1;
    }
    assert(s@.subrange(at as int, at + m) =~= pat@);
    true
}

/// Whether `pat` occurs in `s` as a contiguous run of characters.
pub fn text_contains(s: &str, pat: &str) -> (r: bool)
    ensures
        r == contains_text(s@, pat@),
{
    let n = s.unicode_len();
    let m = pat.unicode_len();
    if m > n {
        return false;
    }
    let last = n - m;
    let mut i: usize = 0;
    while i < last
        invariant
            n == s@.len(),
            m == pat@.len(),
            last + m == n,
            i <= last,
            forall|k: int| 0 <= k < i ==> #[trigger] s@.subrange(k, k + m) != pat@,
        decreases last - i,
    {
        if text_at(s, pat, i, n, m) {
            return true;
        }
        i = i + 1;
    }
    if text_at(s, pat, last, n, m) {
        return true;
    }
    assert forall|k: int| 0 <= k && k + pat@.len() <= s@.len() implies #[trigger] s@.subrange(
        k,
        k + pat@.len(),
    ) != pat@ by {}
    false
}

} // verus!
