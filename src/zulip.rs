//! Chat-side values: an inbound request, its message metadata, the recipient
//! of a reply, and the web link ("narrow") that shows a conversation.
use vstd::prelude::*;
use vstd::string::{StringExecFns, StringSliceAdditionalSpecFns};
use vstd::utf8::encode_utf8;
use crate::text::{decimal, push_decimal};

verus! {

pub const BOT_EMAIL: &'static str = "triage-rust-lang-bot@zulipchat.com";

/// An inbound chat request.
#[derive(Debug)]
pub struct Request {
    /// Markdown body of the sent message.
    pub data: String,
    /// Metadata about this request.
    pub message: Message,
    /// Authentication token. The same for all chat messages.
    token: String,
}

#[derive(Debug, Clone)]
pub struct Message {
    pub sender_id: u64,
    pub sender_email: String,
    pub recipient_id: u64,
    pub sender_short_name: String,
    pub sender_full_name: String,
    pub stream_id: Option<u64>,
    pub topic: Option<String>,
    pub type_: String,
}

/// Where a message goes: a topic of a stream, or a private conversation.
#[derive(Debug, Clone, Copy, PartialEq, Eq)]
pub enum Recipient<'a> {
    Stream { id: u64, topic: &'a str },
    Private { id: u64, email: &'a str },
}

#[derive(Debug, Clone, Copy, PartialEq, Eq)]
pub struct MessageApiRequest<'a> {
    pub recipient: Recipient<'a>,
    pub content: &'a str,
}

/// The token bytes that a request carries.
pub closed spec fn token_bytes(r: &Request) -> Seq<u8> {
    encode_utf8(r.token@)
}

/// Relies on openssl::memcmp::eq: true iff the two byte strings are equal,
/// compared in constant time. It asserts that the lengths are equal.
#[verifier::external_body]
fn constant_time_eq(a: &[u8], b: &[u8]) -> (r: bool)
    requires
        a@.len() == b@.len(),
    ensures
        r == (a@ == b@),
{
    openssl::memcmp::eq(a, b)
}

impl Request {
    pub closed spec fn view_data(&self) -> String {
        self.data
    }

    pub closed spec fn view_message(&self) -> Message {
        self.message
    }

    pub fn new(data: String, message: Message, token: String) -> (r: Request)
        ensures
            r.view_data() == data,
            r.view_message() == message,
            token_bytes(&r) == encode_utf8(token@),
    {
        Request { data, message, token }
    }

    /// Whether the request carries the expected token.
    pub fn is_authorized(&self, expected: &str) -> (r: bool)
        ensures
            r == (token_bytes(self) == expected.spec_bytes()),
    {
        let a = self.token.as_str().as_bytes();
        let b = expected.as_bytes();
        if a.len() != b.len() {
            return false;
        }
        constant_time_eq(a, b)
    }
}

impl Message {
    /// Where a reply to this message goes; `None` for an unknown message
    /// type, or a stream message without a topic.
    pub fn reply_recipient(&self) -> (r: Option<Recipient<'_>>)
        ensures
            r matches Some(Recipient::Private { email, id }) ==> (self.type_@ == "private"@
                && email@ == self.sender_email@ && id == self.recipient_id),
            r matches Some(Recipient::Stream { id, topic }) ==> (self.type_@ == "stream"@
                && self.topic is Some && topic@ == self.topic.unwrap()@ && id
                == self.recipient_id),
            r is None <==> !(self.type_@ == "private"@ || (self.type_@ == "stream"@
                && self.topic is Some)),
    {
        if crate::text::str_eq(self.type_.as_str(), "private") {
            Some(Recipient::Private { email: self.sender_email.as_str(), id: self.recipient_id })
        } else if crate::text::str_eq(self.type_.as_str(), "stream") {
            match &self.topic {
                Some(t) => Some(Recipient::Stream { id: self.recipient_id, topic: t.as_str() }),
                None => None,
            }
        } else {
            None
        }
    }
}

/// Bytes kept as they are in a topic link: ASCII letters, digits, `_`, `-`
/// and `~`.
pub open spec fn always_safe(b: u8) -> bool {
    (65 <= b <= 90) || (97 <= b <= 122) || (48 <= b <= 57) || b == 95 || b == 45 || b == 126
}

/// Upper-case hexadecimal digit for `d < 16`, as an ASCII byte.
pub open spec fn hex_byte(d: u8) -> u8 {
    if d < 10 {
        (48 + d) as u8
    } else {
        (55 + d) as u8
    }
}

/// A byte as it stands in a topic link: itself if safe, else `.` and two
/// upper-case hexadecimal digits (percent-encoding with `.` for `%`).
pub open spec fn encode_byte(b: u8) -> Seq<u8> {
    if always_safe(b) {
        seq![b]
    } else {
        seq![46u8, hex_byte(b / 16), hex_byte(b % 16)]
    }
}

pub open spec fn encode_topic(bs: Seq<u8>) -> Seq<u8>
    decreases bs.len(),
{
    if bs.len() == 0 {
        seq![]
    } else {
        encode_topic(bs.drop_last()) + encode_byte(bs.last())
    }
}

/// ASCII bytes read as characters.
pub open spec fn ascii_chars(bs: Seq<u8>) -> Seq<char> {
    bs.map_values(|b: u8| b as char)
}

/// The narrow part of a link to a recipient's conversation.
pub open spec fn narrow_of(r: Recipient) -> Seq<char> {
    match r {
        Recipient::Stream { id, topic } => "stream/"@ + decimal(id as nat) + "-xxx/topic/"@
            + ascii_chars(encode_topic(topic.spec_bytes())),
        Recipient::Private { id, .. } => "pm-with/"@ + decimal(id as nat) + "-xxx"@,
    }
}

pub open spec fn url_of(r: Recipient) -> Seq<char> {
    "https://rust-lang.zulipchat.com/#narrow/"@ + narrow_of(r)
}

/// Relies on std's String::from_utf8: bytes below 128 are valid UTF-8 and
/// each stands for the character with that code.
#[verifier::external_body]
fn string_from_ascii(bytes: Vec<u8>) -> (r: String)
    requires
        forall|i: int| 0 <= i < bytes@.len() ==> bytes@[i] < 128,
    ensures
        r@ == ascii_chars(bytes@),
{
    String::from_utf8(bytes).unwrap_or_default()
}

fn hex_digit(d: u8) -> (r: u8)
    requires
        d < 16,
    ensures
        r == hex_byte(d),
{
    if d < 10 {
        48 + d
    } else {
        55 + d
    }
}

fn is_always_safe(b: u8) -> (r: bool)
    ensures
        r == always_safe(b),
{
    (65 <= b && b <= 90) || (97 <= b && b <= 122) || (48 <= b && b <= 57) || b == 95 || b == 45
        || b == 126
}

/// The topic's UTF-8 bytes with every byte outside the safe set written as
/// `.XX`.
fn encode_topic_exec(topic: &str) -> (r: String)
    ensures
        r@ == ascii_chars(encode_topic(topic.spec_bytes())),
{
    let bytes = topic.as_bytes();
    let n = bytes.len();
    let mut out: Vec<u8> = Vec::new();
    let mut i: usize = 0;
    while i < n
        invariant
            n == bytes@.len(),
            bytes@ == topic.spec_bytes(),
            i <= n,
            out@ == encode_topic(bytes@.subrange(0, i as int)),
            forall|k: int| 0 <= k < out@.len() ==> out@[k] < 128,
        decreases n - i,
    {
        let b = bytes[i];
        assert(bytes@.subrange(0, i + 1).drop_last() =~= bytes@.subrange(0, i as int));
        let ghost before = out@;
        if is_always_safe(b) {
            out.push(b);
        } else {
            out.push(46);
            out.push(hex_digit(b / 16));
            out.push(hex_digit(b % 16));
        }
        assert(out@ =~= before + encode_byte(b));
        i = i + 1;
    }
    assert(bytes@.subrange(0, n as int) =~= bytes@);
    string_from_ascii(out)
}

impl<'a> Recipient<'a> {
    /// The narrow part of a link to this recipient's conversation.
    pub fn narrow(&self) -> (r: String)
        ensures
            r@ == narrow_of(*self),
    {
        match self {
            Recipient::Stream { id, topic } => {
                let mut s = String::from_str("stream/");
                push_decimal(&mut s, *id);
                s.append("-xxx/topic/");
                let enc = encode_topic_exec(topic);
                s.append(enc.as_str());
                s
            },
            Recipient::Private { id, .. } => {
                let mut s = String::from_str("pm-with/");
                push_decimal(&mut s, *id);
                s.append("-xxx");
                s
            },
        }
    }
}

impl<'a> MessageApiRequest<'a> {
    /// The web link to the conversation that this message goes to.
    pub fn url(&self) -> (r: String)
        ensures
            r@ == url_of(self.recipient),
    {
        let mut s = String::from_str("https://rust-lang.zulipchat.com/#narrow/");
        let n = self.recipient.narrow();
        s.append(n.as_str());
        s
    }
}

} // verus!
