//! The trusted boundary to the wire-level codecs of outside crates:
//! the line codec of the `katcp` crate and the `base64` argument codec.
//! Everything else in the library is proved against the contracts here.

use vstd::prelude::*;

use crate::msg::{is_arg_special, lemma_plain_arg_valid, valid_argument, wf_message, Message,
    MessageKind, MessageView};

verus! {

/// The line the outside line codec produces for a message: sigil, name,
/// space-separated arguments, terminating newline.
pub uninterp spec fn wire_line_of(m: MessageView) -> Seq<char>;

/// Relies on `katcp::protocol::Message`: `Message::new` validates the
/// name and the argument tokens against the wire grammar, and the
/// `Display` impl serializes the message as one terminated line, a pure
/// function of kind, name and arguments (no id is ever attached here).
#[verifier::external_body]
pub fn serialize_message(m: &Message) -> (r: Option<String>)
    ensures
        r matches Some(line) ==> line@ == wire_line_of(m@),
        wf_message(m@) ==> r is Some,
{
    let kind = match m.kind {
        MessageKind::Request => katcp::protocol::MessageKind::Request,
        MessageKind::Inform => katcp::protocol::MessageKind::Inform,
        MessageKind::Reply => katcp::protocol::MessageKind::Reply,
    };
    match katcp::protocol::Message::new(kind, &m.name, None, m.arguments.clone()) {
        Ok(km) => Some(km.to_string()),
        Err(_) => None,
    }
}

/// Relies on `katcp::protocol::Message`'s `TryFrom<&str>` parser: on the
/// serialized line of a well-formed message (with or without its
/// trailing newline) it recovers exactly that message's kind, name and
/// argument tokens.
#[verifier::external_body]
pub fn parse_line(s: &str) -> (r: Option<Message>)
    ensures
        r is None ==> forall|v: MessageView| wf_message(v) ==> s@ != #[trigger] wire_line_of(v),
        r matches Some(p) ==> forall|v: MessageView|
            wf_message(v) && s@ == #[trigger] wire_line_of(v) ==> p@ == v,
{
    let km: katcp::protocol::Message = match s.try_into() {
        Ok(k) => k,
        Err(_) => return None,
    };
    let kind = match km.kind() {
        katcp::protocol::MessageKind::Request => MessageKind::Request,
        katcp::protocol::MessageKind::Inform => MessageKind::Inform,
        katcp::protocol::MessageKind::Reply => MessageKind::Reply,
    };
    Some(Message { kind, name: km.name(), arguments: km.arguments() })
}

/// The base64 spelling of a byte block, in the standard alphabet with
/// padding.
pub uninterp spec fn base64_of(b: Seq<u8>) -> Seq<char>;

/// A character of the standard base64 alphabet, or its padding.
pub open spec fn is_base64_char(c: char) -> bool {
    ('A' <= c && c <= 'Z') || ('a' <= c && c <= 'z') || ('0' <= c && c <= '9') || c == '+' || c
        == '/' || c == '='
}

/// Relies on `base64::encode`: encodes with the standard alphabet and
/// padding, four output characters for every three input bytes begun,
/// so the output is empty exactly for empty input.
#[verifier::external_body]
pub fn base64_encode(b: &[u8]) -> (r: String)
    ensures
        r@ == base64_of(b@),
        (r@.len() == 0) == (b@.len() == 0),
        forall|i: int| 0 <= i < r@.len() ==> is_base64_char(#[trigger] r@[i]),
{
    base64::encode(b)
}

/// Relies on `base64::decode`: inverts `base64::encode`, so on the
/// spelling of any byte block it returns exactly that block.
#[verifier::external_body]
pub fn base64_decode(s: &str) -> (r: Option<Vec<u8>>)
    ensures
        r is None ==> forall|b: Seq<u8>| s@ != #[trigger] base64_of(b),
        r matches Some(v) ==> forall|b: Seq<u8>| s@ == #[trigger] base64_of(b) ==> v@ == b,
{
    base64::decode(s).ok()
}

/// A byte-block argument, spelled in base64 on the wire.
#[derive(Debug, Clone, PartialEq, Eq)]
pub struct Base64Bytes(pub Vec<u8>);

impl Base64Bytes {
    /// Spells the block as its wire argument token.
    pub fn to_argument(&self) -> (r: String)
        ensures
            r@ == base64_of(self.0@),
    {
        base64_encode(self.0.as_slice())
    }

    /// Reads a block back from a wire argument token; every spelling
    /// yields exactly the block it was made from.
    pub fn from_argument(s: &str) -> (r: Option<Base64Bytes>)
        ensures
            r is None ==> forall|b: Seq<u8>| s@ != #[trigger] base64_of(b),
            r matches Some(v) ==> forall|b: Seq<u8>| s@ == #[trigger] base64_of(b) ==> v.0@ == b,
    {
        match base64_decode(s) {
            Some(v) => Some(Base64Bytes(v)),
            None => None,
        }
    }
}

/// Encoding a byte block and decoding the spelling is the identity;
/// this follows from the codec contracts and is checked here once for
/// every caller.
pub fn base64_round_trip(b: &[u8]) -> (r: Vec<u8>)
    ensures
        r@ == b@,
{
    let s = base64_encode(b);
    match base64_decode(s.as_str()) {
        Some(v) => v,
        None => vstd::pervasive::unreached(),
    }
}

/// A base64 spelling of a nonempty block is a well-formed argument.
pub proof fn lemma_base64_arg_valid(s: Seq<char>)
    requires
        s.len() > 0,
        forall|i: int| 0 <= i < s.len() ==> is_base64_char(#[trigger] s[i]),
    ensures
        valid_argument(s),
{
    assert forall|i: int| 0 <= i < s.len() implies !is_arg_special(#[trigger] s[i]) by {
        assert(is_base64_char(s[i]));
    }
    lemma_plain_arg_valid(s);
}

} // verus!
