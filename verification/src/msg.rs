//! The structured protocol message model and the grammar of its parts.
//!
//! A message is one line of text on the wire: a leading sigil gives the
//! kind (`?` request, `#` inform, `!` reply), the first token is the
//! message name, and the remaining whitespace-separated tokens are the
//! arguments.  Arguments are held here in their wire (escaped) form.

use vstd::prelude::*;

use crate::strutil::str_eq;

verus! {

/// The kind of a protocol message, given on the wire by its leading sigil.
#[derive(Debug, Clone, Copy, PartialEq, Eq, Structural)]
pub enum MessageKind {
    /// A command sent to the device; answered by exactly one reply.
    Request,
    /// An asynchronous notification, unsolicited or scoped to a request.
    Inform,
    /// The single terminating answer to a request.
    Reply,
}

/// Device-level status carried as the first argument of most replies.
#[derive(Debug, Clone, Copy, PartialEq, Eq, Structural)]
pub enum RetCode {
    /// The request was processed successfully.
    Okay,
    /// The request was malformed.
    Invalid,
    /// The request was valid but could not be processed.
    Fail,
}

/// A structured protocol message.  Arguments are kept in wire (escaped)
/// form, exactly as they stand between the spaces of the line.
#[derive(Debug, Clone, PartialEq, Eq)]
pub struct Message {
    pub kind: MessageKind,
    pub name: String,
    pub arguments: Vec<String>,
}

/// The mathematical model of a [`Message`].
pub ghost struct MessageView {
    pub kind: MessageKind,
    pub name: Seq<char>,
    pub args: Seq<Seq<char>>,
}

impl View for Message {
    type V = MessageView;

    open spec fn view(&self) -> MessageView {
        (MessageView {
            kind: self.kind,
            name: self.name@,
            args: self.arguments.deep_view(),
        })
    }
}

impl DeepView for Message {
    type V = MessageView;

    open spec fn deep_view(&self) -> MessageView {
        self.view()
    }
}

/// A lower- or upper-case ASCII letter.
pub open spec fn is_alpha(c: char) -> bool {
    ('a' <= c && c <= 'z') || ('A' <= c && c <= 'Z')
}

/// A character allowed anywhere in a message name.
pub open spec fn is_name_char(c: char) -> bool {
    is_alpha(c) || ('0' <= c && c <= '9') || c == '-'
}

/// A well-formed message name: nonempty, starts with a letter, and holds
/// only letters, digits and dashes.
pub open spec fn valid_name(s: Seq<char>) -> bool {
    &&& s.len() > 0
    &&& is_alpha(s[0])
    &&& forall|i: int| 0 <= i < s.len() ==> is_name_char(#[trigger] s[i])
}

/// A character that may not stand bare in an argument: it either
/// separates tokens or must travel as an escape pair.
pub open spec fn is_arg_special(c: char) -> bool {
    c == '\\' || c == ' ' || c == '\u{0}' || c == '\n' || c == '\r' || c == '\t'
}

/// The second character of a legal escape pair.
pub open spec fn is_escape_code(c: char) -> bool {
    c == '\\' || c == '_' || c == '0' || c == 'n' || c == 'r' || c == 'e' || c == 't' || c == '@'
}

/// A possibly empty sequence of escape pairs and plain characters.
pub open spec fn valid_arg_seq(s: Seq<char>) -> bool
    decreases s.len(),
{
    if s.len() == 0 {
        true
    } else if s[0] == '\\' {
        s.len() >= 2 && is_escape_code(s[1]) && valid_arg_seq(s.skip(2))
    } else {
        !is_arg_special(s[0]) && valid_arg_seq(s.skip(1))
    }
}

/// A well-formed argument token: nonempty, no bare separator characters,
/// every backslash opens a legal escape pair.
pub open spec fn valid_argument(s: Seq<char>) -> bool {
    s.len() > 0 && valid_arg_seq(s)
}

/// A token of plain (never-escaped) characters is a well-formed
/// argument sequence.
pub proof fn lemma_plain_arg_valid(s: Seq<char>)
    requires
        forall|i: int| 0 <= i < s.len() ==> !is_arg_special(#[trigger] s[i]),
    ensures
        valid_arg_seq(s),
    decreases s.len(),
{
    if s.len() > 0 {
        lemma_plain_arg_valid(s.skip(1));
        assert(s[0] != '\\');
    }
}

/// A message whose parts all satisfy the wire grammar, so that it
/// serializes to a line that parses back to the same message.
pub open spec fn wf_message(m: MessageView) -> bool {
    &&& valid_name(m.name)
    &&& forall|i: int| 0 <= i < m.args.len() ==> valid_argument(#[trigger] m.args[i])
}

impl Message {
    /// All parts of this message satisfy the wire grammar.
    pub fn is_wf(&self) -> (r: bool)
        ensures
            r == wf_message(self@),
    {
        if !check_name(self.name.as_str()) {
            return false;
        }
        let mut i: usize = 0;
        while i < self.arguments.len()
            invariant
                i <= self.arguments.len(),
                valid_name(self@.name),
                forall|j: int| 0 <= j < i ==> valid_argument(#[trigger] self@.args[j]),
            decreases self.arguments.len() - i,
        {
            if !check_argument(self.arguments[i].as_str()) {
                assert(!valid_argument(self@.args[i as int]));
                return false;
            }
            i += 1;
        }
        true
    }
}

/// Decides [`valid_name`].
pub fn check_name(s: &str) -> (r: bool)
    ensures
        r == valid_name(s@),
{
    let len = s.unicode_len();
    if len == 0 {
        return false;
    }
    let first = s.get_char(0);
    if !(('a' <= first && first <= 'z') || ('A' <= first && first <= 'Z')) {
        return false;
    }
    let mut i: usize = 0;
    while i < len
        invariant
            len == s@.len(),
            i <= len,
            is_alpha(s@[0]),
            forall|j: int| 0 <= j < i ==> is_name_char(#[trigger] s@[j]),
        decreases len - i,
    {
        let c = s.get_char(i);
        if !(('a' <= c && c <= 'z') || ('A' <= c && c <= 'Z') || ('0' <= c && c <= '9') || c
            == '-') {
            return false;
        }
        i += 1;
    }
    true
}

/// Decides [`valid_argument`].
pub fn check_argument(s: &str) -> (r: bool)
    ensures
        r == valid_argument(s@),
{
    let len = s.unicode_len();
    if len == 0 {
        return false;
    }
    let mut i: usize = 0;
    proof {
        assert(s@.skip(0) =~= s@);
    }
    while i < len
        invariant
            len == s@.len(),
            0 <= i <= len,
            valid_arg_seq(s@) == valid_arg_seq(s@.skip(i as int)),
        decreases len - i,
    {
        proof {
            assert(s@.skip(i as int)[0] == s@[i as int]);
        }
        let c = s.get_char(i);
        if c == '\\' {
            if i + 1 >= len {
                return false;
            }
            let e = s.get_char(i + 1);
            if !(e == '\\' || e == '_' || e == '0' || e == 'n' || e == 'r' || e == 'e' || e == 't'
                || e == '@') {
                proof {
                    assert(s@.skip(i as int)[1] == s@[i as int + 1]);
                }
                return false;
            }
            proof {
                assert(s@.skip(i as int)[1] == s@[i as int + 1]);
                assert(s@.skip(i as int).skip(2) =~= s@.skip(i as int + 2));
            }
            i += 2;
        } else {
            if c == ' ' || c == '\u{0}' || c == '\n' || c == '\r' || c == '\t' {
                return false;
            }
            proof {
                assert(s@.skip(i as int).skip(1) =~= s@.skip(i as int + 1));
            }
            i += 1;
        }
    }
    proof {
        assert(s@.skip(len as int) =~= Seq::<char>::empty());
    }
    true
}

/// The argument spelling of a return code.
pub open spec fn ret_code_arg(rc: RetCode) -> Seq<char> {
    match rc {
        RetCode::Okay => "ok"@,
        RetCode::Invalid => "invalid"@,
        RetCode::Fail => "fail"@,
    }
}

/// Serializes a return code into its argument token.
pub fn ret_code_to_argument(rc: RetCode) -> (r: String)
    ensures
        r@ == ret_code_arg(rc),
{
    match rc {
        RetCode::Okay => String::from_str("ok"),
        RetCode::Invalid => String::from_str("invalid"),
        RetCode::Fail => String::from_str("fail"),
    }
}

/// What [`ret_code_from_argument`] returns: the code whose spelling the
/// token is, if any.
pub open spec fn parsed_ret_code(s: Seq<char>) -> Option<RetCode> {
    if s == ret_code_arg(RetCode::Okay) {
        Some(RetCode::Okay)
    } else if s == ret_code_arg(RetCode::Invalid) {
        Some(RetCode::Invalid)
    } else if s == ret_code_arg(RetCode::Fail) {
        Some(RetCode::Fail)
    } else {
        None
    }
}

/// Parses a return code argument; every other token is refused.
pub fn ret_code_from_argument(s: &str) -> (r: Option<RetCode>)
    ensures
        r == parsed_ret_code(s@),
{
    proof {
        reveal_strlit("ok");
        reveal_strlit("invalid");
        reveal_strlit("fail");
    }
    if str_eq(s, "ok") {
        Some(RetCode::Okay)
    } else if str_eq(s, "invalid") {
        Some(RetCode::Invalid)
    } else if str_eq(s, "fail") {
        Some(RetCode::Fail)
    } else {
        None
    }
}

/// The return code a reply under the given name carries: its first
/// argument, where the message is such a reply and the argument is a
/// code's spelling.
pub open spec fn reply_code_of(m: MessageView, name: Seq<char>) -> Option<RetCode> {
    if m.kind == MessageKind::Reply && m.name == name && m.args.len() >= 1 {
        parsed_ret_code(m.args[0])
    } else {
        None
    }
}

/// Checks that a message is the reply to the named request and that it
/// reports success.  A reply carrying any other code is a device error
/// with that code; everything else is a protocol fault.
pub fn check_reply_ok(m: &Message, name: &str) -> (r: Result<(), ClientError>)
    ensures
        r is Ok <==> reply_code_of(m@, name@) == Some(RetCode::Okay),
        r matches Err(e) ==> match reply_code_of(m@, name@) {
            Some(code) => e matches ClientError::Device { name: n, code: c } && n@ == m@.name && c
                == code && code != RetCode::Okay,
            None => e matches ClientError::Protocol { name: n } && n@ == m@.name,
        },
{
    if !matches!(m.kind, MessageKind::Reply) {
        return Err(ClientError::Protocol { name: m.name.clone() });
    }
    if !str_eq(m.name.as_str(), name) {
        return Err(ClientError::Protocol { name: m.name.clone() });
    }
    if m.arguments.len() < 1 {
        return Err(ClientError::Protocol { name: m.name.clone() });
    }
    match ret_code_from_argument(m.arguments[0].as_str()) {
        Some(RetCode::Okay) => Ok(()),
        Some(code) => Err(ClientError::Device { name: m.name.clone(), code }),
        None => Err(ClientError::Protocol { name: m.name.clone() }),
    }
}

/// The set of errors the library reports.  Wire-level and ordering
/// faults are fatal to the session; a device-reported failure is
/// recoverable at the workflow level.
#[derive(Debug, Clone, PartialEq, Eq)]
pub enum ClientError {
    /// A socket or file failure, described by the surrounding code.
    Io,
    /// A malformed line or an unexpected message kind or order,
    /// carrying the name of the offending message.
    Protocol { name: String },
    /// A reply explicitly reported a non-Okay status, carrying the
    /// reply's name and the device's own return code.
    Device { name: String, code: RetCode },
    /// A suspension point exceeded its bound.
    Timeout,
}

} // verus!
