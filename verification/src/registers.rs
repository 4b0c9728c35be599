//! The register access layer: a logical register name and byte offset
//! become a raw `read`/`write` request/reply pair, with big-endian
//! multi-byte values and a per-register packed codec on top of the raw
//! bytes.  Packing then unpacking any register value is proved to be
//! the identity.

use vstd::prelude::*;

use crate::escape::{escape_argument, lemma_str_arg_valid, str_arg_of};
use crate::msg::{check_reply_ok, reply_code_of, valid_name, wf_message, ClientError, Message,
    MessageKind, MessageView, RetCode};
use crate::numbers::{be_bytes_of, dec_of, lemma_dec_of_valid_argument, u32_to_be_bytes,
    u32_to_dec, word_of_be};
use crate::wire::{base64_decode, base64_encode, base64_of, lemma_base64_arg_valid};

verus! {

/// A register that lives at a fixed address within its block.
pub trait RegisterAddress {
    /// The address of this particular struct.
    spec fn spec_address() -> u8;

    /// Returns the address of this particular struct.
    fn address() -> (a: u8)
        ensures
            a == Self::spec_address(),
    ;
}

/// A register value with a 32-bit packed spelling.  Packing then
/// unpacking any value is the identity; every implementation proves
/// that law.
pub trait PackedRegister: Sized {
    /// The 32-bit word this value packs to.
    spec fn spec_word(self) -> u32;

    /// The value a 32-bit word unpacks to.
    spec fn spec_unpack(w: u32) -> Self;

    /// Unpacking the packed spelling of any value yields the value.
    proof fn lemma_pack_unpack(self)
        ensures
            Self::spec_unpack(self.spec_word()) == self,
    ;

    /// Packs this value into its 32-bit word.
    fn pack(&self) -> (w: u32)
        ensures
            w == self.spec_word(),
    ;

    /// Unpacks a 32-bit word.
    fn unpack(w: u32) -> (s: Self)
        ensures
            s == Self::spec_unpack(w),
    ;
}

/// The request that reads `num_bytes` bytes at `offset` of the named
/// register.
pub open spec fn read_request_view(name: Seq<char>, offset: u32, num_bytes: u32) -> MessageView {
    (MessageView {
        kind: MessageKind::Request,
        name: "read"@,
        args: seq![str_arg_of(name), dec_of(offset as nat), dec_of(num_bytes as nat)],
    })
}

/// The request that writes the given bytes at `offset` of the named
/// register, the payload spelled in base64.
pub open spec fn write_request_view(name: Seq<char>, offset: u32, bytes: Seq<u8>) -> MessageView {
    (MessageView {
        kind: MessageKind::Request,
        name: "write"@,
        args: seq![str_arg_of(name), dec_of(offset as nat), base64_of(bytes)],
    })
}

/// Builds the read request for a register region.
pub fn read_request(register_name: &str, offset: u32, num_bytes: u32) -> (m: Message)
    ensures
        m@ == read_request_view(register_name@, offset, num_bytes),
        wf_message(m@),
{
    let mut arguments: Vec<String> = Vec::new();
    arguments.push(escape_argument(register_name));
    arguments.push(u32_to_dec(offset));
    arguments.push(u32_to_dec(num_bytes));
    let m = Message { kind: MessageKind::Request, name: String::from_str("read"), arguments };
    proof {
        reveal_strlit("read");
        assert(valid_name("read"@));
        lemma_str_arg_valid(register_name@);
        lemma_dec_of_valid_argument(offset as nat);
        lemma_dec_of_valid_argument(num_bytes as nat);
        assert(m@.args =~= read_request_view(register_name@, offset, num_bytes).args);
    }
    m
}

/// Builds the write request for a register region.  The message is
/// well-formed whenever the payload is nonempty.
pub fn write_request(register_name: &str, offset: u32, bytes: &[u8]) -> (m: Message)
    ensures
        m@ == write_request_view(register_name@, offset, bytes@),
        bytes@.len() > 0 ==> wf_message(m@),
{
    let payload = base64_encode(bytes);
    let mut arguments: Vec<String> = Vec::new();
    arguments.push(escape_argument(register_name));
    arguments.push(u32_to_dec(offset));
    arguments.push(payload);
    let m = Message { kind: MessageKind::Request, name: String::from_str("write"), arguments };
    proof {
        reveal_strlit("write");
        assert(valid_name("write"@));
        lemma_str_arg_valid(register_name@);
        lemma_dec_of_valid_argument(offset as nat);
        if bytes@.len() > 0 {
            lemma_base64_arg_valid(base64_of(bytes@));
        }
        assert(m@.args =~= write_request_view(register_name@, offset, bytes@).args);
    }
    m
}

/// Extracts the byte payload from a completed read exchange: the last
/// message must be a `read` reply reporting success, with the payload
/// as its base64-spelled second argument.  A reply with any other code
/// is a device error carrying that code.
pub fn parse_read_reply(messages: &Vec<Message>) -> (r: Result<Vec<u8>, ClientError>)
    ensures
        messages@.len() == 0 ==> (r matches Err(e) && e is Protocol),
        r is Ok ==> messages@.len() > 0 && reply_code_of(messages.deep_view().last(), "read"@)
            == Some(RetCode::Okay) && messages.deep_view().last().args.len() == 2,
        messages@.len() > 0 ==> match reply_code_of(messages.deep_view().last(), "read"@) {
            Some(code) => code != RetCode::Okay ==> (r matches Err(e) && (e
                matches ClientError::Device { name, code: c } && name@ == messages.deep_view().last().name
                && c == code)),
            None => r matches Err(e) && e is Protocol,
        },
        messages@.len() > 0 ==> forall|b: Seq<u8>|
            {
                let last = messages.deep_view().last();
                (reply_code_of(last, "read"@) == Some(RetCode::Okay) && last.args.len() == 2
                    && last.args[1] == #[trigger] base64_of(b)) ==> (r matches Ok(bytes) && bytes@
                    == b)
            },
{
    proof {
        reveal_strlit("read");
    }
    if messages.len() == 0 {
        return Err(ClientError::Protocol { name: String::from_str("read") });
    }
    let last = &messages[messages.len() - 1];
    match check_reply_ok(last, "read") {
        Ok(()) => (),
        Err(e) => {
            return Err(e);
        },
    }
    if last.arguments.len() != 2 {
        return Err(ClientError::Protocol { name: last.name.clone() });
    }
    match base64_decode(last.arguments[1].as_str()) {
        Some(bytes) => Ok(bytes),
        None => Err(ClientError::Protocol { name: last.name.clone() }),
    }
}

/// Checks a completed write exchange: the last message must be a
/// `write` reply reporting success.  A reply with any other code is a
/// device error carrying that code.
pub fn check_write_reply(messages: &Vec<Message>) -> (r: Result<(), ClientError>)
    ensures
        messages@.len() == 0 ==> (r matches Err(e) && e is Protocol),
        r is Ok <==> messages@.len() > 0 && reply_code_of(messages.deep_view().last(), "write"@)
            == Some(RetCode::Okay),
        messages@.len() > 0 ==> match reply_code_of(messages.deep_view().last(), "write"@) {
            Some(code) => code != RetCode::Okay ==> (r matches Err(e) && (e
                matches ClientError::Device { name, code: c } && name@ == messages.deep_view().last().name
                && c == code)),
            None => r matches Err(e) && e is Protocol,
        },
{
    proof {
        reveal_strlit("write");
    }
    if messages.len() == 0 {
        return Err(ClientError::Protocol { name: String::from_str("write") });
    }
    let last = &messages[messages.len() - 1];
    check_reply_ok(last, "write")
}

/// Reads a one-byte boolean register value: set exactly where the byte
/// is one.
pub fn read_bool_value(bytes: &[u8]) -> (r: Result<bool, ClientError>)
    ensures
        bytes@.len() == 1 ==> (r matches Ok(v) && v == (bytes@[0] == 1)),
        bytes@.len() != 1 ==> (r matches Err(e) && e is Protocol),
{
    proof {
        reveal_strlit("read");
    }
    if bytes.len() != 1 {
        return Err(ClientError::Protocol { name: String::from_str("read") });
    }
    Ok(bytes[0] == 1)
}

/// Reads a four-byte register value, big-endian as the device sends it.
pub fn read_int_value(bytes: &[u8]) -> (r: Result<u32, ClientError>)
    ensures
        bytes@.len() == 4 ==> (r matches Ok(v) && v == word_of_be(bytes@)),
        bytes@.len() != 4 ==> (r matches Err(e) && e is Protocol),
{
    proof {
        reveal_strlit("read");
    }
    if bytes.len() != 4 {
        return Err(ClientError::Protocol { name: String::from_str("read") });
    }
    Ok(crate::numbers::u32_from_be_bytes(bytes))
}

/// The one-byte payload that writes a boolean register.
pub fn bool_bytes(v: bool) -> (r: Vec<u8>)
    ensures
        r@ =~= seq![if v { 1u8 } else { 0u8 }],
{
    let mut out: Vec<u8> = Vec::new();
    out.push(if v { 1u8 } else { 0u8 });
    out
}

/// Builds the write request that sets a one-byte boolean register.
pub fn write_bool_request(register_name: &str, v: bool) -> (m: Message)
    ensures
        m@ == write_request_view(register_name@, 0, seq![if v { 1u8 } else { 0u8 }]),
        wf_message(m@),
{
    let payload = bool_bytes(v);
    write_request(register_name, 0, payload.as_slice())
}

/// Builds the write request that sets a four-byte register, big-endian.
pub fn write_int_request(register_name: &str, v: u32) -> (m: Message)
    ensures
        m@ == write_request_view(register_name@, 0, be_bytes_of(v)),
        wf_message(m@),
{
    let payload = u32_to_be_bytes(v);
    write_request(register_name, 0, payload.as_slice())
}

/// Builds the read request for a packed register of a block: four
/// bytes at the register's own address.
pub fn read_packed_request<T: PackedRegister + RegisterAddress>(register_name: &str) -> (m: Message)
    ensures
        m@ == read_request_view(register_name@, T::spec_address() as u32, 4),
        wf_message(m@),
{
    let addr = T::address();
    read_request(register_name, addr as u32, 4)
}

/// Builds the write request that sets a packed register of a block:
/// the value's packed word, big-endian, at the register's own address.
pub fn write_packed_request<T: PackedRegister + RegisterAddress>(register_name: &str, value: &T) -> (m:
    Message)
    ensures
        m@ == write_request_view(
            register_name@,
            T::spec_address() as u32,
            be_bytes_of(value.spec_word()),
        ),
        wf_message(m@),
{
    let addr = T::address();
    let payload = u32_to_be_bytes(value.pack());
    write_request(register_name, addr as u32, payload.as_slice())
}

/// Decodes a packed register value from the four bytes a read exchange
/// returned.
pub fn packed_from_bytes<T: PackedRegister>(bytes: &[u8]) -> (r: Result<T, ClientError>)
    ensures
        bytes@.len() == 4 ==> (r matches Ok(v) && v == T::spec_unpack(word_of_be(bytes@))),
        bytes@.len() != 4 ==> (r matches Err(e) && e is Protocol),
{
    proof {
        reveal_strlit("read");
    }
    if bytes.len() != 4 {
        return Err(ClientError::Protocol { name: String::from_str("read") });
    }
    Ok(T::unpack(crate::numbers::u32_from_be_bytes(bytes)))
}

} // verus!
