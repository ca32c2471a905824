//! The calls into the `capnp` runtime that the packet format rests on.
//!
//! A packet travels as a packed Cap'n Proto message whose root is a list of
//! texts. The contracts of the items here are trusted, not proved: each
//! doc comment says what it claims of the call it wraps.
//!
//! Messages are read into space that the caller provides and without a
//! traversal limit: the space bounds what a message may take up, and every
//! read of a message then depends on its bytes alone.

use vstd::prelude::*;
use vstd::utf8::{decode_utf8, encode_utf8, valid_utf8};
use capnp::message::{Builder, HeapAllocator, Reader, ReaderOptions};
use capnp::serialize::NoAllocBufferSegments;

verus! {

/// A Cap'n Proto message under construction: its builder, over the heap
/// allocator, held opaquely.
#[verifier::external_body]
pub struct OutgoingMessage {
    builder: Builder<HeapAllocator>,
}

/// A Cap'n Proto message that was read from packed bytes into space of the
/// caller's, held opaquely.
#[verifier::external_body]
pub struct IncomingMessage<'a> {
    reader: Reader<NoAllocBufferSegments<&'a [u8]>>,
}

/// A list of texts inside a message that was read in.
#[verifier::external_type_specification]
#[verifier::external_body]
pub struct ExTextListReader<'a>(capnp::text_list::Reader<'a>);

/// The error type of the `capnp` runtime.
#[verifier::external_type_specification]
#[verifier::external_body]
pub struct ExCapnpError(capnp::Error);

/// The error of a failed UTF-8 conversion.
#[verifier::external_type_specification]
#[verifier::external_body]
pub struct ExFromUtf8Error(std::string::FromUtf8Error);

/// Whether the root of a message under construction has been set.
pub uninterp spec fn message_root_set(b: OutgoingMessage) -> bool;

/// The bytes of the packed serialisation of a message under construction.
pub uninterp spec fn packed_bytes(b: OutgoingMessage) -> Seq<u8>;

/// The packed serialisation of a fresh message whose root was set to a list
/// of the given texts (each given as its bytes).
pub uninterp spec fn packed_text_list(texts: Seq<Seq<u8>>) -> Seq<u8>;

/// What reading a packed message from `bytes` into `space_len` bytes of
/// space gives: `None` where the framing cannot be read or the message does
/// not fit the space; otherwise the root as a list of texts (`None` where
/// the root is no list of pointers), each item its bytes (`None` where the
/// item is no text).
pub uninterp spec fn packed_message_content(bytes: Seq<u8>, space_len: nat) -> Option<
    Option<Seq<Option<Seq<u8>>>>,
>;

/// The root of a message that was read in, as a list of texts (see
/// [`packed_message_content`]).
pub uninterp spec fn message_root_content(m: IncomingMessage) -> Option<
    Seq<Option<Seq<u8>>>,
>;

/// The items of a list of texts that was read in.
pub uninterp spec fn text_list_items(l: capnp::text_list::Reader) -> Seq<Option<Seq<u8>>>;

/// The UTF-8 bytes of each text.
pub open spec fn utf8_texts(texts: Seq<Seq<char>>) -> Seq<Seq<u8>> {
    texts.map_values(|t: Seq<char>| encode_utf8(t))
}

/// Each text as a present item of a list of texts.
pub open spec fn present_items(texts: Seq<Seq<u8>>) -> Seq<Option<Seq<u8>>> {
    texts.map_values(|t: Seq<u8>| Some(t))
}

/// `prefix` is where `bytes` begins.
pub open spec fn starts_with(bytes: Seq<u8>, prefix: Seq<u8>) -> bool {
    prefix.len() <= bytes.len() && bytes.subrange(0, prefix.len() as int) == prefix
}

/// The bound below which `capnp` accepts list lengths and list sizes in
/// bytes (a text takes its bytes and a terminating NUL).
pub open spec fn capnp_size_limit() -> nat {
    0x2000_0000
}

/// A list of texts that `capnp` can hold: fewer than 2^29 items, each of
/// which, with its terminating NUL, takes fewer than 2^29 bytes.
pub open spec fn texts_fit(texts: Seq<Seq<u8>>) -> bool {
    &&& texts.len() < capnp_size_limit()
    &&& forall|i: int| 0 <= i < texts.len() ==> #[trigger] texts[i].len() + 1 < capnp_size_limit()
}

/// The space needed to read back a packed message of `packed_len` bytes: a
/// packed byte unpacks to at most 128 words of 8 bytes.
pub open spec fn read_space_for(packed_len: nat) -> nat {
    1024 * packed_len
}

/// Wraps `capnp::message::Builder::new_default`: a fresh message whose root
/// is not set.
#[verifier::external_body]
pub(crate) fn new_message() -> (m: OutgoingMessage)
    ensures
        !message_root_set(m),
{
    OutgoingMessage { builder: Builder::new_default() }
}

/// Wraps `capnp::message::Builder::set_root` for a list of texts: the root
/// becomes a list holding copies of `texts`, in order, and where the
/// message was fresh its packed form is that of a fresh message holding
/// those texts. The setter for a slice of strings returns `Ok` in every
/// case; it panics on lists of 2^29 items or more and on texts that take,
/// with their NUL, 2^29 bytes or more, which `requires` leaves out.
#[verifier::external_body]
pub(crate) fn set_root_texts(b: &mut OutgoingMessage, texts: &Vec<String>) -> (r: Result<
    (),
    capnp::Error,
>)
    requires
        texts_fit(utf8_texts(texts@.map_values(|s: String| s@))),
    ensures
        r is Ok,
        message_root_set(*final(b)),
        !message_root_set(*old(b)) ==> packed_bytes(*final(b)) == packed_text_list(
            utf8_texts(texts@.map_values(|s: String| s@)),
        ),
{
    b.builder.set_root::<capnp::text_list::Owned>(texts.as_slice())
}

/// Wraps `capnp::serialize_packed::write_message`, writing into a fresh
/// vector: the vector holds the packed bytes of the message. Its only
/// errors come from the writer, and writing to a vector does not fail. It
/// panics on a message with no segment, one whose root was never set,
/// which `requires` leaves out.
#[verifier::external_body]
pub(crate) fn write_packed_message(b: &OutgoingMessage) -> (r: Result<Vec<u8>, capnp::Error>)
    requires
        message_root_set(*b),
    ensures
        r is Ok,
        r matches Ok(v) ==> v@ == packed_bytes(*b),
{
    let mut out: Vec<u8> = Vec::new();
    match capnp::serialize_packed::write_message(&mut out, &b.builder) {
        Ok(()) => Ok(out),
        Err(e) => Err(e),
    }
}

/// Wraps `capnp::serialize_packed::read_message_no_alloc`, reading into
/// `space` with `capnp`'s default reader options but no traversal limit.
/// The result is a function of `bytes` and of the length of `space`. Bytes
/// that begin with the packed form of a fresh message holding a list of
/// texts that `capnp` can hold read back, given enough space, as a message
/// whose root lists those same texts (what follows the message is not
/// read).
#[verifier::external_body]
pub(crate) fn read_packed_message<'a>(bytes: &[u8], space: &'a mut Vec<u8>) -> (r: Result<
    IncomingMessage<'a>,
    capnp::Error,
>)
    ensures
        r is Ok <==> packed_message_content(bytes@, old(space)@.len()) is Some,
        r matches Ok(m) ==> packed_message_content(bytes@, old(space)@.len()) == Some(
            message_root_content(m),
        ),
        forall|texts: Seq<Seq<u8>>|
            texts_fit(texts) && starts_with(bytes@, #[trigger] packed_text_list(texts))
                && old(space)@.len() >= read_space_for(packed_text_list(texts).len()) ==> (r is Ok
                && message_root_content(r->Ok_0) == Some(present_items(texts))),
{
    let mut options = ReaderOptions::new();
    options.traversal_limit_in_words = None;
    match capnp::serialize_packed::read_message_no_alloc(bytes, space.as_mut_slice(), options) {
        Ok(reader) => Ok(IncomingMessage { reader }),
        Err(e) => Err(e),
    }
}

/// Wraps `capnp::message::Reader::get_root` as a list of texts. Without a
/// traversal limit the result depends on the message alone.
#[verifier::external_body]
pub(crate) fn root_text_list<'a>(m: &'a IncomingMessage) -> (r: Result<
    capnp::text_list::Reader<'a>,
    capnp::Error,
>)
    ensures
        r is Ok <==> message_root_content(*m) is Some,
        r matches Ok(l) ==> message_root_content(*m) == Some(text_list_items(l)),
{
    m.reader.get_root::<capnp::text_list::Reader>()
}

/// Wraps `capnp::text_list::Reader::len`.
#[verifier::external_body]
pub(crate) fn text_list_len(l: &capnp::text_list::Reader) -> (n: u32)
    ensures
        n == text_list_items(*l).len(),
{
    l.len()
}

/// Wraps `capnp::text_list::Reader::get`, handing back the bytes of the
/// text. Without a traversal limit the result depends on the list alone.
/// `get` panics for an index past the end, which `requires` leaves out.
#[verifier::external_body]
pub(crate) fn text_list_item(l: &capnp::text_list::Reader, i: u32) -> (r: Result<Vec<u8>, capnp::Error>)
    requires
        i < text_list_items(*l).len(),
    ensures
        r is Ok <==> text_list_items(*l)[i as int] is Some,
        r matches Ok(v) ==> text_list_items(*l)[i as int] == Some(v@),
{
    match l.get(i) {
        Ok(t) => Ok(t.as_bytes().to_vec()),
        Err(e) => Err(e),
    }
}

/// Wraps `String::from_utf8`: succeeds exactly on valid UTF-8, and the
/// string then holds the characters that the bytes encode.
#[verifier::external_body]
pub(crate) fn string_from_utf8(v: Vec<u8>) -> (r: Result<String, std::string::FromUtf8Error>)
    ensures
        r is Ok <==> valid_utf8(v@),
        r matches Ok(s) ==> s@ == decode_utf8(v@),
{
    String::from_utf8(v)
}

} // verus!
