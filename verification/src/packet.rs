//! Application packets and their wire format.
//!
//! A packet is sent as a packed Cap'n Proto message whose root is a list of
//! texts: the first names the kind of packet (`connectionRequest`,
//! `connectionResponse` or `textMessage`), the others are its fields in
//! order. As with the fields of a Cap'n Proto struct, a field that the list
//! does not reach reads as empty text and items past the last field are
//! ignored; a kind that is not known reads as "not in schema".

use vstd::prelude::*;
use vstd::utf8::{decode_utf8, encode_utf8, valid_utf8};
use crate::capnp_wire::{
    capnp_size_limit, new_message, packed_message_content, packed_text_list, present_items,
    read_packed_message, root_text_list, set_root_texts, starts_with, string_from_utf8,
    text_list_item, text_list_items, text_list_len, texts_fit, utf8_texts, write_packed_message,
};

verus! {

broadcast use {vstd::utf8::encode_utf8_valid_utf8, vstd::utf8::encode_utf8_decode_utf8};

/// The number of bytes of a packet buffer.
pub const PACKET_BUFFER_SIZE: usize = 2048;

/// A client asks to be registered; it reads at `host:port` and identifies
/// itself by name and password.
#[derive(Debug, Clone, PartialEq, Eq)]
pub struct ConnectionRequest {
    pub client_read_host: String,
    pub client_read_port: String,
    pub client_name: String,
    pub client_pass: String,
}

/// A text message for the client that registered as `receiver_id`.
#[derive(Debug, Clone, PartialEq, Eq)]
pub struct TextMessage {
    pub receiver_id: String,
    pub message: String,
}

/// A packet of the application protocol.
#[derive(Debug, Clone, PartialEq, Eq)]
pub enum AppPacket {
    ConnectionRequest(ConnectionRequest),
    ConnectionResponse,
    TextMessage(TextMessage),
    /// A packet whose kind is not one of the above; it holds the kind.
    NotInSchema(String),
}

/// The value of a [`ConnectionRequest`].
pub struct ConnectionRequestView {
    pub client_read_host: Seq<char>,
    pub client_read_port: Seq<char>,
    pub client_name: Seq<char>,
    pub client_pass: Seq<char>,
}

/// The value of a [`TextMessage`].
pub struct TextMessageView {
    pub receiver_id: Seq<char>,
    pub message: Seq<char>,
}

/// The value of an [`AppPacket`].
pub enum AppPacketView {
    ConnectionRequest(ConnectionRequestView),
    ConnectionResponse,
    TextMessage(TextMessageView),
    NotInSchema(Seq<char>),
}

impl View for ConnectionRequest {
    type V = ConnectionRequestView;

    open spec fn view(&self) -> ConnectionRequestView {
        ConnectionRequestView {
            client_read_host: self.client_read_host@,
            client_read_port: self.client_read_port@,
            client_name: self.client_name@,
            client_pass: self.client_pass@,
        }
    }
}

impl View for TextMessage {
    type V = TextMessageView;

    open spec fn view(&self) -> TextMessageView {
        TextMessageView { receiver_id: self.receiver_id@, message: self.message@ }
    }
}

impl View for AppPacket {
    type V = AppPacketView;

    open spec fn view(&self) -> AppPacketView {
        match self {
            AppPacket::ConnectionRequest(cr) => AppPacketView::ConnectionRequest(cr@),
            AppPacket::ConnectionResponse => AppPacketView::ConnectionResponse,
            AppPacket::TextMessage(tm) => AppPacketView::TextMessage(tm@),
            AppPacket::NotInSchema(kind) => AppPacketView::NotInSchema(kind@),
        }
    }
}

/// The kind text of a connection request.
pub open spec fn connection_request_kind() -> Seq<char> {
    "connectionRequest"@
}

/// The kind text of a connection response.
pub open spec fn connection_response_kind() -> Seq<char> {
    "connectionResponse"@
}

/// The kind text of a text message.
pub open spec fn text_message_kind() -> Seq<char> {
    "textMessage"@
}

/// The texts that stand for a packet on the wire: its kind, then its fields.
pub open spec fn packet_fields(p: AppPacketView) -> Seq<Seq<char>> {
    match p {
        AppPacketView::ConnectionRequest(cr) => seq![
            connection_request_kind(),
            cr.client_read_host,
            cr.client_read_port,
            cr.client_name,
            cr.client_pass,
        ],
        AppPacketView::ConnectionResponse => seq![connection_response_kind()],
        AppPacketView::TextMessage(tm) => seq![text_message_kind(), tm.receiver_id, tm.message],
        AppPacketView::NotInSchema(kind) => seq![kind],
    }
}

/// Field `i` of a list of texts; empty where the list does not reach it.
pub open spec fn field_at(fields: Seq<Seq<char>>, i: int) -> Seq<char> {
    if 0 <= i < fields.len() {
        fields[i]
    } else {
        Seq::empty()
    }
}

/// The packet that a list of texts stands for.
pub open spec fn packet_from_fields(fields: Seq<Seq<char>>) -> AppPacketView {
    let kind = field_at(fields, 0);
    if kind == connection_request_kind() {
        AppPacketView::ConnectionRequest(
            ConnectionRequestView {
                client_read_host: field_at(fields, 1),
                client_read_port: field_at(fields, 2),
                client_name: field_at(fields, 3),
                client_pass: field_at(fields, 4),
            },
        )
    } else if kind == connection_response_kind() {
        AppPacketView::ConnectionResponse
    } else if kind == text_message_kind() {
        AppPacketView::TextMessage(
            TextMessageView { receiver_id: field_at(fields, 1), message: field_at(fields, 2) },
        )
    } else {
        AppPacketView::NotInSchema(kind)
    }
}

/// A packet that its wire form stands for: every packet but one that
/// claims not to be in the schema while its kind is a known one.
pub open spec fn well_formed(p: AppPacketView) -> bool {
    match p {
        AppPacketView::NotInSchema(kind) => kind != connection_request_kind() && kind
            != connection_response_kind() && kind != text_message_kind(),
        _ => true,
    }
}

/// Every field of the packet is small enough for a Cap'n Proto text.
pub open spec fn encodable(p: AppPacketView) -> bool {
    texts_fit(utf8_texts(packet_fields(p)))
}

/// The packed Cap'n Proto form of a packet: a fresh message whose root
/// lists the packet's wire texts.
pub open spec fn packet_encoding(p: AppPacketView) -> Seq<u8> {
    packed_text_list(utf8_texts(packet_fields(p)))
}

/// The space into which packets are read: enough for any packed message
/// that fits a packet buffer.
pub const READ_SPACE: usize = 2097152;

/// A text takes at most four UTF-8 bytes per character.
pub proof fn lemma_utf8_len_bound(s: Seq<char>)
    ensures
        encode_utf8(s).len() <= 4 * s.len(),
    decreases s.len(),
{
    if s.len() > 0 {
        lemma_utf8_len_bound(s.drop_first());
    }
}

/// A packet whose fields each have fewer than 2^27 characters can be
/// encoded.
pub proof fn lemma_short_packet_encodable(p: AppPacketView)
    requires
        forall|i: int|
            0 <= i < packet_fields(p).len() ==> (#[trigger] packet_fields(p)[i]).len() < 0x800_0000,
    ensures
        encodable(p),
{
    let texts = utf8_texts(packet_fields(p));
    assert forall|i: int| 0 <= i < texts.len() implies #[trigger] texts[i].len() + 1
        < capnp_size_limit() by {
        lemma_utf8_len_bound(packet_fields(p)[i]);
    }
}

/// Law: a well-formed packet is what its wire texts stand for.
pub proof fn law_packet_fields_round_trip(p: AppPacketView)
    requires
        well_formed(p),
    ensures
        packet_from_fields(packet_fields(p)) == p,
{
    reveal_strlit("connectionRequest");
    reveal_strlit("connectionResponse");
    reveal_strlit("textMessage");
    assert(connection_request_kind().len() == 17);
    assert(connection_response_kind().len() == 18);
    assert(text_message_kind().len() == 11);
    match p {
        AppPacketView::ConnectionRequest(cr) => {
            assert(packet_from_fields(packet_fields(p)) =~= p);
        },
        AppPacketView::ConnectionResponse => {
            assert(connection_response_kind() != connection_request_kind());
        },
        AppPacketView::TextMessage(tm) => {
            assert(text_message_kind() != connection_request_kind());
            assert(text_message_kind() != connection_response_kind());
        },
        AppPacketView::NotInSchema(kind) => {},
    }
}

/// The texts that reading a packed message from `bytes` gives: `None` where
/// the message cannot be read, its root is no list of texts, or a text is
/// not valid UTF-8.
pub open spec fn decoded_fields(bytes: Seq<u8>) -> Option<Seq<Seq<char>>> {
    match packed_message_content(bytes, READ_SPACE as nat) {
        Some(Some(items)) => if forall|i: int|
            0 <= i < items.len() ==> (#[trigger] items[i]) is Some && valid_utf8(items[i]->Some_0) {
            Some(items.map_values(|item: Option<Seq<u8>>| decode_utf8(item->Some_0)))
        } else {
            None
        },
        _ => None,
    }
}

/// The packet that `bytes` hold, if they can be read.
pub open spec fn decoded_packet(bytes: Seq<u8>) -> Option<AppPacketView> {
    match decoded_fields(bytes) {
        Some(fields) => Some(packet_from_fields(fields)),
        None => None,
    }
}

/// `bytes` begin with the packed form of `p`, and that form fits a packet
/// buffer.
pub open spec fn encodes(bytes: Seq<u8>, p: AppPacketView) -> bool {
    &&& encodable(p)
    &&& packet_encoding(p).len() <= PACKET_BUFFER_SIZE
    &&& starts_with(bytes, packet_encoding(p))
}

/// Why a packet could not be read or written.
#[derive(Debug, Clone, Copy, PartialEq, Eq, Structural)]
pub enum PacketError {
    /// The bytes are no packed message whose root is a list of UTF-8 texts.
    Malformed,
    /// The packed message does not fit into the buffer.
    TooLarge,
}

/// The views of a list of strings.
pub open spec fn string_views(v: Seq<String>) -> Seq<Seq<char>> {
    v.map_values(|s: String| s@)
}

/// The kind text of a connection request.
fn connection_request_kind_text() -> (s: String)
    ensures
        s@ == connection_request_kind(),
{
    "connectionRequest".to_owned()
}

/// The kind text of a connection response.
fn connection_response_kind_text() -> (s: String)
    ensures
        s@ == connection_response_kind(),
{
    "connectionResponse".to_owned()
}

/// The kind text of a text message.
fn text_message_kind_text() -> (s: String)
    ensures
        s@ == text_message_kind(),
{
    "textMessage".to_owned()
}

/// The wire texts of a packet: its kind, then its fields.
pub fn packet_texts(p: &AppPacket) -> (texts: Vec<String>)
    ensures
        string_views(texts@) == packet_fields(p@),
{
    let mut texts: Vec<String> = Vec::new();
    match p {
        AppPacket::ConnectionRequest(cr) => {
            texts.push(connection_request_kind_text());
            texts.push(cr.client_read_host.clone());
            texts.push(cr.client_read_port.clone());
            texts.push(cr.client_name.clone());
            texts.push(cr.client_pass.clone());
        },
        AppPacket::ConnectionResponse => {
            texts.push(connection_response_kind_text());
        },
        AppPacket::TextMessage(tm) => {
            texts.push(text_message_kind_text());
            texts.push(tm.receiver_id.clone());
            texts.push(tm.message.clone());
        },
        AppPacket::NotInSchema(kind) => {
            texts.push(kind.clone());
        },
    }
    assert(string_views(texts@) =~= packet_fields(p@));
    texts
}

/// Field `i` of a list of texts; empty where the list does not reach it.
fn text_at(texts: &Vec<String>, i: usize) -> (s: String)
    ensures
        s@ == field_at(string_views(texts@), i as int),
{
    if i < texts.len() {
        texts[i].clone()
    } else {
        String::new()
    }
}

/// The packet that a list of texts stands for.
pub fn packet_from_texts(texts: &Vec<String>) -> (p: AppPacket)
    ensures
        p@ == packet_from_fields(string_views(texts@)),
{
    let kind = text_at(texts, 0);
    if kind == connection_request_kind_text() {
        AppPacket::ConnectionRequest(
            ConnectionRequest {
                client_read_host: text_at(texts, 1),
                client_read_port: text_at(texts, 2),
                client_name: text_at(texts, 3),
                client_pass: text_at(texts, 4),
            },
        )
    } else if kind == connection_response_kind_text() {
        AppPacket::ConnectionResponse
    } else if kind == text_message_kind_text() {
        AppPacket::TextMessage(
            TextMessage { receiver_id: text_at(texts, 1), message: text_at(texts, 2) },
        )
    } else {
        AppPacket::NotInSchema(kind)
    }
}

/// Whether every field of the packet is small enough for a Cap'n Proto
/// text.
pub fn packet_is_encodable(p: &AppPacket) -> (b: bool)
    ensures
        b == encodable(p@),
{
    let texts = packet_texts(p);
    let ghost utf8 = utf8_texts(packet_fields(p@));
    let mut i: usize = 0;
    while i < texts.len()
        invariant
            i <= texts@.len(),
            string_views(texts@) == packet_fields(p@),
            utf8 == utf8_texts(packet_fields(p@)),
            forall|j: int| 0 <= j < i ==> #[trigger] utf8[j].len() + 1 < capnp_size_limit(),
        decreases texts@.len() - i,
    {
        let n = texts[i].as_str().as_bytes().len();
        assert(packet_fields(p@)[i as int] == texts@[i as int]@);
        assert(utf8[i as int] == encode_utf8(texts@[i as int]@));
        if n >= 0x1fff_ffff {
            return false;
        }
        i = i + 1;
    }
    true
}

/// Encodes a packet as a packed Cap'n Proto message whose root lists the
/// packet's wire texts.
pub fn encode_packet(p: &AppPacket) -> (bytes: Vec<u8>)
    requires
        encodable(p@),
    ensures
        bytes@ == packet_encoding(p@),
        bytes@.len() <= PACKET_BUFFER_SIZE ==> forall|tail: Seq<u8>|
            encodes(#[trigger] (bytes@ + tail), p@),
{
    let texts = packet_texts(p);
    let mut message = new_message();
    assert(string_views(texts@) =~= texts@.map_values(|s: String| s@));
    let _ = set_root_texts(&mut message, &texts);
    let bytes = match write_packed_message(&message) {
        Ok(v) => v,
        Err(_) => Vec::new(),
    };
    assert forall|tail: Seq<u8>|
        bytes@.len() <= PACKET_BUFFER_SIZE implies encodes(#[trigger] (bytes@ + tail), p@) by {
        assert((bytes@ + tail).subrange(0, bytes@.len() as int) =~= bytes@);
    }
    bytes
}

/// Reading back the packed form of a message that lists the wire texts of
/// a well-formed packet gives that packet.
proof fn lemma_encoded_bytes_decode(bytes: Seq<u8>, p: AppPacketView, content: Seq<Option<Seq<u8>>>)
    requires
        well_formed(p),
        packed_message_content(bytes, READ_SPACE as nat) == Some(Some(content)),
        content == present_items(utf8_texts(packet_fields(p))),
    ensures
        decoded_packet(bytes) == Some(p),
{
    let fields = packet_fields(p);
    assert forall|i: int| 0 <= i < content.len() implies (#[trigger] content[i]) is Some
        && valid_utf8(content[i]->Some_0) by {
        assert(content[i] == Some(encode_utf8(fields[i])));
    }
    assert(content.map_values(|item: Option<Seq<u8>>| decode_utf8(item->Some_0)) =~= fields);
    law_packet_fields_round_trip(p);
}

/// Reads a packet from bytes that begin with its packed Cap'n Proto form.
pub fn decode_packet(bytes: &[u8]) -> (r: Result<AppPacket, PacketError>)
    ensures
        r is Ok <==> decoded_packet(bytes@) is Some,
        r matches Ok(p) ==> decoded_packet(bytes@) == Some(p@),
        r matches Err(e) ==> e == PacketError::Malformed,
        forall|p: AppPacketView|
            well_formed(p) && #[trigger] encodes(bytes@, p) ==> (r matches Ok(q) && q@ == p),
{
    let mut space: Vec<u8> = vec![0u8; READ_SPACE];
    assert(space@.len() == READ_SPACE);
    let read = read_packed_message(bytes, &mut space);
    assert forall|p: AppPacketView|
        well_formed(p) && #[trigger] encodes(bytes@, p) implies decoded_packet(bytes@) == Some(
        p,
    ) by {
        assert(packet_encoding(p) == packed_text_list(utf8_texts(packet_fields(p))));
        lemma_encoded_bytes_decode(
            bytes@,
            p,
            present_items(utf8_texts(packet_fields(p))),
        );
    }
    let message = match read {
        Ok(m) => m,
        Err(_) => {
            return Err(PacketError::Malformed);
        },
    };
    let list = match root_text_list(&message) {
        Ok(l) => l,
        Err(_) => {
            return Err(PacketError::Malformed);
        },
    };
    let n = text_list_len(&list);
    let ghost items = text_list_items(list);
    assert(packed_message_content(bytes@, READ_SPACE as nat) == Some(Some(items)));
    let mut fields: Vec<String> = Vec::new();
    let mut i: u32 = 0;
    while i < n
        invariant
            n == items.len(),
            items == text_list_items(list),
            packed_message_content(bytes@, READ_SPACE as nat) == Some(Some(items)),
            forall|p: AppPacketView|
                well_formed(p) && #[trigger] encodes(bytes@, p) ==> decoded_packet(bytes@) == Some(
                    p,
                ),
            i <= n,
            fields@.len() == i,
            forall|j: int|
                0 <= j < i ==> (#[trigger] items[j]) is Some && valid_utf8(items[j]->Some_0)
                    && fields@[j]@ == decode_utf8(items[j]->Some_0),
        decreases n - i,
    {
        let v = match text_list_item(&list, i) {
            Ok(v) => v,
            Err(_) => {
                return Err(PacketError::Malformed);
            },
        };
        let s = match string_from_utf8(v) {
            Ok(s) => s,
            Err(_) => {
                return Err(PacketError::Malformed);
            },
        };
        fields.push(s);
        i = i + 1;
    }
    assert(string_views(fields@) =~= items.map_values(
        |item: Option<Seq<u8>>| decode_utf8(item->Some_0),
    ));
    Ok(packet_from_texts(&fields))
}

/// Writes the packed form of a packet into the start of `buf`, leaving the
/// bytes after it as they were; where it does not fit, nothing is written.
pub fn write_packet(p: &AppPacket, buf: &mut [u8; PACKET_BUFFER_SIZE]) -> (r: Result<
    (),
    PacketError,
>)
    requires
        encodable(p@),
    ensures
        r is Ok <==> packet_encoding(p@).len() <= PACKET_BUFFER_SIZE,
        r matches Ok(()) ==> final(buf)@ == packet_encoding(p@) + old(buf)@.skip(
            packet_encoding(p@).len() as int,
        ),
        r matches Ok(()) ==> encodes(final(buf)@, p@),
        r matches Err(e) ==> e == PacketError::TooLarge && final(buf)@ == old(buf)@,
{
    let bytes = encode_packet(p);
    let n = bytes.len();
    if n > PACKET_BUFFER_SIZE {
        return Err(PacketError::TooLarge);
    }
    let ghost before = buf@;
    let mut i: usize = 0;
    while i < n
        invariant
            n == bytes@.len(),
            n <= PACKET_BUFFER_SIZE,
            i <= n,
            buf@.len() == PACKET_BUFFER_SIZE,
            before.len() == PACKET_BUFFER_SIZE,
            forall|j: int| 0 <= j < i ==> buf@[j] == bytes@[j],
            forall|j: int| i <= j < PACKET_BUFFER_SIZE ==> buf@[j] == before[j],
        decreases n - i,
    {
        buf[i] = bytes[i];
        i = i + 1;
    }
    assert(buf@ =~= bytes@ + before.skip(n as int));
    assert(buf@.subrange(0, n as int) =~= bytes@);
    Ok(())
}

} // verus!
