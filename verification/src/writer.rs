//! The client side: what a client sends to the server, and where.

use vstd::prelude::*;
use crate::packet::{
    connection_request_kind, law_packet_fields_round_trip, packet_fields, packet_from_fields,
    text_message_kind, encodable, encodes, packet_encoding, write_packet, AppPacket,
    AppPacketView, ConnectionRequest, ConnectionRequestView, PacketError, TextMessage,
    TextMessageView, PACKET_BUFFER_SIZE,
};

verus! {

/// A client's addresses and credentials, and the server it writes to.
pub struct PacketWriter {
    client_read_host: String,
    client_read_port: String,
    client_write_port: String,
    client_name: String,
    client_pass: String,
    dest_host: String,
    dest_port: String,
}

/// The value of a [`PacketWriter`].
pub struct PacketWriterView {
    pub client_read_host: Seq<char>,
    pub client_read_port: Seq<char>,
    pub client_write_port: Seq<char>,
    pub client_name: Seq<char>,
    pub client_pass: Seq<char>,
    pub dest_host: Seq<char>,
    pub dest_port: Seq<char>,
}

impl View for PacketWriter {
    type V = PacketWriterView;

    closed spec fn view(&self) -> PacketWriterView {
        PacketWriterView {
            client_read_host: self.client_read_host@,
            client_read_port: self.client_read_port@,
            client_write_port: self.client_write_port@,
            client_name: self.client_name@,
            client_pass: self.client_pass@,
            dest_host: self.dest_host@,
            dest_port: self.dest_port@,
        }
    }
}

/// `host:port`.
pub open spec fn host_port(host: Seq<char>, port: Seq<char>) -> Seq<char> {
    host + seq![':'] + port
}

/// Joins a host and a port into `host:port`.
fn join_host_port(host: &String, port: &String) -> (s: String)
    ensures
        s@ == host_port(host@, port@),
{
    let mut s = host.clone();
    proof {
        reveal_strlit(":");
    }
    s.append(":");
    s.append(port.as_str());
    s
}

/// The connection request that a client with these settings sends.
pub open spec fn connection_request_of(w: PacketWriterView) -> AppPacketView {
    AppPacketView::ConnectionRequest(
        ConnectionRequestView {
            client_read_host: w.client_read_host,
            client_read_port: w.client_read_port,
            client_name: w.client_name,
            client_pass: w.client_pass,
        },
    )
}

/// The text message that a client sends to `receiver_id`.
pub open spec fn text_message_of(receiver_id: Seq<char>, text: Seq<char>) -> AppPacketView {
    AppPacketView::TextMessage(TextMessageView { receiver_id, message: text })
}

/// Law: `host:port` is the host, a colon, then the whole port text: its
/// length is the sum of theirs plus one, it begins with the host, the colon
/// follows the host, and it ends with the port.
pub proof fn law_host_port_layout(host: Seq<char>, port: Seq<char>)
    ensures
        host_port(host, port).len() == host.len() + 1 + port.len(),
        host_port(host, port).subrange(0, host.len() as int) == host,
        host_port(host, port)[host.len() as int] == ':',
        host_port(host, port).subrange(host.len() as int + 1, host_port(host, port).len() as int) == port,
{
    let a = host_port(host, port);
    assert(a.subrange(0, host.len() as int) =~= host);
    assert(a.subrange(host.len() as int + 1, a.len() as int) =~= port);
}

/// Law: the connection request a client writes carries the client's read
/// host, read port, name and password, each in its own field; on the wire
/// they follow the request's kind in that order, and reading the wire texts
/// back gives each of them again.
pub proof fn law_connection_request_carries_client(w: PacketWriterView)
    ensures
        connection_request_of(w) matches AppPacketView::ConnectionRequest(cr) && cr.client_read_host
            == w.client_read_host && cr.client_read_port == w.client_read_port && cr.client_name
            == w.client_name && cr.client_pass == w.client_pass,
        packet_fields(connection_request_of(w)) == seq![
            connection_request_kind(),
            w.client_read_host,
            w.client_read_port,
            w.client_name,
            w.client_pass,
        ],
        packet_from_fields(packet_fields(connection_request_of(w))) matches
            AppPacketView::ConnectionRequest(cr) && cr.client_name == w.client_name
            && cr.client_pass == w.client_pass && cr.client_read_host == w.client_read_host
            && cr.client_read_port == w.client_read_port,
{
    law_packet_fields_round_trip(connection_request_of(w));
}

/// Law: the text message a client writes for `receiver_id` carries exactly
/// that receiver and exactly `text` as its message; on the wire they follow
/// the message's kind in that order, and reading the wire texts back gives
/// each of them again.
pub proof fn law_text_message_carries_receiver_and_text(receiver_id: Seq<char>, text: Seq<char>)
    ensures
        text_message_of(receiver_id, text) matches AppPacketView::TextMessage(tm) && tm.receiver_id
            == receiver_id && tm.message == text,
        packet_fields(text_message_of(receiver_id, text)) == seq![
            text_message_kind(),
            receiver_id,
            text,
        ],
        packet_from_fields(packet_fields(text_message_of(receiver_id, text))) matches
            AppPacketView::TextMessage(tm) && tm.receiver_id == receiver_id && tm.message == text,
{
    law_packet_fields_round_trip(text_message_of(receiver_id, text));
}

impl PacketWriter {
    /// A client that reads at `client_read_host:client_read_port`, writes
    /// from `client_read_host:client_write_port`, identifies itself as
    /// `client_name` with `client_pass`, and writes to
    /// `dest_host:dest_port`.
    pub fn with_destination(
        client_read_host: &str,
        client_read_port: &str,
        client_write_port: &str,
        client_name: &str,
        client_pass: &str,
        dest_host: &str,
        dest_port: &str,
    ) -> (w: PacketWriter)
        ensures
            w@ == (PacketWriterView {
                client_read_host: client_read_host@,
                client_read_port: client_read_port@,
                client_write_port: client_write_port@,
                client_name: client_name@,
                client_pass: client_pass@,
                dest_host: dest_host@,
                dest_port: dest_port@,
            }),
    {
        PacketWriter {
            client_read_host: client_read_host.to_owned(),
            client_read_port: client_read_port.to_owned(),
            client_write_port: client_write_port.to_owned(),
            client_name: client_name.to_owned(),
            client_pass: client_pass.to_owned(),
            dest_host: dest_host.to_owned(),
            dest_port: dest_port.to_owned(),
        }
    }

    /// The address the client writes from: `client_read_host:client_write_port`.
    pub fn bind_address(&self) -> (a: String)
        ensures
            a@ == host_port(self@.client_read_host, self@.client_write_port),
    {
        join_host_port(&self.client_read_host, &self.client_write_port)
    }

    /// The address the client writes to: `dest_host:dest_port`.
    pub fn destination_address(&self) -> (a: String)
        ensures
            a@ == host_port(self@.dest_host, self@.dest_port),
    {
        join_host_port(&self.dest_host, &self.dest_port)
    }

    /// The connection request this client sends.
    pub fn connection_request(&self) -> (p: AppPacket)
        ensures
            p@ == connection_request_of(self@),
    {
        AppPacket::ConnectionRequest(
            ConnectionRequest {
                client_read_host: self.client_read_host.clone(),
                client_read_port: self.client_read_port.clone(),
                client_name: self.client_name.clone(),
                client_pass: self.client_pass.clone(),
            },
        )
    }

    /// Writes this client's connection request into the start of `buf`.
    pub fn write_connection_request(&self, buf: &mut [u8; PACKET_BUFFER_SIZE]) -> (r: Result<
        (),
        PacketError,
    >)
        requires
            encodable(connection_request_of(self@)),
        ensures
            r is Ok <==> packet_encoding(connection_request_of(self@)).len() <= PACKET_BUFFER_SIZE,
            r matches Ok(()) ==> final(buf)@ == packet_encoding(connection_request_of(self@))
                + old(buf)@.skip(packet_encoding(connection_request_of(self@)).len() as int),
            r matches Ok(()) ==> encodes(final(buf)@, connection_request_of(self@)),
            r matches Err(e) ==> e == PacketError::TooLarge && final(buf)@ == old(buf)@,
    {
        let packet = self.connection_request();
        write_packet(&packet, buf)
    }

    /// The text message this client sends to `receiver_id`.
    pub fn text_message(&self, receiver_id: &str, text_message: &str) -> (p: AppPacket)
        ensures
            p@ == text_message_of(receiver_id@, text_message@),
    {
        AppPacket::TextMessage(
            TextMessage { receiver_id: receiver_id.to_owned(), message: text_message.to_owned() },
        )
    }

    /// Writes a text message for `receiver_id` into the start of `buf`.
    pub fn write_text_message(
        &self,
        receiver_id: &str,
        text_message: &str,
        buf: &mut [u8; PACKET_BUFFER_SIZE],
    ) -> (r: Result<(), PacketError>)
        requires
            encodable(text_message_of(receiver_id@, text_message@)),
        ensures
            r is Ok <==> packet_encoding(text_message_of(receiver_id@, text_message@)).len()
                <= PACKET_BUFFER_SIZE,
            r matches Ok(()) ==> final(buf)@ == packet_encoding(
                text_message_of(receiver_id@, text_message@),
            ) + old(buf)@.skip(
                packet_encoding(text_message_of(receiver_id@, text_message@)).len() as int,
            ),
            r matches Ok(()) ==> encodes(final(buf)@, text_message_of(receiver_id@, text_message@)),
            r matches Err(e) ==> e == PacketError::TooLarge && final(buf)@ == old(buf)@,
    {
        let packet = self.text_message(receiver_id, text_message);
        write_packet(&packet, buf)
    }
}

} // verus!
