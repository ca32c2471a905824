//! The packet reader's interface, and the pieces of the UDP plumbing that
//! decide rather than move bytes.

use vstd::prelude::*;
use crate::packet::{
    encodes, lemma_short_packet_encodable, packet_encoding, write_packet, AppPacket, AppPacketView,
    ConnectionRequest, ConnectionRequestView, PacketError, PACKET_BUFFER_SIZE,
};
use crate::reader::{ReadOutcome, ReaderError};

verus! {

/// Something that interprets the packets that arrive on a socket.
pub trait PacketReader: Sized {
    /// Whether the reader still takes packets.
    spec fn active(&self) -> bool;

    /// Whether reading the packet held at the start of `buf` may turn this
    /// reader into `after` and report `r`.
    spec fn reads(&self, buf: Seq<u8>, after: Self, r: Result<ReadOutcome, ReaderError>) -> bool;

    /// Whether checking for a command sent to this reader may turn it into
    /// `after`, `ran` telling whether a command was carried out.
    spec fn checks_messages(&self, after: Self, ran: bool) -> bool;

    /// Interprets one packet held at the start of `buf`.
    fn read_command_packet(&mut self, buf: &[u8; PACKET_BUFFER_SIZE]) -> (r: Result<
        ReadOutcome,
        ReaderError,
    >)
        ensures
            old(self).reads(buf@, *final(self), r),
            final(self).active() == old(self).active(),
    ;

    /// Whether the reader still takes packets.
    fn is_active(&self) -> (b: bool)
        ensures
            b == self.active(),
    ;

    /// Carries out one command sent to the reader, if one is waiting, and
    /// reports whether one was; only a command stops the reader.
    fn check_thread_messages(&mut self) -> (ran: bool)
        ensures
            old(self).checks_messages(*final(self), ran),
            ran ==> !final(self).active(),
            !ran ==> final(self).active() == old(self).active(),
    ;

    /// Stops the reader.
    fn stop(&mut self)
        ensures
            !final(self).active(),
    ;
}

/// The fewest bytes that a datagram must have to be read as a packet.
pub const MIN_DATAGRAM_LEN: usize = 4;

/// What the receiving loop does with a datagram of a given size.
#[derive(Debug, Clone, Copy, PartialEq, Eq, Structural)]
pub enum DatagramAction {
    /// Too short to hold a packet: report it and stop.
    Discard,
    /// Hand the buffer to the packet reader.
    Read,
}

/// Decides what the receiving loop does with a datagram of
/// `number_of_bytes` bytes.
pub fn classify_datagram(number_of_bytes: usize) -> (a: DatagramAction)
    ensures
        a == (if number_of_bytes < MIN_DATAGRAM_LEN {
            DatagramAction::Discard
        } else {
            DatagramAction::Read
        }),
{
    if number_of_bytes < MIN_DATAGRAM_LEN {
        DatagramAction::Discard
    } else {
        DatagramAction::Read
    }
}

/// What one turn of the receiving loop did.
#[derive(Debug)]
pub enum ReceiveStep {
    /// A datagram too short to hold a packet arrived and was left alone.
    Discarded,
    /// A datagram was handed to the packet reader, which gave this.
    Read(Result<ReadOutcome, ReaderError>),
    /// No datagram arrived in time.
    Waited,
}

/// A datagram of `number_of_bytes` bytes has arrived in `buf`: hands the
/// buffer to `reader`, unless the datagram is too short to hold a packet.
pub fn receive_datagram<R: PacketReader>(
    reader: &mut R,
    buf: &[u8; PACKET_BUFFER_SIZE],
    number_of_bytes: usize,
) -> (step: ReceiveStep)
    ensures
        step is Discarded <==> number_of_bytes < MIN_DATAGRAM_LEN,
        step is Discarded ==> *final(reader) == *old(reader),
        step matches ReceiveStep::Read(r) ==> old(reader).reads(buf@, *final(reader), r),
        step !is Waited,
        final(reader).active() == old(reader).active(),
{
    match classify_datagram(number_of_bytes) {
        DatagramAction::Discard => ReceiveStep::Discarded,
        DatagramAction::Read => ReceiveStep::Read(reader.read_command_packet(buf)),
    }
}

/// Ends a turn of the receiving loop: carries out a command sent to
/// `reader`, if one is waiting, and decides whether the loop goes on. It
/// goes on while the reader is active, except after a datagram too short
/// to hold a packet.
pub fn keep_receiving<R: PacketReader>(reader: &mut R, step: &ReceiveStep) -> (go: bool)
    ensures
        exists|ran: bool| old(reader).checks_messages(*final(reader), ran),
        go == (step !is Discarded && final(reader).active()),
{
    let ran = reader.check_thread_messages();
    assert(old(reader).checks_messages(*reader, ran));
    match step {
        ReceiveStep::Discarded => false,
        _ => reader.is_active(),
    }
}

/// The connection request that [`write_packet_to_buffer`] writes.
pub open spec fn sample_connection_request() -> AppPacketView {
    AppPacketView::ConnectionRequest(
        ConnectionRequestView {
            client_read_host: "testhost22"@,
            client_read_port: "1234"@,
            client_name: "cname"@,
            client_pass: "cpass"@,
        },
    )
}

/// Writes a connection request from `testhost22`, port `1234`, name
/// `cname`, password `cpass` into the start of `buf`.
pub fn write_packet_to_buffer(buf: &mut [u8; PACKET_BUFFER_SIZE]) -> (r: Result<(), PacketError>)
    ensures
        r is Ok <==> packet_encoding(sample_connection_request()).len() <= PACKET_BUFFER_SIZE,
        r matches Ok(()) ==> final(buf)@ == packet_encoding(sample_connection_request()) + old(
            buf,
        )@.skip(packet_encoding(sample_connection_request()).len() as int),
        r matches Ok(()) ==> encodes(final(buf)@, sample_connection_request()),
        r matches Err(e) ==> e == PacketError::TooLarge && final(buf)@ == old(buf)@,
{
    let packet = AppPacket::ConnectionRequest(
        ConnectionRequest {
            client_read_host: "testhost22".to_owned(),
            client_read_port: "1234".to_owned(),
            client_name: "cname".to_owned(),
            client_pass: "cpass".to_owned(),
        },
    );
    proof {
        reveal_strlit("testhost22");
        reveal_strlit("1234");
        reveal_strlit("cname");
        reveal_strlit("cpass");
        reveal_strlit("connectionRequest");
        lemma_short_packet_encodable(packet@);
    }
    write_packet(&packet, buf)
}

} // verus!
