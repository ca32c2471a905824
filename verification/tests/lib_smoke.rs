use packetcomm::network::{classify_datagram, DatagramAction, MIN_DATAGRAM_LEN};

#[test]
fn it_works() {}

#[test]
fn short_datagrams_are_discarded() {
    assert_eq!(MIN_DATAGRAM_LEN, 4);
    assert_eq!(classify_datagram(0), DatagramAction::Discard);
    assert_eq!(classify_datagram(3), DatagramAction::Discard);
    assert_eq!(classify_datagram(4), DatagramAction::Read);
    assert_eq!(classify_datagram(2048), DatagramAction::Read);
}
