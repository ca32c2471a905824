use packetcomm::network::write_packet_to_buffer;
use packetcomm::packet::{
    decode_packet, encode_packet, packet_is_encodable, write_packet, AppPacket, ConnectionRequest,
    PacketError, TextMessage, PACKET_BUFFER_SIZE,
};

fn request(host: &str, port: &str, name: &str, pass: &str) -> AppPacket {
    AppPacket::ConnectionRequest(ConnectionRequest {
        client_read_host: host.to_string(),
        client_read_port: port.to_string(),
        client_name: name.to_string(),
        client_pass: pass.to_string(),
    })
}

fn text(receiver: &str, message: &str) -> AppPacket {
    AppPacket::TextMessage(TextMessage {
        receiver_id: receiver.to_string(),
        message: message.to_string(),
    })
}

#[test]
fn packets_read_back_as_written() {
    let packets = vec![
        request("127.0.0.1", "34527", "cname", "pass"),
        request("", "", "", ""),
        AppPacket::ConnectionResponse,
        text("cnamepass", "hello, world"),
        text("r", "ünïcödé ✓"),
        AppPacket::NotInSchema("somethingElse".to_string()),
    ];
    for p in packets {
        assert!(packet_is_encodable(&p));
        let bytes = encode_packet(&p);
        assert_eq!(decode_packet(&bytes), Ok(p.clone()));
        let mut padded = bytes.clone();
        padded.extend_from_slice(&[0u8; 64]);
        assert_eq!(decode_packet(&padded), Ok(p));
    }
}

#[test]
fn unknown_kind_claiming_a_known_one_reads_as_that_kind() {
    let bytes = encode_packet(&AppPacket::NotInSchema("textMessage".to_string()));
    assert_eq!(decode_packet(&bytes), Ok(text("", "")));
}

#[test]
fn unreadable_bytes_are_malformed() {
    assert_eq!(decode_packet(&[]), Err(PacketError::Malformed));
    assert_eq!(decode_packet(&[0xff, 0x01]), Err(PacketError::Malformed));
}

#[test]
fn write_packet_fills_the_start_of_the_buffer() {
    let p = text("someone", "a message");
    let encoded = encode_packet(&p);
    let mut buf = [7u8; PACKET_BUFFER_SIZE];
    assert_eq!(write_packet(&p, &mut buf), Ok(()));
    assert_eq!(&buf[..encoded.len()], &encoded[..]);
    assert!(buf[encoded.len()..].iter().all(|b| *b == 7));
    assert_eq!(decode_packet(&buf), Ok(p));
}

#[test]
fn packet_too_large_for_the_buffer_is_refused() {
    // Random-looking bytes pack poorly, so this message does not fit.
    let long: String = (0..4000).map(|i| char::from(b'!' + ((i * 37) % 90) as u8)).collect();
    let p = text("someone", &long);
    let mut buf = [3u8; PACKET_BUFFER_SIZE];
    assert_eq!(write_packet(&p, &mut buf), Err(PacketError::TooLarge));
    assert!(buf.iter().all(|b| *b == 3));
}

#[test]
fn write_packet_to_buffer_writes_the_sample_request() {
    let mut buf = [0u8; PACKET_BUFFER_SIZE];
    assert_eq!(write_packet_to_buffer(&mut buf), Ok(()));
    assert_eq!(decode_packet(&buf), Ok(request("testhost22", "1234", "cname", "cpass")));
}
