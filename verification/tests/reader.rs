use std::sync::mpsc;
use std::sync::mpsc::{Receiver, Sender};

use packetcomm::channel::{ChannelError, CommandSender};
use packetcomm::connstate::{ClientRegistry, SocketReadAddress};
use packetcomm::network::{keep_receiving, receive_datagram, PacketReader, ReceiveStep};
use packetcomm::packet::{write_packet, AppPacket, PacketError, PACKET_BUFFER_SIZE};
use packetcomm::reader::{
    action_for_buffer, check_app_commands, check_comm_commands, command_for_request, run_comm_command,
    send_stop_command, show_app_command, stop_reader, AddClientCommand, AppCommand, CommCommand, ReaderAction,
    PacketReaderServer, ReadOutcome, ReaderError, StopReaderCommand, TextMessageCommand,
};
use packetcomm::writer::PacketWriter;

struct Harness {
    reader: PacketReaderServer,
    command_rx: Receiver<AddClientCommand>,
    app_rx: Receiver<TextMessageCommand>,
    reader_tx: Sender<StopReaderCommand>,
}

fn harness() -> Harness {
    let (tx, command_rx) = mpsc::channel();
    let (app_tx, app_rx) = mpsc::channel();
    let (reader_tx, reader_rx) = mpsc::channel();
    let reader = PacketReaderServer::new(tx, app_tx, reader_rx);
    Harness { reader, command_rx, app_rx, reader_tx }
}

fn send_request(h: &mut Harness, writer: &PacketWriter) -> Result<ReadOutcome, ReaderError> {
    let mut buf = [0u8; PACKET_BUFFER_SIZE];
    writer.write_connection_request(&mut buf).unwrap();
    h.reader.read_command_packet(&buf)
}

#[test]
fn basic_connection_test() {
    let mut h = harness();
    assert!(h.reader.is_active());

    let packet_writer = PacketWriter::with_destination(
        "127.0.0.1", "34527", "34528", "cname", "pass", "127.0.0.1", "34256");
    assert_eq!(send_request(&mut h, &packet_writer), Ok(ReadOutcome::ClientAddQueued));

    let received = h.command_rx.recv().unwrap();
    let mut client_map = ClientRegistry::new();
    received.execute(&mut client_map);

    let client_address = SocketReadAddress {
        read_host: String::from("127.0.0.1"),
        read_port: 34527,
        reader_id: String::from("cnamepass"),
    };
    assert_eq!(client_map.len(), 1);
    assert_eq!(client_map.get("127.0.0.1:34527").unwrap(), &client_address);

    assert!(stop_reader(h.reader_tx.clone()).0);
    assert!(h.reader.check_thread_messages());
    assert!(!h.reader.is_active());
}

#[test]
fn two_connection_test() {
    let mut h = harness();
    let mut client_map = ClientRegistry::new();

    let packet_writer = PacketWriter::with_destination(
        "127.0.0.1", "34529", "34530", "cname", "pass", "127.0.0.1", "34255");
    assert_eq!(send_request(&mut h, &packet_writer), Ok(ReadOutcome::ClientAddQueued));
    let received = h.command_rx.recv().unwrap();
    received.execute(&mut client_map);

    let packet_writer_2 = PacketWriter::with_destination(
        "127.0.0.1", "34533", "34534", "cname2", "pass2", "127.0.0.1", "34255");
    assert_eq!(send_request(&mut h, &packet_writer_2), Ok(ReadOutcome::ClientAddQueued));
    let received2 = h.command_rx.recv().unwrap();
    received2.execute(&mut client_map);

    let client_address = SocketReadAddress {
        read_host: String::from("127.0.0.1"),
        read_port: 34529,
        reader_id: String::from("cnamepass"),
    };
    let client_address2 = SocketReadAddress {
        read_host: String::from("127.0.0.1"),
        read_port: 34533,
        reader_id: String::from("cname2pass2"),
    };
    assert_eq!(client_map.len(), 2);
    assert_eq!(client_map.get("127.0.0.1:34529").unwrap(), &client_address);
    assert_eq!(client_map.get("127.0.0.1:34533").unwrap(), &client_address2);
}

#[test]
fn hashed_id_joins_name_and_password() {
    assert_eq!(PacketReaderServer::hashed_id("cname", "pass"), "cnamepass");
    assert_eq!(PacketReaderServer::hashed_id("", "pass2"), "pass2");
    assert_eq!(PacketReaderServer::hashed_id("cname2", ""), "cname2");
}

#[test]
fn comm_commands_register_clients() {
    let mut h = harness();
    let mut registry = ClientRegistry::new();
    assert_eq!(
        check_comm_commands(&h.command_rx, &mut registry).map(|_| ()),
        Err(ChannelError::Empty)
    );
    let writer = PacketWriter::with_destination("h", "+0080", "1", "n", "p", "d", "2");
    assert_eq!(send_request(&mut h, &writer), Ok(ReadOutcome::ClientAddQueued));
    assert!(check_comm_commands(&h.command_rx, &mut registry).is_ok());
    // The port text is parsed, and the key holds its decimal form.
    assert_eq!(
        registry.get("h:80"),
        Some(&SocketReadAddress { read_host: "h".to_string(), read_port: 80, reader_id: "np".to_string() })
    );
    drop(h.reader);
    assert_eq!(
        check_comm_commands(&h.command_rx, &mut registry).map(|_| ()),
        Err(ChannelError::Disconnected)
    );
}

#[test]
fn text_messages_go_to_the_application_channel() {
    let mut h = harness();
    let writer = PacketWriter::with_destination("h", "1", "2", "n", "p", "d", "3");
    let mut buf = [0u8; PACKET_BUFFER_SIZE];
    writer.write_text_message("np", "hello there", &mut buf).unwrap();
    assert_eq!(h.reader.read_command_packet(&buf), Ok(ReadOutcome::TextMessageQueued));
    let (_, shown) = check_app_commands(&h.app_rx).unwrap();
    assert_eq!(shown, "hello there");
    assert!(matches!(check_app_commands(&h.app_rx), Err(ChannelError::Empty)));
}

#[test]
fn a_request_with_an_unparsable_port_is_forwarded() {
    let mut h = harness();
    let writer = PacketWriter::with_destination("h", "port", "2", "n", "p", "d", "3");
    assert_eq!(send_request(&mut h, &writer), Ok(ReadOutcome::ClientAddQueued));
    let cmd = h.command_rx.try_recv().unwrap();
    assert!(h.command_rx.try_recv().is_err());
    let mut registry = ClientRegistry::new();
    cmd.execute(&mut registry);
    assert_eq!(registry.len(), 0);
    let same = command_for_request(&match writer.connection_request() {
        AppPacket::ConnectionRequest(cr) => cr,
        _ => unreachable!(),
    });
    same.execute(&mut registry);
    assert_eq!(registry.len(), 0);
}

#[test]
fn other_packets_and_garbage() {
    let mut h = harness();
    let mut buf = [0u8; PACKET_BUFFER_SIZE];
    write_packet(&AppPacket::ConnectionResponse, &mut buf).unwrap();
    assert_eq!(h.reader.read_command_packet(&buf), Ok(ReadOutcome::ConnectionResponse));
    write_packet(&AppPacket::NotInSchema("ping".to_string()), &mut buf).unwrap();
    assert_eq!(h.reader.read_command_packet(&buf), Ok(ReadOutcome::NotInSchema));
    let garbage = [0xffu8; PACKET_BUFFER_SIZE];
    assert_eq!(
        h.reader.read_command_packet(&garbage),
        Err(ReaderError::Packet(PacketError::Malformed))
    );
    assert!(h.reader.is_active());
}

#[test]
fn closed_channel_is_reported() {
    let mut h = harness();
    let writer = PacketWriter::with_destination("h", "1", "2", "n", "p", "d", "3");
    drop(h.command_rx);
    let mut buf = [0u8; PACKET_BUFFER_SIZE];
    writer.write_connection_request(&mut buf).unwrap();
    assert_eq!(h.reader.read_command_packet(&buf), Err(ReaderError::ChannelClosed));
}

#[test]
fn stop_makes_the_reader_inactive() {
    let mut h = harness();
    assert!(!h.reader.check_thread_messages());
    assert!(h.reader.is_active());
    h.reader.stop();
    assert!(!h.reader.is_active());
    h.reader.stop();
    assert!(!h.reader.is_active());
}

#[test]
fn a_request_sends_one_command_and_nothing_else() {
    let mut h = harness();
    let writer = PacketWriter::with_destination("127.0.0.1", "34527", "34528", "cname", "pass", "d", "1");
    assert_eq!(send_request(&mut h, &writer), Ok(ReadOutcome::ClientAddQueued));
    let cmd = h.command_rx.try_recv().unwrap();
    assert!(h.command_rx.try_recv().is_err());
    assert!(h.app_rx.try_recv().is_err());
    let mut registry = ClientRegistry::new();
    cmd.execute(&mut registry);
    assert_eq!(registry.len(), 1);
    assert_eq!(
        registry.get("127.0.0.1:34527"),
        Some(&SocketReadAddress {
            read_host: "127.0.0.1".to_string(),
            read_port: 34527,
            reader_id: "cnamepass".to_string()
        })
    );
    assert!(h.reader.is_active());
}

#[test]
fn a_stop_command_stops_the_reader_once() {
    let mut h = harness();
    let mut sender = CommandSender::new(h.reader_tx.clone());
    assert!(send_stop_command(&mut sender));
    assert!(h.reader.check_thread_messages());
    assert!(!h.reader.is_active());
    assert!(!h.reader.check_thread_messages());
    assert!(!h.reader.is_active());
}

#[test]
fn stop_reader_reports_a_closed_channel() {
    let h = harness();
    let mut sender = CommandSender::new(h.reader_tx.clone());
    let reader_tx = h.reader_tx;
    drop(h.reader);
    assert!(!send_stop_command(&mut sender));
    assert!(!stop_reader(reader_tx).0);
}

#[test]
fn stop_reader_drops_the_sender() {
    let (tx, rx) = mpsc::channel::<StopReaderCommand>();
    assert!(stop_reader(tx).0);
    assert!(rx.try_recv().is_ok());
    assert!(matches!(rx.try_recv(), Err(mpsc::TryRecvError::Disconnected)));
}

#[test]
fn the_reader_stays_active_until_stopped() {
    let mut h = harness();
    let writer = PacketWriter::with_destination("h", "1", "2", "n", "p", "d", "3");
    assert_eq!(send_request(&mut h, &writer), Ok(ReadOutcome::ClientAddQueued));
    assert!(!h.reader.check_thread_messages());
    assert!(h.reader.is_active());
    assert!(stop_reader(h.reader_tx.clone()).0);
    assert!(h.reader.check_thread_messages());
    assert!(!h.reader.is_active());
    assert_eq!(send_request(&mut h, &writer), Ok(ReadOutcome::ClientAddQueued));
    assert!(!h.reader.is_active());
}

#[test]
fn a_closed_application_channel_is_reported() {
    let mut h = harness();
    let writer = PacketWriter::with_destination("h", "1", "2", "n", "p", "d", "3");
    drop(h.app_rx);
    let mut buf = [0u8; PACKET_BUFFER_SIZE];
    writer.write_text_message("np", "hi", &mut buf).unwrap();
    assert_eq!(h.reader.read_command_packet(&buf), Err(ReaderError::ChannelClosed));
    assert!(h.command_rx.try_recv().is_err());
}

#[test]
fn received_commands_are_run_as_taken() {
    let writer = PacketWriter::with_destination("h", "7", "8", "n", "p", "d", "9");
    let mut buf = [0u8; PACKET_BUFFER_SIZE];
    writer.write_connection_request(&mut buf).unwrap();
    let cmd = match action_for_buffer(&buf) {
        Ok(ReaderAction::AddClient(cmd)) => cmd,
        other => panic!("unexpected {:?}", other),
    };
    let mut registry = ClientRegistry::new();
    assert!(run_comm_command(Ok(cmd), &mut registry).is_ok());
    assert_eq!(registry.get("h:7").map(|a| a.read_port), Some(7));
    assert!(matches!(
        run_comm_command::<AddClientCommand>(Err(ChannelError::Empty), &mut registry),
        Err(ChannelError::Empty)
    ));
    assert_eq!(registry.len(), 1);

    let text = TextMessageCommand::new("np".to_string(), "hi".to_string());
    let (_, shown) = show_app_command(Ok(text)).unwrap();
    assert_eq!(shown, "hi");
    assert!(matches!(
        show_app_command::<TextMessageCommand>(Err(ChannelError::Disconnected)),
        Err(ChannelError::Disconnected)
    ));
}

#[test]
fn writer_addresses() {
    let w = PacketWriter::with_destination("10.0.0.1", "5000", "5001", "n", "p", "10.0.0.2", "6000");
    assert_eq!(w.bind_address(), "10.0.0.1:5001");
    assert_eq!(w.destination_address(), "10.0.0.2:6000");
}

#[test]
fn actions_carry_the_packet_contents() {
    let writer = PacketWriter::with_destination("10.1.1.1", "4000", "4001", "ann", "secret", "d", "1");
    let mut buf = [0u8; PACKET_BUFFER_SIZE];
    writer.write_connection_request(&mut buf).unwrap();
    let mut registry = ClientRegistry::new();
    match action_for_buffer(&buf) {
        Ok(ReaderAction::AddClient(cmd)) => cmd.execute(&mut registry),
        other => panic!("unexpected {:?}", other),
    }
    assert_eq!(
        registry.get("10.1.1.1:4000"),
        Some(&SocketReadAddress {
            read_host: "10.1.1.1".to_string(),
            read_port: 4000,
            reader_id: "annsecret".to_string()
        })
    );

    writer.write_text_message("annsecret", "hi ann", &mut buf).unwrap();
    match action_for_buffer(&buf) {
        Ok(ReaderAction::ShowText(cmd)) => assert_eq!(cmd.execute(), "hi ann"),
        other => panic!("unexpected {:?}", other),
    }
    assert!(matches!(action_for_buffer(&[]), Err(ReaderError::Packet(PacketError::Malformed))));
}

#[test]
fn the_receiving_loop_reads_datagrams_long_enough() {
    let mut h = harness();
    let writer = PacketWriter::with_destination("h", "1", "2", "n", "p", "d", "3");
    let mut buf = [0u8; PACKET_BUFFER_SIZE];
    writer.write_connection_request(&mut buf).unwrap();
    assert!(matches!(receive_datagram(&mut h.reader, &buf, 3), ReceiveStep::Discarded));
    assert!(h.command_rx.try_recv().is_err());
    assert!(matches!(
        receive_datagram(&mut h.reader, &buf, 4),
        ReceiveStep::Read(Ok(ReadOutcome::ClientAddQueued))
    ));
    assert!(h.command_rx.try_recv().is_ok());
}

#[test]
fn the_receiving_loop_runs_until_the_reader_is_stopped() {
    let mut h = harness();
    let first = PacketWriter::with_destination("127.0.0.1", "34529", "34530", "cname", "pass", "d", "1");
    let second = PacketWriter::with_destination("127.0.0.1", "34533", "34534", "cname2", "pass2", "d", "1");
    let mut buf = [0u8; PACKET_BUFFER_SIZE];
    first.write_connection_request(&mut buf).unwrap();
    let step = receive_datagram(&mut h.reader, &buf, PACKET_BUFFER_SIZE);
    assert!(keep_receiving(&mut h.reader, &step));
    second.write_connection_request(&mut buf).unwrap();
    let step = receive_datagram(&mut h.reader, &buf, PACKET_BUFFER_SIZE);
    assert!(keep_receiving(&mut h.reader, &step));
    assert!(keep_receiving(&mut h.reader, &ReceiveStep::Waited));
    assert!(stop_reader(h.reader_tx.clone()).0);
    assert!(!keep_receiving(&mut h.reader, &ReceiveStep::Waited));
    let mut registry = ClientRegistry::new();
    h.command_rx.try_recv().unwrap().execute(&mut registry);
    h.command_rx.try_recv().unwrap().execute(&mut registry);
    assert_eq!(registry.len(), 2);
}

#[test]
fn a_short_datagram_ends_the_receiving_loop() {
    let mut h = harness();
    let buf = [0u8; PACKET_BUFFER_SIZE];
    let step = receive_datagram(&mut h.reader, &buf, 2);
    assert!(matches!(step, ReceiveStep::Discarded));
    assert!(!keep_receiving(&mut h.reader, &step));
    assert!(h.reader.is_active());
}
