//! The server's packet reader and the commands it hands to other threads.
//!
//! The reader turns each packet into a command: a connection request into a
//! command that registers the client (sent on the communication channel), a
//! text message into a command that shows the text (sent on the application
//! channel). Commands sent to the reader itself control it.

use vstd::prelude::*;
use std::sync::mpsc::{Receiver, Sender};
use crate::channel::{channel_try_recv, ChannelError, CommandReceiver, CommandSender};
use crate::connstate::{
    registry_key, ClientRegistry, ClientRegistryKeeper, RegistryMap, SocketReadAddress,
    SocketReadAddressView,
};
use crate::decimal::{decimal, law_parse_decimal_round_trip, parse_u32, parse_u32_text};
use crate::network::PacketReader;
use crate::packet::{
    decode_packet, decoded_packet, encodes, well_formed, AppPacket, AppPacketView, ConnectionRequest,
    ConnectionRequestView, PacketError, TextMessageView, PACKET_BUFFER_SIZE,
};

verus! {

/// Communication related commands: connection, disconnection.
pub trait CommCommand {
    /// The registry that carrying out the command leaves behind `before`.
    spec fn registry_after(&self, before: RegistryMap) -> RegistryMap;

    /// Carries out the command on the server's registry of clients.
    fn execute(&self, comm_context: &mut ClientRegistry)
        ensures
            final(comm_context)@ == self.registry_after(old(comm_context)@),
    ;
}

/// Application related commands.
pub trait AppCommand {
    /// The text that carrying out the command shows the user.
    spec fn shown_text(&self) -> Seq<char>;

    /// Carries out the command, handing back the text to show the user.
    fn execute(&self) -> (shown: String)
        ensures
            shown@ == self.shown_text(),
    ;
}

/// Commands issued to the packet reader.
pub trait ReaderCommand {
    /// Whether the reader stays active, if it was, once the command is
    /// carried out.
    spec fn keeps_reader_active(&self) -> bool;

    /// Carries out the command on the reader; only whether it is active may
    /// change.
    fn execute(&self, reader: &mut PacketReaderServer)
        ensures
            final(reader)@ == with_active(old(reader)@, old(reader)@.active && self.keeps_reader_active()),
    ;
}

/// The identity under which a client is registered: its name followed by
/// its password.
pub open spec fn reader_id_of(name: Seq<char>, pass: Seq<char>) -> Seq<char> {
    name + pass
}

/// Registers a client that asked to connect.
#[derive(Debug)]
pub struct AddClientCommand {
    read_host: String,
    read_port: String,
    reader_id: String,
}

/// The value of an [`AddClientCommand`].
pub struct AddClientCommandView {
    pub read_host: Seq<char>,
    pub read_port: Seq<char>,
    pub reader_id: Seq<char>,
}

impl View for AddClientCommand {
    type V = AddClientCommandView;

    closed spec fn view(&self) -> AddClientCommandView {
        AddClientCommandView {
            read_host: self.read_host@,
            read_port: self.read_port@,
            reader_id: self.reader_id@,
        }
    }
}

/// The address that a command registers, where its port text parses.
pub open spec fn command_address(c: AddClientCommandView) -> SocketReadAddressView {
    SocketReadAddressView {
        read_host: c.read_host,
        read_port: parse_u32(c.read_port)->Some_0,
        reader_id: c.reader_id,
    }
}

/// The command that a connection request stands for.
pub open spec fn request_command(cr: ConnectionRequestView) -> AddClientCommandView {
    AddClientCommandView {
        read_host: cr.client_read_host,
        read_port: cr.client_read_port,
        reader_id: reader_id_of(cr.client_name, cr.client_pass),
    }
}

impl AddClientCommand {
    /// The command that registers the client reading at
    /// `read_host:read_port` as `reader_id`.
    pub fn new(read_host: String, read_port: String, reader_id: String) -> (c: AddClientCommand)
        ensures
            c@ == (AddClientCommandView {
                read_host: read_host@,
                read_port: read_port@,
                reader_id: reader_id@,
            }),
    {
        AddClientCommand { read_host, read_port, reader_id }
    }
}

/// The registry that carrying out a registration command leaves behind
/// `before`: the command's address registered under its `host:port` where
/// its port text is a decimal `u32`; otherwise `before` unchanged.
pub open spec fn registration_effect(c: AddClientCommandView, before: RegistryMap) -> RegistryMap {
    if parse_u32(c.read_port) is Some {
        before.insert(registry_key(command_address(c)), command_address(c))
    } else {
        before
    }
}

/// Law: the command that a connection request stands for registers the
/// client under `host:port`, as the request wrote them, with its port and
/// with the name followed by the password as its identity.
pub proof fn law_connection_request_registers_client(
    cr: ConnectionRequestView,
    port: u32,
    before: RegistryMap,
)
    requires
        cr.client_read_port == decimal(port as nat),
    ensures
        registration_effect(request_command(cr), before) == before.insert(
            cr.client_read_host + seq![':'] + cr.client_read_port,
            SocketReadAddressView {
                read_host: cr.client_read_host,
                read_port: port,
                reader_id: cr.client_name + cr.client_pass,
            },
        ),
{
    law_parse_decimal_round_trip(port);
}

impl CommCommand for AddClientCommand {
    open spec fn registry_after(&self, before: RegistryMap) -> RegistryMap {
        registration_effect(self@, before)
    }

    /// Registers the client under `host:port`; a command whose port text is
    /// no decimal `u32` leaves the registry as it is.
    fn execute(&self, comm_context: &mut ClientRegistry) {
        let read_port = match parse_u32_text(self.read_port.as_str()) {
            Some(port) => port,
            None => {
                return;
            },
        };
        let handle = SocketReadAddress {
            read_host: self.read_host.clone(),
            read_port,
            reader_id: self.reader_id.clone(),
        };
        comm_context.add_client(handle);
    }
}

/// Shows a text message to the user.
#[derive(Debug)]
pub struct TextMessageCommand {
    receiver_id: String,
    message: String,
}

/// The value of a [`TextMessageCommand`].
pub struct TextMessageCommandView {
    pub receiver_id: Seq<char>,
    pub message: Seq<char>,
}

impl View for TextMessageCommand {
    type V = TextMessageCommandView;

    closed spec fn view(&self) -> TextMessageCommandView {
        TextMessageCommandView { receiver_id: self.receiver_id@, message: self.message@ }
    }
}

impl TextMessageCommand {
    /// The command that shows `message`, meant for `receiver_id`.
    pub fn new(receiver_id: String, message: String) -> (c: TextMessageCommand)
        ensures
            c@ == (TextMessageCommandView { receiver_id: receiver_id@, message: message@ }),
    {
        TextMessageCommand { receiver_id, message }
    }
}

impl AppCommand for TextMessageCommand {
    open spec fn shown_text(&self) -> Seq<char> {
        self@.message
    }

    /// Hands back the message.
    fn execute(&self) -> (shown: String) {
        self.message.clone()
    }
}

/// Law: a text command shows its whole message, whatever its length; and
/// the command that the reader makes of a text message it reads shows that
/// message.
pub proof fn law_text_command_shows_whole_message(c: TextMessageCommand, tm: TextMessageView)
    ensures
        c.shown_text() == c@.message,
        c.shown_text().len() == c@.message.len(),
        packet_action(AppPacketView::TextMessage(tm)) == Ok::<ReaderActionView, ReaderError>(
            ReaderActionView::ShowText(c@),
        ) ==> c.shown_text() == tm.message,
{
}

/// Stops the packet reader.
#[derive(Debug)]
pub struct StopReaderCommand {}

impl ReaderCommand for StopReaderCommand {
    open spec fn keeps_reader_active(&self) -> bool {
        false
    }

    fn execute(&self, reader: &mut PacketReaderServer) {
        reader.deactivate();
    }
}

/// What a packet made the reader do.
#[derive(Debug, Clone, Copy, PartialEq, Eq, Structural)]
pub enum ReadOutcome {
    /// A command registering the client went to the communication channel.
    ClientAddQueued,
    /// A command showing the message went to the application channel.
    TextMessageQueued,
    /// A connection response arrived; there is nothing to do with it.
    ConnectionResponse,
    /// The packet's kind is not in the schema.
    NotInSchema,
}

/// Why the reader could not act on a packet.
#[derive(Debug, Clone, Copy, PartialEq, Eq, Structural)]
pub enum ReaderError {
    /// The buffer holds no packet.
    Packet(PacketError),
    /// The channel that the command was meant for has hung up.
    ChannelClosed,
}

/// What the reader is to do with a packet.
#[derive(Debug)]
pub enum ReaderAction {
    /// Send this registration command to the communication thread.
    AddClient(AddClientCommand),
    /// Send this command to the application thread.
    ShowText(TextMessageCommand),
    /// Nothing: a connection response arrived.
    ConnectionResponse,
    /// Nothing: the packet's kind is not in the schema.
    NotInSchema,
}

/// The value of a [`ReaderAction`].
pub enum ReaderActionView {
    AddClient(AddClientCommandView),
    ShowText(TextMessageCommandView),
    ConnectionResponse,
    NotInSchema,
}

impl View for ReaderAction {
    type V = ReaderActionView;

    open spec fn view(&self) -> ReaderActionView {
        match self {
            ReaderAction::AddClient(c) => ReaderActionView::AddClient(c@),
            ReaderAction::ShowText(c) => ReaderActionView::ShowText(c@),
            ReaderAction::ConnectionResponse => ReaderActionView::ConnectionResponse,
            ReaderAction::NotInSchema => ReaderActionView::NotInSchema,
        }
    }
}

/// What the reader is to do with a packet.
pub open spec fn packet_action(p: AppPacketView) -> Result<ReaderActionView, ReaderError> {
    match p {
        AppPacketView::ConnectionRequest(cr) => Ok(ReaderActionView::AddClient(request_command(cr))),
        AppPacketView::ConnectionResponse => Ok(ReaderActionView::ConnectionResponse),
        AppPacketView::TextMessage(tm) => Ok(
            ReaderActionView::ShowText(
                TextMessageCommandView { receiver_id: tm.receiver_id, message: tm.message },
            ),
        ),
        AppPacketView::NotInSchema(_) => Ok(ReaderActionView::NotInSchema),
    }
}

/// What the reader is to do with the packet at the start of `bytes`.
pub open spec fn buffer_action(bytes: Seq<u8>) -> Result<ReaderActionView, ReaderError> {
    match decoded_packet(bytes) {
        Some(p) => packet_action(p),
        None => Err(ReaderError::Packet(PacketError::Malformed)),
    }
}

/// What carrying out an action is reported as.
pub open spec fn action_outcome(a: ReaderActionView) -> ReadOutcome {
    match a {
        ReaderActionView::AddClient(_) => ReadOutcome::ClientAddQueued,
        ReaderActionView::ShowText(_) => ReadOutcome::TextMessageQueued,
        ReaderActionView::ConnectionResponse => ReadOutcome::ConnectionResponse,
        ReaderActionView::NotInSchema => ReadOutcome::NotInSchema,
    }
}

/// What the reader does with a packet, as long as the channels are open.
pub open spec fn packet_outcome(p: AppPacketView) -> Result<ReadOutcome, ReaderError> {
    match packet_action(p) {
        Ok(a) => Ok(action_outcome(a)),
        Err(e) => Err(e),
    }
}

/// What the reader does with the packet at the start of `bytes`, as long as
/// the channels are open.
pub open spec fn buffer_outcome(bytes: Seq<u8>) -> Result<ReadOutcome, ReaderError> {
    match buffer_action(bytes) {
        Ok(a) => Ok(action_outcome(a)),
        Err(e) => Err(e),
    }
}

/// The command that registers the client asking to connect.
pub fn command_for_request(cr: &ConnectionRequest) -> (c: AddClientCommand)
    ensures
        c@ == request_command(cr@),
{
    AddClientCommand::new(
        cr.client_read_host.clone(),
        cr.client_read_port.clone(),
        PacketReaderServer::hashed_id(cr.client_name.as_str(), cr.client_pass.as_str()),
    )
}

/// Decides what the reader is to do with a packet.
pub fn action_for_packet(packet: AppPacket) -> (r: Result<ReaderAction, ReaderError>)
    ensures
        match r {
            Ok(a) => packet_action(packet@) == Ok::<ReaderActionView, ReaderError>(a@),
            Err(e) => packet_action(packet@) == Err::<ReaderActionView, ReaderError>(e),
        },
{
    match packet {
        AppPacket::ConnectionRequest(cr) => Ok(ReaderAction::AddClient(command_for_request(&cr))),
        AppPacket::ConnectionResponse => Ok(ReaderAction::ConnectionResponse),
        AppPacket::TextMessage(tm) => Ok(
            ReaderAction::ShowText(TextMessageCommand::new(tm.receiver_id, tm.message)),
        ),
        AppPacket::NotInSchema(_) => Ok(ReaderAction::NotInSchema),
    }
}

/// Decides what the reader is to do with the packet at the start of
/// `bytes`; a packet written in its wire form is read back as written.
pub fn action_for_buffer(bytes: &[u8]) -> (r: Result<ReaderAction, ReaderError>)
    ensures
        match r {
            Ok(a) => buffer_action(bytes@) == Ok::<ReaderActionView, ReaderError>(a@),
            Err(e) => buffer_action(bytes@) == Err::<ReaderActionView, ReaderError>(e),
        },
        forall|p: AppPacketView|
            well_formed(p) && #[trigger] encodes(bytes@, p) ==> match r {
                Ok(a) => packet_action(p) == Ok::<ReaderActionView, ReaderError>(a@),
                Err(e) => packet_action(p) == Err::<ReaderActionView, ReaderError>(e),
            },
{
    match decode_packet(bytes) {
        Ok(packet) => action_for_packet(packet),
        Err(e) => Err(ReaderError::Packet(e)),
    }
}

/// What a packet reader is: whether it is active, the channel ends it
/// holds, the commands it has handed to each channel (and, for each,
/// whether the channel accepted it) and how many commands it has taken for
/// itself.
pub struct ReaderServerView {
    pub active: bool,
    pub comm_channel: Sender<AddClientCommand>,
    pub app_channel: Sender<TextMessageCommand>,
    pub reader_channel: Receiver<StopReaderCommand>,
    pub comm_sent: Seq<AddClientCommandView>,
    pub comm_accepted: Seq<bool>,
    pub app_sent: Seq<TextMessageCommandView>,
    pub app_accepted: Seq<bool>,
    pub reader_received: nat,
}

/// The reader `v` with only its activity changed to `active`.
pub open spec fn with_active(v: ReaderServerView, active: bool) -> ReaderServerView {
    ReaderServerView { active, ..v }
}

/// Whether carrying out `action` hands a command to a channel.
pub open spec fn action_sends(action: Result<ReaderActionView, ReaderError>) -> bool {
    action matches Ok(ReaderActionView::AddClient(_)) || action matches Ok(ReaderActionView::ShowText(_))
}

/// The reader `v` once it has acted on `action`: a registration command is
/// handed to the communication channel, a command showing text to the
/// application channel, `accepted` telling whether the channel took it;
/// otherwise nothing changes.
pub open spec fn reader_after(
    v: ReaderServerView,
    action: Result<ReaderActionView, ReaderError>,
    accepted: bool,
) -> ReaderServerView {
    match action {
        Ok(ReaderActionView::AddClient(c)) => ReaderServerView {
            comm_sent: v.comm_sent.push(c),
            comm_accepted: v.comm_accepted.push(accepted),
            ..v
        },
        Ok(ReaderActionView::ShowText(t)) => ReaderServerView {
            app_sent: v.app_sent.push(t),
            app_accepted: v.app_accepted.push(accepted),
            ..v
        },
        _ => v,
    }
}

/// Whether the channel that `action` sends on accepted the command, as the
/// reader `w` records it once it has acted (`true` where nothing is sent).
pub open spec fn send_accepted(w: ReaderServerView, action: Result<ReaderActionView, ReaderError>) -> bool {
    match action {
        Ok(ReaderActionView::AddClient(_)) => w.comm_accepted.last(),
        Ok(ReaderActionView::ShowText(_)) => w.app_accepted.last(),
        _ => true,
    }
}

/// What the reader reports once it has acted on `action`, `accepted`
/// telling whether the channel took the command it sent.
pub open spec fn read_result(action: Result<ReaderActionView, ReaderError>, accepted: bool) -> Result<
    ReadOutcome,
    ReaderError,
> {
    match action {
        Ok(a) => if action_sends(action) && !accepted {
            Err(ReaderError::ChannelClosed)
        } else {
            Ok(action_outcome(a))
        },
        Err(e) => Err(e),
    }
}

/// Law: acting on a packet hands at most one command to the channels, and
/// exactly one where the action sends one; what was sent before stays, and
/// the reader's activity, its channel ends and what it has taken for itself
/// do not change.
pub proof fn law_one_packet_at_most_one_command(
    v: ReaderServerView,
    action: Result<ReaderActionView, ReaderError>,
    accepted: bool,
)
    ensures
        ({
            let w = reader_after(v, action, accepted);
            &&& w.active == v.active
            &&& w.comm_channel == v.comm_channel
            &&& w.app_channel == v.app_channel
            &&& w.reader_channel == v.reader_channel
            &&& w.reader_received == v.reader_received
            &&& w.comm_sent.subrange(0, v.comm_sent.len() as int) == v.comm_sent
            &&& w.app_sent.subrange(0, v.app_sent.len() as int) == v.app_sent
            &&& w.comm_sent.len() + w.app_sent.len() == v.comm_sent.len() + v.app_sent.len() + (
            if action_sends(action) {
                1int
            } else {
                0int
            })
        }),
{
    let w = reader_after(v, action, accepted);
    assert(w.comm_sent.subrange(0, v.comm_sent.len() as int) =~= v.comm_sent);
    assert(w.app_sent.subrange(0, v.app_sent.len() as int) =~= v.app_sent);
}

/// Law: a connection request that a client writes, once read, hands the
/// communication channel the command registering that client, and the
/// application channel nothing.
pub proof fn law_written_request_goes_to_communication(
    v: ReaderServerView,
    cr: ConnectionRequestView,
    accepted: bool,
)
    ensures
        ({
            let w = reader_after(v, packet_action(AppPacketView::ConnectionRequest(cr)), accepted);
            &&& w.comm_sent == v.comm_sent.push(
                AddClientCommandView {
                    read_host: cr.client_read_host,
                    read_port: cr.client_read_port,
                    reader_id: cr.client_name + cr.client_pass,
                },
            )
            &&& w.app_sent == v.app_sent
            &&& w.active == v.active
        }),
        read_result(packet_action(AppPacketView::ConnectionRequest(cr)), accepted) == if accepted {
            Ok::<ReadOutcome, ReaderError>(ReadOutcome::ClientAddQueued)
        } else {
            Err(ReaderError::ChannelClosed)
        },
{
}

/// Law: a text message that a client writes, once read, hands the
/// application channel the command showing that message for that receiver,
/// and the communication channel nothing.
pub proof fn law_written_text_message_goes_to_application(
    v: ReaderServerView,
    tm: TextMessageView,
    accepted: bool,
)
    ensures
        ({
            let w = reader_after(v, packet_action(AppPacketView::TextMessage(tm)), accepted);
            &&& w.app_sent == v.app_sent.push(
                TextMessageCommandView { receiver_id: tm.receiver_id, message: tm.message },
            )
            &&& w.comm_sent == v.comm_sent
            &&& w.active == v.active
        }),
        read_result(packet_action(AppPacketView::TextMessage(tm)), accepted) == if accepted {
            Ok::<ReadOutcome, ReaderError>(ReadOutcome::TextMessageQueued)
        } else {
            Err(ReaderError::ChannelClosed)
        },
{
}

/// The reader `v` once it has taken a stop command off its channel and
/// carried it out.
pub open spec fn reader_stopped_by_command(v: ReaderServerView) -> ReaderServerView {
    ReaderServerView { active: false, reader_received: v.reader_received + 1, ..v }
}

/// One call on a packet reader that can change it.
pub enum ReaderStep {
    /// `read_command_packet` acted on this action; the flag tells whether
    /// the channel took the command it sent.
    Read(Result<ReaderActionView, ReaderError>, bool),
    /// `check_thread_messages` ran; the flag tells whether it took a command.
    TakeCommand(bool),
    /// `stop` ran.
    Stop,
}

/// The reader `v` after one step.
pub open spec fn step_after(v: ReaderServerView, step: ReaderStep) -> ReaderServerView {
    match step {
        ReaderStep::Read(action, accepted) => reader_after(v, action, accepted),
        ReaderStep::TakeCommand(ran) => if ran {
            reader_stopped_by_command(v)
        } else {
            v
        },
        ReaderStep::Stop => with_active(v, false),
    }
}

/// The reader `v` after the steps, in order.
pub open spec fn steps_after(v: ReaderServerView, steps: Seq<ReaderStep>) -> ReaderServerView
    decreases steps.len(),
{
    if steps.len() == 0 {
        v
    } else {
        step_after(steps_after(v, steps.drop_last()), steps.last())
    }
}

/// Whether a step stops the reader: `stop`, or a command taken off the
/// reader's channel.
pub open spec fn stops_reader(step: ReaderStep) -> bool {
    step is Stop || step matches ReaderStep::TakeCommand(true)
}

/// Law: a reader that was active is inactive after a sequence of steps
/// exactly when one of them stopped it; once stopped it stays stopped.
pub proof fn law_active_until_stopped(v: ReaderServerView, steps: Seq<ReaderStep>)
    requires
        v.active,
    ensures
        !steps_after(v, steps).active <==> exists|i: int|
            0 <= i < steps.len() && stops_reader(#[trigger] steps[i]),
    decreases steps.len(),
{
    if steps.len() > 0 {
        let init = steps.drop_last();
        law_active_until_stopped(v, init);
        if exists|i: int| 0 <= i < init.len() && stops_reader(#[trigger] init[i]) {
            let i = choose|i: int| 0 <= i < init.len() && stops_reader(#[trigger] init[i]);
            assert(steps[i] == init[i]);
        }
        if exists|i: int| 0 <= i < steps.len() && stops_reader(#[trigger] steps[i]) {
            let i = choose|i: int| 0 <= i < steps.len() && stops_reader(#[trigger] steps[i]);
            if i < steps.len() - 1 {
                assert(init[i] == steps[i]);
            }
        }
        if stops_reader(steps.last()) {
            assert(stops_reader(steps[steps.len() - 1]));
        }
    }
}

/// The server's packet reader: it turns packets into commands for the
/// communication and application threads, and takes commands for itself.
pub struct PacketReaderServer {
    active: bool,
    command_tx: CommandSender<AddClientCommand>,
    app_tx: CommandSender<TextMessageCommand>,
    reader_rx: CommandReceiver<StopReaderCommand>,
}

impl View for PacketReaderServer {
    type V = ReaderServerView;

    closed spec fn view(&self) -> ReaderServerView {
        ReaderServerView {
            active: self.active,
            comm_channel: self.command_tx.channel(),
            app_channel: self.app_tx.channel(),
            reader_channel: self.reader_rx.channel(),
            comm_sent: self.command_tx.sent().map_values(|c: AddClientCommand| c@),
            comm_accepted: self.command_tx.accepted(),
            app_sent: self.app_tx.sent().map_values(|t: TextMessageCommand| t@),
            app_accepted: self.app_tx.accepted(),
            reader_received: self.reader_rx.received().len(),
        }
    }
}

impl PacketReaderServer {
    /// An active reader that sends registration commands on `comm_sender`
    /// and application commands on `app_sender`, and takes its own
    /// commands from `reader_receiver`; it has sent and taken nothing yet.
    /// The channels carry these concrete command types rather than boxed
    /// trait objects, so that the reader's contract can say which command it
    /// hands to which channel; a caller's own command types cannot travel on
    /// them.
    pub fn new(
        comm_sender: Sender<AddClientCommand>,
        app_sender: Sender<TextMessageCommand>,
        reader_receiver: Receiver<StopReaderCommand>,
    ) -> (r: PacketReaderServer)
        ensures
            r@ == (ReaderServerView {
                active: true,
                comm_channel: comm_sender,
                app_channel: app_sender,
                reader_channel: reader_receiver,
                comm_sent: Seq::empty(),
                comm_accepted: Seq::empty(),
                app_sent: Seq::empty(),
                app_accepted: Seq::empty(),
                reader_received: 0,
            }),
    {
        let r = PacketReaderServer {
            active: true,
            app_tx: CommandSender::new(app_sender),
            command_tx: CommandSender::new(comm_sender),
            reader_rx: CommandReceiver::new(reader_receiver),
        };
        assert(r@.comm_sent =~= Seq::empty());
        assert(r@.app_sent =~= Seq::empty());
        r
    }

    /// The identity under which a client that connects with `name` and `pass`
    /// is registered: the name followed by the password.
    pub fn hashed_id(name: &str, pass: &str) -> (id: String)
        ensures
            id@ == reader_id_of(name@, pass@),
    {
        let mut h_id = name.to_owned();
        h_id.append(pass);
        h_id
    }

    /// Makes the reader inactive; nothing else changes.
    pub fn deactivate(&mut self)
        ensures
            final(self)@ == with_active(old(self)@, false),
    {
        self.active = false;
    }

    /// Carries out a command that was taken off the reader's channel, if
    /// one was: a stop command makes the reader inactive. Reports whether
    /// there was one.
    pub fn run_reader_command(&mut self, received: Result<StopReaderCommand, ChannelError>) -> (ran:
        bool)
        ensures
            ran == received is Ok,
            ran ==> final(self)@ == with_active(old(self)@, false),
            !ran ==> final(self)@ == old(self)@,
    {
        match received {
            Ok(reader_command) => {
                reader_command.execute(self);
                true
            },
            Err(_) => false,
        }
    }
}

impl PacketReader for PacketReaderServer {
    open spec fn active(&self) -> bool {
        self@.active
    }

    open spec fn reads(&self, buf: Seq<u8>, after: Self, r: Result<ReadOutcome, ReaderError>) -> bool {
        &&& after@ == step_after(self@, ReaderStep::Read(buffer_action(buf), send_accepted(after@, buffer_action(buf))))
        &&& r == read_result(buffer_action(buf), send_accepted(after@, buffer_action(buf)))
    }

    open spec fn checks_messages(&self, after: Self, ran: bool) -> bool {
        after@ == step_after(self@, ReaderStep::TakeCommand(ran))
    }

    /// Reads the packet at the start of `buf` and hands the command that
    /// [`action_for_buffer`] gives for it to the channel it is meant for.
    /// The outcome is [`buffer_outcome`], unless that channel has hung up
    /// and so did not accept the command.
    fn read_command_packet(&mut self, buf: &[u8; PACKET_BUFFER_SIZE]) -> (r: Result<
        ReadOutcome,
        ReaderError,
    >)
        ensures
            final(self)@ == step_after(
                old(self)@,
                ReaderStep::Read(buffer_action(buf@), send_accepted(final(self)@, buffer_action(buf@))),
            ),
            r == read_result(buffer_action(buf@), send_accepted(final(self)@, buffer_action(buf@))),
            forall|p: AppPacketView|
                well_formed(p) && #[trigger] encodes(buf@, p) ==> buffer_action(buf@)
                    == packet_action(p),
    {
        let ghost before = self@;
        let action = match action_for_buffer(buf.as_slice()) {
            Ok(a) => a,
            Err(e) => {
                return Err(e);
            },
        };
        match action {
            ReaderAction::AddClient(cmd) => {
                let ghost c = cmd;
                let accepted = self.command_tx.send(cmd);
                assert(self@.comm_sent =~= before.comm_sent.push(c@));
                assert(self@.comm_accepted.last() == accepted);
                if accepted {
                    Ok(ReadOutcome::ClientAddQueued)
                } else {
                    Err(ReaderError::ChannelClosed)
                }
            },
            ReaderAction::ShowText(cmd) => {
                let ghost t = cmd;
                let accepted = self.app_tx.send(cmd);
                assert(self@.app_sent =~= before.app_sent.push(t@));
                assert(self@.app_accepted.last() == accepted);
                if accepted {
                    Ok(ReadOutcome::TextMessageQueued)
                } else {
                    Err(ReaderError::ChannelClosed)
                }
            },
            ReaderAction::ConnectionResponse => Ok(ReadOutcome::ConnectionResponse),
            ReaderAction::NotInSchema => Ok(ReadOutcome::NotInSchema),
        }
    }

    fn is_active(&self) -> (b: bool) {
        self.active
    }

    /// Takes one command off the reader's channel, if one is waiting, and
    /// carries it out.
    fn check_thread_messages(&mut self) -> (ran: bool)
        ensures
            final(self)@ == step_after(old(self)@, ReaderStep::TakeCommand(ran)),
    {
        let received = self.reader_rx.try_recv();
        self.run_reader_command(received)
    }

    fn stop(&mut self)
        ensures
            final(self)@ == step_after(old(self)@, ReaderStep::Stop),
    {
        self.deactivate();
    }
}

/// Carries out a command that was taken off the communication channel, if
/// one was, on the registry of clients; hands back what was taken.
pub fn run_comm_command<C: CommCommand>(
    received: Result<C, ChannelError>,
    client_state: &mut ClientRegistry,
) -> (r: Result<C, ChannelError>)
    ensures
        r == received,
        received matches Ok(c) ==> final(client_state)@ == c.registry_after(old(client_state)@),
        received is Err ==> final(client_state)@ == old(client_state)@,
{
    match received {
        Ok(command) => {
            command.execute(client_state);
            Ok(command)
        },
        Err(e) => Err(e),
    }
}

/// Takes one command off the communication channel, if one is waiting, and
/// carries it out on the registry of clients.
pub fn check_comm_commands<C: CommCommand>(rx: &Receiver<C>, client_state: &mut ClientRegistry) -> (r:
    Result<C, ChannelError>)
    ensures
        r matches Ok(c) ==> final(client_state)@ == c.registry_after(old(client_state)@),
        r is Err ==> final(client_state)@ == old(client_state)@,
{
    run_comm_command(channel_try_recv(rx), client_state)
}

/// Carries out a command that was taken off the application channel, if one
/// was; hands back the command and the text it shows.
pub fn show_app_command<A: AppCommand>(received: Result<A, ChannelError>) -> (r: Result<
    (A, String),
    ChannelError,
>)
    ensures
        received matches Ok(c) ==> r matches Ok((c2, shown)) && c2 == c && shown@ == c.shown_text(),
        received matches Err(e) ==> r == Err::<(A, String), ChannelError>(e),
{
    match received {
        Ok(command) => {
            let shown = command.execute();
            Ok((command, shown))
        },
        Err(e) => Err(e),
    }
}

/// Takes one command off the application channel, if one is waiting, and
/// carries it out; hands back the command and the text it shows.
pub fn check_app_commands<A: AppCommand>(rx: &Receiver<A>) -> (r: Result<(A, String), ChannelError>)
    ensures
        r matches Ok((c, shown)) ==> shown@ == c.shown_text(),
{
    show_app_command(channel_try_recv(rx))
}

/// Hands the packet reader's channel one command to stop; reports whether
/// the reader end was still there to take it.
pub fn send_stop_command(reader_tx: &mut CommandSender<StopReaderCommand>) -> (sent: bool)
    ensures
        final(reader_tx).channel() == old(reader_tx).channel(),
        final(reader_tx).sent() == old(reader_tx).sent().push(StopReaderCommand {}),
        final(reader_tx).accepted() == old(reader_tx).accepted().push(sent),
{
    reader_tx.send(StopReaderCommand {})
}

/// Sends the packet reader the command to stop and then drops `reader_tx`;
/// reports whether the reader end of the channel was still there to take
/// the command, together with the record of the end it sent through.
pub fn stop_reader(reader_tx: Sender<StopReaderCommand>) -> (r: (
    bool,
    Ghost<CommandSender<StopReaderCommand>>,
))
    ensures
        r.1@.channel() == reader_tx,
        r.1@.sent() == seq![StopReaderCommand {}],
        r.1@.accepted() == seq![r.0],
{
    let mut tx = CommandSender::new(reader_tx);
    let sent = send_stop_command(&mut tx);
    let ghost record = tx;
    (sent, Ghost(record))
}

} // verus!
