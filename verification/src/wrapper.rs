//! The server's handling of incoming frames, as decisions: which step a
//! system command calls for (and the connection state it updates), which
//! response answers a handled message, and how a response is encoded for
//! its connection. The caller runs the event handler and the writes.

use crate::builder::MessageParser;
use crate::connection::{ConnectionInfo, ConnectionInfoView};
use crate::device_manager::DeviceManager;
use crate::error::FlareError;
use crate::manager::ConnectionManager;
use crate::protocol::{
    ack_message, frame_payload_command, frame_system_command, frame_with_payload_command, frame_with_system_command,
    meta_insert, metadata_insert, metadata_view, pong, CompressionAlgorithm, EncryptionAlgorithm, Frame, Metadata,
    Reliability, SerializationFormat, SystemCommandType, CommandKind, PayloadType,
};
use crate::registry::ConnTable;
use crate::utils::current_timestamp_ms;
use vstd::prelude::*;
use vstd::utf8::encode_utf8;

verus! {

/// What the caller does after a system command has been taken in.
pub enum SystemCommandStep {
    /// Ask the event handler about the PING and send its reply, or the
    /// default PONG (see [`ping_reply`]).
    ReplyToPing,
    /// Tell the event handler about the PONG.
    NotifyPong,
    /// Run the event handler on the event and answer it (see
    /// [`response_for`]).
    HandleEvent,
    /// The negotiation was confirmed, or why not.
    NegotiationConfirmed(Result<(), FlareError>),
    /// Nothing to do for this command.
    Unhandled,
}

/// The connections after activity of `id` at `now` (unchanged if unknown).
pub open spec fn touched(conns: ConnTable, id: Seq<char>, now: u64) -> ConnTable {
    if conns.contains_key(id) {
        conns.insert(id, ConnectionInfoView { last_active: now, ..conns[id] })
    } else {
        conns
    }
}

/// The connections after the negotiation of `id` is confirmed (unchanged
/// if unknown or not negotiated).
pub open spec fn confirmed(conns: ConnTable, id: Seq<char>) -> ConnTable {
    if conns.contains_key(id) && conns[id].negotiation_completed {
        conns.insert(id, ConnectionInfoView { negotiation_confirmed: true, ..conns[id] })
    } else {
        conns
    }
}

/// The connections after a system command of type `t` from `id` at `now`:
/// activity recorded for the commands that count as activity, then, for
/// NEGOTIATION_READY, the negotiation confirmed.
pub open spec fn conns_after_system_command(conns: ConnTable, t: SystemCommandType, id: Seq<char>, now: u64) -> ConnTable {
    let touched_conns = if counts_as_activity(t) { touched(conns, id, now) } else { conns };
    if t == SystemCommandType::NegotiationReady {
        confirmed(touched_conns, id)
    } else {
        touched_conns
    }
}

/// Whether a system command counts as activity of its connection.
pub open spec fn counts_as_activity(t: SystemCommandType) -> bool {
    t == SystemCommandType::Ping || t == SystemCommandType::Pong || t == SystemCommandType::Event
        || t == SystemCommandType::NegotiationReady
}

/// The encoding of responses to a connection: its negotiated one once
/// negotiation is complete, else JSON without compression or encryption.
pub open spec fn response_encoding(info: ConnectionInfoView) -> MessageParser {
    if info.negotiation_completed {
        MessageParser { format: info.serialization_format, compression: info.compression, encryption: info.encryption }
    } else {
        MessageParser {
            format: SerializationFormat::Json,
            compression: CompressionAlgorithm::Uncompressed,
            encryption: EncryptionAlgorithm::Plaintext,
        }
    }
}

/// The parser a response to the connection in state `info` is encoded with.
pub fn response_parser(info: &ConnectionInfo) -> (p: MessageParser)
    ensures
        p == response_encoding(info@),
{
    if info.negotiation_completed {
        MessageParser::new(info.serialization_format, info.compression, info.encryption)
    } else {
        MessageParser::new(SerializationFormat::Json, CompressionAlgorithm::Uncompressed, EncryptionAlgorithm::Plaintext)
    }
}

/// The answer to a PING: the event handler's reply, or a PONG.
pub fn ping_reply(custom: Option<Frame>) -> (f: Frame)
    ensures
        match custom {
            Some(c) => f == c,
            None => frame_system_command(f) is Some && frame_system_command(f)->0.command_type
                == SystemCommandType::Pong && f.reliability == Reliability::AtLeastOnce,
        },
{
    match custom {
        Some(c) => c,
        None => frame_with_system_command(pong(), Reliability::AtLeastOnce),
    }
}

/// The metadata of an acknowledgement reporting a failure.
pub open spec fn error_ack_metadata(message: Seq<char>) -> Seq<(Seq<char>, Seq<u8>)> {
    meta_insert(
        meta_insert(Seq::empty(), "error"@, encode_utf8("true"@)),
        "error_message"@,
        encode_utf8(message),
    )
}

/// The response to a handled message `message_id`: the handler's own
/// response, else an acknowledgement, which reports the handler's error
/// when it failed.
pub fn response_for(message_id: String, outcome: Result<Option<Frame>, FlareError>) -> (f: Frame)
    ensures
        outcome matches Ok(Some(r)) ==> f == r,
        outcome matches Ok(None) ==> {
            &&& frame_payload_command(f) is Some
            &&& frame_payload_command(f)->0.message_id@ == message_id@
            &&& metadata_view(frame_payload_command(f)->0.metadata@) == Seq::<(Seq<char>, Seq<u8>)>::empty()
            &&& f.reliability == Reliability::AtLeastOnce
        },
        outcome matches Err(e) ==> {
            &&& frame_payload_command(f) is Some
            &&& frame_payload_command(f)->0.message_id@ == message_id@
            &&& metadata_view(frame_payload_command(f)->0.metadata@) == error_ack_metadata(e.message@)
            &&& f.reliability == Reliability::AtLeastOnce
        },
{
    match outcome {
        Ok(Some(r)) => r,
        Ok(None) => frame_with_payload_command(ack_message(message_id, None), Reliability::AtLeastOnce),
        Err(e) => {
            let mut metadata: Metadata = Vec::new();
            assert(metadata_view(metadata@) =~= Seq::empty());
            metadata_insert(&mut metadata, String::from_str("error"), "true".as_bytes_vec());
            metadata_insert(&mut metadata, String::from_str("error_message"), e.message.as_str().as_bytes_vec());
            frame_with_payload_command(ack_message(message_id, Some(metadata)), Reliability::AtLeastOnce)
        },
    }
}

/// The handler method a payload command goes to.
#[derive(Debug, Clone, Copy, PartialEq, Eq, Structural)]
pub enum PayloadRoute {
    Message,
    Event,
    Ack,
    Data,
}

/// Where an inbound frame goes.
#[derive(Debug, Clone, Copy, PartialEq, Eq, Structural)]
pub enum FrameDispatch {
    /// No command, no command kind, or a CONNECT (handled where connections
    /// are admitted): nothing to do.
    Ignore,
    /// A system command of this type.
    System(SystemCommandType),
    /// A payload command, to the handler method of its type; the handler's
    /// answer is then sent back (see [`response_for`]).
    Payload(PayloadRoute),
    /// A payload command of unspecified type: skipped.
    UnspecifiedPayload,
    /// A payload command of a type no kind has: an error.
    UnknownPayload,
    /// A notification command, to the handler; its answer is sent back.
    Notification,
    /// A custom command, to the handler; it counts as activity of the
    /// connection, and the answer is sent back.
    Custom,
}

/// Where a frame goes: by the kind of its command.
pub open spec fn dispatch_of(f: Frame) -> FrameDispatch {
    match f.command {
        None => FrameDispatch::Ignore,
        Some(cmd) => match cmd.kind {
            None => FrameDispatch::Ignore,
            Some(CommandKind::System(c)) => if c.command_type == SystemCommandType::Connect {
                FrameDispatch::Ignore
            } else {
                FrameDispatch::System(c.command_type)
            },
            Some(CommandKind::Payload(p)) => match p.payload_type {
                PayloadType::Message => FrameDispatch::Payload(PayloadRoute::Message),
                PayloadType::Event => FrameDispatch::Payload(PayloadRoute::Event),
                PayloadType::Ack => FrameDispatch::Payload(PayloadRoute::Ack),
                PayloadType::Data => FrameDispatch::Payload(PayloadRoute::Data),
                PayloadType::Unspecified => FrameDispatch::UnspecifiedPayload,
                PayloadType::Unrecognized(_) => FrameDispatch::UnknownPayload,
            },
            Some(CommandKind::Notification(_)) => FrameDispatch::Notification,
            Some(CommandKind::Custom(_)) => FrameDispatch::Custom,
        },
    }
}

/// Decides where an inbound frame goes (see [`dispatch_of`]).
pub fn frame_dispatch(frame: &Frame) -> (d: FrameDispatch)
    ensures
        d == dispatch_of(*frame),
{
    match &frame.command {
        None => FrameDispatch::Ignore,
        Some(cmd) => match &cmd.kind {
            None => FrameDispatch::Ignore,
            Some(CommandKind::System(c)) => match c.command_type {
                SystemCommandType::Connect => FrameDispatch::Ignore,
                t => FrameDispatch::System(t),
            },
            Some(CommandKind::Payload(p)) => match p.payload_type {
                PayloadType::Message => FrameDispatch::Payload(PayloadRoute::Message),
                PayloadType::Event => FrameDispatch::Payload(PayloadRoute::Event),
                PayloadType::Ack => FrameDispatch::Payload(PayloadRoute::Ack),
                PayloadType::Data => FrameDispatch::Payload(PayloadRoute::Data),
                PayloadType::Unspecified => FrameDispatch::UnspecifiedPayload,
                PayloadType::Unrecognized(_) => FrameDispatch::UnknownPayload,
            },
            Some(CommandKind::Notification(_)) => FrameDispatch::Notification,
            Some(CommandKind::Custom(_)) => FrameDispatch::Custom,
        },
    }
}

/// What the caller does after an inbound frame has been taken in.
pub enum FrameStep {
    /// Nothing.
    Ignore,
    /// The step of the system command.
    System(SystemCommandStep),
    /// Run the handler method of the payload and send its answer.
    Payload(PayloadRoute),
    /// Nothing: the payload type is unspecified.
    UnspecifiedPayload,
    /// Report an unknown payload type.
    UnknownPayload,
    /// Run the notification handler and send its answer.
    Notification,
    /// Run the custom-command handler and send its answer.
    Custom,
}

/// Whether `s` is the step a system command of type `t` calls for, when a
/// connection manager is present (`has_manager`) holding `conns` before the
/// command came from `id`.
pub open spec fn system_step_for(t: SystemCommandType, has_manager: bool, conns: ConnTable, id: Seq<char>, s: SystemCommandStep) -> bool {
    &&& t == SystemCommandType::Ping ==> s is ReplyToPing
    &&& t == SystemCommandType::Pong ==> s is NotifyPong
    &&& t == SystemCommandType::Event ==> s is HandleEvent
    &&& t == SystemCommandType::NegotiationReady ==> (has_manager <==> s is NegotiationConfirmed)
    &&& t == SystemCommandType::NegotiationReady && has_manager ==> (s->NegotiationConfirmed_0 is Ok <==> (
        conns.contains_key(id) && conns[id].negotiation_completed))
    &&& t == SystemCommandType::NegotiationReady && !has_manager ==> s is Unhandled
    &&& !counts_as_activity(t) ==> s is Unhandled
}

/// Whether `s` is the step a frame dispatched as `d` calls for (see
/// [`system_step_for`] for system commands).
pub open spec fn frame_step_for(d: FrameDispatch, has_manager: bool, conns: ConnTable, id: Seq<char>, s: FrameStep) -> bool {
    match d {
        FrameDispatch::Ignore => s is Ignore,
        FrameDispatch::System(t) => s is System && system_step_for(t, has_manager, conns, id, s->System_0),
        FrameDispatch::Payload(r) => s == FrameStep::Payload(r),
        FrameDispatch::UnspecifiedPayload => s is UnspecifiedPayload,
        FrameDispatch::UnknownPayload => s is UnknownPayload,
        FrameDispatch::Notification => s is Notification,
        FrameDispatch::Custom => s is Custom,
    }
}

/// The connections after a frame dispatched as `d` came from `id` at
/// `now`: a system command changes them as [`conns_after_system_command`]
/// says, a custom command records activity, nothing else changes them.
pub open spec fn conns_after_frame(conns: ConnTable, d: FrameDispatch, id: Seq<char>, now: u64) -> ConnTable {
    match d {
        FrameDispatch::System(t) => conns_after_system_command(conns, t, id, now),
        FrameDispatch::Custom => touched(conns, id, now),
        _ => conns,
    }
}

/// Incoming-frame handling state: the application's event handler (`E`),
/// the connection manager (handles of type `H`) and device manager when
/// the server has them, and the default parser.
pub struct ServerMessageWrapper<E, H> {
    event_handler: E,
    connection_manager: Option<ConnectionManager<H>>,
    device_manager: Option<DeviceManager>,
    parser: MessageParser,
}

impl<E, H> ServerMessageWrapper<E, H> {
    /// The application's event handler.
    pub closed spec fn handler(&self) -> E {
        self.event_handler
    }

    /// The connection manager, if any.
    pub closed spec fn manager(&self) -> Option<ConnectionManager<H>> {
        self.connection_manager
    }

    /// The device manager, if any.
    pub closed spec fn devices(&self) -> Option<DeviceManager> {
        self.device_manager
    }

    /// The default parser.
    pub closed spec fn spec_parser(&self) -> MessageParser {
        self.parser
    }

    /// The managers present are well formed.
    pub open spec fn wf(&self) -> bool {
        &&& self.manager() is Some ==> self.manager()->0.wf()
        &&& self.devices() is Some ==> self.devices()->0.wf()
    }

    /// A wrapper over the given handler, managers and parser.
    pub fn new(
        event_handler: E,
        connection_manager: Option<ConnectionManager<H>>,
        device_manager: Option<DeviceManager>,
        parser: MessageParser,
    ) -> (w: ServerMessageWrapper<E, H>)
        requires
            connection_manager is Some ==> connection_manager->0.wf(),
            device_manager is Some ==> device_manager->0.wf(),
        ensures
            w.wf(),
            w.handler() == event_handler,
            w.manager() == connection_manager,
            w.devices() == device_manager,
            w.spec_parser() == parser,
    {
        ServerMessageWrapper { event_handler, connection_manager, device_manager, parser }
    }

    /// The application's event handler.
    pub fn event_handler(&self) -> (h: &E)
        ensures
            *h == self.handler(),
    {
        &self.event_handler
    }

    /// The default parser.
    pub fn parser(&self) -> (p: MessageParser)
        ensures
            p == self.spec_parser(),
    {
        self.parser
    }

    /// Takes in a system command of type `sys_type` from `connection_id` at
    /// `now`: PING, PONG, EVENT and NEGOTIATION_READY count as activity of
    /// the connection; NEGOTIATION_READY also confirms its negotiation.
    /// Returns what the caller does next. Without a connection manager no
    /// state changes and a NEGOTIATION_READY calls for nothing.
    pub fn handle_system_command_at(
        &mut self,
        sys_type: SystemCommandType,
        connection_id: &str,
        now: u64,
    ) -> (step: SystemCommandStep)
        requires
            old(self).wf(),
        ensures
            final(self).wf(),
            final(self).handler() == old(self).handler(),
            final(self).devices() == old(self).devices(),
            final(self).spec_parser() == old(self).spec_parser(),
            final(self).manager() is Some == old(self).manager() is Some,
            old(self).manager() is Some ==> {
                let m0 = old(self).manager()->0;
                let m1 = final(self).manager()->0;
                &&& m1.conns() == conns_after_system_command(m0.conns(), sys_type, connection_id@, now)
                &&& m1.handles() == m0.handles()
                &&& m1.users() == m0.users()
                &&& m1.spec_send_timeout() == m0.spec_send_timeout()
                &&& m1.spec_fanout_concurrency() == m0.spec_fanout_concurrency()
                &&& m1.spec_write_queue_capacity() == m0.spec_write_queue_capacity()
            },
            old(self).manager() is None ==> final(self).manager() is None,
            system_step_for(
                sys_type,
                old(self).manager() is Some,
                old(self).manager()->0.conns(),
                connection_id@,
                step,
            ),
    {
        let taken = self.connection_manager.take();
        match taken {
            None => {
                match sys_type {
                    SystemCommandType::Ping => SystemCommandStep::ReplyToPing,
                    SystemCommandType::Pong => SystemCommandStep::NotifyPong,
                    SystemCommandType::Event => SystemCommandStep::HandleEvent,
                    _ => SystemCommandStep::Unhandled,
                }
            },
            Some(mut m) => {
                let ghost m0 = m;
                let activity = match sys_type {
                    SystemCommandType::Ping => true,
                    SystemCommandType::Pong => true,
                    SystemCommandType::Event => true,
                    SystemCommandType::NegotiationReady => true,
                    _ => false,
                };
                if activity {
                    let _ = m.update_connection_active_at(connection_id, now);
                    proof {
                        if !m0.conns().contains_key(connection_id@) {
                            assert(m.conns() == m0.conns());
                        }
                    }
                }
                let step = match sys_type {
                    SystemCommandType::Ping => SystemCommandStep::ReplyToPing,
                    SystemCommandType::Pong => SystemCommandStep::NotifyPong,
                    SystemCommandType::Event => SystemCommandStep::HandleEvent,
                    SystemCommandType::NegotiationReady => {
                        let r = m.mark_negotiation_confirmed(connection_id);
                        SystemCommandStep::NegotiationConfirmed(r)
                    },
                    _ => SystemCommandStep::Unhandled,
                };
                self.connection_manager = Some(m);
                step
            },
        }
    }

    /// Takes in a system command now; see
    /// [`ServerMessageWrapper::handle_system_command_at`]. The time recorded
    /// as activity is the clock's, so the connections afterwards are those of
    /// [`conns_after_system_command`] at some reading of it.
    pub fn handle_system_command(&mut self, sys_type: SystemCommandType, connection_id: &str) -> (step: SystemCommandStep)
        requires
            old(self).wf(),
        ensures
            final(self).wf(),
            final(self).handler() == old(self).handler(),
            final(self).devices() == old(self).devices(),
            final(self).spec_parser() == old(self).spec_parser(),
            final(self).manager() is Some == old(self).manager() is Some,
            old(self).manager() is Some ==> {
                let m0 = old(self).manager()->0;
                let m1 = final(self).manager()->0;
                &&& exists|now: u64| #[trigger] conns_after_system_command(m0.conns(), sys_type, connection_id@, now) == m1.conns()
                &&& m1.handles() == m0.handles()
                &&& m1.users() == m0.users()
                &&& m1.spec_send_timeout() == m0.spec_send_timeout()
                &&& m1.spec_fanout_concurrency() == m0.spec_fanout_concurrency()
                &&& m1.spec_write_queue_capacity() == m0.spec_write_queue_capacity()
            },
            old(self).manager() is None ==> final(self).manager() is None,
            system_step_for(
                sys_type,
                old(self).manager() is Some,
                old(self).manager()->0.conns(),
                connection_id@,
                step,
            ),
    {
        let now = current_timestamp_ms();
        let step = self.handle_system_command_at(sys_type, connection_id, now);
        proof {
            if old(self).manager() is Some {
                assert(conns_after_system_command(old(self).manager()->0.conns(), sys_type, connection_id@, now)
                    == self.manager()->0.conns());
            }
        }
        step
    }

    /// Takes in an inbound frame from `connection_id` at `now` and routes it
    /// by [`dispatch_of`]: a system command other than CONNECT is taken in
    /// as [`ServerMessageWrapper::handle_system_command_at`] does; a custom
    /// command counts as activity of the connection; payload commands of a
    /// known type, notifications and custom commands go to the event
    /// handler, whose answer the caller sends back; a payload of
    /// unspecified type is skipped and one of unknown type reported.
    /// Returns what the caller does next.
    pub fn handle_frame_at(&mut self, frame: &Frame, connection_id: &str, now: u64) -> (step: FrameStep)
        requires
            old(self).wf(),
        ensures
            final(self).wf(),
            final(self).handler() == old(self).handler(),
            final(self).devices() == old(self).devices(),
            final(self).spec_parser() == old(self).spec_parser(),
            final(self).manager() is Some == old(self).manager() is Some,
            old(self).manager() is Some ==> {
                let m0 = old(self).manager()->0;
                let m1 = final(self).manager()->0;
                &&& m1.conns() == conns_after_frame(m0.conns(), dispatch_of(*frame), connection_id@, now)
                &&& m1.handles() == m0.handles()
                &&& m1.users() == m0.users()
                &&& m1.spec_send_timeout() == m0.spec_send_timeout()
                &&& m1.spec_fanout_concurrency() == m0.spec_fanout_concurrency()
                &&& m1.spec_write_queue_capacity() == m0.spec_write_queue_capacity()
            },
            old(self).manager() is None ==> final(self).manager() is None,
            frame_step_for(
                dispatch_of(*frame),
                old(self).manager() is Some,
                old(self).manager()->0.conns(),
                connection_id@,
                step,
            ),
    {
        match frame_dispatch(frame) {
            FrameDispatch::Ignore => FrameStep::Ignore,
            FrameDispatch::System(t) => FrameStep::System(self.handle_system_command_at(t, connection_id, now)),
            FrameDispatch::Payload(r) => FrameStep::Payload(r),
            FrameDispatch::UnspecifiedPayload => FrameStep::UnspecifiedPayload,
            FrameDispatch::UnknownPayload => FrameStep::UnknownPayload,
            FrameDispatch::Notification => FrameStep::Notification,
            FrameDispatch::Custom => {
                let taken = self.connection_manager.take();
                match taken {
                    None => {},
                    Some(mut m) => {
                        let ghost m0 = m;
                        let _ = m.update_connection_active_at(connection_id, now);
                        proof {
                            if !m0.conns().contains_key(connection_id@) {
                                assert(m.conns() == m0.conns());
                            }
                        }
                        self.connection_manager = Some(m);
                    },
                }
                FrameStep::Custom
            },
        }
    }

    /// Takes in an inbound frame now; see
    /// [`ServerMessageWrapper::handle_frame_at`]. The time recorded as
    /// activity is the clock's, so the connections afterwards are those of
    /// [`conns_after_frame`] at some reading of it.
    pub fn handle_frame(&mut self, frame: &Frame, connection_id: &str) -> (step: FrameStep)
        requires
            old(self).wf(),
        ensures
            final(self).wf(),
            final(self).handler() == old(self).handler(),
            final(self).devices() == old(self).devices(),
            final(self).spec_parser() == old(self).spec_parser(),
            final(self).manager() is Some == old(self).manager() is Some,
            old(self).manager() is Some ==> {
                let m0 = old(self).manager()->0;
                let m1 = final(self).manager()->0;
                &&& exists|now: u64| #[trigger] conns_after_frame(m0.conns(), dispatch_of(*frame), connection_id@, now) == m1.conns()
                &&& m1.handles() == m0.handles()
                &&& m1.users() == m0.users()
                &&& m1.spec_send_timeout() == m0.spec_send_timeout()
                &&& m1.spec_fanout_concurrency() == m0.spec_fanout_concurrency()
                &&& m1.spec_write_queue_capacity() == m0.spec_write_queue_capacity()
            },
            old(self).manager() is None ==> final(self).manager() is None,
            frame_step_for(
                dispatch_of(*frame),
                old(self).manager() is Some,
                old(self).manager()->0.conns(),
                connection_id@,
                step,
            ),
    {
        let now = current_timestamp_ms();
        let step = self.handle_frame_at(frame, connection_id, now);
        proof {
            if old(self).manager() is Some {
                assert(conns_after_frame(old(self).manager()->0.conns(), dispatch_of(*frame), connection_id@, now)
                    == self.manager()->0.conns());
            }
        }
        step
    }

    /// Where and how a response to `connection_id` is sent: the encoding
    /// for the registered connection, or nothing when there is no manager
    /// or the connection is unknown.
    pub fn response_target(&self, connection_id: &str) -> (r: Option<MessageParser>)
        requires
            self.wf(),
        ensures
            match r {
                Some(p) => self.manager() is Some && self.manager()->0.conns().contains_key(connection_id@) && p
                    == response_encoding(self.manager()->0.conns()[connection_id@]),
                None => self.manager() is None || !self.manager()->0.conns().contains_key(connection_id@),
            },
    {
        match &self.connection_manager {
            None => None,
            Some(m) => match m.get_connection(connection_id) {
                Some((_, info)) => Some(response_parser(&info)),
                None => None,
            },
        }
    }
}

} // verus!
