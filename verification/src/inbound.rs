//! Routing a connection's inbound data: which parser reads it (the
//! pre-negotiation one until negotiation completes, then the negotiated
//! one, tolerant until the client confirms), and what is done with what was
//! read. Reading bytes into frames is the codecs' work; these are the
//! decisions around it.

use crate::builder::MessageParser;
use crate::connection::{ConnectionInfo, ConnectionInfoView};
use crate::error::FlareError;
use crate::manager::ConnectionManager;
use crate::negotiation::CodecRegistry;
use crate::protocol::{
    connect_system_command, frame_system_command, CompressionAlgorithm, EncryptionAlgorithm, Frame, SerializationFormat,
    SystemCommandType,
};
use vstd::prelude::*;

verus! {

/// How a connection's inbound data is read.
#[derive(Debug, Clone, Copy, PartialEq, Eq, Structural)]
pub enum InboundMode {
    /// Negotiation is not complete (or the connection is unknown): the
    /// pre-negotiation parser reads it.
    PreNegotiation,
    /// The negotiated parser reads it; until the client confirms the
    /// negotiation, data it cannot decode may be read as plain data.
    Negotiated { parser: MessageParser, allow_fallback: bool },
}

/// What is done with data read after negotiation completed.
#[derive(Debug, Clone, Copy, PartialEq, Eq, Structural)]
pub enum NegotiatedStep {
    /// It is the client's NEGOTIATION_READY: the negotiation is confirmed
    /// and nothing more is done with it.
    ConfirmNegotiation,
    /// The negotiated encryption has no registered codec: it is dropped.
    MissingEncryptor,
    /// It is read with `parser` (tolerantly if `allow_fallback`) and, when
    /// readable, handled as a frame.
    Parse { parser: MessageParser, allow_fallback: bool },
}

/// What is done with data read before negotiation completed.
#[derive(Debug, Clone, Copy, PartialEq, Eq, Structural)]
pub enum PreNegotiationStep {
    /// It could not be read: it is dropped.
    Drop,
    /// It is a CONNECT: negotiation starts.
    Connect,
    /// Anything else is handled as a frame all the same.
    Dispatch,
}

/// The parser that reads data before negotiation: JSON, no compression, no
/// encryption.
pub open spec fn pre_negotiation_parser() -> MessageParser {
    MessageParser {
        format: SerializationFormat::Json,
        compression: CompressionAlgorithm::Uncompressed,
        encryption: EncryptionAlgorithm::Plaintext,
    }
}

/// The frame carries a system command of type `t`.
pub open spec fn is_system_command(f: Frame, t: SystemCommandType) -> bool {
    frame_system_command(f) is Some && frame_system_command(f)->0.command_type == t
}

/// How data of a connection in state `info` (none: unknown) is read.
pub open spec fn mode_for(info: Option<ConnectionInfoView>) -> InboundMode {
    match info {
        Some(i) => if i.negotiation_completed {
            InboundMode::Negotiated {
                parser: MessageParser { format: i.serialization_format, compression: i.compression, encryption: i.encryption },
                allow_fallback: !i.negotiation_confirmed,
            }
        } else {
            InboundMode::PreNegotiation
        },
        None => InboundMode::PreNegotiation,
    }
}

/// The step for data read after negotiation: `probe` is what the
/// pre-negotiation parser made of it, if anything.
pub open spec fn negotiated_step_for(probe: Option<Frame>, parser: MessageParser, allow_fallback: bool, registry: CodecRegistry) -> NegotiatedStep {
    if probe is Some && is_system_command(probe->0, SystemCommandType::NegotiationReady) {
        NegotiatedStep::ConfirmNegotiation
    } else if parser.encryption != EncryptionAlgorithm::Plaintext && !registry.encryption@.contains(parser.encryption) {
        NegotiatedStep::MissingEncryptor
    } else {
        NegotiatedStep::Parse { parser, allow_fallback }
    }
}

/// Whether `frame` is a CONNECT.
pub fn is_connect_message(frame: &Frame) -> (r: bool)
    ensures
        r == is_system_command(*frame, SystemCommandType::Connect),
{
    match connect_system_command(frame) {
        Some(c) => match c.command_type {
            SystemCommandType::Connect => true,
            _ => false,
        },
        None => false,
    }
}

/// Whether `frame` is a NEGOTIATION_READY.
pub fn is_negotiation_ready_message(frame: &Frame) -> (r: bool)
    ensures
        r == is_system_command(*frame, SystemCommandType::NegotiationReady),
{
    match connect_system_command(frame) {
        Some(c) => match c.command_type {
            SystemCommandType::NegotiationReady => true,
            _ => false,
        },
        None => false,
    }
}

/// How data of a connection in state `info` (none: unknown) is read.
pub fn inbound_mode(info: &Option<ConnectionInfo>) -> (m: InboundMode)
    ensures
        m == mode_for(
            match info {
                Some(i) => Some(i@),
                None => None,
            },
        ),
{
    match info {
        Some(i) => {
            if i.negotiation_completed {
                InboundMode::Negotiated {
                    parser: MessageParser::new(i.serialization_format, i.compression, i.encryption),
                    allow_fallback: !i.negotiation_confirmed,
                }
            } else {
                InboundMode::PreNegotiation
            }
        },
        None => InboundMode::PreNegotiation,
    }
}

/// Data from `connection_id` arrives at `now`: the connection's activity
/// is recorded (an unknown connection is left alone) and the way to read
/// the data is decided from its state.
pub fn begin_inbound_at<H>(manager: &mut ConnectionManager<H>, connection_id: &str, now: u64) -> (m: InboundMode)
    requires
        old(manager).wf(),
    ensures
        final(manager).wf(),
        old(manager).conns().contains_key(connection_id@) ==> {
            &&& final(manager).conns() == old(manager).conns().insert(
                connection_id@,
                ConnectionInfoView { last_active: now, ..old(manager).conns()[connection_id@] },
            )
            &&& m == mode_for(Some(old(manager).conns()[connection_id@]))
        },
        !old(manager).conns().contains_key(connection_id@) ==> *final(manager) == *old(manager) && m
            == InboundMode::PreNegotiation,
{
    let _ = manager.update_connection_active_at(connection_id, now);
    match manager.get_connection(connection_id) {
        Some((_, info)) => inbound_mode(&Some(info)),
        None => InboundMode::PreNegotiation,
    }
}

/// What is done with data read after negotiation (see
/// [`negotiated_step_for`]).
pub fn negotiated_step(probe: Option<&Frame>, parser: MessageParser, allow_fallback: bool, registry: &CodecRegistry) -> (s: NegotiatedStep)
    ensures
        s == negotiated_step_for(
            match probe {
                Some(f) => Some(*f),
                None => None,
            },
            parser,
            allow_fallback,
            *registry,
        ),
{
    if let Some(f) = probe {
        if is_negotiation_ready_message(f) {
            return NegotiatedStep::ConfirmNegotiation;
        }
    }
    let plaintext = match parser.encryption {
        EncryptionAlgorithm::Plaintext => true,
        _ => false,
    };
    if !plaintext && !registry.has_encryption(parser.encryption) {
        NegotiatedStep::MissingEncryptor
    } else {
        NegotiatedStep::Parse { parser, allow_fallback }
    }
}

/// What is done with data read before negotiation: `parsed` is what the
/// pre-negotiation parser made of it.
pub fn pre_negotiation_step(parsed: Option<&Frame>) -> (s: PreNegotiationStep)
    ensures
        match parsed {
            None => s == PreNegotiationStep::Drop,
            Some(f) => s == if is_system_command(*f, SystemCommandType::Connect) {
                PreNegotiationStep::Connect
            } else {
                PreNegotiationStep::Dispatch
            },
        },
{
    match parsed {
        None => PreNegotiationStep::Drop,
        Some(f) => if is_connect_message(f) {
            PreNegotiationStep::Connect
        } else {
            PreNegotiationStep::Dispatch
        },
    }
}

/// After a CONNECT of `connection_id` was handled with `outcome`: a
/// connection whose CONNECT failed is removed. Tells whether it was.
pub fn finish_connect<H>(manager: &mut ConnectionManager<H>, connection_id: &str, outcome: &Result<(), FlareError>) -> (removed: bool)
    requires
        old(manager).wf(),
    ensures
        final(manager).wf(),
        outcome is Ok ==> !removed && *final(manager) == *old(manager),
        outcome is Err ==> removed == old(manager).conns().contains_key(connection_id@) && final(manager).conns()
            == old(manager).conns().remove(connection_id@),
{
    match outcome {
        Ok(()) => false,
        Err(_) => {
            let r = manager.remove_connection(connection_id);
            r.is_ok()
        },
    }
}

/// Once negotiation completed, data is read by the negotiated parser, and
/// tolerantly exactly until the client confirmed; before, by the
/// pre-negotiation parser.
pub proof fn lemma_fallback_only_before_confirmation(info: ConnectionInfoView)
    ensures
        info.negotiation_completed ==> (mode_for(Some(info)) matches InboundMode::Negotiated { parser, allow_fallback }
            && parser.format == info.serialization_format && parser.compression == info.compression
            && parser.encryption == info.encryption && allow_fallback == !info.negotiation_confirmed),
        !info.negotiation_completed ==> mode_for(Some(info)) == InboundMode::PreNegotiation,
{
}

} // verus!
