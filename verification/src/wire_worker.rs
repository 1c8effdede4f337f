//! The session reader's dispatch rule: what to do with each link command,
//! according to who the session was authenticated as and the node's role.
//!
//! The authenticated link session itself (handshake, transport, command
//! wire format) is an outside collaborator; the reader loop in the
//! surrounding program receives commands from it and applies this rule.

use vstd::prelude::*;

use crate::constants::SPHINX_PACKET_SIZE;
use crate::packet::Packet;

verus! {

/// A link command received over an authenticated session.
#[derive(Clone, Debug)]
pub enum Command {
    NoOp,
    SendPacket { sphinx_packet: Vec<u8> },
    RetrieveMessage { sequence: u32 },
    GetConsensus { epoch: u64 },
    Disconnect,
}

/// What the session reader does with one received command.
#[derive(Debug)]
pub enum ReaderAction {
    /// Ignore the command and keep the session.
    DropCommand,
    /// Hand the packet to the crypto worker pool.
    EnqueuePacket(Packet),
    /// Hand off to the provider mailbox service.
    MailboxHandoff { sequence: u32 },
    /// Hand off to the PKI service.
    PkiHandoff { epoch: u64 },
    /// A client-only command arrived from a peer mix: refuse it, keep
    /// the session.
    Rejected,
    /// Close the session and end the reader loop.
    CloseSession,
}

/// Dispatch one command.
///
/// `NoOp` is dropped.  `SendPacket` builds a packet — dropped if the
/// buffer is not the Sphinx packet size — stamping `must_forward` when
/// the session belongs to a client and `must_terminate` when this node
/// is a provider and the sender a peer mix.  `RetrieveMessage` and
/// `GetConsensus` are honoured only from clients.  `Disconnect` closes
/// the session.
pub fn reader_action(cmd: Command, from_client: bool, is_provider: bool) -> (a: ReaderAction)
    ensures
        cmd is NoOp ==> a is DropCommand,
        cmd matches Command::SendPacket { sphinx_packet } ==> {
            if sphinx_packet@.len() != SPHINX_PACKET_SIZE {
                a is DropCommand
            } else {
                a matches ReaderAction::EnqueuePacket(p) && p.wf() && p.raw@ == sphinx_packet@
                    && p.must_forward == from_client && p.must_terminate == (is_provider
                    && !from_client) && p.payload is None && p.next_hop is None && p.recipient
                    is None && p.surb_reply is None && p.delay is None
            }
        },
        cmd matches Command::RetrieveMessage { sequence } ==> a == (if from_client {
            ReaderAction::MailboxHandoff { sequence }
        } else {
            ReaderAction::Rejected
        }),
        cmd matches Command::GetConsensus { epoch } ==> a == (if from_client {
            ReaderAction::PkiHandoff { epoch }
        } else {
            ReaderAction::Rejected
        }),
        cmd is Disconnect ==> a is CloseSession,
{
    match cmd {
        Command::NoOp => ReaderAction::DropCommand,
        Command::SendPacket { sphinx_packet } => {
            match Packet::new(&sphinx_packet) {
                Err(_) => ReaderAction::DropCommand,
                Ok(mut p) => {
                    p.must_forward = from_client;
                    p.must_terminate = is_provider && !from_client;
                    ReaderAction::EnqueuePacket(p)
                },
            }
        },
        Command::RetrieveMessage { sequence } => {
            if from_client {
                ReaderAction::MailboxHandoff { sequence }
            } else {
                ReaderAction::Rejected
            }
        },
        Command::GetConsensus { epoch } => {
            if from_client {
                ReaderAction::PkiHandoff { epoch }
            } else {
                ReaderAction::Rejected
            }
        },
        Command::Disconnect => ReaderAction::CloseSession,
    }
}

} // verus!
