//! Routing commands decoded from a Sphinx packet's stripped layer.
//!
//! These model the command set the unwrap primitive yields: at most one
//! each of next-hop, recipient, SURB-reply and delay directives.

use vstd::prelude::*;

verus! {

/// Forward the packet to the named next hop.
#[derive(Clone, Debug)]
pub struct NextHop {
    /// Identifier of the next mix.
    pub id: Vec<u8>,
    /// Authenticator over the forwarded header.
    pub mac: Vec<u8>,
}

/// Deliver the payload to the named local user.
#[derive(Clone, Debug)]
pub struct Recipient {
    pub id: Vec<u8>,
}

/// The packet is a single-use reply block response.
#[derive(Clone, Debug)]
pub struct SURBReply {
    pub id: Vec<u8>,
}

/// Hold the packet for the given number of milliseconds before forwarding.
#[derive(Clone, Copy, Debug, PartialEq, Eq, Structural)]
pub struct Delay {
    pub delay: u32,
}

/// One routing directive from an unwrapped command set.
#[derive(Clone, Debug)]
pub enum RoutingCommand {
    NextHop(NextHop),
    Recipient(Recipient),
    SURBReply(SURBReply),
    Delay(Delay),
}

/// The last next-hop directive in `cmds`, if any.
pub open spec fn last_next_hop(cmds: Seq<RoutingCommand>) -> Option<NextHop>
    decreases cmds.len(),
{
    if cmds.len() == 0 {
        None
    } else {
        match cmds.last() {
            RoutingCommand::NextHop(h) => Some(h),
            _ => last_next_hop(cmds.drop_last()),
        }
    }
}

/// The last recipient directive in `cmds`, if any.
pub open spec fn last_recipient(cmds: Seq<RoutingCommand>) -> Option<Recipient>
    decreases cmds.len(),
{
    if cmds.len() == 0 {
        None
    } else {
        match cmds.last() {
            RoutingCommand::Recipient(r) => Some(r),
            _ => last_recipient(cmds.drop_last()),
        }
    }
}

/// The last SURB-reply directive in `cmds`, if any.
pub open spec fn last_surb_reply(cmds: Seq<RoutingCommand>) -> Option<SURBReply>
    decreases cmds.len(),
{
    if cmds.len() == 0 {
        None
    } else {
        match cmds.last() {
            RoutingCommand::SURBReply(s) => Some(s),
            _ => last_surb_reply(cmds.drop_last()),
        }
    }
}

/// The last delay directive in `cmds`, if any.
pub open spec fn last_delay(cmds: Seq<RoutingCommand>) -> Option<Delay>
    decreases cmds.len(),
{
    if cmds.len() == 0 {
        None
    } else {
        match cmds.last() {
            RoutingCommand::Delay(d) => Some(d),
            _ => last_delay(cmds.drop_last()),
        }
    }
}

} // verus!
