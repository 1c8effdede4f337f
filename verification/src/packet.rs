//! The fixed-size Sphinx packet buffer and the metadata attached to it
//! after a successful unwrap.

use vstd::prelude::*;

use crate::commands::{NextHop, Recipient, SURBReply, Delay, RoutingCommand};
use crate::commands::{last_next_hop, last_recipient, last_surb_reply, last_delay};
use crate::constants::SPHINX_PACKET_SIZE;
use crate::errors::PacketError;

verus! {

/// A Sphinx packet moving through the node: the raw ciphertext, the
/// receive timestamp in milliseconds, and, once unwrapped, the payload and
/// the decoded routing directives, plus the two policy flags stamped by
/// the session reader.
#[derive(Debug)]
pub struct Packet {
    pub id: u64,
    pub raw: Vec<u8>,
    pub receive_time: u64,
    pub payload: Option<Vec<u8>>,
    pub next_hop: Option<NextHop>,
    pub recipient: Option<Recipient>,
    pub surb_reply: Option<SURBReply>,
    pub delay: Option<Delay>,
    pub must_forward: bool,
    pub must_terminate: bool,
}

impl Packet {
    /// A packet always carries a full-size raw buffer.
    pub open spec fn wf(self) -> bool {
        self.raw@.len() == SPHINX_PACKET_SIZE
    }

    /// Forward to the next hop: next-hop and delay present, no recipient,
    /// no SURB reply.
    pub open spec fn is_forward_spec(self) -> bool {
        self.next_hop is Some && self.delay is Some && self.recipient is None
            && self.surb_reply is None
    }

    /// Deliver to a user: recipient and delay present, no next hop, no
    /// SURB reply.
    pub open spec fn is_to_user_spec(self) -> bool {
        self.next_hop is None && self.delay is Some && self.recipient is Some
            && self.surb_reply is None
    }

    /// Unreliable delivery to a user: recipient present, nothing else.
    pub open spec fn is_unreliable_to_user_spec(self) -> bool {
        self.next_hop is None && self.delay is None && self.recipient is Some
            && self.surb_reply is None
    }

    /// A single-use reply block response: recipient and SURB reply
    /// present, no next hop, no delay.
    pub open spec fn is_surb_reply_spec(self) -> bool {
        self.next_hop is None && self.delay is None && self.recipient is Some
            && self.surb_reply is Some
    }

    /// Build a packet from a received byte buffer, stamping the current
    /// wall-clock millisecond as its receive time.  Fails exactly when the
    /// buffer is not the Sphinx packet size.
    pub fn new(raw: &Vec<u8>) -> (r: Result<Packet, PacketError>)
        ensures
            r is Err <==> raw@.len() != SPHINX_PACKET_SIZE,
            r matches Err(e) ==> e == PacketError::WrongSize,
            r matches Ok(p) ==> {
                &&& p.wf()
                &&& p.raw@ == raw@
                &&& p.id == 0
                &&& p.payload is None
                &&& p.next_hop is None
                &&& p.recipient is None
                &&& p.surb_reply is None
                &&& p.delay is None
                &&& !p.must_forward
                &&& !p.must_terminate
            },
    {
        if raw.len() != SPHINX_PACKET_SIZE {
            return Err(PacketError::WrongSize);
        }
        let now = wall_clock_millis();
        Ok(Packet {
            id: 0,
            raw: raw.clone(),
            receive_time: now,
            payload: None,
            next_hop: None,
            recipient: None,
            surb_reply: None,
            delay: None,
            must_forward: false,
            must_terminate: false,
        })
    }

    /// Attach the unwrap primitive's payload.
    pub fn set_payload(&mut self, payload: Option<Vec<u8>>)
        ensures
            final(self).payload == payload,
            final(self).id == old(self).id,
            final(self).raw == old(self).raw,
            final(self).receive_time == old(self).receive_time,
            final(self).next_hop == old(self).next_hop,
            final(self).recipient == old(self).recipient,
            final(self).surb_reply == old(self).surb_reply,
            final(self).delay == old(self).delay,
            final(self).must_forward == old(self).must_forward,
            final(self).must_terminate == old(self).must_terminate,
    {
        self.payload = payload;
    }

    /// Record the unwrap primitive's routing directives: for each kind,
    /// the last directive of that kind wins; kinds not present leave the
    /// field as it was.
    pub fn set_commands(&mut self, cmds: Vec<RoutingCommand>)
        ensures
            final(self).next_hop == (match last_next_hop(cmds@) {
                Some(h) => Some(h),
                None => old(self).next_hop,
            }),
            final(self).recipient == (match last_recipient(cmds@) {
                Some(c) => Some(c),
                None => old(self).recipient,
            }),
            final(self).surb_reply == (match last_surb_reply(cmds@) {
                Some(s) => Some(s),
                None => old(self).surb_reply,
            }),
            final(self).delay == (match last_delay(cmds@) {
                Some(d) => Some(d),
                None => old(self).delay,
            }),
            final(self).id == old(self).id,
            final(self).raw == old(self).raw,
            final(self).receive_time == old(self).receive_time,
            final(self).payload == old(self).payload,
            final(self).must_forward == old(self).must_forward,
            final(self).must_terminate == old(self).must_terminate,
    {
        let ghost orig = cmds@;
        let ghost mut k: int = 0;
        let mut rest = cmds;
        proof {
            assert(rest@ =~= orig.skip(0));
            assert(orig.take(0) =~= Seq::<RoutingCommand>::empty());
        }
        while rest.len() > 0
            invariant
                0 <= k <= orig.len(),
                rest@ =~= orig.skip(k),
                self.next_hop == (match last_next_hop(orig.take(k)) {
                    Some(h) => Some(h),
                    None => old(self).next_hop,
                }),
                self.recipient == (match last_recipient(orig.take(k)) {
                    Some(c) => Some(c),
                    None => old(self).recipient,
                }),
                self.surb_reply == (match last_surb_reply(orig.take(k)) {
                    Some(s) => Some(s),
                    None => old(self).surb_reply,
                }),
                self.delay == (match last_delay(orig.take(k)) {
                    Some(d) => Some(d),
                    None => old(self).delay,
                }),
                self.id == old(self).id,
                self.raw == old(self).raw,
                self.receive_time == old(self).receive_time,
                self.payload == old(self).payload,
                self.must_forward == old(self).must_forward,
                self.must_terminate == old(self).must_terminate,
            decreases rest@.len(),
        {
            let cmd = rest.remove(0);
            proof {
                assert(cmd == orig[k]);
                assert(rest@ =~= orig.skip(k + 1));
                assert(orig.take(k + 1).drop_last() =~= orig.take(k));
                assert(orig.take(k + 1).last() == orig[k]);
                k = k + 1;
            }
            match cmd {
                RoutingCommand::NextHop(h) => {
                    self.next_hop = Some(h);
                },
                RoutingCommand::Recipient(c) => {
                    self.recipient = Some(c);
                },
                RoutingCommand::SURBReply(s) => {
                    self.surb_reply = Some(s);
                },
                RoutingCommand::Delay(d) => {
                    self.delay = Some(d);
                },
            }
        }
        proof {
            assert(orig.take(k) =~= orig);
        }
    }

    pub fn is_forward(&self) -> (r: bool)
        ensures
            r == self.is_forward_spec(),
    {
        self.next_hop.is_some() && self.delay.is_some() && self.recipient.is_none()
            && self.surb_reply.is_none()
    }

    pub fn is_to_user(&self) -> (r: bool)
        ensures
            r == self.is_to_user_spec(),
    {
        self.next_hop.is_none() && self.delay.is_some() && self.recipient.is_some()
            && self.surb_reply.is_none()
    }

    pub fn is_unreliable_to_user(&self) -> (r: bool)
        ensures
            r == self.is_unreliable_to_user_spec(),
    {
        self.next_hop.is_none() && self.delay.is_none() && self.recipient.is_some()
            && self.surb_reply.is_none()
    }

    pub fn is_surb_reply(&self) -> (r: bool)
        ensures
            r == self.is_surb_reply_spec(),
    {
        self.next_hop.is_none() && self.delay.is_none() && self.recipient.is_some()
            && self.surb_reply.is_some()
    }
}

impl Default for Packet {
    /// An all-zero packet with a full-size zeroed buffer.
    fn default() -> (p: Packet)
        ensures
            p.wf(),
            p.id == 0,
            p.receive_time == 0,
            p.payload is None,
            p.next_hop is None,
            p.recipient is None,
            p.surb_reply is None,
            p.delay is None,
            !p.must_forward,
            !p.must_terminate,
            forall|i: int| 0 <= i < p.raw@.len() ==> p.raw@[i] == 0,
    {
        Packet {
            id: 0,
            raw: zero_bytes(SPHINX_PACKET_SIZE),
            receive_time: 0,
            payload: None,
            next_hop: None,
            recipient: None,
            surb_reply: None,
            delay: None,
            must_forward: false,
            must_terminate: false,
        }
    }
}

/// A zero-filled byte vector of the given length.
pub fn zero_bytes(n: usize) -> (r: Vec<u8>)
    ensures
        r@.len() == n,
        forall|i: int| 0 <= i < n ==> r@[i] == 0,
{
    let mut r: Vec<u8> = Vec::new();
    let mut i: usize = 0;
    while i < n
        invariant
            i <= n,
            r@.len() == i,
            forall|j: int| 0 <= j < i ==> r@[j] == 0,
        decreases n - i,
    {
        r.push(0);
        i += 1;
    }
    r
}

/// At most one routing classification holds of any packet: the four
/// predicates `is_forward`, `is_to_user`, `is_unreliable_to_user` and
/// `is_surb_reply` are pairwise exclusive.
pub proof fn lemma_classification_exclusive(p: Packet)
    ensures
        p.is_forward_spec() ==> !p.is_to_user_spec() && !p.is_unreliable_to_user_spec()
            && !p.is_surb_reply_spec(),
        p.is_to_user_spec() ==> !p.is_forward_spec() && !p.is_unreliable_to_user_spec()
            && !p.is_surb_reply_spec(),
        p.is_unreliable_to_user_spec() ==> !p.is_forward_spec() && !p.is_to_user_spec()
            && !p.is_surb_reply_spec(),
        p.is_surb_reply_spec() ==> !p.is_forward_spec() && !p.is_to_user_spec()
            && !p.is_unreliable_to_user_spec(),
{
}

/// Relies on std::time::SystemTime::now and duration_since: milliseconds
/// since the Unix epoch by the system clock.
#[verifier::external_body]
fn wall_clock_millis() -> u64 {
    match std::time::SystemTime::now().duration_since(std::time::UNIX_EPOCH) {
        Ok(d) => d.as_secs().wrapping_mul(1000).wrapping_add((d.subsec_nanos() / 1_000_000) as u64),
        Err(_) => 0,
    }
}

} // verus!
