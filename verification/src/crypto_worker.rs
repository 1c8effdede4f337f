//! The crypto worker's per-packet pipeline: dwell check, candidate-epoch
//! selection, settling a Sphinx unwrap against the replay cache, and
//! routing the unwrapped packet.
//!
//! The Sphinx unwrap primitive itself is an outside collaborator invoked
//! between these stages; its per-epoch outcomes enter the pipeline as
//! `SphinxAttempt` values, one per candidate epoch, and every decision
//! taken on them is verified here.

use vstd::prelude::*;

use crate::clock::Time;
use crate::commands::{RoutingCommand, last_next_hop, last_recipient, last_surb_reply, last_delay};
use crate::errors::UnwrapPacketError;
use crate::mix_key::{MixKeys, Tag};
use crate::packet::Packet;

verus! {

/// The outcome of invoking the Sphinx unwrap primitive over the packet's
/// raw buffer with one candidate epoch's private key.
pub enum SphinxAttempt {
    /// The primitive reported an error for this epoch's key.
    Failed,
    /// The primitive stripped a layer, yielding a payload, a replay tag,
    /// and the decoded routing directives.
    Unwrapped { payload: Option<Vec<u8>>, tag: Option<Tag>, cmds: Vec<RoutingCommand> },
}

pub open spec fn attempt_payload(a: SphinxAttempt) -> Option<Vec<u8>> {
    match a {
        SphinxAttempt::Unwrapped { payload, .. } => payload,
        SphinxAttempt::Failed => None,
    }
}

pub open spec fn attempt_tag(a: SphinxAttempt) -> Option<Tag> {
    match a {
        SphinxAttempt::Unwrapped { tag, .. } => tag,
        SphinxAttempt::Failed => None,
    }
}

pub open spec fn attempt_cmds(a: SphinxAttempt) -> Seq<RoutingCommand> {
    match a {
        SphinxAttempt::Unwrapped { cmds, .. } => cmds@,
        SphinxAttempt::Failed => Seq::empty(),
    }
}

/// Every tag an attempt carries has the replay-tag width.
pub open spec fn attempts_wf(atts: Seq<SphinxAttempt>) -> bool {
    forall|i: int|
        0 <= i < atts.len() ==> (match attempt_tag(#[trigger] atts[i]) {
            Some(tg) => tg.wf(),
            None => true,
        })
}

/// Milliseconds the packet has waited since it was stamped at session
/// read; a clock that moved backwards counts as no dwell.
pub open spec fn dwell_spec(now_ms: u64, receive_time: u64) -> u64 {
    if now_ms >= receive_time {
        (now_ms - receive_time) as u64
    } else {
        0
    }
}

pub fn dwell_ms(now_ms: u64, receive_time: u64) -> (r: u64)
    ensures
        r == dwell_spec(now_ms, receive_time),
{
    if now_ms >= receive_time {
        now_ms - receive_time
    } else {
        0
    }
}

/// The epochs whose keys may open a packet arriving at `t`: the current
/// epoch always; just after a rollover also the previous epoch; just
/// before one also the next.
pub open spec fn candidates_spec(t: Time, grace: u64) -> Seq<u64> {
    if t.elapsed < grace && t.epoch >= 1 {
        seq![t.epoch, (t.epoch - 1) as u64]
    } else if t.elapsed >= grace && t.till < grace && t.epoch < u64::MAX {
        seq![t.epoch, (t.epoch + 1) as u64]
    } else {
        seq![t.epoch]
    }
}

/// Compute the candidate epochs for a packet arriving at `t`, failing
/// with `NoKey` exactly when no key for the current epoch is held.
pub fn candidate_epochs(t: &Time, grace: u64, keys: &MixKeys) -> (r: Result<
    Vec<u64>,
    UnwrapPacketError,
>)
    ensures
        r is Err <==> !keys.contains_epoch(t.epoch),
        r matches Err(e) ==> e == UnwrapPacketError::NoKey,
        r matches Ok(v) ==> v@ == candidates_spec(*t, grace),
{
    if !keys.has(t.epoch) {
        return Err(UnwrapPacketError::NoKey);
    }
    let mut v: Vec<u64> = Vec::new();
    v.push(t.epoch);
    if t.elapsed < grace && t.epoch >= 1 {
        v.push(t.epoch - 1);
    } else if t.elapsed >= grace && t.till < grace && t.epoch < u64::MAX {
        v.push(t.epoch + 1);
    }
    proof {
        assert(v@ =~= candidates_spec(*t, grace));
    }
    Ok(v)
}

/// Whether candidate `i` can settle the packet: a key for its epoch is
/// held and the unwrap attempt for it succeeded.
pub open spec fn usable(keys: MixKeys, eps: Seq<u64>, atts: Seq<SphinxAttempt>, i: int) -> bool {
    keys.contains_epoch(eps[i]) && atts[i] is Unwrapped
}

/// The first candidate that can settle the packet, if any.
pub open spec fn first_usable(keys: MixKeys, eps: Seq<u64>, atts: Seq<SphinxAttempt>, i: int)
    -> Option<int>
    decreases eps.len() - i,
{
    if i < 0 || i >= eps.len() || i >= atts.len() {
        None
    } else if usable(keys, eps, atts, i) {
        Some(i)
    } else {
        first_usable(keys, eps, atts, i + 1)
    }
}

proof fn lemma_first_usable_none(keys: MixKeys, eps: Seq<u64>, atts: Seq<SphinxAttempt>, i: int)
    requires
        0 <= i,
        forall|j: int| i <= j < eps.len() && j < atts.len() ==> !usable(keys, eps, atts, j),
    ensures
        first_usable(keys, eps, atts, i) is None,
    decreases eps.len() - i,
{
    if i < eps.len() && i < atts.len() {
        lemma_first_usable_none(keys, eps, atts, i + 1);
    }
}

proof fn lemma_first_usable_from(
    keys: MixKeys,
    eps: Seq<u64>,
    atts: Seq<SphinxAttempt>,
    k: int,
    i: int,
)
    requires
        0 <= k <= i < eps.len(),
        i < atts.len(),
        usable(keys, eps, atts, i),
        forall|j: int| k <= j < i ==> !usable(keys, eps, atts, j),
    ensures
        first_usable(keys, eps, atts, k) == Some(i),
    decreases i - k,
{
    if k < i {
        lemma_first_usable_from(keys, eps, atts, k + 1, i);
    }
}

/// How the packet's metadata looks after an unwrap outcome is attached:
/// the payload replaced, each directive kind settled by its last
/// occurrence, everything else as before.
pub open spec fn attached(
    p0: Packet,
    p1: Packet,
    payload: Option<Vec<u8>>,
    cmds: Seq<RoutingCommand>,
) -> bool {
    &&& p1.payload == payload
    &&& p1.next_hop == (match last_next_hop(cmds) {
        Some(h) => Some(h),
        None => p0.next_hop,
    })
    &&& p1.recipient == (match last_recipient(cmds) {
        Some(c) => Some(c),
        None => p0.recipient,
    })
    &&& p1.surb_reply == (match last_surb_reply(cmds) {
        Some(s) => Some(s),
        None => p0.surb_reply,
    })
    &&& p1.delay == (match last_delay(cmds) {
        Some(d) => Some(d),
        None => p0.delay,
    })
    &&& p1.id == p0.id
    &&& p1.raw == p0.raw
    &&& p1.receive_time == p0.receive_time
    &&& p1.must_forward == p0.must_forward
    &&& p1.must_terminate == p0.must_terminate
}

/// Try the unwrap outcomes against the candidate epochs in order; the
/// first usable one is checked for replay and, if novel, attached to the
/// packet.  When no candidate settles the packet the failure is
/// surfaced as `UnwrapFailed` and the packet is left untouched.
/// `attempts[i]` must be the primitive's outcome for candidate `i`,
/// computed over the original ciphertext.
#[verifier::loop_isolation(false)]
pub fn unwrap_packet(
    packet: &mut Packet,
    t: &Time,
    grace: u64,
    keys: &mut MixKeys,
    attempts: Vec<SphinxAttempt>,
) -> (r: Result<(), UnwrapPacketError>)
    requires
        old(keys).wf(),
        attempts@.len() == candidates_spec(*t, grace).len(),
        attempts_wf(attempts@),
    ensures
        final(keys).wf(),
        forall|e: u64| final(keys).contains_epoch(e) <==> old(keys).contains_epoch(e),
        forall|e: u64|
            old(keys).contains_epoch(e) ==> final(keys).key_bytes_of(e) == old(keys).key_bytes_of(
                e,
            ),
        !old(keys).contains_epoch(t.epoch) ==> r == Err::<(), UnwrapPacketError>(
            UnwrapPacketError::NoKey,
        ) && *final(packet) == *old(packet) && *final(keys) == *old(keys),
        old(keys).contains_epoch(t.epoch) ==> (match first_usable(
            *old(keys),
            candidates_spec(*t, grace),
            attempts@,
            0,
        ) {
            None => r == Err::<(), UnwrapPacketError>(UnwrapPacketError::UnwrapFailed)
                && *final(packet) == *old(packet) && *final(keys) == *old(keys),
            Some(i) => {
                let ep = candidates_spec(*t, grace)[i];
                let att = attempts@[i];
                match attempt_tag(att) {
                    None => r is Ok && *final(keys) == *old(keys) && attached(
                        *old(packet),
                        *final(packet),
                        attempt_payload(att),
                        attempt_cmds(att),
                    ),
                    Some(tg) => {
                        &&& (r is Ok ==> !old(keys).replay_set_of(ep).contains(tg@) && final(keys).replay_set_of(ep) == old(keys).replay_set_of(ep).insert(tg@) && attached(
                            *old(packet),
                            *final(packet),
                            attempt_payload(att),
                            attempt_cmds(att),
                        ))
                        &&& (r == Err::<(), UnwrapPacketError>(UnwrapPacketError::Replay) ==> old(keys).replay_set_of(ep).contains(tg@) && *final(packet) == *old(packet))
                        &&& (r is Err ==> (r == Err::<(), UnwrapPacketError>(
                            UnwrapPacketError::Replay,
                        ) || r == Err::<(), UnwrapPacketError>(UnwrapPacketError::CacheFail))
                            && *final(packet) == *old(packet))
                        &&& (r is Err ==> final(keys).replay_set_of(ep) == old(keys).replay_set_of(ep)
                            || final(keys).replay_set_of(ep) == old(keys).replay_set_of(ep).insert(tg@))
                        &&& forall|e2: u64|
                            e2 != ep && old(keys).contains_epoch(e2) ==> final(keys).replay_set_of(e2) == old(keys).replay_set_of(e2)
                    },
                }
            },
        }),
{
    let ghost eps_spec = candidates_spec(*t, grace);
    let ghost gatts = attempts@;
    let eps = match candidate_epochs(t, grace, keys) {
        Ok(v) => v,
        Err(e) => {
            return Err(e);
        },
    };
    let mut attempts = attempts;
    let mut i: usize = 0;
    while i < eps.len()
        invariant
            keys.wf(),
            *keys == *old(keys),
            *packet == *old(packet),
            old(keys).contains_epoch(t.epoch),
            eps@ == eps_spec,
            attempts@ == gatts,
            gatts.len() == eps_spec.len(),
            attempts_wf(gatts),
            i <= eps@.len(),
            forall|j: int| 0 <= j < i ==> !usable(*old(keys), eps_spec, gatts, j),
        decreases eps@.len() - i,
    {
        let ep = eps[i];
        let is_unwrapped = match &attempts[i] {
            SphinxAttempt::Unwrapped { .. } => true,
            SphinxAttempt::Failed => false,
        };
        if is_unwrapped && keys.has(ep) {
            proof {
                assert(usable(*old(keys), eps_spec, gatts, i as int));
                lemma_first_usable_from(*old(keys), eps_spec, gatts, 0, i as int);
            }
            let att = attempts.remove(i);
            proof {
                assert(att == gatts[i as int]);
            }
            match att {
                SphinxAttempt::Failed => {
                    proof {
                        assert(false);
                    }
                    return Err(UnwrapPacketError::CacheFail);
                },
                SphinxAttempt::Unwrapped { payload, tag, cmds } => {
                    match tag {
                        Some(tg) => {
                            match keys.check_replay(ep, tg) {
                                Err(_) => {
                                    return Err(UnwrapPacketError::CacheFail);
                                },
                                Ok(true) => {
                                    return Err(UnwrapPacketError::Replay);
                                },
                                Ok(false) => {},
                            }
                        },
                        None => {},
                    }
                    packet.set_payload(payload);
                    packet.set_commands(cmds);
                    return Ok(());
                },
            }
        }
        i += 1;
    }
    proof {
        lemma_first_usable_none(*old(keys), eps_spec, gatts, 0);
    }
    Err(UnwrapPacketError::UnwrapFailed)
}

/// Where an unwrapped packet goes next.
#[derive(Clone, Copy, Debug, PartialEq, Eq, Structural)]
pub enum RoutingDecision {
    /// Emit to the outbound scheduler, holding it for the remaining
    /// milliseconds of its requested delay.
    Forward { remaining_delay: u64 },
    /// Hand off to the decoy-response path (non-provider SURB replies).
    DecoyResponse,
    /// Hand off to provider user-delivery.
    UserDelivery,
    /// Discard the packet.
    Drop,
}

/// The packet's requested delay in milliseconds, zero if none was decoded.
pub open spec fn delay_value(p: Packet) -> u64 {
    match p.delay {
        Some(d) => d.delay as u64,
        None => 0,
    }
}

/// The routing rule applied to an unwrapped packet that has already
/// dwelled `dwell` milliseconds.
///
/// A forward packet is dropped on a provider when a peer mix sent it
/// (`must_terminate`); a zero delay means "deliver immediately"; an
/// expired delay is past-deadline.  A non-forward packet on a mix is a
/// decoy response if it is a SURB reply, else invalid.  On a provider,
/// client-origin packets (`must_forward`) are dropped and the rest go to
/// user delivery if any delivery classification holds.
pub open spec fn route_spec(p: Packet, dwell: u64, is_provider: bool) -> RoutingDecision {
    if p.is_forward_spec() {
        if p.must_terminate {
            RoutingDecision::Drop
        } else if delay_value(p) == 0 {
            RoutingDecision::Forward { remaining_delay: 0 }
        } else if delay_value(p) <= dwell {
            RoutingDecision::Drop
        } else {
            RoutingDecision::Forward { remaining_delay: (delay_value(p) - dwell) as u64 }
        }
    } else if !is_provider {
        if p.is_surb_reply_spec() {
            RoutingDecision::DecoyResponse
        } else {
            RoutingDecision::Drop
        }
    } else {
        if p.must_forward {
            RoutingDecision::Drop
        } else if p.is_to_user_spec() || p.is_unreliable_to_user_spec() || p.is_surb_reply_spec() {
            RoutingDecision::UserDelivery
        } else {
            RoutingDecision::Drop
        }
    }
}

/// Apply the routing rule to an unwrapped packet.
pub fn route_packet(p: &Packet, dwell: u64, is_provider: bool) -> (r: RoutingDecision)
    ensures
        r == route_spec(*p, dwell, is_provider),
{
    if p.is_forward() {
        if p.must_terminate {
            return RoutingDecision::Drop;
        }
        let d: u64 = match &p.delay {
            Some(d) => d.delay as u64,
            None => 0,
        };
        if d == 0 {
            RoutingDecision::Forward { remaining_delay: 0 }
        } else if d <= dwell {
            RoutingDecision::Drop
        } else {
            RoutingDecision::Forward { remaining_delay: d - dwell }
        }
    } else if !is_provider {
        if p.is_surb_reply() {
            RoutingDecision::DecoyResponse
        } else {
            RoutingDecision::Drop
        }
    } else {
        if p.must_forward {
            RoutingDecision::Drop
        } else if p.is_to_user() || p.is_unreliable_to_user() || p.is_surb_reply() {
            RoutingDecision::UserDelivery
        } else {
            RoutingDecision::Drop
        }
    }
}

/// The terminal state a packet reaches within one worker iteration.
#[derive(Clone, Copy, Debug, PartialEq, Eq, Structural)]
pub enum ProcessResult {
    /// Dropped before any unwrap attempt: it waited longer than the
    /// worker's slack time.
    DwellDrop,
    /// Dropped during unwrap or replay checking.
    Failed(UnwrapPacketError),
    /// Unwrapped, replay-checked and routed.
    Routed(RoutingDecision),
}

/// One full worker iteration on one packet: dwell check, unwrap
/// settlement against the candidate epochs, replay check, and routing.
///
/// A packet that dwelled past `slack` is dropped before any unwrap
/// attempt and before any replay-cache change.
#[verifier::loop_isolation(false)]
pub fn process_packet(
    packet: &mut Packet,
    now_ms: u64,
    slack: u64,
    t: &Time,
    grace: u64,
    keys: &mut MixKeys,
    attempts: Vec<SphinxAttempt>,
    is_provider: bool,
) -> (r: ProcessResult)
    requires
        old(keys).wf(),
        attempts@.len() == candidates_spec(*t, grace).len(),
        attempts_wf(attempts@),
    ensures
        final(keys).wf(),
        forall|e: u64| final(keys).contains_epoch(e) <==> old(keys).contains_epoch(e),
        forall|e: u64|
            old(keys).contains_epoch(e) ==> final(keys).key_bytes_of(e) == old(keys).key_bytes_of(
                e,
            ),
        r == ProcessResult::DwellDrop <==> dwell_spec(now_ms, old(packet).receive_time) > slack,
        dwell_spec(now_ms, old(packet).receive_time) > slack ==> *final(packet) == *old(packet)
            && *final(keys) == *old(keys),
        dwell_spec(now_ms, old(packet).receive_time) <= slack ==> {
            let dwell = dwell_spec(now_ms, old(packet).receive_time);
            if !old(keys).contains_epoch(t.epoch) {
                r == ProcessResult::Failed(UnwrapPacketError::NoKey) && *final(packet) == *old(
                    packet,
                ) && *final(keys) == *old(keys)
            } else {
                match first_usable(*old(keys), candidates_spec(*t, grace), attempts@, 0) {
                    None => r == ProcessResult::Failed(UnwrapPacketError::UnwrapFailed)
                        && *final(packet) == *old(packet) && *final(keys) == *old(keys),
                    Some(i) => {
                        let ep = candidates_spec(*t, grace)[i];
                        let att = attempts@[i];
                        match attempt_tag(att) {
                            None => r == ProcessResult::Routed(route_spec(*final(packet), dwell, is_provider))
                                && *final(keys) == *old(keys) && attached(
                                *old(packet),
                                *final(packet),
                                attempt_payload(att),
                                attempt_cmds(att),
                            ),
                            Some(tg) => {
                                &&& (r is Routed ==> r == ProcessResult::Routed(route_spec(*final(packet), dwell, is_provider))
                                    && !old(keys).replay_set_of(ep).contains(tg@)
                                    && final(keys).replay_set_of(ep) == old(keys).replay_set_of(ep).insert(tg@)
                                    && attached(
                                    *old(packet),
                                    *final(packet),
                                    attempt_payload(att),
                                    attempt_cmds(att),
                                ))
                                &&& (r == ProcessResult::Failed(UnwrapPacketError::Replay) ==> old(
                                    keys,
                                ).replay_set_of(ep).contains(tg@) && *final(packet) == *old(packet))
                                &&& (r is Failed ==> (r == ProcessResult::Failed(UnwrapPacketError::Replay)
                                    || r == ProcessResult::Failed(UnwrapPacketError::CacheFail))
                                    && *final(packet) == *old(packet))
                                &&& (r is Failed ==> final(keys).replay_set_of(ep) == old(keys).replay_set_of(ep)
                                    || final(keys).replay_set_of(ep) == old(keys).replay_set_of(ep).insert(tg@))
                                &&& forall|e2: u64|
                                    e2 != ep && old(keys).contains_epoch(e2) ==> final(keys).replay_set_of(e2) == old(keys).replay_set_of(e2)
                                &&& (r is Routed || r is Failed)
                            },
                        }
                    },
                }
            }
        },
{
    let dwell = dwell_ms(now_ms, packet.receive_time);
    if dwell > slack {
        return ProcessResult::DwellDrop;
    }
    match unwrap_packet(packet, t, grace, keys, attempts) {
        Err(e) => ProcessResult::Failed(e),
        Ok(()) => {
            let d = route_packet(packet, dwell, is_provider);
            ProcessResult::Routed(d)
        },
    }
}

/// The candidate-epoch law: just after a rollover the previous epoch is
/// tried after the current one; just before a rollover the next; in the
/// middle of an epoch only the current one.
pub proof fn lemma_epoch_candidates(t: Time, grace: u64)
    requires
        t.epoch >= 1,
        t.epoch < u64::MAX,
    ensures
        t.elapsed < grace ==> candidates_spec(t, grace) == seq![t.epoch, (t.epoch - 1) as u64],
        t.elapsed >= grace && t.till < grace ==> candidates_spec(t, grace) == seq![
            t.epoch,
            (t.epoch + 1) as u64,
        ],
        t.elapsed >= grace && t.till >= grace ==> candidates_spec(t, grace) == seq![t.epoch],
{
}

/// The provider routing matrix: a provider drops forward packets that a
/// peer mix handed it, and drops client-origin packets that are not
/// forwards; a mix that is no provider drops everything that is neither
/// a forward nor a SURB reply.
pub proof fn lemma_provider_routing(p: Packet, dwell: u64)
    ensures
        p.is_forward_spec() && p.must_terminate ==> route_spec(p, dwell, true)
            == RoutingDecision::Drop,
        !p.is_forward_spec() && p.must_forward ==> route_spec(p, dwell, true)
            == RoutingDecision::Drop,
        !p.is_forward_spec() && !p.is_surb_reply_spec() ==> route_spec(p, dwell, false)
            == RoutingDecision::Drop,
{
}

} // verus!
