use mix_server::commands::{Delay, NextHop, Recipient, RoutingCommand, SURBReply};
use mix_server::constants::SPHINX_PACKET_SIZE;
use mix_server::errors::PacketError;
use mix_server::packet::Packet;

fn now_millis() -> u64 {
    let d = std::time::SystemTime::now().duration_since(std::time::UNIX_EPOCH).unwrap();
    d.as_secs() * 1000 + (d.subsec_nanos() / 1_000_000) as u64
}

#[test]
fn wrong_size_is_refused() {
    assert_eq!(Packet::new(&vec![]).err(), Some(PacketError::WrongSize));
    assert_eq!(Packet::new(&vec![0u8; SPHINX_PACKET_SIZE - 1]).err(), Some(PacketError::WrongSize));
    assert_eq!(Packet::new(&vec![0u8; SPHINX_PACKET_SIZE + 1]).err(), Some(PacketError::WrongSize));
}

#[test]
fn correct_size_is_accepted_and_stamped() {
    let before = now_millis();
    let p = Packet::new(&vec![7u8; SPHINX_PACKET_SIZE]).unwrap();
    let after = now_millis();
    assert_eq!(p.raw.len(), SPHINX_PACKET_SIZE);
    assert!(p.raw.iter().all(|b| *b == 7));
    assert!(p.payload.is_none());
    assert!(p.next_hop.is_none());
    assert!(p.recipient.is_none());
    assert!(p.surb_reply.is_none());
    assert!(p.delay.is_none());
    assert!(!p.must_forward);
    assert!(!p.must_terminate);
    // The receive stamp lies within the call's clock window, with a
    // little slack for coarse clocks.
    assert!(p.receive_time >= before);
    assert!(p.receive_time <= after + 5);
}

#[test]
fn default_packet_is_blank() {
    let p = Packet::default();
    assert_eq!(p.raw.len(), SPHINX_PACKET_SIZE);
    assert!(p.raw.iter().all(|b| *b == 0));
    assert_eq!(p.receive_time, 0);
    assert!(!p.is_forward());
    assert!(!p.is_to_user());
    assert!(!p.is_unreliable_to_user());
    assert!(!p.is_surb_reply());
}

#[test]
fn set_commands_last_of_each_kind_wins() {
    let mut p = Packet::default();
    p.set_commands(vec![
        RoutingCommand::Delay(Delay { delay: 100 }),
        RoutingCommand::NextHop(NextHop { id: vec![1], mac: vec![2] }),
        RoutingCommand::Delay(Delay { delay: 500 }),
    ]);
    assert_eq!(p.delay.as_ref().unwrap().delay, 500);
    assert_eq!(p.next_hop.as_ref().unwrap().id, vec![1]);
    assert!(p.recipient.is_none());
    assert!(p.surb_reply.is_none());
    assert!(p.is_forward());
}

#[test]
fn set_commands_leaves_missing_kinds_alone() {
    let mut p = Packet::default();
    p.set_commands(vec![RoutingCommand::Recipient(Recipient { id: vec![9] })]);
    p.set_commands(vec![RoutingCommand::SURBReply(SURBReply { id: vec![4] })]);
    assert_eq!(p.recipient.as_ref().unwrap().id, vec![9]);
    assert_eq!(p.surb_reply.as_ref().unwrap().id, vec![4]);
    assert!(p.is_surb_reply());
}

#[test]
fn set_payload_stores_payload() {
    let mut p = Packet::default();
    p.set_payload(Some(vec![1, 2, 3]));
    assert_eq!(p.payload.as_ref().unwrap(), &vec![1, 2, 3]);
    p.set_payload(None);
    assert!(p.payload.is_none());
}

#[test]
fn classifications_are_exclusive() {
    // Forward: next-hop and delay present.
    let mut fwd = Packet::default();
    fwd.set_commands(vec![
        RoutingCommand::NextHop(NextHop { id: vec![1], mac: vec![] }),
        RoutingCommand::Delay(Delay { delay: 1 }),
    ]);
    assert!(fwd.is_forward());
    assert!(!fwd.is_to_user() && !fwd.is_unreliable_to_user() && !fwd.is_surb_reply());

    // To user: recipient and delay.
    let mut user = Packet::default();
    user.set_commands(vec![
        RoutingCommand::Recipient(Recipient { id: vec![2] }),
        RoutingCommand::Delay(Delay { delay: 1 }),
    ]);
    assert!(user.is_to_user());
    assert!(!user.is_forward() && !user.is_unreliable_to_user() && !user.is_surb_reply());

    // Unreliable to user: recipient only.
    let mut unrel = Packet::default();
    unrel.set_commands(vec![RoutingCommand::Recipient(Recipient { id: vec![3] })]);
    assert!(unrel.is_unreliable_to_user());
    assert!(!unrel.is_forward() && !unrel.is_to_user() && !unrel.is_surb_reply());

    // SURB reply: recipient and surb-reply.
    let mut surb = Packet::default();
    surb.set_commands(vec![
        RoutingCommand::Recipient(Recipient { id: vec![4] }),
        RoutingCommand::SURBReply(SURBReply { id: vec![5] }),
    ]);
    assert!(surb.is_surb_reply());
    assert!(!surb.is_forward() && !surb.is_to_user() && !surb.is_unreliable_to_user());
}
