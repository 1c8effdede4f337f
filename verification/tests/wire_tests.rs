use mix_server::constants::SPHINX_PACKET_SIZE;
use mix_server::wire_worker::{reader_action, Command, ReaderAction};

#[test]
fn noop_commands_reach_the_reader_and_stop_there() {
    // Three no-ops from an authenticated peer: each is dropped and no
    // packet is handed to the crypto workers.
    let mut enqueued = 0;
    for _ in 0..3 {
        let a = reader_action(Command::NoOp, false, true);
        match a {
            ReaderAction::DropCommand => {},
            ReaderAction::EnqueuePacket(_) => enqueued += 1,
            other => panic!("unexpected action {:?}", other),
        }
    }
    assert_eq!(enqueued, 0);
}

#[test]
fn send_packet_from_client_is_enqueued_marked_forward() {
    let bytes = vec![9u8; SPHINX_PACKET_SIZE];
    let a = reader_action(Command::SendPacket { sphinx_packet: bytes.clone() }, true, false);
    match a {
        ReaderAction::EnqueuePacket(p) => {
            assert_eq!(p.raw, bytes);
            assert!(p.must_forward);
            assert!(!p.must_terminate);
        },
        other => panic!("unexpected action {:?}", other),
    }
}

#[test]
fn send_packet_from_peer_on_provider_must_terminate() {
    let bytes = vec![1u8; SPHINX_PACKET_SIZE];
    let a = reader_action(Command::SendPacket { sphinx_packet: bytes }, false, true);
    match a {
        ReaderAction::EnqueuePacket(p) => {
            assert!(!p.must_forward);
            assert!(p.must_terminate);
        },
        other => panic!("unexpected action {:?}", other),
    }
}

#[test]
fn send_packet_from_peer_on_mix_is_plain() {
    let bytes = vec![1u8; SPHINX_PACKET_SIZE];
    let a = reader_action(Command::SendPacket { sphinx_packet: bytes }, false, false);
    match a {
        ReaderAction::EnqueuePacket(p) => {
            assert!(!p.must_forward);
            assert!(!p.must_terminate);
        },
        other => panic!("unexpected action {:?}", other),
    }
}

#[test]
fn wrong_size_send_packet_is_dropped() {
    let a = reader_action(Command::SendPacket { sphinx_packet: vec![0u8; 5] }, true, false);
    assert!(matches!(a, ReaderAction::DropCommand));
}

#[test]
fn retrieve_message_only_from_clients() {
    let a = reader_action(Command::RetrieveMessage { sequence: 7 }, true, true);
    match a {
        ReaderAction::MailboxHandoff { sequence } => assert_eq!(sequence, 7),
        other => panic!("unexpected action {:?}", other),
    }
    let b = reader_action(Command::RetrieveMessage { sequence: 7 }, false, true);
    assert!(matches!(b, ReaderAction::Rejected));
}

#[test]
fn get_consensus_only_from_clients() {
    let a = reader_action(Command::GetConsensus { epoch: 42 }, true, false);
    match a {
        ReaderAction::PkiHandoff { epoch } => assert_eq!(epoch, 42),
        other => panic!("unexpected action {:?}", other),
    }
    let b = reader_action(Command::GetConsensus { epoch: 42 }, false, false);
    assert!(matches!(b, ReaderAction::Rejected));
}

#[test]
fn disconnect_closes_the_session() {
    let a = reader_action(Command::Disconnect, true, false);
    assert!(matches!(a, ReaderAction::CloseSession));
}
