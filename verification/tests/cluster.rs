use l4lb::cluster::accept_fields;
use l4lb::cluster::receive_item;
use l4lb::cluster::BroadcastKey;
use l4lb::cluster::BroadcastMessage;
use l4lb::cluster::Cluster;
use l4lb::cluster::ClusterAction;
use l4lb::cluster::ClusterCommand;
use l4lb::cluster::ClusterError;
use l4lb::cluster::ClusterEvent;
use l4lb::cluster::NodeIdentity;
use l4lb::cluster::MAX_DATAGRAM;
use l4lb::cluster::TICK_MS;
use l4lb::networking::proxy_protocol::SocketAddr;

fn here() -> SocketAddr {
    SocketAddr::V4 { ip: [10, 0, 0, 1], port: 9090 }
}

fn same(a: &SocketAddr, b: &SocketAddr) -> bool {
    match (a, b) {
        (SocketAddr::V4 { ip: x, port: p }, SocketAddr::V4 { ip: y, port: q }) => x == y && p == q,
        (SocketAddr::V6 { ip: x, port: p }, SocketAddr::V6 { ip: y, port: q }) => x == y && p == q,
        _ => false,
    }
}

#[test]
fn key_invalidates_only_its_like() {
    let k = BroadcastKey::new(1, "cpu".to_string());
    assert!(k.invalidates(&BroadcastKey::new(1, "cpu".to_string())));
    assert!(!k.invalidates(&BroadcastKey::new(2, "cpu".to_string())));
    assert!(!k.invalidates(&BroadcastKey::new(1, "mem".to_string())));
    assert_eq!(k.node_id(), 1);
    assert_eq!(k.key(), "cpu");
}

#[test]
fn identity_is_renewed_at_the_same_address() {
    let me = NodeIdentity { addr: here(), id: 5 };
    let again = me.renewed_with(6);
    assert_eq!(again.id, 6);
    assert!(same(&again.addr, &here()));
    let random = me.renew().unwrap();
    assert!(same(&random.addr(), &here()));
    assert!(me.win_addr_conflict(&again));
    assert!(again.win_addr_conflict(&me));
}

#[test]
fn usage_update_goes_over_the_wire() {
    let cluster = Cluster::with_identity(here(), 0x1234_5678_9abc_def0);
    assert_eq!(cluster.identity().id, 0x1234_5678_9abc_def0);
    let command = ClusterCommand::BroadcastUsage("rule-a".to_string(), 77);
    let bytes = cluster.broadcast_for(&command).unwrap();
    // Kind, then the node as a nine-byte number, the key with its length, and
    // the usage.
    let mut expected = vec![0u8, 253];
    expected.extend_from_slice(&0x1234_5678_9abc_def0u64.to_le_bytes());
    expected.push(6);
    expected.extend_from_slice(b"rule-a");
    expected.push(77);
    assert_eq!(bytes, expected);

    let received = receive_item(&bytes).unwrap();
    assert!(received.key.invalidates(&BroadcastKey::new(0x1234_5678_9abc_def0, "rule-a".to_string())));
    assert_eq!(
        received.message,
        BroadcastMessage::UsageUpdate {
            node_id: 0x1234_5678_9abc_def0,
            key: "rule-a".to_string(),
            usage: 77
        }
    );
}

#[test]
fn bytes_after_a_message_are_ignored() {
    let received = receive_item(&[0, 9, 1, b'k', 3, 0xAA, 0xBB]).unwrap();
    assert_eq!(
        received.message,
        BroadcastMessage::UsageUpdate { node_id: 9, key: "k".to_string(), usage: 3 }
    );
}

#[test]
fn broken_bytes_are_refused() {
    assert!(matches!(receive_item(&[]), Err(ClusterError::Bincode(_))));
    assert!(matches!(receive_item(&[0, 9, 5, b'k']), Err(ClusterError::Bincode(_))));
    assert!(matches!(receive_item(&[0, 9, 1, 0xFF, 3]), Err(ClusterError::Bincode(_))));
}

#[test]
fn unknown_kinds_are_refused() {
    assert!(matches!(receive_item(&[1, 9, 1, b'k', 3]), Err(ClusterError::Bincode(_))));
    // Whether or not anything follows the kind.
    assert!(matches!(receive_item(&[1]), Err(ClusterError::Bincode(_))));
    assert!(accept_fields(7, 1, "k".to_string(), 2).is_none());
    let taken = accept_fields(0, 1, "k".to_string(), 2).unwrap();
    assert!(taken.key.invalidates(&BroadcastKey::new(1, "k".to_string())));
    assert_eq!(
        taken.message,
        BroadcastMessage::UsageUpdate { node_id: 1, key: "k".to_string(), usage: 2 }
    );
}

#[test]
fn announced_length_beyond_the_datagram_is_refused() {
    // Kind 0, node 0, then a key that claims the largest length there is.
    let mut data = vec![0u8, 0, 253];
    data.extend_from_slice(&[0xFF; 8]);
    assert!(matches!(receive_item(&data), Err(ClusterError::Bincode(_))));
    // A key of 65536 bytes is one too many, even if the bytes were there.
    let mut data = vec![0u8, 0, 252, 0x00, 0x00, 0x01, 0x00];
    data.extend_from_slice(&vec![b'a'; 65536]);
    data.push(1);
    assert!(matches!(receive_item(&data), Err(ClusterError::Bincode(_))));
    // A long key within the limit is taken.
    let mut data = vec![0u8, 0, 251, 0xE8, 0x03];
    data.extend_from_slice(&vec![b'a'; 1000]);
    data.push(1);
    let received = receive_item(&data).unwrap();
    assert_eq!(received.key.key().len(), 1000);
}

#[test]
fn gossip_loop_acts_on_events() {
    let cluster = Cluster::with_identity(here(), 3);
    assert!(matches!(cluster.run(&ClusterEvent::Tick), ClusterAction::Gossip));
    assert!(matches!(cluster.run(&ClusterEvent::Datagram(512)), ClusterAction::HandleData(512)));
    assert!(matches!(
        cluster.run(&ClusterEvent::Datagram(1 << 20)),
        ClusterAction::HandleData(MAX_DATAGRAM)
    ));
    let event = ClusterEvent::Command(ClusterCommand::BroadcastUsage("k".to_string(), 300));
    match cluster.run(&event) {
        ClusterAction::AddBroadcast(bytes) => {
            assert_eq!(bytes, vec![0, 3, 1, b'k', 251, 0x2C, 0x01]);
            let received = receive_item(&bytes).unwrap();
            assert_eq!(
                received.message,
                BroadcastMessage::UsageUpdate { node_id: 3, key: "k".to_string(), usage: 300 }
            );
        }
        _ => panic!("a command becomes a broadcast"),
    }
    assert_eq!(TICK_MS, 100);
}

#[test]
fn new_cluster_listens_where_it_was_told() {
    let cluster = Cluster::new(here());
    assert!(same(&cluster.identity().addr, &here()));
}
