use rustmesh::identity::Peer;
use rustmesh::peers::{add_peer, list_peers, remove_peer, PeerTable};
use rustmesh::service::{on_service_resolved, ResolveStep};

#[test]
fn add_list_remove() {
    let mut table = PeerTable::new();
    assert!(list_peers(&table).is_empty());
    let a = Peer::new("10.0.0.1", 1);
    let b = Peer::new("10.0.0.2", 2);
    let ka = a.id.encode();
    let kb = b.id.encode();
    add_peer(&mut table, a.clone());
    add_peer(&mut table, b.clone());
    let mut listed = list_peers(&table);
    listed.sort();
    let mut expected = vec![ka.clone(), kb.clone()];
    expected.sort();
    assert_eq!(listed, expected);
    remove_peer(&mut table, a.clone());
    assert_eq!(list_peers(&table), vec![kb.clone()]);
    remove_peer(&mut table, a);
    assert_eq!(list_peers(&table), vec![kb]);
}

#[test]
fn same_identity_is_recorded_once() {
    let mut table = PeerTable::new();
    let a = Peer::new("10.0.0.1", 1);
    let mut moved = a.clone();
    moved.ip = "10.0.0.9".to_string();
    add_peer(&mut table, a.clone());
    add_peer(&mut table, moved);
    assert_eq!(list_peers(&table), vec![a.id.encode()]);
}

#[test]
fn resolved_services() {
    let mut table = PeerTable::new();
    let me = Peer::new("127.0.0.1", 8080);
    let mine = me.clone();
    let step = on_service_resolved(&mut table, &me.id, mine, Some("127.0.0.1".to_string()), 8080);
    assert!(matches!(step, ResolveStep::Continue));
    assert!(list_peers(&table).is_empty());

    let other = Peer::new("10.0.0.3", 5200);
    let key = other.id.encode();
    let step = on_service_resolved(&mut table, &me.id, other.clone(), None, 5200);
    assert!(matches!(step, ResolveStep::Continue));
    assert_eq!(list_peers(&table), vec![key.clone()]);
    match on_service_resolved(&mut table, &me.id, other, Some("10.0.0.3".to_string()), 5200) {
        ResolveStep::Connect { ip, port } => {
            assert_eq!(ip, "10.0.0.3");
            assert_eq!(port, 5200);
        }
        ResolveStep::Continue => panic!("expected to connect"),
    }
    assert_eq!(list_peers(&table), vec![key]);
}

#[test]
fn added_peer_listed_once_after_other_calls() {
    let mut table = PeerTable::new();
    let a = Peer::new("10.0.0.1", 1);
    let b = Peer::new("10.0.0.2", 2);
    let key = a.id.encode();
    add_peer(&mut table, a.clone());
    add_peer(&mut table, b.clone());
    add_peer(&mut table, a.clone());
    remove_peer(&mut table, b);
    let listed = list_peers(&table);
    assert_eq!(listed.iter().filter(|k| **k == key).count(), 1);
}
