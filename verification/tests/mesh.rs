use rustmesh::config::NodeConfig;
use rustmesh::mesh::{heartbeat_publication, plan_discovered, BehaviourSettings, DiscoveredPeer, MeshAction};

#[test]
fn discovered_peers_are_added_and_dialed_unless_connected() {
    let found = vec![
        DiscoveredPeer { peer_id: vec![1, 2], connected: false },
        DiscoveredPeer { peer_id: vec![3], connected: true },
    ];
    let actions = plan_discovered(&found);
    assert_eq!(actions.len(), 3);
    assert!(matches!(&actions[0], MeshAction::AddExplicitPeer(p) if *p == vec![1, 2]));
    assert!(matches!(&actions[1], MeshAction::Dial(p) if *p == vec![1, 2]));
    assert!(matches!(&actions[2], MeshAction::AddExplicitPeer(p) if *p == vec![3]));
    assert!(plan_discovered(&vec![]).is_empty());
}

#[test]
fn heartbeat_greeting() {
    let (topic, data) = heartbeat_publication("node-1");
    assert_eq!(topic, "mesh/messages");
    assert_eq!(data, b"Hello from [node-1]".to_vec());
}

#[test]
fn behaviour_settings_follow_the_config() {
    let c = NodeConfig::new("x".to_string()).with_topics(vec!["topic1", "topic2"]);
    let s = BehaviourSettings::from_config(&c, &vec![0, 36, 8, 1]);
    assert!(s.strict_validation);
    assert!(s.sign_with_node_key);
    assert_eq!(s.kademlia_local_id, vec![0, 36, 8, 1]);
    assert_eq!(s.max_transmit_size, 262144);
    assert_eq!(s.heartbeat_ms, 500);
    assert_eq!(s.history_length, 120);
    assert_eq!(s.history_gossip, 10);
    assert_eq!(s.max_ihave_length, 100);
    assert_eq!(s.max_ihave_messages, 500);
    assert_eq!(s.identify_protocol, "/rustmesh/1.0.0");
    assert_eq!(s.mdns_ttl_secs, 60);
    assert_eq!(s.mdns_query_interval_secs, 5);
    assert!(!s.mdns_enable_ipv6);
    assert_eq!(s.topics, vec!["topic1".to_string(), "topic2".to_string()]);
}

#[test]
fn repeated_reports_follow_each_report() {
    let found = vec![
        DiscoveredPeer { peer_id: vec![4], connected: true },
        DiscoveredPeer { peer_id: vec![4], connected: false },
    ];
    let actions = plan_discovered(&found);
    let dials = actions.iter().filter(|a| matches!(a, MeshAction::Dial(_))).count();
    let adds = actions.iter().filter(|a| matches!(a, MeshAction::AddExplicitPeer(_))).count();
    assert_eq!(adds, 2);
    assert_eq!(dials, 1);
}
