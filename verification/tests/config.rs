use rustmesh::config::NodeConfig;

#[test]
fn test_default() {
    let node_config = NodeConfig::default();

    assert!(!node_config.name.is_empty());
    assert!(node_config.enable_quic);
    assert!(node_config.listen_addr.to_string().contains("quic"));
}

#[test]
fn test_new() {
    let node_config = NodeConfig::new("onweb-node".to_string());

    assert_eq!(node_config.name, "onweb-node");
    assert!(node_config.enable_quic);
}

#[test]
fn test_with_topics() {
    let node_config =
        NodeConfig::new("test-node".to_string()).with_topics(vec!["topic1", "topic2"]);

    assert_eq!(node_config.topics.len(), 2);
}

#[test]
fn test_bootstrap() {
    let config = NodeConfig::new("test-node".to_string())
        .with_bootstrap_nodes(vec!["/ip4/0.0.0.0/udp/01/quic-v1"]);

    assert_eq!(
        config.bootstrap_nodes,
        vec!["/ip4/0.0.0.0/udp/01/quic-v1".parse::<libp2p::Multiaddr>().unwrap().to_string()]
    );
}

#[test]
fn default_values() {
    let c = NodeConfig::default();
    assert_eq!(c.name, "rustmesh-node");
    assert_eq!(c.listen_addr, "/ip4/0.0.0.0/udp/0/quic-v1");
    assert!(c.bootstrap_nodes.is_empty());
    assert_eq!(c.topics, vec!["mesh/events".to_string(), "mesh/messages".to_string()]);
    assert!(c.enable_dht);
    assert!(!c.enable_ble);
    assert_eq!(c.rpc_port, 8080);
    assert_eq!(c.key_path, None);
    assert!(c.enable_mdns);
    assert_eq!(c.log_level, "info");
    assert_eq!(c.gossipsub_heartbeart_ms, 500);
    assert_eq!(c.max_message_size, 262144);
    assert_eq!(c.metrics_port, 9090);
    assert_eq!(c.data_dir, "/data");
}

#[test]
fn builders_change_one_setting() {
    let c = NodeConfig::new("n".to_string()).set_enable_ble().disable_dht();
    assert!(c.enable_ble);
    assert!(!c.enable_dht);
    assert_eq!(c.name, "n");
    let c = c.with_addr("/ip4/127.0.0.1/udp/09000/quic-v1");
    assert_eq!(c.listen_addr, "/ip4/127.0.0.1/udp/9000/quic-v1");
    assert_eq!(c.with_topics(vec!["a"]).topics, vec!["a".to_string()]);
}

#[test]
fn invalid_addresses_are_refused() {
    assert!(NodeConfig::new("n".to_string()).try_with_addr("not an address").is_none());
    assert!(NodeConfig::new("n".to_string())
        .try_with_bootstrap_nodes(vec!["/ip4/1.2.3.4/udp/5/quic-v1", "bogus"])
        .is_none());
    let c = NodeConfig::new("n".to_string())
        .try_with_bootstrap_nodes(vec!["/ip4/1.2.3.4/udp/5/quic-v1"])
        .unwrap();
    assert_eq!(c.bootstrap_nodes, vec!["/ip4/1.2.3.4/udp/5/quic-v1".to_string()]);
}
