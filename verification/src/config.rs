//! The configuration of a mesh node and the command-line arguments of a peer.
use vstd::prelude::*;

verus! {

/// The canonical text of the multiaddress written `s` (parsed as a libp2p
/// `Multiaddr` and written back), or `None` when `s` is not one.
pub uninterp spec fn multiaddr_text(s: Seq<char>) -> Option<Seq<char>>;

/// `s.parse::<libp2p::Multiaddr>()` followed by `to_string()`: the canonical
/// text of the multiaddress, or `None` when the parse fails. A function of
/// `s` alone.
#[verifier::external_body]
fn canonical_multiaddr(s: &str) -> (r: Option<String>)
    ensures
        match r {
            Some(t) => multiaddr_text(s@) == Some(t@),
            None => multiaddr_text(s@) is None,
        },
{
    match s.parse::<libp2p::Multiaddr>() {
        Ok(m) => Some(m.to_string()),
        Err(_) => None,
    }
}

/// The address of a peer, as given on its command line.
#[derive(Clone, Debug)]
pub struct Args {
    pub ip: String,
    pub port: u16,
}

/// The settings of a mesh node.
#[derive(Clone, Debug)]
pub struct NodeConfig {
    pub name: String,
    /// The canonical text of the multiaddress to listen on.
    pub listen_addr: String,
    /// The canonical texts of the multiaddresses of the first peers to reach.
    pub bootstrap_nodes: Vec<String>,
    pub topics: Vec<String>,
    pub enable_dht: bool,
    pub enable_quic: bool,
    pub enable_ble: bool,
    pub rpc_port: u16,
    pub key_path: Option<String>,
    pub enable_mdns: bool,
    pub log_level: String,
    pub gossipsub_heartbeart_ms: u64,
    pub max_message_size: usize,
    pub metrics_port: u16,
    pub data_dir: String,
}

/// What a configuration holds, as mathematical values.
pub struct NodeConfigView {
    pub name: Seq<char>,
    pub listen_addr: Seq<char>,
    pub bootstrap_nodes: Seq<Seq<char>>,
    pub topics: Seq<Seq<char>>,
    pub enable_dht: bool,
    pub enable_quic: bool,
    pub enable_ble: bool,
    pub rpc_port: u16,
    pub key_path: Option<Seq<char>>,
    pub enable_mdns: bool,
    pub log_level: Seq<char>,
    pub gossipsub_heartbeart_ms: u64,
    pub max_message_size: usize,
    pub metrics_port: u16,
    pub data_dir: Seq<char>,
}

/// The texts of a vector of strings.
pub open spec fn texts(v: Seq<String>) -> Seq<Seq<char>> {
    v.map_values(|s: String| s@)
}

/// The texts of a vector of string slices.
pub open spec fn str_texts(v: Seq<&str>) -> Seq<Seq<char>> {
    v.map_values(|s: &str| s@)
}

impl View for NodeConfig {
    type V = NodeConfigView;

    open spec fn view(&self) -> NodeConfigView {
        NodeConfigView {
            name: self.name@,
            listen_addr: self.listen_addr@,
            bootstrap_nodes: texts(self.bootstrap_nodes@),
            topics: texts(self.topics@),
            enable_dht: self.enable_dht,
            enable_quic: self.enable_quic,
            enable_ble: self.enable_ble,
            rpc_port: self.rpc_port,
            key_path: match self.key_path {
                Some(p) => Some(p@),
                None => None,
            },
            enable_mdns: self.enable_mdns,
            log_level: self.log_level@,
            gossipsub_heartbeart_ms: self.gossipsub_heartbeart_ms,
            max_message_size: self.max_message_size,
            metrics_port: self.metrics_port,
            data_dir: self.data_dir@,
        }
    }
}

/// The default settings, under the given node name.
pub open spec fn default_config(name: Seq<char>) -> NodeConfigView {
    NodeConfigView {
        name,
        listen_addr: "/ip4/0.0.0.0/udp/0/quic-v1"@,
        bootstrap_nodes: Seq::empty(),
        topics: seq!["mesh/events"@, "mesh/messages"@],
        enable_dht: true,
        enable_quic: true,
        enable_ble: false,
        rpc_port: 8080,
        key_path: None,
        enable_mdns: true,
        log_level: "info"@,
        gossipsub_heartbeart_ms: 500,
        max_message_size: 262144,
        metrics_port: 9090,
        data_dir: "/data"@,
    }
}

/// The settings of a named node differ from the defaults only by the name:
/// naming a node changes nothing else.
pub proof fn law_new_differs_only_by_name(n: Seq<char>, m: Seq<char>)
    ensures
        default_config(n) == (NodeConfigView { name: n, ..default_config(m) }),
        default_config(n) == (NodeConfigView { name: n, ..default_config("rustmesh-node"@) }),
{
}

/// Every text is a multiaddress.
pub open spec fn all_multiaddrs(v: Seq<Seq<char>>) -> bool {
    forall|i: int| 0 <= i < v.len() ==> (#[trigger] multiaddr_text(v[i])) is Some
}

/// The canonical texts of multiaddresses that all parse.
pub open spec fn canonical_texts(v: Seq<Seq<char>>) -> Seq<Seq<char>> {
    v.map_values(|s: Seq<char>| multiaddr_text(s)->0)
}

impl Default for NodeConfig {
    /// The default settings of a node named `rustmesh-node`.
    fn default() -> (c: NodeConfig)
        ensures
            c@ == default_config("rustmesh-node"@),
    {
        NodeConfig::new("rustmesh-node".to_string())
    }
}

impl NodeConfig {
    /// The default settings under the given name.
    pub fn new(name: String) -> (c: NodeConfig)
        ensures
            c@ == default_config(name@),
    {
        let topics = vec!["mesh/events".to_string(), "mesh/messages".to_string()];
        let c = NodeConfig {
            name,
            listen_addr: "/ip4/0.0.0.0/udp/0/quic-v1".to_string(),
            bootstrap_nodes: Vec::new(),
            topics,
            enable_dht: true,
            enable_quic: true,
            enable_ble: false,
            rpc_port: 8080,
            key_path: None,
            enable_mdns: true,
            log_level: "info".to_string(),
            gossipsub_heartbeart_ms: 500,
            max_message_size: 262144,
            metrics_port: 9090,
            data_dir: "/data".to_string(),
        };
        assert(c@.topics =~= seq!["mesh/events"@, "mesh/messages"@]);
        assert(c@.bootstrap_nodes =~= Seq::<Seq<char>>::empty());
        c
    }

    /// These settings, listening on the given multiaddress.
    pub fn with_addr(self, addr: &str) -> (c: NodeConfig)
        requires
            multiaddr_text(addr@) is Some,
        ensures
            c@ == (NodeConfigView { listen_addr: multiaddr_text(addr@)->0, ..self@ }),
    {
        let mut c = self;
        match canonical_multiaddr(addr) {
            Some(t) => {
                c.listen_addr = t;
            },
            None => {},
        }
        c
    }

    /// These settings listening on the given multiaddress, or `None` when
    /// `addr` is not a multiaddress.
    pub fn try_with_addr(self, addr: &str) -> (r: Option<NodeConfig>)
        ensures
            match r {
                Some(c) => multiaddr_text(addr@) is Some && c@ == (NodeConfigView {
                    listen_addr: multiaddr_text(addr@)->0,
                    ..self@
                }),
                None => multiaddr_text(addr@) is None,
            },
    {
        match canonical_multiaddr(addr) {
            Some(_) => Some(self.with_addr(addr)),
            None => None,
        }
    }

    /// These settings, with the given first peers to reach.
    pub fn with_bootstrap_nodes(self, peers: Vec<&str>) -> (c: NodeConfig)
        requires
            all_multiaddrs(str_texts(peers@)),
        ensures
            c@ == (NodeConfigView {
                bootstrap_nodes: canonical_texts(str_texts(peers@)),
                ..self@
            }),
    {
        let mut nodes: Vec<String> = Vec::new();
        let n = peers.len();
        for i in 0..n
            invariant
                n == peers@.len(),
                all_multiaddrs(str_texts(peers@)),
                nodes@.len() == i,
                texts(nodes@) =~= canonical_texts(str_texts(peers@)).take(i as int),
        {
            assert(multiaddr_text(str_texts(peers@)[i as int]) is Some);
            let ghost prev = nodes@;
            match canonical_multiaddr(peers[i]) {
                Some(t) => {
                    nodes.push(t);
                },
                None => {},
            }
            assert forall|j: int| 0 <= j < i + 1 implies #[trigger] texts(nodes@)[j]
                == canonical_texts(str_texts(peers@))[j] by {
                if j < i {
                    assert(nodes@[j] == prev[j]);
                    assert(texts(prev)[j] == canonical_texts(str_texts(peers@)).take(i as int)[j]);
                }
            }
            assert(texts(nodes@) =~= canonical_texts(str_texts(peers@)).take(i + 1));
        }
        assert(canonical_texts(str_texts(peers@)).take(n as int) =~= canonical_texts(
            str_texts(peers@),
        ));
        let mut c = self;
        c.bootstrap_nodes = nodes;
        c
    }

    /// These settings with the given first peers to reach, or `None` when one
    /// of them is not a multiaddress.
    pub fn try_with_bootstrap_nodes(self, peers: Vec<&str>) -> (r: Option<NodeConfig>)
        ensures
            match r {
                Some(c) => all_multiaddrs(str_texts(peers@)) && c@ == (NodeConfigView {
                    bootstrap_nodes: canonical_texts(str_texts(peers@)),
                    ..self@
                }),
                None => !all_multiaddrs(str_texts(peers@)),
            },
    {
        let n = peers.len();
        for i in 0..n
            invariant
                n == peers@.len(),
                forall|j: int| 0 <= j < i ==> (#[trigger] multiaddr_text(str_texts(peers@)[j])) is Some,
        {
            if canonical_multiaddr(peers[i]).is_none() {
                assert(multiaddr_text(str_texts(peers@)[i as int]) is None);
                return None;
            }
        }
        Some(self.with_bootstrap_nodes(peers))
    }

    /// These settings, with the given topics.
    pub fn with_topics(self, topics: Vec<&str>) -> (c: NodeConfig)
        ensures
            c@ == (NodeConfigView { topics: str_texts(topics@), ..self@ }),
    {
        let mut list: Vec<String> = Vec::new();
        let n = topics.len();
        for i in 0..n
            invariant
                n == topics@.len(),
                list@.len() == i,
                texts(list@) =~= str_texts(topics@).take(i as int),
        {
            let ghost prev = list@;
            let t: &str = topics[i];
            list.push(t.to_string());
            assert forall|j: int| 0 <= j < i + 1 implies #[trigger] texts(list@)[j] == str_texts(
                topics@,
            )[j] by {
                if j < i {
                    assert(list@[j] == prev[j]);
                    assert(texts(prev)[j] == str_texts(topics@).take(i as int)[j]);
                }
            }
            assert(texts(list@) =~= str_texts(topics@).take(i + 1));
        }
        assert(str_texts(topics@).take(n as int) =~= str_texts(topics@));
        let mut c = self;
        c.topics = list;
        c
    }

    /// These settings, with Bluetooth Low Energy enabled.
    pub fn set_enable_ble(self) -> (c: NodeConfig)
        ensures
            c@ == (NodeConfigView { enable_ble: true, ..self@ }),
    {
        let mut c = self;
        c.enable_ble = true;
        c
    }

    /// These settings, with the distributed hash table disabled.
    pub fn disable_dht(self) -> (c: NodeConfig)
        ensures
            c@ == (NodeConfigView { enable_dht: false, ..self@ }),
    {
        let mut c = self;
        c.enable_dht = false;
        c
    }
}

} // verus!
