//! The decisions of a mesh node: the settings its network behaviour is built
//! with, what it does when peers are discovered, and what it publishes on
//! each heartbeat.
use vstd::prelude::*;
use vstd::string::{StrSliceExecFns, StringExecFns};
use vstd::utf8::encode_utf8;
use crate::config::{default_config, texts, NodeConfig};
use crate::error::RustMeshError;

verus! {

/// A transport that a node listens and dials on.
pub trait Transport {
    /// Starts listening on the multiaddress `addr`.
    fn listen(&mut self, addr: &str) -> Result<(), RustMeshError>;

    /// Starts dialing the multiaddress `addr`.
    fn dial(&mut self, addr: &str) -> Result<(), RustMeshError>;
}

/// The settings a node's network behaviour is built with.
pub struct BehaviourSettings {
    /// Gossip validates every message strictly (it must carry a valid
    /// signature, author and sequence number).
    pub strict_validation: bool,
    /// Gossip signs the messages it publishes with the node's own key.
    pub sign_with_node_key: bool,
    /// The bytes of the local peer id the Kademlia table and store are built for.
    pub kademlia_local_id: Vec<u8>,
    /// The largest message gossip transmits, in bytes.
    pub max_transmit_size: usize,
    /// The interval between gossip heartbeats, in milliseconds.
    pub heartbeat_ms: u64,
    /// How many heartbeats a peer remembers messages for.
    pub history_length: usize,
    /// How many heartbeats of messages are gossiped.
    pub history_gossip: usize,
    /// The most message ids sent in one IHAVE.
    pub max_ihave_length: usize,
    /// The most IHAVE messages kept track of.
    pub max_ihave_messages: usize,
    /// The protocol that identify announces.
    pub identify_protocol: String,
    /// How long a peer found by mDNS is kept, in seconds.
    pub mdns_ttl_secs: u64,
    /// The interval between mDNS queries, in seconds.
    pub mdns_query_interval_secs: u64,
    /// Whether mDNS uses IPv6.
    pub mdns_enable_ipv6: bool,
    /// The topics subscribed to at start.
    pub topics: Vec<String>,
}

impl BehaviourSettings {
    /// The settings for a node with the given configuration; gossip signs with
    /// the node's key and validates strictly, and Kademlia is built for the node.
    /// `local_peer_id` holds the bytes of the node's libp2p peer id.
    pub fn from_config(config: &NodeConfig, local_peer_id: &Vec<u8>) -> (s: BehaviourSettings)
        ensures
            s.strict_validation,
            s.sign_with_node_key,
            s.kademlia_local_id@ == local_peer_id@,
            s.max_transmit_size == config.max_message_size,
            s.heartbeat_ms == config.gossipsub_heartbeart_ms,
            s.history_length == 120,
            s.history_gossip == 10,
            s.max_ihave_length == 100,
            s.max_ihave_messages == 500,
            s.identify_protocol@ == "/rustmesh/1.0.0"@,
            s.mdns_ttl_secs == 60,
            s.mdns_query_interval_secs == 5,
            !s.mdns_enable_ipv6,
            texts(s.topics@) == texts(config.topics@),
    {
        let mut topics: Vec<String> = Vec::new();
        let n = config.topics.len();
        for i in 0..n
            invariant
                n == config.topics@.len(),
                topics@.len() == i,
                forall|j: int| 0 <= j < i ==> #[trigger] topics@[j]@ == config.topics@[j]@,
        {
            topics.push(config.topics[i].clone());
        }
        assert(texts(topics@) =~= texts(config.topics@));
        BehaviourSettings {
            strict_validation: true,
            sign_with_node_key: true,
            kademlia_local_id: copy_bytes(local_peer_id),
            max_transmit_size: config.max_message_size,
            heartbeat_ms: config.gossipsub_heartbeart_ms,
            history_length: 120,
            history_gossip: 10,
            max_ihave_length: 100,
            max_ihave_messages: 500,
            identify_protocol: String::from_str("/rustmesh/1.0.0"),
            mdns_ttl_secs: 60,
            mdns_query_interval_secs: 5,
            mdns_enable_ipv6: false,
            topics,
        }
    }
}

/// A peer that mDNS reported, with whether the node is already connected to it.
pub struct DiscoveredPeer {
    /// The bytes of the peer's libp2p id.
    pub peer_id: Vec<u8>,
    pub connected: bool,
}

/// What a node asks of its swarm.
pub enum MeshAction {
    /// Add the peer as an explicit gossip peer.
    AddExplicitPeer(Vec<u8>),
    /// Dial the peer.
    Dial(Vec<u8>),
}

/// An action, as mathematical values.
pub enum MeshActionView {
    AddExplicitPeer(Seq<u8>),
    Dial(Seq<u8>),
}

impl View for MeshAction {
    type V = MeshActionView;

    open spec fn view(&self) -> MeshActionView {
        match self {
            MeshAction::AddExplicitPeer(p) => MeshActionView::AddExplicitPeer(p@),
            MeshAction::Dial(p) => MeshActionView::Dial(p@),
        }
    }
}

/// The actions for one discovered peer: it becomes an explicit gossip peer,
/// and it is dialed unless the node is already connected to it.
pub open spec fn actions_for(peer: Seq<u8>, connected: bool) -> Seq<MeshActionView> {
    if connected {
        seq![MeshActionView::AddExplicitPeer(peer)]
    } else {
        seq![MeshActionView::AddExplicitPeer(peer), MeshActionView::Dial(peer)]
    }
}

/// The actions for discovered peers, taken in the order they were reported.
pub open spec fn discovery_actions(found: Seq<(Seq<u8>, bool)>) -> Seq<MeshActionView>
    decreases found.len(),
{
    if found.len() == 0 {
        Seq::empty()
    } else {
        discovery_actions(found.drop_last()) + actions_for(found.last().0, found.last().1)
    }
}

/// The discovered peers, as mathematical values.
pub open spec fn found_view(found: Seq<DiscoveredPeer>) -> Seq<(Seq<u8>, bool)> {
    found.map_values(|d: DiscoveredPeer| (d.peer_id@, d.connected))
}

/// The views of a sequence of actions.
pub open spec fn actions_view(actions: Seq<MeshAction>) -> Seq<MeshActionView> {
    actions.map_values(|a: MeshAction| a@)
}

/// A copy of some bytes.
fn copy_bytes(b: &Vec<u8>) -> (c: Vec<u8>)
    ensures
        c@ == b@,
{
    let mut c: Vec<u8> = Vec::new();
    let n = b.len();
    for i in 0..n
        invariant
            n == b@.len(),
            c@ == b@.take(i as int),
    {
        c.push(b[i]);
        assert(b@.take(i + 1) =~= b@.take(i as int).push(b@[i as int]));
    }
    assert(b@.take(n as int) =~= b@);
    c
}

/// What the node asks of its swarm when mDNS reports peers.
pub fn plan_discovered(found: &Vec<DiscoveredPeer>) -> (actions: Vec<MeshAction>)
    ensures
        actions_view(actions@) == discovery_actions(found_view(found@)),
        actions@.len() == found@.len() + unconnected_count(found_view(found@)),
{
    let mut actions: Vec<MeshAction> = Vec::new();
    let n = found.len();
    for i in 0..n
        invariant
            n == found@.len(),
            actions_view(actions@) == discovery_actions(found_view(found@).take(i as int)),
    {
        let ghost before = actions@;
        let d = &found[i];
        actions.push(MeshAction::AddExplicitPeer(copy_bytes(&d.peer_id)));
        if !d.connected {
            actions.push(MeshAction::Dial(copy_bytes(&d.peer_id)));
        }
        proof {
            let fv = found_view(found@);
            assert(fv.take(i + 1).drop_last() =~= fv.take(i as int));
            assert(fv.take(i + 1).last() == fv[i as int]);
            assert(actions_view(actions@) =~= actions_view(before) + actions_for(
                fv[i as int].0,
                fv[i as int].1,
            ));
        }
    }
    assert(found_view(found@).take(n as int) =~= found_view(found@));
    proof {
        law_discovery_length(found_view(found@));
    }
    actions
}

/// Every discovered peer becomes an explicit gossip peer, and no other peer does.
pub proof fn law_discovered_peers_are_added(found: Seq<(Seq<u8>, bool)>, p: Seq<u8>)
    ensures
        discovery_actions(found).contains(MeshActionView::AddExplicitPeer(p)) <==> exists|i: int|
            0 <= i < found.len() && (#[trigger] found[i]).0 == p,
    decreases found.len(),
{
    if found.len() > 0 {
        let init = found.drop_last();
        law_discovered_peers_are_added(init, p);
        let tail = actions_for(found.last().0, found.last().1);
        let a = MeshActionView::AddExplicitPeer(p);
        if discovery_actions(found).contains(a) {
            let k = choose|k: int| 0 <= k < discovery_actions(found).len() && discovery_actions(found)[k] == a;
            if k < discovery_actions(init).len() {
                assert(discovery_actions(init)[k] == a);
                let i = choose|i: int| 0 <= i < init.len() && (#[trigger] init[i]).0 == p;
                assert(found[i] == init[i]);
            } else {
                assert(tail[k - discovery_actions(init).len()] == a);
                assert(found[found.len() - 1].0 == p);
            }
        }
        if exists|i: int| 0 <= i < found.len() && (#[trigger] found[i]).0 == p {
            let i = choose|i: int| 0 <= i < found.len() && (#[trigger] found[i]).0 == p;
            if i < found.len() - 1 {
                assert(init[i] == found[i]);
                let k = choose|k: int| 0 <= k < discovery_actions(init).len() && discovery_actions(init)[k] == a;
                assert(discovery_actions(found)[k] == a);
            } else {
                assert(discovery_actions(found)[discovery_actions(init).len() as int] == a);
            }
        }
    }
}

/// A discovered peer is dialed exactly when it was reported while the node
/// was not connected to it.
pub proof fn law_only_unconnected_peers_are_dialed(found: Seq<(Seq<u8>, bool)>, p: Seq<u8>)
    ensures
        discovery_actions(found).contains(MeshActionView::Dial(p)) <==> exists|i: int|
            0 <= i < found.len() && (#[trigger] found[i]).0 == p && !found[i].1,
    decreases found.len(),
{
    if found.len() > 0 {
        let init = found.drop_last();
        law_only_unconnected_peers_are_dialed(init, p);
        let tail = actions_for(found.last().0, found.last().1);
        let a = MeshActionView::Dial(p);
        if discovery_actions(found).contains(a) {
            let k = choose|k: int| 0 <= k < discovery_actions(found).len() && discovery_actions(found)[k] == a;
            if k < discovery_actions(init).len() {
                assert(discovery_actions(init)[k] == a);
                let i = choose|i: int| 0 <= i < init.len() && (#[trigger] init[i]).0 == p && !init[i].1;
                assert(found[i] == init[i]);
            } else {
                assert(tail[k - discovery_actions(init).len()] == a);
                assert(found[found.len() - 1].0 == p && !found[found.len() - 1].1);
            }
        }
        if exists|i: int| 0 <= i < found.len() && (#[trigger] found[i]).0 == p && !found[i].1 {
            let i = choose|i: int| 0 <= i < found.len() && (#[trigger] found[i]).0 == p && !found[i].1;
            if i < found.len() - 1 {
                assert(init[i] == found[i]);
                let k = choose|k: int| 0 <= k < discovery_actions(init).len() && discovery_actions(init)[k] == a;
                assert(discovery_actions(found)[k] == a);
            } else {
                assert(discovery_actions(found)[discovery_actions(init).len() + 1int] == a);
            }
        }
    }
}

/// Reports handled as two batches give the actions of the first batch, then
/// those of the second: every report is acted on by itself, in order.
pub proof fn law_discovery_batches(a: Seq<(Seq<u8>, bool)>, b: Seq<(Seq<u8>, bool)>)
    ensures
        discovery_actions(a + b) == discovery_actions(a) + discovery_actions(b),
    decreases b.len(),
{
    if b.len() == 0 {
        assert(a + b =~= a);
        assert(discovery_actions(a) + discovery_actions(b) =~= discovery_actions(a));
    } else {
        let bi = b.drop_last();
        law_discovery_batches(a, bi);
        assert((a + b).drop_last() =~= a + bi);
        assert((a + b).last() == b.last());
        assert(discovery_actions(a + b) =~= discovery_actions(a) + discovery_actions(b));
    }
}

/// A single report: the peer becomes an explicit gossip peer, and is then
/// dialed once when the node is not connected to it, and not at all when it is.
pub proof fn law_discovery_single(p: Seq<u8>)
    ensures
        discovery_actions(seq![(p, false)]) == seq![
            MeshActionView::AddExplicitPeer(p),
            MeshActionView::Dial(p),
        ],
        discovery_actions(seq![(p, true)]) == seq![MeshActionView::AddExplicitPeer(p)],
{
    let s0 = seq![(p, false)];
    let s1 = seq![(p, true)];
    assert(s0.drop_last() =~= Seq::<(Seq<u8>, bool)>::empty());
    assert(s1.drop_last() =~= Seq::<(Seq<u8>, bool)>::empty());
    assert(discovery_actions(Seq::<(Seq<u8>, bool)>::empty()) =~= Seq::empty());
    assert(s0.last() == (p, false));
    assert(actions_for(p, false) =~= seq![
        MeshActionView::AddExplicitPeer(p),
        MeshActionView::Dial(p),
    ]);
    assert(discovery_actions(s0) =~= seq![
        MeshActionView::AddExplicitPeer(p),
        MeshActionView::Dial(p),
    ]);
    assert(discovery_actions(s1) =~= seq![MeshActionView::AddExplicitPeer(p)]);
}

/// How many of the reported peers the node was not connected to.
pub open spec fn unconnected_count(found: Seq<(Seq<u8>, bool)>) -> nat
    decreases found.len(),
{
    if found.len() == 0 {
        0
    } else {
        unconnected_count(found.drop_last()) + if found.last().1 {
            0nat
        } else {
            1nat
        }
    }
}

/// Every reported peer gives exactly one action for being added, and one more
/// for being dialed exactly when the node was not connected to it.
pub proof fn law_discovery_length(found: Seq<(Seq<u8>, bool)>)
    ensures
        discovery_actions(found).len() == found.len() + unconnected_count(found),
    decreases found.len(),
{
    if found.len() > 0 {
        let init = found.drop_last();
        let e = found.last();
        law_discovery_length(init);
        assert(found =~= init + seq![e]);
        law_discovery_batches(init, seq![e]);
        law_discovery_single(e.0);
        assert(seq![(e.0, e.1)] =~= seq![e]);
    }
}

/// The topic a node greets the mesh on.
pub open spec fn heartbeat_topic() -> Seq<char> {
    "mesh/messages"@
}

/// The greeting a node publishes on each heartbeat.
pub open spec fn heartbeat_text(node_name: Seq<char>) -> Seq<char> {
    "Hello from ["@ + node_name + "]"@
}

/// The greeting holds the whole node name, unchanged, between `Hello from [`
/// and `]`, whatever the name.
pub proof fn law_heartbeat_holds_whole_name(n: Seq<char>)
    ensures
        heartbeat_text(n).len() == n.len() + 13,
        heartbeat_text(n).take(12) == "Hello from ["@,
        heartbeat_text(n).subrange(12, 12 + n.len() as int) == n,
        heartbeat_text(n).last() == ']',
{
    reveal_strlit("Hello from [");
    reveal_strlit("]");
    let t = heartbeat_text(n);
    assert(t.take(12) =~= "Hello from ["@);
    assert(t.subrange(12, 12 + n.len() as int) =~= n);
}

/// Every node, whatever its name, is subscribed by default to the topic it
/// publishes its heartbeat on.
pub proof fn law_default_topics_hold_heartbeat_topic(n: Seq<char>)
    ensures
        default_config(n).topics.contains(heartbeat_topic()),
{
    assert(default_config(n).topics[1] == heartbeat_topic());
}

/// The topic and the bytes that a node publishes on each heartbeat.
pub fn heartbeat_publication(node_name: &str) -> (p: (String, Vec<u8>))
    ensures
        p.0@ == heartbeat_topic(),
        p.1@ == encode_utf8(heartbeat_text(node_name@)),
{
    let mut text = String::from_str("Hello from [");
    text.append(node_name);
    text.append("]");
    let data = text.as_str().as_bytes_vec();
    (String::from_str("mesh/messages"), data)
}

} // verus!
