//! The decisions of service discovery over mDNS and of the greeting
//! exchanged on a new connection.
use vstd::prelude::*;
use vstd::string::{StrSliceExecFns, StringExecFns};
use crate::identity::{identity_text, Identity, Peer};
use crate::peers::{add_peer, peer_key, PeerTable};

verus! {

/// The first ten characters of a node's text, used as the name under which
/// it announces its service.
pub fn service_instance_name(id: &Identity) -> (name: String)
    ensures
        name@ == identity_text(id.verifying_key@).take(10),
{
    let text = id.encode();
    let prefix = text.as_str().substring_char(0, 10);
    assert(prefix@ =~= identity_text(id.verifying_key@).take(10));
    prefix.to_string()
}

/// How a node announces its service over mDNS.
pub struct Registration {
    pub service_type: String,
    pub instance_name: String,
    pub host_name: String,
    pub ip: String,
    pub port: u16,
    /// The properties announced besides the node's own description.
    pub properties: Vec<(String, String)>,
}

/// The mDNS service type that mesh nodes announce and browse.
pub open spec fn service_type() -> Seq<char> {
    "_mdns-sd-my-test._udp.local."@
}

/// The announcement of a node with the given identity.
pub fn registration(id: &Identity) -> (r: Registration)
    ensures
        r.service_type@ == service_type(),
        r.instance_name@ == identity_text(id.verifying_key@).take(10),
        r.host_name@ == "localhost.local."@,
        r.ip@ == "127.0.0.1"@,
        r.port == 8080,
        r.properties@.len() == 2,
        r.properties@[0].0@ == "property_1"@,
        r.properties@[0].1@ == "test"@,
        r.properties@[1].0@ == "property_2"@,
        r.properties@[1].1@ == "1234"@,
{
    let properties = vec![
        (String::from_str("property_1"), String::from_str("test")),
        (String::from_str("property_2"), String::from_str("1234")),
    ];
    Registration {
        service_type: String::from_str("_mdns-sd-my-test._udp.local."),
        instance_name: service_instance_name(id),
        host_name: String::from_str("localhost.local."),
        ip: String::from_str("127.0.0.1"),
        port: 8080,
        properties,
    }
}

/// What discovery does next after a service was resolved.
pub enum ResolveStep {
    /// Keep waiting for other services.
    Continue,
    /// Stop, and connect to this address.
    Connect { ip: String, port: u16 },
}

/// Handles a resolved service that announced `peer` at `port`, with
/// `first_addr` its first address, if any. A node ignores its own service;
/// another peer is recorded in the table, and when it has an address,
/// discovery stops there.
pub fn on_service_resolved(
    table: &mut PeerTable,
    my_id: &Identity,
    peer: Peer,
    first_addr: Option<String>,
    port: u16,
) -> (step: ResolveStep)
    requires
        old(table).wf(),
    ensures
        final(table).wf(),
        peer_key(peer@) == identity_text(my_id.verifying_key@) ==> final(table)@ == old(table)@
            && step is Continue,
        peer_key(peer@) != identity_text(my_id.verifying_key@) ==> final(table)@ == old(
            table,
        )@.insert(peer_key(peer@), peer@) && match first_addr {
            Some(a) => step matches ResolveStep::Connect { ip, port: p } && ip@ == a@ && p
                == port,
            None => step is Continue,
        },
{
    let theirs = peer.id.encode();
    let mine = my_id.encode();
    if theirs == mine {
        return ResolveStep::Continue;
    }
    add_peer(table, peer);
    match first_addr {
        Some(ip) => ResolveStep::Connect { ip, port },
        None => ResolveStep::Continue,
    }
}

/// The reply a node sends to each message it receives on a connection.
pub open spec fn reply_text(id: Seq<char>) -> Seq<char> {
    id + " says hello to you!"@
}

/// The reply of the node with the given identity.
pub fn hello_reply(my_id: &Identity) -> (reply: String)
    ensures
        reply@ == reply_text(identity_text(my_id.verifying_key@)),
{
    let mut reply = my_id.encode();
    reply.append(" says hello to you!");
    reply
}

} // verus!
