//! The table of known peers, keyed by the text of their identity.
use vstd::prelude::*;
use vstd::pervasive::VecAdditionalExecFns;
use crate::identity::{identity_text, Peer, PeerView};

verus! {

/// The key under which a peer is recorded: the text of its identity.
pub open spec fn peer_key(p: PeerView) -> Seq<char> {
    identity_text(p.verifying_key)
}

/// The peers a node knows, at most one per identity.
pub struct PeerTable {
    entries: Vec<(String, Peer)>,
    contents: Ghost<Map<Seq<char>, PeerView>>,
}

impl View for PeerTable {
    type V = Map<Seq<char>, PeerView>;

    closed spec fn view(&self) -> Map<Seq<char>, PeerView> {
        self.contents@
    }
}

impl PeerTable {
    /// Each entry is recorded under its peer's key, no key twice, and the
    /// entries are exactly the contents.
    pub closed spec fn wf(&self) -> bool {
        &&& forall|i: int|
            0 <= i < self.entries@.len() ==> #[trigger] self.entries@[i].0@ == peer_key(
                self.entries@[i].1@,
            )
        &&& forall|i: int, j: int|
            0 <= i < self.entries@.len() && 0 <= j < self.entries@.len() && i != j
                ==> #[trigger] self.entries@[i].0@ != #[trigger] self.entries@[j].0@
        &&& forall|k: Seq<char>|
            #[trigger] self.contents@.dom().contains(k) ==> exists|i: int|
                0 <= i < self.entries@.len() && #[trigger] self.entries@[i].0@ == k
        &&& forall|i: int|
            0 <= i < self.entries@.len() ==> self.contents@.dom().contains(
                #[trigger] self.entries@[i].0@,
            ) && self.contents@[self.entries@[i].0@] == self.entries@[i].1@
        &&& self.contents@.dom().finite()
    }

    /// An empty table.
    pub fn new() -> (t: PeerTable)
        ensures
            t.wf(),
            t@ == Map::<Seq<char>, PeerView>::empty(),
    {
        PeerTable { entries: Vec::new(), contents: Ghost(Map::empty()) }
    }

    /// The position of the entry recorded under `key`, if any.
    fn position(&self, key: &String) -> (r: Option<usize>)
        requires
            self.wf(),
        ensures
            match r {
                Some(i) => i < self.entries@.len() && self.entries@[i as int].0@ == key@,
                None => !self@.dom().contains(key@),
            },
    {
        let n = self.entries.len();
        for i in 0..n
            invariant
                n == self.entries@.len(),
                self.wf(),
                forall|j: int| 0 <= j < i ==> self.entries@[j].0@ != key@,
        {
            if self.entries[i].0 == *key {
                return Some(i);
            }
        }
        None
    }
}

/// Records a peer under the text of its identity, replacing the peer recorded
/// there before.
pub fn add_peer(table: &mut PeerTable, peer: Peer)
    requires
        old(table).wf(),
    ensures
        final(table).wf(),
        final(table)@ == old(table)@.insert(peer_key(peer@), peer@),
{
    let key = peer.id.encode();
    let ghost pv = peer@;
    let ghost k = key@;
    let ghost before = table.entries@;
    let ghost old_contents = table.contents@;
    match table.position(&key) {
        Some(i) => {
            table.entries.set(i, (key, peer));
            proof {
                table.contents@ = old_contents.insert(k, pv);
                assert forall|j: int|
                    0 <= j < table.entries@.len() implies #[trigger] table.entries@[j].0@
                    == before[j].0@ by {}
                assert forall|kk: Seq<char>| #[trigger]
                    table.contents@.dom().contains(kk) implies exists|j: int|
                    0 <= j < table.entries@.len() && #[trigger] table.entries@[j].0@ == kk by {
                    if kk != k {
                        let j = choose|j: int|
                            0 <= j < before.len() && #[trigger] before[j].0@ == kk;
                        assert(table.entries@[j].0@ == before[j].0@);
                    } else {
                        assert(table.entries@[i as int].0@ == kk);
                    }
                }
            }
        },
        None => {
            table.entries.push((key, peer));
            proof {
                table.contents@ = old_contents.insert(k, pv);
                let n = before.len() as int;
                assert forall|j: int| 0 <= j < n implies #[trigger] table.entries@[j] == before[j] by {}
                assert(table.entries@[n].0@ == k);
                assert forall|j: int| 0 <= j < n implies #[trigger] before[j].0@ != k by {
                    assert(old_contents.dom().contains(before[j].0@));
                }
                assert forall|kk: Seq<char>| #[trigger]
                    table.contents@.dom().contains(kk) implies exists|j: int|
                    0 <= j < table.entries@.len() && #[trigger] table.entries@[j].0@ == kk by {
                    if kk != k {
                        let j = choose|j: int|
                            0 <= j < before.len() && #[trigger] before[j].0@ == kk;
                        assert(table.entries@[j] == before[j]);
                    } else {
                        assert(table.entries@[n].0@ == kk);
                    }
                }
            }
        },
    }
}

/// Forgets the peer recorded under the text of this peer's identity, if any.
pub fn remove_peer(table: &mut PeerTable, peer: Peer)
    requires
        old(table).wf(),
    ensures
        final(table).wf(),
        final(table)@ == old(table)@.remove(peer_key(peer@)),
{
    let key = peer.id.encode();
    let ghost k = key@;
    let ghost before = table.entries@;
    let ghost old_contents = table.contents@;
    match table.position(&key) {
        Some(i) => {
            let _ = table.entries.remove(i);
            proof {
                table.contents@ = old_contents.remove(k);
                let ii = i as int;
                assert forall|j: int|
                    0 <= j < table.entries@.len() implies #[trigger] table.entries@[j] == (if j < ii {
                        before[j]
                    } else {
                        before[j + 1]
                    }) by {}
                assert forall|j: int| 0 <= j < table.entries@.len() implies #[trigger] table.entries@[j].0@ != k by {
                    if j < ii {
                        assert(before[j].0@ != before[ii].0@);
                    } else {
                        assert(before[j + 1].0@ != before[ii].0@);
                    }
                }
                assert forall|kk: Seq<char>| #[trigger]
                    table.contents@.dom().contains(kk) implies exists|j: int|
                    0 <= j < table.entries@.len() && #[trigger] table.entries@[j].0@ == kk by {
                    let j = choose|j: int| 0 <= j < before.len() && #[trigger] before[j].0@ == kk;
                    if j < ii {
                        assert(table.entries@[j] == before[j]);
                    } else {
                        assert(j != ii);
                        assert(table.entries@[j - 1] == before[j]);
                    }
                }
            }
        },
        None => {
            proof {
                assert(old_contents.remove(k) =~= old_contents);
            }
        },
    }
}

/// `ids` lists the keys `keys`: each listed text is a key, each key is listed,
/// and no text is listed twice.
pub open spec fn lists_keys(ids: Seq<String>, keys: Set<Seq<char>>) -> bool {
    &&& forall|i: int| 0 <= i < ids.len() ==> keys.contains(#[trigger] ids[i]@)
    &&& forall|k: Seq<char>|
        #[trigger] keys.contains(k) ==> exists|i: int| 0 <= i < ids.len() && #[trigger] ids[i]@ == k
    &&& forall|i: int, j: int|
        0 <= i < ids.len() && 0 <= j < ids.len() && i != j ==> #[trigger] ids[i]@
            != #[trigger] ids[j]@
}

/// The texts of the identities of all recorded peers, each once.
pub fn list_peers(table: &PeerTable) -> (ids: Vec<String>)
    requires
        table.wf(),
    ensures
        lists_keys(ids@, table@.dom()),
{
    let mut ids: Vec<String> = Vec::new();
    let n = table.entries.len();
    for i in 0..n
        invariant
            n == table.entries@.len(),
            table.wf(),
            ids@.len() == i,
            forall|j: int| 0 <= j < i ==> #[trigger] ids@[j]@ == table.entries@[j].0@,
    {
        ids.push(table.entries[i].0.clone());
    }
    proof {
        assert forall|k: Seq<char>| #[trigger]
            table@.dom().contains(k) implies exists|i: int|
            0 <= i < ids@.len() && #[trigger] ids@[i]@ == k by {
            let j = choose|j: int| 0 <= j < table.entries@.len() && #[trigger] table.entries@[j].0@ == k;
            assert(ids@[j]@ == k);
        }
        assert forall|i: int, j: int|
            0 <= i < ids@.len() && 0 <= j < ids@.len() && i != j implies #[trigger] ids@[i]@
            != #[trigger] ids@[j]@ by {
            assert(table.entries@[i].0@ != table.entries@[j].0@);
        }
    }
    ids
}

/// Removing a peer just recorded, under a key that was free before, gives the
/// table back as it was.
pub proof fn law_remove_undoes_add(before: Map<Seq<char>, PeerView>, p: PeerView)
    requires
        !before.dom().contains(peer_key(p)),
    ensures
        before.insert(peer_key(p), p).remove(peer_key(p)) == before,
{
    assert(before.insert(peer_key(p), p).remove(peer_key(p)) =~= before);
}

/// Recording the same peer twice is the same as recording it once.
pub proof fn law_add_idempotent(before: Map<Seq<char>, PeerView>, p: PeerView)
    ensures
        before.insert(peer_key(p), p).insert(peer_key(p), p) == before.insert(peer_key(p), p),
{
    assert(before.insert(peer_key(p), p).insert(peer_key(p), p) =~= before.insert(peer_key(p), p));
}

/// A recorded peer is listed and found again, and the other entries stay as
/// they were.
pub proof fn law_add_then_read(before: Map<Seq<char>, PeerView>, p: PeerView, other: Seq<char>)
    ensures
        before.insert(peer_key(p), p).dom().contains(peer_key(p)),
        before.insert(peer_key(p), p)[peer_key(p)] == p,
        other != peer_key(p) ==> (before.insert(peer_key(p), p).dom().contains(other)
            == before.dom().contains(other)),
        other != peer_key(p) && before.dom().contains(other) ==> before.insert(peer_key(p), p)[other]
            == before[other],
{
}

/// After a peer is removed, it is no longer listed, and the other entries
/// stay as they were.
pub proof fn law_remove_then_read(before: Map<Seq<char>, PeerView>, p: PeerView, other: Seq<char>)
    ensures
        !before.remove(peer_key(p)).dom().contains(peer_key(p)),
        other != peer_key(p) ==> (before.remove(peer_key(p)).dom().contains(other)
            == before.dom().contains(other)),
        other != peer_key(p) && before.dom().contains(other) ==> before.remove(peer_key(p))[other]
            == before[other],
{
}

/// A call that changes the table: `add_peer` or `remove_peer` of a peer.
pub enum TableOp {
    Add(PeerView),
    Remove(PeerView),
}

/// The table after a sequence of calls, as `add_peer` and `remove_peer` state it.
pub open spec fn apply_ops(table: Map<Seq<char>, PeerView>, ops: Seq<TableOp>) -> Map<
    Seq<char>,
    PeerView,
>
    decreases ops.len(),
{
    if ops.len() == 0 {
        table
    } else {
        let before = apply_ops(table, ops.drop_last());
        match ops.last() {
            TableOp::Add(q) => before.insert(peer_key(q), q),
            TableOp::Remove(q) => before.remove(peer_key(q)),
        }
    }
}

/// A call removes the key `k`.
pub open spec fn removes_key(op: TableOp, k: Seq<char>) -> bool {
    op matches TableOp::Remove(q) && peer_key(q) == k
}

/// A recorded peer stays recorded through any later calls that do not remove
/// its key.
pub proof fn law_added_peer_stays(
    table: Map<Seq<char>, PeerView>,
    p: PeerView,
    ops: Seq<TableOp>,
)
    requires
        forall|i: int| 0 <= i < ops.len() ==> !removes_key(#[trigger] ops[i], peer_key(p)),
    ensures
        apply_ops(table.insert(peer_key(p), p), ops).dom().contains(peer_key(p)),
    decreases ops.len(),
{
    if ops.len() > 0 {
        let init = ops.drop_last();
        assert forall|i: int| 0 <= i < init.len() implies !removes_key(
            #[trigger] init[i],
            peer_key(p),
        ) by {
            assert(init[i] == ops[i]);
        }
        law_added_peer_stays(table, p, init);
        assert(!removes_key(ops[ops.len() - 1], peer_key(p)));
    }
}

/// After a peer is recorded, and no later call removes its key, a listing of
/// the table holds its key exactly once.
pub proof fn law_listed_once_after_add(
    table: Map<Seq<char>, PeerView>,
    p: PeerView,
    ops: Seq<TableOp>,
    ids: Seq<String>,
)
    requires
        forall|i: int| 0 <= i < ops.len() ==> !removes_key(#[trigger] ops[i], peer_key(p)),
        lists_keys(ids, apply_ops(table.insert(peer_key(p), p), ops).dom()),
    ensures
        exists|i: int| 0 <= i < ids.len() && #[trigger] ids[i]@ == peer_key(p),
        forall|i: int, j: int|
            0 <= i < ids.len() && 0 <= j < ids.len() && #[trigger] ids[i]@ == peer_key(p)
                && #[trigger] ids[j]@ == peer_key(p) ==> i == j,
{
    law_added_peer_stays(table, p, ops);
}

} // verus!
