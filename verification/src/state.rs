//! Route state: live routes, deletion records, the table that holds them by
//! service name, and the state of one node.

use vstd::prelude::*;

use crate::membership::{default_membership, is_default_membership, NodeInfo};

verus! {

/// A live route: where a service is sent, and the version that set it.
#[derive(Clone, Debug)]
pub struct RouteEntry {
    pub target: String,
    pub version: u64,
}

/// The record that a route was deleted at some version.
#[derive(Clone, Debug)]
pub struct Tombstone {
    pub version: u64,
}

/// What a node knows of one service: a live route or a deletion record.
#[derive(Clone, Debug)]
pub enum RouteState {
    Active(RouteEntry),
    Deleted(Tombstone),
}

/// The mathematical value of a `RouteState`.
pub ghost enum RouteView {
    Active { target: Seq<char>, version: u64 },
    Deleted { version: u64 },
}

impl RouteView {
    /// The version at which this state was written.
    pub open spec fn version(self) -> u64 {
        match self {
            RouteView::Active { version, .. } => version,
            RouteView::Deleted { version } => version,
        }
    }
}

impl View for RouteState {
    type V = RouteView;

    open spec fn view(&self) -> RouteView {
        match self {
            RouteState::Active(entry) => RouteView::Active {
                target: entry.target@,
                version: entry.version,
            },
            RouteState::Deleted(tombstone) => RouteView::Deleted { version: tombstone.version },
        }
    }
}

impl RouteState {
    /// A copy of this state.
    pub fn copy(&self) -> (r: RouteState)
        ensures
            r@ == self@,
    {
        match self {
            RouteState::Active(entry) => RouteState::Active(
                RouteEntry { target: entry.target.clone(), version: entry.version },
            ),
            RouteState::Deleted(tombstone) => RouteState::Deleted(
                Tombstone { version: tombstone.version },
            ),
        }
    }
}

/// The routes of a node, abstractly: each known service name mapped to its
/// state.
pub type RouteMap = Map<Seq<char>, RouteView>;

/// A state written at `version` replaces what `m` holds for `key`: the key is
/// unknown, or known at an older version.
pub open spec fn supersedes(m: RouteMap, key: Seq<char>, version: u64) -> bool {
    !m.contains_key(key) || m[key].version() < version
}

/// The routes after `incoming` arrives for `key`: it is installed where it
/// supersedes what is there, and ignored otherwise.
pub open spec fn apply_state(m: RouteMap, key: Seq<char>, incoming: RouteView) -> RouteMap {
    if supersedes(m, key, incoming.version()) {
        m.insert(key, incoming)
    } else {
        m
    }
}

/// No service name occurs twice in a listing.
pub open spec fn keys_distinct<T>(s: Seq<(String, T)>) -> bool {
    forall|i: int, j: int|
        0 <= i < s.len() && 0 <= j < s.len() && i != j ==> #[trigger] s[i].0@ != #[trigger] s[j].0@
}

/// The listing names the service `k`.
pub open spec fn has_key<T>(s: Seq<(String, T)>, k: Seq<char>) -> bool {
    exists|i: int| 0 <= i < s.len() && #[trigger] s[i].0@ == k
}

/// A position at which the listing names `k`.
pub open spec fn key_index<T>(s: Seq<(String, T)>, k: Seq<char>) -> int {
    choose|i: int| 0 <= i < s.len() && #[trigger] s[i].0@ == k
}

/// A listing of (service, value) pairs read as a map from service names.
pub open spec fn entry_map<T: View>(s: Seq<(String, T)>) -> Map<Seq<char>, T::V> {
    Map::new(|k: Seq<char>| has_key(s, k), |k: Seq<char>| s[key_index(s, k)].1@)
}

/// In a listing without repeated names, the entry at `j` is what the map
/// holds for its name.
pub proof fn lemma_entry_at<T: View>(s: Seq<(String, T)>, j: int)
    requires
        keys_distinct(s),
        0 <= j < s.len(),
    ensures
        has_key(s, s[j].0@),
        key_index(s, s[j].0@) == j,
        entry_map(s).contains_key(s[j].0@),
        entry_map(s)[s[j].0@] == s[j].1@,
{
    assert(s[j].0@ == s[j].0@);
    let i = key_index(s, s[j].0@);
    assert(0 <= i < s.len() && s[i].0@ == s[j].0@);
}

/// A prefix of a listing without repeated names has none either, and does not
/// name the entry that follows it.
pub proof fn lemma_prefix<T>(s: Seq<(String, T)>, i: int)
    requires
        keys_distinct(s),
        0 <= i < s.len(),
    ensures
        keys_distinct(s.take(i)),
        !has_key(s.take(i), s[i].0@),
        s.take(i + 1) == s.take(i).push(s[i]),
{
    let p = s.take(i);
    assert forall|a: int, b: int|
        0 <= a < p.len() && 0 <= b < p.len() && a != b implies #[trigger] p[a].0@ != #[trigger] p[b].0@ by {
        assert(p[a] == s[a] && p[b] == s[b]);
    }
    if has_key(p, s[i].0@) {
        let a = choose|a: int| 0 <= a < p.len() && #[trigger] p[a].0@ == s[i].0@;
        assert(p[a] == s[a]);
    }
    assert(s.take(i + 1) =~= s.take(i).push(s[i]));
}

/// Appending a new name to a listing inserts it into the map.
pub proof fn lemma_push_new<T: View>(s: Seq<(String, T)>, e: (String, T))
    requires
        keys_distinct(s),
        !has_key(s, e.0@),
    ensures
        keys_distinct(s.push(e)),
        entry_map(s.push(e)) =~= entry_map(s).insert(e.0@, e.1@),
{
    let t = s.push(e);
    assert forall|i: int, j: int|
        0 <= i < t.len() && 0 <= j < t.len() && i != j implies #[trigger] t[i].0@ != #[trigger] t[j].0@ by {
        if i < s.len() && j < s.len() {
            assert(t[i] == s[i] && t[j] == s[j]);
        } else if i < s.len() {
            assert(t[i] == s[i]);
        } else {
            assert(t[j] == s[j]);
        }
    }
    assert forall|k: Seq<char>| #[trigger] has_key(t, k) == (has_key(s, k) || k == e.0@) by {
        if has_key(t, k) {
            let i = choose|i: int| 0 <= i < t.len() && #[trigger] t[i].0@ == k;
            if i < s.len() {
                assert(s[i] == t[i]);
            }
        }
        if has_key(s, k) {
            let i = choose|i: int| 0 <= i < s.len() && #[trigger] s[i].0@ == k;
            assert(t[i] == s[i]);
        }
        if k == e.0@ {
            assert(t[s.len() as int] == e);
        }
    }
    assert forall|k: Seq<char>| #[trigger] has_key(t, k) implies entry_map(t)[k] == entry_map(
        s,
    ).insert(e.0@, e.1@)[k] by {
        let i = key_index(t, k);
        if k == e.0@ {
            lemma_entry_at(t, s.len() as int);
        } else {
            let j = key_index(s, k);
            lemma_entry_at(s, j);
            assert(t[j] == s[j]);
            lemma_entry_at(t, j);
        }
    }
}

/// Overwriting the entry of a name already listed updates the map.
pub proof fn lemma_update_existing<T: View>(s: Seq<(String, T)>, j: int, e: (String, T))
    requires
        keys_distinct(s),
        0 <= j < s.len(),
        s[j].0@ == e.0@,
    ensures
        keys_distinct(s.update(j, e)),
        entry_map(s.update(j, e)) =~= entry_map(s).insert(e.0@, e.1@),
{
    let t = s.update(j, e);
    assert forall|a: int, b: int|
        0 <= a < t.len() && 0 <= b < t.len() && a != b implies #[trigger] t[a].0@ != #[trigger] t[b].0@ by {
        assert(t[a].0@ == s[a].0@);
        assert(t[b].0@ == s[b].0@);
    }
    assert forall|k: Seq<char>| #[trigger] has_key(t, k) == has_key(s, k) by {
        if has_key(t, k) {
            let i = choose|i: int| 0 <= i < t.len() && #[trigger] t[i].0@ == k;
            assert(s[i].0@ == t[i].0@);
        }
        if has_key(s, k) {
            let i = choose|i: int| 0 <= i < s.len() && #[trigger] s[i].0@ == k;
            assert(s[i].0@ == t[i].0@);
        }
    }
    lemma_entry_at(s, j);
    assert forall|k: Seq<char>| #[trigger] has_key(t, k) implies entry_map(t)[k] == entry_map(
        s,
    ).insert(e.0@, e.1@)[k] by {
        let i = key_index(s, k);
        lemma_entry_at(s, i);
        assert(t[i].0@ == s[i].0@);
        lemma_entry_at(t, i);
        if i == j {
        } else {
            assert(t[i] == s[i]);
        }
    }
}

/// Two listings that agree entry by entry on names and values name the same
/// services once each and hold the same map.
pub proof fn lemma_same_listing<T: View>(a: Seq<(String, T)>, b: Seq<(String, T)>)
    requires
        keys_distinct(b),
        a.len() == b.len(),
        forall|j: int| 0 <= j < a.len() ==> #[trigger] a[j].0@ == b[j].0@ && a[j].1@ == b[j].1@,
    ensures
        keys_distinct(a),
        entry_map(a) == entry_map(b),
{
    assert forall|i: int, j: int|
        0 <= i < a.len() && 0 <= j < a.len() && i != j implies #[trigger] a[i].0@ != #[trigger] a[j].0@ by {
        assert(a[i].0@ == b[i].0@);
        assert(a[j].0@ == b[j].0@);
    }
    assert forall|k: Seq<char>| #[trigger] has_key(a, k) == has_key(b, k) by {
        if has_key(a, k) {
            let i = choose|i: int| 0 <= i < a.len() && #[trigger] a[i].0@ == k;
            assert(b[i].0@ == a[i].0@);
        }
        if has_key(b, k) {
            let i = choose|i: int| 0 <= i < b.len() && #[trigger] b[i].0@ == k;
            assert(b[i].0@ == a[i].0@);
        }
    }
    assert forall|k: Seq<char>| #[trigger] has_key(a, k) implies entry_map(a)[k] == entry_map(b)[k] by {
        let i = key_index(a, k);
        lemma_entry_at(a, i);
        assert(b[i].0@ == a[i].0@);
        lemma_entry_at(b, i);
    }
    assert(entry_map(a) =~= entry_map(b));
}

/// The routes of a node by service name. No name occurs twice.
#[derive(Debug)]
pub struct RouteTable {
    entries: Vec<(String, RouteState)>,
}

impl RouteTable {
    #[verifier::type_invariant]
    spec fn inv(self) -> bool {
        keys_distinct(self.entries@)
    }

    /// The entries in the order in which the table keeps them.
    pub closed spec fn listing(self) -> Seq<(String, RouteState)> {
        self.entries@
    }

    /// An empty table.
    pub fn new() -> (t: RouteTable)
        ensures
            t@ == Map::<Seq<char>, RouteView>::empty(),
    {
        let t = RouteTable { entries: Vec::new() };
        assert(t@ =~= Map::<Seq<char>, RouteView>::empty());
        t
    }

    /// The position of `key`, if the table holds it.
    fn find(&self, key: &String) -> (r: Option<usize>)
        ensures
            r matches Some(i) ==> i < self.entries@.len() && self.entries@[i as int].0@ == key@,
            r is None ==> !has_key(self.entries@, key@),
    {
        let mut i: usize = 0;
        while i < self.entries.len()
            invariant
                i <= self.entries@.len(),
                forall|j: int| 0 <= j < i ==> #[trigger] self.entries@[j].0@ != key@,
            decreases self.entries@.len() - i,
        {
            if self.entries[i].0 == *key {
                return Some(i);
            }
            i = i + 1;
        }
        None
    }

    /// The state kept for `key`.
    pub fn get(&self, key: &String) -> (r: Option<&RouteState>)
        ensures
            r is Some <==> self@.contains_key(key@),
            r matches Some(s) ==> s@ == self@[key@],
    {
        proof {
            use_type_invariant(self);
        }
        match self.find(key) {
            Some(i) => {
                proof {
                    lemma_entry_at(self.entries@, i as int);
                }
                Some(&self.entries[i].1)
            },
            None => None,
        }
    }

    /// Sets the state of `key`, replacing what was there.
    pub fn insert(&mut self, key: String, state: RouteState)
        ensures
            final(self)@ == old(self)@.insert(key@, state@),
    {
        proof {
            use_type_invariant(&*self);
        }
        let found = self.find(&key);
        let mut entries: Vec<(String, RouteState)> = Vec::new();
        std::mem::swap(&mut entries, &mut self.entries);
        match found {
            Some(i) => {
                proof {
                    lemma_update_existing(entries@, i as int, (key, state));
                }
                entries.set(i, (key, state));
            },
            None => {
                proof {
                    lemma_push_new(entries@, (key, state));
                }
                entries.push((key, state));
            },
        }
        self.entries = entries;
    }

    /// The number of services the table knows. The listing names each
    /// service once and is the table's content.
    pub fn len(&self) -> (n: usize)
        ensures
            n == self.listing().len(),
            keys_distinct(self.listing()),
            entry_map(self.listing()) == self@,
    {
        proof {
            use_type_invariant(self);
        }
        self.entries.len()
    }

    /// The entry at position `i`.
    pub fn entry(&self, i: usize) -> (r: &(String, RouteState))
        requires
            i < self.listing().len(),
        ensures
            *r == self.listing()[i as int],
    {
        &self.entries[i]
    }

}

impl View for RouteTable {
    type V = RouteMap;

    closed spec fn view(&self) -> RouteMap {
        entry_map(self.entries@)
    }
}

impl Clone for RouteTable {
    /// A copy of the table with the same content.
    fn clone(&self) -> (r: Self)
        ensures
            r@ == self@,
    {
        proof {
            use_type_invariant(self);
        }
        let mut entries: Vec<(String, RouteState)> = Vec::new();
        let mut i: usize = 0;
        while i < self.entries.len()
            invariant
                i <= self.entries@.len(),
                entries@.len() == i,
                forall|j: int|
                    0 <= j < i ==> #[trigger] entries@[j].0@ == self.entries@[j].0@ && entries@[j].1@
                        == self.entries@[j].1@,
            decreases self.entries@.len() - i,
        {
            let entry = &self.entries[i];
            entries.push((entry.0.clone(), entry.1.copy()));
            i = i + 1;
        }
        proof {
            lemma_same_listing(entries@, self.entries@);
        }
        RouteTable { entries }
    }
}

/// A node in state `pre` hands out version `v` and is then in state `post`:
/// `v` is one more than its last version and becomes its last version;
/// nothing else changes.
pub open spec fn hands_out(pre: AppState, post: AppState, v: u64) -> bool {
    &&& v == pre.version + 1
    &&& post.version == v
    &&& post.node_id == pre.node_id
    &&& post.routes == pre.routes
    &&& post.nodes == pre.nodes
}

/// The larger of two versions.
pub open spec fn later(a: u64, b: u64) -> u64 {
    if a >= b {
        a
    } else {
        b
    }
}

/// The version at which the routes hold `key`, or 0 where they know nothing
/// of it.
pub open spec fn held_version(m: RouteMap, key: Seq<char>) -> u64 {
    if m.contains_key(key) {
        m[key].version()
    } else {
        0
    }
}

/// The newest version a node knows for `key`: its counter or the version it
/// holds for the service, whichever is later. A local write to `key` is
/// given the version after it.
pub open spec fn latest_for(s: AppState, key: Seq<char>) -> u64 {
    later(s.version, held_version(s.routes@, key))
}

/// A node in state `pre` hands out version `v` above `floor` and is then in
/// state `post`: `v` is one more than the later of its counter and `floor`,
/// and becomes its counter; nothing else changes.
pub open spec fn hands_out_above(pre: AppState, post: AppState, floor: u64, v: u64) -> bool {
    &&& v == later(pre.version, floor) + 1
    &&& post.version == v
    &&& post.node_id == pre.node_id
    &&& post.routes == pre.routes
    &&& post.nodes == pre.nodes
}

/// The state of one routing node.
#[derive(Clone, Debug)]
pub struct AppState {
    pub node_id: String,
    pub routes: RouteTable,
    pub nodes: Vec<NodeInfo>,
    pub version: u64,
}

impl AppState {
    /// A node that knows no routes, knows the default cluster and has handed
    /// out no version yet.
    pub fn new(node_id: String) -> (s: AppState)
        ensures
            s.node_id@ == node_id@,
            s.routes@ == Map::<Seq<char>, RouteView>::empty(),
            is_default_membership(s.nodes@),
            s.version == 0,
    {
        AppState { node_id, routes: RouteTable::new(), nodes: default_membership(), version: 0 }
    }

    /// Hands out the next version: one more than the last one.
    pub fn next_version(&mut self) -> (v: u64)
        requires
            old(self).version < u64::MAX,
        ensures
            hands_out(*old(self), *final(self), v),
    {
        self.version = self.version + 1;
        self.version
    }

    /// Hands out a version above both the counter and `floor`: one more than
    /// the later of the two.
    pub fn next_version_above(&mut self, floor: u64) -> (v: u64)
        requires
            later(old(self).version, floor) < u64::MAX,
        ensures
            hands_out_above(*old(self), *final(self), floor, v),
    {
        let base = if self.version >= floor {
            self.version
        } else {
            floor
        };
        self.version = base + 1;
        self.version
    }

    /// The newest version the node knows for `key`, counter included.
    pub fn latest_version(&self, key: &String) -> (v: u64)
        ensures
            v == latest_for(*self, key@),
    {
        let held = match self.routes.get(key) {
            Some(state) => match state {
                RouteState::Active(entry) => entry.version,
                RouteState::Deleted(tombstone) => tombstone.version,
            },
            None => 0,
        };
        if self.version >= held {
            self.version
        } else {
            held
        }
    }
}

} // verus!
