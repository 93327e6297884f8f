//! The static cluster membership and the health status of its nodes.

use vstd::prelude::*;

verus! {

/// A node of the cluster, where it listens and how it was last seen.
#[derive(Debug, Clone)]
pub struct NodeInfo {
    pub id: String,
    pub address: String,
    pub status: String,
}

impl NodeInfo {
    /// A copy of this node's description.
    pub fn copy(&self) -> (r: NodeInfo)
        ensures
            r.id@ == self.id@,
            r.address@ == self.address@,
            r.status@ == self.status@,
    {
        NodeInfo { id: self.id.clone(), address: self.address.clone(), status: self.status.clone() }
    }
}

/// The status text of a node that answers its health checks.
pub open spec fn healthy_status() -> Seq<char> {
    "healthy"@
}

/// The status text of a node that does not answer its health checks.
pub open spec fn unhealthy_status() -> Seq<char> {
    "unhealthy"@
}

/// The status text for a health check's outcome.
pub open spec fn status_for(healthy: bool) -> Seq<char> {
    if healthy {
        healthy_status()
    } else {
        unhealthy_status()
    }
}

/// Produces `status_for(healthy)`.
pub fn status_text(healthy: bool) -> (r: String)
    ensures
        r@ == status_for(healthy),
{
    if healthy {
        String::from_str("healthy")
    } else {
        String::from_str("unhealthy")
    }
}

/// A request to send to a peer: the peer's name and the URL to call.
#[derive(Debug, Clone)]
pub struct PeerTarget {
    pub id: String,
    pub url: String,
}

impl View for PeerTarget {
    type V = (Seq<char>, Seq<char>);

    open spec fn view(&self) -> (Seq<char>, Seq<char>) {
        (self.id@, self.url@)
    }
}

/// The peers of node `self_id` in `nodes`, in order, each with the URL of
/// `path` at its address.
pub open spec fn peer_requests(nodes: Seq<NodeInfo>, self_id: Seq<char>, path: Seq<char>) -> Seq<
    (Seq<char>, Seq<char>),
>
    decreases nodes.len(),
{
    if nodes.len() == 0 {
        Seq::empty()
    } else {
        let rest = peer_requests(nodes.drop_last(), self_id, path);
        let node = nodes.last();
        if node.id@ == self_id {
            rest
        } else {
            rest.push((node.id@, node.address@ + path))
        }
    }
}

/// The requests that node `self_id` sends to each of its peers for `path`.
pub fn peer_targets(nodes: &Vec<NodeInfo>, self_id: &String, path: &str) -> (r: Vec<PeerTarget>)
    ensures
        r@.map_values(|p: PeerTarget| p@) == peer_requests(nodes@, self_id@, path@),
{
    let mut targets: Vec<PeerTarget> = Vec::new();
    let mut i: usize = 0;
    while i < nodes.len()
        invariant
            i <= nodes@.len(),
            targets@.map_values(|p: PeerTarget| p@) == peer_requests(
                nodes@.take(i as int),
                self_id@,
                path@,
            ),
        decreases nodes@.len() - i,
    {
        let node = &nodes[i];
        assert(nodes@.take(i + 1).drop_last() =~= nodes@.take(i as int));
        assert(nodes@.take(i + 1).last() == nodes@[i as int]);
        if node.id != *self_id {
            let url = node.address.clone().concat(path);
            let target = PeerTarget { id: node.id.clone(), url };
            let ghost before = targets@;
            targets.push(target);
            assert(targets@.map_values(|p: PeerTarget| p@) =~= before.map_values(
                |p: PeerTarget| p@,
            ).push(target@));
        }
        i = i + 1;
    }
    assert(nodes@.take(nodes@.len() as int) =~= nodes@);
    targets
}

/// The local cluster: three nodes, each first taken to be healthy.
pub open spec fn is_default_membership(nodes: Seq<NodeInfo>) -> bool {
    &&& nodes.len() == 3
    &&& nodes[0].id@ == "node-a"@ && nodes[0].address@ == "http://127.0.0.1:7100"@
    &&& nodes[1].id@ == "node-b"@ && nodes[1].address@ == "http://127.0.0.1:7101"@
    &&& nodes[2].id@ == "node-c"@ && nodes[2].address@ == "http://127.0.0.1:7102"@
    &&& forall|i: int| 0 <= i < 3 ==> #[trigger] nodes[i].status@ == healthy_status()
}

/// The known nodes of the local cluster.
pub fn default_membership() -> (r: Vec<NodeInfo>)
    ensures
        is_default_membership(r@),
{
    let mut nodes: Vec<NodeInfo> = Vec::new();
    nodes.push(
        NodeInfo {
            id: String::from_str("node-a"),
            address: String::from_str("http://127.0.0.1:7100"),
            status: String::from_str("healthy"),
        },
    );
    nodes.push(
        NodeInfo {
            id: String::from_str("node-b"),
            address: String::from_str("http://127.0.0.1:7101"),
            status: String::from_str("healthy"),
        },
    );
    nodes.push(
        NodeInfo {
            id: String::from_str("node-c"),
            address: String::from_str("http://127.0.0.1:7102"),
            status: String::from_str("healthy"),
        },
    );
    nodes
}

} // verus!
