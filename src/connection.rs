use vstd::prelude::*;
use crate::geometry::Point;
use crate::node::{views, Node, NodeView};

verus! {

/// One end of a connection: a port, named by its node and its own identity.
#[derive(Clone, Copy, Debug, PartialEq, Eq, Structural)]
pub struct Endpoint {
    pub node: u128,
    pub port: u128,
}

/// A directed link from one port to a port of another node.
#[derive(Clone, Copy, Debug, PartialEq, Eq, Structural)]
pub struct Connection {
    pub start: Endpoint,
    pub end: Endpoint,
}

/// Why a connection operation failed.
#[derive(Clone, Copy, Debug, PartialEq, Eq, Structural)]
pub enum ConnectionError {
    /// Both ends lie on the same node.
    InvalidConnection,
    /// No node of the diagram carries the named port.
    UnknownEndpoint,
}

/// `i` is the first node in `nodes` with identity `id`.
pub open spec fn is_first_node(nodes: Seq<NodeView>, id: u128, i: int) -> bool {
    &&& 0 <= i < nodes.len()
    &&& nodes[i].id == id
    &&& forall|k: int| 0 <= k < i ==> (#[trigger] nodes[k]).id != id
}

/// `j` is the first port of `node` with identity `id`.
pub open spec fn is_first_port(node: NodeView, id: u128, j: int) -> bool {
    &&& 0 <= j < node.ports.len()
    &&& node.ports[j].id == id
    &&& forall|k: int| 0 <= k < j ==> (#[trigger] node.ports[k]).id != id
}

/// `e` names a port of the first node that carries its node identity, and
/// `pos` is the current center of the first such port.
pub open spec fn resolves_to(nodes: Seq<NodeView>, e: Endpoint, pos: Point) -> bool {
    exists|i: int, j: int|
        is_first_node(nodes, e.node, i) && is_first_port(nodes[i], e.port, j)
            && pos == #[trigger] nodes[i].ports[j].center
}

/// `e` names a port of the first node that carries its node identity.
pub open spec fn resolvable(nodes: Seq<NodeView>, e: Endpoint) -> bool {
    exists|i: int, j: int|
        is_first_node(nodes, e.node, i) && 0 <= j < nodes[i].ports.len() && (
        #[trigger] nodes[i].ports[j]).id == e.port
}

/// Looks up the current world position of endpoint `e` among `nodes`.
pub fn resolve_endpoint(e: Endpoint, nodes: &[Node]) -> (r: Result<Point, ConnectionError>)
    ensures
        r matches Ok(pos) ==> resolves_to(views(nodes@), e, pos),
        r is Err <==> !resolvable(views(nodes@), e),
        r matches Err(err) ==> err == ConnectionError::UnknownEndpoint,
{
    let ghost vs = views(nodes@);
    let mut i: usize = 0;
    while i < nodes.len()
        invariant
            vs == views(nodes@),
            i <= nodes@.len(),
            forall|k: int| 0 <= k < i ==> (#[trigger] vs[k]).id != e.node,
        decreases nodes@.len() - i,
    {
        if nodes[i].id() == e.node {
            let ports = nodes[i].ports();
            let mut j: usize = 0;
            while j < ports.len()
                invariant
                    vs == views(nodes@),
                    i < nodes@.len(),
                    ports@ == vs[i as int].ports,
                    is_first_node(vs, e.node, i as int),
                    j <= ports@.len(),
                    forall|k: int| 0 <= k < j ==> (#[trigger] ports@[k]).id != e.port,
                decreases ports@.len() - j,
            {
                if ports[j].id == e.port {
                    assert(is_first_port(vs[i as int], e.port, j as int));
                    assert(resolvable(vs, e)) by {
                        assert(vs[i as int].ports[j as int].id == e.port);
                    }
                    return Ok(ports[j].center);
                }
                j = j + 1;
            }
            assert(!resolvable(vs, e)) by {
                assert forall|i2: int, j2: int|
                    is_first_node(vs, e.node, i2) && 0 <= j2 < vs[i2].ports.len()
                        implies (#[trigger] vs[i2].ports[j2]).id != e.port by {
                    if i2 < i {
                        assert(vs[i2].id != e.node);
                    } else if i2 > i {
                        assert(vs[i as int].id == e.node);
                    }
                }
            }
            return Err(ConnectionError::UnknownEndpoint);
        }
        i = i + 1;
    }
    Err(ConnectionError::UnknownEndpoint)
}

/// An append-only list of connections, kept in insertion order.
#[derive(Debug)]
pub struct ConnectionStore {
    connections: Vec<Connection>,
}

impl View for ConnectionStore {
    type V = Seq<Connection>;

    closed spec fn view(&self) -> Seq<Connection> {
        self.connections@
    }
}

impl ConnectionStore {
    pub fn new() -> (r: ConnectionStore)
        ensures
            r@ == Seq::<Connection>::empty(),
    {
        ConnectionStore { connections: Vec::new() }
    }

    /// Appends `c`, unless both its ends lie on the same node. Identical
    /// connections may be appended any number of times.
    pub fn append(&mut self, c: Connection) -> (r: Result<(), ConnectionError>)
        ensures
            c.start.node == c.end.node ==> r == Err::<(), ConnectionError>(
                ConnectionError::InvalidConnection,
            ) && final(self)@ == old(self)@,
            c.start.node != c.end.node ==> r is Ok && final(self)@ == old(self)@.push(c),
    {
        if c.start.node == c.end.node {
            return Err(ConnectionError::InvalidConnection);
        }
        self.connections.push(c);
        Ok(())
    }

    /// Every connection, in insertion order.
    pub fn all(&self) -> (r: &[Connection])
        ensures
            r@ == self@,
    {
        self.connections.as_slice()
    }

    pub fn len(&self) -> (r: usize)
        ensures
            r == self@.len(),
    {
        self.connections.len()
    }
}

} // verus!
