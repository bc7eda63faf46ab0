use vstd::prelude::*;
use crate::geometry::{in_disc, within_radius, Point};
use crate::ids::fresh_id;

verus! {

/// Bound on node coordinates and sizes: every port center then fits an `i32`.
pub const COORD_LIMIT: i32 = 0x2000_0000;

/// Side length of the nodes of the default layout.
pub const DEFAULT_NODE_SIZE: i32 = 100;

/// Hit radius of the port of a default node.
pub const DEFAULT_PORT_RADIUS: u32 = 10;

/// Where a port sits on its node's bounding box.
#[derive(Clone, Copy, Debug, PartialEq, Eq, Structural)]
pub enum Anchor {
    LeftCenter,
    RightCenter,
    Center,
}

/// Offset of an anchor from the node's top-left corner.
pub open spec fn anchor_offset(anchor: Anchor, width: int, height: int) -> (int, int) {
    match anchor {
        Anchor::LeftCenter => (0, height / 2),
        Anchor::RightCenter => (width, height / 2),
        Anchor::Center => (width / 2, height / 2),
    }
}

/// World position of an anchor for a node at `pos` of the given size.
pub open spec fn anchor_point(anchor: Anchor, pos: Point, width: int, height: int) -> Point {
    Point {
        x: (pos.x + anchor_offset(anchor, width, height).0) as i32,
        y: (pos.y + anchor_offset(anchor, width, height).1) as i32,
    }
}

/// A node's top-left corner and size lie in the supported range.
pub open spec fn placement_ok(pos: Point, width: int, height: int) -> bool {
    &&& -COORD_LIMIT <= pos.x <= COORD_LIMIT
    &&& -COORD_LIMIT <= pos.y <= COORD_LIMIT
    &&& 0 <= width <= COORD_LIMIT
    &&& 0 <= height <= COORD_LIMIT
}

/// A circular connection point of a node.
#[derive(Clone, Copy, Debug, PartialEq, Eq, Structural)]
pub struct Port {
    pub id: u128,
    pub anchor: Anchor,
    pub radius: u32,
    pub center: Point,
}

/// What a port is made from: its identity, anchor and hit radius.
#[derive(Clone, Copy, Debug, PartialEq, Eq, Structural)]
pub struct PortShape {
    pub id: u128,
    pub anchor: Anchor,
    pub radius: u32,
}

/// `p` hits `port`: it lies within the port's radius of its center.
pub open spec fn hits(p: Point, port: Port) -> bool {
    in_disc(p, port.center, port.radius)
}

/// Tells whether `p` hits `port`: its distance to the port's center is at
/// most the port's radius.
pub fn hit_port(p: Point, port: &Port) -> (r: bool)
    ensures
        r == hits(p, *port),
{
    within_radius(p, port.center, port.radius)
}

/// Index of the first of the first `n` ports that `p` hits.
pub open spec fn first_hit_upto(p: Point, ports: Seq<Port>, n: int) -> Option<int>
    decreases n,
{
    if n <= 0 {
        None
    } else {
        match first_hit_upto(p, ports, n - 1) {
            Some(k) => Some(k),
            None => if hits(p, ports[n - 1]) {
                Some(n - 1)
            } else {
                None
            },
        }
    }
}

/// Index of the first port, in declaration order, that `p` hits.
pub open spec fn first_hit(p: Point, ports: Seq<Port>) -> Option<int> {
    first_hit_upto(p, ports, ports.len() as int)
}

/// What `first_hit_upto` finds: the first hit among the first `n` ports, or
/// none when no port among them is hit.
pub proof fn lemma_first_hit_upto(p: Point, ports: Seq<Port>, n: int)
    requires
        0 <= n <= ports.len(),
    ensures
        match first_hit_upto(p, ports, n) {
            Some(k) => 0 <= k < n && hits(p, ports[k]) && forall|i: int|
                0 <= i < k ==> !#[trigger] hits(p, ports[i]),
            None => forall|i: int| 0 <= i < n ==> !#[trigger] hits(p, ports[i]),
        },
    decreases n,
{
    if n > 0 {
        lemma_first_hit_upto(p, ports, n - 1);
    }
}

/// Once a hit is found among the first `m` ports, looking further changes nothing.
pub proof fn lemma_first_hit_stable(p: Point, ports: Seq<Port>, m: int, n: int)
    requires
        0 <= m <= n,
        first_hit_upto(p, ports, m) is Some,
    ensures
        first_hit_upto(p, ports, n) == first_hit_upto(p, ports, m),
    decreases n - m,
{
    if m < n {
        lemma_first_hit_stable(p, ports, m, n - 1);
    }
}

/// The first hit among all ports: a hit port with no hit port before it.
pub proof fn lemma_first_hit(p: Point, ports: Seq<Port>)
    ensures
        match first_hit(p, ports) {
            Some(k) => 0 <= k < ports.len() && hits(p, ports[k]) && forall|i: int|
                0 <= i < k ==> !#[trigger] hits(p, ports[i]),
            None => hits_none(p, ports),
        },
{
    lemma_first_hit_upto(p, ports, ports.len() as int);
}

/// `p` hits none of the ports.
pub open spec fn hits_none(p: Point, ports: Seq<Port>) -> bool {
    forall|k: int| 0 <= k < ports.len() ==> !#[trigger] hits(p, ports[k])
}

/// The mathematical content of a node.
pub struct NodeView {
    pub id: u128,
    pub pos: Point,
    pub width: int,
    pub height: int,
    pub ports: Seq<Port>,
}

impl NodeView {
    /// At least one port, a supported placement, and every port center where
    /// its anchor puts it.
    pub open spec fn wf(self) -> bool {
        &&& self.ports.len() > 0
        &&& placement_ok(self.pos, self.width, self.height)
        &&& forall|j: int|
            0 <= j < self.ports.len() ==> #[trigger] self.ports[j].center == anchor_point(
                self.ports[j].anchor,
                self.pos,
                self.width,
                self.height,
            )
    }

    /// The same node with its top-left corner at `pos`, every port moved along.
    pub open spec fn placed_at(self, pos: Point) -> NodeView {
        NodeView {
            pos,
            ports: Seq::new(
                self.ports.len(),
                |j: int|
                    Port {
                        center: anchor_point(self.ports[j].anchor, pos, self.width, self.height),
                        ..self.ports[j]
                    },
            ),
            ..self
        }
    }
}

/// `n` is a default square node with its corner at (`x`, `y`): default size,
/// and one port of the default radius at its center.
pub open spec fn square_layout(n: NodeView, x: int, y: int) -> bool {
    &&& n.pos.x == x
    &&& n.pos.y == y
    &&& n.width == DEFAULT_NODE_SIZE
    &&& n.height == DEFAULT_NODE_SIZE
    &&& n.ports.len() == 1
    &&& n.ports[0].anchor == Anchor::Center
    &&& n.ports[0].radius == DEFAULT_PORT_RADIUS
    &&& n.ports[0].center.x == x + DEFAULT_NODE_SIZE / 2
    &&& n.ports[0].center.y == y + DEFAULT_NODE_SIZE / 2
}

/// The views of a list of nodes.
pub open spec fn views(nodes: Seq<Node>) -> Seq<NodeView> {
    nodes.map_values(|n: Node| n@)
}

/// Ports built from `shapes` for a node at `pos` of the given size.
pub open spec fn ports_from(shapes: Seq<PortShape>, pos: Point, width: int, height: int) -> Seq<Port> {
    Seq::new(
        shapes.len(),
        |j: int|
            Port {
                id: shapes[j].id,
                anchor: shapes[j].anchor,
                radius: shapes[j].radius,
                center: anchor_point(shapes[j].anchor, pos, width, height),
            },
    )
}

/// Why a node cannot be built.
#[derive(Clone, Copy, Debug, PartialEq, Eq, Structural)]
pub enum NodeError {
    /// The node would have no port.
    NoPorts,
    /// The position or the size lies outside the supported range.
    OutOfRange,
}

/// A rectangular node with its ports; port centers always follow the node.
#[derive(Debug)]
pub struct Node {
    id: u128,
    pos: Point,
    width: i32,
    height: i32,
    ports: Vec<Port>,
}

impl View for Node {
    type V = NodeView;

    closed spec fn view(&self) -> NodeView {
        NodeView {
            id: self.id,
            pos: self.pos,
            width: self.width as int,
            height: self.height as int,
            ports: self.ports@,
        }
    }
}

/// In the supported range, an anchor lies on the node's box and its world
/// position is the exact sum of the corner and the offset.
pub proof fn lemma_anchor_fits(anchor: Anchor, pos: Point, width: int, height: int)
    requires
        placement_ok(pos, width, height),
    ensures
        anchor_point(anchor, pos, width, height).x == pos.x + anchor_offset(anchor, width, height).0,
        anchor_point(anchor, pos, width, height).y == pos.y + anchor_offset(anchor, width, height).1,
        0 <= anchor_offset(anchor, width, height).0 <= width,
        0 <= anchor_offset(anchor, width, height).1 <= height,
{
}

/// Computes the world position of `anchor` on a node at `pos` of the given size.
fn anchor_position(anchor: Anchor, pos: Point, width: i32, height: i32) -> (r: Point)
    requires
        placement_ok(pos, width as int, height as int),
    ensures
        r == anchor_point(anchor, pos, width as int, height as int),
{
    proof {
        lemma_anchor_fits(anchor, pos, width as int, height as int);
    }
    match anchor {
        Anchor::LeftCenter => Point { x: pos.x, y: pos.y + height / 2 },
        Anchor::RightCenter => Point { x: pos.x + width, y: pos.y + height / 2 },
        Anchor::Center => Point { x: pos.x + width / 2, y: pos.y + height / 2 },
    }
}

/// Builds the ports of a node at `pos` from their shapes.
fn build_ports(shapes: &[PortShape], pos: Point, width: i32, height: i32) -> (r: Vec<Port>)
    requires
        placement_ok(pos, width as int, height as int),
    ensures
        r@ == ports_from(shapes@, pos, width as int, height as int),
{
    let mut ports: Vec<Port> = Vec::new();
    let mut j: usize = 0;
    while j < shapes.len()
        invariant
            placement_ok(pos, width as int, height as int),
            j <= shapes@.len(),
            ports@ == ports_from(shapes@, pos, width as int, height as int).take(j as int),
        decreases shapes@.len() - j,
    {
        let s = shapes[j];
        let center = anchor_position(s.anchor, pos, width, height);
        ports.push(Port { id: s.id, anchor: s.anchor, radius: s.radius, center });
        j = j + 1;
        assert(ports@ =~= ports_from(shapes@, pos, width as int, height as int).take(j as int));
    }
    assert(ports@ =~= ports_from(shapes@, pos, width as int, height as int));
    ports
}

impl Node {
    /// The node is well formed.
    pub open spec fn wf(&self) -> bool {
        self@.wf()
    }

    /// Builds a node with the given identity, top-left corner, size and ports.
    pub fn build(id: u128, pos: Point, width: i32, height: i32, shapes: &[PortShape]) -> (r: Result<
        Node,
        NodeError,
    >)
        ensures
            shapes@.len() == 0 ==> r == Err::<Node, NodeError>(NodeError::NoPorts),
            shapes@.len() > 0 && !placement_ok(pos, width as int, height as int) ==> r == Err::<
                Node,
                NodeError,
            >(NodeError::OutOfRange),
            shapes@.len() > 0 && placement_ok(pos, width as int, height as int) ==> r is Ok,
            r matches Ok(n) ==> {
                &&& n.wf()
                &&& n@.id == id
                &&& n@.pos == pos
                &&& n@.width == width
                &&& n@.height == height
                &&& n@.ports == ports_from(shapes@, pos, width as int, height as int)
            },
    {
        if shapes.len() == 0 {
            return Err(NodeError::NoPorts);
        }
        if pos.x < -COORD_LIMIT || pos.x > COORD_LIMIT || pos.y < -COORD_LIMIT || pos.y
            > COORD_LIMIT || width < 0 || width > COORD_LIMIT || height < 0 || height
            > COORD_LIMIT {
            return Err(NodeError::OutOfRange);
        }
        let ports = build_ports(shapes, pos, width, height);
        Ok(Node { id, pos, width, height, ports })
    }

    /// A default square node with the given identities, corner at (`x`, `y`),
    /// and one port at its center.
    pub fn square(id: u128, port_id: u128, x: i32, y: i32) -> (r: Node)
        requires
            -COORD_LIMIT <= x <= COORD_LIMIT,
            -COORD_LIMIT <= y <= COORD_LIMIT,
        ensures
            r.wf(),
            square_layout(r@, x as int, y as int),
            r@.id == id,
            r@.ports[0].id == port_id,
    {
        let pos = Point { x, y };
        let center = anchor_position(Anchor::Center, pos, DEFAULT_NODE_SIZE, DEFAULT_NODE_SIZE);
        let mut ports: Vec<Port> = Vec::new();
        ports.push(Port { id: port_id, anchor: Anchor::Center, radius: DEFAULT_PORT_RADIUS, center });
        Node { id, pos, width: DEFAULT_NODE_SIZE, height: DEFAULT_NODE_SIZE, ports }
    }

    /// A default square node at (`x`, `y`) under two fresh random identities,
    /// the first drawn for the node and the second for its port.
    pub fn new(x: i32, y: i32) -> (r: Node)
        requires
            -COORD_LIMIT <= x <= COORD_LIMIT,
            -COORD_LIMIT <= y <= COORD_LIMIT,
        ensures
            r.wf(),
            square_layout(r@, x as int, y as int),
    {
        let id = fresh_id();
        let port_id = fresh_id();
        Node::square(id, port_id, x, y)
    }

    pub fn id(&self) -> (r: u128)
        ensures
            r == self@.id,
    {
        self.id
    }

    pub fn position(&self) -> (r: Point)
        ensures
            r == self@.pos,
    {
        self.pos
    }

    pub fn width(&self) -> (r: i32)
        ensures
            r == self@.width,
    {
        self.width
    }

    pub fn height(&self) -> (r: i32)
        ensures
            r == self@.height,
    {
        self.height
    }

    pub fn ports(&self) -> (r: &[Port])
        ensures
            r@ == self@.ports,
    {
        self.ports.as_slice()
    }

    /// Index of the first port, in declaration order, that `p` hits.
    pub fn port_index_at(&self, p: Point) -> (r: Option<usize>)
        ensures
            r matches Some(k) ==> first_hit(p, self@.ports) == Some(k as int),
            r is None <==> first_hit(p, self@.ports) is None,
            r matches Some(k) ==> k < self@.ports.len() && hits(p, self@.ports[k as int]),
            r is None <==> hits_none(p, self@.ports),
    {
        proof {
            lemma_first_hit(p, self@.ports);
        }
        let mut j: usize = 0;
        while j < self.ports.len()
            invariant
                j <= self@.ports.len(),
                first_hit_upto(p, self@.ports, j as int) is None,
            decreases self@.ports.len() - j,
        {
            if hit_port(p, &self.ports[j]) {
                proof {
                    assert(first_hit_upto(p, self@.ports, j + 1) == Some(j as int));
                    lemma_first_hit_stable(p, self@.ports, j + 1, self@.ports.len() as int);
                }
                return Some(j);
            }
            j = j + 1;
        }
        None
    }

    /// Identity of the first port, in declaration order, that `p` hits.
    pub fn port_at(&self, p: Point) -> (r: Option<u128>)
        ensures
            r == (match first_hit(p, self@.ports) {
                Some(k) => Some(self@.ports[k].id),
                None => None::<u128>,
            }),
    {
        proof {
            lemma_first_hit(p, self@.ports);
        }
        match self.port_index_at(p) {
            Some(k) => Some(self.ports[k].id),
            None => None,
        }
    }

    /// Moves the node so that its top-left corner is at `pos`; every port's
    /// world position is recomputed from its anchor at once.
    pub fn set_position(&mut self, pos: Point)
        requires
            old(self).wf(),
            placement_ok(pos, old(self)@.width, old(self)@.height),
        ensures
            final(self).wf(),
            final(self)@ == old(self)@.placed_at(pos),
    {
        let ghost before = self@;
        let mut ports: Vec<Port> = Vec::new();
        let mut j: usize = 0;
        while j < self.ports.len()
            invariant
                j <= self@.ports.len(),
                self@ == before,
                placement_ok(pos, self.width as int, self.height as int),
                ports@ == before.placed_at(pos).ports.take(j as int),
            decreases self@.ports.len() - j,
        {
            let old_port = self.ports[j];
            let center = anchor_position(old_port.anchor, pos, self.width, self.height);
            ports.push(Port { center, ..old_port });
            j = j + 1;
            assert(ports@ =~= before.placed_at(pos).ports.take(j as int));
        }
        assert(ports@ =~= before.placed_at(pos).ports);
        self.pos = pos;
        self.ports = ports;
        assert(self@ =~= before.placed_at(pos));
    }
}

} // verus!
