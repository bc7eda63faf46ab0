use vstd::prelude::*;
use crate::connection::{resolve_endpoint, resolves_to, resolvable, Connection, ConnectionError, ConnectionStore, Endpoint};
use crate::geometry::Point;
use crate::ids::fresh_id;
use crate::node::{first_hit, lemma_first_hit, square_layout, views, Node, NodeView, Port, COORD_LIMIT};

verus! {

/// What the single pointer is doing.
#[derive(Clone, Copy, Debug, PartialEq, Eq, Structural)]
pub enum GestureState {
    Idle,
    /// The node with this identity follows the pointer.
    DraggingNode { node: u128 },
    /// A connection is being drawn from `start`, whose port sat at `origin`
    /// when the gesture began.
    DrawingConnection { start: Endpoint, origin: Point },
}

/// What the host reports of one node's body in one frame.
#[derive(Clone, Copy, Debug, PartialEq, Eq, Structural)]
pub struct NodeDrag {
    /// The node's bounding box is the active drag target.
    pub dragged: bool,
    /// How far the pointer moved over it this frame.
    pub delta: Point,
}

/// One frame's pointer snapshot, taken once and read for the whole frame.
/// `drags[i]` speaks of the `i`-th node; a node without an entry is not dragged.
#[derive(Debug)]
pub struct FrameInput {
    /// Where the pointer is, if the host knows.
    pub pointer: Option<Point>,
    /// The primary button is held. Only the click and release edges below
    /// drive the gesture rules.
    pub primary_down: bool,
    /// The primary button was pressed this frame.
    pub clicked: bool,
    /// The button was released this frame.
    pub released: bool,
    pub drags: Vec<NodeDrag>,
}

/// Node identities are pairwise distinct.
pub open spec fn node_ids_distinct(nodes: Seq<NodeView>) -> bool {
    forall|i1: int, i2: int|
        0 <= i1 < nodes.len() && 0 <= i2 < nodes.len() && i1 != i2 ==> #[trigger] nodes[i1].id
            != #[trigger] nodes[i2].id
}

/// No two ports of one node share an identity.
pub open spec fn port_ids_distinct(ports: Seq<Port>) -> bool {
    forall|j1: int, j2: int|
        0 <= j1 < j2 < ports.len() ==> #[trigger] ports[j1].id != #[trigger] ports[j2].id
}

/// No port of `a` shares an identity with a port of `b`.
pub open spec fn ports_disjoint(a: Seq<Port>, b: Seq<Port>) -> bool {
    forall|j1: int, j2: int|
        0 <= j1 < a.len() && 0 <= j2 < b.len() ==> #[trigger] a[j1].id != #[trigger] b[j2].id
}

/// Node identities are unique, and port identities are unique over the
/// whole diagram.
pub open spec fn ids_unique(nodes: Seq<NodeView>) -> bool {
    &&& node_ids_distinct(nodes)
    &&& forall|i: int| 0 <= i < nodes.len() ==> port_ids_distinct(#[trigger] nodes[i].ports)
    &&& forall|i1: int, i2: int|
        0 <= i1 < i2 < nodes.len() ==> ports_disjoint(
            #[trigger] nodes[i1].ports,
            #[trigger] nodes[i2].ports,
        )
}

/// The mathematical content of an editor.
pub struct EditorView {
    pub nodes: Seq<NodeView>,
    pub connections: Seq<Connection>,
    pub state: GestureState,
}

impl EditorView {
    pub open spec fn wf(self) -> bool {
        &&& forall|i: int| 0 <= i < self.nodes.len() ==> (#[trigger] self.nodes[i]).wf()
        &&& ids_unique(self.nodes)
    }
}

/// Node and port index of the first port hit by `p` among the first `n`
/// nodes: nodes in order, and each node's ports in declaration order.
pub open spec fn diagram_hit_upto(p: Point, nodes: Seq<NodeView>, n: int) -> Option<(int, int)>
    decreases n,
{
    if n <= 0 {
        None
    } else {
        match diagram_hit_upto(p, nodes, n - 1) {
            Some(h) => Some(h),
            None => match first_hit(p, nodes[n - 1].ports) {
                Some(j) => Some((n - 1, j)),
                None => None,
            },
        }
    }
}

/// Node and port index of the first port of the diagram that `p` hits.
pub open spec fn diagram_hit(p: Point, nodes: Seq<NodeView>) -> Option<(int, int)> {
    diagram_hit_upto(p, nodes, nodes.len() as int)
}

proof fn lemma_diagram_hit_upto(p: Point, nodes: Seq<NodeView>, n: int)
    requires
        0 <= n <= nodes.len(),
    ensures
        match diagram_hit_upto(p, nodes, n) {
            Some((i, j)) => 0 <= i < n && first_hit(p, nodes[i].ports) == Some(j) && forall|k: int|
                0 <= k < i ==> first_hit(p, (#[trigger] nodes[k]).ports) is None,
            None => forall|k: int| 0 <= k < n ==> first_hit(p, (#[trigger] nodes[k]).ports) is None,
        },
    decreases n,
{
    if n > 0 {
        lemma_diagram_hit_upto(p, nodes, n - 1);
    }
}

proof fn lemma_diagram_hit_stable(p: Point, nodes: Seq<NodeView>, m: int, n: int)
    requires
        0 <= m <= n,
        diagram_hit_upto(p, nodes, m) is Some,
    ensures
        diagram_hit_upto(p, nodes, n) == diagram_hit_upto(p, nodes, m),
    decreases n - m,
{
    if m < n {
        lemma_diagram_hit_stable(p, nodes, m, n - 1);
    }
}

/// The first hit of the diagram: node `i`'s first hit port, where no earlier
/// node has a hit port; none when no port of the diagram is hit.
pub proof fn lemma_diagram_hit(p: Point, nodes: Seq<NodeView>)
    ensures
        match diagram_hit(p, nodes) {
            Some((i, j)) => 0 <= i < nodes.len() && first_hit(p, nodes[i].ports) == Some(j)
                && forall|k: int| 0 <= k < i ==> first_hit(p, (#[trigger] nodes[k]).ports) is None,
            None => forall|k: int|
                0 <= k < nodes.len() ==> first_hit(p, (#[trigger] nodes[k]).ports) is None,
        },
{
    lemma_diagram_hit_upto(p, nodes, nodes.len() as int);
}

/// The click stage: a click on a port starts drawing a connection from it;
/// a click anywhere else drops any gesture in progress.
pub open spec fn after_click(v: EditorView, input: FrameInput) -> EditorView {
    if input.clicked && input.pointer is Some {
        match diagram_hit(input.pointer->0, v.nodes) {
            Some((i, j)) => EditorView {
                state: GestureState::DrawingConnection {
                    start: Endpoint { node: v.nodes[i].id, port: v.nodes[i].ports[j].id },
                    origin: v.nodes[i].ports[j].center,
                },
                ..v
            },
            None => EditorView { state: GestureState::Idle, ..v },
        }
    } else {
        v
    }
}

/// What the host reports of node `i` this frame.
pub open spec fn drag_of(input: FrameInput, i: int) -> NodeDrag {
    if 0 <= i < input.drags@.len() {
        input.drags@[i]
    } else {
        NodeDrag { dragged: false, delta: Point { x: 0, y: 0 } }
    }
}

/// `pos` moved by `d`.
pub open spec fn shifted(pos: Point, d: Point) -> Point {
    Point { x: (pos.x + d.x) as i32, y: (pos.y + d.y) as i32 }
}

/// `pos` moved by `d` stays in the supported range.
pub open spec fn shift_fits(pos: Point, d: Point) -> bool {
    &&& -COORD_LIMIT <= pos.x + d.x <= COORD_LIMIT
    &&& -COORD_LIMIT <= pos.y + d.y <= COORD_LIMIT
}

/// Node `i` moved by `d`, when its new place lies in the supported range;
/// the diagram unchanged otherwise.
pub open spec fn moved(v: EditorView, i: int, d: Point) -> EditorView {
    let n = v.nodes[i];
    if shift_fits(n.pos, d) {
        EditorView { nodes: v.nodes.update(i, n.placed_at(shifted(n.pos, d))), ..v }
    } else {
        v
    }
}

/// The drag stage for node `i`. A node already being dragged follows its
/// delta; from `Idle`, a drag that does not start on one of the node's ports
/// makes it the drag target. Nothing moves while a connection is drawn.
pub open spec fn drag_step(v: EditorView, input: FrameInput, i: int) -> EditorView {
    let d = drag_of(input, i);
    if !d.dragged {
        v
    } else {
        match v.state {
            GestureState::DrawingConnection { .. } => v,
            GestureState::DraggingNode { node } => if node == v.nodes[i].id {
                moved(v, i, d.delta)
            } else {
                v
            },
            GestureState::Idle => match input.pointer {
                Some(p) => if first_hit(p, v.nodes[i].ports) is None {
                    EditorView {
                        state: GestureState::DraggingNode { node: v.nodes[i].id },
                        ..moved(v, i, d.delta)
                    }
                } else {
                    v
                },
                None => v,
            },
        }
    }
}

/// The drag stage applied to the first `n` nodes, in order.
pub open spec fn drags_upto(v: EditorView, input: FrameInput, n: int) -> EditorView
    decreases n,
{
    if n <= 0 {
        v
    } else {
        drag_step(drags_upto(v, input, n - 1), input, n - 1)
    }
}

/// The drag stage.
pub open spec fn after_drags(v: EditorView, input: FrameInput) -> EditorView {
    drags_upto(v, input, v.nodes.len() as int)
}

/// The connections after a connection gesture from `start` ends at `pointer`.
pub open spec fn committed(v: EditorView, start: Endpoint, pointer: Option<Point>) -> Seq<Connection> {
    match pointer {
        Some(q) => match diagram_hit(q, v.nodes) {
            Some((i, j)) => if v.nodes[i].id != start.node {
                v.connections.push(
                    Connection {
                        start,
                        end: Endpoint { node: v.nodes[i].id, port: v.nodes[i].ports[j].id },
                    },
                )
            } else {
                v.connections
            },
            None => v.connections,
        },
        None => v.connections,
    }
}

/// The release stage: every gesture ends; a connection gesture released
/// over a port of another node adds that connection.
pub open spec fn after_release(v: EditorView, input: FrameInput) -> EditorView {
    if !input.released {
        v
    } else {
        match v.state {
            GestureState::DrawingConnection { start, .. } => EditorView {
                connections: committed(v, start, input.pointer),
                state: GestureState::Idle,
                ..v
            },
            _ => EditorView { state: GestureState::Idle, ..v },
        }
    }
}

/// One frame: click, then drags, then release.
pub open spec fn step(v: EditorView, input: FrameInput) -> EditorView {
    after_release(after_drags(after_click(v, input), input), input)
}

/// Why a diagram cannot be set up.
#[derive(Clone, Copy, Debug, PartialEq, Eq, Structural)]
pub enum DiagramError {
    DuplicateNodeId,
    DuplicatePortId,
}

/// Whether two ports of one node share an identity.
fn ports_repeat(ports: &[Port]) -> (r: bool)
    ensures
        r == !port_ids_distinct(ports@),
{
    let mut j1: usize = 0;
    while j1 < ports.len()
        invariant
            j1 <= ports@.len(),
            forall|a: int, b: int|
                0 <= a < j1 && a < b < ports@.len() ==> #[trigger] ports@[a].id
                    != #[trigger] ports@[b].id,
        decreases ports@.len() - j1,
    {
        let mut j2: usize = j1 + 1;
        while j2 < ports.len()
            invariant
                j1 < j2 <= ports@.len(),
                forall|a: int, b: int|
                    0 <= a < j1 && a < b < ports@.len() ==> #[trigger] ports@[a].id
                        != #[trigger] ports@[b].id,
                forall|b: int| j1 < b < j2 ==> ports@[j1 as int].id != #[trigger] ports@[b].id,
            decreases ports@.len() - j2,
        {
            if ports[j1].id == ports[j2].id {
                return true;
            }
            j2 = j2 + 1;
        }
        j1 = j1 + 1;
    }
    false
}

/// Whether a port of `a` shares an identity with a port of `b`.
fn ports_clash(a: &[Port], b: &[Port]) -> (r: bool)
    ensures
        r == !ports_disjoint(a@, b@),
{
    let mut j1: usize = 0;
    while j1 < a.len()
        invariant
            j1 <= a@.len(),
            forall|x: int, y: int|
                0 <= x < j1 && 0 <= y < b@.len() ==> #[trigger] a@[x].id != #[trigger] b@[y].id,
        decreases a@.len() - j1,
    {
        let mut j2: usize = 0;
        while j2 < b.len()
            invariant
                j1 < a@.len(),
                j2 <= b@.len(),
                forall|x: int, y: int|
                    0 <= x < j1 && 0 <= y < b@.len() ==> #[trigger] a@[x].id != #[trigger] b@[y].id,
                forall|y: int| 0 <= y < j2 ==> a@[j1 as int].id != #[trigger] b@[y].id,
            decreases b@.len() - j2,
        {
            if a[j1].id == b[j2].id {
                return true;
            }
            j2 = j2 + 1;
        }
        j1 = j1 + 1;
    }
    false
}

/// Checks that identities are unique over `nodes`: first the nodes', then
/// the ports'.
fn check_ids(nodes: &[Node]) -> (r: Result<(), DiagramError>)
    ensures
        r is Ok <==> ids_unique(views(nodes@)),
        r == Err::<(), DiagramError>(DiagramError::DuplicateNodeId) <==> !node_ids_distinct(
            views(nodes@),
        ),
{
    let ghost vs = views(nodes@);
    let mut i1: usize = 0;
    while i1 < nodes.len()
        invariant
            vs == views(nodes@),
            i1 <= nodes@.len(),
            forall|a: int, b: int|
                0 <= a < i1 && a < b < nodes@.len() ==> #[trigger] vs[a].id != #[trigger] vs[b].id,
        decreases nodes@.len() - i1,
    {
        let mut i2: usize = i1 + 1;
        while i2 < nodes.len()
            invariant
                vs == views(nodes@),
                i1 < i2 <= nodes@.len(),
                forall|a: int, b: int|
                    0 <= a < i1 && a < b < nodes@.len() ==> #[trigger] vs[a].id
                        != #[trigger] vs[b].id,
                forall|b: int| i1 < b < i2 ==> vs[i1 as int].id != #[trigger] vs[b].id,
            decreases nodes@.len() - i2,
        {
            if nodes[i1].id() == nodes[i2].id() {
                assert(vs[i1 as int].id == vs[i2 as int].id);
                return Err(DiagramError::DuplicateNodeId);
            }
            i2 = i2 + 1;
        }
        i1 = i1 + 1;
    }
    assert(node_ids_distinct(vs)) by {
        assert forall|a: int, b: int|
            0 <= a < vs.len() && 0 <= b < vs.len() && a != b implies #[trigger] vs[a].id
            != #[trigger] vs[b].id by {
            if a > b {
                assert(vs[b].id != vs[a].id);
            }
        }
    }
    let mut i1: usize = 0;
    while i1 < nodes.len()
        invariant
            vs == views(nodes@),
            node_ids_distinct(vs),
            i1 <= nodes@.len(),
            forall|a: int| 0 <= a < i1 ==> port_ids_distinct(#[trigger] vs[a].ports),
            forall|a: int, b: int|
                0 <= a < i1 && a < b < nodes@.len() ==> ports_disjoint(
                    #[trigger] vs[a].ports,
                    #[trigger] vs[b].ports,
                ),
        decreases nodes@.len() - i1,
    {
        if ports_repeat(nodes[i1].ports()) {
            assert(!port_ids_distinct(vs[i1 as int].ports));
            return Err(DiagramError::DuplicatePortId);
        }
        let mut i2: usize = i1 + 1;
        while i2 < nodes.len()
            invariant
                vs == views(nodes@),
                node_ids_distinct(vs),
                i1 < i2 <= nodes@.len(),
                forall|a: int| 0 <= a <= i1 ==> port_ids_distinct(#[trigger] vs[a].ports),
                forall|a: int, b: int|
                    0 <= a < i1 && a < b < nodes@.len() ==> ports_disjoint(
                        #[trigger] vs[a].ports,
                        #[trigger] vs[b].ports,
                    ),
                forall|b: int| i1 < b < i2 ==> ports_disjoint(vs[i1 as int].ports, #[trigger] vs[b].ports),
            decreases nodes@.len() - i2,
        {
            if ports_clash(nodes[i1].ports(), nodes[i2].ports()) {
                assert(!ports_disjoint(vs[i1 as int].ports, vs[i2 as int].ports));
                return Err(DiagramError::DuplicatePortId);
            }
            i2 = i2 + 1;
        }
        i1 = i1 + 1;
    }
    Ok(())
}

/// Moving a node keeps every identity and keeps the diagram well formed.
pub proof fn lemma_moved_wf(v: EditorView, i: int, d: Point)
    requires
        v.wf(),
        0 <= i < v.nodes.len(),
    ensures
        moved(v, i, d).wf(),
        moved(v, i, d).nodes.len() == v.nodes.len(),
        moved(v, i, d).connections == v.connections,
        moved(v, i, d).state == v.state,
        forall|k: int| 0 <= k < v.nodes.len() ==> (#[trigger] moved(v, i, d).nodes[k]).id == v.nodes[k].id,
{
    let w = moved(v, i, d);
    if shift_fits(v.nodes[i].pos, d) {
        let n = v.nodes[i];
        let m = n.placed_at(shifted(n.pos, d));
        assert(m.wf());
        assert forall|k: int, j: int|
            0 <= k < v.nodes.len() && 0 <= j < v.nodes[k].ports.len() implies #[trigger] w.nodes[k].ports[j].id
            == v.nodes[k].ports[j].id && w.nodes[k].ports.len() == v.nodes[k].ports.len() by {
            if k == i {
                assert(w.nodes[k] == m);
            }
        }
        assert forall|k: int| 0 <= k < w.nodes.len() implies (#[trigger] w.nodes[k]).ports.len() == v.nodes[k].ports.len() by {
            if k == i {
                assert(w.nodes[k] == m);
            }
        }
        assert forall|k: int| 0 <= k < w.nodes.len() implies port_ids_distinct(#[trigger] w.nodes[k].ports) by {
            assert(port_ids_distinct(v.nodes[k].ports));
            assert forall|j1: int, j2: int|
                0 <= j1 < j2 < w.nodes[k].ports.len() implies #[trigger] w.nodes[k].ports[j1].id != #[trigger] w.nodes[k].ports[j2].id by {
                assert(w.nodes[k].ports[j1].id == v.nodes[k].ports[j1].id);
                assert(w.nodes[k].ports[j2].id == v.nodes[k].ports[j2].id);
            }
        }
        assert forall|k1: int, k2: int| 0 <= k1 < k2 < w.nodes.len() implies ports_disjoint(
            #[trigger] w.nodes[k1].ports,
            #[trigger] w.nodes[k2].ports,
        ) by {
            assert(ports_disjoint(v.nodes[k1].ports, v.nodes[k2].ports));
            assert forall|j1: int, j2: int|
                0 <= j1 < w.nodes[k1].ports.len() && 0 <= j2 < w.nodes[k2].ports.len() implies #[trigger] w.nodes[k1].ports[j1].id != #[trigger] w.nodes[k2].ports[j2].id by {
                assert(w.nodes[k1].ports[j1].id == v.nodes[k1].ports[j1].id);
                assert(w.nodes[k2].ports[j2].id == v.nodes[k2].ports[j2].id);
            }
        }
        assert forall|k: int| 0 <= k < w.nodes.len() implies (#[trigger] w.nodes[k]).wf() by {
            if k == i {
                assert(w.nodes[k] == m);
            }
        }
        assert(node_ids_distinct(w.nodes)) by {
            assert forall|k1: int, k2: int|
                0 <= k1 < w.nodes.len() && 0 <= k2 < w.nodes.len() && k1 != k2 implies #[trigger] w.nodes[k1].id
                != #[trigger] w.nodes[k2].id by {
                assert(w.nodes[k1].id == v.nodes[k1].id);
                assert(w.nodes[k2].id == v.nodes[k2].id);
            }
        }
    }
}

/// The starting diagram: two default nodes, with corners at (100, 100) and
/// (400, 100) and ports centered at (150, 150) and (450, 150), no connection,
/// and no gesture.
pub open spec fn demo_layout(v: EditorView) -> bool {
    &&& v.nodes.len() == 2
    &&& square_layout(v.nodes[0], 100, 100)
    &&& square_layout(v.nodes[1], 400, 100)
    &&& v.nodes[0].ports[0].center == (Point { x: 150, y: 150 })
    &&& v.nodes[1].ports[0].center == (Point { x: 450, y: 150 })
    &&& v.connections == Seq::<Connection>::empty()
    &&& v.state == GestureState::Idle
}

/// A diagram of nodes and connections, with the pointer gesture in progress.
#[derive(Debug)]
pub struct Editor {
    nodes: Vec<Node>,
    store: ConnectionStore,
    state: GestureState,
}

impl View for Editor {
    type V = EditorView;

    closed spec fn view(&self) -> EditorView {
        EditorView { nodes: views(self.nodes@), connections: self.store@, state: self.state }
    }
}

impl Editor {
    pub open spec fn wf(&self) -> bool {
        self@.wf()
    }

    /// An editor over `nodes`, with no connection and no gesture; refused
    /// when two nodes, or two ports, share an identity.
    pub fn new(nodes: Vec<Node>) -> (r: Result<Editor, DiagramError>)
        requires
            forall|i: int| 0 <= i < nodes@.len() ==> (#[trigger] nodes@[i]).wf(),
        ensures
            r is Ok <==> ids_unique(views(nodes@)),
            r == Err::<Editor, DiagramError>(DiagramError::DuplicateNodeId) <==> !node_ids_distinct(
                views(nodes@),
            ),
            r matches Ok(e) ==> {
                &&& e.wf()
                &&& e@.nodes == views(nodes@)
                &&& e@.connections == Seq::<Connection>::empty()
                &&& e@.state == GestureState::Idle
            },
    {
        match check_ids(nodes.as_slice()) {
            Ok(()) => {
                let e = Editor { nodes, store: ConnectionStore::new(), state: GestureState::Idle };
                assert forall|i: int| 0 <= i < e@.nodes.len() implies (#[trigger] e@.nodes[i]).wf() by {
                    assert(e@.nodes[i] == nodes@[i]@);
                }
                Ok(e)
            },
            Err(err) => Err(err),
        }
    }

    /// Node and port index of the first port of the diagram that `p` hits.
    fn hit_in_diagram(&self, p: Point) -> (r: Option<(usize, usize)>)
        ensures
            r matches Some((i, j)) ==> diagram_hit(p, self@.nodes) == Some((i as int, j as int)),
            r is None <==> diagram_hit(p, self@.nodes) is None,
    {
        proof {
            lemma_diagram_hit(p, self@.nodes);
        }
        let mut i: usize = 0;
        while i < self.nodes.len()
            invariant
                i <= self@.nodes.len(),
                self@.nodes.len() == self.nodes@.len(),
                diagram_hit_upto(p, self@.nodes, i as int) is None,
            decreases self@.nodes.len() - i,
        {
            match self.nodes[i].port_index_at(p) {
                Some(j) => {
                    proof {
                        assert(self@.nodes[i as int] == self.nodes@[i as int]@);
                        assert(diagram_hit_upto(p, self@.nodes, i + 1) == Some((i as int, j as int)));
                        lemma_diagram_hit_stable(p, self@.nodes, i + 1, self@.nodes.len() as int);
                    }
                    return Some((i, j));
                },
                None => {
                    assert(self@.nodes[i as int] == self.nodes@[i as int]@);
                },
            }
            i = i + 1;
        }
        None
    }

    /// Moves node `i` by `d` when its new place lies in the supported range.
    fn move_node(&mut self, i: usize, d: Point)
        requires
            old(self).wf(),
            i < old(self)@.nodes.len(),
        ensures
            final(self).wf(),
            final(self)@ == moved(old(self)@, i as int, d),
    {
        proof {
            lemma_moved_wf(self@, i as int, d);
        }
        let pos = self.nodes[i].position();
        let x: i64 = pos.x as i64 + d.x as i64;
        let y: i64 = pos.y as i64 + d.y as i64;
        if -(COORD_LIMIT as i64) <= x && x <= COORD_LIMIT as i64 && -(COORD_LIMIT as i64) <= y && y
            <= COORD_LIMIT as i64 {
            let ghost before = self@;
            assert(self.nodes@[i as int]@ == before.nodes[i as int]);
            let target = Point { x: x as i32, y: y as i32 };
            assert(target == shifted(before.nodes[i as int].pos, d));
            self.nodes[i].set_position(target);
            assert(self@.nodes =~= moved(before, i as int, d).nodes);
        }
    }

    /// The click stage of a frame.
    fn apply_click(&mut self, input: &FrameInput)
        requires
            old(self).wf(),
        ensures
            final(self).wf(),
            final(self)@ == after_click(old(self)@, *input),
    {
        if input.clicked {
            if let Some(p) = input.pointer {
                match self.hit_in_diagram(p) {
                    Some((i, j)) => {
                        let ghost v = self@;
                        proof {
                            lemma_diagram_hit(p, v.nodes);
                            lemma_first_hit(p, v.nodes[i as int].ports);
                            assert(self.nodes@[i as int]@ == v.nodes[i as int]);
                        }
                        let port = self.nodes[i].ports()[j];
                        let start = Endpoint { node: self.nodes[i].id(), port: port.id };
                        self.state = GestureState::DrawingConnection { start, origin: port.center };
                    },
                    None => {
                        self.state = GestureState::Idle;
                    },
                }
            }
        }
    }

    /// The drag stage of a frame.
    fn apply_drags(&mut self, input: &FrameInput)
        requires
            old(self).wf(),
        ensures
            final(self).wf(),
            final(self)@ == after_drags(old(self)@, *input),
    {
        let ghost v0 = self@;
        let n = self.nodes.len();
        let mut i: usize = 0;
        while i < n
            invariant
                self.wf(),
                n == v0.nodes.len(),
                self@.nodes.len() == n,
                self.nodes@.len() == n,
                i <= n,
                self@ == drags_upto(v0, *input, i as int),
            decreases n - i,
        {
            let d = if i < input.drags.len() {
                input.drags[i]
            } else {
                NodeDrag { dragged: false, delta: Point { x: 0, y: 0 } }
            };
            assert(d == drag_of(*input, i as int));
            let ghost v = self@;
            proof {
                assert(self.nodes@[i as int]@ == v.nodes[i as int]);
                lemma_moved_wf(v, i as int, d.delta);
            }
            if d.dragged {
                match self.state {
                    GestureState::DrawingConnection { .. } => {},
                    GestureState::DraggingNode { node } => {
                        if node == self.nodes[i].id() {
                            self.move_node(i, d.delta);
                        }
                    },
                    GestureState::Idle => {
                        if let Some(p) = input.pointer {
                            if self.nodes[i].port_index_at(p).is_none() {
                                let id = self.nodes[i].id();
                                self.move_node(i, d.delta);
                                self.state = GestureState::DraggingNode { node: id };
                            }
                        }
                    },
                }
            }
            i = i + 1;
        }
    }

    /// The release stage of a frame.
    fn apply_release(&mut self, input: &FrameInput)
        requires
            old(self).wf(),
        ensures
            final(self).wf(),
            final(self)@ == after_release(old(self)@, *input),
    {
        if input.released {
            if let GestureState::DrawingConnection { start, .. } = self.state {
                if let Some(q) = input.pointer {
                    if let Some((i, j)) = self.hit_in_diagram(q) {
                        let ghost v = self@;
                        proof {
                            lemma_diagram_hit(q, v.nodes);
                            lemma_first_hit(q, v.nodes[i as int].ports);
                            assert(self.nodes@[i as int]@ == v.nodes[i as int]);
                        }
                        let end = Endpoint { node: self.nodes[i].id(), port: self.nodes[i].ports()[j].id };
                        let _ = self.store.append(Connection { start, end });
                    }
                }
            }
            self.state = GestureState::Idle;
        }
    }

    /// Runs one frame of pointer input: the click stage, then the drag stage
    /// over the nodes in order, then the release stage.
    pub fn tick(&mut self, input: &FrameInput)
        requires
            old(self).wf(),
        ensures
            final(self).wf(),
            final(self)@ == step(old(self)@, *input),
    {
        self.apply_click(input);
        self.apply_drags(input);
        self.apply_release(input);
    }

    /// Two default nodes at (100, 100) and (400, 100), with ports centered at
    /// (150, 150) and (450, 150), under the given identities; refused when the
    /// two nodes, or the two ports, share an identity.
    pub fn demo_with_ids(n1: u128, p1: u128, n2: u128, p2: u128) -> (r: Result<Editor, DiagramError>)
        ensures
            r is Ok <==> n1 != n2 && p1 != p2,
            r == Err::<Editor, DiagramError>(DiagramError::DuplicateNodeId) <==> n1 == n2,
            r matches Ok(e) ==> {
                &&& e.wf()
                &&& demo_layout(e@)
                &&& e@.nodes[0].id == n1
                &&& e@.nodes[0].ports[0].id == p1
                &&& e@.nodes[1].id == n2
                &&& e@.nodes[1].ports[0].id == p2
            },
    {
        let mut nodes: Vec<Node> = Vec::new();
        nodes.push(Node::square(n1, p1, 100, 100));
        nodes.push(Node::square(n2, p2, 400, 100));
        proof {
            let vs = views(nodes@);
            assert(vs[0] == nodes@[0]@);
            assert(vs[1] == nodes@[1]@);
            if n1 != n2 && p1 != p2 {
                assert(ids_unique(vs)) by {
                    assert forall|i: int| 0 <= i < vs.len() implies port_ids_distinct(
                        #[trigger] vs[i].ports,
                    ) by {}
                    assert forall|i1: int, i2: int| 0 <= i1 < i2 < vs.len() implies ports_disjoint(
                        #[trigger] vs[i1].ports,
                        #[trigger] vs[i2].ports,
                    ) by {}
                }
            }
            if p1 == p2 {
                assert(!ports_disjoint(vs[0].ports, vs[1].ports));
            }
            if n1 == n2 {
                assert(!node_ids_distinct(vs));
            }
        }
        Editor::new(nodes)
    }

    /// Two default nodes at (100, 100) and (400, 100), under four fresh random
    /// identities; refused only if those identities happen to collide.
    pub fn demo() -> (r: Result<Editor, DiagramError>)
        ensures
            r matches Ok(e) ==> e.wf() && demo_layout(e@),
    {
        let n1 = fresh_id();
        let p1 = fresh_id();
        let n2 = fresh_id();
        let p2 = fresh_id();
        Editor::demo_with_ids(n1, p1, n2, p2)
    }

    /// The line to draw while a connection is being drawn: from the start
    /// port to the pointer, or to the start port itself when there is no
    /// pointer position.
    pub fn preview(&self, pointer: Option<Point>) -> (r: Option<(Point, Point)>)
        ensures
            r == (match self@.state {
                GestureState::DrawingConnection { origin, .. } => Some(
                    (
                        origin,
                        match pointer {
                            Some(q) => q,
                            None => origin,
                        },
                    ),
                ),
                _ => None::<(Point, Point)>,
            }),
    {
        match self.state {
            GestureState::DrawingConnection { origin, .. } => match pointer {
                Some(q) => Some((origin, q)),
                None => Some((origin, origin)),
            },
            _ => None,
        }
    }

    pub fn nodes(&self) -> (r: &[Node])
        ensures
            views(r@) == self@.nodes,
    {
        self.nodes.as_slice()
    }

    /// Every connection, in the order in which they were made.
    pub fn connections(&self) -> (r: &[Connection])
        ensures
            r@ == self@.connections,
    {
        self.store.all()
    }

    pub fn connection_count(&self) -> (r: usize)
        ensures
            r == self@.connections.len(),
    {
        self.store.len()
    }

    pub fn state(&self) -> (r: GestureState)
        ensures
            r == self@.state,
    {
        self.state
    }

    /// Current world position of a connection endpoint.
    pub fn endpoint_position(&self, e: Endpoint) -> (r: Result<Point, ConnectionError>)
        ensures
            r matches Ok(pos) ==> resolves_to(self@.nodes, e, pos),
            r is Err <==> !resolvable(self@.nodes, e),
            r matches Err(err) ==> err == ConnectionError::UnknownEndpoint,
    {
        resolve_endpoint(e, self.nodes.as_slice())
    }
}

} // verus!