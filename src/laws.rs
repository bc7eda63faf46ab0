use vstd::prelude::*;
use crate::connection::{Connection, Endpoint};
use crate::controller::{
    after_click, diagram_hit, drag_of, drag_step, drags_upto, lemma_diagram_hit, lemma_moved_wf,
    moved, shift_fits, shifted, step, EditorView, FrameInput, GestureState,
};
use crate::geometry::Point;
use crate::node::{anchor_offset, lemma_anchor_fits};

verus! {

/// The drag stage never touches the connections, and never starts or ends
/// drawing a connection.
proof fn lemma_drags_keep_connections(v: EditorView, input: FrameInput, n: int)
    ensures
        drags_upto(v, input, n).connections == v.connections,
        drags_upto(v, input, n).state is DrawingConnection <==> v.state is DrawingConnection,
    decreases n,
{
    if n > 0 {
        lemma_drags_keep_connections(v, input, n - 1);
    }
}

/// The drag stage keeps the diagram well formed and every node identity.
proof fn lemma_drags_wf(v: EditorView, input: FrameInput, n: int)
    requires
        v.wf(),
        0 <= n <= v.nodes.len(),
    ensures
        drags_upto(v, input, n).wf(),
        drags_upto(v, input, n).nodes.len() == v.nodes.len(),
        forall|k: int|
            0 <= k < v.nodes.len() ==> (#[trigger] drags_upto(v, input, n).nodes[k]).id
                == v.nodes[k].id,
    decreases n,
{
    if n > 0 {
        lemma_drags_wf(v, input, n - 1);
        let u = drags_upto(v, input, n - 1);
        lemma_moved_wf(u, n - 1, drag_of(input, n - 1).delta);
    }
}

/// While a connection is drawn, the drag stage changes nothing.
proof fn lemma_drags_blocked(v: EditorView, input: FrameInput, n: int)
    requires
        v.state is DrawingConnection,
    ensures
        drags_upto(v, input, n) == v,
    decreases n,
{
    if n > 0 {
        lemma_drags_blocked(v, input, n - 1);
    }
}

/// From `Idle`, nodes that report no drag change nothing.
proof fn lemma_drags_quiet(v: EditorView, input: FrameInput, n: int)
    requires
        forall|k: int| 0 <= k < n ==> !(#[trigger] drag_of(input, k)).dragged,
    ensures
        drags_upto(v, input, n) == v,
    decreases n,
{
    if n > 0 {
        lemma_drags_quiet(v, input, n - 1);
    }
}

/// While node `i` is dragged, the drag stage for every other node changes nothing.
proof fn lemma_drags_others_ignored(v: EditorView, input: FrameInput, i: int, m: int, n: int)
    requires
        v.wf(),
        0 <= i < v.nodes.len(),
        0 <= m <= n <= v.nodes.len(),
        !(m <= i < n),
        drags_upto(v, input, m).state == (GestureState::DraggingNode { node: v.nodes[i].id }),
    ensures
        drags_upto(v, input, n) == drags_upto(v, input, m),
    decreases n,
{
    if n > m {
        lemma_drags_others_ignored(v, input, i, m, n - 1);
        lemma_drags_wf(v, input, n - 1);
        let u = drags_upto(v, input, n - 1);
        assert(u.nodes[n - 1].id == v.nodes[n - 1].id);
        assert(v.nodes[n - 1].id != v.nodes[i].id);
        assert(drag_step(u, input, n - 1) == u);
    }
}

/// A frame without a click, while node `i` is dragged, moves node `i` by its
/// delta, if it reports one, and nothing else.
proof fn lemma_frame_while_dragging(v: EditorView, input: FrameInput, i: int)
    requires
        v.wf(),
        0 <= i < v.nodes.len(),
        v.state == (GestureState::DraggingNode { node: v.nodes[i].id }),
        !input.clicked,
    ensures
        drags_upto(after_click(v, input), input, v.nodes.len() as int) == (if drag_of(
            input,
            i,
        ).dragged {
            moved(v, i, drag_of(input, i).delta)
        } else {
            v
        }),
{
    assert(after_click(v, input) == v);
    lemma_drags_others_ignored(v, input, i, 0, i);
    lemma_moved_wf(v, i, drag_of(input, i).delta);
    lemma_drags_others_ignored(v, input, i, i + 1, v.nodes.len() as int);
}

/// While a node is being dragged, a frame that moves it by `d` puts its
/// top-left corner at `P + d`, where `P` was its corner, and every one of its
/// ports at `P + d` plus that port's fixed offset: ports never lag behind.
pub proof fn lemma_ports_follow_drag(v: EditorView, input: FrameInput, i: int, d: Point)
    requires
        v.wf(),
        0 <= i < v.nodes.len(),
        v.state == (GestureState::DraggingNode { node: v.nodes[i].id }),
        !input.clicked,
        drag_of(input, i).dragged,
        drag_of(input, i).delta == d,
        shift_fits(v.nodes[i].pos, d),
    ensures
        ({
            let after = step(v, input).nodes[i];
            let before = v.nodes[i];
            &&& after.pos.x == before.pos.x + d.x
            &&& after.pos.y == before.pos.y + d.y
            &&& after.ports.len() == before.ports.len()
            &&& forall|j: int|
                0 <= j < after.ports.len() ==> {
                    &&& (#[trigger] after.ports[j]).center.x == before.pos.x + d.x + anchor_offset(
                        before.ports[j].anchor,
                        before.width,
                        before.height,
                    ).0
                    &&& after.ports[j].center.y == before.pos.y + d.y + anchor_offset(
                        before.ports[j].anchor,
                        before.width,
                        before.height,
                    ).1
                    &&& after.ports[j].id == before.ports[j].id
                }
        }),
{
    lemma_frame_while_dragging(v, input, i);
    let before = v.nodes[i];
    let after = step(v, input).nodes[i];
    assert(after == before.placed_at(shifted(before.pos, d)));
    assert forall|j: int| 0 <= j < after.ports.len() implies {
        &&& (#[trigger] after.ports[j]).center.x == before.pos.x + d.x + anchor_offset(
            before.ports[j].anchor,
            before.width,
            before.height,
        ).0
        &&& after.ports[j].center.y == before.pos.y + d.y + anchor_offset(
            before.ports[j].anchor,
            before.width,
            before.height,
        ).1
        &&& after.ports[j].id == before.ports[j].id
    } by {
        lemma_anchor_fits(before.ports[j].anchor, shifted(before.pos, d), before.width, before.height);
    }
}

/// A click on a port starts drawing a connection from the first port of the
/// diagram that the click hits, and the rest of that frame moves nothing.
proof fn lemma_gesture_start(v: EditorView, f: FrameInput, p: Point, i: int, j: int)
    requires
        f.clicked,
        f.pointer == Some(p),
        !f.released,
        diagram_hit(p, v.nodes) == Some((i, j)),
    ensures
        step(v, f) == (EditorView {
            state: GestureState::DrawingConnection {
                start: Endpoint { node: v.nodes[i].id, port: v.nodes[i].ports[j].id },
                origin: v.nodes[i].ports[j].center,
            },
            ..v
        }),
{
    let c = after_click(v, f);
    lemma_drags_blocked(c, f, c.nodes.len() as int);
}

/// A connection gesture started on a port of node `A` and released over a
/// port of `A` itself, whichever of its ports, adds no connection, and the
/// pointer goes back to `Idle`.
pub proof fn lemma_no_self_connection(
    v: EditorView,
    press: FrameInput,
    release: FrameInput,
    p: Point,
    q: Point,
    a: int,
    j: int,
    k: int,
)
    requires
        press.clicked,
        press.pointer == Some(p),
        !press.released,
        diagram_hit(p, v.nodes) == Some((a, j)),
        release.released,
        release.pointer == Some(q),
        diagram_hit(q, v.nodes) == Some((a, k)),
    ensures
        step(step(v, press), release).connections == v.connections,
        step(step(v, press), release).connections.len() == v.connections.len(),
        step(step(v, press), release).state == GestureState::Idle,
{
    lemma_gesture_start(v, press, p, a, j);
    let w = step(v, press);
    let c = after_click(w, release);
    assert(c.nodes == v.nodes);
    assert(c.state is DrawingConnection);
    lemma_drags_blocked(c, release, c.nodes.len() as int);
}

/// A connection gesture started on port `(A, pa)` and released over port
/// `(B, pb)` of another node adds exactly one connection, from `(A, pa)` to
/// `(B, pb)`, at the end of the list.
pub proof fn lemma_connection_made(
    v: EditorView,
    press: FrameInput,
    release: FrameInput,
    p: Point,
    q: Point,
    a: int,
    j: int,
    b: int,
    k: int,
)
    requires
        v.wf(),
        press.clicked,
        press.pointer == Some(p),
        !press.released,
        diagram_hit(p, v.nodes) == Some((a, j)),
        !release.clicked,
        release.released,
        release.pointer == Some(q),
        diagram_hit(q, v.nodes) == Some((b, k)),
        a != b,
    ensures
        step(step(v, press), release).connections == v.connections.push(
            Connection {
                start: Endpoint { node: v.nodes[a].id, port: v.nodes[a].ports[j].id },
                end: Endpoint { node: v.nodes[b].id, port: v.nodes[b].ports[k].id },
            },
        ),
        step(step(v, press), release).connections.len() == v.connections.len() + 1,
        step(step(v, press), release).state == GestureState::Idle,
{
    lemma_diagram_hit(p, v.nodes);
    lemma_diagram_hit(q, v.nodes);
    lemma_gesture_start(v, press, p, a, j);
    let w = step(v, press);
    lemma_drags_blocked(w, release, w.nodes.len() as int);
    assert(v.nodes[a].id != v.nodes[b].id);
}

/// Releasing a connection gesture with no pointer position, or where no port
/// of the diagram is hit, adds no connection and returns to `Idle`.
pub proof fn lemma_release_on_nothing(v: EditorView, release: FrameInput)
    requires
        v.state is DrawingConnection,
        release.released,
        release.pointer matches Some(q) ==> diagram_hit(q, v.nodes) is None,
    ensures
        step(v, release).connections == v.connections,
        step(v, release).state == GestureState::Idle,
{
    let c = after_click(v, release);
    lemma_drags_keep_connections(c, release, c.nodes.len() as int);
    if c.state is DrawingConnection {
        assert(c == v);
        lemma_drags_blocked(c, release, c.nodes.len() as int);
        if let GestureState::DrawingConnection { start, .. } = v.state {
            assert(crate::controller::committed(v, start, release.pointer) == v.connections);
        }
    }
}

/// The editor after the frames in order.
pub open spec fn run(v: EditorView, frames: Seq<FrameInput>) -> EditorView
    decreases frames.len(),
{
    if frames.len() == 0 {
        v
    } else {
        run(step(v, frames[0]), frames.drop_first())
    }
}

/// Sum of the horizontal drag deltas that the frames report for node `i`.
pub open spec fn total_dx(frames: Seq<FrameInput>, i: int) -> int
    decreases frames.len(),
{
    if frames.len() == 0 {
        0
    } else {
        drag_of(frames[0], i).delta.x + total_dx(frames.drop_first(), i)
    }
}

/// Sum of the vertical drag deltas that the frames report for node `i`.
pub open spec fn total_dy(frames: Seq<FrameInput>, i: int) -> int
    decreases frames.len(),
{
    if frames.len() == 0 {
        0
    } else {
        drag_of(frames[0], i).delta.y + total_dy(frames.drop_first(), i)
    }
}

/// A corner at `pos`, moved by node `i`'s deltas frame after frame, stays in
/// the supported range all the way.
pub open spec fn drag_path_fits(pos: Point, frames: Seq<FrameInput>, i: int) -> bool
    decreases frames.len(),
{
    frames.len() == 0 || (shift_fits(pos, drag_of(frames[0], i).delta) && drag_path_fits(
        shifted(pos, drag_of(frames[0], i).delta),
        frames.drop_first(),
        i,
    ))
}

/// Frames in which the button stays held and node `i` keeps being dragged.
pub open spec fn holds_drag(frames: Seq<FrameInput>, i: int) -> bool {
    forall|k: int|
        0 <= k < frames.len() ==> !(#[trigger] frames[k]).clicked && !frames[k].released
            && drag_of(frames[k], i).dragged
}

proof fn lemma_drag_continues(v: EditorView, frames: Seq<FrameInput>, i: int)
    requires
        v.wf(),
        0 <= i < v.nodes.len(),
        v.state == (GestureState::DraggingNode { node: v.nodes[i].id }),
        holds_drag(frames, i),
        drag_path_fits(v.nodes[i].pos, frames, i),
    ensures
        run(v, frames).wf(),
        run(v, frames).nodes.len() == v.nodes.len(),
        run(v, frames).nodes[i].id == v.nodes[i].id,
        run(v, frames).nodes[i].pos.x == v.nodes[i].pos.x + total_dx(frames, i),
        run(v, frames).nodes[i].pos.y == v.nodes[i].pos.y + total_dy(frames, i),
        run(v, frames).connections == v.connections,
        run(v, frames).state == v.state,
    decreases frames.len(),
{
    if frames.len() > 0 {
        let f = frames[0];
        let d = drag_of(f, i).delta;
        lemma_frame_while_dragging(v, f, i);
        lemma_moved_wf(v, i, d);
        let w = step(v, f);
        assert(w == moved(v, i, d));
        assert(holds_drag(frames.drop_first(), i)) by {
            assert forall|k: int| 0 <= k < frames.drop_first().len() implies !(
            #[trigger] frames.drop_first()[k]).clicked && !frames.drop_first()[k].released
                && drag_of(frames.drop_first()[k], i).dragged by {
                assert(frames.drop_first()[k] == frames[k + 1]);
            }
        }
        lemma_drag_continues(w, frames.drop_first(), i);
    }
}

/// Pressing on a node's body where no port is, and holding while the
/// pointer moves, moves that node by exactly the sum of the frames' drag
/// deltas and adds no connection, wherever the pointer passes afterwards.
pub proof fn lemma_body_drag(v: EditorView, frames: Seq<FrameInput>, i: int, p: Point)
    requires
        v.wf(),
        v.state == GestureState::Idle,
        0 <= i < v.nodes.len(),
        frames.len() > 0,
        frames[0].clicked,
        frames[0].pointer == Some(p),
        diagram_hit(p, v.nodes) is None,
        !frames[0].released,
        drag_of(frames[0], i).dragged,
        forall|k: int| 0 <= k < i ==> !(#[trigger] drag_of(frames[0], k)).dragged,
        holds_drag(frames.drop_first(), i),
        drag_path_fits(v.nodes[i].pos, frames, i),
    ensures
        run(v, frames).wf(),
        run(v, frames).nodes.len() == v.nodes.len(),
        run(v, frames).nodes[i].id == v.nodes[i].id,
        run(v, frames).nodes[i].pos.x == v.nodes[i].pos.x + total_dx(frames, i),
        run(v, frames).nodes[i].pos.y == v.nodes[i].pos.y + total_dy(frames, i),
        run(v, frames).connections == v.connections,
        run(v, frames).state == (GestureState::DraggingNode { node: v.nodes[i].id }),
{
    let f = frames[0];
    let d = drag_of(f, i).delta;
    lemma_diagram_hit(p, v.nodes);
    assert(after_click(v, f) == v);
    lemma_drags_quiet(v, f, i);
    lemma_moved_wf(v, i, d);
    let m = EditorView { state: GestureState::DraggingNode { node: v.nodes[i].id }, ..moved(v, i, d) };
    assert(drags_upto(v, f, i + 1) == m);
    assert(m.wf());
    lemma_drags_others_ignored(v, f, i, i + 1, v.nodes.len() as int);
    assert(step(v, f) == m);
    lemma_drag_continues(m, frames.drop_first(), i);
}

/// Running frames and then one more frame is running that frame last.
proof fn lemma_run_push(v: EditorView, frames: Seq<FrameInput>, f: FrameInput)
    ensures
        run(v, frames.push(f)) == step(run(v, frames), f),
    decreases frames.len(),
{
    if frames.len() == 0 {
        assert(frames.push(f).drop_first() =~= Seq::<FrameInput>::empty());
        assert(frames.push(f)[0] == f);
        assert(run(step(v, f), Seq::<FrameInput>::empty()) == step(v, f));
    } else {
        assert(frames.push(f).drop_first() =~= frames.drop_first().push(f));
        assert(frames.push(f)[0] == frames[0]);
        lemma_run_push(step(v, frames[0]), frames.drop_first(), f);
    }
}

/// The summed deltas and the range condition split at the last frame.
proof fn lemma_path_push(pos: Point, frames: Seq<FrameInput>, f: FrameInput, i: int)
    ensures
        total_dx(frames.push(f), i) == total_dx(frames, i) + drag_of(f, i).delta.x,
        total_dy(frames.push(f), i) == total_dy(frames, i) + drag_of(f, i).delta.y,
        drag_path_fits(pos, frames.push(f), i) ==> drag_path_fits(pos, frames, i),
        drag_path_fits(pos, frames.push(f), i) ==> shift_fits(
            Point { x: (pos.x + total_dx(frames, i)) as i32, y: (pos.y + total_dy(frames, i)) as i32 },
            drag_of(f, i).delta,
        ),
    decreases frames.len(),
{
    let e = Seq::<FrameInput>::empty();
    if frames.len() == 0 {
        assert(frames.push(f).drop_first() =~= e);
        assert(frames.push(f)[0] == f);
        assert(total_dx(e, i) == 0);
        assert(total_dy(e, i) == 0);
        assert(drag_path_fits(shifted(pos, drag_of(f, i).delta), e, i));
        assert(frames =~= e);
    } else {
        assert(frames.push(f).drop_first() =~= frames.drop_first().push(f));
        assert(frames.push(f)[0] == frames[0]);
        let d = drag_of(frames[0], i).delta;
        lemma_path_push(shifted(pos, d), frames.drop_first(), f, i);
    }
}

/// A whole body drag, from the press to the release: pressing on a node's
/// body where no port is, holding while the pointer moves anywhere, and
/// releasing moves that node by exactly the sum of all the frames' drag
/// deltas, adds no connection, and leaves the pointer `Idle`.
pub proof fn lemma_body_drag_released(
    v: EditorView,
    frames: Seq<FrameInput>,
    last: FrameInput,
    i: int,
    p: Point,
)
    requires
        v.wf(),
        v.state == GestureState::Idle,
        0 <= i < v.nodes.len(),
        frames.len() > 0,
        frames[0].clicked,
        frames[0].pointer == Some(p),
        diagram_hit(p, v.nodes) is None,
        !frames[0].released,
        drag_of(frames[0], i).dragged,
        forall|k: int| 0 <= k < i ==> !(#[trigger] drag_of(frames[0], k)).dragged,
        holds_drag(frames.drop_first(), i),
        !last.clicked,
        last.released,
        drag_of(last, i).dragged,
        drag_path_fits(v.nodes[i].pos, frames.push(last), i),
    ensures
        run(v, frames.push(last)).wf(),
        run(v, frames.push(last)).nodes[i].pos.x == v.nodes[i].pos.x + total_dx(frames.push(last), i),
        run(v, frames.push(last)).nodes[i].pos.y == v.nodes[i].pos.y + total_dy(frames.push(last), i),
        run(v, frames.push(last)).connections == v.connections,
        run(v, frames.push(last)).state == GestureState::Idle,
{
    lemma_path_push(v.nodes[i].pos, frames, last, i);
    lemma_body_drag(v, frames, i, p);
    lemma_run_push(v, frames, last);
    let w = run(v, frames);
    lemma_frame_while_dragging(w, last, i);
    lemma_moved_wf(w, i, drag_of(last, i).delta);
}

} // verus!
