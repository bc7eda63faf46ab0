use node_links::connection::{resolve_endpoint, Connection, ConnectionError, ConnectionStore, Endpoint};
use node_links::controller::{DiagramError, Editor, FrameInput, GestureState, NodeDrag};
use node_links::geometry::{within_radius, Point};
use node_links::node::{hit_port, Anchor, Node, NodeError, Port, PortShape, COORD_LIMIT};

fn centered(id: u128, port: u128, x: i32, y: i32, radius: u32) -> Node {
    let shapes = [PortShape { id: port, anchor: Anchor::Center, radius }];
    Node::build(id, Point::new(x, y), 100, 100, &shapes).unwrap()
}

fn two_nodes() -> Editor {
    Editor::new(vec![centered(1, 11, 100, 100, 10), centered(2, 22, 400, 100, 10)]).unwrap()
}

fn frame(pointer: Option<Point>, clicked: bool, released: bool, drags: Vec<NodeDrag>) -> FrameInput {
    FrameInput { pointer, primary_down: clicked || !released, clicked, released, drags }
}

fn press(x: i32, y: i32) -> FrameInput {
    frame(Some(Point::new(x, y)), true, false, vec![])
}

fn release_at(x: i32, y: i32) -> FrameInput {
    frame(Some(Point::new(x, y)), false, true, vec![])
}

fn drag(dragged: bool, dx: i32, dy: i32) -> NodeDrag {
    NodeDrag { dragged, delta: Point::new(dx, dy) }
}

#[test]
fn two_node_scenario_allows_duplicate_connections() {
    let mut e = two_nodes();
    e.tick(&press(150, 150));
    assert_eq!(
        e.state(),
        GestureState::DrawingConnection {
            start: Endpoint { node: 1, port: 11 },
            origin: Point::new(150, 150)
        }
    );
    e.tick(&frame(Some(Point::new(449, 150)), false, false, vec![]));
    e.tick(&release_at(449, 150));
    let expected = Connection { start: Endpoint { node: 1, port: 11 }, end: Endpoint { node: 2, port: 22 } };
    assert_eq!(e.connections(), &[expected]);
    assert_eq!(e.connection_count(), 1);
    assert_eq!(e.state(), GestureState::Idle);
    e.tick(&press(150, 150));
    e.tick(&release_at(449, 150));
    assert_eq!(e.connections(), &[expected, expected]);
    assert_eq!(e.connection_count(), 2);
}

#[test]
fn hit_radius_is_inclusive() {
    let c = Point::new(150, 150);
    assert!(within_radius(Point::new(160, 150), c, 10));
    assert!(!within_radius(Point::new(161, 150), c, 10));
    assert!(within_radius(Point::new(150, 140), c, 10));
    assert!(!within_radius(Point::new(150, 139), c, 10));
    assert!(within_radius(Point::new(156, 158), c, 10));
    assert!(!within_radius(Point::new(157, 158), c, 10));
    assert!(within_radius(c, c, 0));
    assert!(!within_radius(Point::new(i32::MIN, i32::MIN), Point::new(i32::MAX, i32::MAX), u32::MAX));
    let port = Port { id: 7, anchor: Anchor::Center, radius: 10, center: c };
    assert!(hit_port(Point::new(144, 142), &port));
    assert!(!hit_port(Point::new(143, 142), &port));
    let n = centered(1, 11, 100, 100, 10);
    assert_eq!(n.port_at(Point::new(160, 150)), Some(11));
    assert_eq!(n.port_at(Point::new(161, 150)), None);
}

#[test]
fn release_on_own_node_makes_nothing() {
    let shapes = [
        PortShape { id: 11, anchor: Anchor::LeftCenter, radius: 10 },
        PortShape { id: 12, anchor: Anchor::RightCenter, radius: 10 },
    ];
    let a = Node::build(1, Point::new(100, 100), 100, 100, &shapes).unwrap();
    let b = centered(2, 22, 400, 100, 10);
    let mut e = Editor::new(vec![a, b]).unwrap();
    e.tick(&press(100, 150));
    assert_eq!(
        e.state(),
        GestureState::DrawingConnection { start: Endpoint { node: 1, port: 11 }, origin: Point::new(100, 150) }
    );
    e.tick(&release_at(200, 150));
    assert_eq!(e.connection_count(), 0);
    assert_eq!(e.state(), GestureState::Idle);
    e.tick(&press(100, 150));
    e.tick(&release_at(102, 150));
    assert_eq!(e.connection_count(), 0);
}

#[test]
fn first_port_in_order_wins() {
    let shapes = [
        PortShape { id: 11, anchor: Anchor::LeftCenter, radius: 10 },
        PortShape { id: 12, anchor: Anchor::Center, radius: 10 },
    ];
    let a = Node::build(1, Point::new(0, 0), 10, 10, &shapes).unwrap();
    assert_eq!(a.port_index_at(Point::new(3, 5)), Some(0));
    assert_eq!(a.port_at(Point::new(14, 5)), Some(12));
    let b = centered(2, 22, -45, -45, 10);
    let mut e = Editor::new(vec![b, a]).unwrap();
    e.tick(&press(5, 5));
    assert_eq!(
        e.state(),
        GestureState::DrawingConnection { start: Endpoint { node: 2, port: 22 }, origin: Point::new(5, 5) }
    );
}

#[test]
fn release_on_other_node_makes_one() {
    let mut e = two_nodes();
    e.tick(&press(455, 145));
    e.tick(&release_at(150, 159));
    let expected = Connection { start: Endpoint { node: 2, port: 22 }, end: Endpoint { node: 1, port: 11 } };
    assert_eq!(e.connections(), &[expected]);
}

#[test]
fn release_without_target_aborts() {
    let mut e = two_nodes();
    e.tick(&press(150, 150));
    e.tick(&frame(None, false, true, vec![]));
    assert_eq!(e.connection_count(), 0);
    assert_eq!(e.state(), GestureState::Idle);
    e.tick(&press(150, 150));
    e.tick(&release_at(300, 300));
    assert_eq!(e.connection_count(), 0);
    assert_eq!(e.state(), GestureState::Idle);
}

#[test]
fn click_on_empty_space_cancels_drawing() {
    let mut e = two_nodes();
    e.tick(&press(150, 150));
    assert!(e.preview(Some(Point::new(10, 20))).is_some());
    e.tick(&press(20, 20));
    assert_eq!(e.state(), GestureState::Idle);
    assert_eq!(e.preview(Some(Point::new(10, 20))), None);
    e.tick(&release_at(450, 150));
    assert_eq!(e.connection_count(), 0);
}

#[test]
fn body_drag_moves_by_total_delta() {
    let mut e = two_nodes();
    e.tick(&frame(Some(Point::new(110, 110)), true, false, vec![drag(true, 5, 0)]));
    assert_eq!(e.state(), GestureState::DraggingNode { node: 1 });
    // the pointer passes right over the port while the drag goes on
    e.tick(&frame(Some(Point::new(155, 150)), false, false, vec![drag(true, 30, 40)]));
    e.tick(&frame(Some(Point::new(450, 150)), false, false, vec![drag(true, -10, 2), drag(true, 99, 99)]));
    e.tick(&frame(Some(Point::new(450, 150)), false, true, vec![]));
    assert_eq!(e.state(), GestureState::Idle);
    assert_eq!(e.nodes()[0].position(), Point::new(125, 142));
    assert_eq!(e.nodes()[0].ports()[0].center, Point::new(175, 192));
    assert_eq!(e.nodes()[1].position(), Point::new(400, 100));
    assert_eq!(e.connection_count(), 0);
}

#[test]
fn drag_starting_on_port_draws_instead() {
    let mut e = two_nodes();
    e.tick(&frame(Some(Point::new(150, 150)), true, false, vec![drag(true, 5, 5)]));
    assert_eq!(e.nodes()[0].position(), Point::new(100, 100));
    assert!(matches!(e.state(), GestureState::DrawingConnection { .. }));
    let mut e = two_nodes();
    e.tick(&frame(Some(Point::new(150, 150)), false, false, vec![drag(true, 5, 5)]));
    assert_eq!(e.state(), GestureState::Idle);
    assert_eq!(e.nodes()[0].position(), Point::new(100, 100));
}

#[test]
fn ports_follow_each_drag_frame() {
    let shapes = [
        PortShape { id: 11, anchor: Anchor::LeftCenter, radius: 5 },
        PortShape { id: 12, anchor: Anchor::RightCenter, radius: 5 },
        PortShape { id: 13, anchor: Anchor::Center, radius: 5 },
    ];
    let n = Node::build(1, Point::new(0, 0), 40, 21, &shapes).unwrap();
    let mut e = Editor::new(vec![n]).unwrap();
    e.tick(&frame(Some(Point::new(3, 3)), true, false, vec![drag(true, 7, -4)]));
    let n = &e.nodes()[0];
    assert_eq!(n.position(), Point::new(7, -4));
    assert_eq!(n.ports()[0].center, Point::new(7, 6));
    assert_eq!(n.ports()[1].center, Point::new(47, 6));
    assert_eq!(n.ports()[2].center, Point::new(27, 6));
}

#[test]
fn drag_out_of_range_is_skipped() {
    let mut e = Editor::new(vec![centered(1, 11, COORD_LIMIT - 10, 0, 10)]).unwrap();
    e.tick(&frame(Some(Point::new(COORD_LIMIT - 5, 5)), true, false, vec![drag(true, 11, 0)]));
    assert_eq!(e.state(), GestureState::DraggingNode { node: 1 });
    assert_eq!(e.nodes()[0].position(), Point::new(COORD_LIMIT - 10, 0));
    e.tick(&frame(None, false, false, vec![drag(true, 10, 0)]));
    assert_eq!(e.nodes()[0].position(), Point::new(COORD_LIMIT, 0));
}

#[test]
fn node_build_errors() {
    assert_eq!(Node::build(1, Point::new(0, 0), 10, 10, &[]).unwrap_err(), NodeError::NoPorts);
    let shapes = [PortShape { id: 11, anchor: Anchor::Center, radius: 5 }];
    assert_eq!(Node::build(1, Point::new(COORD_LIMIT + 1, 0), 10, 10, &shapes).unwrap_err(), NodeError::OutOfRange);
    assert_eq!(Node::build(1, Point::new(0, 0), -1, 10, &shapes).unwrap_err(), NodeError::OutOfRange);
    let n = Node::build(1, Point::new(-3, 4), 10, 7, &shapes).unwrap();
    assert_eq!(n.ports()[0].center, Point::new(2, 7));
    assert_eq!((n.id(), n.width(), n.height()), (1, 10, 7));
}

#[test]
fn set_position_moves_ports() {
    let mut n = centered(1, 11, 0, 0, 10);
    n.set_position(Point::new(-20, 30));
    assert_eq!(n.position(), Point::new(-20, 30));
    assert_eq!(n.ports()[0].center, Point::new(30, 80));
}

#[test]
fn duplicate_identities_are_refused() {
    let r = Editor::new(vec![centered(1, 11, 0, 0, 5), centered(1, 12, 200, 0, 5)]);
    assert_eq!(r.unwrap_err(), DiagramError::DuplicateNodeId);
    let r = Editor::new(vec![centered(1, 11, 0, 0, 5), centered(2, 11, 200, 0, 5)]);
    assert_eq!(r.unwrap_err(), DiagramError::DuplicatePortId);
    let shapes = [
        PortShape { id: 11, anchor: Anchor::LeftCenter, radius: 5 },
        PortShape { id: 11, anchor: Anchor::RightCenter, radius: 5 },
    ];
    let n = Node::build(1, Point::new(0, 0), 10, 10, &shapes).unwrap();
    assert_eq!(Editor::new(vec![n]).unwrap_err(), DiagramError::DuplicatePortId);
}

#[test]
fn store_rejects_self_loops_and_keeps_duplicates() {
    let mut s = ConnectionStore::new();
    let bad = Connection { start: Endpoint { node: 1, port: 11 }, end: Endpoint { node: 1, port: 12 } };
    assert_eq!(s.append(bad), Err(ConnectionError::InvalidConnection));
    assert_eq!(s.len(), 0);
    let good = Connection { start: Endpoint { node: 1, port: 11 }, end: Endpoint { node: 2, port: 22 } };
    assert_eq!(s.append(good), Ok(()));
    assert_eq!(s.append(good), Ok(()));
    assert_eq!(s.all(), &[good, good]);
}

#[test]
fn endpoints_resolve_to_live_positions() {
    let mut e = two_nodes();
    assert_eq!(e.endpoint_position(Endpoint { node: 2, port: 22 }), Ok(Point::new(450, 150)));
    assert_eq!(e.endpoint_position(Endpoint { node: 3, port: 22 }), Err(ConnectionError::UnknownEndpoint));
    assert_eq!(e.endpoint_position(Endpoint { node: 1, port: 22 }), Err(ConnectionError::UnknownEndpoint));
    e.tick(&frame(Some(Point::new(410, 110)), true, false, vec![drag(false, 0, 0), drag(true, 0, 50)]));
    assert_eq!(e.endpoint_position(Endpoint { node: 2, port: 22 }), Ok(Point::new(450, 200)));
    let nodes = [centered(5, 55, 0, 0, 1)];
    assert_eq!(resolve_endpoint(Endpoint { node: 5, port: 55 }, &nodes), Ok(Point::new(50, 50)));
}

#[test]
fn preview_follows_pointer() {
    let mut e = two_nodes();
    assert_eq!(e.preview(Some(Point::new(1, 2))), None);
    e.tick(&press(150, 150));
    assert_eq!(e.preview(Some(Point::new(1, 2))), Some((Point::new(150, 150), Point::new(1, 2))));
    assert_eq!(e.preview(None), Some((Point::new(150, 150), Point::new(150, 150))));
}

#[test]
fn default_nodes_get_fresh_identities() {
    let a = Node::new(100, 100);
    let b = Node::new(400, 100);
    assert_ne!(a.id(), b.id());
    assert_ne!(a.ports()[0].id, b.ports()[0].id);
    assert_eq!((a.id() >> 76) & 0xf, 4);
    assert_eq!((a.ports()[0].id >> 62) & 0x3, 2);
    assert_eq!(a.ports()[0].center, Point::new(150, 150));
    assert_eq!(a.ports()[0].radius, 10);
    let e = Editor::demo().unwrap();
    assert_eq!(e.nodes().len(), 2);
    assert_eq!(e.nodes()[1].position(), Point::new(400, 100));
    assert_eq!(e.nodes()[1].ports()[0].center, Point::new(450, 150));
    assert_eq!(e.state(), GestureState::Idle);
    assert_ne!(e.nodes()[0].id(), e.nodes()[1].id());
}

#[test]
fn square_node_takes_given_identities() {
    let n = Node::square(7, 8, -10, 20);
    assert_eq!((n.id(), n.ports()[0].id), (7, 8));
    assert_eq!((n.position(), n.width(), n.height()), (Point::new(-10, 20), 100, 100));
    assert_eq!(n.ports().len(), 1);
    assert_eq!(n.ports()[0].anchor, Anchor::Center);
    assert_eq!(n.ports()[0].radius, 10);
    assert_eq!(n.ports()[0].center, Point::new(40, 70));
}

#[test]
fn starting_diagram_runs_the_two_node_scenario() {
    assert_eq!(Editor::demo_with_ids(1, 11, 1, 22).unwrap_err(), DiagramError::DuplicateNodeId);
    assert_eq!(Editor::demo_with_ids(1, 11, 2, 11).unwrap_err(), DiagramError::DuplicatePortId);
    let mut e = Editor::demo_with_ids(1, 11, 2, 22).unwrap();
    assert_eq!(e.nodes()[0].position(), Point::new(100, 100));
    assert_eq!(e.nodes()[0].ports()[0].center, Point::new(150, 150));
    assert_eq!(e.nodes()[1].ports()[0].center, Point::new(450, 150));
    e.tick(&press(150, 150));
    assert_eq!(
        e.state(),
        GestureState::DrawingConnection { start: Endpoint { node: 1, port: 11 }, origin: Point::new(150, 150) }
    );
    e.tick(&frame(Some(Point::new(449, 150)), false, false, vec![]));
    e.tick(&release_at(449, 150));
    let expected = Connection { start: Endpoint { node: 1, port: 11 }, end: Endpoint { node: 2, port: 22 } };
    assert_eq!(e.connections(), &[expected]);
    e.tick(&press(150, 150));
    e.tick(&release_at(449, 150));
    assert_eq!(e.connections(), &[expected, expected]);
    assert_eq!(e.preview(Some(Point::new(449, 150))), None);
}
