use graphed::coordinate::PixelCoordinate2D;
use graphed::cursor::{Cursor, CursorReadout, ReadoutType, SnappingCursor};
use graphed::graph::{
    Direction, Edge, Ends, Graph, GraphError, Vertex, FONT_SIZE, LINE_LENGTH, MAX_BRANCHES, RADIUS,
};

fn point(x: i32, y: i32) -> PixelCoordinate2D {
    PixelCoordinate2D::new(x, y)
}

fn east() -> Direction {
    Direction { spoke: point(60, 0), rim: point(20, 0) }
}

fn south_east() -> Direction {
    Direction { spoke: point(32, 50), rim: point(10, 16) }
}

#[test]
fn a_new_graph_holds_the_origin_alone() {
    let graph = Graph::new(7);
    assert_eq!(
        graph.objects,
        vec![(
            Vertex { position: point(350, 350), value: 7, children: 0, origin: true },
            Edge { start: point(350, 350), end: point(350, 350), tree_type: false },
        )]
    );
}

#[test]
fn sizes_of_the_drawing() {
    assert_eq!((RADIUS, LINE_LENGTH, FONT_SIZE, MAX_BRANCHES), (20, 60, 25, 2));
}

#[test]
fn an_edge_to_a_new_number_makes_a_vertex_one_spoke_away() {
    let mut graph = Graph::new(0);
    assert_eq!(graph.add_vertex(0, 1, south_east()), Ok(()));
    assert_eq!(graph.objects.len(), 2);
    assert_eq!(
        graph.objects[0].0,
        Vertex { position: point(350, 350), value: 0, children: 1, origin: true }
    );
    assert_eq!(
        graph.objects[1],
        (
            Vertex { position: point(382, 400), value: 1, children: 1, origin: false },
            Edge { start: point(360, 366), end: point(372, 384), tree_type: true },
        )
    );
}

#[test]
fn an_edge_to_a_known_number_enters_the_vertex_again() {
    let mut graph = Graph::new(0);
    assert_eq!(graph.add_vertex(0, 1, east()), Ok(()));
    assert_eq!(graph.add_vertex(0, 2, south_east()), Ok(()));
    assert_eq!(graph.add_vertex(1, 2, Direction { spoke: point(0, 0), rim: point(-9, 17) }), Ok(()));
    assert_eq!(graph.objects.len(), 4);
    assert_eq!(graph.objects[0].0.children, 2);
    assert_eq!(
        graph.objects[1].0,
        Vertex { position: point(410, 350), value: 1, children: 2, origin: false }
    );
    assert_eq!(
        graph.objects[2].0,
        Vertex { position: point(382, 400), value: 2, children: 2, origin: false }
    );
    assert_eq!(
        graph.objects[3],
        (
            Vertex { position: point(382, 400), value: 2, children: 2, origin: false },
            Edge { start: point(401, 367), end: point(391, 383), tree_type: false },
        )
    );
}

#[test]
fn the_last_entry_of_a_number_is_the_one_that_counts() {
    let mut graph = Graph::new(0);
    assert_eq!(graph.add_vertex(0, 1, east()), Ok(()));
    assert_eq!(graph.add_vertex(0, 2, south_east()), Ok(()));
    assert_eq!(graph.add_vertex(1, 2, east()), Ok(()));
    assert_eq!(graph.add_vertex(2, 3, east()), Ok(()));
    assert_eq!(graph.objects[2].0.children, 2);
    assert_eq!(graph.objects[3].0.children, 3);
    assert_eq!(
        graph.objects[4].0,
        Vertex { position: point(442, 400), value: 3, children: 3, origin: false }
    );
    assert_eq!(graph.get_vertex(2).map(|v| v.children), Some(2));
    assert_eq!(graph.ends(2, 3).map(|ends| ends.source.children), Ok(3));
}

#[test]
fn an_edge_from_a_number_to_itself_makes_a_new_vertex() {
    let mut graph = Graph::new(4);
    assert_eq!(graph.add_vertex(4, 4, east()), Ok(()));
    assert_eq!(
        graph.objects[1],
        (
            Vertex { position: point(410, 350), value: 4, children: 1, origin: false },
            Edge { start: point(370, 350), end: point(390, 350), tree_type: true },
        )
    );
    assert_eq!(graph.objects[0].0.children, 1);
}

#[test]
fn an_unknown_source_is_refused_and_changes_nothing() {
    let mut graph = Graph::new(0);
    assert_eq!(graph.add_vertex(5, 1, east()), Err(GraphError::SourceNotFound));
    assert_eq!(graph.objects.len(), 1);
    assert_eq!(graph.objects[0].0.children, 0);
    assert_eq!(graph.ends(5, 0), Err(GraphError::SourceNotFound));
    assert_eq!(GraphError::SourceNotFound.message(), "Source vertex not found");
}

#[test]
fn a_source_that_cannot_count_further_is_refused() {
    let mut graph = Graph::new(0);
    graph.objects[0].0.children = 254;
    assert_eq!(graph.add_vertex(0, 1, east()), Ok(()));
    assert_eq!(graph.objects[0].0.children, 255);
    assert_eq!(graph.add_vertex(0, 2, east()), Err(GraphError::TooManyChildren));
    assert_eq!(graph.objects.len(), 2);
    assert_eq!(graph.objects[0].0.children, 255);
    assert_eq!(GraphError::TooManyChildren.message(), "Source vertex has too many children");
}

#[test]
fn an_edge_that_leaves_the_grid_is_refused() {
    let mut graph = Graph::new(0);
    let far = Direction { spoke: point(i32::MAX, 0), rim: point(20, 0) };
    assert_eq!(graph.add_vertex(0, 1, far), Err(GraphError::OutOfGrid));
    let wide = Direction { spoke: point(60, 0), rim: point(0, i32::MIN) };
    assert_eq!(graph.add_vertex(0, 1, wide), Err(GraphError::OutOfGrid));
    assert_eq!(graph.objects.len(), 1);
    assert_eq!(graph.objects[0].0.children, 0);
    let edge = Direction { spoke: point(i32::MAX - 350, 0), rim: point(0, 0) };
    assert_eq!(graph.add_vertex(0, 1, edge), Ok(()));
    assert_eq!(graph.objects[1].0.position, point(i32::MAX, 350));
    assert_eq!(GraphError::OutOfGrid.message(), "Edge leaves the pixel grid");
}

#[test]
fn the_spoke_is_not_asked_for_where_the_target_is_known() {
    let mut graph = Graph::new(0);
    assert_eq!(graph.add_vertex(0, 1, east()), Ok(()));
    let no_spoke = Direction { spoke: point(i32::MAX, i32::MAX), rim: point(-20, 0) };
    assert_eq!(graph.add_vertex(1, 0, no_spoke), Ok(()));
    assert_eq!(
        graph.objects[2],
        (
            Vertex { position: point(350, 350), value: 0, children: 1, origin: true },
            Edge { start: point(390, 350), end: point(370, 350), tree_type: false },
        )
    );
}

#[test]
fn get_vertex_finds_the_first_entry_of_a_number() {
    let mut graph = Graph::new(0);
    assert_eq!(graph.add_vertex(0, 1, east()), Ok(()));
    assert_eq!(graph.add_vertex(1, 0, east()), Ok(()));
    assert_eq!(graph.add_vertex(0, 2, south_east()), Ok(()));
    assert_eq!(graph.objects.len(), 4);
    assert_eq!(graph.objects[0].0.children, 1);
    assert_eq!(graph.objects[2].0.children, 2);
    assert_eq!(graph.get_vertex(0).map(|v| v.children), Some(1));
    assert_eq!(graph.get_vertex(2).map(|v| v.position), Some(point(382, 400)));
    assert!(graph.get_vertex(9).is_none());
}

#[test]
fn ends_tell_what_an_edge_would_join() {
    let mut graph = Graph::new(0);
    assert_eq!(graph.add_vertex(0, 1, east()), Ok(()));
    assert_eq!(
        graph.ends(0, 1),
        Ok(Ends {
            source: Vertex { position: point(350, 350), value: 0, children: 1, origin: true },
            target: Some(Vertex { position: point(410, 350), value: 1, children: 1, origin: false }),
        })
    );
    assert_eq!(graph.ends(1, 5).map(|ends| ends.target), Ok(None));
    assert_eq!(graph.ends(1, 1).map(|ends| ends.target), Ok(None));
    assert_eq!(graph.objects.len(), 2);
}

#[test]
fn a_readout_keeps_its_place_and_unit() {
    let readout = CursorReadout::new(point(525, 0), ReadoutType::Cartesian);
    assert_eq!(readout.position(), point(525, 0));
    assert_eq!(readout.readout_type(), ReadoutType::Cartesian);
    let readout = CursorReadout::new(point(1, 2), ReadoutType::Pixel);
    assert_eq!(readout.readout_type(), ReadoutType::Pixel);
    assert_ne!(ReadoutType::Pixel, ReadoutType::Cartesian);
}

#[test]
fn cursors_hold_nothing() {
    let plain: Cursor = Cursor;
    let snapping: SnappingCursor = Cursor;
    assert_eq!(plain, snapping);
}

#[test]
fn the_number_of_a_vertex_is_written_up_and_left_of_its_centre() {
    let graph = Graph::new(0);
    assert_eq!(graph.objects[0].0.label_position(), Some(point(342, 338)));
    let at_the_rim = Vertex { position: point(i32::MIN + 7, 0), value: 1, children: 0, origin: false };
    assert_eq!(at_the_rim.label_position(), None);
    let inside = Vertex { position: point(i32::MIN + 8, i32::MIN + 12), value: 1, children: 0, origin: false };
    assert_eq!(inside.label_position(), Some(point(i32::MIN, i32::MIN)));
}

#[test]
fn a_vertex_branches_while_it_has_fewer_than_two_children() {
    let mut graph = Graph::new(0);
    assert!(graph.can_branch(0));
    assert!(!graph.can_branch(1));
    assert_eq!(graph.add_vertex(0, 1, east()), Ok(()));
    assert!(graph.can_branch(0));
    assert!(graph.can_branch(1));
    assert_eq!(graph.add_vertex(0, 2, south_east()), Ok(()));
    assert!(!graph.can_branch(0));
    assert!(!graph.can_branch(2));
    assert!(graph.can_branch(1));
}
