//! A graph laid out on the pixel grid: numbered vertices, and the edges that
//! were drawn to reach them.
//!
//! Each entry of a graph pairs a vertex with the edge that led to it. The
//! first entry is the origin, with an edge that goes nowhere. A vertex that
//! is reached a second time is entered again, beside the new edge.
//!
//! Directions come from outside as whole pixel offsets; this module decides
//! which vertices an edge joins and where its ends fall.

use vstd::prelude::*;
use crate::config::{CENTER_X, CENTER_Y};
use crate::coordinate::PixelCoordinate2D;

verus! {

/// Radius of the circle drawn for a vertex, in pixels.
pub const RADIUS: u32 = 20;

/// Distance from a vertex to a new child, in pixels.
pub const LINE_LENGTH: i32 = 60;

/// Size of the number written into a vertex.
pub const FONT_SIZE: u16 = 25;

/// A vertex with this many children takes no further child when a graph is
/// grown at random.
pub const MAX_BRANCHES: u8 = 2;

/// An edge, from the rim of one vertex to the rim of another.
#[derive(Clone, Copy, Debug, PartialEq, Eq, Structural)]
pub struct Edge {
    pub start: PixelCoordinate2D,
    pub end: PixelCoordinate2D,
    /// The edge reached a vertex that was not there before.
    pub tree_type: bool,
}

/// A vertex: where it stands, its number, and its count of children.
#[derive(Clone, Copy, Debug, PartialEq, Eq, Structural)]
pub struct Vertex {
    pub position: PixelCoordinate2D,
    pub value: i32,
    /// Raised by one with every edge that leaves the vertex. A new vertex
    /// starts with the count of the vertex it hangs on, which spreads the
    /// directions of its own edges.
    pub children: u8,
    /// The vertex is the one the graph began with.
    pub origin: bool,
}

/// The entries of a graph, in the order in which they were added.
pub struct Graph {
    pub objects: Vec<(Vertex, Edge)>,
}

/// Why an edge cannot be added.
#[derive(Clone, Copy, Debug, PartialEq, Eq, Structural)]
pub enum GraphError {
    /// No vertex has the number given as the source.
    SourceNotFound,
    /// The source has had as many children as it can count.
    TooManyChildren,
    /// An end of the edge, or the new vertex, would leave the pixel grid.
    OutOfGrid,
}

/// The offsets that place an edge, in whole pixels.
#[derive(Clone, Copy, Debug, PartialEq, Eq, Structural)]
pub struct Direction {
    /// From the centre of the source to the centre of a new vertex.
    pub spoke: PixelCoordinate2D,
    /// From the centre of a vertex to the point of its rim that faces along
    /// the edge.
    pub rim: PixelCoordinate2D,
}

/// The ends of an edge that is about to be added.
#[derive(Clone, Copy, Debug, PartialEq, Eq, Structural)]
pub struct Ends {
    /// The source, as it stands now.
    pub source: Vertex,
    /// The target, where the graph holds it already.
    pub target: Option<Vertex>,
}

/// The centre of the window.
pub open spec fn center() -> PixelCoordinate2D {
    PixelCoordinate2D { x: CENTER_X as i32, y: CENTER_Y as i32 }
}

/// The entry a graph begins with: the origin, numbered `source`, at the
/// centre of the window, with an edge that goes nowhere.
pub open spec fn first_entry(source: i32) -> (Vertex, Edge) {
    (
        Vertex { position: center(), value: source, children: 0, origin: true },
        Edge { start: center(), end: center(), tree_type: false },
    )
}

/// Where the number of a vertex at `position` is written: a third of the
/// font size to the left of the centre and half of it above.
pub open spec fn label_at(position: PixelCoordinate2D) -> PixelCoordinate2D {
    PixelCoordinate2D {
        x: (position.x - FONT_SIZE / 3) as i32,
        y: (position.y - FONT_SIZE / 2) as i32,
    }
}

/// Position of the last entry of `objects` whose vertex has the number
/// `value`, or `-1` where there is none.
pub open spec fn last_index(objects: Seq<(Vertex, Edge)>, value: i32) -> int
    decreases objects.len(),
{
    if objects.len() == 0 {
        -1
    } else if objects.last().0.value == value {
        objects.len() - 1
    } else {
        last_index(objects.drop_last(), value)
    }
}

/// Position of the entry that an edge from `source` to `target` takes as
/// its target, or `-1` where a new vertex is due. An edge from a vertex to
/// its own number always makes a new vertex.
pub open spec fn target_index(objects: Seq<(Vertex, Edge)>, source: i32, target: i32) -> int {
    if source == target {
        -1
    } else {
        last_index(objects, target)
    }
}

/// Whether `a + b` is a pixel coordinate.
pub open spec fn fits(a: int, b: int) -> bool {
    i32::MIN <= a + b <= i32::MAX
}

/// The point `p` moved by `by`.
pub open spec fn moved(p: PixelCoordinate2D, by: PixelCoordinate2D) -> PixelCoordinate2D {
    PixelCoordinate2D { x: (p.x + by.x) as i32, y: (p.y + by.y) as i32 }
}

/// The point `p` moved against `by`.
pub open spec fn moved_back(p: PixelCoordinate2D, by: PixelCoordinate2D) -> PixelCoordinate2D {
    PixelCoordinate2D { x: (p.x - by.x) as i32, y: (p.y - by.y) as i32 }
}

/// The vertex that an edge from `source` to `target` reaches: the one at
/// `ti` where there is one, else a new vertex one spoke away from the
/// source, which starts with the source's count of children.
pub open spec fn reached(
    objects: Seq<(Vertex, Edge)>,
    grown: Vertex,
    ti: int,
    target: i32,
    direction: Direction,
) -> Vertex {
    if ti >= 0 {
        objects[ti].0
    } else {
        Vertex {
            position: moved(grown.position, direction.spoke),
            value: target,
            children: grown.children,
            origin: false,
        }
    }
}

/// Whether every point of an edge from `grown` to `vertex` stays on the
/// pixel grid.
pub open spec fn on_grid(grown: Vertex, fresh: bool, vertex: Vertex, direction: Direction) -> bool {
    &&& fresh ==> fits(grown.position.x as int, direction.spoke.x as int)
    &&& fresh ==> fits(grown.position.y as int, direction.spoke.y as int)
    &&& fits(grown.position.x as int, direction.rim.x as int)
    &&& fits(grown.position.y as int, direction.rim.y as int)
    &&& fits(vertex.position.x as int, -direction.rim.x)
    &&& fits(vertex.position.y as int, -direction.rim.y)
}

/// What adding an edge from `source` to `target` makes of `objects`.
///
/// The last entry numbered `source` counts one more child. The entry added
/// holds the vertex reached and an edge from the rim of the source to the
/// rim of that vertex.
pub open spec fn added(
    objects: Seq<(Vertex, Edge)>,
    source: i32,
    target: i32,
    direction: Direction,
) -> Result<Seq<(Vertex, Edge)>, GraphError> {
    let si = last_index(objects, source);
    let ti = target_index(objects, source, target);
    if si < 0 {
        Err(GraphError::SourceNotFound)
    } else if objects[si].0.children == u8::MAX {
        Err(GraphError::TooManyChildren)
    } else {
        let grown = Vertex { children: (objects[si].0.children + 1) as u8, ..objects[si].0 };
        let vertex = reached(objects, grown, ti, target, direction);
        if !on_grid(grown, ti < 0, vertex, direction) {
            Err(GraphError::OutOfGrid)
        } else {
            let edge = Edge {
                start: moved(grown.position, direction.rim),
                end: moved_back(vertex.position, direction.rim),
                tree_type: ti < 0,
            };
            Ok(objects.update(si, (grown, objects[si].1)).push((vertex, edge)))
        }
    }
}

/// The last entry with a given number is an entry with that number, and no
/// later entry has it.
pub proof fn lemma_last_index(objects: Seq<(Vertex, Edge)>, value: i32)
    ensures
        -1 <= last_index(objects, value) < objects.len(),
        last_index(objects, value) >= 0 ==> objects[last_index(objects, value)].0.value == value,
        forall|j: int|
            last_index(objects, value) < j < objects.len() ==> (#[trigger] objects[j]).0.value
                != value,
    decreases objects.len(),
{
    if objects.len() > 0 && objects.last().0.value != value {
        lemma_last_index(objects.drop_last(), value);
        assert forall|j: int| last_index(objects, value) < j < objects.len() implies (
        #[trigger] objects[j]).0.value != value by {
            if j < objects.len() - 1 {
                assert(objects.drop_last()[j] == objects[j]);
            }
        }
    }
}

/// `a + b`, where that is a pixel coordinate.
fn offset(a: i32, b: i32) -> (r: Option<i32>)
    ensures
        match r {
            Some(c) => fits(a as int, b as int) && c == a + b,
            None => !fits(a as int, b as int),
        },
{
    a.checked_add(b)
}

/// `a - b`, where that is a pixel coordinate.
fn offset_back(a: i32, b: i32) -> (r: Option<i32>)
    ensures
        match r {
            Some(c) => fits(a as int, -b) && c == a - b,
            None => !fits(a as int, -b),
        },
{
    a.checked_sub(b)
}

impl GraphError {
    /// The error in words.
    pub fn message(&self) -> (s: &'static str)
        ensures
            s@ == match *self {
                GraphError::SourceNotFound => "Source vertex not found"@,
                GraphError::TooManyChildren => "Source vertex has too many children"@,
                GraphError::OutOfGrid => "Edge leaves the pixel grid"@,
            },
    {
        match self {
            GraphError::SourceNotFound => "Source vertex not found",
            GraphError::TooManyChildren => "Source vertex has too many children",
            GraphError::OutOfGrid => "Edge leaves the pixel grid",
        }
    }
}

impl Vertex {
    /// Where the number of the vertex is written, or nothing where that
    /// point lies off the pixel grid.
    pub fn label_position(&self) -> (r: Option<PixelCoordinate2D>)
        ensures
            match r {
                Some(p) => {
                    &&& fits(self.position.x as int, -(FONT_SIZE / 3))
                    &&& fits(self.position.y as int, -(FONT_SIZE / 2))
                    &&& p == label_at(self.position)
                },
                None => !fits(self.position.x as int, -(FONT_SIZE / 3)) || !fits(
                    self.position.y as int,
                    -(FONT_SIZE / 2),
                ),
            },
    {
        let x = offset_back(self.position.x, (FONT_SIZE / 3) as i32);
        let y = offset_back(self.position.y, (FONT_SIZE / 2) as i32);
        if x.is_none() || y.is_none() {
            None
        } else {
            Some(PixelCoordinate2D::new(x.unwrap(), y.unwrap()))
        }
    }
}

impl Graph {
    /// A graph of one vertex: the origin, numbered `source`, at the centre
    /// of the window, with an edge that goes nowhere.
    pub fn new(source: i32) -> (g: Graph)
        ensures
            g.objects@ == seq![first_entry(source)],
    {
        let mut objects = Vec::new();
        objects.push(
            (
                Vertex {
                    position: PixelCoordinate2D::center(),
                    value: source,
                    children: 0,
                    origin: true,
                },
                Edge {
                    start: PixelCoordinate2D::center(),
                    end: PixelCoordinate2D::center(),
                    tree_type: false,
                },
            ),
        );
        assert(objects@ =~= seq![first_entry(source)]);
        Graph { objects }
    }

    /// The first vertex numbered `value`, if there is one.
    pub fn get_vertex(&self, value: i32) -> (r: Option<&Vertex>)
        ensures
            match r {
                Some(v) => exists|i: int|
                    {
                        &&& 0 <= i < self.objects@.len()
                        &&& *v == (#[trigger] self.objects@[i]).0
                        &&& v.value == value
                        &&& forall|j: int| 0 <= j < i ==> (#[trigger] self.objects@[j]).0.value != value
                    },
                None => forall|i: int|
                    0 <= i < self.objects@.len() ==> (#[trigger] self.objects@[i]).0.value != value,
            },
    {
        let mut i: usize = 0;
        while i < self.objects.len()
            invariant
                i <= self.objects@.len(),
                forall|j: int| 0 <= j < i ==> (#[trigger] self.objects@[j]).0.value != value,
            decreases self.objects@.len() - i,
        {
            if self.objects[i].0.value == value {
                return Some(&self.objects[i].0);
            }
            i = i + 1;
        }
        None
    }

    /// Whether a graph grown at random may hang a new vertex on the one
    /// numbered `value`: the first vertex of that number must be there, with
    /// fewer than [`MAX_BRANCHES`] children.
    pub fn can_branch(&self, value: i32) -> (b: bool)
        ensures
            b <==> exists|i: int|
                {
                    &&& 0 <= i < self.objects@.len()
                    &&& (#[trigger] self.objects@[i]).0.value == value
                    &&& self.objects@[i].0.children < MAX_BRANCHES
                    &&& forall|j: int| 0 <= j < i ==> (#[trigger] self.objects@[j]).0.value != value
                },
    {
        match self.get_vertex(value) {
            Some(vertex) => vertex.children < MAX_BRANCHES,
            None => false,
        }
    }

    /// Position of the last entry numbered `value`.
    fn find_last(&self, value: i32) -> (r: Option<usize>)
        ensures
            match r {
                Some(i) => i == last_index(self.objects@, value),
                None => last_index(self.objects@, value) == -1,
            },
    {
        let mut found: Option<usize> = None;
        let mut i: usize = 0;
        while i < self.objects.len()
            invariant
                i <= self.objects@.len(),
                match found {
                    Some(k) => k == last_index(self.objects@.take(i as int), value),
                    None => last_index(self.objects@.take(i as int), value) == -1,
                },
            decreases self.objects@.len() - i,
        {
            assert(self.objects@.take(i + 1).drop_last() =~= self.objects@.take(i as int));
            if self.objects[i].0.value == value {
                found = Some(i);
            }
            i = i + 1;
        }
        assert(self.objects@.take(i as int) =~= self.objects@);
        found
    }

    /// The two vertices that an edge from `source` to `target` would join,
    /// as the graph holds them now: what a direction for that edge is worked
    /// out from.
    pub fn ends(&self, source: i32, target: i32) -> (r: Result<Ends, GraphError>)
        ensures
            match r {
                Ok(e) => {
                    &&& last_index(self.objects@, source) >= 0
                    &&& e.source == self.objects@[last_index(self.objects@, source)].0
                    &&& match e.target {
                        Some(t) => target_index(self.objects@, source, target) >= 0 && t
                            == self.objects@[target_index(self.objects@, source, target)].0,
                        None => target_index(self.objects@, source, target) == -1,
                    }
                },
                Err(e) => e == GraphError::SourceNotFound && last_index(self.objects@, source)
                    == -1,
            },
    {
        proof {
            lemma_last_index(self.objects@, source);
            lemma_last_index(self.objects@, target);
        }
        let si = match self.find_last(source) {
            Some(i) => i,
            None => { return Err(GraphError::SourceNotFound); },
        };
        let target_vertex = if source == target {
            None
        } else {
            match self.find_last(target) {
                Some(t) => Some(self.objects[t].0),
                None => None,
            }
        };
        Ok(Ends { source: self.objects[si].0, target: target_vertex })
    }

    /// Adds an edge from the vertex numbered `source` to the one numbered
    /// `target`, placed by `direction`.
    ///
    /// The source counts one more child. Where the graph holds no vertex
    /// numbered `target`, or `target` is `source` itself, a new vertex is
    /// made one spoke away from the source and the edge is a tree edge;
    /// else the vertex is entered again, beside an edge that is none. On
    /// an error the graph stays as it was.
    pub fn add_vertex(&mut self, source: i32, target: i32, direction: Direction) -> (r: Result<
        (),
        GraphError,
    >)
        ensures
            match added(old(self).objects@, source, target, direction) {
                Ok(objects) => r is Ok && final(self).objects@ == objects,
                Err(e) => r == Err::<(), GraphError>(e) && final(self).objects@ == old(
                    self,
                ).objects@,
            },
    {
        proof {
            lemma_last_index(self.objects@, source);
            lemma_last_index(self.objects@, target);
        }
        let si = match self.find_last(source) {
            Some(i) => i,
            None => { return Err(GraphError::SourceNotFound); },
        };
        let found = if source == target {
            None
        } else {
            self.find_last(target)
        };
        let entry = self.objects[si];
        if entry.0.children == u8::MAX {
            return Err(GraphError::TooManyChildren);
        }
        let grown = Vertex {
            position: entry.0.position,
            value: entry.0.value,
            children: entry.0.children + 1,
            origin: entry.0.origin,
        };
        let vertex = match found {
            Some(t) => self.objects[t].0,
            None => {
                let x = offset(grown.position.x, direction.spoke.x);
                let y = offset(grown.position.y, direction.spoke.y);
                if x.is_none() || y.is_none() {
                    return Err(GraphError::OutOfGrid);
                }
                Vertex {
                    position: PixelCoordinate2D::new(x.unwrap(), y.unwrap()),
                    value: target,
                    children: grown.children,
                    origin: false,
                }
            },
        };
        let start_x = offset(grown.position.x, direction.rim.x);
        let start_y = offset(grown.position.y, direction.rim.y);
        let end_x = offset_back(vertex.position.x, direction.rim.x);
        let end_y = offset_back(vertex.position.y, direction.rim.y);
        if start_x.is_none() || start_y.is_none() || end_x.is_none() || end_y.is_none() {
            return Err(GraphError::OutOfGrid);
        }
        let edge = Edge {
            start: PixelCoordinate2D::new(start_x.unwrap(), start_y.unwrap()),
            end: PixelCoordinate2D::new(end_x.unwrap(), end_y.unwrap()),
            tree_type: found.is_none(),
        };
        self.objects.set(si, (grown, entry.1));
        self.objects.push((vertex, edge));
        Ok(())
    }
}

} // verus!
