//! The lattice: cells and their four-connected neighbourhoods.

use crate::error::SimulationError;
use vstd::prelude::*;

verus! {

/// A cell of the lattice, counted from zero along both axes.
#[derive(Debug, Clone, Copy, PartialEq, Eq, Structural)]
pub struct Point {
    pub x: u32,
    pub y: u32,
}

impl Point {
    pub fn new(x: u32, y: u32) -> (p: Point)
        ensures
            p == (Point { x, y }),
    {
        Point { x, y }
    }

    pub fn x(&self) -> (x: usize)
        ensures
            x == self.x,
    {
        self.x as usize
    }

    pub fn y(&self) -> (y: usize)
        ensures
            y == self.y,
    {
        self.y as usize
    }
}

/// Whether `p` is a cell of a lattice `width` wide and `height` high.
pub open spec fn in_bounds(p: Point, width: u32, height: u32) -> bool {
    p.x < width && p.y < height
}

/// The number of steps along the axes that lead from `a` to `b`.
pub open spec fn distance(a: Point, b: Point) -> int {
    (if a.x <= b.x { b.x - a.x } else { a.x - b.x })
    + (if a.y <= b.y { b.y - a.y } else { a.y - b.y })
}

/// Whether `p` is one of the four corners of the lattice.
pub open spec fn is_corner(p: Point, width: u32, height: u32) -> bool {
    (p.x == 0 || p.x + 1 == width) && (p.y == 0 || p.y + 1 == height)
}

/// Whether `p` lies on the rim of the lattice.
pub open spec fn on_boundary(p: Point, width: u32, height: u32) -> bool {
    p.x == 0 || p.x + 1 == width || p.y == 0 || p.y + 1 == height
}

/// The cells beside `p` along the x axis, the lower one first.
pub open spec fn neighbors_along_x(p: Point, width: u32) -> Seq<Point> {
    let lower = if p.x > 0 {
        seq![Point { x: (p.x - 1) as u32, y: p.y }]
    } else {
        Seq::empty()
    };
    let upper = if p.x + 1 < width {
        seq![Point { x: (p.x + 1) as u32, y: p.y }]
    } else {
        Seq::empty()
    };
    lower + upper
}

/// The cells beside `p` along the y axis, the lower one first.
pub open spec fn neighbors_along_y(p: Point, height: u32) -> Seq<Point> {
    let lower = if p.y > 0 {
        seq![Point { x: p.x, y: (p.y - 1) as u32 }]
    } else {
        Seq::empty()
    };
    let upper = if p.y + 1 < height {
        seq![Point { x: p.x, y: (p.y + 1) as u32 }]
    } else {
        Seq::empty()
    };
    lower + upper
}

/// The neighbours of `p` in the order in which an individual keeps them: those
/// along the y axis before those along the x axis, but the other way round on
/// the lower and upper rim away from the corners. A point outside the lattice
/// has no neighbours.
pub open spec fn neighbors(p: Point, width: u32, height: u32) -> Seq<Point> {
    if !in_bounds(p, width, height) {
        Seq::empty()
    } else if (p.y == 0 || p.y + 1 == height) && 0 < p.x && p.x + 1 < width {
        neighbors_along_x(p, width) + neighbors_along_y(p, height)
    } else {
        neighbors_along_y(p, height) + neighbors_along_x(p, width)
    }
}

/// The fault in a lattice's dimensions, if there is one.
pub open spec fn dimension_fault(width: u32, height: u32) -> Option<SimulationError> {
    if width < 2 {
        Some(SimulationError::WidthTooSmall)
    } else if height < 2 {
        Some(SimulationError::HeightTooSmall)
    } else {
        None
    }
}

fn push_along_x(found: &mut Vec<Point>, p: Point, width: u32)
    requires
        p.x < width,
    ensures
        final(found)@ == old(found)@ + neighbors_along_x(p, width),
{
    if p.x > 0 {
        found.push(Point { x: p.x - 1, y: p.y });
    }
    if p.x < width - 1 {
        found.push(Point { x: p.x + 1, y: p.y });
    }
}

fn push_along_y(found: &mut Vec<Point>, p: Point, height: u32)
    requires
        p.y < height,
    ensures
        final(found)@ == old(found)@ + neighbors_along_y(p, height),
{
    if p.y > 0 {
        found.push(Point { x: p.x, y: p.y - 1 });
    }
    if p.y < height - 1 {
        found.push(Point { x: p.x, y: p.y + 1 });
    }
}

/// The neighbours of a cell on a lattice of at least two by two cells.
pub fn neighbors_of(location: Point, width: u32, height: u32) -> (res: Result<
    Vec<Point>,
    SimulationError,
>)
    ensures
        match res {
            Ok(found) => dimension_fault(width, height) is None && found@ == neighbors(
                location,
                width,
                height,
            ),
            Err(e) => dimension_fault(width, height) == Some(e),
        },
{
    if width < 2 {
        return Err(SimulationError::WidthTooSmall);
    }
    if height < 2 {
        return Err(SimulationError::HeightTooSmall);
    }
    let mut found: Vec<Point> = Vec::new();
    if location.x >= width || location.y >= height {
        return Ok(found);
    }
    let on_rim_y = location.y == 0 || location.y == height - 1;
    let inside_x = 0 < location.x && location.x < width - 1;
    if on_rim_y && inside_x {
        push_along_x(&mut found, location, width);
        push_along_y(&mut found, location, height);
    } else {
        push_along_y(&mut found, location, height);
        push_along_x(&mut found, location, width);
    }
    Ok(found)
}

/// On a lattice of at least two by two cells a corner has two neighbours,
/// another cell of the rim three and a cell inside four; each of them is a
/// cell of the lattice one step away, none is listed twice, and every cell of
/// the lattice one step away is among them.
pub proof fn lemma_neighbors_topology(p: Point, width: u32, height: u32)
    requires
        width >= 2,
        height >= 2,
        in_bounds(p, width, height),
    ensures
        neighbors(p, width, height).len() == (if is_corner(p, width, height) {
            2nat
        } else if on_boundary(p, width, height) {
            3nat
        } else {
            4nat
        }),
        forall|i: int|
            0 <= i < neighbors(p, width, height).len() ==> in_bounds(
                #[trigger] neighbors(p, width, height)[i],
                width,
                height,
            ) && distance(p, neighbors(p, width, height)[i]) == 1,
        neighbors(p, width, height).no_duplicates(),
        forall|q: Point|
            in_bounds(q, width, height) && distance(p, q) == 1 ==> #[trigger] neighbors(
                p,
                width,
                height,
            ).contains(q),
{
    let along_x = neighbors_along_x(p, width);
    let along_y = neighbors_along_y(p, height);
    let all = neighbors(p, width, height);
    assert forall|q: Point| in_bounds(q, width, height) && distance(p, q) == 1 implies all.contains(
        q,
    ) by {
        if q.y == p.y {
            let i = if q.x < p.x { 0int } else { along_x.len() - 1 };
            assert(along_x[i] == q);
            if all == along_x + along_y {
                assert(all[i] == q);
            } else {
                assert(all[along_y.len() + i] == q);
            }
        } else {
            let i = if q.y < p.y { 0int } else { along_y.len() - 1 };
            assert(along_y[i] == q);
            if all == along_x + along_y {
                assert(all[along_x.len() + i] == q);
            } else {
                assert(all[i] == q);
            }
        }
    }
}

} // verus!
