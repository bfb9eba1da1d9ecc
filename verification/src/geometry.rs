//! Board geometry: cells of a square grid and edge-clamped neighbor lookup.

use vstd::prelude::*;

verus! {

/// One of the four cardinal travel directions.
#[allow(non_camel_case_types)]
#[derive(Copy, Clone, PartialEq, Eq, Structural, Debug)]
pub enum Directions {
    UP,
    DOWN,
    LEFT,
    RIGHT,
}

/// A cell of the square board, identified by its column `x` and row `y`.
#[derive(Copy, Clone, PartialEq, Eq, Structural, Debug)]
pub struct Vector2D {
    pub x: usize,
    pub y: usize,
}

/// The cell lies on a board of side length `size`.
pub open spec fn in_bounds(c: Vector2D, size: usize) -> bool {
    c.x < size && c.y < size
}

/// Where one step in `direction` leads on a board of side length `size`:
/// clamped at the edge, so a step off the board returns the cell unchanged.
pub open spec fn neighbor_spec(c: Vector2D, direction: Directions, size: usize) -> Vector2D {
    match direction {
        Directions::UP => if c.y == 0 {
            c
        } else {
            Vector2D { x: c.x, y: (c.y - 1) as usize }
        },
        Directions::DOWN => if c.y == size - 1 {
            c
        } else {
            Vector2D { x: c.x, y: (c.y + 1) as usize }
        },
        Directions::LEFT => if c.x == 0 {
            c
        } else {
            Vector2D { x: (c.x - 1) as usize, y: c.y }
        },
        Directions::RIGHT => if c.x == size - 1 {
            c
        } else {
            Vector2D { x: (c.x + 1) as usize, y: c.y }
        },
    }
}

impl Vector2D {
    /// One step in `direction`, clamped at the board edge.
    pub fn get_neighbor(&self, direction: &Directions, size: usize) -> (r: Vector2D)
        requires
            1 <= size,
            in_bounds(*self, size),
        ensures
            r == neighbor_spec(*self, *direction, size),
            in_bounds(r, size),
    {
        match direction {
            Directions::UP => {
                if self.y == 0 {
                    return *self;
                }
                Vector2D { x: self.x, y: self.y - 1 }
            },
            Directions::DOWN => {
                if self.y == size - 1 {
                    return *self;
                }
                Vector2D { x: self.x, y: self.y + 1 }
            },
            Directions::LEFT => {
                if self.x == 0 {
                    return *self;
                }
                Vector2D { x: self.x - 1, y: self.y }
            },
            Directions::RIGHT => {
                if self.x == size - 1 {
                    return *self;
                }
                Vector2D { x: self.x + 1, y: self.y }
            },
        }
    }
}

/// Law: a step from any on-board cell stays on the board, and at the edge a
/// step that points off the board returns the cell unchanged.
pub proof fn lemma_neighbor_in_bounds(c: Vector2D, direction: Directions, size: usize)
    requires
        1 <= size,
        in_bounds(c, size),
    ensures
        in_bounds(neighbor_spec(c, direction, size), size),
        direction == Directions::UP && c.y == 0 ==> neighbor_spec(c, direction, size) == c,
        direction == Directions::DOWN && c.y == size - 1 ==> neighbor_spec(c, direction, size) == c,
        direction == Directions::LEFT && c.x == 0 ==> neighbor_spec(c, direction, size) == c,
        direction == Directions::RIGHT && c.x == size - 1 ==> neighbor_spec(c, direction, size) == c,
{
}

} // verus!
