use vstd::prelude::*;

verus! {

/// Grid coordinates of a piece's 4x4 footprint anchor; row 0 is the board bottom.
#[derive(Clone, Copy, Debug, PartialEq, Eq, Structural)]
pub struct Point {
    pub x: usize,
    pub y: usize,
}

impl Point {
    pub fn new(x: usize, y: usize) -> (p: Point)
        ensures
            p.x == x,
            p.y == y,
    {
        Point { x: x, y: y }
    }
}

/// A 4x4 occupancy footprint: matrix row 3 is the piece's bottom-most row.
pub type ShapeMat = [[Option<Shape>; 4]; 4];

#[derive(Clone, Copy, PartialEq, Eq, Structural, Debug)]
pub enum Orientation {
    Up,
    Down,
    Left,
    Right,
}

#[derive(Debug, Copy, Clone, PartialEq, Eq, Structural)]
pub enum Shape {
    Eye,
    El,
    ElInv,
    Square,
    Zee,
    ZeeInv,
    Tee,
}

/// Which cells of the 4x4 footprint matrix are occupied, per kind and
/// orientation. Row 3 is the bottom row of every footprint.
pub open spec fn occ(s: Shape, o: Orientation, r: int, c: int) -> bool {
    match s {
        Shape::Tee => match o {
            Orientation::Up => (r == 2 && c == 1) || (r == 3 && 0 <= c <= 2),
            Orientation::Down => (r == 2 && 0 <= c <= 2) || (r == 3 && c == 1),
            Orientation::Left => (r == 1 && c == 1) || (r == 2 && 0 <= c <= 1) || (r == 3 && c
                == 1),
            Orientation::Right => (r == 1 && c == 0) || (r == 2 && 0 <= c <= 1) || (r == 3 && c
                == 0),
        },
        Shape::Eye => match o {
            Orientation::Left | Orientation::Right => r == 3 && 0 <= c <= 3,
            Orientation::Up | Orientation::Down => c == 0 && 0 <= r <= 3,
        },
        Shape::El => match o {
            Orientation::Up => (1 <= r <= 3 && c == 0) || (r == 3 && c == 1),
            Orientation::Left => (r == 2 && c == 2) || (r == 3 && 0 <= c <= 2),
            Orientation::Down => (r == 1 && 0 <= c <= 1) || (2 <= r <= 3 && c == 1),
            Orientation::Right => (r == 2 && 0 <= c <= 2) || (r == 3 && c == 0),
        },
        Shape::ElInv => match o {
            Orientation::Up => (1 <= r <= 3 && c == 1) || (r == 3 && c == 0),
            Orientation::Left => (r == 2 && 0 <= c <= 2) || (r == 3 && c == 2),
            Orientation::Down => (r == 1 && 0 <= c <= 1) || (2 <= r <= 3 && c == 0),
            Orientation::Right => (r == 2 && c == 0) || (r == 3 && 0 <= c <= 2),
        },
        Shape::Square => 2 <= r <= 3 && 0 <= c <= 1,
        Shape::ZeeInv => match o {
            Orientation::Up | Orientation::Down => (1 <= r <= 2 && c == 0) || (2 <= r <= 3 && c
                == 1),
            Orientation::Left | Orientation::Right => (r == 2 && 1 <= c <= 2) || (r == 3 && 0 <= c
                <= 1),
        },
        Shape::Zee => match o {
            Orientation::Up | Orientation::Down => (1 <= r <= 2 && c == 1) || (2 <= r <= 3 && c
                == 0),
            Orientation::Left | Orientation::Right => (r == 2 && 0 <= c <= 1) || (r == 3 && 1 <= c
                <= 2),
        },
    }
}

/// Logical horizontal extent of a piece in the given orientation.
pub open spec fn width_spec(s: Shape, o: Orientation) -> int {
    match s {
        Shape::Eye => match o {
            Orientation::Left | Orientation::Right => 4,
            Orientation::Up | Orientation::Down => 1,
        },
        Shape::Square => 2,
        Shape::ElInv | Shape::El | Shape::ZeeInv | Shape::Zee => match o {
            Orientation::Left | Orientation::Right => 3,
            Orientation::Up | Orientation::Down => 2,
        },
        Shape::Tee => match o {
            Orientation::Up | Orientation::Down => 3,
            Orientation::Left | Orientation::Right => 2,
        },
    }
}

/// True when some footprint cell of column `c` is occupied.
pub open spec fn col_occupied(s: Shape, o: Orientation, c: int) -> bool {
    occ(s, o, 0, c) || occ(s, o, 1, c) || occ(s, o, 2, c) || occ(s, o, 3, c)
}

/// Law: for every kind and orientation, the occupied-column span of the
/// footprint equals the declared width: exactly the columns below the width
/// hold an occupied cell.
pub proof fn lemma_footprint_matches_width(s: Shape, o: Orientation)
    ensures
        forall|c: int| 0 <= c < 4 ==> (col_occupied(s, o, c) <==> c < width_spec(s, o)),
{
    assert forall|c: int| 0 <= c < 4 implies (col_occupied(s, o, c) <==> c < width_spec(s, o)) by {
        assert(col_occupied(s, o, c) <==> c < width_spec(s, o));
    }
}

/// Relies on rand::random_range over `0..n`: a value drawn uniformly from the
/// half-open range; it panics only when the range is empty.
#[verifier::external_body]
pub(crate) fn rand_below(n: usize) -> (r: usize)
    requires
        0 < n,
    ensures
        r < n,
{
    rand::random_range(0..n)
}

impl Shape {
    /// Draws one of the seven kinds at random.
    pub fn random() -> Shape {
        match rand_below(7) {
            0 => Shape::Eye,
            1 => Shape::El,
            2 => Shape::ElInv,
            3 => Shape::Square,
            4 => Shape::Zee,
            5 => Shape::ZeeInv,
            _ => Shape::Tee,
        }
    }

    pub fn width(&self, o: &Orientation) -> (w: usize)
        ensures
            w == width_spec(*self, *o),
    {
        match self {
            Shape::Eye => match o {
                Orientation::Left | Orientation::Right => 4,
                Orientation::Up | Orientation::Down => 1,
            },
            Shape::Square => 2,
            Shape::ElInv | Shape::El | Shape::ZeeInv | Shape::Zee => match o {
                Orientation::Left | Orientation::Right => 3,
                Orientation::Up | Orientation::Down => 2,
            },
            Shape::Tee => match o {
                Orientation::Up | Orientation::Down => 3,
                Orientation::Left | Orientation::Right => 2,
            },
        }
    }

    pub fn to_mat(&self, o: Orientation) -> (m: ShapeMat)
        ensures
            forall|r: int, c: int|
                0 <= r < 4 && 0 <= c < 4 ==> m@[r]@[c] == (if occ(*self, o, r, c) {
                    Some(*self)
                } else {
                    None::<Shape>
                }),
    {
        match self {
            Shape::Tee => match o {
                Orientation::Up => [
                    [None, None, None, None],
                    [None, None, None, None],
                    [None, Some(Shape::Tee), None, None],
                    [Some(Shape::Tee), Some(Shape::Tee), Some(Shape::Tee), None],
                ],
                Orientation::Down => [
                    [None, None, None, None],
                    [None, None, None, None],
                    [Some(Shape::Tee), Some(Shape::Tee), Some(Shape::Tee), None],
                    [None, Some(Shape::Tee), None, None],
                ],
                Orientation::Left => [
                    [None, None, None, None],
                    [None, Some(Shape::Tee), None, None],
                    [Some(Shape::Tee), Some(Shape::Tee), None, None],
                    [None, Some(Shape::Tee), None, None],
                ],
                Orientation::Right => [
                    [None, None, None, None],
                    [Some(Shape::Tee), None, None, None],
                    [Some(Shape::Tee), Some(Shape::Tee), None, None],
                    [Some(Shape::Tee), None, None, None],
                ],
            },
            Shape::Eye => match o {
                Orientation::Left | Orientation::Right => [
                    [None, None, None, None],
                    [None, None, None, None],
                    [None, None, None, None],
                    [Some(Shape::Eye), Some(Shape::Eye), Some(Shape::Eye), Some(Shape::Eye)],
                ],
                Orientation::Up | Orientation::Down => [
                    [Some(Shape::Eye), None, None, None],
                    [Some(Shape::Eye), None, None, None],
                    [Some(Shape::Eye), None, None, None],
                    [Some(Shape::Eye), None, None, None],
                ],
            },
            Shape::El => match o {
                Orientation::Up => [
                    [None, None, None, None],
                    [Some(Shape::El), None, None, None],
                    [Some(Shape::El), None, None, None],
                    [Some(Shape::El), Some(Shape::El), None, None],
                ],
                Orientation::Left => [
                    [None, None, None, None],
                    [None, None, None, None],
                    [None, None, Some(Shape::El), None],
                    [Some(Shape::El), Some(Shape::El), Some(Shape::El), None],
                ],
                Orientation::Down => [
                    [None, None, None, None],
                    [Some(Shape::El), Some(Shape::El), None, None],
                    [None, Some(Shape::El), None, None],
                    [None, Some(Shape::El), None, None],
                ],
                Orientation::Right => [
                    [None, None, None, None],
                    [None, None, None, None],
                    [Some(Shape::El), Some(Shape::El), Some(Shape::El), None],
                    [Some(Shape::El), None, None, None],
                ],
            },
            Shape::ElInv => match o {
                Orientation::Up => [
                    [None, None, None, None],
                    [None, Some(Shape::ElInv), None, None],
                    [None, Some(Shape::ElInv), None, None],
                    [Some(Shape::ElInv), Some(Shape::ElInv), None, None],
                ],
                Orientation::Left => [
                    [None, None, None, None],
                    [None, None, None, None],
                    [Some(Shape::ElInv), Some(Shape::ElInv), Some(Shape::ElInv), None],
                    [None, None, Some(Shape::ElInv), None],
                ],
                Orientation::Down => [
                    [None, None, None, None],
                    [Some(Shape::ElInv), Some(Shape::ElInv), None, None],
                    [Some(Shape::ElInv), None, None, None],
                    [Some(Shape::ElInv), None, None, None],
                ],
                Orientation::Right => [
                    [None, None, None, None],
                    [None, None, None, None],
                    [Some(Shape::ElInv), None, None, None],
                    [Some(Shape::ElInv), Some(Shape::ElInv), Some(Shape::ElInv), None],
                ],
            },
            Shape::Square => [
                [None, None, None, None],
                [None, None, None, None],
                [Some(Shape::Square), Some(Shape::Square), None, None],
                [Some(Shape::Square), Some(Shape::Square), None, None],
            ],
            Shape::ZeeInv => match o {
                Orientation::Up | Orientation::Down => [
                    [None, None, None, None],
                    [Some(Shape::ZeeInv), None, None, None],
                    [Some(Shape::ZeeInv), Some(Shape::ZeeInv), None, None],
                    [None, Some(Shape::ZeeInv), None, None],
                ],
                Orientation::Left | Orientation::Right => [
                    [None, None, None, None],
                    [None, None, None, None],
                    [None, Some(Shape::ZeeInv), Some(Shape::ZeeInv), None],
                    [Some(Shape::ZeeInv), Some(Shape::ZeeInv), None, None],
                ],
            },
            Shape::Zee => match o {
                Orientation::Up | Orientation::Down => [
                    [None, None, None, None],
                    [None, Some(Shape::Zee), None, None],
                    [Some(Shape::Zee), Some(Shape::Zee), None, None],
                    [Some(Shape::Zee), None, None, None],
                ],
                Orientation::Left | Orientation::Right => [
                    [None, None, None, None],
                    [None, None, None, None],
                    [Some(Shape::Zee), Some(Shape::Zee), None, None],
                    [None, Some(Shape::Zee), Some(Shape::Zee), None],
                ],
            },
        }
    }
}

} // verus!
