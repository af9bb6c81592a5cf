use vstd::prelude::*;
use crate::board::{Board, BoardV};
use crate::shape::{
    col_occupied, lemma_footprint_matches_width, occ, width_spec, Orientation, Point, Shape,
};
use crate::{HEIGHT, WIDTH};

verus! {

pub enum Direction {
    Ccw,
    Cw,
}

/// The falling piece: its kind, orientation, and anchor position.
pub struct ShapeState {
    pub orientation: Orientation,
    pub position: Point,
    pub shape: Shape,
}

/// The piece's footprint cell (r, c) covers board cell (y + 3 - r, x + c):
/// footprint row 3 is the bottom. The piece collides when it sticks out past
/// the right wall, or an occupied footprint cell covers an occupied board
/// cell.
pub open spec fn collides(b: BoardV, s: Shape, o: Orientation, x: int, y: int) -> bool {
    x + width_spec(s, o) > WIDTH || exists|r: int, c: int|
        0 <= r < 4 && 0 <= c < 4 && #[trigger] occ(s, o, r, c) && b[y + 3 - r][x + c] is Some
}

/// The piece cannot stand at (x, y): it is at the floor, or it collides.
pub open spec fn grounded(b: BoardV, s: Shape, o: Orientation, x: int, y: int) -> bool {
    y == 0 || collides(b, s, o, x, y)
}

/// Where a freshly spawned piece of kind `s` stands: the straight piece one
/// column left of the others.
pub open spec fn spawn_pos(s: Shape) -> Point {
    match s {
        Shape::Eye => Point { x: 3, y: 21 },
        _ => Point { x: 4, y: 21 },
    }
}

pub open spec fn spawn_piece(s: Shape) -> ShapeState {
    ShapeState { orientation: Orientation::Up, position: spawn_pos(s), shape: s }
}

pub open spec fn turn_cw(o: Orientation) -> Orientation {
    match o {
        Orientation::Up => Orientation::Right,
        Orientation::Right => Orientation::Down,
        Orientation::Down => Orientation::Left,
        Orientation::Left => Orientation::Up,
    }
}

pub open spec fn turn_ccw(o: Orientation) -> Orientation {
    match o {
        Orientation::Up => Orientation::Left,
        Orientation::Left => Orientation::Down,
        Orientation::Down => Orientation::Right,
        Orientation::Right => Orientation::Up,
    }
}

pub open spec fn turned(o: Orientation, d: Direction) -> Orientation {
    match d {
        Direction::Ccw => turn_ccw(o),
        Direction::Cw => turn_cw(o),
    }
}

/// One row of the wall-kick search: try the current column, then one step
/// left, and for the straight piece up to two further steps left.
pub open spec fn kick_row(b: BoardV, s: Shape, o: Orientation, x: int, y: int) -> Option<int> {
    if !grounded(b, s, o, x, y) {
        Some(x)
    } else {
        let x1 = if x > 0 {
            x - 1
        } else {
            x
        };
        if !grounded(b, s, o, x1, y) {
            Some(x1)
        } else if s == Shape::Eye {
            let x2 = if x1 > 0 {
                x1 - 1
            } else {
                x1
            };
            if !grounded(b, s, o, x2, y) {
                Some(x2)
            } else {
                let x3 = if x2 > 0 {
                    x2 - 1
                } else {
                    x2
                };
                if !grounded(b, s, o, x3, y) {
                    Some(x3)
                } else {
                    None
                }
            }
        } else {
            None
        }
    }
}

/// The wall-kick search: per row the horizontal tries of `kick_row`; when
/// none fits, one row up, until the piece would leave the top of the board.
pub open spec fn kick_spec(b: BoardV, s: Shape, o: Orientation, x: int, y: int) -> Option<
    (int, int),
>
    decreases HEIGHT - y,
{
    if !(0 <= y <= HEIGHT - 4) {
        None
    } else {
        match kick_row(b, s, o, x, y) {
            Some(x2) => Some((x2, y)),
            None => kick_spec(b, s, o, x, y + 1),
        }
    }
}

/// The piece after a rotation: the orientation turns, and the wall-kick
/// search picks the position; when the search finds no spot, the piece is
/// left as it was.
pub open spec fn rotate_spec(b: BoardV, p: ShapeState, d: Direction) -> ShapeState {
    let o2 = turned(p.orientation, d);
    match kick_spec(b, p.shape, o2, p.position.x as int, p.position.y as int) {
        Some(q) => ShapeState {
            orientation: o2,
            position: Point { x: q.0 as usize, y: q.1 as usize },
            shape: p.shape,
        },
        None => p,
    }
}

/// The piece after one step left: the column shifts down by one unless it is
/// already at the wall or the shifted position cannot stand.
pub open spec fn left_spec(b: BoardV, p: ShapeState) -> (ShapeState, bool) {
    let x0 = p.position.x as int;
    let y0 = p.position.y as int;
    if x0 > 0 && !grounded(b, p.shape, p.orientation, x0 - 1, y0) {
        (
            ShapeState {
                position: Point { x: (p.position.x - 1) as usize, y: p.position.y },
                ..p
            },
            true,
        )
    } else {
        (p, false)
    }
}

/// The piece after one step right, under the same speculative-shift rule.
pub open spec fn right_spec(b: BoardV, p: ShapeState) -> (ShapeState, bool) {
    let x0 = p.position.x as int;
    let y0 = p.position.y as int;
    if x0 <= WIDTH && !grounded(b, p.shape, p.orientation, x0 + 1, y0) {
        ((ShapeState { position: Point { x: (p.position.x + 1) as usize, y: p.position.y }, ..p }),
        true)
    } else {
        (p, false)
    }
}

/// The piece after one gravity step: the row drops by one, clamped at the
/// floor.
pub open spec fn down_spec(p: ShapeState) -> (ShapeState, bool) {
    if p.position.y > 0 {
        (
            (ShapeState {
                position: Point { x: p.position.x, y: (p.position.y - 1) as usize },
                ..p
            }),
            true,
        )
    } else {
        (p, false)
    }
}

/// The row where a hard drop from `y` comes to rest: the row is lowered while
/// the next one down is collision-free, resting one row above the first
/// obstruction, or at the floor.
pub open spec fn drop_row(b: BoardV, s: Shape, o: Orientation, x: int, y: int) -> int
    decreases y,
{
    if y <= 0 {
        if collides(b, s, o, x, 0) {
            1
        } else {
            0
        }
    } else {
        if collides(b, s, o, x, y - 1) {
            y
        } else if y - 1 == 0 {
            0
        } else {
            drop_row(b, s, o, x, y - 1)
        }
    }
}


/// A hard drop never raises the piece, except from a colliding floor
/// position, which rises one row.
pub proof fn lemma_drop_row_bound(b: BoardV, s: Shape, o: Orientation, x: int, y: int)
    requires
        0 <= y,
    ensures
        0 <= drop_row(b, s, o, x, y) <= (if y == 0 {
            1int
        } else {
            y
        }),
    decreases y,
{
    if y > 0 && !collides(b, s, o, x, y - 1) && y - 1 != 0 {
        lemma_drop_row_bound(b, s, o, x, y - 1);
    }
}

/// Law: wherever the wall-kick search lands, the piece can stand: the found
/// position is never colliding nor at the floor, it is never further right
/// than where the search started, and it stays on the board.
pub proof fn lemma_kick_lands_clear(b: BoardV, s: Shape, o: Orientation, x: int, y: int)
    requires
        0 <= x,
    ensures
        kick_spec(b, s, o, x, y) matches Some(q) ==> !grounded(b, s, o, q.0, q.1) && 0 <= q.0 <= x
            && 0 < q.1 <= HEIGHT - 4,
    decreases HEIGHT - y,
{
    if 0 <= y <= HEIGHT - 4 {
        match kick_row(b, s, o, x, y) {
            Some(_) => {},
            None => {
                lemma_kick_lands_clear(b, s, o, x, y + 1);
            },
        }
    }
}

/// Law: a hard drop from a standing position rests the piece: the resting
/// row is collision-free, and the row below it collides or is the floor.
pub proof fn lemma_drop_rests(b: BoardV, s: Shape, o: Orientation, x: int, y: int)
    requires
        0 <= y,
        !collides(b, s, o, x, y),
    ensures
        ({
            let yf = drop_row(b, s, o, x, y);
            0 <= yf <= y && !collides(b, s, o, x, yf) && (yf == 0 || collides(b, s, o, x, yf - 1))
        }),
    decreases y,
{
    if y > 0 {
        if collides(b, s, o, x, y - 1) {
        } else if y - 1 == 0 {
        } else {
            lemma_drop_rests(b, s, o, x, y - 1);
        }
    }
}

impl ShapeState {
    pub fn new_from_shape(s: Shape) -> (st: ShapeState)
        ensures
            st == spawn_piece(s),
    {
        let position = match s {
            Shape::Eye => Point { x: 3, y: 21 },
            _ => Point { x: 4, y: 21 },
        };
        ShapeState { orientation: Orientation::Up, position: position, shape: s }
    }

    /// Spawns a piece of a random kind.
    pub fn new() -> (st: ShapeState)
        ensures
            st == spawn_piece(st.shape),
    {
        let s = Shape::random();
        ShapeState::new_from_shape(s)
    }

    pub fn set_shape(&mut self, s: Shape)
        ensures
            *final(self) == (ShapeState { shape: s, ..*old(self) }),
    {
        self.shape = s;
    }

    pub fn set_position(&mut self, p: Point)
        ensures
            *final(self) == (ShapeState { position: p, ..*old(self) }),
    {
        self.position = p;
    }

    pub fn set_orientation(&mut self, o: Orientation)
        ensures
            *final(self) == (ShapeState { orientation: o, ..*old(self) }),
    {
        self.orientation = o;
    }

    pub fn shape(&self) -> (s: Shape)
        ensures
            s == self.shape,
    {
        self.shape
    }

    pub fn position(&self) -> (p: &Point)
        ensures
            *p == self.position,
    {
        &self.position
    }

    pub fn orientation(&self) -> (o: Orientation)
        ensures
            o == self.orientation,
    {
        self.orientation
    }

    /// One gravity step; reports whether the row actually changed.
    pub fn down(&mut self) -> (moved: bool)
        ensures
            *final(self) == down_spec(*old(self)).0,
            moved == down_spec(*old(self)).1,
    {
        if self.position.y > 0 {
            self.position.y = self.position.y - 1;
            true
        } else {
            false
        }
    }

    /// One step left, reverted when the shifted position cannot stand.
    pub fn left(&mut self, b: &Board) -> (moved: bool)
        requires
            old(self).position.y + 4 <= HEIGHT,
        ensures
            *final(self) == left_spec(b@, *old(self)).0,
            moved == left_spec(b@, *old(self)).1,
    {
        if self.position.x > 0 {
            self.position.x = self.position.x - 1;
            if self.any_collide(b) {
                self.position.x = self.position.x + 1;
                return false;
            }
            return true;
        }
        false
    }

    /// One step right, reverted when the shifted position cannot stand.
    pub fn right(&mut self, b: &Board) -> (moved: bool)
        requires
            old(self).position.y + 4 <= HEIGHT,
        ensures
            *final(self) == right_spec(b@, *old(self)).0,
            moved == right_spec(b@, *old(self)).1,
    {
        if self.position.x <= WIDTH {
            self.position.x = self.position.x + 1;
            if self.any_collide(b) {
                self.position.x = self.position.x - 1;
                return false;
            }
            return true;
        }
        false
    }

    /// Turns the piece and resolves overlap by the wall-kick search; when no
    /// spot exists up to the top of the board, the piece is left unchanged.
    #[verifier::loop_isolation(false)]
    pub fn rotate(&mut self, d: Direction, b: &Board)
        requires
            old(self).position.y + 4 <= HEIGHT,
        ensures
            *final(self) == rotate_spec(b@, *old(self), d),
    {
        let ghost st0 = *self;
        let orig_o = self.orientation;
        let orig_p = self.position;
        match d {
            Direction::Ccw => self.rotate_ccw(),
            Direction::Cw => self.rotate_cw(),
        }
        let ghost o2 = self.orientation;
        let ghost sx = st0.position.x as int;
        let ghost sy = st0.position.y as int;
        proof {
            assert(o2 == turned(st0.orientation, d));
        }
        while self.position.y + 4 <= HEIGHT
            invariant
                self.shape == st0.shape,
                self.orientation == o2,
                self.position.x == st0.position.x,
                st0.position.y <= self.position.y,
                self.position.y <= HEIGHT - 3,
                kick_spec(b@, st0.shape, o2, sx, sy) == kick_spec(
                    b@,
                    st0.shape,
                    o2,
                    sx,
                    self.position.y as int,
                ),
                sx == st0.position.x as int,
                sy == st0.position.y as int,
            decreases HEIGHT - self.position.y,
        {
            let ghost y = self.position.y as int;
            let mut xdelta: usize = 0;
            if !self.any_collide(b) {
                proof {
                    assert(kick_row(b@, st0.shape, o2, sx, y) == Some(sx));
                }
                return;
            }
            if self.position.x != 0 {
                self.position.x = self.position.x - 1;
                xdelta = xdelta + 1;
            }
            let ghost x1 = self.position.x as int;
            if !self.any_collide(b) {
                proof {
                    assert(kick_row(b@, st0.shape, o2, sx, y) == Some(x1));
                }
                return;
            }
            if self.shape() == Shape::Eye && self.position.x != 0 {
                self.position.x = self.position.x - 1;
                xdelta = xdelta + 1;
            }
            let ghost x2 = self.position.x as int;
            if !self.any_collide(b) {
                proof {
                    assert(st0.shape == Shape::Eye);
                    assert(kick_row(b@, st0.shape, o2, sx, y) == Some(x2));
                }
                return;
            }
            if self.shape() == Shape::Eye && self.position.x != 0 {
                self.position.x = self.position.x - 1;
                xdelta = xdelta + 1;
            }
            let ghost x3 = self.position.x as int;
            if !self.any_collide(b) {
                proof {
                    assert(st0.shape == Shape::Eye);
                    assert(kick_row(b@, st0.shape, o2, sx, y) == Some(x3));
                }
                return;
            }
            proof {
                assert(kick_row(b@, st0.shape, o2, sx, y) is None);
            }
            self.position.x = self.position.x + xdelta;
            self.position.y = self.position.y + 1;
        }
        self.orientation = orig_o;
        self.position = orig_p;
        proof {
            assert(kick_spec(b@, st0.shape, o2, sx, sy) is None);
            assert(*self == st0);
        }
    }

    pub fn rotate_cw(&mut self)
        ensures
            *final(self) == (ShapeState { orientation: turn_cw(old(self).orientation), ..*old(self) }),
    {
        self.orientation = match self.orientation {
            Orientation::Up => Orientation::Right,
            Orientation::Right => Orientation::Down,
            Orientation::Down => Orientation::Left,
            Orientation::Left => Orientation::Up,
        }
    }

    pub fn rotate_ccw(&mut self)
        ensures
            *final(self) == (ShapeState {
                orientation: turn_ccw(old(self).orientation),
                ..*old(self)
            }),
    {
        self.orientation = match self.orientation {
            Orientation::Up => Orientation::Left,
            Orientation::Left => Orientation::Down,
            Orientation::Down => Orientation::Right,
            Orientation::Right => Orientation::Up,
        }
    }

    /// Whether the piece collides at its current position.
    pub fn shape_collide(&self, b: &Board) -> (r: bool)
        requires
            self.position.y + 4 <= HEIGHT,
        ensures
            r == collides(
                b@,
                self.shape,
                self.orientation,
                self.position.x as int,
                self.position.y as int,
            ),
    {
        let width = self.shape.width(&self.orientation);
        if self.position.x > WIDTH || self.position.x + width > WIDTH {
            return true;
        }
        proof {
            lemma_footprint_matches_width(self.shape, self.orientation);
        }
        let m = self.shape.to_mat(self.orientation);
        let ghost s = self.shape;
        let ghost o = self.orientation;
        let ghost px = self.position.x as int;
        let ghost py = self.position.y as int;
        let mut my: usize = 0;
        while my < 4
            invariant
                my <= 4,
                self.position.y + 4 <= HEIGHT,
                px + width_spec(s, o) <= WIDTH,
                s == self.shape,
                o == self.orientation,
                px == self.position.x as int,
                py == self.position.y as int,
                forall|c: int| 0 <= c < 4 ==> (col_occupied(s, o, c) <==> c < width_spec(s, o)),
                forall|r: int, c: int|
                    0 <= r < 4 && 0 <= c < 4 && m@[r]@[c] is Some <==> 0 <= r < 4 && 0 <= c < 4
                        && occ(s, o, r, c),
                forall|r: int, c: int|
                    0 <= r < 4 && 0 <= c < 4 && r > 3 - my && #[trigger] occ(s, o, r, c) ==> b@[py
                        + 3 - r][px + c] is None,
            decreases 4 - my,
        {
            let mut mx: usize = 0;
            while mx < 4
                invariant
                    my < 4,
                    mx <= 4,
                    self.position.y + 4 <= HEIGHT,
                    px + width_spec(s, o) <= WIDTH,
                    s == self.shape,
                    o == self.orientation,
                    px == self.position.x as int,
                    py == self.position.y as int,
                    forall|c: int| 0 <= c < 4 ==> (col_occupied(s, o, c) <==> c < width_spec(s, o)),
                    forall|r: int, c: int|
                        0 <= r < 4 && 0 <= c < 4 && m@[r]@[c] is Some <==> 0 <= r < 4 && 0 <= c < 4
                            && occ(s, o, r, c),
                    forall|r: int, c: int|
                        0 <= r < 4 && 0 <= c < 4 && r > 3 - my && #[trigger] occ(s, o, r, c)
                            ==> b@[py + 3 - r][px + c] is None,
                    forall|c: int|
                        0 <= c < mx && #[trigger] occ(s, o, 3 - my, c) ==> b@[py + my as int][px
                            + c] is None,
                decreases 4 - mx,
            {
                if m[3 - my][mx].is_some() {
                    proof {
                        assert(occ(s, o, 3 - my as int, mx as int));
                        assert(col_occupied(s, o, mx as int));
                        assert(px + mx < WIDTH);
                    }
                    if b.0[self.position.y + my][self.position.x + mx].is_some() {
                        proof {
                            assert(b@[py + my as int][px + mx as int] is Some);
                            assert(occ(s, o, 3 - my as int, mx as int) && b@[py + 3 - (3 - my as int)][px + mx as int] is Some);
                        }
                        return true;
                    }
                }
                mx += 1;
            }
            my += 1;
        }
        proof {
            assert(!collides(b@, s, o, px, py));
        }
        false
    }

    /// Whether the piece cannot stand where it is: at the floor, or
    /// colliding.
    pub fn any_collide(&self, b: &Board) -> (r: bool)
        requires
            self.position.y + 4 <= HEIGHT,
        ensures
            r == grounded(
                b@,
                self.shape,
                self.orientation,
                self.position.x as int,
                self.position.y as int,
            ),
    {
        if self.position.y == 0 {
            return true;
        }
        self.shape_collide(b)
    }

    /// Hard drop: falls until resting one row above the first obstruction, or
    /// at the floor.
    #[verifier::loop_isolation(false)]
    pub fn drop(&mut self, b: &Board)
        requires
            old(self).position.y + 4 <= HEIGHT,
        ensures
            final(self).shape == old(self).shape,
            final(self).orientation == old(self).orientation,
            final(self).position.x == old(self).position.x,
            final(self).position.y as int == drop_row(
                b@,
                old(self).shape,
                old(self).orientation,
                old(self).position.x as int,
                old(self).position.y as int,
            ),
    {
        let ghost st0 = *self;
        let ghost sx = st0.position.x as int;
        let ghost sy = st0.position.y as int;
        loop
            invariant
                self.shape == st0.shape,
                self.orientation == st0.orientation,
                self.position.x == st0.position.x,
                self.position.y <= st0.position.y,
                self.position.y + 4 <= HEIGHT,
                drop_row(b@, st0.shape, st0.orientation, sx, sy) == drop_row(
                    b@,
                    st0.shape,
                    st0.orientation,
                    sx,
                    self.position.y as int,
                ),
                sx == st0.position.x as int,
                sy == st0.position.y as int,
            decreases self.position.y,
        {
            let ghost yh = self.position.y as int;
            if self.position.y != 0 {
                self.position.y = self.position.y - 1;
            }
            if self.shape_collide(b) {
                self.position.y = self.position.y + 1;
                proof {
                    if yh == 0 {
                        assert(collides(b@, st0.shape, st0.orientation, sx, 0));
                        assert(drop_row(b@, st0.shape, st0.orientation, sx, yh) == 1);
                    } else {
                        assert(drop_row(b@, st0.shape, st0.orientation, sx, yh) == yh);
                    }
                }
                return;
            }
            if self.position.y == 0 {
                proof {
                    assert(drop_row(b@, st0.shape, st0.orientation, sx, yh) == 0);
                }
                return;
            }
        }
    }
}

} // verus!
