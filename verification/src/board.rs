use vstd::prelude::*;
use crate::shape::{Point, Shape, ShapeMat};
use crate::{HEIGHT, WIDTH};

verus! {

/// The locked-cell grid: `0[y][x]`, with row 0 at the board bottom.
#[derive(Debug, Copy, Clone, PartialEq)]
pub struct Board(pub [[Option<Shape>; WIDTH]; HEIGHT]);

/// The board as a sequence of rows, each a sequence of cells.
pub type BoardV = Seq<Seq<Option<Shape>>>;

/// A 4x4 footprint matrix as a sequence of rows.
pub type MatV = Seq<Seq<Option<Shape>>>;

impl View for Board {
    type V = BoardV;

    open spec fn view(&self) -> BoardV {
        Seq::new(HEIGHT as nat, |y: int| self.0@[y]@)
    }
}

pub open spec fn mat_view(m: ShapeMat) -> MatV {
    Seq::new(4, |r: int| m@[r]@)
}

pub open spec fn board_wf(b: BoardV) -> bool {
    b.len() == HEIGHT && forall|y: int| 0 <= y < HEIGHT ==> (#[trigger] b[y]).len() == WIDTH
}

pub open spec fn empty_board() -> BoardV {
    Seq::new(HEIGHT as nat, |y: int| Seq::new(WIDTH as nat, |x: int| None::<Shape>))
}

/// One cell of the board after a footprint `mv` is painted at `(px, py)`.
/// Matrix row `r` lands on board row `py + 3 - r`: row 3 is the bottom.
pub open spec fn paint_cell(b: BoardV, mv: MatV, px: int, py: int, by: int, bx: int) -> Option<
    Shape,
> {
    if py <= by < py + 4 && px <= bx < px + 4 && mv[3 - (by - py)][bx - px] is Some {
        mv[3 - (by - py)][bx - px]
    } else {
        b[by][bx]
    }
}

/// The board after every occupied cell of `mv` is written at `(px, py)`.
pub open spec fn paint(b: BoardV, mv: MatV, px: int, py: int) -> BoardV {
    Seq::new(
        b.len(),
        |by: int| Seq::new(b[by].len(), |bx: int| paint_cell(b, mv, px, py, by, bx)),
    )
}

/// One cell of the board after a footprint `mv` is erased at `(px, py)`.
pub open spec fn erase_cell(b: BoardV, mv: MatV, px: int, py: int, by: int, bx: int) -> Option<
    Shape,
> {
    if py <= by < py + 4 && px <= bx < px + 4 && mv[3 - (by - py)][bx - px] is Some {
        None
    } else {
        b[by][bx]
    }
}

/// The board after every occupied cell of `mv` is cleared at `(px, py)`.
pub open spec fn erase(b: BoardV, mv: MatV, px: int, py: int) -> BoardV {
    Seq::new(
        b.len(),
        |by: int| Seq::new(b[by].len(), |bx: int| erase_cell(b, mv, px, py, by, bx)),
    )
}

/// Law: erasing a footprint right after painting it restores the board,
/// wherever the cells under the footprint were previously free.
pub proof fn lemma_paint_erase_round_trip(b: BoardV, mv: MatV, px: int, py: int)
    requires
        board_wf(b),
        forall|r: int, c: int|
            0 <= r < 4 && 0 <= c < 4 && mv[r][c] is Some ==> 0 <= py + 3 - r < HEIGHT && 0 <= px + c
                < WIDTH && b[py + 3 - r][px + c] is None,
    ensures
        erase(paint(b, mv, px, py), mv, px, py) == b,
{
    let pb = paint(b, mv, px, py);
    let eb = erase(pb, mv, px, py);
    assert forall|by: int, bx: int|
        0 <= by < HEIGHT && 0 <= bx < WIDTH implies eb[by][bx] == b[by][bx] by {
        if py <= by < py + 4 && px <= bx < px + 4 && mv[3 - (by - py)][bx - px] is Some {
            let r = 3 - (by - py);
            let c = bx - px;
            assert(mv[r][c] is Some);
            assert(b[py + 3 - r][px + c] is None);
        }
    }
    assert(eb =~~= b);
}


/// Row sequences of a loaded layout.
pub open spec fn rows_view(config: Seq<Vec<Option<Shape>>>) -> Seq<Seq<Option<Shape>>> {
    config.map_values(|row: Vec<Option<Shape>>| row@)
}

/// One cell of the board after the layout `cfg` is loaded at `(px, py)`.
/// Layout rows are ordered top to bottom, so layout row `cy` lands on board
/// row `py + cfg.len() - 1 - cy`. With `ow` the layout replaces the
/// destination cell; without it, only free destination cells are filled.
pub open spec fn load_cell(
    b: BoardV,
    cfg: Seq<Seq<Option<Shape>>>,
    px: int,
    py: int,
    ow: bool,
    by: int,
    bx: int,
) -> Option<Shape> {
    let ch = cfg.len() as int;
    let cy = ch - 1 - (by - py);
    if py <= by < py + ch && px <= bx < px + cfg[cy].len() {
        let v = cfg[cy][bx - px];
        if ow {
            v
        } else if b[by][bx] is None {
            v
        } else {
            b[by][bx]
        }
    } else {
        b[by][bx]
    }
}

/// The board after the layout `cfg` is loaded at `(px, py)`.
pub open spec fn load(b: BoardV, cfg: Seq<Seq<Option<Shape>>>, px: int, py: int, ow: bool) -> BoardV {
    Seq::new(b.len(), |by: int| Seq::new(b[by].len(), |bx: int| load_cell(b, cfg, px, py, ow, by, bx)))
}

/// `load_cell`, restricted to the layout cells already written: every full
/// row before `ydone`, and the first `xdone` cells of row `ydone`.
pub open spec fn load_cell_done(
    b: BoardV,
    cfg: Seq<Seq<Option<Shape>>>,
    px: int,
    py: int,
    ow: bool,
    by: int,
    bx: int,
    ydone: int,
    xdone: int,
) -> Option<Shape> {
    let ch = cfg.len() as int;
    let cy = ch - 1 - (by - py);
    if py <= by < py + ch && px <= bx < px + cfg[cy].len() && ((cy < ydone) || (cy == ydone && bx
        < px + xdone)) {
        let v = cfg[cy][bx - px];
        if ow {
            v
        } else if b[by][bx] is None {
            v
        } else {
            b[by][bx]
        }
    } else {
        b[by][bx]
    }
}

/// How many cells of a row are occupied.
pub open spec fn row_count(r: Seq<Option<Shape>>) -> nat
    decreases r.len(),
{
    if r.len() == 0 {
        0
    } else {
        row_count(r.drop_last()) + (if r.last() is Some {
            1nat
        } else {
            0nat
        })
    }
}

/// How many cells of the whole board are occupied.
pub open spec fn cell_count(b: BoardV) -> nat
    decreases b.len(),
{
    if b.len() == 0 {
        0
    } else {
        cell_count(b.drop_last()) + row_count(b.last())
    }
}

pub proof fn lemma_row_count_update(r: Seq<Option<Shape>>, x: int, v: Option<Shape>)
    requires
        0 <= x < r.len(),
    ensures
        row_count(r.update(x, v)) + (if r[x] is Some {
            1nat
        } else {
            0nat
        }) == row_count(r) + (if v is Some {
            1nat
        } else {
            0nat
        }),
    decreases r.len(),
{
    let r2 = r.update(x, v);
    assert(r2.len() == r.len());
    if x == r.len() - 1 {
        assert(r2.drop_last() =~= r.drop_last());
        assert(r2.last() == v);
    } else {
        assert(r2.drop_last() =~= r.drop_last().update(x, v));
        assert(r2.last() == r.last());
        lemma_row_count_update(r.drop_last(), x, v);
    }
}

pub proof fn lemma_cell_count_update(b: BoardV, y: int, r: Seq<Option<Shape>>)
    requires
        0 <= y < b.len(),
    ensures
        cell_count(b.update(y, r)) + row_count(b[y]) == cell_count(b) + row_count(r),
    decreases b.len(),
{
    let b2 = b.update(y, r);
    if y == b.len() - 1 {
        assert(b2.drop_last() =~= b.drop_last());
        assert(b2.last() == r);
    } else {
        assert(b2.drop_last() =~= b.drop_last().update(y, r));
        assert(b2.last() == b.last());
        lemma_cell_count_update(b.drop_last(), y, r);
    }
}

/// A board whose every cell is occupied has the full cell count.
pub proof fn lemma_cell_count_saturated(b: BoardV, w: int)
    requires
        0 <= w,
        forall|i: int| 0 <= i < b.len() ==> (#[trigger] b[i]).len() == w,
        forall|y: int, x: int| 0 <= y < b.len() && 0 <= x < w ==> (#[trigger] b[y][x]) is Some,
    ensures
        cell_count(b) == b.len() * w,
    decreases b.len(),
{
    if b.len() > 0 {
        lemma_cell_count_saturated(b.drop_last(), w);
        lemma_row_count_saturated(b.last());
        assert((b.len() - 1) * w + w == b.len() * w) by (nonlinear_arith);
    }
}

pub proof fn lemma_row_count_saturated(r: Seq<Option<Shape>>)
    requires
        forall|x: int| 0 <= x < r.len() ==> (#[trigger] r[x]) is Some,
    ensures
        row_count(r) == r.len(),
    decreases r.len(),
{
    if r.len() > 0 {
        lemma_row_count_saturated(r.drop_last());
    }
}


/// Every cell of the row is occupied.
pub open spec fn row_full(r: Seq<Option<Shape>>) -> bool {
    forall|x: int| 0 <= x < r.len() ==> (#[trigger] r[x]) is Some
}

/// Every cell of the row is free.
pub open spec fn row_empty(r: Seq<Option<Shape>>) -> bool {
    forall|x: int| 0 <= x < r.len() ==> (#[trigger] r[x]) is None
}

pub open spec fn empty_row() -> Seq<Option<Shape>> {
    Seq::new(WIDTH as nat, |x: int| None::<Shape>)
}

/// The board after the rows above `z` fall one step: row `z` takes row
/// `z + 1`, and so on upward, stopping early once a copied-from row is
/// entirely empty (nothing above it is left to fall). The top row is never
/// overwritten.
pub open spec fn fall_spec(b: BoardV, z: int) -> BoardV
    decreases HEIGHT - z,
{
    if z < 0 || z >= HEIGHT - 1 {
        b
    } else {
        let src = b[z + 1];
        let b2 = b.update(z, src);
        if row_empty(src) {
            b2
        } else {
            fall_spec(b2, z + 1)
        }
    }
}

/// The line-clear pass, scanning from row `y` upward: a full row is removed
/// by letting the rows above fall into it and the same index is examined
/// again. Each removed row consumes one unit of `fuel`; the pass stops when
/// the fuel is gone, which a board reachable in play never exhausts.
pub open spec fn clear_upto(b: BoardV, y: int, fuel: nat) -> (BoardV, nat)
    decreases fuel, HEIGHT - y,
{
    if !(0 <= y < HEIGHT) {
        (b, 0)
    } else if !row_full(b[y]) {
        clear_upto(b, y + 1, fuel)
    } else if fuel == 0 {
        (b, 0)
    } else {
        let r = clear_upto(fall_spec(b, y), y, (fuel - 1) as nat);
        (r.0, r.1 + 1)
    }
}

/// The fall step keeps the board's shape: the row count, the top row, and
/// every row below `z` are unchanged, and the row widths are kept.
pub proof fn lemma_fall_frame(b: BoardV, z: int)
    requires
        0 <= z,
        board_wf(b),
    ensures
        board_wf(fall_spec(b, z)),
        fall_spec(b, z)[HEIGHT - 1] == b[HEIGHT - 1],
        forall|i: int| 0 <= i < z ==> #[trigger] fall_spec(b, z)[i] == b[i],
    decreases HEIGHT - z,
{
    if z >= HEIGHT - 1 {
    } else {
        let src = b[z + 1];
        let b2 = b.update(z, src);
        if row_empty(src) {
        } else {
            lemma_fall_frame(b2, z + 1);
        }
    }
}


pub proof fn lemma_clear_upto_wf(b: BoardV, y: int, fuel: nat)
    requires
        board_wf(b),
    ensures
        board_wf(clear_upto(b, y, fuel).0),
    decreases fuel, HEIGHT - y,
{
    if !(0 <= y < HEIGHT) {
    } else if !row_full(b[y]) {
        lemma_clear_upto_wf(b, y + 1, fuel);
    } else if fuel == 0 {
    } else {
        lemma_fall_frame(b, y);
        lemma_clear_upto_wf(fall_spec(b, y), y, (fuel - 1) as nat);
    }
}

pub proof fn lemma_clear_upto_count(b: BoardV, y: int, fuel: nat)
    ensures
        clear_upto(b, y, fuel).1 <= fuel,
    decreases fuel, HEIGHT - y,
{
    if !(0 <= y < HEIGHT) {
    } else if !row_full(b[y]) {
        lemma_clear_upto_count(b, y + 1, fuel);
    } else if fuel == 0 {
    } else {
        lemma_clear_upto_count(fall_spec(b, y), y, (fuel - 1) as nat);
    }
}


/// No occupied row sits above an empty row, counting from row `z` up: what a
/// board reachable by locking resting pieces and clearing rows looks like.
pub open spec fn settled_from(b: BoardV, z: int) -> bool {
    forall|i: int, j: int|
        z <= i < j < b.len() ==> (row_empty(#[trigger] b[i]) ==> row_empty(#[trigger] b[j]))
}

pub open spec fn settled(b: BoardV) -> bool {
    settled_from(b, 0)
}

/// How many rows of the board are full.
pub open spec fn num_full(b: BoardV) -> nat
    decreases b.len(),
{
    if b.len() == 0 {
        0
    } else {
        num_full(b.drop_last()) + (if row_full(b.last()) {
            1nat
        } else {
            0nat
        })
    }
}

/// The rows that are not full, in order.
pub open spec fn kept_rows(b: BoardV) -> BoardV
    decreases b.len(),
{
    if b.len() == 0 {
        Seq::empty()
    } else {
        kept_rows(b.drop_last()) + (if row_full(b.last()) {
            Seq::empty()
        } else {
            seq![b.last()]
        })
    }
}

/// The board with its full rows removed: the rows above them fall down in
/// order, and freed rows at the top are empty.
pub open spec fn remove_full(b: BoardV) -> BoardV {
    kept_rows(b) + Seq::new((b.len() - kept_rows(b).len()) as nat, |i: int| empty_row())
}

/// The board with row `y` taken out, the rows above fallen by one, and an
/// empty row at the top.
pub open spec fn shift_at(b: BoardV, y: int) -> BoardV {
    Seq::new(
        b.len(),
        |i: int|
            if i < y {
                b[i]
            } else if i < b.len() - 1 {
                b[i + 1]
            } else {
                empty_row()
            },
    )
}

pub proof fn lemma_kept_rows_len(b: BoardV)
    ensures
        kept_rows(b).len() + num_full(b) == b.len(),
    decreases b.len(),
{
    if b.len() > 0 {
        lemma_kept_rows_len(b.drop_last());
    }
}

pub proof fn lemma_num_full_bound(b: BoardV)
    ensures
        num_full(b) <= b.len(),
    decreases b.len(),
{
    if b.len() > 0 {
        lemma_num_full_bound(b.drop_last());
    }
}

proof fn lemma_full_concat(a: BoardV, c: BoardV)
    ensures
        num_full(a + c) == num_full(a) + num_full(c),
        kept_rows(a + c) == kept_rows(a) + kept_rows(c),
    decreases c.len(),
{
    if c.len() == 0 {
        assert(a + c =~= a);
        assert(kept_rows(c) =~= Seq::<Seq<Option<Shape>>>::empty());
        assert(kept_rows(a) + kept_rows(c) =~= kept_rows(a));
    } else {
        lemma_full_concat(a, c.drop_last());
        assert((a + c).drop_last() =~= a + c.drop_last());
        assert((a + c).last() == c.last());
        if row_full(c.last()) {
            assert(kept_rows(a + c) =~= kept_rows(a) + kept_rows(c));
        } else {
            assert(kept_rows(a + c) =~= kept_rows(a) + kept_rows(c));
        }
    }
}

proof fn lemma_no_full_rows(b: BoardV)
    requires
        forall|r: int| 0 <= r < b.len() ==> !row_full(#[trigger] b[r]),
    ensures
        num_full(b) == 0,
        kept_rows(b) == b,
    decreases b.len(),
{
    if b.len() > 0 {
        lemma_no_full_rows(b.drop_last());
        assert(kept_rows(b) =~= b);
    }
}

/// Law: a board with no full row is left unchanged by the line-clear pass,
/// which then clears nothing.
pub proof fn lemma_clear_no_full_rows(b: BoardV, y: int, fuel: nat)
    requires
        b.len() == HEIGHT,
        forall|r: int| 0 <= r < b.len() ==> !row_full(#[trigger] b[r]),
    ensures
        clear_upto(b, y, fuel) == (b, 0nat),
    decreases HEIGHT - y,
{
    if 0 <= y < HEIGHT {
        lemma_clear_no_full_rows(b, y + 1, fuel);
    }
}


proof fn lemma_full_singleton(r: Seq<Option<Shape>>)
    ensures
        num_full(seq![r]) == (if row_full(r) {
            1nat
        } else {
            0nat
        }),
        kept_rows(seq![r]) == (if row_full(r) {
            Seq::<Seq<Option<Shape>>>::empty()
        } else {
            seq![r]
        }),
{
    let s1 = seq![r];
    assert(s1.len() == 1);
    assert(s1.last() == r);
    assert(s1.drop_last() =~= Seq::<Seq<Option<Shape>>>::empty());
    assert(num_full(Seq::<Seq<Option<Shape>>>::empty()) == 0);
    assert(kept_rows(Seq::<Seq<Option<Shape>>>::empty()) == Seq::<Seq<Option<Shape>>>::empty());
    assert(num_full(s1) == num_full(s1.drop_last()) + (if row_full(s1.last()) {
        1nat
    } else {
        0nat
    }));
    assert(kept_rows(s1) == kept_rows(s1.drop_last()) + (if row_full(s1.last()) {
        Seq::<Seq<Option<Shape>>>::empty()
    } else {
        seq![s1.last()]
    }));
    if !row_full(r) {
        assert(kept_rows(s1) =~= seq![r]);
    } else {
        assert(kept_rows(s1) =~= Seq::<Seq<Option<Shape>>>::empty());
    }
}

/// On a board that is settled from `z` up and has an empty top row, the fall
/// step from `z` is exactly the one-row shift.
proof fn lemma_fall_shift(b: BoardV, z: int)
    requires
        board_wf(b),
        0 <= z <= HEIGHT - 1,
        settled_from(b, z),
        row_empty(b[HEIGHT - 1]),
    ensures
        fall_spec(b, z) == shift_at(b, z),
    decreases HEIGHT - z,
{
    if z == HEIGHT - 1 {
        assert(b[HEIGHT - 1] =~= empty_row());
        assert(b =~~= shift_at(b, z));
    } else {
        let src = b[z + 1];
        let b2 = b.update(z, src);
        if row_empty(src) {
            assert forall|i: int| 0 <= i < HEIGHT implies b2[i] == shift_at(b, z)[i] by {
                if i > z {
                    assert(row_empty(b[i]));
                    if i < HEIGHT - 1 {
                        assert(row_empty(b[i + 1]));
                        assert(b[i] =~= b[i + 1]);
                    } else {
                        assert(b[i] =~= empty_row());
                    }
                }
            }
            assert(b2 =~~= shift_at(b, z));
        } else {
            lemma_fall_shift(b2, z + 1);
            assert(shift_at(b2, z + 1) =~~= shift_at(b, z));
        }
    }
}

/// The one-row shift at a full row `y` keeps the board settled, keeps the
/// top row empty, removes one full row, and does not change the board's
/// full-rows-removed form.
proof fn lemma_shift_full_row(b: BoardV, y: int)
    requires
        board_wf(b),
        0 <= y < HEIGHT,
        settled(b),
        row_empty(b[HEIGHT - 1]),
        row_full(b[y]),
    ensures
        board_wf(shift_at(b, y)),
        settled(shift_at(b, y)),
        row_empty(shift_at(b, y)[HEIGHT - 1]),
        num_full(shift_at(b, y)) + 1 == num_full(b),
        remove_full(shift_at(b, y)) == remove_full(b),
        forall|r: int|
            0 <= r < y && !row_full(#[trigger] b[r]) ==> !row_full(#[trigger] shift_at(b, y)[r]),
    decreases HEIGHT,
{
    let sh = shift_at(b, y);
    let pre = b.subrange(0, y);
    let post = b.subrange(y + 1, HEIGHT as int);
    assert(b =~= pre + seq![b[y]] + post);
    assert(sh =~= pre + post + seq![empty_row()]);
    lemma_full_concat(pre + seq![b[y]], post);
    lemma_full_concat(pre, seq![b[y]]);
    lemma_full_concat(pre + post, seq![empty_row()]);
    lemma_full_concat(pre, post);
    lemma_full_singleton(b[y]);
    lemma_full_singleton(empty_row());
    assert(!row_full(empty_row())) by {
        assert(empty_row()[0] is None);
    }
    assert(num_full(b) == num_full(pre) + 1 + num_full(post));
    assert(num_full(sh) == num_full(pre) + num_full(post));
    assert(kept_rows(b) == kept_rows(pre) + kept_rows(post));
    assert(kept_rows(sh) == kept_rows(pre) + kept_rows(post) + seq![empty_row()]);
    lemma_kept_rows_len(b);
    lemma_kept_rows_len(sh);
    assert(remove_full(sh) =~= remove_full(b));
    assert forall|i: int, j: int|
        0 <= i < j < HEIGHT implies (row_empty(#[trigger] sh[i]) ==> row_empty(
        #[trigger] sh[j],
    )) by {
        if row_empty(sh[i]) {
            if j == HEIGHT - 1 {
            } else if i < y {
                assert(sh[i] == b[i]);
                assert(sh[j] == b[j + 1] || sh[j] == b[j]);
            } else {
                assert(sh[i] == b[i + 1]);
                assert(sh[j] == b[j + 1]);
            }
        }
    }
    assert(row_empty(sh[HEIGHT - 1])) by {
        assert(sh[HEIGHT - 1] == empty_row());
    }
}

/// Law: on a settled board whose top row is empty, the line-clear pass
/// removes exactly the full rows and counts them: the rows above each full
/// row fall down in order and the freed rows at the top are empty.
pub proof fn lemma_clear_removes_full_rows(b: BoardV, y: int, fuel: nat)
    requires
        board_wf(b),
        settled(b),
        row_empty(b[HEIGHT - 1]),
        0 <= y <= HEIGHT,
        forall|r: int| 0 <= r < y ==> !row_full(#[trigger] b[r]),
        num_full(b) <= fuel,
    ensures
        clear_upto(b, y, fuel) == (remove_full(b), num_full(b)),
    decreases fuel, HEIGHT - y,
{
    if y == HEIGHT {
        lemma_no_full_rows(b);
        assert(remove_full(b) =~= b);
    } else if !row_full(b[y]) {
        lemma_clear_removes_full_rows(b, y + 1, fuel);
    } else {
        let pre = b.subrange(0, y);
        let post = b.subrange(y + 1, HEIGHT as int);
        assert(b =~= pre + seq![b[y]] + post);
        lemma_full_concat(pre + seq![b[y]], post);
        lemma_full_concat(pre, seq![b[y]]);
        lemma_full_singleton(b[y]);
        assert(num_full(b) >= 1);
        lemma_fall_shift(b, y);
        lemma_shift_full_row(b, y);
        lemma_clear_removes_full_rows(shift_at(b, y), y, (fuel - 1) as nat);
    }
}

/// Law: the line-clear pass of the game, on a settled board whose top row is
/// empty, clears exactly the board's full rows.
pub proof fn lemma_clear_lines_law(b: BoardV)
    requires
        board_wf(b),
        settled(b),
        row_empty(b[HEIGHT - 1]),
    ensures
        clear_upto(b, 0, (WIDTH * HEIGHT) as nat) == (remove_full(b), num_full(b)),
{
    lemma_num_full_bound(b);
    lemma_clear_removes_full_rows(b, 0, (WIDTH * HEIGHT) as nat);
}

impl Board {
    /// Writes one cell.
    fn set_cell(&mut self, y: usize, x: usize, v: Option<Shape>)
        requires
            y < HEIGHT,
            x < WIDTH,
        ensures
            final(self)@ == old(self)@.update(y as int, old(self)@[y as int].update(x as int, v)),
    {
        let mut row = self.0[y];
        row[x] = v;
        self.0[y] = row;
        proof {
            assert(self@ =~~= old(self)@.update(y as int, old(self)@[y as int].update(x as int, v)));
        }
    }

    pub fn new() -> (b: Board)
        ensures
            b@ == empty_board(),
    {
        let b = Board([[None; WIDTH]; HEIGHT]);
        proof {
            assert(b@ =~~= empty_board());
        }
        b
    }

    /// Writes every occupied cell of `m` into the board at `p`; cells that are
    /// free in the footprint are left alone.
    pub fn occupy(&mut self, m: &ShapeMat, p: &Point)
        requires
            forall|r: int, c: int|
                0 <= r < 4 && 0 <= c < 4 && mat_view(*m)[r][c] is Some ==> p.y + 3 - r < HEIGHT
                    && p.x + c < WIDTH,
        ensures
            final(self)@ == paint(old(self)@, mat_view(*m), p.x as int, p.y as int),
    {
        let ghost b0 = self@;
        let ghost mv = mat_view(*m);
        let ghost px = p.x as int;
        let ghost py = p.y as int;
        let mut y: usize = 0;
        while y < 4
            invariant
                y <= 4,
                forall|r: int, c: int|
                    0 <= r < 4 && 0 <= c < 4 && mv[r][c] is Some ==> py + 3 - r < HEIGHT && px + c
                        < WIDTH,
                mv == mat_view(*m),
                px == p.x as int,
                py == p.y as int,
                forall|by: int, bx: int|
                    0 <= by < HEIGHT && 0 <= bx < WIDTH ==> #[trigger] self@[by][bx] == (if py <= by
                        < py + y && px <= bx < px + 4 && mv[3 - (by - py)][bx - px] is Some {
                        mv[3 - (by - py)][bx - px]
                    } else {
                        b0[by][bx]
                    }),
            decreases 4 - y,
        {
            let mut x: usize = 0;
            while x < 4
                invariant
                    y < 4,
                    x <= 4,
                    forall|r: int, c: int|
                        0 <= r < 4 && 0 <= c < 4 && mv[r][c] is Some ==> py + 3 - r < HEIGHT && px
                            + c < WIDTH,
                    mv == mat_view(*m),
                    px == p.x as int,
                    py == p.y as int,
                    forall|by: int, bx: int|
                        0 <= by < HEIGHT && 0 <= bx < WIDTH ==> #[trigger] self@[by][bx] == (if (py
                            <= by < py + y && px <= bx < px + 4 && mv[3 - (by - py)][bx
                            - px] is Some) || (by == py + y && px <= bx < px + x && mv[3 - y][bx
                            - px] is Some) {
                            mv[3 - (by - py)][bx - px]
                        } else {
                            b0[by][bx]
                        }),
                decreases 4 - x,
            {
                if m[3 - y][x].is_some() {
                    proof {
                        assert(mv[3 - y as int][x as int] == m@[3 - y as int]@[x as int]);
                    }
                    self.set_cell(y + p.y, x + p.x, m[3 - y][x]);
                }
                x += 1;
            }
            y += 1;
        }
        proof {
            assert(self@ =~~= paint(b0, mv, px, py));
        }
    }

    /// Clears every board cell that an occupied cell of `m` covers at `p`.
    pub fn vacate(&mut self, m: &ShapeMat, p: &Point)
        requires
            forall|r: int, c: int|
                0 <= r < 4 && 0 <= c < 4 && mat_view(*m)[r][c] is Some ==> p.y + 3 - r < HEIGHT
                    && p.x + c < WIDTH,
        ensures
            final(self)@ == erase(old(self)@, mat_view(*m), p.x as int, p.y as int),
    {
        let ghost b0 = self@;
        let ghost mv = mat_view(*m);
        let ghost px = p.x as int;
        let ghost py = p.y as int;
        let mut y: usize = 0;
        while y < 4
            invariant
                y <= 4,
                forall|r: int, c: int|
                    0 <= r < 4 && 0 <= c < 4 && mv[r][c] is Some ==> py + 3 - r < HEIGHT && px + c
                        < WIDTH,
                mv == mat_view(*m),
                px == p.x as int,
                py == p.y as int,
                forall|by: int, bx: int|
                    0 <= by < HEIGHT && 0 <= bx < WIDTH ==> #[trigger] self@[by][bx] == (if py <= by
                        < py + y && px <= bx < px + 4 && mv[3 - (by - py)][bx - px] is Some {
                        None::<Shape>
                    } else {
                        b0[by][bx]
                    }),
            decreases 4 - y,
        {
            let mut x: usize = 0;
            while x < 4
                invariant
                    y < 4,
                    x <= 4,
                    forall|r: int, c: int|
                        0 <= r < 4 && 0 <= c < 4 && mv[r][c] is Some ==> py + 3 - r < HEIGHT && px
                            + c < WIDTH,
                    mv == mat_view(*m),
                    px == p.x as int,
                    py == p.y as int,
                    forall|by: int, bx: int|
                        0 <= by < HEIGHT && 0 <= bx < WIDTH ==> #[trigger] self@[by][bx] == (if (py
                            <= by < py + y && px <= bx < px + 4 && mv[3 - (by - py)][bx
                            - px] is Some) || (by == py + y && px <= bx < px + x && mv[3 - y][bx
                            - px] is Some) {
                            None::<Shape>
                        } else {
                            b0[by][bx]
                        }),
                decreases 4 - x,
            {
                if m[3 - y][x].is_some() && self.0[y + p.y][x + p.x].is_some() {
                    proof {
                        assert(mv[3 - y as int][x as int] == m@[3 - y as int]@[x as int]);
                    }
                    self.set_cell(y + p.y, x + p.x, None);
                }
                x += 1;
            }
            y += 1;
        }
        proof {
            assert(self@ =~~= erase(b0, mv, px, py));
        }
    }

    /// Clears every cell of the board.
    pub fn reset(&mut self)
        ensures
            final(self)@ == empty_board(),
    {
        let mut y: usize = 0;
        while y < HEIGHT
            invariant
                y <= HEIGHT,
                forall|by: int, bx: int|
                    0 <= by < y && 0 <= bx < WIDTH ==> #[trigger] self@[by][bx] is None,
            decreases HEIGHT - y,
        {
            let mut x: usize = 0;
            while x < WIDTH
                invariant
                    y < HEIGHT,
                    x <= WIDTH,
                    forall|by: int, bx: int|
                        0 <= by < y && 0 <= bx < WIDTH ==> #[trigger] self@[by][bx] is None,
                    forall|bx: int| 0 <= bx < x ==> #[trigger] self@[y as int][bx] is None,
                decreases WIDTH - x,
            {
                self.set_cell(y, x, None);
                x += 1;
            }
            y += 1;
        }
        proof {
            assert(self@ =~~= empty_board());
        }
    }

    /// Loads a rectangular layout whose rows are ordered top to bottom at a
    /// vertical offset; with `overwrite` the layout replaces destination
    /// cells, without it only free destination cells are filled.
    pub fn setup(&mut self, config: Vec<Vec<Option<Shape>>>, position: Point, overwrite: bool)
        requires
            config@.len() + position.y <= HEIGHT,
            forall|i: int|
                0 <= i < config@.len() ==> (#[trigger] config@[i])@.len() + position.x <= WIDTH,
        ensures
            final(self)@ == load(
                old(self)@,
                rows_view(config@),
                position.x as int,
                position.y as int,
                overwrite,
            ),
    {
        let ghost b0 = self@;
        let ghost cfg = rows_view(config@);
        let ghost px = position.x as int;
        let ghost py = position.y as int;
        let config_height = config.len();
        let mut y: usize = 0;
        while y < config_height
            invariant
                y <= config_height,
                config_height == config@.len(),
                cfg == rows_view(config@),
                cfg.len() + py <= HEIGHT,
                forall|i: int| 0 <= i < cfg.len() ==> (#[trigger] cfg[i]).len() + px <= WIDTH,
                px == position.x as int,
                py == position.y as int,
                b0.len() == HEIGHT,
                forall|i: int| 0 <= i < HEIGHT ==> (#[trigger] b0[i]).len() == WIDTH,
                self@.len() == HEIGHT,
                forall|by: int, bx: int|
                    0 <= by < HEIGHT && 0 <= bx < WIDTH ==> #[trigger] self@[by][bx]
                        == load_cell_done(b0, cfg, px, py, overwrite, by, bx, y as int, 0),
            decreases config_height - y,
        {
            let mut x: usize = 0;
            let row_len = config[y].len();
            while x < row_len
                invariant
                    y < config_height,
                    x <= row_len,
                    row_len == config@[y as int]@.len(),
                    config_height == config@.len(),
                    cfg == rows_view(config@),
                    cfg.len() + py <= HEIGHT,
                    forall|i: int| 0 <= i < cfg.len() ==> (#[trigger] cfg[i]).len() + px <= WIDTH,
                    px == position.x as int,
                    py == position.y as int,
                    b0.len() == HEIGHT,
                    forall|i: int| 0 <= i < HEIGHT ==> (#[trigger] b0[i]).len() == WIDTH,
                    self@.len() == HEIGHT,
                    forall|by: int, bx: int|
                        0 <= by < HEIGHT && 0 <= bx < WIDTH ==> #[trigger] self@[by][bx]
                            == load_cell_done(b0, cfg, px, py, overwrite, by, bx, y as int, x as int),
                decreases row_len - x,
            {
                let by = config_height - y + position.y - 1;
                let bx = x + position.x;
                proof {
                    assert(cfg[y as int] == config@[y as int]@);
                }
                let cell = config[y][x];
                if overwrite {
                    self.set_cell(by, bx, cell);
                } else {
                    if self.0[by][bx].is_none() {
                        self.set_cell(by, bx, cell);
                    }
                }
                proof {
                    assert(self@[by as int][bx as int] == load_cell_done(
                        b0, cfg, px, py, overwrite, by as int, bx as int, y as int, x + 1));
                    assert forall|r2: int, c2: int|
                        0 <= r2 < HEIGHT && 0 <= c2 < WIDTH implies #[trigger] self@[r2][c2]
                            == load_cell_done(b0, cfg, px, py, overwrite, r2, c2, y as int, x + 1) by {
                    }
                }
                x += 1;
            }
            proof {
                assert forall|r2: int, c2: int|
                    0 <= r2 < HEIGHT && 0 <= c2 < WIDTH implies #[trigger] self@[r2][c2]
                        == load_cell_done(b0, cfg, px, py, overwrite, r2, c2, y + 1, 0) by {
                }
            }
            y += 1;
        }
        proof {
            assert(self@ =~~= load(b0, cfg, px, py, overwrite));
        }
    }

    /// Fills `amt` uniformly chosen free cells with random kinds.
    pub fn trash(&mut self, amt: u8)
        requires
            cell_count(old(self)@) + amt <= WIDTH * HEIGHT,
        ensures
            cell_count(final(self)@) == cell_count(old(self)@) + amt,
            forall|y: int, x: int|
                0 <= y < HEIGHT && 0 <= x < WIDTH && old(self)@[y][x] is Some
                    ==> final(self)@[y][x] == old(self)@[y][x],
    {
        let ghost b0 = self@;
        let mut i: u8 = 0;
        while i < amt
            invariant
                i <= amt,
                cell_count(b0) + amt <= WIDTH * HEIGHT,
                cell_count(self@) == cell_count(b0) + i,
                forall|y: int, x: int|
                    0 <= y < HEIGHT && 0 <= x < WIDTH && b0[y][x] is Some ==> #[trigger] self@[y][x]
                        == b0[y][x],
            decreases amt - i,
        {
            let (cx, cy) = self.pick_empty_cell();
            let kind = Shape::random();
            let ghost prev = self@;
            self.set_cell(cy, cx, Some(kind));
            proof {
                lemma_row_count_update(prev[cy as int], cx as int, Some(kind));
                lemma_cell_count_update(prev, cy as int, prev[cy as int].update(cx as int, Some(kind)));
            }
            i += 1;
        }
    }

    /// Picks one of the board's free cells uniformly at random.
    fn pick_empty_cell(&self) -> (p: (usize, usize))
        requires
            cell_count(self@) < WIDTH * HEIGHT,
        ensures
            p.0 < WIDTH,
            p.1 < HEIGHT,
            self@[p.1 as int][p.0 as int] is None,
    {
        let mut empties: Vec<(usize, usize)> = Vec::new();
        let mut y: usize = 0;
        while y < HEIGHT
            invariant
                y <= HEIGHT,
                forall|k: int|
                    0 <= k < empties@.len() ==> {
                        let e = #[trigger] empties@[k];
                        e.0 < WIDTH && e.1 < HEIGHT && self@[e.1 as int][e.0 as int] is None
                    },
                forall|by: int, bx: int|
                    0 <= by < y && 0 <= bx < WIDTH && #[trigger] self@[by][bx] is None
                        ==> empties@.contains((bx as usize, by as usize)),
            decreases HEIGHT - y,
        {
            let mut x: usize = 0;
            while x < WIDTH
                invariant
                    y < HEIGHT,
                    x <= WIDTH,
                    forall|k: int|
                        0 <= k < empties@.len() ==> {
                            let e = #[trigger] empties@[k];
                            e.0 < WIDTH && e.1 < HEIGHT && self@[e.1 as int][e.0 as int] is None
                        },
                    forall|by: int, bx: int|
                        0 <= by < y && 0 <= bx < WIDTH && #[trigger] self@[by][bx] is None
                            ==> empties@.contains((bx as usize, by as usize)),
                    forall|bx: int|
                        0 <= bx < x && #[trigger] self@[y as int][bx] is None ==> empties@.contains(
                            (bx as usize, y),
                        ),
                decreases WIDTH - x,
            {
                if self.0[y][x].is_none() {
                    let ghost prev = empties@;
                    empties.push((x, y));
                    proof {
                        assert(empties@ == prev.push((x, y)));
                        assert(empties@[prev.len() as int] == (x, y));
                        assert forall|v: (usize, usize)| prev.contains(v) implies empties@.contains(
                            v,
                        ) by {
                            let k = choose|k: int| 0 <= k < prev.len() && prev[k] == v;
                            assert(empties@[k] == v);
                        }
                    }
                }
                x += 1;
            }
            y += 1;
        }
        proof {
            if empties@.len() == 0 {
                assert forall|by: int, bx: int|
                    0 <= by < HEIGHT && 0 <= bx < WIDTH implies (#[trigger] self@[by][bx]) is Some by {
                    if self@[by][bx] is None {
                        assert(empties@.contains((bx as usize, by as usize)));
                    }
                }
                lemma_cell_count_saturated(self@, WIDTH as int);
                assert(false);
            }
        }
        let k = crate::shape::rand_below(empties.len());
        empties[k]
    }

    /// Writes one whole row.
    fn set_row(&mut self, y: usize, row: [Option<Shape>; WIDTH])
        requires
            y < HEIGHT,
        ensures
            final(self)@ == old(self)@.update(y as int, row@),
    {
        self.0[y] = row;
        proof {
            assert(self@ =~~= old(self)@.update(y as int, row@));
        }
    }

    /// Whether every cell of row `y` is occupied.
    pub(crate) fn row_full_at(&self, y: usize) -> (r: bool)
        requires
            y < HEIGHT,
        ensures
            r == row_full(self@[y as int]),
    {
        let mut x: usize = 0;
        while x < WIDTH
            invariant
                y < HEIGHT,
                x <= WIDTH,
                forall|k: int| 0 <= k < x ==> (#[trigger] self@[y as int][k]) is Some,
            decreases WIDTH - x,
        {
            if self.0[y][x].is_none() {
                return false;
            }
            x += 1;
        }
        true
    }

    /// Whether every cell of row `y` is free.
    fn row_empty_at(&self, y: usize) -> (r: bool)
        requires
            y < HEIGHT,
        ensures
            r == row_empty(self@[y as int]),
    {
        let mut x: usize = 0;
        while x < WIDTH
            invariant
                y < HEIGHT,
                x <= WIDTH,
                forall|k: int| 0 <= k < x ==> (#[trigger] self@[y as int][k]) is None,
            decreases WIDTH - x,
        {
            if self.0[y][x].is_some() {
                return false;
            }
            x += 1;
        }
        true
    }

    /// Lets the rows above `y` fall one step into it, stopping early at an
    /// empty copied-from row.
    pub(crate) fn collapse_from(&mut self, y: usize)
        requires
            y < HEIGHT,
        ensures
            final(self)@ == fall_spec(old(self)@, y as int),
    {
        let ghost b0 = self@;
        let mut z: usize = y;
        let mut done = false;
        while z < HEIGHT - 1 && !done
            invariant
                y <= z <= HEIGHT - 1,
                fall_spec(b0, y as int) == (if done {
                    self@
                } else {
                    fall_spec(self@, z as int)
                }),
            decreases HEIGHT - z, (if done {
                0int
            } else {
                1int
            }),
        {
            let src = self.0[z + 1];
            self.set_row(z, src);
            if self.row_empty_at(z) {
                done = true;
            } else {
                z += 1;
            }
        }
    }
}

} // verus!
