use vstd::prelude::*;

pub mod board;
pub mod event;
pub mod shape;
pub mod shape_state;

use std::collections::VecDeque;

use board::{
    board_wf, clear_upto, empty_board, erase, lemma_clear_upto_count, lemma_clear_upto_wf,
    mat_view, paint, Board, BoardV, MatV,
};
use event::{Input, Output, OutputV};
use shape::{lemma_footprint_matches_width, occ, width_spec, Orientation, Point, Shape};
use shape_state::{
    collides, down_spec, drop_row, left_spec, lemma_drop_row_bound, lemma_kick_lands_clear,
    right_spec, rotate_spec, spawn_piece, turned, Direction, ShapeState,
};

verus! {

pub const WIDTH: usize = 10;
pub const HEIGHT: usize = 25;

#[derive(Debug, PartialEq, Eq, Structural, Copy, Clone)]
pub enum GameState {
    New,
    Playing,
    Over,
}

/// One game: the orchestrator that turns inputs into board mutations and
/// emitted events. Events accumulate in `events` until they are taken.
pub struct Game {
    pub score: u32,
    pub shape_controller: ShapeState,
    pub next_shape: Shape,
    pub hold_shape: Option<Shape>,
    pub state: GameState,
    pub board: Board,
    pub double_down: bool,
    pub down_ready: bool,
    pub input_buffer: VecDeque<Input>,
    pub events: Vec<Output>,
    pub hold_allowed: bool,
    pub did_hold: bool,
}

/// The game with board and queues abstracted: the model the contracts use.
pub ghost struct GameV {
    pub score: u32,
    pub piece: ShapeState,
    pub next_shape: Shape,
    pub hold_shape: Option<Shape>,
    pub state: GameState,
    pub board: BoardV,
    pub double_down: bool,
    pub down_ready: bool,
    pub buf: Seq<Input>,
    pub events: Seq<OutputV>,
    pub hold_allowed: bool,
    pub did_hold: bool,
}

impl View for Game {
    type V = GameV;

    open spec fn view(&self) -> GameV {
        GameV {
            score: self.score,
            piece: self.shape_controller,
            next_shape: self.next_shape,
            hold_shape: self.hold_shape,
            state: self.state,
            board: self.board@,
            double_down: self.double_down,
            down_ready: self.down_ready,
            buf: self.input_buffer@,
            events: self.events@.map_values(|o: Output| o@),
            hold_allowed: self.hold_allowed,
            did_hold: self.did_hold,
        }
    }
}

/// The rolling input history: newest first, at most three entries.
pub open spec fn buf_push(buf: Seq<Input>, i: Input) -> Seq<Input> {
    let b2 = seq![i] + buf;
    if b2.len() > 3 {
        b2.drop_last()
    } else {
        b2
    }
}

/// The footprint of a piece as a matrix of cells.
pub open spec fn piece_mat(p: ShapeState) -> MatV {
    Seq::new(
        4,
        |r: int|
            Seq::new(
                4,
                |c: int|
                    if occ(p.shape, p.orientation, r, c) {
                        Some(p.shape)
                    } else {
                        None
                    },
            ),
    )
}

/// The board with the piece's footprint painted in at its position.
pub open spec fn paint_piece(b: BoardV, p: ShapeState) -> BoardV {
    paint(b, piece_mat(p), p.position.x as int, p.position.y as int)
}

/// The board with the piece's footprint erased at its position.
pub open spec fn erase_piece(b: BoardV, p: ShapeState) -> BoardV {
    erase(b, piece_mat(p), p.position.x as int, p.position.y as int)
}

/// The piece is resting: at the floor, or colliding one row further down.
pub open spec fn resting(b: BoardV, p: ShapeState) -> bool {
    p.position.y == 0 || collides(
        b,
        p.shape,
        p.orientation,
        p.position.x as int,
        p.position.y - 1,
    )
}

/// The game is lost: the piece comes to rest while still in the spawn area.
pub open spec fn spawn_blocked(b: BoardV, p: ShapeState) -> bool {
    p.position.y >= 20 && collides(
        b,
        p.shape,
        p.orientation,
        p.position.x as int,
        p.position.y - 1,
    )
}

/// The piece stays on the board: horizontally by its width, vertically with
/// room for its four footprint rows.
pub open spec fn piece_in_bounds(p: ShapeState) -> bool {
    p.position.x + width_spec(p.shape, p.orientation) <= WIDTH && p.position.y + 4 <= HEIGHT
}

pub open spec fn wf(g: GameV) -> bool {
    piece_in_bounds(g.piece) && board_wf(g.board)
}

/// The piece after a hard drop.
pub open spec fn drop_piece(b: BoardV, p: ShapeState) -> ShapeState {
    ShapeState {
        position: Point {
            x: p.position.x,
            y: drop_row(b, p.shape, p.orientation, p.position.x as int, p.position.y as int) as usize,
        },
        ..p
    }
}

/// The input dispatch: what one input does to the game before the lock-check
/// cycle. `d0` is the kind drawn when holding with nothing held.
#[verifier::opaque]
pub open spec fn action_spec(g: GameV, i: Input, d0: Shape) -> GameV {
    let g0 = GameV { double_down: false, ..g };
    match i {
        Input::Left => {
            let r = left_spec(g.board, g.piece);
            GameV {
                piece: r.0,
                events: if r.1 {
                    g.events.push(OutputV::MovedShape)
                } else {
                    g.events
                },
                ..g0
            }
        },
        Input::Right => {
            let r = right_spec(g.board, g.piece);
            GameV {
                piece: r.0,
                events: if r.1 {
                    g.events.push(OutputV::MovedShape)
                } else {
                    g.events
                },
                ..g0
            }
        },
        Input::Drop => GameV { piece: drop_piece(g.board, g.piece), ..g0 },
        Input::Down => GameV { double_down: true, ..g },
        Input::Hold => {
            if g.hold_allowed {
                match g.hold_shape {
                    Some(held) => GameV {
                        hold_shape: Some(g.piece.shape),
                        piece: spawn_piece(held),
                        hold_allowed: false,
                        did_hold: true,
                        events: g.events.push(OutputV::HeldShape(g.piece.shape)),
                        ..g0
                    },
                    None => GameV {
                        hold_shape: Some(g.piece.shape),
                        piece: spawn_piece(g.next_shape),
                        next_shape: d0,
                        hold_allowed: false,
                        did_hold: true,
                        events: g.events.push(OutputV::NextShape(d0)).push(
                            OutputV::HeldShape(g.piece.shape),
                        ),
                        ..g0
                    },
                }
            } else {
                g0
            }
        },
        Input::Cw => GameV { piece: rotate_spec(g.board, g.piece, Direction::Cw), ..g0 },
        Input::Ccw => GameV { piece: rotate_spec(g.board, g.piece, Direction::Ccw), ..g0 },
        Input::TickGame => GameV { down_ready: true, ..g0 },
        _ => g0,
    }
}

/// A resting piece locks when the triggering input was a drop, or when
/// gravity was due and the two newest history entries are both ticks.
pub open spec fn lock_due(g: GameV) -> bool {
    g.buf[0] == Input::Drop || (g.down_ready && g.buf.len() > 1 && g.buf[0] == Input::TickGame
        && g.buf[1] == Input::TickGame)
}

/// The line-clear pass over the game: board cleared, score raised by the
/// cleared-row count, score and line events only when any row cleared.
pub open spec fn clear_lines_spec(g: GameV) -> GameV {
    let r = clear_upto(g.board, 0, (WIDTH * HEIGHT) as nat);
    let score2 = (g.score + r.1) as u32;
    GameV {
        board: r.0,
        score: score2,
        events: if r.1 > 0 {
            g.events.push(OutputV::ScoreUpdate(score2)).push(
                OutputV::LineCompleted(r.1 as u8, r.0),
            )
        } else {
            g.events
        },
        ..g
    }
}

/// One lock-check cycle: a resting piece is painted and possibly locked,
/// with game over when it rests in the spawn area; otherwise gravity is
/// applied if due and the piece repainted. `d` is the kind drawn when the
/// piece locks.
#[verifier::opaque]
pub open spec fn cycle_spec(g: GameV, from_o: Orientation, from_p: Point, d: Shape) -> GameV {
    let p = g.piece;
    if resting(g.board, p) {
        let to_p = p.position;
        let g1 = if spawn_blocked(g.board, p) {
            GameV { state: GameState::Over, events: g.events.push(OutputV::GameOver), ..g }
        } else {
            g
        };
        let b2 = paint_piece(g1.board, p);
        let g2 = GameV {
            board: b2,
            events: g1.events.push(
                OutputV::ShapePosition(p.shape, Some(from_o), p.orientation, Some(from_p), to_p),
            ),
            ..g1
        };
        if lock_due(g2) {
            let g3 = GameV {
                events: g2.events.push(OutputV::ShapeLocked(p.shape, b2)),
                hold_allowed: true,
                ..g2
            };
            let newp = spawn_piece(g3.next_shape);
            let g4 = GameV {
                piece: newp,
                next_shape: d,
                events: g3.events.push(OutputV::NextShape(d)).push(
                    OutputV::ShapePosition(newp.shape, None, newp.orientation, None, newp.position),
                ),
                ..g3
            };
            clear_lines_spec(g4)
        } else {
            g2
        }
    } else {
        let g1 = if g.down_ready {
            let r = down_spec(p);
            GameV {
                piece: r.0,
                down_ready: false,
                events: if r.1 {
                    g.events.push(OutputV::MovedShape)
                } else {
                    g.events
                },
                ..g
            }
        } else {
            g
        };
        let p2 = g1.piece;
        let to_p = p2.position;
        let g2 = if g1.did_hold {
            GameV {
                did_hold: false,
                events: g1.events.push(
                    OutputV::ShapePosition(p2.shape, None, p2.orientation, None, to_p),
                ),
                ..g1
            }
        } else {
            GameV {
                events: g1.events.push(
                    OutputV::ShapePosition(
                        p2.shape,
                        Some(from_o),
                        p2.orientation,
                        Some(from_p),
                        to_p,
                    ),
                ),
                ..g1
            }
        };
        GameV { board: paint_piece(g2.board, p2), ..g2 }
    }
}

/// One full input step: the input joins the history; while playing, the
/// piece is erased, the input dispatched, the lock-check cycle run once or
/// twice, and a board snapshot emitted. `d0`, `d1`, `d2` are the kinds drawn
/// by the hold swap and by each locking cycle; they matter only on the paths
/// that draw.
pub open spec fn next_spec(g: GameV, i: Input, d0: Shape, d1: Shape, d2: Shape) -> GameV {
    let gb = GameV { buf: buf_push(g.buf, i), ..g };
    if !(gb.state is Playing) {
        gb
    } else {
        let from_o = gb.piece.orientation;
        let from_p = gb.piece.position;
        let gv = GameV { board: erase_piece(gb.board, gb.piece), ..gb };
        let ga = action_spec(gv, i, d0);
        let g1 = cycle_spec(ga, from_o, from_p, d1);
        let g2 = if ga.double_down {
            cycle_spec(g1, from_o, from_p, d2)
        } else {
            g1
        };
        GameV { events: g2.events.push(OutputV::BoardUpdate(g2.board)), ..g2 }
    }
}


impl Game {
    pub fn new() -> (g: Game)
        ensures
            g.score == 0,
            g.state is New,
            g.hold_shape is None,
            g@.board == empty_board(),
            g.shape_controller == spawn_piece(g.shape_controller.shape),
            g@.buf.len() == 0,
            g@.events.len() == 0,
            !g.double_down,
            !g.down_ready,
            g.hold_allowed,
            !g.did_hold,
            wf(g@),
    {
        let g = Game {
            score: 0,
            shape_controller: ShapeState::new(),
            next_shape: Shape::random(),
            hold_shape: None,
            state: GameState::New,
            board: Board::new(),
            double_down: false,
            down_ready: false,
            input_buffer: VecDeque::new(),
            events: Vec::new(),
            hold_allowed: true,
            did_hold: false,
        };
        proof {
            assert(g@.events =~= Seq::<OutputV>::empty());
        }
        g
    }

    /// Appends one event to the queue.
    fn emit(&mut self, e: Output)
        ensures
            final(self)@ == (GameV { events: old(self)@.events.push(e@), ..old(self)@ }),
    {
        self.events.push(e);
        proof {
            assert(self.events@.map_values(|o: Output| o@) =~= old(self).events@.map_values(
                |o: Output| o@,
            ).push(e@));
        }
    }

    /// Hands out the events emitted so far and empties the queue.
    pub fn take_events(&mut self) -> (evs: Vec<Output>)
        ensures
            evs@.map_values(|o: Output| o@) == old(self)@.events,
            final(self)@ == (GameV { events: Seq::<OutputV>::empty(), ..old(self)@ }),
    {
        let mut evs: Vec<Output> = Vec::new();
        let n = self.events.len();
        let mut k: usize = 0;
        while k < n
            invariant
                k <= n,
                n == self.events@.len(),
                evs@ =~= self.events@.take(k as int),
            decreases n - k,
        {
            evs.push(self.events[k]);
            k += 1;
        }
        proof {
            assert(evs@ =~= self.events@);
        }
        self.events = Vec::new();
        proof {
            assert(self@.events =~= Seq::<OutputV>::empty());
        }
        evs
    }

    pub fn shape_controller(&mut self) -> (c: &mut ShapeState)
        ensures
            *c == old(self).shape_controller,
            final(self)@ == (GameV { piece: *final(c), ..old(self)@ }),
    {
        &mut self.shape_controller
    }

    pub fn get_shape_controller(&self) -> (c: &ShapeState)
        ensures
            *c == self.shape_controller,
    {
        &self.shape_controller
    }

    /// Whether the piece at `p` would collide one row further down; the
    /// orientation is the falling piece's.
    fn check_collision(&self, s: &Shape, p: &Point) -> (r: bool)
        requires
            1 <= p.y,
            p.y + 3 <= HEIGHT,
        ensures
            r == collides(
                self.board@,
                *s,
                self.shape_controller.orientation,
                p.x as int,
                p.y - 1,
            ),
    {
        let probe = ShapeState {
            orientation: self.get_shape_controller().orientation(),
            position: Point { x: p.x, y: p.y - 1 },
            shape: *s,
        };
        probe.shape_collide(&self.board)
    }

    /// Whether the falling piece is resting: at the floor, or colliding one
    /// row further down.
    pub fn shape_collides(&self) -> (r: bool)
        requires
            self.shape_controller.position.y + 3 <= HEIGHT,
        ensures
            r == resting(self.board@, self.shape_controller),
    {
        let s = self.get_shape_controller().shape();
        let p = *self.get_shape_controller().position();
        if p.y == 0 {
            return true;
        }
        self.check_collision(&s, &p)
    }

    /// Whether the piece has come to rest in the spawn area, which loses the
    /// game.
    pub fn check_game_over(&self) -> (r: bool)
        requires
            self.shape_controller.position.y + 3 <= HEIGHT,
        ensures
            r == spawn_blocked(self.board@, self.shape_controller),
    {
        let s = self.get_shape_controller().shape();
        let p = *self.get_shape_controller().position();
        p.y >= 20 && self.check_collision(&s, &p)
    }

    /// Rotates the falling piece with the wall-kick search and reports the
    /// resulting orientation.
    pub fn rotate(&mut self, direction: Direction)
        requires
            old(self).shape_controller.position.y + 4 <= HEIGHT,
        ensures
            ({
                let p2 = rotate_spec(old(self)@.board, old(self)@.piece, direction);
                final(self)@ == (GameV {
                    piece: p2,
                    events: old(self)@.events.push(OutputV::RotatedShape(p2.orientation)),
                    ..old(self)@
                })
            }),
    {
        self.shape_controller.rotate(direction, &self.board);
        let o = self.shape_controller.orientation();
        self.emit(Output::RotatedShape(o));
    }

    pub fn start(&mut self)
        ensures
            final(self)@ == (GameV {
                state: GameState::Playing,
                events: old(self)@.events.push(OutputV::GameStarted).push(
                    OutputV::NextShape(old(self).next_shape),
                ),
                ..old(self)@
            }),
    {
        self.state = GameState::Playing;
        self.emit(Output::GameStarted);
        self.emit(Output::NextShape(self.next_shape));
    }

    pub fn quit(&mut self)
        ensures
            final(self)@ == (GameV {
                state: GameState::Over,
                events: old(self)@.events.push(OutputV::GameOver),
                ..old(self)@
            }),
    {
        self.state = GameState::Over;
        self.emit(Output::GameOver);
    }
}


impl Game {
    /// Scans the board bottom-up and removes every full row, re-examining an
    /// index after the rows above fall into it; the score rises by the number
    /// of cleared rows, and score and line events are emitted only when that
    /// number is positive.
    #[verifier::loop_isolation(false)]
    pub fn clear_lines(&mut self)
        requires
            old(self).score + WIDTH * HEIGHT <= u32::MAX,
        ensures
            final(self)@ == clear_lines_spec(old(self)@),
    {
        let ghost g0 = self@;
        let mut clear_count: u8 = 0;
        let mut fuel: usize = WIDTH * HEIGHT;
        let mut y: usize = 0;
        while y < HEIGHT
            invariant
                y <= HEIGHT,
                fuel + clear_count == WIDTH * HEIGHT,
                (GameV { board: self.board@, ..g0 }) == self@,
                clear_upto(g0.board, 0, (WIDTH * HEIGHT) as nat).0 == clear_upto(
                    self.board@,
                    y as int,
                    fuel as nat,
                ).0,
                clear_upto(g0.board, 0, (WIDTH * HEIGHT) as nat).1 == clear_count + clear_upto(
                    self.board@,
                    y as int,
                    fuel as nat,
                ).1,
            decreases fuel, HEIGHT - y,
        {
            if self.board.row_full_at(y) {
                if fuel == 0 {
                    break ;
                }
                self.board.collapse_from(y);
                clear_count = clear_count + 1;
                fuel = fuel - 1;
            } else {
                y += 1;
            }
        }
        proof {
            assert(clear_upto(self.board@, y as int, fuel as nat) == (self.board@, 0nat));
            assert(clear_upto(g0.board, 0, (WIDTH * HEIGHT) as nat).0 == self.board@);
            assert(clear_upto(g0.board, 0, (WIDTH * HEIGHT) as nat).1 == clear_count as nat);
        }
        self.score = self.score + clear_count as u32;
        if clear_count != 0 {
            self.emit(Output::ScoreUpdate(self.score));
            self.emit(Output::LineCompleted(clear_count, self.board));
        }
        proof {
            assert(self@ == clear_lines_spec(g0));
        }
    }
}


impl Game {
    /// Dispatches one input to the falling piece and the hold slot; reports
    /// the kind drawn when a hold swap drew one, and any kind otherwise.
    #[verifier::rlimit(60)]
    fn action(&mut self, i: Input) -> (d0: Shape)
        requires
            wf(old(self)@),
        ensures
            final(self)@ == action_spec(old(self)@, i, d0),
            wf(final(self)@),
            final(self).score == old(self).score,
            final(self)@.buf == old(self)@.buf,
            final(self)@.state == old(self)@.state,
    {
        let ghost g0 = self@;
        let mut d0 = self.next_shape;
        self.double_down = false;
        match i {
            Input::Left => {
                let moved = self.shape_controller.left(&self.board);
                if moved {
                    self.emit(Output::MovedShape);
                }
            },
            Input::Right => {
                let moved = self.shape_controller.right(&self.board);
                if moved {
                    self.emit(Output::MovedShape);
                }
            },
            Input::Drop => {
                self.shape_controller.drop(&self.board);
                proof {
                    lemma_drop_row_bound(
                        g0.board,
                        g0.piece.shape,
                        g0.piece.orientation,
                        g0.piece.position.x as int,
                        g0.piece.position.y as int,
                    );
                }
            },
            Input::Down => {
                self.double_down = true;
            },
            Input::Hold => {
                if self.hold_allowed {
                    let cur = self.shape_controller.shape();
                    match self.hold_shape {
                        Some(held) => {
                            self.hold_shape = Some(cur);
                            self.shape_controller = ShapeState::new_from_shape(held);
                        },
                        None => {
                            self.hold_shape = Some(cur);
                            self.shape_controller = ShapeState::new_from_shape(self.next_shape);
                            let ns = Shape::random();
                            self.next_shape = ns;
                            d0 = ns;
                            self.emit(Output::NextShape(ns));
                        },
                    }
                    self.emit(Output::HeldShape(cur));
                    self.hold_allowed = false;
                    self.did_hold = true;
                }
            },
            Input::Cw => {
                self.shape_controller.rotate(Direction::Cw, &self.board);
                proof {
                    lemma_kick_lands_clear(
                        g0.board,
                        g0.piece.shape,
                        turned(g0.piece.orientation, Direction::Cw),
                        g0.piece.position.x as int,
                        g0.piece.position.y as int,
                    );
                }
            },
            Input::Ccw => {
                self.shape_controller.rotate(Direction::Ccw, &self.board);
                proof {
                    lemma_kick_lands_clear(
                        g0.board,
                        g0.piece.shape,
                        turned(g0.piece.orientation, Direction::Ccw),
                        g0.piece.position.x as int,
                        g0.piece.position.y as int,
                    );
                }
            },
            Input::TickGame => {
                self.down_ready = true;
            },
            _ => {},
        }
        proof {
            reveal(action_spec);
            assert(self@ == action_spec(g0, i, d0));
        }
        d0
    }
}


impl Game {
    /// One lock-check cycle: a resting piece is painted and possibly locked;
    /// otherwise gravity is applied if due and the piece repainted. Reports
    /// the kind drawn when the piece locked, and any kind otherwise.
    #[verifier::rlimit(60)]
    fn cycle(&mut self, from_o: Orientation, from_p: Point) -> (d: Shape)
        requires
            wf(old(self)@),
            old(self)@.buf.len() > 0,
            old(self).score + WIDTH * HEIGHT <= u32::MAX,
        ensures
            final(self)@ == cycle_spec(old(self)@, from_o, from_p, d),
            wf(final(self)@),
            final(self).score <= old(self).score + WIDTH * HEIGHT,
            final(self)@.buf == old(self)@.buf,
    {
        let ghost g0 = self@;
        let mut d = self.next_shape;
        if self.shape_collides() {
            let to_point = *self.shape_controller.position();
            if self.check_game_over() {
                self.state = GameState::Over;
                self.emit(Output::GameOver);
            }
            let ghost g1 = self@;
            let sh = self.shape_controller.shape();
            let o_now = self.shape_controller.orientation();
            let m = sh.to_mat(o_now);
            let pos = *self.shape_controller.position();
            proof {
                lemma_footprint_matches_width(sh, o_now);
                assert(mat_view(m) =~~= piece_mat(g0.piece));
            }
            self.board.occupy(&m, &pos);
            self.emit(Output::ShapePosition(sh, Some(from_o), o_now, Some(from_p), to_point));
            let ghost g2 = self@;
            let first = self.input_buffer[0];
            let locks = first == Input::Drop || (self.down_ready && self.input_buffer.len() > 1
                && first == Input::TickGame && self.input_buffer[1] == Input::TickGame);
            proof {
                assert(locks == lock_due(g2));
            }
            if locks {
                self.emit(Output::ShapeLocked(sh, self.board));
                self.hold_allowed = true;
                self.shape_controller = ShapeState::new_from_shape(self.next_shape);
                let ns = Shape::random();
                self.next_shape = ns;
                d = ns;
                self.emit(Output::NextShape(ns));
                let to2 = *self.shape_controller.position();
                let sh2 = self.shape_controller.shape();
                let o2 = self.shape_controller.orientation();
                self.emit(Output::ShapePosition(sh2, None, o2, None, to2));
                let ghost g4 = self@;
                self.clear_lines();
                proof {
                    reveal(cycle_spec);
                    lemma_clear_upto_wf(g4.board, 0, (WIDTH * HEIGHT) as nat);
                    lemma_clear_upto_count(g4.board, 0, (WIDTH * HEIGHT) as nat);
                    assert(self@ == cycle_spec(g0, from_o, from_p, d));
                }
            } else {
                proof {
                    reveal(cycle_spec);
                    assert(self@ == cycle_spec(g0, from_o, from_p, d));
                }
            }
        } else {
            if self.down_ready {
                let moved = self.shape_controller.down();
                if moved {
                    self.emit(Output::MovedShape);
                }
                self.down_ready = false;
            }
            let to_point = *self.shape_controller.position();
            let sh = self.shape_controller.shape();
            let o_now = self.shape_controller.orientation();
            if self.did_hold {
                self.emit(Output::ShapePosition(sh, None, o_now, None, to_point));
                self.did_hold = false;
            } else {
                self.emit(Output::ShapePosition(sh, Some(from_o), o_now, Some(from_p), to_point));
            }
            let m = sh.to_mat(o_now);
            let pos = *self.shape_controller.position();
            proof {
                lemma_footprint_matches_width(sh, o_now);
                assert(mat_view(m) =~~= piece_mat(self.shape_controller));
            }
            self.board.occupy(&m, &pos);
            proof {
                reveal(cycle_spec);
                assert(self@ == cycle_spec(g0, from_o, from_p, d));
            }
        }
        d
    }

    /// Processes one input: the input joins the rolling history; while
    /// playing, the piece is erased from the board, the input dispatched,
    /// the lock-check cycle run once (twice after a Down input), and a board
    /// snapshot emitted. The drawn kinds witness the random draws the step
    /// made.
    #[verifier::rlimit(100)]
    pub fn next(&mut self, i: Input)
        requires
            wf(old(self)@),
            old(self).score + 2 * (WIDTH * HEIGHT) <= u32::MAX,
        ensures
            exists|d0: Shape, d1: Shape, d2: Shape|
                final(self)@ == next_spec(old(self)@, i, d0, d1, d2),
            wf(final(self)@),
            final(self).score <= old(self).score + 2 * (WIDTH * HEIGHT),
    {
        let ghost g0 = self@;
        self.input_buffer.push_front(i);
        if self.input_buffer.len() > 3 {
            let _dropped = self.input_buffer.pop_back();
        }
        proof {
            assert(self@.buf =~= buf_push(g0.buf, i));
            assert(self@ == (GameV { buf: buf_push(g0.buf, i), ..g0 }));
        }
        let ghost gb = self@;
        match self.state {
            GameState::Playing => {},
            _ => {
                proof {
                    let dw = g0.next_shape;
                    assert(self@ == next_spec(g0, i, dw, dw, dw));
                }
                return;
            },
        }
        let from_point = *self.shape_controller.position();
        let from_orientation = self.shape_controller.orientation();
        let sh = self.shape_controller.shape();
        let m = sh.to_mat(from_orientation);
        let pos = *self.shape_controller.position();
        proof {
            lemma_footprint_matches_width(sh, from_orientation);
            assert(mat_view(m) =~~= piece_mat(self.shape_controller));
        }
        self.board.vacate(&m, &pos);
        proof {
            assert(self@ == (GameV { board: erase_piece(gb.board, gb.piece), ..gb }));
        }
        let d0 = self.action(i);
        let dd = self.double_down;
        let d1 = self.cycle(from_orientation, from_point);
        let d2 = if dd {
            self.cycle(from_orientation, from_point)
        } else {
            d1
        };
        self.emit(Output::BoardUpdate(self.board));
        proof {
            assert(self@ == next_spec(g0, i, d0, d1, d2));
        }
    }
}

} // verus!
