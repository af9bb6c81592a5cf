use vstd::prelude::*;
use crate::board::{Board, BoardV};
use crate::shape::{rand_below, Orientation, Point, Shape};

verus! {

/// The events a game emits while it processes inputs.
#[derive(Debug, Copy, Clone, PartialEq)]
pub enum Output {
    GameOver,
    GameStarted,
    GameRunning,
    BoardUpdate(Board),
    HeldShape(Shape),
    RestoredShape(Shape),
    NextShape(Shape),
    RotatedShape(Orientation),
    MovedShape,
    ShapePosition(Shape, Option<Orientation>, Orientation, Option<Point>, Point),
    ShapeLocked(Shape, Board),
    LineCompleted(u8, Board),
    ScoreUpdate(u32),
}

/// `Output` with each board snapshot abstracted to its cell grid.
pub ghost enum OutputV {
    GameOver,
    GameStarted,
    GameRunning,
    BoardUpdate(BoardV),
    HeldShape(Shape),
    RestoredShape(Shape),
    NextShape(Shape),
    RotatedShape(Orientation),
    MovedShape,
    ShapePosition(Shape, Option<Orientation>, Orientation, Option<Point>, Point),
    ShapeLocked(Shape, BoardV),
    LineCompleted(u8, BoardV),
    ScoreUpdate(u32),
}

impl View for Output {
    type V = OutputV;

    open spec fn view(&self) -> OutputV {
        match *self {
            Output::GameOver => OutputV::GameOver,
            Output::GameStarted => OutputV::GameStarted,
            Output::GameRunning => OutputV::GameRunning,
            Output::BoardUpdate(b) => OutputV::BoardUpdate(b@),
            Output::HeldShape(s) => OutputV::HeldShape(s),
            Output::RestoredShape(s) => OutputV::RestoredShape(s),
            Output::NextShape(s) => OutputV::NextShape(s),
            Output::RotatedShape(o) => OutputV::RotatedShape(o),
            Output::MovedShape => OutputV::MovedShape,
            Output::ShapePosition(s, fo, to, fp, tp) => OutputV::ShapePosition(s, fo, to, fp, tp),
            Output::ShapeLocked(s, b) => OutputV::ShapeLocked(s, b@),
            Output::LineCompleted(n, b) => OutputV::LineCompleted(n, b@),
            Output::ScoreUpdate(n) => OutputV::ScoreUpdate(n),
        }
    }
}

/// The commands a game consumes.
#[derive(Debug, Copy, Clone, PartialEq, Eq, Structural)]
pub enum Input {
    StartGame,
    EndGame,
    TickGame,
    Left,
    Right,
    Down,
    Drop,
    Hold,
    RestoreHold,
    Cw,
    Ccw,
}

impl Input {
    /// Draws one of the lateral and rotation controls at random.
    pub fn rand_control() -> (i: Input)
        ensures
            i == Input::Left || i == Input::Right || i == Input::Ccw || i == Input::Cw,
    {
        match 2 + rand_below(4) {
            2 => Input::Left,
            3 => Input::Right,
            4 => Input::Ccw,
            5 => Input::Cw,
            _ => Input::Ccw,
        }
    }
}

} // verus!
