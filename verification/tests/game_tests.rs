use tetrix::event::{Input, Output};
use tetrix::shape::{Orientation, Point, Shape};
use tetrix::{Game, GameState, HEIGHT, WIDTH};

#[test]
fn start_emits_started_then_next() {
    let mut g = Game::new();
    let expected_next = g.next_shape;
    g.start();
    let evs = g.take_events();
    assert_eq!(evs.len(), 2, "start emits exactly two events");
    assert!(evs[0] == Output::GameStarted, "first event is the game start");
    assert!(evs[1] == Output::NextShape(expected_next), "second event is the queued kind");
    assert!(g.state == GameState::Playing);
}

#[test]
fn quit_stops_processing() {
    let mut g = Game::new();
    g.start();
    let _ = g.take_events();
    g.quit();
    let evs = g.take_events();
    assert_eq!(evs.len(), 1);
    assert!(evs[0] == Output::GameOver);
    g.next(Input::Left);
    assert!(g.take_events().is_empty(), "no events once the game is over");
    assert!(g.state == GameState::Over);
}

#[test]
fn hold_swaps_and_blocks_second_hold() {
    let mut g = Game::new();
    g.start();
    let _ = g.take_events();
    let cur = g.shape_controller.shape();
    g.next(Input::Hold);
    let evs = g.take_events();
    let mut next_at = None;
    let mut held_at = None;
    for (k, e) in evs.iter().enumerate() {
        match e {
            Output::NextShape(_) => {
                if next_at == None {
                    next_at = Some(k);
                }
            }
            Output::HeldShape(s) => {
                assert!(*s == cur, "the held kind is the piece that was current");
                held_at = Some(k);
            }
            _ => {}
        }
    }
    assert!(next_at.is_some(), "holding with nothing held emits the new queued kind");
    assert!(held_at.is_some(), "holding emits the held kind");
    assert!(next_at.unwrap() < held_at.unwrap(), "NextShape comes before HeldShape");
    assert!(g.hold_shape == Some(cur));

    g.next(Input::Hold);
    let evs2 = g.take_events();
    for e in evs2.iter() {
        match e {
            Output::HeldShape(_) => {
                assert!(false, "a second hold before the piece locks is a no-op");
            }
            _ => {}
        }
    }
    assert!(g.hold_shape == Some(cur), "the held kind is unchanged");
}

#[test]
fn ticks_alone_reach_game_over() {
    let mut g = Game::new();
    g.start();
    let _ = g.take_events();
    let mut steps = 0;
    while g.state != GameState::Over && steps < 100000 {
        g.next(Input::TickGame);
        let _ = g.take_events();
        steps += 1;
    }
    assert!(g.state == GameState::Over, "pieces stack until a spawn collision ends the game");
}

#[test]
fn drop_locks_and_spawns_next() {
    let mut g = Game::new();
    g.start();
    let _ = g.take_events();
    g.next(Input::Drop);
    let evs = g.take_events();
    let mut locked = false;
    let mut next_seen = false;
    for e in evs.iter() {
        match e {
            Output::ShapeLocked(_, _) => locked = true,
            Output::NextShape(_) => next_seen = true,
            _ => {}
        }
    }
    assert!(locked, "a dropped piece locks at once");
    assert!(next_seen, "locking promotes the queue and draws a new kind");
    assert!(g.hold_allowed, "locking re-allows holding");
}

#[test]
fn drop_into_column_clears_board() {
    // A four-row board fully occupied except column 1: dropping the straight
    // piece into that column and clearing raises the score by 4 and leaves
    // the board empty.
    let mut g = Game::new();
    let mut config = Vec::new();
    for _ in 0..4 {
        let mut row = Vec::new();
        for x in 0..WIDTH {
            if x == 1 {
                row.push(None);
            } else {
                row.push(Some(Shape::Tee));
            }
        }
        config.push(row);
    }
    g.board.setup(config, Point::new(0, 0), true);
    g.shape_controller.set_shape(Shape::Eye);
    g.shape_controller.set_orientation(Orientation::Up);
    g.shape_controller.set_position(Point::new(1, 10));
    g.start();
    let stack = g.board;
    g.shape_controller().drop(&stack);
    assert_eq!(g.get_shape_controller().position().y, 0, "the piece falls to the floor");
    g.board.occupy(
        &g.shape_controller.shape().to_mat(g.shape_controller.orientation()),
        g.shape_controller.position(),
    );
    g.clear_lines();
    assert_eq!(g.score, 4, "four rows cleared");
    for y in 0..HEIGHT {
        for x in 0..WIDTH {
            assert!(g.board.0[y][x] == None, "board should be empty after the clear");
        }
    }
    let evs = g.take_events();
    let mut saw_score = false;
    let mut saw_lines = false;
    for e in evs.iter() {
        match e {
            Output::ScoreUpdate(n) => {
                assert_eq!(*n, 4);
                saw_score = true;
            }
            Output::LineCompleted(n, _) => {
                assert_eq!(*n, 4);
                saw_lines = true;
            }
            _ => {}
        }
    }
    assert!(saw_score && saw_lines, "clearing emits score and line events");
}

#[test]
fn rand_control_is_a_control() {
    for _ in 0..100 {
        let i = Input::rand_control();
        assert!(
            i == Input::Left || i == Input::Right || i == Input::Ccw || i == Input::Cw,
            "rand_control draws a lateral or rotation input, got {:?}",
            i
        );
    }
}

#[test]
fn random_covers_all_kinds() {
    // With 700 draws, missing a kind by chance is (6/7)^700, vanishing.
    let mut seen = [false; 7];
    for _ in 0..700 {
        match Shape::random() {
            Shape::Eye => seen[0] = true,
            Shape::El => seen[1] = true,
            Shape::ElInv => seen[2] = true,
            Shape::Square => seen[3] = true,
            Shape::Zee => seen[4] = true,
            Shape::ZeeInv => seen[5] = true,
            Shape::Tee => seen[6] = true,
        }
    }
    assert!(seen.iter().all(|s| *s), "every kind turns up");
}
