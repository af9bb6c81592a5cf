use tetrix::shape::{Orientation, Point, Shape};
use tetrix::shape_state::Direction;
use tetrix::Game;

#[test]
fn rotate() {
    let mut g = Game::new();
    let mut b = g.board;

    g.shape_controller().set_shape(Shape::El);
    g.shape_controller().set_position(Point::new(3, 3));
    g.start();
    g.rotate(Direction::Ccw);
    {
        let mat = g.shape_controller.shape().to_mat(g.shape_controller.orientation());
        let pos = g.shape_controller.position();
        b.occupy(&mat, pos);
    }
    assert!(b.0[3][3] != None);
    assert!(b.0[3][4] != None);
    assert!(b.0[3][5] != None);
    assert!(b.0[4][5] != None);
}

#[test]
fn wall_kick_l() {
    let mut g = Game::new();
    g.shape_controller().set_shape(Shape::El);
    g.shape_controller().set_position(Point::new(0, 3));
    g.start();
    g.rotate(Direction::Ccw);
    assert!(
        g.get_shape_controller().position().x == 0,
        "shape controller position should be at 0"
    );
}

#[test]
fn flush_wall_r() {
    let mut g = Game::new();
    g.shape_controller.set_shape(Shape::El);
    g.shape_controller.set_position(Point::new(8, 3));
    g.shape_controller.set_orientation(Orientation::Up);
    g.start();
    let mut b = g.board;
    b.occupy(
        &g.shape_controller.shape().to_mat(g.shape_controller.orientation()),
        g.shape_controller.position(),
    );
    assert!(b.0[3][8] != None, "box 1 in the wrong spot!");
    assert!(b.0[4][8] != None);
    assert!(b.0[5][8] != None);
    assert!(b.0[3][9] != None);
}

#[test]
fn flush_wall_r2() {
    let mut g = Game::new();
    g.shape_controller.set_shape(Shape::Eye);
    g.shape_controller.set_position(Point::new(5, 3));
    g.shape_controller.set_orientation(Orientation::Up);
    g.start();
    let mut b = g.board;
    b.occupy(
        &g.shape_controller.shape().to_mat(g.shape_controller.orientation()),
        g.shape_controller.position(),
    );
    assert!(b.0[3][5] != None);
    assert!(b.0[4][5] != None);
    assert!(b.0[5][5] != None);
    assert!(b.0[6][5] != None);

    b.vacate(
        &g.shape_controller.shape().to_mat(g.shape_controller.orientation()),
        g.shape_controller.position(),
    );

    g.shape_controller.right(&g.board);

    b.occupy(
        &g.shape_controller.shape().to_mat(g.shape_controller.orientation()),
        g.shape_controller.position(),
    );

    assert!(b.0[3][6] != None, "not at y = 6");
    assert!(b.0[4][6] != None);
    assert!(b.0[5][6] != None);
    assert!(b.0[6][6] != None);

    b.vacate(
        &g.shape_controller.shape().to_mat(g.shape_controller.orientation()),
        g.shape_controller.position(),
    );

    g.shape_controller.right(&g.board);

    b.occupy(
        &g.shape_controller.shape().to_mat(g.shape_controller.orientation()),
        g.shape_controller.position(),
    );

    assert!(b.0[3][7] != None, "not at y = 7");
    assert!(b.0[4][7] != None);
    assert!(b.0[5][7] != None);
    assert!(b.0[6][7] != None);

    b.vacate(
        &g.shape_controller.shape().to_mat(g.shape_controller.orientation()),
        g.shape_controller.position(),
    );

    g.shape_controller.right(&g.board);

    b.occupy(
        &g.shape_controller.shape().to_mat(g.shape_controller.orientation()),
        g.shape_controller.position(),
    );

    assert!(b.0[3][8] != None, "not at y = 8");
    assert!(b.0[4][8] != None);
    assert!(b.0[5][8] != None);
    assert!(b.0[6][8] != None);

    b.vacate(
        &g.shape_controller.shape().to_mat(g.shape_controller.orientation()),
        g.shape_controller.position(),
    );

    g.shape_controller.right(&g.board);

    b.occupy(
        &g.shape_controller.shape().to_mat(g.shape_controller.orientation()),
        g.shape_controller.position(),
    );

    assert!(b.0[3][9] != None, "not at y = 9");
    assert!(b.0[4][9] != None);
    assert!(b.0[5][9] != None);
    assert!(b.0[6][9] != None);
}

#[test]
fn wall_kick_r() {
    let mut g = Game::new();
    g.shape_controller.set_shape(Shape::El);
    g.shape_controller.set_position(Point::new(8, 3));
    g.shape_controller.set_orientation(Orientation::Up);
    g.start();
    let mut b = g.board;
    b.occupy(
        &g.shape_controller.shape().to_mat(g.shape_controller.orientation()),
        g.shape_controller.position(),
    );
    assert!(b.0[3][8] != None);
    assert!(b.0[4][8] != None);
    assert!(b.0[5][8] != None);
    assert!(b.0[3][9] != None);

    g.rotate(Direction::Ccw);

    assert!(g.get_shape_controller().position().x == 7, "expected kick on shape");
}

#[test]
fn wall_kick_eye_r() {
    let mut g = Game::new();
    g.shape_controller.set_shape(Shape::Eye);
    g.shape_controller.set_position(Point::new(9, 3));
    g.shape_controller.set_orientation(Orientation::Up);
    g.start();
    let mut b = g.board;
    b.occupy(
        &g.shape_controller.shape().to_mat(g.shape_controller.orientation()),
        g.shape_controller.position(),
    );

    assert!(b.0[3][9] != None);
    assert!(b.0[4][9] != None);
    assert!(b.0[5][9] != None);
    assert!(b.0[6][9] != None);

    g.rotate(Direction::Ccw);

    assert!(g.get_shape_controller().position().x == 6, "expected kick on wall");
}

#[test]
fn shape_kick_eye_r() {
    let mut g = Game::new();
    g.shape_controller.set_shape(Shape::Eye);
    g.shape_controller.set_position(Point::new(7, 3));
    g.shape_controller.set_orientation(Orientation::Up);
    let config = vec![
        vec![None, None, None, None, None, None, None, None, None, Some(Shape::ElInv)],
        vec![None, None, None, None, None, None, None, None, None, Some(Shape::ElInv)],
        vec![None, None, None, None, None, None, None, None, None, Some(Shape::ElInv)],
        vec![None, None, None, None, None, None, None, None, Some(Shape::ElInv), Some(Shape::ElInv)],
        vec![None, None, None, None, None, None, None, None, None, Some(Shape::ElInv)],
        vec![None, None, None, None, None, None, None, None, None, Some(Shape::ElInv)],
        vec![None, None, None, None, None, None, None, None, Some(Shape::ElInv), Some(Shape::ElInv)],
        vec![None, None, None, None, None, None, None, None, None, Some(Shape::ElInv)],
        vec![None, None, None, None, None, None, None, None, None, Some(Shape::ElInv)],
        vec![None, None, None, None, None, None, None, None, Some(Shape::ElInv), Some(Shape::ElInv)],
    ];
    g.board.setup(config, Point::new(0, 0), false);
    g.start();
    let mut b = g.board;
    b.occupy(
        &g.shape_controller.shape().to_mat(g.shape_controller.orientation()),
        g.shape_controller.position(),
    );
    assert!(b.0[3][7] != None);
    assert!(b.0[4][7] != None);
    assert!(b.0[5][7] != None);
    assert!(b.0[6][7] != None);

    b.vacate(
        &g.shape_controller.shape().to_mat(g.shape_controller.orientation()),
        g.shape_controller.position(),
    );
    g.rotate(Direction::Ccw);

    assert!(g.get_shape_controller().position().x == 4, "expected kick on shape");
    b.occupy(
        &g.shape_controller.shape().to_mat(g.shape_controller.orientation()),
        g.shape_controller.position(),
    );
    assert!(
        b.0[3][9].unwrap() == Shape::ElInv,
        "Should be ElInv! But was {:?}",
        b.0[3][9].unwrap()
    );
    assert!(
        b.0[3][8].unwrap() == Shape::ElInv,
        "Should be ElInv! But was {:?}",
        b.0[3][8].unwrap()
    );
    assert!(
        b.0[3][7].unwrap() == Shape::Eye,
        "Should be ElInv! But was {:?}",
        b.0[3][7].unwrap()
    );
}

#[test]
fn internal_kick_r() {
    let mut g = Game::new();
    let config = vec![
        vec![None, None, None, None, Some(Shape::random())],
        vec![None, None, None, None, Some(Shape::random())],
        vec![None, None, None, None, Some(Shape::random())],
        vec![None, None, None, None, Some(Shape::random())],
        vec![None, None, None, None, Some(Shape::random())],
        vec![None, None, None, None, Some(Shape::random())],
        vec![None, None, None, None, Some(Shape::random())],
        vec![None, None, None, None, Some(Shape::random())],
    ];
    g.board.setup(config, Point::new(0, 0), false);
    g.shape_controller.set_shape(Shape::El);
    g.shape_controller.set_position(Point::new(2, 1));
    g.shape_controller.set_orientation(Orientation::Up);
    g.start();

    g.rotate(Direction::Ccw);

    assert!(g.get_shape_controller().position().x == 1, "expected right kick");
}

#[test]
fn t_spin() {
    let mut g = Game::new();
    let config = vec![
        vec![None, None, None, None, None, None, None, None, None, None],
        vec![None, None, None, None, None, None, None, None, None, None],
        vec![None, None, None, None, None, None, None, None, None, None],
        vec![None, None, None, None, None, None, None, None, None, None],
        vec![
            None,
            None,
            None,
            None,
            Some(Shape::random()),
            Some(Shape::random()),
            None,
            None,
            None,
            None,
        ],
        vec![
            None,
            None,
            None,
            None,
            Some(Shape::random()),
            Some(Shape::random()),
            None,
            None,
            None,
            Some(Shape::random()),
        ],
        vec![
            Some(Shape::random()),
            Some(Shape::random()),
            Some(Shape::random()),
            None,
            Some(Shape::random()),
            Some(Shape::random()),
            None,
            None,
            None,
            Some(Shape::random()),
        ],
        vec![
            Some(Shape::random()),
            Some(Shape::random()),
            Some(Shape::random()),
            Some(Shape::random()),
            Some(Shape::random()),
            Some(Shape::random()),
            Some(Shape::random()),
            None,
            Some(Shape::random()),
            Some(Shape::random()),
        ],
    ];
    g.board.setup(config, Point::new(0, 0), false);
    g.shape_controller.set_shape(Shape::Tee);
    g.shape_controller.set_orientation(Orientation::Right);
    g.shape_controller.set_position(Point::new(7, 0));
    g.start();
    g.rotate(Direction::Cw);
    assert!(g.shape_controller.position().x == 6, "expected a kick!");
}

#[test]
fn kick_up() {
    let mut g = Game::new();
    let config = vec![
        vec![None, None, None, None, None, None, None, None, None, None],
        vec![None, None, None, None, None, None, None, None, None, None],
        vec![None, None, None, None, None, None, None, None, None, None],
        vec![
            Some(Shape::random()),
            None,
            Some(Shape::random()),
            None,
            None,
            Some(Shape::random()),
            Some(Shape::random()),
            Some(Shape::random()),
            Some(Shape::random()),
            Some(Shape::random()),
        ],
        vec![
            Some(Shape::random()),
            None,
            Some(Shape::random()),
            None,
            Some(Shape::random()),
            Some(Shape::random()),
            Some(Shape::random()),
            Some(Shape::random()),
            Some(Shape::random()),
            Some(Shape::random()),
        ],
        vec![
            Some(Shape::random()),
            None,
            Some(Shape::random()),
            None,
            Some(Shape::random()),
            Some(Shape::random()),
            Some(Shape::random()),
            Some(Shape::random()),
            Some(Shape::random()),
            Some(Shape::random()),
        ],
        vec![
            Some(Shape::random()),
            None,
            Some(Shape::random()),
            None,
            Some(Shape::random()),
            Some(Shape::random()),
            Some(Shape::random()),
            Some(Shape::random()),
            Some(Shape::random()),
            Some(Shape::random()),
        ],
        vec![
            Some(Shape::random()),
            None,
            Some(Shape::random()),
            None,
            Some(Shape::random()),
            Some(Shape::random()),
            Some(Shape::random()),
            Some(Shape::random()),
            Some(Shape::random()),
            Some(Shape::random()),
        ],
    ];
    g.board.setup(config, Point::new(0, 0), false);
    g.shape_controller.set_shape(Shape::Eye);
    g.shape_controller.set_orientation(Orientation::Up);
    g.shape_controller.set_position(Point::new(1, 2));
    g.start();

    g.rotate(Direction::Ccw);

    assert!(
        5 == g.get_shape_controller().position().y,
        "position should be 5,1 but was {:?}",
        g.get_shape_controller().position()
    );
    assert!(
        1 == g.get_shape_controller().position().x,
        "position should be 5,1 but was {:?}",
        g.get_shape_controller().position()
    );
}
