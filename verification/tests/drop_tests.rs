use tetrix::board::Board;
use tetrix::shape::{Orientation, Point, Shape};
use tetrix::Game;

#[test]
fn drop() {
    let mut g = Game::new();
    let mut b = Board::new();
    let config = vec![
        vec![None, None, None, None, None, None, None, None, None, None],
        vec![None, None, None, None, None, None, None, None, None, None],
        vec![None, None, None, None, None, None, None, None, None, None],
        vec![
            Some(Shape::random()),
            None,
            Some(Shape::random()),
            Some(Shape::random()),
            Some(Shape::random()),
            Some(Shape::random()),
            Some(Shape::random()),
            Some(Shape::random()),
            Some(Shape::random()),
            Some(Shape::random()),
        ],
        vec![
            Some(Shape::random()),
            None,
            Some(Shape::random()),
            Some(Shape::random()),
            Some(Shape::random()),
            Some(Shape::random()),
            Some(Shape::random()),
            Some(Shape::random()),
            Some(Shape::random()),
            Some(Shape::random()),
        ],
        vec![
            Some(Shape::random()),
            None,
            Some(Shape::random()),
            Some(Shape::random()),
            Some(Shape::random()),
            Some(Shape::random()),
            Some(Shape::random()),
            Some(Shape::random()),
            Some(Shape::random()),
            Some(Shape::random()),
        ],
        vec![
            Some(Shape::random()),
            None,
            Some(Shape::random()),
            Some(Shape::random()),
            Some(Shape::random()),
            Some(Shape::random()),
            Some(Shape::random()),
            Some(Shape::random()),
            Some(Shape::random()),
            Some(Shape::random()),
        ],
    ];
    b.setup(config, Point::new(0, 0), false);
    g.shape_controller.set_shape(Shape::El);
    g.shape_controller.set_orientation(Orientation::Down);
    g.shape_controller.set_position(Point::new(0, 10));
    g.start();
    g.shape_controller().drop(&b);
    assert!(g.get_shape_controller().position().x == 0, "x should be 0");
    assert!(
        g.get_shape_controller().position().y == 2,
        "y should be 2, but is {}",
        g.get_shape_controller().position().y
    );
}

#[test]
fn drop_bug_one() {
    let mut g = Game::new();
    let mut b = Board::new();
    let config = vec![
        vec![None, None, None, None, None, None, None, None, None, None],
        vec![None, Some(Shape::Eye), None, None, None, None, None, None, None, None],
        vec![Some(Shape::Eye), Some(Shape::Eye), None, None, None, None, None, None, None, None],
        vec![Some(Shape::Eye), Some(Shape::Eye), None, None, Some(Shape::Zee), None, None, None, None, None],
        vec![
            Some(Shape::Eye),
            Some(Shape::Eye),
            None,
            None,
            Some(Shape::Zee),
            Some(Shape::Zee),
            None,
            None,
            None,
            None,
        ],
        vec![
            Some(Shape::Eye),
            Some(Shape::Zee),
            Some(Shape::Zee),
            None,
            Some(Shape::ElInv),
            Some(Shape::Zee),
            None,
            None,
            Some(Shape::Square),
            Some(Shape::Square),
        ],
        vec![
            Some(Shape::Zee),
            Some(Shape::Zee),
            None,
            None,
            Some(Shape::ElInv),
            Some(Shape::ElInv),
            Some(Shape::ElInv),
            None,
            Some(Shape::Square),
            Some(Shape::Square),
        ],
    ];
    b.setup(config, Point::new(0, 0), false);
    g.shape_controller.set_shape(Shape::El);
    g.shape_controller.set_orientation(Orientation::Down);
    g.shape_controller.set_position(Point::new(2, 16));
    g.start();
    g.shape_controller().drop(&b);
    b.occupy(
        &g.shape_controller.shape().to_mat(g.shape_controller.orientation()),
        g.shape_controller.position(),
    );
    assert!(g.get_shape_controller().position().x == 2, "x should be 2");
    assert!(
        g.get_shape_controller().position().y == 0,
        "y should be 0 but was {}",
        g.get_shape_controller().position().y
    );
    assert!(b.0[0][3] != None, "Spot 3, 0 should be filled!");
    assert!(b.0[0][3].unwrap() == Shape::El, "The El shape should occupy x = 3, y = 0");
}

#[test]
fn drop_rests_on_stack() {
    // After a hard drop the piece does not collide, and one more row down it
    // would: an Eye dropped into a clear column rests right on the stack.
    let mut g = Game::new();
    let config = vec![
        vec![Some(Shape::Tee), Some(Shape::Tee), None, Some(Shape::Tee), None, None, None, None, None, None],
        vec![Some(Shape::Tee), Some(Shape::Tee), None, Some(Shape::Tee), None, None, None, None, None, None],
    ];
    g.board.setup(config, Point::new(0, 0), true);
    g.shape_controller.set_shape(Shape::Eye);
    g.shape_controller.set_orientation(Orientation::Up);
    g.shape_controller.set_position(Point::new(3, 12));
    g.start();
    let stack = g.board;
    g.shape_controller().drop(&stack);
    assert_eq!(g.get_shape_controller().position().y, 2, "rests right above the stack");
    assert!(!g.shape_controller.shape_collide(&g.board), "resting spot is collision-free");
    g.shape_controller.set_position(Point::new(3, 1));
    assert!(g.shape_controller.shape_collide(&g.board), "one row further down collides");
}
