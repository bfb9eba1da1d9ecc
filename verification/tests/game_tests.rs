use snake::game::{App, RenderModel, Snake};
use snake::geometry::{Directions, Vector2D};

fn cell(x: usize, y: usize) -> Vector2D {
    Vector2D { x, y }
}

fn running_app(body: Vec<Vector2D>, direction: Directions, fruit: Vector2D, size: usize) -> App {
    App {
        snake: Snake { body, direction },
        next_direction: None,
        fruit_position: fruit,
        last_call: false,
        started: true,
        lost: false,
        size,
    }
}

#[test]
fn neighbor_moves_one_step_inside_the_board() {
    let c = cell(2, 2);
    assert_eq!(c.get_neighbor(&Directions::UP, 5), cell(2, 1));
    assert_eq!(c.get_neighbor(&Directions::DOWN, 5), cell(2, 3));
    assert_eq!(c.get_neighbor(&Directions::LEFT, 5), cell(1, 2));
    assert_eq!(c.get_neighbor(&Directions::RIGHT, 5), cell(3, 2));
}

#[test]
fn neighbor_clamps_at_every_edge() {
    assert_eq!(cell(2, 0).get_neighbor(&Directions::UP, 5), cell(2, 0));
    assert_eq!(cell(2, 4).get_neighbor(&Directions::DOWN, 5), cell(2, 4));
    assert_eq!(cell(0, 2).get_neighbor(&Directions::LEFT, 5), cell(0, 2));
    assert_eq!(cell(4, 2).get_neighbor(&Directions::RIGHT, 5), cell(4, 2));
}

#[test]
fn neighbor_stays_on_the_board_everywhere() {
    let size: usize = 5;
    let directions = [Directions::UP, Directions::DOWN, Directions::LEFT, Directions::RIGHT];
    for x in 0..size {
        for y in 0..size {
            for d in directions.iter() {
                let n = cell(x, y).get_neighbor(d, size);
                assert!(n.x < size && n.y < size);
            }
        }
    }
}

#[test]
fn random_outside_position_returns_the_only_free_cell() {
    let snake = Snake {
        body: vec![cell(0, 0), cell(0, 1), cell(1, 0)],
        direction: Directions::UP,
    };
    assert_eq!(snake.random_outside_position(2), cell(1, 1));
}

#[test]
fn random_outside_position_avoids_the_body() {
    let snake = Snake {
        body: vec![cell(0, 0), cell(1, 1), cell(2, 2), cell(3, 3), cell(4, 4)],
        direction: Directions::UP,
    };
    for _ in 0..100 {
        let r = snake.random_outside_position(5);
        assert!(r.x < 5 && r.y < 5);
        assert!(!snake.body.contains(&r));
    }
}

#[test]
fn fresh_session_without_input_never_changes() {
    let mut app = App::new(27);
    let body = app.snake.body.clone();
    let fruit = app.fruit_position;
    for _ in 0..10 {
        let terminate = app.update();
        assert!(!terminate);
        assert_eq!(app.snake.body, body);
        assert_eq!(app.fruit_position, fruit);
        assert!(matches!(app.snake.direction, Directions::UP));
        assert!(!app.started);
        assert!(!app.lost);
    }
}

#[test]
fn new_session_starts_at_the_center() {
    let app = App::new(27);
    assert_eq!(app.snake.body, vec![cell(13, 13)]);
    assert!(matches!(app.snake.direction, Directions::UP));
    assert!(app.next_direction.is_none());
    assert!(!app.started);
    assert!(!app.lost);
    assert!(app.last_call);
    assert!(app.fruit_position.x < 27 && app.fruit_position.y < 27);
    assert_ne!(app.fruit_position, cell(13, 13));
}

#[test]
fn backward_input_spends_the_grace_then_loses() {
    // the snake travels UP; DOWN drives the head into its second cell
    let mut app = running_app(vec![cell(2, 2), cell(2, 3)], Directions::UP, cell(0, 0), 5);
    app.set_pending_direction(Directions::DOWN);

    let terminate = app.update();
    assert!(!terminate);
    assert!(!app.lost);
    assert!(app.last_call);
    assert_eq!(app.snake.body, vec![cell(2, 2), cell(2, 3)]);

    let terminate = app.update();
    assert!(!terminate);
    assert!(app.lost);
    assert_eq!(app.snake.body, vec![cell(2, 2), cell(2, 3)]);
}

#[test]
fn eating_the_fruit_grows_the_body_and_respawns_outside() {
    let mut app = running_app(vec![cell(2, 2)], Directions::UP, cell(2, 1), 5);
    let terminate = app.update();
    assert!(!terminate);
    assert_eq!(app.snake.body, vec![cell(2, 1), cell(2, 2)]);
    assert!(!app.snake.body.contains(&app.fruit_position));
    assert!(app.fruit_position.x < 5 && app.fruit_position.y < 5);
    assert!(!app.lost);
    assert!(!app.last_call);
}

#[test]
fn plain_move_conserves_the_length() {
    let mut app = running_app(
        vec![cell(2, 2), cell(2, 3), cell(2, 4)],
        Directions::UP,
        cell(0, 0),
        5,
    );
    let terminate = app.update();
    assert!(!terminate);
    assert_eq!(app.snake.body, vec![cell(2, 1), cell(2, 2), cell(2, 3)]);
    assert_eq!(app.fruit_position, cell(0, 0));
    assert!(!app.lost);
}

#[test]
fn first_tick_commits_the_direction_and_moves() {
    // a fresh five-by-five session, but with the fruit pinned at (0, 0);
    // the tick that starts the game also moves the snake
    let mut app = App {
        snake: Snake { body: vec![cell(2, 2)], direction: Directions::UP },
        next_direction: None,
        fruit_position: cell(0, 0),
        last_call: true,
        started: false,
        lost: false,
        size: 5,
    };
    app.set_pending_direction(Directions::UP);
    let terminate = app.update();
    assert!(!terminate);
    assert!(app.started);
    assert!(matches!(app.snake.direction, Directions::UP));
    assert!(app.next_direction.is_none());
    assert_eq!(app.snake.body, vec![cell(2, 1)]);
}

#[test]
fn wall_bite_at_the_corner_spends_the_grace_then_loses() {
    // commanded into the wall, the clamped step lands on the head itself
    let mut app = running_app(vec![cell(0, 0)], Directions::UP, cell(3, 3), 5);

    let terminate = app.update();
    assert!(!terminate);
    assert!(!app.lost);
    assert!(app.last_call);
    assert_eq!(app.snake.body, vec![cell(0, 0)]);

    let terminate = app.update();
    assert!(!terminate);
    assert!(app.lost);
    assert_eq!(app.snake.body, vec![cell(0, 0)]);
}

#[test]
fn lost_session_freezes_and_asks_to_quit_on_input() {
    let mut app = running_app(vec![cell(2, 2), cell(2, 3)], Directions::UP, cell(0, 0), 5);
    app.lost = true;

    let terminate = app.update();
    assert!(!terminate);
    assert!(app.lost);
    assert_eq!(app.snake.body, vec![cell(2, 2), cell(2, 3)]);

    app.set_pending_direction(Directions::LEFT);
    let terminate = app.update();
    assert!(terminate);
    assert!(app.lost);
    assert_eq!(app.snake.body, vec![cell(2, 2), cell(2, 3)]);
    assert_eq!(app.fruit_position, cell(0, 0));
}

#[test]
fn pending_direction_is_a_single_slot_with_last_write_winning() {
    let mut app = running_app(vec![cell(2, 2)], Directions::UP, cell(0, 0), 5);
    app.set_pending_direction(Directions::LEFT);
    app.set_pending_direction(Directions::RIGHT);
    assert!(matches!(app.next_direction, Some(Directions::RIGHT)));
    let terminate = app.update();
    assert!(!terminate);
    assert!(matches!(app.snake.direction, Directions::RIGHT));
    assert_eq!(app.snake.body, vec![cell(3, 2)]);
}

#[test]
fn render_snapshot_mirrors_the_session() {
    let app = running_app(vec![cell(2, 1), cell(2, 2)], Directions::UP, cell(4, 4), 5);
    let m: RenderModel = app.render();
    assert_eq!(m.snake_cells, vec![cell(2, 1), cell(2, 2)]);
    assert_eq!(m.fruit, cell(4, 4));
    assert!(!m.lost);
}
