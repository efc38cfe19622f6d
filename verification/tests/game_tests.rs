use snake_game::Direction;
use snake_game::Game;

fn snake_cells(g: &Game) -> Vec<(i32, i32)> {
    let s = g.snake();
    let mut cells: Vec<(i32, i32)> = Vec::new();
    let mut i: usize = 0;
    while i < s.len() {
        cells.push(s.cell_at(i));
        i += 1;
    }
    cells
}

#[test]
fn new_game_state() {
    let g = Game::new(30, 30);
    assert_eq!(g.size(), (30, 30));
    assert!(!g.is_game_over());
    assert!(g.food_exists());
    assert_eq!(g.food_pos(), (6, 10));
    assert_eq!(g.snake().head_dir(), Direction::Right);
    assert_eq!(snake_cells(&g), vec![(4, 2), (3, 2), (2, 2)]);
}

#[test]
fn reversal_is_ignored_and_course_held() {
    let mut g = Game::new(30, 30);
    g.key_pressed(Direction::Left);
    assert_eq!(g.snake().head_dir(), Direction::Right);
    assert_eq!(snake_cells(&g), vec![(4, 2), (3, 2), (2, 2)]);
    g.update(101);
    assert_eq!(snake_cells(&g), vec![(5, 2), (4, 2), (3, 2)]);
    assert_eq!(g.snake().head_dir(), Direction::Right);
}

#[test]
fn direction_request_moves_immediately() {
    let mut g = Game::new(30, 30);
    g.key_pressed(Direction::Down);
    assert_eq!(g.snake().head_dir(), Direction::Down);
    assert_eq!(snake_cells(&g), vec![(4, 3), (4, 2), (3, 2)]);
}

#[test]
fn timer_gates_forced_moves() {
    let mut g = Game::new(30, 30);
    g.update(100);
    assert_eq!(snake_cells(&g), vec![(4, 2), (3, 2), (2, 2)]);
    g.update(1);
    assert_eq!(snake_cells(&g), vec![(5, 2), (4, 2), (3, 2)]);
    g.update(50);
    assert_eq!(snake_cells(&g), vec![(5, 2), (4, 2), (3, 2)]);
}

#[test]
fn running_into_the_wall_ends_the_game() {
    let mut g = Game::new(30, 30);
    for _ in 0..24 {
        g.key_pressed(Direction::Right);
        assert!(!g.is_game_over());
    }
    assert_eq!(g.snake().head_pos(), (28, 2));
    g.key_pressed(Direction::Right);
    assert!(g.is_game_over());
    assert_eq!(g.snake().head_pos(), (28, 2));
}

#[test]
fn game_over_ignores_input_then_restarts() {
    let mut g = Game::new(30, 30);
    for _ in 0..25 {
        g.key_pressed(Direction::Right);
    }
    assert!(g.is_game_over());
    g.key_pressed(Direction::Down);
    assert!(g.is_game_over());
    assert_eq!(g.snake().head_pos(), (28, 2));
    g.update(500);
    assert!(g.is_game_over());
    g.update(501);
    assert!(!g.is_game_over());
    assert_eq!(snake_cells(&g), vec![(4, 2), (3, 2), (2, 2)]);
    assert_eq!(g.snake().head_dir(), Direction::Right);
    assert!(g.food_exists());
    assert_eq!(g.food_pos(), (6, 10));
}

#[test]
fn ten_by_ten_reversal_is_ignored() {
    let mut g = Game::new(10, 10);
    assert_eq!(snake_cells(&g), vec![(4, 2), (3, 2), (2, 2)]);
    assert_eq!(g.snake().head_dir(), Direction::Right);
    g.update(200);
    assert_eq!(snake_cells(&g), vec![(5, 2), (4, 2), (3, 2)]);
    g.key_pressed(Direction::Left);
    assert_eq!(snake_cells(&g), vec![(5, 2), (4, 2), (3, 2)]);
    assert_eq!(g.snake().head_dir(), Direction::Right);
    g.update(200);
    assert_eq!(snake_cells(&g), vec![(6, 2), (5, 2), (4, 2)]);
}

#[test]
fn ten_by_ten_wall_collision_ends_the_game() {
    let mut g = Game::new(10, 10);
    for _ in 0..4 {
        g.update(200);
        assert!(!g.is_game_over());
    }
    assert_eq!(snake_cells(&g), vec![(8, 2), (7, 2), (6, 2)]);
    g.update(200);
    assert!(g.is_game_over());
    assert_eq!(snake_cells(&g), vec![(8, 2), (7, 2), (6, 2)]);
}

#[test]
fn eating_grows_the_snake_and_clears_the_food() {
    let mut g = Game::new(30, 30);
    for _ in 0..8 {
        g.key_pressed(Direction::Down);
    }
    assert_eq!(g.snake().head_pos(), (4, 10));
    g.key_pressed(Direction::Right);
    assert!(g.food_exists());
    assert_eq!(g.snake().len(), 3);
    g.key_pressed(Direction::Right);
    assert_eq!(g.snake().head_pos(), (6, 10));
    assert!(!g.food_exists());
    assert_eq!(g.snake().len(), 4);
}

#[test]
fn update_respawns_food_off_the_body_and_inside_the_border() {
    let mut g = Game::new(30, 30);
    for _ in 0..8 {
        g.key_pressed(Direction::Down);
    }
    g.key_pressed(Direction::Right);
    g.key_pressed(Direction::Right);
    assert!(!g.food_exists());
    g.update(1);
    assert!(g.food_exists());
    let (fx, fy) = g.food_pos();
    assert!(0 < fx && fx < 29);
    assert!(0 < fy && fy < 29);
    assert!(!g.snake().body_contains(fx, fy));
    assert_eq!(g.snake().len(), 4);
}
