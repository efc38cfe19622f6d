use snake_game::Direction;
use snake_game::Snake;

fn body_cells(s: &Snake) -> Vec<(i32, i32)> {
    let mut cells: Vec<(i32, i32)> = Vec::new();
    let mut i: usize = 0;
    while i < s.len() {
        cells.push(s.cell_at(i));
        i += 1;
    }
    cells
}

#[test]
fn opposite_of_each_direction() {
    assert_eq!(Direction::Up.opposite(), Direction::Down);
    assert_eq!(Direction::Down.opposite(), Direction::Up);
    assert_eq!(Direction::Left.opposite(), Direction::Right);
    assert_eq!(Direction::Right.opposite(), Direction::Left);
}

#[test]
fn new_snake_layout() {
    let s = Snake::new(2, 2);
    assert_eq!(s.head_dir(), Direction::Right);
    assert_eq!(s.head_pos(), (4, 2));
    assert_eq!(body_cells(&s), vec![(4, 2), (3, 2), (2, 2)]);
}

#[test]
fn head_next_follows_intent_or_heading() {
    let s = Snake::new(2, 2);
    assert_eq!(s.head_next(None), (5, 2));
    assert_eq!(s.head_next(Some(Direction::Up)), (4, 1));
    assert_eq!(s.head_next(Some(Direction::Down)), (4, 3));
    assert_eq!(s.head_next(Some(Direction::Left)), (3, 2));
    assert_eq!(s.head_next(Some(Direction::Right)), (5, 2));
}

#[test]
fn move_without_intent_translates_body() {
    let mut s = Snake::new(2, 2);
    s.move_forward(None);
    assert_eq!(body_cells(&s), vec![(5, 2), (4, 2), (3, 2)]);
    assert_eq!(s.head_dir(), Direction::Right);
}

#[test]
fn move_with_intent_turns_and_translates() {
    let mut s = Snake::new(2, 2);
    s.move_forward(Some(Direction::Down));
    assert_eq!(s.head_dir(), Direction::Down);
    assert_eq!(body_cells(&s), vec![(4, 3), (4, 2), (3, 2)]);
}

#[test]
fn advance_keeps_length_and_grow_adds_one() {
    let mut s = Snake::new(2, 2);
    assert_eq!(s.len(), 3);
    s.move_forward(None);
    assert_eq!(s.len(), 3);
    s.tail_restore();
    assert_eq!(s.len(), 4);
    assert_eq!(body_cells(&s), vec![(5, 2), (4, 2), (3, 2), (2, 2)]);
}

#[test]
fn tail_overlaps_excludes_the_tail_cell() {
    let s = Snake::new(2, 2);
    assert!(s.tail_overlaps(4, 2));
    assert!(s.tail_overlaps(3, 2));
    assert!(!s.tail_overlaps(2, 2));
    assert!(!s.tail_overlaps(5, 2));
    assert!(s.body_contains(2, 2));
}

#[test]
fn wall_ahead_is_not_alive() {
    let s = Snake::new(6, 2);
    assert_eq!(s.head_pos(), (8, 2));
    assert!(!s.check_if_alive(None, 10, 10));
    assert!(s.check_if_alive(Some(Direction::Down), 10, 10));
}

#[test]
fn self_collision_is_not_alive() {
    let mut s = Snake::new(2, 2);
    s.move_forward(None);
    s.tail_restore();
    s.move_forward(None);
    s.tail_restore();
    s.move_forward(Some(Direction::Down));
    s.move_forward(Some(Direction::Left));
    assert_eq!(s.head_pos(), (5, 3));
    assert!(!s.check_if_alive(Some(Direction::Up), 30, 30));
    assert!(s.check_if_alive(Some(Direction::Down), 30, 30));
}

#[test]
fn snake_may_follow_its_own_tail() {
    let mut s = Snake::new(2, 2);
    s.move_forward(None);
    s.tail_restore();
    s.move_forward(Some(Direction::Down));
    s.move_forward(Some(Direction::Left));
    assert_eq!(body_cells(&s), vec![(4, 3), (5, 3), (5, 2), (4, 2)]);
    assert!(!s.tail_overlaps(4, 2));
    assert!(s.check_if_alive(Some(Direction::Up), 30, 30));
    s.move_forward(Some(Direction::Up));
    assert_eq!(body_cells(&s), vec![(4, 2), (4, 3), (5, 3), (5, 2)]);
}
