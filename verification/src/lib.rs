mod game;
mod snake;

pub use game::Game;
pub use game::GameV;
pub use game::MOVE_PERIOD_MS;
pub use game::RESTART_TIME_MS;
pub use game::lemma_border_ends_game;
pub use game::lemma_direction_request_sets_heading;
pub use game::lemma_eating_clears_food;
pub use game::wait_after;
pub use snake::Block;
pub use snake::Direction;
pub use snake::Snake;
pub use snake::SnakeV;
pub use snake::adjacent;
pub use snake::lemma_advance_grow_length;
pub use snake::lemma_advance_keeps_connected;
pub use snake::lemma_grow_keeps_connected;
pub use snake::lemma_tail_cell_not_hit;
pub use snake::opposite_of;
pub use snake::step_fits;
pub use snake::stepped;
