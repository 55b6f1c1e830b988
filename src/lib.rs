pub mod game;
pub mod rng;
pub mod utils;

pub use game::escape::{
    clear_history_sequence, clear_sequence, hide_cursor_sequence, move_cursor_sequence,
    set_colors_sequence, show_cursor_sequence,
};
pub use game::graphics::{Layout, TooSmall, BLOCK_SCALE, BOX_COLOR};
pub use game::types::{Tetrominoe, TetrominoeType, STILL_TIME_MS};
pub use game::{Flow, GameManager, Input, NoLandingCells, BACKGROUND_COLOR};
pub use utils::{Size, Uvec2, SGR};
