pub mod base;
pub mod base_level;
pub mod board_action;
pub mod game;
pub mod game_config;
pub mod game_state;
pub mod path_config;
pub mod player_action;
pub mod position;
pub mod progress;
pub mod target;
