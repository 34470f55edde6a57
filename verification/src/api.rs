pub mod api_model;
pub mod xtream_player_api;
