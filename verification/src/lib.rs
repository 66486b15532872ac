pub mod abilities;
pub mod chance;
pub mod game;
pub mod laws;
pub mod messages;
pub mod placement;
pub mod rules;
pub mod search;
pub mod state;
pub mod text;
pub mod tile;
pub mod types;
