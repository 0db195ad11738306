pub mod types;
pub mod resources;
pub mod chance;
pub mod bank;
pub mod coords;
pub mod board;
pub mod templates;
pub mod players;
pub mod action;
pub mod setup;
pub mod state;
mod transfers;
pub mod placement;
pub mod rules;
pub mod bonuses;
pub mod engine;
pub mod turn;
pub mod trading;
pub mod cards;
pub mod responses;
pub mod step;
pub mod legal;
pub mod construct;
pub mod game;
pub mod laws;
pub mod search;
pub mod env;
pub mod copying;
pub mod trails;
