//! Scoring, ranking and session checks for a city-guessing game.

pub mod city;
pub mod db;
pub mod error;
pub mod leaderboard;
pub mod maps;
pub mod page;
pub mod picture;
pub mod rank;
pub mod session;
pub mod user;

pub use picture::crop_image;
pub use session::get_timestamp_after_8_hours;
