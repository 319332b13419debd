pub mod api;
pub mod apis;
pub mod config;
pub mod error;
pub mod form;
pub mod game_progress;
pub mod handlers;
pub mod ids;
pub mod image_upload;
pub mod openapi;
pub mod problem;
pub mod repository;
pub mod room_summaries;
pub mod text;
pub mod uploads;
pub mod unicode;
