pub mod color;
pub mod config;
pub mod error;
pub mod render;
pub mod state;
pub mod text;
