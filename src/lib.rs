pub mod config;
pub mod display;
pub mod grid;
pub mod input;
pub mod sgr;
pub mod terminal;
mod text;
pub mod wayland;
