//! A printer monitor for Waybar: merges what a printer reports into one state and
//! renders it as a bar text, a tooltip and a severity class.
pub mod text;
pub mod model;
pub mod sources;
pub mod merge;
pub mod config;
pub mod theme;
pub mod waybar;
pub mod render;
pub mod notify;
pub mod actions;
pub mod cli;
