pub mod applet;
pub mod config;
pub mod popup;
pub mod resources;
pub mod snapshot;
pub mod sort;
pub mod text;
