//! Discovery and normalisation of game-launcher manifests into one `Game` record.
pub mod error;
pub mod text;
pub mod path;
pub mod game;
pub mod manifest;
pub mod steam;
pub mod origin;
pub mod scan;
pub mod epicgames;
