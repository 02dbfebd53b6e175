//! Download planning and launch-argument synthesis for a game installation.
pub mod error;
pub mod models;
pub mod text;
pub mod state;
pub mod instance;
pub mod launch;
pub mod plan;
pub mod cleanup;
