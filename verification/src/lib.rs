pub mod bjnp;
pub mod bridge;
pub mod chmp;
pub mod cli;
pub mod discover;
pub mod error;
pub mod filename;
pub mod scanner;
pub mod text;
pub mod wire;
