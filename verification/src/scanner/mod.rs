pub mod commands;
pub mod image;
pub mod session;
