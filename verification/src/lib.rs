pub mod config;
pub mod dispatch;
pub mod envmap;
pub mod errors;
pub mod executor;
pub mod host;
pub mod pattern;
pub mod prepare;
pub mod resolve;
pub mod text;
pub mod upload;
