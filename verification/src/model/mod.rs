pub mod config;
pub mod data;
pub mod error;
pub mod ids;
pub mod limits;
pub mod state;
pub mod response;
pub mod redaction;
