pub mod common;
pub mod mock;
pub mod serial;
pub mod tcp;
pub mod visa;
