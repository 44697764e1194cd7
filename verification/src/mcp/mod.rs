pub mod debug;
pub mod params;
pub mod tools;
