pub mod matcher;
pub mod params;
pub mod request;
pub mod plans;
pub mod report;
pub mod run;
