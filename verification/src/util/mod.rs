pub mod decimal;
pub mod encoding;
pub mod ipaddr;
pub mod modbus;
pub mod protocol;
pub mod sums;
pub mod text;
