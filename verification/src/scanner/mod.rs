//! OBD-II scanner firmware logic (everything except the memory-mapped drivers).
pub mod obd2;
pub mod isotp;
pub mod flags;
pub mod state;
pub mod ble;
pub mod ssd1306;
pub mod mcp2515;
pub mod cycle;
