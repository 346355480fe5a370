//! Simulated peripherals and off-chip devices.
pub mod mcp2515;
pub mod noise;
pub mod esp32c3;
pub mod iolink_master;
pub mod sps30;
pub mod veml7700;
