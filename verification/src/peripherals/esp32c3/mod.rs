//! ESP32-C3 radio-side blocks.
pub mod bt;
pub mod virtual_wifi_inet;
