//! Firmware flashing for microcontrollers: Intel-HEX decoding, chip
//! identification, and the UART bootloader protocol, as pure decision logic.
//!
//! Nothing in this crate touches a serial port or a debug probe. Each engine
//! is a state machine: it hands out the next [`link::Action`] to perform and
//! is told what came of it through a [`link::Event`].

pub mod chips;
pub mod config;
pub mod frames;
pub mod general_uart;
pub mod get;
pub mod hex_to_bin;
pub mod link;
pub mod log;
pub mod peripheral;
pub mod swd;
pub mod text;
pub mod traces;
pub mod write_flash;
