//! Room-state mutation rules of a chat-protocol server: identifier and alias validation,
//! power-level defaults, and the ordered event runs that create and replace rooms.

pub mod create;
pub mod error;
pub mod ident;
pub mod json;
pub mod memory;
pub mod pdu;
pub mod power_levels;
pub mod upgrade;
