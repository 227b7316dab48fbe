//! Command-dispatch core for a servo controller driven over a serial link.
//!
//! A line of ASCII text arrives from a transport, is trimmed and parsed into
//! a typed command, travels through a bounded first-in first-out request
//! channel, and is finally routed by a paced dispatcher to one of three
//! servo actuators as a pulse width.

pub mod actuator;
pub mod channel;
pub mod command;
pub mod dispatch;
pub mod transport;
pub mod trim;
