//! The channels that state and topics are made of.
pub mod broadcast;
pub mod watch;
