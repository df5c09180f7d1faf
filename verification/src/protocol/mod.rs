//! Protocol module: message types and the origin and replica state machines.
pub mod messages;
pub mod origin;
pub mod pages;
pub mod replica;
pub mod session;
pub mod step;
