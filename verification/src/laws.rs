//! What the operations of the library promise, whatever they are given.

pub mod configuring;
pub mod following;
pub mod running;
pub mod showing;
pub mod writing;
