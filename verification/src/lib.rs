//! A verified core for bridging Rust objects into Qt's meta-object system.
pub mod registry;
pub mod qproperty;
pub mod meta;
pub mod access;
