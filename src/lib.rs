//! Ownership-transfer and dispatch core of a cross-runtime invocation bridge.
//!
//! - `transfer`: the boundary buffer, the registry of buffers handed to the
//!   caller, and the request view's length.
//! - `dispatch`: the single handler slot and the routing of a method name and
//!   request bytes to it.
//! - `boundary`: what the C-ABI entry points decide: reading method names and
//!   turning every failure into an empty answer.
//! - `message`: byte encodings of the health and cache messages.
//! - `service`: method routing to typed operations, a mock service and its
//!   typed clients.
pub mod boundary;
pub mod dispatch;
pub mod message;
pub mod service;
pub mod transfer;
