//! The call bridge between a script process and a control process: a typed value codec,
//! one-way messages with typed arguments, a router for inbound messages, a registry of
//! exposed functions that survives script-context recreation, and a rendezvous that turns
//! a one-way send into a blocking call.
use vstd::prelude::*;

pub mod cef_base;
pub mod codec;
pub mod jni_name;
pub mod message;
pub mod paths;
pub mod registry;
pub mod rendezvous;
pub mod router;
pub mod unzip;
mod text;
pub mod value;

verus! {

} // verus!
