//! A minimal demonstration plugin: one callable entry point.
//!
//! The sandboxed build of this plugin hands its message to the host's
//! printing capability; here the function returns the message for the
//! caller to render.

use vstd::prelude::*;

verus! {

/// The message produced when the host invokes the plugin's entry point.
pub fn call_from_rust() -> (r: String)
    ensures
        r@ == "You call me from Rust but i was actually a wasm function DAYUMN"@,
{
    "You call me from Rust but i was actually a wasm function DAYUMN".to_owned()
}

} // verus!
