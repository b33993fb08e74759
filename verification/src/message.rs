//! Host-side image of the records that cross the plugin boundary.
//!
//! On the wire a message carries a pointer to a string buffer that the
//! plugin allocated and will later free. The shell copies that buffer into
//! a host-owned `String` before anything here sees it, so within the
//! library a message is a plain owned value.

use vstd::prelude::*;

verus! {

/// RGB colour attached to a comment by the plugin.
#[derive(PartialEq, Eq, Structural, Clone, Copy, Debug)]
pub struct Color(pub u8, pub u8, pub u8);

/// One message from the plugin, with its text already copied into
/// host-owned storage. The value doubles as the envelope that must be
/// handed back to the plugin for deallocation.
pub struct Message {
    pub text: String,
    pub color: Color,
}

} // verus!
