//! Protocol-level records that carry plain values.

use vstd::prelude::*;

verus! {

/// Who is connecting, as sent during initialization.
pub struct ClientInfo {
    pub name: String,
    pub version: String,
}

} // verus!
