//! Runtime platform selection.
//!
//! The operating system is identified once per call from a lowercase name
//! supplied by the surrounding shell; anything unrecognised maps to
//! `Unknown`, for which every probe short-circuits to an absent result.

use vstd::prelude::*;
use crate::text::{bytes_of, eq_bytes};

verus! {

#[derive(Clone, Copy, Debug, PartialEq, Eq, Structural)]
pub enum Platform {
    Windows,
    MacOs,
    Linux,
    Unknown,
}

/// The platform a given identifier selects; only the three exact lowercase
/// names are recognised.
pub open spec fn platform_of(id: Seq<u8>) -> Platform {
    if id == bytes_of("windows") {
        Platform::Windows
    } else if id == bytes_of("macos") {
        Platform::MacOs
    } else if id == bytes_of("linux") {
        Platform::Linux
    } else {
        Platform::Unknown
    }
}

impl Platform {
    /// Maps an operating-system identifier to the strategy set for that
    /// platform.  An unknown identifier is a defined fallback, not an error.
    pub fn select(id: &[u8]) -> (p: Platform)
        ensures
            p == platform_of(id@),
    {
        if eq_bytes(id, "windows".as_bytes()) {
            Platform::Windows
        } else if eq_bytes(id, "macos".as_bytes()) {
            Platform::MacOs
        } else if eq_bytes(id, "linux".as_bytes()) {
            Platform::Linux
        } else {
            Platform::Unknown
        }
    }
}

} // verus!
