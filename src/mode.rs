//! The encoding mode.

use vstd::prelude::*;

verus! {

/// The encoding rules in use: basic, canonical or distinguished.
#[derive(Clone, Copy, Debug, PartialEq, Eq, Structural)]
pub enum Mode {
    /// Basic Encoding Rules.
    Ber,
    /// Canonical Encoding Rules.
    Cer,
    /// Distinguished Encoding Rules.
    Der,
}

} // verus!
