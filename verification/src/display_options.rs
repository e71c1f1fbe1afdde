//! Option records for the display modes that take configuration.

use vstd::prelude::*;

verus! {

/// Options for scientific / exponential notation.
#[derive(Debug, Clone, Copy, PartialEq, Eq, Structural)]
pub struct ScientificOptions {
    /// Print the `e` of the notation uppercase (`1E0` instead of `1e0`).
    pub uppercase: bool,
}

impl Default for ScientificOptions {
    fn default() -> (r: Self)
        ensures
            !r.uppercase,
    {
        Self { uppercase: false }
    }
}

/// Options for hexadecimal display.
#[derive(Debug, Clone, Copy, PartialEq, Eq, Structural)]
pub struct HexOptions {
    /// Print hex digits uppercase - `1A2B` vs `1a2b`.
    pub uppercase: bool,
    /// Prefix hex strings with `0x`.
    pub prefix: bool,
    /// Zero-pad hex strings to the full width of the source type - `0001` vs `1`.
    pub padded: bool,
}

impl Default for HexOptions {
    fn default() -> (r: Self)
        ensures
            !r.uppercase,
            r.prefix,
            r.padded,
    {
        Self { uppercase: false, prefix: true, padded: true }
    }
}

/// Options for binary display.
#[derive(Debug, Clone, Copy, PartialEq, Eq, Structural)]
pub struct BinaryOptions {
    /// Zero-pad binary strings to the full width of the source type - `00000001` vs `1`.
    pub padded: bool,
}

impl Default for BinaryOptions {
    fn default() -> (r: Self)
        ensures
            r.padded,
    {
        Self { padded: true }
    }
}

} // verus!
