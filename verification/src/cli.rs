//! The configuration handed in by the command-line layer.

use vstd::prelude::*;

verus! {

/// The command-line options, as plain values.
///
/// The argument-parsing layer fills this in and hands it to the renderer:
/// the input file (standard input when absent), the `-C`/`--canonical` flag
/// (the canonical display is always on, so it is accepted and ignored), the
/// byte count to interpret (`usize::MAX` meaning unbounded), the bytes to
/// skip first, the flag that disables squeezing, and the colour setting
/// (accepted as configuration, not consumed by the renderer).
pub struct Cli {
    pub file: Option<String>,
    pub canonical: bool,
    pub length: usize,
    pub skip: usize,
    pub no_squeeze: bool,
    pub color: String,
}

impl Cli {
    /// Whether squeezing is enabled: `-v`/`--no-squeeze` inverts it.
    pub open spec fn squeeze_spec(self) -> bool {
        !self.no_squeeze
    }

    /// Whether squeezing is enabled under these options.
    pub fn squeeze_enabled(&self) -> (r: bool)
        ensures
            r == self.squeeze_spec(),
    {
        !self.no_squeeze
    }
}

} // verus!
