//! Protocol versions as the two bytes that stand on the wire.

use vstd::prelude::*;

verus! {

/// A protocol version, not yet interpreted.
#[derive(Clone, Copy, Debug, PartialEq, Eq, Structural, Hash)]
pub struct RawVersion {
    pub major: u8,
    pub minor: u8,
}

impl RawVersion {
    /// Whether the version is one that a record layer may carry: SSL 3.0
    /// and every TLS version up to 1.3.
    pub open spec fn is_known(self) -> bool {
        self.major == 3 && self.minor <= 4
    }

    pub fn known(&self) -> (r: bool)
        ensures
            r == self.is_known(),
    {
        self.major == 3 && self.minor <= 4
    }
}

} // verus!
