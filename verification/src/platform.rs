//! What the machine that the shell runs on decides.

use vstd::prelude::*;

verus! {

/// The operating systems that the shell tells apart.
#[derive(Clone, Copy, Debug, PartialEq, Eq, Structural)]
pub enum Platform {
    MacOs,
    Windows,
    Linux,
    /// Another Unix.
    Unix,
    Other,
}

/// The processor families that the shell tells apart.
#[derive(Clone, Copy, Debug, PartialEq, Eq, Structural)]
pub enum Arch {
    X86,
    X64,
    Arm64,
    Other,
}

/// The order of the bytes of a number in memory.
#[derive(Clone, Copy, Debug, PartialEq, Eq, Structural)]
pub enum ByteOrder {
    Little,
    Big,
}

impl Platform {
    /// The device commands exist on the three desktop systems only.
    pub open spec fn is_desktop(self) -> bool {
        self is MacOs || self is Windows || self is Linux
    }

    /// Whether this is one of the three desktop systems.
    pub fn desktop(self) -> (r: bool)
        ensures
            r == self.is_desktop(),
    {
        match self {
            Platform::MacOs | Platform::Windows | Platform::Linux => true,
            _ => false,
        }
    }
}

} // verus!
