use vstd::prelude::*;

verus! {

/// A 32-bit value meant to be shown in hexadecimal (the magic number).
#[derive(Debug, Clone, Copy, PartialEq, Eq, Structural)]
pub struct HexValue {
    pub value: u32,
}

/// Wraps an integer as a `HexValue`.
pub trait HexValueExt: Sized {
    fn hex(self) -> HexValue;
}

impl HexValueExt for u32 {
    fn hex(self) -> HexValue {
        HexValue { value: self }
    }
}

} // verus!
