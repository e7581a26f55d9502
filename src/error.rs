use vstd::prelude::*;

use crate::hex::HexValue;

verus! {

/// Every way a decode or a resolution can fail.
#[derive(Debug, Clone, Copy, PartialEq, Eq, Structural)]
pub enum ClassParserError {
    /// A read asked for more bytes than remain.
    UnexpectedEndOfInput,
    /// The header does not start with the class file sentinel.
    InvalidMagic(HexValue),
    /// A constant pool tag byte that names no entry kind.
    UnknownConstantTag(u8),
    /// A `Utf8` entry whose bytes are not modified UTF-8.
    InvalidTextEncoding,
    /// The input ended before the declared number of pool slots was filled,
    /// or a wide entry would run past the last declared slot.
    TruncatedConstantPool,
    /// A reference to index 0, past the pool, or to a reserved slot.
    UnresolvedReference(u16),
}

pub type ClassParserResult<T> = Result<T, ClassParserError>;

} // verus!
