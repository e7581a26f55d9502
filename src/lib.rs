//! Decoder for the binary class file format: header, constant pool with
//! tag-dispatched entries, and index-based reference resolution.

pub mod class_file;
pub mod constant_pool;
pub mod cursor;
pub mod encode;
pub mod error;
pub mod hex;
pub mod mutf8;
pub mod resolve;

pub use class_file::{parse_class_file, ClassFile, ClassFileModel, ConstantPool, CLASS_FILE_MAGIC};
pub use constant_pool::{
    ClassConstant, ConstantPoolEntry, ConstantPoolReference, ConstantPoolTag, NameAndTypeConstant,
    ReferenceConstant, ReferenceType, StringConstant, UTF8Constant,
};
pub use cursor::ClassFileParser;
pub use error::{ClassParserError, ClassParserResult};
pub use hex::{HexValue, HexValueExt};
pub use mutf8::is_valid_mutf8;
pub use resolve::{lookup, resolve_constant_pool, resolve_reference};
