use vstd::prelude::*;

use crate::cursor::{u16_at, u32_at, ClassFileParser};
use crate::error::ClassParserError;
use crate::mutf8::{is_valid_mutf8, valid_mutf8};

verus! {

/// The one-byte discriminator of a constant pool entry.
#[derive(Debug, Clone, Copy, PartialEq, Eq, Structural)]
pub enum ConstantPoolTag {
    Class,
    FieldReference,
    MethodReference,
    InterfaceMethodReference,
    String,
    Integer,
    Float,
    Long,
    Double,
    NameAndType,
    Utf8,
    MethodHandle,
    MethodType,
    Dynamic,
    InvokeDynamic,
    Module,
    Package,
}

/// The wire code of each tag.
pub open spec fn tag_code(t: ConstantPoolTag) -> u8 {
    match t {
        ConstantPoolTag::Utf8 => 1,
        ConstantPoolTag::Integer => 3,
        ConstantPoolTag::Float => 4,
        ConstantPoolTag::Long => 5,
        ConstantPoolTag::Double => 6,
        ConstantPoolTag::Class => 7,
        ConstantPoolTag::String => 8,
        ConstantPoolTag::FieldReference => 9,
        ConstantPoolTag::MethodReference => 10,
        ConstantPoolTag::InterfaceMethodReference => 11,
        ConstantPoolTag::NameAndType => 12,
        ConstantPoolTag::MethodHandle => 15,
        ConstantPoolTag::MethodType => 16,
        ConstantPoolTag::Dynamic => 17,
        ConstantPoolTag::InvokeDynamic => 18,
        ConstantPoolTag::Module => 19,
        ConstantPoolTag::Package => 20,
    }
}

/// The tag whose wire code is `b`, if any.
pub open spec fn tag_of_byte(b: u8) -> Option<ConstantPoolTag> {
    if b == 1 {
        Some(ConstantPoolTag::Utf8)
    } else if b == 3 {
        Some(ConstantPoolTag::Integer)
    } else if b == 4 {
        Some(ConstantPoolTag::Float)
    } else if b == 5 {
        Some(ConstantPoolTag::Long)
    } else if b == 6 {
        Some(ConstantPoolTag::Double)
    } else if b == 7 {
        Some(ConstantPoolTag::Class)
    } else if b == 8 {
        Some(ConstantPoolTag::String)
    } else if b == 9 {
        Some(ConstantPoolTag::FieldReference)
    } else if b == 10 {
        Some(ConstantPoolTag::MethodReference)
    } else if b == 11 {
        Some(ConstantPoolTag::InterfaceMethodReference)
    } else if b == 12 {
        Some(ConstantPoolTag::NameAndType)
    } else if b == 15 {
        Some(ConstantPoolTag::MethodHandle)
    } else if b == 16 {
        Some(ConstantPoolTag::MethodType)
    } else if b == 17 {
        Some(ConstantPoolTag::Dynamic)
    } else if b == 18 {
        Some(ConstantPoolTag::InvokeDynamic)
    } else if b == 19 {
        Some(ConstantPoolTag::Module)
    } else if b == 20 {
        Some(ConstantPoolTag::Package)
    } else {
        None
    }
}

impl ConstantPoolTag {
    /// The tag for a raw tag byte; unknown bytes are an error, never a panic.
    pub fn from_byte(value: u8) -> (r: Result<ConstantPoolTag, ClassParserError>)
        ensures
            r == match tag_of_byte(value) {
                Some(t) => Ok(t),
                None => Err(ClassParserError::UnknownConstantTag(value)),
            },
    {
        match value {
            1 => Ok(ConstantPoolTag::Utf8),
            3 => Ok(ConstantPoolTag::Integer),
            4 => Ok(ConstantPoolTag::Float),
            5 => Ok(ConstantPoolTag::Long),
            6 => Ok(ConstantPoolTag::Double),
            7 => Ok(ConstantPoolTag::Class),
            8 => Ok(ConstantPoolTag::String),
            9 => Ok(ConstantPoolTag::FieldReference),
            10 => Ok(ConstantPoolTag::MethodReference),
            11 => Ok(ConstantPoolTag::InterfaceMethodReference),
            12 => Ok(ConstantPoolTag::NameAndType),
            15 => Ok(ConstantPoolTag::MethodHandle),
            16 => Ok(ConstantPoolTag::MethodType),
            17 => Ok(ConstantPoolTag::Dynamic),
            18 => Ok(ConstantPoolTag::InvokeDynamic),
            19 => Ok(ConstantPoolTag::Module),
            20 => Ok(ConstantPoolTag::Package),
            _ => Err(ClassParserError::UnknownConstantTag(value)),
        }
    }

    /// The wire code of this tag.
    pub fn code(&self) -> (r: u8)
        ensures
            r == tag_code(*self),
            tag_of_byte(r) == Some(*self),
    {
        match self {
            ConstantPoolTag::Utf8 => 1,
            ConstantPoolTag::Integer => 3,
            ConstantPoolTag::Float => 4,
            ConstantPoolTag::Long => 5,
            ConstantPoolTag::Double => 6,
            ConstantPoolTag::Class => 7,
            ConstantPoolTag::String => 8,
            ConstantPoolTag::FieldReference => 9,
            ConstantPoolTag::MethodReference => 10,
            ConstantPoolTag::InterfaceMethodReference => 11,
            ConstantPoolTag::NameAndType => 12,
            ConstantPoolTag::MethodHandle => 15,
            ConstantPoolTag::MethodType => 16,
            ConstantPoolTag::Dynamic => 17,
            ConstantPoolTag::InvokeDynamic => 18,
            ConstantPoolTag::Module => 19,
            ConstantPoolTag::Package => 20,
        }
    }
}

/// An index into the constant pool held by another entry. Decoding records
/// the raw index; resolution checks it against the assembled pool.
#[derive(Debug, Clone, Copy, PartialEq, Eq, Structural)]
pub enum ConstantPoolReference {
    Unresolved { index: u16 },
    Resolved { index: u16 },
}

impl ConstantPoolReference {
    /// The pool index this reference names.
    pub open spec fn spec_index(self) -> u16 {
        match self {
            ConstantPoolReference::Unresolved { index } => index,
            ConstantPoolReference::Resolved { index } => index,
        }
    }

    /// The pool index this reference names.
    pub fn index(&self) -> (r: u16)
        ensures
            r == self.spec_index(),
    {
        match self {
            ConstantPoolReference::Unresolved { index } => *index,
            ConstantPoolReference::Resolved { index } => *index,
        }
    }
}

impl From<u16> for ConstantPoolReference {
    /// An unresolved reference to `value`.
    fn from(value: u16) -> ConstantPoolReference {
        ConstantPoolReference::Unresolved { index: value }
    }
}

impl vstd::std_specs::convert::FromSpecImpl<u16> for ConstantPoolReference {
    open spec fn obeys_from_spec() -> bool {
        true
    }

    open spec fn from_spec(v: u16) -> ConstantPoolReference {
        ConstantPoolReference::Unresolved { index: v }
    }
}

/// The unresolved reference stored big-endian at `s[i]`, `s[i + 1]`.
pub open spec fn reference_at(s: Seq<u8>, i: int) -> ConstantPoolReference {
    ConstantPoolReference::Unresolved { index: u16_at(s, i) as u16 }
}

/// Which of the three member reference kinds an entry is.
#[derive(Debug, Clone, Copy, PartialEq, Eq, Structural)]
pub enum ReferenceType {
    Field,
    Method,
    InterfaceMethod,
}

/// A field, method or interface method reference.
#[derive(Debug, Clone, Copy, PartialEq, Eq, Structural)]
pub struct ReferenceConstant {
    pub reference_type: ReferenceType,
    pub class: ConstantPoolReference,
    pub name_and_type: ConstantPoolReference,
}

/// A class or interface, named by a `Utf8` entry.
#[derive(Debug, Clone, Copy, PartialEq, Eq, Structural)]
pub struct ClassConstant {
    pub name: ConstantPoolReference,
}

/// A member name paired with its descriptor.
#[derive(Debug, Clone, Copy, PartialEq, Eq, Structural)]
pub struct NameAndTypeConstant {
    pub name: ConstantPoolReference,
    pub descriptor: ConstantPoolReference,
}

/// Text in modified UTF-8, kept as its bytes so that every valid payload
/// (including `C0 80` and surrogate halves) is reproduced exactly.
#[derive(Debug, Clone, PartialEq, Eq)]
pub struct UTF8Constant {
    pub bytes: Vec<u8>,
}

impl View for UTF8Constant {
    type V = Seq<u8>;

    open spec fn view(&self) -> Seq<u8> {
        self.bytes@
    }
}

/// A string literal, whose text is a `Utf8` entry.
#[derive(Debug, Clone, Copy, PartialEq, Eq, Structural)]
pub struct StringConstant {
    pub string: ConstantPoolReference,
}

/// One decoded constant pool entry. `Float` and `Double` hold the raw
/// IEEE-754 bits.
#[derive(Debug, Clone, PartialEq, Eq)]
pub enum ConstantPoolEntry {
    Class(ClassConstant),
    Reference(ReferenceConstant),
    NameAndType(NameAndTypeConstant),
    Utf8(UTF8Constant),
    String(StringConstant),
    Integer(i32),
    Float(u32),
    Long(i64),
    Double(u64),
    MethodHandle { reference_kind: u8, reference: ConstantPoolReference },
    MethodType { descriptor: ConstantPoolReference },
    Dynamic { bootstrap_method_attr_index: u16, name_and_type: ConstantPoolReference },
    InvokeDynamic { bootstrap_method_attr_index: u16, name_and_type: ConstantPoolReference },
    Module { name: ConstantPoolReference },
    Package { name: ConstantPoolReference },
}

/// The mathematical value of a `ConstantPoolEntry`: the same cases, with
/// text as a byte sequence.
pub enum EntryModel {
    Class(ClassConstant),
    Reference(ReferenceConstant),
    NameAndType(NameAndTypeConstant),
    Utf8(Seq<u8>),
    String(StringConstant),
    Integer(i32),
    Float(u32),
    Long(i64),
    Double(u64),
    MethodHandle { reference_kind: u8, reference: ConstantPoolReference },
    MethodType { descriptor: ConstantPoolReference },
    Dynamic { bootstrap_method_attr_index: u16, name_and_type: ConstantPoolReference },
    InvokeDynamic { bootstrap_method_attr_index: u16, name_and_type: ConstantPoolReference },
    Module { name: ConstantPoolReference },
    Package { name: ConstantPoolReference },
}

impl View for ConstantPoolEntry {
    type V = EntryModel;

    open spec fn view(&self) -> EntryModel {
        match *self {
            ConstantPoolEntry::Class(c) => EntryModel::Class(c),
            ConstantPoolEntry::Reference(c) => EntryModel::Reference(c),
            ConstantPoolEntry::NameAndType(c) => EntryModel::NameAndType(c),
            ConstantPoolEntry::Utf8(u) => EntryModel::Utf8(u.bytes@),
            ConstantPoolEntry::String(c) => EntryModel::String(c),
            ConstantPoolEntry::Integer(v) => EntryModel::Integer(v),
            ConstantPoolEntry::Float(v) => EntryModel::Float(v),
            ConstantPoolEntry::Long(v) => EntryModel::Long(v),
            ConstantPoolEntry::Double(v) => EntryModel::Double(v),
            ConstantPoolEntry::MethodHandle { reference_kind, reference } => EntryModel::MethodHandle {
                reference_kind,
                reference,
            },
            ConstantPoolEntry::MethodType { descriptor } => EntryModel::MethodType { descriptor },
            ConstantPoolEntry::Dynamic { bootstrap_method_attr_index, name_and_type } =>
                EntryModel::Dynamic { bootstrap_method_attr_index, name_and_type },
            ConstantPoolEntry::InvokeDynamic { bootstrap_method_attr_index, name_and_type } =>
                EntryModel::InvokeDynamic { bootstrap_method_attr_index, name_and_type },
            ConstantPoolEntry::Module { name } => EntryModel::Module { name },
            ConstantPoolEntry::Package { name } => EntryModel::Package { name },
        }
    }
}

/// `Long` and `Double` entries take two pool slots.
pub open spec fn is_wide(e: EntryModel) -> bool {
    e is Long || e is Double
}

/// Two's complement reading of a 32-bit unsigned value.
pub open spec fn signed32(v: int) -> int {
    if v < 0x8000_0000 { v } else { v - 0x1_0000_0000 }
}

/// Two's complement reading of a 64-bit unsigned value.
pub open spec fn signed64(v: int) -> int {
    if v < 0x8000_0000_0000_0000 { v } else { v - 0x1_0000_0000_0000_0000 }
}

/// Big-endian value of the eight bytes of `s` starting at `i`.
pub open spec fn u64_at(s: Seq<u8>, i: int) -> int {
    u32_at(s, i) * 0x1_0000_0000 + u32_at(s, i + 4)
}

/// Number of payload bytes after the tag, for every tag but `Utf8`.
pub open spec fn fixed_width(t: ConstantPoolTag) -> int {
    match t {
        ConstantPoolTag::Class | ConstantPoolTag::String | ConstantPoolTag::MethodType
        | ConstantPoolTag::Module | ConstantPoolTag::Package => 2,
        ConstantPoolTag::MethodHandle => 3,
        ConstantPoolTag::Long | ConstantPoolTag::Double => 8,
        _ => 4,
    }
}

/// The member reference kind of a tag, if it is one of the three.
pub open spec fn reference_type_of(t: ConstantPoolTag) -> Option<ReferenceType> {
    match t {
        ConstantPoolTag::FieldReference => Some(ReferenceType::Field),
        ConstantPoolTag::MethodReference => Some(ReferenceType::Method),
        ConstantPoolTag::InterfaceMethodReference => Some(ReferenceType::InterfaceMethod),
        _ => None,
    }
}

/// The entry with fixed-width tag `t` whose payload starts `p`.
pub open spec fn fixed_entry(t: ConstantPoolTag, p: Seq<u8>) -> EntryModel {
    match t {
        ConstantPoolTag::Class => EntryModel::Class(ClassConstant { name: reference_at(p, 0) }),
        ConstantPoolTag::String => EntryModel::String(StringConstant { string: reference_at(p, 0) }),
        ConstantPoolTag::MethodType => EntryModel::MethodType { descriptor: reference_at(p, 0) },
        ConstantPoolTag::Module => EntryModel::Module { name: reference_at(p, 0) },
        ConstantPoolTag::Package => EntryModel::Package { name: reference_at(p, 0) },
        ConstantPoolTag::MethodHandle => EntryModel::MethodHandle {
            reference_kind: p[0],
            reference: reference_at(p, 1),
        },
        ConstantPoolTag::NameAndType => EntryModel::NameAndType(
            NameAndTypeConstant { name: reference_at(p, 0), descriptor: reference_at(p, 2) },
        ),
        ConstantPoolTag::Dynamic => EntryModel::Dynamic {
            bootstrap_method_attr_index: u16_at(p, 0) as u16,
            name_and_type: reference_at(p, 2),
        },
        ConstantPoolTag::InvokeDynamic => EntryModel::InvokeDynamic {
            bootstrap_method_attr_index: u16_at(p, 0) as u16,
            name_and_type: reference_at(p, 2),
        },
        ConstantPoolTag::Integer => EntryModel::Integer(signed32(u32_at(p, 0)) as i32),
        ConstantPoolTag::Float => EntryModel::Float(u32_at(p, 0) as u32),
        ConstantPoolTag::Long => EntryModel::Long(signed64(u64_at(p, 0)) as i64),
        ConstantPoolTag::Double => EntryModel::Double(u64_at(p, 0) as u64),
        ConstantPoolTag::FieldReference => EntryModel::Reference(
            ReferenceConstant {
                reference_type: ReferenceType::Field,
                class: reference_at(p, 0),
                name_and_type: reference_at(p, 2),
            },
        ),
        ConstantPoolTag::MethodReference => EntryModel::Reference(
            ReferenceConstant {
                reference_type: ReferenceType::Method,
                class: reference_at(p, 0),
                name_and_type: reference_at(p, 2),
            },
        ),
        ConstantPoolTag::InterfaceMethodReference => EntryModel::Reference(
            ReferenceConstant {
                reference_type: ReferenceType::InterfaceMethod,
                class: reference_at(p, 0),
                name_and_type: reference_at(p, 2),
            },
        ),
        ConstantPoolTag::Utf8 => EntryModel::Utf8(Seq::empty()),
    }
}

/// Decoding of the payload that follows tag `t`: the entry and the bytes
/// after it, or the error.
pub open spec fn decode_payload(t: ConstantPoolTag, p: Seq<u8>) -> Result<
    (EntryModel, Seq<u8>),
    ClassParserError,
> {
    if t is Utf8 {
        if p.len() < 2 || p.len() < 2 + u16_at(p, 0) {
            Err(ClassParserError::UnexpectedEndOfInput)
        } else {
            let n = u16_at(p, 0);
            let text = p.subrange(2, 2 + n);
            if valid_mutf8(text) {
                Ok((EntryModel::Utf8(text), p.skip(2 + n)))
            } else {
                Err(ClassParserError::InvalidTextEncoding)
            }
        }
    } else if p.len() < fixed_width(t) {
        Err(ClassParserError::UnexpectedEndOfInput)
    } else {
        Ok((fixed_entry(t, p), p.skip(fixed_width(t))))
    }
}

/// Decoding of one entry, tag byte first, from the front of `s`.
pub open spec fn decode_entry(s: Seq<u8>) -> Result<(EntryModel, Seq<u8>), ClassParserError> {
    if s.len() == 0 {
        Err(ClassParserError::UnexpectedEndOfInput)
    } else {
        match tag_of_byte(s[0]) {
            None => Err(ClassParserError::UnknownConstantTag(s[0])),
            Some(t) => decode_payload(t, s.skip(1)),
        }
    }
}

/// `r` is what decoding the payload of tag `t` from `before` gives, and
/// `after` is what is left when it succeeds.
pub open spec fn payload_result(
    t: ConstantPoolTag,
    before: Seq<u8>,
    after: Seq<u8>,
    r: Result<EntryModel, ClassParserError>,
) -> bool {
    match decode_payload(t, before) {
        Ok((m, rest)) => r == Ok::<EntryModel, ClassParserError>(m) && after == rest,
        Err(e) => r == Err::<EntryModel, ClassParserError>(e),
    }
}

fn to_i32(v: u32) -> (r: i32)
    ensures
        r as int == signed32(v as int),
{
    if v < 0x8000_0000 {
        v as i32
    } else {
        ((v - 0x8000_0000) as i32) - 0x7FFF_FFFF - 1
    }
}

fn to_i64(v: u64) -> (r: i64)
    ensures
        r as int == signed64(v as int),
{
    if v < 0x8000_0000_0000_0000 {
        v as i64
    } else {
        ((v - 0x8000_0000_0000_0000) as i64) - 0x7FFF_FFFF_FFFF_FFFF - 1
    }
}

/// Reads an eight-byte big-endian value as two four-byte halves.
fn read_u64(parser: &mut ClassFileParser) -> (r: Result<u64, ClassParserError>)
    ensures
        old(parser)@.len() < 8 ==> r == Err::<u64, ClassParserError>(
            ClassParserError::UnexpectedEndOfInput,
        ),
        old(parser)@.len() >= 8 ==> r is Ok && r->Ok_0 as int == u64_at(old(parser)@, 0)
            && final(parser)@ == old(parser)@.skip(8),
{
    let ghost s = parser@;
    let hi = parser.read_u4()?;
    let lo = parser.read_u4()?;
    assert(u32_at(s.skip(4), 0) == u32_at(s, 4));
    assert(parser@ =~= s.skip(8));
    Ok((hi as u64) * 0x1_0000_0000 + (lo as u64))
}

impl ReferenceConstant {
    /// Decodes the payload of a field, method or interface method reference;
    /// any other tag is refused.
    pub fn parse(parser: &mut ClassFileParser, tag: ConstantPoolTag) -> (r: Result<
        ReferenceConstant,
        ClassParserError,
    >)
        ensures
            reference_type_of(tag) is None ==> r == Err::<ReferenceConstant, ClassParserError>(
                ClassParserError::UnknownConstantTag(tag_code(tag)),
            ),
            reference_type_of(tag) is Some ==> payload_result(
                tag,
                old(parser)@,
                final(parser)@,
                match r {
                    Ok(c) => Ok(EntryModel::Reference(c)),
                    Err(e) => Err(e),
                },
            ),
    {
        let ghost s = parser@;
        let reference_type = match tag {
            ConstantPoolTag::FieldReference => ReferenceType::Field,
            ConstantPoolTag::MethodReference => ReferenceType::Method,
            ConstantPoolTag::InterfaceMethodReference => ReferenceType::InterfaceMethod,
            _ => return Err(ClassParserError::UnknownConstantTag(tag.code())),
        };
        let class_index = parser.read_u2()?;
        let name_and_type_index = parser.read_u2()?;
        assert(u16_at(s.skip(2), 0) == u16_at(s, 2));
        assert(parser@ =~= s.skip(4));
        Ok(
            ReferenceConstant {
                reference_type,
                class: ConstantPoolReference::from(class_index),
                name_and_type: ConstantPoolReference::from(name_and_type_index),
            },
        )
    }
}

impl ClassConstant {
    /// Decodes the payload of a `Class` entry.
    pub fn parse(parser: &mut ClassFileParser, _tag: ConstantPoolTag) -> (r: Result<
        ClassConstant,
        ClassParserError,
    >)
        ensures
            payload_result(
                ConstantPoolTag::Class,
                old(parser)@,
                final(parser)@,
                match r {
                    Ok(c) => Ok(EntryModel::Class(c)),
                    Err(e) => Err(e),
                },
            ),
    {
        let name_index = parser.read_u2()?;
        Ok(ClassConstant { name: ConstantPoolReference::from(name_index) })
    }
}

impl NameAndTypeConstant {
    /// Decodes the payload of a `NameAndType` entry.
    pub fn parse(parser: &mut ClassFileParser, _tag: ConstantPoolTag) -> (r: Result<
        NameAndTypeConstant,
        ClassParserError,
    >)
        ensures
            payload_result(
                ConstantPoolTag::NameAndType,
                old(parser)@,
                final(parser)@,
                match r {
                    Ok(c) => Ok(EntryModel::NameAndType(c)),
                    Err(e) => Err(e),
                },
            ),
    {
        let ghost s = parser@;
        let name_index = parser.read_u2()?;
        let descriptor_index = parser.read_u2()?;
        assert(u16_at(s.skip(2), 0) == u16_at(s, 2));
        assert(parser@ =~= s.skip(4));
        Ok(
            NameAndTypeConstant {
                name: ConstantPoolReference::from(name_index),
                descriptor: ConstantPoolReference::from(descriptor_index),
            },
        )
    }
}

impl UTF8Constant {
    /// Decodes a length-prefixed `Utf8` payload and checks that it is
    /// modified UTF-8.
    pub fn parse(parser: &mut ClassFileParser, _tag: ConstantPoolTag) -> (r: Result<
        UTF8Constant,
        ClassParserError,
    >)
        ensures
            payload_result(
                ConstantPoolTag::Utf8,
                old(parser)@,
                final(parser)@,
                match r {
                    Ok(c) => Ok(EntryModel::Utf8(c@)),
                    Err(e) => Err(e),
                },
            ),
    {
        let ghost s = parser@;
        let length = parser.read_u2()?;
        let bytes = parser.read_n_bytes(length as usize)?;
        assert(bytes@ =~= s.subrange(2, 2 + length));
        assert(parser@ =~= s.skip(2 + length));
        if !is_valid_mutf8(&bytes) {
            return Err(ClassParserError::InvalidTextEncoding);
        }
        Ok(UTF8Constant { bytes })
    }
}

impl StringConstant {
    /// Decodes the payload of a `String` entry.
    pub fn parse(parser: &mut ClassFileParser, _tag: ConstantPoolTag) -> (r: Result<
        StringConstant,
        ClassParserError,
    >)
        ensures
            payload_result(
                ConstantPoolTag::String,
                old(parser)@,
                final(parser)@,
                match r {
                    Ok(c) => Ok(EntryModel::String(c)),
                    Err(e) => Err(e),
                },
            ),
    {
        let string_index = parser.read_u2()?;
        Ok(StringConstant { string: ConstantPoolReference::from(string_index) })
    }
}

impl ClassFileParser {
    /// Reads one tag byte and decodes the entry it announces.
    pub fn read_constant_pool_info(&mut self) -> (r: Result<ConstantPoolEntry, ClassParserError>)
        ensures
            match decode_entry(old(self)@) {
                Ok((m, rest)) => r is Ok && r->Ok_0@ == m && final(self)@ == rest,
                Err(e) => r == Err::<ConstantPoolEntry, ClassParserError>(e),
            },
    {
        let ghost s = self@;
        let tag_byte = self.read_u1()?;
        let tag = ConstantPoolTag::from_byte(tag_byte)?;
        let ghost p = self@;
        assert(p == s.skip(1));
        match tag {
            ConstantPoolTag::FieldReference
            | ConstantPoolTag::MethodReference
            | ConstantPoolTag::InterfaceMethodReference => {
                let c = ReferenceConstant::parse(self, tag)?;
                Ok(ConstantPoolEntry::Reference(c))
            },
            ConstantPoolTag::Class => {
                let c = ClassConstant::parse(self, tag)?;
                Ok(ConstantPoolEntry::Class(c))
            },
            ConstantPoolTag::NameAndType => {
                let c = NameAndTypeConstant::parse(self, tag)?;
                Ok(ConstantPoolEntry::NameAndType(c))
            },
            ConstantPoolTag::Utf8 => {
                let c = UTF8Constant::parse(self, tag)?;
                Ok(ConstantPoolEntry::Utf8(c))
            },
            ConstantPoolTag::String => {
                let c = StringConstant::parse(self, tag)?;
                Ok(ConstantPoolEntry::String(c))
            },
            ConstantPoolTag::Integer => {
                let v = self.read_u4()?;
                Ok(ConstantPoolEntry::Integer(to_i32(v)))
            },
            ConstantPoolTag::Float => {
                let v = self.read_u4()?;
                Ok(ConstantPoolEntry::Float(v))
            },
            ConstantPoolTag::Long => {
                let v = read_u64(self)?;
                Ok(ConstantPoolEntry::Long(to_i64(v)))
            },
            ConstantPoolTag::Double => {
                let v = read_u64(self)?;
                Ok(ConstantPoolEntry::Double(v))
            },
            ConstantPoolTag::MethodHandle => {
                let reference_kind = self.read_u1()?;
                let index = self.read_u2()?;
                assert(u16_at(p.skip(1), 0) == u16_at(p, 1));
                assert(self@ =~= p.skip(3));
                Ok(
                    ConstantPoolEntry::MethodHandle {
                        reference_kind,
                        reference: ConstantPoolReference::from(index),
                    },
                )
            },
            ConstantPoolTag::MethodType => {
                let index = self.read_u2()?;
                Ok(
                    ConstantPoolEntry::MethodType {
                        descriptor: ConstantPoolReference::from(index),
                    },
                )
            },
            ConstantPoolTag::Dynamic | ConstantPoolTag::InvokeDynamic => {
                let bootstrap_method_attr_index = self.read_u2()?;
                let index = self.read_u2()?;
                assert(u16_at(p.skip(2), 0) == u16_at(p, 2));
                assert(self@ =~= p.skip(4));
                let name_and_type = ConstantPoolReference::from(index);
                if tag == ConstantPoolTag::Dynamic {
                    Ok(ConstantPoolEntry::Dynamic { bootstrap_method_attr_index, name_and_type })
                } else {
                    Ok(
                        ConstantPoolEntry::InvokeDynamic {
                            bootstrap_method_attr_index,
                            name_and_type,
                        },
                    )
                }
            },
            ConstantPoolTag::Module => {
                let index = self.read_u2()?;
                Ok(ConstantPoolEntry::Module { name: ConstantPoolReference::from(index) })
            },
            ConstantPoolTag::Package => {
                let index = self.read_u2()?;
                Ok(ConstantPoolEntry::Package { name: ConstantPoolReference::from(index) })
            },
        }
    }
}

} // verus!
