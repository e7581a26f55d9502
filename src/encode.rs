use vstd::prelude::*;

use crate::class_file::{
    decode_class_file, decode_pool, declared_slots, pool_view, slot_entries, slot_view, ClassFile,
    ClassFileModel, CLASS_FILE_MAGIC,
};
use crate::constant_pool::{
    decode_entry, decode_payload, fixed_width, is_wide, tag_code, tag_of_byte,
    u64_at, ConstantPoolEntry, ConstantPoolReference, ConstantPoolTag, EntryModel, ReferenceType,
};
use crate::cursor::{u16_at, u32_at};
use crate::error::ClassParserError;
use crate::mutf8::valid_mutf8;

verus! {

/// Big-endian bytes of a value below 2^16.
pub open spec fn be16(v: int) -> Seq<u8> {
    seq![(v / 256) as u8, (v % 256) as u8]
}

/// Big-endian bytes of a value below 2^32.
pub open spec fn be32(v: int) -> Seq<u8> {
    be16(v / 65536) + be16(v % 65536)
}

/// Big-endian bytes of a value below 2^64.
pub open spec fn be64(v: int) -> Seq<u8> {
    be32(v / 0x1_0000_0000) + be32(v % 0x1_0000_0000)
}

/// The 32-bit two's complement pattern of `v`.
pub open spec fn unsigned32(v: int) -> int {
    if v < 0 { v + 0x1_0000_0000 } else { v }
}

/// The 64-bit two's complement pattern of `v`.
pub open spec fn unsigned64(v: int) -> int {
    if v < 0 { v + 0x1_0000_0000_0000_0000 } else { v }
}

/// The tag an entry is written with.
pub open spec fn entry_tag(e: EntryModel) -> ConstantPoolTag {
    match e {
        EntryModel::Class(_) => ConstantPoolTag::Class,
        EntryModel::Reference(c) => match c.reference_type {
            ReferenceType::Field => ConstantPoolTag::FieldReference,
            ReferenceType::Method => ConstantPoolTag::MethodReference,
            ReferenceType::InterfaceMethod => ConstantPoolTag::InterfaceMethodReference,
        },
        EntryModel::NameAndType(_) => ConstantPoolTag::NameAndType,
        EntryModel::Utf8(_) => ConstantPoolTag::Utf8,
        EntryModel::String(_) => ConstantPoolTag::String,
        EntryModel::Integer(_) => ConstantPoolTag::Integer,
        EntryModel::Float(_) => ConstantPoolTag::Float,
        EntryModel::Long(_) => ConstantPoolTag::Long,
        EntryModel::Double(_) => ConstantPoolTag::Double,
        EntryModel::MethodHandle { .. } => ConstantPoolTag::MethodHandle,
        EntryModel::MethodType { .. } => ConstantPoolTag::MethodType,
        EntryModel::Dynamic { .. } => ConstantPoolTag::Dynamic,
        EntryModel::InvokeDynamic { .. } => ConstantPoolTag::InvokeDynamic,
        EntryModel::Module { .. } => ConstantPoolTag::Module,
        EntryModel::Package { .. } => ConstantPoolTag::Package,
    }
}

/// Big-endian bytes of the index a reference names.
pub open spec fn ref16(r: ConstantPoolReference) -> Seq<u8> {
    be16(r.spec_index() as int)
}

/// The payload an entry is written with, after its tag byte.
#[verifier::opaque]
pub open spec fn encode_payload(e: EntryModel) -> Seq<u8> {
    match e {
        EntryModel::Class(c) => ref16(c.name),
        EntryModel::Reference(c) => ref16(c.class) + ref16(c.name_and_type),
        EntryModel::NameAndType(c) => ref16(c.name) + ref16(c.descriptor),
        EntryModel::Utf8(b) => be16(b.len() as int) + b,
        EntryModel::String(c) => ref16(c.string),
        EntryModel::Integer(v) => be32(unsigned32(v as int)),
        EntryModel::Float(v) => be32(v as int),
        EntryModel::Long(v) => be64(unsigned64(v as int)),
        EntryModel::Double(v) => be64(v as int),
        EntryModel::MethodHandle { reference_kind, reference } => seq![reference_kind] + ref16(
            reference,
        ),
        EntryModel::MethodType { descriptor } => ref16(descriptor),
        EntryModel::Dynamic { bootstrap_method_attr_index, name_and_type } => be16(
            bootstrap_method_attr_index as int,
        ) + ref16(name_and_type),
        EntryModel::InvokeDynamic { bootstrap_method_attr_index, name_and_type } => be16(
            bootstrap_method_attr_index as int,
        ) + ref16(name_and_type),
        EntryModel::Module { name } => ref16(name),
        EntryModel::Package { name } => ref16(name),
    }
}

/// The bytes an entry is written with.
pub open spec fn encode_entry(e: EntryModel) -> Seq<u8> {
    seq![tag_code(entry_tag(e))] + encode_payload(e)
}

/// The bytes of a pool: each entry in slot order; reserved slots add
/// nothing.
pub open spec fn encode_pool(p: Seq<Option<EntryModel>>) -> Seq<u8>
    decreases p.len(),
{
    if p.len() == 0 {
        Seq::empty()
    } else {
        match p[0] {
            Some(e) => encode_entry(e) + encode_pool(p.skip(1)),
            None => encode_pool(p.skip(1)),
        }
    }
}

/// The bytes of a whole class file.
pub open spec fn encode_class_file(m: ClassFileModel) -> Seq<u8> {
    be32(m.magic as int) + be16(m.minor_version as int) + be16(m.major_version as int) + be16(
        m.constant_pool.len() + 1 as int,
    ) + encode_pool(m.constant_pool) + m.trailing
}

/// Every reference of the entry is still an unresolved index.
pub open spec fn entry_unresolved(e: EntryModel) -> bool {
    match e {
        EntryModel::Class(c) => c.name is Unresolved,
        EntryModel::Reference(c) => c.class is Unresolved && c.name_and_type is Unresolved,
        EntryModel::NameAndType(c) => c.name is Unresolved && c.descriptor is Unresolved,
        EntryModel::String(c) => c.string is Unresolved,
        EntryModel::MethodHandle { reference, .. } => reference is Unresolved,
        EntryModel::MethodType { descriptor } => descriptor is Unresolved,
        EntryModel::Dynamic { name_and_type, .. } => name_and_type is Unresolved,
        EntryModel::InvokeDynamic { name_and_type, .. } => name_and_type is Unresolved,
        EntryModel::Module { name } => name is Unresolved,
        EntryModel::Package { name } => name is Unresolved,
        _ => true,
    }
}

/// An entry that decoding can produce: unresolved references, and text that
/// is modified UTF-8 of at most 65535 bytes.
pub open spec fn entry_decodable(e: EntryModel) -> bool {
    &&& entry_unresolved(e)
    &&& (e is Utf8 ==> e->Utf8_0.len() <= 65535 && valid_mutf8(e->Utf8_0))
}

/// A pool that decoding can produce: entries as above, each wide entry
/// followed by one reserved slot, no other reserved slot.
pub open spec fn pool_decodable(p: Seq<Option<EntryModel>>) -> bool
    decreases p.len(),
{
    if p.len() == 0 {
        true
    } else {
        match p[0] {
            None => false,
            Some(e) => entry_decodable(e) && if is_wide(e) {
                p.len() >= 2 && p[1] is None && pool_decodable(p.skip(2))
            } else {
                pool_decodable(p.skip(1))
            },
        }
    }
}

/// A class file value that decoding can produce.
pub open spec fn class_file_decodable(m: ClassFileModel) -> bool {
    &&& m.magic == CLASS_FILE_MAGIC
    &&& m.constant_pool.len() < 65535
    &&& pool_decodable(m.constant_pool)
}

proof fn lemma_u16_at(s: Seq<u8>, i: int, v: int)
    requires
        0 <= v < 0x1_0000,
        0 <= i,
        i + 2 <= s.len(),
        s[i] == (v / 256) as u8,
        s[i + 1] == (v % 256) as u8,
    ensures
        u16_at(s, i) == v,
{
}

proof fn lemma_u32_at(s: Seq<u8>, i: int, v: int)
    requires
        0 <= v < 0x1_0000_0000,
        0 <= i,
        i + 4 <= s.len(),
        s.subrange(i, i + 4) == be32(v),
    ensures
        u32_at(s, i) == v,
{
    let b = be32(v);
    assert(s[i] == b[0] && s[i + 1] == b[1] && s[i + 2] == b[2] && s[i + 3] == b[3]);
    lemma_u16_at(s, i, v / 65536);
    lemma_u16_at(s, i + 2, v % 65536);
}

proof fn lemma_u64_at(s: Seq<u8>, i: int, v: int)
    requires
        0 <= v < 0x1_0000_0000_0000_0000,
        0 <= i,
        i + 8 <= s.len(),
        s.subrange(i, i + 8) == be64(v),
    ensures
        u64_at(s, i) == v,
{
    let w = s.subrange(i, i + 8);
    assert(w.subrange(0, 4) =~= be32(v / 0x1_0000_0000));
    assert(w.subrange(4, 8) =~= be32(v % 0x1_0000_0000));
    assert(s.subrange(i, i + 4) =~= w.subrange(0, 4));
    assert(s.subrange(i + 4, i + 8) =~= w.subrange(4, 8));
    lemma_u32_at(s, i, v / 0x1_0000_0000);
    lemma_u32_at(s, i + 4, v % 0x1_0000_0000);
}

proof fn lemma_payload_round_trip(e: EntryModel, rest: Seq<u8>)
    requires
        entry_decodable(e),
    ensures
        decode_payload(entry_tag(e), encode_payload(e) + rest) == Ok::<
            (EntryModel, Seq<u8>),
            ClassParserError,
        >((e, rest)),
{
    reveal(encode_payload);
    let p = encode_payload(e);
    let s = p + rest;
    let t = entry_tag(e);
    if e is Utf8 {
        let b = e->Utf8_0;
        lemma_u16_at(s, 0, b.len() as int);
        assert(s.subrange(2, 2 + b.len() as int) =~= b);
        assert(s.skip(2 + b.len() as int) =~= rest);
    } else {
        assert(p.len() == fixed_width(t));
        assert(s.skip(fixed_width(t)) =~= rest);
        match e {
            EntryModel::Integer(v) => {
                assert(s.subrange(0, 4) =~= p);
                lemma_u32_at(s, 0, unsigned32(v as int));
            },
            EntryModel::Float(v) => {
                assert(s.subrange(0, 4) =~= p);
                lemma_u32_at(s, 0, v as int);
            },
            EntryModel::Long(v) => {
                assert(s.subrange(0, 8) =~= p);
                lemma_u64_at(s, 0, unsigned64(v as int));
            },
            EntryModel::Double(v) => {
                assert(s.subrange(0, 8) =~= p);
                lemma_u64_at(s, 0, v as int);
            },
            EntryModel::MethodHandle { reference_kind, reference } => {
                lemma_u16_at(s, 1, reference.spec_index() as int);
            },
            EntryModel::Reference(c) => {
                lemma_u16_at(s, 0, c.class.spec_index() as int);
                lemma_u16_at(s, 2, c.name_and_type.spec_index() as int);
            },
            EntryModel::NameAndType(c) => {
                lemma_u16_at(s, 0, c.name.spec_index() as int);
                lemma_u16_at(s, 2, c.descriptor.spec_index() as int);
            },
            EntryModel::Dynamic { bootstrap_method_attr_index, name_and_type } => {
                lemma_u16_at(s, 0, bootstrap_method_attr_index as int);
                lemma_u16_at(s, 2, name_and_type.spec_index() as int);
            },
            EntryModel::InvokeDynamic { bootstrap_method_attr_index, name_and_type } => {
                lemma_u16_at(s, 0, bootstrap_method_attr_index as int);
                lemma_u16_at(s, 2, name_and_type.spec_index() as int);
            },
            EntryModel::Class(c) => {
                lemma_u16_at(s, 0, c.name.spec_index() as int);
            },
            EntryModel::String(c) => {
                lemma_u16_at(s, 0, c.string.spec_index() as int);
            },
            EntryModel::MethodType { descriptor } => {
                lemma_u16_at(s, 0, descriptor.spec_index() as int);
            },
            EntryModel::Module { name } => {
                lemma_u16_at(s, 0, name.spec_index() as int);
            },
            EntryModel::Package { name } => {
                lemma_u16_at(s, 0, name.spec_index() as int);
            },
            _ => {},
        }
    }
}

proof fn lemma_entry_round_trip(e: EntryModel, rest: Seq<u8>)
    requires
        entry_decodable(e),
    ensures
        decode_entry(encode_entry(e) + rest) == Ok::<(EntryModel, Seq<u8>), ClassParserError>(
            (e, rest),
        ),
{
    let t = entry_tag(e);
    let s = encode_entry(e) + rest;
    assert(s[0] == tag_code(t));
    lemma_tag_code(t);
    assert(s.skip(1) =~= encode_payload(e) + rest);
    lemma_payload_round_trip(e, rest);
}

proof fn lemma_tag_code(t: ConstantPoolTag)
    ensures
        tag_of_byte(tag_code(t)) == Some(t),
{
}

proof fn lemma_pool_round_trip(p: Seq<Option<EntryModel>>, rest: Seq<u8>)
    requires
        pool_decodable(p),
    ensures
        decode_pool(encode_pool(p) + rest, p.len()) == Ok::<
            (Seq<Option<EntryModel>>, Seq<u8>),
            ClassParserError,
        >((p, rest)),
    decreases p.len(),
{
    if p.len() > 0 {
        let e = p[0]->Some_0;
        let w = slot_entries(e).len();
        let tail = p.skip(w as int);
        lemma_pool_round_trip(tail, rest);
        if is_wide(e) {
            assert(p.skip(1).skip(1) =~= tail);
            assert(encode_pool(p.skip(1)) == encode_pool(tail));
        }
        let s = encode_pool(p) + rest;
        assert(s =~= encode_entry(e) + (encode_pool(tail) + rest));
        lemma_entry_round_trip(e, encode_pool(tail) + rest);
        assert(s.len() > 0);
        assert(slot_entries(e) + tail =~= p);
    } else {
        assert(encode_pool(p) + rest =~= rest);
        assert(p =~= Seq::<Option<EntryModel>>::empty());
    }
}

/// Writing a decodable class file value to bytes and decoding them gives
/// the value back.
pub proof fn lemma_round_trip(m: ClassFileModel)
    requires
        class_file_decodable(m),
    ensures
        decode_class_file(encode_class_file(m)) == Ok::<ClassFileModel, ClassParserError>(m),
{
    let s = encode_class_file(m);
    let n = m.constant_pool.len() as int;
    assert(s.subrange(0, 4) =~= be32(m.magic as int));
    lemma_u32_at(s, 0, m.magic as int);
    lemma_u16_at(s, 4, m.minor_version as int);
    lemma_u16_at(s, 6, m.major_version as int);
    lemma_u16_at(s, 8, n + 1);
    assert(declared_slots(n + 1) == n);
    assert(s.skip(10) =~= encode_pool(m.constant_pool) + m.trailing);
    lemma_pool_round_trip(m.constant_pool, m.trailing);
}

/// Sizes the wire format can carry: a pool count and every text length
/// must fit in two bytes.
pub open spec fn pool_encodable(p: Seq<Option<EntryModel>>) -> bool {
    &&& p.len() < 65535
    &&& forall|i: int|
        0 <= i < p.len() && #[trigger] p[i] is Some && p[i]->Some_0 is Utf8 ==> p[i]->Some_0->Utf8_0.len()
            <= 65535
}

fn push_u16(out: &mut Vec<u8>, v: u16)
    ensures
        final(out)@ == old(out)@ + be16(v as int),
{
    out.push((v / 256) as u8);
    out.push((v % 256) as u8);
    assert(final(out)@ =~= old(out)@ + be16(v as int));
}

fn push_u32(out: &mut Vec<u8>, v: u32)
    ensures
        final(out)@ == old(out)@ + be32(v as int),
{
    push_u16(out, (v / 65536) as u16);
    push_u16(out, (v % 65536) as u16);
    assert(final(out)@ =~= old(out)@ + be32(v as int));
}

fn push_u64(out: &mut Vec<u8>, v: u64)
    ensures
        final(out)@ == old(out)@ + be64(v as int),
{
    push_u32(out, (v / 0x1_0000_0000) as u32);
    push_u32(out, (v % 0x1_0000_0000) as u32);
    assert(final(out)@ =~= old(out)@ + be64(v as int));
}

fn push_reference(out: &mut Vec<u8>, r: ConstantPoolReference)
    ensures
        final(out)@ == old(out)@ + ref16(r),
{
    push_u16(out, r.index());
}

impl ConstantPoolEntry {
    /// Appends the wire form of this entry, tag byte first.
    pub fn encode_into(&self, out: &mut Vec<u8>)
        requires
            self is Utf8 ==> self->Utf8_0.bytes@.len() <= 65535,
        ensures
            final(out)@ == old(out)@ + encode_entry(self@),
    {
        reveal(encode_payload);
        let ghost start = out@;
        match self {
            ConstantPoolEntry::Class(c) => {
                out.push(7);
                push_reference(out, c.name);
            },
            ConstantPoolEntry::Reference(c) => {
                let code: u8 = match c.reference_type {
                    ReferenceType::Field => 9,
                    ReferenceType::Method => 10,
                    ReferenceType::InterfaceMethod => 11,
                };
                out.push(code);
                push_reference(out, c.class);
                push_reference(out, c.name_and_type);
            },
            ConstantPoolEntry::NameAndType(c) => {
                out.push(12);
                push_reference(out, c.name);
                push_reference(out, c.descriptor);
            },
            ConstantPoolEntry::Utf8(u) => {
                out.push(1);
                push_u16(out, u.bytes.len() as u16);
                let ghost mid = out@;
                let mut i: usize = 0;
                while i < u.bytes.len()
                    invariant
                        i <= u.bytes@.len(),
                        out@ == mid + u.bytes@.take(i as int),
                    decreases u.bytes@.len() - i,
                {
                    out.push(u.bytes[i]);
                    assert(u.bytes@.take(i + 1) =~= u.bytes@.take(i as int).push(u.bytes@[i as int]));
                    i = i + 1;
                }
                assert(u.bytes@.take(i as int) =~= u.bytes@);
            },
            ConstantPoolEntry::String(c) => {
                out.push(8);
                push_reference(out, c.string);
            },
            ConstantPoolEntry::Integer(v) => {
                out.push(3);
                let u: u32 = if *v < 0 {
                    (*v as i64 + 0x1_0000_0000) as u32
                } else {
                    *v as u32
                };
                push_u32(out, u);
            },
            ConstantPoolEntry::Float(v) => {
                out.push(4);
                push_u32(out, *v);
            },
            ConstantPoolEntry::Long(v) => {
                out.push(5);
                let u: u64 = if *v < 0 {
                    (*v - i64::MIN) as u64 + 0x8000_0000_0000_0000
                } else {
                    *v as u64
                };
                push_u64(out, u);
            },
            ConstantPoolEntry::Double(v) => {
                out.push(6);
                push_u64(out, *v);
            },
            ConstantPoolEntry::MethodHandle { reference_kind, reference } => {
                out.push(15);
                out.push(*reference_kind);
                push_reference(out, *reference);
            },
            ConstantPoolEntry::MethodType { descriptor } => {
                out.push(16);
                push_reference(out, *descriptor);
            },
            ConstantPoolEntry::Dynamic { bootstrap_method_attr_index, name_and_type } => {
                out.push(17);
                push_u16(out, *bootstrap_method_attr_index);
                push_reference(out, *name_and_type);
            },
            ConstantPoolEntry::InvokeDynamic { bootstrap_method_attr_index, name_and_type } => {
                out.push(18);
                push_u16(out, *bootstrap_method_attr_index);
                push_reference(out, *name_and_type);
            },
            ConstantPoolEntry::Module { name } => {
                out.push(19);
                push_reference(out, *name);
            },
            ConstantPoolEntry::Package { name } => {
                out.push(20);
                push_reference(out, *name);
            },
        }
        assert(out@ =~= start + encode_entry(self@));
    }
}

impl ClassFile {
    /// The wire form of this class file: header, pool count, entries, then
    /// the undecoded remainder.
    pub fn encode(&self) -> (r: Vec<u8>)
        requires
            pool_encodable(self@.constant_pool),
        ensures
            r@ == encode_class_file(self@),
    {
        let ghost pv = self@.constant_pool;
        let mut out: Vec<u8> = Vec::new();
        push_u32(&mut out, self.magic.value);
        push_u16(&mut out, self.minor_version);
        push_u16(&mut out, self.major_version);
        push_u16(&mut out, (self.constant_pool.len() + 1) as u16);
        let ghost header = out@;
        let mut i: usize = 0;
        assert(pv.skip(0) =~= pv);
        assert(out@ + Seq::<u8>::empty() =~= out@);
        while i < self.constant_pool.len()
            invariant
                i <= self.constant_pool@.len(),
                pv == pool_view(self.constant_pool@),
                pool_encodable(pv),
                header + encode_pool(pv) == out@ + encode_pool(pv.skip(i as int)),
            decreases self.constant_pool@.len() - i,
        {
            let ghost before = out@;
            assert(pv[i as int] == slot_view(self.constant_pool@[i as int]));
            assert(pv.skip(i as int).skip(1) =~= pv.skip(i + 1));
            match &self.constant_pool[i] {
                Some(e) => {
                    e.encode_into(&mut out);
                    assert(before + (encode_entry(e@) + encode_pool(pv.skip(i + 1))) =~= out@
                        + encode_pool(pv.skip(i + 1)));
                },
                None => {},
            }
            i = i + 1;
        }
        assert(pv.skip(i as int).len() == 0);
        let mut j: usize = 0;
        let ghost body = out@;
        while j < self.trailing.len()
            invariant
                j <= self.trailing@.len(),
                out@ == body + self.trailing@.take(j as int),
            decreases self.trailing@.len() - j,
        {
            out.push(self.trailing[j]);
            assert(self.trailing@.take(j + 1) =~= self.trailing@.take(j as int).push(
                self.trailing@[j as int],
            ));
            j = j + 1;
        }
        assert(self.trailing@.take(j as int) =~= self.trailing@);
        assert(out@ =~= encode_class_file(self@));
        out
    }
}

} // verus!
