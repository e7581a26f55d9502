use vstd::prelude::*;

use crate::constant_pool::{
    decode_entry, fixed_entry, fixed_width, is_wide, tag_of_byte, ConstantPoolEntry,
    EntryModel,
};
use crate::cursor::{u16_at, u32_at, ClassFileParser};
use crate::error::{ClassParserError, ClassParserResult};
use crate::hex::HexValue;

verus! {

/// The fixed sentinel that opens every class file.
pub const CLASS_FILE_MAGIC: u32 = 0xCAFE_BABE;

/// Slot `i` holds pool index `i + 1`; `None` is the reserved slot after a
/// `Long` or `Double` entry.
pub type ConstantPool = Vec<Option<ConstantPoolEntry>>;

/// The model of one pool slot.
pub open spec fn slot_view(o: Option<ConstantPoolEntry>) -> Option<EntryModel> {
    match o {
        Some(e) => Some(e@),
        None => None,
    }
}

/// The model of a whole pool.
pub open spec fn pool_view(p: Seq<Option<ConstantPoolEntry>>) -> Seq<Option<EntryModel>> {
    p.map_values(|o: Option<ConstantPoolEntry>| slot_view(o))
}

/// A decoded class file. Everything after the constant pool (access flags,
/// this and super class, interfaces, fields, methods, attributes) is kept
/// undecoded in `trailing`.
#[derive(Debug, Clone, PartialEq, Eq)]
pub struct ClassFile {
    pub magic: HexValue,
    pub minor_version: u16,
    pub major_version: u16,
    pub constant_pool: ConstantPool,
    pub trailing: Vec<u8>,
}

/// The mathematical value of a `ClassFile`.
pub struct ClassFileModel {
    pub magic: u32,
    pub minor_version: u16,
    pub major_version: u16,
    pub constant_pool: Seq<Option<EntryModel>>,
    pub trailing: Seq<u8>,
}

impl View for ClassFile {
    type V = ClassFileModel;

    open spec fn view(&self) -> ClassFileModel {
        ClassFileModel {
            magic: self.magic.value,
            minor_version: self.minor_version,
            major_version: self.major_version,
            constant_pool: pool_view(self.constant_pool@),
            trailing: self.trailing@,
        }
    }
}

/// The slots one decoded entry fills.
pub open spec fn slot_entries(e: EntryModel) -> Seq<Option<EntryModel>> {
    if is_wide(e) {
        seq![Some(e), None]
    } else {
        seq![Some(e)]
    }
}

/// Decoding of a pool of `slots` slots from the front of `s`: the slots and
/// the bytes after them, or the error.
pub open spec fn decode_pool(s: Seq<u8>, slots: nat) -> Result<
    (Seq<Option<EntryModel>>, Seq<u8>),
    ClassParserError,
>
    decreases slots,
{
    if slots == 0 {
        Ok((Seq::empty(), s))
    } else if s.len() == 0 {
        Err(ClassParserError::TruncatedConstantPool)
    } else {
        match decode_entry(s) {
            Err(e) => Err(e),
            Ok((e, rest)) => {
                let width = slot_entries(e).len();
                if slots < width {
                    Err(ClassParserError::TruncatedConstantPool)
                } else {
                    match decode_pool(rest, (slots - width) as nat) {
                        Err(x) => Err(x),
                        Ok((p, after)) => Ok((slot_entries(e) + p, after)),
                    }
                }
            },
        }
    }
}

/// `p` followed by the slots of a pool decoding result.
pub open spec fn prefix_with(
    p: Seq<Option<EntryModel>>,
    r: Result<(Seq<Option<EntryModel>>, Seq<u8>), ClassParserError>,
) -> Result<(Seq<Option<EntryModel>>, Seq<u8>), ClassParserError> {
    match r {
        Ok((q, after)) => Ok((p + q, after)),
        Err(e) => Err(e),
    }
}

/// Number of slots a pool with declared count `n` has; slot 0 is never
/// stored.
pub open spec fn declared_slots(n: int) -> nat {
    if n <= 0 {
        0
    } else {
        (n - 1) as nat
    }
}

/// Decoding of a whole class file image.
pub open spec fn decode_class_file(s: Seq<u8>) -> Result<ClassFileModel, ClassParserError> {
    if s.len() < 4 {
        Err(ClassParserError::UnexpectedEndOfInput)
    } else if u32_at(s, 0) != CLASS_FILE_MAGIC {
        Err(ClassParserError::InvalidMagic(HexValue { value: u32_at(s, 0) as u32 }))
    } else if s.len() < 10 {
        Err(ClassParserError::UnexpectedEndOfInput)
    } else {
        match decode_pool(s.skip(10), declared_slots(u16_at(s, 8))) {
            Err(e) => Err(e),
            Ok((pool, rest)) => Ok(
                ClassFileModel {
                    magic: CLASS_FILE_MAGIC,
                    minor_version: u16_at(s, 4) as u16,
                    major_version: u16_at(s, 6) as u16,
                    constant_pool: pool,
                    trailing: rest,
                },
            ),
        }
    }
}

proof fn lemma_prefix_with_concat(
    p: Seq<Option<EntryModel>>,
    q: Seq<Option<EntryModel>>,
    r: Result<(Seq<Option<EntryModel>>, Seq<u8>), ClassParserError>,
)
    ensures
        prefix_with(p, prefix_with(q, r)) == prefix_with(p + q, r),
{
    if let Ok((x, after)) = r {
        assert(p + (q + x) =~= (p + q) + x);
    }
}

impl ClassFile {
    /// The access flags, the first field after the constant pool, if the
    /// input holds it.
    pub fn access_flags(&self) -> (r: Option<u16>)
        ensures
            self.trailing@.len() >= 2 ==> r == Some(u16_at(self.trailing@, 0) as u16),
            self.trailing@.len() < 2 ==> r is None,
    {
        self.trailing_u2(0)
    }

    /// The pool index of this class, if the input holds it.
    pub fn this_class(&self) -> (r: Option<u16>)
        ensures
            self.trailing@.len() >= 4 ==> r == Some(u16_at(self.trailing@, 2) as u16),
            self.trailing@.len() < 4 ==> r is None,
    {
        self.trailing_u2(2)
    }

    /// The pool index of the superclass, if the input holds it.
    pub fn super_class(&self) -> (r: Option<u16>)
        ensures
            self.trailing@.len() >= 6 ==> r == Some(u16_at(self.trailing@, 4) as u16),
            self.trailing@.len() < 6 ==> r is None,
    {
        self.trailing_u2(4)
    }

    fn trailing_u2(&self, at: usize) -> (r: Option<u16>)
        requires
            at <= 4,
        ensures
            self.trailing@.len() >= at + 2 ==> r == Some(u16_at(self.trailing@, at as int) as u16),
            self.trailing@.len() < at + 2 ==> r is None,
    {
        if self.trailing.len() < at + 2 {
            None
        } else {
            Some((self.trailing[at] as u16) * 256 + (self.trailing[at + 1] as u16))
        }
    }
}

impl ConstantPoolEntry {
    /// Whether this entry takes two pool slots.
    pub fn is_wide(&self) -> (r: bool)
        ensures
            r == is_wide(self@),
    {
        match self {
            ConstantPoolEntry::Long(_) | ConstantPoolEntry::Double(_) => true,
            _ => false,
        }
    }
}

impl ClassFileParser {
    /// Decodes a constant pool of `slots` slots, placing a reserved slot after
    /// each wide entry.
    pub fn read_constant_pool(&mut self, slots: u16) -> (r: ClassParserResult<ConstantPool>)
        ensures
            match decode_pool(old(self)@, slots as nat) {
                Ok((p, rest)) => r is Ok && pool_view(r->Ok_0@) == p && final(self)@ == rest,
                Err(e) => r == Err::<ConstantPool, ClassParserError>(e),
            },
    {
        let ghost s0 = self@;
        let total = slots as usize;
        let mut pool: ConstantPool = Vec::new();
        assert(pool_view(pool@) + seq![] =~= Seq::<Option<EntryModel>>::empty());
        assert(prefix_with(pool_view(pool@), decode_pool(s0, total as nat)) =~= decode_pool(
            s0,
            total as nat,
        )) by {
            if let Ok((q, a)) = decode_pool(s0, total as nat) {
                assert(pool_view(pool@) + q =~= q);
            }
        }
        while pool.len() < total
            invariant
                pool@.len() <= total,
                total == slots,
                s0 == old(self)@,
                decode_pool(s0, slots as nat) == prefix_with(
                    pool_view(pool@),
                    decode_pool(self@, (total - pool@.len()) as nat),
                ),
            decreases total - pool@.len(),
        {
            let ghost before = self@;
            let ghost left = (total - pool@.len()) as nat;
            let ghost pv = pool_view(pool@);
            if self.remaining() == 0 {
                assert(decode_pool(before, left) == Err::<
                    (Seq<Option<EntryModel>>, Seq<u8>),
                    ClassParserError,
                >(ClassParserError::TruncatedConstantPool));
                return Err(ClassParserError::TruncatedConstantPool);
            }
            let e = match self.read_constant_pool_info() {
                Ok(e) => e,
                Err(err) => {
                    assert(decode_pool(before, left) == Err::<
                        (Seq<Option<EntryModel>>, Seq<u8>),
                        ClassParserError,
                    >(err));
                    return Err(err);
                },
            };
            let ghost m = e@;
            if e.is_wide() {
                if total - pool.len() < 2 {
                    assert(decode_pool(before, left) == Err::<
                        (Seq<Option<EntryModel>>, Seq<u8>),
                        ClassParserError,
                    >(ClassParserError::TruncatedConstantPool));
                    return Err(ClassParserError::TruncatedConstantPool);
                }
                pool.push(Some(e));
                pool.push(None);
            } else {
                pool.push(Some(e));
            }
            proof {
                assert(pool_view(pool@) =~= pv + slot_entries(m));
                lemma_prefix_with_concat(pv, slot_entries(m), decode_pool(self@, (total - pool@.len()) as nat));
            }
        }
        proof {
            if let Ok((q, a)) = decode_pool(self@, 0) {
                assert(pool_view(pool@) + q =~= pool_view(pool@));
            }
        }
        Ok(pool)
    }

    /// Decodes the header and the constant pool, and keeps the rest of the
    /// input undecoded.
    pub fn parse(&mut self) -> (r: ClassParserResult<ClassFile>)
        ensures
            match decode_class_file(old(self)@) {
                Ok(m) => r is Ok && r->Ok_0@ == m && final(self)@.len() == 0,
                Err(e) => r == Err::<ClassFile, ClassParserError>(e),
            },
    {
        let ghost s = self@;
        let magic = self.read_u4()?;
        if magic != CLASS_FILE_MAGIC {
            return Err(ClassParserError::InvalidMagic(HexValue { value: magic }));
        }
        let minor_version = self.read_u2()?;
        let major_version = self.read_u2()?;
        let constant_pool_count = self.read_u2()?;
        proof {
            assert(u16_at(s.skip(4), 0) == u16_at(s, 4));
            assert(u16_at(s.skip(6), 0) == u16_at(s, 6));
            assert(u16_at(s.skip(8), 0) == u16_at(s, 8));
            assert(self@ =~= s.skip(10));
        }
        let slots: u16 = if constant_pool_count == 0 {
            0
        } else {
            constant_pool_count - 1
        };
        let constant_pool = self.read_constant_pool(slots)?;
        let n = self.remaining();
        let trailing = self.read_n_bytes(n)?;
        assert(trailing@ =~= decode_pool(s.skip(10), slots as nat)->Ok_0.1);
        Ok(
            ClassFile {
                magic: HexValue { value: magic },
                minor_version,
                major_version,
                constant_pool,
                trailing,
            },
        )
    }
}

/// Decodes a complete class file image.
pub fn parse_class_file(data: Vec<u8>) -> (r: ClassParserResult<ClassFile>)
    ensures
        match decode_class_file(data@) {
            Ok(m) => r is Ok && r->Ok_0@ == m,
            Err(e) => r == Err::<ClassFile, ClassParserError>(e),
        },
{
    let mut parser = ClassFileParser::new(data);
    parser.parse()
}

/// A successful pool decode fills exactly the declared number of slots, and
/// the slot after each wide entry exists and is reserved.
pub proof fn lemma_decode_pool_shape(s: Seq<u8>, slots: nat)
    requires
        decode_pool(s, slots) is Ok,
    ensures
        decode_pool(s, slots)->Ok_0.0.len() == slots,
        forall|i: int|
            0 <= i < slots && (#[trigger] decode_pool(s, slots)->Ok_0.0[i]) is Some && is_wide(
                decode_pool(s, slots)->Ok_0.0[i]->Some_0,
            ) ==> i + 1 < slots && decode_pool(s, slots)->Ok_0.0[i + 1] is None,
    decreases slots,
{
    if slots > 0 {
        let (e, rest) = decode_entry(s)->Ok_0;
        let w = slot_entries(e).len();
        lemma_decode_pool_shape(rest, (slots - w) as nat);
        let q = decode_pool(rest, (slots - w) as nat)->Ok_0.0;
        let p = decode_pool(s, slots)->Ok_0.0;
        assert(p == slot_entries(e) + q);
        assert forall|i: int|
            0 <= i < slots && (#[trigger] p[i]) is Some && is_wide(p[i]->Some_0) implies i + 1
            < slots && p[i + 1] is None by {
            if i >= w {
                assert(p[i] == q[i - w]);
                assert(p[i + 1] == q[i + 1 - w]);
            }
        }
    }
}

/// After a successful decode, the constant pool holds exactly one slot
/// fewer than the declared count, whatever mix of wide and narrow entries it
/// has.
pub proof fn lemma_slot_count(s: Seq<u8>)
    requires
        decode_class_file(s) is Ok,
    ensures
        decode_class_file(s)->Ok_0.constant_pool.len() == declared_slots(u16_at(s, 8)),
{
    lemma_decode_pool_shape(s.skip(10), declared_slots(u16_at(s, 8)));
}

/// Decoding is a function of the bytes alone: equal buffers give equal
/// results, success or error.
pub proof fn lemma_decode_deterministic(a: Seq<u8>, b: Seq<u8>)
    requires
        a == b,
    ensures
        decode_class_file(a) == decode_class_file(b),
{
}

proof fn lemma_decode_entry_prefix(t: Seq<u8>, j: int)
    requires
        decode_entry(t) is Ok,
        0 <= j <= t.len(),
    ensures
        decode_entry(t)->Ok_0.1.len() < t.len(),
        decode_entry(t)->Ok_0.1 == t.skip(t.len() - decode_entry(t)->Ok_0.1.len()),
        j < t.len() - decode_entry(t)->Ok_0.1.len() ==> decode_entry(t.take(j)) == Err::<
            (EntryModel, Seq<u8>),
            ClassParserError,
        >(ClassParserError::UnexpectedEndOfInput),
        j >= t.len() - decode_entry(t)->Ok_0.1.len() ==> decode_entry(t.take(j)) == Ok::<
            (EntryModel, Seq<u8>),
            ClassParserError,
        >(
            (
                decode_entry(t)->Ok_0.0,
                decode_entry(t)->Ok_0.1.take(j - (t.len() - decode_entry(t)->Ok_0.1.len())),
            ),
        ),
{
    let tag = tag_of_byte(t[0])->Some_0;
    let p = t.skip(1);
    if j > 0 {
        let pj = t.take(j).skip(1);
        assert(pj =~= p.take(j - 1));
        assert(t.take(j)[0] == t[0]);
        if tag is Utf8 {
            let n = u16_at(p, 0);
            assert(p.skip(2 + n) =~= t.skip(3 + n));
            if j - 1 >= 2 {
                assert(u16_at(pj, 0) == n);
                if j - 1 >= 2 + n {
                    assert(pj.subrange(2, 2 + n) =~= p.subrange(2, 2 + n));
                    assert(pj.skip(2 + n) =~= p.skip(2 + n).take(j - 3 - n));
                }
            }
        } else {
            let w = fixed_width(tag);
            assert(p.skip(w) =~= t.skip(1 + w));
            if j - 1 >= w {
                assert(pj.skip(w) =~= p.skip(w).take(j - 1 - w));
                assert forall|k: int| 0 <= k < w implies pj[k] == p[k] by {}
                assert(fixed_entry(tag, pj) == fixed_entry(tag, p));
            }
        }
    } else {
        assert(t.take(j).len() == 0);
    }
    let p = t.skip(1);
    if tag is Utf8 {
        let n = u16_at(p, 0);
        assert(p.skip(2 + n) =~= t.skip(3 + n));
    } else {
        assert(p.skip(fixed_width(tag)) =~= t.skip(1 + fixed_width(tag)));
    }
}

proof fn lemma_decode_pool_truncated(t: Seq<u8>, slots: nat, j: int)
    requires
        decode_pool(t, slots) is Ok,
        0 <= j < t.len() - decode_pool(t, slots)->Ok_0.1.len(),
    ensures
        decode_pool(t.take(j), slots) == Err::<(Seq<Option<EntryModel>>, Seq<u8>), ClassParserError>(
            ClassParserError::UnexpectedEndOfInput,
        ) || decode_pool(t.take(j), slots) == Err::<
            (Seq<Option<EntryModel>>, Seq<u8>),
            ClassParserError,
        >(ClassParserError::TruncatedConstantPool),
    decreases slots,
{
    if slots > 0 && j > 0 {
        let (e, r1) = decode_entry(t)->Ok_0;
        let c = t.len() - r1.len();
        lemma_decode_entry_prefix(t, j);
        if j >= c {
            let w = slot_entries(e).len();
            lemma_decode_pool_truncated(r1, (slots - w) as nat, j - c);
        }
    }
}

/// A buffer cut off before the end of its constant pool never decodes:
/// the result is `UnexpectedEndOfInput` or `TruncatedConstantPool`.
pub proof fn lemma_truncated_input_fails(s: Seq<u8>, k: int)
    requires
        decode_class_file(s) is Ok,
        0 <= k < s.len() - decode_class_file(s)->Ok_0.trailing.len(),
    ensures
        decode_class_file(s.take(k)) == Err::<ClassFileModel, ClassParserError>(
            ClassParserError::UnexpectedEndOfInput,
        ) || decode_class_file(s.take(k)) == Err::<ClassFileModel, ClassParserError>(
            ClassParserError::TruncatedConstantPool,
        ),
{
    let t = s.take(k);
    if k >= 4 {
        assert(u32_at(t, 0) == u32_at(s, 0));
    }
    if k >= 10 {
        assert(u16_at(t, 8) == u16_at(s, 8));
        assert(t.skip(10) =~= s.skip(10).take(k - 10));
        lemma_decode_pool_truncated(s.skip(10), declared_slots(u16_at(s, 8)), k - 10);
    }
}

} // verus!
