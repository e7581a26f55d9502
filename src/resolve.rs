use vstd::prelude::*;

use crate::class_file::{
    decode_class_file, declared_slots, lemma_decode_pool_shape, pool_view, slot_view, ClassFile,
    ConstantPool,
};
use crate::constant_pool::is_wide;
use crate::cursor::u16_at;
use crate::constant_pool::{
    ClassConstant, ConstantPoolEntry, ConstantPoolReference, EntryModel, NameAndTypeConstant,
    ReferenceConstant, StringConstant, UTF8Constant,
};
use crate::error::{ClassParserError, ClassParserResult};

verus! {

/// Pool index `i` names a stored entry: it is neither 0, nor past the last
/// slot, nor the reserved slot after a wide entry.
pub open spec fn is_valid_target(pool: Seq<Option<EntryModel>>, i: int) -> bool {
    1 <= i <= pool.len() && pool[i - 1] is Some
}

/// Resolution of one reference against `pool`.
pub open spec fn resolve_reference_spec(
    pool: Seq<Option<EntryModel>>,
    r: ConstantPoolReference,
) -> Result<ConstantPoolReference, ClassParserError> {
    if is_valid_target(pool, r.spec_index() as int) {
        Ok(ConstantPoolReference::Resolved { index: r.spec_index() })
    } else {
        Err(ClassParserError::UnresolvedReference(r.spec_index()))
    }
}

/// Resolution of every reference of one entry, in field order; the first
/// failure is the result.
pub open spec fn resolve_entry_spec(pool: Seq<Option<EntryModel>>, e: EntryModel) -> Result<
    EntryModel,
    ClassParserError,
> {
    match e {
        EntryModel::Class(c) => match resolve_reference_spec(pool, c.name) {
            Ok(name) => Ok(EntryModel::Class(ClassConstant { name })),
            Err(x) => Err(x),
        },
        EntryModel::String(c) => match resolve_reference_spec(pool, c.string) {
            Ok(string) => Ok(EntryModel::String(StringConstant { string })),
            Err(x) => Err(x),
        },
        EntryModel::MethodType { descriptor } => match resolve_reference_spec(pool, descriptor) {
            Ok(descriptor) => Ok(EntryModel::MethodType { descriptor }),
            Err(x) => Err(x),
        },
        EntryModel::Module { name } => match resolve_reference_spec(pool, name) {
            Ok(name) => Ok(EntryModel::Module { name }),
            Err(x) => Err(x),
        },
        EntryModel::Package { name } => match resolve_reference_spec(pool, name) {
            Ok(name) => Ok(EntryModel::Package { name }),
            Err(x) => Err(x),
        },
        EntryModel::MethodHandle { reference_kind, reference } => match resolve_reference_spec(
            pool,
            reference,
        ) {
            Ok(reference) => Ok(EntryModel::MethodHandle { reference_kind, reference }),
            Err(x) => Err(x),
        },
        EntryModel::Dynamic { bootstrap_method_attr_index, name_and_type } =>
            match resolve_reference_spec(pool, name_and_type) {
            Ok(name_and_type) => Ok(EntryModel::Dynamic { bootstrap_method_attr_index, name_and_type }),
            Err(x) => Err(x),
        },
        EntryModel::InvokeDynamic { bootstrap_method_attr_index, name_and_type } =>
            match resolve_reference_spec(pool, name_and_type) {
            Ok(name_and_type) => Ok(
                EntryModel::InvokeDynamic { bootstrap_method_attr_index, name_and_type },
            ),
            Err(x) => Err(x),
        },
        EntryModel::NameAndType(c) => match resolve_reference_spec(pool, c.name) {
            Err(x) => Err(x),
            Ok(name) => match resolve_reference_spec(pool, c.descriptor) {
                Err(x) => Err(x),
                Ok(descriptor) => Ok(EntryModel::NameAndType(NameAndTypeConstant { name, descriptor })),
            },
        },
        EntryModel::Reference(c) => match resolve_reference_spec(pool, c.class) {
            Err(x) => Err(x),
            Ok(class) => match resolve_reference_spec(pool, c.name_and_type) {
                Err(x) => Err(x),
                Ok(name_and_type) => Ok(
                    EntryModel::Reference(
                        ReferenceConstant { reference_type: c.reference_type, class, name_and_type },
                    ),
                ),
            },
        },
        _ => Ok(e),
    }
}

/// Resolution of one slot.
pub open spec fn resolve_slot_spec(pool: Seq<Option<EntryModel>>, o: Option<EntryModel>) -> Result<
    Option<EntryModel>,
    ClassParserError,
> {
    match o {
        None => Ok(None),
        Some(e) => match resolve_entry_spec(pool, e) {
            Ok(m) => Ok(Some(m)),
            Err(x) => Err(x),
        },
    }
}

/// Resolution of the slots of `pool` from slot `i` on, in slot order.
pub open spec fn resolve_pool_from(pool: Seq<Option<EntryModel>>, i: nat) -> Result<
    Seq<Option<EntryModel>>,
    ClassParserError,
>
    decreases pool.len() - i,
{
    if i >= pool.len() {
        Ok(Seq::empty())
    } else {
        match resolve_slot_spec(pool, pool[i as int]) {
            Err(x) => Err(x),
            Ok(h) => match resolve_pool_from(pool, i + 1) {
                Err(x) => Err(x),
                Ok(t) => Ok(seq![h] + t),
            },
        }
    }
}

/// Resolution of a whole pool.
pub open spec fn resolve_pool_spec(pool: Seq<Option<EntryModel>>) -> Result<
    Seq<Option<EntryModel>>,
    ClassParserError,
> {
    resolve_pool_from(pool, 0)
}

spec fn prepend_resolved(
    p: Seq<Option<EntryModel>>,
    r: Result<Seq<Option<EntryModel>>, ClassParserError>,
) -> Result<Seq<Option<EntryModel>>, ClassParserError> {
    match r {
        Ok(q) => Ok(p + q),
        Err(x) => Err(x),
    }
}

/// Checks `r` against `pool` and marks it resolved.
pub fn resolve_reference(pool: &ConstantPool, r: ConstantPoolReference) -> (res: ClassParserResult<
    ConstantPoolReference,
>)
    ensures
        res == resolve_reference_spec(pool_view(pool@), r),
{
    let index = r.index();
    if index == 0 || index as usize > pool.len() {
        return Err(ClassParserError::UnresolvedReference(index));
    }
    let slot = &pool[index as usize - 1];
    assert(slot_view(pool@[index - 1]) == pool_view(pool@)[index - 1]);
    match slot {
        Some(_) => Ok(ConstantPoolReference::Resolved { index }),
        None => Err(ClassParserError::UnresolvedReference(index)),
    }
}

/// The entry that `r` names in `pool`.
pub fn lookup(pool: &ConstantPool, r: ConstantPoolReference) -> (res: ClassParserResult<
    &ConstantPoolEntry,
>)
    ensures
        is_valid_target(pool_view(pool@), r.spec_index() as int) ==> res is Ok && Some(*res->Ok_0)
            == pool@[r.spec_index() - 1],
        !is_valid_target(pool_view(pool@), r.spec_index() as int) ==> res == Err::<
            &ConstantPoolEntry,
            ClassParserError,
        >(ClassParserError::UnresolvedReference(r.spec_index())),
{
    let index = r.index();
    if index == 0 || index as usize > pool.len() {
        return Err(ClassParserError::UnresolvedReference(index));
    }
    assert(slot_view(pool@[index - 1]) == pool_view(pool@)[index - 1]);
    match &pool[index as usize - 1] {
        Some(e) => Ok(e),
        None => Err(ClassParserError::UnresolvedReference(index)),
    }
}

impl ConstantPoolEntry {
    /// This entry with every reference checked against `pool` and resolved.
    pub fn resolve(&self, pool: &ConstantPool) -> (r: ClassParserResult<ConstantPoolEntry>)
        ensures
            match resolve_entry_spec(pool_view(pool@), self@) {
                Ok(m) => r is Ok && r->Ok_0@ == m,
                Err(x) => r == Err::<ConstantPoolEntry, ClassParserError>(x),
            },
    {
        match self {
            ConstantPoolEntry::Class(c) => {
                let name = resolve_reference(pool, c.name)?;
                Ok(ConstantPoolEntry::Class(ClassConstant { name }))
            },
            ConstantPoolEntry::String(c) => {
                let string = resolve_reference(pool, c.string)?;
                Ok(ConstantPoolEntry::String(StringConstant { string }))
            },
            ConstantPoolEntry::MethodType { descriptor } => {
                let descriptor = resolve_reference(pool, *descriptor)?;
                Ok(ConstantPoolEntry::MethodType { descriptor })
            },
            ConstantPoolEntry::Module { name } => {
                let name = resolve_reference(pool, *name)?;
                Ok(ConstantPoolEntry::Module { name })
            },
            ConstantPoolEntry::Package { name } => {
                let name = resolve_reference(pool, *name)?;
                Ok(ConstantPoolEntry::Package { name })
            },
            ConstantPoolEntry::MethodHandle { reference_kind, reference } => {
                let reference = resolve_reference(pool, *reference)?;
                Ok(ConstantPoolEntry::MethodHandle { reference_kind: *reference_kind, reference })
            },
            ConstantPoolEntry::Dynamic { bootstrap_method_attr_index, name_and_type } => {
                let name_and_type = resolve_reference(pool, *name_and_type)?;
                Ok(
                    ConstantPoolEntry::Dynamic {
                        bootstrap_method_attr_index: *bootstrap_method_attr_index,
                        name_and_type,
                    },
                )
            },
            ConstantPoolEntry::InvokeDynamic { bootstrap_method_attr_index, name_and_type } => {
                let name_and_type = resolve_reference(pool, *name_and_type)?;
                Ok(
                    ConstantPoolEntry::InvokeDynamic {
                        bootstrap_method_attr_index: *bootstrap_method_attr_index,
                        name_and_type,
                    },
                )
            },
            ConstantPoolEntry::NameAndType(c) => {
                let name = resolve_reference(pool, c.name)?;
                let descriptor = resolve_reference(pool, c.descriptor)?;
                Ok(ConstantPoolEntry::NameAndType(NameAndTypeConstant { name, descriptor }))
            },
            ConstantPoolEntry::Reference(c) => {
                let class = resolve_reference(pool, c.class)?;
                let name_and_type = resolve_reference(pool, c.name_and_type)?;
                Ok(
                    ConstantPoolEntry::Reference(
                        ReferenceConstant { reference_type: c.reference_type, class, name_and_type },
                    ),
                )
            },
            ConstantPoolEntry::Utf8(u) => {
                let bytes = u.bytes.clone();
                assert(bytes@ =~= u.bytes@);
                Ok(ConstantPoolEntry::Utf8(UTF8Constant { bytes }))
            },
            ConstantPoolEntry::Integer(v) => Ok(ConstantPoolEntry::Integer(*v)),
            ConstantPoolEntry::Float(v) => Ok(ConstantPoolEntry::Float(*v)),
            ConstantPoolEntry::Long(v) => Ok(ConstantPoolEntry::Long(*v)),
            ConstantPoolEntry::Double(v) => Ok(ConstantPoolEntry::Double(*v)),
        }
    }
}

/// A copy of `pool` in which every reference is resolved, or the first
/// failure in slot order.
pub fn resolve_constant_pool(pool: &ConstantPool) -> (r: ClassParserResult<ConstantPool>)
    ensures
        match resolve_pool_spec(pool_view(pool@)) {
            Ok(p) => r is Ok && pool_view(r->Ok_0@) == p,
            Err(x) => r == Err::<ConstantPool, ClassParserError>(x),
        },
{
    let ghost pv = pool_view(pool@);
    let mut out: ConstantPool = Vec::new();
    let mut i: usize = 0;
    assert(prepend_resolved(pool_view(out@), resolve_pool_from(pv, 0)) =~= resolve_pool_from(pv, 0))
        by {
        if let Ok(q) = resolve_pool_from(pv, 0) {
            assert(pool_view(out@) + q =~= q);
        }
    }
    while i < pool.len()
        invariant
            i <= pool@.len(),
            pv == pool_view(pool@),
            out@.len() == i,
            resolve_pool_spec(pv) == prepend_resolved(pool_view(out@), resolve_pool_from(pv, i as nat)),
        decreases pool@.len() - i,
    {
        let ghost ov = pool_view(out@);
        assert(pv[i as int] == slot_view(pool@[i as int]));
        let slot = match &pool[i] {
            None => None,
            Some(e) => match e.resolve(pool) {
                Ok(m) => Some(m),
                Err(x) => {
                    return Err(x);
                },
            },
        };
        let ghost h = slot_view(slot);
        out.push(slot);
        proof {
            assert(pool_view(out@) =~= ov + seq![h]);
            if let Ok(t) = resolve_pool_from(pv, (i + 1) as nat) {
                assert(ov + (seq![h] + t) =~= (ov + seq![h]) + t);
            }
        }
        i = i + 1;
    }
    proof {
        assert(pool_view(out@) + Seq::<Option<EntryModel>>::empty() =~= pool_view(out@));
    }
    Ok(out)
}

impl ClassFile {
    /// Resolves every reference of the constant pool in place; on failure
    /// the class file is left as it was.
    pub fn resolve(&mut self) -> (r: ClassParserResult<()>)
        ensures
            match resolve_pool_spec(old(self)@.constant_pool) {
                Ok(p) => r is Ok && final(self)@ == (crate::class_file::ClassFileModel {
                    constant_pool: p,
                    ..old(self)@
                }),
                Err(x) => r == Err::<(), ClassParserError>(x) && final(self)@ == old(self)@,
            },
    {
        let pool = resolve_constant_pool(&self.constant_pool)?;
        self.constant_pool = pool;
        Ok(())
    }
}

/// A reference to index 0 never resolves, whatever the pool.
pub proof fn lemma_index_zero_unresolved(pool: Seq<Option<EntryModel>>, r: ConstantPoolReference)
    requires
        r.spec_index() == 0,
    ensures
        resolve_reference_spec(pool, r) == Err::<ConstantPoolReference, ClassParserError>(
            ClassParserError::UnresolvedReference(0),
        ),
{
}

/// In a decoded pool, a reference to the slot right after a `Long` or
/// `Double` entry never resolves. Slot `i` holds pool index `i + 1`, so that
/// reserved slot has pool index `i + 2`.
pub proof fn lemma_reserved_slot_unresolved(s: Seq<u8>, i: int, r: ConstantPoolReference)
    requires
        decode_class_file(s) is Ok,
        0 <= i < decode_class_file(s)->Ok_0.constant_pool.len(),
        decode_class_file(s)->Ok_0.constant_pool[i] is Some,
        is_wide(decode_class_file(s)->Ok_0.constant_pool[i]->Some_0),
        r.spec_index() == i + 2,
    ensures
        resolve_reference_spec(decode_class_file(s)->Ok_0.constant_pool, r) == Err::<
            ConstantPoolReference,
            ClassParserError,
        >(ClassParserError::UnresolvedReference(r.spec_index())),
{
    let pool = decode_class_file(s)->Ok_0.constant_pool;
    lemma_decode_pool_shape(s.skip(10), declared_slots(u16_at(s, 8)));
    assert(pool[i] is Some);
}

} // verus!
