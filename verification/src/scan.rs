//! The declaration scanner: seeds one store entry per string-typed slot
//! of a declared item, at first sight of its declaration.
//!
//! Effective visibility is the conjunction of the item's and the slot's
//! own flag.  An effectively public slot can be mutated by code the pass
//! never sees, so it is excluded outright; an effectively private slot
//! starts watched with empty evidence.  Non-string slots get no entry at
//! all.  Re-scanning an identity is a no-op: seeding is insert-if-absent
//! and exclusion is idempotent, so `Excluded` always wins.

use vstd::prelude::*;

verus! {

use crate::model::{effectively_public, EnumDef, Slot, StructDef, VariantDef, Visibility};
use crate::store::{apply_ops, lemma_apply_ops_concat, CandidacyStore, StoreOp};
use crate::classify::lemma_apply_ops_one;

/// The operations scanning one slot applies.
pub open spec fn ops_of_slot(item_vis: Visibility, s: Slot) -> Seq<StoreOp> {
    if s.ty is OwnedString {
        if effectively_public(item_vis, s.vis) {
            seq![StoreOp::Exclude { id: s.id, span: s.span }]
        } else {
            seq![StoreOp::Seed { id: s.id, span: s.span }]
        }
    } else {
        Seq::<StoreOp>::empty()
    }
}

/// The operations of a slot list, in declaration order.
pub open spec fn ops_of_fields(item_vis: Visibility, s: Seq<Slot>) -> Seq<StoreOp>
    decreases s.len(),
{
    if s.len() == 0 {
        Seq::<StoreOp>::empty()
    } else {
        ops_of_fields(item_vis, s.drop_last()) + ops_of_slot(item_vis, s.last())
    }
}

/// The operations scanning a struct's fields applies.
pub open spec fn ops_of_struct(item_vis: Visibility, d: StructDef) -> Seq<StoreOp> {
    ops_of_fields(item_vis, d.fields@)
}

/// The operations scanning one enum variant applies.
pub open spec fn ops_of_variant(item_vis: Visibility, v: VariantDef) -> Seq<StoreOp> {
    match v {
        VariantDef::Tuple(slots) => ops_of_fields(item_vis, slots@),
        VariantDef::Struct(d) => ops_of_struct(item_vis, d),
    }
}

/// The operations of a variant list, in declaration order.
pub open spec fn ops_of_variants(item_vis: Visibility, s: Seq<VariantDef>) -> Seq<StoreOp>
    decreases s.len(),
{
    if s.len() == 0 {
        Seq::<StoreOp>::empty()
    } else {
        ops_of_variants(item_vis, s.drop_last()) + ops_of_variant(item_vis, s.last())
    }
}

/// The operations scanning an enum's variants applies.
pub open spec fn ops_of_enum(item_vis: Visibility, d: EnumDef) -> Seq<StoreOp> {
    ops_of_variants(item_vis, d.variants@)
}

/// Whether both the item and the slot are public.
pub fn is_effectively_public(item_vis: &Visibility, slot_vis: &Visibility) -> (r: bool)
    ensures
        r == effectively_public(*item_vis, *slot_vis),
{
    match (item_vis, slot_vis) {
        (Visibility::Public, Visibility::Public) => true,
        _ => false,
    }
}

/// Scan one slot: exclude it if effectively public, else start watching.
pub fn check_slot(store: &mut CandidacyStore, item_vis: Visibility, s: &Slot)
    requires
        old(store).wf(),
    ensures
        final(store).wf(),
        final(store)@ == apply_ops(old(store)@, ops_of_slot(item_vis, *s)),
{
    if crate::model::is_string_type(&s.ty) {
        if is_effectively_public(&item_vis, &s.vis) {
            store.exclude(s.id, s.span);
            proof {
                lemma_apply_ops_one(old(store)@, StoreOp::Exclude { id: s.id, span: s.span });
            }
        } else {
            store.seed(s.id, s.span);
            proof {
                lemma_apply_ops_one(old(store)@, StoreOp::Seed { id: s.id, span: s.span });
            }
        }
    }
}

/// Scan a slot list in order.
#[verifier::loop_isolation(false)]
pub fn check_fields(store: &mut CandidacyStore, item_vis: Visibility, fields: &Vec<Slot>)
    requires
        old(store).wf(),
    ensures
        final(store).wf(),
        final(store)@ == apply_ops(old(store)@, ops_of_fields(item_vis, fields@)),
{
    let n = fields.len();
    for j in 0..n
        invariant
            store.wf(),
            store@ == apply_ops(old(store)@, ops_of_fields(item_vis, fields@.take(j as int))),
    {
        check_slot(store, item_vis, &fields[j]);
        proof {
            let t = fields@.take(j as int + 1);
            assert(t.drop_last() =~= fields@.take(j as int));
            assert(t.last() == fields@[j as int]);
            lemma_apply_ops_concat(
                old(store)@,
                ops_of_fields(item_vis, fields@.take(j as int)),
                ops_of_slot(item_vis, fields@[j as int]),
            );
        }
    }
    proof {
        assert(fields@.take(n as int) =~= fields@);
    }
}

/// Scan a struct's string-typed fields under the item's visibility.
pub fn check_struct(store: &mut CandidacyStore, item_vis: Visibility, def: &StructDef)
    requires
        old(store).wf(),
    ensures
        final(store).wf(),
        final(store)@ == apply_ops(old(store)@, ops_of_struct(item_vis, *def)),
{
    check_fields(store, item_vis, &def.fields);
}

/// Scan an enum's variants, slot by slot.
#[verifier::loop_isolation(false)]
pub fn check_enum(store: &mut CandidacyStore, item_vis: Visibility, def: &EnumDef)
    requires
        old(store).wf(),
    ensures
        final(store).wf(),
        final(store)@ == apply_ops(old(store)@, ops_of_enum(item_vis, *def)),
{
    let n = def.variants.len();
    for j in 0..n
        invariant
            store.wf(),
            store@ == apply_ops(
                old(store)@,
                ops_of_variants(item_vis, def.variants@.take(j as int)),
            ),
    {
        match &def.variants[j] {
            VariantDef::Tuple(slots) => {
                check_fields(store, item_vis, slots);
            },
            VariantDef::Struct(d) => {
                check_struct(store, item_vis, d);
            },
        }
        proof {
            let t = def.variants@.take(j as int + 1);
            assert(t.drop_last() =~= def.variants@.take(j as int));
            assert(t.last() == def.variants@[j as int]);
            lemma_apply_ops_concat(
                old(store)@,
                ops_of_variants(item_vis, def.variants@.take(j as int)),
                ops_of_variant(item_vis, def.variants@[j as int]),
            );
        }
    }
    proof {
        assert(def.variants@.take(n as int) =~= def.variants@);
    }
}

} // verus!
