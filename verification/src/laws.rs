//! The pass-wide guarantees, stated and proved over the same spec
//! functions the executable contracts use: visibility exclusion,
//! monotonic exclusion, independence of bindings with distinct
//! identities, determinism of the whole pass, and independence of the
//! verdicts from the traversal order of sibling expressions.

use vstd::prelude::*;

verus! {

use vstd::seq_lib::to_multiset_contains;
use crate::model::{BindingId, CrateModel, Expr, Item, Slot, VariantDef, Visibility,
    effectively_public};
use crate::events::{EvidenceModel, UsageEvent};
use crate::store::{apply_op, apply_ops, contains_id, lemma_apply_ops_concat, RowModel, RowState, StoreOp};
use crate::verdict::{diagnostics_of, is_borrow_like, is_candidate_evidence, is_static_init,
    verdict_of, Diagnostic, Verdict};
use crate::scan::{ops_of_fields, ops_of_slot, ops_of_variant, ops_of_variants};
use crate::pass::{crate_diagnostics, ops_of_crate, ops_of_item, ops_of_items, store_of_crate};
use crate::classify::{ops_of_expr, ops_of_exprs};

/// Every row carrying this identity is `Excluded`.
pub open spec fn id_all_excluded(m: Seq<RowModel>, id: BindingId) -> bool {
    forall|i: int| 0 <= i < m.len() && (#[trigger] m[i]).id == id ==> m[i].state is Excluded
}

/// The identity has a row, and every row of it is `Excluded`.
pub open spec fn id_excluded(m: Seq<RowModel>, id: BindingId) -> bool {
    contains_id(m, id) && id_all_excluded(m, id)
}

/// One operation never revives an excluded identity.
proof fn lemma_excluded_after_op(m: Seq<RowModel>, op: StoreOp, id: BindingId)
    requires
        id_excluded(m, id),
    ensures
        id_excluded(apply_op(m, op), id),
{
    let m2 = apply_op(m, op);
    let w = choose|w: int| 0 <= w < m.len() && m[w].id == id;
    assert(w < m2.len() && m2[w].id == id);
    assert(contains_id(m2, id));
    assert forall|i: int| 0 <= i < m2.len() && (#[trigger] m2[i]).id == id implies
        m2[i].state is Excluded by {
        match op {
            StoreOp::Seed { id: sid, span } => {
                if contains_id(m, sid) {
                } else {
                    if i < m.len() {
                        assert(m2[i] == m[i]);
                    } else {
                        assert(!contains_id(m, sid));
                        assert(m2[i].id == sid);
                        assert(m[w].id == id && sid != id);
                    }
                }
            },
            StoreOp::Exclude { id: xid, span } => {
                if contains_id(m, xid) {
                    assert(m2[i] == (if m[i].id == xid {
                        RowModel { state: RowState::Excluded, ..m[i] }
                    } else {
                        m[i]
                    }));
                } else {
                    if i < m.len() {
                        assert(m2[i] == m[i]);
                    }
                }
            },
            StoreOp::Record { id: rid, event } => {
                assert(m[i].id == id);
                assert(m[i].state is Excluded);
                assert(m2[i] == m[i]);
            },
        }
    };
}

/// Monotonic exclusion: once an identity is excluded, no sequence of
/// further traversal operations changes that, and its verdict stays
/// `NotCandidate`.
pub proof fn lemma_monotonic_exclusion(m: Seq<RowModel>, ops: Seq<StoreOp>, id: BindingId)
    requires
        id_excluded(m, id),
    ensures
        id_excluded(apply_ops(m, ops), id),
        forall|i: int|
            0 <= i < apply_ops(m, ops).len() && (#[trigger] apply_ops(m, ops)[i]).id == id
                ==> verdict_of(apply_ops(m, ops)[i].state) == Verdict::NotCandidate,
    decreases ops.len(),
{
    if ops.len() == 0 {
    } else {
        lemma_monotonic_exclusion(m, ops.drop_last(), id);
        lemma_excluded_after_op(apply_ops(m, ops.drop_last()), ops.last(), id);
    }
}

/// Excluding an identity leaves every row of that identity `Excluded`.
proof fn lemma_exclude_op_excludes(m: Seq<RowModel>, id: BindingId, span: u64)
    ensures
        id_excluded(apply_op(m, StoreOp::Exclude { id, span }), id),
{
    let m2 = apply_op(m, StoreOp::Exclude { id, span });
    if contains_id(m, id) {
        let w = choose|w: int| 0 <= w < m.len() && m[w].id == id;
        assert(m2[w].id == id);
        assert(contains_id(m2, id));
    } else {
        assert(m2[m.len() as int].id == id);
        assert(contains_id(m2, id));
    }
    assert forall|i: int| 0 <= i < m2.len() && (#[trigger] m2[i]).id == id implies
        m2[i].state is Excluded by {
        if contains_id(m, id) {
            assert(m2[i] == (if m[i].id == id {
                RowModel { state: RowState::Excluded, ..m[i] }
            } else {
                m[i]
            }));
        } else {
            if i < m.len() {
                assert(m2[i] == m[i]);
                assert(m[i].id != id);
            }
        }
    };
}

/// An operation that excludes the given identity.
pub open spec fn is_exclude_for(op: StoreOp, id: BindingId) -> bool {
    match op {
        StoreOp::Exclude { id: xid, span } => xid == id,
        _ => false,
    }
}

/// Some operation of the sequence excludes the given identity.
pub open spec fn contains_exclude(ops: Seq<StoreOp>, id: BindingId) -> bool {
    exists|j: int| 0 <= j < ops.len() && is_exclude_for(#[trigger] ops[j], id)
}

/// After a sequence holding an exclusion of this identity, every row of
/// the identity is `Excluded`, wherever in the sequence it stands.
proof fn lemma_ops_with_exclude(m: Seq<RowModel>, ops: Seq<StoreOp>, id: BindingId)
    requires
        contains_exclude(ops, id),
    ensures
        id_excluded(apply_ops(m, ops), id),
    decreases ops.len(),
{
    let j = choose|j: int| 0 <= j < ops.len() && is_exclude_for(#[trigger] ops[j], id);
    if j == ops.len() - 1 {
        match ops.last() {
            StoreOp::Exclude { id: xid, span } => {
                lemma_exclude_op_excludes(apply_ops(m, ops.drop_last()), id, span);
            },
            _ => {
                assert(false);
            },
        }
    } else {
        assert(ops.drop_last()[j] == ops[j]);
        lemma_ops_with_exclude(m, ops.drop_last(), id);
        lemma_excluded_after_op(apply_ops(m, ops.drop_last()), ops.last(), id);
    }
}

/// No diagnostic names an identity whose rows are all `Excluded`.
proof fn lemma_excluded_no_diag(m: Seq<RowModel>, id: BindingId)
    requires
        id_all_excluded(m, id),
    ensures
        forall|j: int|
            0 <= j < diagnostics_of(m).len() ==> (#[trigger] diagnostics_of(m)[j]).binding != id,
    decreases m.len(),
{
    if m.len() == 0 {
    } else {
        assert(id_all_excluded(m.drop_last(), id)) by {
            assert(forall|i: int|
                0 <= i < m.drop_last().len() ==> m.drop_last()[i] == m[i]);
        }
        lemma_excluded_no_diag(m.drop_last(), id);
        if verdict_of(m.last().state) is Candidate {
            assert(m.last() == m[m.len() - 1]);
            assert(m.last().id != id);
        }
    }
}

/// A concatenation holds an exclusion if either half does.
proof fn lemma_contains_exclude_concat(a: Seq<StoreOp>, b: Seq<StoreOp>, id: BindingId)
    requires
        contains_exclude(a, id) || contains_exclude(b, id),
    ensures
        contains_exclude(a + b, id),
{
    if contains_exclude(a, id) {
        let j = choose|j: int| 0 <= j < a.len() && is_exclude_for(#[trigger] a[j], id);
        assert((a + b)[j] == a[j]);
    } else {
        let j = choose|j: int| 0 <= j < b.len() && is_exclude_for(#[trigger] b[j], id);
        assert((a + b)[a.len() + j] == b[j]);
    }
}

/// This slot is a string-typed slot of the given identity, effectively
/// public under the item's visibility.
pub open spec fn slot_is_public_string(item_vis: Visibility, s: Slot, id: BindingId) -> bool {
    s.id == id && s.ty is OwnedString && effectively_public(item_vis, s.vis)
}

/// Some slot of the list declares the identity effectively public.
pub open spec fn fields_declare_public_string(
    item_vis: Visibility,
    fields: Seq<Slot>,
    id: BindingId,
) -> bool {
    exists|j: int| 0 <= j < fields.len() && slot_is_public_string(item_vis, #[trigger] fields[j], id)
}

/// Some payload slot of the variant declares the identity effectively
/// public.
pub open spec fn variant_declares_public_string(
    item_vis: Visibility,
    v: VariantDef,
    id: BindingId,
) -> bool {
    match v {
        VariantDef::Tuple(slots) => fields_declare_public_string(item_vis, slots@, id),
        VariantDef::Struct(d) => fields_declare_public_string(item_vis, d.fields@, id),
    }
}

/// Some slot of the item declares the identity effectively public.
pub open spec fn item_declares_public_string(it: Item, id: BindingId) -> bool {
    match it.kind {
        crate::model::ItemKind::Struct(d) => fields_declare_public_string(it.vis, d.fields@, id),
        crate::model::ItemKind::Enum(d) => exists|v: int|
            0 <= v < d.variants@.len() && variant_declares_public_string(
                it.vis,
                #[trigger] d.variants@[v],
                id,
            ),
        _ => false,
    }
}

/// Some item of the unit declares the identity effectively public.
pub open spec fn crate_declares_public_string(k: CrateModel, id: BindingId) -> bool {
    exists|i: int|
        0 <= i < k.items@.len() && item_declares_public_string(#[trigger] k.items@[i], id)
}

/// A slot list's scan excludes every effectively public string slot.
proof fn lemma_fields_exclude(item_vis: Visibility, fields: Seq<Slot>, id: BindingId)
    requires
        fields_declare_public_string(item_vis, fields, id),
    ensures
        contains_exclude(ops_of_fields(item_vis, fields), id),
    decreases fields.len(),
{
    let j = choose|j: int|
        0 <= j < fields.len() && slot_is_public_string(item_vis, #[trigger] fields[j], id);
    if j == fields.len() - 1 {
        let so = ops_of_slot(item_vis, fields.last());
        assert(fields[j] == fields.last());
        assert(so == seq![StoreOp::Exclude { id, span: fields.last().span }]);
        assert(is_exclude_for(so[0], id));
        assert(contains_exclude(so, id));
        lemma_contains_exclude_concat(
            ops_of_fields(item_vis, fields.drop_last()),
            ops_of_slot(item_vis, fields.last()),
            id,
        );
    } else {
        assert(fields.drop_last()[j] == fields[j]);
        lemma_fields_exclude(item_vis, fields.drop_last(), id);
        lemma_contains_exclude_concat(
            ops_of_fields(item_vis, fields.drop_last()),
            ops_of_slot(item_vis, fields.last()),
            id,
        );
    }
}

/// A variant list's scan excludes every effectively public string slot.
proof fn lemma_variants_exclude(
    item_vis: Visibility,
    variants: Seq<VariantDef>,
    v: int,
    id: BindingId,
)
    requires
        0 <= v < variants.len(),
        variant_declares_public_string(item_vis, variants[v], id),
    ensures
        contains_exclude(ops_of_variants(item_vis, variants), id),
    decreases variants.len(),
{
    if v == variants.len() - 1 {
        match variants.last() {
            VariantDef::Tuple(slots) => {
                lemma_fields_exclude(item_vis, slots@, id);
            },
            VariantDef::Struct(d) => {
                lemma_fields_exclude(item_vis, d.fields@, id);
            },
        }
        lemma_contains_exclude_concat(
            ops_of_variants(item_vis, variants.drop_last()),
            ops_of_variant(item_vis, variants.last()),
            id,
        );
    } else {
        assert(variants.drop_last()[v] == variants[v]);
        lemma_variants_exclude(item_vis, variants.drop_last(), v, id);
        lemma_contains_exclude_concat(
            ops_of_variants(item_vis, variants.drop_last()),
            ops_of_variant(item_vis, variants.last()),
            id,
        );
    }
}

/// An item list's walk excludes every effectively public string slot.
proof fn lemma_items_exclude(items: Seq<Item>, i: int, id: BindingId)
    requires
        0 <= i < items.len(),
        item_declares_public_string(items[i], id),
    ensures
        contains_exclude(ops_of_items(items), id),
    decreases items.len(),
{
    if i == items.len() - 1 {
        match items.last().kind {
            crate::model::ItemKind::Struct(d) => {
                lemma_fields_exclude(items.last().vis, d.fields@, id);
            },
            crate::model::ItemKind::Enum(d) => {
                let v = choose|v: int|
                    0 <= v < d.variants@.len() && variant_declares_public_string(
                        items.last().vis,
                        #[trigger] d.variants@[v],
                        id,
                    );
                lemma_variants_exclude(items.last().vis, d.variants@, v, id);
            },
            _ => {
                assert(false);
            },
        }
        lemma_contains_exclude_concat(
            ops_of_items(items.drop_last()),
            ops_of_item(items.last()),
            id,
        );
    } else {
        assert(items.drop_last()[i] == items[i]);
        lemma_items_exclude(items.drop_last(), i, id);
        lemma_contains_exclude_concat(
            ops_of_items(items.drop_last()),
            ops_of_item(items.last()),
            id,
        );
    }
}

/// Visibility exclusion: a string-typed slot whose item and slot are
/// both public never receives a diagnostic, whatever its uses are.
pub proof fn lemma_visibility_exclusion(k: CrateModel, id: BindingId)
    requires
        crate_declares_public_string(k, id),
    ensures
        forall|j: int|
            0 <= j < crate_diagnostics(k).len()
                ==> (#[trigger] crate_diagnostics(k)[j]).binding != id,
{
    let i = choose|i: int|
        0 <= i < k.items@.len() && item_declares_public_string(#[trigger] k.items@[i], id);
    lemma_items_exclude(k.items@, i, id);
    lemma_ops_with_exclude(Seq::<RowModel>::empty(), ops_of_crate(k), id);
    lemma_excluded_no_diag(store_of_crate(k), id);
}

/// Identity over name: recording an event against one binding never
/// touches any row of a different identity.  Spellings do not exist in
/// the model; only identities key the store.
pub proof fn lemma_identity_independence(
    m: Seq<RowModel>,
    b1: BindingId,
    e: UsageEvent,
    b2: BindingId,
)
    requires
        b1 != b2,
    ensures
        apply_op(m, StoreOp::Record { id: b1, event: e }).len() == m.len(),
        forall|i: int|
            0 <= i < m.len() && (#[trigger] m[i]).id == b2
                ==> apply_op(m, StoreOp::Record { id: b1, event: e })[i] == m[i],
{
}

/// Idempotence: two full runs of the pass over one unchanged input tree
/// produce identical diagnostic sequences.
pub proof fn lemma_pass_deterministic(k: CrateModel, d1: Seq<Diagnostic>, d2: Seq<Diagnostic>)
    requires
        d1 == crate_diagnostics(k),
        d2 == crate_diagnostics(k),
    ensures
        d1 == d2,
{
}

/// Every event of one collection satisfies the predicate when a
/// multiset-equal collection does: static initializations.
proof fn lemma_all_static_permuted(s1: Seq<UsageEvent>, s2: Seq<UsageEvent>)
    requires
        s1.to_multiset() == s2.to_multiset(),
        forall|i: int| 0 <= i < s1.len() ==> is_static_init(#[trigger] s1[i]),
    ensures
        forall|i: int| 0 <= i < s2.len() ==> is_static_init(#[trigger] s2[i]),
{
    assert forall|i: int| 0 <= i < s2.len() implies is_static_init(#[trigger] s2[i]) by {
        assert(s2.contains(s2[i]));
        to_multiset_contains(s2, s2[i]);
        to_multiset_contains(s1, s2[i]);
        assert(s1.contains(s2[i]));
        let k = choose|k: int| 0 <= k < s1.len() && s1[k] == s2[i];
    };
}

/// Every event of one collection satisfies the predicate when a
/// multiset-equal collection does: borrow-like uses.
proof fn lemma_all_borrows_permuted(s1: Seq<UsageEvent>, s2: Seq<UsageEvent>)
    requires
        s1.to_multiset() == s2.to_multiset(),
        forall|i: int| 0 <= i < s1.len() ==> is_borrow_like(#[trigger] s1[i]),
    ensures
        forall|i: int| 0 <= i < s2.len() ==> is_borrow_like(#[trigger] s2[i]),
{
    assert forall|i: int| 0 <= i < s2.len() implies is_borrow_like(#[trigger] s2[i]) by {
        assert(s2.contains(s2[i]));
        to_multiset_contains(s2, s2[i]);
        to_multiset_contains(s1, s2[i]);
        assert(s1.contains(s2[i]));
        let k = choose|k: int| 0 <= k < s1.len() && s1[k] == s2[i];
    };
}

/// Order independence of the decision: two evidence records whose
/// collections are equal as multisets receive the same verdict; the
/// order traversal appended events in never matters.
pub proof fn lemma_verdict_order_independent(e1: EvidenceModel, e2: EvidenceModel)
    requires
        e1.inits.to_multiset() == e2.inits.to_multiset(),
        e1.mutations.to_multiset() == e2.mutations.to_multiset(),
        e1.others.to_multiset() == e2.others.to_multiset(),
    ensures
        is_candidate_evidence(e1) == is_candidate_evidence(e2),
{
    e1.inits.to_multiset_ensures();
    e2.inits.to_multiset_ensures();
    e1.mutations.to_multiset_ensures();
    e2.mutations.to_multiset_ensures();
    e1.others.to_multiset_ensures();
    e2.others.to_multiset_ensures();
    assert(e1.inits.len() == e2.inits.len());
    assert(e1.mutations.len() == e2.mutations.len());
    assert(e1.others.len() == e2.others.len());
    if is_candidate_evidence(e1) {
        lemma_all_static_permuted(e1.inits, e2.inits);
        lemma_all_borrows_permuted(e1.others, e2.others);
    }
    if is_candidate_evidence(e2) {
        lemma_all_static_permuted(e2.inits, e1.inits);
        lemma_all_borrows_permuted(e2.others, e1.others);
    }
}

/// Every operation of the sequence is a `Record`.
pub open spec fn all_records(ops: Seq<StoreOp>) -> bool {
    forall|i: int| 0 <= i < ops.len() ==> (#[trigger] ops[i]) is Record
}

/// An expression's walk only records events: it never seeds a row and
/// never excludes one.
proof fn lemma_ops_of_expr_records(e: Expr)
    ensures
        all_records(ops_of_expr(e)),
    decreases e,
{
    match e {
        Expr::Lit => {},
        Expr::Use(b) => {},
        Expr::AddrOf(k, inner) => {
            match *inner {
                Expr::Use(b) => {},
                _ => {
                    lemma_ops_of_expr_records(*inner);
                },
            }
        },
        Expr::Assign(b, rhs) => {
            lemma_ops_of_expr_records(*rhs);
        },
        Expr::StructLit(inits) => {
            lemma_ops_of_field_inits_records(inits@);
        },
        Expr::Call(args) => {
            lemma_ops_of_exprs_records(args@);
        },
        Expr::MatchBinding(b, mode, arms) => {
            lemma_ops_of_exprs_records(arms@);
        },
    }
}

/// A sibling list's walk only records events.
proof fn lemma_ops_of_exprs_records(s: Seq<Expr>)
    ensures
        all_records(ops_of_exprs(s)),
    decreases s,
{
    if s.len() == 0 {
    } else {
        lemma_ops_of_exprs_records(s.drop_last());
        lemma_ops_of_expr_records(s.last());
    }
}

/// Concatenating record-only sequences yields a record-only sequence.
proof fn lemma_all_records_concat(a: Seq<StoreOp>, b: Seq<StoreOp>)
    requires
        all_records(a),
        all_records(b),
    ensures
        all_records(a + b),
{
    assert forall|i: int| 0 <= i < (a + b).len() implies (#[trigger] (a + b)[i]) is Record by {
        if i < a.len() {
            assert((a + b)[i] == a[i]);
        } else {
            assert((a + b)[i] == b[i - a.len()]);
        }
    };
}

/// A field-initializer list's walk only records events.
proof fn lemma_ops_of_field_inits_records(s: Seq<crate::model::FieldInit>)
    ensures
        all_records(crate::classify::ops_of_field_inits(s)),
    decreases s,
{
    if s.len() == 0 {
    } else {
        lemma_ops_of_field_inits_records(s.drop_last());
        lemma_ops_of_expr_records(s.last().arg);
        let fi = s.last();
        let single = seq![
            StoreOp::Record {
                id: fi.field,
                event: crate::events::UsageEvent::Initialize(
                    crate::classify::source_kind_of(fi.arg),
                ),
            },
        ];
        assert(single[0] is Record);
        assert(all_records(single));
        lemma_all_records_concat(single, ops_of_expr(fi.arg));
        lemma_all_records_concat(
            crate::classify::ops_of_field_inits(s.drop_last()),
            crate::classify::ops_of_field_init(fi),
        );
    }
}

/// Two rows that agree on identity, span and exclusion, and whose
/// evidence collections are equal as multisets.
pub open spec fn row_equiv(a: RowModel, b: RowModel) -> bool {
    &&& a.id == b.id
    &&& a.span == b.span
    &&& match (a.state, b.state) {
        (RowState::Excluded, RowState::Excluded) => true,
        (RowState::Watched(x), RowState::Watched(y)) => {
            &&& x.inits.to_multiset() == y.inits.to_multiset()
            &&& x.mutations.to_multiset() == y.mutations.to_multiset()
            &&& x.others.to_multiset() == y.others.to_multiset()
        },
        _ => false,
    }
}

/// Two stores whose rows are pairwise equivalent.
pub open spec fn store_equiv(m1: Seq<RowModel>, m2: Seq<RowModel>) -> bool {
    m1.len() == m2.len() && forall|i: int| 0 <= i < m1.len() ==> row_equiv(
        #[trigger] m1[i],
        m2[i],
    )
}

proof fn lemma_store_equiv_refl(m: Seq<RowModel>)
    ensures
        store_equiv(m, m),
{
}

proof fn lemma_store_equiv_sym(m1: Seq<RowModel>, m2: Seq<RowModel>)
    requires
        store_equiv(m1, m2),
    ensures
        store_equiv(m2, m1),
{
    assert forall|i: int| 0 <= i < m2.len() implies row_equiv(#[trigger] m2[i], m1[i]) by {
        assert(row_equiv(m1[i], m2[i]));
    };
}

proof fn lemma_store_equiv_trans(m1: Seq<RowModel>, m2: Seq<RowModel>, m3: Seq<RowModel>)
    requires
        store_equiv(m1, m2),
        store_equiv(m2, m3),
    ensures
        store_equiv(m1, m3),
{
    assert forall|i: int| 0 <= i < m1.len() implies row_equiv(#[trigger] m1[i], m3[i]) by {
        assert(row_equiv(m1[i], m2[i]));
        assert(row_equiv(m2[i], m3[i]));
    };
}

/// Equivalent stores contain the same identities.
proof fn lemma_equiv_contains(m1: Seq<RowModel>, m2: Seq<RowModel>, id: BindingId)
    requires
        store_equiv(m1, m2),
    ensures
        contains_id(m1, id) == contains_id(m2, id),
{
    if contains_id(m1, id) {
        let w = choose|w: int| 0 <= w < m1.len() && m1[w].id == id;
        assert(row_equiv(m1[w], m2[w]));
        assert(m2[w].id == id);
    }
    if contains_id(m2, id) {
        let w = choose|w: int| 0 <= w < m2.len() && m2[w].id == id;
        assert(row_equiv(m1[w], m2[w]));
        assert(m1[w].id == id);
    }
}

/// One operation applied to equivalent stores keeps them equivalent.
proof fn lemma_equiv_apply_op(m1: Seq<RowModel>, m2: Seq<RowModel>, op: StoreOp)
    requires
        store_equiv(m1, m2),
    ensures
        store_equiv(apply_op(m1, op), apply_op(m2, op)),
{
    broadcast use vstd::seq_lib::to_multiset_build;

    let r1 = apply_op(m1, op);
    let r2 = apply_op(m2, op);
    match op {
        StoreOp::Seed { id, span } => {
            lemma_equiv_contains(m1, m2, id);
        },
        StoreOp::Exclude { id, span } => {
            lemma_equiv_contains(m1, m2, id);
            if contains_id(m1, id) {
                assert forall|i: int| 0 <= i < r1.len() implies row_equiv(
                    #[trigger] r1[i],
                    r2[i],
                ) by {
                    assert(row_equiv(m1[i], m2[i]));
                };
            }
        },
        StoreOp::Record { id, event } => {
            assert forall|i: int| 0 <= i < r1.len() implies row_equiv(
                #[trigger] r1[i],
                r2[i],
            ) by {
                assert(row_equiv(m1[i], m2[i]));
                if m1[i].id == id {
                    match (m1[i].state, m2[i].state) {
                        (RowState::Watched(x), RowState::Watched(y)) => {
                            assert(x.inits.push(event).to_multiset()
                                =~= x.inits.to_multiset().insert(event));
                            assert(y.inits.push(event).to_multiset()
                                =~= y.inits.to_multiset().insert(event));
                            assert(x.mutations.push(event).to_multiset()
                                =~= x.mutations.to_multiset().insert(event));
                            assert(y.mutations.push(event).to_multiset()
                                =~= y.mutations.to_multiset().insert(event));
                            assert(x.others.push(event).to_multiset()
                                =~= x.others.to_multiset().insert(event));
                            assert(y.others.push(event).to_multiset()
                                =~= y.others.to_multiset().insert(event));
                        },
                        _ => {},
                    }
                }
            };
        },
    }
}

/// A whole sequence applied to equivalent stores keeps them equivalent.
proof fn lemma_equiv_apply_ops(m1: Seq<RowModel>, m2: Seq<RowModel>, ops: Seq<StoreOp>)
    requires
        store_equiv(m1, m2),
    ensures
        store_equiv(apply_ops(m1, ops), apply_ops(m2, ops)),
    decreases ops.len(),
{
    if ops.len() == 0 {
    } else {
        lemma_equiv_apply_ops(m1, m2, ops.drop_last());
        lemma_equiv_apply_op(apply_ops(m1, ops.drop_last()), apply_ops(m2, ops.drop_last()),
            ops.last());
    }
}

/// Two recordings commute up to evidence multisets: they touch no row's
/// identity or exclusion, and appends to one bucket reorder freely.
proof fn lemma_record_comm(m: Seq<RowModel>, r1: StoreOp, r2: StoreOp)
    requires
        r1 is Record,
        r2 is Record,
    ensures
        store_equiv(apply_op(apply_op(m, r1), r2), apply_op(apply_op(m, r2), r1)),
{
    broadcast use vstd::seq_lib::to_multiset_build;
    broadcast use vstd::multiset::group_multiset_axioms;

    let a = apply_op(apply_op(m, r1), r2);
    let b = apply_op(apply_op(m, r2), r1);
    assert(a.len() == m.len() && b.len() == m.len());
    assert forall|i: int| 0 <= i < a.len() implies row_equiv(#[trigger] a[i], b[i]) by {
        match (r1, r2) {
            (StoreOp::Record { id: id1, event: e1 }, StoreOp::Record { id: id2, event: e2 }) => {
                match m[i].state {
                    RowState::Watched(ev) => {
                        if m[i].id == id1 && m[i].id == id2 {
                            let xa = crate::events::with_event(
                                crate::events::with_event(ev, e1),
                                e2,
                            );
                            let xb = crate::events::with_event(
                                crate::events::with_event(ev, e2),
                                e1,
                            );
                            assert(xa.inits.to_multiset() == xb.inits.to_multiset()
                                && xa.mutations.to_multiset() == xb.mutations.to_multiset()
                                && xa.others.to_multiset() == xb.others.to_multiset()) by {
                                assert(ev.inits.push(e1).push(e2).to_multiset()
                                    =~= ev.inits.to_multiset().insert(e1).insert(e2));
                                assert(ev.inits.push(e2).push(e1).to_multiset()
                                    =~= ev.inits.to_multiset().insert(e2).insert(e1));
                                assert(ev.inits.to_multiset().insert(e1).insert(e2)
                                    =~= ev.inits.to_multiset().insert(e2).insert(e1));
                                assert(ev.mutations.push(e1).push(e2).to_multiset()
                                    =~= ev.mutations.to_multiset().insert(e1).insert(e2));
                                assert(ev.mutations.push(e2).push(e1).to_multiset()
                                    =~= ev.mutations.to_multiset().insert(e2).insert(e1));
                                assert(ev.mutations.to_multiset().insert(e1).insert(e2)
                                    =~= ev.mutations.to_multiset().insert(e2).insert(e1));
                                assert(ev.others.push(e1).push(e2).to_multiset()
                                    =~= ev.others.to_multiset().insert(e1).insert(e2));
                                assert(ev.others.push(e2).push(e1).to_multiset()
                                    =~= ev.others.to_multiset().insert(e2).insert(e1));
                                assert(ev.others.to_multiset().insert(e1).insert(e2)
                                    =~= ev.others.to_multiset().insert(e2).insert(e1));
                            }
                        }
                    },
                    RowState::Excluded => {},
                }
            },
            _ => {},
        }
    };
}

/// Moving one recording past a record-only sequence preserves the store
/// up to evidence multisets.
proof fn lemma_record_to_end(m: Seq<RowModel>, r: StoreOp, c: Seq<StoreOp>)
    requires
        r is Record,
        all_records(c),
    ensures
        store_equiv(apply_ops(m, seq![r] + c), apply_ops(m, c + seq![r])),
    decreases c.len(),
{
    if c.len() == 0 {
        assert(seq![r] + c =~= seq![r]);
        assert(c + seq![r] =~= seq![r]);
        lemma_store_equiv_refl(apply_ops(m, seq![r]));
    } else {
        let cp = c.drop_last();
        let cl = c.last();
        assert(all_records(cp)) by {
            assert(forall|i: int| 0 <= i < cp.len() ==> cp[i] == c[i]);
        }
        assert(cl is Record);
        let lhs = apply_ops(m, seq![r] + c);
        let rhs = apply_ops(m, c + seq![r]);
        assert((seq![r] + c).drop_last() =~= seq![r] + cp);
        assert((seq![r] + c).last() == cl);
        assert(lhs == apply_op(apply_ops(m, seq![r] + cp), cl));
        lemma_record_to_end(m, r, cp);
        lemma_equiv_apply_op(apply_ops(m, seq![r] + cp), apply_ops(m, cp + seq![r]), cl);
        let mid = apply_op(apply_ops(m, cp + seq![r]), cl);
        lemma_apply_ops_concat(m, cp, seq![r]);
        crate::classify::lemma_apply_ops_one(apply_ops(m, cp), r);
        assert(mid == apply_op(apply_op(apply_ops(m, cp), r), cl));
        lemma_record_comm(apply_ops(m, cp), r, cl);
        assert(apply_op(apply_ops(m, cp), cl) == apply_ops(m, c));
        lemma_apply_ops_concat(m, c, seq![r]);
        crate::classify::lemma_apply_ops_one(apply_ops(m, c), r);
        assert(rhs == apply_op(apply_op(apply_ops(m, cp), cl), r));
        lemma_store_equiv_trans(lhs, mid, rhs);
    }
}

/// Two record-only blocks commute up to evidence multisets.
proof fn lemma_record_blocks_comm(m: Seq<RowModel>, a: Seq<StoreOp>, b: Seq<StoreOp>)
    requires
        all_records(a),
        all_records(b),
    ensures
        store_equiv(apply_ops(m, a + b), apply_ops(m, b + a)),
    decreases a.len(),
{
    if a.len() == 0 {
        assert(a + b =~= b);
        assert(b + a =~= b);
        lemma_store_equiv_refl(apply_ops(m, b));
    } else {
        let a0 = a[0];
        let rest = a.subrange(1, a.len() as int);
        assert(all_records(rest)) by {
            assert(forall|i: int| 0 <= i < rest.len() ==> rest[i] == a[i + 1]);
        }
        assert(a0 is Record);
        lemma_all_records_concat(rest, b);
        assert(a + b =~= seq![a0] + (rest + b));
        let lhs = apply_ops(m, a + b);
        let rhs = apply_ops(m, b + a);
        lemma_record_to_end(m, a0, rest + b);
        let x1 = apply_ops(m, (rest + b) + seq![a0]);
        assert(store_equiv(lhs, x1));
        lemma_apply_ops_concat(m, rest + b, seq![a0]);
        crate::classify::lemma_apply_ops_one(apply_ops(m, rest + b), a0);
        assert(x1 == apply_op(apply_ops(m, rest + b), a0));
        lemma_record_blocks_comm(m, rest, b);
        lemma_equiv_apply_op(apply_ops(m, rest + b), apply_ops(m, b + rest), a0);
        let x2 = apply_op(apply_ops(m, b + rest), a0);
        assert(store_equiv(x1, x2));
        let mb = apply_ops(m, b);
        lemma_apply_ops_concat(m, b, rest);
        assert(apply_ops(m, b + rest) == apply_ops(mb, rest));
        lemma_apply_ops_concat(mb, rest, seq![a0]);
        crate::classify::lemma_apply_ops_one(apply_ops(mb, rest), a0);
        assert(x2 == apply_ops(mb, rest + seq![a0]));
        lemma_record_to_end(mb, a0, rest);
        lemma_store_equiv_sym(
            apply_ops(mb, seq![a0] + rest),
            apply_ops(mb, rest + seq![a0]),
        );
        let x3 = apply_ops(mb, seq![a0] + rest);
        assert(store_equiv(x2, x3));
        assert(seq![a0] + rest =~= a);
        lemma_apply_ops_concat(m, b, a);
        assert(x3 == rhs);
        lemma_store_equiv_trans(lhs, x1, x2);
        lemma_store_equiv_trans(lhs, x2, rhs);
    }
}

/// A sibling list's walk splits over concatenation.
proof fn lemma_ops_of_exprs_concat(s1: Seq<Expr>, s2: Seq<Expr>)
    ensures
        ops_of_exprs(s1 + s2) == ops_of_exprs(s1) + ops_of_exprs(s2),
    decreases s2.len(),
{
    if s2.len() == 0 {
        assert(s1 + s2 =~= s1);
        assert(ops_of_exprs(s1) + ops_of_exprs(s2) =~= ops_of_exprs(s1));
    } else {
        assert((s1 + s2).drop_last() =~= s1 + s2.drop_last());
        assert((s1 + s2).last() == s2.last());
        lemma_ops_of_exprs_concat(s1, s2.drop_last());
        assert((ops_of_exprs(s1) + ops_of_exprs(s2.drop_last())) + ops_of_expr(s2.last())
            =~= ops_of_exprs(s1) + ops_of_exprs(s2));
    }
}

/// Equivalent stores receive identical diagnostics: the verdict reads
/// the evidence as multisets, and identity and span agree row by row.
pub proof fn lemma_equiv_same_diagnostics(m1: Seq<RowModel>, m2: Seq<RowModel>)
    requires
        store_equiv(m1, m2),
    ensures
        diagnostics_of(m1) == diagnostics_of(m2),
    decreases m1.len(),
{
    if m1.len() == 0 {
        assert(diagnostics_of(m1) =~= diagnostics_of(m2));
    } else {
        assert(store_equiv(m1.drop_last(), m2.drop_last())) by {
            assert(forall|i: int| 0 <= i < m1.drop_last().len() ==> m1.drop_last()[i] == m1[i]);
            assert(forall|i: int| 0 <= i < m2.drop_last().len() ==> m2.drop_last()[i] == m2[i]);
        }
        lemma_equiv_same_diagnostics(m1.drop_last(), m2.drop_last());
        assert(row_equiv(m1[m1.len() - 1], m2[m1.len() - 1]));
        match (m1.last().state, m2.last().state) {
            (RowState::Watched(x), RowState::Watched(y)) => {
                lemma_verdict_order_independent(x, y);
            },
            _ => {},
        }
        assert(diagnostics_of(m1) =~= diagnostics_of(m2));
    }
}

/// Permuting a sibling list: walks of two lists that hold the same
/// expressions, in any order, leave equivalent stores behind.
pub proof fn lemma_sibling_permutation(m: Seq<RowModel>, s1: Seq<Expr>, s2: Seq<Expr>)
    requires
        s1.to_multiset() == s2.to_multiset(),
    ensures
        store_equiv(apply_ops(m, ops_of_exprs(s1)), apply_ops(m, ops_of_exprs(s2))),
    decreases s1.len(),
{
    s1.to_multiset_ensures();
    s2.to_multiset_ensures();
    if s1.len() == 0 {
        assert(s2.len() == 0);
        lemma_store_equiv_refl(m);
    } else {
        let e = s1.last();
        assert(s1.contains(e));
        vstd::seq_lib::to_multiset_contains(s1, e);
        vstd::seq_lib::to_multiset_contains(s2, e);
        assert(s2.contains(e));
        let k = choose|k: int| 0 <= k < s2.len() && s2[k] == e;
        let a = s2.subrange(0, k);
        let b = s2.subrange(k + 1, s2.len() as int);
        assert(s2 =~= a + seq![e] + b);
        let dl = s1.drop_last();
        let without = a + b;
        assert(dl.to_multiset() == without.to_multiset()) by {
            assert(dl =~= s1.remove(s1.len() - 1));
            vstd::seq_lib::to_multiset_remove(s1, s1.len() - 1);
            assert(without =~= s2.remove(k));
            vstd::seq_lib::to_multiset_remove(s2, k);
        }
        lemma_sibling_permutation(m, dl, without);
        let es = ops_of_expr(e);
        let asq = ops_of_exprs(a);
        let bs = ops_of_exprs(b);
        lemma_ops_of_expr_records(e);
        lemma_ops_of_exprs_records(b);
        lemma_ops_of_exprs_concat(a, b);
        assert(ops_of_exprs(without) == asq + bs);
        assert(ops_of_exprs(s1) == ops_of_exprs(dl) + es) by {
            assert(ops_of_exprs(s1) == ops_of_exprs(s1.drop_last()) + ops_of_expr(s1.last()));
        }
        lemma_apply_ops_concat(m, ops_of_exprs(dl), es);
        let x0 = apply_ops(m, ops_of_exprs(s1));
        assert(x0 == apply_ops(apply_ops(m, ops_of_exprs(dl)), es));
        lemma_equiv_apply_ops(
            apply_ops(m, ops_of_exprs(dl)),
            apply_ops(m, asq + bs),
            es,
        );
        let x1 = apply_ops(apply_ops(m, asq + bs), es);
        assert(store_equiv(x0, x1));
        lemma_apply_ops_concat(m, asq, bs);
        lemma_apply_ops_concat(apply_ops(m, asq), bs, es);
        let ma = apply_ops(m, asq);
        assert(x1 == apply_ops(ma, bs + es));
        lemma_record_blocks_comm(ma, bs, es);
        lemma_store_equiv_sym(apply_ops(ma, bs + es), apply_ops(ma, es + bs));
        let x2 = apply_ops(ma, es + bs);
        assert(store_equiv(apply_ops(ma, bs + es), x2));
        lemma_apply_ops_concat(ma, es, bs);
        assert(x2 == apply_ops(apply_ops(ma, es), bs));
        assert(store_equiv(x1, x2));
        let x3 = apply_ops(m, ops_of_exprs(s2));
        assert(x3 == x2) by {
            lemma_ops_of_exprs_concat(a + seq![e], b);
            lemma_ops_of_exprs_concat(a, seq![e]);
            assert(ops_of_exprs(seq![e]) == es) by {
                assert(seq![e].last() == e);
                assert(seq![e].drop_last() =~= Seq::<Expr>::empty());
                assert(ops_of_exprs(seq![e])
                    == ops_of_exprs(Seq::<Expr>::empty()) + ops_of_expr(e));
                assert(ops_of_exprs(Seq::<Expr>::empty()) == Seq::<StoreOp>::empty());
                assert(Seq::<StoreOp>::empty() + es =~= es);
            }
            assert(ops_of_exprs(s2) == (asq + es) + bs);
            lemma_apply_ops_concat(m, asq + es, bs);
            lemma_apply_ops_concat(m, asq, es);
        }
        lemma_store_equiv_trans(x0, x1, x2);
        assert(store_equiv(x0, x3));
    }
}

/// Order independence, whole property: permuting the traversal order of
/// sibling expressions changes no diagnostic of the walk.
pub proof fn lemma_sibling_permutation_same_diagnostics(
    m: Seq<RowModel>,
    s1: Seq<Expr>,
    s2: Seq<Expr>,
)
    requires
        s1.to_multiset() == s2.to_multiset(),
    ensures
        diagnostics_of(apply_ops(m, ops_of_exprs(s1)))
            == diagnostics_of(apply_ops(m, ops_of_exprs(s2))),
{
    lemma_sibling_permutation(m, s1, s2);
    lemma_equiv_same_diagnostics(
        apply_ops(m, ops_of_exprs(s1)),
        apply_ops(m, ops_of_exprs(s2)),
    );
}

} // verus!
