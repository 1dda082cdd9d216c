//! The whole pass: one walk over the analyzed unit that seeds the store
//! from declarations and classifies every function body, then one
//! verdict fold after traversal is known complete.
//!
//! The pass owns its store exclusively for the duration of one run; the
//! store is consumed by the verdict engine and nothing survives a run.

use vstd::prelude::*;

verus! {

use crate::model::{CrateModel, FnBody, Item, ItemKind};
use crate::store::{apply_ops, lemma_apply_ops_concat, CandidacyStore, RowModel, StoreOp};
use crate::classify::{classify_body, ops_of_body};
use crate::scan::{check_enum, check_struct, ops_of_enum, ops_of_struct};
use crate::verdict::{compute_verdicts, diagnostics_of, Diagnostic};

/// The operations one item's visit applies: declaration scanning for
/// structs and enums, usage classification for function bodies.
pub open spec fn ops_of_item(it: Item) -> Seq<StoreOp> {
    match it.kind {
        ItemKind::Struct(d) => ops_of_struct(it.vis, d),
        ItemKind::Enum(d) => ops_of_enum(it.vis, d),
        ItemKind::Fn(b) => ops_of_body(b),
        ItemKind::Other => Seq::<StoreOp>::empty(),
    }
}

/// The operations of an item list, in declaration order.
pub open spec fn ops_of_items(s: Seq<Item>) -> Seq<StoreOp>
    decreases s.len(),
{
    if s.len() == 0 {
        Seq::<StoreOp>::empty()
    } else {
        ops_of_items(s.drop_last()) + ops_of_item(s.last())
    }
}

/// The operations one whole unit's walk applies.
pub open spec fn ops_of_crate(k: CrateModel) -> Seq<StoreOp> {
    ops_of_items(k.items@)
}

/// The store a full walk of the unit leaves behind, starting empty.
pub open spec fn store_of_crate(k: CrateModel) -> Seq<RowModel> {
    apply_ops(Seq::<RowModel>::empty(), ops_of_crate(k))
}

/// The diagnostics of one full run over the unit: the pass is a pure
/// function of the input tree.
pub open spec fn crate_diagnostics(k: CrateModel) -> Seq<Diagnostic> {
    diagnostics_of(store_of_crate(k))
}

/// The traversal: owns the store for the duration of one run.
pub struct CowVisitor {
    store: CandidacyStore,
}

impl View for CowVisitor {
    type V = Seq<RowModel>;

    closed spec fn view(&self) -> Seq<RowModel> {
        self.store@
    }
}

impl CowVisitor {
    /// The store's identities are never duplicated.
    pub closed spec fn wf(&self) -> bool {
        self.store.wf()
    }

    /// A fresh visitor with an empty store.
    pub fn new() -> (v: CowVisitor)
        ensures
            v@ == Seq::<RowModel>::empty(),
            v.wf(),
    {
        CowVisitor { store: CandidacyStore::new() }
    }

    /// Classify one function body against the current store.
    pub fn visit_fn(&mut self, b: &FnBody)
        requires
            old(self).wf(),
        ensures
            final(self).wf(),
            final(self)@ == apply_ops(old(self)@, ops_of_body(*b)),
    {
        classify_body(&mut self.store, b);
    }

    /// Visit one item: scan its declarations or classify its body.
    pub fn visit_item(&mut self, it: &Item)
        requires
            old(self).wf(),
        ensures
            final(self).wf(),
            final(self)@ == apply_ops(old(self)@, ops_of_item(*it)),
    {
        match &it.kind {
            ItemKind::Struct(d) => {
                check_struct(&mut self.store, it.vis, d);
            },
            ItemKind::Enum(d) => {
                check_enum(&mut self.store, it.vis, d);
            },
            ItemKind::Fn(b) => {
                classify_body(&mut self.store, b);
            },
            ItemKind::Other => {},
        }
    }

    /// Walk the whole unit, item by item, in declaration order.
    #[verifier::loop_isolation(false)]
    pub fn walk_crate(&mut self, k: &CrateModel)
        requires
            old(self).wf(),
        ensures
            final(self).wf(),
            final(self)@ == apply_ops(old(self)@, ops_of_crate(*k)),
    {
        let n = k.items.len();
        for j in 0..n
            invariant
                self.wf(),
                self@ == apply_ops(old(self)@, ops_of_items(k.items@.take(j as int))),
        {
            self.visit_item(&k.items[j]);
            proof {
                let t = k.items@.take(j as int + 1);
                assert(t.drop_last() =~= k.items@.take(j as int));
                assert(t.last() == k.items@[j as int]);
                lemma_apply_ops_concat(
                    old(self)@,
                    ops_of_items(k.items@.take(j as int)),
                    ops_of_item(k.items@[j as int]),
                );
            }
        }
        proof {
            assert(k.items@.take(n as int) =~= k.items@);
        }
    }

    /// Fold the finished store into diagnostics.  Sound only once the
    /// walk of the whole unit has completed.
    pub fn verdicts(&self) -> (r: Vec<Diagnostic>)
        ensures
            r@ == diagnostics_of(self@),
    {
        compute_verdicts(&self.store)
    }
}

/// The pass itself: one run, one store, one diagnostic set.
#[derive(Clone, Copy)]
pub struct CowPass;

impl CowPass {
    /// Run the full pass: scan and classify the whole unit, then decide.
    pub fn check_crate(&self, k: &CrateModel) -> (r: Vec<Diagnostic>)
        ensures
            r@ == crate_diagnostics(*k),
    {
        let mut v = CowVisitor::new();
        v.walk_crate(k);
        v.verdicts()
    }
}

} // verus!
