//! The closed vocabulary of ownership-relevant program actions, and the
//! evidence record that accumulates them for one tracked binding.
//!
//! Every hook of the traversal collapses into the single `UsageEvent`
//! variant; the verdict engine consumes it with one exhaustive match, so
//! no optional, forgotten override point exists by construction.

use vstd::prelude::*;

verus! {

use crate::model::{BindMode, BorrowKind};

/// Whether an initializing expression is a statically-known, immutable
/// source (a literal or a provably-constant expression).  The predicate
/// is part of the resolved snapshot; it is read, not inferred.
#[derive(Clone, Copy, PartialEq, Eq, Structural, Debug)]
pub enum SourceKind {
    Static,
    Dynamic,
}

/// One classified program action against one binding.
#[derive(Clone, Copy, PartialEq, Eq, Structural, Debug)]
pub enum UsageEvent {
    /// The binding receives its value at declaration time or at a field
    /// initialization, from a source of the given kind.
    Initialize(SourceKind),
    /// The value is moved out of the binding.
    Consume,
    /// A reference to the binding is taken without ownership transfer.
    Borrow(BorrowKind),
    /// A new value is written into the binding after its declaration.
    Mutate,
    /// The binding is destructured by a pattern with the given bind mode.
    PatternDestructure(BindMode),
    /// The binding was declared with no initial value, so nothing can be
    /// asserted about its initialization.
    DeclaredWithoutInitializer,
}

/// Evidence for one still-tracked binding: three append-only collections,
/// grouped as initializations, mutations, and other uses.  Order inside a
/// collection records traversal order only; verdicts never depend on it.
pub struct Evidence {
    /// `Initialize` and `DeclaredWithoutInitializer` events.
    pub inits: Vec<UsageEvent>,
    /// `Mutate` events.
    pub mutations: Vec<UsageEvent>,
    /// Borrows, consumes and pattern events.
    pub others: Vec<UsageEvent>,
}

/// Mathematical view of an evidence record.
pub ghost struct EvidenceModel {
    pub inits: Seq<UsageEvent>,
    pub mutations: Seq<UsageEvent>,
    pub others: Seq<UsageEvent>,
}

impl View for Evidence {
    type V = EvidenceModel;

    open spec fn view(&self) -> EvidenceModel {
        EvidenceModel { inits: self.inits@, mutations: self.mutations@, others: self.others@ }
    }
}

impl Evidence {
    /// A fresh, empty record.
    pub fn empty() -> (r: Evidence)
        ensures
            r@ == empty_evidence(),
    {
        Evidence { inits: Vec::new(), mutations: Vec::new(), others: Vec::new() }
    }
}

/// The evidence a binding starts with when first tracked.
pub open spec fn empty_evidence() -> EvidenceModel {
    EvidenceModel {
        inits: Seq::<UsageEvent>::empty(),
        mutations: Seq::<UsageEvent>::empty(),
        others: Seq::<UsageEvent>::empty(),
    }
}

/// The collection an event belongs to, as the record it lands in.
pub open spec fn with_event(ev: EvidenceModel, e: UsageEvent) -> EvidenceModel {
    match e {
        UsageEvent::Initialize(_) => EvidenceModel { inits: ev.inits.push(e), ..ev },
        UsageEvent::DeclaredWithoutInitializer => EvidenceModel { inits: ev.inits.push(e), ..ev },
        UsageEvent::Mutate => EvidenceModel { mutations: ev.mutations.push(e), ..ev },
        UsageEvent::Consume => EvidenceModel { others: ev.others.push(e), ..ev },
        UsageEvent::Borrow(_) => EvidenceModel { others: ev.others.push(e), ..ev },
        UsageEvent::PatternDestructure(_) => EvidenceModel { others: ev.others.push(e), ..ev },
    }
}

} // verus!
