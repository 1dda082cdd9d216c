//! The candidacy store: an identity-indexed map from each string-typed
//! binding to either `Excluded` or a still-watched evidence record.
//!
//! The store's behaviour is specified by a small operation language
//! (`StoreOp`) and a fold (`apply_ops`): the scanner and the classifier
//! each promise exactly which operation sequence their traversal applies.
//! Exclusion is monotonic: once a row is `Excluded`, no later operation
//! brings it back, and recording against it is a no-op.

use vstd::prelude::*;

verus! {

use crate::model::{BindingId, SpanId};
use crate::events::{Evidence, EvidenceModel, UsageEvent, empty_evidence, with_event};

/// State of one store entry.
pub enum BindingState {
    /// The binding is or may become externally observable; no evidence is
    /// kept and its verdict is fixed.
    Excluded,
    /// The binding is still watched, with the evidence seen so far.
    Watched(Evidence),
}

/// One row of the store.
pub struct StoreRow {
    pub id: BindingId,
    pub span: SpanId,
    pub state: BindingState,
}

/// Mathematical view of a row's state.
pub ghost enum RowState {
    Excluded,
    Watched(EvidenceModel),
}

/// Mathematical view of one row.
pub ghost struct RowModel {
    pub id: BindingId,
    pub span: SpanId,
    pub state: RowState,
}

impl View for BindingState {
    type V = RowState;

    open spec fn view(&self) -> RowState {
        match self {
            BindingState::Excluded => RowState::Excluded,
            BindingState::Watched(ev) => RowState::Watched(ev@),
        }
    }
}

impl View for StoreRow {
    type V = RowModel;

    open spec fn view(&self) -> RowModel {
        RowModel { id: self.id, span: self.span, state: self.state@ }
    }
}

/// One store operation, as the traversals speak of it.
pub ghost enum StoreOp {
    /// Insert-if-absent a watched row with empty evidence.
    Seed { id: BindingId, span: SpanId },
    /// Make the row `Excluded`, inserting it if absent; discards any
    /// accumulated evidence and is idempotent.
    Exclude { id: BindingId, span: SpanId },
    /// Append one event to a watched row's evidence; a no-op on an
    /// absent or already-excluded row.
    Record { id: BindingId, event: UsageEvent },
}

/// Whether some row carries this identity.
pub open spec fn contains_id(m: Seq<RowModel>, id: BindingId) -> bool {
    exists|i: int| 0 <= i < m.len() && m[i].id == id
}

/// The effect of one operation on the store model.
pub open spec fn apply_op(m: Seq<RowModel>, op: StoreOp) -> Seq<RowModel> {
    match op {
        StoreOp::Seed { id, span } => {
            if contains_id(m, id) {
                m
            } else {
                m.push(RowModel { id, span, state: RowState::Watched(empty_evidence()) })
            }
        },
        StoreOp::Exclude { id, span } => {
            if contains_id(m, id) {
                m.map_values(
                    |r: RowModel|
                        if r.id == id {
                            RowModel { state: RowState::Excluded, ..r }
                        } else {
                            r
                        },
                )
            } else {
                m.push(RowModel { id, span, state: RowState::Excluded })
            }
        },
        StoreOp::Record { id, event } => {
            m.map_values(
                |r: RowModel|
                    if r.id == id {
                        match r.state {
                            RowState::Watched(ev) => RowModel {
                                state: RowState::Watched(with_event(ev, event)),
                                ..r
                            },
                            RowState::Excluded => r,
                        }
                    } else {
                        r
                    },
            )
        },
    }
}

/// Left fold of a whole operation sequence.
pub open spec fn apply_ops(m: Seq<RowModel>, ops: Seq<StoreOp>) -> Seq<RowModel>
    decreases ops.len(),
{
    if ops.len() == 0 {
        m
    } else {
        apply_op(apply_ops(m, ops.drop_last()), ops.last())
    }
}

/// Folding a concatenation folds each half in turn.
pub proof fn lemma_apply_ops_concat(m: Seq<RowModel>, a: Seq<StoreOp>, b: Seq<StoreOp>)
    ensures
        apply_ops(m, a + b) == apply_ops(apply_ops(m, a), b),
    decreases b.len(),
{
    if b.len() == 0 {
        assert(a + b == a);
    } else {
        lemma_apply_ops_concat(m, a, b.drop_last());
        assert((a + b).drop_last() == a + b.drop_last());
        assert((a + b).last() == b.last());
    }
}

/// The identity-indexed store itself, backed by rows with distinct ids.
pub struct CandidacyStore {
    rows: Vec<StoreRow>,
}

impl View for CandidacyStore {
    type V = Seq<RowModel>;

    closed spec fn view(&self) -> Seq<RowModel> {
        self.rows@.map_values(|r: StoreRow| r@)
    }
}

impl CandidacyStore {
    /// Identities are the key and are never duplicated.
    pub open spec fn wf(&self) -> bool {
        forall|i: int, j: int|
            0 <= i < self@.len() && 0 <= j < self@.len() && i != j ==> self@[i].id != self@[j].id
    }

    /// An empty store.
    pub fn new() -> (s: CandidacyStore)
        ensures
            s@ == Seq::<RowModel>::empty(),
            s.wf(),
    {
        let s = CandidacyStore { rows: Vec::new() };
        proof {
            assert(s@ =~= Seq::<RowModel>::empty());
        }
        s
    }

    /// Index of the row carrying `id`, if any.
    fn position_of(&self, id: BindingId) -> (r: Option<usize>)
        ensures
            match r {
                Some(i) => 0 <= i < self@.len() && self@[i as int].id == id,
                None => !contains_id(self@, id),
            },
    {
        let n = self.rows.len();
        for i in 0..n
            invariant
                n == self.rows.len(),
                forall|j: int| 0 <= j < i ==> self@[j].id != id,
        {
            if self.rows[i].id == id {
                return Some(i);
            }
        }
        None
    }

    /// Insert-if-absent a watched row with empty evidence.
    pub fn seed(&mut self, id: BindingId, span: SpanId)
        requires
            old(self).wf(),
        ensures
            final(self).wf(),
            final(self)@ == apply_op(old(self)@, StoreOp::Seed { id, span }),
    {
        match self.position_of(id) {
            Some(_) => {},
            None => {
                self.rows.push(
                    StoreRow { id, span, state: BindingState::Watched(Evidence::empty()) },
                );
                proof {
                    assert(self@ =~= old(self)@.push(
                        RowModel { id, span, state: RowState::Watched(empty_evidence()) },
                    ));
                }
            },
        }
    }

    /// Make the row `Excluded`, inserting it if absent.
    pub fn exclude(&mut self, id: BindingId, span: SpanId)
        requires
            old(self).wf(),
        ensures
            final(self).wf(),
            final(self)@ == apply_op(old(self)@, StoreOp::Exclude { id, span }),
    {
        match self.position_of(id) {
            Some(i) => {
                let row = self.rows.remove(i);
                self.rows.insert(
                    i,
                    StoreRow { id: row.id, span: row.span, state: BindingState::Excluded },
                );
                proof {
                    assert(self@ =~= apply_op(old(self)@, StoreOp::Exclude { id, span }));
                }
            },
            None => {
                self.rows.push(StoreRow { id, span, state: BindingState::Excluded });
                proof {
                    assert(self@ =~= old(self)@.push(
                        RowModel { id, span, state: RowState::Excluded },
                    ));
                }
            },
        }
    }

    /// Append one event to a watched row's evidence; a no-op on an absent
    /// or excluded row, whose verdict further evidence cannot change.
    pub fn record(&mut self, id: BindingId, event: UsageEvent)
        requires
            old(self).wf(),
        ensures
            final(self).wf(),
            final(self)@ == apply_op(old(self)@, StoreOp::Record { id, event }),
    {
        match self.position_of(id) {
            Some(i) => {
                let row = self.rows.remove(i);
                match row.state {
                    BindingState::Excluded => {
                        self.rows.insert(
                            i,
                            StoreRow { id: row.id, span: row.span, state: BindingState::Excluded },
                        );
                    },
                    BindingState::Watched(mut ev) => {
                        match event {
                            UsageEvent::Initialize(_) => ev.inits.push(event),
                            UsageEvent::DeclaredWithoutInitializer => ev.inits.push(event),
                            UsageEvent::Mutate => ev.mutations.push(event),
                            UsageEvent::Consume => ev.others.push(event),
                            UsageEvent::Borrow(_) => ev.others.push(event),
                            UsageEvent::PatternDestructure(_) => ev.others.push(event),
                        }
                        self.rows.insert(
                            i,
                            StoreRow {
                                id: row.id,
                                span: row.span,
                                state: BindingState::Watched(ev),
                            },
                        );
                    },
                }
                proof {
                    assert(self@ =~= apply_op(old(self)@, StoreOp::Record { id, event }));
                }
            },
            None => {
                proof {
                    assert(self@ =~= apply_op(old(self)@, StoreOp::Record { id, event }));
                }
            },
        }
    }

    /// Read access for the verdict engine.
    pub fn rows(&self) -> (r: &Vec<StoreRow>)
        ensures
            r@.map_values(|row: StoreRow| row@) == self@,
    {
        &self.rows
    }
}

} // verus!
