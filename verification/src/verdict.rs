//! The verdict engine: a single post-pass fold of each finished store
//! entry into a final decision, run only after traversal is complete.
//!
//! Policy: a watched binding is a `Candidate` if and only if it has at
//! least one initialization, no declaration without an initializer, every
//! initialization comes from a statically-known immutable source, it is
//! never mutated after declaration, and every other use only borrows —
//! a destructuring with a by-reference bind counts as a borrow, one with
//! a by-value bind counts as a move.  `Excluded` entries are always
//! `NotCandidate` without inspection.  The decision reads the evidence
//! collections as multisets: traversal order never matters.

use vstd::prelude::*;

verus! {

use crate::model::{BindingId, SpanId};
use crate::events::{Evidence, EvidenceModel, SourceKind, UsageEvent};
use crate::store::{CandidacyStore, RowModel, RowState};

/// The final decision for one binding.
#[derive(Clone, Copy, PartialEq, Eq, Structural, Debug)]
pub enum Verdict {
    Candidate,
    NotCandidate,
}

/// Severity a diagnostic is reported at.
#[derive(Clone, Copy, PartialEq, Eq, Structural, Debug)]
pub enum Severity {
    Allow,
    Warn,
    Deny,
}

/// One emitted diagnostic: the recommendation to use a non-owning or
/// copy-on-write representation for the named binding.  Rendering the
/// human-readable message is the reporting layer's concern.
#[derive(Clone, Copy, PartialEq, Eq, Structural, Debug)]
pub struct Diagnostic {
    pub severity: Severity,
    /// Location of the binding's declaration.
    pub span: SpanId,
    /// Identity of the binding the recommendation concerns.
    pub binding: BindingId,
}

/// An initialization event from a statically-known, immutable source.
pub open spec fn is_static_init(e: UsageEvent) -> bool {
    e == UsageEvent::Initialize(SourceKind::Static)
}

/// A use that only borrows: a reference, or a by-reference destructure.
pub open spec fn is_borrow_like(e: UsageEvent) -> bool {
    match e {
        UsageEvent::Borrow(_) => true,
        UsageEvent::PatternDestructure(mode) => mode is ByRef,
        _ => false,
    }
}

/// The eligibility decision over one finished evidence record.
pub open spec fn is_candidate_evidence(ev: EvidenceModel) -> bool {
    &&& ev.inits.len() > 0
    &&& (forall|i: int| 0 <= i < ev.inits.len() ==> is_static_init(#[trigger] ev.inits[i]))
    &&& ev.mutations.len() == 0
    &&& (forall|i: int| 0 <= i < ev.others.len() ==> is_borrow_like(#[trigger] ev.others[i]))
}

/// The verdict for one store entry.
pub open spec fn verdict_of(st: RowState) -> Verdict {
    match st {
        RowState::Excluded => Verdict::NotCandidate,
        RowState::Watched(ev) => if is_candidate_evidence(ev) {
            Verdict::Candidate
        } else {
            Verdict::NotCandidate
        },
    }
}

/// The diagnostic emitted for one candidate row.
pub open spec fn diag_of(r: RowModel) -> Diagnostic {
    Diagnostic { severity: Severity::Warn, span: r.span, binding: r.id }
}

/// The diagnostics of a finished store, one per candidate row, in row
/// order.
pub open spec fn diagnostics_of(m: Seq<RowModel>) -> Seq<Diagnostic>
    decreases m.len(),
{
    if m.len() == 0 {
        Seq::<Diagnostic>::empty()
    } else {
        diagnostics_of(m.drop_last()) + (if verdict_of(m.last().state) is Candidate {
            seq![diag_of(m.last())]
        } else {
            Seq::<Diagnostic>::empty()
        })
    }
}

/// Whether every initialization is from a static source.
#[verifier::loop_isolation(false)]
fn all_static_inits(v: &Vec<UsageEvent>) -> (r: bool)
    ensures
        r == (forall|i: int| 0 <= i < v@.len() ==> is_static_init(#[trigger] v@[i])),
{
    let n = v.len();
    for j in 0..n
        invariant
            forall|i: int| 0 <= i < j ==> is_static_init(#[trigger] v@[i]),
    {
        match &v[j] {
            UsageEvent::Initialize(SourceKind::Static) => {},
            _ => {
                return false;
            },
        }
    }
    true
}

/// Whether every other use only borrows.
#[verifier::loop_isolation(false)]
fn all_borrow_like(v: &Vec<UsageEvent>) -> (r: bool)
    ensures
        r == (forall|i: int| 0 <= i < v@.len() ==> is_borrow_like(#[trigger] v@[i])),
{
    let n = v.len();
    for j in 0..n
        invariant
            forall|i: int| 0 <= i < j ==> is_borrow_like(#[trigger] v@[i]),
    {
        match &v[j] {
            UsageEvent::Borrow(_) => {},
            UsageEvent::PatternDestructure(crate::model::BindMode::ByRef) => {},
            _ => {
                return false;
            },
        }
    }
    true
}

/// Decide one finished evidence record.
pub fn evidence_verdict(ev: &Evidence) -> (r: Verdict)
    ensures
        r == verdict_of(RowState::Watched(ev@)),
{
    let nonempty = ev.inits.len() > 0;
    let unmutated = ev.mutations.len() == 0;
    let statically = all_static_inits(&ev.inits);
    let borrows = all_borrow_like(&ev.others);
    proof {
        assert(ev@.inits == ev.inits@);
        assert(ev@.others == ev.others@);
        assert(statically == (forall|i: int|
            0 <= i < ev@.inits.len() ==> is_static_init(#[trigger] ev@.inits[i])));
        assert(borrows == (forall|i: int|
            0 <= i < ev@.others.len() ==> is_borrow_like(#[trigger] ev@.others[i])));
    }
    if nonempty && unmutated && statically && borrows {
        Verdict::Candidate
    } else {
        Verdict::NotCandidate
    }
}

/// Fold a finished store into its diagnostics, one per candidate row.
#[verifier::loop_isolation(false)]
pub fn compute_verdicts(store: &CandidacyStore) -> (r: Vec<Diagnostic>)
    ensures
        r@ == diagnostics_of(store@),
{
    let rows = store.rows();
    let n = rows.len();
    let mut out: Vec<Diagnostic> = Vec::new();
    for j in 0..n
        invariant
            out@ == diagnostics_of(store@.take(j as int)),
    {
        let row = &rows[j];
        proof {
            assert(row@ == store@[j as int]);
        }
        match &row.state {
            crate::store::BindingState::Excluded => {},
            crate::store::BindingState::Watched(ev) => {
                match evidence_verdict(ev) {
                    Verdict::Candidate => {
                        out.push(Diagnostic { severity: Severity::Warn, span: row.span, binding: row.id });
                    },
                    Verdict::NotCandidate => {},
                }
            },
        }
        proof {
            let t = store@.take(j as int + 1);
            assert(t.drop_last() =~= store@.take(j as int));
            assert(t.last() == store@[j as int]);
        }
    }
    proof {
        assert(store@.take(n as int) =~= store@);
    }
    out
}

} // verus!
