//! The usage classifier: one depth-first, left-to-right walk over a
//! function body that turns every ownership-relevant site into exactly
//! one `UsageEvent` against the binding it concerns.
//!
//! Classification rules:
//! - a mention of a binding whose immediate parent takes its address is a
//!   `Borrow`, never a `Consume`; the parent is inspected before any
//!   event is emitted;
//! - any other mention of a binding's place is a `Consume`;
//! - an assignment into an existing binding is a `Mutate`;
//! - a string-typed local declared with an initializer is seeded and
//!   receives `Initialize` with the initializer's source kind; one
//!   declared without an initializer receives `DeclaredWithoutInitializer`;
//! - a destructuring pattern emits `PatternDestructure` with the
//!   pattern's own binding mode;
//! - every other node is skipped silently: an identity with no store row
//!   is the normal case, not a fault.
//!
//! Each function promises exactly which operation sequence its walk
//! applies to the store (`ops_of_*`).

use vstd::prelude::*;

verus! {

use crate::model::{Expr, FieldInit, FnBody, Stmt, Ty};
use crate::events::{SourceKind, UsageEvent};
use crate::store::{apply_op, apply_ops, lemma_apply_ops_concat, CandidacyStore, StoreOp};

/// Whether an initializing expression is a statically-known source.
pub open spec fn source_kind_of(e: Expr) -> SourceKind {
    if e is Lit {
        SourceKind::Static
    } else {
        SourceKind::Dynamic
    }
}

/// The operations one expression's walk applies, in document order.
pub open spec fn ops_of_expr(e: Expr) -> Seq<StoreOp>
    decreases e,
{
    match e {
        Expr::Lit => Seq::<StoreOp>::empty(),
        Expr::Use(b) => seq![StoreOp::Record { id: b, event: UsageEvent::Consume }],
        Expr::AddrOf(k, inner) => match *inner {
            Expr::Use(b) => seq![StoreOp::Record { id: b, event: UsageEvent::Borrow(k) }],
            _ => ops_of_expr(*inner),
        },
        Expr::Assign(b, rhs) => seq![StoreOp::Record { id: b, event: UsageEvent::Mutate }]
            + ops_of_expr(*rhs),
        Expr::StructLit(inits) => ops_of_field_inits(inits@),
        Expr::Call(args) => ops_of_exprs(args@),
        Expr::MatchBinding(b, mode, arms) => seq![
            StoreOp::Record { id: b, event: UsageEvent::PatternDestructure(mode) },
        ] + ops_of_exprs(arms@),
    }
}

/// The operations of a sibling list, concatenated in order.
pub open spec fn ops_of_exprs(s: Seq<Expr>) -> Seq<StoreOp>
    decreases s,
{
    if s.len() == 0 {
        Seq::<StoreOp>::empty()
    } else {
        ops_of_exprs(s.drop_last()) + ops_of_expr(s.last())
    }
}

/// The operations of one field initialization: the field receives its
/// value, then the value expression's own sites are walked.
pub open spec fn ops_of_field_init(fi: FieldInit) -> Seq<StoreOp>
    decreases fi,
{
    seq![
        StoreOp::Record {
            id: fi.field,
            event: UsageEvent::Initialize(source_kind_of(fi.arg)),
        },
    ] + ops_of_expr(fi.arg)
}

/// The operations of a record-construction's field list, in order.
pub open spec fn ops_of_field_inits(s: Seq<FieldInit>) -> Seq<StoreOp>
    decreases s,
{
    if s.len() == 0 {
        Seq::<StoreOp>::empty()
    } else {
        ops_of_field_inits(s.drop_last()) + ops_of_field_init(s.last())
    }
}

/// The operations one statement's walk applies.
pub open spec fn ops_of_stmt(s: Stmt) -> Seq<StoreOp>
    decreases s,
{
    match s {
        Stmt::Local { binding, span, ty, init } => {
            if ty is OwnedString {
                match init {
                    Some(e) => seq![
                        StoreOp::Seed { id: binding, span },
                        StoreOp::Record {
                            id: binding,
                            event: UsageEvent::Initialize(source_kind_of(*e)),
                        },
                    ] + ops_of_expr(*e),
                    None => seq![
                        StoreOp::Seed { id: binding, span },
                        StoreOp::Record {
                            id: binding,
                            event: UsageEvent::DeclaredWithoutInitializer,
                        },
                    ],
                }
            } else {
                match init {
                    Some(e) => ops_of_expr(*e),
                    None => Seq::<StoreOp>::empty(),
                }
            }
        },
        Stmt::Expr(e) => ops_of_expr(e),
    }
}

/// The operations of a statement list, in order.
pub open spec fn ops_of_stmts(s: Seq<Stmt>) -> Seq<StoreOp>
    decreases s,
{
    if s.len() == 0 {
        Seq::<StoreOp>::empty()
    } else {
        ops_of_stmts(s.drop_last()) + ops_of_stmt(s.last())
    }
}

/// The operations one function body's walk applies.
pub open spec fn ops_of_body(b: FnBody) -> Seq<StoreOp> {
    ops_of_stmts(b.stmts@)
}

/// Applying a single operation is folding its one-element sequence.
pub proof fn lemma_apply_ops_one(m: Seq<crate::store::RowModel>, op: StoreOp)
    ensures
        apply_ops(m, seq![op]) == apply_op(m, op),
{
    let s = seq![op];
    assert(s.len() == 1);
    assert(s.last() == op);
    assert(s.drop_last() =~= Seq::<StoreOp>::empty());
    assert(apply_ops(m, s.drop_last()) == m);
    assert(apply_ops(m, s) == apply_op(apply_ops(m, s.drop_last()), op));
}

/// The source kind of an initializing expression.
pub fn source_kind(e: &Expr) -> (k: SourceKind)
    ensures
        k == source_kind_of(*e),
{
    match e {
        Expr::Lit => SourceKind::Static,
        _ => SourceKind::Dynamic,
    }
}

/// Walk one expression, recording one event per site it classifies.
#[verifier::loop_isolation(false)]
#[verifier::rlimit(80)]
pub fn classify_expr(store: &mut CandidacyStore, e: &Expr)
    requires
        old(store).wf(),
    ensures
        final(store).wf(),
        final(store)@ == apply_ops(old(store)@, ops_of_expr(*e)),
    decreases *e,
{
    match e {
        Expr::Lit => {},
        Expr::Use(b) => {
            store.record(*b, UsageEvent::Consume);
            proof {
                lemma_apply_ops_one(
                    old(store)@,
                    StoreOp::Record { id: *b, event: UsageEvent::Consume },
                );
            }
        },
        Expr::AddrOf(k, inner) => {
            match &**inner {
                Expr::Use(b) => {
                    store.record(*b, UsageEvent::Borrow(*k));
                    proof {
                        lemma_apply_ops_one(
                            old(store)@,
                            StoreOp::Record { id: *b, event: UsageEvent::Borrow(*k) },
                        );
                    }
                },
                _ => {
                    classify_expr(store, inner);
                },
            }
        },
        Expr::Assign(b, rhs) => {
            store.record(*b, UsageEvent::Mutate);
            classify_expr(store, rhs);
            proof {
                lemma_apply_ops_one(
                    old(store)@,
                    StoreOp::Record { id: *b, event: UsageEvent::Mutate },
                );
                lemma_apply_ops_concat(
                    old(store)@,
                    seq![StoreOp::Record { id: *b, event: UsageEvent::Mutate }],
                    ops_of_expr(**rhs),
                );
            }
        },
        Expr::StructLit(inits) => {
            let n = inits.len();
            for j in 0..n
                invariant
                    n == inits.len(),
                    store.wf(),
                    store@ == apply_ops(old(store)@, ops_of_field_inits(inits@.take(j as int))),
            {
                let k = source_kind(&inits[j].arg);
                store.record(inits[j].field, UsageEvent::Initialize(k));
                classify_expr(store, &inits[j].arg);
                proof {
                    let t = inits@.take(j as int + 1);
                    assert(t.drop_last() =~= inits@.take(j as int));
                    assert(t.last() == inits@[j as int]);
                    lemma_apply_ops_one(
                        apply_ops(old(store)@, ops_of_field_inits(inits@.take(j as int))),
                        StoreOp::Record {
                            id: inits@[j as int].field,
                            event: UsageEvent::Initialize(source_kind_of(inits@[j as int].arg)),
                        },
                    );
                    lemma_apply_ops_concat(
                        old(store)@,
                        ops_of_field_inits(inits@.take(j as int)),
                        ops_of_field_init(inits@[j as int]),
                    );
                    lemma_apply_ops_concat(
                        apply_ops(old(store)@, ops_of_field_inits(inits@.take(j as int))),
                        seq![
                            StoreOp::Record {
                                id: inits@[j as int].field,
                                event: UsageEvent::Initialize(
                                    source_kind_of(inits@[j as int].arg),
                                ),
                            },
                        ],
                        ops_of_expr(inits@[j as int].arg),
                    );
                }
            }
            proof {
                assert(inits@.take(n as int) =~= inits@);
            }
        },
        Expr::Call(args) => {
            let n = args.len();
            for j in 0..n
                invariant
                    n == args.len(),
                    store.wf(),
                    store@ == apply_ops(old(store)@, ops_of_exprs(args@.take(j as int))),
            {
                classify_expr(store, &args[j]);
                proof {
                    let t = args@.take(j as int + 1);
                    assert(t.drop_last() =~= args@.take(j as int));
                    assert(t.last() == args@[j as int]);
                    lemma_apply_ops_concat(
                        old(store)@,
                        ops_of_exprs(args@.take(j as int)),
                        ops_of_expr(args@[j as int]),
                    );
                }
            }
            proof {
                assert(args@.take(n as int) =~= args@);
            }
        },
        Expr::MatchBinding(b, mode, arms) => {
            store.record(*b, UsageEvent::PatternDestructure(*mode));
            proof {
                lemma_apply_ops_one(
                    old(store)@,
                    StoreOp::Record { id: *b, event: UsageEvent::PatternDestructure(*mode) },
                );
            }
            let n = arms.len();
            for j in 0..n
                invariant
                    n == arms.len(),
                    store.wf(),
                    store@ == apply_ops(
                        apply_op(
                            old(store)@,
                            StoreOp::Record {
                                id: *b,
                                event: UsageEvent::PatternDestructure(*mode),
                            },
                        ),
                        ops_of_exprs(arms@.take(j as int)),
                    ),
            {
                classify_expr(store, &arms[j]);
                proof {
                    let m1 = apply_op(
                        old(store)@,
                        StoreOp::Record { id: *b, event: UsageEvent::PatternDestructure(*mode) },
                    );
                    let t = arms@.take(j as int + 1);
                    assert(t.drop_last() =~= arms@.take(j as int));
                    assert(t.last() == arms@[j as int]);
                    lemma_apply_ops_concat(
                        m1,
                        ops_of_exprs(arms@.take(j as int)),
                        ops_of_expr(arms@[j as int]),
                    );
                }
            }
            proof {
                let m1 = apply_op(
                    old(store)@,
                    StoreOp::Record { id: *b, event: UsageEvent::PatternDestructure(*mode) },
                );
                assert(arms@.take(n as int) =~= arms@);
                lemma_apply_ops_one(
                    old(store)@,
                    StoreOp::Record { id: *b, event: UsageEvent::PatternDestructure(*mode) },
                );
                lemma_apply_ops_concat(
                    old(store)@,
                    seq![
                        StoreOp::Record { id: *b, event: UsageEvent::PatternDestructure(*mode) },
                    ],
                    ops_of_exprs(arms@),
                );
            }
        },
    }
}

/// Walk one statement.
pub fn classify_stmt(store: &mut CandidacyStore, s: &Stmt)
    requires
        old(store).wf(),
    ensures
        final(store).wf(),
        final(store)@ == apply_ops(old(store)@, ops_of_stmt(*s)),
    decreases *s,
{
    match s {
        Stmt::Local { binding, span, ty, init } => {
            if crate::model::is_string_type(ty) {
                store.seed(*binding, *span);
                match init {
                    Some(e) => {
                        let k = source_kind(&**e);
                        store.record(*binding, UsageEvent::Initialize(k));
                        classify_expr(store, &**e);
                        proof {
                            let o1 = StoreOp::Seed { id: *binding, span: *span };
                            let o2 = StoreOp::Record {
                                id: *binding,
                                event: UsageEvent::Initialize(source_kind_of(**e)),
                            };
                            assert(seq![o1, o2].drop_last() =~= seq![o1]);
                            lemma_apply_ops_one(old(store)@, o1);
                            lemma_apply_ops_concat(old(store)@, seq![o1, o2], ops_of_expr(**e));
                        }
                    },
                    None => {
                        store.record(*binding, UsageEvent::DeclaredWithoutInitializer);
                        proof {
                            let o1 = StoreOp::Seed { id: *binding, span: *span };
                            let o2 = StoreOp::Record {
                                id: *binding,
                                event: UsageEvent::DeclaredWithoutInitializer,
                            };
                            assert(seq![o1, o2].drop_last() =~= seq![o1]);
                            lemma_apply_ops_one(old(store)@, o1);
                        }
                    },
                }
            } else {
                match init {
                    Some(e) => {
                        classify_expr(store, &**e);
                    },
                    None => {},
                }
            }
        },
        Stmt::Expr(e) => {
            classify_expr(store, e);
        },
    }
}

/// Walk one function body, statement by statement.
#[verifier::loop_isolation(false)]
pub fn classify_body(store: &mut CandidacyStore, b: &FnBody)
    requires
        old(store).wf(),
    ensures
        final(store).wf(),
        final(store)@ == apply_ops(old(store)@, ops_of_body(*b)),
{
    let n = b.stmts.len();
    for j in 0..n
        invariant
            n == b.stmts.len(),
            store.wf(),
            store@ == apply_ops(old(store)@, ops_of_stmts(b.stmts@.take(j as int))),
    {
        classify_stmt(store, &b.stmts[j]);
        proof {
            let t = b.stmts@.take(j as int + 1);
            assert(t.drop_last() =~= b.stmts@.take(j as int));
            assert(t.last() == b.stmts@[j as int]);
            lemma_apply_ops_concat(
                old(store)@,
                ops_of_stmts(b.stmts@.take(j as int)),
                ops_of_stmt(b.stmts@[j as int]),
            );
        }
    }
    proof {
        assert(b.stmts@.take(n as int) =~= b.stmts@);
    }
}

} // verus!
