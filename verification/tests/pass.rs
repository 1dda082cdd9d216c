use cowlint::classify::{classify_body, classify_expr};
use cowlint::events::UsageEvent;
use cowlint::model::{
    BindMode, BorrowKind, CrateModel, EnumDef, Expr, FieldInit, FnBody, Item, ItemKind, Slot,
    Stmt, StructDef, Ty, VariantDef, Visibility,
};
use cowlint::pass::{CowPass, CowVisitor};
use cowlint::store::CandidacyStore;
use cowlint::verdict::compute_verdicts;

fn string_slot(id: u64, span: u64, vis: Visibility) -> Slot {
    Slot { id, span, vis, ty: Ty::OwnedString }
}

fn struct_item(vis: Visibility, fields: Vec<Slot>) -> Item {
    Item { vis, kind: ItemKind::Struct(StructDef { fields }) }
}

fn fn_item(stmts: Vec<Stmt>) -> Item {
    Item { vis: Visibility::Private, kind: ItemKind::Fn(FnBody { stmts }) }
}

#[test]
fn public_string_field_is_never_reported() {
    // A string field that both its item and itself expose publicly can be
    // written by code the pass never sees: zero diagnostics.
    let krate = CrateModel {
        items: vec![struct_item(
            Visibility::Public,
            vec![string_slot(1, 10, Visibility::Public)],
        )],
    };
    let diags = CowPass.check_crate(&krate);
    assert!(diags.is_empty());
}

#[test]
fn public_field_stays_excluded_whatever_its_uses_are() {
    // Even a lifecycle that would qualify a private field changes nothing
    // once the slot is externally observable.
    let krate = CrateModel {
        items: vec![
            struct_item(Visibility::Public, vec![string_slot(1, 10, Visibility::Public)]),
            fn_item(vec![
                Stmt::Expr(Expr::StructLit(vec![FieldInit { field: 1, arg: Expr::Lit }])),
                Stmt::Expr(Expr::AddrOf(BorrowKind::Shared, Box::new(Expr::Use(1)))),
            ]),
        ],
    };
    let diags = CowPass.check_crate(&krate);
    assert!(diags.is_empty());
}

#[test]
fn private_field_set_once_from_literal_and_only_borrowed() {
    // One static initialization at construction, reads by reference only:
    // one recommendation, at the field's declaration.
    let krate = CrateModel {
        items: vec![
            struct_item(Visibility::Public, vec![string_slot(7, 42, Visibility::Private)]),
            fn_item(vec![
                Stmt::Expr(Expr::StructLit(vec![FieldInit { field: 7, arg: Expr::Lit }])),
                Stmt::Expr(Expr::AddrOf(BorrowKind::Shared, Box::new(Expr::Use(7)))),
            ]),
        ],
    };
    let diags = CowPass.check_crate(&krate);
    assert_eq!(diags.len(), 1);
    assert_eq!(diags[0].binding, 7);
    assert_eq!(diags[0].span, 42);
}

#[test]
fn reassigned_local_is_not_a_candidate() {
    // A local declared with an initializer and later reassigned records a
    // mutation: zero diagnostics.
    let krate = CrateModel {
        items: vec![fn_item(vec![
            Stmt::Local { binding: 3, span: 30, ty: Ty::OwnedString, init: Some(Box::new(Expr::Lit)) },
            Stmt::Expr(Expr::Assign(3, Box::new(Expr::Lit))),
        ])],
    };
    let diags = CowPass.check_crate(&krate);
    assert!(diags.is_empty());
}

#[test]
fn local_declared_without_initializer_is_not_a_candidate() {
    // No assertion about the initial value can be made, even though the
    // later assignment is from a literal.
    let krate = CrateModel {
        items: vec![fn_item(vec![
            Stmt::Local { binding: 4, span: 40, ty: Ty::OwnedString, init: None },
            Stmt::Expr(Expr::Assign(4, Box::new(Expr::Lit))),
        ])],
    };
    let diags = CowPass.check_crate(&krate);
    assert!(diags.is_empty());
}

#[test]
fn field_moved_into_another_structure_is_not_a_candidate() {
    // The move out of the field is a consume, which disqualifies it; the
    // receiving slot is not string-typed and is never tracked.
    let krate = CrateModel {
        items: vec![
            struct_item(Visibility::Public, vec![string_slot(5, 50, Visibility::Private)]),
            fn_item(vec![
                Stmt::Expr(Expr::StructLit(vec![FieldInit { field: 5, arg: Expr::Lit }])),
                Stmt::Expr(Expr::StructLit(vec![FieldInit { field: 99, arg: Expr::Use(5) }])),
            ]),
        ],
    };
    let diags = CowPass.check_crate(&krate);
    assert!(diags.is_empty());
}

#[test]
fn identical_spelling_distinct_identities_are_independent() {
    // Two locals that a source file would spell the same way arrive as
    // distinct identities; mutating one leaves the other's record clean.
    let krate = CrateModel {
        items: vec![
            fn_item(vec![
                Stmt::Local { binding: 11, span: 110, ty: Ty::OwnedString, init: Some(Box::new(Expr::Lit)) },
                Stmt::Expr(Expr::Assign(11, Box::new(Expr::Lit))),
            ]),
            fn_item(vec![
                Stmt::Local { binding: 12, span: 120, ty: Ty::OwnedString, init: Some(Box::new(Expr::Lit)) },
                Stmt::Expr(Expr::AddrOf(BorrowKind::Shared, Box::new(Expr::Use(12)))),
            ]),
        ],
    };
    let diags = CowPass.check_crate(&krate);
    assert_eq!(diags.len(), 1);
    assert_eq!(diags[0].binding, 12);
    assert_eq!(diags[0].span, 120);
}

#[test]
fn running_the_pass_twice_gives_identical_diagnostics() {
    let krate = CrateModel {
        items: vec![
            struct_item(Visibility::Public, vec![
                string_slot(7, 42, Visibility::Private),
                string_slot(8, 43, Visibility::Public),
            ]),
            fn_item(vec![
                Stmt::Expr(Expr::StructLit(vec![FieldInit { field: 7, arg: Expr::Lit }])),
                Stmt::Expr(Expr::AddrOf(BorrowKind::Shared, Box::new(Expr::Use(7)))),
            ]),
        ],
    };
    let first = CowPass.check_crate(&krate);
    let second = CowPass.check_crate(&krate);
    assert_eq!(first, second);
}

#[test]
fn permuting_sibling_expressions_changes_no_verdict() {
    let siblings = |first: Expr, second: Expr| CrateModel {
        items: vec![
            struct_item(Visibility::Public, vec![string_slot(7, 42, Visibility::Private)]),
            fn_item(vec![
                Stmt::Local { binding: 3, span: 30, ty: Ty::OwnedString, init: Some(Box::new(Expr::Lit)) },
                Stmt::Expr(Expr::StructLit(vec![FieldInit { field: 7, arg: Expr::Lit }])),
                Stmt::Expr(Expr::Call(vec![first, second])),
            ]),
        ],
    };
    let one = siblings(
        Expr::AddrOf(BorrowKind::Shared, Box::new(Expr::Use(7))),
        Expr::AddrOf(BorrowKind::Exclusive, Box::new(Expr::Use(3))),
    );
    let two = siblings(
        Expr::AddrOf(BorrowKind::Exclusive, Box::new(Expr::Use(3))),
        Expr::AddrOf(BorrowKind::Shared, Box::new(Expr::Use(7))),
    );
    let d1 = CowPass.check_crate(&one);
    let d2 = CowPass.check_crate(&two);
    assert_eq!(d1, d2);
}

#[test]
fn enum_variant_slots_follow_effective_visibility() {
    // A public enum's tuple payload slot is excluded; a private enum's is
    // watched and can qualify.
    let krate = CrateModel {
        items: vec![
            Item {
                vis: Visibility::Public,
                kind: ItemKind::Enum(EnumDef {
                    variants: vec![VariantDef::Tuple(vec![string_slot(21, 210, Visibility::Public)])],
                }),
            },
            Item {
                vis: Visibility::Private,
                kind: ItemKind::Enum(EnumDef {
                    variants: vec![VariantDef::Struct(StructDef {
                        fields: vec![string_slot(22, 220, Visibility::Public)],
                    })],
                }),
            },
            fn_item(vec![
                Stmt::Expr(Expr::StructLit(vec![
                    FieldInit { field: 21, arg: Expr::Lit },
                    FieldInit { field: 22, arg: Expr::Lit },
                ])),
            ]),
        ],
    };
    let diags = CowPass.check_crate(&krate);
    assert_eq!(diags.len(), 1);
    assert_eq!(diags[0].binding, 22);
}

#[test]
fn destructuring_by_reference_keeps_candidacy_by_value_loses_it() {
    let with_mode = |id: u64, span: u64, mode: BindMode| fn_item(vec![
        Stmt::Local { binding: id, span, ty: Ty::OwnedString, init: Some(Box::new(Expr::Lit)) },
        Stmt::Expr(Expr::MatchBinding(id, mode, vec![Expr::Lit])),
    ]);
    let krate = CrateModel {
        items: vec![with_mode(31, 310, BindMode::ByRef), with_mode(32, 320, BindMode::ByValue)],
    };
    let diags = CowPass.check_crate(&krate);
    assert_eq!(diags.len(), 1);
    assert_eq!(diags[0].binding, 31);
}

#[test]
fn address_of_a_binding_is_a_borrow_not_a_consume() {
    // The same mention without the surrounding address-of would consume.
    let body = |use_site: Expr| CrateModel {
        items: vec![fn_item(vec![
            Stmt::Local { binding: 6, span: 60, ty: Ty::OwnedString, init: Some(Box::new(Expr::Lit)) },
            Stmt::Expr(use_site),
        ])],
    };
    let borrowed = CowPass.check_crate(&body(Expr::AddrOf(
        BorrowKind::Shared,
        Box::new(Expr::Use(6)),
    )));
    assert_eq!(borrowed.len(), 1);
    let consumed = CowPass.check_crate(&body(Expr::Use(6)));
    assert!(consumed.is_empty());
}

#[test]
fn non_string_initializer_disqualifies() {
    // An initializer that is not a statically-known source records a
    // dynamic initialization.
    let krate = CrateModel {
        items: vec![fn_item(vec![Stmt::Local {
            binding: 9,
            span: 90,
            ty: Ty::OwnedString,
            init: Some(Box::new(Expr::Call(vec![]))),
        }])],
    };
    let diags = CowPass.check_crate(&krate);
    assert!(diags.is_empty());
}

#[test]
fn non_string_locals_are_never_tracked() {
    let krate = CrateModel {
        items: vec![fn_item(vec![Stmt::Local {
            binding: 13,
            span: 130,
            ty: Ty::Other,
            init: Some(Box::new(Expr::Lit)),
        }])],
    };
    let diags = CowPass.check_crate(&krate);
    assert!(diags.is_empty());
}

#[test]
fn store_exclusion_is_monotonic_at_the_interface() {
    // Seeding after exclusion and recording against an excluded row are
    // both no-ops; the row never becomes a candidate again.
    let mut store = CandidacyStore::new();
    store.seed(1, 10);
    store.record(1, UsageEvent::Initialize(cowlint::events::SourceKind::Static));
    store.exclude(1, 10);
    store.seed(1, 10);
    store.record(1, UsageEvent::Borrow(BorrowKind::Shared));
    let diags = compute_verdicts(&store);
    assert!(diags.is_empty());
}

#[test]
fn visitor_walks_bodies_like_the_pass() {
    let body = FnBody {
        stmts: vec![
            Stmt::Local { binding: 2, span: 20, ty: Ty::OwnedString, init: Some(Box::new(Expr::Lit)) },
            Stmt::Expr(Expr::AddrOf(BorrowKind::Shared, Box::new(Expr::Use(2)))),
        ],
    };
    let mut visitor = CowVisitor::new();
    visitor.visit_fn(&body);
    let diags = visitor.verdicts();
    assert_eq!(diags.len(), 1);
    assert_eq!(diags[0].binding, 2);
}

#[test]
fn classifier_skips_unrelated_nodes_silently() {
    let mut store = CandidacyStore::new();
    // No identity below is seeded: every record is a no-op, no fault.
    classify_expr(&mut store, &Expr::Call(vec![
        Expr::Use(100),
        Expr::Assign(101, Box::new(Expr::Lit)),
        Expr::AddrOf(BorrowKind::Shared, Box::new(Expr::Use(102))),
    ]));
    classify_body(&mut store, &FnBody { stmts: vec![Stmt::Expr(Expr::Lit)] });
    assert!(compute_verdicts(&store).is_empty());
}
