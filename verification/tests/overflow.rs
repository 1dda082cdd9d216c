use cowlint::overflow::{BinOp, CondExpr, CondKind, OverflowCheckConditional, OverflowWarning};

fn leaf(id: u64, integral: bool) -> CondExpr {
    CondExpr { integral, kind: CondKind::Opaque(id) }
}

fn binary(op: BinOp, l: CondExpr, r: CondExpr, integral: bool) -> CondExpr {
    CondExpr { integral, kind: CondKind::Binary(op, Box::new(l), Box::new(r)) }
}

#[test]
fn classic_overflow_left_shape_is_flagged() {
    // a + b < a
    let a = || leaf(1, true);
    let b = || leaf(2, true);
    let e = binary(BinOp::Lt, binary(BinOp::Add, a(), b(), true), a(), false);
    assert_eq!(OverflowCheckConditional.check_expr(&e), Some(OverflowWarning::Overflow));
}

#[test]
fn classic_overflow_right_shape_is_flagged() {
    // a > a + b
    let a = || leaf(1, true);
    let b = || leaf(2, true);
    let e = binary(BinOp::Gt, a(), binary(BinOp::Add, a(), b(), true), false);
    assert_eq!(OverflowCheckConditional.check_expr(&e), Some(OverflowWarning::Overflow));
}

#[test]
fn classic_underflow_left_shape_is_flagged() {
    // a - b > a
    let a = || leaf(1, true);
    let b = || leaf(2, true);
    let e = binary(BinOp::Gt, binary(BinOp::Sub, a(), b(), true), a(), false);
    assert_eq!(OverflowCheckConditional.check_expr(&e), Some(OverflowWarning::Underflow));
}

#[test]
fn classic_underflow_right_shape_is_flagged() {
    // a < a - b
    let a = || leaf(1, true);
    let b = || leaf(2, true);
    let e = binary(BinOp::Lt, a(), binary(BinOp::Sub, a(), b(), true), false);
    assert_eq!(OverflowCheckConditional.check_expr(&e), Some(OverflowWarning::Underflow));
}

#[test]
fn second_operand_may_match_instead_of_the_first() {
    // b + a < a
    let a = || leaf(1, true);
    let b = || leaf(2, true);
    let e = binary(BinOp::Lt, binary(BinOp::Add, b(), a(), true), a(), false);
    assert_eq!(OverflowCheckConditional.check_expr(&e), Some(OverflowWarning::Overflow));
}

#[test]
fn non_integral_operands_are_not_flagged() {
    let a = || leaf(1, false);
    let b = || leaf(2, false);
    let e = binary(BinOp::Lt, binary(BinOp::Add, a(), b(), false), a(), false);
    assert_eq!(OverflowCheckConditional.check_expr(&e), None);
}

#[test]
fn unrelated_comparand_is_not_flagged() {
    // a + b < c
    let a = leaf(1, true);
    let b = leaf(2, true);
    let c = leaf(3, true);
    let e = binary(BinOp::Lt, binary(BinOp::Add, a, b, true), c, false);
    assert_eq!(OverflowCheckConditional.check_expr(&e), None);
}

#[test]
fn wrong_operator_pair_is_not_flagged() {
    // a - b < a is not the overflow idiom, and a + b > a is fine.
    let a = || leaf(1, true);
    let b = || leaf(2, true);
    let sub = binary(BinOp::Lt, binary(BinOp::Sub, a(), b(), true), a(), false);
    assert_eq!(OverflowCheckConditional.check_expr(&sub), None);
    let add = binary(BinOp::Gt, binary(BinOp::Add, a(), b(), true), a(), false);
    assert_eq!(OverflowCheckConditional.check_expr(&add), None);
}

#[test]
fn non_binary_expressions_are_not_flagged() {
    assert_eq!(OverflowCheckConditional.check_expr(&leaf(1, true)), None);
}

#[test]
fn structural_equality_distinguishes_identities() {
    // a + b < b with distinct identities for a and b still matches via
    // the second operand; a + b < c with all distinct does not.
    let a = || leaf(1, true);
    let b = || leaf(2, true);
    let e = binary(BinOp::Lt, binary(BinOp::Add, a(), b(), true), b(), false);
    assert_eq!(OverflowCheckConditional.check_expr(&e), Some(OverflowWarning::Overflow));
}
