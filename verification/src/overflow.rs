//! A companion matcher for classic C-style overflow and underflow
//! checks: comparisons such as `a + b < a` or `a > a + b`, which cannot
//! detect wraparound in a language where the addition itself panics or
//! wraps first.  The match is a shallow fixed-shape test by structural
//! equality of two integer sub-expressions; it accumulates no state.

use vstd::prelude::*;

verus! {

/// Binary operators the matcher distinguishes; every other operator
/// behaves as `Other`.
#[derive(Clone, Copy, PartialEq, Eq, Structural, Debug)]
pub enum BinOp {
    Add,
    Sub,
    Lt,
    Gt,
    Other,
}

/// A condition expression: a binary node or an opaque leaf with a
/// stable identity.  `integral` is the resolved type's answer to "is
/// this expression's static type an integer".
pub struct CondExpr {
    pub integral: bool,
    pub kind: CondKind,
}

/// Shape of a condition expression.
pub enum CondKind {
    Binary(BinOp, Box<CondExpr>, Box<CondExpr>),
    /// Any non-binary expression; equal identities are structurally
    /// equal expressions.
    Opaque(u64),
}

/// The kind of failing check the matcher flags.
#[derive(Clone, Copy, PartialEq, Eq, Structural, Debug)]
pub enum OverflowWarning {
    /// A classic C overflow condition, such as `a + b < a`.
    Overflow,
    /// A classic C underflow condition, such as `a - b > a`.
    Underflow,
}

/// The comparison's left operand is the inner binary: `(x op2 y) op z`,
/// with `x` or `y` structurally equal to `z` and both integral.
pub open spec fn left_shape(e: CondExpr, op_req: BinOp, op2_req: BinOp) -> bool {
    match e.kind {
        CondKind::Binary(op, first, second) => op == op_req && (match (*first).kind {
            CondKind::Binary(op2, x, y) => op2 == op2_req && (*x == *second || *y == *second)
                && (*x).integral && (*y).integral,
            _ => false,
        }),
        _ => false,
    }
}

/// The comparison's right operand is the inner binary: `z op (x op2 y)`,
/// with `x` or `y` structurally equal to `z` and both integral.
pub open spec fn right_shape(e: CondExpr, op_req: BinOp, op2_req: BinOp) -> bool {
    match e.kind {
        CondKind::Binary(op, first, second) => op == op_req && (match (*second).kind {
            CondKind::Binary(op2, x, y) => op2 == op2_req && (*x == *first || *y == *first)
                && (*x).integral && (*y).integral,
            _ => false,
        }),
        _ => false,
    }
}

/// The expression is a classic C overflow condition:
/// `a + b < a` or `a > a + b`.
pub open spec fn is_overflow_check(e: CondExpr) -> bool {
    left_shape(e, BinOp::Lt, BinOp::Add) || right_shape(e, BinOp::Gt, BinOp::Add)
}

/// The expression is a classic C underflow condition:
/// `a - b > a` or `a < a - b`.
pub open spec fn is_underflow_check(e: CondExpr) -> bool {
    left_shape(e, BinOp::Gt, BinOp::Sub) || right_shape(e, BinOp::Lt, BinOp::Sub)
}

/// Node count of a condition expression.
pub open spec fn cond_size(e: CondExpr) -> nat
    decreases e,
{
    match e.kind {
        CondKind::Binary(_, l, r) => 1 + cond_size(*l) + cond_size(*r),
        CondKind::Opaque(_) => 1,
    }
}

/// Under a left shape, a strict sub-expression of the left operand
/// equals the whole right operand, so the right side has fewer nodes.
proof fn lemma_left_shape_size(e: CondExpr, a1: BinOp, a2: BinOp)
    requires
        left_shape(e, a1, a2),
    ensures
        (match e.kind {
            CondKind::Binary(_, first, second) => cond_size(*second) < cond_size(*first),
            _ => false,
        }),
{
    match e.kind {
        CondKind::Binary(op, first, second) => {
            match (*first).kind {
                CondKind::Binary(o2, x, y) => {
                    assert(cond_size(*first) == 1 + cond_size(*x) + cond_size(*y));
                },
                _ => {},
            }
        },
        _ => {},
    }
}

/// Under a right shape, the left side has fewer nodes.
proof fn lemma_right_shape_size(e: CondExpr, b1: BinOp, b2: BinOp)
    requires
        right_shape(e, b1, b2),
    ensures
        (match e.kind {
            CondKind::Binary(_, first, second) => cond_size(*first) < cond_size(*second),
            _ => false,
        }),
{
    match e.kind {
        CondKind::Binary(op, first, second) => {
            match (*second).kind {
                CondKind::Binary(o2, x, y) => {
                    assert(cond_size(*second) == 1 + cond_size(*x) + cond_size(*y));
                },
                _ => {},
            }
        },
        _ => {},
    }
}

/// At most one warning fits any one expression.
pub proof fn lemma_warning_exclusive(e: CondExpr)
    ensures
        !(is_overflow_check(e) && is_underflow_check(e)),
{
    if is_overflow_check(e) && is_underflow_check(e) {
        if left_shape(e, BinOp::Lt, BinOp::Add) && right_shape(e, BinOp::Lt, BinOp::Sub) {
            lemma_left_shape_size(e, BinOp::Lt, BinOp::Add);
            lemma_right_shape_size(e, BinOp::Lt, BinOp::Sub);
        }
        if left_shape(e, BinOp::Gt, BinOp::Sub) && right_shape(e, BinOp::Gt, BinOp::Add) {
            lemma_left_shape_size(e, BinOp::Gt, BinOp::Sub);
            lemma_right_shape_size(e, BinOp::Gt, BinOp::Add);
        }
    }
}

/// Structural equality of two condition expressions.
pub fn eq_expr(a: &CondExpr, b: &CondExpr) -> (r: bool)
    ensures
        r == (*a == *b),
    decreases *a,
{
    if a.integral != b.integral {
        return false;
    }
    match (&a.kind, &b.kind) {
        (CondKind::Opaque(i), CondKind::Opaque(j)) => i == j,
        (CondKind::Binary(o1, l1, r1), CondKind::Binary(o2, l2, r2)) => {
            *o1 == *o2 && eq_expr(l1, l2) && eq_expr(r1, r2)
        },
        _ => false,
    }
}

/// The matcher: stateless, one expression at a time.
#[derive(Clone, Copy)]
pub struct OverflowCheckConditional;

impl OverflowCheckConditional {
    /// Flag a classic C overflow or underflow condition, if the
    /// expression has one of the four shapes; at most one warning fits,
    /// so one option carries the whole answer.
    pub fn check_expr(&self, e: &CondExpr) -> (r: Option<OverflowWarning>)
        ensures
            r == (if is_overflow_check(*e) {
                Some(OverflowWarning::Overflow)
            } else if is_underflow_check(*e) {
                Some(OverflowWarning::Underflow)
            } else {
                None::<OverflowWarning>
            }),
    {
        proof {
            lemma_warning_exclusive(*e);
        }
        match &e.kind {
            CondKind::Binary(op, first, second) => {
                match &first.kind {
                    CondKind::Binary(op2, x, y) => {
                        if (eq_expr(x, second) || eq_expr(y, second)) && x.integral
                            && y.integral {
                            if *op == BinOp::Lt && *op2 == BinOp::Add {
                                return Some(OverflowWarning::Overflow);
                            }
                            if *op == BinOp::Gt && *op2 == BinOp::Sub {
                                return Some(OverflowWarning::Underflow);
                            }
                        }
                    },
                    _ => {},
                }
                match &second.kind {
                    CondKind::Binary(op2, x, y) => {
                        if (eq_expr(x, first) || eq_expr(y, first)) && x.integral
                            && y.integral {
                            if *op == BinOp::Gt && *op2 == BinOp::Add {
                                return Some(OverflowWarning::Overflow);
                            }
                            if *op == BinOp::Lt && *op2 == BinOp::Sub {
                                return Some(OverflowWarning::Underflow);
                            }
                        }
                    },
                    _ => {},
                }
                None
            },
            _ => None,
        }
    }
}

} // verus!
