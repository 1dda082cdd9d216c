//! The syntax model: an immutable snapshot of the analyzed program.
//!
//! The analysis never inspects source text and never resolves types or
//! names itself.  Each node carries exactly the facts the pass reads: a
//! stable binding identity (`BindingId`), a visibility flag, and a binary
//! type tag that answers "is this slot's static type the tracked
//! owned-string type".  Two bindings with the same source spelling but
//! different declaration sites arrive here as distinct identities;
//! spellings do not exist in this model at all.

use vstd::prelude::*;

verus! {

/// Stable, opaque identity of one declared storage location: a struct
/// field, an enum-variant payload slot, or a local variable.
pub type BindingId = u64;

/// Location of a declaration or expression, as an opaque source index.
pub type SpanId = u64;

/// Visibility of an item or of one of its slots.
#[derive(Clone, Copy, PartialEq, Eq, Structural, Debug)]
pub enum Visibility {
    Public,
    Private,
}

/// The one type distinction the pass needs: the tracked owned-string type
/// against everything else.  The type predicate itself is part of the
/// resolved snapshot, not computed here.
#[derive(Clone, Copy, PartialEq, Eq, Structural, Debug)]
pub enum Ty {
    OwnedString,
    Other,
}

/// One string-eligible storage slot of an item: a struct field or an
/// enum-variant payload position.
pub struct Slot {
    pub id: BindingId,
    pub span: SpanId,
    pub vis: Visibility,
    pub ty: Ty,
}

/// The fields of a struct item or of a struct-shaped enum variant.
pub struct StructDef {
    pub fields: Vec<Slot>,
}

/// One enum variant: tuple payload slots or struct-shaped fields.
pub enum VariantDef {
    Tuple(Vec<Slot>),
    Struct(StructDef),
}

/// The variants of an enum item.
pub struct EnumDef {
    pub variants: Vec<VariantDef>,
}

/// Kind of a borrow: shared (`&`) or exclusive (`&mut`).
#[derive(Clone, Copy, PartialEq, Eq, Structural, Debug)]
pub enum BorrowKind {
    Shared,
    Exclusive,
}

/// Binding mode of a destructuring pattern: by value (moves the matched
/// value) or by reference (borrows it).
#[derive(Clone, Copy, PartialEq, Eq, Structural, Debug)]
pub enum BindMode {
    ByValue,
    ByRef,
}

/// One field written by a record-construction expression.
pub struct FieldInit {
    /// Identity of the field slot being initialized.
    pub field: BindingId,
    /// The value expression the field receives.
    pub arg: Expr,
}

/// An expression node, reduced to the shapes the classifier reads.
///
/// `Use` is the resolved mention of a binding's place; whether it consumes
/// or borrows is decided by its syntactic parent, never by the node alone.
/// Every compound expression whose children are evaluated left to right
/// and that neither takes an address nor writes a place is `Call`.
pub enum Expr {
    /// A literal or otherwise statically-known, immutable source.
    Lit,
    /// A mention of a binding's place; the value leaves this location
    /// unless the immediate parent takes its address.
    Use(BindingId),
    /// An address-of expression around its operand.
    AddrOf(BorrowKind, Box<Expr>),
    /// An assignment writing a new value into an existing binding.
    Assign(BindingId, Box<Expr>),
    /// Record construction: each listed field receives its argument.
    StructLit(Vec<FieldInit>),
    /// Any other compound expression; children evaluated in order.
    Call(Vec<Expr>),
    /// A match or let-pattern that destructures the named binding with
    /// the pattern's own binding mode, then evaluates the arm bodies.
    MatchBinding(BindingId, BindMode, Vec<Expr>),
}

/// One statement of a function body.
pub enum Stmt {
    /// A local-variable declaration, with or without an initializer.
    Local { binding: BindingId, span: SpanId, ty: Ty, init: Option<Box<Expr>> },
    /// A bare expression statement.
    Expr(Expr),
}

/// A function body: its statements in document order.
pub struct FnBody {
    pub stmts: Vec<Stmt>,
}

/// Kind of a declared item.
pub enum ItemKind {
    Struct(StructDef),
    Enum(EnumDef),
    Fn(FnBody),
    /// An item the pass does not read (no string slots, no body).
    Other,
}

/// One declared item with its visibility.
pub struct Item {
    pub vis: Visibility,
    pub kind: ItemKind,
}

/// The whole analyzed unit: its items, already resolved and flattened.
pub struct CrateModel {
    pub items: Vec<Item>,
}

/// A slot is externally observable only if both the enclosing item and
/// the slot itself are public.
pub open spec fn effectively_public(item_vis: Visibility, slot_vis: Visibility) -> bool {
    item_vis is Public && slot_vis is Public
}

/// Whether a slot's static type is the tracked owned-string type.
pub fn is_string_type(ty: &Ty) -> (r: bool)
    ensures
        r == (*ty is OwnedString),
{
    match ty {
        Ty::OwnedString => true,
        Ty::Other => false,
    }
}

} // verus!
