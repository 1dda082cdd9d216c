//! A static-analysis pass over an already-resolved program snapshot that
//! flags owned-string bindings (struct fields, enum-variant payload slots,
//! local variables) whose whole observed lifecycle is compatible with a
//! non-owning or copy-on-write representation.
//!
//! The tree model carries only the facts the analysis reads: stable binding
//! identities, visibility flags, and a binary "owned string" type tag.  A
//! declaration scanner seeds a candidacy store, a usage classifier turns
//! every expression and pattern site into one usage event, and a verdict
//! engine folds the accumulated evidence into one diagnostic per candidate.
//!
//! A companion matcher flags classic C-style overflow and underflow
//! comparisons such as `a + b < a` by structural equality of the two
//! integer sub-expressions.

pub mod model;
pub mod events;
pub mod store;
pub mod classify;
pub mod scan;
pub mod verdict;
pub mod pass;
pub mod overflow;
pub mod laws;
