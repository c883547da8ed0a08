use vstd::prelude::*;

pub mod column;
pub mod expr;
pub mod strategy;
pub mod dispatch;
pub mod laws;

verus! {

/// The largest row index the group engine can address.
pub const IDX_MAX: u64 = 4294967295;

/// Errors raised while evaluating an expression over a list column.
#[derive(Debug, Clone, Copy, PartialEq, Eq, Structural)]
pub enum ListEvalError {
    /// The expression casts to a categorical or enum type.
    CategoricalCast,
    /// The expression reads a named column instead of the current element.
    NamedColumn,
    /// An arithmetic result does not fit in 64 bits.
    Overflow,
    /// Offsets, validity and values do not describe a list column.
    InvalidLayout,
}

} // verus!
