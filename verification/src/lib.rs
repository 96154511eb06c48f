//! Verified core of a streaming, sliding-window join: a pruning hash index,
//! sorted filter expressions with interval tracking, per-flavor index
//! adjustment, the join stream state machine, and a multi-pass tree-rewrite
//! driver.

use vstd::prelude::*;

pub mod batch;
pub mod bounds;
pub mod expr;
pub mod filter;
pub mod filter_order;
pub mod index_adjust;
pub mod interval;
pub mod pruning_index;
pub mod rewrite_cycle;
pub mod scalar;
pub mod sorted_expr;
pub mod stream_state;
pub mod types;
pub mod visited;

verus! {

/// Errors raised by the verified join utilities.
///
/// `Internal` flags a broken invariant (a null index where none may be,
/// an unsupported join flavor on a specialised path); `ColumnNotFound` and
/// `SchemaMismatch` are schema errors; `ArithmeticOverflow` is raised when
/// scalar arithmetic leaves the representable range.
#[derive(Clone, Copy, Debug, PartialEq, Eq, Structural)]
pub enum StreamJoinError {
    Internal,
    ColumnNotFound,
    SchemaMismatch,
    ArithmeticOverflow,
}

} // verus!
