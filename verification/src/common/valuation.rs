//! Valuation functions: what the engine is asked to find a root of.
//!
//! The engine never looks at cash flows. It is handed a callable from a rate to
//! a value and probes it. Contracts speak of the callable through a
//! mathematical function that it computes.

use vstd::prelude::*;

verus! {

/// `f` may be called on every argument.
pub open spec fn callable<R, F: Fn(R) -> R>(f: F) -> bool {
    forall|x: R| #[trigger] f.requires((x,))
}

/// Whatever `f` returns for `x` is `v(x)`: `f` computes the function `v`.
pub open spec fn computes<R, F: Fn(R) -> R>(f: F, v: spec_fn(R) -> R) -> bool {
    forall|x: R, y: R| #[trigger] f.ensures((x,), y) ==> y == v(x)
}

} // verus!
