//! Redacting-by-default diagnostic rendering.
//!
//! The library derives, from the structural shape of a type and per-field
//! visibility directives, a `FormatPlan`: the exact literal text and
//! per-field actions needed to render any value of that type. Rendering a
//! `Value` against its plan discloses structure (type name, shape, presence)
//! while redacting field contents unless a field was explicitly marked
//! visible when the plan was generated.

use vstd::prelude::*;

pub mod directive;
pub mod laws;
pub mod plan;
pub mod render;
pub mod shape;
pub mod text;
pub mod value;

verus! {

/// The redacting rendering capability: a type that can append its opaque
/// (redacting-by-default) text to a caller-supplied buffer.
pub trait OpaqueDebug {
    /// The exact text the opaque rendering emits.
    spec fn opaque_view(&self) -> Seq<char>;

    /// When the value can be rendered (it fits the plans it carries).
    spec fn opaque_ready(&self) -> bool;

    /// Append the opaque text to the buffer.
    fn fmt(&self, out: &mut String)
        requires
            self.opaque_ready(),
        ensures
            final(out)@ == old(out)@ + self.opaque_view(),
    ;
}

} // verus!
