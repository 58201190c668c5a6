//! A two-phase capability-composition code generator.
//!
//! A *capability set* is a named bundle of generic algorithms operating over
//! an abstract self value.  The extractor turns marked declaration blocks
//! into immutable registry records; the delegation synthesizer reads those
//! records back and emits forwarding method definitions for a target type,
//! resolving exclusions, name collisions and return-type narrowing through a
//! static capability lattice.

pub mod attr_list;
pub mod impl_block;
pub mod lattice;
pub mod method;
pub mod registry;
pub mod reparse;
pub mod selection;
pub mod synth;
pub mod text;

use vstd::prelude::*;

verus! {

/// Capability-set marker attribute on a declaration block.
pub const REGISTER_METHODS_ATTRIBUTE: &'static str = "register_methods";

/// Key of the self-generic binding inside the marker attribute.
pub const SELF_GENERIC_ATTRIBUTE: &'static str = "self_generic";

/// Marker on the one self-accessor method of a capability set.
pub const SELF_FUNC_ATTRIBUTE: &'static str = "method_self_arg";

/// Marker on a method whose result is forwarded verbatim.
pub const RETURN_LITERAL_ATTRIBUTE: &'static str = "return_literal";

/// Marker carrying the capabilities a method's result strips.
pub const STRIPS_TRAITS_ATTRIBUTE: &'static str = "strips_traits";

/// Key of the exclusion binding inside a selection group.
pub const EXCLUDE_ATTRIBUTE: &'static str = "exclude";

/// The base capability.
pub const PY_BASE_ITERATOR: &'static str = "PyBaseIterator";

/// The double-ended capability.
pub const PY_DOUBLE_ENDED_ITERATOR: &'static str = "PyDoubleEndedIterator";

/// The exact-size capability.
pub const PY_EXACT_SIZE_ITERATOR: &'static str = "PyExactSizeIterator";

/// The sized double-ended composite capability.
pub const PY_SIZED_DOUBLE_ENDED_ITERATOR: &'static str = "PySizedDoubleEndedIterator";

} // verus!
