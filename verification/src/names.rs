//! Names and references. A reference to a type or to a method travels
//! through a file as the string that spells it; what such a string has to
//! look like is for whoever takes the reference apart, and a string that
//! does not is theirs to report as [`crate::Error::MalformedReference`].

use vstd::prelude::*;

verus! {

/// The name of a module, a type, a method or a field.
pub type StringName = String;

/// A reference to a type, in its string form.
pub type StringTypeReference = String;

/// A reference to a method, in its string form.
pub type StringMethodReference = String;

} // verus!
