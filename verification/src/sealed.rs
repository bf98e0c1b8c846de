//! The seal of [`FieldName`](crate::field_name::FieldName): the trait cannot be implemented
//! outside this crate, because this module cannot be named there.
use vstd::prelude::*;

verus! {

/// Implemented by the four enums of the vocabulary and by nothing else.
pub trait Sealed {

}

} // verus!
