//! The element decoding contract: every typed RFC 4918 element or
//! property declares its fixed qualified name and a fallible conversion
//! from a generic [`Value`].

use vstd::prelude::*;

use crate::error::DecodeError;
use crate::qname::{QName, QnModel};
use crate::value::{ValModel, Value};

verus! {

/// A decode result, mapped to its model.
pub open spec fn res_model<T: View>(r: Result<T, DecodeError>) -> Result<T::V, DecodeError> {
    match r {
        Ok(t) => Ok(t@),
        Err(e) => Err(e),
    }
}

/// The capability every typed element or property implements: a fixed
/// qualified name used to locate it inside a parent map, and a fallible
/// conversion from the generic value, pinned to a model-level decoding
/// function.
pub trait Element: View + Sized {
    /// Model of the fixed qualified name.
    spec fn qn() -> QnModel;

    /// What decoding yields for every generic value, at the model level.
    spec fn decode_model(v: ValModel) -> Result<Self::V, DecodeError>;

    /// The fixed qualified name identifying this element.
    fn qname() -> (q: QName)
        ensures
            q@ == Self::qn(),
    ;

    /// Fallible construction from a borrowed generic value.
    fn from_value(v: &Value) -> (r: Result<Self, DecodeError>)
        ensures
            res_model(r) == Self::decode_model(v@),
    ;
}

} // verus!
