//! How a signature returns its result and how each parameter is passed.

use vstd::prelude::*;

verus! {

/// Where a query-style method takes the interface id and returns the object.
#[derive(Copy, Clone, PartialEq, Eq, Debug, Structural)]
pub struct QueryPosition {
    pub object: usize,
    pub guid: usize,
}

/// The calling pattern of a method signature.
#[derive(Copy, Clone, PartialEq, Eq, Debug, Structural)]
pub enum SignatureKind {
    Query(QueryPosition),
    QueryOptional(QueryPosition),
    ResultValue,
    ResultVoid,
    ReturnStruct,
    ReturnValue,
    ReturnVoid,
    PreserveSig,
}

/// How a parameter is passed.
///
/// The positions in the array variants are parameter positions within the
/// signature: `ArrayRelativeLen(r)` and `ArrayRelativeByteLen(r)` are arrays
/// whose length (in elements or in bytes) is parameter `r`, and
/// `ArrayRelativePtr(p)` is the length of the array parameter `p`.
#[derive(Copy, Clone, PartialEq, Eq, Debug, Structural)]
pub enum SignatureParamKind {
    ArrayFixed(usize),
    ArrayRelativeLen(usize),
    ArrayRelativeByteLen(usize),
    ArrayRelativePtr(usize),
    TryInto,
    IntoParam,
    OptionalPointer,
    ValueType,
    Blittable,
    Other,
}

impl SignatureParamKind {
    /// The four array kinds.
    pub open spec fn spec_is_array(self) -> bool {
        ||| self is ArrayFixed
        ||| self is ArrayRelativeLen
        ||| self is ArrayRelativeByteLen
        ||| self is ArrayRelativePtr
    }

    /// The parameter that holds this array's length, for a relative-length array.
    pub open spec fn len_param(self) -> Option<usize> {
        match self {
            SignatureParamKind::ArrayRelativeLen(r) => Some(r),
            SignatureParamKind::ArrayRelativeByteLen(r) => Some(r),
            _ => None,
        }
    }

    pub fn is_array(&self) -> (r: bool)
        ensures
            r == self.spec_is_array(),
    {
        matches!(
            self,
            SignatureParamKind::ArrayFixed(_) | SignatureParamKind::ArrayRelativeLen(_)
                | SignatureParamKind::ArrayRelativeByteLen(_) | SignatureParamKind::ArrayRelativePtr(_)
        )
    }
}

} // verus!
