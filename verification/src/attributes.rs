//! Reading parameter conventions from custom attributes.

use vstd::prelude::*;
use crate::kinds::SignatureParamKind;
use crate::model::{ArgValue, AttributeInfo};

verus! {

/// Some attribute in the list has the given type name.
pub open spec fn spec_has_attribute(attrs: Seq<AttributeInfo>, name: Seq<char>) -> bool {
    exists|i: int| #![trigger attrs[i]] 0 <= i < attrs.len() && attrs[i].name@ == name
}

/// `s` holds the characters of `lit`.
pub fn name_is(s: &String, lit: &str) -> (r: bool)
    ensures
        r == (s@ == lit@),
{
    let t = String::from_str(lit);
    *s == t
}

/// Whether some attribute in the list has the given type name.
pub fn has_attribute(attrs: &Vec<AttributeInfo>, name: &str) -> (r: bool)
    ensures
        r == spec_has_attribute(attrs@, name@),
{
    let mut i: usize = 0;
    while i < attrs.len()
        invariant
            0 <= i <= attrs@.len(),
            forall|j: int| 0 <= j < i ==> attrs@[j].name@ != name@,
        decreases attrs@.len() - i,
    {
        if name_is(&attrs[i].name, name) {
            assert(attrs@[i as int].name@ == name@);
            return true;
        }
        i += 1;
    }
    false
}

/// The kind that the first integer argument of a `NativeArrayInfoAttribute`
/// gives: a 16-bit argument names the length parameter, a 32-bit one is a
/// fixed length.
pub open spec fn native_array_kind(args: Seq<ArgValue>) -> Option<SignatureParamKind>
    decreases args.len(),
{
    if args.len() == 0 {
        None
    } else {
        match args[0] {
            ArgValue::I16(v) => Some(SignatureParamKind::ArrayRelativeLen(v as usize)),
            ArgValue::I32(v) => Some(SignatureParamKind::ArrayFixed(v as usize)),
            _ => native_array_kind(args.drop_first()),
        }
    }
}

/// The kind that the first 16-bit argument of a `MemorySizeAttribute` gives:
/// the parameter that holds the array's length in bytes.
pub open spec fn memory_size_kind(args: Seq<ArgValue>) -> Option<SignatureParamKind>
    decreases args.len(),
{
    if args.len() == 0 {
        None
    } else {
        match args[0] {
            ArgValue::I16(v) => Some(SignatureParamKind::ArrayRelativeByteLen(v as usize)),
            _ => memory_size_kind(args.drop_first()),
        }
    }
}

/// The kind that a parameter's attributes give: the first attribute, in
/// order, that is a `NativeArrayInfoAttribute` or `MemorySizeAttribute` with
/// an argument of the right type decides; without one the kind is `Other`.
pub open spec fn spec_param_kind(attrs: Seq<AttributeInfo>) -> SignatureParamKind
    decreases attrs.len(),
{
    if attrs.len() == 0 {
        SignatureParamKind::Other
    } else {
        let a = attrs[0];
        let found = if a.name@ == "NativeArrayInfoAttribute"@ {
            native_array_kind(a.args@)
        } else if a.name@ == "MemorySizeAttribute"@ {
            memory_size_kind(a.args@)
        } else {
            None
        };
        match found {
            Some(k) => k,
            None => spec_param_kind(attrs.drop_first()),
        }
    }
}

fn native_array_kind_of(args: &Vec<ArgValue>) -> (r: Option<SignatureParamKind>)
    ensures
        r == native_array_kind(args@),
{
    let mut i: usize = 0;
    assert(args@.skip(0) =~= args@);
    while i < args.len()
        invariant
            0 <= i <= args@.len(),
            native_array_kind(args@) == native_array_kind(args@.skip(i as int)),
        decreases args@.len() - i,
    {
        assert(args@.skip(i as int).drop_first() =~= args@.skip(i + 1));
        match &args[i] {
            ArgValue::I16(v) => {
                return Some(SignatureParamKind::ArrayRelativeLen(#[verifier::truncate] (*v as usize)));
            },
            ArgValue::I32(v) => {
                return Some(SignatureParamKind::ArrayFixed(#[verifier::truncate] (*v as usize)));
            },
            _ => {},
        }
        i += 1;
    }
    None
}

fn memory_size_kind_of(args: &Vec<ArgValue>) -> (r: Option<SignatureParamKind>)
    ensures
        r == memory_size_kind(args@),
{
    let mut i: usize = 0;
    assert(args@.skip(0) =~= args@);
    while i < args.len()
        invariant
            0 <= i <= args@.len(),
            memory_size_kind(args@) == memory_size_kind(args@.skip(i as int)),
        decreases args@.len() - i,
    {
        assert(args@.skip(i as int).drop_first() =~= args@.skip(i + 1));
        match &args[i] {
            ArgValue::I16(v) => {
                return Some(SignatureParamKind::ArrayRelativeByteLen(#[verifier::truncate] (*v as usize)));
            },
            _ => {},
        }
        i += 1;
    }
    None
}

/// The kind that a parameter's attributes give (see `spec_param_kind`).
pub fn param_kind(attrs: &Vec<AttributeInfo>) -> (r: SignatureParamKind)
    ensures
        r == spec_param_kind(attrs@),
{
    let mut i: usize = 0;
    assert(attrs@.skip(0) =~= attrs@);
    while i < attrs.len()
        invariant
            0 <= i <= attrs@.len(),
            spec_param_kind(attrs@) == spec_param_kind(attrs@.skip(i as int)),
        decreases attrs@.len() - i,
    {
        assert(attrs@.skip(i as int).drop_first() =~= attrs@.skip(i + 1));
        let a = &attrs[i];
        let found = if name_is(&a.name, "NativeArrayInfoAttribute") {
            native_array_kind_of(&a.args)
        } else if name_is(&a.name, "MemorySizeAttribute") {
            memory_size_kind_of(&a.args)
        } else {
            None
        };
        if let Some(k) = found {
            return k;
        }
        i += 1;
    }
    SignatureParamKind::Other
}

/// The first string argument, if any.
pub open spec fn first_string_arg(args: Seq<ArgValue>) -> Option<Seq<char>>
    decreases args.len(),
{
    if args.len() == 0 {
        None
    } else {
        match args[0] {
            ArgValue::Str(s) => Some(s@),
            _ => first_string_arg(args.drop_first()),
        }
    }
}

/// The enumeration that a parameter's attributes associate with it: the first
/// string argument of its first `AssociatedEnumAttribute`, if that attribute
/// has one.
pub open spec fn spec_associated_enum(attrs: Seq<AttributeInfo>) -> Option<Seq<char>>
    decreases attrs.len(),
{
    if attrs.len() == 0 {
        None
    } else if attrs[0].name@ == "AssociatedEnumAttribute"@ {
        first_string_arg(attrs[0].args@)
    } else {
        spec_associated_enum(attrs.drop_first())
    }
}

/// The view of an optional string.
pub open spec fn opt_view(s: Option<String>) -> Option<Seq<char>> {
    match s {
        Some(t) => Some(t@),
        None => None,
    }
}

fn first_string_arg_of(args: &Vec<ArgValue>) -> (r: Option<String>)
    ensures
        opt_view(r) == first_string_arg(args@),
{
    let mut i: usize = 0;
    assert(args@.skip(0) =~= args@);
    while i < args.len()
        invariant
            0 <= i <= args@.len(),
            first_string_arg(args@) == first_string_arg(args@.skip(i as int)),
        decreases args@.len() - i,
    {
        assert(args@.skip(i as int).drop_first() =~= args@.skip(i + 1));
        match &args[i] {
            ArgValue::Str(s) => {
                return Some(s.clone());
            },
            _ => {},
        }
        i += 1;
    }
    None
}

/// The name of the enumeration associated with a parameter, if any (see
/// `spec_associated_enum`).
pub fn param_or_enum(attrs: &Vec<AttributeInfo>) -> (r: Option<String>)
    ensures
        opt_view(r) == spec_associated_enum(attrs@),
{
    let mut i: usize = 0;
    assert(attrs@.skip(0) =~= attrs@);
    while i < attrs.len()
        invariant
            0 <= i <= attrs@.len(),
            spec_associated_enum(attrs@) == spec_associated_enum(attrs@.skip(i as int)),
        decreases attrs@.len() - i,
    {
        assert(attrs@.skip(i as int).drop_first() =~= attrs@.skip(i + 1));
        if name_is(&attrs[i].name, "AssociatedEnumAttribute") {
            return first_string_arg_of(&attrs[i].args);
        }
        i += 1;
    }
    None
}

} // verus!
