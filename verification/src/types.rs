//! What a type or type definition is, for the purpose of passing it: blittable,
//! primitive, borrowed, convertible, a callback or containing one, its size.
//!
//! Two of these walk from a struct into the types of its fields: blittability
//! and containing a callback. A walk that comes back to a struct it is already
//! inside never ends, so the functions that make one require that it ends
//! (`blittable_walk_ends`, `callback_walk_ends`), and `blittable_walk_ends_from`
//! and `callback_walk_ends_from` decide that. Each walk is given a budget of
//! steps into type definitions, `type_fuel(md)`, the number of definitions: a
//! walk that ends answers the same with any larger budget
//! (`law_blittable_walk_settles`, `law_callback_walk_settles`), and on
//! metadata whose structs do not contain themselves no walk needs more
//! (`law_walk_budget_suffices`).

use vstd::prelude::*;
use crate::attributes::{has_attribute, name_is, spec_has_attribute};
use crate::model::{Metadata, TypeArgs, TypeDefInfo, TypeKind, TypeModel};

verus! {

/// The `WindowsRuntime` bit of `TypeAttributes`.
pub const WINDOWS_RUNTIME: u32 = 0x4000;

pub open spec fn is_windows_runtime(flags: u32) -> bool {
    flags & WINDOWS_RUNTIME == WINDOWS_RUNTIME
}

/// The budget of steps into type definitions that a walk is given.
pub open spec fn type_fuel(md: &Metadata) -> nat {
    md.type_defs@.len()
}

pub open spec fn def(md: &Metadata, i: int) -> TypeDefInfo {
    md.type_defs@[i]
}

/// A handle type: a struct marked `NativeTypedefAttribute`. This rule, like
/// the exclusive, primitive, struct and blittable rules below, is the
/// library's own: the metadata reader it works with offers none of them.
pub open spec fn def_is_handle(md: &Metadata, i: int) -> bool {
    spec_has_attribute(def(md, i).attributes@, "NativeTypedefAttribute"@)
}

/// An interface marked `ExclusiveToAttribute` (the library's own rule).
pub open spec fn def_is_exclusive(md: &Metadata, i: int) -> bool {
    spec_has_attribute(def(md, i).attributes@, "ExclusiveToAttribute"@)
}

/// A class marked `ComposableAttribute`.
pub open spec fn def_is_composable(md: &Metadata, i: int) -> bool {
    spec_has_attribute(def(md, i).attributes@, "ComposableAttribute"@)
}

/// A Win32 (not Windows Runtime) delegate.
pub open spec fn def_is_callback(md: &Metadata, i: int) -> bool {
    !is_windows_runtime(def(md, i).flags) && def(md, i).kind == TypeKind::Delegate
}

/// A definition passed as a primitive value: an enumeration, a handle or a
/// Win32 delegate (the library's own rule).
pub open spec fn def_is_primitive(md: &Metadata, i: int) -> bool {
    match def(md, i).kind {
        TypeKind::Enum => true,
        TypeKind::Struct => def_is_handle(md, i),
        TypeKind::Delegate => !is_windows_runtime(def(md, i).flags),
        _ => false,
    }
}

/// A struct passed by value that is not a handle (the library's own rule).
pub open spec fn def_is_struct(md: &Metadata, i: int) -> bool {
    def(md, i).kind == TypeKind::Struct && !def_is_handle(md, i)
}

/// A value of the type can be copied bit for bit: Windows Runtime structs
/// whose fields all can, Win32 structs, enumerations, Win32 delegates, and
/// every type that is not a definition, a string, an interface or a generic
/// parameter (arrays as their elements). The library's own rule; the fields
/// of a struct are tried in order and the first that is not blittable
/// decides.
pub open spec fn spec_type_is_blittable(md: &Metadata, t: TypeModel, fuel: nat) -> bool
    decreases fuel, t,
{
    match t {
        TypeModel::TypeDef(i, _) => {
            let d = def(md, i as int);
            match d.kind {
                TypeKind::Struct => if is_windows_runtime(d.flags) {
                    if fuel == 0 {
                        false
                    } else {
                        forall|j: int|
                            #![trigger d.fields@[j]]
                            0 <= j < d.fields@.len() ==> spec_type_is_blittable(
                                md,
                                d.fields@[j],
                                (fuel - 1) as nat,
                            )
                    }
                } else {
                    true
                },
                TypeKind::Enum => true,
                TypeKind::Delegate => !is_windows_runtime(d.flags),
                _ => false,
            }
        },
        TypeModel::HString | TypeModel::Bstr | TypeModel::IInspectable | TypeModel::IUnknown
        | TypeModel::GenericParam(_) => false,
        TypeModel::Win32Array(k, _) => spec_type_is_blittable(md, *k, fuel),
        TypeModel::WinrtArray(k) => spec_type_is_blittable(md, *k, fuel),
        _ => true,
    }
}

/// The type is, or is an array of, a definition that is a callback or a struct
/// one of whose fields has a callback. For a struct in a namespace, the
/// fields of every definition with its name count.
pub open spec fn spec_type_has_callback(md: &Metadata, t: TypeModel, fuel: nat) -> bool
    decreases fuel, t,
{
    match t {
        TypeModel::TypeDef(i, _) => {
            let d = def(md, i as int);
            if def_is_callback(md, i as int) {
                true
            } else if d.kind != TypeKind::Struct || fuel == 0 {
                false
            } else if d.namespace@.len() == 0 {
                exists|j: int|
                    #![trigger d.fields@[j]]
                    0 <= j < d.fields@.len() && spec_type_has_callback(
                        md,
                        d.fields@[j],
                        (fuel - 1) as nat,
                    )
            } else {
                exists|v: int, j: int|
                    #![trigger def(md, d.same_name@[v] as int).fields@[j]]
                    0 <= v < d.same_name@.len() && 0 <= j < def(
                        md,
                        d.same_name@[v] as int,
                    ).fields@.len() && spec_type_has_callback(
                        md,
                        def(md, d.same_name@[v] as int).fields@[j],
                        (fuel - 1) as nat,
                    )
            }
        },
        TypeModel::Win32Array(k, _) => spec_type_has_callback(md, *k, fuel),
        _ => false,
    }
}

/// Size in bytes of a value of the type; a definition has the size its record
/// gives, and an array's size wraps as `usize` arithmetic does.
pub open spec fn spec_type_size(md: &Metadata, t: TypeModel) -> usize
    decreases t,
{
    match t {
        TypeModel::I8 | TypeModel::U8 => 1,
        TypeModel::I16 | TypeModel::U16 => 2,
        TypeModel::I64 | TypeModel::U64 | TypeModel::Float64 => 8,
        TypeModel::Guid => 16,
        TypeModel::TypeDef(i, _) => def(md, i as int).size,
        TypeModel::Win32Array(k, n) => spec_type_size(md, *k).wrapping_mul(n),
        TypeModel::PrimitiveOrEnum(k, _) => spec_type_size(md, *k),
        _ => 4,
    }
}

/// Passed by reference: a non-blittable definition (an interface, a class, a
/// Windows Runtime struct holding a string or interface), a string or an
/// interface type, or a generic parameter.
pub open spec fn spec_type_is_borrowed(md: &Metadata, t: TypeModel) -> bool {
    match t {
        TypeModel::TypeDef(_, _) => !spec_type_is_blittable(md, t, type_fuel(md)),
        TypeModel::Bstr | TypeModel::Pcstr | TypeModel::Pcwstr | TypeModel::IInspectable
        | TypeModel::IUnknown | TypeModel::GenericParam(_) => true,
        _ => false,
    }
}

/// A Windows Runtime interface not exclusive to a class, or a composable
/// Windows Runtime class.
pub open spec fn spec_type_is_non_exclusive_winrt_interface(md: &Metadata, t: TypeModel) -> bool {
    match t {
        TypeModel::TypeDef(i, _) => {
            if !is_windows_runtime(def(md, i as int).flags) {
                false
            } else {
                match def(md, i as int).kind {
                    TypeKind::Interface => !def_is_exclusive(md, i as int),
                    TypeKind::Class => def_is_composable(md, i as int),
                    _ => false,
                }
            }
        },
        _ => false,
    }
}

pub open spec fn spec_type_is_trivially_convertible(md: &Metadata, t: TypeModel) -> bool {
    match t {
        TypeModel::TypeDef(i, _) => def(md, i as int).kind == TypeKind::Struct && def_is_handle(
            md,
            i as int,
        ),
        TypeModel::Pcstr | TypeModel::Pcwstr => true,
        _ => false,
    }
}

pub open spec fn spec_type_is_callback(md: &Metadata, t: TypeModel) -> bool {
    match t {
        TypeModel::TypeDef(i, _) => def_is_callback(md, i as int),
        _ => false,
    }
}

pub open spec fn spec_type_is_primitive(md: &Metadata, t: TypeModel) -> bool {
    match t {
        TypeModel::TypeDef(i, _) => def_is_primitive(md, i as int),
        TypeModel::Bool | TypeModel::Char | TypeModel::I8 | TypeModel::U8 | TypeModel::I16
        | TypeModel::U16 | TypeModel::I32 | TypeModel::U32 | TypeModel::I64 | TypeModel::U64
        | TypeModel::Float32 | TypeModel::Float64 | TypeModel::ISize | TypeModel::USize
        | TypeModel::HResult | TypeModel::ConstPtr(_, _) | TypeModel::MutPtr(_, _) => true,
        _ => false,
    }
}

pub open spec fn spec_type_is_struct(md: &Metadata, t: TypeModel) -> bool {
    match t {
        TypeModel::TypeDef(i, _) => def_is_struct(md, i as int),
        TypeModel::Guid => true,
        _ => false,
    }
}

/// The walk budget as a machine integer.
pub fn fuel_of(md: &Metadata) -> (r: usize)
    ensures
        r == type_fuel(md),
{
    md.type_defs.len()
}


proof fn lemma_field_refs(md: &Metadata, i: int, j: int)
    requires
        md.wf(),
        0 <= i < md.type_defs@.len(),
        0 <= j < md.type_defs@[i].fields@.len(),
    ensures
        md.type_defs@[i].fields@[j].refs_below(md.type_defs@.len()),
{
    assert(md.type_defs@[i].fields@[j].refs_below(md.type_defs@.len()));
}

/// Whether the definition at `row` carries `NativeTypedefAttribute`.
pub fn type_def_is_handle(md: &Metadata, row: usize) -> (r: bool)
    requires
        row < md.type_defs@.len(),
    ensures
        r == def_is_handle(md, row as int),
{
    has_attribute(&md.type_defs[row].attributes, "NativeTypedefAttribute")
}

/// Whether the definition at `row` is a Win32 delegate.
pub fn type_def_is_callback(md: &Metadata, row: usize) -> (r: bool)
    requires
        row < md.type_defs@.len(),
    ensures
        r == def_is_callback(md, row as int),
{
    let d = &md.type_defs[row];
    d.flags & WINDOWS_RUNTIME != WINDOWS_RUNTIME && d.kind == TypeKind::Delegate
}

fn blittable_walk(md: &Metadata, t: &TypeModel, fuel: usize) -> (r: bool)
    requires
        md.wf(),
        t.refs_below(md.type_defs@.len()),
    ensures
        r == spec_type_is_blittable(md, *t, fuel as nat),
    decreases fuel, t,
{
    match t {
        TypeModel::TypeDef(i, targs) => {
            let d = &md.type_defs[*i];
            match d.kind {
                TypeKind::Struct => {
                    if d.flags & WINDOWS_RUNTIME == WINDOWS_RUNTIME {
                        assert(is_windows_runtime(d.flags));
                        if fuel == 0 {
                            return false;
                        }
                        let mut j: usize = 0;
                        while j < d.fields.len()
                            invariant
                                md.wf(),
                                *i < md.type_defs@.len(),
                                *d == md.type_defs@[*i as int],
                                *t == TypeModel::TypeDef(*i, *targs),
                                is_windows_runtime(d.flags),
                                d.kind == TypeKind::Struct,
                                fuel > 0,
                                0 <= j <= d.fields@.len(),
                                forall|k: int|
                                    0 <= k < j ==> spec_type_is_blittable(
                                        md,
                                        d.fields@[k],
                                        (fuel - 1) as nat,
                                    ),
                            decreases d.fields@.len() - j,
                        {
                            proof {
                                lemma_field_refs(md, *i as int, j as int);
                            }
                            if !blittable_walk(md, &d.fields[j], fuel - 1) {
                                assert(!spec_type_is_blittable(
                                    md,
                                    d.fields@[j as int],
                                    (fuel - 1) as nat,
                                ));
                                return false;
                            }
                            j += 1;
                        }
                        true
                    } else {
                        true
                    }
                },
                TypeKind::Enum => true,
                TypeKind::Delegate => d.flags & WINDOWS_RUNTIME != WINDOWS_RUNTIME,
                _ => false,
            }
        },
        TypeModel::HString | TypeModel::Bstr | TypeModel::IInspectable | TypeModel::IUnknown
        | TypeModel::GenericParam(_) => false,
        TypeModel::Win32Array(k, _) => blittable_walk(md, k, fuel),
        TypeModel::WinrtArray(k) => blittable_walk(md, k, fuel),
        _ => true,
    }
}

/// The blittability walk from `t`, given `fuel` steps into struct
/// definitions, ends before its budget is spent: each Windows Runtime struct
/// it enters is entered with budget left, and within it each field is walked
/// up to the first that is not blittable. A walk from a type ends within the
/// budget `type_fuel(md)` exactly where it ends at all, since a walk that
/// enters one struct twice on a path enters it without end.
pub open spec fn blittable_walk_ends(md: &Metadata, t: TypeModel, fuel: nat) -> bool
    decreases fuel, t,
{
    match t {
        TypeModel::TypeDef(i, _) => {
            let d = def(md, i as int);
            if d.kind == TypeKind::Struct && is_windows_runtime(d.flags) {
                fuel > 0 && forall|j: int|
                    #![trigger d.fields@[j]]
                    0 <= j < d.fields@.len() && (forall|k: int|
                        0 <= k < j ==> spec_type_is_blittable(md, d.fields@[k], (fuel - 1) as nat))
                        ==> blittable_walk_ends(md, d.fields@[j], (fuel - 1) as nat)
            } else {
                true
            }
        },
        TypeModel::Win32Array(k, _) => blittable_walk_ends(md, *k, fuel),
        TypeModel::WinrtArray(k) => blittable_walk_ends(md, *k, fuel),
        _ => true,
    }
}

fn blittable_ends_walk(md: &Metadata, t: &TypeModel, fuel: usize) -> (r: bool)
    requires
        md.wf(),
        t.refs_below(md.type_defs@.len()),
    ensures
        r == blittable_walk_ends(md, *t, fuel as nat),
    decreases fuel, t,
{
    match t {
        TypeModel::TypeDef(i, targs) => {
            let d = &md.type_defs[*i];
            if d.kind == TypeKind::Struct && d.flags & WINDOWS_RUNTIME == WINDOWS_RUNTIME {
                assert(is_windows_runtime(d.flags));
                if fuel == 0 {
                    return false;
                }
                let mut j: usize = 0;
                while j < d.fields.len()
                    invariant
                        md.wf(),
                        *i < md.type_defs@.len(),
                        *d == md.type_defs@[*i as int],
                        *t == TypeModel::TypeDef(*i, *targs),
                        is_windows_runtime(d.flags),
                        d.kind == TypeKind::Struct,
                        fuel > 0,
                        0 <= j <= d.fields@.len(),
                        forall|k: int|
                            0 <= k < j ==> spec_type_is_blittable(md, d.fields@[k], (fuel - 1) as nat),
                        forall|k: int|
                            0 <= k < j ==> blittable_walk_ends(md, d.fields@[k], (fuel - 1) as nat),
                    decreases d.fields@.len() - j,
                {
                    proof {
                        lemma_field_refs(md, *i as int, j as int);
                    }
                    if !blittable_ends_walk(md, &d.fields[j], fuel - 1) {
                        return false;
                    }
                    if !blittable_walk(md, &d.fields[j], fuel - 1) {
                        assert forall|x: int|
                            0 <= x < d.fields@.len() && (forall|k: int|
                                0 <= k < x ==> spec_type_is_blittable(
                                    md,
                                    d.fields@[k],
                                    (fuel - 1) as nat,
                                )) implies blittable_walk_ends(
                            md,
                            #[trigger] d.fields@[x],
                            (fuel - 1) as nat,
                        ) by {
                            if x > j {
                                assert(!spec_type_is_blittable(md, d.fields@[j as int], (fuel - 1) as nat));
                            }
                        }
                        return true;
                    }
                    j += 1;
                }
                true
            } else {
                true
            }
        },
        TypeModel::Win32Array(k, _) => blittable_ends_walk(md, k, fuel),
        TypeModel::WinrtArray(k) => blittable_ends_walk(md, k, fuel),
        _ => true,
    }
}

/// Whether the blittability walk from the type ends (see
/// `blittable_walk_ends`).
pub fn blittable_walk_ends_from(md: &Metadata, ty: &TypeModel) -> (r: bool)
    requires
        md.wf(),
        ty.refs_below(md.type_defs@.len()),
    ensures
        r == blittable_walk_ends(md, *ty, type_fuel(md)),
{
    blittable_ends_walk(md, ty, fuel_of(md))
}

/// Whether a value of the type can be copied bit for bit (see
/// `spec_type_is_blittable`).
pub fn type_is_blittable(md: &Metadata, ty: &TypeModel) -> (r: bool)
    requires
        md.wf(),
        ty.refs_below(md.type_defs@.len()),
        blittable_walk_ends(md, *ty, type_fuel(md)),
    ensures
        r == spec_type_is_blittable(md, *ty, type_fuel(md)),
{
    blittable_walk(md, ty, fuel_of(md))
}

/// Whether a value of the type can be copied bit for bit, as far as the walk
/// goes within its budget (see `spec_type_is_blittable`).
pub(crate) fn blittable_within_budget(md: &Metadata, ty: &TypeModel) -> (r: bool)
    requires
        md.wf(),
        ty.refs_below(md.type_defs@.len()),
    ensures
        r == spec_type_is_blittable(md, *ty, type_fuel(md)),
{
    blittable_walk(md, ty, fuel_of(md))
}

fn callback_walk(md: &Metadata, t: &TypeModel, fuel: usize) -> (r: bool)
    requires
        md.wf(),
        t.refs_below(md.type_defs@.len()),
    ensures
        r == spec_type_has_callback(md, *t, fuel as nat),
    decreases fuel, t,
{
    match t {
        TypeModel::TypeDef(i, targs) => {
            let d = &md.type_defs[*i];
            if type_def_is_callback(md, *i) {
                return true;
            }
            if d.kind != TypeKind::Struct || fuel == 0 {
                return false;
            }
            if d.namespace.as_str().is_empty() {
                let mut j: usize = 0;
                while j < d.fields.len()
                    invariant
                        md.wf(),
                        *i < md.type_defs@.len(),
                        *d == md.type_defs@[*i as int],
                        *t == TypeModel::TypeDef(*i, *targs),
                        !def_is_callback(md, *i as int),
                        d.kind == TypeKind::Struct,
                        d.namespace@.len() == 0,
                        fuel > 0,
                        0 <= j <= d.fields@.len(),
                        forall|k: int|
                            0 <= k < j ==> !spec_type_has_callback(
                                md,
                                d.fields@[k],
                                (fuel - 1) as nat,
                            ),
                    decreases d.fields@.len() - j,
                {
                    proof {
                        lemma_field_refs(md, *i as int, j as int);
                    }
                    if callback_walk(md, &d.fields[j], fuel - 1) {
                        assert(spec_type_has_callback(md, d.fields@[j as int], (fuel - 1) as nat));
                        return true;
                    }
                    j += 1;
                }
                false
            } else {
                let mut v: usize = 0;
                while v < d.same_name.len()
                    invariant
                        md.wf(),
                        *i < md.type_defs@.len(),
                        *d == md.type_defs@[*i as int],
                        *t == TypeModel::TypeDef(*i, *targs),
                        !def_is_callback(md, *i as int),
                        d.kind == TypeKind::Struct,
                        d.namespace@.len() != 0,
                        fuel > 0,
                        0 <= v <= d.same_name@.len(),
                        forall|w: int, k: int|
                            #![trigger def(md, d.same_name@[w] as int).fields@[k]]
                            0 <= w < v && 0 <= k < def(md, d.same_name@[w] as int).fields@.len()
                                ==> !spec_type_has_callback(
                                md,
                                def(md, d.same_name@[w] as int).fields@[k],
                                (fuel - 1) as nat,
                            ),
                    decreases d.same_name@.len() - v,
                {
                    let e = d.same_name[v];
                    assert(e < md.type_defs@.len());
                    let f = &md.type_defs[e];
                    let mut j: usize = 0;
                    while j < f.fields.len()
                        invariant
                            md.wf(),
                            *i < md.type_defs@.len(),
                            *d == md.type_defs@[*i as int],
                            *t == TypeModel::TypeDef(*i, *targs),
                            !def_is_callback(md, *i as int),
                            d.kind == TypeKind::Struct,
                            d.namespace@.len() != 0,
                            e < md.type_defs@.len(),
                            e == d.same_name@[v as int],
                            0 <= v < d.same_name@.len(),
                            *f == md.type_defs@[e as int],
                            fuel > 0,
                            0 <= j <= f.fields@.len(),
                            forall|w: int, k: int|
                                #![trigger def(md, d.same_name@[w] as int).fields@[k]]
                                0 <= w < v && 0 <= k < def(md, d.same_name@[w] as int).fields@.len()
                                    ==> !spec_type_has_callback(
                                    md,
                                    def(md, d.same_name@[w] as int).fields@[k],
                                    (fuel - 1) as nat,
                                ),
                            forall|k: int|
                                0 <= k < j ==> !spec_type_has_callback(
                                    md,
                                    f.fields@[k],
                                    (fuel - 1) as nat,
                                ),
                        decreases f.fields@.len() - j,
                    {
                        proof {
                            lemma_field_refs(md, e as int, j as int);
                        }
                        if callback_walk(md, &f.fields[j], fuel - 1) {
                            assert(def(md, d.same_name@[v as int] as int).fields@[j as int]
                                == f.fields@[j as int]);
                            assert(spec_type_has_callback(
                                md,
                                def(md, d.same_name@[v as int] as int).fields@[j as int],
                                (fuel - 1) as nat,
                            ));
                            return true;
                        }
                        j += 1;
                    }
                    v += 1;
                }
                false
            }
        },
        TypeModel::Win32Array(k, _) => callback_walk(md, k, fuel),
        _ => false,
    }
}

/// No field that the callback walk tries before the `j`th field of the `v`th
/// definition of `d`'s name has a callback.
pub open spec fn fields_before_clear(md: &Metadata, d: TypeDefInfo, v: int, j: int, fuel: nat) -> bool {
    &&& forall|w: int, k: int|
        #![trigger def(md, d.same_name@[w] as int).fields@[k]]
        0 <= w < v && 0 <= k < def(md, d.same_name@[w] as int).fields@.len()
            ==> !spec_type_has_callback(md, def(md, d.same_name@[w] as int).fields@[k], fuel)
    &&& forall|k: int|
        #![trigger def(md, d.same_name@[v] as int).fields@[k]]
        0 <= k < j ==> !spec_type_has_callback(md, def(md, d.same_name@[v] as int).fields@[k], fuel)
}

/// The callback walk from `t`, given `fuel` steps into struct definitions,
/// ends before its budget is spent: each struct it enters is entered with
/// budget left, and within it fields are walked in order up to the first that
/// has a callback (for a struct in a namespace, the fields of each definition
/// of its name in turn). As for `blittable_walk_ends`, a walk ends within
/// `type_fuel(md)` exactly where it ends at all.
pub open spec fn callback_walk_ends(md: &Metadata, t: TypeModel, fuel: nat) -> bool
    decreases fuel, t,
{
    match t {
        TypeModel::TypeDef(i, _) => {
            let d = def(md, i as int);
            if def_is_callback(md, i as int) || d.kind != TypeKind::Struct {
                true
            } else if fuel == 0 {
                false
            } else if d.namespace@.len() == 0 {
                forall|j: int|
                    #![trigger d.fields@[j]]
                    0 <= j < d.fields@.len() && (forall|k: int|
                        0 <= k < j ==> !spec_type_has_callback(md, d.fields@[k], (fuel - 1) as nat))
                        ==> callback_walk_ends(md, d.fields@[j], (fuel - 1) as nat)
            } else {
                forall|v: int, j: int|
                    #![trigger def(md, d.same_name@[v] as int).fields@[j]]
                    0 <= v < d.same_name@.len() && 0 <= j < def(md, d.same_name@[v] as int).fields@.len()
                        && fields_before_clear(md, d, v, j, (fuel - 1) as nat) ==> callback_walk_ends(
                        md,
                        def(md, d.same_name@[v] as int).fields@[j],
                        (fuel - 1) as nat,
                    )
            }
        },
        TypeModel::Win32Array(k, _) => callback_walk_ends(md, *k, fuel),
        _ => true,
    }
}

fn callback_ends_walk(md: &Metadata, t: &TypeModel, fuel: usize) -> (r: bool)
    requires
        md.wf(),
        t.refs_below(md.type_defs@.len()),
    ensures
        r == callback_walk_ends(md, *t, fuel as nat),
    decreases fuel, t,
{
    match t {
        TypeModel::TypeDef(i, targs) => {
            let d = &md.type_defs[*i];
            if type_def_is_callback(md, *i) || d.kind != TypeKind::Struct {
                return true;
            }
            if fuel == 0 {
                return false;
            }
            let ghost f1 = (fuel - 1) as nat;
            if d.namespace.as_str().is_empty() {
                let mut j: usize = 0;
                while j < d.fields.len()
                    invariant
                        md.wf(),
                        *i < md.type_defs@.len(),
                        *d == md.type_defs@[*i as int],
                        *t == TypeModel::TypeDef(*i, *targs),
                        !def_is_callback(md, *i as int),
                        d.kind == TypeKind::Struct,
                        d.namespace@.len() == 0,
                        fuel > 0,
                        f1 == (fuel - 1) as nat,
                        0 <= j <= d.fields@.len(),
                        forall|k: int| 0 <= k < j ==> !spec_type_has_callback(md, d.fields@[k], f1),
                        forall|k: int| 0 <= k < j ==> callback_walk_ends(md, d.fields@[k], f1),
                    decreases d.fields@.len() - j,
                {
                    proof {
                        lemma_field_refs(md, *i as int, j as int);
                    }
                    if !callback_ends_walk(md, &d.fields[j], fuel - 1) {
                        return false;
                    }
                    if callback_walk(md, &d.fields[j], fuel - 1) {
                        assert forall|x: int|
                            0 <= x < d.fields@.len() && (forall|k: int|
                                0 <= k < x ==> !spec_type_has_callback(md, d.fields@[k], f1))
                                implies callback_walk_ends(md, #[trigger] d.fields@[x], f1) by {
                            if x > j {
                                assert(spec_type_has_callback(md, d.fields@[j as int], f1));
                            }
                        }
                        return true;
                    }
                    j += 1;
                }
                true
            } else {
                let mut v: usize = 0;
                while v < d.same_name.len()
                    invariant
                        md.wf(),
                        *i < md.type_defs@.len(),
                        *d == md.type_defs@[*i as int],
                        *t == TypeModel::TypeDef(*i, *targs),
                        !def_is_callback(md, *i as int),
                        d.kind == TypeKind::Struct,
                        d.namespace@.len() != 0,
                        fuel > 0,
                        f1 == (fuel - 1) as nat,
                        0 <= v <= d.same_name@.len(),
                        forall|w: int, k: int|
                            #![trigger def(md, d.same_name@[w] as int).fields@[k]]
                            0 <= w < v && 0 <= k < def(md, d.same_name@[w] as int).fields@.len()
                                ==> !spec_type_has_callback(md, def(md, d.same_name@[w] as int).fields@[k], f1)
                                && callback_walk_ends(md, def(md, d.same_name@[w] as int).fields@[k], f1),
                    decreases d.same_name@.len() - v,
                {
                    let e = d.same_name[v];
                    assert(e < md.type_defs@.len());
                    let f = &md.type_defs[e];
                    let mut j: usize = 0;
                    while j < f.fields.len()
                        invariant
                            md.wf(),
                            *i < md.type_defs@.len(),
                            *d == md.type_defs@[*i as int],
                            *t == TypeModel::TypeDef(*i, *targs),
                            !def_is_callback(md, *i as int),
                            d.kind == TypeKind::Struct,
                            d.namespace@.len() != 0,
                            e < md.type_defs@.len(),
                            e == d.same_name@[v as int],
                            0 <= v < d.same_name@.len(),
                            *f == md.type_defs@[e as int],
                            fuel > 0,
                            f1 == (fuel - 1) as nat,
                            0 <= j <= f.fields@.len(),
                            forall|w: int, k: int|
                                #![trigger def(md, d.same_name@[w] as int).fields@[k]]
                                0 <= w < v && 0 <= k < def(md, d.same_name@[w] as int).fields@.len()
                                    ==> !spec_type_has_callback(md, def(md, d.same_name@[w] as int).fields@[k], f1)
                                    && callback_walk_ends(md, def(md, d.same_name@[w] as int).fields@[k], f1),
                            forall|k: int|
                                0 <= k < j ==> !spec_type_has_callback(md, f.fields@[k], f1)
                                    && callback_walk_ends(md, f.fields@[k], f1),
                        decreases f.fields@.len() - j,
                    {
                        proof {
                            lemma_field_refs(md, e as int, j as int);
                        }
                        assert(def(md, d.same_name@[v as int] as int).fields@[j as int] == f.fields@[j as int]);
                        if !callback_ends_walk(md, &f.fields[j], fuel - 1) {
                            assert(fields_before_clear(md, *d, v as int, j as int, f1));
                            return false;
                        }
                        if callback_walk(md, &f.fields[j], fuel - 1) {
                            assert forall|x: int, y: int|
                                0 <= x < d.same_name@.len() && 0 <= y < def(
                                    md,
                                    d.same_name@[x] as int,
                                ).fields@.len() && fields_before_clear(md, *d, x, y, f1)
                                    implies callback_walk_ends(
                                    md,
                                    #[trigger] def(md, d.same_name@[x] as int).fields@[y],
                                    f1,
                                ) by {
                                if x > v {
                                    assert(spec_type_has_callback(
                                        md,
                                        def(md, d.same_name@[v as int] as int).fields@[j as int],
                                        f1,
                                    ));
                                } else if x == v && y > j {
                                    assert(spec_type_has_callback(
                                        md,
                                        def(md, d.same_name@[v as int] as int).fields@[j as int],
                                        f1,
                                    ));
                                } else if x == v {
                                    assert(def(md, d.same_name@[x] as int).fields@[y] == f.fields@[y]);
                                }
                            }
                            return true;
                        }
                        j += 1;
                    }
                    v += 1;
                }
                true
            }
        },
        TypeModel::Win32Array(k, _) => callback_ends_walk(md, k, fuel),
        _ => true,
    }
}

/// Whether the callback walk from the type ends (see `callback_walk_ends`).
pub fn callback_walk_ends_from(md: &Metadata, ty: &TypeModel) -> (r: bool)
    requires
        md.wf(),
        ty.refs_below(md.type_defs@.len()),
    ensures
        r == callback_walk_ends(md, *ty, type_fuel(md)),
{
    callback_ends_walk(md, ty, fuel_of(md))
}

/// Whether the type is, or is an array of, a callback or a struct containing
/// one (see `spec_type_has_callback`).
pub fn type_has_callback(md: &Metadata, ty: &TypeModel) -> (r: bool)
    requires
        md.wf(),
        ty.refs_below(md.type_defs@.len()),
        callback_walk_ends(md, *ty, type_fuel(md)),
    ensures
        r == spec_type_has_callback(md, *ty, type_fuel(md)),
{
    callback_walk(md, ty, fuel_of(md))
}

/// Whether the definition at `row` is a callback or a struct containing one.
pub fn type_def_has_callback(md: &Metadata, row: usize) -> (r: bool)
    requires
        md.wf(),
        row < md.type_defs@.len(),
        callback_walk_ends(md, TypeModel::TypeDef(row, TypeArgs::End), type_fuel(md)),
    ensures
        r == spec_type_has_callback(md, TypeModel::TypeDef(row, TypeArgs::End), type_fuel(md)),
{
    assert(TypeArgs::End.refs_below(md.type_defs@.len()));
    callback_walk(md, &TypeModel::TypeDef(row, TypeArgs::End), fuel_of(md))
}

/// The size in bytes of a value of the type (see `spec_type_size`).
pub fn type_size(md: &Metadata, ty: &TypeModel) -> (r: usize)
    requires
        ty.refs_below(md.type_defs@.len()),
    ensures
        r == spec_type_size(md, *ty),
    decreases ty,
{
    match ty {
        TypeModel::I8 | TypeModel::U8 => 1,
        TypeModel::I16 | TypeModel::U16 => 2,
        TypeModel::I64 | TypeModel::U64 | TypeModel::Float64 => 8,
        TypeModel::Guid => 16,
        TypeModel::TypeDef(i, _) => md.type_defs[*i].size,
        TypeModel::Win32Array(k, n) => type_size(md, k).wrapping_mul(*n),
        TypeModel::PrimitiveOrEnum(k, _) => type_size(md, k),
        _ => 4,
    }
}

/// Whether the type is passed by reference (see `spec_type_is_borrowed`).
pub fn type_is_borrowed(md: &Metadata, ty: &TypeModel) -> (r: bool)
    requires
        md.wf(),
        ty.refs_below(md.type_defs@.len()),
        borrowed_walk_ends(md, *ty),
    ensures
        r == spec_type_is_borrowed(md, *ty),
{
    borrowed_within_budget(md, ty)
}

/// Deciding whether a type is borrowed ends: for a definition, its
/// blittability walk ends.
pub open spec fn borrowed_walk_ends(md: &Metadata, t: TypeModel) -> bool {
    t is TypeDef ==> blittable_walk_ends(md, t, type_fuel(md))
}

/// Whether the type is passed by reference, as far as the blittability walk
/// goes within its budget (see `spec_type_is_borrowed`).
pub(crate) fn borrowed_within_budget(md: &Metadata, ty: &TypeModel) -> (r: bool)
    requires
        md.wf(),
        ty.refs_below(md.type_defs@.len()),
    ensures
        r == spec_type_is_borrowed(md, *ty),
{
    match ty {
        TypeModel::TypeDef(_, _) => !blittable_within_budget(md, ty),
        TypeModel::Bstr | TypeModel::Pcstr | TypeModel::Pcwstr | TypeModel::IInspectable
        | TypeModel::IUnknown | TypeModel::GenericParam(_) => true,
        _ => false,
    }
}

/// Whether the type is a Windows Runtime interface that is not exclusive to a
/// class, or a composable Windows Runtime class.
pub fn type_is_non_exclusive_winrt_interface(md: &Metadata, ty: &TypeModel) -> (r: bool)
    requires
        ty.refs_below(md.type_defs@.len()),
    ensures
        r == spec_type_is_non_exclusive_winrt_interface(md, *ty),
{
    match ty {
        TypeModel::TypeDef(i, _) => {
            let d = &md.type_defs[*i];
            if d.flags & WINDOWS_RUNTIME != WINDOWS_RUNTIME {
                false
            } else {
                match d.kind {
                    TypeKind::Interface => !has_attribute(&d.attributes, "ExclusiveToAttribute"),
                    TypeKind::Class => has_attribute(&d.attributes, "ComposableAttribute"),
                    _ => false,
                }
            }
        },
        _ => false,
    }
}

/// Whether the type converts trivially: a handle struct, `PCSTR` or `PCWSTR`.
pub fn type_is_trivially_convertible(md: &Metadata, ty: &TypeModel) -> (r: bool)
    requires
        ty.refs_below(md.type_defs@.len()),
    ensures
        r == spec_type_is_trivially_convertible(md, *ty),
{
    match ty {
        TypeModel::TypeDef(i, _) => md.type_defs[*i].kind == TypeKind::Struct && type_def_is_handle(
            md,
            *i,
        ),
        TypeModel::Pcstr | TypeModel::Pcwstr => true,
        _ => false,
    }
}

/// Whether the type is a Win32 delegate.
pub fn type_is_callback(md: &Metadata, ty: &TypeModel) -> (r: bool)
    requires
        ty.refs_below(md.type_defs@.len()),
    ensures
        r == spec_type_is_callback(md, *ty),
{
    match ty {
        TypeModel::TypeDef(i, _) => type_def_is_callback(md, *i),
        _ => false,
    }
}

/// Whether the type is passed as a plain value: numbers, booleans, characters,
/// `HRESULT`, pointers, enumerations, handle structs and Win32 delegates.
pub fn type_is_primitive(md: &Metadata, ty: &TypeModel) -> (r: bool)
    requires
        ty.refs_below(md.type_defs@.len()),
    ensures
        r == spec_type_is_primitive(md, *ty),
{
    match ty {
        TypeModel::TypeDef(i, _) => {
            let d = &md.type_defs[*i];
            match d.kind {
                TypeKind::Enum => true,
                TypeKind::Struct => type_def_is_handle(md, *i),
                TypeKind::Delegate => d.flags & WINDOWS_RUNTIME != WINDOWS_RUNTIME,
                _ => false,
            }
        },
        TypeModel::Bool | TypeModel::Char | TypeModel::I8 | TypeModel::U8 | TypeModel::I16
        | TypeModel::U16 | TypeModel::I32 | TypeModel::U32 | TypeModel::I64 | TypeModel::U64
        | TypeModel::Float32 | TypeModel::Float64 | TypeModel::ISize | TypeModel::USize
        | TypeModel::HResult | TypeModel::ConstPtr(_, _) | TypeModel::MutPtr(_, _) => true,
        _ => false,
    }
}

/// Whether the type is a struct passed by value: `GUID`, or a struct that is
/// not a handle.
pub fn type_is_struct(md: &Metadata, ty: &TypeModel) -> (r: bool)
    requires
        ty.refs_below(md.type_defs@.len()),
    ensures
        r == spec_type_is_struct(md, *ty),
{
    match ty {
        TypeModel::TypeDef(i, _) => md.type_defs[*i].kind == TypeKind::Struct && !type_def_is_handle(
            md,
            *i,
        ),
        TypeModel::Guid => true,
        _ => false,
    }
}

/// A callback definition counts as having a callback, whatever budget the walk
/// is given.
pub proof fn law_callbacks_have_callbacks(md: &Metadata, row: usize, fuel: nat)
    requires
        def_is_callback(md, row as int),
    ensures
        spec_type_has_callback(md, TypeModel::TypeDef(row, TypeArgs::End), fuel),
{
}


/// Every definition that a walk reaches from `t` before it enters a
/// definition (the type itself, or an array's element) ranks below `r`.
pub open spec fn reach_ranked_below(t: TypeModel, rank: Seq<nat>, r: nat) -> bool
    decreases t,
{
    match t {
        TypeModel::TypeDef(i, _) => i < rank.len() && rank[i as int] < r,
        TypeModel::Win32Array(k, _) => reach_ranked_below(*k, rank, r),
        TypeModel::WinrtArray(k) => reach_ranked_below(*k, rank, r),
        _ => true,
    }
}

/// A ranking of the definitions below their number under which struct fields
/// lead only downwards: what the type of a field of a struct reaches ranks
/// below the struct, and for a struct in a namespace so does what the fields
/// of every definition of its name reach. Such a ranking exists exactly where
/// no struct contains itself through the fields of structs.
pub open spec fn structs_ranked(md: &Metadata, rank: Seq<nat>) -> bool {
    let n = md.type_defs@.len();
    &&& rank.len() == n
    &&& forall|i: int| 0 <= i < n ==> #[trigger] rank[i] < n
    &&& forall|i: int, j: int|
        #![trigger def(md, i).fields@[j], rank[i]]
        0 <= i < n && def(md, i).kind == TypeKind::Struct && 0 <= j < def(md, i).fields@.len()
            ==> reach_ranked_below(def(md, i).fields@[j], rank, rank[i])
    &&& forall|i: int, v: int, j: int|
        #![trigger def(md, def(md, i).same_name@[v] as int).fields@[j], rank[i]]
        0 <= i < n && def(md, i).kind == TypeKind::Struct && 0 <= v < def(md, i).same_name@.len()
            && 0 <= j < def(md, def(md, i).same_name@[v] as int).fields@.len()
            ==> reach_ranked_below(def(md, def(md, i).same_name@[v] as int).fields@[j], rank, rank[i])
}

proof fn lemma_blittable_settled(md: &Metadata, rank: Seq<nat>, t: TypeModel, r: nat, f1: nat, f2: nat)
    requires
        structs_ranked(md, rank),
        reach_ranked_below(t, rank, r),
        r <= f1,
        r <= f2,
    ensures
        spec_type_is_blittable(md, t, f1) == spec_type_is_blittable(md, t, f2),
    decreases r, t,
{
    match t {
        TypeModel::TypeDef(i, _) => {
            let d = def(md, i as int);
            let ri = rank[i as int];
            if d.kind == TypeKind::Struct && is_windows_runtime(d.flags) {
                assert forall|j: int| 0 <= j < d.fields@.len() implies spec_type_is_blittable(
                    md,
                    #[trigger] d.fields@[j],
                    (f1 - 1) as nat,
                ) == spec_type_is_blittable(md, d.fields@[j], (f2 - 1) as nat) by {
                    assert(reach_ranked_below(def(md, i as int).fields@[j], rank, rank[i as int]));
                    lemma_blittable_settled(md, rank, d.fields@[j], ri, (f1 - 1) as nat, (f2 - 1) as nat);
                }
            }
        },
        TypeModel::Win32Array(k, _) => lemma_blittable_settled(md, rank, *k, r, f1, f2),
        TypeModel::WinrtArray(k) => lemma_blittable_settled(md, rank, *k, r, f1, f2),
        _ => {},
    }
}

proof fn lemma_callback_settled(md: &Metadata, rank: Seq<nat>, t: TypeModel, r: nat, f1: nat, f2: nat)
    requires
        structs_ranked(md, rank),
        reach_ranked_below(t, rank, r),
        r <= f1,
        r <= f2,
    ensures
        spec_type_has_callback(md, t, f1) == spec_type_has_callback(md, t, f2),
    decreases r, t,
{
    match t {
        TypeModel::TypeDef(i, _) => {
            let d = def(md, i as int);
            let ri = rank[i as int];
            if !def_is_callback(md, i as int) && d.kind == TypeKind::Struct {
                if d.namespace@.len() == 0 {
                    assert forall|j: int| 0 <= j < d.fields@.len() implies spec_type_has_callback(
                        md,
                        #[trigger] d.fields@[j],
                        (f1 - 1) as nat,
                    ) == spec_type_has_callback(md, d.fields@[j], (f2 - 1) as nat) by {
                        assert(reach_ranked_below(def(md, i as int).fields@[j], rank, rank[i as int]));
                        lemma_callback_settled(md, rank, d.fields@[j], ri, (f1 - 1) as nat, (f2 - 1) as nat);
                    }
                } else {
                    assert forall|v: int, j: int|
                        0 <= v < d.same_name@.len() && 0 <= j < def(
                            md,
                            d.same_name@[v] as int,
                        ).fields@.len() implies spec_type_has_callback(
                        md,
                        #[trigger] def(md, d.same_name@[v] as int).fields@[j],
                        (f1 - 1) as nat,
                    ) == spec_type_has_callback(
                        md,
                        def(md, d.same_name@[v] as int).fields@[j],
                        (f2 - 1) as nat,
                    ) by {
                        let u = def(md, d.same_name@[v] as int).fields@[j];
                        assert(reach_ranked_below(
                            def(md, def(md, i as int).same_name@[v] as int).fields@[j],
                            rank,
                            rank[i as int],
                        ));
                        lemma_callback_settled(md, rank, u, ri, (f1 - 1) as nat, (f2 - 1) as nat);
                    }
                }
            }
        },
        TypeModel::Win32Array(k, _) => lemma_callback_settled(md, rank, *k, r, f1, f2),
        TypeModel::WinrtArray(k) => lemma_callback_settled(md, rank, *k, r, f1, f2),
        _ => {},
    }
}

proof fn lemma_reach_ranked(md: &Metadata, rank: Seq<nat>, t: TypeModel)
    requires
        structs_ranked(md, rank),
        t.refs_below(md.type_defs@.len()),
    ensures
        reach_ranked_below(t, rank, type_fuel(md)),
    decreases t,
{
    match t {
        TypeModel::TypeDef(i, _) => {
            assert(rank[i as int] < md.type_defs@.len());
        },
        TypeModel::Win32Array(k, _) => lemma_reach_ranked(md, rank, *k),
        TypeModel::WinrtArray(k) => lemma_reach_ranked(md, rank, *k),
        _ => {},
    }
}

/// Where no struct contains itself through the fields of structs, the budget
/// that the walks are given is enough: with any larger budget, whether a type
/// is blittable and whether it has a callback come out the same.
pub proof fn law_walk_budget_suffices(md: &Metadata, rank: Seq<nat>, t: TypeModel, fuel: nat)
    requires
        structs_ranked(md, rank),
        t.refs_below(md.type_defs@.len()),
        fuel >= type_fuel(md),
    ensures
        spec_type_is_blittable(md, t, fuel) == spec_type_is_blittable(md, t, type_fuel(md)),
        spec_type_has_callback(md, t, fuel) == spec_type_has_callback(md, t, type_fuel(md)),
{
    lemma_reach_ranked(md, rank, t);
    lemma_blittable_settled(md, rank, t, type_fuel(md), fuel, type_fuel(md));
    lemma_callback_settled(md, rank, t, type_fuel(md), fuel, type_fuel(md));
}


/// The first `j` fields all pass as blittable with this budget.
pub open spec fn blittable_prior(md: &Metadata, fs: Seq<TypeModel>, j: int, fuel: nat) -> bool {
    forall|k: int| 0 <= k < j ==> spec_type_is_blittable(md, #[trigger] fs[k], fuel)
}

proof fn lemma_blittable_fields_settle(md: &Metadata, fs: Seq<TypeModel>, fp: nat, gp: nat, j: int)
    requires
        0 <= j <= fs.len(),
        fp <= gp,
        forall|x: int|
            0 <= x < fs.len() && blittable_prior(md, fs, x, fp) ==> blittable_walk_ends(
                md,
                #[trigger] fs[x],
                fp,
            ),
    ensures
        blittable_prior(md, fs, j, fp) == blittable_prior(md, fs, j, gp),
        forall|x: int|
            0 <= x < j && blittable_prior(md, fs, x, gp) ==> blittable_walk_ends(
                md,
                #[trigger] fs[x],
                gp,
            ),
    decreases fp + 1, 0int, j, TypeModel::Void,
{
    if j > 0 {
        let z = j - 1;
        lemma_blittable_fields_settle(md, fs, fp, gp, z);
        if blittable_prior(md, fs, z, fp) {
            assert(blittable_walk_ends(md, fs[z], fp));
            law_blittable_walk_settles(md, fs[z], fp, gp);
        }
        if blittable_prior(md, fs, j, fp) {
            assert(blittable_prior(md, fs, z, fp));
        }
        if blittable_prior(md, fs, j, gp) {
            assert(blittable_prior(md, fs, z, gp));
        }
    }
}

/// A blittability walk that ends with some budget ends with every larger one,
/// and answers the same: the answer of a walk that ends does not depend on its
/// budget.
pub proof fn law_blittable_walk_settles(md: &Metadata, t: TypeModel, f: nat, g: nat)
    requires
        blittable_walk_ends(md, t, f),
        f <= g,
    ensures
        blittable_walk_ends(md, t, g),
        spec_type_is_blittable(md, t, f) == spec_type_is_blittable(md, t, g),
    decreases f, 1int, 0int, t,
{
    match t {
        TypeModel::TypeDef(i, _) => {
            let d = def(md, i as int);
            if d.kind == TypeKind::Struct && is_windows_runtime(d.flags) {
                let fs = d.fields@;
                let fp = (f - 1) as nat;
                let gp = (g - 1) as nat;
                assert forall|x: int|
                    0 <= x < fs.len() && blittable_prior(md, fs, x, fp) implies blittable_walk_ends(
                    md,
                    #[trigger] fs[x],
                    fp,
                ) by {}
                lemma_blittable_fields_settle(md, fs, fp, gp, fs.len() as int);
                assert forall|x: int|
                    0 <= x < fs.len() && (forall|k: int|
                        0 <= k < x ==> spec_type_is_blittable(md, fs[k], gp)) implies blittable_walk_ends(
                    md,
                    #[trigger] fs[x],
                    gp,
                ) by {
                    assert(blittable_prior(md, fs, x, gp));
                }
            }
        },
        TypeModel::Win32Array(k, _) => law_blittable_walk_settles(md, *k, f, g),
        TypeModel::WinrtArray(k) => law_blittable_walk_settles(md, *k, f, g),
        _ => {},
    }
}

/// No field among the first `j` has a callback with this budget.
pub open spec fn callback_prior(md: &Metadata, fs: Seq<TypeModel>, j: int, fuel: nat) -> bool {
    forall|k: int| 0 <= k < j ==> !spec_type_has_callback(md, #[trigger] fs[k], fuel)
}

proof fn lemma_callback_fields_settle(md: &Metadata, fs: Seq<TypeModel>, fp: nat, gp: nat, j: int)
    requires
        0 <= j <= fs.len(),
        fp <= gp,
        forall|x: int|
            0 <= x < fs.len() && callback_prior(md, fs, x, fp) ==> callback_walk_ends(
                md,
                #[trigger] fs[x],
                fp,
            ),
    ensures
        callback_prior(md, fs, j, fp) == callback_prior(md, fs, j, gp),
        forall|x: int|
            0 <= x < j && callback_prior(md, fs, x, gp) ==> callback_walk_ends(md, #[trigger] fs[x], gp),
    decreases fp + 1, 0int, j, 0int, TypeModel::Void,
{
    if j > 0 {
        let z = j - 1;
        lemma_callback_fields_settle(md, fs, fp, gp, z);
        if callback_prior(md, fs, z, fp) {
            assert(callback_walk_ends(md, fs[z], fp));
            law_callback_walk_settles(md, fs[z], fp, gp);
        }
        if callback_prior(md, fs, j, fp) {
            assert(callback_prior(md, fs, z, fp));
        }
        if callback_prior(md, fs, j, gp) {
            assert(callback_prior(md, fs, z, gp));
        }
    }
}

/// The `y`th field of the `x`th definition of `d`'s name.
pub open spec fn name_field(md: &Metadata, d: TypeDefInfo, x: int, y: int) -> TypeModel {
    def(md, d.same_name@[x] as int).fields@[y]
}

/// The pair `(x, y)` names a field that the walk tries before the `j`th field
/// of the `v`th definition of `d`'s name.
pub open spec fn pair_before(md: &Metadata, d: TypeDefInfo, x: int, y: int, v: int, j: int) -> bool {
    &&& 0 <= x < d.same_name@.len()
    &&& 0 <= y < def(md, d.same_name@[x] as int).fields@.len()
    &&& (x < v || (x == v && y < j))
}

/// Up to the `j`th field of the `v`th definition of the name, the fields
/// tried pass as clear alike with either budget, and each tried with the
/// larger budget ends.
pub open spec fn pairs_settled(md: &Metadata, d: TypeDefInfo, v: int, j: int, fp: nat, gp: nat) -> bool {
    &&& fields_before_clear(md, d, v, j, fp) == fields_before_clear(md, d, v, j, gp)
    &&& forall|x: int, y: int|
        #![trigger name_field(md, d, x, y)]
        pair_before(md, d, x, y, v, j) && fields_before_clear(md, d, x, y, gp) ==> callback_walk_ends(
            md,
            name_field(md, d, x, y),
            gp,
        )
}

/// Every field tried with the smaller budget ends with it.
pub open spec fn pairs_end(md: &Metadata, d: TypeDefInfo, fp: nat) -> bool {
    forall|x: int, y: int|
        #![trigger name_field(md, d, x, y)]
        0 <= x < d.same_name@.len() && 0 <= y < def(md, d.same_name@[x] as int).fields@.len()
            && fields_before_clear(md, d, x, y, fp) ==> callback_walk_ends(md, name_field(md, d, x, y), fp)
}

proof fn lemma_pairs_inner(md: &Metadata, d: TypeDefInfo, v: int, j: int, fp: nat, gp: nat)
    requires
        0 <= v < d.same_name@.len(),
        0 <= j <= def(md, d.same_name@[v] as int).fields@.len(),
        fp <= gp,
        pairs_end(md, d, fp),
        pairs_settled(md, d, v, 0, fp, gp),
    ensures
        pairs_settled(md, d, v, j, fp, gp),
    decreases fp + 1, 0int, j, 1int, TypeModel::Void,
{
    if j > 0 {
        let z = j - 1;
        lemma_pairs_inner(md, d, v, z, fp, gp);
        let u = name_field(md, d, v, z);
        if fields_before_clear(md, d, v, z, fp) {
            assert(callback_walk_ends(md, u, fp));
            law_callback_walk_settles(md, u, fp, gp);
        }
        assert(fields_before_clear(md, d, v, j, fp) == (fields_before_clear(md, d, v, z, fp)
            && !spec_type_has_callback(md, u, fp)));
        assert(fields_before_clear(md, d, v, j, gp) == (fields_before_clear(md, d, v, z, gp)
            && !spec_type_has_callback(md, u, gp)));
        assert forall|x: int, y: int|
            pair_before(md, d, x, y, v, j) && fields_before_clear(md, d, x, y, gp) implies callback_walk_ends(
            md,
            #[trigger] name_field(md, d, x, y),
            gp,
        ) by {
            if x == v && y == z {
            } else {
                assert(pair_before(md, d, x, y, v, z));
            }
        }
    }
}

proof fn lemma_pairs_outer(md: &Metadata, d: TypeDefInfo, v: int, fp: nat, gp: nat)
    requires
        0 <= v <= d.same_name@.len(),
        fp <= gp,
        pairs_end(md, d, fp),
    ensures
        pairs_settled(md, d, v, 0, fp, gp),
    decreases fp + 1, 1int, v, 0int, TypeModel::Void,
{
    if v > 0 {
        let w = v - 1;
        lemma_pairs_outer(md, d, w, fp, gp);
        let len = def(md, d.same_name@[w] as int).fields@.len() as int;
        lemma_pairs_inner(md, d, w, len, fp, gp);
        lemma_clear_bridge(md, d, w, fp);
        lemma_clear_bridge(md, d, w, gp);
        assert forall|x: int, y: int|
            pair_before(md, d, x, y, v, 0) && fields_before_clear(md, d, x, y, gp) implies callback_walk_ends(
            md,
            #[trigger] name_field(md, d, x, y),
            gp,
        ) by {
            assert(pair_before(md, d, x, y, w, len));
        }
    } else {
        assert(fields_before_clear(md, d, 0, 0, fp));
        assert(fields_before_clear(md, d, 0, 0, gp));
    }
}

proof fn lemma_clear_bridge(md: &Metadata, d: TypeDefInfo, w: int, fuel: nat)
    requires
        0 <= w < d.same_name@.len(),
    ensures
        fields_before_clear(md, d, w + 1, 0, fuel) == fields_before_clear(
            md,
            d,
            w,
            def(md, d.same_name@[w] as int).fields@.len() as int,
            fuel,
        ),
{
    let len = def(md, d.same_name@[w] as int).fields@.len() as int;
    if fields_before_clear(md, d, w, len, fuel) {
        assert forall|x: int, k: int|
            0 <= x < w + 1 && 0 <= k < def(md, d.same_name@[x] as int).fields@.len() implies !spec_type_has_callback(
            md,
            #[trigger] def(md, d.same_name@[x] as int).fields@[k],
            fuel,
        ) by {
            if x == w {
            }
        }
    }
}

/// A callback walk that ends with some budget ends with every larger one,
/// and answers the same: the answer of a walk that ends does not depend on its
/// budget.
pub proof fn law_callback_walk_settles(md: &Metadata, t: TypeModel, f: nat, g: nat)
    requires
        callback_walk_ends(md, t, f),
        f <= g,
    ensures
        callback_walk_ends(md, t, g),
        spec_type_has_callback(md, t, f) == spec_type_has_callback(md, t, g),
    decreases f, 2int, 0int, 0int, t,
{
    match t {
        TypeModel::TypeDef(i, _) => {
            let d = def(md, i as int);
            if !def_is_callback(md, i as int) && d.kind == TypeKind::Struct {
                let fp = (f - 1) as nat;
                let gp = (g - 1) as nat;
                if d.namespace@.len() == 0 {
                    let fs = d.fields@;
                    assert forall|x: int|
                        0 <= x < fs.len() && callback_prior(md, fs, x, fp) implies callback_walk_ends(
                        md,
                        #[trigger] fs[x],
                        fp,
                    ) by {}
                    lemma_callback_fields_settle(md, fs, fp, gp, fs.len() as int);
                    assert forall|x: int|
                        0 <= x < fs.len() && (forall|k: int|
                            0 <= k < x ==> !spec_type_has_callback(md, fs[k], gp)) implies callback_walk_ends(
                        md,
                        #[trigger] fs[x],
                        gp,
                    ) by {
                        assert(callback_prior(md, fs, x, gp));
                    }
                    if spec_type_has_callback(md, t, f) {
                        assert(!callback_prior(md, fs, fs.len() as int, fp));
                    }
                    if spec_type_has_callback(md, t, g) {
                        assert(!callback_prior(md, fs, fs.len() as int, gp));
                    }
                } else {
                    assert forall|x: int, y: int|
                        0 <= x < d.same_name@.len() && 0 <= y < def(md, d.same_name@[x] as int).fields@.len()
                            && fields_before_clear(md, d, x, y, fp) implies callback_walk_ends(
                        md,
                        #[trigger] name_field(md, d, x, y),
                        fp,
                    ) by {
                        assert(name_field(md, d, x, y) == def(md, d.same_name@[x] as int).fields@[y]);
                    }
                    let n = d.same_name@.len() as int;
                    lemma_pairs_outer(md, d, n, fp, gp);
                    assert forall|x: int, y: int|
                        0 <= x < d.same_name@.len() && 0 <= y < def(md, d.same_name@[x] as int).fields@.len()
                            && fields_before_clear(md, d, x, y, gp) implies callback_walk_ends(
                        md,
                        #[trigger] def(md, d.same_name@[x] as int).fields@[y],
                        gp,
                    ) by {
                        assert(pair_before(md, d, x, y, n, 0));
                        assert(name_field(md, d, x, y) == def(md, d.same_name@[x] as int).fields@[y]);
                    }
                    if spec_type_has_callback(md, t, f) {
                        assert(!fields_before_clear(md, d, n, 0, fp));
                    }
                    if spec_type_has_callback(md, t, g) {
                        assert(!fields_before_clear(md, d, n, 0, gp));
                    }
                }
            }
        },
        TypeModel::Win32Array(k, _) => law_callback_walk_settles(md, *k, f, g),
        _ => {},
    }
}


/// Law: a class or an interface is never blittable, with any budget, and so
/// is always passed by reference (borrowed), whatever its flags.
pub proof fn law_classes_and_interfaces_are_borrowed(md: &Metadata, i: usize, a: TypeArgs, fuel: nat)
    requires
        def(md, i as int).kind == TypeKind::Class || def(md, i as int).kind == TypeKind::Interface,
    ensures
        !spec_type_is_blittable(md, TypeModel::TypeDef(i, a), fuel),
        spec_type_is_borrowed(md, TypeModel::TypeDef(i, a)),
{
}

/// Law: a definition without the `WindowsRuntime` flag is never a
/// non-exclusive Windows Runtime interface, whatever its kind and attributes.
pub proof fn law_win32_definitions_are_not_winrt_interfaces(md: &Metadata, i: usize, a: TypeArgs)
    requires
        def(md, i as int).flags & WINDOWS_RUNTIME != WINDOWS_RUNTIME,
    ensures
        !spec_type_is_non_exclusive_winrt_interface(md, TypeModel::TypeDef(i, a)),
{
}
} // verus!
