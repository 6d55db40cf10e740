//! Method signatures: their parameters with the settled way each is passed,
//! and the calling pattern of the whole signature.

use vstd::prelude::*;
use crate::attributes::{
    has_attribute, name_is, param_kind, param_or_enum, spec_associated_enum, spec_has_attribute,
    spec_param_kind,
};
use crate::params::{
    classify, ParamFacts, classify_kinds, settle_lengths, spec_settle_lengths, law_lengths_distinct, lengths_distinct, opt_seq, resolve_param_kinds, spec_resolve,
};
use crate::kinds::{QueryPosition, SignatureKind, SignatureParamKind};
use crate::model::{Metadata, MethodInfo, ParamInfo, TypeArgs, TypeKind, TypeModel};
use crate::types::{
    law_classes_and_interfaces_are_borrowed, law_win32_definitions_are_not_winrt_interfaces,
    WINDOWS_RUNTIME, def, spec_type_is_blittable, spec_type_is_primitive, type_fuel, blittable_within_budget,
    borrowed_within_budget, borrowed_walk_ends, blittable_walk_ends, blittable_walk_ends_from,
    type_is_primitive, spec_type_is_borrowed, spec_type_is_callback, spec_type_is_non_exclusive_winrt_interface,
    spec_type_is_struct, spec_type_is_trivially_convertible, spec_type_size, type_is_borrowed,
    type_is_callback, type_is_non_exclusive_winrt_interface, type_is_struct,
    type_is_trivially_convertible, type_size,
};

verus! {

/// The `In` bit of `ParamAttributes`.
pub const PARAM_IN: u16 = 0x1;

/// The `Out` bit of `ParamAttributes`.
pub const PARAM_OUT: u16 = 0x2;

/// The `Optional` bit of `ParamAttributes`.
pub const PARAM_OPTIONAL: u16 = 0x10;

/// The `SupportsLastError` bit of `PInvokeAttributes`.
pub const SUPPORTS_LAST_ERROR: usize = 0x40;

pub open spec fn has_flag(flags: u16, flag: u16) -> bool {
    flags & flag == flag
}

/// A parameter of a signature: its Param row (a position in
/// `Metadata::params`), its type as passed, and how it is passed.
pub struct SignatureParam {
    pub def: usize,
    pub ty: TypeModel,
    pub kind: SignatureParamKind,
}

/// A method signature: the MethodDef row (a position in `Metadata::methods`),
/// the parameters in order, the return type and the calling-convention flags.
pub struct Signature {
    pub def: usize,
    pub params: Vec<SignatureParam>,
    pub return_type: TypeModel,
    pub call_flags: u8,
}

/// A signature as a value.
pub struct SignatureView {
    pub def: usize,
    pub params: Seq<SignatureParam>,
    pub return_type: TypeModel,
    pub call_flags: u8,
}

impl View for Signature {
    type V = SignatureView;

    open spec fn view(&self) -> SignatureView {
        SignatureView {
            def: self.def,
            params: self.params@,
            return_type: self.return_type,
            call_flags: self.call_flags,
        }
    }
}

/// Every position and type in the signature refers into the metadata.
pub open spec fn signature_wf(md: &Metadata, s: SignatureView) -> bool {
    &&& s.def < md.methods@.len()
    &&& s.return_type.refs_below(md.type_defs@.len())
    &&& forall|p: int|
        #![trigger s.params[p]]
        0 <= p < s.params.len() ==> s.params[p].def < md.params@.len()
            && s.params[p].ty.refs_below(md.type_defs@.len())
}

/// The Param row of a signature parameter.
pub open spec fn param_row(md: &Metadata, sp: SignatureParam) -> ParamInfo {
    md.params@[sp.def as int]
}

/// A signature parameter that the caller converts into its type (see
/// `params::convertible`).
pub open spec fn spec_signature_param_is_convertible(md: &Metadata, sp: SignatureParam) -> bool {
    &&& !has_flag(param_row(md, sp).flags, PARAM_OUT)
    &&& !(sp.ty is WinrtArray)
    &&& !sp.ty.spec_is_pointer()
    &&& !sp.kind.spec_is_array()
    &&& (spec_type_is_borrowed(md, sp.ty) || spec_type_is_non_exclusive_winrt_interface(md, sp.ty)
        || spec_type_is_trivially_convertible(md, sp.ty))
}

/// Whether the parameter's type is passed by reference.
pub fn signature_param_is_borrowed(md: &Metadata, param: &SignatureParam) -> (r: bool)
    requires
        md.wf(),
        param.ty.refs_below(md.type_defs@.len()),
        borrowed_walk_ends(md, param.ty),
    ensures
        r == spec_type_is_borrowed(md, param.ty),
{
    type_is_borrowed(md, &param.ty)
}

/// Deciding whether a parameter is convertible ends: where it is an input
/// that is neither a Windows Runtime array, a pointer nor an array, deciding
/// whether its type is borrowed ends.
pub open spec fn convertible_walk_ends(md: &Metadata, sp: SignatureParam) -> bool {
    !has_flag(param_row(md, sp).flags, PARAM_OUT) && !(sp.ty is WinrtArray) && !sp.ty.spec_is_pointer()
        && !sp.kind.spec_is_array() ==> borrowed_walk_ends(md, sp.ty)
}

/// Whether the caller converts the parameter into its type.
pub fn signature_param_is_convertible(md: &Metadata, param: &SignatureParam) -> (r: bool)
    requires
        md.wf(),
        param.def < md.params@.len(),
        param.ty.refs_below(md.type_defs@.len()),
        convertible_walk_ends(md, *param),
    ensures
        r == spec_signature_param_is_convertible(md, *param),
{
    md.params[param.def].flags & PARAM_OUT != PARAM_OUT && !param.ty.is_winrt_array()
        && !param.ty.is_pointer() && !param.kind.is_array() && (type_is_borrowed(md, &param.ty)
        || type_is_non_exclusive_winrt_interface(md, &param.ty) || type_is_trivially_convertible(
        md,
        &param.ty,
    ))
}

/// The method has an ImplMap row that supports `GetLastError`.
pub open spec fn spec_method_def_last_error(m: MethodInfo) -> bool {
    match m.impl_map_flags {
        Some(f) => f & SUPPORTS_LAST_ERROR == SUPPORTS_LAST_ERROR,
        None => false,
    }
}

/// Whether the method sets the thread's last error.
pub fn method_def_last_error(md: &Metadata, row: usize) -> (r: bool)
    requires
        row < md.methods@.len(),
    ensures
        r == spec_method_def_last_error(md.methods@[row as int]),
{
    match md.methods[row].impl_map_flags {
        Some(f) => f & SUPPORTS_LAST_ERROR == SUPPORTS_LAST_ERROR,
        None => false,
    }
}

/// The parameter is the interface id of a query: an input `*const GUID`.
pub open spec fn is_query_guid(md: &Metadata, sp: SignatureParam) -> bool {
    &&& sp.ty == TypeModel::ConstPtr(Box::new(TypeModel::Guid), 1)
    &&& !has_flag(param_row(md, sp).flags, PARAM_OUT)
}

/// The parameter receives the object of a query: a `*mut *mut c_void`
/// marked `ComOutPtrAttribute`.
pub open spec fn is_query_object(md: &Metadata, sp: SignatureParam) -> bool {
    &&& sp.ty == TypeModel::MutPtr(Box::new(TypeModel::Void), 2)
    &&& spec_has_attribute(param_row(md, sp).attributes@, "ComOutPtrAttribute"@)
}

/// The position of the last query interface-id parameter.
pub open spec fn last_query_guid(md: &Metadata, ps: Seq<SignatureParam>) -> Option<usize>
    decreases ps.len(),
{
    if ps.len() == 0 {
        None
    } else if is_query_guid(md, ps.last()) {
        Some((ps.len() - 1) as usize)
    } else {
        last_query_guid(md, ps.drop_last())
    }
}

/// The position of the last query object parameter.
pub open spec fn last_query_object(md: &Metadata, ps: Seq<SignatureParam>) -> Option<usize>
    decreases ps.len(),
{
    if ps.len() == 0 {
        None
    } else if is_query_object(md, ps.last()) {
        Some((ps.len() - 1) as usize)
    } else {
        last_query_object(md, ps.drop_last())
    }
}

proof fn lemma_last_query_guid(md: &Metadata, ps: Seq<SignatureParam>, i: int)
    requires
        0 <= i <= ps.len(),
        forall|j: int| i <= j < ps.len() ==> !is_query_guid(md, #[trigger] ps[j]),
    ensures
        last_query_guid(md, ps) == last_query_guid(md, ps.take(i)),
    decreases ps.len() - i,
{
    if i < ps.len() {
        lemma_last_query_guid(md, ps, i + 1);
        let t = ps.take(i + 1);
        assert(t.last() == ps[i]);
        assert(t.drop_last() =~= ps.take(i));
    } else {
        assert(ps.take(i) =~= ps);
    }
}

proof fn lemma_last_query_object(md: &Metadata, ps: Seq<SignatureParam>, i: int)
    requires
        0 <= i <= ps.len(),
        forall|j: int| i <= j < ps.len() ==> !is_query_object(md, #[trigger] ps[j]),
    ensures
        last_query_object(md, ps) == last_query_object(md, ps.take(i)),
    decreases ps.len() - i,
{
    if i < ps.len() {
        lemma_last_query_object(md, ps, i + 1);
        let t = ps.take(i + 1);
        assert(t.last() == ps[i]);
        assert(t.drop_last() =~= ps.take(i));
    } else {
        assert(ps.take(i) =~= ps);
    }
}

proof fn lemma_last_query_below(md: &Metadata, ps: Seq<SignatureParam>)
    requires
        ps.len() <= usize::MAX,
    ensures
        last_query_guid(md, ps) matches Some(i) ==> i < ps.len(),
        last_query_object(md, ps) matches Some(i) ==> i < ps.len(),
    decreases ps.len(),
{
    if ps.len() > 0 {
        lemma_last_query_below(md, ps.drop_last());
    }
}

/// The position of the last query interface-id parameter.
pub fn signature_param_is_query_guid(md: &Metadata, params: &Vec<SignatureParam>) -> (r: Option<
    usize,
>)
    requires
        forall|p: int| 0 <= p < params@.len() ==> #[trigger] params@[p].def < md.params@.len(),
    ensures
        r == last_query_guid(md, params@),
{
    let mut i = params.len();
    while i > 0
        invariant
            0 <= i <= params@.len(),
            forall|p: int| 0 <= p < params@.len() ==> #[trigger] params@[p].def < md.params@.len(),
            forall|j: int| i <= j < params@.len() ==> !is_query_guid(md, #[trigger] params@[j]),
        decreases i,
    {
        let sp = &params[i - 1];
        assert(*sp == params@[i - 1]);
        let is_guid = match &sp.ty {
            TypeModel::ConstPtr(k, n) => *n == 1 && matches!(**k, TypeModel::Guid),
            _ => false,
        };
        if is_guid && md.params[sp.def].flags & PARAM_OUT != PARAM_OUT {
            assert(is_query_guid(md, params@[i - 1]));
            proof {
                lemma_last_query_guid(md, params@, i as int);
                let t = params@.take(i as int);
                assert(t.last() == params@[i - 1]);
            }
            return Some(i - 1);
        }
        i -= 1;
    }
    proof {
        lemma_last_query_guid(md, params@, 0);
    }
    None
}

/// The position of the last query object parameter.
pub fn signature_param_is_query_object(md: &Metadata, params: &Vec<SignatureParam>) -> (r: Option<
    usize,
>)
    requires
        forall|p: int| 0 <= p < params@.len() ==> #[trigger] params@[p].def < md.params@.len(),
    ensures
        r == last_query_object(md, params@),
{
    let mut i = params.len();
    while i > 0
        invariant
            0 <= i <= params@.len(),
            forall|p: int| 0 <= p < params@.len() ==> #[trigger] params@[p].def < md.params@.len(),
            forall|j: int| i <= j < params@.len() ==> !is_query_object(md, #[trigger] params@[j]),
        decreases i,
    {
        let sp = &params[i - 1];
        assert(*sp == params@[i - 1]);
        let is_object = match &sp.ty {
            TypeModel::MutPtr(k, n) => *n == 2 && matches!(**k, TypeModel::Void),
            _ => false,
        };
        if is_object && has_attribute(&md.params[sp.def].attributes, "ComOutPtrAttribute") {
            assert(is_query_object(md, params@[i - 1]));
            proof {
                lemma_last_query_object(md, params@, i as int);
                let t = params@.take(i as int);
                assert(t.last() == params@[i - 1]);
            }
            return Some(i - 1);
        }
        i -= 1;
    }
    proof {
        lemma_last_query_object(md, params@, 0);
    }
    None
}

/// The parameter is the method's return value: marked `RetValAttribute`, or
/// an output-only, non-optional, non-array pointer to a non-void type of at
/// most 16 bytes that is not a callback.
pub open spec fn spec_signature_param_is_retval(md: &Metadata, sp: SignatureParam) -> bool {
    let row = param_row(md, sp);
    if spec_has_attribute(row.attributes@, "RetValAttribute"@) {
        true
    } else if !sp.ty.spec_is_pointer() {
        false
    } else if sp.ty.spec_is_void() {
        false
    } else if has_flag(row.flags, PARAM_IN) || !has_flag(row.flags, PARAM_OUT) || has_flag(
        row.flags,
        PARAM_OPTIONAL,
    ) || sp.kind.spec_is_array() {
        false
    } else if spec_param_kind(row.attributes@).spec_is_array() {
        false
    } else if spec_type_size(md, sp.ty.spec_deref()) > 16 {
        false
    } else {
        !spec_type_is_callback(md, sp.ty.spec_deref())
    }
}

proof fn lemma_deref_wf(t: TypeModel, n: nat)
    requires
        t.refs_below(n),
        t.spec_is_pointer(),
    ensures
        t.can_deref(),
        t.spec_deref().refs_below(n),
{
}

/// Whether the parameter is the method's return value.
pub fn signature_param_is_retval(md: &Metadata, param: &SignatureParam) -> (r: bool)
    requires
        md.wf(),
        param.def < md.params@.len(),
        param.ty.refs_below(md.type_defs@.len()),
    ensures
        r == spec_signature_param_is_retval(md, *param),
{
    let row = &md.params[param.def];
    if has_attribute(&row.attributes, "RetValAttribute") {
        return true;
    }
    if !param.ty.is_pointer() {
        return false;
    }
    if param.ty.is_void() {
        return false;
    }
    let flags = row.flags;
    if flags & PARAM_IN == PARAM_IN || flags & PARAM_OUT != PARAM_OUT || flags & PARAM_OPTIONAL
        == PARAM_OPTIONAL || param.kind.is_array() {
        return false;
    }
    if param_kind(&row.attributes).is_array() {
        return false;
    }
    proof {
        lemma_deref_wf(param.ty, md.type_defs@.len());
    }
    let pointee = param.ty.deref();
    if type_size(md, &pointee) > 16 {
        return false;
    }
    !type_is_callback(md, &pointee)
}

/// The last parameter is the return value and no parameter before it is an
/// output.
pub open spec fn spec_signature_is_retval(md: &Metadata, s: SignatureView) -> bool {
    &&& s.params.len() > 0
    &&& spec_signature_param_is_retval(md, s.params.last())
    &&& forall|p: int|
        #![trigger s.params[p]]
        0 <= p < s.params.len() - 1 ==> !has_flag(param_row(md, s.params[p]).flags, PARAM_OUT)
}

/// Whether the signature returns its last parameter as its value.
pub fn signature_is_retval(md: &Metadata, signature: &Signature) -> (r: bool)
    requires
        md.wf(),
        signature_wf(md, signature@),
    ensures
        r == spec_signature_is_retval(md, signature@),
{
    let n = signature.params.len();
    if n == 0 {
        return false;
    }
    let last = &signature.params[n - 1];
    assert(signature@.params.last() == *last);
    if !signature_param_is_retval(md, last) {
        return false;
    }
    let mut p: usize = 0;
    while p < n - 1
        invariant
            n == signature@.params.len(),
            n > 0,
            0 <= p <= n - 1,
            signature_wf(md, signature@),
            forall|j: int|
                0 <= j < p ==> !has_flag(param_row(md, #[trigger] signature@.params[j]).flags, PARAM_OUT),
        decreases n - 1 - p,
    {
        let sp = &signature.params[p];
        assert(*sp == signature@.params[p as int]);
        if md.params[sp.def].flags & PARAM_OUT == PARAM_OUT {
            return false;
        }
        p += 1;
    }
    true
}

/// The definition at `d` has the given namespace and name.
pub open spec fn type_def_named(md: &Metadata, d: int, namespace: Seq<char>, name: Seq<char>) -> bool {
    def(md, d).namespace@ == namespace && def(md, d).name@ == name
}

fn type_def_is_named(md: &Metadata, d: usize, namespace: &str, name: &str) -> (r: bool)
    requires
        d < md.type_defs@.len(),
    ensures
        r == type_def_named(md, d as int, namespace@, name@),
{
    name_is(&md.type_defs[d].namespace, namespace) && name_is(&md.type_defs[d].name, name)
}

/// The calling pattern of a signature, from its method's attributes, its
/// return type and its parameters.
pub open spec fn spec_signature_kind(md: &Metadata, s: SignatureView) -> SignatureKind {
    let m = md.methods@[s.def as int];
    if spec_has_attribute(m.attributes@, "CanReturnMultipleSuccessValuesAttribute"@) {
        SignatureKind::PreserveSig
    } else {
        match s.return_type {
            TypeModel::Void => if spec_signature_is_retval(md, s) {
                SignatureKind::ReturnValue
            } else {
                SignatureKind::ReturnVoid
            },
            TypeModel::HResult => {
                let guid = last_query_guid(md, s.params);
                let object = last_query_object(md, s.params);
                if s.params.len() >= 2 && guid is Some && object is Some {
                    let pos = QueryPosition { object: object.unwrap(), guid: guid.unwrap() };
                    if has_flag(
                        param_row(md, s.params[object.unwrap() as int]).flags,
                        PARAM_OPTIONAL,
                    ) {
                        SignatureKind::QueryOptional(pos)
                    } else {
                        SignatureKind::Query(pos)
                    }
                } else if spec_signature_is_retval(md, s) {
                    SignatureKind::ResultValue
                } else {
                    SignatureKind::ResultVoid
                }
            },
            TypeModel::TypeDef(d, _) if type_def_named(
                md,
                d as int,
                "Windows.Win32.Foundation"@,
                "NTSTATUS"@,
            ) => SignatureKind::ResultVoid,
            TypeModel::TypeDef(d, _) if type_def_named(
                md,
                d as int,
                "Windows.Win32.Foundation"@,
                "WIN32_ERROR"@,
            ) => SignatureKind::ResultVoid,
            TypeModel::TypeDef(d, _) if type_def_named(
                md,
                d as int,
                "Windows.Win32.Foundation"@,
                "BOOL"@,
            ) && spec_method_def_last_error(m) => SignatureKind::ResultVoid,
            _ => if spec_type_is_struct(md, s.return_type) {
                SignatureKind::ReturnStruct
            } else {
                SignatureKind::PreserveSig
            },
        }
    }
}

/// The calling pattern of a signature (see `spec_signature_kind`).
pub fn signature_kind(md: &Metadata, signature: &Signature) -> (r: SignatureKind)
    requires
        md.wf(),
        signature_wf(md, signature@),
    ensures
        r == spec_signature_kind(md, signature@),
        r matches SignatureKind::Query(pos) ==> pos.object < signature@.params.len()
            && pos.guid < signature@.params.len(),
        r matches SignatureKind::QueryOptional(pos) ==> pos.object < signature@.params.len()
            && pos.guid < signature@.params.len(),
{
    let m = &md.methods[signature.def];
    if has_attribute(&m.attributes, "CanReturnMultipleSuccessValuesAttribute") {
        return SignatureKind::PreserveSig;
    }
    match &signature.return_type {
        TypeModel::Void => {
            if signature_is_retval(md, signature) {
                SignatureKind::ReturnValue
            } else {
                SignatureKind::ReturnVoid
            }
        },
        TypeModel::HResult => {
            if signature.params.len() >= 2 {
                let guid = signature_param_is_query_guid(md, &signature.params);
                let object = signature_param_is_query_object(md, &signature.params);
                if let (Some(g), Some(o)) = (guid, object) {
                    proof {
                        lemma_last_query_below(md, signature@.params);
                    }
                    let pos = QueryPosition { object: o, guid: g };
                    assert(signature@.params[o as int] == signature.params[o as int]);
                    if md.params[signature.params[o].def].flags & PARAM_OPTIONAL == PARAM_OPTIONAL {
                        return SignatureKind::QueryOptional(pos);
                    } else {
                        return SignatureKind::Query(pos);
                    }
                }
            }
            if signature_is_retval(md, signature) {
                SignatureKind::ResultValue
            } else {
                SignatureKind::ResultVoid
            }
        },
        TypeModel::TypeDef(d, _) => {
            if type_def_is_named(md, *d, "Windows.Win32.Foundation", "NTSTATUS") {
                SignatureKind::ResultVoid
            } else if type_def_is_named(md, *d, "Windows.Win32.Foundation", "WIN32_ERROR") {
                SignatureKind::ResultVoid
            } else if type_def_is_named(md, *d, "Windows.Win32.Foundation", "BOOL")
                && method_def_last_error(md, signature.def) {
                SignatureKind::ResultVoid
            } else if type_is_struct(md, &signature.return_type) {
                SignatureKind::ReturnStruct
            } else {
                SignatureKind::PreserveSig
            }
        },
        _ => {
            if type_is_struct(md, &signature.return_type) {
                SignatureKind::ReturnStruct
            } else {
                SignatureKind::PreserveSig
            }
        },
    }
}

/// The name under which a reader lists a definition: its name without the
/// "`N" arity suffix that the names of generic types end with. The suffix is
/// cut where the byte before last of the name's UTF-8 form is a backtick: the
/// last character is then a one-byte (ASCII) character and the one before it
/// the backtick.
pub open spec fn listed_name(name: Seq<char>) -> Seq<char> {
    if name.len() >= 2 && name[name.len() - 2] == '`' && (name[name.len() - 1] as u32) < 0x80 {
        name.subrange(0, name.len() - 2)
    } else {
        name
    }
}

/// A type definition that a reader finds under this namespace and name: it
/// lies in that namespace, which is not empty, it is not an `Apis` class, and
/// it is listed under that name.
pub open spec fn findable_as(md: &Metadata, d: int, namespace: Seq<char>, name: Seq<char>) -> bool {
    &&& namespace.len() > 0
    &&& def(md, d).namespace@ == namespace
    &&& def(md, d).name@ != "Apis"@
    &&& listed_name(def(md, d).name@) == name
}

/// The first definition, from position `j` on, findable under this namespace
/// and name.
pub open spec fn find_type_def_from(
    md: &Metadata,
    namespace: Seq<char>,
    name: Seq<char>,
    j: int,
) -> Option<usize>
    decreases md.type_defs@.len() - j,
{
    if j < 0 || j >= md.type_defs@.len() {
        None
    } else if findable_as(md, j, namespace, name) {
        Some(j as usize)
    } else {
        find_type_def_from(md, namespace, name, j + 1)
    }
}

proof fn lemma_find_none(md: &Metadata, namespace: Seq<char>, name: Seq<char>, j: int)
    requires
        namespace.len() == 0,
    ensures
        find_type_def_from(md, namespace, name, j) is None,
    decreases md.type_defs@.len() - j,
{
    if 0 <= j < md.type_defs@.len() {
        lemma_find_none(md, namespace, name, j + 1);
    }
}

fn str_eq(a: &str, b: &str) -> (r: bool)
    ensures
        r == (a@ == b@),
{
    String::from_str(a) == String::from_str(b)
}

/// Whether a definition named `raw` is listed under `name`.
fn is_listed_as(raw: &str, name: &str) -> (r: bool)
    ensures
        r == (listed_name(raw@) == name@),
{
    let n = raw.unicode_len();
    if n >= 2 && raw.get_char(n - 2) == '`' && (raw.get_char(n - 1) as u32) < 0x80 {
        str_eq(raw.substring_char(0, n - 2), name)
    } else {
        str_eq(raw, name)
    }
}

fn type_def_is_findable(md: &Metadata, d: usize, namespace: &str, name: &str) -> (r: bool)
    requires
        d < md.type_defs@.len(),
    ensures
        r == (def(md, d as int).namespace@ == namespace@ && def(md, d as int).name@ != "Apis"@
            && listed_name(def(md, d as int).name@) == name@),
{
    let t = &md.type_defs[d];
    name_is(&t.namespace, namespace) && !name_is(&t.name, "Apis") && is_listed_as(
        t.name.as_str(),
        name,
    )
}

/// The first definition findable under this namespace and name.
pub fn find_type_def(md: &Metadata, namespace: &str, name: &String) -> (r: Option<usize>)
    ensures
        r == find_type_def_from(md, namespace@, name@, 0),
        r matches Some(d) ==> d < md.type_defs@.len(),
{
    if namespace.unicode_len() == 0 {
        proof {
            lemma_find_none(md, namespace@, name@, 0);
        }
        return None;
    }
    let mut j: usize = 0;
    while j < md.type_defs.len()
        invariant
            0 <= j <= md.type_defs@.len(),
            namespace@.len() > 0,
            find_type_def_from(md, namespace@, name@, 0) == find_type_def_from(
                md,
                namespace@,
                name@,
                j as int,
            ),
        decreases md.type_defs@.len() - j,
    {
        if type_def_is_findable(md, j, namespace, name.as_str()) {
            return Some(j);
        }
        j += 1;
    }
    None
}

/// What the settling passes read of a signature parameter.
pub open spec fn facts_of(md: &Metadata, sp: SignatureParam) -> ParamFacts {
    let row = param_row(md, sp);
    let ty = sp.ty;
    ParamFacts {
        is_out: has_flag(row.flags, PARAM_OUT),
        is_optional: has_flag(row.flags, PARAM_OPTIONAL),
        free_with: spec_has_attribute(row.attributes@, "FreeWithAttribute"@),
        reserved: spec_has_attribute(row.attributes@, "ReservedAttribute"@),
        is_pointer: ty.spec_is_pointer(),
        byte_size: ty.spec_is_byte_size(),
        winrt_array: ty is WinrtArray,
        borrowed: spec_type_is_borrowed(md, ty),
        non_exclusive: spec_type_is_non_exclusive_winrt_interface(md, ty),
        trivially_convertible: spec_type_is_trivially_convertible(md, ty),
        primitive: spec_type_is_primitive(md, ty),
        deref_blittable: ty.spec_is_pointer() && spec_type_is_blittable(
            md,
            ty.spec_deref(),
            type_fuel(md),
        ),
        blittable: spec_type_is_blittable(md, ty, type_fuel(md)),
    }
}

/// What the settling passes read of a signature parameter.
pub fn param_facts(md: &Metadata, sp: &SignatureParam) -> (f: ParamFacts)
    requires
        md.wf(),
        sp.def < md.params@.len(),
        sp.ty.refs_below(md.type_defs@.len()),
    ensures
        f == facts_of(md, *sp),
{
    let row = &md.params[sp.def];
    let ty = &sp.ty;
    let is_pointer = ty.is_pointer();
    let deref_blittable = if is_pointer {
        proof {
            lemma_deref_wf(*ty, md.type_defs@.len());
        }
        blittable_within_budget(md, &ty.deref())
    } else {
        false
    };
    ParamFacts {
        is_out: row.flags & PARAM_OUT == PARAM_OUT,
        is_optional: row.flags & PARAM_OPTIONAL == PARAM_OPTIONAL,
        free_with: has_attribute(&row.attributes, "FreeWithAttribute"),
        reserved: has_attribute(&row.attributes, "ReservedAttribute"),
        is_pointer,
        byte_size: ty.is_byte_size(),
        winrt_array: ty.is_winrt_array(),
        borrowed: borrowed_within_budget(md, ty),
        non_exclusive: type_is_non_exclusive_winrt_interface(md, ty),
        trivially_convertible: type_is_trivially_convertible(md, ty),
        primitive: type_is_primitive(md, ty),
        deref_blittable,
        blittable: blittable_within_budget(md, ty),
    }
}

/// The state of reading a method's parameters: the return type, the
/// parameters read so far, and how many parameter types have been used.
pub type BuildState = (TypeModel, Seq<SignatureParam>, nat);

/// Reading the `i`th Param row of the method: the return value's row may make
/// the return type `const`; any other row takes the next parameter type, as
/// the associated enumeration's primitive type where it names one, made
/// `const`, and a `const` pointer unless it is an output. `None` where the
/// types run out or the enumeration is not found.
pub open spec fn build_step(
    md: &Metadata,
    namespace: Seq<char>,
    m: MethodInfo,
    generics: Seq<TypeModel>,
    st: BuildState,
    i: int,
) -> Option<BuildState> {
    let ret = st.0;
    let ps = st.1;
    let next = st.2;
    let row_index = m.params@[i];
    let row = md.params@[row_index as int];
    let is_const = spec_has_attribute(row.attributes@, "ConstAttribute"@);
    if row.sequence == 0 {
        Some(
            (
                if is_const {
                    ret.spec_to_const_type()
                } else {
                    ret
                },
                ps,
                next,
            ),
        )
    } else if next >= m.param_types@.len() {
        None
    } else {
        let is_output = has_flag(row.flags, PARAM_OUT);
        let ty0 = m.param_types@[next as int].substitute(generics);
        let found = match spec_associated_enum(row.attributes@) {
            Some(name) => match find_type_def_from(md, namespace, name, 0) {
                Some(d) => Some(
                    TypeModel::PrimitiveOrEnum(Box::new(ty0), Box::new(TypeModel::TypeDef(d, TypeArgs::End))),
                ),
                None => None,
            },
            None => Some(ty0),
        };
        match found {
            Some(ty1) => {
                let ty2 = if is_const || !is_output {
                    ty1.spec_to_const_type()
                } else {
                    ty1
                };
                let ty3 = if !is_output {
                    ty2.spec_to_const_ptr()
                } else {
                    ty2
                };
                let sp = SignatureParam {
                    def: row_index,
                    ty: ty3,
                    kind: spec_param_kind(row.attributes@),
                };
                Some((ret, ps.push(sp), next + 1))
            },
            None => None,
        }
    }
}

/// Reading the first `k` Param rows of the method.
pub open spec fn build_params(
    md: &Metadata,
    namespace: Seq<char>,
    m: MethodInfo,
    generics: Seq<TypeModel>,
    k: nat,
) -> Option<BuildState>
    decreases k,
{
    if k == 0 {
        Some((m.return_type.substitute(generics), Seq::empty(), 0))
    } else {
        match build_params(md, namespace, m, generics, (k - 1) as nat) {
            Some(st) => build_step(md, namespace, m, generics, st, k - 1),
            None => None,
        }
    }
}

/// The signature of the method at `row`: its parameters read from its Param
/// rows and decoded types, with their kinds settled by `params::spec_resolve`.
/// `None` where the decoded types run out, an associated enumeration is not
/// found, or an array names a length position past the last parameter.
pub open spec fn spec_method_def_signature(
    md: &Metadata,
    namespace: Seq<char>,
    row: usize,
    generics: Seq<TypeModel>,
) -> Option<SignatureView> {
    let m = md.methods@[row as int];
    match build_params(md, namespace, m, generics, m.params@.len()) {
        Some(st) => {
            let ps = st.1;
            let facts = Seq::new(ps.len(), |p: int| facts_of(md, ps[p]));
            let kinds = Seq::new(ps.len(), |p: int| ps[p].kind);
            match spec_resolve(facts, kinds) {
                Some(ks) => Some(
                    SignatureView {
                        def: row,
                        params: Seq::new(
                            ps.len(),
                            |p: int| SignatureParam { def: ps[p].def, ty: ps[p].ty, kind: ks[p] },
                        ),
                        return_type: st.0,
                        call_flags: m.call_flags as u8,
                    },
                ),
                None => None,
            }
        },
        None => None,
    }
}

/// The view of an optional signature.
pub open spec fn opt_sig(r: Option<Signature>) -> Option<SignatureView> {
    match r {
        Some(s) => Some(s@),
        None => None,
    }
}

proof fn lemma_build_none(
    md: &Metadata,
    namespace: Seq<char>,
    m: MethodInfo,
    generics: Seq<TypeModel>,
    k: nat,
    j: nat,
)
    requires
        k <= j,
        build_params(md, namespace, m, generics, k) is None,
    ensures
        build_params(md, namespace, m, generics, j) is None,
    decreases j - k,
{
    if k < j {
        lemma_build_none(md, namespace, m, generics, k + 1, j);
    }
}

proof fn lemma_const_type_wf(t: TypeModel, n: nat)
    requires
        t.refs_below(n),
    ensures
        t.spec_to_const_type().refs_below(n),
        t.spec_to_const_type().spec_to_const_ptr().refs_below(n),
        t.spec_to_const_ptr().refs_below(n),
    decreases t,
{
    match t {
        TypeModel::MutPtr(k, _) => lemma_const_type_wf(*k, n),
        TypeModel::ConstPtr(k, _) => lemma_const_type_wf(*k, n),
        _ => {},
    }
}

/// Classifying a parameter whose kind after the first three passes is `k`
/// ends: the walks it makes, in the order the fourth pass makes them, end. An
/// input that is neither a Windows Runtime array nor a pointer has its type's
/// borrowing decided first; unless it is then converted, an optional pointer
/// or a non-pointer primitive, a primitive pointer has its pointee's
/// blittability decided, and unless that is blittable, the type's
/// blittability is decided.
pub open spec fn classify_walk_ends(md: &Metadata, sp: SignatureParam, k: SignatureParamKind) -> bool {
    let f = facts_of(md, sp);
    let pre = !f.is_out && !f.winrt_array && !f.is_pointer;
    k != SignatureParamKind::Other || {
        &&& pre ==> borrowed_walk_ends(md, sp.ty)
        &&& {
            ||| pre && (f.borrowed || f.non_exclusive || f.trivially_convertible)
            ||| f.is_pointer && (f.is_optional || f.reserved)
            ||| f.primitive && !f.is_pointer
            ||| f.primitive && f.is_pointer && blittable_walk_ends(
                md,
                sp.ty.spec_deref(),
                type_fuel(md),
            ) && (f.deref_blittable || blittable_walk_ends(md, sp.ty, type_fuel(md)))
            ||| !f.primitive && blittable_walk_ends(md, sp.ty, type_fuel(md))
        }
    }
}

/// Reading the signature of the method at `row` ends: where its parameters
/// are read and their lengths settled, classifying each of them ends.
pub open spec fn signature_walks_end(
    md: &Metadata,
    namespace: Seq<char>,
    row: usize,
    generics: Seq<TypeModel>,
) -> bool {
    let m = md.methods@[row as int];
    match build_params(md, namespace, m, generics, m.params@.len()) {
        Some(st) => {
            let ps = st.1;
            let facts = Seq::new(ps.len(), |p: int| facts_of(md, ps[p]));
            let kinds = Seq::new(ps.len(), |p: int| ps[p].kind);
            match spec_settle_lengths(facts, kinds) {
                Some(pre) => forall|p: int|
                    0 <= p < ps.len() ==> classify_walk_ends(md, #[trigger] ps[p], pre[p]),
                None => true,
            }
        },
        None => true,
    }
}

/// The signature as a caller that must not wait without end receives it:
/// `None` where reading it would not end.
pub open spec fn spec_try_method_def_signature(
    md: &Metadata,
    namespace: Seq<char>,
    row: usize,
    generics: Seq<TypeModel>,
) -> Option<SignatureView> {
    if signature_walks_end(md, namespace, row, generics) {
        spec_method_def_signature(md, namespace, row, generics)
    } else {
        None
    }
}

fn borrowed_walk_ends_check(md: &Metadata, ty: &TypeModel) -> (r: bool)
    requires
        md.wf(),
        ty.refs_below(md.type_defs@.len()),
    ensures
        r == borrowed_walk_ends(md, *ty),
{
    match ty {
        TypeModel::TypeDef(_, _) => blittable_walk_ends_from(md, ty),
        _ => true,
    }
}

fn classify_walk_ends_check(md: &Metadata, sp: &SignatureParam, f: &ParamFacts, k: SignatureParamKind) -> (r: bool)
    requires
        md.wf(),
        sp.def < md.params@.len(),
        sp.ty.refs_below(md.type_defs@.len()),
        *f == facts_of(md, *sp),
    ensures
        r == classify_walk_ends(md, *sp, k),
{
    if k != SignatureParamKind::Other {
        return true;
    }
    let pre = !f.is_out && !f.winrt_array && !f.is_pointer;
    if pre && !borrowed_walk_ends_check(md, &sp.ty) {
        return false;
    }
    if pre && (f.borrowed || f.non_exclusive || f.trivially_convertible) {
        return true;
    }
    if f.is_pointer && (f.is_optional || f.reserved) {
        return true;
    }
    if f.primitive && !f.is_pointer {
        return true;
    }
    if f.primitive && f.is_pointer {
        proof {
            lemma_deref_wf(sp.ty, md.type_defs@.len());
        }
        let pointee = sp.ty.deref();
        if !blittable_walk_ends_from(md, &pointee) {
            return false;
        }
        if f.deref_blittable {
            return true;
        }
    }
    blittable_walk_ends_from(md, &sp.ty)
}

/// Every type in the list names only definitions below `n`.
pub open spec fn all_refs_below(ts: Seq<TypeModel>, n: nat) -> bool {
    forall|i: int| 0 <= i < ts.len() ==> #[trigger] ts[i].refs_below(n)
}

/// The signature of the method at `row`, with `generics` standing for the
/// generic parameters of its definition (see `spec_method_def_signature`);
/// `None` where the signature cannot be read, and where reading it would not
/// end (see `signature_walks_end`).
pub fn try_method_def_signature(
    md: &Metadata,
    namespace: &str,
    row: usize,
    generics: &Vec<TypeModel>,
) -> (r: Option<Signature>)
    requires
        md.wf(),
        row < md.methods@.len(),
        all_refs_below(generics@, md.type_defs@.len()),
    ensures
        opt_sig(r) == spec_try_method_def_signature(md, namespace@, row, generics@),
        r matches Some(s) ==> signature_wf(md, s@),
{
    let m = &md.methods[row];
    let ghost n = md.type_defs@.len();
    assert(md.methods@[row as int].return_type.refs_below(n));
    proof {
        md.methods@[row as int].return_type.lemma_substitute_refs_below(generics@, n);
    }
    let mut ret = m.return_type.substitute_generics(generics);
    let mut ps: Vec<SignatureParam> = Vec::new();
    let mut next: usize = 0;
    let mut i: usize = 0;
    while i < m.params.len()
        invariant
            md.wf(),
            all_refs_below(generics@, n),
            n == md.type_defs@.len(),
            row < md.methods@.len(),
            *m == md.methods@[row as int],
            0 <= i <= m.params@.len(),
            next <= m.param_types@.len(),
            build_params(md, namespace@, *m, generics@, i as nat) == Some((ret, ps@, next as nat)),
            ret.refs_below(n),
            forall|p: int|
                #![trigger ps@[p]]
                0 <= p < ps@.len() ==> ps@[p].def < md.params@.len() && ps@[p].ty.refs_below(n),
        decreases m.params@.len() - i,
    {
        let row_index = m.params[i];
        assert(row_index < md.params@.len());
        let prow = &md.params[row_index];
        let is_const = has_attribute(&prow.attributes, "ConstAttribute");
        if prow.sequence == 0 {
            if is_const {
                proof {
                    lemma_const_type_wf(ret, n);
                }
                ret = ret.to_const_type();
            }
        } else {
            if next >= m.param_types.len() {
                proof {
                    lemma_build_none(md, namespace@, *m, generics@, (i + 1) as nat, m.params@.len());
                }
                return None;
            }
            let is_output = prow.flags & PARAM_OUT == PARAM_OUT;
            assert(m.param_types@[next as int].refs_below(n));
            proof {
                m.param_types@[next as int].lemma_substitute_refs_below(generics@, n);
            }
            let mut ty = m.param_types[next].substitute_generics(generics);
            match param_or_enum(&prow.attributes) {
                Some(name) => {
                    match find_type_def(md, namespace, &name) {
                        Some(d) => {
                            assert(TypeArgs::End.refs_below(n));
                            assert(TypeModel::TypeDef(d, TypeArgs::End).refs_below(n));
                            ty = TypeModel::PrimitiveOrEnum(Box::new(ty), Box::new(TypeModel::TypeDef(d, TypeArgs::End)));
                            assert(ty.refs_below(n));
                        },
                        None => {
                            proof {
                                lemma_build_none(md, namespace@, *m, generics@, (i + 1) as nat, m.params@.len());
                            }
                            return None;
                        },
                    }
                },
                None => {},
            }
            proof {
                lemma_const_type_wf(ty, n);
            }
            if is_const || !is_output {
                ty = ty.to_const_type();
            }
            proof {
                lemma_const_type_wf(ty, n);
            }
            if !is_output {
                ty = ty.to_const_ptr();
            }
            let kind = param_kind(&prow.attributes);
            ps.push(SignatureParam { def: row_index, ty, kind });
            next += 1;
        }
        i += 1;
    }
    let ghost built = ps@;
    let count = ps.len();
    let mut facts: Vec<ParamFacts> = Vec::new();
    let mut kinds: Vec<SignatureParamKind> = Vec::new();
    let mut p: usize = 0;
    while p < count
        invariant
            md.wf(),
            n == md.type_defs@.len(),
            count == ps@.len(),
            0 <= p <= count,
            facts@.len() == p,
            kinds@.len() == p,
            forall|x: int|
                #![trigger ps@[x]]
                0 <= x < ps@.len() ==> ps@[x].def < md.params@.len() && ps@[x].ty.refs_below(n),
            forall|x: int| 0 <= x < p ==> facts@[x] == facts_of(md, #[trigger] ps@[x]),
            forall|x: int| 0 <= x < p ==> kinds@[x] == (#[trigger] ps@[x]).kind,
        decreases count - p,
    {
        let sp = &ps[p];
        assert(*sp == ps@[p as int]);
        facts.push(param_facts(md, sp));
        kinds.push(sp.kind);
        p += 1;
    }
    assert(facts@ =~= Seq::new(ps@.len(), |x: int| facts_of(md, ps@[x])));
    assert(kinds@ =~= Seq::new(ps@.len(), |x: int| ps@[x].kind));
    let pre = match settle_lengths(&facts, kinds) {
        Some(ks) => ks,
        None => {
            return None;
        },
    };
    let mut p: usize = 0;
    while p < count
        invariant
            md.wf(),
            n == md.type_defs@.len(),
            count == ps@.len(),
            pre@.len() == count,
            facts@.len() == count,
            0 <= p <= count,
            forall|x: int|
                #![trigger ps@[x]]
                0 <= x < ps@.len() ==> ps@[x].def < md.params@.len() && ps@[x].ty.refs_below(n),
            forall|x: int| 0 <= x < count ==> facts@[x] == facts_of(md, #[trigger] ps@[x]),
            forall|x: int| 0 <= x < p ==> classify_walk_ends(md, #[trigger] ps@[x], pre@[x]),
            row < md.methods@.len(),
            *m == md.methods@[row as int],
            build_params(md, namespace@, *m, generics@, m.params@.len() as nat) == Some(
                (ret, ps@, next as nat),
            ),
            facts@ == Seq::new(ps@.len(), |x: int| facts_of(md, ps@[x])),
            spec_settle_lengths(facts@, Seq::new(ps@.len(), |x: int| ps@[x].kind)) == Some(pre@),
        decreases count - p,
    {
        let sp = &ps[p];
        assert(*sp == ps@[p as int]);
        if !classify_walk_ends_check(md, sp, &facts[p], pre[p]) {
            assert(!classify_walk_ends(md, ps@[p as int], pre@[p as int]));
            return None;
        }
        p += 1;
    }
    let settled = classify_kinds(&facts, &pre);
    let mut out: Vec<SignatureParam> = Vec::new();
    let mut p: usize = 0;
    while p < count
        invariant
            md.wf(),
            n == md.type_defs@.len(),
            count == ps@.len(),
            settled@.len() == count,
            0 <= p <= count,
            out@.len() == p,
            forall|x: int|
                #![trigger ps@[x]]
                0 <= x < ps@.len() ==> ps@[x].def < md.params@.len() && ps@[x].ty.refs_below(n),
            forall|x: int|
                0 <= x < p ==> #[trigger] out@[x] == (SignatureParam {
                    def: ps@[x].def,
                    ty: ps@[x].ty,
                    kind: settled@[x],
                }),
        decreases count - p,
    {
        let sp = &ps[p];
        assert(*sp == ps@[p as int]);
        out.push(SignatureParam { def: sp.def, ty: sp.ty.copy(), kind: settled[p] });
        p += 1;
    }
    let sig = Signature {
        def: row,
        params: out,
        return_type: ret,
        call_flags: #[verifier::truncate] (m.call_flags as u8),
    };
    assert(sig@.params =~= Seq::new(
        ps@.len(),
        |x: int| SignatureParam { def: ps@[x].def, ty: ps@[x].ty, kind: settled@[x] },
    ));
    Some(sig)
}

/// The signature of the method at `row`, with `generics` standing for the
/// generic parameters of its definition, on metadata where it can be read:
/// where its decoded types do not run out, every associated enumeration is
/// found, every array names a length position in range, and every walk the
/// classification makes ends.
pub fn method_def_signature(
    md: &Metadata,
    namespace: &str,
    row: usize,
    generics: &Vec<TypeModel>,
) -> (r: Signature)
    requires
        md.wf(),
        row < md.methods@.len(),
        all_refs_below(generics@, md.type_defs@.len()),
        spec_method_def_signature(md, namespace@, row, generics@) is Some,
        signature_walks_end(md, namespace@, row, generics@),
    ensures
        Some(r@) == spec_method_def_signature(md, namespace@, row, generics@),
        signature_wf(md, r@),
{
    match try_method_def_signature(md, namespace, row, generics) {
        Some(s) => s,
        None => vstd::pervasive::unreached(),
    }
}

/// The first of the definition's methods named `Invoke`, if any.
pub open spec fn invoke_from(md: &Metadata, row: int, j: int) -> Option<usize>
    decreases def(md, row).methods@.len() - j,
{
    let methods = def(md, row).methods@;
    if j < 0 || j >= methods.len() {
        None
    } else if md.methods@[methods[j] as int].name@ == "Invoke"@ {
        Some(methods[j])
    } else {
        invoke_from(md, row, j + 1)
    }
}

/// The `Invoke` method of a delegate definition: the first of its methods
/// with that name, or `None` where it has none.
pub fn try_type_def_invoke_method(md: &Metadata, row: usize) -> (r: Option<usize>)
    requires
        md.wf(),
        row < md.type_defs@.len(),
    ensures
        r == invoke_from(md, row as int, 0),
        r matches Some(m) ==> m < md.methods@.len() && md.methods@[m as int].name@ == "Invoke"@,
{
    let methods = &md.type_defs[row].methods;
    let mut j: usize = 0;
    while j < methods.len()
        invariant
            md.wf(),
            row < md.type_defs@.len(),
            *methods == md.type_defs@[row as int].methods,
            0 <= j <= methods@.len(),
            invoke_from(md, row as int, 0) == invoke_from(md, row as int, j as int),
        decreases methods@.len() - j,
    {
        let m = methods[j];
        assert(m < md.methods@.len());
        if name_is(&md.methods[m].name, "Invoke") {
            return Some(m);
        }
        j += 1;
    }
    None
}

/// The `Invoke` method of a delegate definition that has one: the first of its
/// methods with that name.
pub fn type_def_invoke_method(md: &Metadata, row: usize) -> (r: usize)
    requires
        md.wf(),
        row < md.type_defs@.len(),
        invoke_from(md, row as int, 0) is Some,
    ensures
        Some(r) == invoke_from(md, row as int, 0),
        r < md.methods@.len(),
        md.methods@[r as int].name@ == "Invoke"@,
{
    match try_type_def_invoke_method(md, row) {
        Some(m) => m,
        None => vstd::pervasive::unreached(),
    }
}

/// The generic parameters of a definition, as types.
pub fn type_def_generics(md: &Metadata, def_row: usize) -> (r: Vec<TypeModel>)
    requires
        def_row < md.type_defs@.len(),
    ensures
        r@.len() == md.type_defs@[def_row as int].generics@.len(),
        forall|i: int|
            0 <= i < r@.len() ==> #[trigger] r@[i] == TypeModel::GenericParam(
                md.type_defs@[def_row as int].generics@[i],
            ),
{
    let generics = &md.type_defs[def_row].generics;
    let mut r: Vec<TypeModel> = Vec::new();
    let mut i: usize = 0;
    while i < generics.len()
        invariant
            0 <= i <= generics@.len(),
            r@.len() == i,
            forall|x: int| 0 <= x < i ==> #[trigger] r@[x] == TypeModel::GenericParam(generics@[x]),
        decreases generics@.len() - i,
    {
        r.push(TypeModel::GenericParam(generics[i]));
        i += 1;
    }
    r
}


/// A signature parameter read from a Param row other than the return value's;
/// where that row is not an output, its type is not a mutable pointer.
pub open spec fn param_is_read_as_input(md: &Metadata, sp: SignatureParam) -> bool {
    &&& param_row(md, sp).sequence != 0
    &&& !has_flag(param_row(md, sp).flags, PARAM_OUT) ==> !(sp.ty is MutPtr)
}

proof fn lemma_built_params(
    md: &Metadata,
    namespace: Seq<char>,
    m: MethodInfo,
    generics: Seq<TypeModel>,
    k: nat,
)
    ensures
        build_params(md, namespace, m, generics, k) matches Some(st) ==> forall|p: int|
            0 <= p < st.1.len() ==> param_is_read_as_input(md, #[trigger] st.1[p]),
    decreases k,
{
    if k > 0 {
        lemma_built_params(md, namespace, m, generics, (k - 1) as nat);
        match build_params(md, namespace, m, generics, (k - 1) as nat) {
            Some(st) => {
                match build_step(md, namespace, m, generics, st, k - 1) {
                    Some(st2) => {
                        assert forall|p: int| 0 <= p < st2.1.len() implies param_is_read_as_input(
                            md,
                            #[trigger] st2.1[p],
                        ) by {
                            if p < st.1.len() {
                                assert(st2.1[p] == st.1[p]);
                            }
                        }
                    },
                    None => {},
                }
            },
            None => {},
        }
    }
}

/// Every parameter of a method's signature comes from one of its Param rows
/// other than the return value's, and a parameter that is not an output is
/// never passed as a mutable pointer.
pub proof fn law_signature_params_are_inputs_or_outputs(
    md: &Metadata,
    namespace: Seq<char>,
    row: usize,
    generics: Seq<TypeModel>,
)
    ensures
        spec_method_def_signature(md, namespace, row, generics) matches Some(s) ==> forall|p: int|
            0 <= p < s.params.len() ==> param_is_read_as_input(md, #[trigger] s.params[p]),
{
    let m = md.methods@[row as int];
    lemma_built_params(md, namespace, m, generics, m.params@.len());
    match build_params(md, namespace, m, generics, m.params@.len()) {
        Some(st) => {
            match spec_method_def_signature(md, namespace, row, generics) {
                Some(s) => {
                    assert forall|p: int| 0 <= p < s.params.len() implies param_is_read_as_input(
                        md,
                        #[trigger] s.params[p],
                    ) by {
                        assert(param_is_read_as_input(md, st.1[p]));
                    }
                },
                None => {},
            }
        },
        None => {},
    }
}

proof fn lemma_last_query_found(md: &Metadata, ps: Seq<SignatureParam>)
    requires
        ps.len() <= usize::MAX,
    ensures
        last_query_guid(md, ps) matches Some(i) ==> is_query_guid(md, ps[i as int]),
        last_query_object(md, ps) matches Some(i) ==> is_query_object(md, ps[i as int]),
    decreases ps.len(),
{
    if ps.len() > 0 {
        lemma_last_query_found(md, ps.drop_last());
        lemma_last_query_below(md, ps.drop_last());
        if let Some(i) = last_query_guid(md, ps.drop_last()) {
            if !is_query_guid(md, ps.last()) {
                assert(ps[i as int] == ps.drop_last()[i as int]);
            }
        }
        if let Some(i) = last_query_object(md, ps.drop_last()) {
            if !is_query_object(md, ps.last()) {
                assert(ps[i as int] == ps.drop_last()[i as int]);
            }
        }
    }
}

/// The signature returns an `HRESULT` and the query positions name its
/// interface-id and object parameters.
pub open spec fn query_params_named(md: &Metadata, s: SignatureView, q: QueryPosition) -> bool {
    &&& s.return_type == TypeModel::HResult
    &&& is_query_guid(md, s.params[q.guid as int])
    &&& is_query_object(md, s.params[q.object as int])
}

/// A query signature names, as its interface id, an input `*const GUID`
/// parameter and, as its object, a `*mut *mut c_void` parameter marked
/// `ComOutPtrAttribute`, and returns an `HRESULT`.
pub proof fn law_query_positions_name_query_params(md: &Metadata, s: SignatureView)
    requires
        s.params.len() <= usize::MAX,
    ensures
        match spec_signature_kind(md, s) {
            SignatureKind::Query(q) => query_params_named(md, s, q),
            SignatureKind::QueryOptional(q) => query_params_named(md, s, q),
            _ => true,
        },
{
    lemma_last_query_found(md, s.params);
}

/// The kinds of a signature's parameters, in order.
pub open spec fn param_kinds(ps: Seq<SignatureParam>) -> Seq<SignatureParamKind> {
    Seq::new(ps.len(), |p: int| ps[p].kind)
}

/// In every signature of a method, each array parameter names a length
/// parameter in range other than itself, and no two arrays name the same one.
pub proof fn law_signature_lengths_distinct(
    md: &Metadata,
    namespace: Seq<char>,
    row: usize,
    generics: Seq<TypeModel>,
)
    ensures
        spec_method_def_signature(md, namespace, row, generics) matches Some(s) ==> lengths_distinct(
            param_kinds(s.params),
        ),
{
    let m = md.methods@[row as int];
    match build_params(md, namespace, m, generics, m.params@.len()) {
        Some(st) => {
            let ps = st.1;
            let facts = Seq::new(ps.len(), |p: int| facts_of(md, ps[p]));
            let kinds = Seq::new(ps.len(), |p: int| ps[p].kind);
            match spec_resolve(facts, kinds) {
                Some(ks) => {
                    crate::params::lemma_resolve_len(facts, kinds);
                    law_lengths_distinct(facts, kinds);
                    let s = spec_method_def_signature(md, namespace, row, generics).unwrap();
                    assert(param_kinds(s.params) =~= ks);
                },
                None => {},
            }
        },
        None => {},
    }
}


/// Law: where a parameter other than the last is an output, the signature
/// does not return its last parameter as its value: it is not a retval
/// signature, its pattern is neither `ResultValue` nor `ReturnValue`, and an
/// `HRESULT` signature that is not a query and does not return several
/// success values is `ResultVoid`.
pub proof fn law_earlier_output_rules_out_retval(md: &Metadata, s: SignatureView, p: int)
    requires
        0 <= p < s.params.len() - 1,
        param_row(md, s.params[p]).flags & PARAM_OUT == PARAM_OUT,
    ensures
        !spec_signature_is_retval(md, s),
        spec_signature_kind(md, s) != SignatureKind::ResultValue,
        spec_signature_kind(md, s) != SignatureKind::ReturnValue,
        s.return_type == TypeModel::HResult && !spec_has_attribute(
            md.methods@[s.def as int].attributes@,
            "CanReturnMultipleSuccessValuesAttribute"@,
        ) && !(spec_signature_kind(md, s) is Query) && !(spec_signature_kind(md, s) is QueryOptional)
            ==> spec_signature_kind(md, s) == SignatureKind::ResultVoid,
{
    assert(has_flag(param_row(md, s.params[p]).flags, PARAM_OUT));
}

proof fn lemma_last_query_positions(md: &Metadata, ps: Seq<SignatureParam>)
    requires
        ps.len() <= usize::MAX,
    ensures
        match last_query_guid(md, ps) {
            Some(i) => {
                &&& i < ps.len()
                &&& ps[i as int].ty == TypeModel::ConstPtr(Box::new(TypeModel::Guid), 1)
                &&& param_row(md, ps[i as int]).flags & PARAM_OUT != PARAM_OUT
                &&& forall|j: int|
                    i < j < ps.len() ==> !(#[trigger] ps[j].ty == TypeModel::ConstPtr(
                        Box::new(TypeModel::Guid),
                        1,
                    ) && param_row(md, ps[j]).flags & PARAM_OUT != PARAM_OUT)
            },
            None => forall|j: int|
                0 <= j < ps.len() ==> !(#[trigger] ps[j].ty == TypeModel::ConstPtr(
                    Box::new(TypeModel::Guid),
                    1,
                ) && param_row(md, ps[j]).flags & PARAM_OUT != PARAM_OUT),
        },
        match last_query_object(md, ps) {
            Some(i) => {
                &&& i < ps.len()
                &&& ps[i as int].ty == TypeModel::MutPtr(Box::new(TypeModel::Void), 2)
                &&& spec_has_attribute(param_row(md, ps[i as int]).attributes@, "ComOutPtrAttribute"@)
                &&& forall|j: int|
                    i < j < ps.len() ==> !(#[trigger] ps[j].ty == TypeModel::MutPtr(
                        Box::new(TypeModel::Void),
                        2,
                    ) && spec_has_attribute(param_row(md, ps[j]).attributes@, "ComOutPtrAttribute"@))
            },
            None => forall|j: int|
                0 <= j < ps.len() ==> !(#[trigger] ps[j].ty == TypeModel::MutPtr(
                    Box::new(TypeModel::Void),
                    2,
                ) && spec_has_attribute(param_row(md, ps[j]).attributes@, "ComOutPtrAttribute"@)),
        },
    decreases ps.len(),
{
    if ps.len() > 0 {
        let q = ps.drop_last();
        lemma_last_query_positions(md, q);
        assert(has_flag(param_row(md, ps.last()).flags, PARAM_OUT) == (param_row(md, ps.last()).flags
            & PARAM_OUT == PARAM_OUT));
        assert forall|j: int| 0 <= j < q.len() implies #[trigger] ps[j] == q[j] by {}
    }
}

/// Law: the interface-id position of a query is the last input `*const GUID`
/// parameter, and its object position the last `*mut *mut c_void` parameter
/// marked `ComOutPtrAttribute`: no parameter after either position is one of
/// that shape; where none is, there is no such position.
pub proof fn law_query_positions_are_last(md: &Metadata, ps: Seq<SignatureParam>, j: int)
    requires
        ps.len() <= usize::MAX,
        0 <= j < ps.len(),
        ps[j].ty == TypeModel::ConstPtr(Box::new(TypeModel::Guid), 1),
        param_row(md, ps[j]).flags & PARAM_OUT != PARAM_OUT,
    ensures
        last_query_guid(md, ps) matches Some(i) && j <= i,
{
    lemma_last_query_positions(md, ps);
}

/// Law: in a query signature, no parameter after the interface-id position is
/// an input `*const GUID`, and none after the object position is a
/// `*mut *mut c_void` marked `ComOutPtrAttribute`.
pub proof fn law_query_signature_takes_last_positions(md: &Metadata, s: SignatureView, j: int)
    requires
        s.params.len() <= usize::MAX,
        0 <= j < s.params.len(),
    ensures
        match spec_signature_kind(md, s) {
            SignatureKind::Query(q) => {
                &&& q.guid < j ==> !(s.params[j].ty == TypeModel::ConstPtr(Box::new(TypeModel::Guid), 1)
                    && param_row(md, s.params[j]).flags & PARAM_OUT != PARAM_OUT)
                &&& q.object < j ==> !(s.params[j].ty == TypeModel::MutPtr(Box::new(TypeModel::Void), 2)
                    && spec_has_attribute(param_row(md, s.params[j]).attributes@, "ComOutPtrAttribute"@))
            },
            SignatureKind::QueryOptional(q) => {
                &&& q.guid < j ==> !(s.params[j].ty == TypeModel::ConstPtr(Box::new(TypeModel::Guid), 1)
                    && param_row(md, s.params[j]).flags & PARAM_OUT != PARAM_OUT)
                &&& q.object < j ==> !(s.params[j].ty == TypeModel::MutPtr(Box::new(TypeModel::Void), 2)
                    && spec_has_attribute(param_row(md, s.params[j]).attributes@, "ComOutPtrAttribute"@))
            },
            _ => true,
        },
{
    lemma_last_query_positions(md, s.params);
}

/// Law: an input parameter whose type is a class or an interface, not yet
/// settled, is converted by the caller: it settles as `IntoParam` or
/// `TryInto`, never as a value; where the definition lacks the
/// `WindowsRuntime` flag it settles as `IntoParam`.
pub proof fn law_interface_inputs_are_converted(
    md: &Metadata,
    sp: SignatureParam,
    i: usize,
    a: TypeArgs,
)
    requires
        sp.ty == TypeModel::TypeDef(i, a),
        def(md, i as int).kind == TypeKind::Class || def(md, i as int).kind == TypeKind::Interface,
        param_row(md, sp).flags & PARAM_OUT != PARAM_OUT,
    ensures
        classify(facts_of(md, sp), SignatureParamKind::Other) == SignatureParamKind::IntoParam
            || classify(facts_of(md, sp), SignatureParamKind::Other) == SignatureParamKind::TryInto,
        def(md, i as int).flags & WINDOWS_RUNTIME != WINDOWS_RUNTIME ==> classify(
            facts_of(md, sp),
            SignatureParamKind::Other,
        ) == SignatureParamKind::IntoParam,
{
    law_classes_and_interfaces_are_borrowed(md, i, a, type_fuel(md));
    if def(md, i as int).flags & WINDOWS_RUNTIME != WINDOWS_RUNTIME {
        law_win32_definitions_are_not_winrt_interfaces(md, i, a);
    }
    assert(!has_flag(param_row(md, sp).flags, PARAM_OUT));
}
} // verus!
