use riddle_metadata::kinds::{QueryPosition, SignatureKind, SignatureParamKind};
use riddle_metadata::model::{
    ArgValue, AttributeInfo, Metadata, MethodInfo, ParamInfo, TypeDefInfo, TypeKind, TypeModel, TypeArgs,
};
use riddle_metadata::signature::{
    method_def_last_error, method_def_signature, signature_is_retval, signature_kind,
    signature_param_is_borrowed, signature_param_is_convertible, signature_param_is_query_guid,
    signature_param_is_query_object, signature_param_is_retval, type_def_generics,
    type_def_invoke_method, find_type_def, try_method_def_signature, try_type_def_invoke_method,
    Signature,
};

const IN: u16 = 0x1;
const OUT: u16 = 0x2;
const OPTIONAL: u16 = 0x10;

fn attr(name: &str, args: Vec<ArgValue>) -> AttributeInfo {
    AttributeInfo { name: name.to_string(), args }
}

fn def(ns: &str, name: &str, kind: TypeKind, attrs: Vec<AttributeInfo>) -> TypeDefInfo {
    TypeDefInfo {
        namespace: ns.to_string(),
        name: name.to_string(),
        flags: 0,
        kind,
        attributes: attrs,
        fields: vec![],
        generics: vec![],
        methods: vec![],
        same_name: vec![],
        size: 4,
    }
}

fn param(flags: u16, sequence: u16, attrs: Vec<AttributeInfo>) -> ParamInfo {
    ParamInfo { flags, sequence, attributes: attrs }
}

fn method(name: &str, ret: TypeModel, types: Vec<TypeModel>, params: Vec<usize>) -> MethodInfo {
    MethodInfo {
        name: name.to_string(),
        attributes: vec![],
        impl_map_flags: None,
        call_flags: 0x20,
        return_type: ret,
        param_types: types,
        params,
    }
}

fn ptr(t: TypeModel, n: usize) -> TypeModel {
    TypeModel::MutPtr(Box::new(t), n)
}

fn cptr(t: TypeModel, n: usize) -> TypeModel {
    TypeModel::ConstPtr(Box::new(t), n)
}

/// Type definitions used by the methods below.
fn defs() -> Vec<TypeDefInfo> {
    vec![
        def("Windows.Win32.Foundation", "NTSTATUS", TypeKind::Struct, vec![attr("NativeTypedefAttribute", vec![])]),
        def("Windows.Win32.Foundation", "BOOL", TypeKind::Struct, vec![attr("NativeTypedefAttribute", vec![])]),
        def("Windows.Win32.Foundation", "WIN32_ERROR", TypeKind::Enum, vec![]),
        def("Windows.Win32.Foundation", "RECT", TypeKind::Struct, vec![]),
        def("Windows.Win32.Storage", "FILE_FLAGS", TypeKind::Enum, vec![]),
        def("Windows.Win32.Storage", "PFN_DONE", TypeKind::Delegate, vec![]),
    ]
}

fn one_method(m: MethodInfo, params: Vec<ParamInfo>) -> Metadata {
    Metadata { type_defs: defs(), methods: vec![m], params }
}

fn kinds(s: &Signature) -> Vec<SignatureParamKind> {
    s.params.iter().map(|p| p.kind).collect()
}

fn query_interface() -> Metadata {
    one_method(
        method(
            "QueryInterface",
            TypeModel::HResult,
            vec![cptr(TypeModel::Guid, 1), ptr(TypeModel::Void, 2)],
            vec![0, 1],
        ),
        vec![
            param(IN, 1, vec![]),
            param(OUT, 2, vec![attr("ComOutPtrAttribute", vec![])]),
        ],
    )
}

#[test]
fn query_signature_finds_guid_and_object() {
    let md = query_interface();
    let s = method_def_signature(&md, "Windows.Win32.System.Com", 0, &vec![]);
    assert_eq!(s.def, 0);
    assert_eq!(s.call_flags, 0x20);
    assert!(s.params[0].ty == cptr(TypeModel::Guid, 1));
    assert!(s.params[1].ty == ptr(TypeModel::Void, 2));
    assert!(kinds(&s) == vec![SignatureParamKind::ValueType, SignatureParamKind::ValueType]);
    assert_eq!(signature_param_is_query_guid(&md, &s.params), Some(0));
    assert_eq!(signature_param_is_query_object(&md, &s.params), Some(1));
    assert!(signature_kind(&md, &s) == SignatureKind::Query(QueryPosition { object: 1, guid: 0 }));
}

#[test]
fn optional_query_object() {
    let mut md = query_interface();
    md.params[1].flags = OUT | OPTIONAL;
    let s = method_def_signature(&md, "Ns", 0, &vec![]);
    assert!(signature_kind(&md, &s) == SignatureKind::QueryOptional(QueryPosition { object: 1, guid: 0 }));
}

#[test]
fn out_pointer_last_is_result_value() {
    let md = one_method(
        method("GetCount", TypeModel::HResult, vec![ptr(TypeModel::U32, 1)], vec![0]),
        vec![param(OUT, 1, vec![])],
    );
    let s = method_def_signature(&md, "Ns", 0, &vec![]);
    assert!(signature_param_is_retval(&md, &s.params[0]));
    assert!(signature_is_retval(&md, &s));
    assert!(signature_kind(&md, &s) == SignatureKind::ResultValue);
}

#[test]
fn void_returns() {
    let md = one_method(method("Close", TypeModel::Void, vec![], vec![]), vec![]);
    let s = method_def_signature(&md, "Ns", 0, &vec![]);
    assert!(!signature_is_retval(&md, &s));
    assert!(signature_kind(&md, &s) == SignatureKind::ReturnVoid);
    let md = one_method(
        method("GetName", TypeModel::Void, vec![ptr(TypeModel::Guid, 1)], vec![0]),
        vec![param(OUT, 1, vec![])],
    );
    let s = method_def_signature(&md, "Ns", 0, &vec![]);
    assert!(signature_kind(&md, &s) == SignatureKind::ReturnValue);
}

#[test]
fn large_or_input_pointers_are_not_return_values() {
    let mut big = defs();
    big[3].size = 32;
    let md = Metadata {
        type_defs: big,
        methods: vec![method("GetRect", TypeModel::HResult, vec![ptr(TypeModel::TypeDef(3, TypeArgs::End), 1)], vec![0])],
        params: vec![param(OUT, 1, vec![])],
    };
    let s = method_def_signature(&md, "Ns", 0, &vec![]);
    assert!(!signature_param_is_retval(&md, &s.params[0]));
    assert!(signature_kind(&md, &s) == SignatureKind::ResultVoid);
    let md = one_method(
        method("SetCount", TypeModel::HResult, vec![ptr(TypeModel::U32, 1)], vec![0]),
        vec![param(IN | OUT, 1, vec![])],
    );
    let s = method_def_signature(&md, "Ns", 0, &vec![]);
    assert!(!signature_is_retval(&md, &s));
    let md = one_method(
        method("GetCallback", TypeModel::HResult, vec![ptr(TypeModel::TypeDef(5, TypeArgs::End), 1)], vec![0]),
        vec![param(OUT, 1, vec![])],
    );
    let s = method_def_signature(&md, "Ns", 0, &vec![]);
    assert!(!signature_param_is_retval(&md, &s.params[0]));
}

#[test]
fn ret_val_attribute_marks_return_value() {
    let md = one_method(
        method("Get", TypeModel::HResult, vec![TypeModel::U32], vec![0]),
        vec![param(IN, 1, vec![attr("RetValAttribute", vec![])])],
    );
    let s = method_def_signature(&md, "Ns", 0, &vec![]);
    assert!(signature_param_is_retval(&md, &s.params[0]));
}

#[test]
fn error_code_returns_are_result_void() {
    let md = one_method(method("NtClose", TypeModel::TypeDef(0, TypeArgs::End), vec![], vec![]), vec![]);
    let s = method_def_signature(&md, "Ns", 0, &vec![]);
    assert!(signature_kind(&md, &s) == SignatureKind::ResultVoid);
    let md = one_method(method("RegClose", TypeModel::TypeDef(2, TypeArgs::End), vec![], vec![]), vec![]);
    let s = method_def_signature(&md, "Ns", 0, &vec![]);
    assert!(signature_kind(&md, &s) == SignatureKind::ResultVoid);
}

#[test]
fn bool_return_depends_on_last_error() {
    let mut m = method("CloseHandle", TypeModel::TypeDef(1, TypeArgs::End), vec![], vec![]);
    m.impl_map_flags = Some(0x40 | 0x100);
    let md = one_method(m, vec![]);
    assert!(method_def_last_error(&md, 0));
    let s = method_def_signature(&md, "Ns", 0, &vec![]);
    assert!(signature_kind(&md, &s) == SignatureKind::ResultVoid);
    let mut m = method("IsWindow", TypeModel::TypeDef(1, TypeArgs::End), vec![], vec![]);
    m.impl_map_flags = Some(0x100);
    let md = one_method(m, vec![]);
    assert!(!method_def_last_error(&md, 0));
    let s = method_def_signature(&md, "Ns", 0, &vec![]);
    assert!(signature_kind(&md, &s) == SignatureKind::PreserveSig);
}

#[test]
fn struct_and_plain_returns() {
    let md = one_method(method("GetRect", TypeModel::TypeDef(3, TypeArgs::End), vec![], vec![]), vec![]);
    let s = method_def_signature(&md, "Ns", 0, &vec![]);
    assert!(signature_kind(&md, &s) == SignatureKind::ReturnStruct);
    let md = one_method(method("GetGuid", TypeModel::Guid, vec![], vec![]), vec![]);
    let s = method_def_signature(&md, "Ns", 0, &vec![]);
    assert!(signature_kind(&md, &s) == SignatureKind::ReturnStruct);
    let md = one_method(method("GetTick", TypeModel::U32, vec![], vec![]), vec![]);
    let s = method_def_signature(&md, "Ns", 0, &vec![]);
    assert!(signature_kind(&md, &s) == SignatureKind::PreserveSig);
}

#[test]
fn multiple_success_values_preserve_signature() {
    let mut md = query_interface();
    md.methods[0].attributes = vec![attr("CanReturnMultipleSuccessValuesAttribute", vec![])];
    let s = method_def_signature(&md, "Ns", 0, &vec![]);
    assert!(signature_kind(&md, &s) == SignatureKind::PreserveSig);
}

#[test]
fn inputs_become_const_and_outputs_stay_mutable() {
    let md = one_method(
        method("Copy", TypeModel::Void, vec![ptr(TypeModel::U8, 1), TypeModel::Pstr, ptr(TypeModel::Pwstr, 1)], vec![0, 1, 2]),
        vec![param(IN, 1, vec![]), param(IN, 2, vec![]), param(OUT, 3, vec![])],
    );
    let s = method_def_signature(&md, "Ns", 0, &vec![]);
    assert!(s.params[0].ty == cptr(TypeModel::U8, 1));
    assert!(s.params[1].ty == TypeModel::Pcstr);
    assert!(s.params[2].ty == ptr(TypeModel::Pwstr, 1));
}

#[test]
fn const_return_row_makes_return_type_const() {
    let md = one_method(
        method("GetText", TypeModel::Pwstr, vec![], vec![0]),
        vec![param(0, 0, vec![attr("ConstAttribute", vec![])])],
    );
    let s = method_def_signature(&md, "Ns", 0, &vec![]);
    assert!(s.return_type == TypeModel::Pcwstr);
    assert!(s.params.is_empty());
}

#[test]
fn const_output_becomes_const_type() {
    let md = one_method(
        method("Peek", TypeModel::Void, vec![ptr(TypeModel::Pstr, 1)], vec![0]),
        vec![param(OUT, 1, vec![attr("ConstAttribute", vec![])])],
    );
    let s = method_def_signature(&md, "Ns", 0, &vec![]);
    assert!(s.params[0].ty == ptr(TypeModel::Pcstr, 1));
}

#[test]
fn associated_enum_wraps_the_type() {
    let md = one_method(
        method("Open", TypeModel::Void, vec![TypeModel::U32], vec![0]),
        vec![param(IN, 1, vec![attr("AssociatedEnumAttribute", vec![ArgValue::Str("FILE_FLAGS".to_string())])])],
    );
    let s = method_def_signature(&md, "Windows.Win32.Storage", 0, &vec![]);
    assert!(s.params[0].ty == TypeModel::PrimitiveOrEnum(Box::new(TypeModel::U32), Box::new(TypeModel::TypeDef(4, TypeArgs::End))));
    assert!(s.params[0].kind == SignatureParamKind::Blittable);
    assert!(try_method_def_signature(&md, "Windows.Win32.Other", 0, &vec![]).is_none());
    assert!(try_method_def_signature(&md, "", 0, &vec![]).is_none());
}

#[test]
fn missing_parameter_type_fails() {
    let md = one_method(
        method("Broken", TypeModel::Void, vec![], vec![0]),
        vec![param(IN, 1, vec![])],
    );
    assert!(try_method_def_signature(&md, "Ns", 0, &vec![]).is_none());
}

#[test]
fn array_with_length_parameter() {
    let md = one_method(
        method("Write", TypeModel::HResult, vec![ptr(TypeModel::U8, 1), TypeModel::U32], vec![0, 1]),
        vec![
            param(IN, 1, vec![attr("MemorySizeAttribute", vec![ArgValue::I16(1)])]),
            param(IN, 2, vec![]),
        ],
    );
    let s = method_def_signature(&md, "Ns", 0, &vec![]);
    assert!(kinds(&s) == vec![SignatureParamKind::ArrayRelativeByteLen(1), SignatureParamKind::ArrayRelativePtr(0)]);
    let bad = one_method(
        method("Write", TypeModel::HResult, vec![ptr(TypeModel::U8, 1)], vec![0]),
        vec![param(IN, 1, vec![attr("NativeArrayInfoAttribute", vec![ArgValue::I16(7)])])],
    );
    assert!(try_method_def_signature(&bad, "Ns", 0, &vec![]).is_none());
}

#[test]
fn convertible_and_borrowed_parameters() {
    let md = one_method(
        method("SetName", TypeModel::Void, vec![TypeModel::Pcwstr, ptr(TypeModel::Pwstr, 1)], vec![0, 1]),
        vec![param(IN, 1, vec![]), param(OUT, 2, vec![])],
    );
    let s = method_def_signature(&md, "Ns", 0, &vec![]);
    assert!(signature_param_is_borrowed(&md, &s.params[0]));
    assert!(signature_param_is_convertible(&md, &s.params[0]));
    assert!(s.params[0].kind == SignatureParamKind::IntoParam);
    assert!(!signature_param_is_convertible(&md, &s.params[1]));
}

#[test]
fn invoke_method_and_generics() {
    let mut tds = defs();
    tds[5].methods = vec![0, 1];
    tds[5].generics = vec![0, 1];
    let md = Metadata {
        type_defs: tds,
        methods: vec![
            method(".ctor", TypeModel::Void, vec![], vec![]),
            method("Invoke", TypeModel::Void, vec![], vec![]),
        ],
        params: vec![],
    };
    assert_eq!(type_def_invoke_method(&md, 5), 1);
    assert_eq!(try_type_def_invoke_method(&md, 5), Some(1));
    assert_eq!(try_type_def_invoke_method(&md, 0), None);
    let g = type_def_generics(&md, 5);
    assert!(g == vec![TypeModel::GenericParam(0), TypeModel::GenericParam(1)]);
}

#[test]
fn definitions_are_found_as_a_reader_lists_them() {
    let mut type_defs = defs();
    type_defs.push(def("Windows.Foundation.Collections", "IVector`1", TypeKind::Interface, vec![]));
    type_defs.push(def("Windows.Win32.Storage", "Apis", TypeKind::Class, vec![]));
    type_defs.push(def("", "NESTED", TypeKind::Struct, vec![]));
    type_defs.push(def("Windows.Win32.Storage", "FILE_FLAGS", TypeKind::Enum, vec![]));
    let md = Metadata { type_defs, methods: vec![], params: vec![] };
    let name = |s: &str| s.to_string();
    assert_eq!(find_type_def(&md, "Windows.Foundation.Collections", &name("IVector")), Some(6));
    assert_eq!(find_type_def(&md, "Windows.Foundation.Collections", &name("IVector`1")), None);
    assert_eq!(find_type_def(&md, "Windows.Win32.Storage", &name("Apis")), None);
    assert_eq!(find_type_def(&md, "", &name("NESTED")), None);
    assert_eq!(find_type_def(&md, "Windows.Win32.Storage", &name("FILE_FLAGS")), Some(4));
    assert_eq!(find_type_def(&md, "Windows.Win32.Storage", &name("PFN_DONE")), Some(5));
    assert_eq!(find_type_def(&md, "Windows.Win32", &name("PFN_DONE")), None);
}

#[test]
fn arity_suffix_is_cut_only_after_an_ascii_last_character() {
    let type_defs = vec![
        def("N", "A`é", TypeKind::Enum, vec![]),
        def("N", "B`2", TypeKind::Enum, vec![]),
    ];
    let md = Metadata { type_defs, methods: vec![], params: vec![] };
    let name = |s: &str| s.to_string();
    assert_eq!(find_type_def(&md, "N", &name("A")), None);
    assert_eq!(find_type_def(&md, "N", &name("A`é")), Some(0));
    assert_eq!(find_type_def(&md, "N", &name("B")), Some(1));
    assert_eq!(find_type_def(&md, "N", &name("B`2")), None);
}

#[test]
fn generic_parameters_take_the_given_types() {
    let m = method(
        "GetAt",
        TypeModel::HResult,
        vec![TypeModel::U32, ptr(TypeModel::GenericParam(0), 1), TypeModel::GenericParam(1)],
        vec![0, 1, 2],
    );
    let md = one_method(m, vec![param(IN, 1, vec![]), param(OUT, 2, vec![]), param(IN, 3, vec![])]);
    let s = method_def_signature(&md, "Ns", 0, &vec![TypeModel::HString]);
    assert!(s.params[1].ty == ptr(TypeModel::HString, 1));
    // A parameter numbered past the given types becomes `Void`.
    assert!(s.params[2].ty == TypeModel::Void);
    let own = method_def_signature(&md, "Ns", 0, &vec![TypeModel::GenericParam(0), TypeModel::GenericParam(1)]);
    assert!(own.params[1].ty == ptr(TypeModel::GenericParam(0), 1));
    assert!(own.params[2].ty == TypeModel::GenericParam(1));
}

#[test]
fn generic_instances_keep_their_type_arguments() {
    let args = |t: TypeModel| TypeArgs::Arg(Box::new(t), Box::new(TypeArgs::End));
    let m = method(
        "Append",
        TypeModel::HResult,
        vec![TypeModel::TypeDef(3, args(TypeModel::GenericParam(0)))],
        vec![0],
    );
    let md = one_method(m, vec![param(IN, 1, vec![])]);
    let s = method_def_signature(&md, "Ns", 0, &vec![TypeModel::HString]);
    assert!(s.params[0].ty == TypeModel::TypeDef(3, args(TypeModel::HString)));
    let own = method_def_signature(&md, "Ns", 0, &vec![TypeModel::GenericParam(0)]);
    assert!(own.params[0].ty == TypeModel::TypeDef(3, args(TypeModel::GenericParam(0))));
    assert!(own.params[0].ty != TypeModel::TypeDef(3, TypeArgs::End));
}

#[test]
fn signature_whose_walk_does_not_end_is_not_read() {
    let mut type_defs = defs();
    let mut looped = def("Rt", "Loop", TypeKind::Struct, vec![]);
    looped.flags = 0x4000;
    looped.fields = vec![TypeModel::TypeDef(6, TypeArgs::End)];
    type_defs.push(looped);
    let m = method("Take", TypeModel::HResult, vec![TypeModel::TypeDef(6, TypeArgs::End)], vec![0]);
    let md = Metadata { type_defs, methods: vec![m], params: vec![param(IN, 1, vec![])] };
    assert!(try_method_def_signature(&md, "Ns", 0, &vec![]).is_none());
    // As an output the parameter is never classified by a walk.
    let m = method("Give", TypeModel::HResult, vec![ptr(TypeModel::TypeDef(6, TypeArgs::End), 1)], vec![0]);
    let mut md = md;
    md.methods = vec![m];
    md.params = vec![param(OUT, 1, vec![attr("ReservedAttribute", vec![])])];
    let s = try_method_def_signature(&md, "Ns", 0, &vec![]).unwrap();
    assert!(s.params[0].kind == SignatureParamKind::OptionalPointer);
}
