use riddle_metadata::model::{AttributeInfo, Metadata, TypeDefInfo, TypeKind, TypeModel, TypeArgs};
use riddle_metadata::types::{
    blittable_walk_ends_from, callback_walk_ends_from,
    type_def_has_callback, type_def_is_callback, type_def_is_handle, type_has_callback,
    type_is_blittable, type_is_borrowed, type_is_callback, type_is_non_exclusive_winrt_interface,
    type_is_primitive, type_is_struct, type_is_trivially_convertible, type_size,
};

const WINRT: u32 = 0x4000;

fn attr(name: &str) -> AttributeInfo {
    AttributeInfo { name: name.to_string(), args: vec![] }
}

fn def(ns: &str, name: &str, kind: TypeKind, flags: u32, attrs: Vec<&str>, fields: Vec<TypeModel>) -> TypeDefInfo {
    TypeDefInfo {
        namespace: ns.to_string(),
        name: name.to_string(),
        flags,
        kind,
        attributes: attrs.into_iter().map(attr).collect(),
        fields,
        generics: vec![],
        methods: vec![],
        same_name: vec![],
        size: 8,
    }
}

fn td(i: usize) -> TypeModel {
    TypeModel::TypeDef(i, TypeArgs::End)
}

fn metadata() -> Metadata {
    let mut defs = vec![
        // 0: a Win32 callback
        def("Win", "PFN", TypeKind::Delegate, 0, vec![], vec![]),
        // 1: a Win32 struct holding the callback
        def("Win", "HOLDER", TypeKind::Struct, 0, vec![], vec![TypeModel::U32, td(0)]),
        // 2: a Win32 struct holding an array of holders
        def("Win", "OUTER", TypeKind::Struct, 0, vec![], vec![TypeModel::Win32Array(Box::new(td(1)), 4)]),
        // 3: a handle
        def("Win", "HANDLE", TypeKind::Struct, 0, vec!["NativeTypedefAttribute"], vec![TypeModel::ISize]),
        // 4: a WinRT struct of numbers
        def("Rt", "Point", TypeKind::Struct, WINRT, vec![], vec![TypeModel::Float32, TypeModel::Float32]),
        // 5: a WinRT struct holding a string
        def("Rt", "Named", TypeKind::Struct, WINRT, vec![], vec![TypeModel::HString]),
        // 6: a WinRT interface exclusive to a class
        def("Rt", "IExclusive", TypeKind::Interface, WINRT, vec!["ExclusiveToAttribute"], vec![]),
        // 7: a WinRT interface
        def("Rt", "IShared", TypeKind::Interface, WINRT, vec![], vec![]),
        // 8: a composable WinRT class
        def("Rt", "Base", TypeKind::Class, WINRT, vec!["ComposableAttribute"], vec![]),
        // 9: a WinRT struct containing itself
        def("Rt", "Loop", TypeKind::Struct, WINRT, vec![], vec![td(9)]),
        // 10: an enumeration
        def("Win", "FLAGS", TypeKind::Enum, 0, vec![], vec![TypeModel::U32]),
        // 11: a WinRT delegate
        def("Rt", "Handler", TypeKind::Delegate, WINRT, vec![], vec![]),
    ];
    defs[1].same_name = vec![1];
    defs[2].same_name = vec![2];
    Metadata { type_defs: defs, methods: vec![], params: vec![] }
}

#[test]
fn callbacks_and_structs_holding_them() {
    let md = metadata();
    assert!(type_def_is_callback(&md, 0));
    assert!(!type_def_is_callback(&md, 11));
    assert!(type_is_callback(&md, &td(0)));
    assert!(!type_is_callback(&md, &td(1)));
    assert!(type_def_has_callback(&md, 0));
    assert!(type_def_has_callback(&md, 1));
    assert!(type_def_has_callback(&md, 2));
    assert!(type_has_callback(&md, &TypeModel::Win32Array(Box::new(td(1)), 2)));
    assert!(!type_def_has_callback(&md, 3));
    assert!(!type_has_callback(&md, &TypeModel::MutPtr(Box::new(td(0)), 1)));
}

#[test]
fn struct_in_namespace_checks_every_definition_with_its_name() {
    let mut md = metadata();
    // Two definitions of one name: the first without callback, the second with.
    md.type_defs.push(def("Win", "ARCH", TypeKind::Struct, 0, vec![], vec![TypeModel::U8]));
    md.type_defs.push(def("Win", "ARCH", TypeKind::Struct, 0, vec![], vec![td(0)]));
    md.type_defs[12].same_name = vec![12, 13];
    md.type_defs[13].same_name = vec![12, 13];
    assert!(type_def_has_callback(&md, 12));
    // Without a namespace only the definition's own fields count.
    md.type_defs[12].namespace = String::new();
    assert!(!type_def_has_callback(&md, 12));
}

#[test]
fn blittable_types() {
    let md = metadata();
    assert!(type_is_blittable(&md, &td(4)));
    assert!(!type_is_blittable(&md, &td(5)));
    assert!(type_is_blittable(&md, &td(1)));
    assert!(type_is_blittable(&md, &td(10)));
    assert!(type_is_blittable(&md, &td(0)));
    assert!(!type_is_blittable(&md, &td(11)));
    assert!(!type_is_blittable(&md, &td(7)));
    assert!(!type_is_blittable(&md, &TypeModel::HString));
    assert!(!type_is_blittable(&md, &TypeModel::WinrtArray(Box::new(TypeModel::IInspectable))));
    assert!(type_is_blittable(&md, &TypeModel::Win32Array(Box::new(TypeModel::U8), 3)));
    assert!(type_is_blittable(&md, &TypeModel::MutPtr(Box::new(TypeModel::HString), 1)));
    // The walk from a struct that contains itself does not end.
    assert!(!blittable_walk_ends_from(&md, &td(9)));
    assert!(blittable_walk_ends_from(&md, &td(4)));
    assert!(blittable_walk_ends_from(&md, &TypeModel::WinrtArray(Box::new(td(9)))) == false);
}

#[test]
fn walks_stop_at_the_first_deciding_field() {
    let mut md = metadata();
    // A WinRT struct whose first field is a string and whose second field is
    // itself: the first field decides, so the walk ends.
    md.type_defs.push(def("Rt", "Early", TypeKind::Struct, WINRT, vec![], vec![TypeModel::HString, td(12)]));
    md.type_defs[12].same_name = vec![12];
    assert!(blittable_walk_ends_from(&md, &td(12)));
    assert!(!type_is_blittable(&md, &td(12)));
    // A struct whose first field has a callback and whose second field is
    // itself: the callback decides, so the walk ends.
    md.type_defs.push(def("Win", "CB", TypeKind::Struct, 0, vec![], vec![td(0), td(13)]));
    md.type_defs[13].same_name = vec![13];
    assert!(callback_walk_ends_from(&md, &td(13)));
    assert!(type_def_has_callback(&md, 13));
    // Without the callback the walk comes back to the struct without end.
    md.type_defs[13].fields = vec![TypeModel::U8, td(13)];
    assert!(!callback_walk_ends_from(&md, &td(13)));
}

#[test]
fn borrowed_types() {
    let md = metadata();
    assert!(type_is_borrowed(&md, &td(5)));
    assert!(type_is_borrowed(&md, &td(7)));
    assert!(!type_is_borrowed(&md, &td(4)));
    assert!(type_is_borrowed(&md, &TypeModel::Pcwstr));
    assert!(type_is_borrowed(&md, &TypeModel::GenericParam(0)));
    assert!(!type_is_borrowed(&md, &TypeModel::HString));
    assert!(!type_is_borrowed(&md, &TypeModel::Pwstr));
}

#[test]
fn interfaces_and_conversions() {
    let md = metadata();
    assert!(type_is_non_exclusive_winrt_interface(&md, &td(7)));
    assert!(!type_is_non_exclusive_winrt_interface(&md, &td(6)));
    assert!(type_is_non_exclusive_winrt_interface(&md, &td(8)));
    assert!(!type_is_non_exclusive_winrt_interface(&md, &td(1)));
    assert!(type_def_is_handle(&md, 3));
    assert!(type_is_trivially_convertible(&md, &td(3)));
    assert!(!type_is_trivially_convertible(&md, &td(1)));
    assert!(type_is_trivially_convertible(&md, &TypeModel::Pcstr));
}

#[test]
fn primitive_and_struct_types() {
    let md = metadata();
    assert!(type_is_primitive(&md, &TypeModel::HResult));
    assert!(type_is_primitive(&md, &TypeModel::ConstPtr(Box::new(TypeModel::Void), 1)));
    assert!(type_is_primitive(&md, &td(10)));
    assert!(type_is_primitive(&md, &td(3)));
    assert!(type_is_primitive(&md, &td(0)));
    assert!(!type_is_primitive(&md, &td(1)));
    assert!(!type_is_primitive(&md, &TypeModel::Guid));
    assert!(type_is_struct(&md, &TypeModel::Guid));
    assert!(type_is_struct(&md, &td(1)));
    assert!(!type_is_struct(&md, &td(3)));
}

#[test]
fn sizes() {
    let md = metadata();
    assert_eq!(type_size(&md, &TypeModel::U8), 1);
    assert_eq!(type_size(&md, &TypeModel::I16), 2);
    assert_eq!(type_size(&md, &TypeModel::Float64), 8);
    assert_eq!(type_size(&md, &TypeModel::Guid), 16);
    assert_eq!(type_size(&md, &td(1)), 8);
    assert_eq!(type_size(&md, &TypeModel::Win32Array(Box::new(TypeModel::U16), 10)), 20);
    assert_eq!(
        type_size(&md, &TypeModel::PrimitiveOrEnum(Box::new(TypeModel::U8), Box::new(td(10)))),
        1
    );
    assert_eq!(type_size(&md, &TypeModel::MutPtr(Box::new(TypeModel::U8), 1)), 4);
    assert_eq!(
        type_size(&md, &TypeModel::Win32Array(Box::new(TypeModel::U64), usize::MAX)),
        8usize.wrapping_mul(usize::MAX)
    );
}

#[test]
fn deepest_chain_of_structs_is_walked_to_its_end() {
    // Definition k holds definition k + 1; the last holds a callback or a string.
    let n = 6;
    let mut defs = Vec::new();
    for k in 0..n - 1 {
        let mut d = def("", "CHAIN", TypeKind::Struct, 0, vec![], vec![td(k + 1)]);
        d.flags = WINRT;
        defs.push(d);
    }
    defs.push(def("Rt", "Handler", TypeKind::Delegate, 0, vec![], vec![]));
    let md = Metadata { type_defs: defs, methods: vec![], params: vec![] };
    // The chain ends in a Win32 delegate: a callback, and blittable.
    assert!(type_def_has_callback(&md, 0));
    assert!(type_is_blittable(&md, &td(0)));

    let mut defs = md.type_defs;
    defs[n - 1] = def("Rt", "Name", TypeKind::Struct, WINRT, vec![], vec![TypeModel::HString]);
    let md = Metadata { type_defs: defs, methods: vec![], params: vec![] };
    assert!(!type_def_has_callback(&md, 0));
    assert!(!type_is_blittable(&md, &td(0)));
}
