use riddle_metadata::model::{Metadata, TypeModel, TypeArgs};

fn ptr(t: TypeModel, n: usize) -> TypeModel {
    TypeModel::MutPtr(Box::new(t), n)
}

fn cptr(t: TypeModel, n: usize) -> TypeModel {
    TypeModel::ConstPtr(Box::new(t), n)
}

#[test]
fn const_forms_are_stable() {
    let t = ptr(ptr(TypeModel::Pstr, 1), 2);
    let once = t.copy().to_const_type();
    assert!(once == ptr(ptr(TypeModel::Pcstr, 1), 2));
    assert!(once.copy().to_const_type() == once);
    let p = ptr(TypeModel::Pwstr, 1).to_const_ptr();
    assert!(p == cptr(TypeModel::Pwstr, 1));
    assert!(p.copy().to_const_ptr() == p);
}

#[test]
fn deref_removes_one_level() {
    assert!(cptr(TypeModel::Void, 1).deref() == TypeModel::U8);
    assert!(ptr(TypeModel::U32, 2).deref() == ptr(TypeModel::U32, 1));
    assert!(ptr(TypeModel::U32, 1).deref() == TypeModel::U32);
    assert!(TypeModel::Pwstr.deref() == TypeModel::U16);
    assert!(TypeModel::Pcstr.deref() == TypeModel::U8);
}

#[test]
fn pointer_predicates() {
    assert!(cptr(ptr(TypeModel::Void, 1), 1).is_void());
    assert!(!cptr(TypeModel::U8, 1).is_void());
    assert!(cptr(TypeModel::U8, 1).is_byte_size());
    assert!(TypeModel::Pstr.is_byte_size());
    assert!(!TypeModel::Pwstr.is_byte_size());
    assert!(ptr(TypeModel::U8, 1).is_pointer());
    assert!(!TypeModel::Pstr.is_pointer());
    assert!(TypeModel::WinrtArray(Box::new(TypeModel::U8)).is_winrt_array());
    assert!(!TypeModel::WinrtArrayRef(Box::new(TypeModel::U8)).is_winrt_array());
}

#[test]
fn empty_metadata_is_well_formed() {
    let md = Metadata { type_defs: vec![], methods: vec![], params: vec![] };
    assert!(md.is_well_formed());
}

#[test]
fn dangling_position_is_not_well_formed() {
    assert!(!TypeModel::TypeDef(3, TypeArgs::End).check_refs_below(3));
    assert!(TypeModel::TypeDef(2, TypeArgs::End).check_refs_below(3));
    assert!(!ptr(TypeModel::U8, 0).check_refs_below(3));
}
