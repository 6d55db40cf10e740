use riddle_metadata::kinds::SignatureParamKind;
use riddle_metadata::kinds::SignatureParamKind::{
    ArrayFixed, ArrayRelativeByteLen, ArrayRelativeLen, ArrayRelativePtr, Blittable, IntoParam,
    OptionalPointer, Other, TryInto, ValueType,
};
use riddle_metadata::params::{classify_param, resolve_param_kinds, ParamFacts};

fn plain() -> ParamFacts {
    ParamFacts {
        is_out: false,
        is_optional: false,
        free_with: false,
        reserved: false,
        is_pointer: false,
        byte_size: false,
        winrt_array: false,
        borrowed: false,
        non_exclusive: false,
        trivially_convertible: false,
        primitive: false,
        deref_blittable: false,
        blittable: false,
    }
}

fn pointer() -> ParamFacts {
    ParamFacts { is_pointer: true, ..plain() }
}

fn resolve(facts: Vec<ParamFacts>, kinds: Vec<SignatureParamKind>) -> Option<Vec<SignatureParamKind>> {
    resolve_param_kinds(&facts, kinds)
}

#[test]
fn array_and_length_are_linked() {
    let r = resolve(vec![pointer(), plain()], vec![ArrayRelativeLen(1), Other]).unwrap();
    assert!(r == vec![ArrayRelativeLen(1), ArrayRelativePtr(0)]);
}

#[test]
fn shared_length_is_dropped_with_its_arrays() {
    let r = resolve(
        vec![pointer(), pointer(), plain()],
        vec![ArrayRelativeLen(2), ArrayRelativeByteLen(2), Other],
    )
    .unwrap();
    assert!(r == vec![Other, Other, Other]);
}

#[test]
fn length_position_out_of_range_fails() {
    assert!(resolve(vec![pointer()], vec![ArrayRelativeLen(5)]).is_none());
    assert!(resolve(vec![pointer(), plain()], vec![ArrayRelativeByteLen(2), Other]).is_none());
}

#[test]
fn output_or_pointer_length_makes_array_other() {
    let out_len = ParamFacts { is_out: true, ..plain() };
    let r = resolve(vec![pointer(), out_len], vec![ArrayRelativeLen(1), Other]).unwrap();
    assert!(r == vec![Other, Other]);
    let r = resolve(vec![pointer(), pointer()], vec![ArrayRelativeLen(1), Other]).unwrap();
    assert!(r == vec![Other, Other]);
}

#[test]
fn array_naming_itself_is_other() {
    let r = resolve(vec![pointer()], vec![ArrayRelativeLen(0)]).unwrap();
    assert!(r == vec![Other]);
}

#[test]
fn byte_length_needs_byte_sized_array() {
    let r = resolve(vec![pointer(), plain()], vec![ArrayRelativeByteLen(1), Other]).unwrap();
    assert!(r == vec![Other, Other]);
    let bytes = ParamFacts { byte_size: true, ..pointer() };
    let r = resolve(vec![bytes, plain()], vec![ArrayRelativeByteLen(1), Other]).unwrap();
    assert!(r == vec![ArrayRelativeByteLen(1), ArrayRelativePtr(0)]);
}

#[test]
fn freed_fixed_array_is_other() {
    let freed = ParamFacts { free_with: true, ..pointer() };
    let r = resolve(vec![freed], vec![ArrayFixed(4)]).unwrap();
    assert!(r == vec![Other]);
    let r = resolve(vec![pointer()], vec![ArrayFixed(4)]).unwrap();
    assert!(r == vec![ArrayFixed(4)]);
}

// Arrays that are not pointers can break the back link: parameter 0 names
// parameter 3 as its length, but parameter 3 ends up marked for parameter 1.
#[test]
fn non_pointer_arrays_can_break_the_back_link() {
    let r = resolve(
        vec![plain(), plain(), plain(), plain()],
        vec![ArrayRelativeLen(3), ArrayRelativeLen(3), ArrayRelativeLen(1), Other],
    )
    .unwrap();
    assert!(r == vec![ArrayRelativeLen(3), ArrayRelativePtr(2), ArrayRelativeLen(1), ArrayRelativePtr(1)]);
}

#[test]
fn other_parameters_are_classified_by_type() {
    let borrowed = ParamFacts { borrowed: true, ..plain() };
    assert!(classify_param(&borrowed, Other) == IntoParam);
    let interface = ParamFacts { non_exclusive: true, ..plain() };
    assert!(classify_param(&interface, Other) == TryInto);
    let output = ParamFacts { is_out: true, borrowed: true, blittable: true, ..plain() };
    assert!(classify_param(&output, Other) == Blittable);
    let optional = ParamFacts { is_optional: true, primitive: true, ..pointer() };
    assert!(classify_param(&optional, Other) == OptionalPointer);
    let reserved = ParamFacts { reserved: true, ..pointer() };
    assert!(classify_param(&reserved, Other) == OptionalPointer);
    let value = ParamFacts { primitive: true, ..plain() };
    assert!(classify_param(&value, Other) == ValueType);
    let value_ptr = ParamFacts { primitive: true, deref_blittable: true, ..pointer() };
    assert!(classify_param(&value_ptr, Other) == ValueType);
    let opaque_ptr = ParamFacts { primitive: true, ..pointer() };
    assert!(classify_param(&opaque_ptr, Other) == Other);
    let blittable = ParamFacts { blittable: true, ..plain() };
    assert!(classify_param(&blittable, Other) == Blittable);
    assert!(classify_param(&plain(), Other) == Other);
    assert!(classify_param(&borrowed, ArrayFixed(2)) == ArrayFixed(2));
}

#[test]
fn empty_signature_resolves_to_nothing() {
    assert!(resolve(vec![], vec![]).unwrap().is_empty());
}

// Non-pointer arrays whose lengths are plain parameters keep the back link.
#[test]
fn non_pointer_arrays_naming_plain_lengths_are_linked() {
    let r = resolve(
        vec![plain(), plain(), plain(), plain()],
        vec![ArrayRelativeLen(3), Other, ArrayRelativeLen(1), Other],
    )
    .unwrap();
    assert!(r == vec![ArrayRelativeLen(3), ArrayRelativePtr(2), ArrayRelativeLen(1), ArrayRelativePtr(0)]);
}

// An array that names itself as its length becomes `Other`; the others stay
// linked.
#[test]
fn array_naming_itself_leaves_the_others_linked() {
    let r = resolve(
        vec![plain(), plain(), plain()],
        vec![ArrayRelativeLen(0), ArrayRelativeLen(2), Other],
    )
    .unwrap();
    assert!(r == vec![Other, ArrayRelativeLen(2), ArrayRelativePtr(1)]);
}
