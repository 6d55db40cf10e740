use riddle_metadata::attributes::{has_attribute, param_kind, param_or_enum};
use riddle_metadata::kinds::SignatureParamKind;
use riddle_metadata::model::{ArgValue, AttributeInfo};

fn attr(name: &str, args: Vec<ArgValue>) -> AttributeInfo {
    AttributeInfo { name: name.to_string(), args }
}

#[test]
fn no_attributes_give_other() {
    assert!(param_kind(&vec![]) == SignatureParamKind::Other);
}

#[test]
fn native_array_info_with_16_bit_argument_names_length_parameter() {
    let attrs = vec![attr("NativeArrayInfoAttribute", vec![ArgValue::I16(2)])];
    assert!(param_kind(&attrs) == SignatureParamKind::ArrayRelativeLen(2));
}

#[test]
fn native_array_info_with_32_bit_argument_is_fixed() {
    let attrs = vec![attr("NativeArrayInfoAttribute", vec![ArgValue::Other, ArgValue::I32(16)])];
    assert!(param_kind(&attrs) == SignatureParamKind::ArrayFixed(16));
}

#[test]
fn memory_size_names_byte_length_parameter() {
    let attrs = vec![
        attr("ConstAttribute", vec![]),
        attr("MemorySizeAttribute", vec![ArgValue::I32(3), ArgValue::I16(1)]),
    ];
    assert!(param_kind(&attrs) == SignatureParamKind::ArrayRelativeByteLen(1));
}

#[test]
fn negative_length_position_wraps_as_usize() {
    let attrs = vec![attr("NativeArrayInfoAttribute", vec![ArgValue::I16(-1)])];
    assert!(param_kind(&attrs) == SignatureParamKind::ArrayRelativeLen(usize::MAX));
}

#[test]
fn attribute_without_usable_argument_falls_through() {
    let attrs = vec![
        attr("NativeArrayInfoAttribute", vec![ArgValue::Str("x".to_string())]),
        attr("MemorySizeAttribute", vec![ArgValue::I16(4)]),
    ];
    assert!(param_kind(&attrs) == SignatureParamKind::ArrayRelativeByteLen(4));
}

#[test]
fn first_deciding_attribute_wins() {
    let attrs = vec![
        attr("MemorySizeAttribute", vec![ArgValue::I16(5)]),
        attr("NativeArrayInfoAttribute", vec![ArgValue::I16(6)]),
    ];
    assert!(param_kind(&attrs) == SignatureParamKind::ArrayRelativeByteLen(5));
}

#[test]
fn associated_enum_is_first_string_argument() {
    let attrs = vec![
        attr("ConstAttribute", vec![]),
        attr("AssociatedEnumAttribute", vec![ArgValue::I32(1), ArgValue::Str("FILE_FLAGS".to_string())]),
    ];
    assert_eq!(param_or_enum(&attrs), Some("FILE_FLAGS".to_string()));
}

#[test]
fn associated_enum_without_string_is_none() {
    let attrs = vec![
        attr("AssociatedEnumAttribute", vec![ArgValue::I32(1)]),
        attr("AssociatedEnumAttribute", vec![ArgValue::Str("LATER".to_string())]),
    ];
    assert_eq!(param_or_enum(&attrs), None);
    assert_eq!(param_or_enum(&vec![]), None);
}

#[test]
fn has_attribute_looks_at_every_name() {
    let attrs = vec![attr("ConstAttribute", vec![]), attr("RetValAttribute", vec![])];
    assert!(has_attribute(&attrs, "RetValAttribute"));
    assert!(!has_attribute(&attrs, "ReservedAttribute"));
}
