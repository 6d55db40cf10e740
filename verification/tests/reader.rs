use riddle_metadata::reader::{build_offsets, is_args_read, position_of_row};

#[test]
fn offsets_are_running_sums_of_the_row_counts() {
    assert_eq!(build_offsets(&vec![]), Some(vec![0]));
    assert_eq!(build_offsets(&vec![3, 0, 2]), Some(vec![0, 3, 3, 5]));
    assert_eq!(build_offsets(&vec![usize::MAX, 1]), None);
    assert_eq!(build_offsets(&vec![usize::MAX, 0]), Some(vec![0, usize::MAX, usize::MAX]));
}

#[test]
fn rows_take_their_position_among_all_files() {
    let offsets = build_offsets(&vec![3, 0, 2]).unwrap();
    assert_eq!(position_of_row(&offsets, 0, 2), Some(2));
    assert_eq!(position_of_row(&offsets, 0, 3), None);
    assert_eq!(position_of_row(&offsets, 1, 0), None);
    assert_eq!(position_of_row(&offsets, 2, 1), Some(4));
    assert_eq!(position_of_row(&offsets, 3, 0), None);
}

#[test]
fn arguments_are_read_for_array_size_and_enum_attributes() {
    assert!(is_args_read(&"NativeArrayInfoAttribute".to_string()));
    assert!(is_args_read(&"MemorySizeAttribute".to_string()));
    assert!(is_args_read(&"AssociatedEnumAttribute".to_string()));
    assert!(!is_args_read(&"ConstAttribute".to_string()));
    assert!(!is_args_read(&"GuidAttribute".to_string()));
}
