//! Round trips through the result boxing protocol, over the
//! representative result types an analysis produces.

use std::collections::HashMap;

use llvm_plugin::ResultBox;

#[test]
fn round_trip_numeric_map() {
    let mut map: HashMap<u32, u64> = HashMap::new();
    map.insert(1, 10);
    map.insert(2, 200);
    map.insert(40, 0);
    let boxed = ResultBox::box_result(map.clone());
    assert_eq!(*boxed.unbox_ref(), map);
    assert_eq!(boxed.unbox_owned(), map);
}

#[test]
fn round_trip_optional_opcode() {
    let some_opcode: Option<u32> = Some(17);
    let boxed = ResultBox::box_result(some_opcode);
    assert_eq!(*boxed.unbox_ref(), Some(17));
    assert_eq!(boxed.unbox_owned(), Some(17));

    let no_opcode: Option<u32> = None;
    let boxed = ResultBox::box_result(no_opcode);
    assert_eq!(*boxed.unbox_ref(), None);
    assert_eq!(boxed.unbox_owned(), None);
}

#[test]
fn round_trip_formatted_string() {
    let text = format!("counted {} occurrences of {}", 3, "call");
    let boxed = ResultBox::box_result(text.clone());
    assert_eq!(*boxed.unbox_ref(), text);
    assert_eq!(boxed.unbox_owned(), text);
}

#[test]
fn round_trip_boxed_name_to_count_map() {
    let mut map: HashMap<String, u64> = HashMap::new();
    map.insert("add".to_string(), 4);
    map.insert("mul".to_string(), 1);
    let value: Box<HashMap<String, u64>> = Box::new(map);
    let boxed = ResultBox::box_result(value.clone());
    assert_eq!(*boxed.unbox_ref(), value);
    assert_eq!(boxed.unbox_owned(), value);
}

#[test]
fn round_trip_zero_sized_result() {
    let boxed = ResultBox::box_result(());
    assert_eq!(*boxed.unbox_ref(), ());
    boxed.unbox_owned();
}
