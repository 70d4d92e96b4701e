use digital_logic::marks::get_fields_with_attribute;
use digital_logic::marks::MarkedField;

fn field(name: &str, marks: &[&str]) -> MarkedField {
    MarkedField {
        name: name.to_string(),
        marks: marks.iter().map(|mark| mark.to_string()).collect(),
    }
}

#[test]
fn test_fields_are_sorted_by_their_marks() {
    let fields = vec![
        field("strong_true", &["child"]),
        field("nmos", &["doc", "children"]),
        field("activation", &[]),
        field("input", &["pins"]),
        field("pmos", &["child", "doc"]),
        field("output", &["pin"]),
    ];
    assert_eq!(get_fields_with_attribute(&fields, "child"), vec![0, 4]);
    assert_eq!(get_fields_with_attribute(&fields, "children"), vec![1]);
    assert_eq!(get_fields_with_attribute(&fields, "pin"), vec![5]);
    assert_eq!(get_fields_with_attribute(&fields, "pins"), vec![3]);
    assert_eq!(get_fields_with_attribute(&fields, "doc"), vec![1, 4]);
    assert_eq!(get_fields_with_attribute(&fields, "other"), Vec::<usize>::new());
    assert_eq!(get_fields_with_attribute(&vec![], "pin"), Vec::<usize>::new());
}
