use navop_core::query_inputs::{
    field_description, field_label, is_select_input, select_initial_index, QueryInput, QueryInputEditor,
    QueryInputOption,
};

fn input(id: &str, editor: QueryInputEditor, default: Option<&str>, options: &[(&str, &str)]) -> QueryInput {
    QueryInput {
        id: id.to_string(),
        editor,
        default: default.map(str::to_string),
        label: None,
        placeholder: None,
        description: None,
        options: options
            .iter()
            .map(|(value, label)| QueryInputOption { value: (*value).to_string(), label: (*label).to_string() })
            .collect(),
    }
}

const QOS: &[(&str, &str)] = &[("0", "QoS 0"), ("1", "QoS 1"), ("2", "QoS 2")];

#[test]
fn select_editor_requires_options() {
    assert!(!is_select_input(&input("qos", QueryInputEditor::Select, None, &[])));
    assert!(is_select_input(&input("qos", QueryInputEditor::Select, None, QOS)));
    assert!(!is_select_input(&input("topic", QueryInputEditor::Text, None, QOS)));
}

#[test]
fn select_defaults_to_the_matching_option() {
    assert_eq!(1, select_initial_index(&input("qos", QueryInputEditor::Select, Some("1"), QOS)));
    assert_eq!(2, select_initial_index(&input("qos", QueryInputEditor::Select, Some("2"), QOS)));
    assert_eq!(0, select_initial_index(&input("qos", QueryInputEditor::Select, None, QOS)));
    assert_eq!(0, select_initial_index(&input("qos", QueryInputEditor::Select, Some("9"), QOS)));
}

#[test]
fn field_label_falls_back_to_id() {
    assert_eq!("qos", field_label(&input("qos", QueryInputEditor::Text, None, &[])));
    let mut labelled = input("qos", QueryInputEditor::Text, None, &[]);
    labelled.label = Some("  QoS  ".to_string());
    assert_eq!("  QoS  ", field_label(&labelled));
    let mut blank = input("qos", QueryInputEditor::Text, None, &[]);
    blank.label = Some("   ".to_string());
    assert_eq!("qos", field_label(&blank));
}

#[test]
fn an_empty_default_matches_an_empty_option() {
    let options = &[("x", "X"), ("", "Any")];
    assert_eq!(1, select_initial_index(&input("filter", QueryInputEditor::Select, None, options)));
}

#[test]
fn the_first_of_equal_options_is_chosen() {
    let options = &[("a", "A"), ("b", "B"), ("b", "B again")];
    assert_eq!(1, select_initial_index(&input("letter", QueryInputEditor::Select, Some("b"), options)));
}

#[test]
fn descriptions_are_trimmed_and_blank_ones_dropped() {
    let mut described = input("qos", QueryInputEditor::Text, None, &[]);
    described.description = Some("  delivery guarantee \n".to_string());
    assert_eq!(Some("delivery guarantee".to_string()), field_description(&described));
    described.description = Some(" \t ".to_string());
    assert_eq!(None, field_description(&described));
    described.description = None;
    assert_eq!(None, field_description(&described));
}
