use edlr_core::manifest::{OptionsFrom, SelectOption, SettingField};
use edlr_core::registry::select_options::{parse_options, resolve};
use edlr_core::registry::InMemoryBus;

fn dynamic_select() -> SettingField {
    SettingField::Select {
        key: "speaker".into(),
        label: "話者".into(),
        default: String::new(),
        options: None,
        options_from: Some(OptionsFrom { driver: "coeiroink".into(), topic: "speakers".into() }),
    }
}

fn options_of(field: &SettingField) -> &Option<Vec<SelectOption>> {
    let SettingField::Select { options, .. } = field else {
        panic!("expected a select field");
    };
    options
}

fn bus_with_retained(topic: &str, payload: &[u8]) -> InMemoryBus {
    let mut bus = InMemoryBus::new();
    bus.retain("coeiroink", topic, payload.to_vec());
    bus
}

fn option(value: &str, label: &str) -> SelectOption {
    SelectOption { value: value.into(), label: label.into() }
}

#[test]
fn plain_strings_become_options_with_matching_labels() {
    let bus = bus_with_retained("speakers", br#"["Sol","Deciat"]"#);
    let mut settings = vec![dynamic_select()];

    resolve(&mut settings, &bus);

    assert_eq!(
        options_of(&settings[0]).as_deref(),
        Some([option("Sol", "Sol"), option("Deciat", "Deciat")].as_slice())
    );
}

#[test]
fn labeled_objects_keep_value_and_label_apart() {
    let bus = bus_with_retained(
        "speakers",
        r#"[{"value":"a1b2:3","label":"アメノちゃん/ギャル"}]"#.as_bytes(),
    );
    let mut settings = vec![dynamic_select()];

    resolve(&mut settings, &bus);

    assert_eq!(
        options_of(&settings[0]).as_deref(),
        Some([option("a1b2:3", "アメノちゃん/ギャル")].as_slice())
    );
}

#[test]
fn an_unknown_driver_leaves_the_options_unresolved() {
    let mut settings = vec![dynamic_select()];

    resolve(&mut settings, &InMemoryBus::new());

    assert_eq!(options_of(&settings[0]), &None);
}

#[test]
fn a_topic_without_a_retained_value_leaves_the_options_unresolved() {
    let bus = bus_with_retained("other-topic", br#"["Sol"]"#);
    let mut settings = vec![dynamic_select()];

    resolve(&mut settings, &bus);

    assert_eq!(options_of(&settings[0]), &None);
}

#[test]
fn a_malformed_payload_leaves_the_options_unresolved() {
    let bus = bus_with_retained("speakers", b"{\"not\":\"an array\"}");
    let mut settings = vec![dynamic_select()];

    resolve(&mut settings, &bus);

    assert_eq!(options_of(&settings[0]), &None);
}

#[test]
fn static_options_are_left_alone() {
    let bus = bus_with_retained("speakers", br#"["from-the-bus"]"#);
    let mut settings = vec![SettingField::Select {
        key: "size".into(),
        label: "サイズ".into(),
        default: "small".into(),
        options: Some(vec![option("small", "small")]),
        options_from: None,
    }];

    resolve(&mut settings, &bus);

    assert_eq!(
        options_of(&settings[0]).as_deref(),
        Some([option("small", "small")].as_slice())
    );
}

#[test]
fn a_list_with_anything_else_in_it_is_no_list_of_options() {
    assert_eq!(parse_options(br#"["a",1]"#), None);
    assert_eq!(parse_options(b"\xff"), None);
    assert_eq!(parse_options(b"[]"), Some(Vec::new()));
}
