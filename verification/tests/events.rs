use cairo_macros::generate_events::{
    clean_enum, extract_struct_names, generate_events, generate_structs, validate_event_enum,
};

fn event_enum_text() -> String {
    [
        "#[generate_events]",
        "#[event]",
        "#[derive(Drop, starknet::Event)]",
        "pub enum Event {",
        "    Created: OrderCreated,",
        "    Filled: OrderFilled,",
        "}",
    ]
    .join("\n")
}

#[test]
fn events_missing_marker_yields_marker_diagnostic() {
    let input = "#[derive(Drop, starknet::Event)]\npub enum Event {\n    A: Apple,\n}";
    let out = generate_events(input);
    assert_eq!(out.content, "");
    assert_eq!(
        out.diagnostics,
        vec!["#[generate_events] can only be used on enums with #[event]".to_string()]
    );
}

#[test]
fn events_missing_derive_yields_derive_diagnostic() {
    let input = "#[event]\npub enum Event {\n    A: Apple,\n}";
    let out = generate_events(input);
    assert_eq!(out.content, "");
    assert_eq!(
        out.diagnostics,
        vec![
            "#[generate_events] can only be used on enums that derive starknet::Event".to_string()
        ]
    );
}

#[test]
fn events_private_enum_yields_visibility_diagnostic() {
    let input = "#[event]\n#[derive(Drop, starknet::Event)]\nenum Event {\n    A: Apple,\n}";
    let out = generate_events(input);
    assert_eq!(out.content, "");
    assert_eq!(
        out.diagnostics,
        vec!["#[generate_events] can only be used on public enums.".to_string()]
    );
}

#[test]
fn events_validate_accepts_complete_enum() {
    assert!(validate_event_enum(&event_enum_text()).is_ok());
}

#[test]
fn events_extracts_payload_names_in_order() {
    let names = extract_struct_names(&event_enum_text());
    assert_eq!(names, vec!["OrderCreated", "OrderFilled"]);
}

#[test]
fn events_extraction_stops_at_closing_brace() {
    let text = [
        "pub enum Event {",
        "    A: Apple,",
        "}",
        "    B: Banana,",
    ]
    .join("\n");
    let names = extract_struct_names(&text);
    assert_eq!(names, vec!["Apple"]);
}

#[test]
fn events_clean_enum_removes_only_trigger_line() {
    let cleaned = clean_enum(&event_enum_text());
    assert_eq!(
        cleaned,
        [
            "#[event]",
            "#[derive(Drop, starknet::Event)]",
            "pub enum Event {",
            "    Created: OrderCreated,",
            "    Filled: OrderFilled,",
            "}",
        ]
        .join("\n")
    );
}

#[test]
fn events_generate_structs_emits_one_per_name() {
    let out = generate_structs(&vec!["Apple".to_string(), "Banana".to_string()]);
    assert_eq!(
        out,
        "#[derive(Drop, starknet::Event)]\npub struct Apple {\n    pub data: Span<felt252>,\n}\n\n#[derive(Drop, starknet::Event)]\npub struct Banana {\n    pub data: Span<felt252>,\n}"
    );
}

#[test]
fn events_full_output_keeps_enum_and_appends_structs() {
    let out = generate_events(&event_enum_text());
    assert_eq!(out.diagnostics.len(), 0);
    let expected = [
        "#[event]",
        "#[derive(Drop, starknet::Event)]",
        "pub enum Event {",
        "    Created: OrderCreated,",
        "    Filled: OrderFilled,",
        "}",
        "#[derive(Drop, starknet::Event)]",
        "pub struct OrderCreated {",
        "    pub data: Span<felt252>,",
        "}",
        "",
        "#[derive(Drop, starknet::Event)]",
        "pub struct OrderFilled {",
        "    pub data: Span<felt252>,",
        "}",
    ]
    .join("\n");
    assert_eq!(out.content, expected);
}

#[test]
fn events_duplicate_payload_names_produce_duplicate_structs() {
    let text = [
        "#[generate_events]",
        "#[event]",
        "#[derive(Drop, starknet::Event)]",
        "pub enum Event {",
        "    A: Same,",
        "    B: Same,",
        "}",
    ]
    .join("\n");
    let out = generate_events(&text);
    assert_eq!(out.content.matches("pub struct Same {").count(), 2);
}
