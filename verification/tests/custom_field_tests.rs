use termaup::custom_field::{format_number, nearest_f64_of, resolve_option_name};
use termaup::json::{FloatNumber, JsonNumber, JsonValue};
use termaup::models::{CustomField, ProgressValue};

fn s(t: &str) -> JsonValue {
    JsonValue::Str(t.to_string())
}

fn num(n: i64) -> JsonValue {
    JsonValue::Number(JsonNumber::Int(n))
}

fn float(text: &str) -> JsonValue {
    let x: f64 = text.parse().unwrap();
    let whole = if x.fract() == 0.0 { Some(x as i64) } else { None };
    JsonValue::Number(JsonNumber::Float(FloatNumber { text: text.to_string(), whole, fixed2: format!("{x:.2}") }))
}

fn obj(members: Vec<(&str, JsonValue)>) -> JsonValue {
    JsonValue::Object(members.into_iter().map(|(k, v)| (k.to_string(), v)).collect())
}

fn arr(items: Vec<JsonValue>) -> JsonValue {
    JsonValue::Array(items)
}

fn make_field(field_type: &str, type_config: JsonValue, value: JsonValue) -> CustomField {
    CustomField {
        id: "cf_test".to_string(),
        name: "Test Field".to_string(),
        field_type: field_type.to_string(),
        type_config: Some(type_config),
        value: Some(value),
        progress: None,
    }
}

fn make_field_no_config(field_type: &str, value: JsonValue) -> CustomField {
    CustomField {
        id: "cf_test".to_string(),
        name: "Test Field".to_string(),
        field_type: field_type.to_string(),
        type_config: None,
        value: Some(value),
        progress: None,
    }
}

fn priority_options() -> JsonValue {
    obj(vec![(
        "options",
        arr(vec![
            obj(vec![("id", s("opt_a")), ("name", s("High")), ("orderindex", num(0))]),
            obj(vec![("id", s("opt_b")), ("name", s("Medium")), ("orderindex", num(1))]),
        ]),
    )])
}

#[test]
fn test_display_value_none_returns_dash() {
    let field = CustomField {
        id: "cf".to_string(),
        name: "F".to_string(),
        field_type: "text".to_string(),
        type_config: None,
        value: None,
        progress: None,
    };
    assert_eq!(field.display_value(), "—");
}

#[test]
fn test_display_value_number_integer() {
    let f = make_field_no_config("number", num(5));
    assert_eq!(f.display_value(), "5");
}

#[test]
fn test_display_value_number_float() {
    let f = make_field_no_config("number", float("3.14"));
    assert_eq!(f.display_value(), "3.14");
}

#[test]
fn test_display_value_currency_with_type() {
    let f = make_field("currency", obj(vec![("currency_type", s("USD")), ("precision", num(2))]), float("99.99"));
    assert_eq!(f.display_value(), "USD 99.99");
}

#[test]
fn test_display_value_currency_no_config_fallback() {
    let f = make_field_no_config("currency", num(100));
    assert_eq!(f.display_value(), "$ 100");
}

#[test]
fn test_display_value_checkbox_true() {
    let f = make_field_no_config("checkbox", JsonValue::Bool(true));
    assert_eq!(f.display_value(), "✅");
}

#[test]
fn test_display_value_checkbox_false() {
    let f = make_field_no_config("checkbox", JsonValue::Bool(false));
    assert_eq!(f.display_value(), "☐");
}

#[test]
fn test_display_value_date_from_ms_string() {
    let f = make_field_no_config("date", s("1710028800000"));
    let result = f.display_value();
    assert!(result.starts_with("Mar"), "date should start with Mar, got: {result}");
    assert!(result.contains("2024"), "date should contain 2024, got: {result}");
}

#[test]
fn test_display_value_date_from_integer() {
    let f = make_field_no_config("date", num(1710028800000));
    let result = f.display_value();
    assert!(result.contains("2024"), "date should contain 2024, got: {result}");
}

#[test]
fn date_shows_month_day_and_year() {
    let f = make_field_no_config("date", num(1710028800000));
    assert_eq!(f.display_value(), "Mar 10, 2024");
}

#[test]
fn test_display_value_dropdown_resolves_uuid() {
    let f = make_field("drop_down", priority_options(), s("opt_a"));
    assert_eq!(f.display_value(), "High");
}

#[test]
fn test_display_value_dropdown_unknown_uuid_falls_back_to_raw() {
    let cfg = obj(vec![("options", arr(vec![obj(vec![("id", s("opt_a")), ("name", s("High"))])]))]);
    let f = make_field("drop_down", cfg, s("unknown-uuid"));
    assert_eq!(f.display_value(), "unknown-uuid");
}

#[test]
fn test_display_value_dropdown_no_type_config_falls_back() {
    let f = make_field_no_config("drop_down", s("opt_a"));
    assert_eq!(f.display_value(), "opt_a");
}

#[test]
fn test_display_value_dropdown_orderindex_integer() {
    let f = make_field("drop_down", priority_options(), num(1));
    assert_eq!(f.display_value(), "Medium");
}

#[test]
fn test_display_value_labels_resolves_uuids() {
    let cfg = obj(vec![(
        "options",
        arr(vec![
            obj(vec![("id", s("lbl_1")), ("label", s("Bug")), ("color", s("#e74c3c"))]),
            obj(vec![("id", s("lbl_2")), ("label", s("Feature")), ("color", s("#27ae60"))]),
        ]),
    )]);
    let f = make_field("labels", cfg, arr(vec![s("lbl_1"), s("lbl_2")]));
    assert_eq!(f.display_value(), "Bug, Feature");
}

#[test]
fn test_display_value_labels_unknown_id_falls_back() {
    let cfg = obj(vec![("options", arr(vec![obj(vec![("id", s("lbl_1")), ("label", s("Bug"))])]))]);
    let f = make_field("labels", cfg, arr(vec![s("lbl_1"), s("unknown-id")]));
    assert_eq!(f.display_value(), "Bug, unknown-id");
}

#[test]
fn test_display_value_labels_empty_array() {
    let f = make_field("labels", obj(vec![("options", arr(vec![]))]), arr(vec![]));
    assert_eq!(f.display_value(), "—");
}

#[test]
fn test_display_value_emoji_renders_repeated() {
    let f = make_field("emoji", obj(vec![("code_point", s("2b50")), ("count", num(5))]), num(3));
    assert_eq!(f.display_value(), "⭐⭐⭐");
}

#[test]
fn test_display_value_emoji_zero() {
    let f = make_field("emoji", obj(vec![("code_point", s("2b50")), ("count", num(5))]), num(0));
    assert_eq!(f.display_value(), "—");
}

#[test]
fn test_display_value_emoji_no_config_fallback_star() {
    let f = make_field_no_config("emoji", num(2));
    assert_eq!(f.display_value(), "★★");
}

#[test]
fn test_display_value_users_extracts_usernames() {
    let f = make_field_no_config(
        "users",
        arr(vec![
            obj(vec![("id", num(1)), ("username", s("alice")), ("email", s("alice@x.com"))]),
            obj(vec![("id", num(2)), ("username", s("bob")), ("email", s("bob@x.com"))]),
        ]),
    );
    assert_eq!(f.display_value(), "alice, bob");
}

#[test]
fn test_display_value_users_empty_array() {
    let f = make_field_no_config("users", arr(vec![]));
    assert_eq!(f.display_value(), "—");
}

#[test]
fn test_display_value_manual_progress_percentage() {
    let mut f = make_field("manual_progress", obj(vec![("start", num(0)), ("end", num(100))]), obj(vec![("current", num(75))]));
    f.progress = Some(ProgressValue::Percent(75));
    assert_eq!(f.display_value(), "75%");
}

#[test]
fn test_display_value_manual_progress_custom_range() {
    let mut f = make_field("manual_progress", obj(vec![("start", num(10)), ("end", num(30))]), obj(vec![("current", num(20))]));
    f.progress = Some(ProgressValue::Percent(50));
    assert_eq!(f.display_value(), "50%");
}

#[test]
fn manual_progress_with_empty_range_shows_current() {
    let mut f = make_field("manual_progress", obj(vec![("start", num(5)), ("end", num(5))]), obj(vec![("current", num(4))]));
    f.progress = Some(ProgressValue::Current(4));
    assert_eq!(f.display_value(), "4");
}

#[test]
fn test_display_value_location_formatted_address() {
    let f = make_field_no_config(
        "location",
        obj(vec![
            ("location", obj(vec![("lat", float("-28.016667")), ("lng", float("153.4"))])),
            ("formatted_address", s("Gold Coast QLD, Australia")),
        ]),
    );
    assert_eq!(f.display_value(), "Gold Coast QLD, Australia");
}

#[test]
fn test_display_value_text_types() {
    for field_type in &["text", "short_text", "email", "url", "phone"] {
        let f = make_field_no_config(field_type, s("hello world"));
        assert_eq!(f.display_value(), "hello world", "field_type={field_type}");
    }
}

#[test]
fn test_display_value_unknown_type_string_value() {
    let f = make_field_no_config("future_field_type", s("some value"));
    assert_eq!(f.display_value(), "some value");
}

#[test]
fn test_display_value_unknown_type_object_fallback() {
    let f = make_field_no_config("future_field_type", obj(vec![("x", num(1))]));
    let result = f.display_value();
    assert!(!result.is_empty());
    assert_eq!(result, "{\"x\":1}");
}

#[test]
fn numbers_show_whole_values_without_decimals() {
    assert_eq!(format_number(&num(-7)), "-7");
    assert_eq!(format_number(&float("2.0")), "2");
    assert_eq!(format_number(&float("2.5")), "2.50");
    assert_eq!(format_number(&s("abc")), "\"abc\"");
}

#[test]
fn option_names_are_found_by_id_or_order_index() {
    let cfg = Some(priority_options());
    assert_eq!(resolve_option_name(&cfg, "opt_b", "name"), Some("Medium".to_string()));
    assert_eq!(resolve_option_name(&cfg, "missing", "name"), None);
    assert_eq!(resolve_option_name(&None, "opt_a", "name"), None);
}

#[test]
fn nearest_double_keeps_small_integers() {
    assert_eq!(nearest_f64_of(0), 0);
    assert_eq!(nearest_f64_of(1 << 53), 1 << 53);
    assert_eq!(nearest_f64_of((1 << 53) + 1), 1 << 53);
    assert_eq!(nearest_f64_of(u64::MAX), 1u128 << 64);
}
