use chart_pipeline::toml_json::{convert, JsonValue, TomlValue};

fn text(value: &JsonValue) -> String {
    match value {
        JsonValue::Null => "null".to_string(),
        JsonValue::Bool(b) => b.to_string(),
        JsonValue::Integer(i) => i.to_string(),
        JsonValue::Float(bits) => f64::from_bits(*bits).to_string(),
        JsonValue::String(s) => format!("{:?}", s),
        JsonValue::Array(items) => {
            format!("[{}]", items.iter().map(text).collect::<Vec<_>>().join(","))
        }
        JsonValue::Object(members) => format!(
            "{{{}}}",
            members
                .iter()
                .map(|(key, value)| format!("{:?}:{}", key, text(value)))
                .collect::<Vec<_>>()
                .join(",")
        ),
    }
}

#[test]
fn scalars_keep_their_value() {
    assert_eq!(text(&convert(TomlValue::String("a b".to_string()))), "\"a b\"");
    assert_eq!(text(&convert(TomlValue::Integer(-7))), "-7");
    assert_eq!(text(&convert(TomlValue::Boolean(true))), "true");
    let date = TomlValue::Datetime("1979-05-27T07:32:00Z".to_string());
    assert_eq!(text(&convert(date)), "\"1979-05-27T07:32:00Z\"");
}

#[test]
fn floats_that_are_no_numbers_become_null() {
    assert_eq!(text(&convert(TomlValue::Float(1.5f64.to_bits()))), "1.5");
    assert_eq!(text(&convert(TomlValue::Float((-0.0f64).to_bits()))), "-0");
    assert_eq!(text(&convert(TomlValue::Float(f64::MAX.to_bits()))), f64::MAX.to_string());
    assert_eq!(text(&convert(TomlValue::Float(f64::MIN_POSITIVE.to_bits()))), f64::MIN_POSITIVE.to_string());
    assert_eq!(text(&convert(TomlValue::Float(f64::NAN.to_bits()))), "null");
    assert_eq!(text(&convert(TomlValue::Float(f64::INFINITY.to_bits()))), "null");
    assert_eq!(text(&convert(TomlValue::Float(f64::NEG_INFINITY.to_bits()))), "null");
    for bits in [0u64, 1, u64::MAX, 0x7FF0_0000_0000_0001, 0xFFF8_0000_0000_0000, 0x7FEF_FFFF_FFFF_FFFF] {
        let finite = f64::from_bits(bits).is_finite();
        assert_eq!(matches!(convert(TomlValue::Float(bits)), JsonValue::Float(_)), finite);
    }
}

#[test]
fn keys_of_tables_are_written_in_camel_case() {
    let table = TomlValue::Table(vec![
        ("html_title".to_string(), TomlValue::String("Floor".to_string())),
        (
            "machines".to_string(),
            TomlValue::Array(vec![
                TomlValue::Table(vec![
                    ("tag_pos".to_string(), TomlValue::Table(vec![("x".to_string(), TomlValue::Integer(1))])),
                    ("state chart".to_string(), TomlValue::Boolean(false)),
                ]),
                TomlValue::Array(vec![]),
            ]),
        ),
    ]);
    assert_eq!(
        text(&convert(table)),
        "{\"htmlTitle\":\"Floor\",\"machines\":[{\"tagPos\":{\"x\":1},\"stateChart\":false},[]]}"
    );
    assert_eq!(text(&convert(TomlValue::Table(vec![]))), "{}");
}
