use chart_pipeline::influxdb::flux_query::{FluxParams, QueryBuilder};
use chart_pipeline::influxdb::flux_value::{Comparable, FluxValue};

const TEMPLATE: &str = "__var__ = \"value1\"\nLine using placeholder: __var__\n";

fn text(s: &str) -> FluxValue {
    FluxValue::Comparable(Comparable::String(s.to_string()))
}

#[test]
fn flux_query_generate_with_missing_parameter() {
    let builder = QueryBuilder::new();
    let mut params = FluxParams::new();
    params.insert("unknown_var", text("Value_1"));
    assert!(builder.generate_query(TEMPLATE, &params).is_err());
}

#[test]
fn flux_query_generate_success() {
    let builder = QueryBuilder::new();
    let expected = String::from("Line using placeholder: \"string_value\"\n");
    let mut params = FluxParams::new();
    params.insert("var", text("string_value"));
    assert_eq!(builder.generate_query(TEMPLATE, &params).unwrap(), expected);
}

#[test]
fn missing_parameter_is_named() {
    let builder = QueryBuilder::new();
    let params = FluxParams::new();
    let error = builder.generate_query("a __first__ b __second__", &params).unwrap_err();
    assert_eq!(error.identifier, "first");
    assert_eq!(error.message(), "missing `first` parameter");
}

#[test]
fn first_missing_parameter_wins() {
    let builder = QueryBuilder::new();
    let mut params = FluxParams::new();
    params.insert("first", text("1"));
    let error = builder.generate_query("__first__ __second__ __third__", &params).unwrap_err();
    assert_eq!(error.identifier, "second");
}

#[test]
fn plain_template_is_unchanged() {
    let builder = QueryBuilder::new();
    let params = FluxParams::new();
    for template in ["", "from(bucket: \"b\")", "a\nb\n", "a\r\nb", "  x = 1\n\n"] {
        assert_eq!(builder.generate_query(template, &params).unwrap(), template);
    }
}

#[test]
fn declaration_line_is_dropped_when_unused() {
    let builder = QueryBuilder::new();
    let params = FluxParams::new();
    let rendered = builder.generate_query("first\n__x__ = \"v\"\nlast\n", &params).unwrap();
    assert_eq!(rendered, "first\nlast\n");
}

#[test]
fn declaration_line_may_be_indented_and_last() {
    let builder = QueryBuilder::new();
    let params = FluxParams::new();
    assert_eq!(builder.generate_query("a\n \t__x__= 1", &params).unwrap(), "a\n");
    assert!(builder.is_declaration("  __x__ = 1\n"));
    assert!(builder.is_declaration("__x__=1"));
}

#[test]
fn placeholder_at_line_start_without_equals_is_replaced() {
    let builder = QueryBuilder::new();
    let mut params = FluxParams::new();
    params.insert("x", FluxValue::RawExpression("data".to_string()));
    assert!(!builder.is_declaration("__x__ |> yield()\n"));
    assert!(!builder.is_declaration("__x__\n"));
    assert!(!builder.is_declaration("y = __x__\n"));
    assert_eq!(builder.generate_query("__x__ |> yield()\n", &params).unwrap(), "data |> yield()\n");
}

#[test]
fn text_around_placeholders_is_copied() {
    let builder = QueryBuilder::new();
    let mut params = FluxParams::new();
    params.insert("a", text("α"));
    params.insert("b", FluxValue::RawExpression("β".to_string()));
    let rendered = builder.generate_query("é→__a__→ü→__b__→ö", &params).unwrap();
    assert_eq!(rendered, "é→\"α\"→ü→β→ö");
}

#[test]
fn identifier_takes_every_word_character() {
    let builder = QueryBuilder::new();
    let params = FluxParams::new();
    let error = builder.generate_query("__a__ü__b__", &params).unwrap_err();
    assert_eq!(error.identifier, "a__ü__b");
}

#[test]
fn strip_declarations_keeps_other_lines() {
    let builder = QueryBuilder::new();
    assert_eq!(builder.strip_declarations(TEMPLATE), "Line using placeholder: __var__\n");
    assert_eq!(builder.strip_declarations("no newline"), "no newline");
}

#[test]
fn extend_sets_each_parameter() {
    let mut params = FluxParams::new();
    params.insert("a", text("old"));
    params.extend(vec![("a".to_string(), text("new")), ("b".to_string(), text("two"))]);
    assert_eq!(params.get("a").unwrap().to_flux_repr(), "\"new\"");
    assert_eq!(params.get("b").unwrap().to_flux_repr(), "\"two\"");
    assert!(params.get("c").is_none());
}

fn is_white_space(c: char) -> bool {
    matches!(
        c as u32,
        0x09..=0x0D
            | 0x20
            | 0x85
            | 0xA0
            | 0x1680
            | 0x2000..=0x200A
            | 0x2028
            | 0x2029
            | 0x202F
            | 0x205F
            | 0x3000
    )
}

#[test]
fn leading_white_space_of_every_kind_is_skipped() {
    let builder = QueryBuilder::new();
    for code in 0u32..=0x10FFFF {
        let Some(c) = char::from_u32(code) else { continue };
        assert_eq!(c.is_whitespace(), is_white_space(c), "U+{:04X}", code);
        if code >= 0x3100 && code % 97 != 0 {
            continue;
        }
        let line = format!("{}__x__ = 1", c);
        let expected = is_white_space(c) || c == '_';
        assert_eq!(builder.is_declaration(&line), expected, "U+{:04X}", code);
        let line = format!("__x__{}= 1", c);
        let expected = is_white_space(c) || c == '_' || c == '=';
        assert_eq!(builder.is_declaration(&line), expected, "U+{:04X}", code);
    }
}

#[test]
fn white_space_alone_declares_nothing() {
    let builder = QueryBuilder::new();
    assert!(!builder.is_declaration(""));
    assert!(!builder.is_declaration(" \t\n"));
    assert!(!builder.is_declaration("__x__ \n"));
    assert!(!builder.is_declaration("= __x__"));
}

#[test]
fn lines_are_told_apart_by_line_feeds_only() {
    let builder = QueryBuilder::new();
    assert_eq!(builder.strip_declarations("a\r\n__x__ = 1\r\nb\r\n"), "a\r\nb\r\n");
    assert_eq!(builder.strip_declarations("a\r__x__ = 1\rb"), "a\r__x__ = 1\rb");
    assert_eq!(builder.strip_declarations("\n\n__x__=1\n\n"), "\n\n\n");
    assert_eq!(builder.strip_declarations("__x__=1"), "");
    assert_eq!(builder.strip_declarations("__x__=1\n__y__ = 2\nz"), "z");
}
