use chart_pipeline::influxdb::flux_value::{Comparable, Dictionary, FluxValue};
use chart_pipeline::timestamp::Timestamp;
use chrono::{Local, TimeZone, Utc};
use indexmap::IndexMap;

fn text(s: &str) -> FluxValue {
    FluxValue::Comparable(Comparable::String(s.to_string()))
}

#[test]
fn comparable_string_to_flux_repr() {
    assert_eq!(Comparable::String("string".to_string()).to_flux_repr(), "\"string\"");
}

#[test]
fn comparable_time_to_flux_repr() {
    let time = Utc.with_ymd_and_hms(2014, 7, 8, 9, 10, 11).unwrap();
    let instant = Timestamp::new(time.timestamp(), time.timestamp_subsec_nanos()).unwrap();
    assert_eq!(Comparable::Time(instant).to_flux_repr(), "2014-07-08T09:10:11Z");
}

#[test]
fn flux_query_flux_value_comparable_to_flux_repr() {
    let comparable = Comparable::String("string".to_string());
    let comp_repr = comparable.to_flux_repr();
    let value = FluxValue::Comparable(comparable);
    assert_eq!(value.to_flux_repr(), comp_repr)
}

#[test]
fn flux_value_array_to_flux_repr() {
    let value = FluxValue::Array(vec![text("val1"), text("val2")]);
    assert_eq!(value.to_flux_repr(), r#"["val1", "val2"]"#)
}

#[test]
fn flux_value_dict_to_flux_repr() {
    let mut dict = Dictionary::new();
    dict.insert(Comparable::String("key1".to_string()), text("value1"));
    dict.insert(
        Comparable::String("key2".to_string()),
        FluxValue::Array(vec![text("value2.1"), text("value2.2")]),
    );
    let value = FluxValue::Dictionary(dict);
    assert_eq!(
        value.to_flux_repr(),
        r#"["key1": "value1", "key2": ["value2.1", "value2.2"]]"#
    )
}

#[test]
fn flux_value_raw_expression_to_flux_repr() {
    const EXPRESSION: &str = r#"raw "quoted" expression"#;
    let value = FluxValue::RawExpression(EXPRESSION.to_string());
    assert_eq!(value.to_flux_repr(), EXPRESSION)
}

#[test]
fn rendering_twice_gives_the_same_text() {
    let mut dict = Dictionary::new();
    dict.insert(Comparable::Time(Timestamp::new(1, 500_000_000).unwrap()), text("half"));
    let value = FluxValue::Array(vec![text("a"), FluxValue::Dictionary(dict)]);
    assert_eq!(value.to_flux_repr(), value.to_flux_repr());
    assert_eq!(value.to_flux_repr(), "[\"a\", [1970-01-01T00:00:01.500Z: \"half\"]]");
}

#[test]
fn string_is_quoted_without_escaping() {
    let value = Comparable::String("say \"hi\"".to_string());
    assert_eq!(value.to_flux_repr(), "\"say \"hi\"\"");
    assert_eq!(Comparable::String(String::new()).to_flux_repr(), "\"\"");
}

#[test]
fn empty_collections_render_as_empty_brackets() {
    assert_eq!(FluxValue::Array(vec![]).to_flux_repr(), "[]");
    assert_eq!(FluxValue::Dictionary(Dictionary::new()).to_flux_repr(), "[]");
    assert_eq!(FluxValue::Array(vec![text("only")]).to_flux_repr(), "[\"only\"]");
}

#[test]
fn array_of_n_items_has_n_minus_one_separators() {
    let items: Vec<FluxValue> = (0..5).map(|_| FluxValue::RawExpression("x".to_string())).collect();
    let rendered = FluxValue::Array(items).to_flux_repr();
    assert_eq!(rendered, "[x, x, x, x, x]");
    assert_eq!(rendered.matches(", ").count(), 4);
}

#[test]
fn time_precision_follows_the_instant() {
    let render = |secs, nanos| Timestamp::new(secs, nanos).unwrap().to_rfc3339();
    assert_eq!(render(0, 0), "1970-01-01T00:00:00Z");
    assert_eq!(render(0, 120_000_000), "1970-01-01T00:00:00.120Z");
    assert_eq!(render(0, 120_300_000), "1970-01-01T00:00:00.120300Z");
    assert_eq!(render(0, 120_300_400), "1970-01-01T00:00:00.120300400Z");
    assert_eq!(render(-1, 0), "1969-12-31T23:59:59Z");
    assert_eq!(render(-62_167_219_200, 0), "0000-01-01T00:00:00Z");
    assert_eq!(render(253_402_300_799, 999_999_999), "9999-12-31T23:59:59.999999999Z");
}

#[test]
fn timestamp_outside_four_digit_years_is_refused() {
    assert!(Timestamp::new(-62_167_219_201, 0).is_none());
    assert!(Timestamp::new(253_402_300_800, 0).is_none());
    assert!(Timestamp::new(0, 1_000_000_000).is_none());
    assert!(Timestamp::from_millis(253_402_300_800_000).is_none());
    assert!(Timestamp::from_millis(-62_167_219_200_001).is_none());
}

#[test]
fn timestamp_millis_round_trip() {
    for millis in [0i64, 1, 999, 1000, -1, -999, -1000, -1001, 1_589_469_798_123, -62_167_219_200_000] {
        let instant = Timestamp::from_millis(millis).unwrap();
        assert_eq!(instant.timestamp_millis(), millis);
    }
    let instant = Timestamp::from_millis(-1).unwrap();
    assert_eq!((instant.seconds(), instant.subsec_nanos()), (-1, 999_000_000));
    assert_eq!(Timestamp::new(5, 999_999_999).unwrap().timestamp_millis(), 5_999);
}

#[test]
fn flux_query_flux_value_from_local_time() {
    let local_time = Local.with_ymd_and_hms(2020, 5, 14, 17, 23, 18).unwrap();
    let utc = local_time.with_timezone(&Utc);
    let instant = Timestamp::new(utc.timestamp(), utc.timestamp_subsec_nanos()).unwrap();
    let flux_value = FluxValue::Comparable(Comparable::Time(instant));
    match flux_value {
        FluxValue::Comparable(Comparable::Time(t)) => {
            assert_eq!(t.seconds(), utc.timestamp());
            assert_eq!(t.subsec_nanos(), utc.timestamp_subsec_nanos());
            assert_eq!(t.to_rfc3339(), utc.to_rfc3339_opts(chrono::SecondsFormat::AutoSi, true));
        }
        _ => panic!("not a time"),
    }
}

#[test]
fn dictionary_insert_replaces_in_place() {
    let mut dict = Dictionary::new();
    assert!(dict.insert(Comparable::String("a".to_string()), text("1")).is_none());
    assert!(dict.insert(Comparable::String("b".to_string()), text("2")).is_none());
    let earlier = dict.insert(Comparable::String("a".to_string()), text("3")).unwrap();
    assert_eq!(earlier.to_flux_repr(), "\"1\"");
    assert_eq!(dict.len(), 2);
    assert_eq!(FluxValue::Dictionary(dict).to_flux_repr(), "[\"a\": \"3\", \"b\": \"2\"]");
}

#[test]
fn dictionary_keys_of_different_kinds_differ() {
    let mut dict = Dictionary::new();
    let instant = Timestamp::new(0, 0).unwrap();
    dict.insert(Comparable::Time(instant), text("epoch"));
    dict.insert(Comparable::String("1970-01-01T00:00:00Z".to_string()), text("text"));
    assert_eq!(dict.len(), 2);
    assert_eq!(dict.get_index_of(&Comparable::Time(instant)), Some(0));
    assert_eq!(dict.get_index_of(&Comparable::String("x".to_string())), None);
    let (key, value) = dict.first().unwrap();
    assert!(key.eq(&Comparable::Time(instant)));
    assert_eq!(value.to_flux_repr(), "\"epoch\"");
    assert!(dict.get_index(2).is_none());
}

#[test]
fn string_array_and_dictionary() {
    let items = vec!["0".to_string(), "2".to_string()];
    assert_eq!(FluxValue::string_array(&items).to_flux_repr(), "[\"0\", \"2\"]");
    let pairs = vec![("0".to_string(), "press".to_string()), ("2".to_string(), "saw".to_string())];
    assert_eq!(
        FluxValue::string_dictionary(&pairs).to_flux_repr(),
        "[\"0\": \"press\", \"2\": \"saw\"]"
    );
}

#[test]
fn flux_query_flux_value_from_string() {
    let flux_value: FluxValue = "string".to_string().into();
    match flux_value {
        FluxValue::Comparable(Comparable::String(s)) => assert_eq!(s, "string"),
        _ => panic!("not a text"),
    }
}

#[test]
fn flux_value_from_timestamp() {
    let instant = Timestamp::new(12, 0).unwrap();
    let flux_value: FluxValue = instant.into();
    match flux_value {
        FluxValue::Comparable(Comparable::Time(t)) => {
            assert_eq!((t.seconds(), t.subsec_nanos()), (12, 0))
        }
        _ => panic!("not a time"),
    }
}

#[test]
fn flux_value_from_vec() {
    let flux_value: FluxValue = vec![
        vec!["a".to_string(), "b".to_string()],
        vec!["c".to_string(), "d".to_string()],
    ]
    .into();
    let strings = |value: &FluxValue| -> Vec<String> {
        match value {
            FluxValue::Array(items) => items
                .iter()
                .map(|item| match item {
                    FluxValue::Comparable(Comparable::String(s)) => s.clone(),
                    _ => panic!("not a text"),
                })
                .collect(),
            _ => panic!("not an array"),
        }
    };
    match flux_value {
        FluxValue::Array(arr) => {
            assert_eq!(arr.len(), 2);
            assert_eq!(strings(&arr[0]), vec!["a", "b"]);
            assert_eq!(strings(&arr[1]), vec!["c", "d"]);
        }
        _ => panic!("not an array"),
    }
}

#[test]
fn flux_value_from_indexmap() {
    let flux_value: FluxValue = vec![("key".to_string(), "value".to_string())]
        .into_iter()
        .collect::<IndexMap<_, _>>()
        .into();
    match flux_value {
        FluxValue::Dictionary(im) => match im.first() {
            Some((Comparable::String(key), FluxValue::Comparable(Comparable::String(value)))) => {
                assert_eq!(key, "key");
                assert_eq!(value, "value");
            }
            _ => panic!("not a pair of texts"),
        },
        _ => panic!("not a dictionary"),
    }
}

#[test]
fn flux_value_from_indexmap_keeps_the_order() {
    let mut map = IndexMap::new();
    map.insert("b".to_string(), "1".to_string());
    map.insert("a".to_string(), "2".to_string());
    map.insert("b".to_string(), "3".to_string());
    assert_eq!(FluxValue::dictionary_from(&map).to_flux_repr(), "[\"b\": \"3\", \"a\": \"2\"]");
    assert_eq!(FluxValue::from(Dictionary::new()).to_flux_repr(), "[]");
}

#[test]
fn comparable_equality_and_clone() {
    let text = Comparable::String("a".to_string());
    assert!(text == text.clone());
    assert!(text != Comparable::String("b".to_string()));
    let instant = Comparable::from(Timestamp::new(1, 2).unwrap());
    assert!(instant == instant.clone());
    assert!(instant != Comparable::Time(Timestamp::new(1, 3).unwrap()));
    assert!(instant != text);
}

#[test]
fn rfc3339_text_is_as_long_as_its_instant_needs() {
    let seconds = [-62_167_219_200i64, -1_000_000_000, -1, 0, 59, 1_589_469_798, 253_402_300_799];
    let nanos = [
        (0u32, 20usize),
        (1, 30),
        (1_000, 27),
        (1_000_000, 24),
        (999_000_000, 24),
        (999_999_000, 27),
        (999_999_999, 30),
        (500_000_000, 24),
        (120_300_000, 27),
    ];
    for secs in seconds {
        for (nanos, len) in nanos {
            let text = Timestamp::new(secs, nanos).unwrap().to_rfc3339();
            assert_eq!(text.len(), len, "{}", text);
            assert!(text.ends_with('Z'));
            assert_eq!(&text[10..11], "T");
        }
    }
}
