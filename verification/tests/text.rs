use chart_pipeline::text::{decimal_i64, decimal_u64, slice, slice_from};

#[test]
fn decimal_numbers() {
    for n in [0u64, 1, 9, 10, 11, 99, 100, 12_345, u64::MAX] {
        assert_eq!(decimal_u64(n), n.to_string());
    }
    for n in [0i64, 7, -7, 10, -10, 1_589_469_798_000, i64::MAX, i64::MIN, i64::MIN + 1] {
        assert_eq!(decimal_i64(n), n.to_string());
    }
}

#[test]
fn slices_by_byte_offset() {
    let text = "aé→z";
    assert_eq!(slice(text, 0, 1), "a");
    assert_eq!(slice(text, 1, 3), "é");
    assert_eq!(slice(text, 3, 6), "→");
    assert_eq!(slice(text, 3, 3), "");
    assert_eq!(slice(text, 0, 7), text);
    assert_eq!(slice_from(text, 6), "z");
    assert_eq!(slice_from(text, 7), "");
    assert_eq!(slice_from(text, 0), text);
}
