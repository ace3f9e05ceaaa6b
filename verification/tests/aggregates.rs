use pglance::write::aggregate::{
    format_date32, format_date64, format_decimal128, format_timestamp_micros, lance_max_impl,
    lance_min_impl, micros_from, should_replace, text_in_range, update_float, update_ord,
    ColumnValues, Extremum, ExtremumState, ExtremumValue,
};
use pglance::write::columns::{
    ColumnField, ColumnType, Float16Bits, Float32Bits, Float64Bits, TimeUnit,
};

fn field(name: &str, data_type: ColumnType, type_text: &str) -> ColumnField {
    ColumnField { name: name.to_string(), data_type, type_text: type_text.to_string() }
}

fn text(value: Option<ExtremumValue>) -> Option<String> {
    value.map(|v| match v {
        ExtremumValue::Text(s) => s,
        ExtremumValue::Float16(bits) => format!("{:#06x}", bits.0),
        ExtremumValue::Float32(bits) => f32::from_bits(bits.0).to_string(),
        ExtremumValue::Float64(bits) => f64::from_bits(bits.0).to_string(),
    })
}

fn extreme(
    data_type: ColumnType,
    batches: Vec<ColumnValues>,
    op: Extremum,
) -> Result<Option<String>, String> {
    let mut state = ExtremumState::new(data_type, "T")?;
    for batch in &batches {
        state.update(batch, op)?;
    }
    state.finish().map(text)
}

fn f32s(values: &[Option<f32>]) -> Vec<Option<Float32Bits>> {
    values.iter().map(|v| v.map(|x| Float32Bits(x.to_bits()))).collect()
}

fn f64s(values: &[Option<f64>]) -> Vec<Option<Float64Bits>> {
    values.iter().map(|v| v.map(|x| Float64Bits(x.to_bits()))).collect()
}

#[test]
fn column_is_the_first_of_its_name() {
    let fields = vec![
        field("a", ColumnType::Int8, "Int8"),
        field("b", ColumnType::Date32, "Date32"),
        field("b", ColumnType::Utf8, "Utf8"),
    ];
    let query = lance_min_impl(&fields, "b").unwrap();
    assert_eq!(query.column_name, "b");
    assert_eq!(query.data_type, ColumnType::Date32);
    assert_eq!(query.type_text, "Date32");
    assert_eq!(query.op, Extremum::Min);
    assert_eq!(lance_max_impl(&fields, "a").unwrap().op, Extremum::Max);
}

#[test]
fn missing_column_is_an_error() {
    let fields = vec![field("a", ColumnType::Int8, "Int8")];
    for r in [lance_min_impl(&fields, "x"), lance_max_impl(&fields, "x")] {
        assert_eq!(r.err(), Some("column 'x' not found in Lance dataset".to_string()));
    }
}

#[test]
fn types_without_extremes_are_errors() {
    for data_type in [
        ColumnType::Boolean,
        ColumnType::Utf8,
        ColumnType::Binary,
        ColumnType::Other,
    ] {
        assert_eq!(
            ExtremumState::new(data_type, "Shown"),
            Err(
                "lance_min/lance_max do not support column type Shown; supported types are \
                 integer, float, date, timestamp, and decimal128"
                    .to_string()
            )
        );
    }
}

#[test]
fn integers_have_extremes() {
    let batches = || {
        vec![
            ColumnValues::Int32(vec![Some(5), None, Some(-7)]),
            ColumnValues::Int32(vec![]),
            ColumnValues::Int32(vec![None, Some(12)]),
        ]
    };
    assert_eq!(extreme(ColumnType::Int32, batches(), Extremum::Min), Ok(Some("-7".to_string())));
    assert_eq!(extreme(ColumnType::Int32, batches(), Extremum::Max), Ok(Some("12".to_string())));
    assert_eq!(extreme(ColumnType::Int32, vec![], Extremum::Max), Ok(None));
    let one = [
        (ColumnType::Int8, ColumnValues::Int8(vec![Some(i8::MIN)]), "-128"),
        (ColumnType::Int16, ColumnValues::Int16(vec![Some(-3)]), "-3"),
        (ColumnType::Int64, ColumnValues::Int64(vec![Some(i64::MIN)]), "-9223372036854775808"),
        (ColumnType::UInt8, ColumnValues::UInt8(vec![Some(255)]), "255"),
        (ColumnType::UInt16, ColumnValues::UInt16(vec![Some(65535)]), "65535"),
        (ColumnType::UInt32, ColumnValues::UInt32(vec![Some(u32::MAX)]), "4294967295"),
        (ColumnType::UInt64, ColumnValues::UInt64(vec![Some(u64::MAX)]), "18446744073709551615"),
    ];
    for (data_type, column, expected) in one {
        assert_eq!(extreme(data_type, vec![column], Extremum::Min), Ok(Some(expected.to_string())));
    }
}

#[test]
fn arrays_of_another_type_are_errors() {
    let labels = [
        (ColumnType::Int8, "int8"),
        (ColumnType::Int16, "int16"),
        (ColumnType::Int32, "int32"),
        (ColumnType::Int64, "int64"),
        (ColumnType::UInt8, "uint8"),
        (ColumnType::UInt16, "uint16"),
        (ColumnType::UInt32, "uint32"),
        (ColumnType::UInt64, "uint64"),
        (ColumnType::Float16, "float16"),
        (ColumnType::Float32, "float32"),
        (ColumnType::Float64, "float64"),
        (ColumnType::Date32, "date32"),
        (ColumnType::Date64, "date64"),
        (ColumnType::Timestamp(TimeUnit::Second, true), "timestamp second"),
        (ColumnType::Timestamp(TimeUnit::Millisecond, true), "timestamp millisecond"),
        (ColumnType::Timestamp(TimeUnit::Microsecond, true), "timestamp microsecond"),
        (ColumnType::Timestamp(TimeUnit::Nanosecond, true), "timestamp nanosecond"),
        (ColumnType::Decimal128(2), "decimal128"),
    ];
    for (data_type, label) in labels {
        assert_eq!(
            extreme(data_type, vec![ColumnValues::Other], Extremum::Min),
            Err(format!("invalid {} array", label))
        );
    }
}

#[test]
fn floats_have_extremes_without_nan() {
    let values = [Some(f32::NAN), Some(1.5), None, Some(-2.25), Some(-f32::NAN), Some(0.0)];
    let batch = || vec![ColumnValues::Float32(f32s(&values))];
    assert_eq!(extreme(ColumnType::Float32, batch(), Extremum::Min), Ok(Some("-2.25".to_string())));
    assert_eq!(extreme(ColumnType::Float32, batch(), Extremum::Max), Ok(Some("1.5".to_string())));
    let wide = || vec![ColumnValues::Float64(f64s(&[Some(1e300), Some(f64::NEG_INFINITY)]))];
    assert_eq!(extreme(ColumnType::Float64, wide(), Extremum::Min), Ok(Some("-inf".to_string())));
    assert_eq!(
        extreme(ColumnType::Float64, vec![ColumnValues::Float64(f64s(&[Some(f64::NAN)]))], Extremum::Max),
        Ok(None)
    );
}

#[test]
fn half_precision_has_extremes_without_nan() {
    // NaN, 1.5, null, -2.25, -NaN, -0.0, 0.0, infinity
    let values = [0x7e00, 0x3e00, 0, 0xc080, 0xfe00, 0x8000, 0x0000, 0x7c00];
    let column = || {
        let mut list: Vec<Option<Float16Bits>> =
            values.iter().map(|bits| Some(Float16Bits(*bits))).collect();
        list[2] = None;
        vec![ColumnValues::Float16(list)]
    };
    assert_eq!(extreme(ColumnType::Float16, column(), Extremum::Min), Ok(Some("0xc080".to_string())));
    assert_eq!(extreme(ColumnType::Float16, column(), Extremum::Max), Ok(Some("0x7c00".to_string())));
    assert_eq!(extreme(ColumnType::Float16, vec![], Extremum::Max), Ok(None));
    let nothing = vec![ColumnValues::Float16(vec![Some(Float16Bits(0x7c01)), None])];
    assert_eq!(extreme(ColumnType::Float16, nothing, Extremum::Min), Ok(None));
    let ascending = [0xfc00, 0xc080, 0x8001, 0x8000, 0x0001, 0x3c00, 0x7c00];
    for (i, a) in ascending.iter().enumerate() {
        for (j, b) in ascending.iter().enumerate() {
            assert_eq!(
                should_replace(Some(Float16Bits(*b)), Float16Bits(*a), Extremum::Min),
                i < j
            );
        }
    }
    assert!(!should_replace(Some(Float16Bits(0x8000)), Float16Bits(0), Extremum::Max));
}

#[test]
fn bits_are_ordered_as_numbers() {
    let numbers = [
        f64::NEG_INFINITY, f64::MIN, -1.0, -f64::MIN_POSITIVE, -5e-324, -0.0, 0.0, 5e-324,
        f64::MIN_POSITIVE, 0.1, 1.0, f64::MAX, f64::INFINITY,
    ];
    for a in numbers {
        for b in numbers {
            let current = Some(Float64Bits(b.to_bits()));
            assert_eq!(should_replace(current, Float64Bits(a.to_bits()), Extremum::Min), a < b);
            assert_eq!(should_replace(current, Float64Bits(a.to_bits()), Extremum::Max), a > b);
            let narrow = Some(Float32Bits((b as f32).to_bits()));
            assert_eq!(
                should_replace(narrow, Float32Bits((a as f32).to_bits()), Extremum::Min),
                (a as f32) < (b as f32)
            );
        }
    }
}

#[test]
fn values_that_are_no_numbers_replace_nothing() {
    let nans = [f64::NAN, -f64::NAN, f64::from_bits(0x7ff0_0000_0000_0001)];
    let numbers = [f64::NEG_INFINITY, -1.0, 0.0, 1.0, f64::INFINITY];
    let bits = |x: f64| Float64Bits(x.to_bits());
    for op in [Extremum::Min, Extremum::Max] {
        for nan in nans {
            for x in numbers.iter().chain(&nans) {
                assert!(!should_replace(Some(bits(nan)), bits(*x), op));
                assert!(!should_replace(Some(bits(*x)), bits(nan), op));
            }
            assert!(should_replace(None, bits(nan), op));
            assert_eq!(
                update_float(Some(bits(nan)), &[Some(bits(1.0)), Some(bits(-1.0))], op),
                Some(bits(nan))
            );
        }
        let single = Float32Bits(f32::NAN.to_bits());
        assert!(!should_replace(Some(Float32Bits(1.0f32.to_bits())), single, op));
        assert!(!should_replace(Some(single), Float32Bits(1.0f32.to_bits()), op));
        assert!(!should_replace(Some(Float16Bits(0x3c00)), Float16Bits(0x7e00), op));
        assert!(!should_replace(Some(Float16Bits(0xfe00)), Float16Bits(0x3c00), op));
        assert!(should_replace(None, Float16Bits(0x7e00), op));
    }
}

#[test]
fn first_of_equal_values_stays() {
    let zeros = f64s(&[Some(-0.0), Some(0.0)]);
    assert_eq!(
        update_float(None, &zeros, Extremum::Min),
        Some(Float64Bits((-0.0f64).to_bits()))
    );
    assert_eq!(
        update_float(None, &zeros, Extremum::Max),
        Some(Float64Bits((-0.0f64).to_bits()))
    );
}

#[test]
fn cutting_into_batches_does_not_matter() {
    let values: Vec<Option<i64>> = vec![Some(3), None, Some(-1), Some(8), Some(8), None, Some(0)];
    for op in [Extremum::Min, Extremum::Max] {
        let whole = update_ord(None, &values, op);
        for cut in 0..=values.len() {
            let first = update_ord(None, &values[..cut], op);
            assert_eq!(update_ord(first, &values[cut..], op), whole);
        }
    }
}

#[test]
fn dates_are_days_of_the_calendar() {
    assert_eq!(format_date32(0), Ok("1970-01-01".to_string()));
    assert_eq!(format_date32(19_800), Ok("2024-03-18".to_string()));
    assert_eq!(format_date32(-1), Ok("1969-12-31".to_string()));
    assert_eq!(format_date32(95_026_236), Ok("+262142-12-31".to_string()));
    assert_eq!(format_date32(-96_465_292), Ok("-262143-01-01".to_string()));
    for outside in [95_026_237, -96_465_293, i32::MAX, i32::MIN] {
        assert_eq!(format_date32(outside), Err("date32 value out of range".to_string()));
    }
    assert_eq!(
        extreme(ColumnType::Date32, vec![ColumnValues::Date32(vec![Some(0), Some(1)])], Extremum::Max),
        Ok(Some("1970-01-02".to_string()))
    );
}

#[test]
fn milliseconds_are_days_of_the_calendar() {
    assert_eq!(format_date64(86_400_000), Ok("1970-01-02".to_string()));
    assert_eq!(format_date64(-1), Ok("1969-12-31".to_string()));
    let last = 95_026_237i64 * 86_400_000 - 1;
    assert_eq!(format_date64(last), Ok("+262142-12-31".to_string()));
    assert_eq!(format_date64(last + 1), Err("date64 value out of range".to_string()));
    let first = -96_465_292i64 * 86_400_000;
    assert_eq!(format_date64(first), Ok("-262143-01-01".to_string()));
    assert_eq!(format_date64(first - 1), Err("date64 value out of range".to_string()));
    assert_eq!(
        extreme(ColumnType::Date64, vec![ColumnValues::Date64(vec![Some(0)])], Extremum::Max),
        Ok(Some("1970-01-01".to_string()))
    );
}

#[test]
fn timestamps_are_moments_of_the_calendar() {
    assert_eq!(
        format_timestamp_micros(1_700_000_000_123_456, false),
        Ok("2023-11-14 22:13:20.123456".to_string())
    );
    assert_eq!(
        format_timestamp_micros(1_700_000_000_123_456, true),
        Ok("2023-11-14T22:13:20.123456Z".to_string())
    );
    assert_eq!(format_timestamp_micros(-1, false), Ok("1969-12-31 23:59:59.999999".to_string()));
    let last = 95_026_237i64 * 86_400_000_000 - 1;
    let first = -96_465_292i64 * 86_400_000_000;
    for has_tz in [false, true] {
        assert!(format_timestamp_micros(last, has_tz).is_ok());
        assert!(format_timestamp_micros(first, has_tz).is_ok());
        for outside in [last + 1, first - 1, i64::MAX, i64::MIN] {
            assert_eq!(
                format_timestamp_micros(outside, has_tz),
                Err("timestamp value out of range".to_string())
            );
        }
    }
}

#[test]
fn units_are_turned_into_microseconds() {
    assert_eq!(micros_from(2, TimeUnit::Second), 2_000_000);
    assert_eq!(micros_from(-2, TimeUnit::Millisecond), -2_000);
    assert_eq!(micros_from(7, TimeUnit::Microsecond), 7);
    assert_eq!(micros_from(1_999, TimeUnit::Nanosecond), 1);
    assert_eq!(micros_from(-1_999, TimeUnit::Nanosecond), -1);
    assert_eq!(micros_from(i64::MIN, TimeUnit::Nanosecond), i64::MIN / 1_000);
    assert_eq!(micros_from(i64::MAX, TimeUnit::Second), i64::MAX);
    assert_eq!(micros_from(i64::MIN, TimeUnit::Millisecond), i64::MIN);
}

#[test]
fn timestamps_have_extremes() {
    let one = [
        (TimeUnit::Second, ColumnValues::TimestampSecond(vec![Some(1), Some(2)])),
        (TimeUnit::Millisecond, ColumnValues::TimestampMillisecond(vec![Some(1_000), Some(2_000)])),
        (TimeUnit::Microsecond, ColumnValues::TimestampMicrosecond(vec![Some(2_000_000)])),
        (TimeUnit::Nanosecond, ColumnValues::TimestampNanosecond(vec![Some(2_000_000_999)])),
    ];
    for (unit, column) in one {
        assert_eq!(
            extreme(ColumnType::Timestamp(unit, true), vec![column], Extremum::Max),
            Ok(Some("1970-01-01T00:00:02.000000Z".to_string()))
        );
    }
    assert_eq!(
        extreme(
            ColumnType::Timestamp(TimeUnit::Second, false),
            vec![ColumnValues::TimestampSecond(vec![Some(i64::MAX)])],
            Extremum::Max
        ),
        Err("timestamp value out of range".to_string())
    );
}

#[test]
fn texts_in_range_are_kept() {
    assert_eq!(text_in_range(Some("x".to_string()), "kind"), Ok("x".to_string()));
    assert_eq!(text_in_range(None, "kind"), Err("kind value out of range".to_string()));
}

#[test]
fn decimals_have_their_point() {
    let cases = [
        (12_345, 2, "123.45"),
        (-12_345, 2, "-123.45"),
        (5, 2, "0.05"),
        (-5, 2, "-0.05"),
        (0, 3, "0.000"),
        (100, 2, "1.00"),
        (99, 2, "0.99"),
        (7, 0, "7"),
        (7, -3, "7000"),
        (-7, -1, "-70"),
        (0, -2, "000"),
        (1, 38, "0.00000000000000000000000000000000000001"),
    ];
    for (value, scale, expected) in cases {
        assert_eq!(format_decimal128(value, scale), expected);
    }
    assert_eq!(
        format_decimal128(i128::MIN, 1),
        "-17014118346046923173168730371588410572.8"
    );
    assert_eq!(format_decimal128(1, 127).len(), 129);
    assert_eq!(
        extreme(
            ColumnType::Decimal128(2),
            vec![ColumnValues::Decimal128(vec![Some(150), Some(-20), None])],
            Extremum::Min
        ),
        Ok(Some("-0.20".to_string()))
    );
}
