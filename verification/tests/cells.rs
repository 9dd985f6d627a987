use csv_deserializer::csv_type::{CsvAny, CsvKind, FloatValue, NOT_A_NUMBER_KEY};
use csv_deserializer::{NullValues, RawCsvValue};

fn float(f: f64) -> FloatValue {
    FloatValue::new(f.to_bits(), &f.to_string())
}

fn cell(text: &str) -> RawCsvValue {
    RawCsvValue { text: text.to_string(), float: text.parse::<f64>().ok().map(float) }
}

fn classify(text: &str, nulls: &[&'static str]) -> CsvAny {
    cell(text).as_csvany(&NullValues(nulls.to_vec()))
}

#[test]
fn empty_text_is_empty() {
    assert_eq!(classify("", &[]), CsvAny::Empty);
    assert_eq!(classify("", &["NA"]), CsvAny::Empty);
}

#[test]
fn blankness_wins_over_sentinel() {
    // Even when the empty text is itself named as a null value.
    assert_eq!(classify("", &[""]), CsvAny::Empty);
}

#[test]
fn sentinel_is_null() {
    assert_eq!(classify("NA", &["NA"]), CsvAny::Null);
    assert_eq!(classify("NA", &["x", "NA", "y"]), CsvAny::Null);
}

#[test]
fn sentinel_match_is_exact_and_case_sensitive() {
    assert_eq!(classify("na", &["NA"]), CsvAny::Str("na".to_string()));
    assert_eq!(classify("NA ", &["NA"]), CsvAny::Str("NA ".to_string()));
    assert_eq!(classify("N", &["NA"]), CsvAny::Str("N".to_string()));
}

#[test]
fn no_sentinels_means_no_null() {
    assert_eq!(classify("NA", &[]), CsvAny::Str("NA".to_string()));
    assert_eq!(classify("null", &[]), CsvAny::Str("null".to_string()));
}

#[test]
fn sentinel_wins_over_number() {
    assert_eq!(classify("0", &["0"]), CsvAny::Null);
    assert_eq!(classify("1.5", &["1.5"]), CsvAny::Null);
}

#[test]
fn integer_wins_over_float() {
    assert_eq!(classify("10", &[]), CsvAny::Int(10));
    assert_eq!(classify("-101", &[]), CsvAny::Int(-101));
    assert_eq!(classify("+7", &[]), CsvAny::Int(7));
    assert_eq!(classify("007", &[]), CsvAny::Int(7));
    assert_eq!(classify("9223372036854775807", &[]), CsvAny::Int(i64::MAX));
    assert_eq!(classify("-9223372036854775808", &[]), CsvAny::Int(i64::MIN));
}

#[test]
fn integer_is_taken_even_without_a_float() {
    let raw = RawCsvValue { text: "42".to_string(), float: None };
    assert_eq!(raw.as_csvany(&NullValues(Vec::new())), CsvAny::Int(42));
}

#[test]
fn float_only_text_is_float() {
    assert_eq!(classify("21.4", &[]), CsvAny::Float(float(21.4)));
    assert_eq!(classify("1e3", &[]), CsvAny::Float(float(1000.0)));
    assert_eq!(classify(".5", &[]), CsvAny::Float(float(0.5)));
    match classify("21.4", &[]) {
        CsvAny::Float(f) => {
            assert_eq!(f.bits, 21.4f64.to_bits());
            assert_eq!(f.text, "21.4");
        }
        other => panic!("{:?}", other),
    }
}

#[test]
fn integer_too_large_for_64_bits_is_float() {
    assert_eq!(
        classify("9223372036854775808", &[]),
        CsvAny::Float(float(9223372036854775808.0))
    );
    assert_eq!(classify("-9223372036854775809", &[]).kind(), CsvKind::Float);
}

#[test]
fn other_text_is_kept_verbatim() {
    assert_eq!(classify("Hello World ", &[]), CsvAny::Str("Hello World ".to_string()));
    assert_eq!(classify(" 10", &[]), CsvAny::Str(" 10".to_string()));
    assert_eq!(classify("1_000", &[]), CsvAny::Str("1_000".to_string()));
    assert_eq!(classify("+", &[]), CsvAny::Str("+".to_string()));
    assert_eq!(classify("-", &[]), CsvAny::Str("-".to_string()));
    assert_eq!(classify("12abc", &[]), CsvAny::Str("12abc".to_string()));
}

#[test]
fn classifying_the_text_of_a_value_again_keeps_the_kind() {
    for text in ["10", "-101", "+7", "007", "Hello", "x y", "-9223372036854775808"] {
        let first = classify(text, &["NA"]);
        let shown = match &first {
            CsvAny::Int(i) => i.to_string(),
            CsvAny::Str(s) => s.clone(),
            other => panic!("{:?}", other),
        };
        assert_eq!(classify(&shown, &["NA"]), first);
    }
    // The text of a float is classified as a float again where it writes no integer.
    let first = classify("21.40", &[]);
    assert_eq!(classify("21.4", &[]), first);
}

#[test]
fn conversions_into_cells() {
    let text: CsvAny = "Hello".into();
    assert_eq!(text, CsvAny::Str("Hello".to_string()));
    let whole: CsvAny = 42.into();
    assert_eq!(whole, CsvAny::Int(42));
    let number: CsvAny = float(1.5).into();
    assert_eq!(number.kind(), CsvKind::Float);
    assert_ne!(CsvAny::Str("10".to_string()), CsvAny::Int(10));
    assert_ne!(CsvAny::Null, CsvAny::Empty);
}

#[test]
fn cells_are_listed_by_kind_first() {
    let listed = vec![
        CsvAny::Str("z".to_string()),
        CsvAny::Int(i64::MIN),
        CsvAny::Float(float(f64::NEG_INFINITY)),
        CsvAny::Null,
        CsvAny::Empty,
    ];
    for a in 0..listed.len() {
        for b in 0..listed.len() {
            assert_eq!(listed[a].precedes(&listed[b]), a < b, "{} {}", a, b);
            assert_eq!(listed[a] == listed[b], a == b);
        }
    }
}

#[test]
fn texts_are_listed_in_dictionary_order() {
    let texts = ["", "A", "Hello", "Hello World ", "Hello Worlds", "a", "hello", "hello wolrs", "é", "日本"];
    for a in texts {
        for b in texts {
            let x = CsvAny::Str(a.to_string());
            let y = CsvAny::Str(b.to_string());
            assert_eq!(x.precedes(&y), a < b, "{:?} {:?}", a, b);
            assert_eq!(x == y, a == b);
        }
    }
}

#[test]
fn floats_are_listed_as_the_numbers_compare() {
    let numbers = [
        f64::NEG_INFINITY,
        f64::MIN,
        -101.0,
        -21.4,
        -f64::MIN_POSITIVE,
        -5e-324,
        -0.0,
        0.0,
        5e-324,
        f64::MIN_POSITIVE,
        0.1,
        21.4,
        101.0,
        f64::MAX,
        f64::INFINITY,
    ];
    for a in numbers {
        for b in numbers {
            let x = CsvAny::Float(float(a));
            let y = CsvAny::Float(float(b));
            assert_eq!(x.precedes(&y), a < b, "{} {}", a, b);
            assert_eq!(x == y, a == b, "{} {}", a, b);
        }
    }
}

#[test]
fn the_two_zeros_share_a_key() {
    assert_eq!(float(0.0).order_key(), 0);
    assert_eq!(float(-0.0).order_key(), 0);
    assert_eq!(float(1.0).order_key(), 0x3ff0_0000_0000_0000);
    assert_eq!(float(-1.0).order_key(), -0x3ff0_0000_0000_0000);
    assert_eq!(float(f64::INFINITY).order_key(), 0x7ff0_0000_0000_0000);
}

#[test]
fn what_is_not_a_number_is_one_value_above_all_numbers() {
    let nan = float(f64::NAN);
    let other = FloatValue::new(0xfff8_0000_0000_0001, "NaN");
    assert!(nan.is_nan());
    assert!(other.is_nan());
    assert!(!float(f64::INFINITY).is_nan());
    assert_eq!(nan.order_key(), NOT_A_NUMBER_KEY);
    assert_eq!(other.order_key(), NOT_A_NUMBER_KEY);
    assert_eq!(CsvAny::Float(nan.clone()), CsvAny::Float(other));
    assert!(CsvAny::Float(float(f64::INFINITY)).precedes(&CsvAny::Float(nan)));
}

#[test]
fn clone_keeps_the_cell() {
    let cells = vec![
        CsvAny::Str("Hello".to_string()),
        CsvAny::Int(-3),
        CsvAny::Float(float(2.5)),
        CsvAny::Null,
        CsvAny::Empty,
    ];
    for c in &cells {
        assert_eq!(&c.clone(), c);
    }
    match cells[2].clone() {
        CsvAny::Float(f) => assert_eq!((f.bits, f.text.as_str()), (2.5f64.to_bits(), "2.5")),
        other => panic!("{:?}", other),
    }
}

#[test]
fn null_values_contains() {
    let nulls = NullValues(vec!["NA", "", "n/a"]);
    assert!(nulls.contains("NA"));
    assert!(nulls.contains(""));
    assert!(nulls.contains("n/a"));
    assert!(!nulls.contains("N"));
    assert!(!nulls.contains("NA "));
    assert!(!NullValues::default().contains("NA"));
}

#[test]
fn comparison_operators_follow_the_listing_order() {
    let listed = vec![
        CsvAny::Str("a".to_string()),
        CsvAny::Str("b".to_string()),
        CsvAny::Int(-1),
        CsvAny::Int(3),
        CsvAny::Float(float(-2.5)),
        CsvAny::Float(float(7.0)),
        CsvAny::Null,
        CsvAny::Empty,
    ];
    for a in 0..listed.len() {
        for b in 0..listed.len() {
            assert_eq!(listed[a] < listed[b], a < b);
            assert_eq!(listed[a] <= listed[b], a <= b);
            assert_eq!(listed[a] > listed[b], a > b);
            assert_eq!(listed[a].partial_cmp(&listed[b]), Some(a.cmp(&b)));
        }
    }
    assert_eq!(
        CsvAny::Float(float(0.0)).partial_cmp(&CsvAny::Float(float(-0.0))),
        Some(std::cmp::Ordering::Equal)
    );
}
