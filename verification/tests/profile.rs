use csv_deserializer::csv_dataset::CsvDataset;
use csv_deserializer::csv_type::{CsvAny, FloatValue};
use csv_deserializer::dataset_info::{find_column, holds_kind, profiles_of, ColumnInfo, Variant};
use csv_deserializer::csv_type::CsvKind;
use csv_deserializer::{ColName, NullValues, ValueNamesView};

fn float(f: f64) -> CsvAny {
    CsvAny::Float(FloatValue::new(f.to_bits(), &f.to_string()))
}

fn text(s: &str) -> CsvAny {
    CsvAny::Str(s.to_string())
}

fn profile(values: Vec<CsvAny>) -> ColumnInfo {
    let names = vec![ColName::new("column")];
    let values = vec![values];
    ColumnInfo::new(ValueNamesView { values: &values, names: &names }, "column").unwrap()
}

fn listed(info: &ColumnInfo) -> Vec<CsvAny> {
    info.unique_values.iter().map(|v| v.csvany.clone()).collect()
}

fn total(info: &ColumnInfo) -> usize {
    info.number_of_empties
        + info.number_of_nulls
        + info.number_of_strings
        + info.number_of_floats
        + info.number_of_ints
}

#[test]
fn populate_info() {
    // 1. Setup Column Names
    let names = vec![ColName::new("mixed_data"), ColName::new("another")];
    let col1 = vec![
        10.into(),
        10.into(),
        20.into(),
        float(21.4),
        float(21.4),
        "Hello".into(),
        "Hello".into(),
        "hello".into(),
        CsvAny::Null,
        CsvAny::Null,
        CsvAny::Empty,
        CsvAny::Empty,
    ];
    let col2 = vec![
        101.into(),
        (-101).into(),
        20.into(),
        float(21.4),
        float(21.4),
        "Hello World ".into(),
        "Hello Worlds".into(),
        "hello wolrs".into(),
        CsvAny::Null,
        CsvAny::Null,
        CsvAny::Empty,
        CsvAny::Empty,
    ];

    let values = vec![col1, col2];

    let mut df = CsvDataset { names, values, null_values: NullValues(Vec::new()), info: Vec::new() };

    CsvDataset::populate_column_infos(&mut df);

    // Ensure info was created for each column
    assert_eq!(df.info.len(), 2);

    // check the first column only
    let info1 = &df.info[0];

    // --- Assert Counters (Total occurrences, NOT unique) ---
    // We had 3 Ints total (10, 10, 20)
    assert_eq!(info1.number_of_ints, 3, "Should count 3 integers total");

    assert_eq!(info1.number_of_strings, 3, "Should count 3 string");

    assert_eq!(info1.number_of_nulls, 2, "Should count 2 null");

    assert_eq!(info1.number_of_empties, 2, "Should count 2 empty");

    assert_eq!(info1.number_of_floats, 2, "Should count 2 floats");

    assert_eq!(info1.unique_values.len(), 7, "Should have 7 unique values");

    // Verify sanitized name on the Info struct matches input
    assert_eq!(info1.column_name.raw, "mixed_data");
}

#[test]
fn populate_info_lists_values_in_order() {
    let info = profile(vec![
        10.into(),
        10.into(),
        20.into(),
        float(21.4),
        float(21.4),
        "Hello".into(),
        "Hello".into(),
        "hello".into(),
        CsvAny::Null,
        CsvAny::Null,
        CsvAny::Empty,
        CsvAny::Empty,
    ]);
    assert_eq!(
        listed(&info),
        vec![
            text("Hello"),
            text("hello"),
            CsvAny::Int(10),
            CsvAny::Int(20),
            float(21.4),
            CsvAny::Null,
            CsvAny::Empty
        ]
    );
}

#[test]
fn integer_column_with_null_and_empty() {
    let info = profile(vec![10.into(), 10.into(), 20.into(), CsvAny::Null, CsvAny::Empty]);
    assert_eq!(info.number_of_ints, 3);
    assert_eq!(info.number_of_nulls, 1);
    assert_eq!(info.number_of_empties, 1);
    assert_eq!(info.number_of_strings, 0);
    assert_eq!(info.number_of_floats, 0);
    // The distinct values in listing order: the integers, null, and the empty cell after it.
    let values = listed(&info);
    assert_eq!(&values[..3], &[CsvAny::Int(10), CsvAny::Int(20), CsvAny::Null]);
    assert_eq!(values, vec![CsvAny::Int(10), CsvAny::Int(20), CsvAny::Null, CsvAny::Empty]);
}

#[test]
fn integer_column_without_empty_lists_three_values() {
    let info = profile(vec![10.into(), 10.into(), 20.into(), CsvAny::Null]);
    assert_eq!(listed(&info), vec![CsvAny::Int(10), CsvAny::Int(20), CsvAny::Null]);
}

#[test]
fn counts_add_up_to_the_number_of_cells() {
    let columns = vec![
        vec![],
        vec![CsvAny::Null],
        vec![CsvAny::Empty, CsvAny::Empty],
        vec![1.into(), 2.into(), 1.into()],
        vec![text("a"), 1.into(), float(0.5), CsvAny::Null, CsvAny::Empty, text("a"), float(0.5)],
    ];
    for column in columns {
        let n = column.len();
        assert_eq!(total(&profile(column)), n);
    }
}

#[test]
fn no_value_is_listed_twice_and_null_is_listed_once() {
    let columns = vec![
        vec![],
        vec![CsvAny::Null, CsvAny::Null, CsvAny::Null],
        vec![CsvAny::Empty, CsvAny::Empty],
        vec![3.into(), 1.into(), 2.into(), 1.into(), 3.into(), 3.into()],
        vec![text("b"), text("a"), text("b"), CsvAny::Null, text("a"), CsvAny::Empty, CsvAny::Null],
        vec![float(1.5), float(-1.5), float(1.5), float(0.0), float(-0.0)],
    ];
    for column in columns {
        let values = listed(&profile(column));
        for a in 0..values.len() {
            for b in 0..values.len() {
                if a != b {
                    assert_ne!(values[a], values[b]);
                }
            }
        }
        assert_eq!(values.iter().filter(|v| **v == CsvAny::Null).count(), 1);
    }
}

#[test]
fn a_column_without_null_gets_null_at_the_end() {
    let info = profile(vec![text("b"), CsvAny::Empty, text("a")]);
    assert_eq!(info.number_of_nulls, 0);
    assert_eq!(listed(&info), vec![text("a"), text("b"), CsvAny::Empty, CsvAny::Null]);
    let last = info.unique_values.last().unwrap();
    assert_eq!(last.raw, "Null");
    assert_eq!(last.sanitized, "Null");
}

#[test]
fn an_empty_column_lists_null_only() {
    let info = profile(vec![]);
    assert_eq!(total(&info), 0);
    assert_eq!(listed(&info), vec![CsvAny::Null]);
}

#[test]
fn a_null_cell_is_listed_where_it_sorts() {
    let info = profile(vec![CsvAny::Empty, CsvAny::Null, 5.into()]);
    assert_eq!(listed(&info), vec![CsvAny::Int(5), CsvAny::Null, CsvAny::Empty]);
}

#[test]
fn values_are_sorted_within_their_kind() {
    let info = profile(vec![
        5.into(),
        (-7).into(),
        text("pear"),
        float(2.5),
        0.into(),
        text("apple"),
        float(-2.5),
        text("Pear"),
        5.into(),
    ]);
    assert_eq!(
        listed(&info),
        vec![
            text("Pear"),
            text("apple"),
            text("pear"),
            CsvAny::Int(-7),
            CsvAny::Int(0),
            CsvAny::Int(5),
            float(-2.5),
            float(2.5),
            CsvAny::Null
        ]
    );
}

#[test]
fn a_value_is_listed_as_it_occurs_first() {
    // The two zeros are one number; the one that comes first is listed.
    let info = profile(vec![float(1.0), float(-0.0), float(0.0)]);
    let texts: Vec<&str> = info.unique_values.iter().map(|v| v.raw.as_str()).collect();
    assert_eq!(texts, vec!["-0", "1", "Null"]);
    let info = profile(vec![float(0.0), float(-0.0)]);
    let texts: Vec<&str> = info.unique_values.iter().map(|v| v.raw.as_str()).collect();
    assert_eq!(texts, vec!["0", "Null"]);
}

#[test]
fn a_large_column_is_sorted_and_deduplicated() {
    let mut column: Vec<CsvAny> = Vec::new();
    let mut x: i64 = 12345;
    for _ in 0..5000 {
        x = (x * 1103515245 + 12345) % 2147483648;
        column.push(CsvAny::Int(x % 700));
    }
    let mut expected: Vec<i64> = column
        .iter()
        .map(|c| match c {
            CsvAny::Int(i) => *i,
            _ => unreachable!(),
        })
        .collect();
    expected.sort();
    expected.dedup();
    let info = profile(column);
    assert_eq!(info.number_of_ints, 5000);
    let mut expected: Vec<CsvAny> = expected.into_iter().map(CsvAny::Int).collect();
    expected.push(CsvAny::Null);
    assert_eq!(listed(&info), expected);
}

#[test]
fn variants_carry_display_text_and_identifier() {
    let v = Variant::of(&text("Hello World "));
    assert_eq!((v.raw.as_str(), v.sanitized.as_str()), ("Hello World ", "Hello_World"));
    let v = Variant::of(&CsvAny::Int(-101));
    assert_eq!((v.raw.as_str(), v.sanitized.as_str()), ("-101", "_OneZeroOne"));
    assert_eq!(v.csvany, CsvAny::Int(-101));
    let v = Variant::of(&float(21.4));
    assert_eq!((v.raw.as_str(), v.sanitized.as_str()), ("21.4", ""));
    let v = Variant::of(&CsvAny::Null);
    assert_eq!((v.raw.as_str(), v.sanitized.as_str()), ("Null", "Null"));
    let v = Variant::of(&CsvAny::Empty);
    assert_eq!((v.raw.as_str(), v.sanitized.as_str()), ("Empty", "Empty"));
    let copy = v.clone();
    assert_eq!(copy.raw, v.raw);
}

#[test]
fn lookup_fails_when_no_name_matches() {
    let names = vec![ColName::new("alpha"), ColName::new("beta")];
    let values = vec![vec![CsvAny::Int(1)], vec![CsvAny::Int(2)]];
    let view = ValueNamesView { values: &values, names: &names };
    let error = ColumnInfo::new(view, "gamma").unwrap_err();
    assert_eq!(error.column_name, "gamma");
    assert_eq!(error.message(), "No column named gamma found!");
    assert!(ColumnInfo::new(view, "alph").is_err());
    assert!(ColumnInfo::new(view, "").is_err());
}

#[test]
fn lookup_takes_the_first_name_that_stands_in_the_query() {
    let names = vec![ColName::new("a"), ColName::new("ab"), ColName::new("b")];
    let values = vec![vec![CsvAny::Int(1)], vec![text("x")], vec![float(0.5)]];
    let view = ValueNamesView { values: &values, names: &names };
    // "ab" holds the name "a", which comes first.
    let info = ColumnInfo::new(view, "ab").unwrap();
    assert_eq!(info.column_name.raw, "a");
    assert_eq!(info.number_of_ints, 1);
    // "b" holds neither "a" nor "ab".
    let info = ColumnInfo::new(view, "b").unwrap();
    assert_eq!(info.column_name.raw, "b");
    assert_eq!(info.number_of_floats, 1);
    // A longer query matches by the names that stand in it.
    let info = ColumnInfo::new(view, "xxbxx").unwrap();
    assert_eq!(info.column_name.raw, "b");
    assert_eq!(find_column(&names, "ab"), 0);
    assert_eq!(find_column(&names, "b"), 2);
    assert_eq!(find_column(&names, "zzz"), 3);
}

#[test]
fn a_column_with_an_empty_name_matches_every_query() {
    let names = vec![ColName::new("x"), ColName::new(""), ColName::new("y")];
    assert_eq!(find_column(&names, "y"), 1);
    assert_eq!(find_column(&names, "x"), 0);
    assert_eq!(find_column(&names, ""), 1);
}

#[test]
fn profiles_of_follows_the_lookup() {
    let names = vec![ColName::new("a"), ColName::new("ab")];
    let values = vec![vec![CsvAny::Int(1)], vec![text("x"), text("y")]];
    let infos = profiles_of(ValueNamesView { values: &values, names: &names });
    assert_eq!(infos.len(), 2);
    assert_eq!(infos[0].column_name.raw, "a");
    assert_eq!(infos[1].column_name.raw, "a");
    assert_eq!(infos[1].number_of_ints, 1);
    assert_eq!(infos[1].number_of_strings, 0);
}

#[test]
fn holds_kind_looks_at_every_cell() {
    let column = vec![text("a"), CsvAny::Int(1), CsvAny::Empty];
    assert!(holds_kind(&column, CsvKind::Str));
    assert!(holds_kind(&column, CsvKind::Int));
    assert!(holds_kind(&column, CsvKind::Empty));
    assert!(!holds_kind(&column, CsvKind::Float));
    assert!(!holds_kind(&column, CsvKind::Null));
    assert!(!holds_kind(&Vec::new(), CsvKind::Null));
}

#[test]
fn profile_in_words() {
    let info = profile(vec![10.into(), 10.into(), text("a\"b"), float(21.4), CsvAny::Empty]);
    let expected = format!(
        "Name: {}\n\nTypes:{}\n\nUnique Values:{}",
        "column",
        "\n\tEmpties: 1\n\tStrings: 1\n\tFloats: 1\n\tInts: 2",
        [
            "\n\tVariant { raw: \"a\\\"b\", sanitized: \"aQuoteb\", csvany: Str(\"a\\\"b\") }",
            "\n\tVariant { raw: \"10\", sanitized: \"OneZero\", csvany: Int(10) }",
            "\n\tVariant { raw: \"21.4\", sanitized: \"\", csvany: Float(21.4) }",
            "\n\tVariant { raw: \"Empty\", sanitized: \"Empty\", csvany: Empty }",
            "\n\tVariant { raw: \"Null\", sanitized: \"Null\", csvany: Null }",
        ]
        .concat()
    );
    assert_eq!(info.to_text(), expected);
    assert_eq!(
        info.unique_values[0].to_text(),
        format!(
            "Variant {{ raw: {:?}, sanitized: {:?}, csvany: Str({:?}) }}",
            "a\"b", "aQuoteb", "a\"b"
        )
    );
}

#[test]
fn a_profile_can_be_cloned() {
    let info = profile(vec![1.into(), text("a"), CsvAny::Empty]);
    let copy = info.clone();
    assert_eq!(copy.column_name.raw, info.column_name.raw);
    assert_eq!(copy.number_of_ints, 1);
    assert_eq!(copy.number_of_strings, 1);
    assert_eq!(copy.number_of_empties, 1);
    assert_eq!(listed(&copy), listed(&info));
    assert_eq!(copy.to_text(), info.to_text());
}
