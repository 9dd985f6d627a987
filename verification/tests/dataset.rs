use csv_deserializer::csv_dataset::CsvDataset;
use csv_deserializer::csv_type::{CsvAny, FloatValue};
use csv_deserializer::{NullValues, RawCsvValue};

fn float(f: f64) -> FloatValue {
    FloatValue::new(f.to_bits(), &f.to_string())
}

fn cell(text: &str) -> RawCsvValue {
    RawCsvValue { text: text.to_string(), float: text.parse::<f64>().ok().map(float) }
}

fn read(data: &str, nulls: Vec<&'static str>) -> CsvDataset<'static> {
    let mut reader = csv::ReaderBuilder::new().has_headers(true).from_reader(data.as_bytes());
    let headers: Vec<String> = reader.headers().unwrap().iter().map(|h| h.to_string()).collect();
    let records: Vec<Vec<RawCsvValue>> =
        reader.into_records().map(|r| r.unwrap().iter().map(cell).collect()).collect();
    CsvDataset::new(headers, records, NullValues(nulls))
}

#[test]
fn dataset_from_a_csv_file() {
    let data = "sepal length (cm),target,count\n5.1,Iris-setosa,1\nNA,Iris-versicolor,2\n4.9,,x\n";
    let df = read(data, vec!["NA"]);
    let raw: Vec<&str> = df.names.iter().map(|n| n.raw.as_str()).collect();
    assert_eq!(raw, vec!["sepal length (cm)", "target", "count"]);
    let sanitized: Vec<&str> = df.names.iter().map(|n| n.sanitized.0.as_str()).collect();
    assert_eq!(sanitized, vec!["sepal_length_cm", "target", "count"]);
    assert_eq!(
        df.values,
        vec![
            vec![CsvAny::Float(float(5.1)), CsvAny::Null, CsvAny::Float(float(4.9))],
            vec![
                CsvAny::Str("Iris-setosa".to_string()),
                CsvAny::Str("Iris-versicolor".to_string()),
                CsvAny::Empty
            ],
            vec![CsvAny::Int(1), CsvAny::Int(2), CsvAny::Str("x".to_string())],
        ]
    );
    assert!(df.info.is_empty());
    assert_eq!(df.null_values.0, vec!["NA"]);
}

#[test]
fn dataset_without_records_has_empty_columns() {
    let df = read("a,b\n", vec![]);
    assert_eq!(df.names.len(), 2);
    assert_eq!(df.values, vec![Vec::<CsvAny>::new(), Vec::new()]);
}

#[test]
fn short_records_leave_columns_shorter() {
    let headers = vec!["a".to_string(), "b".to_string()];
    let records = vec![vec![cell("1"), cell("2")], vec![cell("3")], vec![], vec![cell("4"), cell("5")]];
    let df = CsvDataset::new(headers, records, NullValues(Vec::new()));
    assert_eq!(
        df.values,
        vec![
            vec![CsvAny::Int(1), CsvAny::Int(3), CsvAny::Int(4)],
            vec![CsvAny::Int(2), CsvAny::Int(5)]
        ]
    );
}

#[test]
fn duplicate_headers_are_kept() {
    let df = read("a,a\n1,x\n", vec![]);
    assert_eq!(df.names.len(), 2);
    assert_eq!(df.names[0].raw, "a");
    assert_eq!(df.names[1].raw, "a");
    assert_eq!(df.values[1], vec![CsvAny::Str("x".to_string())]);
}

#[test]
fn push_appends_a_column_and_drops_the_profiles() {
    let mut df = read("a\n1\n2\n", vec![]);
    CsvDataset::populate_column_infos(&mut df);
    assert_eq!(df.info.len(), 1);
    df.push("b c", vec![CsvAny::Null]);
    assert_eq!(df.names.len(), 2);
    assert_eq!(df.names[1].raw, "b c");
    assert_eq!(df.names[1].sanitized.0, "b_c");
    assert_eq!(df.values[1], vec![CsvAny::Null]);
    assert!(df.info.is_empty());
}

#[test]
fn remove_takes_the_first_column_of_that_name() {
    let mut df = read("a,b,a\n1,2,3\n", vec![]);
    CsvDataset::populate_column_infos(&mut df);
    let removed = df.remove("a").unwrap();
    assert_eq!(removed.name.raw, "a");
    assert_eq!(removed.col_values, vec![CsvAny::Int(1)]);
    let raw: Vec<&str> = df.names.iter().map(|n| n.raw.as_str()).collect();
    assert_eq!(raw, vec!["b", "a"]);
    assert_eq!(df.values, vec![vec![CsvAny::Int(2)], vec![CsvAny::Int(3)]]);
    assert!(df.info.is_empty());
}

#[test]
fn remove_matches_the_whole_name() {
    let mut df = read("ab,b\n1,2\n", vec![]);
    let removed = df.remove("b").unwrap();
    assert_eq!(removed.col_values, vec![CsvAny::Int(2)]);
    assert_eq!(df.names.len(), 1);
    assert_eq!(df.names[0].raw, "ab");
}

#[test]
fn remove_fails_when_no_column_has_the_name() {
    let mut df = read("a,b\n1,2\n", vec![]);
    CsvDataset::populate_column_infos(&mut df);
    let error = df.remove("c").unwrap_err();
    assert_eq!(error.column_name, "c");
    assert_eq!(df.names.len(), 2);
    assert_eq!(df.values.len(), 2);
    assert_eq!(df.info.len(), 2);
}

#[test]
fn populate_replaces_earlier_profiles() {
    let mut df = read("a,b\n1,x\n", vec![]);
    CsvDataset::populate_column_infos(&mut df);
    CsvDataset::populate_column_infos(&mut df);
    assert_eq!(df.info.len(), 2);
    assert_eq!(df.info[0].column_name.raw, "a");
    assert_eq!(df.info[1].column_name.raw, "b");
    assert_eq!(df.info[1].number_of_strings, 1);
}

#[test]
fn views_show_names_and_values() {
    let mut df = read("a,b\n1,x\n", vec![]);
    {
        let view = df.names_and_values_view();
        assert_eq!(view.names.len(), 2);
        assert_eq!(view.values[0], vec![CsvAny::Int(1)]);
    }
    {
        let view = df.names_and_values_mut();
        assert_eq!(view.names[1].raw, "b");
        assert_eq!(view.values[1], vec![CsvAny::Str("x".to_string())]);
    }
    let (view, info) = df.split_view_and_info();
    assert_eq!(view.names.len(), 2);
    assert_eq!(view.values.len(), 2);
    assert!(info.is_empty());
}

#[test]
fn default_dataset_is_empty() {
    let df = CsvDataset::default();
    assert!(df.names.is_empty());
    assert!(df.values.is_empty());
    assert!(df.null_values.0.is_empty());
    assert!(df.info.is_empty());
}
