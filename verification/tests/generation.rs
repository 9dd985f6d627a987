use csv_deserializer::cli::{csv_rust_code, gen_imports};
use csv_deserializer::csv_dataset::CsvDataset;
use csv_deserializer::csv_type::{CsvAny, FloatValue};
use csv_deserializer::dataset_info::{ColumnInfo, Variant};
use csv_deserializer::enum_gen::{
    can_generate_enums, decide_shape, gen_enum, gen_float_enum, gen_int_enum, gen_str_enum,
    generate_enums_from, mixed_column_notes, EnumShape,
};
use csv_deserializer::struct_gen::{
    gen_column_list_method, gen_new_method, gen_struct, gen_vec_of_enums,
};
use csv_deserializer::{ColName, NullValues, ValueNamesView, COLUMN_TYPE_ENUM_NAME, MAIN_STRUCT_NAME};

fn float(f: f64) -> CsvAny {
    CsvAny::Float(FloatValue::new(f.to_bits(), &f.to_string()))
}

fn text(s: &str) -> CsvAny {
    CsvAny::Str(s.to_string())
}

fn dataset(columns: Vec<(&str, Vec<CsvAny>)>) -> CsvDataset<'static> {
    let mut df = CsvDataset::default();
    for (name, values) in columns {
        df.push(name, values);
    }
    df
}

fn unique_of(values: Vec<CsvAny>) -> Vec<Variant> {
    let names = vec![ColName::new("column")];
    let values = vec![values];
    ColumnInfo::new(ValueNamesView { values: &values, names: &names }, "column").unwrap().unique_values
}

fn expected_int_enum(name: &str) -> String {
    format!("
    #[derive(Debug, Clone, Copy, PartialEq)]
    enum {name} {{ Int(i64), Null }}

    impl std::str::FromStr for {name}{{
        type Err = String;

        fn from_str(s: &str) -> Result<Self, Self::Err> {{ 
            let i = s.parse::<i64>().unwrap();
            Ok({name}::Int(i))
        }}
    }}
    ")
}

fn expected_float_enum(name: &str) -> String {
    format!("
    #[derive(Debug, Clone, Copy, PartialEq)]
    enum {name} {{ Float(f64), Null }}

    impl std::str::FromStr for {name}{{
        type Err = String;

        fn from_str(s: &str) -> Result<Self, Self::Err> {{ 
            let f = s.parse::<f64>().unwrap();
            Ok({name}::Float(f))
        }}
    }}")
}

fn expected_columns_enum(names: &[(&str, &str)]) -> String {
    let mut columns_enum = format!("enum {COLUMN_TYPE_ENUM_NAME}{{\n");
    for (_, sanitized) in names {
        columns_enum.push_str(&format!("{},\n", sanitized));
    }
    columns_enum.push_str("}\n\n");
    let mut columns_enum_from_str = format!("\
impl std::str::FromStr for {COLUMN_TYPE_ENUM_NAME}{{
    type Err = String;
    fn from_str(s: &str) -> Result<Self, Self::Err> {{ 
        match s{{
");
    for (raw, sanitized) in names {
        columns_enum_from_str
            .push_str(&format!("\t\t\t\"{raw}\" => Ok({COLUMN_TYPE_ENUM_NAME}::{sanitized}),\n"));
    }
    columns_enum_from_str.push_str("_ => Err(format!(\"Unknown string: '{}'\", s)),\n");
    columns_enum_from_str.push_str("}\n}\n}");
    columns_enum + &columns_enum_from_str
}

fn expected_vec_of_enums(sanitized: &str, match_arms: &str) -> String {
    let sanitized_lower = sanitized.to_lowercase();
    format!(
        "\
let (index, _) = dataset
            .names
            .iter()
            .enumerate()
            .find(|(index, cl)| &cl.sanitized.0 == \"{sanitized}\")
            .unwrap();
let {sanitized_lower} = {COLUMN_TYPE_ENUM_NAME}::{sanitized}(dataset.values[index].iter().map(|val| match val{{
    {match_arms}
    _ => panic!(),
}}).collect::<Vec<{sanitized}>>());
    "
    )
}

fn expected_new_method(vecs_of_enums: &str, fields_list: &str) -> String {
    format!(
        "\
    pub fn new(dataset: &csv_deserializer::CsvDataset) -> Self{{
        {vecs_of_enums}

        {MAIN_STRUCT_NAME}{{
            {fields_list}
        }}
    }}
"
    )
}

fn expected_column_list_method(number_of_cols: usize, columns: &str) -> String {
    format!(
        "\
    pub fn get_columns(&self)-> [&{COLUMN_TYPE_ENUM_NAME};{number_of_cols}] {{
        [{columns}]
    }}"
    )
}

#[test]
fn names_of_the_generated_types() {
    assert_eq!(COLUMN_TYPE_ENUM_NAME, "CsvColumn");
    assert_eq!(MAIN_STRUCT_NAME, "CsvDataFrame");
}

#[test]
fn integers_with_null_and_empty_are_an_integer_column() {
    let unique = unique_of(vec![10.into(), 10.into(), 20.into(), CsvAny::Null, CsvAny::Empty]);
    assert_eq!(decide_shape(&unique), EnumShape::Integer);
}

#[test]
fn floats_with_null_and_empty_are_a_float_column() {
    let unique = unique_of(vec![float(5.1), CsvAny::Empty, float(4.9), CsvAny::Null]);
    assert_eq!(decide_shape(&unique), EnumShape::Float);
}

#[test]
fn a_column_of_nulls_is_an_integer_column() {
    assert_eq!(decide_shape(&unique_of(vec![CsvAny::Null, CsvAny::Empty])), EnumShape::Integer);
    assert_eq!(decide_shape(&unique_of(vec![])), EnumShape::Integer);
}

#[test]
fn texts_are_a_categorical_column_with_one_variant_for_each_spelling() {
    let unique = unique_of(vec![
        text("Hello"),
        text("Hello"),
        text("hello"),
        CsvAny::Null,
        CsvAny::Null,
        CsvAny::Empty,
        CsvAny::Empty,
    ]);
    assert_eq!(decide_shape(&unique), EnumShape::Categorical);
    let name = ColName::new("greeting");
    let code = gen_str_enum(&name, &unique);
    assert_eq!(code, "create_enum!(greeting;\n\"Hello\" => Hello,\n\"hello\" => hello,\nNull,\n);");
    // Three named variants: the two spellings and null.
    assert_eq!(code.matches(",\n").count(), 3);
    assert_eq!(gen_enum(&name, &unique), code);
}

#[test]
fn texts_that_look_like_integers_stay_categorical() {
    let unique = unique_of(vec![text("10"), text("20")]);
    assert_eq!(decide_shape(&unique), EnumShape::Categorical);
    assert_eq!(
        gen_str_enum(&ColName::new("code"), &unique),
        "create_enum!(code;\n\"10\" => OneZero,\n\"20\" => TwoZero,\nNull,\n);"
    );
}

#[test]
fn a_column_of_several_kinds_is_mixed() {
    assert_eq!(decide_shape(&unique_of(vec![10.into(), float(21.4), text("Hello")])), EnumShape::Mixed);
    assert_eq!(decide_shape(&unique_of(vec![10.into(), text("Hello")])), EnumShape::Mixed);
    assert_eq!(decide_shape(&unique_of(vec![10.into(), float(21.4)])), EnumShape::Mixed);
    assert_eq!(decide_shape(&unique_of(vec![float(21.4), text("Hello"), CsvAny::Null])), EnumShape::Mixed);
}

#[test]
fn a_mixed_column_keeps_the_labels_of_its_integers() {
    let unique = unique_of(vec![10.into(), text("Hello"), (-3).into(), CsvAny::Empty]);
    assert_eq!(decide_shape(&unique), EnumShape::Mixed);
    let code = gen_enum(&ColName::new("mixed data"), &unique);
    assert_eq!(
        code,
        "create_enum!(mixed_data;\n\"Hello\" => Hello,\n_Three,\nOneZero,\nNull,\n);"
    );
}

#[test]
fn int_enum_text() {
    assert_eq!(gen_int_enum(&ColName::new("count")), expected_int_enum("count"));
    assert_eq!(gen_int_enum(&ColName::new("petal width (cm)")), expected_int_enum("petal_width_cm"));
}

#[test]
fn float_enum_text() {
    assert_eq!(gen_float_enum(&ColName::new("sepal length (cm)")), expected_float_enum("sepal_length_cm"));
    let unique = unique_of(vec![float(5.1)]);
    assert_eq!(gen_enum(&ColName::new("x"), &unique), expected_float_enum("x"));
}

#[test]
fn enums_of_a_dataset() {
    let mut df = dataset(vec![
        ("sepal length (cm)", vec![float(5.1), float(4.9), CsvAny::Null]),
        ("count", vec![1.into(), 2.into(), CsvAny::Empty]),
        ("target", vec![text("Iris-setosa"), text("Iris-virginica"), text("Iris-setosa")]),
    ]);
    assert!(can_generate_enums(&df));
    let out = generate_enums_from(&mut df);
    let expected = expected_float_enum("sepal_length_cm")
        + "\n\n"
        + &expected_int_enum("count")
        + "\n\n"
        + "create_enum!(target;\n\"Iris-setosa\" => Iris_setosa,\n\"Iris-virginica\" => Iris_virginica,\nNull,\n);"
        + "\n\n"
        + &expected_columns_enum(&[
            ("sepal length (cm)", "sepal_length_cm"),
            ("count", "count"),
            ("target", "target"),
        ]);
    assert_eq!(out.code, expected);
    assert!(out.log.is_empty());
    assert_eq!(df.info.len(), 3);
    assert_eq!(df.info[0].number_of_floats, 2);
    assert_eq!(df.info[2].unique_values.len(), 3);
}

#[test]
fn a_mixed_column_is_noted_once() {
    let mut df = dataset(vec![
        ("id", vec![1.into(), 2.into()]),
        ("mixed_data", vec![10.into(), text("Hello"), 10.into(), text("Hello")]),
        ("other", vec![text("a"), 3.into()]),
    ]);
    assert!(can_generate_enums(&df));
    let out = generate_enums_from(&mut df);
    assert_eq!(
        out.log,
        vec![
            "enum generation log: column `mixed_data` contains numbers and strings",
            "enum generation log: column `other` contains numbers and strings"
        ]
    );
    assert!(out.code.contains("create_enum!(mixed_data;\n\"Hello\" => Hello,\nOneZero,\nNull,\n);"));
}

#[test]
fn a_column_of_integer_number_and_text_is_mixed_and_noted_once() {
    let mut df = dataset(vec![
        ("plain", vec![1.into(), 2.into()]),
        ("mixed_data", vec![10.into(), float(21.4), text("Hello")]),
    ]);
    CsvDataset::populate_column_infos(&mut df);
    assert_eq!(decide_shape(&df.info[0].unique_values), EnumShape::Integer);
    assert_eq!(decide_shape(&df.info[1].unique_values), EnumShape::Mixed);
    // Every value of the column is listed, the numeric ones too.
    let listed: Vec<&str> = df.info[1].unique_values.iter().map(|v| v.raw.as_str()).collect();
    assert_eq!(listed, vec!["Hello", "10", "21.4", "Null"]);
    assert_eq!(
        mixed_column_notes(&df.names, &df.info),
        vec!["enum generation log: column `mixed_data` contains numbers and strings"]
    );
    // A number cannot be given a label, so no enumeration can be written for it.
    assert!(!can_generate_enums(&df));
}

#[test]
fn a_number_beside_texts_or_integers_cannot_be_labelled() {
    let df = dataset(vec![("mixed_data", vec![10.into(), float(21.4), text("Hello")])]);
    assert!(!can_generate_enums(&df));
    let df = dataset(vec![("a", vec![float(21.4), text("Hello")])]);
    assert!(!can_generate_enums(&df));
    let df = dataset(vec![("a", vec![1.into()]), ("b", vec![float(21.4), 2.into()])]);
    assert!(!can_generate_enums(&df));
    let df = dataset(vec![("a", vec![float(21.4), CsvAny::Null, CsvAny::Empty]), ("b", vec![text("x"), 1.into()])]);
    assert!(can_generate_enums(&df));
    assert!(can_generate_enums(&CsvDataset::default()));
}

#[test]
fn generation_replaces_earlier_profiles() {
    let mut df = dataset(vec![("a", vec![1.into()])]);
    CsvDataset::populate_column_infos(&mut df);
    let _ = generate_enums_from(&mut df);
    assert_eq!(df.info.len(), 1);
}

#[test]
fn enums_of_an_empty_dataset() {
    let mut df = CsvDataset { names: vec![], values: vec![], null_values: NullValues(vec![]), info: vec![] };
    let out = generate_enums_from(&mut df);
    assert_eq!(out.code, expected_columns_enum(&[]));
    assert!(out.log.is_empty());
}

#[test]
fn vec_of_enums_writes_one_arm_for_each_kind() {
    let unique = unique_of(vec![text("b"), text("a"), 2.into(), 1.into(), CsvAny::Empty]);
    let code = gen_vec_of_enums(&ColName::new("Mixed Data"), &unique);
    let arms = [
        "csv_deserializer::csv_type::CsvAny::Str(s) => Mixed_Data::from_str(s).unwrap(),\n",
        "csv_deserializer::csv_type::CsvAny::Int(i) => Mixed_Data::Int(*i),\n",
        "csv_deserializer::csv_type::CsvAny::Empty => Mixed_Data::Null,\n",
        "csv_deserializer::csv_type::CsvAny::Null => Mixed_Data::Null,\n",
    ]
    .concat();
    assert_eq!(code, expected_vec_of_enums("Mixed_Data", &arms));
}

#[test]
fn vec_of_enums_for_floats() {
    let unique = unique_of(vec![float(1.5), float(2.5), CsvAny::Null]);
    let code = gen_vec_of_enums(&ColName::new("x"), &unique);
    let arms = [
        "csv_deserializer::csv_type::CsvAny::Float(f) => x::Float(*f),\n",
        "csv_deserializer::csv_type::CsvAny::Null => x::Null,\n",
    ]
    .concat();
    assert_eq!(code, expected_vec_of_enums("x", &arms));
}

#[test]
fn vec_of_enums_follows_the_order_of_the_values() {
    // Values as a caller may hand them over: not sorted, null twice.
    let unique = vec![
        Variant::of(&CsvAny::Null),
        Variant::of(&CsvAny::Int(1)),
        Variant::of(&text("a")),
        Variant::of(&CsvAny::Int(2)),
        Variant::of(&CsvAny::Null),
    ];
    let code = gen_vec_of_enums(&ColName::new("c"), &unique);
    let arms = [
        "csv_deserializer::csv_type::CsvAny::Null => c::Null,\n",
        "csv_deserializer::csv_type::CsvAny::Int(i) => c::Int(*i),\n",
        "csv_deserializer::csv_type::CsvAny::Str(s) => c::from_str(s).unwrap(),\n",
        "csv_deserializer::csv_type::CsvAny::Null => c::Null,\n",
    ]
    .concat();
    assert_eq!(code, expected_vec_of_enums("c", &arms));
}

#[test]
fn column_list_method_counts_the_columns() {
    let names = vec![ColName::new("a b"), ColName::new("C")];
    assert_eq!(gen_column_list_method(&names), expected_column_list_method(2, "&self.a_b,&self.C,"));
    assert_eq!(gen_column_list_method(&[]), expected_column_list_method(0, ""));
}

#[test]
fn new_method_lists_conversions_and_fields() {
    let mut df = dataset(vec![("Count", vec![1.into()]), ("Name", vec![text("x")])]);
    CsvDataset::populate_column_infos(&mut df);
    let int_arms = [
        "csv_deserializer::csv_type::CsvAny::Int(i) => Count::Int(*i),\n",
        "csv_deserializer::csv_type::CsvAny::Null => Count::Null,\n",
    ]
    .concat();
    let str_arms = [
        "csv_deserializer::csv_type::CsvAny::Str(s) => Name::from_str(s).unwrap(),\n",
        "csv_deserializer::csv_type::CsvAny::Null => Name::Null,\n",
    ]
    .concat();
    let vecs = expected_vec_of_enums("Count", &int_arms) + "\n\n" + &expected_vec_of_enums("Name", &str_arms) + "\n\n";
    let expected = expected_new_method(&vecs, "count,\n\t\t\tname,\n\t\t\t");
    assert_eq!(gen_new_method(&df.names, &df.info), expected);
}

#[test]
fn struct_of_a_dataset() {
    let mut df = dataset(vec![("Count", vec![1.into()]), ("Sepal Length", vec![float(0.5)])]);
    CsvDataset::populate_column_infos(&mut df);
    let mut expected = format!("pub struct {MAIN_STRUCT_NAME}{{\n");
    expected.push_str(&format!("\tpub {}: {},\n", "count", COLUMN_TYPE_ENUM_NAME));
    expected.push_str(&format!("\tpub {}: {},\n", "sepal_length", COLUMN_TYPE_ENUM_NAME));
    expected.push('}');
    expected.push_str(&format!(
        "impl {MAIN_STRUCT_NAME}{{
"
    ));
    expected.push_str(&gen_new_method(&df.names, &df.info));
    expected.push_str(&gen_column_list_method(&df.names));
    expected.push('}');
    assert_eq!(gen_struct(&df), expected);
}

#[test]
fn struct_without_profiles_has_no_conversions() {
    let df = dataset(vec![("a", vec![1.into()])]);
    let code = gen_struct(&df);
    assert!(code.starts_with("pub struct CsvDataFrame{\n\tpub a: CsvColumn,\n}impl CsvDataFrame{\n"));
    assert_eq!(gen_new_method(&df.names, &df.info), expected_new_method("", "a,\n\t\t\t"));
}

#[test]
fn lower_case_follows_unicode() {
    let names = vec![ColName::new("ÉTÉ"), ColName::new("Straße"), ColName::new("ΑΣ")];
    let code = gen_new_method(&names, &[]);
    assert_eq!(code, expected_new_method("", "été,\n\t\t\tstraße,\n\t\t\tας,\n\t\t\t"));
}

#[test]
fn imports_text() {
    assert_eq!(
        gen_imports(),
        String::from("\
use csv_deserializer::{create_enum, csv_dataset::CsvDataset, csv_types::CsvAny};
use std::str::FromStr;
\n")
    );
}

#[test]
fn whole_generated_code() {
    let mut df = dataset(vec![("n", vec![1.into(), text("x")]), ("f", vec![float(1.0)])]);
    let mut again = dataset(vec![("n", vec![1.into(), text("x")]), ("f", vec![float(1.0)])]);
    let out = csv_rust_code(&mut df);
    let enums = generate_enums_from(&mut again);
    let struc = gen_struct(&again);
    let import = gen_imports();
    assert_eq!(
        out.code,
        format!("#![allow(unused,non_snake_case,non_camel_case_types)]{import}\n{}\n{struc}", enums.code)
    );
    assert_eq!(out.log, vec!["enum generation log: column `n` contains numbers and strings"]);
    assert_eq!(df.info.len(), 2);
}
