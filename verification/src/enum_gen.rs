//! Decides, from the profile of a column, which enumeration is generated for
//! it, and writes the enumerations of a dataset.

use crate::csv_dataset::CsvDataset;
use crate::csv_type::{CsvAny, CsvKind, CsvValue};
use crate::dataset_info::{
    are_profiles, find_column, first_match, has_kind, holds_kind, is_profile,
    lemma_own_name_matches, lemma_profile_lists_column, profiles_of, ColumnInfo, ColumnInfoModel,
    Variant, VariantModel,
};
use crate::sanitizer::{sanitize_identifier, sanitized};
use crate::text::{int_text, int_to_text, joined, lemma_joined_step};
use crate::{ColName, ColNameModel, COLUMN_TYPE_ENUM_NAME};
use vstd::prelude::*;

verus! {

/// The enumeration that is generated for a column.
#[derive(Clone, Copy, Debug, PartialEq, Eq, Structural)]
pub enum EnumShape {
    /// An integer or null.
    Integer,
    /// A number or null.
    Float,
    /// One named variant for each distinct text, and null.
    Categorical,
    /// The column mixes texts, integers and numbers: one named variant for
    /// each distinct value, and null.
    Mixed,
}

/// Whether every value that `unique` lists is of the kind `kind`, null or
/// empty.
pub open spec fn only_kind(unique: Seq<VariantModel>, kind: CsvKind) -> bool {
    forall|k: int|
        0 <= k < unique.len() ==> {
            let found = (#[trigger] unique[k]).csvany.kind();
            found == kind || found == CsvKind::Null || found == CsvKind::Empty
        }
}

/// The enumeration that is generated for a column that lists the values
/// `unique`. A column without texts, integers and numbers is given the
/// enumeration of integers.
pub open spec fn shape_of(unique: Seq<VariantModel>) -> EnumShape {
    if only_kind(unique, CsvKind::Int) {
        EnumShape::Integer
    } else if only_kind(unique, CsvKind::Float) {
        EnumShape::Float
    } else if only_kind(unique, CsvKind::Str) {
        EnumShape::Categorical
    } else {
        EnumShape::Mixed
    }
}

fn holds_only(unique_values: &Vec<Variant>, kind: CsvKind) -> (r: bool)
    ensures
        r == only_kind(unique_values.deep_view(), kind),
{
    let mut k: usize = 0;
    while k < unique_values.len()
        invariant
            k <= unique_values.len(),
            forall|j: int|
                0 <= j < k ==> {
                    let found = (#[trigger] unique_values.deep_view()[j]).csvany.kind();
                    found == kind || found == CsvKind::Null || found == CsvKind::Empty
                },
        decreases unique_values.len() - k,
    {
        let found = unique_values[k].csvany.kind();
        assert(unique_values.deep_view()[k as int].csvany == unique_values[k as int].csvany@);
        if !(found == kind || found == CsvKind::Null || found == CsvKind::Empty) {
            return false;
        }
        k += 1;
    }
    true
}

/// The enumeration that is generated for a column that lists
/// `unique_values`.
pub fn decide_shape(unique_values: &Vec<Variant>) -> (shape: EnumShape)
    ensures
        shape == shape_of(unique_values.deep_view()),
{
    if holds_only(unique_values, CsvKind::Int) {
        EnumShape::Integer
    } else if holds_only(unique_values, CsvKind::Float) {
        EnumShape::Float
    } else if holds_only(unique_values, CsvKind::Str) {
        EnumShape::Categorical
    } else {
        EnumShape::Mixed
    }
}

/// The name of the 64-bit floating-point type in the generated code: the
/// letter `f` and the width.
pub open spec fn float_type_name() -> Seq<char> {
    "f"@ + int_text(64)
}

fn push_float_type_name(out: &mut String)
    ensures
        final(out)@ == old(out)@ + float_type_name(),
{
    out.append("f");
    out.append(int_to_text(64).as_str());
    assert(final(out)@ =~= old(out)@ + float_type_name());
}

/// The enumeration of integers with the name `name`, and how it is read
/// from text.
pub open spec fn int_enum_text(name: Seq<char>) -> Seq<char> {
    "\n    #[derive(Debug, Clone, Copy, PartialEq)]\n    enum "@ + name
        + " { Int(i64), Null }\n\n    impl std::str::FromStr for "@ + name
        + "{\n        type Err = String;\n\n        fn from_str(s: &str) -> Result<Self, Self::Err> { \n            let i = s.parse::<i64>().unwrap();\n            Ok("@
        + name + "::Int(i))\n        }\n    }\n    "@
}

/// The enumeration of numbers with the name `name`, and how it is read from
/// text.
pub open spec fn float_enum_text(name: Seq<char>) -> Seq<char> {
    "\n    #[derive(Debug, Clone, Copy, PartialEq)]\n    enum "@ + name + " { Float("@
        + float_type_name() + "), Null }\n\n    impl std::str::FromStr for "@ + name
        + "{\n        type Err = String;\n\n        fn from_str(s: &str) -> Result<Self, Self::Err> { \n            let f = s.parse::<"@
        + float_type_name() + ">().unwrap();\n            Ok("@ + name
        + "::Float(f))\n        }\n    }"@
}

/// Writes the enumeration of integers for the column `col_name`.
pub fn gen_int_enum(col_name: &ColName) -> (out: String)
    ensures
        out@ == int_enum_text(col_name@.sanitized),
{
    let name = col_name.sanitized.0.as_str();
    let mut out = "\n    #[derive(Debug, Clone, Copy, PartialEq)]\n    enum ".to_string();
    out.append(name);
    out.append(" { Int(i64), Null }\n\n    impl std::str::FromStr for ");
    out.append(name);
    out.append(
        "{\n        type Err = String;\n\n        fn from_str(s: &str) -> Result<Self, Self::Err> { \n            let i = s.parse::<i64>().unwrap();\n            Ok(",
    );
    out.append(name);
    out.append("::Int(i))\n        }\n    }\n    ");
    out
}

/// Writes the enumeration of numbers for the column `col_name`.
pub fn gen_float_enum(col_name: &ColName) -> (out: String)
    ensures
        out@ == float_enum_text(col_name@.sanitized),
{
    let name = col_name.sanitized.0.as_str();
    let mut out = "\n    #[derive(Debug, Clone, Copy, PartialEq)]\n    enum ".to_string();
    out.append(name);
    out.append(" { Float(");
    push_float_type_name(&mut out);
    out.append("), Null }\n\n    impl std::str::FromStr for ");
    out.append(name);
    out.append(
        "{\n        type Err = String;\n\n        fn from_str(s: &str) -> Result<Self, Self::Err> { \n            let f = s.parse::<",
    );
    push_float_type_name(&mut out);
    out.append(">().unwrap();\n            Ok(");
    out.append(name);
    out.append("::Float(f))\n        }\n    }");
    out
}

/// Whether every value that `unique` lists can be given a label: a number
/// cannot.
pub open spec fn can_label(unique: Seq<VariantModel>) -> bool {
    forall|k: int| 0 <= k < unique.len() ==> !((#[trigger] unique[k]).csvany is Float)
}

/// The line that names `value` in an enumeration of named variants: a text
/// is read as the identifier that stands for it; an integer is named by the
/// identifier that stands for its decimal text; null is named `Null`. Empty
/// gets no variant, since an empty cell is read as null.
pub open spec fn variant_line(value: CsvValue) -> Seq<char> {
    match value {
        CsvValue::Int(i) => sanitized(int_text(i as int)) + ",\n"@,
        CsvValue::Str(s) => "\""@ + s + "\" => "@ + sanitized(s) + ",\n"@,
        CsvValue::Null => "Null,\n"@,
        CsvValue::Empty => Seq::empty(),
        CsvValue::Float(_) => Seq::empty(),
    }
}

/// The lines that name the values that `unique` lists.
pub open spec fn variant_lines(unique: Seq<VariantModel>) -> Seq<Seq<char>> {
    Seq::new(unique.len(), |k: int| variant_line(unique[k].csvany))
}

/// The enumeration of named variants with the name `name` for a column that
/// lists the values `unique`.
pub open spec fn str_enum_text(name: Seq<char>, unique: Seq<VariantModel>) -> Seq<char> {
    "create_enum!("@ + name + ";\n"@ + joined(variant_lines(unique)) + ");"@
}

fn push_variant_line(out: &mut String, value: &CsvAny)
    requires
        !(value@ is Float),
    ensures
        final(out)@ == old(out)@ + variant_line(value@),
{
    match value {
        CsvAny::Int(i) => {
            out.append(sanitize_identifier(int_to_text(*i).as_str()).as_str());
            out.append(",\n");
        },
        CsvAny::Str(s) => {
            out.append("\"");
            out.append(s.as_str());
            out.append("\" => ");
            out.append(sanitize_identifier(s.as_str()).as_str());
            out.append(",\n");
        },
        CsvAny::Null => {
            out.append("Null,\n");
        },
        CsvAny::Empty => {},
        CsvAny::Float(_) => {},
    }
    assert(final(out)@ =~= old(out)@ + variant_line(value@));
}

/// Writes the enumeration of named variants for a column that lists
/// `unique_values`, none of which may be a number.
pub fn gen_str_enum(col_name: &ColName, unique_values: &Vec<Variant>) -> (out: String)
    requires
        can_label(unique_values.deep_view()),
    ensures
        out@ == str_enum_text(col_name@.sanitized, unique_values.deep_view()),
{
    let ghost lines = variant_lines(unique_values.deep_view());
    let mut body = String::new();
    let mut k: usize = 0;
    while k < unique_values.len()
        invariant
            k <= unique_values.len(),
            can_label(unique_values.deep_view()),
            lines == variant_lines(unique_values.deep_view()),
            body@ == joined(lines.take(k as int)),
        decreases unique_values.len() - k,
    {
        proof {
            lemma_joined_step(lines, k as int);
            assert(unique_values.deep_view()[k as int].csvany == unique_values[k as int].csvany@);
        }
        push_variant_line(&mut body, &unique_values[k].csvany);
        k += 1;
    }
    proof {
        assert(lines.take(k as int) == lines);
    }
    let mut out = "create_enum!(".to_string();
    out.append(col_name.sanitized.0.as_str());
    out.append(";\n");
    out.append(body.as_str());
    out.append(");");
    out
}

/// The enumeration that is generated under the name `name` for a column
/// that lists the values `unique`.
pub open spec fn enum_text(name: ColNameModel, unique: Seq<VariantModel>) -> Seq<char> {
    match shape_of(unique) {
        EnumShape::Integer => int_enum_text(name.sanitized),
        EnumShape::Float => float_enum_text(name.sanitized),
        EnumShape::Categorical => str_enum_text(name.sanitized, unique),
        EnumShape::Mixed => str_enum_text(name.sanitized, unique),
    }
}

/// Writes the enumeration for the column `col_name`, which lists
/// `unique_values`. Where the column needs named variants, none of the
/// values may be a number.
pub fn gen_enum(col_name: &ColName, unique_values: &Vec<Variant>) -> (out: String)
    requires
        shape_of(unique_values.deep_view()) is Categorical || shape_of(unique_values.deep_view()) is Mixed
            ==> can_label(unique_values.deep_view()),
    ensures
        out@ == enum_text(col_name@, unique_values.deep_view()),
{
    match decide_shape(unique_values) {
        EnumShape::Integer => gen_int_enum(col_name),
        EnumShape::Float => gen_float_enum(col_name),
        EnumShape::Categorical => gen_str_enum(col_name, unique_values),
        EnumShape::Mixed => gen_str_enum(col_name, unique_values),
    }
}

/// Whether the cells `vals` of a column can be given an enumeration: a
/// column that holds a number beside a text or an integer cannot, since a
/// number cannot be given a label.
pub open spec fn can_label_column(vals: Seq<CsvValue>) -> bool {
    !(has_kind(vals, CsvKind::Float) && (has_kind(vals, CsvKind::Int) || has_kind(vals, CsvKind::Str)))
}

/// Whether every column can be given an enumeration: the column that the
/// lookup of its name finds.
pub open spec fn can_generate(names: Seq<ColNameModel>, values: Seq<Seq<CsvValue>>) -> bool {
    forall|i: int|
        0 <= i < names.len() ==> can_label_column(
            #[trigger] values[first_match(names, names[i].raw)],
        )
}

/// The profile of a column that can be given an enumeration lists a number
/// only where the enumeration is that of numbers.
pub proof fn lemma_profile_can_label(name: ColNameModel, vals: Seq<CsvValue>, info: ColumnInfoModel)
    requires
        is_profile(name, vals, info),
        can_label_column(vals),
        shape_of(info.unique_values) is Categorical || shape_of(info.unique_values) is Mixed,
    ensures
        can_label(info.unique_values),
{
    let unique = info.unique_values;
    lemma_profile_lists_column(name, vals, info);
    if !can_label(unique) {
        let k = choose|k: int| 0 <= k < unique.len() && (#[trigger] unique[k]).csvany is Float;
        assert(vals.contains(unique[k].csvany));
        let at = choose|i: int| 0 <= i < vals.len() && vals[i] == unique[k].csvany;
        assert(vals[at].kind() == CsvKind::Float);
        assert(has_kind(vals, CsvKind::Float));
        assert forall|j: int| 0 <= j < unique.len() implies {
            let found = (#[trigger] unique[j]).csvany.kind();
            found == CsvKind::Float || found == CsvKind::Null || found == CsvKind::Empty
        } by {
            let listed = unique[j].csvany;
            if listed != CsvValue::Null {
                assert(vals.contains(listed));
                let i = choose|i: int| 0 <= i < vals.len() && vals[i] == listed;
                assert(vals[i].kind() == listed.kind());
            }
        }
        assert(only_kind(unique, CsvKind::Float));
    }
}

/// The note on a column that mixes kinds.
pub open spec fn mixed_note(raw: Seq<char>) -> Seq<char> {
    "enum generation log: column `"@ + raw + "` contains numbers and strings"@
}

/// The notes on the first `n` columns: one for each column that is given
/// the enumeration of a mixed column, in the order of the columns.
pub open spec fn mixed_notes(names: Seq<ColNameModel>, infos: Seq<ColumnInfoModel>, n: int) -> Seq<
    Seq<char>,
>
    decreases n,
{
    if n <= 0 {
        Seq::empty()
    } else {
        let before = mixed_notes(names, infos, n - 1);
        if shape_of(infos[n - 1].unique_values) is Mixed {
            before.push(mixed_note(names[n - 1].raw))
        } else {
            before
        }
    }
}

/// For each column its enumeration, followed by an empty line.
pub open spec fn enum_blocks(names: Seq<ColNameModel>, infos: Seq<ColumnInfoModel>) -> Seq<Seq<char>> {
    Seq::new(names.len(), |i: int| enum_text(names[i], infos[i].unique_values) + "\n\n"@)
}

/// For each column the line that names it in the enumeration of columns.
pub open spec fn column_lines(names: Seq<ColNameModel>) -> Seq<Seq<char>> {
    Seq::new(names.len(), |i: int| names[i].sanitized + ",\n"@)
}

/// The line that reads the header of the column `name` as its variant.
pub open spec fn column_arm(name: ColNameModel) -> Seq<char> {
    "\t\t\t\""@ + name.raw + "\" => Ok("@ + COLUMN_TYPE_ENUM_NAME@ + "::"@ + name.sanitized
        + "),\n"@
}

/// For each column the line that reads its header as its variant.
pub open spec fn column_arms(names: Seq<ColNameModel>) -> Seq<Seq<char>> {
    Seq::new(names.len(), |i: int| column_arm(names[i]))
}

/// The generated enumerations of a dataset: the enumeration of each column,
/// the enumeration of the columns, and how a column is read from its header.
pub open spec fn enums_code(names: Seq<ColNameModel>, infos: Seq<ColumnInfoModel>) -> Seq<char> {
    joined(enum_blocks(names, infos)) + "enum "@ + COLUMN_TYPE_ENUM_NAME@ + "{\n"@ + joined(
        column_lines(names),
    ) + "}\n\n"@ + "impl std::str::FromStr for "@ + COLUMN_TYPE_ENUM_NAME@
        + "{\n    type Err = String;\n    fn from_str(s: &str) -> Result<Self, Self::Err> { \n        match s{\n"@
        + joined(column_arms(names)) + "_ => Err(format!(\"Unknown string: '{}'\", s)),\n"@
        + "}\n}\n}"@
}

/// The notes on the columns `col_names` with the profiles `cols_info`: one
/// note for each column that mixes kinds, in the order of the columns.
pub fn mixed_column_notes(col_names: &[ColName], cols_info: &[ColumnInfo]) -> (log: Vec<String>)
    requires
        col_names@.len() == cols_info@.len(),
    ensures
        log.deep_view() == mixed_notes(
            col_names.deep_view(),
            cols_info.deep_view(),
            col_names@.len() as int,
        ),
{
    let ghost names = col_names.deep_view();
    let ghost profiles = cols_info.deep_view();
    let mut log: Vec<String> = Vec::new();
    let mut i: usize = 0;
    while i < col_names.len()
        invariant
            i <= col_names.len(),
            col_names@.len() == cols_info@.len(),
            names == col_names.deep_view(),
            profiles == cols_info.deep_view(),
            log.deep_view() == mixed_notes(names, profiles, i as int),
        decreases col_names.len() - i,
    {
        proof {
            assert(names[i as int] == col_names[i as int]@);
            assert(profiles[i as int].unique_values == cols_info[i as int].unique_values.deep_view());
        }
        match decide_shape(&cols_info[i].unique_values) {
            EnumShape::Mixed => {
                let ghost listed = log.deep_view();
                let ghost before = log@;
                let mut note = "enum generation log: column `".to_string();
                note.append(col_names[i].raw.as_str());
                note.append("` contains numbers and strings");
                log.push(note);
                proof {
                    assert forall|k: int| 0 <= k < before.len() implies log.deep_view()[k]
                        == listed[k] by {
                        assert(log@[k] == before[k]);
                    }
                    assert(log.deep_view() =~= listed.push(mixed_note(names[i as int].raw)));
                }
            },
            _ => {},
        }
        i += 1;
    }
    log
}

/// What `generate_enums_from` hands back.
#[derive(Debug)]
pub struct GeneratedEnums {
    /// The generated code.
    pub code: String,
    /// One note for each column that mixes kinds.
    pub log: Vec<String>,
}

/// Whether `generate_enums_from` can be called on `dataset`.
pub fn can_generate_enums(dataset: &CsvDataset) -> (r: bool)
    requires
        dataset.well_formed(),
    ensures
        r == can_generate(dataset.names.deep_view(), dataset.values.deep_view()),
{
    let ghost names = dataset.names.deep_view();
    let ghost values = dataset.values.deep_view();
    let mut i: usize = 0;
    while i < dataset.names.len()
        invariant
            i <= dataset.names.len(),
            dataset.well_formed(),
            names == dataset.names.deep_view(),
            values == dataset.values.deep_view(),
            forall|k: int|
                0 <= k < i ==> can_label_column(#[trigger] values[first_match(names, names[k].raw)]),
        decreases dataset.names.len() - i,
    {
        proof {
            lemma_own_name_matches(names, i as int);
            assert(names[i as int].raw == dataset.names[i as int].raw@);
        }
        let at = find_column(dataset.names.as_slice(), dataset.names[i].raw.as_str());
        let col = &dataset.values[at];
        assert(values[at as int] == col.deep_view());
        if holds_kind(col, CsvKind::Float) && (holds_kind(col, CsvKind::Int) || holds_kind(
            col,
            CsvKind::Str,
        )) {
            return false;
        }
        i += 1;
    }
    true
}

fn push_column_arm(out: &mut String, name: &ColName)
    ensures
        final(out)@ == old(out)@ + column_arm(name@),
{
    out.append("\t\t\t\"");
    out.append(name.raw.as_str());
    out.append("\" => Ok(");
    out.append(COLUMN_TYPE_ENUM_NAME);
    out.append("::");
    out.append(name.sanitized.0.as_str());
    out.append("),\n");
    assert(final(out)@ =~= old(out)@ + column_arm(name@));
}

/// Profiles every column of `dataset`, attaches the profiles in place of
/// those that were attached before, and writes the enumerations. A column
/// that mixes kinds is given named variants, and a note on it is handed
/// back. No column may hold a number beside a text or an integer.
pub fn generate_enums_from(dataset: &mut CsvDataset) -> (out: GeneratedEnums)
    requires
        old(dataset).well_formed(),
        can_generate(old(dataset).names.deep_view(), old(dataset).values.deep_view()),
    ensures
        final(dataset).names == old(dataset).names,
        final(dataset).values == old(dataset).values,
        final(dataset).null_values == old(dataset).null_values,
        are_profiles(
            old(dataset).names.deep_view(),
            old(dataset).values.deep_view(),
            final(dataset).info.deep_view(),
        ),
        out.code@ == enums_code(old(dataset).names.deep_view(), final(dataset).info.deep_view()),
        out.log.deep_view() == mixed_notes(
            old(dataset).names.deep_view(),
            final(dataset).info.deep_view(),
            old(dataset).names@.len() as int,
        ),
{
    let infos = profiles_of(dataset.names_and_values_view());
    let ghost names = dataset.names.deep_view();
    let ghost values = dataset.values.deep_view();
    let ghost profiles = infos.deep_view();
    let ghost blocks = enum_blocks(names, profiles);
    let ghost lines = column_lines(names);
    let ghost arms = column_arms(names);
    let n = dataset.names.len();
    let mut enums = String::new();
    let mut columns_enum = String::new();
    let mut columns_enum_from_str = String::new();
    let mut i: usize = 0;
    while i < n
        invariant
            i <= n,
            n == dataset.names.len(),
            n == infos.len(),
            dataset.well_formed(),
            names == dataset.names.deep_view(),
            values == dataset.values.deep_view(),
            profiles == infos.deep_view(),
            are_profiles(names, values, profiles),
            can_generate(names, values),
            blocks == enum_blocks(names, profiles),
            lines == column_lines(names),
            arms == column_arms(names),
            enums@ == joined(blocks.take(i as int)),
            columns_enum@ == joined(lines.take(i as int)),
            columns_enum_from_str@ == joined(arms.take(i as int)),
        decreases n - i,
    {
        let col_name = &dataset.names[i];
        let unique_values = &infos[i].unique_values;
        proof {
            lemma_joined_step(blocks, i as int);
            lemma_joined_step(lines, i as int);
            lemma_joined_step(arms, i as int);
            assert(names[i as int] == col_name@);
            assert(profiles[i as int].unique_values == unique_values.deep_view());
            let at = first_match(names, names[i as int].raw);
            lemma_own_name_matches(names, i as int);
            assert(can_label_column(values[at]));
            if shape_of(unique_values.deep_view()) is Categorical || shape_of(
                unique_values.deep_view(),
            ) is Mixed {
                lemma_profile_can_label(names[at], values[at], profiles[i as int]);
            }
        }
        enums.append(gen_enum(col_name, unique_values).as_str());
        enums.append("\n\n");
        columns_enum.append(col_name.sanitized.0.as_str());
        columns_enum.append(",\n");
        push_column_arm(&mut columns_enum_from_str, col_name);
        i += 1;
    }
    proof {
        assert(blocks.take(n as int) == blocks);
        assert(lines.take(n as int) == lines);
        assert(arms.take(n as int) == arms);
    }
    let mut code = enums;
    code.append("enum ");
    code.append(COLUMN_TYPE_ENUM_NAME);
    code.append("{\n");
    code.append(columns_enum.as_str());
    code.append("}\n\n");
    code.append("impl std::str::FromStr for ");
    code.append(COLUMN_TYPE_ENUM_NAME);
    code.append(
        "{\n    type Err = String;\n    fn from_str(s: &str) -> Result<Self, Self::Err> { \n        match s{\n",
    );
    code.append(columns_enum_from_str.as_str());
    code.append("_ => Err(format!(\"Unknown string: '{}'\", s)),\n");
    code.append("}\n}\n}");
    let col_names = dataset.names.as_slice();
    let cols_info = infos.as_slice();
    proof {
        assert(col_names.deep_view() =~= names);
        assert(cols_info.deep_view() =~= profiles);
    }
    let log = mixed_column_notes(col_names, cols_info);
    dataset.info = infos;
    GeneratedEnums { code, log }
}

} // verus!
