//! Writes the container of a dataset: one field for each column, and the
//! operation that builds the container from the dataset.

use crate::csv_dataset::CsvDataset;
use crate::csv_type::CsvKind;
use crate::dataset_info::{ColumnInfo, ColumnInfoModel, Variant, VariantModel};
use crate::text::{count_to_text, int_text, joined, lemma_joined_step, unicode_lowercase};
use crate::{ColName, ColNameModel, COLUMN_TYPE_ENUM_NAME, MAIN_STRUCT_NAME};
use vstd::prelude::*;

verus! {

/// Whether no value that `unique` lists before position `k` is of the kind
/// of the value at `k`.
pub open spec fn first_of_its_kind(unique: Seq<VariantModel>, k: int) -> bool {
    forall|j: int| 0 <= j < k ==> (#[trigger] unique[j]).csvany.kind() != unique[k].csvany.kind()
}

/// The match arm that the value at position `k` of `unique` contributes to
/// the conversion of a cell into the enumeration `name`: a text, an integer
/// and a number contribute the arm of their kind where they are the first of
/// their kind, and nothing after that; null and empty contribute an arm each
/// time, and both arms lead to the null variant.
pub open spec fn match_arm(name: Seq<char>, unique: Seq<VariantModel>, k: int) -> Seq<char> {
    match unique[k].csvany.kind() {
        CsvKind::Str => if first_of_its_kind(unique, k) {
            "csv_deserializer::csv_type::CsvAny::Str(s) => "@ + name + "::from_str(s).unwrap(),\n"@
        } else {
            Seq::empty()
        },
        CsvKind::Int => if first_of_its_kind(unique, k) {
            "csv_deserializer::csv_type::CsvAny::Int(i) => "@ + name + "::Int(*i),\n"@
        } else {
            Seq::empty()
        },
        CsvKind::Float => if first_of_its_kind(unique, k) {
            "csv_deserializer::csv_type::CsvAny::Float(f) => "@ + name + "::Float(*f),\n"@
        } else {
            Seq::empty()
        },
        CsvKind::Null => "csv_deserializer::csv_type::CsvAny::Null => "@ + name + "::Null,\n"@,
        CsvKind::Empty => "csv_deserializer::csv_type::CsvAny::Empty => "@ + name + "::Null,\n"@,
    }
}

/// The match arms of the values that `unique` lists.
pub open spec fn match_arms(name: Seq<char>, unique: Seq<VariantModel>) -> Seq<Seq<char>> {
    Seq::new(unique.len(), |k: int| match_arm(name, unique, k))
}

/// The statements that find the column `name` in a dataset by its
/// identifier and convert its cells into the enumeration of the column.
pub open spec fn vec_of_enums_text(name: ColNameModel, unique: Seq<VariantModel>) -> Seq<char> {
    "let (index, _) = dataset\n            .names\n            .iter()\n            .enumerate()\n            .find(|(index, cl)| &cl.sanitized.0 == \""@
        + name.sanitized + "\")\n            .unwrap();\nlet "@ + unicode_lowercase(name.sanitized)
        + " = "@ + COLUMN_TYPE_ENUM_NAME@ + "::"@ + name.sanitized
        + "(dataset.values[index].iter().map(|val| match val{\n    "@ + joined(
        match_arms(name.sanitized, unique),
    ) + "\n    _ => panic!(),\n}).collect::<Vec<"@ + name.sanitized + ">>());\n    "@
}

/// Writes the statements that convert the cells of the column `col_name`,
/// which lists `unique_values`, into its enumeration.
pub fn gen_vec_of_enums(col_name: &ColName, unique_values: &Vec<Variant>) -> (out: String)
    ensures
        out@ == vec_of_enums_text(col_name@, unique_values.deep_view()),
{
    let sanitized = col_name.sanitized.0.as_str();
    let sanitized_lower = sanitized.to_lowercase();
    let ghost unique = unique_values.deep_view();
    let ghost arms = match_arms(sanitized@, unique);
    let mut float_case_already_written = false;
    let mut int_case_already_written = false;
    let mut str_case_already_written = false;
    let mut arms_text = String::new();
    let mut k: usize = 0;
    while k < unique_values.len()
        invariant
            k <= unique_values.len(),
            unique == unique_values.deep_view(),
            arms == match_arms(sanitized@, unique),
            arms_text@ == joined(arms.take(k as int)),
            str_case_already_written <==> exists|j: int|
                0 <= j < k && (#[trigger] unique[j]).csvany.kind() == CsvKind::Str,
            int_case_already_written <==> exists|j: int|
                0 <= j < k && (#[trigger] unique[j]).csvany.kind() == CsvKind::Int,
            float_case_already_written <==> exists|j: int|
                0 <= j < k && (#[trigger] unique[j]).csvany.kind() == CsvKind::Float,
        decreases unique_values.len() - k,
    {
        proof {
            lemma_joined_step(arms, k as int);
            assert(unique[k as int].csvany == unique_values[k as int].csvany@);
        }
        let ghost before = arms_text@;
        match unique_values[k].csvany.kind() {
            CsvKind::Str => {
                if !str_case_already_written {
                    str_case_already_written = true;
                    arms_text.append("csv_deserializer::csv_type::CsvAny::Str(s) => ");
                    arms_text.append(sanitized);
                    arms_text.append("::from_str(s).unwrap(),\n");
                }
            },
            CsvKind::Int => {
                if !int_case_already_written {
                    int_case_already_written = true;
                    arms_text.append("csv_deserializer::csv_type::CsvAny::Int(i) => ");
                    arms_text.append(sanitized);
                    arms_text.append("::Int(*i),\n");
                }
            },
            CsvKind::Float => {
                if !float_case_already_written {
                    float_case_already_written = true;
                    arms_text.append("csv_deserializer::csv_type::CsvAny::Float(f) => ");
                    arms_text.append(sanitized);
                    arms_text.append("::Float(*f),\n");
                }
            },
            CsvKind::Null => {
                arms_text.append("csv_deserializer::csv_type::CsvAny::Null => ");
                arms_text.append(sanitized);
                arms_text.append("::Null,\n");
            },
            CsvKind::Empty => {
                arms_text.append("csv_deserializer::csv_type::CsvAny::Empty => ");
                arms_text.append(sanitized);
                arms_text.append("::Null,\n");
            },
        }
        proof {
            assert(arms_text@ =~= before + match_arm(sanitized@, unique, k as int));
        }
        k += 1;
    }
    proof {
        assert(arms.take(k as int) == arms);
    }
    let mut out =
        "let (index, _) = dataset\n            .names\n            .iter()\n            .enumerate()\n            .find(|(index, cl)| &cl.sanitized.0 == \"".to_string();
    out.append(sanitized);
    out.append("\")\n            .unwrap();\nlet ");
    out.append(sanitized_lower.as_str());
    out.append(" = ");
    out.append(COLUMN_TYPE_ENUM_NAME);
    out.append("::");
    out.append(sanitized);
    out.append("(dataset.values[index].iter().map(|val| match val{\n    ");
    out.append(arms_text.as_str());
    out.append("\n    _ => panic!(),\n}).collect::<Vec<");
    out.append(sanitized);
    out.append(">>());\n    ");
    out
}

/// For each profile the statements that convert its column, followed by an
/// empty line.
pub open spec fn vec_blocks(infos: Seq<ColumnInfoModel>) -> Seq<Seq<char>> {
    Seq::new(
        infos.len(),
        |i: int| vec_of_enums_text(infos[i].column_name, infos[i].unique_values) + "\n\n"@,
    )
}

/// For each column the line that hands its field to the container.
pub open spec fn field_lines(names: Seq<ColNameModel>) -> Seq<Seq<char>> {
    Seq::new(names.len(), |i: int| unicode_lowercase(names[i].sanitized) + ",\n\t\t\t"@)
}

/// The operation that builds the container from a dataset: the conversion
/// of each profiled column, then the container with one field for each
/// column.
pub open spec fn new_method_text(names: Seq<ColNameModel>, infos: Seq<ColumnInfoModel>) -> Seq<char> {
    "pub fn new(dataset: &csv_deserializer::CsvDataset) -> Self{\n        "@ + joined(
        vec_blocks(infos),
    ) + "\n\n        "@ + MAIN_STRUCT_NAME@ + "{\n            "@ + joined(field_lines(names))
        + "\n        }\n    }\n"@
}

/// Writes the operation that builds the container from a dataset with the
/// columns `col_names` and the profiles `cols_info`.
pub fn gen_new_method(col_names: &[ColName], cols_info: &[ColumnInfo]) -> (out: String)
    ensures
        out@ == new_method_text(col_names.deep_view(), cols_info.deep_view()),
{
    let ghost names = col_names.deep_view();
    let ghost infos = cols_info.deep_view();
    let ghost blocks = vec_blocks(infos);
    let ghost fields = field_lines(names);
    let mut vecs_of_enums = String::new();
    let mut i: usize = 0;
    while i < cols_info.len()
        invariant
            i <= cols_info.len(),
            infos == cols_info.deep_view(),
            blocks == vec_blocks(infos),
            vecs_of_enums@ == joined(blocks.take(i as int)),
        decreases cols_info.len() - i,
    {
        proof {
            lemma_joined_step(blocks, i as int);
            assert(infos[i as int] == cols_info[i as int]@);
        }
        let col_info = &cols_info[i];
        vecs_of_enums.append(
            gen_vec_of_enums(&col_info.column_name, &col_info.unique_values).as_str(),
        );
        vecs_of_enums.append("\n\n");
        i += 1;
    }
    let mut fields_list = String::new();
    let mut j: usize = 0;
    while j < col_names.len()
        invariant
            j <= col_names.len(),
            names == col_names.deep_view(),
            fields == field_lines(names),
            fields_list@ == joined(fields.take(j as int)),
        decreases col_names.len() - j,
    {
        proof {
            lemma_joined_step(fields, j as int);
            assert(names[j as int] == col_names[j as int]@);
        }
        fields_list.append(col_names[j].sanitized.0.as_str().to_lowercase().as_str());
        fields_list.append(",\n\t\t\t");
        j += 1;
    }
    proof {
        assert(blocks.take(i as int) == blocks);
        assert(fields.take(j as int) == fields);
    }
    let mut out = "pub fn new(dataset: &csv_deserializer::CsvDataset) -> Self{\n        ".to_string();
    out.append(vecs_of_enums.as_str());
    out.append("\n\n        ");
    out.append(MAIN_STRUCT_NAME);
    out.append("{\n            ");
    out.append(fields_list.as_str());
    out.append("\n        }\n    }\n");
    out
}

/// For each column the reference to its field.
pub open spec fn column_refs(names: Seq<ColNameModel>) -> Seq<Seq<char>> {
    Seq::new(names.len(), |i: int| "&self."@ + names[i].sanitized + ","@)
}

/// The operation that lists the columns of the container: an array of as
/// many references as there are columns.
pub open spec fn column_list_method_text(names: Seq<ColNameModel>) -> Seq<char> {
    "pub fn get_columns(&self)-> [&"@ + COLUMN_TYPE_ENUM_NAME@ + ";"@ + int_text(names.len() as int)
        + "] {\n        ["@ + joined(column_refs(names)) + "]\n    }"@
}

/// Writes the operation that lists the columns `col_names` of the
/// container.
pub fn gen_column_list_method(col_names: &[ColName]) -> (out: String)
    ensures
        out@ == column_list_method_text(col_names.deep_view()),
{
    let ghost names = col_names.deep_view();
    let ghost refs = column_refs(names);
    let mut columns = String::new();
    let mut number_of_cols: usize = 0;
    while number_of_cols < col_names.len()
        invariant
            number_of_cols <= col_names.len(),
            names == col_names.deep_view(),
            refs == column_refs(names),
            columns@ == joined(refs.take(number_of_cols as int)),
        decreases col_names.len() - number_of_cols,
    {
        proof {
            lemma_joined_step(refs, number_of_cols as int);
            assert(names[number_of_cols as int] == col_names[number_of_cols as int]@);
        }
        columns.append("&self.");
        columns.append(col_names[number_of_cols].sanitized.0.as_str());
        columns.append(",");
        number_of_cols += 1;
    }
    proof {
        assert(refs.take(number_of_cols as int) == refs);
    }
    let mut out = "pub fn get_columns(&self)-> [&".to_string();
    out.append(COLUMN_TYPE_ENUM_NAME);
    out.append(";");
    out.append(count_to_text(number_of_cols).as_str());
    out.append("] {\n        [");
    out.append(columns.as_str());
    out.append("]\n    }");
    out
}

/// For each column the field that holds it in the container.
pub open spec fn struct_fields(names: Seq<ColNameModel>) -> Seq<Seq<char>> {
    Seq::new(
        names.len(),
        |i: int|
            "\tpub "@ + unicode_lowercase(names[i].sanitized) + ": "@ + COLUMN_TYPE_ENUM_NAME@
                + ",\n"@,
    )
}

/// The container of a dataset: its definition with one field for each
/// column, and its operations.
pub open spec fn struct_text(names: Seq<ColNameModel>, infos: Seq<ColumnInfoModel>) -> Seq<char> {
    "pub struct "@ + MAIN_STRUCT_NAME@ + "{\n"@ + joined(struct_fields(names)) + "}"@ + "impl "@
        + MAIN_STRUCT_NAME@ + "{\n"@ + new_method_text(names, infos) + column_list_method_text(names)
        + "}"@
}

/// It generates a struct named `CsvDataFrame` which holds one field for
/// each column, typed by the enumeration of the columns, together with the
/// operation that builds it from a dataset and the operation that lists its
/// columns. The conversions are written for the profiles that are attached
/// to the dataset.
pub fn gen_struct(dataset: &CsvDataset) -> (out: String)
    ensures
        out@ == struct_text(dataset.names.deep_view(), dataset.info.deep_view()),
{
    let ghost names = dataset.names.deep_view();
    let ghost fields = struct_fields(names);
    let mut final_str = "pub struct ".to_string();
    final_str.append(MAIN_STRUCT_NAME);
    final_str.append("{\n");
    let ghost head = final_str@;
    let mut i: usize = 0;
    while i < dataset.names.len()
        invariant
            i <= dataset.names.len(),
            names == dataset.names.deep_view(),
            fields == struct_fields(names),
            final_str@ == head + joined(fields.take(i as int)),
        decreases dataset.names.len() - i,
    {
        proof {
            lemma_joined_step(fields, i as int);
            assert(names[i as int] == dataset.names[i as int]@);
        }
        let ghost before = final_str@;
        final_str.append("\tpub ");
        final_str.append(dataset.names[i].sanitized.0.as_str().to_lowercase().as_str());
        final_str.append(": ");
        final_str.append(COLUMN_TYPE_ENUM_NAME);
        final_str.append(",\n");
        proof {
            assert(final_str@ =~= before + fields[i as int]);
            assert(final_str@ =~= head + joined(fields.take(i + 1)));
        }
        i += 1;
    }
    proof {
        assert(fields.take(i as int) == fields);
    }
    final_str.append("}");
    let col_names = dataset.names.as_slice();
    let cols_info = dataset.info.as_slice();
    proof {
        assert(col_names.deep_view() =~= names);
        assert(cols_info.deep_view() =~= dataset.info.deep_view());
    }
    let new_method = gen_new_method(col_names, cols_info);
    let column_list_method = gen_column_list_method(col_names);
    final_str.append("impl ");
    final_str.append(MAIN_STRUCT_NAME);
    final_str.append("{\n");
    final_str.append(new_method.as_str());
    final_str.append(column_list_method.as_str());
    final_str.append("}");
    final_str
}

} // verus!
