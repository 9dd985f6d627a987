//! What a command-line front end needs beside the dataset: the check of the
//! input path, the reading of the option that names the null values, and the
//! whole of the generated code.

use crate::csv_dataset::CsvDataset;
use crate::dataset_info::are_profiles;
use crate::enum_gen::{can_generate, enums_code, generate_enums_from, mixed_notes, GeneratedEnums};
use crate::struct_gen::{gen_struct, struct_text};
use crate::text::{compare_text, text_of, to_chars, trim_text, trimmed, TextOrder};
use vstd::prelude::*;

verus! {

/// Why a path is refused as the input file.
#[derive(Debug)]
pub enum LocalCsvError {
    /// Permission denied, and the like: with what the system said.
    PathUnreachable(String),
    PathNotExists,
    NotAFile,
    NotACsv,
    MissingExtension,
}

/// What a `LocalCsvError` says.
pub open spec fn error_text(error: LocalCsvError) -> Seq<char> {
    match error {
        LocalCsvError::PathNotExists => "The path provided does not exist."@,
        LocalCsvError::PathUnreachable(e) => "System access error: "@ + e@,
        LocalCsvError::NotAFile => "The path exists but it is not a file (is it a directory?)."@,
        LocalCsvError::NotACsv => "The file extension suggests this is not a CSV."@,
        LocalCsvError::MissingExtension => "Extension file is missing, should be .csv"@,
    }
}

impl LocalCsvError {
    /// The error in words.
    pub fn message(&self) -> (out: String)
        ensures
            out@ == error_text(*self),
    {
        match self {
            Self::PathNotExists => "The path provided does not exist.".to_string(),
            Self::PathUnreachable(e) => {
                let mut out = "System access error: ".to_string();
                out.append(e.as_str());
                out
            },
            Self::NotAFile => "The path exists but it is not a file (is it a directory?).".to_string(),
            Self::NotACsv => "The file extension suggests this is not a CSV.".to_string(),
            Self::MissingExtension => "Extension file is missing, should be .csv".to_string(),
        }
    }
}

/// Whether a path can be the input file, given what was found out about
/// it. The first check that fails gives the error: that something is at the
/// path, then that it is a file, then that its name has the extension `csv`.
pub open spec fn path_verdict(exists: Result<bool, String>, is_file: bool, extension: Option<&str>) -> Result<
    (),
    LocalCsvError,
> {
    match exists {
        Err(e) => Err(LocalCsvError::PathUnreachable(e)),
        Ok(false) => Err(LocalCsvError::PathNotExists),
        Ok(true) => if !is_file {
            Err(LocalCsvError::NotAFile)
        } else {
            match extension {
                None => Err(LocalCsvError::MissingExtension),
                Some(ext) => if ext@ == "csv"@ {
                    Ok(())
                } else {
                    Err(LocalCsvError::NotACsv)
                },
            }
        },
    }
}

/// Decides whether a path can be the input file, from what was found out
/// about it: `exists` tells whether something is there, or what the system
/// said when it could not tell; `is_file` whether it is a file; `extension`
/// is the extension of its name, if it has one.
pub fn custom_csv_path_validator(exists: Result<bool, String>, is_file: bool, extension: Option<&str>) -> (r:
    Result<(), LocalCsvError>)
    ensures
        r == path_verdict(exists, is_file, extension),
{
    match exists {
        Ok(true) => {},
        Ok(false) => {
            return Err(LocalCsvError::PathNotExists);
        },
        Err(e) => {
            return Err(LocalCsvError::PathUnreachable(e));
        },
    }
    if !is_file {
        return Err(LocalCsvError::NotAFile);
    }
    if let Some(ext) = extension {
        match compare_text(ext, "csv") {
            TextOrder::Same => Ok(()),
            _ => Err(LocalCsvError::NotACsv),
        }
    } else {
        Err(LocalCsvError::MissingExtension)
    }
}

/// The parts of `s` between its commas. A text without a comma is one part,
/// the empty text too.
pub open spec fn split_at_commas(s: Seq<char>) -> Seq<Seq<char>>
    decreases s.len(),
{
    if s.len() == 0 {
        seq![Seq::empty()]
    } else {
        let before = split_at_commas(s.drop_last());
        if s.last() == ',' {
            before.push(Seq::empty())
        } else {
            before.drop_last().push(before.last().push(s.last()))
        }
    }
}

/// The null values that the option `a,b,..` names: the parts between the
/// commas, each without the whitespace around it.
pub open spec fn named_null_values(option: Seq<char>) -> Seq<Seq<char>> {
    Seq::new(split_at_commas(option).len(), |i: int| trimmed(split_at_commas(option)[i]))
}

proof fn lemma_split_is_not_empty(s: Seq<char>)
    ensures
        split_at_commas(s).len() > 0,
    decreases s.len(),
{
    if s.len() > 0 {
        lemma_split_is_not_empty(s.drop_last());
    }
}

/// Reads the option that names the null values.
pub fn null_values_of(option: &str) -> (out: Vec<String>)
    ensures
        out.deep_view() == named_null_values(option@),
{
    let chars = to_chars(option);
    let ghost parts = split_at_commas(option@);
    let mut out: Vec<String> = Vec::new();
    let mut from: usize = 0;
    let mut i: usize = 0;
    while i < chars.len()
        invariant
            from <= i <= chars.len(),
            chars@ == option@,
            split_at_commas(option@.take(i as int)).len() == out.len() + 1,
            split_at_commas(option@.take(i as int)).last() == option@.subrange(from as int, i as int),
            forall|k: int|
                0 <= k < out.len() ==> (#[trigger] out.deep_view()[k]) == trimmed(
                    split_at_commas(option@.take(i as int))[k],
                ),
        decreases chars.len() - i,
    {
        let ghost seen = option@.take(i as int);
        let ghost more = option@.take(i + 1);
        proof {
            assert(more.drop_last() == seen);
            assert(more.last() == chars@[i as int]);
            lemma_split_is_not_empty(seen);
        }
        if chars[i] == ',' {
            let ghost listed = out.deep_view();
            let ghost before = out@;
            let part = trim_text(text_of(&chars, from, i).as_str());
            out.push(part);
            proof {
                assert forall|k: int| 0 <= k < out.len() implies (#[trigger] out.deep_view()[k])
                    == trimmed(split_at_commas(more)[k]) by {
                    if k < before.len() {
                        assert(out@[k] == before[k]);
                        assert(out.deep_view()[k] == listed[k]);
                    }
                }
                assert(option@.subrange(i + 1, i + 1) =~= Seq::<char>::empty());
            }
            from = i + 1;
        } else {
            proof {
                assert(option@.subrange(from as int, i + 1) =~= option@.subrange(
                    from as int,
                    i as int,
                ).push(chars@[i as int]));
            }
        }
        i += 1;
    }
    let ghost listed = out.deep_view();
    let ghost before = out@;
    let part = trim_text(text_of(&chars, from, i).as_str());
    out.push(part);
    proof {
        assert(option@.take(i as int) == option@);
        assert forall|k: int| 0 <= k < out.len() implies (#[trigger] out.deep_view()[k]) == trimmed(
            parts[k],
        ) by {
            if k < before.len() {
                assert(out@[k] == before[k]);
                assert(out.deep_view()[k] == listed[k]);
            }
        }
        assert(out.deep_view() =~= named_null_values(option@));
    }
    out
}

/// What the generated code imports.
pub open spec fn imports_text() -> Seq<char> {
    "use csv_deserializer::{create_enum, csv_dataset::CsvDataset, csv_types::CsvAny};\nuse std::str::FromStr;\n\n"@
}

/// Writes what the generated code imports.
pub fn gen_imports() -> (out: String)
    ensures
        out@ == imports_text(),
{
    "use csv_deserializer::{create_enum, csv_dataset::CsvDataset, csv_types::CsvAny};\nuse std::str::FromStr;\n\n".to_string()
}

/// The generated code of a dataset: the imports, the enumerations and the
/// container.
pub open spec fn rust_code_text(enums: Seq<char>, container: Seq<char>) -> Seq<char> {
    "#![allow(unused,non_snake_case,non_camel_case_types)]"@ + imports_text() + "\n"@ + enums + "\n"@
        + container
}

/// Generates the code for `dataset`: it profiles every column, attaches the
/// profiles, and writes the imports, the enumerations and the container.
/// The notes on the columns that mix kinds are handed back beside the code.
/// No column may hold a number beside a text or an integer.
pub fn csv_rust_code(dataset: &mut CsvDataset) -> (out: GeneratedEnums)
    requires
        old(dataset).well_formed(),
        can_generate(old(dataset).names.deep_view(), old(dataset).values.deep_view()),
    ensures
        final(dataset).names == old(dataset).names,
        final(dataset).values == old(dataset).values,
        final(dataset).null_values == old(dataset).null_values,
        are_profiles(
            old(dataset).names.deep_view(),
            old(dataset).values.deep_view(),
            final(dataset).info.deep_view(),
        ),
        out.code@ == rust_code_text(
            enums_code(old(dataset).names.deep_view(), final(dataset).info.deep_view()),
            struct_text(old(dataset).names.deep_view(), final(dataset).info.deep_view()),
        ),
        out.log.deep_view() == mixed_notes(
            old(dataset).names.deep_view(),
            final(dataset).info.deep_view(),
            old(dataset).names@.len() as int,
        ),
{
    let GeneratedEnums { code: enums, log } = generate_enums_from(dataset);
    let struc = gen_struct(dataset);
    let import = gen_imports();
    let mut code = "#![allow(unused,non_snake_case,non_camel_case_types)]".to_string();
    code.append(import.as_str());
    code.append("\n");
    code.append(enums.as_str());
    code.append("\n");
    code.append(struc.as_str());
    GeneratedEnums { code, log }
}

} // verus!
