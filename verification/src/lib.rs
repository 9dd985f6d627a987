//! Schema inference for untyped CSV data: every cell is classified, every
//! column is profiled, and the profile decides which typed representation is
//! generated for the column.

pub mod cli;
pub mod csv_dataset;
pub mod csv_type;
pub mod dataset_info;
pub mod distinct;
pub mod enum_gen;
pub mod sanitizer;
pub mod sorting;
pub mod struct_gen;
pub mod text;
pub mod value_order;

use crate::csv_type::{CsvAny, CsvValue, FloatModel, FloatValue};
use crate::sanitizer::{sanitize_identifier, sanitized};
use crate::text::{
    compare_text, int_text, lemma_int_text_round_trip, parse_int, parsed_int, TextOrder,
};
use vstd::prelude::*;

verus! {

pub const COLUMN_TYPE_ENUM_NAME: &'static str = "CsvColumn";

pub const MAIN_STRUCT_NAME: &'static str = "CsvDataFrame";

/// The identifier that stands for a name.
#[derive(Debug)]
pub struct SanitizedStr(pub String);

impl Clone for SanitizedStr {
    fn clone(&self) -> (r: Self)
        ensures
            r == *self,
    {
        SanitizedStr(self.0.clone())
    }
}

/// The name of a column: as it stands in the header, and sanitized.
#[derive(Debug)]
pub struct ColName {
    pub raw: String,
    pub sanitized: SanitizedStr,
}

/// What a `ColName` stands for.
pub ghost struct ColNameModel {
    pub raw: Seq<char>,
    pub sanitized: Seq<char>,
}

impl View for ColName {
    type V = ColNameModel;

    open spec fn view(&self) -> ColNameModel {
        ColNameModel { raw: self.raw@, sanitized: self.sanitized.0@ }
    }
}

impl DeepView for ColName {
    type V = ColNameModel;

    open spec fn deep_view(&self) -> ColNameModel {
        self@
    }
}

impl Clone for ColName {
    fn clone(&self) -> (r: Self)
        ensures
            r == *self,
    {
        ColName { raw: self.raw.clone(), sanitized: self.sanitized.clone() }
    }
}

impl ColName {
    /// The name `raw` with the identifier that stands for it.
    pub fn new(raw: &str) -> (r: Self)
        ensures
            r@ == (ColNameModel { raw: raw@, sanitized: sanitized(raw@) }),
    {
        let sanitized = SanitizedStr(sanitize_identifier(raw));
        Self { raw: raw.to_string(), sanitized }
    }
}

/// The texts that are read as a null value.
#[derive(Debug)]
pub struct NullValues<'a>(pub Vec<&'a str>);

impl<'a> View for NullValues<'a> {
    type V = Seq<Seq<char>>;

    open spec fn view(&self) -> Seq<Seq<char>> {
        Seq::new(self.0@.len(), |i: int| self.0@[i]@)
    }
}

impl<'a> Default for NullValues<'a> {
    fn default() -> (r: Self)
        ensures
            r@.len() == 0,
    {
        NullValues(Vec::new())
    }
}

impl<'a> NullValues<'a> {
    /// Whether `text` is one of the null values, letter for letter.
    pub fn contains(&self, text: &str) -> (r: bool)
        ensures
            r == self@.contains(text@),
    {
        let mut i: usize = 0;
        while i < self.0.len()
            invariant
                i <= self.0.len(),
                forall|k: int| 0 <= k < i ==> self@[k] != text@,
            decreases self.0.len() - i,
        {
            match compare_text(self.0[i], text) {
                TextOrder::Same => {
                    assert(self@[i as int] == text@);
                    return true;
                },
                _ => {},
            }
            i += 1;
        }
        false
    }
}

/// A view over all the column names and all the values.
#[derive(Debug, Clone, Copy)]
pub struct ValueNamesView<'a> {
    pub values: &'a [Vec<CsvAny>],
    pub names: &'a [ColName],
}

impl<'a> ValueNamesView<'a> {
    /// Whether every name has its column of values.
    pub open spec fn well_formed(&self) -> bool {
        self.names@.len() == self.values@.len()
    }
}

/// The mutable version of the view over all the column names and all the
/// values.
#[derive(Debug)]
pub struct ValueNamesMut<'a> {
    pub values: &'a [Vec<CsvAny>],
    pub names: &'a [ColName],
}

/// A column taken out of a dataset.
#[derive(Debug)]
pub struct RemovedColumn {
    pub col_values: Vec<CsvAny>,
    pub name: ColName,
}

/// What a cell holds when it is read: its text, and the double-precision
/// number that the text writes, if it writes one.
#[derive(Debug)]
pub struct RawCsvValue {
    pub text: String,
    pub float: Option<FloatValue>,
}

/// What a `RawCsvValue` stands for.
pub ghost struct RawModel {
    pub text: Seq<char>,
    pub float: Option<FloatModel>,
}

impl View for RawCsvValue {
    type V = RawModel;

    open spec fn view(&self) -> RawModel {
        RawModel { text: self.text@, float: float_model(self.float) }
    }
}

impl DeepView for RawCsvValue {
    type V = RawModel;

    open spec fn deep_view(&self) -> RawModel {
        self@
    }
}

/// What an optional `FloatValue` stands for.
pub open spec fn float_model(float: Option<FloatValue>) -> Option<FloatModel> {
    match float {
        Some(f) => Some(f@),
        None => None,
    }
}

/// The typed value of a cell with the text `text`, which writes the number
/// `float` if it writes one, where the texts `nulls` are read as null: the
/// empty text is empty; a text among `nulls` is null; a text that writes a
/// 64-bit integer is that integer, whether or not it writes a number too; a
/// text that writes a number only is that number; every other text is
/// itself.
pub open spec fn classified(text: Seq<char>, float: Option<FloatModel>, nulls: Seq<Seq<char>>) -> CsvValue {
    if text.len() == 0 {
        CsvValue::Empty
    } else if nulls.contains(text) {
        CsvValue::Null
    } else {
        match (float, parsed_int(text)) {
            (_, Some(whole)) => CsvValue::Int(whole),
            (Some(float), None) => CsvValue::Float(float),
            (None, None) => CsvValue::Str(text),
        }
    }
}

/// Classifying the text of a classified value again gives the value back:
/// a text that was classified as itself is classified as itself; the
/// decimal text of an integer is classified as that integer, whatever number
/// is read from it, unless the text is read as null; and the text that
/// displays a number is classified as that number, unless it is empty, read
/// as null, or writes an integer.
pub proof fn lemma_classified_again(
    text: Seq<char>,
    float: Option<FloatModel>,
    nulls: Seq<Seq<char>>,
    float_again: Option<FloatModel>,
)
    ensures
        match classified(text, float, nulls) {
            CsvValue::Str(s) => classified(s, float, nulls) == CsvValue::Str(s),
            CsvValue::Int(i) => !nulls.contains(int_text(i as int)) ==> classified(
                int_text(i as int),
                float_again,
                nulls,
            ) == CsvValue::Int(i),
            CsvValue::Float(f) => f.text.len() > 0 && !nulls.contains(f.text) && parsed_int(f.text)
                is None ==> classified(f.text, Some(f), nulls) == CsvValue::Float(f),
            CsvValue::Null => true,
            CsvValue::Empty => true,
        },
{
    match classified(text, float, nulls) {
        CsvValue::Int(i) => {
            lemma_int_text_round_trip(i);
        },
        _ => {},
    }
}

/// The empty text is classified as empty whatever is read as null, and a
/// text that is read as null is classified as null unless it is empty.
pub proof fn lemma_blank_before_null(text: Seq<char>, float: Option<FloatModel>, nulls: Seq<Seq<char>>)
    ensures
        text.len() == 0 ==> classified(text, float, nulls) == CsvValue::Empty,
        text.len() > 0 && nulls.contains(text) ==> classified(text, float, nulls) == CsvValue::Null,
{
}

impl RawCsvValue {
    /// The typed value of the cell.
    pub fn as_csvany(&self, null_values: &NullValues) -> (r: CsvAny)
        ensures
            r@ == classified(self@.text, self@.float, null_values@),
    {
        if self.text.as_str().is_empty() {
            return CsvAny::Empty;
        } else if null_values.contains(self.text.as_str()) {
            return CsvAny::Null;
        }
        match (&self.float, parse_int(self.text.as_str())) {
            (_, Some(whole)) => CsvAny::Int(whole),
            (Some(float), None) => CsvAny::Float(float.clone()),
            (None, None) => CsvAny::Str(self.text.clone()),
        }
    }
}

} // verus!
