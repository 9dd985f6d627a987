//! The dataset: the columns of a CSV file, each with its name and the typed
//! values of its cells, and the profiles that were made of them.

use crate::csv_type::{CsvAny, CsvValue};
use crate::dataset_info::{are_profiles, profiles_of, ColumnInfo, ColumnNotFound};
use crate::sanitizer::sanitized;
use crate::text::{compare_text, TextOrder};
use crate::{
    classified, ColName, ColNameModel, NullValues, RawCsvValue, RawModel, RemovedColumn,
    ValueNamesMut, ValueNamesView,
};
use vstd::prelude::*;

verus! {

/// This is a form to represent the dataset which does no deep typing but can
/// still be useful. The field `info` holds the profile of each column once
/// the profiles were made.
#[derive(Debug)]
pub struct CsvDataset<'a> {
    pub names: Vec<ColName>,
    pub values: Vec<Vec<CsvAny>>,
    pub null_values: NullValues<'a>,
    pub info: Vec<ColumnInfo>,
}

impl<'a> Default for CsvDataset<'a> {
    fn default() -> (r: Self)
        ensures
            r.names@.len() == 0,
            r.values@.len() == 0,
            r.null_values@.len() == 0,
            r.info@.len() == 0,
    {
        CsvDataset {
            names: Vec::new(),
            values: Vec::new(),
            null_values: NullValues(Vec::new()),
            info: Vec::new(),
        }
    }
}

/// The name that stands for the header `raw`.
pub open spec fn name_of(raw: Seq<char>) -> ColNameModel {
    ColNameModel { raw, sanitized: sanitized(raw) }
}

/// The cells of column `c`: of every record that reaches to column `c`, in
/// the order of the records, the typed value of its field `c`.
pub open spec fn column_cells(records: Seq<Seq<RawModel>>, c: int, nulls: Seq<Seq<char>>) -> Seq<
    CsvValue,
>
    decreases records.len(),
{
    if records.len() == 0 {
        Seq::empty()
    } else {
        let above = column_cells(records.drop_last(), c, nulls);
        let record = records.last();
        if c < record.len() {
            above.push(classified(record[c].text, record[c].float, nulls))
        } else {
            above
        }
    }
}

/// The position of the first name in `names` that is `query`, and the
/// length of `names` if there is none.
pub open spec fn first_named(names: Seq<ColNameModel>, query: Seq<char>) -> int
    decreases names.len(),
{
    if names.len() == 0 {
        0
    } else if names[0].raw == query {
        0
    } else {
        1 + first_named(names.drop_first(), query)
    }
}

/// `first_named` is the least position with the name asked for.
pub proof fn lemma_first_named(names: Seq<ColNameModel>, query: Seq<char>)
    ensures
        0 <= first_named(names, query) <= names.len(),
        first_named(names, query) < names.len() ==> names[first_named(names, query)].raw == query,
        forall|k: int| 0 <= k < first_named(names, query) ==> (#[trigger] names[k]).raw != query,
    decreases names.len(),
{
    if names.len() > 0 && names[0].raw != query {
        let rest = names.drop_first();
        lemma_first_named(rest, query);
        assert forall|k: int| 0 <= k < first_named(names, query) implies (#[trigger] names[k]).raw
            != query by {
            if k > 0 {
                assert(names[k] == rest[k - 1]);
            }
        }
    }
}

proof fn lemma_first_named_is(names: Seq<ColNameModel>, query: Seq<char>, j: int)
    requires
        0 <= j <= names.len(),
        j < names.len() ==> names[j].raw == query,
        forall|k: int| 0 <= k < j ==> (#[trigger] names[k]).raw != query,
    ensures
        first_named(names, query) == j,
{
    lemma_first_named(names, query);
    let m = first_named(names, query);
    if m < j {
        assert(names[m].raw != query);
    }
}

impl<'a> CsvDataset<'a> {
    /// Whether every name has its column of values.
    pub open spec fn well_formed(&self) -> bool {
        self.names@.len() == self.values@.len()
    }

    /// Appends a column. The lengths of the columns are not checked, so every
    /// column can have a different length: be aware of row indexing. The
    /// profiles are dropped, since they no longer describe the dataset.
    pub fn push(&mut self, col_name: &str, col_values: Vec<CsvAny>)
        ensures
            final(self).names.deep_view() == old(self).names.deep_view().push(name_of(col_name@)),
            final(self).values@ == old(self).values@.push(col_values),
            final(self).null_values == old(self).null_values,
            final(self).info@.len() == 0,
            old(self).well_formed() ==> final(self).well_formed(),
    {
        let ghost before = self.names.deep_view();
        let ghost names_before = self.names@;
        let name = ColName::new(col_name);
        self.names.push(name);
        self.values.push(col_values);
        self.info = Vec::new();
        proof {
            assert forall|i: int| 0 <= i < before.len() implies self.names.deep_view()[i]
                == before[i] by {
                assert(self.names@[i] == names_before[i]);
            }
            assert(self.names.deep_view() =~= before.push(name_of(col_name@)));
        }
    }

    /// Takes the first column with the name `col_name` out of the dataset.
    /// It fails, and leaves the dataset as it is, if there is no such
    /// column. Otherwise the profiles are dropped, since they no longer
    /// describe the dataset.
    pub fn remove(&mut self, col_name: &str) -> (r: Result<RemovedColumn, ColumnNotFound>)
        requires
            old(self).well_formed(),
        ensures
            final(self).well_formed(),
            final(self).null_values == old(self).null_values,
            r is Ok <==> first_named(old(self).names.deep_view(), col_name@) < old(self).names@.len(),
            r matches Ok(removed) ==> {
                let at = first_named(old(self).names.deep_view(), col_name@);
                &&& removed.name == old(self).names@[at]
                &&& removed.col_values == old(self).values@[at]
                &&& final(self).names@ == old(self).names@.remove(at)
                &&& final(self).values@ == old(self).values@.remove(at)
                &&& final(self).info@.len() == 0
            },
            r matches Err(e) ==> e.column_name@ == col_name@ && *final(self) == *old(self),
    {
        let mut at: usize = 0;
        while at < self.names.len()
            invariant
                at <= self.names.len(),
                *self == *old(self),
                self.well_formed(),
                forall|k: int| 0 <= k < at ==> (#[trigger] self.names.deep_view()[k]).raw != col_name@,
            decreases self.names.len() - at,
        {
            assert(self.names.deep_view()[at as int].raw == self.names[at as int].raw@);
            match compare_text(self.names[at].raw.as_str(), col_name) {
                TextOrder::Same => {
                    proof {
                        lemma_first_named_is(self.names.deep_view(), col_name@, at as int);
                    }
                    let name = self.names.remove(at);
                    let col_values = self.values.remove(at);
                    self.info = Vec::new();
                    return Ok(RemovedColumn { col_values, name });
                },
                _ => {},
            }
            at += 1;
        }
        proof {
            lemma_first_named_is(self.names.deep_view(), col_name@, at as int);
        }
        Err(ColumnNotFound { column_name: col_name.to_string() })
    }

    /// The dataset of a CSV file: `headers` holds the fields of its first
    /// row, `records` the fields of each row after it. No record may hold
    /// more fields than there are headers. A record that holds fewer leaves
    /// the columns that it does not reach shorter.
    pub fn new(headers: Vec<String>, records: Vec<Vec<RawCsvValue>>, null_values: NullValues<'a>) -> (r:
        Self)
        requires
            forall|i: int| 0 <= i < records@.len() ==> (#[trigger] records@[i])@.len() <= headers@.len(),
        ensures
            r.well_formed(),
            r.names@.len() == headers@.len(),
            forall|c: int|
                0 <= c < headers@.len() ==> (#[trigger] r.names@[c])@ == name_of(headers@[c]@),
            forall|c: int|
                0 <= c < headers@.len() ==> (#[trigger] r.values@[c]).deep_view() == column_cells(
                    records.deep_view(),
                    c,
                    null_values@,
                ),
            r.null_values == null_values,
            r.info@.len() == 0,
    {
        let mut names: Vec<ColName> = Vec::new();
        let mut values: Vec<Vec<CsvAny>> = Vec::new();
        let mut c: usize = 0;
        while c < headers.len()
            invariant
                c <= headers.len(),
                names.len() == c,
                values.len() == c,
                forall|k: int| 0 <= k < c ==> (#[trigger] names@[k])@ == name_of(headers@[k]@),
                forall|k: int|
                    0 <= k < c ==> (#[trigger] values@[k]).deep_view() == column_cells(
                        records.deep_view(),
                        k,
                        null_values@,
                    ),
            decreases headers.len() - c,
        {
            names.push(ColName::new(headers[c].as_str()));
            let mut cells: Vec<CsvAny> = Vec::new();
            let mut row: usize = 0;
            while row < records.len()
                invariant
                    row <= records.len(),
                    cells.deep_view() == column_cells(
                        records.deep_view().take(row as int),
                        c as int,
                        null_values@,
                    ),
                decreases records.len() - row,
            {
                let ghost seen = records.deep_view().take(row + 1);
                let ghost listed = cells.deep_view();
                let ghost before = cells@;
                proof {
                    assert(seen.drop_last() == records.deep_view().take(row as int));
                    assert(seen.last() == records@[row as int].deep_view());
                    assert(seen.last().len() == records@[row as int]@.len());
                }
                if c < records[row].len() {
                    let cell = records[row][c].as_csvany(&null_values);
                    cells.push(cell);
                    proof {
                        assert(seen.last()[c as int] == records@[row as int]@[c as int]@);
                        assert forall|i: int| 0 <= i < before.len() implies cells.deep_view()[i]
                            == listed[i] by {
                            assert(cells@[i] == before[i]);
                        }
                        assert(cells.deep_view() =~= listed.push(cell@));
                    }
                }
                row += 1;
            }
            proof {
                assert(records.deep_view().take(row as int) == records.deep_view());
            }
            values.push(cells);
            c += 1;
        }
        Self { names, values, null_values, info: Vec::new() }
    }

    /// The names and values to read.
    pub fn names_and_values_view(&self) -> (r: ValueNamesView<'_>)
        ensures
            r.values@ == self.values@,
            r.names@ == self.names@,
    {
        ValueNamesView { values: self.values.as_slice(), names: self.names.as_slice() }
    }

    /// The names and values to read, borrowed from a dataset that is held
    /// for writing.
    pub fn names_and_values_mut(&mut self) -> (r: ValueNamesMut<'_>)
        ensures
            r.values@ == old(self).values@,
            r.names@ == old(self).names@,
            *final(self) == *old(self),
    {
        ValueNamesMut { values: self.values.as_slice(), names: self.names.as_slice() }
    }

    /// Analyzes every cell of the dataset and attaches the profile of each
    /// column, in the order of the columns. Profiles that were attached
    /// before are replaced.
    pub fn populate_column_infos(dataset: &mut Self)
        requires
            old(dataset).well_formed(),
        ensures
            final(dataset).names == old(dataset).names,
            final(dataset).values == old(dataset).values,
            final(dataset).null_values == old(dataset).null_values,
            are_profiles(
                old(dataset).names.deep_view(),
                old(dataset).values.deep_view(),
                final(dataset).info.deep_view(),
            ),
    {
        let infos = profiles_of(dataset.names_and_values_view());
        dataset.info = infos;
    }

    /// The names and values to read, beside the profiles to write.
    pub fn split_view_and_info(&mut self) -> (r: (ValueNamesView<'_>, &mut Vec<ColumnInfo>))
        ensures
            r.0.values@ == old(self).values@,
            r.0.names@ == old(self).names@,
            *r.1 == old(self).info,
            final(self).names == old(self).names,
            final(self).values == old(self).values,
            final(self).null_values == old(self).null_values,
            final(self).info == *final(r.1),
    {
        (
            ValueNamesView { values: self.values.as_slice(), names: self.names.as_slice() },
            &mut self.info,
        )
    }
}

} // verus!
