//! The profile of a column: how many cells of each kind it holds, and the
//! list of its distinct values.

use crate::csv_type::{CsvAny, CsvKind, CsvValue};
use crate::distinct::{
    distinct_positions, is_listed, lemma_distinct_listing_has_no_repeat,
    lemma_distinct_listing_is_unique, lists_distinct_values,
};
use crate::sanitizer::{sanitize_identifier, sanitized};
use crate::text::{
    contains_text, count_to_text, debug_quoted, int_text, int_to_text, joined, lemma_joined_step,
    occurs_at, quote, text_contains,
};
use crate::{ColName, ColNameModel, ValueNamesView};
use vstd::prelude::*;

verus! {

/// One distinct value of a column: the text that displays it, the
/// identifier that stands for it, and the value itself.
#[derive(Debug)]
pub struct Variant {
    pub raw: String,
    pub sanitized: String,
    pub csvany: CsvAny,
}

/// What a `Variant` stands for.
pub ghost struct VariantModel {
    pub raw: Seq<char>,
    pub sanitized: Seq<char>,
    pub csvany: CsvValue,
}

impl View for Variant {
    type V = VariantModel;

    open spec fn view(&self) -> VariantModel {
        VariantModel { raw: self.raw@, sanitized: self.sanitized@, csvany: self.csvany@ }
    }
}

impl DeepView for Variant {
    type V = VariantModel;

    open spec fn deep_view(&self) -> VariantModel {
        self@
    }
}

impl Clone for Variant {
    fn clone(&self) -> (r: Self)
        ensures
            r == *self,
    {
        Variant {
            raw: self.raw.clone(),
            sanitized: self.sanitized.clone(),
            csvany: self.csvany.clone(),
        }
    }
}

/// The variant that lists `value`: a text under its own name, an integer
/// under its decimal text, a number under the text that displays it and
/// without an identifier, null and empty under the names `Null` and `Empty`.
pub open spec fn variant_of(value: CsvValue) -> VariantModel {
    match value {
        CsvValue::Str(s) => VariantModel { raw: s, sanitized: sanitized(s), csvany: value },
        CsvValue::Int(i) => VariantModel {
            raw: int_text(i as int),
            sanitized: sanitized(int_text(i as int)),
            csvany: value,
        },
        CsvValue::Float(f) => VariantModel { raw: f.text, sanitized: Seq::empty(), csvany: value },
        CsvValue::Null => VariantModel { raw: "Null"@, sanitized: "Null"@, csvany: value },
        CsvValue::Empty => VariantModel { raw: "Empty"@, sanitized: "Empty"@, csvany: value },
    }
}

impl Variant {
    /// The variant that lists `value`.
    pub fn of(value: &CsvAny) -> (r: Self)
        ensures
            r@ == variant_of(value@),
    {
        match value {
            CsvAny::Str(s) => Variant {
                raw: s.clone(),
                sanitized: sanitize_identifier(s.as_str()),
                csvany: value.clone(),
            },
            CsvAny::Int(i) => {
                let raw = int_to_text(*i);
                let sanitized = sanitize_identifier(raw.as_str());
                Variant { raw, sanitized, csvany: value.clone() }
            },
            CsvAny::Float(f) => Variant {
                raw: f.text.clone(),
                sanitized: String::new(),
                csvany: value.clone(),
            },
            CsvAny::Null => Variant {
                raw: "Null".to_string(),
                sanitized: "Null".to_string(),
                csvany: CsvAny::Null,
            },
            CsvAny::Empty => Variant {
                raw: "Empty".to_string(),
                sanitized: "Empty".to_string(),
                csvany: CsvAny::Empty,
            },
        }
    }
}

/// How many cells of `vals` are of the kind `kind`.
pub open spec fn count_of(vals: Seq<CsvValue>, kind: CsvKind) -> nat
    decreases vals.len(),
{
    if vals.len() == 0 {
        0
    } else if vals.last().kind() == kind {
        count_of(vals.drop_last(), kind) + 1
    } else {
        count_of(vals.drop_last(), kind)
    }
}

/// Whether `vals` holds a cell of the kind `kind`.
pub open spec fn has_kind(vals: Seq<CsvValue>, kind: CsvKind) -> bool {
    exists|i: int| 0 <= i < vals.len() && (#[trigger] vals[i]).kind() == kind
}

/// The position of the first name in `names` that stands somewhere in
/// `query`, and the length of `names` if there is none.
pub open spec fn first_match(names: Seq<ColNameModel>, query: Seq<char>) -> int
    decreases names.len(),
{
    if names.len() == 0 {
        0
    } else if contains_text(query, names[0].raw) {
        0
    } else {
        1 + first_match(names.drop_first(), query)
    }
}

/// `first_match` is the least position whose name stands in the query.
pub proof fn lemma_first_match(names: Seq<ColNameModel>, query: Seq<char>)
    ensures
        0 <= first_match(names, query) <= names.len(),
        first_match(names, query) < names.len() ==> contains_text(
            query,
            names[first_match(names, query)].raw,
        ),
        forall|k: int|
            0 <= k < first_match(names, query) ==> !contains_text(query, (#[trigger] names[k]).raw),
    decreases names.len(),
{
    if names.len() > 0 && !contains_text(query, names[0].raw) {
        let rest = names.drop_first();
        lemma_first_match(rest, query);
        assert forall|k: int| 0 <= k < first_match(names, query) implies !contains_text(
            query,
            (#[trigger] names[k]).raw,
        ) by {
            if k > 0 {
                assert(names[k] == rest[k - 1]);
            }
        }
    }
}

/// A position is `first_match` if its name stands in the query and no
/// earlier name does.
pub proof fn lemma_first_match_is(names: Seq<ColNameModel>, query: Seq<char>, j: int)
    requires
        0 <= j <= names.len(),
        j < names.len() ==> contains_text(query, names[j].raw),
        forall|k: int| 0 <= k < j ==> !contains_text(query, (#[trigger] names[k]).raw),
    ensures
        first_match(names, query) == j,
{
    lemma_first_match(names, query);
    let m = first_match(names, query);
    if m < j {
        assert(!contains_text(query, names[m].raw));
    }
}

/// The profile of a column.
#[derive(Debug)]
pub struct ColumnInfo {
    pub column_name: ColName,
    pub number_of_empties: usize,
    pub number_of_nulls: usize,
    pub number_of_strings: usize,
    pub number_of_floats: usize,
    pub number_of_ints: usize,
    pub unique_values: Vec<Variant>,
}

/// What a `ColumnInfo` stands for.
pub ghost struct ColumnInfoModel {
    pub column_name: ColNameModel,
    pub number_of_empties: nat,
    pub number_of_nulls: nat,
    pub number_of_strings: nat,
    pub number_of_floats: nat,
    pub number_of_ints: nat,
    pub unique_values: Seq<VariantModel>,
}

impl View for ColumnInfo {
    type V = ColumnInfoModel;

    open spec fn view(&self) -> ColumnInfoModel {
        ColumnInfoModel {
            column_name: self.column_name@,
            number_of_empties: self.number_of_empties as nat,
            number_of_nulls: self.number_of_nulls as nat,
            number_of_strings: self.number_of_strings as nat,
            number_of_floats: self.number_of_floats as nat,
            number_of_ints: self.number_of_ints as nat,
            unique_values: self.unique_values.deep_view(),
        }
    }
}

impl DeepView for ColumnInfo {
    type V = ColumnInfoModel;

    open spec fn deep_view(&self) -> ColumnInfoModel {
        self@
    }
}

impl Clone for ColumnInfo {
    fn clone(&self) -> (r: Self)
        ensures
            r@ == self@,
    {
        let mut unique_values: Vec<Variant> = Vec::new();
        let mut k: usize = 0;
        while k < self.unique_values.len()
            invariant
                k <= self.unique_values.len(),
                unique_values.len() == k,
                forall|j: int| 0 <= j < k ==> unique_values@[j] == self.unique_values@[j],
            decreases self.unique_values.len() - k,
        {
            unique_values.push(self.unique_values[k].clone());
            k += 1;
        }
        proof {
            assert(unique_values.deep_view() =~= self.unique_values.deep_view());
        }
        ColumnInfo {
            column_name: self.column_name.clone(),
            number_of_empties: self.number_of_empties,
            number_of_nulls: self.number_of_nulls,
            number_of_strings: self.number_of_strings,
            number_of_floats: self.number_of_floats,
            number_of_ints: self.number_of_ints,
            unique_values,
        }
    }
}

/// The failure to find a column for a name.
#[derive(Debug)]
pub struct ColumnNotFound {
    /// The name that was asked for.
    pub column_name: String,
}

impl ColumnNotFound {
    /// The failure in words.
    pub fn message(&self) -> (r: String)
        ensures
            r@ == "No column named "@ + self.column_name@ + " found!"@,
    {
        let mut r = "No column named ".to_string();
        r.append(self.column_name.as_str());
        r.append(" found!");
        r
    }
}

/// The variants of the values at `heads`, and after them the variant of
/// null if the column holds no null cell.
pub open spec fn listing_of(vals: Seq<CsvValue>, heads: Seq<usize>) -> Seq<VariantModel> {
    let listed = Seq::new(heads.len(), |k: int| variant_of(vals[heads[k] as int]));
    if has_kind(vals, CsvKind::Null) {
        listed
    } else {
        listed.push(variant_of(CsvValue::Null))
    }
}

/// Whether `info` is the profile of the column with the name `name` and the
/// cells `vals`: it carries the name; it counts the cells of each kind; and
/// it lists the distinct values of the column, each as it occurs first, in
/// listing order, followed by null where no cell is null.
pub open spec fn is_profile(name: ColNameModel, vals: Seq<CsvValue>, info: ColumnInfoModel) -> bool {
    &&& info.column_name == name
    &&& info.number_of_empties == count_of(vals, CsvKind::Empty)
    &&& info.number_of_nulls == count_of(vals, CsvKind::Null)
    &&& info.number_of_strings == count_of(vals, CsvKind::Str)
    &&& info.number_of_floats == count_of(vals, CsvKind::Float)
    &&& info.number_of_ints == count_of(vals, CsvKind::Int)
    &&& exists|heads: Seq<usize>|
        lists_distinct_values(vals, heads) && info.unique_values == #[trigger] listing_of(vals, heads)
}

/// The values that a profile lists are values of the column, or null; and
/// every value of the column is listed.
pub proof fn lemma_profile_lists_column(name: ColNameModel, vals: Seq<CsvValue>, info: ColumnInfoModel)
    requires
        is_profile(name, vals, info),
    ensures
        forall|k: int|
            0 <= k < info.unique_values.len() ==> {
                let listed = (#[trigger] info.unique_values[k]).csvany;
                &&& info.unique_values[k] == variant_of(listed)
                &&& listed == CsvValue::Null || vals.contains(listed)
            },
        forall|i: int|
            0 <= i < vals.len() ==> exists|k: int|
                0 <= k < info.unique_values.len() && (#[trigger] vals[i]).same_as(
                    (#[trigger] info.unique_values[k]).csvany,
                ),
{
    let heads = choose|heads: Seq<usize>|
        lists_distinct_values(vals, heads) && info.unique_values == #[trigger] listing_of(vals, heads);
    let unique = info.unique_values;
    assert forall|k: int| 0 <= k < unique.len() implies {
        let listed = (#[trigger] unique[k]).csvany;
        &&& unique[k] == variant_of(listed)
        &&& listed == CsvValue::Null || vals.contains(listed)
    } by {
        if k < heads.len() {
            assert(unique[k] == variant_of(vals[heads[k] as int]));
            assert(vals[heads[k] as int] == unique[k].csvany);
        }
    }
    assert forall|i: int| 0 <= i < vals.len() implies exists|k: int|
        0 <= k < unique.len() && (#[trigger] vals[i]).same_as((#[trigger] unique[k]).csvany) by {
        assert(is_listed(vals, heads, i));
        let k = choose|k: int| 0 <= k < heads.len() && vals[i].same_as(vals[#[trigger] heads[k] as int]);
        assert(unique[k] == variant_of(vals[heads[k] as int]));
        assert(vals[i].same_as(unique[k].csvany));
    }
}

/// Every cell is counted once: the five counts add up to the number of
/// cells.
pub proof fn lemma_counts_cover(vals: Seq<CsvValue>)
    ensures
        count_of(vals, CsvKind::Empty) + count_of(vals, CsvKind::Null) + count_of(vals, CsvKind::Str)
            + count_of(vals, CsvKind::Float) + count_of(vals, CsvKind::Int) == vals.len(),
    decreases vals.len(),
{
    if vals.len() > 0 {
        lemma_counts_cover(vals.drop_last());
    }
}

/// The counts of a profile add up to the number of cells of the column.
pub proof fn lemma_profile_counts_every_cell(
    name: ColNameModel,
    vals: Seq<CsvValue>,
    info: ColumnInfoModel,
)
    requires
        is_profile(name, vals, info),
    ensures
        info.number_of_empties + info.number_of_nulls + info.number_of_strings + info.number_of_floats
            + info.number_of_ints == vals.len(),
{
    lemma_counts_cover(vals);
}

/// Whether `unique` lists no value twice and lists null.
pub open spec fn lists_each_value_once(unique: Seq<VariantModel>) -> bool {
    &&& forall|a: int, b: int|
        0 <= a < unique.len() && 0 <= b < unique.len() && a != b ==> !(#[trigger] unique[a]).csvany.same_as(
            (#[trigger] unique[b]).csvany,
        )
    &&& exists|k: int| 0 <= k < unique.len() && (#[trigger] unique[k]).csvany == CsvValue::Null
}

/// A profile lists no value twice, and it lists null once, whether or not
/// the column holds a null cell.
pub proof fn lemma_profile_lists_each_value_once(
    name: ColNameModel,
    vals: Seq<CsvValue>,
    info: ColumnInfoModel,
)
    requires
        is_profile(name, vals, info),
    ensures
        lists_each_value_once(info.unique_values),
{
    let heads = choose|heads: Seq<usize>|
        lists_distinct_values(vals, heads) && info.unique_values == #[trigger] listing_of(vals, heads);
    let unique = info.unique_values;
    assert forall|k: int| 0 <= k < heads.len() implies (#[trigger] unique[k]).csvany
        == vals[heads[k] as int] by {
        assert(unique[k] == variant_of(vals[heads[k] as int]));
    }
    assert forall|a: int, b: int|
        0 <= a < unique.len() && 0 <= b < unique.len() && a != b implies !(#[trigger] unique[a]).csvany.same_as(
        (#[trigger] unique[b]).csvany,
    ) by {
        if a < heads.len() && b < heads.len() {
            lemma_distinct_listing_has_no_repeat(vals, heads, a, b);
        } else {
            let k = if a < heads.len() {
                a
            } else {
                b
            };
            assert(!has_kind(vals, CsvKind::Null));
            assert(heads[k] < vals.len());
            assert(vals[heads[k] as int].kind() != CsvKind::Null);
        }
    }
    if has_kind(vals, CsvKind::Null) {
        let i = choose|i: int| 0 <= i < vals.len() && (#[trigger] vals[i]).kind() == CsvKind::Null;
        assert(is_listed(vals, heads, i));
        let k = choose|k: int| 0 <= k < heads.len() && vals[i].same_as(vals[#[trigger] heads[k] as int]);
        assert(unique[k].csvany == CsvValue::Null);
    } else {
        assert(unique[heads.len() as int].csvany == CsvValue::Null);
    }
}

/// A column has one profile and no other.
pub proof fn lemma_profile_is_unique(
    name: ColNameModel,
    vals: Seq<CsvValue>,
    first: ColumnInfoModel,
    second: ColumnInfoModel,
)
    requires
        is_profile(name, vals, first),
        is_profile(name, vals, second),
    ensures
        first == second,
{
    let a = choose|heads: Seq<usize>|
        lists_distinct_values(vals, heads) && first.unique_values == #[trigger] listing_of(vals, heads);
    let b = choose|heads: Seq<usize>|
        lists_distinct_values(vals, heads) && second.unique_values == #[trigger] listing_of(vals, heads);
    lemma_distinct_listing_is_unique(vals, a, b);
}

/// A column holds a cell of a kind if and only if it counts one.
pub proof fn lemma_count_positive(vals: Seq<CsvValue>, kind: CsvKind)
    ensures
        count_of(vals, kind) <= vals.len(),
        count_of(vals, kind) > 0 <==> has_kind(vals, kind),
    decreases vals.len(),
{
    if vals.len() > 0 {
        let rest = vals.drop_last();
        lemma_count_positive(rest, kind);
        if has_kind(rest, kind) {
            let i = choose|i: int| 0 <= i < rest.len() && (#[trigger] rest[i]).kind() == kind;
            assert(vals[i].kind() == kind);
        }
        if has_kind(vals, kind) && vals.last().kind() != kind {
            let i = choose|i: int| 0 <= i < vals.len() && (#[trigger] vals[i]).kind() == kind;
            assert(rest[i].kind() == kind);
        }
        if vals.last().kind() == kind {
            assert(vals[vals.len() - 1].kind() == kind);
        }
    }
}

/// The position of the first column whose name stands somewhere in `query`,
/// and the number of columns if there is none.
pub fn find_column(names: &[ColName], query: &str) -> (j: usize)
    ensures
        j == first_match(names.deep_view(), query@),
        j <= names.len(),
{
    let mut j: usize = 0;
    while j < names.len()
        invariant
            j <= names.len(),
            forall|k: int| 0 <= k < j ==> !contains_text(query@, (#[trigger] names.deep_view()[k]).raw),
        decreases names.len() - j,
    {
        if text_contains(query, names[j].raw.as_str()) {
            proof {
                assert(names.deep_view()[j as int].raw == names[j as int].raw@);
                lemma_first_match_is(names.deep_view(), query@, j as int);
            }
            return j;
        }
        assert(names.deep_view()[j as int].raw == names[j as int].raw@);
        j += 1;
    }
    proof {
        lemma_first_match_is(names.deep_view(), query@, j as int);
    }
    j
}

/// Whether `col` holds a cell of the kind `kind`.
pub fn holds_kind(col: &Vec<CsvAny>, kind: CsvKind) -> (r: bool)
    ensures
        r == has_kind(col.deep_view(), kind),
{
    let mut i: usize = 0;
    while i < col.len()
        invariant
            i <= col.len(),
            forall|k: int| 0 <= k < i ==> (#[trigger] col.deep_view()[k]).kind() != kind,
        decreases col.len() - i,
    {
        assert(col.deep_view()[i as int] == col[i as int]@);
        if col[i].kind() == kind {
            return true;
        }
        i += 1;
    }
    false
}

/// How many cells of each kind `col` holds: empty, null, text, number and
/// integer, in this order.
fn count_kinds(col: &Vec<CsvAny>) -> (r: (usize, usize, usize, usize, usize))
    ensures
        r.0 == count_of(col.deep_view(), CsvKind::Empty),
        r.1 == count_of(col.deep_view(), CsvKind::Null),
        r.2 == count_of(col.deep_view(), CsvKind::Str),
        r.3 == count_of(col.deep_view(), CsvKind::Float),
        r.4 == count_of(col.deep_view(), CsvKind::Int),
{
    let ghost vals = col.deep_view();
    let mut empties: usize = 0;
    let mut nulls: usize = 0;
    let mut strings: usize = 0;
    let mut floats: usize = 0;
    let mut ints: usize = 0;
    let mut i: usize = 0;
    while i < col.len()
        invariant
            i <= col.len(),
            vals == col.deep_view(),
            empties == count_of(vals.take(i as int), CsvKind::Empty),
            nulls == count_of(vals.take(i as int), CsvKind::Null),
            strings == count_of(vals.take(i as int), CsvKind::Str),
            floats == count_of(vals.take(i as int), CsvKind::Float),
            ints == count_of(vals.take(i as int), CsvKind::Int),
        decreases col.len() - i,
    {
        proof {
            let seen = vals.take(i + 1);
            assert(seen.drop_last() == vals.take(i as int));
            assert(seen.last() == col[i as int]@);
            lemma_count_positive(seen, CsvKind::Empty);
            lemma_count_positive(seen, CsvKind::Null);
            lemma_count_positive(seen, CsvKind::Str);
            lemma_count_positive(seen, CsvKind::Float);
            lemma_count_positive(seen, CsvKind::Int);
        }
        match col[i].kind() {
            CsvKind::Str => strings += 1,
            CsvKind::Int => ints += 1,
            CsvKind::Float => floats += 1,
            CsvKind::Null => nulls += 1,
            CsvKind::Empty => empties += 1,
        }
        i += 1;
    }
    proof {
        assert(vals.take(i as int) == vals);
    }
    (empties, nulls, strings, floats, ints)
}

impl ColumnInfo {
    /// The profile of the first column whose name stands somewhere in
    /// `column_name`. It fails if there is no such column.
    pub fn new(names_and_values_view: ValueNamesView, column_name: &str) -> (r: Result<
        Self,
        ColumnNotFound,
    >)
        requires
            names_and_values_view.well_formed(),
        ensures
            r is Ok <==> first_match(names_and_values_view.names.deep_view(), column_name@)
                < names_and_values_view.names@.len(),
            r matches Ok(info) ==> is_profile(
                names_and_values_view.names.deep_view()[first_match(
                    names_and_values_view.names.deep_view(),
                    column_name@,
                )],
                names_and_values_view.values.deep_view()[first_match(
                    names_and_values_view.names.deep_view(),
                    column_name@,
                )],
                info@,
            ),
            r matches Ok(info) ==> info.number_of_empties + info.number_of_nulls
                + info.number_of_strings + info.number_of_floats + info.number_of_ints
                == names_and_values_view.values@[first_match(
                names_and_values_view.names.deep_view(),
                column_name@,
            )]@.len(),
            r matches Ok(info) ==> lists_each_value_once(info@.unique_values),
            r matches Err(e) ==> e.column_name@ == column_name@,
    {
        let ValueNamesView { values, names } = names_and_values_view;
        let column_index = find_column(names, column_name);
        if column_index == names.len() {
            return Err(ColumnNotFound { column_name: column_name.to_string() });
        }
        let col = &values[column_index];
        let ghost vals = col.deep_view();
        let (number_of_empties, number_of_nulls, number_of_strings, number_of_floats, number_of_ints) =
            count_kinds(col);
        let heads = distinct_positions(col);
        let mut unique_values: Vec<Variant> = Vec::new();
        let mut k: usize = 0;
        while k < heads.len()
            invariant
                k <= heads.len(),
                vals == col.deep_view(),
                lists_distinct_values(vals, heads@),
                unique_values.len() == k,
                unique_values.deep_view() == Seq::new(
                    k as nat,
                    |k: int| variant_of(vals[heads@[k] as int]),
                ),
            decreases heads.len() - k,
        {
            let ghost listed = unique_values.deep_view();
            let ghost before = unique_values@;
            let variant = Variant::of(&col[heads[k]]);
            unique_values.push(variant);
            proof {
                assert(vals[heads@[k as int] as int] == col[heads@[k as int] as int]@);
                assert forall|i: int| 0 <= i < k implies unique_values.deep_view()[i] == listed[i] by {
                    assert(unique_values@[i] == before[i]);
                }
                assert(unique_values.deep_view()[k as int] == variant@);
                let grown = Seq::new((k + 1) as nat, |k: int| variant_of(vals[heads@[k] as int]));
                assert forall|i: int| 0 <= i < k + 1 implies unique_values.deep_view()[i] == grown[i] by {
                    if i < k {
                        assert(listed[i] == variant_of(vals[heads@[i] as int]));
                    }
                }
                assert(unique_values.deep_view().len() == k + 1);
                assert(unique_values.deep_view() =~= grown);
            }
            k += 1;
        }
        proof {
            lemma_count_positive(vals, CsvKind::Null);
        }
        if number_of_nulls == 0 {
            unique_values.push(Variant::of(&CsvAny::Null));
        }
        let info = Self {
            column_name: names[column_index].clone(),
            number_of_empties,
            number_of_nulls,
            number_of_strings,
            number_of_floats,
            number_of_ints,
            unique_values,
        };
        proof {
            assert(info@.unique_values =~= listing_of(vals, heads@));
            assert(names.deep_view()[column_index as int] == names[column_index as int]@);
            assert(values.deep_view()[column_index as int] == vals);
            lemma_profile_counts_every_cell(names[column_index as int]@, vals, info@);
            lemma_profile_lists_each_value_once(names[column_index as int]@, vals, info@);
        }
        Ok(info)
    }
}

/// Whether `infos` holds one profile for each column, in the order of the
/// columns: the profile that `ColumnInfo::new` gives for the column's own
/// name.
pub open spec fn are_profiles(
    names: Seq<ColNameModel>,
    values: Seq<Seq<CsvValue>>,
    infos: Seq<ColumnInfoModel>,
) -> bool {
    &&& infos.len() == names.len()
    &&& forall|i: int|
        0 <= i < names.len() ==> is_profile(
            names[first_match(names, names[i].raw)],
            values[first_match(names, names[i].raw)],
            #[trigger] infos[i],
        )
}

/// Every text stands in itself, so the lookup of a column's own name finds
/// that column or one before it.
pub proof fn lemma_own_name_matches(names: Seq<ColNameModel>, i: int)
    requires
        0 <= i < names.len(),
    ensures
        0 <= first_match(names, names[i].raw) <= i,
{
    let query = names[i].raw;
    assert(occurs_at(query, query, 0)) by {
        assert(query.subrange(0, query.len() as int) == query);
    }
    lemma_first_match(names, query);
    if first_match(names, query) > i {
        assert(!contains_text(query, names[i].raw));
    }
}

/// The profile of every column, in the order of the columns.
pub fn profiles_of(names_and_values_view: ValueNamesView) -> (infos: Vec<ColumnInfo>)
    requires
        names_and_values_view.well_formed(),
    ensures
        are_profiles(
            names_and_values_view.names.deep_view(),
            names_and_values_view.values.deep_view(),
            infos.deep_view(),
        ),
{
    let names = names_and_values_view.names;
    let ghost name_models = names.deep_view();
    let ghost cells = names_and_values_view.values.deep_view();
    let mut infos: Vec<ColumnInfo> = Vec::new();
    let mut i: usize = 0;
    while i < names.len()
        invariant
            i <= names.len(),
            names == names_and_values_view.names,
            name_models == names.deep_view(),
            cells == names_and_values_view.values.deep_view(),
            names_and_values_view.well_formed(),
            infos.len() == i,
            forall|k: int|
                0 <= k < i ==> is_profile(
                    name_models[first_match(name_models, name_models[k].raw)],
                    cells[first_match(name_models, name_models[k].raw)],
                    #[trigger] infos.deep_view()[k],
                ),
        decreases names.len() - i,
    {
        proof {
            lemma_own_name_matches(name_models, i as int);
            assert(name_models[i as int].raw == names[i as int].raw@);
        }
        let ghost listed = infos.deep_view();
        let ghost before = infos@;
        match ColumnInfo::new(names_and_values_view, names[i].raw.as_str()) {
            Ok(info) => {
                let ghost at = first_match(name_models, name_models[i as int].raw);
                assert(is_profile(name_models[at], cells[at], info@));
                infos.push(info);
                proof {
                    assert(infos.deep_view()[i as int] == info@);
                    assert forall|k: int| 0 <= k < i + 1 implies is_profile(
                        name_models[first_match(name_models, name_models[k].raw)],
                        cells[first_match(name_models, name_models[k].raw)],
                        #[trigger] infos.deep_view()[k],
                    ) by {
                        if k < i {
                            assert(infos@[k] == before[k]);
                            assert(infos.deep_view()[k] == listed[k]);
                        }
                    }
                }
            },
            Err(_) => {
                assert(false);
            },
        }
        i += 1;
    }
    infos
}

/// How a value is written in the text of a profile.
pub open spec fn value_text(value: CsvValue) -> Seq<char> {
    match value {
        CsvValue::Str(s) => "Str("@ + debug_quoted(s) + ")"@,
        CsvValue::Int(i) => "Int("@ + int_text(i as int) + ")"@,
        CsvValue::Float(f) => "Float("@ + f.text + ")"@,
        CsvValue::Null => "Null"@,
        CsvValue::Empty => "Empty"@,
    }
}

/// How a variant is written in the text of a profile.
pub open spec fn variant_text(variant: VariantModel) -> Seq<char> {
    "Variant { raw: "@ + debug_quoted(variant.raw) + ", sanitized: "@ + debug_quoted(
        variant.sanitized,
    ) + ", csvany: "@ + value_text(variant.csvany) + " }"@
}

/// The line that tells a count in the text of a profile. A count of zero
/// gets no line.
pub open spec fn count_line(count: nat, label: Seq<char>) -> Seq<char> {
    if count == 0 {
        Seq::empty()
    } else {
        "\n\t"@ + label + ": "@ + int_text(count as int)
    }
}

/// For each variant the line that lists it in the text of a profile.
pub open spec fn variant_rows(unique: Seq<VariantModel>) -> Seq<Seq<char>> {
    Seq::new(unique.len(), |k: int| "\n\t"@ + variant_text(unique[k]))
}

/// The text of a profile: the identifier of the column, the counts that are
/// not zero, and the variants.
pub open spec fn profile_text(info: ColumnInfoModel) -> Seq<char> {
    "Name: "@ + info.column_name.sanitized + "\n\nTypes:"@ + count_line(
        info.number_of_empties,
        "Empties"@,
    ) + count_line(info.number_of_nulls, "Nulls"@) + count_line(info.number_of_strings, "Strings"@)
        + count_line(info.number_of_floats, "Floats"@) + count_line(info.number_of_ints, "Ints"@)
        + "\n\nUnique Values:"@ + joined(variant_rows(info.unique_values))
}

fn push_count_line(out: &mut String, count: usize, label: &str)
    ensures
        final(out)@ == old(out)@ + count_line(count as nat, label@),
{
    if count != 0 {
        out.append("\n\t");
        out.append(label);
        out.append(": ");
        out.append(count_to_text(count).as_str());
    }
    assert(final(out)@ =~= old(out)@ + count_line(count as nat, label@));
}

fn push_value_text(out: &mut String, value: &CsvAny)
    ensures
        final(out)@ == old(out)@ + value_text(value@),
{
    match value {
        CsvAny::Str(s) => {
            out.append("Str(");
            out.append(quote(s.as_str()).as_str());
            out.append(")");
        },
        CsvAny::Int(i) => {
            out.append("Int(");
            out.append(int_to_text(*i).as_str());
            out.append(")");
        },
        CsvAny::Float(f) => {
            out.append("Float(");
            out.append(f.text.as_str());
            out.append(")");
        },
        CsvAny::Null => {
            out.append("Null");
        },
        CsvAny::Empty => {
            out.append("Empty");
        },
    }
    assert(final(out)@ =~= old(out)@ + value_text(value@));
}

impl Variant {
    /// The variant as it is written in the text of a profile.
    pub fn to_text(&self) -> (out: String)
        ensures
            out@ == variant_text(self@),
    {
        let mut out = "Variant { raw: ".to_string();
        out.append(quote(self.raw.as_str()).as_str());
        out.append(", sanitized: ");
        out.append(quote(self.sanitized.as_str()).as_str());
        out.append(", csvany: ");
        push_value_text(&mut out, &self.csvany);
        out.append(" }");
        out
    }
}

impl ColumnInfo {
    /// The profile in words.
    pub fn to_text(&self) -> (out: String)
        ensures
            out@ == profile_text(self@),
    {
        let ghost rows = variant_rows(self@.unique_values);
        let mut unique_values = String::new();
        let mut k: usize = 0;
        while k < self.unique_values.len()
            invariant
                k <= self.unique_values.len(),
                rows == variant_rows(self@.unique_values),
                unique_values@ == joined(rows.take(k as int)),
            decreases self.unique_values.len() - k,
        {
            proof {
                lemma_joined_step(rows, k as int);
                assert(self@.unique_values[k as int] == self.unique_values[k as int]@);
            }
            unique_values.append("\n\t");
            unique_values.append(self.unique_values[k].to_text().as_str());
            k += 1;
        }
        proof {
            assert(rows.take(k as int) == rows);
        }
        let mut out = "Name: ".to_string();
        out.append(self.column_name.sanitized.0.as_str());
        out.append("\n\nTypes:");
        push_count_line(&mut out, self.number_of_empties, "Empties");
        push_count_line(&mut out, self.number_of_nulls, "Nulls");
        push_count_line(&mut out, self.number_of_strings, "Strings");
        push_count_line(&mut out, self.number_of_floats, "Floats");
        push_count_line(&mut out, self.number_of_ints, "Ints");
        out.append("\n\nUnique Values:");
        out.append(unique_values.as_str());
        out
    }
}

} // verus!
