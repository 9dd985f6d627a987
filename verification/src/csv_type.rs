//! The typed value of one cell, and the order in which such values are
//! listed.

use crate::text::{compare_text, lemma_lex_total, lemma_lex_transitive, lex_less, TextOrder};
use vstd::prelude::*;
use vstd::std_specs::cmp::PartialEqSpecImpl;
use vstd::std_specs::convert::FromSpecImpl;

verus! {

/// The key of every bit pattern that is not a number. It lies above the key
/// of positive infinity.
pub const NOT_A_NUMBER_KEY: i64 = 0x7ff0_0000_0000_0001;

/// The integer by which a double-precision number is ordered, computed from
/// its IEEE 754 bit pattern: numbers are ordered as their keys are, the two
/// zeros share the key 0, and every pattern that is not a number has the key
/// `NOT_A_NUMBER_KEY`.
pub open spec fn float_key(bits: u64) -> int {
    let magnitude = bits as int % 0x8000_0000_0000_0000;
    if magnitude > 0x7ff0_0000_0000_0000 {
        NOT_A_NUMBER_KEY as int
    } else if bits >= 0x8000_0000_0000_0000 {
        -magnitude
    } else {
        magnitude
    }
}

/// A double-precision number, held as plain values: the bit pattern of its
/// IEEE 754 encoding, by which it is ordered and found again, and the text
/// that displays it.
#[derive(Debug)]
pub struct FloatValue {
    pub bits: u64,
    pub text: String,
}

/// What a `FloatValue` stands for.
pub ghost struct FloatModel {
    pub bits: u64,
    pub text: Seq<char>,
}

impl View for FloatValue {
    type V = FloatModel;

    open spec fn view(&self) -> FloatModel {
        FloatModel { bits: self.bits, text: self.text@ }
    }
}

impl Clone for FloatValue {
    fn clone(&self) -> (r: Self)
        ensures
            r == *self,
    {
        FloatValue { bits: self.bits, text: self.text.clone() }
    }
}

impl FloatValue {
    /// A number from the bit pattern of its encoding and its display text.
    pub fn new(bits: u64, text: &str) -> (r: Self)
        ensures
            r@ == (FloatModel { bits, text: text@ }),
    {
        FloatValue { bits, text: text.to_string() }
    }

    /// The integer by which this number is ordered.
    pub fn order_key(&self) -> (key: i64)
        ensures
            key == float_key(self.bits),
    {
        let magnitude: u64 = self.bits % 0x8000_0000_0000_0000;
        if magnitude > 0x7ff0_0000_0000_0000 {
            NOT_A_NUMBER_KEY
        } else if self.bits >= 0x8000_0000_0000_0000 {
            -(magnitude as i64)
        } else {
            magnitude as i64
        }
    }

    /// Whether the bit pattern encodes no number.
    pub fn is_nan(&self) -> (r: bool)
        ensures
            r == (float_key(self.bits) == NOT_A_NUMBER_KEY),
    {
        self.bits % 0x8000_0000_0000_0000 > 0x7ff0_0000_0000_0000
    }
}

/// The five kinds of cell value, in the order in which they are listed.
#[derive(Clone, Copy, Debug, PartialEq, Eq, Structural)]
pub enum CsvKind {
    Str,
    Int,
    Float,
    Null,
    Empty,
}

impl CsvKind {
    /// The place of the kind in the listing order.
    pub open spec fn rank(self) -> int {
        match self {
            CsvKind::Str => 0,
            CsvKind::Int => 1,
            CsvKind::Float => 2,
            CsvKind::Null => 3,
            CsvKind::Empty => 4,
        }
    }
}

/// Represents any possible value in a CSV cell.
#[derive(Debug)]
pub enum CsvAny {
    Str(String),
    Int(i64),
    Float(FloatValue),
    /// To represent null values.
    Null,
    /// If it is just empty.
    Empty,
}

/// What a `CsvAny` stands for.
pub ghost enum CsvValue {
    Str(Seq<char>),
    Int(i64),
    Float(FloatModel),
    Null,
    Empty,
}

impl CsvValue {
    pub open spec fn kind(self) -> CsvKind {
        match self {
            CsvValue::Str(_) => CsvKind::Str,
            CsvValue::Int(_) => CsvKind::Int,
            CsvValue::Float(_) => CsvKind::Float,
            CsvValue::Null => CsvKind::Null,
            CsvValue::Empty => CsvKind::Empty,
        }
    }

    /// Whether two values are the same classified value: the same kind, and
    /// the same text, the same integer or the same number.
    pub open spec fn same_as(self, other: CsvValue) -> bool {
        match (self, other) {
            (CsvValue::Str(a), CsvValue::Str(b)) => a == b,
            (CsvValue::Int(a), CsvValue::Int(b)) => a == b,
            (CsvValue::Float(a), CsvValue::Float(b)) => float_key(a.bits) == float_key(b.bits),
            (CsvValue::Null, CsvValue::Null) => true,
            (CsvValue::Empty, CsvValue::Empty) => true,
            _ => false,
        }
    }

    /// Whether `self` is listed before `other`: by kind first, then texts in
    /// dictionary order, integers and numbers by size.
    pub open spec fn below(self, other: CsvValue) -> bool {
        match (self, other) {
            (CsvValue::Str(a), CsvValue::Str(b)) => lex_less(a, b),
            (CsvValue::Int(a), CsvValue::Int(b)) => a < b,
            (CsvValue::Float(a), CsvValue::Float(b)) => float_key(a.bits) < float_key(b.bits),
            _ => self.kind().rank() < other.kind().rank(),
        }
    }
}

/// Of two values exactly one holds: the first is listed before the second,
/// the second before the first, or they are the same value.
pub proof fn lemma_order_total(a: CsvValue, b: CsvValue)
    ensures
        a.below(b) || a.same_as(b) || b.below(a),
        !(a.below(b) && b.below(a)),
        !(a.below(b) && a.same_as(b)),
        !(b.below(a) && a.same_as(b)),
        a.same_as(b) == b.same_as(a),
        a.same_as(a),
{
    match (a, b) {
        (CsvValue::Str(x), CsvValue::Str(y)) => {
            lemma_lex_total(x, y);
            lemma_lex_total(y, x);
        },
        _ => {},
    }
}

/// The listing order is transitive, and it does not tell apart two values
/// that are the same.
pub proof fn lemma_order_transitive(a: CsvValue, b: CsvValue, c: CsvValue)
    ensures
        a.below(b) && b.below(c) ==> a.below(c),
        a.same_as(b) && b.same_as(c) ==> a.same_as(c),
        a.same_as(b) && b.below(c) ==> a.below(c),
        a.below(b) && b.same_as(c) ==> a.below(c),
{
    match (a, b, c) {
        (CsvValue::Str(x), CsvValue::Str(y), CsvValue::Str(z)) => {
            if lex_less(x, y) && lex_less(y, z) {
                lemma_lex_transitive(x, y, z);
            }
        },
        _ => {},
    }
}

impl View for CsvAny {
    type V = CsvValue;

    open spec fn view(&self) -> CsvValue {
        match self {
            CsvAny::Str(s) => CsvValue::Str(s@),
            CsvAny::Int(i) => CsvValue::Int(*i),
            CsvAny::Float(f) => CsvValue::Float(f@),
            CsvAny::Null => CsvValue::Null,
            CsvAny::Empty => CsvValue::Empty,
        }
    }
}

impl DeepView for CsvAny {
    type V = CsvValue;

    open spec fn deep_view(&self) -> CsvValue {
        self@
    }
}

impl Clone for CsvAny {
    fn clone(&self) -> (r: Self)
        ensures
            r == *self,
    {
        match self {
            CsvAny::Str(s) => CsvAny::Str(s.clone()),
            CsvAny::Int(i) => CsvAny::Int(*i),
            CsvAny::Float(f) => CsvAny::Float(f.clone()),
            CsvAny::Null => CsvAny::Null,
            CsvAny::Empty => CsvAny::Empty,
        }
    }
}

impl PartialEq for CsvAny {
    /// Two cells are equal when they hold the same classified value.
    fn eq(&self, other: &CsvAny) -> (r: bool) {
        match (self, other) {
            (CsvAny::Str(a), CsvAny::Str(b)) => *a == *b,
            (CsvAny::Int(a), CsvAny::Int(b)) => *a == *b,
            (CsvAny::Float(a), CsvAny::Float(b)) => a.order_key() == b.order_key(),
            (CsvAny::Null, CsvAny::Null) => true,
            (CsvAny::Empty, CsvAny::Empty) => true,
            _ => false,
        }
    }
}

impl PartialEqSpecImpl for CsvAny {
    open spec fn obeys_eq_spec() -> bool {
        true
    }

    open spec fn eq_spec(&self, other: &CsvAny) -> bool {
        self@.same_as(other@)
    }
}

impl CsvAny {
    /// The kind of the value.
    pub fn kind(&self) -> (k: CsvKind)
        ensures
            k == self@.kind(),
    {
        match self {
            CsvAny::Str(_) => CsvKind::Str,
            CsvAny::Int(_) => CsvKind::Int,
            CsvAny::Float(_) => CsvKind::Float,
            CsvAny::Null => CsvKind::Null,
            CsvAny::Empty => CsvKind::Empty,
        }
    }

    /// Whether `self` is listed before `other`.
    pub fn precedes(&self, other: &CsvAny) -> (r: bool)
        ensures
            r == self@.below(other@),
    {
        match (self, other) {
            (CsvAny::Str(a), CsvAny::Str(b)) => match compare_text(a.as_str(), b.as_str()) {
                TextOrder::Before => true,
                _ => false,
            },
            (CsvAny::Int(a), CsvAny::Int(b)) => *a < *b,
            (CsvAny::Float(a), CsvAny::Float(b)) => a.order_key() < b.order_key(),
            _ => kind_rank(self.kind()) < kind_rank(other.kind()),
        }
    }
}

fn kind_rank(kind: CsvKind) -> (r: u8)
    ensures
        r == kind.rank(),
{
    match kind {
        CsvKind::Str => 0,
        CsvKind::Int => 1,
        CsvKind::Float => 2,
        CsvKind::Null => 3,
        CsvKind::Empty => 4,
    }
}

impl From<&str> for CsvAny {
    fn from(val: &str) -> (r: Self)
        ensures
            r@ == CsvValue::Str(val@),
    {
        CsvAny::Str(val.to_string())
    }
}

impl FromSpecImpl<&str> for CsvAny {
    open spec fn obeys_from_spec() -> bool {
        false
    }

    open spec fn from_spec(val: &str) -> CsvAny {
        CsvAny::Null
    }
}

impl From<i64> for CsvAny {
    fn from(val: i64) -> (r: Self)
        ensures
            r@ == CsvValue::Int(val),
    {
        CsvAny::Int(val)
    }
}

impl FromSpecImpl<i64> for CsvAny {
    open spec fn obeys_from_spec() -> bool {
        true
    }

    open spec fn from_spec(val: i64) -> CsvAny {
        CsvAny::Int(val)
    }
}

impl From<FloatValue> for CsvAny {
    fn from(val: FloatValue) -> (r: Self)
        ensures
            r@ == CsvValue::Float(val@),
    {
        CsvAny::Float(val)
    }
}

impl FromSpecImpl<FloatValue> for CsvAny {
    open spec fn obeys_from_spec() -> bool {
        true
    }

    open spec fn from_spec(val: FloatValue) -> CsvAny {
        CsvAny::Float(val)
    }
}

} // verus!
