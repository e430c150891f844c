//! Values that a user provides for the placeholders of a template.

use crate::text::{bool_string, bool_text, int_string, int_text, join, joined, LIST_SEP};
use vstd::prelude::*;

verus! {

/// A calendar date.
#[derive(Clone, Copy, PartialEq, Eq, Debug, Structural)]
pub struct TomlDate {
    pub year: u16,
    pub month: u8,
    pub day: u8,
}

/// A time of day.
#[derive(Clone, Copy, PartialEq, Eq, Debug, Structural)]
pub struct TomlTime {
    pub hour: u8,
    pub minute: u8,
    pub second: u8,
    pub nanosecond: u32,
}

/// The distance of a local time from UTC.
#[derive(Clone, Copy, PartialEq, Eq, Debug, Structural)]
pub enum TomlOffset {
    Z,
    Custom { minutes: i16 },
}

/// A date, a time of day, or both, with an offset where one is given.
#[derive(Clone, Copy, Debug)]
pub struct TomlDatetime {
    pub date: Option<TomlDate>,
    pub time: Option<TomlTime>,
    pub offset: Option<TomlOffset>,
}

impl TomlDatetime {
    /// The offset has a counterpart of the opposite sign.
    pub open spec fn is_valid(self) -> bool {
        self.offset matches Some(TomlOffset::Custom { minutes }) ==> minutes > i16::MIN
    }
}

/// A value as a configuration file or a command line gives it. A float is held as the decimal
/// text that it prints as; a table as its entries in order.
#[derive(Debug)]
pub enum TomlValue {
    String(String),
    Integer(i64),
    Float(String),
    Boolean(bool),
    Datetime(TomlDatetime),
    Array(Vec<TomlValue>),
    Table(Vec<(String, TomlValue)>),
}

/// What `toml::value::Datetime` prints for a date and time.
pub uninterp spec fn toml_datetime_text(datetime: TomlDatetime) -> Seq<char>;

/// Calls `to_string` of `toml::value::Datetime`. The text depends on the fields alone; it is
/// named, not described. An offset of `i16::MIN` minutes cannot be negated there.
#[verifier::external_body]
fn datetime_string(datetime: &TomlDatetime) -> (r: String)
    requires
        datetime.is_valid(),
    ensures
        r@ == toml_datetime_text(*datetime),
{
    let TomlDatetime { date, time, offset } = *datetime;
    toml::value::Datetime {
        date: date.map(|d| toml::value::Date { year: d.year, month: d.month, day: d.day }),
        time: time.map(|t| toml::value::Time {
            hour: t.hour, minute: t.minute, second: t.second, nanosecond: t.nanosecond,
        }),
        offset: offset.map(|o| match o {
            TomlOffset::Z => toml::value::Offset::Z,
            TomlOffset::Custom { minutes } => toml::value::Offset::Custom { minutes },
        }),
    }.to_string()
}

/// Every date and time in the value is valid.
pub open spec fn is_valid_value(value: TomlValue) -> bool
    decreases value,
{
    match value {
        TomlValue::Datetime(datetime) => datetime.is_valid(),
        TomlValue::Array(items) => forall|i: int|
            0 <= i < items@.len() ==> is_valid_value(#[trigger] items@[i]),
        _ => true,
    }
}

/// The text of a scalar. Arrays and tables are none.
pub open spec fn scalar_text(value: TomlValue) -> Option<Seq<char>> {
    match value {
        TomlValue::String(s) => Some(s@),
        TomlValue::Integer(i) => Some(int_text(i as int)),
        TomlValue::Float(s) => Some(s@),
        TomlValue::Boolean(b) => Some(bool_text(b)),
        TomlValue::Datetime(datetime) => Some(toml_datetime_text(datetime)),
        TomlValue::Array(_) => None,
        TomlValue::Table(_) => None,
    }
}

/// The texts of the scalars in a value, in order, at whatever depth of arrays they stand.
pub open spec fn leaf_texts(value: TomlValue) -> Seq<Seq<char>>
    decreases value,
{
    match value {
        TomlValue::Array(items) => leaf_texts_of(items@),
        TomlValue::Table(_) => Seq::empty(),
        _ => seq![scalar_text(value)->0],
    }
}

/// The texts of the scalars in several values.
pub open spec fn leaf_texts_of(items: Seq<TomlValue>) -> Seq<Seq<char>>
    decreases items,
{
    if items.len() == 0 {
        Seq::empty()
    } else {
        leaf_texts_of(items.drop_last()) + leaf_texts(items[items.len() - 1])
    }
}

/// The text of a value: a table has none, and an array is the texts of the scalars in it,
/// separated by commas.
pub open spec fn value_text(value: TomlValue) -> Option<Seq<char>> {
    match value {
        TomlValue::Array(items) => Some(joined(leaf_texts_of(items@), LIST_SEP@)),
        _ => scalar_text(value),
    }
}

/// Turns a value into a text, where it can be one. Tables cannot, and are ignored in arrays.
/// Arrays are flattened: `[[[[a,b],[[c]]],[[[d]]]]]` gives `a,b,c,d`.
pub fn extract_toml_string(value: &TomlValue) -> (r: Option<String>)
    requires
        is_valid_value(*value),
    ensures
        r.deep_view() == value_text(*value),
{
    match value {
        TomlValue::Array(items) => {
            let texts: Vec<String> = item_strings(items);
            Some(join(&texts, LIST_SEP))
        },
        _ => scalar_string(value),
    }
}

fn scalar_string(value: &TomlValue) -> (r: Option<String>)
    requires
        is_valid_value(*value),
    ensures
        r.deep_view() == scalar_text(*value),
{
    match value {
        TomlValue::String(s) => Some(s.clone()),
        TomlValue::Integer(i) => Some(int_string(*i)),
        TomlValue::Float(s) => Some(s.clone()),
        TomlValue::Boolean(b) => Some(bool_string(*b)),
        TomlValue::Datetime(datetime) => Some(datetime_string(datetime)),
        TomlValue::Array(_) => None,
        TomlValue::Table(_) => None,
    }
}

/// Collects the texts of the scalars in several values.
fn item_strings(items: &Vec<TomlValue>) -> (r: Vec<String>)
    requires
        forall|i: int| 0 <= i < items@.len() ==> is_valid_value(#[trigger] items@[i]),
    ensures
        r.deep_view() == leaf_texts_of(items@),
    decreases items,
{
    let mut texts: Vec<String> = Vec::new();
    let mut i: usize = 0;
    assert(texts.deep_view() =~= leaf_texts_of(items@.take(0)));
    while i < items.len()
        invariant
            forall|j: int| 0 <= j < items@.len() ==> is_valid_value(#[trigger] items@[j]),
            i <= items@.len(),
            texts.deep_view() == leaf_texts_of(items@.take(i as int)),
        decreases items@.len() - i,
    {
        let ghost earlier = texts.deep_view();
        assert(items@.take(i + 1).drop_last() =~= items@.take(i as int));
        assert(is_valid_value(items@[i as int]));
        match &items[i] {
            TomlValue::Array(inner) => {
                let mut more: Vec<String> = item_strings(inner);
                let ghost added = more.deep_view();
                texts.append(&mut more);
                assert(leaf_texts(items@[i as int]) == added);
                assert(texts.deep_view() =~= earlier + added);
            },
            scalar => {
                assert(leaf_texts(*scalar) == (match scalar_text(*scalar) {
                    Some(text) => seq![text],
                    None => Seq::empty(),
                }));
                if let Some(text) = scalar_string(scalar) {
                    texts.push(text);
                    assert(texts.deep_view() =~= earlier + seq![text@]);
                } else {
                    assert(earlier + Seq::<Seq<char>>::empty() =~= earlier);
                }
            },
        }
        i = i + 1;
    }
    assert(items@.take(i as int) =~= items@);
    texts
}

/// However its arrays are nested, a value that is no table is written as its scalars, separated
/// by commas; tables in it are ignored.
pub proof fn law_arrays_are_flattened(value: TomlValue)
    requires
        !(value is Table),
    ensures
        value_text(value) == Some(joined(leaf_texts(value), LIST_SEP@)),
{
}

pub proof fn lemma_leaf_texts_concat(a: Seq<TomlValue>, b: Seq<TomlValue>)
    ensures
        leaf_texts_of(a + b) == leaf_texts_of(a) + leaf_texts_of(b),
    decreases b.len(),
{
    if b.len() == 0 {
        assert(a + b =~= a);
        assert(leaf_texts_of(a) + leaf_texts_of(b) =~= leaf_texts_of(a));
    } else {
        assert((a + b).drop_last() =~= a + b.drop_last());
        lemma_leaf_texts_concat(a, b.drop_last());
        assert(leaf_texts_of(a + b) =~= leaf_texts_of(a) + leaf_texts_of(b));
    }
}

/// An array among the items of an array is the same as its own items in its place: depth does
/// not matter, and an array without scalars counts for nothing.
pub proof fn law_depth_does_not_matter(
    front: Seq<TomlValue>,
    inner: Vec<TomlValue>,
    back: Seq<TomlValue>,
)
    ensures
        leaf_texts_of(front + seq![TomlValue::Array(inner)] + back) == leaf_texts_of(
            front + inner@ + back,
        ),
{
    let nested = seq![TomlValue::Array(inner)];
    lemma_leaf_texts_concat(front + nested, back);
    lemma_leaf_texts_concat(front, nested);
    lemma_leaf_texts_concat(front + inner@, back);
    lemma_leaf_texts_concat(front, inner@);
    assert(leaf_texts_of(nested.drop_last()) =~= Seq::empty());
    assert(leaf_texts(nested[0]) == leaf_texts_of(inner@));
    assert(leaf_texts_of(nested) =~= leaf_texts_of(inner@));
}

} // verus!
