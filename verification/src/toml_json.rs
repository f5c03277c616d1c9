//! Values of TOML, and the values of JSON that they are sent as.

use crate::ui_customization::{camel_case, camel_cased};
use vstd::prelude::*;

verus! {

/// A value of TOML. A floating-point number is held as its bits, a date and time as it
/// is written.
#[derive(Debug)]
pub enum TomlValue {
    String(String),
    Integer(i64),
    Float(u64),
    Boolean(bool),
    Datetime(String),
    Array(Vec<TomlValue>),
    Table(Vec<(String, TomlValue)>),
}

/// A value of JSON. A floating-point number is held as its bits.
#[derive(Debug)]
pub enum JsonValue {
    Null,
    Bool(bool),
    Integer(i64),
    Float(u64),
    String(String),
    Array(Vec<JsonValue>),
    Object(Vec<(String, JsonValue)>),
}

/// A value of TOML as plain values.
pub enum TomlView {
    String(Seq<char>),
    Integer(int),
    Float(u64),
    Boolean(bool),
    Datetime(Seq<char>),
    Array(Seq<TomlView>),
    Table(Seq<(Seq<char>, TomlView)>),
}

/// A value of JSON as plain values.
pub enum JsonView {
    Null,
    Bool(bool),
    Integer(int),
    Float(u64),
    String(Seq<char>),
    Array(Seq<JsonView>),
    Object(Seq<(Seq<char>, JsonView)>),
}

/// Each of `items` as plain values.
pub open spec fn toml_items(items: Seq<TomlValue>) -> Seq<TomlView>
    decreases items,
{
    if items.len() == 0 {
        Seq::empty()
    } else {
        toml_items(items.drop_last()).push(items.last().plain())
    }
}

/// Each of `entries` as plain values.
pub open spec fn toml_entries(entries: Seq<(String, TomlValue)>) -> Seq<(Seq<char>, TomlView)>
    decreases entries,
{
    if entries.len() == 0 {
        Seq::empty()
    } else {
        toml_entries(entries.drop_last()).push((entries.last().0@, entries.last().1.plain()))
    }
}

impl TomlValue {
    /// The value as plain values.
    pub open spec fn plain(self) -> TomlView
        decreases self,
    {
        match self {
            TomlValue::String(s) => TomlView::String(s@),
            TomlValue::Integer(i) => TomlView::Integer(i as int),
            TomlValue::Float(bits) => TomlView::Float(bits),
            TomlValue::Boolean(b) => TomlView::Boolean(b),
            TomlValue::Datetime(s) => TomlView::Datetime(s@),
            TomlValue::Array(items) => TomlView::Array(toml_items(items@)),
            TomlValue::Table(entries) => TomlView::Table(toml_entries(entries@)),
        }
    }
}

/// Each of `items` as plain values.
pub open spec fn json_items(items: Seq<JsonValue>) -> Seq<JsonView>
    decreases items,
{
    if items.len() == 0 {
        Seq::empty()
    } else {
        json_items(items.drop_last()).push(items.last().plain())
    }
}

/// Each of `members` as plain values.
pub open spec fn json_members(members: Seq<(String, JsonValue)>) -> Seq<(Seq<char>, JsonView)>
    decreases members,
{
    if members.len() == 0 {
        Seq::empty()
    } else {
        json_members(members.drop_last()).push((members.last().0@, members.last().1.plain()))
    }
}

impl JsonValue {
    /// The value as plain values.
    pub open spec fn plain(self) -> JsonView
        decreases self,
    {
        match self {
            JsonValue::Null => JsonView::Null,
            JsonValue::Bool(b) => JsonView::Bool(b),
            JsonValue::Integer(i) => JsonView::Integer(i as int),
            JsonValue::Float(bits) => JsonView::Float(bits),
            JsonValue::String(s) => JsonView::String(s@),
            JsonValue::Array(items) => JsonView::Array(json_items(items@)),
            JsonValue::Object(members) => JsonView::Object(json_members(members@)),
        }
    }
}

/// Whether the floating-point number with the bits `bits` is a number, and not
/// infinite: its exponent is not the greatest there is.
pub open spec fn is_finite(bits: u64) -> bool {
    (bits >> 52) & 0x7FF != 0x7FF
}

/// Each of `items` converted, in order.
pub open spec fn converted_items(items: Seq<TomlView>) -> Seq<JsonView>
    decreases items,
{
    if items.len() == 0 {
        Seq::empty()
    } else {
        converted_items(items.drop_last()).push(converted(items.last()))
    }
}

/// Each of `entries` converted, in order, under its key in camel case.
pub open spec fn converted_entries(entries: Seq<(Seq<char>, TomlView)>) -> Seq<
    (Seq<char>, JsonView),
>
    decreases entries,
{
    if entries.len() == 0 {
        Seq::empty()
    } else {
        converted_entries(entries.drop_last()).push(
            (camel_cased(entries.last().0), converted(entries.last().1)),
        )
    }
}

/// The value of JSON for a value of TOML: a date and time becomes its text, a
/// floating-point value that is no number or infinite becomes null, and the keys of
/// tables are written in camel case.
pub open spec fn converted(value: TomlView) -> JsonView
    decreases value,
{
    match value {
        TomlView::String(s) => JsonView::String(s),
        TomlView::Integer(i) => JsonView::Integer(i),
        TomlView::Float(bits) => if is_finite(bits) {
            JsonView::Float(bits)
        } else {
            JsonView::Null
        },
        TomlView::Boolean(b) => JsonView::Bool(b),
        TomlView::Datetime(s) => JsonView::String(s),
        TomlView::Array(items) => JsonView::Array(converted_items(items)),
        TomlView::Table(entries) => JsonView::Object(converted_entries(entries)),
    }
}

/// Converts a value of TOML to the value of JSON that stands for it.
#[verifier::loop_isolation(false)]
pub fn convert(toml_value: TomlValue) -> (json: JsonValue)
    ensures
        json.plain() == converted(toml_value.plain()),
    decreases toml_value,
{
    match toml_value {
        TomlValue::Array(arr) => {
            let mut items: Vec<JsonValue> = Vec::new();
            for item in it: arr
                invariant
                    it.seq() == arr@,
                    json_items(items@) == converted_items(toml_items(arr@.take(it.index() as int))),
            {
                proof {
                    let next = arr@.take(it.index() + 1);
                    assert(next.drop_last() =~= arr@.take(it.index() as int));
                    assert(next.last() == item);
                    assert(toml_items(next).drop_last() =~= toml_items(next.drop_last()));
                }
                let converted_item = convert(item);
                proof {
                    assert(items@.push(converted_item).drop_last() =~= items@);
                }
                items.push(converted_item);
            }
            assert(arr@.take(arr@.len() as int) =~= arr@);
            JsonValue::Array(items)
        },
        TomlValue::Boolean(b) => JsonValue::Bool(b),
        TomlValue::Datetime(dt) => JsonValue::String(dt),
        TomlValue::Float(bits) => {
            if (bits >> 52) & 0x7FF != 0x7FF {
                JsonValue::Float(bits)
            } else {
                JsonValue::Null
            }
        },
        TomlValue::Integer(i) => JsonValue::Integer(i),
        TomlValue::String(s) => JsonValue::String(s),
        TomlValue::Table(table) => {
            let mut members: Vec<(String, JsonValue)> = Vec::new();
            for entry in it: table
                invariant
                    it.seq() == table@,
                    json_members(members@) == converted_entries(
                        toml_entries(table@.take(it.index() as int)),
                    ),
            {
                proof {
                    let next = table@.take(it.index() + 1);
                    assert(next.drop_last() =~= table@.take(it.index() as int));
                    assert(next.last() == entry);
                    assert(toml_entries(next).drop_last() =~= toml_entries(next.drop_last()));
                }
                let (key, value) = entry;
                let member = (camel_case(key.as_str()), convert(value));
                proof {
                    assert(members@.push(member).drop_last() =~= members@);
                }
                members.push(member);
            }
            assert(table@.take(table@.len() as int) =~= table@);
            JsonValue::Object(members)
        },
    }
}

} // verus!
