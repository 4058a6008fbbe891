//! JSON values.
//!
//! Values are `serde_json`'s own. What one holds is described by [`JsonView`], and each function
//! of `serde_json` that the crate reads or builds values with is declared here over that
//! description.

use crate::text;
use vstd::prelude::*;
use vstd::slice::slice_subrange;
use vstd::string::*;

verus! {

/// What a JSON value is.
#[verifier::ext_equal]
pub ghost enum JsonView {
    /// `null`
    Null,
    /// `true` or `false`
    Bool(bool),
    /// A number: the unsigned 64-bit integer that it is, where it is one, and how it is written.
    Number { unsigned: Option<u64>, text: Seq<char> },
    /// A string.
    Text(Seq<char>),
    /// A list of values.
    Array(Seq<JsonView>),
    /// Values by name.
    Object(Map<Seq<char>, JsonView>),
}

impl JsonView {
    /// The value under a name; nothing where this is no object or has no such name.
    pub open spec fn field(self, key: Seq<char>) -> Option<JsonView> {
        match self {
            JsonView::Object(fields) => if fields.dom().contains(key) {
                Some(fields[key])
            } else {
                None
            },
            _ => None,
        }
    }

    /// The string that this is.
    pub open spec fn text(self) -> Option<Seq<char>> {
        match self {
            JsonView::Text(t) => Some(t),
            _ => None,
        }
    }

    /// The string under a name.
    pub open spec fn text_field(self, key: Seq<char>) -> Option<Seq<char>> {
        match self.field(key) {
            Some(v) => v.text(),
            None => None,
        }
    }

    /// The string under a name, where it is not empty.
    pub open spec fn nonempty_field(self, key: Seq<char>) -> Option<Seq<char>> {
        match self.text_field(key) {
            Some(t) => if t.len() > 0 {
                Some(t)
            } else {
                None
            },
            None => None,
        }
    }

    /// Whether `true` stands under a name.
    pub open spec fn flag(self, key: Seq<char>) -> bool {
        self.field(key) == Some(JsonView::Bool(true))
    }
}

/// The size that a value is: an integer from 0 on that is not too large.
pub open spec fn size_in(value: JsonView) -> Option<nat> {
    match value {
        JsonView::Number { unsigned: Some(n), .. } => if n <= usize::MAX {
            Some(n as nat)
        } else {
            None
        },
        _ => None,
    }
}

/// The object with no names.
pub open spec fn empty_object() -> JsonView {
    JsonView::Object(Map::empty())
}

/// The object with one name.
pub open spec fn object_of(key: Seq<char>, value: JsonView) -> JsonView {
    JsonView::Object(Map::empty().insert(key, value))
}

/// What each of a list of values holds.
pub open spec fn contents_of(values: Seq<serde_json::Value>) -> Seq<JsonView> {
    Seq::new(values.len(), |i: int| json_contents(values[i]))
}

/// What an optional value holds.
pub open spec fn opt_contents(value: Option<&serde_json::Value>) -> Option<JsonView> {
    match value {
        Some(v) => Some(json_contents(*v)),
        None => None,
    }
}

// ---------------------------------------------------------------------------------------------
// serde_json
// ---------------------------------------------------------------------------------------------

#[verifier::external_type_specification]
#[verifier::external_body]
pub struct ExValue(serde_json::Value);

/// What a `serde_json::Value` holds.
pub uninterp spec fn json_contents(value: serde_json::Value) -> JsonView;

/// The compact text that `serde_json` writes a value as.
pub uninterp spec fn json_text(value: JsonView) -> Seq<char>;

/// What `serde_json` makes of a text: the one value that it spells, or how the failure is worded.
pub uninterp spec fn parsed_text(text: Seq<char>) -> Result<JsonView, Seq<char>>;

/// What `serde_json` makes of bytes that are to spell an array: its items, or how the failure is
/// worded.
pub uninterp spec fn parsed_array(bytes: Seq<u8>) -> Result<Seq<JsonView>, Seq<char>>;

/// `serde_json::from_slice`, asked for a list of values. Bytes that are no JSON text, or spell
/// something else than an array, are an error, worded as `serde_json` displays it.
#[verifier::external_body]
pub(crate) fn parse_array(bytes: &[u8]) -> (r: Result<Vec<serde_json::Value>, String>)
    ensures
        match r {
            Ok(values) => parsed_array(bytes@) == Ok::<Seq<JsonView>, Seq<char>>(
                contents_of(values@),
            ),
            Err(problem) => parsed_array(bytes@) == Err::<Seq<JsonView>, Seq<char>>(problem@),
        },
{
    serde_json::from_slice::<Vec<serde_json::Value>>(bytes).map_err(|e| e.to_string())
}

/// `serde_json::from_str`, asked for any value. A text that is no JSON text is an error, worded as
/// `serde_json` displays it.
#[verifier::external_body]
pub(crate) fn parse_text(text: &str) -> (r: Result<serde_json::Value, String>)
    ensures
        match r {
            Ok(value) => parsed_text(text@) == Ok::<JsonView, Seq<char>>(json_contents(value)),
            Err(problem) => parsed_text(text@) == Err::<JsonView, Seq<char>>(problem@),
        },
{
    serde_json::from_str::<serde_json::Value>(text).map_err(|e| e.to_string())
}

/// `Value`'s `Display`: the compact JSON text. A number is written as it stands, a boolean by its
/// name.
#[verifier::external_body]
pub(crate) fn value_to_text(value: &serde_json::Value) -> (r: String)
    ensures
        r@ == json_text(json_contents(*value)),
        json_contents(*value) matches JsonView::Number { unsigned, text } ==> r@ == text,
        json_contents(*value) matches JsonView::Bool(b) ==> r@ == (if b {
            "true"@
        } else {
            "false"@
        }),
{
    value.to_string()
}

/// `Value::get` with a name: the value under it, for an object that has it.
#[verifier::external_body]
pub(crate) fn value_get<'a>(value: &'a serde_json::Value, key: &str) -> (r: Option<
    &'a serde_json::Value,
>)
    ensures
        opt_contents(r) == json_contents(*value).field(key@),
{
    value.get(key)
}

/// `Value::as_str`: the string, for a string.
#[verifier::external_body]
pub(crate) fn value_str<'a>(value: &'a serde_json::Value) -> (r: Option<&'a str>)
    ensures
        text::opt_str(r) == json_contents(*value).text(),
{
    value.as_str()
}

/// `Value::as_bool`: the boolean, for a boolean.
#[verifier::external_body]
pub(crate) fn value_bool(value: &serde_json::Value) -> (r: Option<bool>)
    ensures
        r == (match json_contents(*value) {
            JsonView::Bool(b) => Some(b),
            _ => None,
        }),
{
    value.as_bool()
}

/// How `serde_json` words its complaint about a value that is to be a size and is none.
pub uninterp spec fn size_complaint(value: JsonView) -> Seq<char>;

/// `serde_json::from_value`, asked for a `usize`: the integer, for a number that is one and is not
/// too large. Anything else is an error, worded as `serde_json` displays it.
#[verifier::external_body]
pub(crate) fn read_size(value: &serde_json::Value) -> (r: Result<usize, String>)
    ensures
        match r {
            Ok(n) => size_in(json_contents(*value)) == Some(n as nat),
            Err(problem) => size_in(json_contents(*value)) is None && problem@ == size_complaint(
                json_contents(*value),
            ),
        },
{
    serde_json::from_value::<usize>(value.clone()).map_err(|e| e.to_string())
}

/// How `serde_json` starts to complain about a value of the wrong type, up to what it expected.
pub uninterp spec fn type_complaint(value: JsonView) -> Seq<char>;

/// `serde_json::from_value`, asked for nothing at all, which `null` alone is: the complaint about
/// any other value, which ends with what was expected, `unit`.
#[verifier::external_body]
fn unit_complaint(value: &serde_json::Value) -> (r: String)
    requires
        !(json_contents(*value) is Null),
    ensures
        r@ == type_complaint(json_contents(*value)) + "unit"@,
{
    serde_json::from_value::<()>(value.clone()).unwrap_err().to_string()
}

/// `serde_json::from_value`, asked for a truth value, which `null` is not: the complaint about it,
/// which ends with what was expected, `a boolean`.
#[verifier::external_body]
fn null_complaint(value: &serde_json::Value) -> (r: String)
    requires
        json_contents(*value) is Null,
    ensures
        r@ == type_complaint(json_contents(*value)) + "a boolean"@,
{
    serde_json::from_value::<bool>(value.clone()).unwrap_err().to_string()
}

/// `Value::as_array`: the items, for an array.
#[verifier::external_body]
pub(crate) fn value_items<'a>(value: &'a serde_json::Value) -> (r: Option<
    &'a Vec<serde_json::Value>,
>)
    ensures
        match r {
            Some(items) => json_contents(*value) == JsonView::Array(contents_of(items@)),
            None => !(json_contents(*value) is Array),
        },
{
    value.as_array()
}

/// `Value::is_object`: whether the value is an object.
#[verifier::external_body]
pub(crate) fn value_is_object(value: &serde_json::Value) -> (r: bool)
    ensures
        r == (json_contents(*value) is Object),
{
    value.is_object()
}

/// `Value::is_null`: whether the value is `null`.
#[verifier::external_body]
pub(crate) fn value_is_null(value: &serde_json::Value) -> (r: bool)
    ensures
        r == (json_contents(*value) is Null),
{
    value.is_null()
}

/// `Value::is_number`: whether the value is a number.
#[verifier::external_body]
pub(crate) fn value_is_number(value: &serde_json::Value) -> (r: bool)
    ensures
        r == (json_contents(*value) is Number),
{
    value.is_number()
}

/// `Value`'s `Clone` gives a value that holds the same.
pub assume_specification[ <serde_json::Value as Clone>::clone ](
    value: &serde_json::Value,
) -> (r: serde_json::Value)
    ensures
        json_contents(r) == json_contents(*value),
;

/// `Value::from` on a string: that string.
#[verifier::external_body]
pub(crate) fn value_of_text(text: &str) -> (r: serde_json::Value)
    ensures
        json_contents(r) == JsonView::Text(text@),
{
    serde_json::Value::from(text)
}

/// `Map::new` as a value: the object with no names.
#[verifier::external_body]
pub(crate) fn value_of_nothing() -> (r: serde_json::Value)
    ensures
        json_contents(r) == empty_object(),
{
    serde_json::Value::Object(serde_json::Map::new())
}

/// `Map::from_iter` on one entry as a value: the object with that one name.
#[verifier::external_body]
pub(crate) fn value_of_entry(key: &str, value: serde_json::Value) -> (r: serde_json::Value)
    ensures
        json_contents(r) == object_of(key@, json_contents(value)),
{
    serde_json::Value::Object(serde_json::Map::from_iter([(key.to_string(), value)]))
}

/// The compact text that `serde_json` writes a list of strings as.
pub uninterp spec fn texts_written(texts: Seq<Seq<char>>) -> Seq<char>;

/// What `serde_json` makes of a text that is to spell a list of strings: the strings, or how the
/// failure is worded.
pub uninterp spec fn texts_read(text: Seq<char>) -> Result<Seq<Seq<char>>, Seq<char>>;

/// `serde_json::to_string` on a list of strings, which it can always write. What it writes it
/// reads back as the same list.
#[verifier::external_body]
pub(crate) fn write_texts(texts: &Vec<String>) -> (r: String)
    ensures
        r@ == texts_written(text::texts(texts@)),
        (texts_read(r@) == Ok::<Seq<Seq<char>>, Seq<char>>(text::texts(texts@))),
{
    serde_json::to_string(texts).unwrap()
}

/// `serde_json::from_str`, asked for a list of strings. A text that spells something else is an
/// error, worded as `serde_json` displays it.
#[verifier::external_body]
pub(crate) fn read_texts(text: &str) -> (r: Result<Vec<String>, String>)
    ensures
        match r {
            Ok(texts) => texts_read(text@) == Ok::<Seq<Seq<char>>, Seq<char>>(
                text::texts(texts@),
            ),
            Err(problem) => texts_read(text@) == Err::<Seq<Seq<char>>, Seq<char>>(problem@),
        },
{
    serde_json::from_str::<Vec<String>>(text).map_err(|e| e.to_string())
}

// ---------------------------------------------------------------------------------------------
// Reading fields
// ---------------------------------------------------------------------------------------------

/// The string under a name.
pub fn text_field<'a>(value: &'a serde_json::Value, key: &str) -> (r: Option<&'a str>)
    ensures
        text::opt_str(r) == json_contents(*value).text_field(key@),
{
    match value_get(value, key) {
        Some(v) => value_str(v),
        None => None,
    }
}

/// The string under a name, where it is not empty.
pub fn nonempty_string<'a>(value: &'a serde_json::Value, key: &str) -> (r: Option<&'a str>)
    ensures
        text::opt_str(r) == json_contents(*value).nonempty_field(key@),
{
    match text_field(value, key) {
        Some(t) => if t.is_empty() {
            None
        } else {
            Some(t)
        },
        None => None,
    }
}

/// How a value of another type than expected is reported.
pub fn complaint(value: &serde_json::Value, expected: &str) -> (r: String)
    ensures
        r@ == type_complaint(json_contents(*value)) + expected@,
{
    let ghost start = type_complaint(json_contents(*value));
    let (whole, extra): (String, usize) = if value_is_null(value) {
        proof {
            reveal_strlit("a boolean");
        }
        (null_complaint(value), 9)
    } else {
        proof {
            reveal_strlit("unit");
        }
        (unit_complaint(value), 4)
    };
    let chars = text::chars_of(whole.as_str());
    assert(chars@.len() == start.len() + extra);
    let kept: usize = chars.len() - extra;
    let mut out = text::string_of(slice_subrange(chars.as_slice(), 0, kept));
    assert(chars@.subrange(0, kept as int) == start);
    out.append(expected);
    out
}

/// Whether `true` stands under a name.
pub fn flag(value: &serde_json::Value, key: &str) -> (r: bool)
    ensures
        r == json_contents(*value).flag(key@),
{
    match value_get(value, key) {
        Some(v) => match value_bool(v) {
            Some(b) => b,
            None => false,
        },
        None => false,
    }
}

} // verus!
