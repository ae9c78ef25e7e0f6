//! JSON documents, read and written through the `json` crate.
//!
//! A `json::JsonValue` is opaque to the verifier. This module gives what such
//! a value holds a mathematical value, a [`JsonDoc`], and declares each
//! function of the crate that the library calls, with what it does to that
//! value. None of these declarations is proved: they are read off the crate's
//! source.

use vstd::prelude::*;
use vstd::string::StringSliceAdditionalSpecFns;

verus! {

#[verifier::external_type_specification]
#[verifier::external_body]
pub struct ExJsonValue(json::JsonValue);

/// What a JSON value holds.
///
/// A number is kept as the crate keeps it, in decimal: a sign, a mantissa and
/// a power of ten. The entries of an object stand in the order in which they
/// were inserted, which is the order in which they are written out.
pub enum JsonDoc {
    Null,
    Boolean(bool),
    Number { positive: bool, mantissa: u64, exponent: i16 },
    NotANumber,
    Text(Seq<char>),
    Array(Seq<JsonDoc>),
    Object(Seq<(Seq<char>, JsonDoc)>),
}

/// The index of the first entry under `key`, or the number of entries where
/// no entry has that key.
pub open spec fn position(entries: Seq<(Seq<char>, JsonDoc)>, key: Seq<char>) -> int
    decreases entries.len(),
{
    if entries.len() == 0 {
        0
    } else if entries[0].0 == key {
        0
    } else {
        1 + position(entries.skip(1), key)
    }
}

/// The entries after `value` was stored under `key`: in the place of the
/// entry that had the key, or else at the end.
pub open spec fn with_field(
    entries: Seq<(Seq<char>, JsonDoc)>,
    key: Seq<char>,
    value: JsonDoc,
) -> Seq<(Seq<char>, JsonDoc)> {
    let at = position(entries, key);
    if at < entries.len() {
        entries.update(at, (key, value))
    } else {
        entries.push((key, value))
    }
}

/// A mantissa and exponent without the trailing zeros of a fraction.
pub open spec fn trimmed(mantissa: u64, exponent: i16) -> (u64, i16)
    decreases -exponent,
{
    if exponent < 0 && mantissa % 10 == 0 {
        trimmed(mantissa / 10, (exponent + 1) as i16)
    } else {
        (mantissa, exponent)
    }
}

impl JsonDoc {
    /// The member of an object under `key`; `Null` where there is none, or
    /// where this is no object.
    pub open spec fn field(self, key: Seq<char>) -> JsonDoc {
        match self {
            JsonDoc::Object(entries) => {
                let at = position(entries, key);
                if at < entries.len() {
                    entries[at].1
                } else {
                    JsonDoc::Null
                }
            },
            _ => JsonDoc::Null,
        }
    }

    /// The member of an array at `index`; `Null` where there is none, or where
    /// this is no array.
    pub open spec fn item(self, index: int) -> JsonDoc {
        match self {
            JsonDoc::Array(items) => if 0 <= index < items.len() {
                items[index]
            } else {
                JsonDoc::Null
            },
            _ => JsonDoc::Null,
        }
    }

    /// The number of members of an array or of an object; 0 for anything else.
    pub open spec fn count(self) -> nat {
        match self {
            JsonDoc::Array(items) => items.len(),
            JsonDoc::Object(entries) => entries.len(),
            _ => 0,
        }
    }

    /// The number with the given parts, as the crate stores it.
    pub open spec fn number(positive: bool, mantissa: u64, exponent: i16) -> JsonDoc {
        let (mantissa, exponent) = trimmed(mantissa, exponent);
        JsonDoc::Number { positive, mantissa, exponent }
    }
}

/// What `value` holds.
pub uninterp spec fn json_model(value: json::JsonValue) -> JsonDoc;

/// What the crate's parser makes of `text`: the document, or `None` where it
/// rejects the text.
pub uninterp spec fn json_parse(text: Seq<char>) -> Option<JsonDoc>;

/// The compact text that the crate writes for `document`.
pub uninterp spec fn json_text(document: JsonDoc) -> Seq<char>;

/// The most digits in a row that a text may hold to be handed to the parser.
pub const MAX_DIGITS: usize = 32767;

/// Whether a byte is one of the digits `0` to `9`.
pub open spec fn is_digit(byte: u8) -> bool {
    0x30 <= byte <= 0x39
}

/// The length of the run of digits that ends just before place `end`.
pub open spec fn digits_before(bytes: Seq<u8>, end: int) -> nat
    decreases end,
{
    if end <= 0 || end > bytes.len() || !is_digit(bytes[end - 1]) {
        0
    } else {
        1 + digits_before(bytes, end - 1)
    }
}

/// Whether no more than [`MAX_DIGITS`] digits stand in a row anywhere in
/// `bytes`.
///
/// The parser counts the digits of a fraction in 16 bits and fails hard where
/// the count does not fit; a text with no more digits in a row than this
/// never gets it there.
pub open spec fn has_short_numbers(bytes: Seq<u8>) -> bool {
    forall|end: int| 0 <= end <= bytes.len() ==> #[trigger] digits_before(bytes, end) <= MAX_DIGITS
}

/// A run of digits is no longer than what stands before its end.
pub proof fn lemma_digits_fit(bytes: Seq<u8>, end: int)
    requires
        0 <= end <= bytes.len(),
    ensures
        digits_before(bytes, end) <= end,
    decreases end,
{
    if end > 0 && is_digit(bytes[end - 1]) {
        lemma_digits_fit(bytes, end - 1);
    }
}

/// A text of no more than [`MAX_DIGITS`] bytes has no more digits in a row
/// than that.
pub proof fn lemma_short_text_has_short_numbers(bytes: Seq<u8>)
    requires
        bytes.len() <= MAX_DIGITS,
    ensures
        has_short_numbers(bytes),
{
    assert forall|end: int| 0 <= end <= bytes.len() implies #[trigger] digits_before(bytes, end)
        <= MAX_DIGITS by {
        lemma_digits_fit(bytes, end);
    }
}

/// Whether no more than [`MAX_DIGITS`] digits stand in a row anywhere in
/// `text`.
pub fn check_short_numbers(text: &str) -> (ok: bool)
    ensures
        ok == has_short_numbers(text.spec_bytes()),
{
    let bytes = text.as_bytes();
    let mut run: usize = 0;
    let mut i: usize = 0;
    while i < bytes.len()
        invariant
            i <= bytes.len(),
            bytes@ == text.spec_bytes(),
            run == digits_before(bytes@, i as int),
            run <= MAX_DIGITS,
            forall|end: int| 0 <= end <= i ==> #[trigger] digits_before(bytes@, end) <= MAX_DIGITS,
        decreases bytes.len() - i,
    {
        if 0x30 <= bytes[i] && bytes[i] <= 0x39 {
            run += 1;
            if run > MAX_DIGITS {
                assert(digits_before(bytes@, i + 1) > MAX_DIGITS);
                return false;
            }
        } else {
            run = 0;
        }
        i += 1;
    }
    true
}

/// `json::parse`, with the error dropped: the value that the parser builds
/// from `text`, or `None` where the parser fails. A text with more than
/// [`MAX_DIGITS`] digits in a row may make the parser panic, and is left out.
#[verifier::external_body]
pub(crate) fn parse(text: &str) -> (value: Option<json::JsonValue>)
    requires
        has_short_numbers(text.spec_bytes()),
    ensures
        match value {
            Some(value) => json_parse(text@) == Some(json_model(value)),
            None => json_parse(text@) is None,
        },
{
    json::parse(text).ok()
}

/// `json::stringify`: the compact text of `value`.
#[verifier::external_body]
pub(crate) fn stringify(value: json::JsonValue) -> (text: String)
    ensures
        text@ == json_text(json_model(value)),
{
    json::stringify(value)
}

/// Indexing a `JsonValue` by a key. The crate answers with the member of an
/// object, and with a null for a key that is absent or a value that is no
/// object.
#[verifier::external_body]
pub(crate) fn member<'a>(value: &'a json::JsonValue, key: &str) -> (found: &'a json::JsonValue)
    ensures
        json_model(*found) == json_model(*value).field(key@),
{
    &value[key]
}

/// Indexing a `JsonValue` by a number. The crate answers with the member of an
/// array, and with a null for an index out of range or a value that is no
/// array.
#[verifier::external_body]
pub(crate) fn item<'a>(value: &'a json::JsonValue, index: usize) -> (found: &'a json::JsonValue)
    ensures
        json_model(*found) == json_model(*value).item(index as int),
{
    &value[index]
}

/// `JsonValue::len`: the number of members of an array or object, 0 for any
/// other value.
#[verifier::external_body]
pub(crate) fn count(value: &json::JsonValue) -> (n: usize)
    ensures
        n == json_model(*value).count(),
{
    value.len()
}

/// `JsonValue::is_array`.
#[verifier::external_body]
pub(crate) fn is_array(value: &json::JsonValue) -> (yes: bool)
    ensures
        yes == (json_model(*value) is Array),
{
    value.is_array()
}

/// `JsonValue::as_str`: the text of a string, `None` for any other value.
#[verifier::external_body]
pub(crate) fn as_str<'a>(value: &'a json::JsonValue) -> (text: Option<&'a str>)
    ensures
        match text {
            Some(text) => json_model(*value) == JsonDoc::Text(text@),
            None => !(json_model(*value) is Text),
        },
{
    value.as_str()
}

/// `JsonValue::as_bool`: the value of a boolean, `None` for any other value.
#[verifier::external_body]
pub(crate) fn as_bool(value: &json::JsonValue) -> (flag: Option<bool>)
    ensures
        match flag {
            Some(flag) => json_model(*value) == JsonDoc::Boolean(flag),
            None => !(json_model(*value) is Boolean),
        },
{
    value.as_bool()
}

/// `JsonValue::as_number`, with `Number::is_nan` and `Number::as_parts` of
/// what it finds: whether a number is the crate's NaN, and its sign, mantissa
/// and exponent; `None` for a value that is no number.
#[verifier::external_body]
pub(crate) fn as_number(value: &json::JsonValue) -> (parts: Option<(bool, (bool, u64, i16))>)
    ensures
        match json_model(*value) {
            JsonDoc::Number { positive, mantissa, exponent } => parts == Some(
                (false, (positive, mantissa, exponent)),
            ),
            JsonDoc::NotANumber => parts matches Some(found) && found.0,
            _ => parts is None,
        },
{
    value.as_number().map(|number| (number.is_nan(), number.as_parts()))
}

/// `JsonValue::new_object`: an object without entries.
#[verifier::external_body]
pub(crate) fn new_object() -> (object: json::JsonValue)
    ensures
        json_model(object) == JsonDoc::Object(Seq::empty()),
{
    json::JsonValue::new_object()
}

/// `JsonValue::insert` on an object: the value replaces the one that the key
/// had, or becomes the last entry.
#[verifier::external_body]
pub(crate) fn insert(object: &mut json::JsonValue, key: &str, value: json::JsonValue)
    requires
        json_model(*old(object)) is Object,
    ensures
        json_model(*final(object)) == JsonDoc::Object(
            with_field(json_model(*old(object))->Object_0, key@, json_model(value)),
        ),
{
    let _ = object.insert(key, value);
}

/// `JsonValue::from` on a string slice.
#[verifier::external_body]
pub(crate) fn text_value(text: &str) -> (value: json::JsonValue)
    ensures
        json_model(value) == JsonDoc::Text(text@),
{
    json::JsonValue::from(text)
}

/// `JsonValue::from` on a `bool`.
#[verifier::external_body]
pub(crate) fn boolean_value(flag: bool) -> (value: json::JsonValue)
    ensures
        json_model(value) == JsonDoc::Boolean(flag),
{
    json::JsonValue::from(flag)
}

/// `Number::from_parts`, which drops the trailing zeros of a fraction, as a
/// `JsonValue`.
#[verifier::external_body]
pub(crate) fn number_value(positive: bool, mantissa: u64, exponent: i16) -> (value: json::JsonValue)
    ensures
        json_model(value) == JsonDoc::number(positive, mantissa, exponent),
{
    json::JsonValue::Number(json::number::Number::from_parts(positive, mantissa, exponent))
}

/// An entry stored under a key that no entry has becomes the last one.
pub proof fn lemma_with_fresh_field(
    entries: Seq<(Seq<char>, JsonDoc)>,
    key: Seq<char>,
    value: JsonDoc,
)
    requires
        forall|i: int| 0 <= i < entries.len() ==> (#[trigger] entries[i]).0 != key,
    ensures
        position(entries, key) == entries.len(),
        with_field(entries, key, value) == entries.push((key, value)),
    decreases entries.len(),
{
    if entries.len() > 0 {
        let rest = entries.skip(1);
        assert forall|i: int| 0 <= i < rest.len() implies (#[trigger] rest[i]).0 != key by {
            assert(rest[i] == entries[i + 1]);
        }
        lemma_with_fresh_field(rest, key, value);
    }
}

/// The first entry under a key is the one that `field` finds.
pub proof fn lemma_position_of(entries: Seq<(Seq<char>, JsonDoc)>, key: Seq<char>, at: int)
    requires
        0 <= at < entries.len(),
        entries[at].0 == key,
        forall|i: int| 0 <= i < at ==> (#[trigger] entries[i]).0 != key,
    ensures
        position(entries, key) == at,
        JsonDoc::Object(entries).field(key) == entries[at].1,
    decreases at,
{
    if at > 0 {
        let rest = entries.skip(1);
        assert forall|i: int| 0 <= i < at - 1 implies (#[trigger] rest[i]).0 != key by {
            assert(rest[i] == entries[i + 1]);
        }
        assert(rest[at - 1] == entries[at]);
        lemma_position_of(rest, key, at - 1);
    }
}

} // verus!
