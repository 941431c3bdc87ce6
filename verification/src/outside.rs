//! Calls into other crates.
//!
//! What stands here is believed, not proved: each function calls one function of
//! another crate and its contract says what that function is known to do.

use vstd::prelude::*;

use crate::text;
use crate::value::{canonical, collected, compact, DataV};

verus! {

/// The SHA-256 digest of a byte sequence.
pub uninterp spec fn sha256_of(data: Seq<u8>) -> Seq<u8>;

/// `sha2::Sha256::digest`: the digest is a function of the bytes alone and has 32
/// bytes. What the digest of given bytes is remains unstated.
#[verifier::external_body]
pub(crate) fn sha256(data: &[u8]) -> (r: Vec<u8>)
    ensures
        r@ == sha256_of(data@),
        r@.len() == 32,
{
    <sha2::Sha256 as sha2::Digest>::digest(data).to_vec()
}

/// The lowercase hexadecimal digit of a number below sixteen.
pub open spec fn hex_char(n: nat) -> char {
    if n < 10 {
        (('0' as u32) + n) as char
    } else {
        (('a' as u32) + n - 10) as char
    }
}

/// Two lowercase hexadecimal digits for each byte, the high half first.
pub open spec fn hex_text(data: Seq<u8>) -> Seq<char> {
    Seq::new(
        2 * data.len(),
        |i: int|
            if i % 2 == 0 {
                hex_char((data[i / 2] / 16) as nat)
            } else {
                hex_char((data[i / 2] % 16) as nat)
            },
    )
}

/// `hex::encode`: the lowercase hexadecimal form of the bytes.
#[verifier::external_body]
pub(crate) fn hex_encode(data: &[u8]) -> (r: String)
    ensures
        r@ == hex_text(data@),
{
    hex::encode(data)
}

/// The hyphenated notation of a UUID: 8, 4, 4, 4 and 12 hexadecimal digits.
pub open spec fn uuid_text(bytes: Seq<u8>) -> Seq<char> {
    let h = hex_text(bytes);
    h.subrange(0, 8) + seq!['-'] + h.subrange(8, 12) + seq!['-'] + h.subrange(12, 16) + seq!['-']
        + h.subrange(16, 20) + seq!['-'] + h.subrange(20, 32)
}

/// Four hyphens in the places of the hyphenated notation.
pub open spec fn is_hyphenated(s: Seq<char>) -> bool {
    s.len() == 36 && s[8] == '-' && s[13] == '-' && s[18] == '-' && s[23] == '-'
}

/// What stands between the hyphens.
pub open spec fn between_hyphens(s: Seq<char>) -> Seq<char> {
    s.subrange(0, 8) + s.subrange(9, 13) + s.subrange(14, 18) + s.subrange(19, 23) + s.subrange(24, 36)
}

/// The digits of a UUID: alone, or hyphenated, and then also in braces or as a URN.
pub open spec fn uuid_digits(s: Seq<char>) -> Option<Seq<char>> {
    if s.len() == 32 {
        Some(s)
    } else if is_hyphenated(s) {
        Some(between_hyphens(s))
    } else if s.len() == 38 && s[0] == '{' && s[37] == '}' && is_hyphenated(s.subrange(1, 37)) {
        Some(between_hyphens(s.subrange(1, 37)))
    } else if s.len() == 45 && text::lowered(s.subrange(0, 9)) == "urn:uuid:"@ && is_hyphenated(
        s.subrange(9, 45),
    ) {
        Some(between_hyphens(s.subrange(9, 45)))
    } else {
        None
    }
}

/// The number that a hexadecimal digit of either case stands for.
pub open spec fn hex_value(c: char) -> int {
    if text::is_digit(c) {
        c as int - '0' as int
    } else if 'a' <= c {
        c as int - 'a' as int + 10
    } else {
        c as int - 'A' as int + 10
    }
}

/// The UUID that a text stands for, where it stands for one.
pub open spec fn uuid_of(s: Seq<char>) -> Option<Seq<u8>> {
    match uuid_digits(s) {
        Some(digits) => if text::all_hex(digits) {
            Some(Seq::new(16, |i: int| (16 * hex_value(digits[2 * i]) + hex_value(digits[2 * i + 1])) as u8))
        } else {
            None
        },
        None => None,
    }
}

/// `uuid::Uuid::parse_str`: 32 hexadecimal digits of either case, alone or hyphenated, and the
/// hyphenated ones also in braces or behind `urn:uuid:` in either case, are read as sixteen
/// bytes, and nothing else is.
#[verifier::external_body]
pub(crate) fn uuid_parse(text: &str) -> (r: Option<[u8; 16]>)
    ensures
        match r {
            Some(bytes) => uuid_of(text@) == Some(bytes@),
            None => uuid_of(text@) is None,
        },
{
    uuid::Uuid::parse_str(text).ok().map(uuid::Uuid::into_bytes)
}

/// `uuid::Uuid::to_string`: the hyphenated lowercase notation.
#[verifier::external_body]
pub(crate) fn uuid_hyphenated(bytes: [u8; 16]) -> (r: String)
    ensures
        r@ == uuid_text(bytes@),
{
    uuid::Uuid::from_bytes(bytes).hyphenated().to_string()
}

/// `uuid::fmt::Simple`: the 32 hexadecimal digits without hyphens.
#[verifier::external_body]
pub(crate) fn uuid_simple(bytes: [u8; 16]) -> (r: String)
    ensures
        r@ == hex_text(bytes@),
{
    uuid::Uuid::from_bytes(bytes).simple().to_string()
}

/// `uuid::Uuid::new_v4`: sixteen bytes, chosen at random but for the version number
/// (four) and the variant bits (one, zero) that the notation of random UUIDs fixes.
#[verifier::external_body]
pub(crate) fn uuid_random() -> (r: [u8; 16])
    ensures
        r@[6] / 16 == 4,
        r@[8] / 64 == 2,
{
    uuid::Uuid::new_v4().into_bytes()
}

/// A parsed JSON document, as `serde_json` holds it.
#[verifier::external_type_specification]
#[verifier::external_body]
pub struct ExJsonDocument(serde_json::Value);

/// The plain value that a parsed document holds.
pub uninterp spec fn json_contents(document: serde_json::Value) -> DataV;

/// The whole numbers that JSON documents hold.
pub open spec fn is_json_integer(n: int) -> bool {
    i64::MIN <= n <= u64::MAX
}

/// A value that JSON carries exactly but for the order of names: no fractional number, date
/// or time, whole numbers of 64 bits, and parts at most `depth` deep.
pub open spec fn is_exact_json(v: DataV, depth: nat) -> bool
    decreases v,
{
    match v {
        DataV::Null => true,
        DataV::Bool(_) => true,
        DataV::Str(_) => true,
        DataV::Integer(n) => is_json_integer(n),
        DataV::Array(items) => depth > 0 && forall|i: int|
            0 <= i < items.len() ==> is_exact_json(#[trigger] items[i], (depth - 1) as nat),
        DataV::Object(entries) => {
            &&& depth > 0
            &&& forall|i: int|
                0 <= i < entries.len() ==> is_exact_json((#[trigger] entries[i]).1, (depth - 1) as nat)
        },
        DataV::Float(_) => false,
        DataV::Datetime(_) => false,
    }
}

/// The value that a JSON text stands for, or why it stands for none.
pub uninterp spec fn json_parsed(data: Seq<u8>) -> Result<DataV, Seq<char>>;

/// `serde_json::from_slice` into a `serde_json::Value`: what the document holds, or the
/// text of the error, is a function of the bytes alone. The compact notation of a value that
/// JSON carries exactly is read as that value, with its names in order and the last of several
/// values under one name. Which other bytes are JSON, and what the text of an error says,
/// remain unstated.
#[verifier::external_body]
pub(crate) fn json_parse(data: &[u8]) -> (r: Result<serde_json::Value, String>)
    ensures
        match (r, json_parsed(data@)) {
            (Ok(document), Ok(model)) => json_contents(document) == model,
            (Err(error), Err(why)) => error@ == why,
            _ => false,
        },
        forall|v: DataV|
            is_exact_json(v, 100) && data@ == vstd::utf8::encode_utf8(#[trigger] compact(v)) ==> r is Ok
                && json_contents(r->Ok_0) == canonical(v),
{
    serde_json::from_slice::<serde_json::Value>(data).map_err(|error| error.to_string())
}

/// What a JSON document is made of.
pub enum JsonPart<'a> {
    Null,
    Bool(bool),
    /// A number: what it is where it is whole, and its notation.
    Number(Option<i128>, String),
    Text(&'a str),
    Items(Vec<&'a serde_json::Value>),
    Entries(Vec<(&'a String, &'a serde_json::Value)>),
}

/// The plain value of what a document is made of.
pub open spec fn part_contents(part: JsonPart) -> DataV {
    match part {
        JsonPart::Null => DataV::Null,
        JsonPart::Bool(flag) => DataV::Bool(flag),
        JsonPart::Number(Some(n), _) => DataV::Integer(n as int),
        JsonPart::Number(None, notation) => DataV::Float(notation@),
        JsonPart::Text(s) => DataV::Str(s@),
        JsonPart::Items(items) => DataV::Array(
            Seq::new(items@.len(), |i: int| json_contents(*items@[i])),
        ),
        JsonPart::Entries(entries) => DataV::Object(
            Seq::new(entries@.len(), |i: int| (entries@[i].0@, json_contents(*entries@[i].1))),
        ),
    }
}

/// Tells the variants of `serde_json::Value` apart: what a document holds is what its parts
/// hold, the entries of a map in its order. A number is whole where `Number::as_i128` gives it,
/// and its notation is what `Number` displays.
#[verifier::external_body]
pub(crate) fn json_split(document: &serde_json::Value) -> (r: JsonPart<'_>)
    ensures
        part_contents(r) == json_contents(*document),
{
    match document {
        serde_json::Value::Null => JsonPart::Null,
        serde_json::Value::Bool(flag) => JsonPart::Bool(*flag),
        serde_json::Value::Number(n) => JsonPart::Number(n.as_i128(), n.to_string()),
        serde_json::Value::String(s) => JsonPart::Text(s),
        serde_json::Value::Array(items) => JsonPart::Items(items.iter().collect()),
        serde_json::Value::Object(map) => JsonPart::Entries(map.iter().collect()),
    }
}

/// `serde_json::Value::Null`.
#[verifier::external_body]
pub(crate) fn json_null() -> (r: serde_json::Value)
    ensures
        json_contents(r) == DataV::Null,
{
    serde_json::Value::Null
}

/// `serde_json::Value::Bool`.
#[verifier::external_body]
pub(crate) fn json_bool(flag: bool) -> (r: serde_json::Value)
    ensures
        json_contents(r) == DataV::Bool(flag),
{
    serde_json::Value::Bool(flag)
}

/// `serde_json::Value::String`.
#[verifier::external_body]
pub(crate) fn json_text(s: &str) -> (r: serde_json::Value)
    ensures
        json_contents(r) == DataV::Str(s@),
{
    serde_json::Value::String(s.to_owned())
}

/// `serde_json::Number::from_i128`: the number, exactly where it fits 64 bits.
#[verifier::external_body]
pub(crate) fn json_integer(n: i128) -> (r: Option<serde_json::Value>)
    ensures
        r is Some == is_json_integer(n as int),
        r matches Some(document) ==> json_contents(document) == DataV::Integer(n as int),
{
    serde_json::Number::from_i128(n).map(serde_json::Value::Number)
}

/// The number that a notation stands for, where it stands for one.
pub uninterp spec fn number_read(notation: Seq<char>) -> Option<DataV>;

/// `str::parse` into a `serde_json::Number`: whether a notation is a number, and which, is a
/// function of the notation. Which number remains unstated.
#[verifier::external_body]
pub(crate) fn json_number(notation: &str) -> (r: Option<serde_json::Value>)
    ensures
        match r {
            Some(document) => number_read(notation@) == Some(json_contents(document)),
            None => number_read(notation@) is None,
        },
{
    notation.parse::<serde_json::Number>().ok().map(serde_json::Value::Number)
}

/// `serde_json::Value::Array`.
#[verifier::external_body]
pub(crate) fn json_array(items: Vec<serde_json::Value>) -> (r: serde_json::Value)
    ensures
        json_contents(r) == DataV::Array(Seq::new(items@.len(), |i: int| json_contents(items@[i]))),
{
    serde_json::Value::Array(items)
}

/// What members of a JSON object hold.
pub open spec fn member_contents(members: Seq<(String, serde_json::Value)>) -> Seq<(Seq<char>, DataV)> {
    Seq::new(members.len(), |i: int| (members[i].0@, json_contents(members[i].1)))
}

/// `serde_json::Value::Object` of a `serde_json::Map` that the members are collected into. The
/// map keeps names in order, and the last of several values under one name.
#[verifier::external_body]
pub(crate) fn json_object(members: Vec<(String, serde_json::Value)>) -> (r: serde_json::Value)
    ensures
        json_contents(r) == DataV::Object(collected(member_contents(members@))),
{
    serde_json::Value::Object(members.into_iter().collect())
}

/// `serde_json::to_string` on a `serde_json::Value`: the compact notation of what the document
/// holds. Writing a document to memory has no failing case.
#[verifier::external_body]
pub(crate) fn json_write(document: &serde_json::Value) -> (r: String)
    ensures
        r@ == compact(json_contents(*document)),
{
    serde_json::to_string(document).expect("a document always encodes")
}

// ---------------------------------------------------------------------------
// Texts in std
// ---------------------------------------------------------------------------

/// The description of what keeps bytes from being UTF-8.
pub uninterp spec fn utf8_error_text(bytes: Seq<u8>) -> Seq<char>;

/// `String::from_utf8`: the text that the bytes encode, exactly where they are UTF-8, and
/// else the description of the first offence. What that description says is left unstated.
#[verifier::external_body]
pub(crate) fn utf8_decode(bytes: Vec<u8>) -> (r: Result<String, String>)
    ensures
        (r is Ok) == vstd::utf8::valid_utf8(bytes@),
        r matches Ok(s) ==> s@ == vstd::utf8::decode_utf8(bytes@),
        r matches Err(e) ==> e@ == utf8_error_text(bytes@),
{
    String::from_utf8(bytes).map_err(|error| error.to_string())
}

/// The text that stands for bytes, with a replacement for what is no UTF-8.
pub uninterp spec fn lossy_text(bytes: Seq<u8>) -> Seq<char>;

/// `String::from_utf8_lossy`: the text that the bytes encode where they are UTF-8. What
/// stands for other bytes is a function of the bytes, and is left unstated beyond that.
#[verifier::external_body]
pub(crate) fn utf8_lossy(bytes: &[u8]) -> (r: String)
    ensures
        r@ == lossy_text(bytes@),
        vstd::utf8::valid_utf8(bytes@) ==> r@ == vstd::utf8::decode_utf8(bytes@),
{
    String::from_utf8_lossy(bytes).into_owned()
}

/// The text in quotation marks with escapes, as Rust shows it for debugging.
pub uninterp spec fn quoted_text(s: Seq<char>) -> Seq<char>;

/// The `Debug` form of `str`: a function of the text, left unstated beyond that.
#[verifier::external_body]
pub(crate) fn debug_quote(s: &str) -> (r: String)
    ensures
        r@ == quoted_text(s@),
{
    format!("{s:?}")
}

} // verus!
