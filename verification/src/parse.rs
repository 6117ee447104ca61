//! Parsing JSON text or bytes, then scanning the result.

use vstd::prelude::*;

use crate::error::{Error, SyntaxError};
use crate::json::{Json, JsonValue};
use crate::options::{Action, Options};
use crate::policy::{hits, lemma_clean_without_removal, scan_gives, well_formed};
use crate::scan::scan;
use vstd::utf8::{
    char_is_scalar, char_u32_cast, codepoint_width_3, decode_first_scalar, encode_scalar, encode_utf8,
    encode_utf8_first_scalar,
};

verus! {

/// A tree as `serde_json` builds it; only converted, never read here.
#[verifier::external_type_specification]
#[verifier::external_body]
pub struct ExSerdeValue(serde_json::Value);

/// What `serde_json::from_str` gives for JSON text: the value, as a model,
/// or the error it reports, as its message, line and column.
pub uninterp spec fn parsed_text(text: Seq<char>) -> Result<Json, (Seq<char>, usize, usize)>;

/// What `serde_json::from_slice` gives for JSON bytes: the value, as a model,
/// or the error it reports, as its message, line and column.
pub uninterp spec fn parsed_bytes(bytes: Seq<u8>) -> Result<Json, (Seq<char>, usize, usize)>;

/// Converts a `serde_json` tree into a [`JsonValue`], node for node: each
/// variant to its namesake, an object's entries in the map's order.
#[verifier::external_body]
fn from_serde(v: serde_json::Value) -> JsonValue {
    match v {
        serde_json::Value::Null => JsonValue::Null,
        serde_json::Value::Bool(b) => JsonValue::Bool(b),
        serde_json::Value::Number(n) => JsonValue::Number(n),
        serde_json::Value::String(s) => JsonValue::String(s),
        serde_json::Value::Array(a) => JsonValue::Array(a.into_iter().map(from_serde).collect()),
        serde_json::Value::Object(m) => JsonValue::Object(
            m.into_iter().map(|(k, x)| (k, from_serde(x))).collect(),
        ),
    }
}

/// Parses text with `serde_json::from_str` into a `serde_json::Value`.
///
/// Trusted: the result is what [`parsed_text`] of the text names, the value
/// converted node for node or the error's message, line and column. A value
/// holds no key twice in any object (the parser's maps keep one entry per
/// key).
#[verifier::external_body]
fn json_from_str(text: &str) -> (res: Result<JsonValue, SyntaxError>)
    ensures
        match res {
            Ok(v) => parsed_text(text@) == Ok::<Json, (Seq<char>, usize, usize)>(v@) && well_formed(
                v@,
            ),
            Err(e) => parsed_text(text@) == Err::<Json, (Seq<char>, usize, usize)>(e@),
        },
{
    match serde_json::from_str::<serde_json::Value>(text) {
        Ok(v) => Ok(from_serde(v)),
        Err(e) => Err(SyntaxError { message: e.to_string(), line: e.line(), column: e.column() }),
    }
}

/// Parses bytes with `serde_json::from_slice` into a `serde_json::Value`.
///
/// Trusted: the result is what [`parsed_bytes`] of the bytes names, the value
/// converted node for node or the error's message, line and column. A value
/// holds no key twice in any object. And where the bytes are the UTF-8
/// encoding of a text, [`parsed_text`] of that text names the same result:
/// `from_str` reads through the same byte reader as `from_slice`, and only
/// skips the UTF-8 check of strings that such bytes pass anyway.
#[verifier::external_body]
fn json_from_slice(bytes: &[u8]) -> (res: Result<JsonValue, SyntaxError>)
    ensures
        match res {
            Ok(v) => {
                &&& parsed_bytes(bytes@) == Ok::<Json, (Seq<char>, usize, usize)>(v@)
                &&& well_formed(v@)
                &&& forall|t: Seq<char>|
                    #[trigger] encode_utf8(t) == bytes@ ==> parsed_text(t) == Ok::<
                        Json,
                        (Seq<char>, usize, usize),
                    >(v@)
            },
            Err(e) => {
                &&& parsed_bytes(bytes@) == Err::<Json, (Seq<char>, usize, usize)>(e@)
                &&& forall|t: Seq<char>|
                    #[trigger] encode_utf8(t) == bytes@ ==> parsed_text(t) == Err::<
                        Json,
                        (Seq<char>, usize, usize),
                    >(e@)
            },
        },
{
    match serde_json::from_slice::<serde_json::Value>(bytes) {
        Ok(v) => Ok(from_serde(v)),
        Err(e) => Err(SyntaxError { message: e.to_string(), line: e.line(), column: e.column() }),
    }
}

/// The byte order mark, `U+FEFF`.
pub open spec fn bom() -> char {
    '\u{FEFF}'
}

/// `text` without one leading byte order mark.
pub open spec fn without_bom(text: Seq<char>) -> Seq<char> {
    if text.len() > 0 && text[0] == bom() {
        text.drop_first()
    } else {
        text
    }
}

/// Whether `bytes` starts with the UTF-8 byte order mark `EF BB BF`.
pub open spec fn starts_with_bom(bytes: Seq<u8>) -> bool {
    bytes.len() >= 3 && bytes[0] == 0xEF && bytes[1] == 0xBB && bytes[2] == 0xBF
}

/// `bytes` without one leading UTF-8 byte order mark.
pub open spec fn without_byte_bom(bytes: Seq<u8>) -> Seq<u8> {
    if starts_with_bom(bytes) {
        bytes.subrange(3, bytes.len() as int)
    } else {
        bytes
    }
}

/// Drops a leading `U+FEFF` byte order mark from a string.
pub fn strip_bom(text: &str) -> (r: &str)
    ensures
        r@ == without_bom(text@),
{
    if !text.is_empty() && text.get_char(0) == '\u{FEFF}' {
        text.substring_char(1, text.unicode_len())
    } else {
        text
    }
}

/// Drops a leading UTF-8 byte order mark (`EF BB BF`) from bytes.
pub fn strip_byte_bom(bytes: &[u8]) -> (r: &[u8])
    ensures
        r@ == without_byte_bom(bytes@),
{
    if bytes.len() >= 3 && bytes[0] == 0xEF && bytes[1] == 0xBB && bytes[2] == 0xBF {
        let (_, rest) = bytes.split_at(3);
        rest
    } else {
        bytes
    }
}

/// Whether `res` is what a parse gives when the parser read `parsed`: the
/// syntax error the parser reported, or what [`scan`] gives on the value.
pub open spec fn parse_gives(
    parsed: Result<Json, (Seq<char>, usize, usize)>,
    o: Options,
    res: Result<Option<JsonValue>, Error>,
) -> bool {
    match parsed {
        Ok(v) => scan_gives(v, o, res),
        Err(e) => res matches Err(Error::Syntax(s)) && s@ == e,
    }
}

/// The UTF-8 encoding of a text starts with the byte order mark exactly when
/// the text starts with `U+FEFF`, so the two strippers agree.
pub proof fn lemma_bom_encoding(text: Seq<char>)
    ensures
        without_byte_bom(encode_utf8(text)) == encode_utf8(without_bom(text)),
{
    if text.len() > 0 {
        let b = encode_utf8(text);
        let c = text[0];
        let rest = encode_utf8(text.drop_first());
        encode_utf8_first_scalar(text);
        char_is_scalar(c);
        char_u32_cast(bom(), 0xFEFFu32);
        if c == bom() {
            assert(c as u32 == 0xFEFFu32);
            assert(0xE0u8 | (((0xFEFFu32 >> 12u32) & 0x0Fu32) as u8) == 0xEFu8) by (bit_vector);
            assert(0x80u8 | (((0xFEFFu32 >> 6u32) & 0x3Fu32) as u8) == 0xBBu8) by (bit_vector);
            assert(0x80u8 | ((0xFEFFu32 & 0x3Fu32) as u8) == 0xBFu8) by (bit_vector);
            assert(encode_scalar(c as u32) =~= seq![0xEFu8, 0xBBu8, 0xBFu8]);
            assert(b.subrange(3, b.len() as int) =~= rest);
        } else if starts_with_bom(b) {
            assert(codepoint_width_3(0xEFu8, 0xBBu8, 0xBFu8) == 0xFEFFu32) by (bit_vector);
            assert(decode_first_scalar(b) == 0xFEFFu32);
            char_u32_cast(c, 0xFEFFu32);
            assert(false);
        }
    }
}

/// Parse JSON text and apply the prototype-poisoning checks.
///
/// A leading byte order mark is dropped first. Malformed text gives
/// [`Error::Syntax`] with what the parser reported; otherwise the parsed
/// value is scanned as by [`scan`].
pub fn parse(text: &str, options: &Options) -> (res: Result<Option<JsonValue>, Error>)
    ensures
        parse_gives(parsed_text(without_bom(text@)), *options, res),
        res matches Ok(Some(out)) ==> well_formed(out@),
{
    let text = strip_bom(text);
    match json_from_str(text) {
        Ok(v) => scan(v, options),
        Err(e) => Err(Error::Syntax(e)),
    }
}

/// Parse JSON bytes and apply the prototype-poisoning checks.
///
/// A leading UTF-8 byte order mark (`EF BB BF`) is dropped first. Bytes that
/// are not UTF-8 JSON give [`Error::Syntax`] with what the parser reported;
/// otherwise the parsed value is scanned as by [`scan`]. On the UTF-8
/// encoding of a text, the result is what [`parse`] gives on that text.
pub fn parse_bytes(bytes: &[u8], options: &Options) -> (res: Result<Option<JsonValue>, Error>)
    ensures
        parse_gives(parsed_bytes(without_byte_bom(bytes@)), *options, res),
        res matches Ok(Some(out)) ==> well_formed(out@),
        forall|text: Seq<char>|
            #[trigger] encode_utf8(text) == bytes@ ==> parse_gives(
                parsed_text(without_bom(text)),
                *options,
                res,
            ),
{
    let ghost whole = bytes@;
    let bytes = strip_byte_bom(bytes);
    let parsed = json_from_slice(bytes);
    proof {
        assert forall|text: Seq<char>| #[trigger] encode_utf8(text) == whole implies parsed_text(
            without_bom(text),
        ) == parsed_bytes(bytes@) by {
            lemma_bom_encoding(text);
            assert(encode_utf8(without_bom(text)) == bytes@);
        }
    }
    match parsed {
        Ok(v) => scan(v, options),
        Err(e) => Err(Error::Syntax(e)),
    }
}

/// The three outcomes of [`safe_parse`].
#[derive(Debug)]
pub enum SafeOutcome {
    /// Parsed cleanly. Holds the value.
    Value(JsonValue),
    /// A forbidden prototype property was found.
    Violation,
    /// The JSON text was malformed.
    Malformed,
}

/// The options of the safe parsers: both actions [`Action::Error`], `safe`
/// on.
pub open spec fn safe_options() -> Options {
    Options { proto_action: Action::Error, constructor_action: Action::Error, safe: true }
}

/// What a safe parse gives when the parser read `parsed`.
pub open spec fn safe_outcome_of(parsed: Result<Json, (Seq<char>, usize, usize)>, r: SafeOutcome) -> bool {
    match parsed {
        Err(_) => r is Malformed,
        Ok(v) => if hits(v, safe_options()) {
            r is Violation
        } else {
            r matches SafeOutcome::Value(x) && x@ == v
        },
    }
}

/// Collapse a parse result into a [`SafeOutcome`].
fn fold(result: Result<Option<JsonValue>, Error>) -> (r: SafeOutcome)
    ensures
        match result {
            Ok(Some(v)) => r == SafeOutcome::Value(v),
            Ok(None) => r is Violation,
            Err(_) => r is Malformed,
        },
{
    match result {
        Ok(Some(value)) => SafeOutcome::Value(value),
        Ok(None) => SafeOutcome::Violation,
        Err(_) => SafeOutcome::Malformed,
    }
}

/// Parse JSON text and fold every outcome into a [`SafeOutcome`].
///
/// Runs with both actions at [`Action::Error`] and `safe` on: a clean parse
/// gives the value, a forbidden key [`SafeOutcome::Violation`], malformed
/// JSON [`SafeOutcome::Malformed`]. Never an error.
pub fn safe_parse(text: &str) -> (r: SafeOutcome)
    ensures
        safe_outcome_of(parsed_text(without_bom(text@)), r),
{
    let opts = Options::default().safe(true);
    let result = parse(text, &opts);
    proof {
        if let Ok(v) = parsed_text(without_bom(text@)) {
            if !hits(v, opts) {
                lemma_clean_without_removal(v, opts);
            }
        }
    }
    fold(result)
}

/// Parse JSON bytes and fold every outcome into a [`SafeOutcome`].
///
/// The byte counterpart to [`safe_parse`]; a leading UTF-8 byte order mark
/// is dropped first. On the UTF-8 encoding of a text, the outcome is what
/// [`safe_parse`] gives on that text.
pub fn safe_parse_bytes(bytes: &[u8]) -> (r: SafeOutcome)
    ensures
        safe_outcome_of(parsed_bytes(without_byte_bom(bytes@)), r),
        forall|text: Seq<char>|
            #[trigger] encode_utf8(text) == bytes@ ==> safe_outcome_of(
                parsed_text(without_bom(text)),
                r,
            ),
{
    let opts = Options::default().safe(true);
    let result = parse_bytes(bytes, &opts);
    let r = fold(result);
    proof {
        if let Ok(v) = parsed_bytes(without_byte_bom(bytes@)) {
            if !hits(v, opts) {
                lemma_clean_without_removal(v, opts);
            }
        }
        assert forall|text: Seq<char>| #[trigger] encode_utf8(text) == bytes@ implies safe_outcome_of(
            parsed_text(without_bom(text)),
            r,
        ) by {
            if let Ok(v) = parsed_text(without_bom(text)) {
                if !hits(v, opts) {
                    lemma_clean_without_removal(v, opts);
                }
            }
        }
    }
    r
}

} // verus!
