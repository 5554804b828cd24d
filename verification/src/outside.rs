//! Calls into other crates: the clock, random ids, dates, the encodings of list
//! cursors, and letters in lower case.

use crate::text;
use base64::Engine;
use vstd::prelude::*;
use vstd::string::*;

verus! {

/// Whether `c` is a hexadecimal digit as ids are written: a digit, or a letter
/// from `a` to `f`.
pub open spec fn is_hex(c: char) -> bool {
    '0' <= c <= '9' || 'a' <= c <= 'f'
}

/// Whether `s` holds nothing but hexadecimal digits.
pub open spec fn all_hex(s: Seq<char>) -> bool {
    forall|i: int| 0 <= i < s.len() ==> is_hex(#[trigger] s[i])
}

/// `chrono::Utc::now`, in milliseconds since the epoch by
/// `chrono::DateTime::timestamp_millis`: a number from which
/// `chrono::DateTime::from_timestamp_millis` makes a date again. Which one it is
/// depends on the time, and is left open.
#[verifier::external_body]
pub(crate) fn now_ms() -> (r: i64)
    ensures
        rfc3339_of(r) is Some,
{
    chrono::Utc::now().timestamp_millis()
}

/// Whether `c` is a digit that marks the variant of a random id.
pub open spec fn is_variant_digit(c: char) -> bool {
    c == '8' || c == '9' || c == 'a' || c == 'b'
}

/// `uuid::Uuid::new_v4` in its `simple` form: thirty-two hexadecimal digits, of
/// which one is the version and one marks the variant. The others are left to
/// chance.
#[verifier::external_body]
pub(crate) fn random_simple() -> (r: String)
    ensures
        r@.len() == 32,
        all_hex(r@),
        r@[12] == '4',
        is_variant_digit(r@[16]),
{
    uuid::Uuid::new_v4().simple().to_string()
}

/// Whether `s` reads as a random id: groups of eight, four, four, four and twelve
/// hexadecimal digits, with hyphens between them; one digit is the version and
/// one marks the variant.
pub open spec fn is_random_id(s: Seq<char>) -> bool {
    &&& s.len() == 36
    &&& forall|i: int|
        0 <= i < 36 ==> (if i == 8 || i == 13 || i == 18 || i == 23 {
            #[trigger] s[i] == '-'
        } else {
            is_hex(s[i])
        })
    &&& s[14] == '4'
    &&& is_variant_digit(s[19])
}

/// `uuid::Uuid::new_v4` as `Display` writes it. All digits but those of the
/// version and the variant are left to chance.
#[verifier::external_body]
pub(crate) fn random_hyphenated() -> (r: String)
    ensures
        is_random_id(r@),
{
    uuid::Uuid::new_v4().to_string()
}

/// The date and time of a number of milliseconds since the epoch, as RFC 3339
/// writes it in UTC with three decimals and a `Z`; `None` where the number lies
/// outside the dates that can be told.
pub uninterp spec fn rfc3339_of(ms: i64) -> Option<Seq<char>>;

/// `chrono::DateTime::from_timestamp_millis`, written out by
/// `to_rfc3339_opts` with milliseconds and `Z`.
#[verifier::external_body]
pub(crate) fn rfc3339_millis(ms: i64) -> (r: Option<String>)
    ensures
        match rfc3339_of(ms) {
            Some(s) => r is Some && r->0@ == s,
            None => r is None,
        },
{
    chrono::DateTime::<chrono::Utc>::from_timestamp_millis(ms)
        .map(|t| t.to_rfc3339_opts(chrono::SecondsFormat::Millis, true))
}

/// The bytes that a text stands for in URL-safe Base64 without padding; `None`
/// where it is no such text.
pub uninterp spec fn base64_bytes(text: Seq<char>) -> Option<Seq<u8>>;

/// The text for bytes in URL-safe Base64 without padding.
pub uninterp spec fn base64_text(bytes: Seq<u8>) -> Seq<char>;

/// Whether `c` is of the alphabet of URL-safe Base64.
pub open spec fn is_url_safe(c: char) -> bool {
    'A' <= c <= 'Z' || 'a' <= c <= 'z' || '0' <= c <= '9' || c == '-' || c == '_'
}

/// `base64::Engine::encode` of the engine `URL_SAFE_NO_PAD`: the text that
/// stands for the bytes, in the alphabet of this encoding, from which they can be
/// read back. No bytes alone have no text.
#[verifier::external_body]
pub(crate) fn base64_encode(bytes: &Vec<u8>) -> (r: String)
    ensures
        r@ == base64_text(bytes@),
        base64_bytes(r@) == Some(bytes@),
        forall|i: int| 0 <= i < r@.len() ==> is_url_safe(#[trigger] r@[i]),
        r@.len() == 0 <==> bytes@.len() == 0,
{
    base64::engine::general_purpose::URL_SAFE_NO_PAD.encode(bytes)
}

/// `base64::Engine::decode` of the engine `URL_SAFE_NO_PAD`.
#[verifier::external_body]
pub(crate) fn base64_decode(text: &str) -> (r: Option<Vec<u8>>)
    ensures
        match base64_bytes(text@) {
            Some(b) => r is Some && r->0@ == b,
            None => r is None,
        },
{
    base64::engine::general_purpose::URL_SAFE_NO_PAD.decode(text).ok()
}

/// The two unsigned numbers of the JSON array that `bytes` hold; `None` where they
/// hold no JSON, no array, or not two such numbers.
pub uninterp spec fn json_numbers(bytes: Seq<u8>) -> Option<(u64, u64)>;

/// `serde_json::from_slice` to a pair of numbers.
#[verifier::external_body]
pub(crate) fn json_read_numbers(bytes: &[u8]) -> (r: Option<(u64, u64)>)
    ensures
        r == json_numbers(bytes@),
{
    serde_json::from_slice::<(u64, u64)>(bytes).ok()
}

/// The text of the JSON string at the front of `bytes`, and how many bytes there
/// are up to its end; `None` where there is none.
pub uninterp spec fn json_string_in(bytes: Seq<u8>) -> Option<(Seq<char>, nat)>;

/// The first value of a `serde_json::StreamDeserializer` of strings, and the
/// `byte_offset` behind it.
#[verifier::external_body]
pub(crate) fn json_read_string(bytes: &[u8]) -> (r: Option<(String, usize)>)
    ensures
        match (json_string_in(bytes@), r) {
            (Some((s, n)), Some((found, end))) => found@ == s && end == n && end <= bytes@.len(),
            (None, None) => true,
            _ => false,
        },
{
    let mut values = serde_json::Deserializer::from_slice(bytes).into_iter::<String>();
    let found = values.next()?.ok()?;
    Some((found, values.byte_offset()))
}

/// The unsigned JSON number at the front of `bytes`, and how many bytes there are up
/// to its end; `None` where there is none.
pub uninterp spec fn json_number_in(bytes: Seq<u8>) -> Option<(u64, nat)>;

/// The first value of a `serde_json::StreamDeserializer` of unsigned numbers, and
/// the `byte_offset` behind it.
#[verifier::external_body]
pub(crate) fn json_read_number(bytes: &[u8]) -> (r: Option<(u64, usize)>)
    ensures
        match (json_number_in(bytes@), r) {
            (Some((x, n)), Some((found, end))) => found == x && end == n && end <= bytes@.len(),
            (None, None) => true,
            _ => false,
        },
{
    let mut values = serde_json::Deserializer::from_slice(bytes).into_iter::<u64>();
    let found = values.next()?.ok()?;
    Some((found, values.byte_offset()))
}

/// How many bytes there are up to the end of the JSON value at the front of
/// `bytes`; `None` where there is none.
pub uninterp spec fn json_value_in(bytes: Seq<u8>) -> Option<nat>;

/// The `byte_offset` of a `serde_json::StreamDeserializer` of values of any kind,
/// behind its first, which is skipped and not looked at.
#[verifier::external_body]
pub(crate) fn json_skip_value(bytes: &[u8]) -> (r: Option<usize>)
    ensures
        match (json_value_in(bytes@), r) {
            (Some(n), Some(end)) => end == n && end <= bytes@.len(),
            (None, None) => true,
            _ => false,
        },
{
    let mut values = serde_json::Deserializer::from_slice(bytes).into_iter::<serde::de::IgnoredAny>();
    values.next()?.ok()?;
    Some(values.byte_offset())
}

/// Whether a text is made of small letters.
pub open spec fn is_word(s: Seq<char>) -> bool {
    forall|i: int| 0 <= i < s.len() ==> 'a' <= #[trigger] s[i] <= 'z'
}

/// The bytes of a text in ASCII.
pub open spec fn ascii_bytes(s: Seq<char>) -> Seq<u8> {
    s.map_values(|c: char| c as u8)
}

/// `serde_json::to_vec` of a word: the word in double quotes. Whatever stands behind
/// it, the word can be read back.
#[verifier::external_body]
pub(crate) fn json_write_word(word: &str) -> (r: Vec<u8>)
    requires
        is_word(word@),
    ensures
        r@ == ascii_bytes("\""@ + word@ + "\""@),
        forall|rest: Seq<u8>|
            #[trigger] json_string_in(r@ + rest) == Some((word@, r@.len())),
{
    serde_json::to_vec(word).unwrap_or_default()
}

/// `serde_json::to_vec` of an unsigned number: the number in decimal. Where a comma
/// or a closing brace stands behind it, the number can be read back.
#[verifier::external_body]
pub(crate) fn json_write_number(n: u64) -> (r: Vec<u8>)
    ensures
        r@ == ascii_bytes(text::nat_text(n as nat)),
        forall|rest: Seq<u8>|
            rest.len() > 0 && (rest[0] == ',' as u8 || rest[0] == '}' as u8) ==> #[trigger] json_number_in(
                r@ + rest,
            ) == Some((n, r@.len())),
{
    serde_json::to_vec(&n).unwrap_or_default()
}

/// A text with its letters in lower case.
pub uninterp spec fn lowercase_of(s: Seq<char>) -> Seq<char>;

/// `str::to_lowercase`: letters are lowered as Unicode has it; a text in ASCII has
/// its letters A to Z lowered, and nothing else.
#[verifier::external_body]
pub(crate) fn lowercase(s: &str) -> (r: String)
    ensures
        r@ == lowercase_of(s@),
        vstd::utf8::is_ascii_chars(s@) ==> r@ == text::lowered(s@),
{
    s.to_lowercase()
}

} // verus!
