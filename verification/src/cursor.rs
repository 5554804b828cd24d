//! The fields of a list cursor.
//!
//! A cursor holds its generation and its offset in JSON: in an object, each once
//! under its name and among any other fields, or in an array, in that order.

use crate::outside;
use crate::text;
use vstd::prelude::*;
use vstd::slice::*;
use vstd::string::*;

verus! {

/// The fields that were read so far.
#[derive(Debug, Clone, Copy, PartialEq, Eq, Structural)]
pub struct CursorFields {
    pub generation: Option<u64>,
    pub offset: Option<u64>,
}

/// No field was read.
pub open spec fn no_fields() -> CursorFields {
    CursorFields { generation: None, offset: None }
}

/// Whether `key` names a field of a cursor.
pub open spec fn is_field(key: Seq<char>) -> bool {
    key == "generation"@ || key == "offset"@
}

impl CursorFields {
    /// With the number `n` under `key`, which names a field. No field is read twice.
    pub open spec fn noted(self, key: Seq<char>, n: u64) -> Option<CursorFields> {
        if key == "generation"@ {
            if self.generation is None {
                Some(CursorFields { generation: Some(n), ..self })
            } else {
                None
            }
        } else if self.offset is None {
            Some(CursorFields { offset: Some(n), ..self })
        } else {
            None
        }
    }

    /// Generation and offset, once both are there.
    pub open spec fn both(self) -> Option<(u64, u64)> {
        match (self.generation, self.offset) {
            (Some(g), Some(o)) => Some((g, o)),
            _ => None,
        }
    }

    /// Notes the number `n` under `key`; `None` where there is one already.
    pub fn note(self, key: &str, n: u64) -> (r: Option<CursorFields>)
        requires
            is_field(key@),
        ensures
            r == self.noted(key@, n),
    {
        if text::same(key, "generation") {
            match self.generation {
                None => Some(CursorFields { generation: Some(n), offset: self.offset }),
                Some(_) => None,
            }
        } else {
            match self.offset {
                None => Some(CursorFields { generation: self.generation, offset: Some(n) }),
                Some(_) => None,
            }
        }
    }
}

/// Whether `b` is white space between the parts of a JSON text.
pub open spec fn is_blank(b: u8) -> bool {
    b == ' ' as u8 || b == '\n' as u8 || b == '\t' as u8 || b == '\r' as u8
}

/// `s` from its first byte on that is no white space.
pub open spec fn skip_blank(s: Seq<u8>) -> Seq<u8>
    decreases s.len(),
{
    if s.len() > 0 && is_blank(s[0]) {
        skip_blank(s.skip(1))
    } else {
        s
    }
}

/// Whether `s` begins with `c`.
pub open spec fn begins(s: Seq<u8>, c: char) -> bool {
    s.len() > 0 && s[0] == c as u8
}

/// The key at the front of `s`, and what stands behind the colon that follows it.
pub open spec fn key_in(s: Seq<u8>) -> Option<(Seq<char>, Seq<u8>)> {
    match outside::json_string_in(s) {
        Some((key, n)) => if n <= s.len() && begins(skip_blank(s.skip(n as int)), ':') {
            Some((key, skip_blank(s.skip(n as int)).skip(1)))
        } else {
            None
        },
        None => None,
    }
}

/// The fields `f` with the one under `key`, whose value stands at the front of `s`,
/// and what stands behind the value. Only the fields of a cursor are noted.
pub open spec fn value_in(f: CursorFields, key: Seq<char>, s: Seq<u8>) -> Option<
    (CursorFields, Seq<u8>),
> {
    if is_field(key) {
        match outside::json_number_in(s) {
            Some((x, n)) => match f.noted(key, x) {
                Some(after) => if n <= s.len() {
                    Some((after, s.skip(n as int)))
                } else {
                    None
                },
                None => None,
            },
            None => None,
        }
    } else {
        match outside::json_value_in(s) {
            Some(n) => if n <= s.len() {
                Some((f, s.skip(n as int)))
            } else {
                None
            },
            None => None,
        }
    }
}

/// The fields in the rest `s` of an object, where `f` was read before: `first` at
/// the beginning of the object, else behind a value.
pub open spec fn fields_in(s: Seq<u8>, first: bool, f: CursorFields) -> Option<(u64, u64)>
    decreases s.len(),
    via fields_end
{
    let t = skip_blank(s);
    if begins(t, '}') {
        if skip_blank(t.skip(1)).len() == 0 {
            f.both()
        } else {
            None
        }
    } else if first || begins(t, ',') {
        match key_in(
            if first {
                t
            } else {
                t.skip(1)
            },
        ) {
            Some((key, v)) => match value_in(f, key, v) {
                Some((after, rest)) => fields_in(rest, false, after),
                None => None,
            },
            None => None,
        }
    } else {
        None
    }
}

#[via_fn]
proof fn fields_end(s: Seq<u8>, first: bool, f: CursorFields) {
    let t = skip_blank(s);
    lemma_skip_blank(s);
    let k = if first {
        t
    } else {
        t.skip(1)
    };
    match outside::json_string_in(k) {
        Some((key, n)) => {
            if n <= k.len() {
                lemma_skip_blank(k.skip(n as int));
            }
        },
        None => {},
    }
}

/// Skipping white space makes nothing longer.
proof fn lemma_skip_blank(s: Seq<u8>)
    ensures
        skip_blank(s).len() <= s.len(),
    decreases s.len(),
{
    if s.len() > 0 && is_blank(s[0]) {
        lemma_skip_blank(s.skip(1));
    }
}

/// The generation and the offset in the JSON text of a cursor, if it holds them.
pub open spec fn cursor_fields(raw: Seq<u8>) -> Option<(u64, u64)> {
    let t = skip_blank(raw);
    if begins(t, '[') {
        outside::json_numbers(raw)
    } else if begins(t, '{') {
        fields_in(t.skip(1), true, no_fields())
    } else {
        None
    }
}

/// Where the first byte stands from `at` on that is no white space.
fn skip_blank_from(raw: &[u8], at: usize) -> (r: usize)
    requires
        at <= raw@.len(),
    ensures
        at <= r <= raw@.len(),
        raw@.skip(r as int) == skip_blank(raw@.skip(at as int)),
{
    let mut i: usize = at;
    while i < raw.len() && (raw[i] == ' ' as u8 || raw[i] == '\n' as u8 || raw[i] == '\t' as u8
        || raw[i] == '\r' as u8)
        invariant
            at <= i <= raw@.len(),
            skip_blank(raw@.skip(i as int)) == skip_blank(raw@.skip(at as int)),
        decreases raw@.len() - i,
    {
        assert(raw@.skip(i as int).skip(1) =~= raw@.skip(i + 1));
        i += 1;
    }
    i
}

/// Reads the generation and the offset from the JSON text of a cursor.
pub fn read_fields(raw: &[u8]) -> (r: Option<(u64, u64)>)
    ensures
        r == cursor_fields(raw@),
{
    let n: usize = raw.len();
    assert(raw@.skip(0) =~= raw@);
    let start: usize = skip_blank_from(raw, 0);
    if start == n {
        return None;
    }
    if raw[start] == '[' as u8 {
        return outside::json_read_numbers(raw);
    }
    if raw[start] != '{' as u8 {
        return None;
    }
    let mut at: usize = start + 1;
    let mut first: bool = true;
    let mut fields: CursorFields = CursorFields { generation: None, offset: None };
    assert(raw@.skip(start as int).skip(1) =~= raw@.skip(at as int));
    loop
        invariant
            n == raw@.len(),
            at <= n,
            cursor_fields(raw@) == fields_in(raw@.skip(at as int), first, fields),
        decreases n - at,
    {
        let t: usize = skip_blank_from(raw, at);
        if t == n {
            return None;
        }
        if raw[t] == '}' as u8 {
            assert(raw@.skip(t as int).skip(1) =~= raw@.skip(t + 1));
            return if skip_blank_from(raw, t + 1) == n {
                match (fields.generation, fields.offset) {
                    (Some(g), Some(o)) => Some((g, o)),
                    _ => None,
                }
            } else {
                None
            };
        }
        if !first && raw[t] != ',' as u8 {
            return None;
        }
        let k: usize = if first {
            t
        } else {
            t + 1
        };
        assert(!first ==> raw@.skip(t as int).skip(1) =~= raw@.skip(k as int));
        let (key, m): (String, usize) = match outside::json_read_string(slice_subrange(raw, k, n)) {
            Some(found) => found,
            None => {
                return None;
            },
        };
        assert(raw@.subrange(k as int, n as int) =~= raw@.skip(k as int));
        assert(raw@.skip(k as int).skip(m as int) =~= raw@.skip(k + m));
        let colon: usize = skip_blank_from(raw, k + m);
        if colon == n || raw[colon] != ':' as u8 {
            return None;
        }
        let v: usize = colon + 1;
        assert(raw@.skip(colon as int).skip(1) =~= raw@.skip(v as int));
        assert(raw@.subrange(v as int, n as int) =~= raw@.skip(v as int));
        if text::same(key.as_str(), "generation") || text::same(key.as_str(), "offset") {
            let (x, len): (u64, usize) = match outside::json_read_number(slice_subrange(raw, v, n)) {
                Some(found) => found,
                None => {
                    return None;
                },
            };
            assert(raw@.skip(v as int).skip(len as int) =~= raw@.skip(v + len));
            fields = match fields.note(key.as_str(), x) {
                Some(after) => after,
                None => {
                    return None;
                },
            };
            at = v + len;
        } else {
            let len: usize = match outside::json_skip_value(slice_subrange(raw, v, n)) {
                Some(found) => found,
                None => {
                    return None;
                },
            };
            assert(raw@.skip(v as int).skip(len as int) =~= raw@.skip(v + len));
            at = v + len;
        }
        first = false;
    }
}

/// The JSON text of the cursor for a generation and an offset.
pub open spec fn fields_text(generation: u64, offset: u64) -> Seq<u8> {
    outside::ascii_bytes(
        "{\"generation\":"@ + text::nat_text(generation as nat) + ",\"offset\":"@ + text::nat_text(
            offset as nat,
        ) + "}"@,
    )
}

/// Writes the JSON text of a cursor, from which its fields can be read back.
pub fn write_fields(generation: u64, offset: u64) -> (r: Vec<u8>)
    ensures
        r@ == fields_text(generation, offset),
        cursor_fields(r@) == Some((generation, offset)),
        r@.len() > 0,
{
    proof {
        reveal_strlit("generation");
        reveal_strlit("offset");
        reveal_strlit("\"");
    }
    let mut key: Vec<u8> = outside::json_write_word("generation");
    let mut number: Vec<u8> = outside::json_write_number(generation);
    let mut other_key: Vec<u8> = outside::json_write_word("offset");
    let mut other_number: Vec<u8> = outside::json_write_number(offset);
    let ghost g_key = key@;
    let ghost g_number = number@;
    let ghost o_key = other_key@;
    let ghost o_number = other_number@;
    let mut r: Vec<u8> = Vec::new();
    r.push('{' as u8);
    r.append(&mut key);
    r.push(':' as u8);
    r.append(&mut number);
    r.push(',' as u8);
    r.append(&mut other_key);
    r.push(':' as u8);
    r.append(&mut other_number);
    r.push('}' as u8);
    proof {
        assert(r@ =~= seq!['{' as u8] + g_key + seq![':' as u8] + g_number + seq![',' as u8] + o_key
            + seq![':' as u8] + o_number + seq!['}' as u8]);
        lemma_text(generation, offset);
        lemma_read_back(g_key, g_number, o_key, o_number, generation, offset);
    }
    r
}

/// The text of a cursor from its parts.
proof fn lemma_text(generation: u64, offset: u64)
    ensures
        fields_text(generation, offset) == seq!['{' as u8] + outside::ascii_bytes(
            "\""@ + "generation"@ + "\""@,
        ) + seq![':' as u8] + outside::ascii_bytes(text::nat_text(generation as nat))
            + seq![',' as u8] + outside::ascii_bytes("\""@ + "offset"@ + "\""@) + seq![':' as u8]
            + outside::ascii_bytes(text::nat_text(offset as nat)) + seq!['}' as u8],
{
    reveal_strlit("generation");
    reveal_strlit("offset");
    reveal_strlit("\"");
    reveal_strlit("{\"generation\":");
    reveal_strlit(",\"offset\":");
    reveal_strlit("}");
    let g = text::nat_text(generation as nat);
    let o = text::nat_text(offset as nat);
    let g_key = "\""@ + "generation"@ + "\""@;
    let o_key = "\""@ + "offset"@ + "\""@;
    assert("{\"generation\":"@ =~= seq!['{'] + g_key + seq![':']);
    assert(",\"offset\":"@ =~= seq![','] + o_key + seq![':']);
    assert("}"@ =~= seq!['}']);
    lemma_bytes(seq!['{'] + g_key + seq![':'] + g + (seq![','] + o_key + seq![':']) + o, seq!['}']);
    lemma_bytes(seq!['{'] + g_key + seq![':'] + g + (seq![','] + o_key + seq![':']), o);
    lemma_bytes(seq!['{'] + g_key + seq![':'] + g, seq![','] + o_key + seq![':']);
    lemma_bytes(seq!['{'] + g_key + seq![':'], g);
    lemma_bytes(seq!['{'] + g_key, seq![':']);
    lemma_bytes(seq!['{'], g_key);
    lemma_bytes(seq![','] + o_key, seq![':']);
    lemma_bytes(seq![','], o_key);
    lemma_byte('{');
    lemma_byte('}');
    lemma_byte(':');
    lemma_byte(',');
    let (a, b) = (outside::ascii_bytes(g_key), outside::ascii_bytes(g));
    let (c, d) = (outside::ascii_bytes(o_key), outside::ascii_bytes(o));
    let head = seq!['{' as u8] + a + seq![':' as u8] + b;
    assert(head + (seq![',' as u8] + c + seq![':' as u8]) =~= head + seq![',' as u8] + c
        + seq![':' as u8]);
}

/// The bytes of two texts in a row.
proof fn lemma_bytes(a: Seq<char>, b: Seq<char>)
    ensures
        outside::ascii_bytes(a + b) == outside::ascii_bytes(a) + outside::ascii_bytes(b),
{
    assert(outside::ascii_bytes(a + b) =~= outside::ascii_bytes(a) + outside::ascii_bytes(b));
}

/// The byte of one character.
proof fn lemma_byte(c: char)
    ensures
        outside::ascii_bytes(seq![c]) == seq![c as u8],
{
    assert(outside::ascii_bytes(seq![c]) =~= seq![c as u8]);
}

/// The fields of a cursor that was written are read.
proof fn lemma_read_back(
    g_key: Seq<u8>,
    g_number: Seq<u8>,
    o_key: Seq<u8>,
    o_number: Seq<u8>,
    generation: u64,
    offset: u64,
)
    requires
        begins(g_key, '"'),
        forall|tail: Seq<u8>|
            #[trigger] outside::json_string_in(g_key + tail) == Some(("generation"@, g_key.len())),
        forall|tail: Seq<u8>|
            #[trigger] outside::json_string_in(o_key + tail) == Some(("offset"@, o_key.len())),
        forall|tail: Seq<u8>|
            begins(tail, ',') || begins(tail, '}') ==> #[trigger] outside::json_number_in(
                g_number + tail,
            ) == Some((generation, g_number.len())),
        forall|tail: Seq<u8>|
            begins(tail, ',') || begins(tail, '}') ==> #[trigger] outside::json_number_in(
                o_number + tail,
            ) == Some((offset, o_number.len())),
    ensures
        cursor_fields(
            seq!['{' as u8] + g_key + seq![':' as u8] + g_number + seq![',' as u8] + o_key
                + seq![':' as u8] + o_number + seq!['}' as u8],
        ) == Some((generation, offset)),
{
    let end = seq!['}' as u8];
    let o_rest = o_key + (seq![':' as u8] + (o_number + end));
    let o_field = seq![',' as u8] + o_rest;
    let body = g_key + (seq![':' as u8] + (g_number + o_field));
    let whole = seq!['{' as u8] + g_key + seq![':' as u8] + g_number + seq![',' as u8] + o_key
        + seq![':' as u8] + o_number + seq!['}' as u8];
    let f = CursorFields { generation: Some(generation), offset: None };
    let both = CursorFields { generation: Some(generation), offset: Some(offset) };
    assert("offset"@ != "generation"@) by {
        reveal_strlit("generation");
        reveal_strlit("offset");
        assert("offset"@.len() != "generation"@.len());
    }
    assert(fields_in(end, false, both) == Some((generation, offset))) by {
        assert(skip_blank(end) == end);
        assert(end.skip(1).len() == 0);
    }
    lemma_field(o_key, "offset"@, o_number, offset, end, f, both);
    assert(fields_in(o_field, false, f) == fields_in(end, false, both)) by {
        assert(skip_blank(o_field) == o_field);
        assert(o_field.skip(1) =~= o_rest);
    }
    lemma_field(g_key, "generation"@, g_number, generation, o_field, no_fields(), f);
    assert(fields_in(body, true, no_fields()) == fields_in(o_field, false, f)) by {
        assert(body[0] == g_key[0]);
        assert(skip_blank(body) == body);
    }
    assert(skip_blank(whole) == whole);
    assert(whole.skip(1) =~= body);
}

/// A field that was written is read, and what stands behind it is left.
proof fn lemma_field(
    key: Seq<u8>,
    name: Seq<char>,
    number: Seq<u8>,
    n: u64,
    rest: Seq<u8>,
    before: CursorFields,
    after: CursorFields,
)
    requires
        is_field(name),
        before.noted(name, n) == Some(after),
        forall|tail: Seq<u8>| #[trigger] outside::json_string_in(key + tail) == Some((name, key.len())),
        outside::json_number_in(number + rest) == Some((n, number.len())),
    ensures
        key_in(key + (seq![':' as u8] + (number + rest))) == Some((name, number + rest)),
        value_in(before, name, number + rest) == Some((after, rest)),
{
    let colon = seq![':' as u8] + (number + rest);
    let s = key + colon;
    assert(outside::json_string_in(key + colon) == Some((name, key.len())));
    assert(s.skip(key.len() as int) =~= colon);
    assert(skip_blank(colon) == colon);
    assert(colon.skip(1) =~= number + rest);
    assert((number + rest).skip(number.len() as int) =~= rest);
}

/// Each field of a cursor is read once, under its own name, and both are needed.
pub proof fn law_each_field_is_read_once(f: CursorFields, n: u64, m: u64)
    ensures
        f.generation is Some ==> f.noted("generation"@, n) is None,
        f.offset is Some ==> f.noted("offset"@, n) is None,
        f.generation is None ==> (f.noted("generation"@, n) matches Some(g) && g.generation == Some(n)
            && g.offset == f.offset),
        f.offset is None ==> (f.noted("offset"@, n) matches Some(g) && g.offset == Some(n)
            && g.generation == f.generation),
        f.both() matches Some((g, o)) ==> f.generation == Some(g) && f.offset == Some(o),
        f.both() is Some <==> f.generation is Some && f.offset is Some,
        no_fields().generation is None && no_fields().offset is None,
        is_field("generation"@) && is_field("offset"@),
{
    reveal_strlit("generation");
    reveal_strlit("offset");
    assert("generation"@.len() != "offset"@.len());
}

/// Blanks, tabs and the ends of lines may stand between the parts of a cursor's text, and
/// nothing else may.
pub proof fn law_blanks_between_parts(b: u8, s: Seq<u8>)
    ensures
        is_blank(b) <==> b == 32 || b == 10 || b == 9 || b == 13,
        is_blank(b) ==> skip_blank(seq![b] + s) == skip_blank(s),
        !is_blank(b) ==> skip_blank(seq![b] + s) == seq![b] + s,
{
    assert((seq![b] + s).skip(1) =~= s);
}

} // verus!
