//! Text helpers: trimming, splitting, and decimal numbers.
//!
//! Text is modelled as the sequence of its characters.

use vstd::prelude::*;
use vstd::string::*;
use vstd::utf8::*;

verus! {

/// Appends one character: `String::push` leaves the text with the character
/// added at its end.
pub assume_specification[ String::push ](s: &mut String, c: char)
    ensures
        final(s)@ == old(s)@.push(c),
;

/// The characters with the Unicode property `White_Space`.
pub open spec fn is_white(c: char) -> bool {
    ||| '\u{9}' <= c <= '\u{d}'
    ||| c == ' '
    ||| c == '\u{85}'
    ||| c == '\u{a0}'
    ||| c == '\u{1680}'
    ||| '\u{2000}' <= c <= '\u{200a}'
    ||| c == '\u{2028}'
    ||| c == '\u{2029}'
    ||| c == '\u{202f}'
    ||| c == '\u{205f}'
    ||| c == '\u{3000}'
}

/// Whether `c` is white space.
pub fn is_whitespace(c: char) -> (r: bool)
    ensures
        r == is_white(c),
{
    ('\u{9}' <= c && c <= '\u{d}') || c == ' ' || c == '\u{85}' || c == '\u{a0}' || c == '\u{1680}'
        || ('\u{2000}' <= c && c <= '\u{200a}') || c == '\u{2028}' || c == '\u{2029}'
        || c == '\u{202f}' || c == '\u{205f}' || c == '\u{3000}'
}

/// `s` without its leading white space.
pub open spec fn trim_start(s: Seq<char>) -> Seq<char>
    decreases s.len(),
{
    if s.len() > 0 && is_white(s[0]) {
        trim_start(s.drop_first())
    } else {
        s
    }
}

/// `s` without its trailing white space.
pub open spec fn trim_end(s: Seq<char>) -> Seq<char>
    decreases s.len(),
{
    if s.len() > 0 && is_white(s.last()) {
        trim_end(s.drop_last())
    } else {
        s
    }
}

/// `s` without the white space around it.
pub open spec fn trimmed(s: Seq<char>) -> Seq<char> {
    trim_end(trim_start(s))
}

/// Trimming leaves no white space at either end.
pub proof fn lemma_trimmed_ends(s: Seq<char>)
    ensures
        trimmed(s).len() > 0 ==> !is_white(trimmed(s)[0]) && !is_white(trimmed(s).last()),
        trimmed(s).len() <= s.len(),
{
    lemma_trim_start_first(s);
    lemma_trim_end_ends(trim_start(s));
}

proof fn lemma_trim_start_first(s: Seq<char>)
    ensures
        trim_start(s).len() > 0 ==> !is_white(trim_start(s)[0]),
        trim_start(s).len() <= s.len(),
    decreases s.len(),
{
    if s.len() > 0 && is_white(s[0]) {
        lemma_trim_start_first(s.drop_first());
    }
}

proof fn lemma_trim_end_ends(s: Seq<char>)
    ensures
        trim_end(s).len() > 0 ==> !is_white(trim_end(s).last()) && trim_end(s)[0] == s[0],
        trim_end(s).len() <= s.len(),
    decreases s.len(),
{
    if s.len() > 0 && is_white(s.last()) {
        lemma_trim_end_ends(s.drop_last());
    }
}

/// Trimming twice is trimming once.
pub proof fn lemma_trimmed_idempotent(s: Seq<char>)
    ensures
        trimmed(trimmed(s)) == trimmed(s),
{
    lemma_trimmed_ends(s);
    let t = trimmed(s);
    assert(trim_start(t) == t);
    assert(trim_end(t) == t);
}

/// The characters of `s`.
pub fn chars_of(s: &str) -> (v: Vec<char>)
    ensures
        v@ == s@,
{
    let mut v: Vec<char> = Vec::new();
    for c in it: s.chars()
        invariant
            v@ == s@.take(it.index() as int),
            it.seq() == s@,
    {
        v.push(c);
    }
    assert(s@.take(s@.len() as int) == s@);
    v
}

/// Whether two texts are the same.
pub fn same(a: &str, b: &str) -> (r: bool)
    ensures
        r == (a@ == b@),
{
    let x: &[u8] = a.as_bytes();
    let y: &[u8] = b.as_bytes();
    proof {
        encode_utf8_decode_utf8(a@);
        encode_utf8_decode_utf8(b@);
    }
    if x.len() != y.len() {
        return false;
    }
    let mut i: usize = 0;
    while i < x.len()
        invariant
            i <= x.len(),
            x@.len() == y@.len(),
            x@ == encode_utf8(a@),
            y@ == encode_utf8(b@),
            forall|j: int| 0 <= j < i ==> x@[j] == y@[j],
        decreases x.len() - i,
    {
        if x[i] != y[i] {
            return false;
        }
        i += 1;
    }
    assert(x@ == y@);
    true
}

/// `s` without the white space around it.
pub fn trim(s: &str) -> (r: &str)
    ensures
        r@ == trimmed(s@),
{
    let v: Vec<char> = chars_of(s);
    let n: usize = v.len();
    let mut i: usize = 0;
    assert(s@.skip(0) == s@);
    while i < n && is_whitespace(v[i])
        invariant
            i <= n,
            n == v@.len(),
            v@ == s@,
            trim_start(s@) == trim_start(s@.skip(i as int)),
        decreases n - i,
    {
        assert(s@.skip(i as int).drop_first() == s@.skip(i as int + 1));
        i += 1;
    }
    let ghost t = s@.skip(i as int);
    assert(trim_start(s@) == t);
    let mut j: usize = n;
    assert(t.take(t.len() as int) == t);
    while i < j && is_whitespace(v[j - 1])
        invariant
            i <= j <= n,
            n == v@.len(),
            v@ == s@,
            t == s@.skip(i as int),
            trim_end(t) == trim_end(t.take(j - i)),
        decreases j,
    {
        assert(t.take(j - i).drop_last() == t.take(j - i - 1));
        j -= 1;
    }
    assert(t.take(j - i) == s@.subrange(i as int, j as int));
    s.substring_char(i, j)
}

/// The index of the first character of `s` that satisfies `f`, or the length
/// of `s` when none does.
pub open spec fn first_where(s: Seq<char>, f: spec_fn(char) -> bool) -> nat
    decreases s.len(),
{
    if s.len() == 0 || f(s[0]) {
        0
    } else {
        1 + first_where(s.drop_first(), f)
    }
}

/// What the first index means: everything before it fails `f`, and what stands
/// there, if anything, satisfies it.
pub proof fn lemma_first_where(s: Seq<char>, f: spec_fn(char) -> bool)
    ensures
        first_where(s, f) <= s.len(),
        forall|i: int| 0 <= i < first_where(s, f) ==> !f(#[trigger] s[i]),
        first_where(s, f) < s.len() ==> f(s[first_where(s, f) as int]),
    decreases s.len(),
{
    if s.len() > 0 && !f(s[0]) {
        let r = s.drop_first();
        lemma_first_where(r, f);
        assert forall|i: int| 0 <= i < first_where(s, f) implies !f(#[trigger] s[i]) by {
            if i > 0 {
                assert(s[i] == r[i - 1]);
            }
        }
    }
}

/// The only index with those properties is the first one.
pub proof fn lemma_first_where_unique(s: Seq<char>, f: spec_fn(char) -> bool, k: nat)
    requires
        k <= s.len(),
        forall|i: int| 0 <= i < k ==> !f(#[trigger] s[i]),
        k < s.len() ==> f(s[k as int]),
    ensures
        first_where(s, f) == k,
{
    lemma_first_where(s, f);
    let m = first_where(s, f);
    if m < k {
        assert(!f(s[m as int]));
    } else if k < m {
        assert(!f(s[k as int]));
    }
}

/// The length of the leading word of `s`: the characters before the first
/// white space.
pub open spec fn word_len(s: Seq<char>) -> nat {
    first_where(s, |c: char| is_white(c))
}

/// Being `sep`.
pub open spec fn is_sep(sep: char) -> spec_fn(char) -> bool {
    |c: char| c == sep
}

/// The length of what precedes the first `sep` in `s`.
pub open spec fn len_before(s: Seq<char>, sep: char) -> nat {
    first_where(s, is_sep(sep))
}

/// The leading word of `s`.
pub fn first_word(s: &str) -> (r: &str)
    ensures
        r@ == s@.take(word_len(s@) as int),
        word_len(s@) <= s@.len(),
{
    let v: Vec<char> = chars_of(s);
    let mut i: usize = 0;
    while i < v.len() && !is_whitespace(v[i])
        invariant
            i <= v@.len(),
            v@ == s@,
            forall|j: int| 0 <= j < i ==> !is_white(#[trigger] s@[j]),
        decreases v.len() - i,
    {
        i += 1;
    }
    proof {
        lemma_first_where_unique(s@, |c: char| is_white(c), i as nat);
    }
    s.substring_char(0, i)
}

/// The parts of `s` before and after its first `sep`, if it has one.
pub fn split_once(s: &str, sep: char) -> (r: Option<(&str, &str)>)
    ensures
        len_before(s@, sep) <= s@.len(),
        match r {
            Some((a, b)) => {
                &&& len_before(s@, sep) < s@.len()
                &&& a@ == s@.take(len_before(s@, sep) as int)
                &&& b@ == s@.skip(len_before(s@, sep) as int + 1)
            },
            None => len_before(s@, sep) == s@.len(),
        },
{
    let v: Vec<char> = chars_of(s);
    let mut i: usize = 0;
    while i < v.len() && v[i] != sep
        invariant
            i <= v@.len(),
            v@ == s@,
            forall|j: int| 0 <= j < i ==> #[trigger] s@[j] != sep,
        decreases v.len() - i,
    {
        i += 1;
    }
    proof {
        lemma_first_where_unique(s@, is_sep(sep), i as nat);
    }
    if i == v.len() {
        None
    } else {
        let b: &str = s.substring_char(i + 1, v.len());
        assert(b@ == s@.skip(i as int + 1));
        Some((s.substring_char(0, i), b))
    }
}

/// `s` without the prefix `p`, if it has it.
pub fn strip_prefix<'a>(s: &'a str, p: &str) -> (r: Option<&'a str>)
    ensures
        match r {
            Some(t) => p@.is_prefix_of(s@) && t@ == s@.skip(p@.len() as int),
            None => !p@.is_prefix_of(s@),
        },
{
    let v: Vec<char> = chars_of(s);
    let w: Vec<char> = chars_of(p);
    if v.len() < w.len() {
        return None;
    }
    let mut i: usize = 0;
    while i < w.len()
        invariant
            i <= w@.len() <= v@.len(),
            v@ == s@,
            w@ == p@,
            forall|j: int| 0 <= j < i ==> v@[j] == w@[j],
        decreases w.len() - i,
    {
        if v[i] != w[i] {
            assert(s@.subrange(0, p@.len() as int)[i as int] == s@[i as int]);
            return None;
        }
        i += 1;
    }
    assert(p@ == s@.subrange(0, p@.len() as int));
    let t: &str = s.substring_char(i, v.len());
    assert(t@ == s@.skip(p@.len() as int));
    Some(t)
}

/// Whether `s` begins with `p`.
pub fn starts_with(s: &str, p: &str) -> (r: bool)
    ensures
        r == p@.is_prefix_of(s@),
{
    strip_prefix(s, p).is_some()
}

/// `s` without its first `n` characters.
pub fn skip_chars(s: &str, n: usize) -> (r: &str)
    requires
        n <= s@.len(),
    ensures
        r@ == s@.skip(n as int),
{
    let len: usize = s.unicode_len();
    let r: &str = s.substring_char(n, len);
    assert(r@ == s@.skip(n as int));
    r
}

/// The first `n` characters of `s`, or all of them when there are fewer.
pub open spec fn head(s: Seq<char>, n: nat) -> Seq<char> {
    if s.len() <= n {
        s
    } else {
        s.take(n as int)
    }
}

/// The first `n` characters of `s`, or all of them when there are fewer.
pub fn take_chars(s: &str, n: usize) -> (r: &str)
    ensures
        r@ == head(s@, n as nat),
{
    let len: usize = s.unicode_len();
    if len <= n {
        s
    } else {
        s.substring_char(0, n)
    }
}

/// The decimal digit of `d`.
pub open spec fn digit(d: int) -> char {
    (48 + d) as char
}

/// `n` in decimal.
pub open spec fn nat_text(n: nat) -> Seq<char>
    decreases n,
{
    if n < 10 {
        seq![digit(n as int)]
    } else {
        nat_text(n / 10).push(digit((n % 10) as int))
    }
}

/// `n` in decimal, with a leading minus sign where it is negative.
pub open spec fn int_text(n: int) -> Seq<char> {
    if n < 0 {
        seq!['-'] + nat_text((-n) as nat)
    } else {
        nat_text(n as nat)
    }
}

/// Appends `n` in decimal.
pub fn push_u64(out: &mut String, n: u64)
    ensures
        final(out)@ == old(out)@ + nat_text(n as nat),
    decreases n,
{
    if n >= 10 {
        push_u64(out, n / 10);
    }
    let d: u8 = (n % 10) as u8;
    out.push((48u8 + d) as char);
    assert(out@ == old(out)@ + nat_text(n as nat));
}

/// Appends `n` in decimal.
pub fn push_i64(out: &mut String, n: i64)
    ensures
        final(out)@ == old(out)@ + int_text(n as int),
{
    if n < 0 {
        out.push('-');
        let m: u64 = if n == i64::MIN {
            9223372036854775808
        } else {
            (-n) as u64
        };
        push_u64(out, m);
        assert(out@ == old(out)@ + int_text(n as int));
    } else {
        push_u64(out, n as u64);
    }
}

/// Whether `c` is a decimal digit.
pub open spec fn is_digit(c: char) -> bool {
    '0' <= c <= '9'
}

/// Whether `s` holds nothing but decimal digits, and at least one.
pub open spec fn is_digits(s: Seq<char>) -> bool {
    s.len() > 0 && forall|i: int| 0 <= i < s.len() ==> is_digit(#[trigger] s[i])
}

/// The number that the digits `s` stand for.
pub open spec fn digits_value(s: Seq<char>) -> nat
    decreases s.len(),
{
    if s.len() == 0 {
        0
    } else {
        digits_value(s.drop_last()) * 10 + (s.last() as int - 48) as nat
    }
}

proof fn lemma_digits_value_grows(s: Seq<char>, i: int)
    requires
        is_digits(s),
        0 <= i <= s.len(),
    ensures
        digits_value(s.take(i)) <= digits_value(s),
    decreases s.len() - i,
{
    if i < s.len() {
        assert(s.take(i + 1).drop_last() == s.take(i));
        lemma_digits_value_grows(s, i + 1);
    } else {
        assert(s.take(i) == s);
    }
}

/// The number up to `max` written from position `from` on, if there is one.
pub open spec fn number_from(s: Seq<char>, from: int, max: nat) -> Option<nat> {
    let t = s.skip(from);
    if is_digits(t) && digits_value(t) <= max {
        Some(digits_value(t))
    } else {
        None
    }
}

fn parse_digits(v: &Vec<char>, from: usize, max: u64) -> (r: Option<u64>)
    requires
        from <= v@.len(),
    ensures
        match number_from(v@, from as int, max as nat) {
            Some(n) => r == Some(n as u64),
            None => r is None,
        },
{
    let ghost t = v@.skip(from as int);
    if from == v.len() {
        return None;
    }
    let mut i: usize = from;
    let mut acc: u128 = 0;
    while i < v.len()
        invariant
            from <= i <= v@.len(),
            t == v@.skip(from as int),
            acc == digits_value(t.take(i - from)),
            acc <= max,
            forall|j: int| 0 <= j < i - from ==> is_digit(#[trigger] t[j]),
        decreases v.len() - i,
    {
        let c: char = v[i];
        assert(c == t[i - from]);
        if c < '0' || c > '9' {
            return None;
        }
        let d: u32 = (c as u32) - 48;
        assert(t.take(i - from + 1).drop_last() == t.take(i - from));
        acc = acc * 10 + d as u128;
        if acc > max as u128 {
            proof {
                if is_digits(t) {
                    lemma_digits_value_grows(t, i - from + 1);
                }
            }
            return None;
        }
        i += 1;
    }
    assert(t.take(t.len() as int) == t);
    Some(acc as u64)
}

/// What `s` reads as an unsigned number up to `max`: decimal digits, with an
/// optional plus sign before them.
pub open spec fn unsigned_value(s: Seq<char>, max: nat) -> Option<nat> {
    if s.len() > 0 && s[0] == '+' {
        number_from(s, 1, max)
    } else {
        number_from(s, 0, max)
    }
}

/// What `s` reads as a 64-bit signed number: decimal digits, with an optional
/// sign before them.
pub open spec fn signed_value(s: Seq<char>) -> Option<int> {
    if s.len() > 0 && s[0] == '-' {
        match number_from(s, 1, 0x8000_0000_0000_0000) {
            Some(n) => Some(-(n as int)),
            None => None,
        }
    } else {
        match unsigned_value(s, 0x7fff_ffff_ffff_ffff) {
            Some(n) => Some(n as int),
            None => None,
        }
    }
}

/// Reads an unsigned number.
pub fn parse_usize(s: &str) -> (r: Option<usize>)
    ensures
        match unsigned_value(s@, usize::MAX as nat) {
            Some(n) => r == Some(n as usize),
            None => r is None,
        },
{
    let v: Vec<char> = chars_of(s);
    let from: usize = if v.len() > 0 && v[0] == '+' {
        1
    } else {
        0
    };
    match parse_digits(&v, from, usize::MAX as u64) {
        Some(n) => Some(n as usize),
        None => None,
    }
}

/// Reads a signed number.
pub fn parse_i64(s: &str) -> (r: Option<i64>)
    ensures
        match signed_value(s@) {
            Some(n) => r == Some(n as i64),
            None => r is None,
        },
{
    let v: Vec<char> = chars_of(s);
    if v.len() > 0 && v[0] == '-' {
        match parse_digits(&v, 1, 0x8000_0000_0000_0000) {
            Some(n) => if n == 0x8000_0000_0000_0000 {
                Some(i64::MIN)
            } else {
                Some(-(n as i64))
            },
            None => None,
        }
    } else {
        let from: usize = if v.len() > 0 && v[0] == '+' {
            1
        } else {
            0
        };
        match parse_digits(&v, from, 0x7fff_ffff_ffff_ffff) {
            Some(n) => Some(n as i64),
            None => None,
        }
    }
}

/// A number reads back from its decimal text.
pub proof fn lemma_nat_text_reads_back(n: nat)
    ensures
        is_digits(nat_text(n)),
        digits_value(nat_text(n)) == n,
    decreases n,
{
    if n < 10 {
        let s = nat_text(n);
        assert(s.drop_last() == Seq::<char>::empty());
        assert(digits_value(s.drop_last()) == 0);
    } else {
        lemma_nat_text_reads_back(n / 10);
        let s = nat_text(n);
        assert(s.drop_last() == nat_text(n / 10));
    }
}

/// `c` with the letters A to Z in lower case.
pub open spec fn lower_char(c: char) -> char {
    if 'A' <= c <= 'Z' {
        (c as int + 32) as char
    } else {
        c
    }
}

/// `s` with the letters A to Z in lower case.
pub open spec fn lowered(s: Seq<char>) -> Seq<char> {
    s.map_values(|c: char| lower_char(c))
}

/// `s` with the letters A to Z in lower case.
pub fn lower(s: &str) -> (r: String)
    ensures
        r@ == lowered(s@),
{
    let mut r: String = String::new();
    for c in it: s.chars()
        invariant
            r@ == lowered(s@.take(it.index() as int)),
            it.seq() == s@,
    {
        assert(s@.take(it.index() as int + 1) == s@.take(it.index() as int).push(c));
        assert(lowered(s@.take(it.index() as int + 1)) == lowered(s@.take(it.index() as int)).push(lower_char(c)));
        if 'A' <= c && c <= 'Z' {
            let b: u8 = c as u8;
            r.push((b + 32) as char);
        } else {
            r.push(c);
        }
    }
    assert(s@.take(s@.len() as int) == s@);
    r
}

/// The text in an optional string.
pub open spec fn opt_text(s: Option<String>) -> Option<Seq<char>> {
    match s {
        Some(t) => Some(t@),
        None => None,
    }
}

/// The text in an optional string slice.
pub open spec fn opt_str(s: Option<&str>) -> Option<Seq<char>> {
    match s {
        Some(t) => Some(t@),
        None => None,
    }
}

/// A copy of an optional string.
pub fn clone_opt(s: &Option<String>) -> (r: Option<String>)
    ensures
        r == *s,
{
    match s {
        Some(t) => Some(t.clone()),
        None => None,
    }
}

/// An optional string slice as an owned string.
pub fn own_opt(s: Option<&str>) -> (r: Option<String>)
    ensures
        opt_text(r) == opt_str(s),
{
    match s {
        Some(t) => Some(t.to_owned()),
        None => None,
    }
}

/// The number of bytes of `s`.
pub open spec fn byte_len(s: Seq<char>) -> nat {
    encode_utf8(s).len()
}

/// The number of bytes of `s`.
pub fn bytes_in(s: &str) -> (n: usize)
    ensures
        n == byte_len(s@),
{
    s.as_bytes().len()
}

/// How many characters of `s`, from `k` on, can be added to the first `k` before
/// they take more than `max` bytes; `k` included.
pub open spec fn fitting(s: Seq<char>, max: nat, k: nat) -> nat
    decreases s.len() - k,
{
    if k < s.len() && byte_len(head(s, k + 1)) <= max {
        fitting(s, max, k + 1)
    } else {
        k
    }
}

/// The longest beginning of `s` that takes at most `max` bytes.
pub open spec fn byte_head(s: Seq<char>, max: nat) -> Seq<char> {
    head(s, fitting(s, max, 0))
}

/// The longest beginning of `s` that takes at most `max` bytes.
pub fn take_bytes(s: &str, max: usize) -> (r: &str)
    ensures
        r@ == byte_head(s@, max as nat),
{
    let n: usize = s.unicode_len();
    let mut k: usize = 0;
    while k < n && bytes_in(take_chars(s, k + 1)) <= max
        invariant
            k <= n,
            n == s@.len(),
            fitting(s@, max as nat, k as nat) == fitting(s@, max as nat, 0),
        decreases n - k,
    {
        k += 1;
    }
    take_chars(s, k)
}

/// A text that is not empty takes at least one byte.
pub proof fn lemma_some_bytes(s: Seq<char>)
    ensures
        byte_len(s) == 0 <==> s.len() == 0,
{
    if s.len() == 0 {
        assert(encode_utf8(s).len() == 0);
    } else {
        assert(encode_utf8(s).len() > 0);
    }
}

/// Trimming takes away the white space around a text and nothing else.
pub proof fn law_trimming_takes_the_middle(a: Seq<char>, s: Seq<char>, b: Seq<char>)
    requires
        forall|i: int| 0 <= i < a.len() ==> is_white(#[trigger] a[i]),
        forall|i: int| 0 <= i < b.len() ==> is_white(#[trigger] b[i]),
        s.len() > 0 ==> !is_white(s[0]) && !is_white(s.last()),
    ensures
        trimmed(a + s + b) == s,
    decreases a.len() + b.len(),
{
    if a.len() > 0 {
        let rest = a.drop_first();
        assert forall|i: int| 0 <= i < rest.len() implies is_white(#[trigger] rest[i]) by {
            assert(rest[i] == a[i + 1]);
        }
        law_trimming_takes_the_middle(rest, s, b);
        assert((a + s + b)[0] == a[0]);
        assert((a + s + b).drop_first() =~= rest + s + b);
    } else if s.len() == 0 && b.len() > 0 {
        let rest = b.drop_first();
        assert forall|i: int| 0 <= i < rest.len() implies is_white(#[trigger] rest[i]) by {
            assert(rest[i] == b[i + 1]);
        }
        law_trimming_takes_the_middle(a, s, rest);
        assert((a + s + b)[0] == b[0]);
        assert((a + s + b).drop_first() =~= a + s + rest);
    } else if b.len() > 0 {
        let rest = b.drop_last();
        assert forall|i: int| 0 <= i < rest.len() implies is_white(#[trigger] rest[i]) by {
            assert(rest[i] == b[i]);
        }
        law_trimming_takes_the_middle(a, s, rest);
        let whole = a + s + b;
        assert(whole[0] == s[0]);
        assert(trim_start(whole) == whole);
        assert((a + s + rest)[0] == s[0]);
        assert(trim_start(a + s + rest) == a + s + rest);
        assert(whole.last() == b.last());
        assert(b.last() == b[b.len() - 1]);
        assert(whole.drop_last() =~= a + s + rest);
    } else {
        assert(a + s + b =~= s);
        if s.len() > 0 {
            assert(trim_start(s) == s);
        }
    }
}

/// Blanks, tabs, the ends of lines and the wide blank are white space; what is
/// printed in ASCII is not.
pub proof fn law_white_space(c: char)
    ensures
        c == ' ' || c == '\t' || c == '\n' || c == '\r' || c == '\u{3000}' || c == '\u{a0}'
            ==> is_white(c),
        '!' <= c <= '~' ==> !is_white(c),
        '\u{4e00}' <= c <= '\u{9fff}' ==> !is_white(c),
{
}

/// The first word ends where white space begins.
pub proof fn law_first_word_ends_at_white_space(word: Seq<char>, rest: Seq<char>)
    requires
        forall|i: int| 0 <= i < word.len() ==> !is_white(#[trigger] word[i]),
        rest.len() > 0 ==> is_white(rest[0]),
    ensures
        word_len(word + rest) == word.len(),
{
    let f = |c: char| is_white(c);
    let s = word + rest;
    assert forall|i: int| 0 <= i < word.len() implies !f(#[trigger] s[i]) by {
        assert(s[i] == word[i]);
    }
    if rest.len() > 0 {
        assert(s[word.len() as int] == rest[0]);
    }
    lemma_first_where_unique(s, f, word.len());
}

/// What comes before the first `sep` holds none.
pub proof fn law_part_ends_at_separator(part: Seq<char>, rest: Seq<char>, sep: char)
    requires
        !part.contains(sep),
        rest.len() > 0 ==> rest[0] == sep,
    ensures
        len_before(part + rest, sep) == part.len(),
{
    let f = is_sep(sep);
    let s = part + rest;
    assert forall|i: int| 0 <= i < part.len() implies !f(#[trigger] s[i]) by {
        assert(s[i] == part[i]);
    }
    if rest.len() > 0 {
        assert(s[part.len() as int] == rest[0]);
    }
    lemma_first_where_unique(s, f, part.len());
}

/// A number in decimal reads back as the number, with or without a sign.
pub proof fn law_number_reads_back(n: int)
    requires
        i64::MIN <= n <= i64::MAX,
    ensures
        signed_value(int_text(n)) == Some(n),
        n >= 0 ==> signed_value(seq!['+'] + int_text(n)) == Some(n),
        n >= 0 ==> unsigned_value(int_text(n), i64::MAX as nat) == Some(n as nat),
{
    let m: nat = if n < 0 {
        (-n) as nat
    } else {
        n as nat
    };
    lemma_nat_text_reads_back(m);
    let t = nat_text(m);
    assert(t[0] != '+' && t[0] != '-') by {
        assert(is_digit(t[0]));
    }
    assert(t.skip(0) =~= t);
    assert((seq!['-'] + t).skip(1) =~= t);
    assert((seq!['+'] + t).skip(1) =~= t);
    assert((seq!['-'] + t)[0] == '-');
    assert((seq!['+'] + t)[0] == '+');
}

/// Lowering a text lowers the letters A to Z and leaves all else, in its place.
pub proof fn law_lowering(s: Seq<char>, i: int)
    requires
        0 <= i < s.len(),
    ensures
        lowered(s).len() == s.len(),
        'A' <= s[i] <= 'Z' ==> lowered(s)[i] as int - 'a' as int == s[i] as int - 'A' as int,
        !('A' <= s[i] <= 'Z') ==> lowered(s)[i] == s[i],
        lowered(lowered(s)) == lowered(s),
{
    assert forall|k: int| 0 <= k < s.len() implies lowered(lowered(s))[k] == lowered(s)[k] by {
        assert(lowered(s)[k] == lower_char(s[k]));
    }
    assert(lowered(lowered(s)) =~= lowered(s));
}

/// Cutting a text to `max` bytes keeps as much of its beginning as fits.
pub proof fn law_cut_keeps_what_fits(s: Seq<char>, max: nat)
    ensures
        byte_head(s, max).is_prefix_of(s),
        byte_len(byte_head(s, max)) <= max,
        byte_head(s, max) == s || byte_len(s.take(byte_head(s, max).len() as int + 1)) > max,
        byte_len(s) <= max ==> byte_head(s, max) == s,
{
    lemma_some_bytes(head(s, 0));
    lemma_fitting(s, max, 0);
    let k = fitting(s, max, 0) as int;
    assert(s.take(s.len() as int) =~= s);
    if k < s.len() {
        assert(head(s, (k + 1) as nat) =~= s.take(k + 1));
        lemma_prefix_bytes(s.take(k + 1), s.skip(k + 1));
        assert(s.take(k + 1) + s.skip(k + 1) =~= s);
    }
}

proof fn lemma_prefix_bytes(a: Seq<char>, b: Seq<char>)
    ensures
        byte_len(a) <= byte_len(a + b),
    decreases a.len(),
{
    if a.len() > 0 {
        lemma_prefix_bytes(a.drop_first(), b);
        assert((a + b).drop_first() =~= a.drop_first() + b);
        assert((a + b)[0] == a[0]);
    }
}

proof fn lemma_fitting(s: Seq<char>, max: nat, k: nat)
    requires
        k <= s.len(),
        byte_len(head(s, k)) <= max,
    ensures
        k <= fitting(s, max, k) <= s.len(),
        byte_len(head(s, fitting(s, max, k))) <= max,
        fitting(s, max, k) < s.len() ==> byte_len(head(s, fitting(s, max, k) + 1)) > max,
        head(s, fitting(s, max, k)) == s.take(fitting(s, max, k) as int),
    decreases s.len() - k,
{
    assert(s.take(s.len() as int) =~= s);
    if k < s.len() && byte_len(head(s, k + 1)) <= max {
        lemma_fitting(s, max, k + 1);
    }
}

} // verus!
