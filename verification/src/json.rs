//! JSON values, as requests carry them and answers are made of them.

use crate::text;
use vstd::prelude::*;
use vstd::string::*;

verus! {

/// A JSON value. A number that is no integer is kept as its text; the entries
/// of an object are kept in order.
#[derive(Debug, PartialEq, Eq)]
pub enum Json {
    Null,
    Bool(bool),
    Int(i128),
    Real(String),
    Str(String),
    Arr(Vec<Json>),
    Obj(Vec<Field>),
}

/// An entry of an object.
#[derive(Debug, PartialEq, Eq)]
pub struct Field {
    pub key: String,
    pub value: Json,
}

/// The mathematical value of a [`Json`].
pub enum JsonView {
    Null,
    Bool(bool),
    Int(int),
    Real(Seq<char>),
    Str(Seq<char>),
    Arr(Seq<JsonView>),
    Obj(Seq<FieldView>),
}

/// The mathematical value of a [`Field`].
pub struct FieldView {
    pub key: Seq<char>,
    pub value: JsonView,
}

impl View for Json {
    type V = JsonView;

    open spec fn view(&self) -> JsonView
        decreases self,
    {
        match self {
            Json::Null => JsonView::Null,
            Json::Bool(b) => JsonView::Bool(*b),
            Json::Int(n) => JsonView::Int(*n as int),
            Json::Real(s) => JsonView::Real(s@),
            Json::Str(s) => JsonView::Str(s@),
            Json::Arr(v) => JsonView::Arr(
                Seq::new(
                    v@.len(),
                    |i: int|
                        if 0 <= i < v@.len() {
                            v@[i].view()
                        } else {
                            JsonView::Null
                        },
                ),
            ),
            Json::Obj(v) => JsonView::Obj(
                Seq::new(
                    v@.len(),
                    |i: int|
                        if 0 <= i < v@.len() {
                            FieldView { key: v@[i].key@, value: v@[i].value.view() }
                        } else {
                            FieldView { key: Seq::empty(), value: JsonView::Null }
                        },
                ),
            ),
        }
    }
}

/// The values of a list of entries.
pub open spec fn fields_view(v: Seq<Field>) -> Seq<FieldView> {
    v.map_values(|e: Field| FieldView { key: e.key@, value: e.value@ })
}

/// The values of a list of values.
pub open spec fn items_view(v: Seq<Json>) -> Seq<JsonView> {
    v.map_values(|j: Json| j@)
}

/// The value under the first entry with a key.
pub open spec fn lookup(fields: Seq<FieldView>, key: Seq<char>) -> Option<JsonView>
    decreases fields.len(),
{
    if fields.len() == 0 {
        None
    } else if fields[0].key == key {
        Some(fields[0].value)
    } else {
        lookup(fields.drop_first(), key)
    }
}

impl JsonView {
    /// The value under a key; only objects have any.
    pub open spec fn field(self, key: Seq<char>) -> Option<JsonView> {
        match self {
            JsonView::Obj(fields) => lookup(fields, key),
            _ => None,
        }
    }

    /// The text of a string.
    pub open spec fn text(self) -> Option<Seq<char>> {
        match self {
            JsonView::Str(s) => Some(s),
            _ => None,
        }
    }

    /// An integer that fits 64 bits with a sign.
    pub open spec fn signed(self) -> Option<int> {
        match self {
            JsonView::Int(n) => if i64::MIN <= n <= i64::MAX {
                Some(n)
            } else {
                None
            },
            _ => None,
        }
    }

    /// An integer that fits 64 bits without a sign.
    pub open spec fn unsigned(self) -> Option<int> {
        match self {
            JsonView::Int(n) => if 0 <= n <= u64::MAX {
                Some(n)
            } else {
                None
            },
            _ => None,
        }
    }
}

/// The value of an object is made of the values of its entries.
pub proof fn lemma_object(v: Vec<Field>)
    ensures
        Json::Obj(v)@ == JsonView::Obj(fields_view(v@)),
{
    let j = Json::Obj(v);
    let f = j@->Obj_0;
    assert forall|i: int| 0 <= i < v@.len() implies f[i] == fields_view(v@)[i] by {
        assert(f[i].key == v@[i].key@);
        assert(f[i].value == v@[i].value@);
    }
    assert(f =~= fields_view(v@));
}

/// A string.
pub fn string(s: &str) -> (r: Json)
    ensures
        r@ == JsonView::Str(s@),
{
    Json::Str(s.to_owned())
}

/// An integer.
pub fn integer(n: i64) -> (r: Json)
    ensures
        r@ == JsonView::Int(n as int),
{
    Json::Int(n as i128)
}

/// An object.
pub fn object(fields: Vec<Field>) -> (r: Json)
    ensures
        r@ == JsonView::Obj(fields_view(fields@)),
{
    proof {
        lemma_object(fields);
    }
    Json::Obj(fields)
}

/// An array.
pub fn array(items: Vec<Json>) -> (r: Json)
    ensures
        r@ == JsonView::Arr(items_view(items@)),
{
    let ghost v = items@;
    let r: Json = Json::Arr(items);
    assert(r@ is Arr && r@->Arr_0 =~= items_view(v));
    r
}

/// Adds an entry.
pub fn put(fields: &mut Vec<Field>, key: &str, value: Json)
    ensures
        fields_view(final(fields)@) == fields_view(old(fields)@).push(FieldView { key: key@, value: value@ }),
{
    fields.push(Field { key: key.to_owned(), value });
    assert(fields_view(fields@) =~= fields_view(old(fields)@).push(FieldView { key: key@, value: value@ }));
}

/// No entries.
pub fn no_fields() -> (r: Vec<Field>)
    ensures
        fields_view(r@) == Seq::<FieldView>::empty(),
{
    let r: Vec<Field> = Vec::new();
    assert(fields_view(r@) =~= Seq::<FieldView>::empty());
    r
}

impl Json {
    /// The value under a key.
    pub fn get(&self, key: &str) -> (r: Option<&Json>)
        ensures
            match r {
                Some(j) => self@.field(key@) == Some(j@),
                None => self@.field(key@) is None,
            },
    {
        match self {
            Json::Obj(fields) => {
                let ghost all = fields_view(fields@);
                proof {
                    lemma_object(*fields);
                }
                let mut i: usize = 0;
                assert(all.skip(0) =~= all);
                while i < fields.len()
                    invariant
                        i <= fields@.len(),
                        all == fields_view(fields@),
                        self@ == JsonView::Obj(all),
                        lookup(all, key@) == lookup(all.skip(i as int), key@),
                    decreases fields.len() - i,
                {
                    assert(all.skip(i as int)[0] == all[i as int]);
                    if text::same(fields[i].key.as_str(), key) {
                        return Some(&fields[i].value);
                    }
                    assert(all.skip(i as int).drop_first() =~= all.skip(i as int + 1));
                    i += 1;
                }
                None
            },
            _ => None,
        }
    }

    /// The text of a string.
    pub fn as_str(&self) -> (r: Option<&str>)
        ensures
            text::opt_str(r) == self@.text(),
    {
        match self {
            Json::Str(s) => Some(s.as_str()),
            _ => None,
        }
    }

    /// An integer that fits 64 bits with a sign.
    pub fn as_i64(&self) -> (r: Option<i64>)
        ensures
            match self@.signed() {
                Some(n) => r == Some(n as i64),
                None => r is None,
            },
    {
        match self {
            Json::Int(n) => if *n >= i64::MIN as i128 && *n <= i64::MAX as i128 {
                Some(*n as i64)
            } else {
                None
            },
            _ => None,
        }
    }

    /// An integer that fits 64 bits without a sign.
    pub fn as_u64(&self) -> (r: Option<u64>)
        ensures
            match self@.unsigned() {
                Some(n) => r == Some(n as u64),
                None => r is None,
            },
    {
        match self {
            Json::Int(n) => if *n >= 0 && *n <= u64::MAX as i128 {
                Some(*n as u64)
            } else {
                None
            },
            _ => None,
        }
    }
}

impl Clone for Json {
    fn clone(&self) -> (r: Json)
        ensures
            r@ == self@,
        decreases self,
    {
        match self {
            Json::Null => Json::Null,
            Json::Bool(b) => Json::Bool(*b),
            Json::Int(n) => Json::Int(*n),
            Json::Real(s) => Json::Real(s.clone()),
            Json::Str(s) => Json::Str(s.clone()),
            Json::Arr(v) => {
                let mut out: Vec<Json> = Vec::new();
                let mut i: usize = 0;
                while i < v.len()
                    invariant
                        *self == Json::Arr(*v),
                        i <= v@.len(),
                        out@.len() == i,
                        forall|k: int| 0 <= k < i ==> (#[trigger] out@[k])@ == v@[k]@,
                    decreases v.len() - i,
                {
                    assert(decreases_to!(*self => self->Arr_0@));
                    assert(decreases_to!(v@ => v@[i as int]));
                    let item: Json = v[i].clone();
                    out.push(item);
                    i += 1;
                }
                assert(items_view(out@) =~= items_view(v@));
                proof {
                    assert(self@->Arr_0 =~= items_view(v@));
                }
                array(out)
            },
            Json::Obj(v) => {
                let mut out: Vec<Field> = Vec::new();
                let mut i: usize = 0;
                while i < v.len()
                    invariant
                        *self == Json::Obj(*v),
                        i <= v@.len(),
                        out@.len() == i,
                        forall|k: int|
                            0 <= k < i ==> (#[trigger] out@[k]).key@ == v@[k].key@
                                && out@[k].value@ == v@[k].value@,
                    decreases v.len() - i,
                {
                    assert(decreases_to!(*self => self->Obj_0@));
                    assert(decreases_to!(v@ => v@[i as int]));
                    assert(decreases_to!(v@[i as int] => v@[i as int].value));
                    let key: String = v[i].key.clone();
                    let value: Json = v[i].value.clone();
                    out.push(Field { key, value });
                    i += 1;
                }
                proof {
                    lemma_object(*v);
                }
                assert(fields_view(out@) =~= fields_view(v@));
                object(out)
            },
        }
    }
}

/// The value under a key is that of the first entry with the key; entries with other
/// keys make no difference, and a key that no entry has is under nothing.
pub proof fn law_first_entry_counts(
    before: Seq<FieldView>,
    e: FieldView,
    after: Seq<FieldView>,
    key: Seq<char>,
)
    requires
        forall|i: int| 0 <= i < before.len() ==> (#[trigger] before[i]).key != key,
    ensures
        e.key == key ==> JsonView::Obj(before + seq![e] + after).field(key) == Some(e.value),
        e.key != key ==> JsonView::Obj(before + seq![e] + after).field(key) == JsonView::Obj(
            after,
        ).field(key),
        JsonView::Obj(before).field(key) is None,
    decreases before.len(),
{
    let all = before + seq![e] + after;
    if before.len() == 0 {
        assert(all[0] == e);
        assert(all.drop_first() =~= after);
    } else {
        let rest = before.drop_first();
        assert forall|i: int| 0 <= i < rest.len() implies (#[trigger] rest[i]).key != key by {
            assert(rest[i] == before[i + 1]);
        }
        law_first_entry_counts(rest, e, after, key);
        assert(all[0] == before[0]);
        assert(all.drop_first() =~= rest + seq![e] + after);
    }
}

/// What values can be read as: strings as texts, and integers as numbers as far as they
/// fit; nothing else as either.
pub proof fn law_values_are_read_by_kind(j: JsonView)
    ensures
        j.text() is Some <==> j is Str,
        j is Str ==> j.text() == Some(j->Str_0),
        j.signed() is Some <==> j is Int && -0x8000_0000_0000_0000 <= j->Int_0
            <= 0x7fff_ffff_ffff_ffff,
        j.signed() matches Some(n) ==> j == JsonView::Int(n),
        j.unsigned() is Some <==> j is Int && 0 <= j->Int_0 <= 0xffff_ffff_ffff_ffff,
        j.unsigned() matches Some(n) ==> j == JsonView::Int(n),
        !(j is Obj) ==> forall|key: Seq<char>| (#[trigger] j.field(key)) is None,
{
}

} // verus!
