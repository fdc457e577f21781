//! A JSON document as the reply reader and the settings writer see it:
//! objects keep their members in order (a lookup finds the first member of a
//! name), numbers keep their text.

use vstd::prelude::*;
use crate::text::str_eq;

verus! {

/// A JSON value.
pub enum Json {
    Null,
    Bool(bool),
    /// A number, by its text.
    Number(String),
    Str(String),
    Array(Vec<Json>),
    /// An object's members, in order.
    Object(Vec<(String, Json)>),
}

/// The value of the first member named `key` among `fields`.
pub open spec fn lookup(fields: Seq<(String, Json)>, key: Seq<char>) -> Option<Json>
    decreases fields.len(),
{
    if fields.len() == 0 {
        None
    } else if fields[0].0@ == key {
        Some(fields[0].1)
    } else {
        lookup(fields.drop_first(), key)
    }
}

/// The member `key` of an object; nothing for any other value.
pub open spec fn spec_get(j: Json, key: Seq<char>) -> Option<Json> {
    match j {
        Json::Object(fields) => lookup(fields@, key),
        _ => None,
    }
}

/// `spec_get` of a value that may be missing.
pub open spec fn spec_get_opt(j: Option<Json>, key: Seq<char>) -> Option<Json> {
    match j {
        Some(v) => spec_get(v, key),
        None => None,
    }
}

/// The text of a string value.
pub open spec fn spec_as_str(j: Option<Json>) -> Option<Seq<char>> {
    match j {
        Some(Json::Str(s)) => Some(s@),
        _ => None,
    }
}

/// The first element of a non-empty array.
pub open spec fn spec_first(j: Option<Json>) -> Option<Json> {
    match j {
        Some(Json::Array(v)) => if v@.len() > 0 { Some(v@[0]) } else { None },
        _ => None,
    }
}

/// The member `key` of `j` where `j` is an object that has one.
pub fn get<'a>(j: &'a Json, key: &str) -> (res: Option<&'a Json>)
    ensures
        match res {
            Some(v) => spec_get(*j, key@) == Some(*v),
            None => spec_get(*j, key@) is None,
        },
{
    match j {
        Json::Object(fields) => {
            let mut i: usize = 0;
            assert(fields@.skip(0) =~= fields@);
            while i < fields.len()
                invariant
                    i <= fields.len(),
                    spec_get(*j, key@) == lookup(fields@, key@),
                    lookup(fields@, key@) == lookup(fields@.skip(i as int), key@),
                decreases fields.len() - i,
            {
                assert(fields@.skip(i as int).drop_first() =~= fields@.skip(i + 1));
                assert(fields@.skip(i as int)[0] == fields@[i as int]);
                if str_eq(fields[i].0.as_str(), key) {
                    return Some(&fields[i].1);
                }
                i = i + 1;
            }
            None
        },
        _ => None,
    }
}

/// `get` on a value that may be missing.
pub fn get_opt<'a>(j: Option<&'a Json>, key: &str) -> (res: Option<&'a Json>)
    ensures
        match res {
            Some(v) => spec_get_opt(match j { Some(x) => Some(*x), None => None }, key@) == Some(*v),
            None => spec_get_opt(match j { Some(x) => Some(*x), None => None }, key@) is None,
        },
{
    match j {
        Some(v) => get(v, key),
        None => None,
    }
}

/// The text of a string value.
pub fn as_str<'a>(j: Option<&'a Json>) -> (res: Option<&'a str>)
    ensures
        match res {
            Some(s) => spec_as_str(match j { Some(x) => Some(*x), None => None }) == Some(s@),
            None => spec_as_str(match j { Some(x) => Some(*x), None => None }) is None,
        },
{
    match j {
        Some(Json::Str(s)) => Some(s.as_str()),
        _ => None,
    }
}

/// The first element of a non-empty array.
pub fn first<'a>(j: Option<&'a Json>) -> (res: Option<&'a Json>)
    ensures
        match res {
            Some(v) => spec_first(match j { Some(x) => Some(*x), None => None }) == Some(*v),
            None => spec_first(match j { Some(x) => Some(*x), None => None }) is None,
        },
{
    match j {
        Some(Json::Array(v)) => {
            if v.len() > 0 {
                Some(&v[0])
            } else {
                None
            }
        },
        _ => None,
    }
}

/// The members of `fields` not named `key`, in order.
pub open spec fn without_key(fields: Seq<(String, Json)>, key: Seq<char>) -> Seq<(String, Json)>
    decreases fields.len(),
{
    if fields.len() == 0 {
        fields
    } else {
        let rest = without_key(fields.drop_first(), key);
        if fields[0].0@ == key { rest } else { seq![fields[0]] + rest }
    }
}

/// Leaving out the members named `key` hides no other member.
pub proof fn lemma_without_key(fields: Seq<(String, Json)>, key: Seq<char>, other: Seq<char>)
    ensures
        lookup(without_key(fields, key), key) is None,
        other != key ==> lookup(without_key(fields, key), other) == lookup(fields, other),
    decreases fields.len(),
{
    if fields.len() > 0 {
        lemma_without_key(fields.drop_first(), key, other);
        let rest = without_key(fields.drop_first(), key);
        if fields[0].0@ != key {
            assert((seq![fields[0]] + rest).drop_first() =~= rest);
        }
    }
}

/// A lookup in `fields` followed by one more member finds that member only
/// where no earlier one has its name.
pub proof fn lemma_lookup_push(fields: Seq<(String, Json)>, m: (String, Json), key: Seq<char>)
    ensures
        lookup(fields.push(m), key) == match lookup(fields, key) {
            Some(v) => Some(v),
            None => if m.0@ == key { Some(m.1) } else { None },
        },
    decreases fields.len(),
{
    if fields.len() > 0 {
        assert(fields.push(m).drop_first() =~= fields.drop_first().push(m));
        assert(fields.push(m)[0] == fields[0]);
        lemma_lookup_push(fields.drop_first(), m, key);
    } else {
        assert(fields.push(m)[0] == m);
        assert(fields.push(m).drop_first().len() == 0);
        assert(lookup(fields.push(m).drop_first(), key) is None);
        assert(lookup(fields, key) is None);
    }
}

/// Sets the member `key` of an object document to `value`: every member of
/// that name leaves, the new one goes last, the others stay in order.
/// Any other document comes back as it was.
pub fn with_member(doc: Json, key: &str, value: Json) -> (res: Json)
    ensures
        match doc {
            Json::Object(fields) => res matches Json::Object(out)
                && out@ == without_key(fields@, key@).push((out@.last().0, value))
                && out@.last().0@ == key@,
            _ => res == doc,
        },
{
    match doc {
        Json::Object(fields) => {
            let ghost orig = fields@;
            let mut rest = fields;
            let mut out: Vec<(String, Json)> = Vec::new();
            assert(orig.skip(orig.len() as int) =~= Seq::<(String, Json)>::empty());
            while rest.len() > 0
                invariant
                    rest@ == orig.take(rest.len() as int),
                    rest.len() <= orig.len(),
                    out@ == without_key(orig.skip(rest.len() as int), key@),
                decreases rest.len(),
            {
                let k = rest.len() - 1;
                let m = rest.pop().unwrap();
                assert(m == orig[k as int]);
                assert(orig.skip(k as int).drop_first() =~= orig.skip(k + 1));
                assert(orig.take(k as int) =~= orig.take(k + 1).drop_last());
                if !str_eq(m.0.as_str(), key) {
                    let ghost before = out@;
                    out.insert(0, m);
                    assert(out@ =~= seq![orig[k as int]] + before);
                }
            }
            assert(orig.skip(0) =~= orig);
            out.push((String::from_str(key), value));
            Json::Object(out)
        },
        other => other,
    }
}

/// Setting a member makes a lookup of that name find the new value, and
/// every other lookup find what it found before.
pub proof fn law_with_member_keeps_others(fields: Seq<(String, Json)>, key: String, value: Json, other: Seq<char>)
    ensures
        lookup(without_key(fields, key@).push((key, value)), key@) == Some(value),
        other != key@ ==> lookup(without_key(fields, key@).push((key, value)), other) == lookup(fields, other),
{
    lemma_without_key(fields, key@, other);
    lemma_lookup_push(without_key(fields, key@), (key, value), key@);
    lemma_lookup_push(without_key(fields, key@), (key, value), other);
}

/// Whether a member is named `key` and holds the string `text`.
pub open spec fn is_str_member(m: (String, Json), key: Seq<char>, text: Seq<char>) -> bool {
    &&& m.0@ == key
    &&& m.1 matches Json::Str(s) && s@ == text
}

/// A member named `key` holding the string `text`.
pub fn str_member(key: &str, text: &str) -> (res: (String, Json))
    ensures
        is_str_member(res, key@, text@),
{
    (String::from_str(key), Json::Str(String::from_str(text)))
}

} // verus!
