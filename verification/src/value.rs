//! The JSON document model that the codec and both endpoints work on.

use vstd::prelude::*;

verus! {

/// The mathematical shape of a JSON document: what every contract of this
/// crate speaks of.  Object members keep their order of appearance.
pub enum Json {
    Null,
    Bool(bool),
    U64(u64),
    I64(i64),
    Str(Seq<char>),
    Array(Seq<Json>),
    Object(Seq<(Seq<char>, Json)>),
}

/// A JSON value.
///
/// Numbers are held as 64-bit integers, non-negative ones as `U64` and
/// negative ones as `I64`; numbers outside those ranges are not represented,
/// and inbound text holding one is rejected as unparseable.  The view of a
/// `JsonValue` is the [`Json`] it denotes.
#[derive(Debug, PartialEq, Eq)]
pub enum JsonValue {
    Null,
    Bool(bool),
    U64(u64),
    I64(i64),
    Str(String),
    Array(Vec<JsonValue>),
    Object(Vec<(String, JsonValue)>),
}

/// The [`Json`] denoted by `v`.
pub open spec fn value_view(v: JsonValue) -> Json
    decreases v,
{
    match v {
        JsonValue::Null => Json::Null,
        JsonValue::Bool(b) => Json::Bool(b),
        JsonValue::U64(n) => Json::U64(n),
        JsonValue::I64(n) => Json::I64(n),
        JsonValue::Str(s) => Json::Str(s@),
        JsonValue::Array(items) => Json::Array(views_of(items@)),
        JsonValue::Object(entries) => Json::Object(member_views(entries@)),
    }
}

/// The views of a sequence of values, in order.
pub open spec fn views_of(items: Seq<JsonValue>) -> Seq<Json>
    decreases items,
{
    if items.len() == 0 {
        Seq::empty()
    } else {
        views_of(items.drop_last()).push(value_view(items.last()))
    }
}

/// The views of a sequence of object members, in order.
pub open spec fn member_views(entries: Seq<(String, JsonValue)>) -> Seq<(Seq<char>, Json)>
    decreases entries,
{
    if entries.len() == 0 {
        Seq::empty()
    } else {
        member_views(entries.drop_last()).push(
            (entries.last().0@, value_view(entries.last().1)),
        )
    }
}

impl View for JsonValue {
    type V = Json;

    open spec fn view(&self) -> Json {
        value_view(*self)
    }
}

pub broadcast proof fn lemma_views_of(items: Seq<JsonValue>)
    ensures
        (#[trigger] views_of(items)).len() == items.len(),
        forall|i: int| 0 <= i < items.len() ==> views_of(items)[i] == value_view(items[i]),
    decreases items.len(),
{
    if items.len() > 0 {
        lemma_views_of(items.drop_last());
    }
}

pub broadcast proof fn lemma_member_views(entries: Seq<(String, JsonValue)>)
    ensures
        (#[trigger] member_views(entries)).len() == entries.len(),
        forall|i: int|
            0 <= i < entries.len() ==> member_views(entries)[i] == (
                entries[i].0@,
                value_view(entries[i].1),
            ),
    decreases entries.len(),
{
    if entries.len() > 0 {
        lemma_member_views(entries.drop_last());
    }
}

/// The first value bound to `key` among the members `entries`, if any.
pub open spec fn member_lookup(entries: Seq<(Seq<char>, Json)>, key: Seq<char>) -> Option<Json>
    decreases entries.len(),
{
    if entries.len() == 0 {
        None
    } else if entries[0].0 == key {
        Some(entries[0].1)
    } else {
        member_lookup(entries.drop_first(), key)
    }
}

/// The value bound to `key` when `j` is an object that has such a member.
pub open spec fn field_of(j: Json, key: Seq<char>) -> Option<Json> {
    match j {
        Json::Object(entries) => member_lookup(entries, key),
        _ => None,
    }
}

impl JsonValue {
    /// Looks `key` up among the members when `self` is an object.
    pub fn lookup<'a>(&'a self, key: &str) -> (r: Option<&'a JsonValue>)
        ensures
            match r {
                Some(v) => field_of(self@, key@) == Some(v@),
                None => field_of(self@, key@) is None,
            },
    {
        broadcast use lemma_member_views;

        match self {
            JsonValue::Object(entries) => {
                let ghost mv = member_views(entries@);
                proof {
                    lemma_member_views(entries@);
                    assert(mv.skip(0) =~= mv);
                }
                let wanted: String = key.to_owned();
                let n = entries.len();
                let mut i: usize = 0;
                while i < n
                    invariant
                        *self == JsonValue::Object(*entries),
                        mv == member_views(entries@),
                        mv.len() == entries@.len(),
                        n == entries@.len(),
                        i <= n,
                        wanted@ == key@,
                        member_lookup(mv, key@) == member_lookup(mv.skip(i as int), key@),
                    decreases n - i,
                {
                    proof {
                        lemma_member_views(entries@);
                        assert(mv.skip(i as int).drop_first() =~= mv.skip(i + 1));
                        assert(mv.skip(i as int)[0] == mv[i as int]);
                        assert(mv[i as int] == (entries@[i as int].0@, value_view(
                            entries@[i as int].1,
                        )));
                    }
                    if entries[i].0 == wanted {
                        return Some(&entries[i].1);
                    }
                    i += 1;
                }
                proof {
                    assert(mv.skip(n as int) =~= Seq::<(Seq<char>, Json)>::empty());
                }
                None
            },
            _ => None,
        }
    }
}

/// A deep copy of each value, denoting the same documents in the same order.
pub fn clone_values(items: &Vec<JsonValue>) -> (r: Vec<JsonValue>)
    ensures
        views_of(r@) == views_of(items@),
    decreases *items,
{
    broadcast use lemma_views_of;

    let n = items.len();
    let mut out: Vec<JsonValue> = Vec::new();
    let mut i: usize = 0;
    while i < n
        invariant
            n == items@.len(),
            i <= n,
            out@.len() == i,
            forall|k: int| 0 <= k < i ==> value_view(out@[k]) == value_view(items@[k]),
        decreases n - i,
    {
        proof {
            assert(decreases_to!(*items => items@));
            assert(decreases_to!(items@ => items@[i as int]));
            assert(decreases_to!(*items => items@[i as int]));
        }
        out.push(items[i].clone());
        i += 1;
    }
    proof {
        assert(views_of(out@) =~= views_of(items@));
    }
    out
}

/// A deep copy of each member, denoting the same members in the same order.
pub fn clone_members(entries: &Vec<(String, JsonValue)>) -> (r: Vec<(String, JsonValue)>)
    ensures
        member_views(r@) == member_views(entries@),
    decreases *entries,
{
    broadcast use lemma_member_views;

    let n = entries.len();
    let mut out: Vec<(String, JsonValue)> = Vec::new();
    let mut i: usize = 0;
    while i < n
        invariant
            n == entries@.len(),
            i <= n,
            out@.len() == i,
            forall|k: int|
                0 <= k < i ==> out@[k].0@ == entries@[k].0@ && value_view(out@[k].1) == value_view(
                    entries@[k].1,
                ),
        decreases n - i,
    {
        proof {
            assert(decreases_to!(*entries => entries@));
            assert(decreases_to!(entries@ => entries@[i as int]));
            assert(decreases_to!(entries@[i as int] => entries@[i as int].1));
            assert(decreases_to!(*entries => entries@[i as int].1));
        }
        let member = (entries[i].0.clone(), entries[i].1.clone());
        out.push(member);
        i += 1;
    }
    proof {
        assert(member_views(out@) =~= member_views(entries@));
    }
    out
}

impl Clone for JsonValue {
    /// A deep copy denoting the same document.
    fn clone(&self) -> (res: Self)
        ensures
            res@ == self@,
        decreases *self,
    {
        match self {
            JsonValue::Null => JsonValue::Null,
            JsonValue::Bool(b) => JsonValue::Bool(*b),
            JsonValue::U64(n) => JsonValue::U64(*n),
            JsonValue::I64(n) => JsonValue::I64(*n),
            JsonValue::Str(s) => JsonValue::Str(s.clone()),
            JsonValue::Array(items) => {
                proof {
                    assert(decreases_to!(*self => self->Array_0));
                    assert(self->Array_0 == *items);
                }
                JsonValue::Array(clone_values(items))
            },
            JsonValue::Object(entries) => {
                proof {
                    assert(decreases_to!(*self => self->Object_0));
                    assert(self->Object_0 == *entries);
                }
                JsonValue::Object(clone_members(entries))
            },
        }
    }
}

/// Appending a member appends its view.
pub proof fn lemma_member_views_push(entries: Seq<(String, JsonValue)>, k: String, v: JsonValue)
    ensures
        member_views(entries.push((k, v))) == member_views(entries).push((k@, value_view(v))),
{
    assert(entries.push((k, v)).drop_last() =~= entries);
}

} // verus!
