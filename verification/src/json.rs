//! A decoded JSON document, as handed back by the graph database, and its
//! mathematical model.
//!
//! Numbers are kept only as far as the resolvers read them: an integer that
//! fits `i64` keeps its value, any other number is remembered as a number of
//! the wrong shape (`OtherNumber`), which every integer-typed field rejects.

use vstd::prelude::*;

verus! {

/// A JSON value, held as plain data so that every resolver step over it can
/// be verified.
#[derive(Debug, PartialEq, Eq)]
pub enum JsonValue {
    Null,
    Bool(bool),
    Int(i64),
    OtherNumber,
    Str(String),
    Arr(Vec<JsonValue>),
    Obj(Vec<(String, JsonValue)>),
}

/// The mathematical model of a `JsonValue`.
#[verifier::ext_equal]
pub ghost enum JsonView {
    Null,
    Bool(bool),
    Int(int),
    OtherNumber,
    Str(Seq<char>),
    Arr(Seq<JsonView>),
    Obj(Seq<(Seq<char>, JsonView)>),
}

/// Model of a sequence of JSON values, element by element.
pub open spec fn arr_view(items: Seq<JsonValue>) -> Seq<JsonView>
    decreases items, 0int,
{
    if items.len() == 0 {
        Seq::empty()
    } else {
        arr_view(items.drop_last()).push(items.last()@)
    }
}

/// Model of a sequence of JSON object entries, entry by entry.
pub open spec fn obj_view(entries: Seq<(String, JsonValue)>) -> Seq<(Seq<char>, JsonView)>
    decreases entries, 0int,
{
    if entries.len() == 0 {
        Seq::empty()
    } else {
        obj_view(entries.drop_last()).push((entries.last().0@, entries.last().1@))
    }
}

impl View for JsonValue {
    type V = JsonView;

    open spec fn view(&self) -> JsonView
        decreases self, 1int,
    {
        match self {
            JsonValue::Null => JsonView::Null,
            JsonValue::Bool(b) => JsonView::Bool(*b),
            JsonValue::Int(i) => JsonView::Int(*i as int),
            JsonValue::OtherNumber => JsonView::OtherNumber,
            JsonValue::Str(s) => JsonView::Str(s@),
            JsonValue::Arr(items) => JsonView::Arr(arr_view(items@)),
            JsonValue::Obj(entries) => JsonView::Obj(obj_view(entries@)),
        }
    }
}

/// The model of a value sequence keeps its length and models each element.
pub proof fn lemma_arr_view(items: Seq<JsonValue>)
    ensures
        arr_view(items).len() == items.len(),
        forall|i: int| 0 <= i < items.len() ==> arr_view(items)[i] == #[trigger] items[i]@,
    decreases items.len(),
{
    if items.len() > 0 {
        lemma_arr_view(items.drop_last());
        assert(arr_view(items) == arr_view(items.drop_last()).push(items.last()@));
        assert forall|i: int| 0 <= i < items.len() implies arr_view(items)[i] == #[trigger] items[i]@ by {
            if i < items.len() - 1 {
                assert(arr_view(items.drop_last())[i] == items.drop_last()[i]@);
                assert(items.drop_last()[i] == items[i]);
            }
        }
    }
}

/// The model of an entry sequence keeps its length and models each entry.
pub proof fn lemma_obj_view(entries: Seq<(String, JsonValue)>)
    ensures
        obj_view(entries).len() == entries.len(),
        forall|i: int| 0 <= i < entries.len() ==> obj_view(entries)[i] == (
            #[trigger] entries[i].0@,
            entries[i].1@,
        ),
    decreases entries.len(),
{
    if entries.len() > 0 {
        lemma_obj_view(entries.drop_last());
        assert(obj_view(entries) == obj_view(entries.drop_last()).push((
            entries.last().0@,
            entries.last().1@,
        )));
        assert forall|i: int| 0 <= i < entries.len() implies obj_view(entries)[i] == (
            #[trigger] entries[i].0@,
            entries[i].1@,
        ) by {
            if i < entries.len() - 1 {
                assert(obj_view(entries.drop_last())[i] == (
                    entries.drop_last()[i].0@,
                    entries.drop_last()[i].1@,
                ));
                assert(entries.drop_last()[i] == entries[i]);
            }
        }
    }
}

/// First entry of an object whose key equals `key`, if any.
pub open spec fn obj_get(entries: Seq<(Seq<char>, JsonView)>, key: Seq<char>) -> Option<JsonView>
    decreases entries.len(),
{
    if entries.len() == 0 {
        None
    } else if entries[0].0 == key {
        Some(entries[0].1)
    } else {
        obj_get(entries.drop_first(), key)
    }
}

/// Key lookup on a JSON value: a value that is not an object has no keys.
pub open spec fn json_get(v: JsonView, key: Seq<char>) -> Option<JsonView> {
    match v {
        JsonView::Obj(entries) => obj_get(entries, key),
        _ => None,
    }
}

/// Equality of the views of two strings, decided executably.
pub fn str_eq(a: &str, b: &str) -> (r: bool)
    ensures
        r == (a@ == b@),
{
    let a_owned: String = a.to_owned();
    let b_owned: String = b.to_owned();
    a_owned == b_owned
}

impl JsonValue {
    /// Looks a key up on this value, `None` when the key is absent or the
    /// value is not an object.
    #[verifier::loop_isolation(false)]
    pub fn get<'a>(&'a self, key: &str) -> (r: Option<&'a JsonValue>)
        ensures
            match r {
                Some(v) => json_get(self@, key@) == Some(v@),
                None => json_get(self@, key@) is None,
            },
    {
        match self {
            JsonValue::Obj(entries) => {
                proof {
                    lemma_obj_view(entries@);
                    assert(obj_view(entries@).skip(0) =~= obj_view(entries@));
                }
                let n = entries.len();
                for i in 0..n
                    invariant
                        obj_get(obj_view(entries@), key@) == obj_get(
                            obj_view(entries@).skip(i as int),
                            key@,
                        ),
                {
                    let ghost rest = obj_view(entries@).skip(i as int);
                    assert(rest[0] == obj_view(entries@)[i as int]);
                    if str_eq(entries[i].0.as_str(), key) {
                        assert(obj_get(rest, key@) == Some(rest[0].1));
                        return Some(&entries[i].1);
                    }
                    proof {
                        assert(rest.drop_first() =~= obj_view(entries@).skip(i + 1));
                    }
                }
                None
            },
            _ => None,
        }
    }

    /// The first element, when this value is a non-empty array; any other
    /// value has no elements.
    pub fn first_item<'a>(&'a self) -> (r: Option<&'a JsonValue>)
        ensures
            match r {
                Some(v) => self@ matches JsonView::Arr(items) && items.len() > 0 && items[0]
                    == v@,
                None => match self@ {
                    JsonView::Arr(items) => items.len() == 0,
                    _ => true,
                },
            },
    {
        match self {
            JsonValue::Arr(items) => {
                proof {
                    lemma_arr_view(items@);
                }
                if items.len() > 0 {
                    Some(&items[0])
                } else {
                    None
                }
            },
            _ => None,
        }
    }

    /// A structurally equal copy of this value.
    #[verifier::loop_isolation(false)]
    pub fn deep_copy(&self) -> (r: JsonValue)
        ensures
            r@ == self@,
        decreases self,
    {
        match self {
            JsonValue::Null => JsonValue::Null,
            JsonValue::Bool(b) => JsonValue::Bool(*b),
            JsonValue::Int(i) => JsonValue::Int(*i),
            JsonValue::OtherNumber => JsonValue::OtherNumber,
            JsonValue::Str(s) => JsonValue::Str(s.clone()),
            JsonValue::Arr(items) => {
                proof {
                    lemma_arr_view(items@);
                }
                let mut out: Vec<JsonValue> = Vec::new();
                let n = items.len();
                for i in 0..n
                    invariant
                        n == items@.len(),
                        out@.len() == i,
                        forall|j: int| 0 <= j < i ==> #[trigger] out@[j]@ == items@[j]@,
                {
                    out.push(items[i].deep_copy());
                }
                proof {
                    lemma_arr_view(out@);
                    assert forall|j: int| 0 <= j < n implies arr_view(out@)[j] == arr_view(
                        items@,
                    )[j] by {
                        assert(arr_view(out@)[j] == out@[j]@);
                        assert(arr_view(items@)[j] == items@[j]@);
                    }
                    assert(arr_view(out@) =~= arr_view(items@));
                }
                JsonValue::Arr(out)
            },
            JsonValue::Obj(entries) => {
                proof {
                    lemma_obj_view(entries@);
                }
                let mut out: Vec<(String, JsonValue)> = Vec::new();
                let n = entries.len();
                for i in 0..n
                    invariant
                        n == entries@.len(),
                        out@.len() == i,
                        forall|j: int| 0 <= j < i ==> (#[trigger] out@[j]).0@ == entries@[j].0@
                            && out@[j].1@ == entries@[j].1@,
                {
                    out.push((entries[i].0.clone(), entries[i].1.deep_copy()));
                }
                proof {
                    lemma_obj_view(out@);
                    assert forall|j: int| 0 <= j < n implies obj_view(out@)[j] == obj_view(
                        entries@,
                    )[j] by {
                        assert(obj_view(out@)[j] == (out@[j].0@, out@[j].1@));
                        assert(obj_view(entries@)[j] == (entries@[j].0@, entries@[j].1@));
                    }
                    assert(obj_view(out@) =~= obj_view(entries@));
                }
                JsonValue::Obj(out)
            },
        }
    }
}

} // verus!
