//! The result resolver run over a whole selection: reads each requested
//! field's JSON subtree by name or fingerprint alias and shapes the typed
//! answer, or records a uniform failure at that field's exact path.
//!
//! Sibling fields are resolved independently: one bad field never hides
//! another's failure, and the errors of a whole tree are reported together.

use vstd::prelude::*;

use crate::fingerprint::spec_fingerprint;
use crate::json::{arr_view, json_get, lemma_arr_view, JsonValue, JsonView};
use crate::resolve::{
    arr_field, channel_haikus, flatten_channel_haikus, int_field, lenient_arr_field,
    rfc3339_parses, server_haikus, server_json, str_field,
};
use crate::selection::{response_key, Selection, SelectionView};
use crate::translate::EntityKind;
use crate::validate::spec_validate_search_args;

verus! {

/// One step of a response path: a field's response key, or a position in a
/// collection.
#[derive(Debug, PartialEq, Eq)]
pub enum PathSeg {
    Field(String),
    Index(usize),
}

/// The mathematical model of a `PathSeg`.
#[verifier::ext_equal]
pub ghost enum PathSegView {
    Field(Seq<char>),
    Index(int),
}

impl View for PathSeg {
    type V = PathSegView;

    open spec fn view(&self) -> PathSegView {
        match self {
            PathSeg::Field(s) => PathSegView::Field(s@),
            PathSeg::Index(i) => PathSegView::Index(*i as int),
        }
    }
}

/// Model of one response path.
pub open spec fn path_view(p: Seq<PathSeg>) -> Seq<PathSegView> {
    p.map_values(|seg: PathSeg| seg@)
}

/// Model of a list of response paths.
pub open spec fn paths_view(ps: Seq<Vec<PathSeg>>) -> Seq<Seq<PathSegView>> {
    ps.map_values(|p: Vec<PathSeg>| path_view(p@))
}

/// Every path extended downward by one leading step.
pub open spec fn prefix_paths(seg: PathSegView, paths: Seq<Seq<PathSegView>>) -> Seq<
    Seq<PathSegView>,
> {
    paths.map_values(|p: Seq<PathSegView>| seq![seg] + p)
}

/// The single failure of one field, at exactly its own key.
pub open spec fn field_failure(key: Seq<char>) -> (Option<JsonView>, Seq<Seq<PathSegView>>) {
    (None, seq![seq![PathSegView::Field(key)]])
}

/// One field's resolved value under its sub-failures, wrapped at its key:
/// a clean value stands, any failure below is attributed through the key.
pub open spec fn at_key(key: Seq<char>, value: JsonView, errors: Seq<Seq<PathSegView>>) -> (
    Option<JsonView>,
    Seq<Seq<PathSegView>>,
) {
    if errors.len() == 0 {
        (Some(value), Seq::empty())
    } else {
        (None, prefix_paths(PathSegView::Field(key), errors))
    }
}

/// What resolving one selected field of an entity yields: its value, or the
/// paths of every failure under it. The value is present exactly when there
/// is no failure.
pub open spec fn spec_resolve_field(kind: EntityKind, v: JsonView, child: SelectionView) -> (
    Option<JsonView>,
    Seq<Seq<PathSegView>>,
)
    decreases child, 3int, 0int,
{
    let key = response_key(child);
    match kind {
        EntityKind::Haiku => {
            if child.name == "id"@ {
                spec_resolve_str(v, "id"@, key)
            } else if child.name == "content"@ {
                spec_resolve_str(v, "content"@, key)
            } else if child.name == "rulesVersion"@ {
                match int_field(v, "rulesVersion"@) {
                    Some(i) => if i32::MIN <= i <= i32::MAX {
                        (Some(JsonView::Int(i)), Seq::empty())
                    } else {
                        field_failure(key)
                    },
                    None => field_failure(key),
                }
            } else if child.name == "timestamp"@ {
                match str_field(v, "timestamp"@) {
                    Some(s) => if rfc3339_parses(s) {
                        (Some(JsonView::Str(s)), Seq::empty())
                    } else {
                        field_failure(key)
                    },
                    None => field_failure(key),
                }
            } else if child.name == "authors"@ {
                match arr_field(v, "authors"@) {
                    Some(items) => spec_resolve_collection(
                        EntityKind::DiscordUser,
                        items,
                        child.children,
                        key,
                    ),
                    None => field_failure(key),
                }
            } else if child.name == "channel"@ {
                match json_get(v, "channel"@) {
                    Some(sub) => spec_resolve_nested(EntityKind::DiscordChannel, sub, child, key),
                    None => field_failure(key),
                }
            } else if child.name == "server"@ {
                match server_json(v) {
                    Some(sub) => spec_resolve_nested(EntityKind::DiscordServer, sub, child, key),
                    None => field_failure(key),
                }
            } else {
                field_failure(key)
            }
        },
        EntityKind::DiscordUser => {
            if child.name == "discordSnowflake"@ {
                spec_resolve_str(v, "discordSnowflake"@, key)
            } else if child.name == "haikus"@ {
                match lenient_arr_field(v, "haikus"@) {
                    Some(items) => spec_resolve_collection(
                        EntityKind::Haiku,
                        items,
                        child.children,
                        key,
                    ),
                    None => field_failure(key),
                }
            } else {
                field_failure(key)
            }
        },
        EntityKind::DiscordChannel => {
            if child.name == "discordSnowflake"@ {
                spec_resolve_str(v, "discordSnowflake"@, key)
            } else if child.name == "server"@ {
                match json_get(v, "server"@) {
                    Some(sub) => spec_resolve_nested(EntityKind::DiscordServer, sub, child, key),
                    None => field_failure(key),
                }
            } else if child.name == "haikus"@ {
                match lenient_arr_field(v, "haikus"@) {
                    Some(items) => spec_resolve_collection(
                        EntityKind::Haiku,
                        items,
                        child.children,
                        key,
                    ),
                    None => field_failure(key),
                }
            } else if child.name == "search"@ {
                match spec_validate_search_args(child.args) {
                    Err(_) => field_failure(key),
                    Ok((term, first)) => match lenient_arr_field(
                        v,
                        spec_fingerprint("search"@, term, first),
                    ) {
                        Some(items) => spec_resolve_collection(
                            EntityKind::Haiku,
                            items,
                            child.children,
                            key,
                        ),
                        None => field_failure(key),
                    },
                }
            } else {
                field_failure(key)
            }
        },
        EntityKind::DiscordServer => {
            if child.name == "discordSnowflake"@ {
                spec_resolve_str(v, "discordSnowflake"@, key)
            } else if child.name == "channels"@ {
                match lenient_arr_field(v, "channels"@) {
                    Some(items) => spec_resolve_collection(
                        EntityKind::DiscordChannel,
                        items,
                        child.children,
                        key,
                    ),
                    None => field_failure(key),
                }
            } else if child.name == "haikus"@ {
                spec_resolve_collection(EntityKind::Haiku, server_haikus(v), child.children, key)
            } else {
                field_failure(key)
            }
        },
    }
}

/// A string-typed field's resolution.
pub open spec fn spec_resolve_str(v: JsonView, storage_key: Seq<char>, key: Seq<char>) -> (
    Option<JsonView>,
    Seq<Seq<PathSegView>>,
) {
    match str_field(v, storage_key) {
        Some(s) => (Some(JsonView::Str(s)), Seq::empty()),
        None => field_failure(key),
    }
}

/// A nested single entity's resolution, attributed through the field's key.
pub open spec fn spec_resolve_nested(
    kind: EntityKind,
    sub: JsonView,
    child: SelectionView,
    key: Seq<char>,
) -> (Option<JsonView>, Seq<Seq<PathSegView>>)
    decreases child, 2int, 0int,
{
    let (entries, errors) = spec_resolve_fields(kind, sub, child.children);
    at_key(key, JsonView::Obj(entries), errors)
}

/// A collection field's resolution: every element resolved independently,
/// all failures kept, attributed through the field's key.
pub open spec fn spec_resolve_collection(
    kind: EntityKind,
    items: Seq<JsonView>,
    children: Seq<SelectionView>,
    key: Seq<char>,
) -> (Option<JsonView>, Seq<Seq<PathSegView>>)
    decreases children, 3int, 0int,
{
    let (values, errors) = spec_resolve_elems(kind, items, children);
    at_key(key, JsonView::Arr(values), errors)
}

/// The elements of a collection, each resolved as one entity; the values of
/// the elements that resolved cleanly, in order, and every failure with its
/// position.
pub open spec fn spec_resolve_elems(
    kind: EntityKind,
    items: Seq<JsonView>,
    children: Seq<SelectionView>,
) -> (Seq<JsonView>, Seq<Seq<PathSegView>>)
    decreases children, 2int, items.len(),
{
    if items.len() == 0 {
        (Seq::empty(), Seq::empty())
    } else {
        let (values, errors) = spec_resolve_elems(kind, items.drop_last(), children);
        let (entries, elem_errors) = spec_resolve_fields(kind, items.last(), children);
        if elem_errors.len() == 0 {
            (values.push(JsonView::Obj(entries)), errors)
        } else {
            (
                values,
                errors + prefix_paths(PathSegView::Index(items.len() - 1), elem_errors),
            )
        }
    }
}

/// An entity's requested fields, resolved independently: the entries of the
/// fields that resolved, in order, and every failure.
pub open spec fn spec_resolve_fields(
    kind: EntityKind,
    v: JsonView,
    children: Seq<SelectionView>,
) -> (Seq<(Seq<char>, JsonView)>, Seq<Seq<PathSegView>>)
    decreases children, 1int, 0int,
{
    if children.len() == 0 {
        (Seq::empty(), Seq::empty())
    } else {
        let (entries, errors) = spec_resolve_fields(kind, v, children.drop_last());
        let child = children.last();
        let (value, field_errors) = spec_resolve_field(kind, v, child);
        match value {
            Some(value) => (entries.push((response_key(child), value)), errors),
            None => (entries, errors + field_errors),
        }
    }
}

/// What resolving a whole selection against an entity's JSON record yields:
/// the response object when every requested field resolved, and the exact
/// path of every field that did not. Partial failure never hides a sibling
/// failure; the value is present exactly when there is no failure.
pub open spec fn spec_resolve_selection(kind: EntityKind, v: JsonView, sel: SelectionView) -> (
    Option<JsonView>,
    Seq<Seq<PathSegView>>,
) {
    let (entries, errors) = spec_resolve_fields(kind, v, sel.children);
    if errors.len() == 0 {
        (Some(JsonView::Obj(entries)), Seq::empty())
    } else {
        (None, errors)
    }
}

/// A field of an entity type that is required of the JSON record: a scalar,
/// a single related entity, or the strict author collection. Resolving one
/// against a record that lacks it is a failure.
pub open spec fn required_field(kind: EntityKind, name: Seq<char>) -> bool {
    match kind {
        EntityKind::Haiku => name == "id"@ || name == "authors"@ || name == "content"@ || name
            == "channel"@ || name == "server"@ || name == "rulesVersion"@ || name == "timestamp"@,
        EntityKind::DiscordUser => name == "discordSnowflake"@,
        EntityKind::DiscordChannel => name == "discordSnowflake"@ || name == "server"@,
        EntityKind::DiscordServer => name == "discordSnowflake"@,
    }
}

/// A collection field of an entity type: related-entity collections and
/// search results, which are never required of the record.
pub open spec fn collection_field(kind: EntityKind, name: Seq<char>) -> bool {
    match kind {
        EntityKind::Haiku => false,
        EntityKind::DiscordUser => name == "haikus"@,
        EntityKind::DiscordChannel => name == "haikus"@ || name == "search"@,
        EntityKind::DiscordServer => name == "channels"@ || name == "haikus"@,
    }
}

/// Law: resolving a required field against an empty JSON object fails with
/// the uniform resolution-failure signal, attributed to exactly that
/// field's own path.
pub proof fn lemma_required_field_fails_on_empty(kind: EntityKind, child: SelectionView)
    requires
        required_field(kind, child.name),
    ensures
        spec_resolve_field(kind, JsonView::Obj(Seq::empty()), child) == field_failure(
            response_key(child),
        ),
{
}

/// Law: resolving a collection field against an empty JSON object yields an
/// empty sequence and no error. A search field's arguments must validate;
/// on anything else the collections carry no arguments at all.
pub proof fn lemma_collection_field_empty_on_empty(kind: EntityKind, child: SelectionView)
    requires
        collection_field(kind, child.name),
        kind == EntityKind::DiscordChannel && child.name == "search"@
            ==> spec_validate_search_args(child.args) is Ok,
    ensures
        spec_resolve_field(kind, JsonView::Obj(Seq::empty()), child) == (
            Some(JsonView::Arr(Seq::<JsonView>::empty())),
            Seq::<Seq<PathSegView>>::empty(),
        ),
{
    // A collection field's name must be told apart from the sibling rules'
    // names, which literal views alone leave open.
    reveal_strlit("discordSnowflake");
    reveal_strlit("server");
    reveal_strlit("haikus");
    reveal_strlit("search");
    reveal_strlit("channels");
    assert("haikus"@.len() == 6);
    assert("search"@.len() == 6);
    assert("channels"@.len() == 8);
    assert("server"@.len() == 6);
    assert("discordSnowflake"@.len() == 16);
    assert("search"@[2] == 'a');
    assert("server"@[2] == 'r');
    assert("haikus"@[0] == 'h');
    assert("search"@[0] == 's');
    assert("search"@ != "server"@);
    assert("search"@ != "haikus"@);
    assert(spec_resolve_elems(kind, Seq::empty(), child.children) == (
        Seq::<JsonView>::empty(),
        Seq::<Seq<PathSegView>>::empty(),
    ));
    assert(spec_resolve_elems(EntityKind::Haiku, Seq::empty(), child.children) == (
        Seq::<JsonView>::empty(),
        Seq::<Seq<PathSegView>>::empty(),
    ));
    assert(spec_resolve_elems(EntityKind::DiscordChannel, Seq::empty(), child.children) == (
        Seq::<JsonView>::empty(),
        Seq::<Seq<PathSegView>>::empty(),
    ));
}

/// A copy of one path step.
fn clone_seg(seg: &PathSeg) -> (r: PathSeg)
    ensures
        r@ == seg@,
{
    match seg {
        PathSeg::Field(s) => PathSeg::Field(s.clone()),
        PathSeg::Index(i) => PathSeg::Index(*i),
    }
}

/// Every path extended downward by one leading step, executably.
#[verifier::loop_isolation(false)]
fn prefixed_paths(seg: &PathSeg, paths: Vec<Vec<PathSeg>>) -> (r: Vec<Vec<PathSeg>>)
    ensures
        paths_view(r@) == prefix_paths(seg@, paths_view(paths@)),
{
    let mut out: Vec<Vec<PathSeg>> = Vec::new();
    let n = paths.len();
    for i in 0..n
        invariant
            out@.len() == i,
            forall|j: int| 0 <= j < i ==> path_view(#[trigger] out@[j]@) == seq![seg@]
                + path_view(paths@[j]@),
    {
        let mut np: Vec<PathSeg> = Vec::new();
        np.push(clone_seg(seg));
        let m = paths[i].len();
        for k in 0..m
            invariant
                np@.len() == 1 + k,
                np@[0]@ == seg@,
                forall|j: int| 0 <= j < k ==> (#[trigger] np@[1 + j])@ == paths@[i as int]@[j]@,
        {
            np.push(clone_seg(&paths[i][k]));
        }
        proof {
            assert forall|k: int| 0 <= k < np@.len() implies path_view(np@)[k] == (seq![seg@]
                + path_view(paths@[i as int]@))[k] by {
                if k >= 1 {
                    let j = k - 1;
                    assert(np@[1 + j]@ == paths@[i as int]@[j]@);
                }
            }
            assert(path_view(np@) =~= seq![seg@] + path_view(paths@[i as int]@));
        }
        out.push(np);
    }
    proof {
        assert(paths_view(out@) =~= prefix_paths(seg@, paths_view(paths@)));
    }
    out
}

/// The single failure of one field, executably.
fn fail_at(child: &Selection) -> (r: (Option<JsonValue>, Vec<Vec<PathSeg>>))
    ensures
        r.0 is None,
        paths_view(r.1@) == field_failure(response_key(child@)).1,
        field_failure(response_key(child@)).0 is None,
{
    let key: String = child.response_key_str().to_owned();
    let mut path: Vec<PathSeg> = Vec::new();
    path.push(PathSeg::Field(key));
    let mut errs: Vec<Vec<PathSeg>> = Vec::new();
    errs.push(path);
    proof {
        assert(path_view(errs@[0]@) =~= seq![PathSegView::Field(response_key(child@))]);
        assert(paths_view(errs@) =~= seq![seq![PathSegView::Field(response_key(child@))]]);
    }
    (None, errs)
}

/// References to an array's elements, in order.
#[verifier::loop_isolation(false)]
fn arr_refs<'a>(items: &'a Vec<JsonValue>) -> (r: Vec<&'a JsonValue>)
    ensures
        r@.len() == crate::json::arr_view(items@).len(),
        forall|i: int| 0 <= i < r@.len() ==> #[trigger] r@[i]@ == crate::json::arr_view(items@)[i],
{
    proof {
        crate::json::lemma_arr_view(items@);
    }
    let mut out: Vec<&JsonValue> = Vec::new();
    let n = items.len();
    for i in 0..n
        invariant
            out@.len() == i,
            forall|j: int| 0 <= j < i ==> #[trigger] out@[j]@ == crate::json::arr_view(items@)[j],
    {
        out.push(&items[i]);
    }
    out
}

/// References to every haiku of every channel under a server's
/// `haikuChannels` hop, in order.
#[verifier::loop_isolation(false)]
fn server_haiku_refs<'a>(v: &'a JsonValue) -> (r: Vec<&'a JsonValue>)
    ensures
        r@.len() == server_haikus(v@).len(),
        forall|i: int| 0 <= i < r@.len() ==> #[trigger] r@[i]@ == server_haikus(v@)[i],
{
    let mut out: Vec<&JsonValue> = Vec::new();
    match v.get("haikuChannels") {
        Some(JsonValue::Arr(channels)) => {
            proof {
                lemma_arr_view(channels@);
                assert(flatten_channel_haikus(arr_view(channels@).take(0)) =~= Seq::empty());
            }
            let n = channels.len();
            for i in 0..n
                invariant
                    ({
                        let models = flatten_channel_haikus(arr_view(channels@).take(i as int));
                        out@.len() == models.len() && forall|j: int|
                            0 <= j < out@.len() ==> #[trigger] out@[j]@ == models[j]
                    }),
            {
                let ghost prefix = arr_view(channels@).take(i as int);
                let ghost next = arr_view(channels@).take(i + 1);
                proof {
                    assert(next.drop_last() =~= prefix);
                    assert(next.last() == arr_view(channels@)[i as int]);
                    assert(arr_view(channels@)[i as int] == channels@[i as int]@);
                    assert(flatten_channel_haikus(next) == flatten_channel_haikus(prefix)
                        + channel_haikus(next.last()));
                }
                let ghost out_before = out@;
                match channels[i].get("haikus") {
                    Some(found) => match found {
                        JsonValue::Arr(haikus) => {
                            proof {
                                lemma_arr_view(haikus@);
                                assert(channel_haikus(next.last()) == arr_view(haikus@));
                            }
                            let m = haikus.len();
                            for k in 0..m
                                invariant
                                    out@.len() == out_before.len() + k,
                                    forall|j: int| 0 <= j < out_before.len()
                                        ==> #[trigger] out@[j]@ == out_before[j]@,
                                    forall|j: int| 0 <= j < k ==> #[trigger] out@[
                                        out_before.len() + j
                                    ]@ == arr_view(haikus@)[j],
                            {
                                out.push(&haikus[k]);
                            }
                            proof {
                                assert forall|j: int| 0 <= j < out@.len() implies #[trigger] out@[
                                    j
                                ]@ == flatten_channel_haikus(next)[j] by {
                                    if j >= out_before.len() {
                                        let k = j - out_before.len();
                                        assert(out@[out_before.len() + k]@ == arr_view(
                                            haikus@,
                                        )[k]);
                                    }
                                }
                            }
                        },
                        _ => {
                            proof {
                                assert(channel_haikus(next.last()) =~= Seq::empty());
                                assert(flatten_channel_haikus(next) =~= flatten_channel_haikus(
                                    prefix,
                                ));
                            }
                        },
                    },
                    None => {
                        proof {
                            assert(channel_haikus(next.last()) =~= Seq::empty());
                            assert(flatten_channel_haikus(next) =~= flatten_channel_haikus(
                                prefix,
                            ));
                        }
                    },
                }
            }
            proof {
                assert(arr_view(channels@).take(n as int) =~= arr_view(channels@));
            }
        },
        _ => (),
    }
    out
}

/// Resolves one selected field of an entity: its value, or the paths of
/// every failure under it.
#[verifier::loop_isolation(false)]
pub fn resolve_field(kind: EntityKind, v: &JsonValue, child: &Selection) -> (r: (
    Option<JsonValue>,
    Vec<Vec<PathSeg>>,
))
    ensures
        ({
            let (sv, serrs) = spec_resolve_field(kind, v@, child@);
            &&& match r.0 {
                Some(j) => sv == Some(j@),
                None => sv is None,
            }
            &&& paths_view(r.1@) == serrs
        }),
    decreases child, 3int, 0int,
{
    let name = child.name.as_str();
    match kind {
        EntityKind::Haiku => {
            if crate::json::str_eq(name, "id") {
                resolve_str_exec(v, "id", child)
            } else if crate::json::str_eq(name, "content") {
                resolve_str_exec(v, "content", child)
            } else if crate::json::str_eq(name, "rulesVersion") {
                match v.get("rulesVersion") {
                    Some(JsonValue::Int(i)) => {
                        let i = *i;
                        if i32::MIN as i64 <= i && i <= i32::MAX as i64 {
                            (Some(JsonValue::Int(i)), Vec::new())
                        } else {
                            fail_at(child)
                        }
                    },
                    _ => fail_at(child),
                }
            } else if crate::json::str_eq(name, "timestamp") {
                match v.get("timestamp") {
                    Some(JsonValue::Str(s)) => {
                        if crate::resolve::check_rfc3339(s.as_str()) {
                            (Some(JsonValue::Str(s.clone())), Vec::new())
                        } else {
                            fail_at(child)
                        }
                    },
                    _ => fail_at(child),
                }
            } else if crate::json::str_eq(name, "authors") {
                match v.get("authors") {
                    Some(JsonValue::Arr(items)) => {
                        let refs = arr_refs(items);
                        let r = resolve_collection(EntityKind::DiscordUser, &refs, child);
                        proof {
                            assert(Seq::new(refs@.len(), |i: int| refs@[i]@) =~= arr_view(items@));
                        }
                        r
                    },
                    _ => fail_at(child),
                }
            } else if crate::json::str_eq(name, "channel") {
                match v.get("channel") {
                    Some(sub) => resolve_nested(EntityKind::DiscordChannel, sub, child),
                    None => fail_at(child),
                }
            } else if crate::json::str_eq(name, "server") {
                match v.get("serverChannel") {
                    Some(hop) => match hop.get("server") {
                        Some(sub) => resolve_nested(EntityKind::DiscordServer, sub, child),
                        None => fail_at(child),
                    },
                    None => fail_at(child),
                }
            } else {
                fail_at(child)
            }
        },
        EntityKind::DiscordUser => {
            if crate::json::str_eq(name, "discordSnowflake") {
                resolve_str_exec(v, "discordSnowflake", child)
            } else if crate::json::str_eq(name, "haikus") {
                match crate::resolve::resolve_lenient_items(v, "haikus") {
                    Ok(items) => {
                        let r = resolve_collection(EntityKind::Haiku, &items, child);
                        proof {
                            assert(lenient_arr_field(v@, "haikus"@) matches Some(models) ==> Seq::new(
                                items@.len(),
                                |i: int| items@[i]@,
                            ) =~= models);
                        }
                        r
                    },
                    Err(_) => fail_at(child),
                }
            } else {
                fail_at(child)
            }
        },
        EntityKind::DiscordChannel => {
            if crate::json::str_eq(name, "discordSnowflake") {
                resolve_str_exec(v, "discordSnowflake", child)
            } else if crate::json::str_eq(name, "server") {
                match v.get("server") {
                    Some(sub) => resolve_nested(EntityKind::DiscordServer, sub, child),
                    None => fail_at(child),
                }
            } else if crate::json::str_eq(name, "haikus") {
                match crate::resolve::resolve_lenient_items(v, "haikus") {
                    Ok(items) => {
                        let r = resolve_collection(EntityKind::Haiku, &items, child);
                        proof {
                            assert(lenient_arr_field(v@, "haikus"@) matches Some(models) ==> Seq::new(
                                items@.len(),
                                |i: int| items@[i]@,
                            ) =~= models);
                        }
                        r
                    },
                    Err(_) => fail_at(child),
                }
            } else if crate::json::str_eq(name, "search") {
                match crate::validate::validate_search_args(child) {
                    Err(_) => fail_at(child),
                    Ok(sa) => {
                        assert(crate::validate::valid_search_term(sa.term@) && 1 <= sa.first);
                        let alias = crate::fingerprint::fingerprint(
                            "search",
                            sa.term.as_str(),
                            sa.first,
                        );
                        match crate::resolve::resolve_lenient_items(v, alias.as_str()) {
                            Ok(items) => {
                                let r = resolve_collection(EntityKind::Haiku, &items, child);
                                proof {
                                    assert(lenient_arr_field(v@, alias@) matches Some(models)
                                        ==> Seq::new(items@.len(), |i: int| items@[i]@) =~= models);
                                }
                                r
                            },
                            Err(_) => fail_at(child),
                        }
                    },
                }
            } else {
                fail_at(child)
            }
        },
        EntityKind::DiscordServer => {
            if crate::json::str_eq(name, "discordSnowflake") {
                resolve_str_exec(v, "discordSnowflake", child)
            } else if crate::json::str_eq(name, "channels") {
                match crate::resolve::resolve_lenient_items(v, "channels") {
                    Ok(items) => {
                        let r = resolve_collection(EntityKind::DiscordChannel, &items, child);
                        proof {
                            assert(lenient_arr_field(v@, "channels"@) matches Some(models) ==> Seq::new(
                                items@.len(),
                                |i: int| items@[i]@,
                            ) =~= models);
                        }
                        r
                    },
                    Err(_) => fail_at(child),
                }
            } else if crate::json::str_eq(name, "haikus") {
                let refs = server_haiku_refs(v);
                let r = resolve_collection(EntityKind::Haiku, &refs, child);
                proof {
                    assert(Seq::new(refs@.len(), |i: int| refs@[i]@) =~= server_haikus(v@));
                }
                r
            } else {
                fail_at(child)
            }
        },
    }
}

/// Resolves a string-typed field.
fn resolve_str_exec(v: &JsonValue, storage_key: &str, child: &Selection) -> (r: (
    Option<JsonValue>,
    Vec<Vec<PathSeg>>,
))
    ensures
        ({
            let (sv, serrs) = spec_resolve_str(v@, storage_key@, response_key(child@));
            &&& match r.0 {
                Some(j) => sv == Some(j@),
                None => sv is None,
            }
            &&& paths_view(r.1@) == serrs
        }),
{
    match v.get(storage_key) {
        Some(JsonValue::Str(s)) => (Some(JsonValue::Str(s.clone())), Vec::new()),
        _ => fail_at(child),
    }
}

/// Resolves a nested single entity, attributing failures through the
/// field's key.
fn resolve_nested(kind: EntityKind, sub: &JsonValue, child: &Selection) -> (r: (
    Option<JsonValue>,
    Vec<Vec<PathSeg>>,
))
    ensures
        ({
            let (sv, serrs) = spec_resolve_nested(kind, sub@, child@, response_key(child@));
            &&& match r.0 {
                Some(j) => sv == Some(j@),
                None => sv is None,
            }
            &&& paths_view(r.1@) == serrs
        }),
    decreases child, 2int, 0int,
{
    let (entries, errors) = resolve_fields(kind, sub, &child.children);
    if errors.len() == 0 {
        (Some(JsonValue::Obj(entries)), errors)
    } else {
        let key: String = child.response_key_str().to_owned();
        (None, prefixed_paths(&PathSeg::Field(key), errors))
    }
}

/// Resolves a collection field's elements, attributing failures through the
/// field's key and each failing element's position.
#[verifier::loop_isolation(false)]
fn resolve_collection(kind: EntityKind, items: &Vec<&JsonValue>, child: &Selection) -> (r: (
    Option<JsonValue>,
    Vec<Vec<PathSeg>>,
))
    ensures
        ({
            let models = Seq::new(items@.len(), |i: int| items@[i]@);
            let (sv, serrs) = spec_resolve_collection(
                kind,
                models,
                child@.children,
                response_key(child@),
            );
            &&& match r.0 {
                Some(j) => sv == Some(j@),
                None => sv is None,
            }
            &&& paths_view(r.1@) == serrs
        }),
    decreases child, 2int, 0int,
{
    let ghost models = Seq::new(items@.len(), |i: int| items@[i]@);
    let mut values: Vec<JsonValue> = Vec::new();
    let mut errors: Vec<Vec<PathSeg>> = Vec::new();
    let n = items.len();
    proof {
        assert(models.take(0) =~= Seq::<JsonView>::empty());
        assert(paths_view(errors@) =~= Seq::<Seq<PathSegView>>::empty());
        assert(crate::json::arr_view(values@) =~= Seq::<JsonView>::empty());
    }
    for i in 0..n
        invariant
            ({
                let (svalues, serrs) = spec_resolve_elems(kind, models.take(i as int), child@.children);
                &&& crate::json::arr_view(values@) == svalues
                &&& paths_view(errors@) == serrs
            }),
    {
        let ghost prefix = models.take(i as int);
        let ghost next = models.take(i + 1);
        proof {
            assert(next.drop_last() =~= prefix);
            assert(next.last() == models[i as int]);
            assert(models[i as int] == items@[i as int]@);
        }
        let (entries, elem_errors) = resolve_fields(kind, items[i], &child.children);
        if elem_errors.len() == 0 {
            let ghost vals_prev = values@;
            values.push(JsonValue::Obj(entries));
            proof {
                assert(values@.drop_last() =~= vals_prev);
                assert(arr_view(values@) == arr_view(values@.drop_last()).push(values@.last()@));
            }
        } else {
            let mut prefixed = prefixed_paths(&PathSeg::Index(i), elem_errors);
            let ghost errors_before = paths_view(errors@);
            let ghost prefixed_view = paths_view(prefixed@);
            errors.append(&mut prefixed);
            proof {
                assert(paths_view(errors@) =~= errors_before + prefixed_view);
            }
        }
    }
    proof {
        assert(models.take(n as int) =~= models);
    }
    if errors.len() == 0 {
        (Some(JsonValue::Arr(values)), errors)
    } else {
        let key: String = child.response_key_str().to_owned();
        (None, prefixed_paths(&PathSeg::Field(key), errors))
    }
}

/// Resolves an entity's requested fields independently: the entries of the
/// fields that resolved, in order, and every failure.
#[verifier::loop_isolation(false)]
pub fn resolve_fields(kind: EntityKind, v: &JsonValue, children: &Vec<Selection>) -> (r: (
    Vec<(String, JsonValue)>,
    Vec<Vec<PathSeg>>,
))
    ensures
        ({
            let (sentries, serrs) = spec_resolve_fields(
                kind,
                v@,
                crate::selection::sel_seq_view(children@),
            );
            &&& crate::json::obj_view(r.0@) == sentries
            &&& paths_view(r.1@) == serrs
        }),
    decreases children, 1int, 0int,
{
    proof {
        crate::selection::lemma_sel_seq_view(children@);
    }
    let ghost svchildren = crate::selection::sel_seq_view(children@);
    let mut entries: Vec<(String, JsonValue)> = Vec::new();
    let mut errors: Vec<Vec<PathSeg>> = Vec::new();
    let n = children.len();
    proof {
        assert(svchildren.take(0) =~= Seq::<SelectionView>::empty());
        assert(crate::json::obj_view(entries@) =~= Seq::<(Seq<char>, JsonView)>::empty());
        assert(paths_view(errors@) =~= Seq::<Seq<PathSegView>>::empty());
    }
    for i in 0..n
        invariant
            ({
                let (sentries, serrs) = spec_resolve_fields(kind, v@, svchildren.take(i as int));
                &&& crate::json::obj_view(entries@) == sentries
                &&& paths_view(errors@) == serrs
            }),
    {
        let ghost prefix = svchildren.take(i as int);
        let ghost next = svchildren.take(i + 1);
        proof {
            assert(next.drop_last() =~= prefix);
            assert(next.last() == svchildren[i as int]);
            assert(svchildren[i as int] == children@[i as int]@);
        }
        let child = &children[i];
        let (value, mut field_errors) = resolve_field(kind, v, child);
        match value {
            Some(value) => {
                let key: String = child.response_key_str().to_owned();
                let ghost ents_prev = entries@;
                entries.push((key, value));
                proof {
                    assert(entries@.drop_last() =~= ents_prev);
                    assert(crate::json::obj_view(entries@) == crate::json::obj_view(
                        entries@.drop_last(),
                    ).push((entries@.last().0@, entries@.last().1@)));
                }
            },
            None => {
                let ghost errors_before = paths_view(errors@);
                let ghost ferrs_view = paths_view(field_errors@);
                errors.append(&mut field_errors);
                proof {
                    assert(paths_view(errors@) =~= errors_before + ferrs_view);
                }
            },
        }
    }
    proof {
        assert(svchildren.take(n as int) =~= svchildren);
    }
    (entries, errors)
}

/// Resolves a whole selection against an entity's JSON record: the response
/// object when every requested field resolved, else the exact path of every
/// field that did not — partial failure never hides a sibling failure.
pub fn resolve_selection(kind: EntityKind, v: &JsonValue, sel: &Selection) -> (r: (
    Option<JsonValue>,
    Vec<Vec<PathSeg>>,
))
    ensures
        ({
            let (sv, serrs) = spec_resolve_selection(kind, v@, sel@);
            &&& match r.0 {
                Some(j) => sv == Some(j@),
                None => sv is None,
            }
            &&& paths_view(r.1@) == serrs
        }),
{
    let (entries, errors) = resolve_fields(kind, v, &sel.children);
    if errors.len() == 0 {
        proof {
            assert(paths_view(errors@) =~= Seq::<Seq<PathSegView>>::empty());
        }
        (Some(JsonValue::Obj(entries)), errors)
    } else {
        (None, errors)
    }
}

} // verus!
