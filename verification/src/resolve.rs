//! Entity views and the result resolver: typed, per-field accessors over the
//! JSON value the database answered with.
//!
//! A scalar field resolves only when its key holds exactly the expected JSON
//! shape; a related-entity collection defaults to an empty sequence when its
//! key is entirely absent, while a present but wrong-shaped value is always a
//! failure. All failures carry the same uniform signal.

use vstd::prelude::*;

use crate::error::{QueryCreationError, ResolveError};
use crate::json::{arr_view, json_get, lemma_arr_view, JsonValue, JsonView};
use crate::selection::Selection;
use crate::translate::{
    generate_inner_query, generate_inner_query_for_field, EntityKind, MapsToDgraphQuery,
};

verus! {

/// Whether a string is a well-formed RFC 3339 date-and-time. Named only:
/// the answer depends on the string's characters alone.
pub uninterp spec fn rfc3339_parses(s: Seq<char>) -> bool;

/// Relies on chrono's `DateTime::parse_from_rfc3339`: decides whether the
/// string parses as an RFC 3339 date-and-time.
#[verifier::external_body]
pub(crate) fn check_rfc3339(s: &str) -> (r: bool)
    ensures
        r == rfc3339_parses(s@),
{
    chrono::DateTime::parse_from_rfc3339(s).is_ok()
}

/// A string-typed field's value, when the key holds exactly a string.
pub open spec fn str_field(v: JsonView, key: Seq<char>) -> Option<Seq<char>> {
    match json_get(v, key) {
        Some(JsonView::Str(s)) => Some(s),
        _ => None,
    }
}

/// An integer-typed field's value, when the key holds exactly an integer.
pub open spec fn int_field(v: JsonView, key: Seq<char>) -> Option<int> {
    match json_get(v, key) {
        Some(JsonView::Int(i)) => Some(i),
        _ => None,
    }
}

/// A strict collection field's elements, when the key holds exactly an
/// array; an absent key is a failure.
pub open spec fn arr_field(v: JsonView, key: Seq<char>) -> Option<Seq<JsonView>> {
    match json_get(v, key) {
        Some(JsonView::Arr(items)) => Some(items),
        _ => None,
    }
}

/// A lenient collection field's elements: an absent key is an empty
/// sequence, only a present but non-array value is a failure.
pub open spec fn lenient_arr_field(v: JsonView, key: Seq<char>) -> Option<Seq<JsonView>> {
    match json_get(v, key) {
        None => Some(Seq::empty()),
        Some(JsonView::Arr(items)) => Some(items),
        Some(_) => None,
    }
}

/// The JSON subtree a haiku's `server` field reads: the `server` key under
/// the `serverChannel` hop.
pub open spec fn server_json(v: JsonView) -> Option<JsonView> {
    match json_get(v, "serverChannel"@) {
        Some(ch) => json_get(ch, "server"@),
        None => None,
    }
}

/// The haikus of one channel subtree under a server's `haikuChannels` hop:
/// its `haikus` array, or nothing when that key is not an array.
pub open spec fn channel_haikus(ch: JsonView) -> Seq<JsonView> {
    match json_get(ch, "haikus"@) {
        Some(JsonView::Arr(items)) => items,
        _ => Seq::empty(),
    }
}

/// All haikus under a sequence of channel subtrees, in order.
pub open spec fn flatten_channel_haikus(chs: Seq<JsonView>) -> Seq<JsonView>
    decreases chs.len(),
{
    if chs.len() == 0 {
        Seq::empty()
    } else {
        flatten_channel_haikus(chs.drop_last()) + channel_haikus(chs.last())
    }
}

/// A server's haikus: every haiku of every channel under `haikuChannels`;
/// anything unexpected along the way contributes nothing.
pub open spec fn server_haikus(v: JsonView) -> Seq<JsonView> {
    match json_get(v, "haikuChannels"@) {
        Some(JsonView::Arr(chs)) => flatten_channel_haikus(chs),
        _ => Seq::empty(),
    }
}

/// A haiku record as the database answered it.
#[derive(Debug)]
pub struct Haiku {
    inner: JsonValue,
}

/// A chat user record as the database answered it.
#[derive(Debug)]
pub struct DiscordUser {
    inner: JsonValue,
}

/// A chat channel record as the database answered it.
#[derive(Debug)]
pub struct DiscordChannel {
    inner: JsonValue,
}

/// A chat server record as the database answered it.
#[derive(Debug)]
pub struct DiscordServer {
    inner: JsonValue,
}

impl View for Haiku {
    type V = JsonView;

    closed spec fn view(&self) -> JsonView {
        self.inner@
    }
}

impl View for DiscordUser {
    type V = JsonView;

    closed spec fn view(&self) -> JsonView {
        self.inner@
    }
}

impl View for DiscordChannel {
    type V = JsonView;

    closed spec fn view(&self) -> JsonView {
        self.inner@
    }
}

impl View for DiscordServer {
    type V = JsonView;

    closed spec fn view(&self) -> JsonView {
        self.inner@
    }
}

impl Haiku {
    /// Wraps a JSON record believed to represent a haiku.
    pub fn from_json(inner: JsonValue) -> (r: Haiku)
        ensures
            r@ == inner@,
    {
        Haiku { inner }
    }
}

impl From<JsonValue> for Haiku {
    fn from(inner: JsonValue) -> (r: Haiku) {
        Haiku { inner }
    }
}

impl vstd::std_specs::convert::FromSpecImpl<JsonValue> for Haiku {
    open spec fn obeys_from_spec() -> bool {
        true
    }

    closed spec fn from_spec(inner: JsonValue) -> Haiku {
        Haiku { inner }
    }
}

impl From<JsonValue> for DiscordUser {
    fn from(inner: JsonValue) -> (r: DiscordUser) {
        DiscordUser { inner }
    }
}

impl vstd::std_specs::convert::FromSpecImpl<JsonValue> for DiscordUser {
    open spec fn obeys_from_spec() -> bool {
        true
    }

    closed spec fn from_spec(inner: JsonValue) -> DiscordUser {
        DiscordUser { inner }
    }
}

impl From<JsonValue> for DiscordChannel {
    fn from(inner: JsonValue) -> (r: DiscordChannel) {
        DiscordChannel { inner }
    }
}

impl vstd::std_specs::convert::FromSpecImpl<JsonValue> for DiscordChannel {
    open spec fn obeys_from_spec() -> bool {
        true
    }

    closed spec fn from_spec(inner: JsonValue) -> DiscordChannel {
        DiscordChannel { inner }
    }
}

impl From<JsonValue> for DiscordServer {
    fn from(inner: JsonValue) -> (r: DiscordServer) {
        DiscordServer { inner }
    }
}

impl vstd::std_specs::convert::FromSpecImpl<JsonValue> for DiscordServer {
    open spec fn obeys_from_spec() -> bool {
        true
    }

    closed spec fn from_spec(inner: JsonValue) -> DiscordServer {
        DiscordServer { inner }
    }
}

/// Resolves a string-typed field: the key must hold exactly a string.
fn resolve_str_field(v: &JsonValue, key: &str) -> (r: Result<String, ResolveError>)
    ensures
        match r {
            Ok(s) => str_field(v@, key@) == Some(s@),
            Err(_) => str_field(v@, key@) is None,
        },
{
    match v.get(key) {
        Some(JsonValue::Str(s)) => Ok(s.clone()),
        _ => Err(ResolveError),
    }
}

/// Resolves a lenient collection field to its element values: an absent key
/// yields no elements, a wrong-shaped value fails.
pub(crate) fn resolve_lenient_items<'a>(v: &'a JsonValue, key: &str) -> (r: Result<
    Vec<&'a JsonValue>,
    ResolveError,
>)
    ensures
        match r {
            Ok(items) => {
                &&& lenient_arr_field(v@, key@) matches Some(models)
                &&& items@.len() == models.len()
                &&& forall|i: int| 0 <= i < items@.len() ==> #[trigger] items@[i]@ == models[i]
            },
            Err(_) => lenient_arr_field(v@, key@) is None,
        },
{
    match v.get(key) {
        None => Ok(Vec::new()),
        Some(JsonValue::Arr(items)) => {
            proof {
                lemma_arr_view(items@);
            }
            let mut out: Vec<&JsonValue> = Vec::new();
            let n = items.len();
            #[verifier::loop_isolation(false)]
            for i in 0..n
                invariant
                    out@.len() == i,
                    forall|j: int| 0 <= j < i ==> #[trigger] out@[j]@ == arr_view(items@)[j],
            {
                out.push(&items[i]);
            }
            Ok(out)
        },
        Some(_) => Err(ResolveError),
    }
}

impl Haiku {
    /// The haiku's storage identifier.
    pub fn id(&self) -> (r: Result<String, ResolveError>)
        ensures
            match r {
                Ok(s) => str_field(self@, "id"@) == Some(s@),
                Err(_) => str_field(self@, "id"@) is None,
            },
    {
        resolve_str_field(&self.inner, "id")
    }

    /// The haiku's text.
    pub fn content(&self) -> (r: Result<String, ResolveError>)
        ensures
            match r {
                Ok(s) => str_field(self@, "content"@) == Some(s@),
                Err(_) => str_field(self@, "content"@) is None,
            },
    {
        resolve_str_field(&self.inner, "content")
    }

    /// The users who wrote the haiku; a required collection, so an absent
    /// key is a failure.
    pub fn authors(&self) -> (r: Result<Vec<DiscordUser>, ResolveError>)
        ensures
            match r {
                Ok(users) => {
                    &&& arr_field(self@, "authors"@) matches Some(models)
                    &&& users@.len() == models.len()
                    &&& forall|i: int| 0 <= i < users@.len() ==> #[trigger] users@[i]@ == models[i]
                },
                Err(_) => arr_field(self@, "authors"@) is None,
            },
    {
        match self.inner.get("authors") {
            Some(JsonValue::Arr(items)) => {
                proof {
                    lemma_arr_view(items@);
                }
                let mut out: Vec<DiscordUser> = Vec::new();
                let n = items.len();
                #[verifier::loop_isolation(false)]
                for i in 0..n
                    invariant
                        out@.len() == i,
                        forall|j: int| 0 <= j < i ==> #[trigger] out@[j]@ == arr_view(items@)[j],
                {
                    out.push(DiscordUser::from(items[i].deep_copy()));
                }
                Ok(out)
            },
            _ => Err(ResolveError),
        }
    }

    /// The channel the haiku was posted in; required.
    pub fn channel(&self) -> (r: Result<DiscordChannel, ResolveError>)
        ensures
            match r {
                Ok(c) => json_get(self@, "channel"@) == Some(c@),
                Err(_) => json_get(self@, "channel"@) is None,
            },
    {
        match self.inner.get("channel") {
            Some(v) => Ok(DiscordChannel::from(v.deep_copy())),
            None => Err(ResolveError),
        }
    }

    /// The server the haiku was posted in, reached through the
    /// `serverChannel` hop; required.
    pub fn server(&self) -> (r: Result<DiscordServer, ResolveError>)
        ensures
            match r {
                Ok(s) => server_json(self@) == Some(s@),
                Err(_) => server_json(self@) is None,
            },
    {
        match self.inner.get("serverChannel") {
            Some(ch) => match ch.get("server") {
                Some(v) => Ok(DiscordServer::from(v.deep_copy())),
                None => Err(ResolveError),
            },
            None => Err(ResolveError),
        }
    }

    /// The version of the haiku rules the haiku was judged under. Succeeds
    /// only when the stored number fits the API's 32-bit integer type.
    #[allow(non_snake_case)]
    pub fn rulesVersion(&self) -> (r: Result<i32, ResolveError>)
        ensures
            match r {
                Ok(n) => int_field(self@, "rulesVersion"@) == Some(n as int),
                Err(_) => match int_field(self@, "rulesVersion"@) {
                    Some(i) => !(i32::MIN <= i <= i32::MAX),
                    None => true,
                },
            },
    {
        match self.inner.get("rulesVersion") {
            Some(JsonValue::Int(i)) => {
                let i = *i;
                if i32::MIN as i64 <= i && i <= i32::MAX as i64 {
                    Ok(i as i32)
                } else {
                    Err(ResolveError)
                }
            },
            _ => Err(ResolveError),
        }
    }

    /// When the haiku was posted: the stored string, which must be a
    /// well-formed RFC 3339 date-and-time.
    pub fn timestamp(&self) -> (r: Result<String, ResolveError>)
        ensures
            match r {
                Ok(s) => str_field(self@, "timestamp"@) == Some(s@) && rfc3339_parses(s@),
                Err(_) => match str_field(self@, "timestamp"@) {
                    Some(t) => !rfc3339_parses(t),
                    None => true,
                },
            },
    {
        match self.inner.get("timestamp") {
            Some(JsonValue::Str(s)) => {
                if check_rfc3339(s.as_str()) {
                    Ok(s.clone())
                } else {
                    Err(ResolveError)
                }
            },
            _ => Err(ResolveError),
        }
    }
}

impl DiscordUser {
    /// The user's chat-platform identifier.
    #[allow(non_snake_case)]
    pub fn discordSnowflake(&self) -> (r: Result<String, ResolveError>)
        ensures
            match r {
                Ok(s) => str_field(self@, "discordSnowflake"@) == Some(s@),
                Err(_) => str_field(self@, "discordSnowflake"@) is None,
            },
    {
        resolve_str_field(&self.inner, "discordSnowflake")
    }

    /// The haikus the user wrote; absent means none.
    pub fn haikus(&self) -> (r: Result<Vec<Haiku>, ResolveError>)
        ensures
            match r {
                Ok(hs) => {
                    &&& lenient_arr_field(self@, "haikus"@) matches Some(models)
                    &&& hs@.len() == models.len()
                    &&& forall|i: int| 0 <= i < hs@.len() ==> #[trigger] hs@[i]@ == models[i]
                },
                Err(_) => lenient_arr_field(self@, "haikus"@) is None,
            },
    {
        match resolve_lenient_items(&self.inner, "haikus") {
            Ok(items) => {
                let mut out: Vec<Haiku> = Vec::new();
                let n = items.len();
                #[verifier::loop_isolation(false)]
                for i in 0..n
                    invariant
                        out@.len() == i,
                        forall|j: int| 0 <= j < i ==> #[trigger] out@[j]@ == items@[j]@,
                {
                    out.push(Haiku::from(items[i].deep_copy()));
                }
                Ok(out)
            },
            Err(e) => Err(e),
        }
    }
}

impl DiscordChannel {
    /// The channel's chat-platform identifier.
    #[allow(non_snake_case)]
    pub fn discordSnowflake(&self) -> (r: Result<String, ResolveError>)
        ensures
            match r {
                Ok(s) => str_field(self@, "discordSnowflake"@) == Some(s@),
                Err(_) => str_field(self@, "discordSnowflake"@) is None,
            },
    {
        resolve_str_field(&self.inner, "discordSnowflake")
    }

    /// The server the channel belongs to; required.
    pub fn server(&self) -> (r: Result<DiscordServer, ResolveError>)
        ensures
            match r {
                Ok(s) => json_get(self@, "server"@) == Some(s@),
                Err(_) => json_get(self@, "server"@) is None,
            },
    {
        match self.inner.get("server") {
            Some(v) => Ok(DiscordServer::from(v.deep_copy())),
            None => Err(ResolveError),
        }
    }

    /// The haikus posted in the channel; absent means none.
    pub fn haikus(&self) -> (r: Result<Vec<Haiku>, ResolveError>)
        ensures
            match r {
                Ok(hs) => {
                    &&& lenient_arr_field(self@, "haikus"@) matches Some(models)
                    &&& hs@.len() == models.len()
                    &&& forall|i: int| 0 <= i < hs@.len() ==> #[trigger] hs@[i]@ == models[i]
                },
                Err(_) => lenient_arr_field(self@, "haikus"@) is None,
            },
    {
        match resolve_lenient_items(&self.inner, "haikus") {
            Ok(items) => {
                let mut out: Vec<Haiku> = Vec::new();
                let n = items.len();
                #[verifier::loop_isolation(false)]
                for i in 0..n
                    invariant
                        out@.len() == i,
                        forall|j: int| 0 <= j < i ==> #[trigger] out@[j]@ == items@[j]@,
                {
                    out.push(Haiku::from(items[i].deep_copy()));
                }
                Ok(out)
            },
            Err(e) => Err(e),
        }
    }

    /// The haikus a bounded full-text search found, located under the
    /// arguments' fingerprint alias; an absent alias means zero matches.
    pub fn search(&self, term: &str, first: i32) -> (r: Result<Vec<Haiku>, ResolveError>)
        requires
            crate::validate::valid_search_term(term@),
            1 <= first,
        ensures
            ({
                let key = crate::fingerprint::spec_fingerprint("search"@, term@, first as int);
                match r {
                    Ok(hs) => {
                        &&& lenient_arr_field(self@, key) matches Some(models)
                        &&& hs@.len() == models.len()
                        &&& forall|i: int| 0 <= i < hs@.len() ==> #[trigger] hs@[i]@ == models[i]
                    },
                    Err(_) => lenient_arr_field(self@, key) is None,
                }
            }),
    {
        let key = crate::fingerprint::fingerprint("search", term, first);
        match resolve_lenient_items(&self.inner, key.as_str()) {
            Ok(items) => {
                let mut out: Vec<Haiku> = Vec::new();
                let n = items.len();
                #[verifier::loop_isolation(false)]
                for i in 0..n
                    invariant
                        out@.len() == i,
                        forall|j: int| 0 <= j < i ==> #[trigger] out@[j]@ == items@[j]@,
                {
                    out.push(Haiku::from(items[i].deep_copy()));
                }
                Ok(out)
            },
            Err(e) => Err(e),
        }
    }
}

impl DiscordServer {
    /// The server's chat-platform identifier.
    #[allow(non_snake_case)]
    pub fn discordSnowflake(&self) -> (r: Result<String, ResolveError>)
        ensures
            match r {
                Ok(s) => str_field(self@, "discordSnowflake"@) == Some(s@),
                Err(_) => str_field(self@, "discordSnowflake"@) is None,
            },
    {
        resolve_str_field(&self.inner, "discordSnowflake")
    }

    /// The server's channels; absent means none.
    pub fn channels(&self) -> (r: Result<Vec<DiscordChannel>, ResolveError>)
        ensures
            match r {
                Ok(cs) => {
                    &&& lenient_arr_field(self@, "channels"@) matches Some(models)
                    &&& cs@.len() == models.len()
                    &&& forall|i: int| 0 <= i < cs@.len() ==> #[trigger] cs@[i]@ == models[i]
                },
                Err(_) => lenient_arr_field(self@, "channels"@) is None,
            },
    {
        match resolve_lenient_items(&self.inner, "channels") {
            Ok(items) => {
                let mut out: Vec<DiscordChannel> = Vec::new();
                let n = items.len();
                #[verifier::loop_isolation(false)]
                for i in 0..n
                    invariant
                        out@.len() == i,
                        forall|j: int| 0 <= j < i ==> #[trigger] out@[j]@ == items@[j]@,
                {
                    out.push(DiscordChannel::from(items[i].deep_copy()));
                }
                Ok(out)
            },
            Err(e) => Err(e),
        }
    }

    /// Every haiku of every channel under the `haikuChannels` hop; anything
    /// unexpected along the way contributes nothing.
    pub fn haikus(&self) -> (r: Result<Vec<Haiku>, ResolveError>)
        ensures
            r matches Ok(hs),
            ({
                let models = server_haikus(self@);
                r matches Ok(hs) ==> hs@.len() == models.len() && forall|i: int|
                    0 <= i < hs@.len() ==> #[trigger] hs@[i]@ == models[i]
            }),
    {
        let mut out: Vec<Haiku> = Vec::new();
        match self.inner.get("haikuChannels") {
            Some(JsonValue::Arr(channels)) => {
                proof {
                    lemma_arr_view(channels@);
                    assert(flatten_channel_haikus(arr_view(channels@).take(0)) =~= Seq::empty());
                }
                let n = channels.len();
                #[verifier::loop_isolation(false)]
                for i in 0..n
                    invariant
                        ({
                            let models = flatten_channel_haikus(arr_view(channels@).take(i as int));
                            out@.len() == models.len() && forall|j: int|
                                0 <= j < out@.len() ==> #[trigger] out@[j]@ == models[j]
                        }),
                {
                    let ghost prefix = arr_view(channels@).take(i as int);
                    let ghost next = arr_view(channels@).take(i + 1);
                    proof {
                        assert(next.drop_last() =~= prefix);
                        assert(next.last() == arr_view(channels@)[i as int]);
                        assert(arr_view(channels@)[i as int] == channels@[i as int]@);
                        assert(flatten_channel_haikus(next) == flatten_channel_haikus(prefix)
                            + channel_haikus(next.last()));
                    }
                    let ghost out_before = out@;
                    match channels[i].get("haikus") {
                        Some(found) => match found {
                            JsonValue::Arr(haikus) => {
                                proof {
                                    lemma_arr_view(haikus@);
                                    assert(channel_haikus(next.last()) == arr_view(haikus@));
                                }
                                let m = haikus.len();
                                #[verifier::loop_isolation(false)]
                                for k in 0..m
                                    invariant
                                        out@.len() == out_before.len() + k,
                                        forall|j: int| 0 <= j < out_before.len()
                                            ==> #[trigger] out@[j]@ == out_before[j]@,
                                        forall|j: int| 0 <= j < k ==> #[trigger] out@[
                                            out_before.len() + j
                                        ]@ == arr_view(haikus@)[j],
                                {
                                    out.push(Haiku::from(haikus[k].deep_copy()));
                                }
                                proof {
                                    assert forall|j: int| 0 <= j < out@.len() implies
                                        #[trigger] out@[j]@ == flatten_channel_haikus(next)[j] by {
                                        if j >= out_before.len() {
                                            let k = j - out_before.len();
                                            assert(out@[out_before.len() + k]@ == arr_view(
                                                haikus@,
                                            )[k]);
                                        }
                                    }
                                }
                            },
                            _ => {
                                proof {
                                    assert(channel_haikus(next.last()) =~= Seq::empty());
                                    assert(flatten_channel_haikus(next) =~= flatten_channel_haikus(
                                        prefix,
                                    ));
                                }
                            },
                        },
                        None => {
                            proof {
                                assert(channel_haikus(next.last()) =~= Seq::empty());
                                assert(flatten_channel_haikus(next) =~= flatten_channel_haikus(
                                    prefix,
                                ));
                            }
                        },
                    }
                }
                proof {
                    assert(arr_view(channels@).take(n as int) =~= arr_view(channels@));
                }
            },
            _ => (),
        }
        Ok(out)
    }
}

impl MapsToDgraphQuery for Haiku {
    open spec fn entity_kind() -> EntityKind {
        EntityKind::Haiku
    }

    fn generate_inner_query_for_field(child: &Selection) -> (r: Result<
        String,
        QueryCreationError,
    >) {
        generate_inner_query_for_field(EntityKind::Haiku, child)
    }

    fn generate_inner_query(selection: &Selection) -> (r: Result<String, QueryCreationError>) {
        generate_inner_query(EntityKind::Haiku, selection)
    }
}

impl MapsToDgraphQuery for DiscordUser {
    open spec fn entity_kind() -> EntityKind {
        EntityKind::DiscordUser
    }

    fn generate_inner_query_for_field(child: &Selection) -> (r: Result<
        String,
        QueryCreationError,
    >) {
        generate_inner_query_for_field(EntityKind::DiscordUser, child)
    }

    fn generate_inner_query(selection: &Selection) -> (r: Result<String, QueryCreationError>) {
        generate_inner_query(EntityKind::DiscordUser, selection)
    }
}

impl MapsToDgraphQuery for DiscordChannel {
    open spec fn entity_kind() -> EntityKind {
        EntityKind::DiscordChannel
    }

    fn generate_inner_query_for_field(child: &Selection) -> (r: Result<
        String,
        QueryCreationError,
    >) {
        generate_inner_query_for_field(EntityKind::DiscordChannel, child)
    }

    fn generate_inner_query(selection: &Selection) -> (r: Result<String, QueryCreationError>) {
        generate_inner_query(EntityKind::DiscordChannel, selection)
    }
}

impl MapsToDgraphQuery for DiscordServer {
    open spec fn entity_kind() -> EntityKind {
        EntityKind::DiscordServer
    }

    fn generate_inner_query_for_field(child: &Selection) -> (r: Result<
        String,
        QueryCreationError,
    >) {
        generate_inner_query_for_field(EntityKind::DiscordServer, child)
    }

    fn generate_inner_query(selection: &Selection) -> (r: Result<String, QueryCreationError>) {
        generate_inner_query(EntityKind::DiscordServer, selection)
    }
}

} // verus!
