use haiku_graph_api::engine::{resolve_selection, PathSeg};
use haiku_graph_api::error::{DgraphQueryError, ResolveError};
use haiku_graph_api::json::JsonValue;
use haiku_graph_api::query::Query;
use haiku_graph_api::resolve::{DiscordChannel, DiscordServer, DiscordUser, Haiku};
use haiku_graph_api::selection::{ArgValue, Selection};
use haiku_graph_api::translate::EntityKind;

fn s(text: &str) -> JsonValue {
    JsonValue::Str(text.to_string())
}

fn obj(entries: Vec<(&str, JsonValue)>) -> JsonValue {
    JsonValue::Obj(entries.into_iter().map(|(k, v)| (k.to_string(), v)).collect())
}

fn field(name: &str) -> Selection {
    Selection { name: name.to_string(), alias: None, args: Vec::new(), children: Vec::new() }
}

fn node(name: &str, children: Vec<Selection>) -> Selection {
    Selection { name: name.to_string(), alias: None, args: Vec::new(), children }
}

fn fail_path(segs: Vec<PathSeg>) -> Vec<Vec<PathSeg>> {
    vec![segs]
}

#[test]
fn resolve_fields() {
    // A haiku record with every field present resolves to exactly the
    // requested shape, with no errors.
    let haiku_json = obj(vec![
        ("id", s("1")),
        ("authors", JsonValue::Arr(vec![obj(vec![("discordSnowflake", s("0000000000000000001"))])])),
        ("content", s("line 1\nline 2\nline 3")),
        ("channel", obj(vec![("discordSnowflake", s("0000000000000000002"))])),
        ("serverChannel", obj(vec![(
            "server",
            obj(vec![("discordSnowflake", s("0000000000000000003"))]),
        )])),
        ("rulesVersion", JsonValue::Int(1)),
        ("timestamp", s("1977-02-03T05:00:00+00:00")),
    ]);
    let sel = node(
        "haiku",
        vec![
            field("id"),
            node("authors", vec![field("discordSnowflake")]),
            field("content"),
            node("channel", vec![field("discordSnowflake")]),
            node("server", vec![field("discordSnowflake")]),
            field("rulesVersion"),
            field("timestamp"),
        ],
    );
    let (value, errors) = resolve_selection(EntityKind::Haiku, &haiku_json, &sel);
    let expected = obj(vec![
        ("id", s("1")),
        ("authors", JsonValue::Arr(vec![obj(vec![("discordSnowflake", s("0000000000000000001"))])])),
        ("content", s("line 1\nline 2\nline 3")),
        ("channel", obj(vec![("discordSnowflake", s("0000000000000000002"))])),
        ("server", obj(vec![("discordSnowflake", s("0000000000000000003"))])),
        ("rulesVersion", JsonValue::Int(1)),
        ("timestamp", s("1977-02-03T05:00:00+00:00")),
    ]);
    assert_eq!(errors.len(), 0);
    assert_eq!(value, Some(expected));
}

#[test]
fn discord_channel_resolve_fields() {
    let channel_json = obj(vec![
        ("discordSnowflake", s("0000000000000000001")),
        ("server", obj(vec![("discordSnowflake", s("0000000000000000002"))])),
        ("haikus", JsonValue::Arr(vec![obj(vec![("id", s("1"))])])),
    ]);
    let sel = node(
        "channel",
        vec![
            field("discordSnowflake"),
            node("server", vec![field("discordSnowflake")]),
            node("haikus", vec![field("id")]),
        ],
    );
    let (value, errors) = resolve_selection(EntityKind::DiscordChannel, &channel_json, &sel);
    let expected = obj(vec![
        ("discordSnowflake", s("0000000000000000001")),
        ("server", obj(vec![("discordSnowflake", s("0000000000000000002"))])),
        ("haikus", JsonValue::Arr(vec![obj(vec![("id", s("1"))])])),
    ]);
    assert_eq!(errors.len(), 0);
    assert_eq!(value, Some(expected));
}

#[test]
fn discord_server_resolve_fields() {
    let server_json = obj(vec![
        ("discordSnowflake", s("0000000000000000001")),
        ("channels", JsonValue::Arr(vec![obj(vec![("discordSnowflake", s("0000000000000000002"))])])),
        ("haikuChannels", JsonValue::Arr(vec![obj(vec![(
            "haikus",
            JsonValue::Arr(vec![obj(vec![("id", s("1"))])]),
        )])])),
    ]);
    let sel = node(
        "server",
        vec![
            field("discordSnowflake"),
            node("channels", vec![field("discordSnowflake")]),
            node("haikus", vec![field("id")]),
        ],
    );
    let (value, errors) = resolve_selection(EntityKind::DiscordServer, &server_json, &sel);
    let expected = obj(vec![
        ("discordSnowflake", s("0000000000000000001")),
        ("channels", JsonValue::Arr(vec![obj(vec![("discordSnowflake", s("0000000000000000002"))])])),
        ("haikus", JsonValue::Arr(vec![obj(vec![("id", s("1"))])])),
    ]);
    assert_eq!(errors.len(), 0);
    assert_eq!(value, Some(expected));
}

#[test]
fn discord_user_resolve_fields() {
    let user_json = obj(vec![
        ("discordSnowflake", s("0000000000000000001")),
        ("haikus", JsonValue::Arr(vec![obj(vec![("id", s("1"))])])),
    ]);
    let sel = node(
        "user",
        vec![field("discordSnowflake"), node("haikus", vec![field("id")])],
    );
    let (value, errors) = resolve_selection(EntityKind::DiscordUser, &user_json, &sel);
    let expected = obj(vec![
        ("discordSnowflake", s("0000000000000000001")),
        ("haikus", JsonValue::Arr(vec![obj(vec![("id", s("1"))])])),
    ]);
    assert_eq!(errors.len(), 0);
    assert_eq!(value, Some(expected));
}

#[test]
fn entity_round_trip_without_errors() {
    let entity_json = obj(vec![
        ("discordSnowflake", s("1")),
        ("haikus", JsonValue::Arr(vec![obj(vec![("id", s("1"))])])),
    ]);
    let sel = node(
        "user",
        vec![field("discordSnowflake"), node("haikus", vec![field("id")])],
    );
    let (value, errors) = resolve_selection(EntityKind::DiscordUser, &entity_json, &sel);
    assert_eq!(errors.len(), 0);
    assert_eq!(value, Some(entity_json));
}

#[test]
fn required_fields_fail_on_empty_object_with_exact_path() {
    let empty = obj(vec![]);
    for name in ["id", "authors", "content", "channel", "server", "rulesVersion", "timestamp"] {
        let sel = node("haiku", vec![node(name, vec![field("discordSnowflake")])]);
        let (value, errors) = resolve_selection(EntityKind::Haiku, &empty, &sel);
        assert_eq!(value, None);
        assert_eq!(errors, fail_path(vec![PathSeg::Field(name.to_string())]));
    }
    let sel = node("channel", vec![field("discordSnowflake")]);
    let (value, errors) = resolve_selection(EntityKind::DiscordChannel, &empty, &sel);
    assert_eq!(value, None);
    assert_eq!(errors, fail_path(vec![PathSeg::Field("discordSnowflake".to_string())]));
}

#[test]
fn collection_fields_are_empty_on_empty_object() {
    let empty = obj(vec![]);

    let sel = node("user", vec![node("haikus", vec![field("id")])]);
    let (value, errors) = resolve_selection(EntityKind::DiscordUser, &empty, &sel);
    assert_eq!(errors.len(), 0);
    assert_eq!(value, Some(obj(vec![("haikus", JsonValue::Arr(vec![]))])));

    let sel = node("channel", vec![node("haikus", vec![field("id")])]);
    let (value, errors) = resolve_selection(EntityKind::DiscordChannel, &empty, &sel);
    assert_eq!(errors.len(), 0);
    assert_eq!(value, Some(obj(vec![("haikus", JsonValue::Arr(vec![]))])));

    let sel = node(
        "server",
        vec![node("channels", vec![field("id")]), node("haikus", vec![field("id")])],
    );
    let (value, errors) = resolve_selection(EntityKind::DiscordServer, &empty, &sel);
    assert_eq!(errors.len(), 0);
    assert_eq!(
        value,
        Some(obj(vec![
            ("channels", JsonValue::Arr(vec![])),
            ("haikus", JsonValue::Arr(vec![])),
        ]))
    );

    let search = Selection {
        name: "search".to_string(),
        alias: None,
        args: vec![
            ("term".to_string(), ArgValue::Str("haiku".to_string())),
            ("first".to_string(), ArgValue::Int(5)),
        ],
        children: vec![field("id")],
    };
    let sel = node("channel", vec![search]);
    let (value, errors) = resolve_selection(EntityKind::DiscordChannel, &empty, &sel);
    assert_eq!(errors.len(), 0);
    // The result is keyed by the field's response key; the fingerprint
    // alias only locates the subtree in the database's answer.
    assert_eq!(value, Some(obj(vec![("search", JsonValue::Arr(vec![]))])));
}

#[test]
fn search_results_found_under_fingerprint_alias() {
    let alias = haiku_graph_api::fingerprint::fingerprint("search", "haiku", 5);
    let channel_json = obj(vec![(alias.as_str(), JsonValue::Arr(vec![obj(vec![("id", s("7"))])]))]);
    let search = Selection {
        name: "search".to_string(),
        alias: None,
        args: vec![
            ("term".to_string(), ArgValue::Str("haiku".to_string())),
            ("first".to_string(), ArgValue::Int(5)),
        ],
        children: vec![field("id")],
    };
    let sel = node("channel", vec![search]);
    let (value, errors) = resolve_selection(EntityKind::DiscordChannel, &channel_json, &sel);
    assert_eq!(errors.len(), 0);
    assert_eq!(
        value,
        Some(obj(vec![("search", JsonValue::Arr(vec![obj(vec![("id", s("7"))])]))]))
    );

    let channel = DiscordChannel::from(channel_json);
    let found = channel.search("haiku", 5).unwrap();
    assert_eq!(found.len(), 1);
    assert_eq!(found[0].id().unwrap(), "7");
    assert_eq!(channel.search("winter", 5).unwrap().len(), 0);
}

#[test]
fn sibling_failures_are_all_reported() {
    let user_json = obj(vec![("haikus", JsonValue::Arr(vec![obj(vec![("id", JsonValue::Int(5))])]))]);
    let sel = node(
        "user",
        vec![field("discordSnowflake"), node("haikus", vec![field("id")])],
    );
    let (value, errors) = resolve_selection(EntityKind::DiscordUser, &user_json, &sel);
    assert_eq!(value, None);
    assert_eq!(
        errors,
        vec![
            vec![PathSeg::Field("discordSnowflake".to_string())],
            vec![
                PathSeg::Field("haikus".to_string()),
                PathSeg::Index(0),
                PathSeg::Field("id".to_string()),
            ],
        ]
    );
}

#[test]
fn aliases_key_the_response() {
    let haiku_json = obj(vec![("id", s("1"))]);
    let aliased = Selection {
        name: "id".to_string(),
        alias: Some("myId".to_string()),
        args: Vec::new(),
        children: Vec::new(),
    };
    let sel = node("haiku", vec![aliased]);
    let (value, errors) = resolve_selection(EntityKind::Haiku, &haiku_json, &sel);
    assert_eq!(errors.len(), 0);
    assert_eq!(value, Some(obj(vec![("myId", s("1"))])));
}

#[test]
fn haiku_accessors_resolve() {
    let haiku = Haiku::from(obj(vec![
        ("id", s("1")),
        ("content", s("line 1")),
        ("rulesVersion", JsonValue::Int(3)),
        ("timestamp", s("1977-02-03T05:00:00+00:00")),
        ("channel", obj(vec![("discordSnowflake", s("2"))])),
        ("serverChannel", obj(vec![("server", obj(vec![("discordSnowflake", s("3"))]))])),
        ("authors", JsonValue::Arr(vec![obj(vec![("discordSnowflake", s("4"))])])),
    ]));
    assert_eq!(haiku.id().unwrap(), "1");
    assert_eq!(haiku.content().unwrap(), "line 1");
    assert_eq!(haiku.rulesVersion().unwrap(), 3);
    assert_eq!(haiku.timestamp().unwrap(), "1977-02-03T05:00:00+00:00");
    assert_eq!(haiku.channel().unwrap().discordSnowflake().unwrap(), "2");
    assert_eq!(haiku.server().unwrap().discordSnowflake().unwrap(), "3");
    let authors = haiku.authors().unwrap();
    assert_eq!(authors.len(), 1);
    assert_eq!(authors[0].discordSnowflake().unwrap(), "4");
}

#[test]
fn haiku_accessors_reject_wrong_shapes() {
    let haiku = Haiku::from(obj(vec![
        ("id", JsonValue::Int(1)),
        ("rulesVersion", JsonValue::Int(3_000_000_000)),
        ("timestamp", s("yesterday")),
        ("authors", s("nobody")),
    ]));
    assert_eq!(haiku.id().unwrap_err(), ResolveError);
    assert_eq!(haiku.content().unwrap_err(), ResolveError);
    assert_eq!(haiku.rulesVersion().unwrap_err(), ResolveError);
    assert_eq!(haiku.timestamp().unwrap_err(), ResolveError);
    assert_eq!(haiku.authors().unwrap_err(), ResolveError);
    assert_eq!(haiku.channel().unwrap_err(), ResolveError);
    assert_eq!(haiku.server().unwrap_err(), ResolveError);
}

#[test]
fn lenient_collections_default_to_empty() {
    let user = DiscordUser::from(obj(vec![]));
    assert_eq!(user.haikus().unwrap().len(), 0);

    let channel = DiscordChannel::from(obj(vec![]));
    assert_eq!(channel.haikus().unwrap().len(), 0);

    let server = DiscordServer::from(obj(vec![]));
    assert_eq!(server.channels().unwrap().len(), 0);
    assert_eq!(server.haikus().unwrap().len(), 0);

    // Present but wrong-shaped is an error, not an empty collection.
    let bad = DiscordUser::from(obj(vec![("haikus", s("three"))]));
    assert_eq!(bad.haikus().unwrap_err(), ResolveError);
}

#[test]
fn server_haikus_flatten_channel_hops() {
    let server = DiscordServer::from(obj(vec![("haikuChannels", JsonValue::Arr(vec![
        obj(vec![("haikus", JsonValue::Arr(vec![obj(vec![("id", s("1"))])]))]),
        obj(vec![]),
        obj(vec![("haikus", JsonValue::Arr(vec![
            obj(vec![("id", s("2"))]),
            obj(vec![("id", s("3"))]),
        ]))]),
    ]))]));
    let haikus = server.haikus().unwrap();
    let ids: Vec<String> = haikus.iter().map(|h| h.id().unwrap()).collect();
    assert_eq!(ids, vec!["1", "2", "3"]);
}

#[test]
fn decode_haiku_response_shapes() {
    let found = Query::decode_haiku_response("{\"haiku\":[{\"id\":\"1\"}]}").unwrap();
    assert_eq!(found.unwrap().id().unwrap(), "1");

    let none = Query::decode_haiku_response("{\"haiku\":[]}").unwrap();
    assert!(none.is_none());

    assert_eq!(
        Query::decode_haiku_response("{}").unwrap_err(),
        DgraphQueryError::MalformedResponse
    );
    assert_eq!(
        Query::decode_haiku_response("not json").unwrap_err(),
        DgraphQueryError::InvalidJson
    );
}

#[test]
fn parsed_numbers_and_nesting_survive_decoding() {
    let found = Query::decode_haiku_response(
        "{\"haiku\":[{\"rulesVersion\":7,\"channel\":{\"discordSnowflake\":\"9\"}}]}",
    )
    .unwrap()
    .unwrap();
    assert_eq!(found.rulesVersion().unwrap(), 7);
    assert_eq!(found.channel().unwrap().discordSnowflake().unwrap(), "9");
}

#[test]
fn two_searches_resolve_side_by_side() {
    // Two invocations of the same parameterized field, with different
    // arguments, each find their own result subtree in one record.
    let spring_alias = haiku_graph_api::fingerprint::fingerprint("search", "spring", 2);
    let winter_alias = haiku_graph_api::fingerprint::fingerprint("search", "winter", 2);
    let channel_json = obj(vec![
        (spring_alias.as_str(), JsonValue::Arr(vec![obj(vec![("id", s("1"))])])),
        (winter_alias.as_str(), JsonValue::Arr(vec![obj(vec![("id", s("2"))])])),
    ]);
    let search = |alias: &str, term: &str| Selection {
        name: "search".to_string(),
        alias: Some(alias.to_string()),
        args: vec![
            ("term".to_string(), ArgValue::Str(term.to_string())),
            ("first".to_string(), ArgValue::Int(2)),
        ],
        children: vec![field("id")],
    };
    let sel = node("channel", vec![search("spring", "spring"), search("winter", "winter")]);
    let (value, errors) = resolve_selection(EntityKind::DiscordChannel, &channel_json, &sel);
    assert_eq!(errors.len(), 0);
    assert_eq!(
        value,
        Some(obj(vec![
            ("spring", JsonValue::Arr(vec![obj(vec![("id", s("1"))])])),
            ("winter", JsonValue::Arr(vec![obj(vec![("id", s("2"))])])),
        ]))
    );
}
