use haiku_graph_api::error::QueryCreationError;
use haiku_graph_api::fingerprint::fingerprint;
use haiku_graph_api::person::Person;
use haiku_graph_api::query::{HaikuQueryError, Query};
use haiku_graph_api::selection::{ArgValue, Selection};
use haiku_graph_api::resolve::{DiscordChannel, Haiku};
use haiku_graph_api::translate::{generate_inner_query, EntityKind, MapsToDgraphQuery};
use haiku_graph_api::validate::{is_valid_haiku_id, is_valid_search_term, validate_search_args};

fn field(name: &str) -> Selection {
    Selection { name: name.to_string(), alias: None, args: Vec::new(), children: Vec::new() }
}

fn node(name: &str, children: Vec<Selection>) -> Selection {
    Selection { name: name.to_string(), alias: None, args: Vec::new(), children }
}

fn search_node(term: &str, first: i64) -> Selection {
    Selection {
        name: "search".to_string(),
        alias: None,
        args: vec![
            ("term".to_string(), ArgValue::Str(term.to_string())),
            ("first".to_string(), ArgValue::Int(first)),
        ],
        children: vec![field("id")],
    }
}

#[test]
fn api_version_is_fixed() {
    assert_eq!(Query::apiVersion(), "1.0");
}

#[test]
fn haiku_scalar_fields_compile() {
    let sel = node("haiku", vec![field("id"), field("content")]);
    let q = generate_inner_query(EntityKind::Haiku, &sel).unwrap();
    assert_eq!(q, "id: uid\ncontent");
}

#[test]
fn haiku_edge_fields_compile() {
    let sel = node(
        "haiku",
        vec![
            field("id"),
            node("authors", vec![field("discordSnowflake")]),
            node("channel", vec![field("discordSnowflake")]),
            node("server", vec![field("discordSnowflake")]),
        ],
    );
    let q = generate_inner_query(EntityKind::Haiku, &sel).unwrap();
    assert_eq!(
        q,
        "id: uid\n\
         authors: author @filter(type(DiscordUser)) { discordSnowflake }\n\
         channel @filter(type(DiscordChannel)) { discordSnowflake }\n\
         serverChannel: channel @filter(type(DiscordChannel)) { server @filter(type(DiscordServer)) { discordSnowflake } }"
    );
}

#[test]
fn user_channel_server_fields_compile() {
    let user_sel = node("author", vec![field("discordSnowflake"), node("haikus", vec![field("id")])]);
    let q = generate_inner_query(EntityKind::DiscordUser, &user_sel).unwrap();
    assert_eq!(q, "discordSnowflake\nhaikus: ~author @filter(type(Haiku)) { id: uid }");

    let channel_sel = node(
        "channel",
        vec![
            node("server", vec![field("discordSnowflake")]),
            node("haikus", vec![field("content")]),
        ],
    );
    let q = generate_inner_query(EntityKind::DiscordChannel, &channel_sel).unwrap();
    assert_eq!(
        q,
        "server: server @filter(type(DiscordServer)) { discordSnowflake }\n\
         haikus: ~channel @filter(type(Haiku)) { content }"
    );

    let server_sel = node(
        "server",
        vec![
            node("channels", vec![field("discordSnowflake")]),
            node("haikus", vec![field("id")]),
        ],
    );
    let q = generate_inner_query(EntityKind::DiscordServer, &server_sel).unwrap();
    assert_eq!(
        q,
        "channels: ~server @filter(type(DiscordChannel)) { discordSnowflake }\n\
         haikuChannels: ~server @filter(type(DiscordChannel)) { haikus: ~channel @filter(type(Haiku)) { id: uid } }"
    );
}

#[test]
fn unknown_fields_all_reported() {
    let sel = node(
        "haiku",
        vec![field("id"), field("bogus"), field("content"), field("alsoBogus")],
    );
    let err = generate_inner_query(EntityKind::Haiku, &sel).unwrap_err();
    match err {
        QueryCreationError::Composite(c) => {
            assert_eq!(c.at_field, "haiku");
            assert_eq!(
                c.children,
                vec![
                    QueryCreationError::UnknownField("bogus".to_string()),
                    QueryCreationError::UnknownField("alsoBogus".to_string()),
                ]
            );
        }
        other => panic!("expected a composite error, got {:?}", other),
    }
}

#[test]
fn nested_unknown_fields_reported_in_composite_tree() {
    let sel = node("haiku", vec![node("authors", vec![field("nope")])]);
    let err = generate_inner_query(EntityKind::Haiku, &sel).unwrap_err();
    let expected = QueryCreationError::Composite(haiku_graph_api::error::CompositeQueryCreationError {
        at_field: "haiku".to_string(),
        children: vec![QueryCreationError::Composite(
            haiku_graph_api::error::CompositeQueryCreationError {
                at_field: "authors".to_string(),
                children: vec![QueryCreationError::UnknownField("nope".to_string())],
            },
        )],
    });
    assert_eq!(err, expected);
}

#[test]
fn error_messages_render() {
    let err = QueryCreationError::Composite(haiku_graph_api::error::CompositeQueryCreationError {
        at_field: "haiku".to_string(),
        children: vec![
            QueryCreationError::UnknownField("bogus".to_string()),
            QueryCreationError::MissingArgument("term".to_string()),
            QueryCreationError::InvalidArgument("first".to_string(), "expected an integer".to_string()),
        ],
    });
    assert_eq!(
        err.to_message(),
        "haiku: {\nUnknown field: bogus,\nMissing argument: term,\nInvalid argument: first - expected an integer\n}"
    );
}

#[test]
fn identifier_validation() {
    assert!(is_valid_haiku_id("0x1a"));
    assert!(is_valid_haiku_id("0x0"));
    assert!(is_valid_haiku_id("0xDEADbeef123"));
    assert!(!is_valid_haiku_id("abc"));
    assert!(!is_valid_haiku_id(""));
    assert!(!is_valid_haiku_id("0x"));
    assert!(!is_valid_haiku_id("0x12g"));
    assert!(!is_valid_haiku_id("1x12"));
}

#[test]
fn search_term_validation() {
    assert!(is_valid_search_term("haiku spring"));
    assert!(is_valid_search_term("haiku"));
    assert!(!is_valid_search_term("haiku123"));
    assert!(!is_valid_search_term("  "));
    assert!(!is_valid_search_term("haiku,spring"));
    assert!(!is_valid_search_term(""));
    assert!(!is_valid_search_term(" haiku"));
    assert!(!is_valid_search_term("haiku "));
    assert!(!is_valid_search_term("haiku  spring"));
}

#[test]
fn search_argument_validation() {
    let ok = validate_search_args(&search_node("haiku spring", 5)).unwrap();
    assert_eq!(ok.term, "haiku spring");
    assert_eq!(ok.first, 5);

    let mut missing_term = search_node("x", 5);
    missing_term.args.remove(0);
    assert_eq!(
        validate_search_args(&missing_term).unwrap_err(),
        QueryCreationError::MissingArgument("term".to_string())
    );

    let mut missing_first = search_node("haiku", 5);
    missing_first.args.remove(1);
    assert_eq!(
        validate_search_args(&missing_first).unwrap_err(),
        QueryCreationError::MissingArgument("first".to_string())
    );

    assert_eq!(
        validate_search_args(&search_node("haiku123", 5)).unwrap_err(),
        QueryCreationError::InvalidArgument(
            "term".to_string(),
            "expected words of letters separated by single spaces".to_string()
        )
    );

    assert_eq!(
        validate_search_args(&search_node("haiku", 0)).unwrap_err(),
        QueryCreationError::InvalidArgument(
            "first".to_string(),
            "expected a count between 1 and 2147483647".to_string()
        )
    );

    let mut wrong_kind = search_node("haiku", 5);
    wrong_kind.args[0].1 = ArgValue::Int(3);
    assert_eq!(
        validate_search_args(&wrong_kind).unwrap_err(),
        QueryCreationError::InvalidArgument("term".to_string(), "expected a string".to_string())
    );

    let mut wrong_first = search_node("haiku", 5);
    wrong_first.args[1].1 = ArgValue::Str("five".to_string());
    assert_eq!(
        validate_search_args(&wrong_first).unwrap_err(),
        QueryCreationError::InvalidArgument("first".to_string(), "expected an integer".to_string())
    );
}

#[test]
fn fingerprints_are_deterministic_and_distinct() {
    let a1 = fingerprint("search", "haiku spring", 5);
    let a2 = fingerprint("search", "haiku spring", 5);
    assert_eq!(a1, a2);

    let b = fingerprint("search", "winter", 5);
    let c = fingerprint("search", "haiku spring", 6);
    assert_ne!(a1, b);
    assert_ne!(a1, c);
    assert_ne!(b, c);
}

#[test]
fn two_searches_coexist_in_one_query() {
    let sel = node(
        "channel",
        vec![search_node("haiku spring", 5), search_node("winter", 3)],
    );
    let q = generate_inner_query(EntityKind::DiscordChannel, &sel).unwrap();
    let a = fingerprint("search", "haiku spring", 5);
    let b = fingerprint("search", "winter", 3);
    assert_ne!(a, b);
    assert!(q.contains(a.as_str()));
    assert!(q.contains(b.as_str()));
    assert!(q.contains("anyoftext(content, \"haiku spring\")) (first: 5)"));
    assert!(q.contains("anyoftext(content, \"winter\")) (first: 3)"));
}

#[test]
fn search_fragment_shape() {
    let sel = node("channel", vec![search_node("haiku spring", 12)]);
    let q = generate_inner_query(EntityKind::DiscordChannel, &sel).unwrap();
    let alias = fingerprint("search", "haiku spring", 12);
    let expected = format!(
        "{}: ~channel @filter(type(Haiku) AND anyoftext(content, \"haiku spring\")) (first: 12) {{ id: uid }}",
        alias
    );
    assert_eq!(q, expected);
}

#[test]
fn root_query_wraps_fragment() {
    let sel = node("haiku", vec![field("id")]);
    let q = Query::compile_haiku_query("0x1a", &sel).unwrap();
    assert_eq!(
        q,
        "query haiku($id: string){ haiku(func: uid($id)) @filter(type(Haiku)) { id: uid } }"
    );
}

#[test]
fn invalid_identifier_short_circuits() {
    // Even a selection that would not compile is never reached.
    let sel = node("haiku", vec![field("bogus")]);
    assert_eq!(
        Query::compile_haiku_query("abc", &sel).unwrap_err(),
        HaikuQueryError::InvalidInput
    );
    assert_eq!(
        Query::compile_haiku_query("", &node("haiku", vec![field("id")])).unwrap_err(),
        HaikuQueryError::InvalidInput
    );
    assert_eq!(
        Query::compile_haiku_query("0x", &node("haiku", vec![field("id")])).unwrap_err(),
        HaikuQueryError::InvalidInput
    );
}

#[test]
fn compile_error_surfaces_detail() {
    let sel = node("haiku", vec![field("bogus")]);
    match Query::compile_haiku_query("0x1a", &sel).unwrap_err() {
        HaikuQueryError::Creation(QueryCreationError::Composite(c)) => {
            assert_eq!(c.at_field, "haiku");
            assert_eq!(c.children, vec![QueryCreationError::UnknownField("bogus".to_string())]);
        }
        other => panic!("expected a creation error, got {:?}", other),
    }
}

#[test]
fn person_query_compiles() {
    let sel = node(
        "person",
        vec![node("friends", vec![]), node("bestFriend", vec![])],
    );
    let q = Person::generate_query(&sel).unwrap();
    assert_eq!(
        q,
        "friend {\n\n}\nbestFriend: friend @facets(orderdesc: score) (first: 1) {\n\n}"
    );
}

#[test]
fn person_name_is_not_a_query_field() {
    let sel = node("person", vec![field("name")]);
    let err = Person::generate_query(&sel).unwrap_err();
    match err {
        QueryCreationError::Composite(c) => {
            assert_eq!(c.at_field, "person");
            assert_eq!(c.children, vec![QueryCreationError::UnknownField("name".to_string())]);
        }
        other => panic!("expected a composite error, got {:?}", other),
    }
}

#[test]
fn entities_translate_through_the_trait() {
    let sel = node("haiku", vec![field("id"), field("content")]);
    assert_eq!(Haiku::generate_inner_query(&sel).unwrap(), "id: uid\ncontent");
    assert_eq!(
        <Haiku as MapsToDgraphQuery>::generate_inner_query_for_field(&field("content")).unwrap(),
        "content"
    );
    assert_eq!(
        DiscordChannel::generate_inner_query_for_field(&field("nonsense")).unwrap_err(),
        QueryCreationError::UnknownField("nonsense".to_string())
    );
}
