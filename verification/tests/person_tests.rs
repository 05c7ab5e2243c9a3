use haiku_graph_api::error::ResolveError;
use haiku_graph_api::json::JsonValue;
use haiku_graph_api::person::Person;

fn s(text: &str) -> JsonValue {
    JsonValue::Str(text.to_string())
}

fn obj(entries: Vec<(&str, JsonValue)>) -> JsonValue {
    JsonValue::Obj(entries.into_iter().map(|(k, v)| (k.to_string(), v)).collect())
}

#[test]
fn person_name_resolves() {
    let person = Person { result_json: obj(vec![("name", s("Basho"))]) };
    assert_eq!(person.name().unwrap(), "Basho");

    let nameless = Person { result_json: obj(vec![]) };
    assert_eq!(nameless.name().unwrap_err(), ResolveError);
}

#[test]
fn person_friends_default_to_empty() {
    let loner = Person { result_json: obj(vec![]) };
    assert_eq!(loner.friends().unwrap().len(), 0);

    let person = Person {
        result_json: obj(vec![("friend", JsonValue::Arr(vec![
            obj(vec![("name", s("Issa"))]),
            obj(vec![("name", s("Buson"))]),
        ]))]),
    };
    let friends = person.friends().unwrap();
    assert_eq!(friends.len(), 2);
    assert_eq!(friends[0].name().unwrap(), "Issa");
    assert_eq!(friends[1].name().unwrap(), "Buson");
}

#[test]
fn person_best_friend_is_first_of_ranked_singleton() {
    let person = Person {
        result_json: obj(vec![("bestFriend", JsonValue::Arr(vec![obj(vec![("name", s("Issa"))])]))]),
    };
    assert_eq!(person.bestFriend().unwrap().unwrap().name().unwrap(), "Issa");

    let alone = Person { result_json: obj(vec![("bestFriend", JsonValue::Arr(vec![]))]) };
    assert!(alone.bestFriend().unwrap().is_none());

    let malformed = Person { result_json: obj(vec![("bestFriend", s("Issa"))]) };
    assert_eq!(malformed.bestFriend().unwrap_err(), ResolveError);

    let absent = Person { result_json: obj(vec![]) };
    assert_eq!(absent.bestFriend().unwrap_err(), ResolveError);
}
