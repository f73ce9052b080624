use weld_db::configuration;
use weld_db::database::Database;
use weld_db::errors::LoadError;
use weld_db::flush::{FlushProgress, FlushStep};
use weld_db::json::{from_json, parse, print, to_json};
use weld_db::number::JsonNumber;
use weld_db::value::Json;

fn string(s: &str) -> Json {
    Json::String(s.to_string())
}

fn integer(i: u64) -> Json {
    Json::Number(JsonNumber::PosInt(i))
}

fn float(x: f64) -> Json {
    Json::Number(JsonNumber::Float(serde_json::Number::from_f64(x).unwrap()))
}

fn mapping(entries: Vec<(&str, Json)>) -> Json {
    Json::Mapping(entries.into_iter().map(|(k, v)| (k.to_string(), v)).collect())
}

fn post(id: u64, title: &str) -> Json {
    mapping(vec![("id", integer(id)), ("title", string(title))])
}

fn posts() -> Json {
    mapping(vec![("posts", Json::Sequence(vec![post(1, "a"), post(2, "b")]))])
}

const POSTS: &str = r#"{"posts":[{"id":1,"title":"a"},{"id":2,"title":"b"}]}"#;

fn config(path: &str) -> configuration::Database {
    configuration::Database { path: path.to_string() }
}

#[test]
fn a_new_store_holds_null_and_no_configuration() {
    let database = Database::new();
    assert_eq!(*database.data(), Json::Null);
    assert_eq!(database.configuration(), None);
}

#[test]
fn loading_an_empty_file_is_refused() {
    let mut database = Database::new();
    assert_eq!(database.open(Some("")), Err(LoadError::Empty));
    assert_eq!(*database.data(), Json::Null);
    assert_eq!(database.load(&config("db.json"), Some("")), Err(LoadError::Empty));
}

#[test]
fn loading_a_file_that_cannot_be_read_is_refused() {
    let mut database = Database::new();
    assert_eq!(database.open(None), Err(LoadError::Unreadable));
    assert_eq!(*database.data(), Json::Null);
    assert_eq!(database.load(&config("db.json"), None), Err(LoadError::Unreadable));
    assert_eq!(database.configuration(), Some(&config("db.json")));
    assert_eq!(database.accept(Ok(posts())), Ok(()));
    assert_eq!(database.open(None), Err(LoadError::Unreadable));
    assert_eq!(*database.data(), posts());
}

#[test]
fn loading_what_is_no_document_is_refused() {
    let mut database = Database::new();
    assert_eq!(database.open(Some("not json")), Err(LoadError::Malformed));
    assert_eq!(database.open(Some(" ")), Err(LoadError::Malformed));
    assert_eq!(database.open(Some("{\"a\":1")), Err(LoadError::Malformed));
    assert_eq!(database.open(Some("{\"a\":1} x")), Err(LoadError::Malformed));
    assert_eq!(*database.data(), Json::Null);
}

#[test]
fn a_failed_load_keeps_the_document() {
    let mut database = Database::new();
    assert_eq!(database.open(Some(POSTS)), Ok(()));
    assert_eq!(database.open(Some("not json")), Err(LoadError::Malformed));
    assert_eq!(*database.data(), posts());
    assert_eq!(database.open(Some("")), Err(LoadError::Empty));
    assert_eq!(*database.data(), posts());
}

#[test]
fn load_binds_the_configuration_and_reads_the_document() {
    let mut database = Database::new();
    assert_eq!(database.load(&config("db.json"), Some(POSTS)), Ok(()));
    assert_eq!(database.configuration(), Some(&config("db.json")));
    assert_eq!(*database.data(), posts());
    assert_eq!(database.load(&config("other.json"), Some("not json")), Err(LoadError::Malformed));
    assert_eq!(database.configuration(), Some(&config("other.json")));
    assert_eq!(*database.data(), posts());
}

#[test]
fn a_load_replaces_the_whole_document() {
    let mut database = Database::new();
    assert_eq!(database.open(Some(POSTS)), Ok(()));
    assert_eq!(database.open(Some("[1,2]")), Ok(()));
    assert_eq!(*database.data(), Json::Sequence(vec![integer(1), integer(2)]));
}

#[test]
fn accept_takes_the_document_or_passes_the_error_on() {
    let mut database = Database::new();
    assert_eq!(database.accept(Ok(posts())), Ok(()));
    assert_eq!(*database.data(), posts());
    assert_eq!(database.accept(Err(LoadError::Malformed)), Err(LoadError::Malformed));
    assert_eq!(database.accept(Err(LoadError::Empty)), Err(LoadError::Empty));
    assert_eq!(*database.data(), posts());
}

#[test]
fn flush_gives_the_compact_text_and_keeps_the_document() {
    let mut database = Database::new();
    assert_eq!(database.flush(), Some("null".to_string()));
    assert_eq!(database.accept(Ok(posts())), Ok(()));
    assert_eq!(database.flush(), Some(POSTS.to_string()));
    assert_eq!(*database.data(), posts());
}

#[test]
fn flush_then_load_gives_an_equal_document() {
    let document = mapping(vec![
        ("zeta", Json::Null),
        ("alpha", Json::Bool(true)),
        ("numbers", Json::Sequence(vec![
            integer(0),
            integer(u64::MAX),
            Json::Number(JsonNumber::NegInt(-1)),
            Json::Number(JsonNumber::NegInt(i64::MIN)),
            float(1.5),
            float(-0.1),
            float(1e300),
        ])),
        ("text", string("line\nbreak \"quoted\" \u{e9}\u{1f600}")),
        ("", mapping(vec![])),
        ("nested", Json::Sequence(vec![Json::Sequence(vec![]), posts()])),
    ]);
    let mut database = Database::new();
    assert_eq!(database.accept(Ok(document)), Ok(()));
    let text = database.flush().unwrap();
    let mut fresh = Database::new();
    assert_eq!(fresh.open(Some(&text)), Ok(()));
    assert_eq!(fresh.data(), database.data());
    assert_eq!(fresh.flush(), Some(text));
}

#[test]
fn an_update_is_seen_after_flush_and_a_fresh_load() {
    let mut database = Database::new();
    assert_eq!(database.load(&config("db.json"), Some(POSTS)), Ok(()));
    let mut keys = vec!["posts".to_string(), "1".to_string(), "title".to_string()];
    match Database::get_object(&mut keys, database.data_mut()) {
        Ok(node) => *node = string("updated"),
        Err(_) => panic!("the path exists"),
    }
    let text = database.flush().unwrap();
    assert_eq!(text, r#"{"posts":[{"id":1,"title":"updated"},{"id":2,"title":"b"}]}"#);
    let mut fresh = Database::new();
    assert_eq!(fresh.load(&config("db.json"), Some(&text)), Ok(()));
    let mut again = vec!["posts".to_string(), "1".to_string(), "title".to_string()];
    match Database::get_object(&mut again, fresh.data_mut()) {
        Ok(node) => assert_eq!(*node, string("updated")),
        Err(_) => panic!("the path exists"),
    }
}

#[test]
fn parse_reads_every_kind_of_value() {
    assert_eq!(parse("null"), Ok(Json::Null));
    assert_eq!(parse("true"), Ok(Json::Bool(true)));
    assert_eq!(parse("false"), Ok(Json::Bool(false)));
    assert_eq!(parse("12"), Ok(integer(12)));
    assert_eq!(parse("-12"), Ok(Json::Number(JsonNumber::NegInt(-12))));
    assert_eq!(parse("18446744073709551615"), Ok(integer(u64::MAX)));
    assert_eq!(parse("-9223372036854775808"), Ok(Json::Number(JsonNumber::NegInt(i64::MIN))));
    assert_eq!(parse("1.5"), Ok(float(1.5)));
    assert_eq!(parse("1e2"), Ok(float(100.0)));
    assert_eq!(parse("18446744073709551616"), Ok(float(18446744073709551616.0)));
    assert_eq!(parse("\"a\\nb\""), Ok(string("a\nb")));
    assert_eq!(parse("[]"), Ok(Json::Sequence(vec![])));
    assert_eq!(parse("{}"), Ok(mapping(vec![])));
    assert_eq!(parse(" [1, \"x\", [null]] "), Ok(Json::Sequence(vec![
        integer(1),
        string("x"),
        Json::Sequence(vec![Json::Null]),
    ])));
    assert_eq!(parse(POSTS), Ok(posts()));
}

#[test]
fn parse_refuses_what_is_no_document() {
    for text in ["", "not json", "{", "[1,]", "{\"a\"}", "'a'", "01", "1 2", "nul", "{a:1}"] {
        assert_eq!(parse(text), Err(LoadError::Malformed), "text {:?}", text);
    }
}

#[test]
fn parse_keeps_the_order_of_keys() {
    let document = parse(r#"{"b":1,"a":2,"c":3}"#).unwrap();
    assert_eq!(document, mapping(vec![("b", integer(1)), ("a", integer(2)), ("c", integer(3))]));
    assert_eq!(print(&document), Some(r#"{"b":1,"a":2,"c":3}"#.to_string()));
}

#[test]
fn parse_keeps_one_entry_for_a_repeated_key() {
    let document = parse(r#"{"a":1,"b":2,"a":3}"#).unwrap();
    assert!(document.is_well_formed());
    assert_eq!(document, mapping(vec![("a", integer(3)), ("b", integer(2))]));
}

#[test]
fn print_writes_compact_text() {
    assert_eq!(print(&Json::Null), Some("null".to_string()));
    assert_eq!(print(&Json::Bool(false)), Some("false".to_string()));
    assert_eq!(print(&integer(7)), Some("7".to_string()));
    assert_eq!(print(&Json::Number(JsonNumber::NegInt(-7))), Some("-7".to_string()));
    assert_eq!(print(&float(2.5)), Some("2.5".to_string()));
    assert_eq!(print(&string("a\"b")), Some("\"a\\\"b\"".to_string()));
    assert_eq!(print(&Json::Sequence(vec![integer(1), Json::Null])), Some("[1,null]".to_string()));
    assert_eq!(print(&posts()), Some(POSTS.to_string()));
}

#[test]
fn from_json_reads_a_serde_tree() {
    let mut object = serde_json::Map::new();
    object.insert("id".to_string(), serde_json::Value::from(1u64));
    object.insert("title".to_string(), serde_json::Value::from("a"));
    let tree = serde_json::Value::Array(vec![
        serde_json::Value::Object(object),
        serde_json::Value::Null,
        serde_json::Value::Bool(true),
        serde_json::Value::from(-3i64),
        serde_json::Value::from(0.25f64),
    ]);
    assert_eq!(
        from_json(tree),
        Json::Sequence(vec![
            post(1, "a"),
            Json::Null,
            Json::Bool(true),
            Json::Number(JsonNumber::NegInt(-3)),
            float(0.25),
        ])
    );
}

#[test]
fn to_json_builds_a_serde_tree() {
    let mut object = serde_json::Map::new();
    object.insert("id".to_string(), serde_json::Value::from(2u64));
    object.insert("title".to_string(), serde_json::Value::from("b"));
    let expected = serde_json::Value::Array(vec![
        serde_json::Value::Object(object),
        serde_json::Value::from(-3i64),
        serde_json::Value::from(0.25f64),
        serde_json::Value::from("s"),
    ]);
    let document = Json::Sequence(vec![
        post(2, "b"),
        Json::Number(JsonNumber::NegInt(-3)),
        float(0.25),
        string("s"),
    ]);
    let tree = to_json(&document);
    assert_eq!(tree, expected);
    assert_eq!(serde_json::to_string(&tree).unwrap(), r#"[{"id":2,"title":"b"},-3,0.25,"s"]"#);
    assert_eq!(from_json(tree), document);
}

#[test]
fn numbers_go_to_serde_and_back() {
    assert_eq!(JsonNumber::PosInt(5).to_number(), serde_json::Number::from(5u64));
    assert_eq!(JsonNumber::NegInt(-5).to_number(), serde_json::Number::from(-5i64));
    let half = serde_json::Number::from_f64(0.5).unwrap();
    assert_eq!(JsonNumber::Float(half.clone()).to_number(), half);
    assert_eq!(JsonNumber::from_number(serde_json::Number::from(5u64)), JsonNumber::PosInt(5));
    assert_eq!(JsonNumber::from_number(serde_json::Number::from(5i64)), JsonNumber::PosInt(5));
    assert_eq!(JsonNumber::from_number(serde_json::Number::from(-5i64)), JsonNumber::NegInt(-5));
    assert_eq!(JsonNumber::from_number(serde_json::Number::from(u64::MAX)), JsonNumber::PosInt(u64::MAX));
    assert_eq!(JsonNumber::from_number(half.clone()), JsonNumber::Float(half));
}

#[test]
fn as_i64_is_the_integer_where_it_fits() {
    assert_eq!(JsonNumber::PosInt(0).as_i64(), Some(0));
    assert_eq!(JsonNumber::PosInt(i64::MAX as u64).as_i64(), Some(i64::MAX));
    assert_eq!(JsonNumber::PosInt(i64::MAX as u64 + 1).as_i64(), None);
    assert_eq!(JsonNumber::NegInt(i64::MIN).as_i64(), Some(i64::MIN));
    assert_eq!(JsonNumber::Float(serde_json::Number::from_f64(1.0).unwrap()).as_i64(), None);
}

#[test]
fn well_formed_numbers() {
    assert!(JsonNumber::PosInt(0).is_well_formed());
    assert!(JsonNumber::NegInt(-1).is_well_formed());
    assert!(!JsonNumber::NegInt(0).is_well_formed());
    assert!(!JsonNumber::NegInt(1).is_well_formed());
    assert!(JsonNumber::Float(serde_json::Number::from_f64(1.0).unwrap()).is_well_formed());
    assert!(!JsonNumber::Float(serde_json::Number::from(1u64)).is_well_formed());
}

#[test]
fn well_formed_documents() {
    assert!(Json::Null.is_well_formed());
    assert!(posts().is_well_formed());
    assert!(mapping(vec![]).is_well_formed());
    assert!(!mapping(vec![("a", integer(1)), ("b", integer(2)), ("a", integer(3))]).is_well_formed());
    assert!(!Json::Sequence(vec![integer(1), Json::Number(JsonNumber::NegInt(3))]).is_well_formed());
    assert!(!mapping(vec![("a", Json::Sequence(vec![mapping(vec![("k", Json::Null), ("k", Json::Null)])]))])
        .is_well_formed());
    assert!(mapping(vec![("a", mapping(vec![("a", Json::Null)])), ("b", mapping(vec![("a", Json::Null)]))])
        .is_well_formed());
    let entries = vec![("x".to_string(), Json::Null), ("y".to_string(), Json::Null)];
    assert!(Json::has_distinct_keys(&entries));
    let twice = vec![("x".to_string(), Json::Null), ("x".to_string(), Json::Bool(true))];
    assert!(!Json::has_distinct_keys(&twice));
}

#[test]
fn a_flush_reopens_truncates_writes_and_syncs() {
    let mut step = FlushStep::first();
    let mut taken = vec![step];
    loop {
        match step.proceed(true) {
            FlushProgress::Next(next) => {
                taken.push(next);
                step = next;
            }
            progress => {
                assert_eq!(progress, FlushProgress::Done(true));
                break;
            }
        }
    }
    assert_eq!(
        taken,
        vec![FlushStep::Reopen, FlushStep::Truncate, FlushStep::Write, FlushStep::Sync]
    );
}

#[test]
fn a_failed_step_ends_the_flush() {
    assert_eq!(FlushStep::Reopen.proceed(false), FlushProgress::Failed(FlushStep::Reopen));
    assert_eq!(FlushStep::Truncate.proceed(false), FlushProgress::Failed(FlushStep::Truncate));
    assert_eq!(FlushStep::Write.proceed(false), FlushProgress::Failed(FlushStep::Write));
    assert_eq!(FlushStep::Sync.proceed(false), FlushProgress::Done(false));
    assert_eq!(FlushStep::Reopen.proceed(true), FlushProgress::Next(FlushStep::Truncate));
    assert_eq!(FlushStep::Truncate.proceed(true), FlushProgress::Next(FlushStep::Write));
    assert_eq!(FlushStep::Write.proceed(true), FlushProgress::Next(FlushStep::Sync));
    assert_eq!(FlushStep::Sync.proceed(true), FlushProgress::Done(true));
}

#[test]
fn a_document_nested_too_deep_is_written_but_not_read_back() {
    let mut document = Json::Null;
    for _ in 0..200 {
        document = Json::Sequence(vec![document]);
    }
    let text = print(&document).unwrap();
    assert_eq!(text.len(), 404);
    assert_eq!(parse(&text), Err(LoadError::Malformed));
    let mut shallow = Json::Null;
    for _ in 0..100 {
        shallow = Json::Sequence(vec![shallow]);
    }
    let text = print(&shallow).unwrap();
    assert_eq!(parse(&text), Ok(shallow));
}

#[test]
fn a_clone_is_equal_and_apart() {
    let document = mapping(vec![
        ("posts", Json::Sequence(vec![post(1, "a"), post(2, "b")])),
        ("n", Json::Sequence(vec![integer(1), Json::Number(JsonNumber::NegInt(-2)), float(0.5)])),
        ("b", Json::Bool(true)),
        ("z", Json::Null),
    ]);
    let mut copy = document.clone();
    assert_eq!(copy, document);
    let mut keys = vec!["posts".to_string(), "2".to_string()];
    match Database::get_object(&mut keys, &mut copy) {
        Ok(node) => *node = Json::Null,
        Err(_) => panic!("the path exists"),
    }
    assert_ne!(copy, document);
    assert_eq!(JsonNumber::NegInt(-2).clone(), JsonNumber::NegInt(-2));
}
