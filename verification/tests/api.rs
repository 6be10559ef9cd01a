use miniblog::database::Database;
use miniblog::handler::{create_post, get_feed, get_post, Handlers, JsonContentAfterMiddleWare};
use miniblog::ids::parse_uuid;
use miniblog::json::{parse_post, render_feed, render_post, ParseError};
use miniblog::model::Post;

const ID_1: u128 = 0x123e4567e89b12d3a456426614174000;
const ID_1_TEXT: &str = "123e4567-e89b-12d3-a456-426614174000";
const ID_2: u128 = 0x00000000000000000000000000000001;
const ID_2_TEXT: &str = "00000000-0000-0000-0000-000000000001";

fn sample_post() -> Post {
    Post::new(
        "A".to_string(),
        "B".to_string(),
        "C".to_string(),
        "2024-01-02T03:04:05Z".to_string(),
        ID_1,
    )
}

fn sample_json() -> String {
    format!(
        "{{\"id\":\"{}\",\"title\":\"A\",\"body\":\"B\",\"author\":\"C\",\"created_at\":\"2024-01-02T03:04:05Z\"}}",
        ID_1_TEXT
    )
}

#[test]
fn uuid_text_round_trip() {
    assert_eq!(parse_uuid(ID_1_TEXT), Some(ID_1));
    assert_eq!(parse_uuid(ID_2_TEXT), Some(ID_2));
    // uppercase digits are accepted
    assert_eq!(parse_uuid("123E4567-E89B-12D3-A456-426614174000"), Some(ID_1));
}

#[test]
fn uuid_text_rejections() {
    assert_eq!(parse_uuid("not-a-uuid"), None);
    assert_eq!(parse_uuid(""), None);
    assert_eq!(parse_uuid("123e4567e89b12d3a456426614174000"), None);
    assert_eq!(parse_uuid("123e4567-e89b-12d3-a456-42661417400g"), None);
    assert_eq!(parse_uuid("123e4567-e89b-12d3-a456-4266141740000"), None);
}

#[test]
fn render_post_exact_text() {
    let p = sample_post();
    assert_eq!(render_post(&p), sample_json());
}

#[test]
fn parse_render_round_trip() {
    let p = sample_post();
    let text = render_post(&p);
    match parse_post(&text) {
        Ok(q) => {
            assert_eq!(q.id, p.id);
            assert_eq!(q.title, p.title);
            assert_eq!(q.body, p.body);
            assert_eq!(q.author, p.author);
            assert_eq!(q.created_at, p.created_at);
        },
        Err(_) => panic!("rendered post did not parse"),
    }
}

#[test]
fn parse_round_trip_with_escapes() {
    let p = Post::new(
        "say \"hi\"\n".to_string(),
        "back\\slash and tab\t".to_string(),
        "ctrl\u{0001}char".to_string(),
        "2024-01-02T03:04:05Z".to_string(),
        ID_2,
    );
    let text = render_post(&p);
    match parse_post(&text) {
        Ok(q) => {
            assert_eq!(q.title, p.title);
            assert_eq!(q.body, p.body);
            assert_eq!(q.author, p.author);
        },
        Err(_) => panic!("escaped post did not parse"),
    }
}

#[test]
fn parse_accepts_whitespace_and_any_member_order() {
    let text = format!(
        " {{ \"title\" : \"A\" ,\n\"author\" : \"C\" , \"body\" : \"B\" ,\r\n\t\"created_at\" : \"now\" , \"id\" : \"{}\" }} ",
        ID_1_TEXT
    );
    match parse_post(&text) {
        Ok(q) => {
            assert_eq!(q.id, ID_1);
            assert_eq!(q.title, "A");
            assert_eq!(q.body, "B");
            assert_eq!(q.author, "C");
            assert_eq!(q.created_at, "now");
        },
        Err(_) => panic!("reordered post did not parse"),
    }
}

#[test]
fn parse_unicode_escape() {
    let text = format!(
        "{{\"id\":\"{}\",\"title\":\"\\u0041\\u000a\",\"body\":\"\",\"author\":\"\",\"created_at\":\"\"}}",
        ID_1_TEXT
    );
    match parse_post(&text) {
        Ok(q) => assert_eq!(q.title, "A\n"),
        Err(_) => panic!("unicode escape did not parse"),
    }
}

#[test]
fn parse_error_variants() {
    // not JSON at all
    assert!(matches!(parse_post("this is not json"), Err(ParseError::Syntax)));
    // fine JSON, but a required field is missing
    let missing = format!(
        "{{\"id\":\"{}\",\"title\":\"A\",\"body\":\"B\",\"author\":\"C\",\"extra\":\"x\"}}",
        ID_1_TEXT
    );
    assert!(matches!(parse_post(&missing), Err(ParseError::MissingField)));
    // all five fields, but the id is no UUID
    let bad_id = "{\"id\":\"nope\",\"title\":\"A\",\"body\":\"B\",\"author\":\"C\",\"created_at\":\"t\"}";
    assert!(matches!(parse_post(bad_id), Err(ParseError::BadId)));
    // a sixth member is refused
    let six = format!(
        "{{\"id\":\"{}\",\"title\":\"A\",\"body\":\"B\",\"author\":\"C\",\"created_at\":\"t\",\"extra\":\"x\"}}",
        ID_1_TEXT
    );
    assert!(matches!(parse_post(&six), Err(ParseError::Syntax)));
    // a duplicate member crowds a required one out
    let dup = format!(
        "{{\"id\":\"{}\",\"title\":\"A\",\"title\":\"B\",\"author\":\"C\",\"created_at\":\"t\"}}",
        ID_1_TEXT
    );
    assert!(matches!(parse_post(&dup), Err(ParseError::MissingField)));
    // non-string value
    let num = format!(
        "{{\"id\":\"{}\",\"title\":7,\"body\":\"B\",\"author\":\"C\",\"created_at\":\"t\"}}",
        ID_1_TEXT
    );
    assert!(matches!(parse_post(&num), Err(ParseError::Syntax)));
}

#[test]
fn store_insert_and_find() {
    let mut db = Database::new();
    assert_eq!(db.posts().len(), 0);
    db.insert_post(sample_post());
    assert_eq!(db.posts().len(), 1);
    match db.find_by_id(ID_1) {
        Some(p) => assert_eq!(p.title, "A"),
        None => panic!("inserted post not found"),
    }
    assert!(db.find_by_id(ID_2).is_none());
}

#[test]
fn create_inserts_and_echoes() {
    let mut db = Database::new();
    let payload = sample_json();
    let r = create_post(&mut db, &payload);
    assert_eq!(r.status, 201);
    assert_eq!(r.body, payload);
    assert_eq!(db.posts().len(), 1);
    assert_eq!(db.posts()[0].id, ID_1);
}

#[test]
fn malformed_payload_gives_400() {
    let mut db = Database::new();
    let r = create_post(&mut db, "this is not json");
    assert_eq!(r.status, 400);
    assert_eq!(r.body, "malformed JSON payload");
    assert_eq!(db.posts().len(), 0);
}

#[test]
fn feed_lists_posts_in_insertion_order() {
    let mut db = Database::new();
    let a = sample_post();
    let b = Post::new(
        "T2".to_string(),
        "B2".to_string(),
        "C2".to_string(),
        "2024-06-07T08:09:10Z".to_string(),
        ID_2,
    );
    db.insert_post(a);
    db.insert_post(b);
    let r = get_feed(&db);
    assert_eq!(r.status, 200);
    let expected = format!(
        "[{},{}]",
        render_post(&db.posts()[0]),
        render_post(&db.posts()[1])
    );
    assert_eq!(r.body, expected);
    assert_eq!(r.body, render_feed(db.posts()));
}

#[test]
fn empty_feed_is_empty_array() {
    let db = Database::new();
    let r = get_feed(&db);
    assert_eq!(r.status, 200);
    assert_eq!(r.body, "[]");
}

#[test]
fn get_post_found() {
    let mut db = Database::new();
    db.insert_post(sample_post());
    let r = get_post(&db, Some(ID_1_TEXT));
    assert_eq!(r.status, 200);
    assert_eq!(r.body, sample_json());
}

#[test]
fn unknown_uuid_gives_404_empty_body() {
    let mut db = Database::new();
    db.insert_post(sample_post());
    let r = get_post(&db, Some(ID_2_TEXT));
    assert_eq!(r.status, 404);
    assert_eq!(r.body, "");
}

#[test]
fn malformed_id_gives_400() {
    let db = Database::new();
    let r = get_post(&db, Some("not-a-uuid"));
    assert_eq!(r.status, 400);
    assert_eq!(r.body, "malformed post id");
}

#[test]
fn missing_id_param_gives_400() {
    let db = Database::new();
    let r = get_post(&db, None);
    assert_eq!(r.status, 400);
    assert_eq!(r.body, "");
}

#[test]
fn middleware_forces_json_content_type() {
    let mw = JsonContentAfterMiddleWare;
    let mut db = Database::new();
    // on a success
    let ok = mw.after(get_feed(&db));
    assert_eq!(ok.status, 200);
    assert_eq!(ok.content_type, Some("application/json".to_string()));
    // on an error, body and status are kept
    let err = mw.after(get_post(&db, Some("not-a-uuid")));
    assert_eq!(err.status, 400);
    assert_eq!(err.body, "malformed post id");
    assert_eq!(err.content_type, Some("application/json".to_string()));
}

#[test]
fn handlers_share_one_store() {
    let handlers = Handlers::new(Database::new());
    let payload = sample_json();
    let r = handlers.post_poster.handle(&payload);
    assert_eq!(r.status, 201);
    assert_eq!(r.body, payload);
    // the feed handler sees the insert through its own handle
    let feed = handlers.feed_getter.handle();
    assert_eq!(feed.status, 200);
    assert_eq!(feed.body, format!("[{}]", sample_json()));
    // and so does the lookup handler
    let got = handlers.post_getter.handle(Some(ID_1_TEXT));
    assert_eq!(got.status, 200);
    assert_eq!(got.body, sample_json());
    match handlers.post_getter.fetch(ID_1) {
        Some(p) => assert_eq!(p.title, "A"),
        None => panic!("fetch missed the inserted post"),
    }
    assert!(handlers.post_getter.fetch(ID_2).is_none());
}

#[test]
fn distinct_inserts_all_appear_once() {
    let handlers = Handlers::new(Database::new());
    let ids: Vec<u128> = (1u128..=8).collect();
    for id in &ids {
        let mut db = Database::new();
        let p = Post::new(
            format!("t{}", id),
            "b".to_string(),
            "a".to_string(),
            "now".to_string(),
            *id,
        );
        db.insert_post(p);
        let payload = render_post(&db.posts()[0]);
        let r = handlers.post_poster.handle(&payload);
        assert_eq!(r.status, 201);
    }
    let feed = handlers.feed_getter.handle();
    for id in &ids {
        let mut db = Database::new();
        db.insert_post(Post::new(
            format!("t{}", id),
            "b".to_string(),
            "a".to_string(),
            "now".to_string(),
            *id,
        ));
        let entry = render_post(&db.posts()[0]);
        assert_eq!(feed.body.matches(&entry).count(), 1);
    }
}

#[test]
fn concrete_scenario_single_post() {
    let handlers = Handlers::new(Database::new());
    let mw = JsonContentAfterMiddleWare;
    let payload = sample_json();
    let created = mw.after(handlers.post_poster.handle(&payload));
    assert_eq!(created.status, 201);
    assert_eq!(created.content_type, Some("application/json".to_string()));
    let got = mw.after(handlers.post_getter.handle(Some(ID_1_TEXT)));
    assert_eq!(got.status, 200);
    assert_eq!(got.body, sample_json());
    let feed = mw.after(handlers.feed_getter.handle());
    assert_eq!(feed.status, 200);
    assert_eq!(feed.body, format!("[{}]", sample_json()));
}

#[test]
fn parse_unicode_escape_beyond_ascii() {
    let text = format!(
        "{{\"id\":\"{}\",\"title\":\"caf\\u00e9 \\u20ac\",\"body\":\"\",\"author\":\"\",\"created_at\":\"\"}}",
        ID_1_TEXT
    );
    match parse_post(&text) {
        Ok(q) => assert_eq!(q.title, "café €"),
        Err(_) => panic!("non-ASCII escape did not parse"),
    }
}

#[test]
fn parse_rejects_surrogate_escape() {
    let text = format!(
        "{{\"id\":\"{}\",\"title\":\"\\ud800\",\"body\":\"\",\"author\":\"\",\"created_at\":\"\"}}",
        ID_1_TEXT
    );
    assert!(matches!(parse_post(&text), Err(ParseError::Syntax)));
}

#[test]
fn raw_non_ascii_round_trips() {
    let p = Post::new(
        "日本語 héllo".to_string(),
        "🙂 beyond the basic plane".to_string(),
        "ß".to_string(),
        "2024-01-02T03:04:05Z".to_string(),
        ID_2,
    );
    let text = render_post(&p);
    match parse_post(&text) {
        Ok(q) => {
            assert_eq!(q.title, p.title);
            assert_eq!(q.body, p.body);
            assert_eq!(q.author, p.author);
        },
        Err(_) => panic!("non-ASCII post did not parse"),
    }
}
