use mdbook_content_loader::json::Json;
use mdbook_content_loader::transform::{sort_by_date_desc, transform};
use mdbook_content_loader::{load_collections, LoadError};

fn load(text: &str, ts: &str) -> Json {
    load_collections(Ok(text.to_string()), ts.to_string()).expect("load should succeed")
}

fn as_arr(j: &Json) -> &Vec<Json> {
    match j {
        Json::Arr(a) => a,
        _ => panic!("expected an array"),
    }
}

fn as_obj(j: &Json) -> &Vec<(String, Json)> {
    match j {
        Json::Obj(fields) => fields,
        _ => panic!("expected an object"),
    }
}

fn as_str(j: &Json) -> &str {
    match j {
        Json::Str(s) => s.as_str(),
        _ => panic!("expected a string"),
    }
}

fn field<'a>(j: &'a Json, key: &str) -> &'a Json {
    j.get(key).expect("missing field")
}

fn title_of(e: &Json) -> &str {
    as_str(field(e, "title"))
}

fn date_of(e: &Json) -> &str {
    as_str(field(e, "date"))
}

#[test]
fn scenario_a_draft_is_dropped() {
    let out = load(
        r#"{"entries":[{"title":"X","date":"2024-01-01"},{"title":"Y","date":"2024-03-01","draft":true}]}"#,
        "T",
    );
    let entries = as_arr(field(&out, "entries"));
    assert_eq!(entries.len(), 1);
    assert_eq!(title_of(&entries[0]), "X");
    let colls = as_obj(field(&out, "collections"));
    assert_eq!(colls.len(), 1);
    assert_eq!(colls[0].0, "posts");
    let posts = as_arr(&colls[0].1);
    assert_eq!(posts.len(), 1);
    assert_eq!(title_of(&posts[0]), "X");
}

#[test]
fn scenario_b_collection_sorted_descending() {
    let out = load(
        r#"{"entries":[{"title":"a","collection":"news","date":"2024-05-01"},{"title":"b","collection":"news","date":"2024-06-01"}]}"#,
        "T",
    );
    let colls = as_obj(field(&out, "collections"));
    assert_eq!(colls.len(), 1);
    assert_eq!(colls[0].0, "news");
    let news = as_arr(&colls[0].1);
    assert_eq!(news.len(), 2);
    assert_eq!(date_of(&news[0]), "2024-06-01");
    assert_eq!(date_of(&news[1]), "2024-05-01");
    assert!(field(&out, "collections").get("posts").is_none());
}

#[test]
fn drafts_absent_from_every_collection() {
    let out = load(
        r#"{"entries":[
            {"title":"p1","draft":true},
            {"title":"n1","collection":"news","draft":true},
            {"title":"n2","collection":"news"},
            {"title":"p2"}
        ]}"#,
        "T",
    );
    let entries = as_arr(field(&out, "entries"));
    assert_eq!(entries.len(), 2);
    assert_eq!(title_of(&entries[0]), "n2");
    assert_eq!(title_of(&entries[1]), "p2");
    for (_, coll) in as_obj(field(&out, "collections")) {
        for e in as_arr(coll) {
            assert!(e.get("draft").is_none());
        }
    }
}

#[test]
fn entry_lands_in_exactly_one_bucket() {
    let out = load(
        r#"{"entries":[
            {"title":"n","collection":"news","date":"2"},
            {"title":"p","date":"1"},
            {"title":"g","collection":"guides","date":"3"}
        ]}"#,
        "T",
    );
    let colls = as_obj(field(&out, "collections"));
    let names: Vec<&str> = colls.iter().map(|(n, _)| n.as_str()).collect();
    assert_eq!(names, vec!["news", "guides", "posts"]);
    let mut seen = 0;
    for (name, coll) in colls {
        for e in as_arr(coll) {
            seen += 1;
            let expected = match title_of(e) {
                "n" => "news",
                "p" => "posts",
                "g" => "guides",
                other => panic!("unexpected entry {other}"),
            };
            assert_eq!(name, expected);
        }
    }
    assert_eq!(seen, 3);
}

#[test]
fn adjacent_pairs_sorted_in_posts() {
    let out = load(
        r#"{"entries":[
            {"title":"a","date":"2023-01-01"},
            {"title":"b","date":"2025-01-01"},
            {"title":"c"},
            {"title":"d","date":"2024-06-30"}
        ]}"#,
        "T",
    );
    let colls = as_obj(field(&out, "collections"));
    let posts = as_arr(&colls[0].1);
    assert_eq!(posts.len(), 4);
    for pair in posts.windows(2) {
        let a = pair[0].get("date").map(as_str).unwrap_or("");
        let b = pair[1].get("date").map(as_str).unwrap_or("");
        assert!(a >= b);
    }
    assert_eq!(title_of(&posts[0]), "b");
    assert_eq!(title_of(&posts[3]), "c");
}

#[test]
fn empty_posts_key_is_omitted() {
    let out = load(
        r#"{"entries":[{"title":"n","collection":"news"},{"title":"p","draft":true}]}"#,
        "T",
    );
    let colls = as_obj(field(&out, "collections"));
    assert_eq!(colls.len(), 1);
    assert_eq!(colls[0].0, "news");
}

#[test]
fn empty_and_malformed_entry_lists() {
    for text in [r#"{"entries":[]}"#, r#"{}"#, r#"{"entries":7}"#, r#"[1,2]"#] {
        let out = load(text, "T");
        assert_eq!(as_arr(field(&out, "entries")).len(), 0);
        assert_eq!(as_obj(field(&out, "collections")).len(), 0);
    }
}

#[test]
fn exact_serialized_payload() {
    let out = load(r#"{"entries":[{"title":"X","date":"2024-01-01"}]}"#, "STAMP");
    let text = mdbook_content_loader::codec::serialize_json(&out);
    assert_eq!(
        text,
        r#"{"collections":{"posts":[{"date":"2024-01-01","title":"X"}]},"entries":[{"date":"2024-01-01","title":"X"}],"generated_at":"STAMP"}"#
    );
}

#[test]
fn round_trip_differs_only_in_generated_at() {
    let text = r#"{"entries":[{"title":"X","date":"1"},{"title":"Y","collection":"news"}]}"#;
    let a = load(text, "T1");
    let b = load(text, "T2");
    let sa = mdbook_content_loader::codec::serialize_json(&a);
    let sb = mdbook_content_loader::codec::serialize_json(&b);
    assert_eq!(sa.replace("\"generated_at\":\"T1\"", ""), sb.replace("\"generated_at\":\"T2\"", ""));
    assert_eq!(as_str(field(&a, "generated_at")), "T1");
    assert_eq!(as_str(field(&b, "generated_at")), "T2");
    let c = load(text, "T1");
    assert_eq!(sa, mdbook_content_loader::codec::serialize_json(&c));
}

#[test]
fn load_errors_pass_through() {
    let parse = load_collections(Ok("{not json".to_string()), "T".to_string());
    assert_eq!(parse.unwrap_err(), LoadError::ParseError);
    let missing = load_collections(Err(LoadError::NotFound), "T".to_string());
    assert_eq!(missing.unwrap_err(), LoadError::NotFound);
    let unreadable = load_collections(Err(LoadError::ReadError), "T".to_string());
    assert_eq!(unreadable.unwrap_err(), LoadError::ReadError);
    assert_eq!(LoadError::NotFound.message(), "content-collections.json not found");
    assert_eq!(LoadError::ReadError.message(), "Failed to read content-collections.json");
    assert_eq!(LoadError::ParseError.message(), "Failed to parse JSON");
}

#[test]
fn generated_at_is_the_given_timestamp() {
    let doc = mdbook_content_loader::codec::parse_json(r#"{"entries":[]}"#).unwrap();
    let out = transform(doc, "2024-01-01T00:00:00+00:00".to_string());
    assert_eq!(as_str(field(&out, "generated_at")), "2024-01-01T00:00:00+00:00");
}

#[test]
fn sort_by_date_desc_orders_and_keeps_entries() {
    let items = vec![
        Json::Obj(vec![("date".to_string(), Json::Str("1".to_string()))]),
        Json::Obj(vec![("date".to_string(), Json::Str("3".to_string()))]),
        Json::Obj(vec![("date".to_string(), Json::Str("2".to_string()))]),
        Json::Null,
    ];
    let sorted = sort_by_date_desc(items);
    assert_eq!(sorted.len(), 4);
    assert_eq!(date_of(&sorted[0]), "3");
    assert_eq!(date_of(&sorted[1]), "2");
    assert_eq!(date_of(&sorted[2]), "1");
    assert!(matches!(sorted[3], Json::Null));
}

#[test]
fn duplicate_is_deep_equality() {
    let doc = mdbook_content_loader::codec::parse_json(
        r#"{"a":[1,2,{"b":null}],"c":"x","d":true}"#,
    )
    .unwrap();
    let copy = doc.duplicate();
    let s1 = mdbook_content_loader::codec::serialize_json(&doc);
    let s2 = mdbook_content_loader::codec::serialize_json(&copy);
    assert_eq!(s1, s2);
    assert_eq!(s1, r#"{"a":[1,2,{"b":null}],"c":"x","d":true}"#);
}
