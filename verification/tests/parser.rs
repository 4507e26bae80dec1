use r34_api::post::rating_from_text;
use r34_api::{JsonValue, Post, R34Error, R34JsonParser, Rating};

const ANSWER: &str = r#"[
  {"preview_url":"https://x/thumb/1.jpg","sample_url":"https://x/sample/1.jpg","file_url":"https://x/img/1.png",
   "directory":1,"hash":"abc","width":1200,"height":900,"id":111,"image":"1.png","change":5,
   "owner":"alice","parent_id":0,"rating":"explicit","sample":true,"sample_height":600,"sample_width":800,
   "score":17,"tags":" 1girl  solo blue_eyes ","source":"https://twitter.com/x","status":"active",
   "has_notes":false,"comment_count":3},
  {"file_url":"https://x/img/2.png","image":"2.png","id":222,"rating":"safe","tags":"cat",
   "width":10,"height":20,"owner":"bob","score":0,"sample":false}
]"#;

fn parse(s: &str) -> Result<Vec<Post>, R34Error> {
    R34JsonParser::new().parse_json(s)
}

#[test]
fn empty_text_is_an_error() {
    match parse("") {
        Err(R34Error::R34EmptyReturn(m)) => assert_eq!(m, "One or more Tags didn't exist."),
        _ => panic!("expected the empty-answer error"),
    }
    match R34JsonParser::new().from_api_response("") {
        Err(R34Error::R34EmptyReturn(m)) => assert_eq!(m, "One or more Tags didn't exist."),
        _ => panic!("expected the empty-answer error"),
    }
}

#[test]
fn invalid_json_is_an_error() {
    assert!(matches!(parse("not json"), Err(R34Error::JsonParseError(_))));
    assert!(matches!(parse("[1, 2"), Err(R34Error::JsonParseError(_))));
    assert!(matches!(
        R34JsonParser::new().from_api_response("{\"a\":"),
        Err(R34Error::JsonParseError(_))
    ));
}

#[test]
fn posts_are_filled_in() {
    let posts = parse(ANSWER).unwrap();
    assert_eq!(posts.len(), 2);
    let p = &posts[0];
    assert_eq!(p.file_url, "https://x/img/1.png");
    assert_eq!(p.image, "1.png");
    assert_eq!(p.tags, vec!["1girl", "solo", "blue_eyes"]);
    assert_eq!(p.width, 1200);
    assert_eq!(p.height, 900);
    assert!(p.sample);
    assert_eq!(p.sample_width, 800);
    assert_eq!(p.sample_height, 600);
    assert_eq!(p.source, "https://twitter.com/x");
    assert_eq!(p.id, 111);
    assert_eq!(p.score, 17);
    assert_eq!(p.parent_id, 0);
    assert_eq!(p.comment_count, 3);
    assert_eq!(p.preview_url, "https://x/thumb/1.jpg");
    assert_eq!(p.owner, "alice");
    assert_eq!(p.rating, Some(Rating::Explicit));
    let q = &posts[1];
    assert_eq!(q.id, 222);
    assert_eq!(q.rating, Some(Rating::Safe));
    assert_eq!(q.tags, vec!["cat"]);
    assert_eq!(q.source, "");
    assert_eq!(q.comment_count, 0);
}

#[test]
fn sample_url_is_filled_by_default() {
    let posts = parse(ANSWER).unwrap();
    assert_eq!(posts[0].sample_url, "https://x/sample/1.jpg");
    let posts = parse(r#"[{"sample": true, "sample_url": "https://x.test/s.jpg"}]"#).unwrap();
    assert_eq!(posts.len(), 1);
    assert!(posts[0].sample);
    assert_eq!(posts[0].sample_url, "https://x.test/s.jpg");
}

#[test]
fn default_configuration_has_every_documented_key() {
    let parser = R34JsonParser::new();
    let mut keys: Vec<&str> = parser.conf.iter().map(|(k, _)| *k).collect();
    keys.sort();
    let mut expected = vec![
        "id", "parent_id", "image", "tags", "source", "owner", "score", "comment_count", "rating",
        "sample", "file_url", "sample_url", "preview_url", "width", "height", "sample_width",
        "sample_height",
    ];
    expected.sort();
    assert_eq!(keys, expected);
    assert!(parser.conf.iter().all(|(_, b)| *b));
}

#[test]
fn compact_and_pretty_forms_give_same_posts() {
    let compact = r#"[{"id":5,"tags":"a b","rating":"safe","width":7,"sample":true,"owner":"z\"q"}]"#;
    let pretty = "[\n  {\n    \"id\": 5,\n    \"tags\": \"a b\",\n    \"rating\": \"safe\",\n    \"width\": 7,\n    \"sample\": true,\n    \"owner\": \"z\\\"q\"\n  }\n]";
    for text in [compact, pretty] {
        let a = R34JsonParser::new().from_api_response(text).unwrap();
        let b = parse(text).unwrap();
        assert_eq!(a[0].id, 5);
        assert_eq!(a[0].owner, "z\"q");
        assert_eq!(a[0].tags, b[0].tags);
        assert_eq!(a[0].owner, b[0].owner);
        assert_eq!(a[0].width, b[0].width);
        assert_eq!(a[0].rating, b[0].rating);
    }
}

#[test]
fn from_api_response_matches_parse_json() {
    let a = parse(ANSWER).unwrap();
    let b = R34JsonParser::new().from_api_response(ANSWER).unwrap();
    assert_eq!(a.len(), b.len());
    for (x, y) in a.iter().zip(b.iter()) {
        assert_eq!(x.file_url, y.file_url);
        assert_eq!(x.tags, y.tags);
        assert_eq!(x.id, y.id);
        assert_eq!(x.rating, y.rating);
        assert_eq!(x.width, y.width);
    }
}

#[test]
fn switched_off_fields_keep_defaults() {
    let mut parser = R34JsonParser::new().set_conf("tags", false).set_conf("id", false);
    let posts = parser.parse_json(ANSWER).unwrap();
    assert!(posts[0].tags.is_empty());
    assert_eq!(posts[0].id, 1);
    assert_eq!(posts[0].width, 1200);
    let mut parser = parser.set_conf("tags", true);
    let posts = parser.parse_json(ANSWER).unwrap();
    assert_eq!(posts[0].tags.len(), 3);
    assert_eq!(posts[0].id, 1);
}

#[test]
fn every_documented_key_can_be_switched() {
    let keys = [
        "id", "parent_id", "image", "tags", "source", "owner", "score", "comment_count", "rating",
        "sample", "file_url", "sample_url", "preview_url", "width", "height", "sample_width",
        "sample_height",
    ];
    for key in keys {
        let parser = R34JsonParser::new().set_conf(key, false);
        assert_eq!(parser.conf.len(), 17);
        for (k, b) in &parser.conf {
            assert_eq!(*b, *k != key);
        }
        let parser = parser.set_conf(key, true);
        assert!(parser.conf.iter().all(|(_, b)| *b));
    }
    let mut parser = R34JsonParser::new().set_conf("sample_url", false);
    let posts = parser.parse_json(ANSWER).unwrap();
    assert_eq!(posts[0].sample_url, "");
}

#[test]
fn non_array_answers_have_no_posts() {
    assert_eq!(parse("{\"id\": 3}").unwrap().len(), 0);
    assert_eq!(parse("42").unwrap().len(), 0);
    assert_eq!(parse("[]").unwrap().len(), 0);
}

#[test]
fn non_object_elements_give_default_posts() {
    let posts = parse("[1, \"x\", null]").unwrap();
    assert_eq!(posts.len(), 3);
    for p in &posts {
        assert_eq!(p.id, 1);
        assert!(p.tags.is_empty());
        assert!(p.rating.is_none());
    }
}

#[test]
fn wrong_types_are_skipped() {
    let posts = parse(r#"[{"id":"7","file_url":5,"sample":"yes","tags":["a"],"rating":"weird"}]"#).unwrap();
    let p = &posts[0];
    assert_eq!(p.id, 1);
    assert_eq!(p.file_url, "");
    assert!(!p.sample);
    assert!(p.tags.is_empty());
    assert_eq!(p.rating, None);
}

#[test]
fn numbers_that_are_not_u64_are_refused() {
    let mut parser = R34JsonParser::new();
    assert!(parser.try_parse_json(r#"[{"width":-1}]"#).is_none());
    assert!(parser.try_parse_json(r#"[{"score":1.5}]"#).is_none());
    assert!(parser.try_from_api_response(r#"[{"height":-3}]"#).is_none());
    let ok = parser.try_parse_json(r#"[{"width":3}]"#).unwrap().unwrap();
    assert_eq!(ok[0].width, 3);
    assert!(matches!(parser.try_parse_json(""), Some(Err(R34Error::R34EmptyReturn(_)))));
    assert!(matches!(parser.try_parse_json("nope"), Some(Err(R34Error::JsonParseError(_)))));
    let parser = parser.set_conf("width", false);
    let mut parser = parser;
    let ok = parser.try_parse_json(r#"[{"width":-1}]"#).unwrap().unwrap();
    assert_eq!(ok[0].width, 0);
    let ok = parser.try_from_api_response(r#"[{"width":-1}]"#).unwrap().unwrap();
    assert_eq!(ok[0].width, 0);
}

#[test]
fn large_ids_are_kept() {
    let posts = parse(r#"[{"id":18446744073709551615}]"#).unwrap();
    assert_eq!(posts[0].id, u64::MAX);
}

#[test]
fn posts_from_a_built_value() {
    let parser = R34JsonParser::new();
    let item = JsonValue::Object(vec![
        ("owner".to_string(), JsonValue::String("carol".to_string())),
        ("score".to_string(), JsonValue::Number(Some(8))),
        ("rating".to_string(), JsonValue::String("questionable".to_string())),
    ]);
    let posts = parser.posts_from_value(&JsonValue::Array(vec![item, JsonValue::Null]));
    assert_eq!(posts.len(), 2);
    assert_eq!(posts[0].owner, "carol");
    assert_eq!(posts[0].score, 8);
    assert_eq!(posts[0].rating, Some(Rating::Questionable));
    assert_eq!(posts[1].id, 1);
    assert!(parser.value_fits_check(&JsonValue::Array(vec![])));
    let bad = JsonValue::Array(vec![JsonValue::Object(vec![("id".to_string(), JsonValue::Number(None))])]);
    assert!(!parser.value_fits_check(&bad));
}

#[test]
fn rating_words() {
    assert_eq!(Rating::Explicit.to_string(), "explicit");
    assert_eq!(Rating::Safe.to_string(), "safe");
    assert_eq!(Rating::Questionable.to_string(), "questionable");
    assert_eq!(rating_from_text("safe"), Some(Rating::Safe));
    assert_eq!(rating_from_text("Safe"), None);
}

#[test]
fn post_text_form() {
    let posts = parse(ANSWER).unwrap();
    let text = posts[1].to_string();
    assert_eq!(
        text,
        "image: 2.png\nfile_url: https://x/img/2.png\nwidth: 10\nheight: 20\ntags: [\"cat\"]\nid: 222\nowner: bob\nrating: safe\nsample_url: \nsample_width: 0\nsample_height: 0\nsource: \nscore: 0\nparent_id: 0\ncomment_count: 0\npreview_url: \n"
    );
}

#[test]
fn default_post() {
    let p = Post::default();
    assert_eq!(p.id, 1);
    assert_eq!(p.width, 0);
    assert!(p.rating.is_none());
    assert!(p.file_url.is_empty());
}

#[test]
fn error_text() {
    let e = R34Error::R34EmptyReturn("gone".to_string());
    assert_eq!(e.to_string(), "gone");
    let expected = serde_json::from_str::<serde_json::Value>("x").unwrap_err().to_string();
    match parse("x") {
        Err(e) => assert_eq!(e.to_string(), expected),
        Ok(_) => panic!("expected an error"),
    }
}
