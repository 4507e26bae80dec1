use r34_api::text::decimal_string;
use r34_api::{format_id, ApiUrl};

const BASE: &str = "https://api.rule34.xxx/index.php?page=dapi&s=post&q=index";

#[test]
fn new_url_has_defaults() {
    let url = ApiUrl::new();
    assert_eq!(url.api_url, BASE);
    assert_eq!(url.req_limit, 1000);
    assert!(url.tags.is_empty());
    assert!(url.json);
    assert_eq!(url.ids.len(), 3);
    assert!(url.ids.iter().all(|(_, v)| v.is_none()));
}

#[test]
fn fresh_url_text() {
    let mut url = ApiUrl::new();
    assert_eq!(url.to_api_url(), format!("{}&tags=&limit=1000&json=1", BASE));
}

#[test]
fn one_tag_and_limit_as_documented() {
    let url = ApiUrl::new().add_tag("big_boobs").set_limit(5).to_api_url();
    assert_eq!(
        url,
        "https://api.rule34.xxx/index.php?page=dapi&s=post&q=index&tags=big_boobs&limit=5&json=1"
    );
}

#[test]
fn several_tags_are_joined_by_spaces() {
    let tags: Vec<String> = vec!["big_boobs".to_string(), "big_ass".to_string(), "dark_skin".to_string()];
    let url = ApiUrl::new().add_tags(tags).set_limit(5).to_api_url();
    assert_eq!(
        url,
        "https://api.rule34.xxx/index.php?page=dapi&s=post&q=index&tags=big_boobs big_ass dark_skin&limit=5&json=1"
    );
}

#[test]
fn add_tag_then_add_tags_keeps_order() {
    let url = ApiUrl::new()
        .add_tag("a")
        .add_tags(vec!["b".to_string(), "c".to_string()])
        .add_tag("d");
    assert_eq!(url.tags, vec!["a", "b", "c", "d"]);
}

#[test]
fn json_switch_off() {
    let url = ApiUrl::new().set_json_formatted(false).to_api_url();
    assert_eq!(url, format!("{}&tags=&limit=1000", BASE));
}

#[test]
fn ids_come_in_fixed_order() {
    let url = ApiUrl::new().set_cid(7).set_pid(2).set_id(5).to_api_url();
    assert_eq!(url, format!("{}&tags=&limit=1000&json=1&id=5&pid=2&cid=7", BASE));
}

#[test]
fn last_id_setting_wins() {
    let url = ApiUrl::new().set_id(1).set_id(42).to_api_url();
    assert_eq!(url, format!("{}&tags=&limit=1000&json=1&id=42", BASE));
    let url = ApiUrl::new().set_pid(3).set_pid(0);
    assert_eq!(url.ids.len(), 3);
}

#[test]
fn to_api_url_leaves_url_unchanged() {
    let mut url = ApiUrl::new().add_tag("x").set_pid(9);
    let first = url.to_api_url();
    let second = url.to_api_url();
    assert_eq!(first, second);
    assert_eq!(url.tags, vec!["x"]);
}

#[test]
fn big_limit_is_written_in_decimal() {
    let url = ApiUrl::new().set_limit(usize::MAX).to_api_url();
    assert_eq!(url, format!("{}&tags=&limit={}&json=1", BASE, usize::MAX));
    let url = ApiUrl::new().set_limit(0).to_api_url();
    assert_eq!(url, format!("{}&tags=&limit=0&json=1", BASE));
}

#[test]
fn format_id_cases() {
    let ids: Vec<(String, Option<usize>)> = vec![
        ("id".to_string(), Some(12)),
        ("pid".to_string(), None),
        ("id".to_string(), Some(99)),
    ];
    assert_eq!(format_id(&ids, "id"), "&id=12");
    assert_eq!(format_id(&ids, "pid"), "");
    assert_eq!(format_id(&ids, "cid"), "");
}

#[test]
fn id_not_in_defaults_is_added() {
    let mut url = ApiUrl::new();
    url.ids.clear();
    let mut url = url.set_id(3);
    assert_eq!(url.ids.len(), 1);
    assert_eq!(url.to_api_url(), format!("{}&tags=&limit=1000&json=1&id=3", BASE));
}

#[test]
fn decimal_matches_std() {
    for n in [0u64, 1, 9, 10, 11, 99, 100, 101, 1000, 12345, 4294967295, 4294967296, u64::MAX - 1, u64::MAX] {
        assert_eq!(decimal_string(n), n.to_string());
    }
    for n in 0u64..20000 {
        assert_eq!(decimal_string(n), n.to_string());
    }
}
