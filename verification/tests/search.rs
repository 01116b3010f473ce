use cargobay::containers::{HubRepo, ImageSearchResult};
use cargobay::search::{dockerhub_results, memory_limit_bytes, quay_item, quay_results, Json};

fn json(value: &serde_json::Value) -> Json {
    match value {
        serde_json::Value::Null => Json::Null,
        serde_json::Value::Bool(b) => Json::Bool(*b),
        serde_json::Value::Number(n) => Json::Number(n.as_u64()),
        serde_json::Value::String(s) => Json::Text(s.clone()),
        serde_json::Value::Array(items) => Json::Array(items.iter().map(json).collect()),
        serde_json::Value::Object(members) => {
            Json::Object(members.iter().map(|(k, v)| (k.clone(), json(v))).collect())
        }
    }
}

fn parse(text: &str) -> Json {
    json(&serde_json::from_str(text).expect("json"))
}

fn quay(reference: &str, description: &str, stars: Option<u64>) -> ImageSearchResult {
    ImageSearchResult {
        source: "quay".to_string(),
        reference: reference.to_string(),
        description: description.to_string(),
        stars,
        pulls: None,
        official: false,
    }
}

#[test]
fn a_found_repository_goes_by_its_name() {
    assert_eq!(
        quay_item(&parse(r#"{"name": "org/app", "description": "An app", "stars": 7}"#)),
        quay("quay.io/org/app", "An app", Some(7))
    );
    assert_eq!(
        quay_item(&parse(
            r#"{"namespace": "org", "repo_name": "app", "description": null, "star_count": 3}"#
        )),
        quay("quay.io/org/app", "", Some(3))
    );
    assert_eq!(
        quay_item(&parse(
            r#"{"namespace_name": "org", "repo_name": "app", "stars": 1, "star_count": 2}"#
        )),
        quay("quay.io/org/app", "", Some(1))
    );
    assert_eq!(
        quay_item(&parse(r#"{"namespace": 5, "namespace_name": "org", "repo_name": "app"}"#)),
        quay("quay.io/<unknown>", "", None)
    );
    assert_eq!(
        quay_item(&parse(r#"{"name": 5, "namespace": "org"}"#)),
        quay("quay.io/<unknown>", "", None)
    );
    assert_eq!(
        quay_item(&parse(r#"{"namespace": "org", "stars": -1}"#)),
        quay("quay.io/<unknown>", "", None)
    );
    assert_eq!(
        quay_item(&parse(r#"{"name": "a", "stars": "many", "star_count": 9}"#)),
        quay("quay.io/a", "", None)
    );
    assert_eq!(
        quay_item(&parse(r#"{"name": "a", "stars": 1.5}"#)),
        quay("quay.io/a", "", None)
    );
    assert_eq!(quay_item(&parse("[]")), quay("quay.io/<unknown>", "", None));
    assert_eq!(
        quay_item(&parse(r#""text""#)),
        quay("quay.io/<unknown>", "", None)
    );
}

#[test]
fn an_answer_lists_repositories_under_one_of_two_names() {
    let answer = parse(r#"{"results": [{"name": "a"}, {"name": "b"}, {"name": "c"}]}"#);
    assert_eq!(
        quay_results(&answer, 2),
        vec![quay("quay.io/a", "", None), quay("quay.io/b", "", None)]
    );
    assert_eq!(quay_results(&answer, 3).len(), 3);
    assert_eq!(quay_results(&answer, 100).len(), 3);
    assert_eq!(quay_results(&answer, 0), vec![]);

    let other = parse(r#"{"results": "none", "repositories": [{"name": "r"}]}"#);
    assert_eq!(quay_results(&other, 5), vec![quay("quay.io/r", "", None)]);

    let both = parse(r#"{"results": [], "repositories": [{"name": "r"}]}"#);
    assert_eq!(quay_results(&both, 5), vec![]);

    assert_eq!(quay_results(&parse("{}"), 5), vec![]);
    assert_eq!(quay_results(&parse("[1, 2]"), 5), vec![]);
    assert_eq!(quay_results(&parse("null"), 5), vec![]);
    assert_eq!(quay_results(&parse(r#"{"repositories": {}}"#), 5), vec![]);
}

#[test]
fn the_hub_shows_the_first_repositories_it_found() {
    let repo = |name: &str| HubRepo {
        name: name.to_string(),
        namespace: Some("me".to_string()),
        description: None,
        star_count: None,
        pull_count: None,
        is_official: None,
    };
    let repos = vec![repo("a"), repo("b"), repo("c")];
    let found = dockerhub_results(&repos, 2);
    assert_eq!(found.len(), 2);
    assert_eq!(found[0].reference, "me/a");
    assert_eq!(found[1].reference, "me/b");
    assert_eq!(dockerhub_results(&repos, 9).len(), 3);
    assert_eq!(dockerhub_results(&repos, 0), vec![]);
    assert_eq!(dockerhub_results(&vec![], 3), vec![]);
}

#[test]
fn the_memory_of_a_container_is_limited_in_bytes() {
    let expected = |mb: u64| (mb as i64).saturating_mul(1024).saturating_mul(1024);
    let cases = [
        0u64,
        1,
        2048,
        8_796_093_022_207,
        8_796_093_022_208,
        i64::MAX as u64,
        i64::MAX as u64 + 1,
        u64::MAX - 8_796_093_022_208,
        u64::MAX - 8_796_093_022_207,
        u64::MAX - 1,
        u64::MAX,
    ];
    for mb in cases {
        assert_eq!(memory_limit_bytes(mb), expected(mb), "{}", mb);
    }
    assert_eq!(memory_limit_bytes(2048), 2_147_483_648);
    assert_eq!(memory_limit_bytes(u64::MAX), -1_048_576);
    assert_eq!(memory_limit_bytes(8_796_093_022_208), i64::MAX);
    assert_eq!(memory_limit_bytes(1 << 63), i64::MIN);
}
