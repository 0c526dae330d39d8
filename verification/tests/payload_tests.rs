use indexnow_updater::config::{Configuration, EngineConfiguration};
use indexnow_updater::constants::{generate_user_agent, BATCH_SIZE};
use indexnow_updater::http::{classify_status, SubmitOutcome};
use indexnow_updater::payload::{build_post_payload, massage_payload, process_payload, split_batches};

#[test]
fn user_agent_names_program_version_and_repository() {
    assert_eq!(
        generate_user_agent(),
        "indexnow-updater/1.0.1 (https://git.ypbind.de/cgit/indexnow-updater)"
    );
}

#[test]
fn url_rewrite_replaces_the_root_prefix() {
    let rewritten = massage_payload(
        "https://example.com/",
        "/data/site/",
        vec!["/data/site/a/b.html".to_string()],
    );
    assert_eq!(rewritten, vec!["https://example.com/a/b.html".to_string()]);
}

#[test]
fn url_rewrite_touches_only_the_leading_occurrence() {
    let rewritten = massage_payload(
        "https://example.com/",
        "/data/site/",
        vec!["/data/site/data/site/x.html".to_string()],
    );
    assert_eq!(rewritten, vec!["https://example.com/data/site/x.html".to_string()]);
}

#[test]
fn url_rewrite_leaves_unrelated_paths_alone() {
    let rewritten =
        massage_payload("https://example.com/", "/data/site/", vec!["/elsewhere/x.html".to_string()]);
    assert_eq!(rewritten, vec!["/elsewhere/x.html".to_string()]);
}

fn numbered_urls(n: usize) -> Vec<String> {
    let mut v = Vec::new();
    for i in 0..n {
        v.push(format!("https://example.com/{}.html", i));
    }
    v
}

#[test]
fn empty_list_yields_no_batches() {
    assert_eq!(split_batches(&Vec::new()).len(), 0);
}

#[test]
fn short_list_yields_one_batch() {
    let batches = split_batches(&numbered_urls(3));
    assert_eq!(batches.len(), 1);
    assert_eq!(batches[0].len(), 3);
}

#[test]
fn exact_batch_size_yields_one_full_batch() {
    let batches = split_batches(&numbered_urls(BATCH_SIZE));
    assert_eq!(batches.len(), 1);
    assert_eq!(batches[0].len(), BATCH_SIZE);
}

#[test]
fn one_over_batch_size_yields_a_full_and_a_single_entry_batch() {
    let urls = numbered_urls(BATCH_SIZE + 1);
    let batches = split_batches(&urls);
    assert_eq!(batches.len(), 2);
    assert_eq!(batches[0].len(), BATCH_SIZE);
    assert_eq!(batches[1].len(), 1);
    assert_eq!(batches[0][0], urls[0]);
    assert_eq!(batches[1][0], urls[BATCH_SIZE]);
}

#[test]
fn batch_count_is_the_rounded_up_quotient() {
    let batches = split_batches(&numbered_urls(2 * BATCH_SIZE + 7));
    assert_eq!(batches.len(), 3);
    assert_eq!(batches[0].len(), BATCH_SIZE);
    assert_eq!(batches[1].len(), BATCH_SIZE);
    assert_eq!(batches[2].len(), 7);
}

#[test]
fn payload_has_the_fixed_wire_shape() {
    let urls = vec!["https://example.com/a.html".to_string(), "https://example.com/b.html".to_string()];
    let body = build_post_payload(
        "example.com",
        "secret-key",
        &Some("https://example.com/key.txt".to_string()),
        &urls,
    );
    assert_eq!(
        body,
        "{\"host\":\"example.com\",\"key\":\"secret-key\",\"keyLocation\":\"https://example.com/key.txt\",\"urlList\":[\"https://example.com/a.html\",\"https://example.com/b.html\"]}"
    );
}

#[test]
fn payload_omits_an_absent_key_location() {
    let body = build_post_payload("example.com", "k", &None, &vec!["u".to_string()]);
    assert_eq!(body, "{\"host\":\"example.com\",\"key\":\"k\",\"urlList\":[\"u\"]}");
}

#[test]
fn payload_escapes_quotes_and_backslashes() {
    let body = build_post_payload("example.com", "a\"b\\c", &None, &vec!["u\tv".to_string()]);
    assert_eq!(body, "{\"host\":\"example.com\",\"key\":\"a\\\"b\\\\c\",\"urlList\":[\"u\\tv\"]}");
}

#[test]
fn payload_escapes_control_characters() {
    let body = build_post_payload("h", "k", &None, &vec!["a\u{1}b\nc".to_string()]);
    assert_eq!(body, "{\"host\":\"h\",\"key\":\"k\",\"urlList\":[\"a\\u0001b\\nc\"]}");
}

#[test]
fn payload_is_well_formed_json() {
    let urls = vec!["https://example.com/a\"q.html".to_string()];
    let body = build_post_payload(
        "example.com",
        "key-1",
        &Some("https://example.com/key.txt".to_string()),
        &urls,
    );
    let parsed: serde_json::Value = serde_json::from_str(&body).unwrap();
    assert_eq!(parsed["host"], serde_json::Value::String("example.com".to_string()));
    assert_eq!(parsed["key"], serde_json::Value::String("key-1".to_string()));
    assert_eq!(
        parsed["keyLocation"],
        serde_json::Value::String("https://example.com/key.txt".to_string())
    );
    assert_eq!(
        parsed["urlList"][0],
        serde_json::Value::String("https://example.com/a\"q.html".to_string())
    );
}

fn sample_config() -> Configuration {
    let engines = vec![
        (
            "bing".to_string(),
            EngineConfiguration {
                indexnow_url: "https://bing.example/indexnow".to_string(),
                key_value: "key-b".to_string(),
                key_url: "https://example.com/key-b.txt".to_string(),
            },
        ),
        (
            "yandex".to_string(),
            EngineConfiguration {
                indexnow_url: "https://yandex.example/indexnow".to_string(),
                key_value: "key-y".to_string(),
                key_url: "https://example.com/key-y.txt".to_string(),
            },
        ),
    ];
    Configuration::new(
        "state.sqlite3".to_string(),
        Some(vec!["html".to_string()]),
        None,
        "https://example.com".to_string(),
        engines,
    )
    .unwrap()
}

#[test]
fn every_endpoint_receives_every_batch() {
    let cfg = sample_config();
    let list = vec!["https://example.com/a.html".to_string()];
    let requests = process_payload(&cfg, list);
    assert_eq!(requests.len(), 2);
    assert_eq!(requests[0].endpoint_url, "https://bing.example/indexnow");
    assert_eq!(requests[1].endpoint_url, "https://yandex.example/indexnow");
    assert_eq!(
        requests[0].body,
        "{\"host\":\"example.com\",\"key\":\"key-b\",\"keyLocation\":\"https://example.com/key-b.txt\",\"urlList\":[\"https://example.com/a.html\"]}"
    );
    assert_eq!(
        requests[1].body,
        "{\"host\":\"example.com\",\"key\":\"key-y\",\"keyLocation\":\"https://example.com/key-y.txt\",\"urlList\":[\"https://example.com/a.html\"]}"
    );
}

#[test]
fn empty_change_list_yields_no_requests() {
    let cfg = sample_config();
    let requests = process_payload(&cfg, Vec::new());
    assert_eq!(requests.len(), 0);
}

#[test]
fn status_codes_map_to_the_protocol_taxonomy() {
    assert_eq!(classify_status(200), SubmitOutcome::Success);
    assert_eq!(classify_status(202), SubmitOutcome::Success);
    assert_eq!(classify_status(400), SubmitOutcome::InvalidFormat);
    assert_eq!(classify_status(403), SubmitOutcome::InvalidKey);
    assert_eq!(classify_status(422), SubmitOutcome::UnprocessableUrls);
    assert_eq!(classify_status(429), SubmitOutcome::RateLimited);
    assert_eq!(classify_status(500), SubmitOutcome::UnexpectedStatus);
    assert_eq!(classify_status(301), SubmitOutcome::UnexpectedStatus);
}
