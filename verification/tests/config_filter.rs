use indexnow_updater::config::{ConfigError, Configuration, EngineConfiguration};
use indexnow_updater::filter::ExcludeSet;
use indexnow_updater::config::normalize_base_url;

fn one_engine() -> Vec<(String, EngineConfiguration)> {
    vec![(
        "bing".to_string(),
        EngineConfiguration {
            indexnow_url: "https://bing.example/indexnow".to_string(),
            key_value: "key".to_string(),
            key_url: "https://example.com/key.txt".to_string(),
        },
    )]
}

#[test]
fn base_url_is_normalized_to_one_trailing_slash() {
    assert_eq!(normalize_base_url("https://example.com"), "https://example.com/");
    assert_eq!(normalize_base_url("https://example.com/"), "https://example.com/");
    assert_eq!(normalize_base_url("https://example.com///"), "https://example.com/");
}

#[test]
fn valid_configuration_derives_its_host() {
    let cfg = Configuration::new(
        "state.sqlite3".to_string(),
        Some(vec!["html".to_string(), "htm".to_string()]),
        None,
        "https://www.example.com//".to_string(),
        one_engine(),
    )
    .unwrap();
    assert_eq!(cfg.host, "www.example.com");
    assert_eq!(cfg.base_url, "https://www.example.com/");
    assert_eq!(cfg.database, "state.sqlite3");
}

#[test]
fn missing_extension_list_is_a_configuration_error() {
    let r = Configuration::new(
        "state.sqlite3".to_string(),
        None,
        None,
        "https://example.com/".to_string(),
        one_engine(),
    );
    assert!(matches!(r, Err(ConfigError::MissingExtensions)));
}

#[test]
fn base_url_without_a_host_is_a_configuration_error() {
    let r = Configuration::new(
        "state.sqlite3".to_string(),
        Some(vec!["html".to_string()]),
        None,
        "data:text/plain,hello".to_string(),
        one_engine(),
    );
    assert!(matches!(r, Err(ConfigError::NoHostname)));
}

#[test]
fn excluded_paths_never_reach_the_url_list() {
    let excludes = ExcludeSet::new(vec!["\\.tmp$".to_string(), "^/private/".to_string()]).unwrap();
    let paths = vec![
        "/site/a.html".to_string(),
        "/site/b.tmp".to_string(),
        "/private/c.html".to_string(),
        "/site/d.html".to_string(),
    ];
    let kept = excludes.filter(paths);
    assert_eq!(kept, vec!["/site/a.html".to_string(), "/site/d.html".to_string()]);
}

#[test]
fn exclusion_is_any_match_over_the_pattern_list() {
    let excludes = ExcludeSet::new(vec!["draft".to_string()]).unwrap();
    assert!(excludes.is_excluded("/site/draft-1.html"));
    assert!(!excludes.is_excluded("/site/final.html"));
}

#[test]
fn an_empty_exclude_set_keeps_everything() {
    let excludes = ExcludeSet::new(Vec::new()).unwrap();
    let paths = vec!["/a".to_string(), "/b".to_string()];
    assert_eq!(excludes.filter(paths.clone()), paths);
}

#[test]
fn a_malformed_pattern_is_a_configuration_error() {
    let r = ExcludeSet::new(vec!["ok.*".to_string(), "(".to_string()]);
    match r {
        Err(ConfigError::InvalidExclude(p)) => assert_eq!(p, "("),
        _ => panic!("a malformed pattern must be rejected"),
    }
}
