use indexnow_updater::hashing::content_hash_hex;
use indexnow_updater::scan::match_extension_list;
use indexnow_updater::strutil::{eq_ignore_case, find_first, last_index_of, replace_first};

#[test]
fn content_hash_is_the_hex_sha512_of_the_bytes() {
    let data: Vec<u8> = b"abc".to_vec();
    assert_eq!(
        content_hash_hex(&data),
        "ddaf35a193617abacc417349ae20413112e6fa4e89a97ea20a9eeee64b55d39a\
         2192992a274fc1a836ba3c23a3feebbd454d4423643ce80e2a9ac94fa54ca49f"
    );
}

#[test]
fn content_hash_of_empty_input() {
    let data: Vec<u8> = Vec::new();
    assert_eq!(
        content_hash_hex(&data),
        "cf83e1357eefb8bdf1542850d66d8007d620e4050b5715dc83f4a921d36ce9ce\
         47d0d13c5d85f2b0ff8318d2877eec2f63b931bd47417a81a538327af927da3e"
    );
}

#[test]
fn different_content_gives_a_different_hash() {
    let a: Vec<u8> = b"one".to_vec();
    let b: Vec<u8> = b"two".to_vec();
    assert_ne!(content_hash_hex(&a), content_hash_hex(&b));
    assert_eq!(content_hash_hex(&a).len(), 128);
}

#[test]
fn extension_matching_is_case_insensitive() {
    let exts = vec!["html".to_string(), "htm".to_string()];
    assert!(match_extension_list("/site/a.html", &exts));
    assert!(match_extension_list("/site/a.HTML", &exts));
    assert!(match_extension_list("/site/a.Htm", &exts));
    assert!(!match_extension_list("/site/a.txt", &exts));
}

#[test]
fn extension_case_folding_is_unicode() {
    let exts = vec!["htmä".to_string()];
    assert!(match_extension_list("/site/a.htmÄ", &exts));
    assert!(match_extension_list("/site/a.htmä", &exts));
    assert!(!match_extension_list("/site/a.htma", &exts));
}

#[test]
fn files_without_a_usable_extension_never_match() {
    let exts = vec!["html".to_string()];
    assert!(!match_extension_list("/site/noextension", &exts));
    assert!(!match_extension_list("/site/.bashrc", &exts));
    assert!(!match_extension_list("", &exts));
}

#[test]
fn only_the_final_component_carries_the_extension() {
    let exts = vec!["html".to_string()];
    assert!(match_extension_list("/site.html.d/page.html", &exts));
    assert!(!match_extension_list("/site.html.d/page.txt", &exts));
}

#[test]
fn case_insensitive_compare_is_ascii_only() {
    assert!(eq_ignore_case("HTML", "html"));
    assert!(eq_ignore_case("hTm", "Htm"));
    assert!(!eq_ignore_case("html", "htm"));
    assert!(!eq_ignore_case("a", "b"));
}

#[test]
fn find_first_returns_the_leftmost_occurrence() {
    assert_eq!(find_first("abcabc", "bc"), Some(1));
    assert_eq!(find_first("abcabc", "zz"), None);
    assert_eq!(find_first("abc", ""), Some(0));
}

#[test]
fn last_index_of_returns_the_rightmost_occurrence() {
    assert_eq!(last_index_of("a/b/c", '/'), Some(3));
    assert_eq!(last_index_of("abc", '/'), None);
}

#[test]
fn replace_first_touches_only_one_occurrence() {
    assert_eq!(replace_first("/root/root/x", "/root/", "/base/"), "/base/root/x");
    assert_eq!(replace_first("nothing here", "/root/", "/base/"), "nothing here");
}
