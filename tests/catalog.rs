use go_plugin::catalog::{is_blocked, remote_candidates, remote_versions, sort_versions};

fn listing(tags: &[&str]) -> String {
    let mut out = String::new();
    for t in tags {
        out.push_str("0123abcd\trefs/tags/go");
        out.push_str(t);
        out.push('\n');
    }
    out
}

fn strings(v: &[&str]) -> Vec<String> {
    v.iter().map(|s| s.to_string()).collect()
}

#[test]
fn sort_versions_is_numeric_not_lexicographic() {
    let sorted = sort_versions(strings(&["1.3", "1.21.0", "1.2", "1.10"]));
    assert_eq!(sorted, strings(&["1.2", "1.3", "1.10", "1.21.0"]));
}

#[test]
fn sort_versions_puts_candidates_before_release() {
    let sorted = sort_versions(strings(&["1.21.0", "1.21rc2", "1.20.5"]));
    assert_eq!(sorted, strings(&["1.20.5", "1.21rc2", "1.21.0"]));
}

#[test]
fn remote_versions_orders_the_listing() {
    let out = listing(&["1.3", "1.21.0", "1.10", "1.4"]);
    assert_eq!(remote_versions(&out), strings(&["1.3", "1.4", "1.10", "1.21.0"]));
}

#[test]
fn remote_versions_drops_blocked_tags() {
    let out = listing(&["1", "1.0", "1.0.3", "1.1", "1.1rc2", "1.2", "1.2.1", "1.8.5rc5", "1.8.5", "1.2.2"]);
    assert_eq!(remote_versions(&out), strings(&["1.2.2", "1.8.5"]));
}

#[test]
fn remote_versions_lists_duplicates_once() {
    let out = listing(&["1.20", "1.19", "1.20", "1.19", "1.20"]);
    assert_eq!(remote_versions(&out), strings(&["1.19", "1.20"]));
}

#[test]
fn remote_candidates_keep_first_occurrence_order() {
    let out = listing(&["1.20", "1.19", "1.20", "1.4"]);
    assert_eq!(remote_candidates(&out), strings(&["1.20", "1.19", "1.4"]));
}

#[test]
fn remote_candidates_take_text_after_last_go() {
    let out = "abc\trefs/tags/go/go1.5\nno-marker-here\n\n";
    assert_eq!(remote_candidates(out), strings(&["1.5", "no-marker-here"]));
}

#[test]
fn remote_versions_of_empty_listing_is_empty() {
    assert!(remote_versions("").is_empty());
    assert!(remote_versions("\n\n").is_empty());
}

#[test]
fn remote_versions_drop_empty_tokens() {
    let out = "abc\trefs/tags/go\nabc\trefs/tags/go1.7\n";
    assert_eq!(remote_versions(out), strings(&["1.7"]));
}

fn blocked(s: &str) -> bool {
    is_blocked(&s.chars().collect())
}

#[test]
fn blocklist_matches_legacy_tags() {
    for t in ["1", "1.0", "1.0.7", "1.1", "1.1rc3", "1.1.2", "1.2", "1x2", "1.2rc5", "1.2.1", "1.8.5rc5", "1a8b5rc5"] {
        assert!(blocked(t), "{t} should be blocked");
    }
}

#[test]
fn blocklist_keeps_regular_tags() {
    for t in ["1.2.2", "1.21.0", "1.8.5", "1.10", "1.0.10", "1.1rc", "2", "11", "1.8.5rc4", "", "1\n2"] {
        assert!(!blocked(t), "{t:?} should not be blocked");
    }
}
