use ibr::text::{replace_all, web_url};

#[test]
fn interface_address_becomes_web_address() {
    assert_eq!(
        web_url("https://api.example.com/repos/acme/widgets/pulls/42"),
        "https://example.com/acme/widgets/pull/42"
    );
}

#[test]
fn rewritten_address_is_left_alone() {
    let once = web_url("https://api.example.com/repos/acme/widgets/pulls/42");
    let twice = web_url(&once);
    assert_eq!(once, twice);
    assert_eq!(twice, "https://example.com/acme/widgets/pull/42");
}

#[test]
fn address_without_markers_is_unchanged() {
    assert_eq!(web_url("https://example.com/acme/widgets/pull/7"), "https://example.com/acme/widgets/pull/7");
    assert_eq!(web_url(""), "");
}

#[test]
fn rest_of_the_path_is_kept() {
    assert_eq!(
        web_url("https://api.github.com/repos/acme/my.repo/pulls/3?x=1#top"),
        "https://github.com/acme/my.repo/pull/3?x=1#top"
    );
}

#[test]
fn replace_all_agrees_with_std() {
    let cases: Vec<(&str, &str, &str)> = vec![
        ("aaaa", "aa", "b"),
        ("aaa", "aa", "b"),
        ("abcabc", "bc", ""),
        ("abc", "abcd", "x"),
        ("", "a", "b"),
        ("héllo wörld", "ö", "oe"),
        ("pullspulls", "pulls", "pull"),
        ("xapi.", "api.", ""),
    ];
    for (text, pattern, with) in cases {
        assert_eq!(replace_all(text, pattern, with), text.replace(pattern, with));
    }
}

#[test]
fn replace_all_with_empty_pattern_changes_nothing() {
    assert_eq!(replace_all("abc", "", "x"), "abc");
}

#[test]
fn rewriting_twice_can_differ_where_a_marker_comes_back() {
    let once = web_url("aapi.pi.");
    assert_eq!(once, "api.");
    assert_eq!(web_url(&once), "");
}
