use compile_typst_site::glob::{check_patterns, matches_any, matches_pattern};

#[test]
fn star_stops_at_separators() {
    assert!(matches_pattern("*.css", b"style.css"));
    assert!(!matches_pattern("*.css", b"theme/style.css"));
    assert!(matches_pattern("**/*.css", b"theme/dark/style.css"));
    assert!(matches_pattern("assets/**", b"assets/img/a.png"));
    assert!(!matches_pattern("assets/**", b"other/a.png"));
    assert!(matches_pattern("img/?.png", b"img/a.png"));
    assert!(!matches_pattern("img/?.png", b"img//.png"));
}

#[test]
fn matching_is_exact_and_case_sensitive() {
    assert!(matches_pattern("a.png", b"a.png"));
    assert!(!matches_pattern("a.png", b"a.png.bak"));
    assert!(!matches_pattern("a.png", b"x/a.png"));
    assert!(!matches_pattern("*.PNG", b"a.png"));
    assert!(matches_pattern("*.png", b".png"));
    assert!(matches_pattern("*", b".hidden"));
    assert!(matches_pattern("\\*.png", b"*.png"));
    assert!(!matches_pattern("\\*.png", b"a.png"));
}

#[test]
fn invalid_pattern_matches_nothing() {
    assert!(!matches_pattern("[a", b"a"));
    assert!(!matches_pattern("{a,b", b"a"));
    assert!(!matches_any(&vec!["[a".to_string()], b"a"));
    assert!(matches_any(&vec!["[a".to_string(), "a".to_string()], b"a"));
}

#[test]
fn any_pattern_may_match() {
    let patterns = vec!["*.css".to_string(), "img/**".to_string()];
    assert!(matches_any(&patterns, b"a.css"));
    assert!(matches_any(&patterns, b"img/a/b.png"));
    assert!(!matches_any(&patterns, b"a.js"));
    assert!(!matches_any(&Vec::new(), b"a.css"));
}

#[test]
fn first_invalid_pattern_is_found() {
    assert!(check_patterns(&Vec::new()).is_ok());
    assert!(check_patterns(&vec!["*.css".to_string(), "**".to_string()]).is_ok());
    let e = check_patterns(&vec!["*.css".to_string(), "[a".to_string(), "{b".to_string()])
        .unwrap_err();
    assert_eq!(e.index, 1);
    assert!(!e.reason.is_empty());
    assert!(e.reason.contains("[a"));
    let e = check_patterns(&vec!["{b".to_string()]).unwrap_err();
    assert_eq!(e.index, 0);
    assert!(e.reason.contains("{b"));
}
