use compile_typst_site::compile::renderer_query_command;
use compile_typst_site::config::{Config, FileListing};
use compile_typst_site::listing::{
    files_as_json, has_short_digit_runs, listed_data, listing_query, ListingEntry, ListingError,
    MAX_DIGIT_RUN,
};

fn entry(key: &str, data: Option<&str>) -> ListingEntry {
    ListingEntry { key: key.to_string(), data: data.map(|d| d.to_string()) }
}

#[test]
fn empty_listing_is_an_empty_object() {
    assert_eq!(files_as_json(&Vec::new()), Ok("{}".to_string()));
}

#[test]
fn entries_without_data_list_an_empty_array() {
    let entries = vec![entry("/p/src/a.typ", None), entry("/p/src/b.png", None)];
    assert_eq!(
        files_as_json(&entries),
        Ok("{\"/p/src/a.typ\":[],\"/p/src/b.png\":[]}".to_string())
    );
}

#[test]
fn data_is_listed_in_compact_form() {
    let entries = vec![
        entry("/p/src/a.typ", Some("[ { \"title\" : \"A\", \"n\": 1 } ]\n")),
        entry("/p/src/b.typ", Some("[]")),
        entry("/p/src/c.txt", None),
    ];
    assert_eq!(
        files_as_json(&entries),
        Ok("{\"/p/src/a.typ\":[{\"title\":\"A\",\"n\":1}],\"/p/src/b.typ\":[],\"/p/src/c.txt\":[]}"
            .to_string())
    );
}

#[test]
fn a_repeated_key_keeps_its_place_and_takes_the_last_value() {
    let entries = vec![
        entry("a", Some("[1]")),
        entry("b", None),
        entry("a", Some("[2]")),
    ];
    assert_eq!(files_as_json(&entries), Ok("{\"a\":[2],\"b\":[]}".to_string()));
}

#[test]
fn keys_are_escaped() {
    let entries = vec![entry("/p/src/a \"b\".typ", None)];
    assert_eq!(files_as_json(&entries), Ok("{\"/p/src/a \\\"b\\\".typ\":[]}".to_string()));
}

#[test]
fn data_that_is_no_json_is_an_error() {
    let entries = vec![
        entry("a", Some("[1]")),
        entry("b", Some("[1,")),
        entry("c", Some("nonsense")),
    ];
    assert_eq!(files_as_json(&entries), Err(ListingError::InvalidData(1)));
    assert_eq!(files_as_json(&vec![entry("a", Some(""))]), Err(ListingError::InvalidData(0)));
}

#[test]
fn only_rendered_documents_are_queried() {
    let mut config = Config::new(b"/proj".to_vec());
    config.passthrough_copy_globs = vec!["raw/**".to_string()];
    config.file_listing = FileListing::IncludeData;
    assert_eq!(
        listing_query(b"/proj/src/a.typ", &config),
        Ok(Some(renderer_query_command(b"/proj/src/a.typ", &config)))
    );
    assert_eq!(listing_query(b"/proj/src/a.png", &config), Ok(None));
    assert_eq!(listing_query(b"/proj/src/raw/a.typ", &config), Ok(None));
    assert_eq!(listing_query(b"/proj/templates/a.typ", &config), Ok(None));
    assert!(listing_query(b"/else/a.typ", &config).is_err());
    config.file_listing = FileListing::Enabled;
    assert_eq!(listing_query(b"/proj/src/a.typ", &config), Ok(None));
    config.file_listing = FileListing::Disabled;
    assert_eq!(listing_query(b"/proj/src/a.typ", &config), Ok(None));
}

#[test]
fn failed_query_lists_no_data() {
    assert_eq!(listed_data(true, "[1]".to_string()), Some("[1]".to_string()));
    assert_eq!(listed_data(false, "[1]".to_string()), None);
    let entries = vec![ListingEntry { key: "a".to_string(), data: listed_data(false, "x".to_string()) }];
    assert_eq!(files_as_json(&entries), Ok("{\"a\":[]}".to_string()));
}

#[test]
fn digit_runs_are_measured() {
    assert_eq!(MAX_DIGIT_RUN, 32767);
    assert!(has_short_digit_runs(b""));
    assert!(has_short_digit_runs(b"[1, 22, 333]"));
    assert!(has_short_digit_runs("0".repeat(32767).as_bytes()));
    assert!(!has_short_digit_runs("0".repeat(32768).as_bytes()));
    let split = format!("{}.{}", "1".repeat(32767), "0".repeat(32767));
    assert!(has_short_digit_runs(split.as_bytes()));
    let late = format!("[\"a\", 0.{}]", "0".repeat(32768));
    assert!(!has_short_digit_runs(late.as_bytes()));
}

#[test]
fn data_with_an_overlong_fraction_is_refused() {
    let overlong = format!("[0.{}]", "0".repeat(32769));
    let entries = vec![entry("a", Some("[1]")), entry("b", Some(&overlong))];
    assert_eq!(files_as_json(&entries), Err(ListingError::InvalidData(1)));
    let overlong_text = format!("[\"{}\"]", "7".repeat(40000));
    assert_eq!(
        files_as_json(&vec![entry("a", Some(&overlong_text))]),
        Err(ListingError::InvalidData(0))
    );
}

#[test]
fn data_with_the_longest_fraction_is_listed() {
    let longest = format!("[0.{}]", "0".repeat(32767));
    assert_eq!(
        files_as_json(&vec![entry("a", Some(&longest))]),
        Ok("{\"a\":[0]}".to_string())
    );
}
