use reversify::batch::split_batches;
use reversify::json::{json_escape, json_string, uris_body};

fn strs(v: &[&str]) -> Vec<String> {
    v.iter().map(|s| s.to_string()).collect()
}

#[test]
fn five_uris_split_into_two_two_one() {
    let batches = split_batches(strs(&["u1", "u2", "u3", "u4", "u5"]));
    assert_eq!(
        batches,
        vec![strs(&["u1", "u2"]), strs(&["u3", "u4"]), strs(&["u5"])]
    );
}

#[test]
fn four_uris_split_into_two_twos() {
    let batches = split_batches(strs(&["u1", "u2", "u3", "u4"]));
    assert_eq!(batches, vec![strs(&["u1", "u2"]), strs(&["u3", "u4"])]);
}

#[test]
fn one_uri_is_one_batch() {
    let batches = split_batches(strs(&["only"]));
    assert_eq!(batches, vec![strs(&["only"])]);
}

#[test]
fn no_uris_no_batches() {
    let batches = split_batches(Vec::new());
    assert!(batches.is_empty());
}

#[test]
fn empty_uris_body() {
    let body = uris_body(&Vec::new());
    assert_eq!(body, "{\"uris\":[]}");
}

#[test]
fn two_uris_body() {
    let body = uris_body(&strs(&["spotify:track:a", "spotify:track:b"]));
    assert_eq!(body, "{\"uris\":[\"spotify:track:a\",\"spotify:track:b\"]}");
}

#[test]
fn single_uri_body() {
    let body = uris_body(&strs(&["x"]));
    assert_eq!(body, "{\"uris\":[\"x\"]}");
}

#[test]
fn escape_quotes_and_backslashes() {
    assert_eq!(json_escape("say \"hi\""), "say \\\"hi\\\"");
    assert_eq!(json_escape("a\\b"), "a\\\\b");
    assert_eq!(json_escape("line\nbreak\r\ttab"), "line\\nbreak\\r\\ttab");
    assert_eq!(json_escape("plain"), "plain");
}

#[test]
fn json_string_quotes_and_escapes() {
    assert_eq!(json_string("a\"b"), "\"a\\\"b\"");
    assert_eq!(json_string(""), "\"\"");
}
