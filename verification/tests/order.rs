use reversify::model::{PlaylistItem, Track};
use reversify::order::{compute_order, sort_by_added_at, str_le};

fn item(added_at: &str, is_local: bool, uri: &str) -> PlaylistItem {
    PlaylistItem {
        added_at: added_at.to_string(),
        is_local,
        track: Track { uri: uri.to_string() },
    }
}

#[test]
fn round_trip_newest_first() {
    let items = vec![
        item("2021-01-01T00:00:00Z", false, "A"),
        item("2021-06-01T00:00:00Z", false, "B"),
        item("2020-01-01T00:00:00Z", false, "C"),
    ];
    let order = compute_order(items);
    assert_eq!(order, vec!["B".to_string(), "A".to_string(), "C".to_string()]);
}

#[test]
fn local_tracks_never_appear() {
    let items = vec![
        item("2023-01-01T00:00:00Z", true, "LOCAL-NEW"),
        item("2021-01-01T00:00:00Z", false, "A"),
        item("1999-01-01T00:00:00Z", true, "LOCAL-OLD"),
        item("2022-01-01T00:00:00Z", false, "B"),
    ];
    let order = compute_order(items);
    assert_eq!(order, vec!["B".to_string(), "A".to_string()]);
}

#[test]
fn all_local_gives_empty_order() {
    let items = vec![
        item("2021-01-01T00:00:00Z", true, "X"),
        item("2022-01-01T00:00:00Z", true, "Y"),
    ];
    let order = compute_order(items);
    assert!(order.is_empty());
}

#[test]
fn empty_input_gives_empty_order() {
    let order = compute_order(Vec::new());
    assert!(order.is_empty());
}

#[test]
fn equal_timestamps_keep_input_order_in_sort() {
    let items = vec![
        item("2021-01-01T00:00:00Z", false, "first"),
        item("2021-01-01T00:00:00Z", false, "second"),
        item("2021-01-01T00:00:00Z", false, "third"),
    ];
    let sorted = sort_by_added_at(items);
    let uris: Vec<String> = sorted.into_iter().map(|it| it.track.uri).collect();
    assert_eq!(
        uris,
        vec!["first".to_string(), "second".to_string(), "third".to_string()]
    );
}

#[test]
fn equal_timestamps_reverse_after_ordering() {
    // The ascending sort is stable, and the reversal then puts the later
    // input item first.
    let items = vec![
        item("2021-01-01T00:00:00Z", false, "earlier-in-input"),
        item("2021-01-01T00:00:00Z", false, "later-in-input"),
    ];
    let order = compute_order(items);
    assert_eq!(
        order,
        vec!["later-in-input".to_string(), "earlier-in-input".to_string()]
    );
}

#[test]
fn sort_is_ascending_by_timestamp() {
    let items = vec![
        item("2022-05-01T00:00:00Z", false, "c"),
        item("2020-01-01T00:00:00Z", false, "a"),
        item("2021-03-01T00:00:00Z", false, "b"),
    ];
    let sorted = sort_by_added_at(items);
    let uris: Vec<String> = sorted.into_iter().map(|it| it.track.uri).collect();
    assert_eq!(uris, vec!["a".to_string(), "b".to_string(), "c".to_string()]);
}

#[test]
fn str_le_is_lexicographic() {
    assert!(str_le("2020-01-01", "2021-01-01"));
    assert!(!str_le("2021-01-01", "2020-01-01"));
    assert!(str_le("abc", "abc"));
    assert!(str_le("ab", "abc"));
    assert!(!str_le("abc", "ab"));
    assert!(str_le("", "a"));
}
