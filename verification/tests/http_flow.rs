use reversify::http::{Method, dec_u64, page_request, reset_request, token_request, append_request};
use reversify::model::{AccessToken, Config, Page, PlaylistItem, SyncError, Track};
use reversify::paginate::Paginator;
use reversify::status_ok;
use reversify::workflow::{IdleStep, Step, Workflow, idle_step};

fn config() -> Config {
    Config {
        client_id: "abc".to_string(),
        client_secret: "def".to_string(),
        refresh_token: "rt-1".to_string(),
        from: "src-list".to_string(),
        to: "dst-list".to_string(),
    }
}

fn item(added_at: &str, uri: &str) -> PlaylistItem {
    PlaylistItem {
        added_at: added_at.to_string(),
        is_local: false,
        track: Track { uri: uri.to_string() },
    }
}

#[test]
fn status_classification() {
    assert!(status_ok(200));
    assert!(status_ok(204));
    assert!(status_ok(299));
    assert!(!status_ok(199));
    assert!(!status_ok(300));
    assert!(!status_ok(401));
    assert!(!status_ok(500));
}

#[test]
fn decimal_rendering() {
    assert_eq!(dec_u64(0), "0");
    assert_eq!(dec_u64(7), "7");
    assert_eq!(dec_u64(50), "50");
    assert_eq!(dec_u64(12345), "12345");
}

#[test]
fn token_request_is_built_exactly() {
    let req = token_request(&config());
    assert!(matches!(req.method, Method::Post));
    assert_eq!(req.url, "https://accounts.spotify.com/api/token");
    assert_eq!(
        req.headers[0],
        (
            "Content-Type".to_string(),
            "application/x-www-form-urlencoded".to_string()
        )
    );
    // base64("abc:def") is YWJjOmRlZg==; an encoder that handed its input
    // back unchanged would fail here.
    assert_eq!(
        req.headers[1],
        ("Authorization".to_string(), "Basic YWJjOmRlZg==".to_string())
    );
    assert_eq!(
        req.body,
        "grant_type=refresh_token&refresh_token=rt-1&scope=playlist-read-private%20playlist-modify-private%20playlist-modify-public%20user-library-read%20user-library-modify"
    );
}

#[test]
fn page_request_is_built_exactly() {
    let req = page_request("tok", "src-list", 50);
    assert!(matches!(req.method, Method::Get));
    assert_eq!(
        req.url,
        "https://api.spotify.com/v1/playlists/src-list/tracks?offset=50&limit=50"
    );
    assert_eq!(
        req.headers,
        vec![("Authorization".to_string(), "Bearer tok".to_string())]
    );
    assert_eq!(req.body, "");
}

#[test]
fn reset_request_is_built_exactly() {
    let req = reset_request("tok", "dst-list");
    assert!(matches!(req.method, Method::Put));
    assert_eq!(req.url, "https://api.spotify.com/v1/playlists/dst-list/tracks");
    assert_eq!(req.body, "{\"uris\":[]}");
}

#[test]
fn append_request_is_built_exactly() {
    let req = append_request("tok", "dst-list", &vec!["a".to_string(), "b".to_string()]);
    assert!(matches!(req.method, Method::Post));
    assert_eq!(req.url, "https://api.spotify.com/v1/playlists/dst-list/tracks");
    assert_eq!(req.body, "{\"uris\":[\"a\",\"b\"]}");
}

#[test]
fn pagination_accumulates_113_items() {
    let mut pag = Paginator::new();
    let mk_items = |n: usize, tag: &str| -> Vec<PlaylistItem> {
        (0..n)
            .map(|i| item("2021-01-01T00:00:00Z", &format!("{tag}-{i}")))
            .collect()
    };
    pag.absorb_page(Page { items: mk_items(50, "p0"), next: Some("next-1".to_string()) });
    assert!(!pag.done);
    assert_eq!(pag.offset, 50);
    pag.absorb_page(Page { items: mk_items(50, "p1"), next: Some("next-2".to_string()) });
    assert!(!pag.done);
    assert_eq!(pag.offset, 100);
    pag.absorb_page(Page { items: mk_items(13, "p2"), next: None });
    assert!(pag.done);
    assert_eq!(pag.items.len(), 113);
    assert_eq!(pag.items[0].track.uri, "p0-0");
    assert_eq!(pag.items[112].track.uri, "p2-12");
}

#[test]
fn failed_token_exchange_aborts_the_run() {
    let (mut w, first) = Workflow::start(config());
    assert_eq!(first.url, "https://accounts.spotify.com/api/token");
    let step = w.on_token(401, "denied".to_string(), None);
    match step {
        Step::Abort(SyncError::Auth(body)) => assert_eq!(body, "denied"),
        _ => panic!("a non-2xx token response must abort the run"),
    }
}

#[test]
fn token_parse_failure_aborts_the_run() {
    let (mut w, _) = Workflow::start(config());
    let step = w.on_token(200, "not json".to_string(), None);
    assert!(matches!(step, Step::Abort(SyncError::Auth(_))));
}

#[test]
fn whole_run_issues_requests_in_order() {
    let (mut w, first) = Workflow::start(config());
    assert_eq!(first.url, "https://accounts.spotify.com/api/token");

    // token acquired: the destination reset goes out next
    let step = w.on_token(
        200,
        String::new(),
        Some(AccessToken { access_token: "tok".to_string(), scope: "playlist".to_string() }),
    );
    let req = match step {
        Step::Send(req) => req,
        _ => panic!("token success must send the reset"),
    };
    assert!(matches!(req.method, Method::Put));
    assert_eq!(req.url, "https://api.spotify.com/v1/playlists/dst-list/tracks");
    assert_eq!(req.body, "{\"uris\":[]}");

    // reset done: the first page is requested
    let step = w.on_reset(201, String::new());
    let req = match step {
        Step::Send(req) => req,
        _ => panic!("reset success must request the first page"),
    };
    assert_eq!(
        req.url,
        "https://api.spotify.com/v1/playlists/src-list/tracks?offset=0&limit=50"
    );

    // a page with a cursor: the next page is requested at offset 50
    let page = Page {
        items: vec![item("2020-01-01T00:00:00Z", "old"), item("2021-01-01T00:00:00Z", "new")],
        next: Some("more".to_string()),
    };
    let step = w.on_page(200, String::new(), Some(page));
    let req = match step {
        Step::Send(req) => req,
        _ => panic!("a page with a cursor must request the next page"),
    };
    assert_eq!(
        req.url,
        "https://api.spotify.com/v1/playlists/src-list/tracks?offset=50&limit=50"
    );

    // the final page: the ordered write begins, newest URI first
    let page = Page {
        items: vec![item("2022-01-01T00:00:00Z", "newest"), item("2019-01-01T00:00:00Z", "oldest")],
        next: None,
    };
    let step = w.on_page(200, String::new(), Some(page));
    let req = match step {
        Step::Send(req) => req,
        _ => panic!("the final page must start the writing"),
    };
    assert!(matches!(req.method, Method::Post));
    assert_eq!(req.body, "{\"uris\":[\"newest\",\"new\"]}");

    // first append done: the second batch follows after the delay
    let step = w.on_append(201, String::new());
    let req = match step {
        Step::DelaySend(delay, req) => {
            assert_eq!(delay, 100);
            req
        },
        _ => panic!("a further batch must follow after the delay"),
    };
    assert_eq!(req.body, "{\"uris\":[\"old\",\"oldest\"]}");

    // last append done: the run finishes
    let step = w.on_append(201, String::new());
    assert!(matches!(step, Step::Finished));
}

#[test]
fn failed_append_aborts_and_keeps_partial_state() {
    let (mut w, _) = Workflow::start(config());
    let _ = w.on_token(
        200,
        String::new(),
        Some(AccessToken { access_token: "tok".to_string(), scope: String::new() }),
    );
    let _ = w.on_reset(200, String::new());
    let page = Page {
        items: vec![
            item("2021-01-01T00:00:00Z", "a"),
            item("2021-02-01T00:00:00Z", "b"),
            item("2021-03-01T00:00:00Z", "c"),
        ],
        next: None,
    };
    let _ = w.on_page(200, String::new(), Some(page));
    let step = w.on_append(429, "rate limited".to_string());
    match step {
        Step::Abort(SyncError::Write(body)) => assert_eq!(body, "rate limited"),
        _ => panic!("a failed append must abort the run"),
    }
}

#[test]
fn empty_playlist_finishes_without_writes() {
    let (mut w, _) = Workflow::start(config());
    let _ = w.on_token(
        200,
        String::new(),
        Some(AccessToken { access_token: "tok".to_string(), scope: String::new() }),
    );
    let _ = w.on_reset(200, String::new());
    let step = w.on_page(200, String::new(), Some(Page { items: Vec::new(), next: None }));
    assert!(matches!(step, Step::Finished));
}

#[test]
fn failed_fetch_aborts_the_run() {
    let (mut w, _) = Workflow::start(config());
    let _ = w.on_token(
        200,
        String::new(),
        Some(AccessToken { access_token: "tok".to_string(), scope: String::new() }),
    );
    let _ = w.on_reset(200, String::new());
    let step = w.on_page(503, "unavailable".to_string(), None);
    match step {
        Step::Abort(SyncError::Fetch(body)) => assert_eq!(body, "unavailable"),
        _ => panic!("a failed page read must abort the run"),
    }
}

#[test]
fn failed_reset_aborts_the_run() {
    let (mut w, _) = Workflow::start(config());
    let _ = w.on_token(
        200,
        String::new(),
        Some(AccessToken { access_token: "tok".to_string(), scope: String::new() }),
    );
    let step = w.on_reset(403, "forbidden".to_string());
    match step {
        Step::Abort(SyncError::Reset(body)) => assert_eq!(body, "forbidden"),
        _ => panic!("a failed reset must abort the run"),
    }
}

#[test]
fn idle_step_sleeps_or_terminates() {
    assert_eq!(idle_step(Some(3_600_000)), IdleStep::Sleep(3_600_000));
    assert_eq!(idle_step(None), IdleStep::FatalNoJobs);
}

#[test]
fn error_text_carries_the_body() {
    let e = SyncError::Fetch("details".to_string());
    assert_eq!(e.text().as_str(), "details");
}
