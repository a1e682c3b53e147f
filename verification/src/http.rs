use vstd::prelude::*;

use crate::json::spec_uris_body;
use crate::json::uris_body;
use crate::model::{Config, ConfigView, strings};

verus! {

/// The HTTP methods the service's API is driven with.
#[derive(Clone, Copy, PartialEq, Eq, Structural, Debug)]
pub enum Method {
    Get,
    Post,
    Put,
}

/// A fully built request, ready to be put on the wire: the transport
/// performs it exactly as it stands here.
pub struct HttpRequest {
    pub method: Method,
    pub url: String,
    pub headers: Vec<(String, String)>,
    pub body: String,
}

/// Mathematical view of a request.
#[verifier::ext_equal]
pub ghost struct ReqView {
    pub method: Method,
    pub url: Seq<char>,
    pub headers: Seq<(Seq<char>, Seq<char>)>,
    pub body: Seq<char>,
}

impl View for HttpRequest {
    type V = ReqView;

    open spec fn view(&self) -> ReqView {
        ReqView {
            method: self.method,
            url: self.url@,
            headers: self.headers@.map_values(|h: (String, String)| (h.0@, h.1@)),
            body: self.body@,
        }
    }
}

/// The decimal digit `d`, as a character.
pub open spec fn spec_digit(d: int) -> char {
    if d == 0 {
        '0'
    } else if d == 1 {
        '1'
    } else if d == 2 {
        '2'
    } else if d == 3 {
        '3'
    } else if d == 4 {
        '4'
    } else if d == 5 {
        '5'
    } else if d == 6 {
        '6'
    } else if d == 7 {
        '7'
    } else if d == 8 {
        '8'
    } else {
        '9'
    }
}

/// The decimal rendering of `n`, without leading zeros (`0` for zero).
pub open spec fn spec_dec(n: int) -> Seq<char>
    decreases n,
{
    if n < 10 {
        seq![spec_digit(n)]
    } else {
        spec_dec(n / 10).push(spec_digit(n % 10))
    }
}

fn digit_str(d: u64) -> (r: &'static str)
    requires
        d < 10,
    ensures
        r@ == seq![spec_digit(d as int)],
{
    match d {
        0 => {
            proof {
                reveal_strlit("0");
                assert("0"@ =~= seq!['0']);
            }
            "0"
        },
        1 => {
            proof {
                reveal_strlit("1");
                assert("1"@ =~= seq!['1']);
            }
            "1"
        },
        2 => {
            proof {
                reveal_strlit("2");
                assert("2"@ =~= seq!['2']);
            }
            "2"
        },
        3 => {
            proof {
                reveal_strlit("3");
                assert("3"@ =~= seq!['3']);
            }
            "3"
        },
        4 => {
            proof {
                reveal_strlit("4");
                assert("4"@ =~= seq!['4']);
            }
            "4"
        },
        5 => {
            proof {
                reveal_strlit("5");
                assert("5"@ =~= seq!['5']);
            }
            "5"
        },
        6 => {
            proof {
                reveal_strlit("6");
                assert("6"@ =~= seq!['6']);
            }
            "6"
        },
        7 => {
            proof {
                reveal_strlit("7");
                assert("7"@ =~= seq!['7']);
            }
            "7"
        },
        8 => {
            proof {
                reveal_strlit("8");
                assert("8"@ =~= seq!['8']);
            }
            "8"
        },
        _ => {
            proof {
                reveal_strlit("9");
                assert("9"@ =~= seq!['9']);
            }
            "9"
        },
    }
}

/// Renders `n` in decimal.
pub fn dec_u64(n: u64) -> (r: String)
    ensures
        r@ == spec_dec(n as int),
    decreases n,
{
    if n < 10 {
        let d = digit_str(n);
        String::from_str(d)
    } else {
        let mut r = dec_u64(n / 10);
        let d = digit_str(n % 10);
        r.append(d);
        proof {
            assert(r@ =~= spec_dec(n as int / 10).push(spec_digit(n as int % 10)));
        }
        r
    }
}

/// What the base64 encoding of a piece of text is. The result depends on
/// the characters alone; nothing further is assumed of it.
pub uninterp spec fn base64_of(s: Seq<char>) -> Seq<char>;

/// Relies on base64's `STANDARD` engine: `encode` returns the base64
/// encoding of its input bytes — here the UTF-8 bytes of `id`, a colon,
/// and `secret` — and depends on those bytes alone.
#[verifier::external_body]
fn base64_pair(id: &str, secret: &str) -> (r: String)
    ensures
        r@ == base64_of(id@ + ":"@ + secret@),
{
    base64::engine::Engine::encode(
        &base64::engine::general_purpose::STANDARD,
        format!("{}:{}", id, secret).as_bytes(),
    )
}

/// The value of the Basic-Authorization header: the word `Basic` and the
/// base64 encoding of `client_id:client_secret`.
pub open spec fn spec_basic_auth(cfg: ConfigView) -> Seq<char> {
    "Basic "@ + base64_of(cfg.client_id + ":"@ + cfg.client_secret)
}

/// The value of the bearer header for `token`.
pub open spec fn spec_bearer(token: Seq<char>) -> Seq<char> {
    "Bearer "@ + token
}

/// The token-endpoint request: a form-encoded POST carrying the refresh
/// credential and the fixed scope list, authorized with the
/// Basic-Authorization header.
pub open spec fn spec_token_request(cfg: ConfigView) -> ReqView {
    ReqView {
        method: Method::Post,
        url: "https://accounts.spotify.com/api/token"@,
        headers: seq![
            ("Content-Type"@, "application/x-www-form-urlencoded"@),
            ("Authorization"@, spec_basic_auth(cfg)),
        ],
        body: "grant_type=refresh_token&refresh_token="@ + cfg.refresh_token
            + "&scope=playlist-read-private%20playlist-modify-private%20playlist-modify-public%20user-library-read%20user-library-modify"@,
    }
}

/// The tracks collection URL of the playlist `id`.
pub open spec fn spec_tracks_url(id: Seq<char>) -> Seq<char> {
    "https://api.spotify.com/v1/playlists/"@ + id + "/tracks"@
}

/// The page request: a GET of 50 items at `offset`, bearer-authorized.
pub open spec fn spec_page_request(token: Seq<char>, id: Seq<char>, offset: int) -> ReqView {
    ReqView {
        method: Method::Get,
        url: spec_tracks_url(id) + "?offset="@ + spec_dec(offset) + "&limit=50"@,
        headers: seq![("Authorization"@, spec_bearer(token))],
        body: Seq::empty(),
    }
}

/// The reset request: a PUT replacing the playlist's tracks with the
/// empty list.
pub open spec fn spec_reset_request(token: Seq<char>, id: Seq<char>) -> ReqView {
    ReqView {
        method: Method::Put,
        url: spec_tracks_url(id),
        headers: seq![
            ("Content-Type"@, "application/json"@),
            ("Authorization"@, spec_bearer(token)),
        ],
        body: spec_uris_body(Seq::empty()),
    }
}

/// The append request: a POST adding `batch` to the end of the playlist.
pub open spec fn spec_append_request(token: Seq<char>, id: Seq<char>, batch: Seq<Seq<char>>) -> ReqView {
    ReqView {
        method: Method::Post,
        url: spec_tracks_url(id),
        headers: seq![("Authorization"@, spec_bearer(token))],
        body: spec_uris_body(batch),
    }
}

fn bearer(token: &str) -> (r: String)
    ensures
        r@ == spec_bearer(token@),
{
    let mut r = String::new();
    r.append("Bearer ");
    r.append(token);
    r
}

fn tracks_url(id: &str) -> (r: String)
    ensures
        r@ == spec_tracks_url(id@),
{
    let mut r = String::new();
    r.append("https://api.spotify.com/v1/playlists/");
    r.append(id);
    r.append("/tracks");
    r
}

/// Builds the token-endpoint request for the given configuration.
pub fn token_request(cfg: &Config) -> (r: HttpRequest)
    ensures
        r@ == spec_token_request(cfg@),
{
    let mut auth = String::new();
    auth.append("Basic ");
    let enc = base64_pair(cfg.client_id.as_str(), cfg.client_secret.as_str());
    auth.append(enc.as_str());
    let mut body = String::new();
    body.append("grant_type=refresh_token&refresh_token=");
    body.append(cfg.refresh_token.as_str());
    body.append(
        "&scope=playlist-read-private%20playlist-modify-private%20playlist-modify-public%20user-library-read%20user-library-modify",
    );
    let mut headers: Vec<(String, String)> = Vec::new();
    headers.push(
        (
            String::from_str("Content-Type"),
            String::from_str("application/x-www-form-urlencoded"),
        ),
    );
    headers.push((String::from_str("Authorization"), auth));
    let r = HttpRequest {
        method: Method::Post,
        url: String::from_str("https://accounts.spotify.com/api/token"),
        headers,
        body,
    };
    proof {
        assert(r@.headers =~= spec_token_request(cfg@).headers);
        assert(r@ =~= spec_token_request(cfg@));
    }
    r
}

/// Builds the page request for the playlist `id` at `offset`.
pub fn page_request(token: &str, id: &str, offset: u64) -> (r: HttpRequest)
    ensures
        r@ == spec_page_request(token@, id@, offset as int),
{
    let mut url = tracks_url(id);
    url.append("?offset=");
    let off = dec_u64(offset);
    url.append(off.as_str());
    url.append("&limit=50");
    let mut headers: Vec<(String, String)> = Vec::new();
    headers.push((String::from_str("Authorization"), bearer(token)));
    let r = HttpRequest { method: Method::Get, url, headers, body: String::new() };
    proof {
        assert(r@.headers =~= spec_page_request(token@, id@, offset as int).headers);
        assert(r@ =~= spec_page_request(token@, id@, offset as int));
    }
    r
}

/// Builds the reset request for the playlist `id`.
pub fn reset_request(token: &str, id: &str) -> (r: HttpRequest)
    ensures
        r@ == spec_reset_request(token@, id@),
{
    let empty: Vec<String> = Vec::new();
    let body = uris_body(&empty);
    let mut headers: Vec<(String, String)> = Vec::new();
    headers.push((String::from_str("Content-Type"), String::from_str("application/json")));
    headers.push((String::from_str("Authorization"), bearer(token)));
    let r = HttpRequest { method: Method::Put, url: tracks_url(id), headers, body };
    proof {
        assert(strings(empty@) =~= Seq::<Seq<char>>::empty());
        assert(r@.headers =~= spec_reset_request(token@, id@).headers);
        assert(r@ =~= spec_reset_request(token@, id@));
    }
    r
}

/// Builds the append request adding `batch` to the playlist `id`.
pub fn append_request(token: &str, id: &str, batch: &Vec<String>) -> (r: HttpRequest)
    ensures
        r@ == spec_append_request(token@, id@, strings(batch@)),
{
    let body = uris_body(batch);
    let mut headers: Vec<(String, String)> = Vec::new();
    headers.push((String::from_str("Authorization"), bearer(token)));
    let r = HttpRequest { method: Method::Post, url: tracks_url(id), headers, body };
    proof {
        assert(r@.headers =~= spec_append_request(token@, id@, strings(batch@)).headers);
        assert(r@ =~= spec_append_request(token@, id@, strings(batch@)));
    }
    r
}

} // verus!
