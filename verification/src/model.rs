use vstd::prelude::*;

verus! {

/// A track as the remote catalog identifies it: an opaque resource URI.
pub struct Track {
    pub uri: String,
}

/// One entry of a playlist: the timestamp at which it was added (a
/// fixed-width, zero-padded ISO-8601 string, so lexicographic comparison
/// orders by time), whether the track is a local file (local files have no
/// addressable remote URI and cannot be re-added), and the track itself.
pub struct PlaylistItem {
    pub added_at: String,
    pub is_local: bool,
    pub track: Track,
}

/// Mathematical view of a playlist entry: the timestamp and URI as
/// character sequences.
pub ghost struct ItemView {
    pub added_at: Seq<char>,
    pub is_local: bool,
    pub uri: Seq<char>,
}

impl View for PlaylistItem {
    type V = ItemView;

    open spec fn view(&self) -> ItemView {
        ItemView { added_at: self.added_at@, is_local: self.is_local, uri: self.track.uri@ }
    }
}

/// The views of a sequence of playlist items.
pub open spec fn views(s: Seq<PlaylistItem>) -> Seq<ItemView> {
    s.map_values(|it: PlaylistItem| it@)
}

/// The views of a sequence of strings.
pub open spec fn strings(s: Seq<String>) -> Seq<Seq<char>> {
    s.map_values(|u: String| u@)
}

/// A short-lived bearer credential together with the space-delimited
/// permissions that were granted with it. Created once per run, held only
/// in memory, discarded at the end of the run.
pub struct AccessToken {
    pub access_token: String,
    pub scope: String,
}

/// One page of a paginated listing: the items of the page in order, and
/// the cursor to the next page, absent exactly on the final page.
pub struct Page {
    pub items: Vec<PlaylistItem>,
    pub next: Option<String>,
}

/// Why a run failed. Each variant carries the raw response body text for
/// diagnostics.
pub enum SyncError {
    /// The token exchange failed.
    Auth(String),
    /// Reading a page of the source playlist failed.
    Fetch(String),
    /// Clearing the destination playlist failed.
    Reset(String),
    /// Appending a batch to the destination playlist failed.
    Write(String),
}

impl SyncError {
    /// The diagnostic body text the error carries.
    pub open spec fn spec_text(&self) -> Seq<char> {
        match *self {
            SyncError::Auth(ref s) => s@,
            SyncError::Fetch(ref s) => s@,
            SyncError::Reset(ref s) => s@,
            SyncError::Write(ref s) => s@,
        }
    }

    /// Returns the diagnostic body text the error carries.
    pub fn text(&self) -> (r: &String)
        ensures
            r@ == self.spec_text(),
    {
        match *self {
            SyncError::Auth(ref s) => s,
            SyncError::Fetch(ref s) => s,
            SyncError::Reset(ref s) => s,
            SyncError::Write(ref s) => s,
        }
    }
}

/// The configuration a run needs: the client credentials, the long-lived
/// refresh credential, the source playlist and the destination playlist.
pub struct Config {
    pub client_id: String,
    pub client_secret: String,
    pub refresh_token: String,
    pub from: String,
    pub to: String,
}

/// Mathematical view of the configuration.
pub ghost struct ConfigView {
    pub client_id: Seq<char>,
    pub client_secret: Seq<char>,
    pub refresh_token: Seq<char>,
    pub from: Seq<char>,
    pub to: Seq<char>,
}

impl View for Config {
    type V = ConfigView;

    open spec fn view(&self) -> ConfigView {
        ConfigView {
            client_id: self.client_id@,
            client_secret: self.client_secret@,
            refresh_token: self.refresh_token@,
            from: self.from@,
            to: self.to@,
        }
    }
}

} // verus!
