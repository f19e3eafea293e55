use vstd::prelude::*;
use crate::manager::Manager;
use crate::track::Track;
use vstd::string::StringSliceAdditionalSpecFns;

verus! {

/// What a request to the server asks for.
#[derive(Debug, PartialEq, Eq, Structural)]
pub enum Endpoint {
    /// The track now playing.
    Current,
    /// The cover picture of the track now playing.
    Cover,
    /// The pending queue.
    Queue,
    /// The tracks played so far.
    History,
    /// An API path that names nothing.
    NotFound,
    /// The audio stream.
    Stream,
    /// Nothing to answer.
    Ignored,
}

/// Whether `needle` stands somewhere in `hay`.
pub open spec fn has_segment(hay: Seq<u8>, needle: Seq<u8>) -> bool {
    exists|i: int| 0 <= i && i + needle.len() <= hay.len() && #[trigger] hay.subrange(i, i + needle.len()) == needle
}

/// The bytes of "/api".
pub open spec fn api_marker() -> Seq<u8> {
    seq![0x2f, 0x61, 0x70, 0x69]
}

/// Where a request for `url` goes. With the API on, a URL holding "/api" goes
/// to the API, which answers only GET requests, by exact path; any other URL
/// but "/mp3" gets no answer.
pub open spec fn endpoint_of(api_enabled: bool, is_get: bool, url: &str) -> Endpoint {
    if api_enabled && has_segment(url.spec_bytes(), api_marker()) {
        if !is_get {
            Endpoint::Ignored
        } else if url@ == "/api/current"@ {
            Endpoint::Current
        } else if url@ == "/api/cover"@ {
            Endpoint::Cover
        } else if url@ == "/api/queue"@ {
            Endpoint::Queue
        } else if url@ == "/api/history"@ {
            Endpoint::History
        } else {
            Endpoint::NotFound
        }
    } else if url@ == "/mp3"@ {
        Endpoint::Stream
    } else {
        Endpoint::Ignored
    }
}

fn find_segment(hay: &[u8], needle: &[u8]) -> (r: bool)
    ensures
        r == has_segment(hay@, needle@),
{
    let n = hay.len();
    let m = needle.len();
    if m > n {
        assert(!has_segment(hay@, needle@)) by {
            if has_segment(hay@, needle@) {
                let i = choose|i: int| 0 <= i && i + needle@.len() <= hay@.len() && #[trigger] hay@.subrange(i, i + needle@.len()) == needle@;
            }
        }
        return false;
    }
    let mut i: usize = 0;
    while i <= n - m
        invariant
            n == hay@.len(),
            m == needle@.len(),
            m <= n,
            forall|k: int| 0 <= k < i ==> #[trigger] hay@.subrange(k, k + m) != needle@,
        decreases n - m + 1 - i,
    {
        let mut j: usize = 0;
        let mut same = true;
        while j < m
            invariant
                i + m <= n,
                n == hay@.len(),
                m == needle@.len(),
                j <= m,
                same == (forall|t: int| 0 <= t < j ==> hay@[i + t] == needle@[t]),
            decreases m - j,
        {
            if hay[i + j] != needle[j] {
                same = false;
            }
            j = j + 1;
        }
        if same {
            assert(hay@.subrange(i as int, i + m) =~= needle@);
            return true;
        }
        assert(hay@.subrange(i as int, i + m) != needle@) by {
            let t = choose|t: int| 0 <= t < m && hay@[i + t] != needle@[t];
            assert(hay@.subrange(i as int, i + m)[t] == hay@[i + t]);
        }
        i = i + 1;
    }
    assert(!has_segment(hay@, needle@)) by {
        if has_segment(hay@, needle@) {
            let k = choose|k: int| 0 <= k && k + needle@.len() <= hay@.len() && #[trigger] hay@.subrange(k, k + needle@.len()) == needle@;
            assert(k < i);
        }
    }
    false
}

/// Where a request for `url` goes, `api_enabled` saying whether the API is
/// served and `is_get` whether the request is a GET.
pub fn route(api_enabled: bool, is_get: bool, url: &str) -> (r: Endpoint)
    ensures
        r == endpoint_of(api_enabled, is_get, url),
{
    let owned = url.to_owned();
    let marker: [u8; 4] = [0x2f, 0x61, 0x70, 0x69];
    let marked = find_segment(url.as_bytes(), marker.as_slice());
    assert(marker@ =~= api_marker());
    if api_enabled && marked {
        if !is_get {
            Endpoint::Ignored
        } else if owned == "/api/current".to_owned() {
            Endpoint::Current
        } else if owned == "/api/cover".to_owned() {
            Endpoint::Cover
        } else if owned == "/api/queue".to_owned() {
            Endpoint::Queue
        } else if owned == "/api/history".to_owned() {
            Endpoint::History
        } else {
            Endpoint::NotFound
        }
    } else if owned == "/mp3".to_owned() {
        Endpoint::Stream
    } else {
        Endpoint::Ignored
    }
}

/// A track as the API shows it.
#[derive(Debug)]
pub struct Song {
    pub name: String,
    pub artist: String,
    pub album: String,
    /// Milliseconds played so far.
    pub elapsed: u64,
    /// Duration in milliseconds.
    pub length: u64,
}

/// An answer of the API.
#[derive(Debug)]
pub enum Reply {
    /// A plain message.
    Message(String),
    /// One track.
    Song(Song),
    /// A list of tracks.
    Tracks(Vec<Song>),
}

/// Whether `s` shows `t`, `elapsed` ms into it.
pub open spec fn shows(s: Song, t: Track, elapsed: u64) -> bool {
    &&& s.name == t.name
    &&& s.artist == t.artist
    &&& s.album == t.album
    &&& s.length == t.length
    &&& s.elapsed == elapsed
}

/// The API's record of `t`, `elapsed` ms into it.
pub fn song_of(t: &Track, elapsed: u64) -> (r: Song)
    ensures
        shows(r, *t, elapsed),
{
    Song {
        name: t.name.clone(),
        artist: t.artist.clone(),
        album: t.album.clone(),
        elapsed,
        length: t.length,
    }
}

/// The API's records of `tracks`, in order, with nothing played of them.
pub fn song_list(tracks: &Vec<Track>) -> (r: Vec<Song>)
    ensures
        r@.len() == tracks@.len(),
        forall|i: int| 0 <= i < tracks@.len() ==> shows(#[trigger] r@[i], tracks@[i], 0),
{
    let mut out: Vec<Song> = Vec::new();
    let mut i: usize = 0;
    while i < tracks.len()
        invariant
            i <= tracks@.len(),
            out@.len() == i,
            forall|k: int| 0 <= k < i ==> shows(#[trigger] out@[k], tracks@[k], 0),
        decreases tracks@.len() - i,
    {
        out.push(song_of(&tracks[i], 0));
        i = i + 1;
    }
    out
}

/// The answer about the track now playing at time `now` (ms): the track with
/// the time it has played, or a message that nothing plays.
pub fn playing_at(manager: &Manager, now: u64) -> (r: Reply)
    ensures
        match manager@.current {
            None => r matches Reply::Message(m) && m@ == "No current song"@,
            Some(t) => r matches Reply::Song(s) && shows(s, t, if now < manager.start_time() {
                0
            } else {
                (now - manager.start_time()) as u64
            }),
        },
{
    match manager.current() {
        None => Reply::Message("No current song".to_owned()),
        Some(t) => {
            let elapsed = manager.elapsed_at(now);
            Reply::Song(song_of(&t, elapsed))
        },
    }
}

/// The answer about the track now playing, timed by the clock.
pub fn playing(manager: &Manager) -> (r: Reply)
    ensures
        match manager@.current {
            None => r matches Reply::Message(m) && m@ == "No current song"@,
            Some(t) => r matches Reply::Song(s) && s.name == t.name && s.artist == t.artist && s.album
                == t.album && s.length == t.length,
        },
{
    match manager.current() {
        None => Reply::Message("No current song".to_owned()),
        Some(t) => {
            let elapsed = manager.elapsed();
            Reply::Song(song_of(&t, elapsed))
        },
    }
}

/// The answer listing the pending queue, next to play last.
pub fn queue(manager: &Manager) -> (r: Reply)
    ensures
        r matches Reply::Tracks(v) && v@.len() == manager@.queue.len() && forall|i: int|
            0 <= i < v@.len() ==> shows(#[trigger] v@[i], manager@.queue[i], 0),
{
    Reply::Tracks(song_list(manager.queue()))
}

/// The answer listing the tracks played so far, most recent last.
pub fn history(manager: &Manager) -> (r: Reply)
    ensures
        r matches Reply::Tracks(v) && v@.len() == manager@.history.len() && forall|i: int|
            0 <= i < v@.len() ==> shows(#[trigger] v@[i], manager@.history[i], 0),
{
    Reply::Tracks(song_list(manager.history()))
}

/// The answer to a path that names nothing.
pub fn not_found() -> (r: Reply)
    ensures
        r matches Reply::Message(m) && m@ == "Not found"@,
{
    Reply::Message("Not found".to_owned())
}

/// A picture embedded in a file's tag.
#[derive(Debug)]
pub struct Picture {
    /// Its MIME type, where the tag gives one.
    pub mime: Option<String>,
    pub data: Vec<u8>,
}

/// The type assumed of a cover whose type is not given.
pub open spec fn default_mime() -> Seq<char> {
    "image/jpeg"@
}

/// The cover answer: the MIME type and bytes of the first picture of the
/// current track's tag; JPEG where it names no type; no bytes, as JPEG, where
/// there is no such picture.
pub fn playing_cover(first: Option<Picture>) -> (r: (String, Vec<u8>))
    ensures
        match first {
            None => r.0@ == default_mime() && r.1@.len() == 0,
            Some(p) => r.1 == p.data && r.0@ == match p.mime {
                Some(m) => m@,
                None => default_mime(),
            },
        },
{
    match first {
        None => ("image/jpeg".to_owned(), Vec::new()),
        Some(p) => {
            let mime = match p.mime {
                Some(m) => m,
                None => "image/jpeg".to_owned(),
            };
            (mime, p.data)
        },
    }
}

} // verus!
