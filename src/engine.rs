use vstd::prelude::*;
use crate::frame::{
    after_leading_tag, find_mp3_sync_word, skip_id3_tags, sync_at, ByteCursor,
};
use crate::manager::{advanced, has_next, reloaded, Manager};
use crate::track::Track;

verus! {

/// Bytes added to each one-second chunk beyond the track's average byte rate,
/// so that listeners' buffers do not starve on a rate estimated too low.
pub const CHUNK_SLACK: u64 = 1024;

/// Bytes sent per one-second tick for a track of `bitrate` bits per second.
pub open spec fn chunk_len_spec(bitrate: u64) -> int {
    let want = bitrate / 8 + CHUNK_SLACK;
    if want > usize::MAX { usize::MAX as int } else { want as int }
}

/// Bytes sent per one-second tick for a track of `bitrate` bits per second:
/// its average byte rate plus a fixed slack.
pub fn chunk_len(bitrate: u64) -> (r: usize)
    ensures
        r == chunk_len_spec(bitrate),
{
    let want: u64 = bitrate / 8 + CHUNK_SLACK;
    if want as u128 > usize::MAX as u128 {
        usize::MAX
    } else {
        want as usize
    }
}

/// Where the audio of a file's bytes starts: past a leading tag, at the first
/// frame sync. `None` where the tag is cut short or no sync follows it.
pub open spec fn audio_start(d: Seq<u8>) -> Option<int> {
    match after_leading_tag(d, 0) {
        None => None,
        Some(p) => if exists|i: int| p <= i && #[trigger] sync_at(d, i) {
            Some(choose|i: int| p <= i && sync_at(d, i) && forall|j: int| p <= j < i ==> !#[trigger] sync_at(d, j))
        } else {
            None
        },
    }
}

/// A track being streamed.
#[derive(Debug)]
pub struct Playback {
    pub track: Track,
    pub cursor: ByteCursor,
    pub chunk: usize,
    /// Whether the final, empty chunk has gone out.
    pub done: bool,
}

/// Why a track was dropped.
#[derive(Debug, PartialEq, Eq)]
pub enum Fault {
    /// Its file could not be read.
    Open,
    /// No audio frame could be found in it.
    Align,
}

/// Where the engine stands between two steps.
#[derive(Debug)]
pub enum Phase {
    /// No track: the next step advances the queue.
    Idle,
    /// Waiting for a new scan of the library.
    Rescanning,
    /// Waiting for the bytes of this track's file.
    Opening(Track),
    /// Sending a track, one chunk a step.
    Streaming(Playback),
}

/// What the outside reports to a step.
#[derive(Debug)]
pub enum Event {
    /// Nothing to report: the previous action is done.
    Ready,
    /// A new scan of the library: the catalog, or `None` where it failed.
    Rescanned(Option<Vec<Track>>),
    /// The bytes of the track's file, or `None` where it could not be read.
    Loaded(Option<Vec<u8>>),
}

/// What a step asks the outside to do.
#[derive(Debug)]
pub enum Action {
    /// Scan the library again and report `Rescanned`.
    Rescan,
    /// The queue ran dry and was filled again from the catalog.
    Refilled,
    /// Read this track's file and report `Loaded`.
    Load(Track),
    /// This track is dropped for the reason given.
    Skip(Track, Fault),
    /// Send this chunk to every listener, then wait about a second.
    Send(Vec<u8>),
    /// This track is over.
    Finished(Track),
    /// Nothing to do; step again.
    Continue,
}

/// The playback driver: pulls tracks from the scheduler, aligns their bytes
/// on the first audio frame and hands them out one second at a time.
#[derive(Debug)]
pub struct Engine {
    pub auto_refresh: bool,
    pub phase: Phase,
}

impl Engine {
    /// An idle engine; `auto_refresh` asks for a new scan of the library each
    /// time the queue runs dry.
    pub fn new(auto_refresh: bool) -> (r: Engine)
        ensures
            r.auto_refresh == auto_refresh,
            r.phase is Idle,
    {
        Engine { auto_refresh, phase: Phase::Idle }
    }

    /// Aligns the bytes of `track`'s file and starts streaming them.
    fn start(track: Track, data: Vec<u8>) -> (r: Result<Playback, Track>)
        ensures
            r.is_ok() <==> audio_start(data@).is_some(),
            r.is_err() ==> r->Err_0 == track,
            r.is_ok() ==> ({
                let p = r->Ok_0;
                &&& p.track == track
                &&& p.cursor.bytes() == data@
                &&& p.cursor.at() == audio_start(data@).unwrap()
                &&& p.chunk == chunk_len_spec(track.bitrate)
                &&& !p.done
            }),
    {
        let ghost d = data@;
        let mut cursor = ByteCursor::new(data);
        if skip_id3_tags(&mut cursor).is_err() {
            return Err(track);
        }
        let ghost p = cursor.at();
        if find_mp3_sync_word(&mut cursor).is_err() {
            return Err(track);
        }
        proof {
            let i = cursor.at();
            assert(p <= i && sync_at(d, i));
            let c = choose|c: int| p <= c && sync_at(d, c) && forall|j: int| p <= j < c ==> !#[trigger] sync_at(d, j);
            if c < i {
                assert(!sync_at(d, c));
            }
            if i < c {
                assert(!sync_at(d, i));
            }
        }
        let chunk = chunk_len(track.bitrate);
        Ok(Playback { track, cursor, chunk, done: false })
    }

    /// One step of the engine on `event`, with the scheduler `manager`.
    pub fn step(&mut self, manager: &mut Manager, event: Event) -> (r: Action)
        ensures
            final(self).auto_refresh == old(self).auto_refresh,
            final(manager).root() == old(manager).root(),
            match (old(self).phase, event) {
                (Phase::Idle, Event::Ready) => if has_next(old(manager)@) {
                    &&& final(manager)@ == advanced(old(manager)@)
                    &&& r == Action::Load(final(manager)@.current.unwrap())
                    &&& final(self).phase == Phase::Opening(final(manager)@.current.unwrap())
                } else if old(self).auto_refresh {
                    &&& final(manager)@ == advanced(old(manager)@)
                    &&& r == Action::Rescan
                    &&& final(self).phase == Phase::Rescanning
                } else {
                    &&& reloaded(advanced(old(manager)@), None, final(manager)@)
                    &&& r == Action::Refilled
                    &&& final(self).phase == Phase::Idle
                },
                (Phase::Rescanning, Event::Rescanned(scan)) => {
                    &&& reloaded(
                        old(manager)@,
                        match scan {
                            Some(c) => Some(c@),
                            None => None,
                        },
                        final(manager)@,
                    )
                    &&& r == Action::Refilled
                    &&& final(self).phase == Phase::Idle
                },
                (Phase::Opening(t), Event::Loaded(None)) => {
                    &&& *final(manager) == *old(manager)
                    &&& r == Action::Skip(t, Fault::Open)
                    &&& final(self).phase == Phase::Idle
                },
                (Phase::Opening(t), Event::Loaded(Some(d))) => {
                    &&& *final(manager) == *old(manager)
                    &&& match audio_start(d@) {
                        None => r == Action::Skip(t, Fault::Align) && final(self).phase == Phase::Idle,
                        Some(s) => {
                            &&& r == Action::Continue
                            &&& final(self).phase matches Phase::Streaming(p)
                            &&& p.track == t
                            &&& p.cursor.bytes() == d@
                            &&& p.cursor.at() == s
                            &&& p.chunk == chunk_len_spec(t.bitrate)
                            &&& !p.done
                        },
                    }
                },
                (Phase::Streaming(p), Event::Ready) => {
                    &&& *final(manager) == *old(manager)
                    &&& if p.done {
                        r == Action::Finished(p.track) && final(self).phase == Phase::Idle
                    } else {
                        let end = if p.cursor.at() + p.chunk <= p.cursor.bytes().len() {
                            p.cursor.at() + p.chunk
                        } else {
                            p.cursor.bytes().len() as int
                        };
                        let sent = p.cursor.bytes().subrange(p.cursor.at(), end);
                        &&& r matches Action::Send(c)
                        &&& c@ == sent
                        &&& final(self).phase matches Phase::Streaming(q)
                        &&& q.track == p.track
                        &&& q.cursor.bytes() == p.cursor.bytes()
                        &&& q.cursor.at() == end
                        &&& q.chunk == p.chunk
                        &&& q.done == (sent.len() == 0)
                    }
                },
                (phase, _) => {
                    &&& *final(manager) == *old(manager)
                    &&& r == Action::Continue
                    &&& final(self).phase == phase
                },
            },
    {
        let mut phase = Phase::Idle;
        std::mem::swap(&mut phase, &mut self.phase);
        match (phase, event) {
            (Phase::Idle, Event::Ready) => {
                if manager.next() {
                    match manager.current() {
                        Some(t) => {
                            self.phase = Phase::Opening(t.duplicate());
                            Action::Load(t)
                        },
                        None => Action::Continue,
                    }
                } else if self.auto_refresh {
                    self.phase = Phase::Rescanning;
                    Action::Rescan
                } else {
                    manager.replenish(None);
                    Action::Refilled
                }
            },
            (Phase::Rescanning, Event::Rescanned(scan)) => {
                manager.replenish(scan);
                Action::Refilled
            },
            (Phase::Opening(t), Event::Loaded(None)) => Action::Skip(t, Fault::Open),
            (Phase::Opening(t), Event::Loaded(Some(d))) => {
                match Self::start(t, d) {
                    Ok(p) => {
                        self.phase = Phase::Streaming(p);
                        Action::Continue
                    },
                    Err(t) => Action::Skip(t, Fault::Align),
                }
            },
            (Phase::Streaming(mut p), Event::Ready) => {
                if p.done {
                    Action::Finished(p.track)
                } else {
                    let c = p.cursor.read_chunk(p.chunk);
                    p.done = c.len() == 0;
                    self.phase = Phase::Streaming(p);
                    Action::Send(c)
                }
            },
            (phase, _) => {
                self.phase = phase;
                Action::Continue
            },
        }
    }
}

} // verus!
