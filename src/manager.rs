use vstd::prelude::*;
use crate::track::Track;

verus! {

/// What the scheduler holds: the catalog it refills from, the pending queue
/// (next to play at its end), the history (newest at its end) and the track
/// now playing.
pub struct Schedule {
    pub catalog: Seq<Track>,
    pub queue: Seq<Track>,
    pub history: Seq<Track>,
    pub current: Option<Track>,
}

/// `history` with the track that stops playing, if any, appended.
pub open spec fn retire(history: Seq<Track>, current: Option<Track>) -> Seq<Track> {
    match current {
        Some(t) => history.push(t),
        None => history,
    }
}

/// Whether advancing finds a track to play.
pub open spec fn has_next(s: Schedule) -> bool {
    s.queue.len() > 0
}

/// The schedule after one advance: the most recently queued track becomes
/// current and the previous one goes to history; with nothing queued the
/// previous one goes to history and nothing plays.
pub open spec fn advanced(s: Schedule) -> Schedule {
    if s.queue.len() > 0 {
        Schedule {
            catalog: s.catalog,
            queue: s.queue.drop_last(),
            history: retire(s.history, s.current),
            current: Some(s.queue.last()),
        }
    } else {
        Schedule {
            catalog: s.catalog,
            queue: s.queue,
            history: retire(s.history, s.current),
            current: None,
        }
    }
}

/// The schedule after `n` advances.
pub open spec fn advance_times(s: Schedule, n: nat) -> Schedule
    decreases n,
{
    if n == 0 {
        s
    } else {
        advanced(advance_times(s, (n - 1) as nat))
    }
}

/// `after` is `before` refilled: the catalog is `fresh` where a new scan gave
/// one and is kept otherwise, every catalog track is queued once more in some
/// order, and history and the current track are left alone.
pub open spec fn reloaded(before: Schedule, fresh: Option<Seq<Track>>, after: Schedule) -> bool {
    &&& after.catalog == match fresh {
        Some(c) => c,
        None => before.catalog,
    }
    &&& after.queue.to_multiset() == (before.queue + after.catalog).to_multiset()
    &&& after.history == before.history
    &&& after.current == before.current
}

/// Relies on rand's `SliceRandom::shuffle` with the thread-local generator,
/// which only swaps elements: the result holds the same tracks.
#[verifier::external_body]
fn shuffle_tracks(tracks: &mut Vec<Track>)
    ensures
        final(tracks)@.to_multiset() == old(tracks)@.to_multiset(),
{
    rand::seq::SliceRandom::shuffle(tracks.as_mut_slice(), &mut rand::rng());
}

/// Relies on std's `SystemTime::elapsed` from the Unix epoch: the wall-clock
/// time in milliseconds (zero if the clock reads before the epoch).
#[verifier::external_body]
fn clock_millis() -> (r: u64) {
    match std::time::UNIX_EPOCH.elapsed() {
        Ok(d) => d.as_millis() as u64,
        Err(_) => 0,
    }
}

/// The scheduler: the library catalog, the queue of tracks to play, the
/// history of played tracks and the track now playing.
#[derive(Debug, Clone)]
pub struct Manager {
    path: String,
    songs: Vec<Track>,
    queue: Vec<Track>,
    history: Vec<Track>,
    current: Option<Track>,
    song_start: u64,
}

impl View for Manager {
    type V = Schedule;

    closed spec fn view(&self) -> Schedule {
        Schedule {
            catalog: self.songs@,
            queue: self.queue@,
            history: self.history@,
            current: self.current,
        }
    }
}

impl Manager {
    /// Root directory of the library that the catalog was scanned from.
    pub closed spec fn root(&self) -> Seq<char> {
        self.path@
    }

    /// Wall-clock time (ms) at which the current track started.
    pub closed spec fn start_time(&self) -> u64 {
        self.song_start
    }

    /// A scheduler over the catalog scanned from `path`, with nothing queued,
    /// played or playing.
    pub fn new(path: String, songs: Vec<Track>) -> (r: Manager)
        ensures
            r@.catalog == songs@,
            r@.queue.len() == 0,
            r@.history.len() == 0,
            r@.current.is_none(),
            r.root() == path@,
    {
        Manager { path, songs, queue: Vec::new(), history: Vec::new(), current: None, song_start: 0 }
    }

    /// The library root, to scan again.
    pub fn path(&self) -> (r: &String)
        ensures
            r@ == self.root(),
    {
        &self.path
    }

    /// Replaces the catalog wholesale with a fresh scan; the queue, history
    /// and current track are untouched.
    pub fn refresh(&mut self, songs: Vec<Track>)
        ensures
            final(self)@ == (Schedule { catalog: songs@, ..old(self)@ }),
            final(self).root() == old(self).root(),
            final(self).start_time() == old(self).start_time(),
    {
        self.songs = songs;
    }

    /// A copy of the track now playing.
    pub fn current(&self) -> (r: Option<Track>)
        ensures
            r == self@.current,
    {
        match &self.current {
            Some(t) => Some(t.duplicate()),
            None => None,
        }
    }

    /// The catalog.
    pub fn songs(&self) -> (r: &Vec<Track>)
        ensures
            r@ == self@.catalog,
    {
        &self.songs
    }

    /// The pending queue; the track to play next is the last.
    pub fn queue(&self) -> (r: &Vec<Track>)
        ensures
            r@ == self@.queue,
    {
        &self.queue
    }

    /// The tracks played so far, the most recent last.
    pub fn history(&self) -> (r: &Vec<Track>)
        ensures
            r@ == self@.history,
    {
        &self.history
    }

    /// Appends a copy of every catalog track to the queue, behind what is
    /// already queued.
    pub fn songs_to_queue(&mut self)
        ensures
            final(self)@ == (Schedule { queue: old(self)@.queue + old(self)@.catalog, ..old(self)@ }),
            final(self).root() == old(self).root(),
            final(self).start_time() == old(self).start_time(),
    {
        let n = self.songs.len();
        let mut i: usize = 0;
        while i < n
            invariant
                n == self.songs@.len(),
                i <= n,
                self.songs@ == old(self).songs@,
                self.queue@ == old(self).queue@ + self.songs@.subrange(0, i as int),
                self.history@ == old(self).history@,
                self.current == old(self).current,
                self.path == old(self).path,
                self.song_start == old(self).song_start,
            decreases n - i,
        {
            let t = self.songs[i].duplicate();
            self.queue.push(t);
            proof {
                assert(self.songs@.subrange(0, i + 1) == self.songs@.subrange(0, i as int).push(
                    self.songs@[i as int],
                ));
            }
            i = i + 1;
        }
        proof {
            assert(self.songs@.subrange(0, n as int) == self.songs@);
        }
    }

    /// Puts the queue in a random order; it keeps the same tracks, each as
    /// many times, and nothing else changes.
    pub fn shuffle(&mut self)
        ensures
            final(self)@.queue.to_multiset() == old(self)@.queue.to_multiset(),
            final(self)@.catalog == old(self)@.catalog,
            final(self)@.history == old(self)@.history,
            final(self)@.current == old(self)@.current,
            final(self).root() == old(self).root(),
            final(self).start_time() == old(self).start_time(),
    {
        shuffle_tracks(&mut self.queue);
    }

    /// Advances to the next track at wall-clock time `now` (ms): see
    /// `advanced`. Returns whether a track is now playing, whose start time is
    /// then `now`.
    pub fn advance_at(&mut self, now: u64) -> (r: bool)
        ensures
            r == has_next(old(self)@),
            final(self)@ == advanced(old(self)@),
            r ==> final(self).start_time() == now,
            !r ==> final(self).start_time() == old(self).start_time(),
            final(self).root() == old(self).root(),
    {
        let next = self.queue.pop();
        let found = next.is_some();
        if found {
            self.song_start = now;
        }
        let previous = self.current.take();
        self.current = next;
        match previous {
            Some(t) => self.history.push(t),
            None => {},
        }
        found
    }

    /// Advances to the next track, stamping its start with the clock.
    pub fn next(&mut self) -> (r: bool)
        ensures
            r == has_next(old(self)@),
            final(self)@ == advanced(old(self)@),
            final(self).root() == old(self).root(),
            !r ==> final(self).start_time() == old(self).start_time(),
    {
        let now = clock_millis();
        self.advance_at(now)
    }

    /// Milliseconds that the current track has played at time `now`: zero
    /// when nothing plays, and never negative.
    pub fn elapsed_at(&self, now: u64) -> (r: u64)
        ensures
            r == if self@.current.is_none() || now < self.start_time() {
                0
            } else {
                (now - self.start_time()) as u64
            },
    {
        if self.current.is_none() || now < self.song_start {
            0
        } else {
            now - self.song_start
        }
    }

    /// Milliseconds that the current track has played, by the clock.
    pub fn elapsed(&self) -> (r: u64)
        ensures
            self@.current.is_none() ==> r == 0,
    {
        let now = clock_millis();
        self.elapsed_at(now)
    }

    /// Refills an exhausted queue: takes `rescanned` as the catalog where a
    /// new scan gave one, then queues the catalog again and shuffles.
    pub fn replenish(&mut self, rescanned: Option<Vec<Track>>)
        ensures
            reloaded(
                old(self)@,
                match rescanned {
                    Some(c) => Some(c@),
                    None => None,
                },
                final(self)@,
            ),
            final(self).root() == old(self).root(),
            final(self).start_time() == old(self).start_time(),
    {
        match rescanned {
            Some(c) => self.refresh(c),
            None => {},
        }
        let ghost mid = self@;
        self.songs_to_queue();
        self.shuffle();
        proof {
            assert(self@.queue.to_multiset() == (old(self)@.queue + mid.catalog).to_multiset());
        }
    }
}

/// Draining: advancing a schedule as many times as it has queued tracks plays
/// each of them in turn, from the most recently queued back, and leaves the
/// queue empty; history and the track still playing then hold every one of
/// them, after what history held before. The advance after that finds no
/// track, and by then history alone holds them all.
pub proof fn lemma_queue_drains(s: Schedule)
    ensures
        forall|k: nat| k < s.queue.len() ==> #[trigger] has_next(advance_times(s, k)),
        advance_times(s, s.queue.len()).queue.len() == 0,
        !has_next(advance_times(s, s.queue.len())),
        advanced(advance_times(s, s.queue.len())).history == retire(s.history, s.current)
            + s.queue.reverse(),
        advanced(advance_times(s, s.queue.len())).current.is_none(),
        retire(
            advance_times(s, s.queue.len()).history,
            advance_times(s, s.queue.len()).current,
        ) == retire(s.history, s.current) + s.queue.reverse(),
{
    let n = s.queue.len();
    lemma_advance_prefix(s, n);
    assert forall|k: nat| k < s.queue.len() implies #[trigger] has_next(advance_times(s, k)) by {
        lemma_advance_prefix(s, k);
    }
    let t = advance_times(s, n);
    if n == 0 {
        assert(s.queue.reverse() =~= Seq::<Track>::empty());
        assert(retire(s.history, s.current) + s.queue.reverse() =~= retire(s.history, s.current));
    } else {
        assert(s.queue.subrange(0, 1) =~= seq![s.queue[0]]);
        assert(retire(t.history, t.current) =~= retire(s.history, s.current)
            + s.queue.reverse()) by {
            assert(retire(t.history, t.current) == t.history.push(s.queue[0]));
            assert forall|j: int| 0 <= j < n implies #[trigger] s.queue.reverse()[j] == (
            s.queue.subrange(1, n as int).reverse().push(s.queue[0]))[j] by {}
            assert(s.queue.reverse() =~= s.queue.subrange(1, n as int).reverse().push(s.queue[0]));
        }
    }
}

/// After `k` advances of a schedule with at least `k` queued tracks.
proof fn lemma_advance_prefix(s: Schedule, k: nat)
    requires
        k <= s.queue.len(),
    ensures
        ({
            let t = advance_times(s, k);
            let n = s.queue.len();
            &&& t.queue == s.queue.subrange(0, n - k)
            &&& t.catalog == s.catalog
            &&& k == 0 ==> t.history == s.history && t.current == s.current
            &&& k > 0 ==> t.current == Some(s.queue[n - k])
            &&& k > 0 ==> t.history == retire(s.history, s.current) + s.queue.subrange(
                n - k + 1,
                n as int,
            ).reverse()
        }),
    decreases k,
{
    let n = s.queue.len();
    if k == 0 {
        assert(s.queue.subrange(0, n as int) =~= s.queue);
    } else {
        lemma_advance_prefix(s, (k - 1) as nat);
        let p = advance_times(s, (k - 1) as nat);
        assert(p.queue.len() == n - k + 1);
        assert(p.queue.drop_last() =~= s.queue.subrange(0, n - k));
        assert(p.queue.last() == s.queue[n - k]);
        if k == 1 {
            assert(s.queue.subrange(n - k + 1, n as int).reverse() =~= Seq::<Track>::empty());
            assert(retire(s.history, s.current) + Seq::<Track>::empty() =~= retire(
                s.history,
                s.current,
            ));
        } else {
            let older = s.queue.subrange(n - k + 2, n as int).reverse();
            let newer = s.queue.subrange(n - k + 1, n as int).reverse();
            assert(newer =~= older.push(s.queue[n - k + 1]));
            assert(retire(p.history, p.current) =~= retire(s.history, s.current) + newer);
        }
    }
}

/// Endless replay: once the queue of a schedule with a non-empty catalog has
/// run dry, refilling it from the catalog kept as it was lets the next
/// advance find a track again.
pub proof fn lemma_reload_resumes(before: Schedule, after: Schedule)
    requires
        before.catalog.len() > 0,
        reloaded(before, None, after),
    ensures
        has_next(after),
        advanced(after).current.is_some(),
{
    broadcast use vstd::seq_lib::group_to_multiset_ensures;

    let all = before.queue + after.catalog;
    assert(after.queue.to_multiset().len() == all.to_multiset().len());
    assert(all.len() == before.queue.len() + after.catalog.len());
}

} // verus!
