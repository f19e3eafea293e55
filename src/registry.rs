use vstd::prelude::*;

verus! {

/// A listener's outbound byte sink.
pub trait Sink {
    /// The bytes that the listener has been sent so far. A sink that keeps
    /// the default states nothing of its bytes, and its writes cannot be
    /// proved to succeed.
    open spec fn received(&self) -> Seq<u8> {
        arbitrary()
    }

    /// Writes the whole chunk; `false` when the write failed and the sink is
    /// no longer usable. A write that succeeds adds exactly the chunk to what
    /// the listener has received.
    fn deliver(&mut self, chunk: &[u8]) -> (ok: bool)
        ensures
            ok ==> final(self).received() == old(self).received() + chunk@,
    ;
}

/// An in-memory sink: it keeps every chunk, and never fails.
impl Sink for Vec<u8> {
    open spec fn received(&self) -> Seq<u8> {
        self@
    }

    fn deliver(&mut self, chunk: &[u8]) -> (ok: bool)
        ensures
            ok,
    {
        let mut i: usize = 0;
        while i < chunk.len()
            invariant
                i <= chunk@.len(),
                self@ == old(self)@ + chunk@.subrange(0, i as int),
            decreases chunk.len() - i,
        {
            self.push(chunk[i]);
            assert(chunk@.subrange(0, i + 1) == chunk@.subrange(0, i as int).push(chunk@[i as int]));
            i = i + 1;
        }
        assert(chunk@.subrange(0, chunk@.len() as int) == chunk@);
        true
    }
}

/// The items of `xs` whose outcome in `ok` is `want`, in order.
pub open spec fn pick<A>(xs: Seq<A>, ok: Seq<bool>, want: bool) -> Seq<A>
    decreases xs.len(),
{
    if xs.len() == 0 || ok.len() == 0 {
        Seq::empty()
    } else {
        let rest = pick(xs.drop_last(), ok.drop_last(), want);
        if ok.last() == want {
            rest.push(xs.last())
        } else {
            rest
        }
    }
}

/// Relies on uuid's `Uuid::new_v4`: a random identifier.
#[verifier::external_body]
fn random_id() -> (r: u128) {
    uuid::Uuid::new_v4().as_u128()
}

/// One registered listener.
#[derive(Debug)]
pub struct Subscriber<S> {
    pub id: u128,
    pub sink: S,
}

/// The connected listeners, each under an identifier of its own.
#[derive(Debug)]
pub struct Registry<S> {
    entries: Vec<Subscriber<S>>,
}

/// The identifiers of `entries`, in order.
pub open spec fn ids_of<S>(entries: Seq<Subscriber<S>>) -> Seq<u128> {
    entries.map_values(|e: Subscriber<S>| e.id)
}

/// The sinks of `entries`, in order.
pub open spec fn sinks_of<S>(entries: Seq<Subscriber<S>>) -> Seq<S> {
    entries.map_values(|e: Subscriber<S>| e.sink)
}

impl<S> Registry<S> {
    /// Identifiers of the listeners, in order of registration.
    pub closed spec fn ids(&self) -> Seq<u128> {
        ids_of(self.entries@)
    }

    /// Takes the entries out, leaving none.
    fn take_entries(&mut self) -> (r: Vec<Subscriber<S>>)
        ensures
            ids_of(r@) == old(self).ids(),
            r@ == old(self).entries@,
            ids_of(r@).no_duplicates(),
    {
        proof {
            use_type_invariant(&*self);
        }
        let mut taken = Registry { entries: Vec::new() };
        assert(ids_of(taken.entries@) =~= Seq::<u128>::empty());
        std::mem::swap(self, &mut taken);
        taken.entries
    }

    /// The listeners' sinks, in order of registration.
    pub closed spec fn sinks(&self) -> Seq<S> {
        sinks_of(self.entries@)
    }

    /// No identifier stands twice.
    pub open spec fn wf(&self) -> bool {
        self.ids().no_duplicates()
    }

    #[verifier::type_invariant]
    spec fn distinct(&self) -> bool {
        self.wf()
    }

    /// A registry with no listener.
    pub fn new() -> (r: Registry<S>)
        ensures
            r.ids() == Seq::<u128>::empty(),
            r.wf(),
    {
        let r = Registry { entries: Vec::new() };
        assert(r.ids() =~= Seq::<u128>::empty());
        r
    }

    /// Number of listeners.
    pub fn len(&self) -> (r: usize)
        ensures
            r == self.ids().len(),
    {
        self.entries.len()
    }

    /// The listener at `i` in order of registration.
    pub fn entry(&self, i: usize) -> (r: &Subscriber<S>)
        requires
            i < self.ids().len(),
        ensures
            r.id == self.ids()[i as int],
    {
        &self.entries[i]
    }

    /// Whether a listener is registered under `id`.
    pub fn contains(&self, id: u128) -> (r: bool)
        ensures
            r == self.ids().contains(id),
    {
        let mut i: usize = 0;
        while i < self.entries.len()
            invariant
                i <= self.entries@.len(),
                forall|j: int| 0 <= j < i ==> self.ids()[j] != id,
            decreases self.entries@.len() - i,
        {
            if self.entries[i].id == id {
                assert(self.ids()[i as int] == id);
                return true;
            }
            i = i + 1;
        }
        false
    }

    /// Registers `sink` under `id`, unless a listener already has that
    /// identifier, in which case the sink is handed back.
    pub fn add_with_id(&mut self, id: u128, sink: S) -> (r: Result<(), S>)
        ensures
            final(self).wf(),
            r.is_ok() <==> !old(self).ids().contains(id),
            r.is_ok() ==> final(self).ids() == old(self).ids().push(id),
            r.is_err() ==> final(self).ids() == old(self).ids(),
    {
        proof {
            use_type_invariant(&*self);
        }
        if self.contains(id) {
            return Err(sink);
        }
        let mut entries = self.take_entries();
        entries.push(Subscriber { id, sink });
        assert(ids_of(entries@) =~= old(self).ids().push(id));
        *self = Registry { entries };
        Ok(())
    }

    /// Registers `sink` under a fresh random identifier and returns it; where
    /// the draw collides with a registered listener, the sink is handed back.
    pub fn add(&mut self, sink: S) -> (r: Result<u128, S>)
        ensures
            final(self).wf(),
            match r {
                Ok(id) => !old(self).ids().contains(id) && final(self).ids() == old(self).ids().push(id),
                Err(_) => final(self).ids() == old(self).ids(),
            },
            old(self).ids().len() == 0 ==> r.is_ok(),
    {
        let id = random_id();
        match self.add_with_id(id, sink) {
            Ok(()) => Ok(id),
            Err(s) => Err(s),
        }
    }

    /// Removes the listener under `id`, if any; removing an absent one changes
    /// nothing.
    pub fn remove(&mut self, id: u128)
        ensures
            final(self).wf(),
            final(self).ids() == old(self).ids().filter(|x: u128| x != id),
    {
        proof {
            use_type_invariant(&*self);
        }
        let mut ok: Vec<bool> = Vec::new();
        let mut i: usize = 0;
        while i < self.entries.len()
            invariant
                i <= self.entries@.len(),
                ok@.len() == i,
                forall|j: int| 0 <= j < i ==> ok@[j] == (self.ids()[j] != id),
            decreases self.entries@.len() - i,
        {
            ok.push(self.entries[i].id != id);
            i = i + 1;
        }
        proof {
            lemma_pick_filter(self.ids(), ok@, id);
        }
        self.retain_delivered(&ok);
    }

    /// Keeps exactly the listeners whose outcome in `ok`, taken in order, is
    /// `true`, and returns the identifiers of the others, in order.
    pub fn retain_delivered(&mut self, ok: &Vec<bool>) -> (dropped: Vec<u128>)
        requires
            ok@.len() == old(self).ids().len(),
        ensures
            final(self).wf(),
            final(self).ids() == pick(old(self).ids(), ok@, true),
            final(self).sinks() == pick(old(self).sinks(), ok@, true),
            dropped@ == pick(old(self).ids(), ok@, false),
    {
        proof {
            use_type_invariant(&*self);
        }
        let mut rest = self.take_entries();
        let ghost all = rest@;
        let ghost ids0 = old(self).ids();
        let ghost sinks0 = old(self).sinks();
        let n = rest.len();
        let mut kept: Vec<Subscriber<S>> = Vec::new();
        let mut dropped: Vec<u128> = Vec::new();
        let mut i: usize = 0;
        while i < n
            invariant
                n == all.len(),
                n == ok@.len(),
                ids0 == all.map_values(|e: Subscriber<S>| e.id),
                sinks0 == sinks_of(all),
                i <= n,
                rest@ == all.subrange(i as int, n as int),
                kept@.map_values(|e: Subscriber<S>| e.id) == pick(
                    ids0.subrange(0, i as int),
                    ok@.subrange(0, i as int),
                    true,
                ),
                sinks_of(kept@) == pick(
                    sinks0.subrange(0, i as int),
                    ok@.subrange(0, i as int),
                    true,
                ),
                dropped@ == pick(ids0.subrange(0, i as int), ok@.subrange(0, i as int), false),
            decreases n - i,
        {
            let e = rest.remove(0);
            let ghost before = kept@;
            proof {
                assert(e == all[i as int]);
                assert(ids0.subrange(0, i + 1).drop_last() =~= ids0.subrange(0, i as int));
                assert(ok@.subrange(0, i + 1).drop_last() =~= ok@.subrange(0, i as int));
                assert(ids0.subrange(0, i + 1).last() == e.id);
                assert(sinks0.subrange(0, i + 1).drop_last() =~= sinks0.subrange(0, i as int));
                assert(sinks0.subrange(0, i + 1).last() == e.sink);
                assert(rest@ =~= all.subrange(i + 1, n as int));
            }
            if ok[i] {
                kept.push(e);
                assert(kept@.map_values(|e: Subscriber<S>| e.id) =~= before.map_values(
                    |e: Subscriber<S>| e.id,
                ).push(all[i as int].id));
                assert(sinks_of(kept@) =~= sinks_of(before).push(all[i as int].sink));
            } else {
                dropped.push(e.id);
            }
            i = i + 1;
        }
        proof {
            assert(ids0.subrange(0, n as int) =~= ids0);
            assert(ok@.subrange(0, n as int) =~= ok@);
            assert(sinks0.subrange(0, n as int) =~= sinks0);
            lemma_pick_unique(ids0, ok@, true);
        }
        *self = Registry { entries: kept };
        dropped
    }
}

impl<S: Sink> Registry<S> {
    /// Writes `chunk` once to every listener, in order of registration. A
    /// listener whose write fails is removed, and nothing else comes of it:
    /// the others still get the chunk and the call itself never fails. Each
    /// listener kept has received exactly `chunk` more. Returns the
    /// identifiers of the removed listeners, in order.
    pub fn broadcast(&mut self, chunk: &[u8]) -> (dropped: Vec<u128>)
        ensures
            final(self).wf(),
            exists|after: Seq<S>, ok: Seq<bool>|
                {
                    &&& ok.len() == old(self).ids().len()
                    &&& after.len() == ok.len()
                    &&& forall|i: int|
                        0 <= i < ok.len() && #[trigger] ok[i] ==> after[i].received()
                            == old(self).sinks()[i].received() + chunk@
                    &&& final(self).ids() == #[trigger] pick(old(self).ids(), ok, true)
                    &&& final(self).sinks() == #[trigger] pick(after, ok, true)
                    &&& dropped@ == pick(old(self).ids(), ok, false)
                },
    {
        proof {
            use_type_invariant(&*self);
        }
        let mut entries = self.take_entries();
        let ghost sinks0 = sinks_of(entries@);
        let n = entries.len();
        let mut ok: Vec<bool> = Vec::new();
        let mut i: usize = 0;
        while i < n
            invariant
                n == entries@.len(),
                sinks0 == old(self).sinks(),
                sinks0.len() == n,
                i <= n,
                ok@.len() == i,
                ids_of(entries@) == old(self).ids(),
                forall|j: int| i <= j < n ==> #[trigger] entries@[j].sink == sinks0[j],
                forall|j: int|
                    0 <= j < i && #[trigger] ok@[j] ==> entries@[j].sink.received()
                        == sinks0[j].received() + chunk@,
            decreases n - i,
        {
            let ghost before = entries@;
            let delivered = entries[i].sink.deliver(chunk);
            assert(ids_of(entries@) =~= ids_of(before));
            ok.push(delivered);
            i = i + 1;
        }
        let ghost after = sinks_of(entries@);
        *self = Registry { entries };
        let dropped = self.retain_delivered(&ok);
        assert(final(self).ids() == pick(old(self).ids(), ok@, true));
        assert(final(self).sinks() == pick(after, ok@, true));
        assert(forall|j: int| 0 <= j < ok@.len() && #[trigger] ok@[j] ==> after[j].received()
            == old(self).sinks()[j].received() + chunk@);
        dropped
    }
}

/// Picking by outcome keeps identifiers distinct.
proof fn lemma_pick_unique(ids: Seq<u128>, ok: Seq<bool>, want: bool)
    requires
        ids.no_duplicates(),
    ensures
        pick(ids, ok, want).no_duplicates(),
        forall|x: u128| pick(ids, ok, want).contains(x) ==> ids.contains(x),
    decreases ids.len(),
{
    if ids.len() > 0 && ok.len() > 0 {
        let init = ids.drop_last();
        assert(init.no_duplicates());
        lemma_pick_unique(init, ok.drop_last(), want);
        assert forall|x: u128| init.contains(x) implies ids.contains(x) by {
            let k = choose|k: int| 0 <= k < init.len() && init[k] == x;
            assert(ids[k] == x);
        }
        assert(!init.contains(ids.last())) by {
            if init.contains(ids.last()) {
                let k = choose|k: int| 0 <= k < init.len() && init[k] == ids.last();
                assert(ids[k] == ids[ids.len() - 1]);
            }
        }
        if ok.last() == want {
            let r = pick(init, ok.drop_last(), want);
            assert forall|x: u128| r.push(ids.last()).contains(x) implies ids.contains(x) by {
                if x != ids.last() {
                    let k = choose|k: int| 0 <= k < r.push(ids.last()).len() && r.push(ids.last())[k] == x;
                    assert(r[k] == x);
                }
            }
        }
    }
}

/// Picking the identifiers that differ from `id` is filtering `id` out.
proof fn lemma_pick_filter(ids: Seq<u128>, ok: Seq<bool>, id: u128)
    requires
        ok.len() == ids.len(),
        forall|j: int| 0 <= j < ids.len() ==> ok[j] == (ids[j] != id),
    ensures
        pick(ids, ok, true) == ids.filter(|x: u128| x != id),
    decreases ids.len(),
{
    let keep = |x: u128| x != id;
    reveal(Seq::filter);
    if ids.len() > 0 {
        let init = ids.drop_last();
        assert forall|j: int| 0 <= j < init.len() implies ok.drop_last()[j] == (init[j] != id) by {
            assert(ok.drop_last()[j] == ok[j]);
        }
        lemma_pick_filter(init, ok.drop_last(), id);
        assert(ok.last() == (ids.last() != id));
        assert(ids.filter(keep) == if keep(ids.last()) {
            init.filter(keep).push(ids.last())
        } else {
            init.filter(keep)
        });
    } else {
        assert(ids.filter(keep) == ids);
    }
}

} // verus!
