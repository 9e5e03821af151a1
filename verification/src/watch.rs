//! The live pod index: an in-memory, namespace-scoped cache of pods
//! driven by a continuous change stream, with debounced emission.
//!
//! This is the decision core of the watcher. The surrounding
//! application reads the stream, performs the one outside re-listing an
//! `Init` asks for, and owns the timers; every decision — how the cache
//! changes, and whether an emission is due now or must wait for the
//! debounce window — is made here. Instants are milliseconds on a
//! monotonic clock; rendering takes seconds since the Unix epoch.

use vstd::prelude::*;

use crate::entities::pod::{PodInfo, PodInfoView};
use crate::obs::{PodObs, PodObsView, ReplicaSetObs};
use crate::owner::{generation_index, ReplicaSetIndex};
use crate::podview::{pod_render_ok, pod_to_pod_info, spec_pod_info};
use crate::text::str_eq;

verus! {

/// The debounce window between consecutive emissions.
pub const DEBOUNCE_MILLIS: i64 = 300;

/// The fixed refresh period that re-emits to keep ages current.
pub const AGE_TICK_MILLIS: i64 = 30000;

/// Instants this watcher computes with stay far inside `i64`, so the
/// debounce subtraction cannot overflow.
pub open spec fn sane_instant(t: int) -> bool {
    -4000000000000000 <= t <= 4000000000000000
}

/// A pod upserted by name: the first cache entry with its name is
/// replaced, else the pod joins at the end.
pub open spec fn spec_upsert(c: Seq<PodObsView>, p: PodObsView) -> Seq<PodObsView>
    decreases c.len(),
{
    if c.len() == 0 {
        seq![p]
    } else if c[0].name == p.name {
        seq![p] + c.drop_first()
    } else {
        seq![c[0]] + spec_upsert(c.drop_first(), p)
    }
}

/// A pod removed by name: the first cache entry with the name leaves;
/// an unseen name changes nothing.
pub open spec fn spec_delete(c: Seq<PodObsView>, name: Seq<char>) -> Seq<PodObsView>
    decreases c.len(),
{
    if c.len() == 0 {
        c
    } else if c[0].name == name {
        c.drop_first()
    } else {
        seq![c[0]] + spec_delete(c.drop_first(), name)
    }
}

/// A whole burst upserted in order.
pub open spec fn spec_upsert_all(c: Seq<PodObsView>, ps: Seq<PodObsView>) -> Seq<PodObsView>
    decreases ps.len(),
{
    if ps.len() == 0 {
        c
    } else {
        spec_upsert_all(spec_upsert(c, ps[0]), ps.drop_first())
    }
}

/// Whether the cache holds a pod of this name.
pub open spec fn cache_has_name(c: Seq<PodObsView>, name: Seq<char>) -> bool {
    exists|i: int| 0 <= i < c.len() && (#[trigger] c[i]).name == name
}

/// Deleting an unseen name leaves the cache unchanged.
pub proof fn lemma_delete_unseen(c: Seq<PodObsView>, name: Seq<char>)
    requires
        !cache_has_name(c, name),
    ensures
        spec_delete(c, name) == c,
    decreases c.len(),
{
    if c.len() > 0 {
        assert(c[0].name != name);
        assert(!cache_has_name(c.drop_first(), name)) by {
            assert(forall|i: int|
                0 <= i < c.drop_first().len() ==> #[trigger] c.drop_first()[i] == c[i + 1]);
        }
        lemma_delete_unseen(c.drop_first(), name);
        assert(spec_delete(c, name) =~= c);
    }
}

/// Upserting a fresh name appends the pod.
pub proof fn lemma_upsert_fresh(c: Seq<PodObsView>, p: PodObsView)
    requires
        !cache_has_name(c, p.name),
    ensures
        spec_upsert(c, p) == c.push(p),
    decreases c.len(),
{
    if c.len() == 0 {
        assert(spec_upsert(c, p) =~= c.push(p));
    } else {
        assert(c[0].name != p.name);
        assert(!cache_has_name(c.drop_first(), p.name)) by {
            assert(forall|i: int|
                0 <= i < c.drop_first().len() ==> #[trigger] c.drop_first()[i] == c[i + 1]);
        }
        lemma_upsert_fresh(c.drop_first(), p);
        assert(spec_upsert(c, p) =~= c.push(p));
    }
}

/// Coalescing law: a burst of applies of pairwise-fresh names, none in
/// the cache, lands every pod in the cache, in order, at the end. Since
/// the watcher emits nothing for an event inside the debounce window,
/// a burst within one window yields a single later emission holding all
/// of its pods.
pub proof fn lemma_burst_coalesces(c: Seq<PodObsView>, ps: Seq<PodObsView>)
    requires
        forall|i: int| 0 <= i < ps.len() ==> !cache_has_name(c, (#[trigger] ps[i]).name),
        forall|i: int, j: int| 0 <= i < j < ps.len() ==> (#[trigger] ps[i].name) != (#[trigger] ps[j].name),
    ensures
        spec_upsert_all(c, ps) == c + ps,
    decreases ps.len(),
{
    if ps.len() == 0 {
        assert(spec_upsert_all(c, ps) =~= c + ps);
    } else {
        lemma_upsert_fresh(c, ps[0]);
        let c1 = c.push(ps[0]);
        let rest = ps.drop_first();
        assert(forall|i: int| 0 <= i < rest.len() ==> #[trigger] rest[i] == ps[i + 1]);
        assert forall|i: int| 0 <= i < rest.len() implies !cache_has_name(
            c1,
            (#[trigger] rest[i]).name,
        ) by {
            assert(rest[i] == ps[i + 1]);
            if cache_has_name(c1, rest[i].name) {
                let k = choose|k: int| 0 <= k < c1.len() && (#[trigger] c1[k]).name == rest[i].name;
                if k < c.len() {
                    assert(c[k].name == ps[i + 1].name);
                } else {
                    assert(c1[k] == ps[0]);
                }
            }
        }
        lemma_burst_coalesces(c1, rest);
        assert(c1 + rest =~= c + ps);
    }
}

/// One event of the pod change stream, as handed in by the stream
/// reader. `Init` starts a resync: it carries the re-listed replica
/// generations that the application fetched for it.
pub enum PodStreamEvent {
    Apply(PodObs),
    InitApply(PodObs),
    Delete(PodObs),
    Init(Vec<ReplicaSetObs>),
    InitDone,
}

/// The cache after one stream event: apply variants upsert by name,
/// delete removes by name, `Init` clears, `InitDone` is a marker.
pub open spec fn spec_event_cache(c: Seq<PodObsView>, ev: &PodStreamEvent) -> Seq<PodObsView> {
    match ev {
        PodStreamEvent::Apply(p) => spec_upsert(c, p@),
        PodStreamEvent::InitApply(p) => spec_upsert(c, p@),
        PodStreamEvent::Delete(p) => spec_delete(c, p@.name),
        PodStreamEvent::Init(_) => Seq::empty(),
        PodStreamEvent::InitDone => c,
    }
}

/// The live pod index of one namespace: the cache, the generation
/// index it resolves owners through, and the debounce state.
pub struct PodWatcher {
    cache: Vec<PodObs>,
    index: ReplicaSetIndex,
    last_emit: i64,
    pending: bool,
}

impl PodWatcher {
    /// The cached pods, in insertion order.
    pub closed spec fn cache_view(&self) -> Seq<PodObsView> {
        self.cache.deep_view()
    }

    /// The generation index in force.
    pub closed spec fn index_view(&self) -> Map<Seq<char>, Seq<char>> {
        self.index@
    }

    /// Whether an emission is owed once the window elapses.
    pub closed spec fn is_pending(&self) -> bool {
        self.pending
    }

    /// The instant of the last emission.
    pub closed spec fn last_emit_at(&self) -> int {
        self.last_emit as int
    }

    /// The watcher's instants stay inside the sane range.
    pub closed spec fn wf(&self) -> bool {
        sane_instant(self.last_emit as int)
    }

    /// Start a watcher: empty cache, the index built from the current
    /// generation listing, no pending emission, and the first event due
    /// to emit immediately.
    pub fn new(gens: &Vec<ReplicaSetObs>, now: i64) -> (r: PodWatcher)
        requires
            sane_instant(now as int),
            sane_instant(now - DEBOUNCE_MILLIS),
        ensures
            r.cache_view() == Seq::<PodObsView>::empty(),
            r.index_view() == generation_index(gens.deep_view()),
            !r.is_pending(),
            r.last_emit_at() == now - DEBOUNCE_MILLIS,
            r.wf(),
    {
        let r = PodWatcher {
            cache: Vec::new(),
            index: ReplicaSetIndex::build(gens),
            last_emit: now - DEBOUNCE_MILLIS,
            pending: false,
        };
        proof {
            assert(r.cache.deep_view() =~= Seq::<PodObsView>::empty());
        }
        r
    }

    /// Upsert one pod by name.
    fn upsert(&mut self, p: PodObs)
        ensures
            final(self).cache_view() == spec_upsert(old(self).cache_view(), p@),
            final(self).index_view() == old(self).index_view(),
            final(self).is_pending() == old(self).is_pending(),
            final(self).last_emit_at() == old(self).last_emit_at(),
            old(self).wf() ==> final(self).wf(),
    {
        let ghost c = self.cache.deep_view();
        let mut k: usize = 0;
        proof {
            assert(c.skip(0) =~= c);
        }
        while k < self.cache.len()
            invariant
                c == self.cache.deep_view(),
                self.cache@ == old(self).cache@,
                self.index == old(self).index,
                self.last_emit == old(self).last_emit,
                self.pending == old(self).pending,
                k <= self.cache.len() == c.len(),
                forall|j: int| 0 <= j < k ==> (#[trigger] c[j]).name != p@.name,
                spec_upsert(c, p@) == c.take(k as int) + spec_upsert(c.skip(k as int), p@),
            decreases self.cache.len() - k,
        {
            proof {
                assert(c.skip(k as int)[0] == c[k as int]);
                assert(c.skip(k as int).drop_first() =~= c.skip(k + 1));
            }
            if str_eq(self.cache[k].name.as_str(), p.name.as_str()) {
                proof {
                    assert(spec_upsert(c.skip(k as int), p@) =~= seq![p@] + c.skip(k + 1));
                    assert(spec_upsert(c, p@) =~= c.take(k as int) + seq![p@] + c.skip(k + 1));
                }
                let ghost pre = self.cache@;
                let ghost predeep = self.cache.deep_view();
                self.cache.remove(k);
                let ghost mid = self.cache@;
                self.cache.insert(k, p);
                proof {
                    assert(mid == pre.remove(k as int));
                    assert(self.cache@ == mid.insert(k as int, p));
                    assert forall|q: int| 0 <= q < self.cache@.len() implies
                        #[trigger] self.cache.deep_view()[q] == spec_upsert(c, p@)[q] by {
                        assert(self.cache.deep_view()[q] == self.cache@[q].deep_view());
                        if q < k {
                            assert(self.cache@[q] == pre[q]);
                            assert(predeep[q] == pre[q].deep_view());
                        } else if q == k {
                            assert(self.cache@[q] == p);
                        } else {
                            assert(self.cache@[q] == mid[q - 1]);
                            assert(mid[q - 1] == pre[q]);
                            assert(predeep[q] == pre[q].deep_view());
                        }
                    }
                    assert(self.cache.deep_view() =~= spec_upsert(c, p@));
                }
                return ;
            }
            proof {
                assert(spec_upsert(c.skip(k as int), p@) =~= seq![c[k as int]] + spec_upsert(
                    c.skip(k + 1),
                    p@,
                ));
                assert(c.take(k as int) + spec_upsert(c.skip(k as int), p@) =~= c.take(k + 1)
                    + spec_upsert(c.skip(k + 1), p@));
            }
            k += 1;
        }
        proof {
            assert(c.skip(k as int).len() == 0);
            assert(spec_upsert(c.skip(k as int), p@) =~= seq![p@]);
        }
        let ghost pre = self.cache@;
        let ghost predeep = self.cache.deep_view();
        self.cache.push(p);
        proof {
            assert forall|q: int| 0 <= q < self.cache@.len() implies #[trigger] self.cache.deep_view()[q]
                == (c.take(k as int) + seq![p@])[q] by {
                assert(self.cache.deep_view()[q] == self.cache@[q].deep_view());
                if q < k {
                    assert(self.cache@[q] == pre[q]);
                    assert(predeep[q] == pre[q].deep_view());
                }
            }
            assert(self.cache.deep_view() =~= c.take(k as int) + seq![p@]);
            assert(spec_upsert(c, p@) =~= c.take(k as int) + seq![p@]);
        }
    }

    /// Remove one pod by name.
    fn delete_by_name(&mut self, name: &str)
        ensures
            final(self).cache_view() == spec_delete(old(self).cache_view(), name@),
            final(self).index_view() == old(self).index_view(),
            final(self).is_pending() == old(self).is_pending(),
            final(self).last_emit_at() == old(self).last_emit_at(),
            old(self).wf() ==> final(self).wf(),
    {
        let ghost c = self.cache.deep_view();
        let mut k: usize = 0;
        proof {
            assert(c.skip(0) =~= c);
        }
        while k < self.cache.len()
            invariant
                c == self.cache.deep_view(),
                self.cache@ == old(self).cache@,
                self.index == old(self).index,
                self.last_emit == old(self).last_emit,
                self.pending == old(self).pending,
                k <= self.cache.len() == c.len(),
                forall|j: int| 0 <= j < k ==> (#[trigger] c[j]).name != name@,
                spec_delete(c, name@) == c.take(k as int) + spec_delete(c.skip(k as int), name@),
            decreases self.cache.len() - k,
        {
            proof {
                assert(c.skip(k as int)[0] == c[k as int]);
                assert(c.skip(k as int).drop_first() =~= c.skip(k + 1));
            }
            if str_eq(self.cache[k].name.as_str(), name) {
                proof {
                    assert(spec_delete(c.skip(k as int), name@) =~= c.skip(k + 1));
                    assert(spec_delete(c, name@) =~= c.take(k as int) + c.skip(k + 1));
                }
                let ghost pre = self.cache@;
                let ghost predeep = self.cache.deep_view();
                self.cache.remove(k);
                proof {
                    assert(self.cache@ == pre.remove(k as int));
                    assert forall|q: int| 0 <= q < self.cache@.len() implies
                        #[trigger] self.cache.deep_view()[q] == spec_delete(c, name@)[q] by {
                        assert(self.cache.deep_view()[q] == self.cache@[q].deep_view());
                        if q < k {
                            assert(self.cache@[q] == pre[q]);
                            assert(predeep[q] == pre[q].deep_view());
                        } else {
                            assert(self.cache@[q] == pre[q + 1]);
                            assert(predeep[q + 1] == pre[q + 1].deep_view());
                        }
                    }
                    assert(self.cache.deep_view() =~= spec_delete(c, name@));
                }
                return ;
            }
            proof {
                assert(spec_delete(c.skip(k as int), name@) =~= seq![c[k as int]] + spec_delete(
                    c.skip(k + 1),
                    name@,
                ));
                assert(c.take(k as int) + spec_delete(c.skip(k as int), name@) =~= c.take(k + 1)
                    + spec_delete(c.skip(k + 1), name@));
            }
            k += 1;
        }
        proof {
            assert(c.skip(k as int).len() == 0);
            assert(spec_delete(c, name@) =~= c);
        }
    }

    /// Fold one stream event into the cache, then decide emission: emit
    /// immediately when the debounce window has elapsed since the last
    /// emission, otherwise mark an emission pending.
    pub fn handle_event(&mut self, ev: PodStreamEvent, now: i64) -> (emit: bool)
        requires
            old(self).wf(),
            sane_instant(now as int),
        ensures
            final(self).cache_view() == spec_event_cache(old(self).cache_view(), &ev),
            final(self).index_view() == match ev {
                PodStreamEvent::Init(gens) => generation_index(gens.deep_view()),
                _ => old(self).index_view(),
            },
            emit == (now - old(self).last_emit_at() >= DEBOUNCE_MILLIS),
            emit ==> final(self).last_emit_at() == now && !final(self).is_pending(),
            !emit ==> final(self).last_emit_at() == old(self).last_emit_at()
                && final(self).is_pending(),
            final(self).wf(),
    {
        match ev {
            PodStreamEvent::Apply(p) => {
                self.upsert(p);
            },
            PodStreamEvent::InitApply(p) => {
                self.upsert(p);
            },
            PodStreamEvent::Delete(p) => {
                self.delete_by_name(p.name.as_str());
            },
            PodStreamEvent::Init(gens) => {
                self.cache.clear();
                self.index = ReplicaSetIndex::build(&gens);
                proof {
                    assert(self.cache.deep_view() =~= Seq::<PodObsView>::empty());
                }
            },
            PodStreamEvent::InitDone => {},
        }
        if now - self.last_emit >= DEBOUNCE_MILLIS {
            self.last_emit = now;
            self.pending = false;
            true
        } else {
            self.pending = true;
            false
        }
    }

    /// The debounce timer fired: emit now if an emission is pending.
    pub fn timer_fire(&mut self, now: i64) -> (emit: bool)
        requires
            old(self).wf(),
            sane_instant(now as int),
        ensures
            final(self).cache_view() == old(self).cache_view(),
            final(self).index_view() == old(self).index_view(),
            emit == old(self).is_pending(),
            emit ==> final(self).last_emit_at() == now && !final(self).is_pending(),
            !emit ==> *final(self) == *old(self),
            final(self).wf(),
    {
        if self.pending {
            self.last_emit = now;
            self.pending = false;
            true
        } else {
            false
        }
    }

    /// The periodic age refresh fired: emit exactly when the cache is
    /// non-empty, leaving any pending mark as it is.
    pub fn age_tick(&mut self, now: i64) -> (emit: bool)
        requires
            old(self).wf(),
            sane_instant(now as int),
        ensures
            final(self).cache_view() == old(self).cache_view(),
            final(self).index_view() == old(self).index_view(),
            final(self).is_pending() == old(self).is_pending(),
            emit == (old(self).cache_view().len() > 0),
            emit ==> final(self).last_emit_at() == now,
            !emit ==> *final(self) == *old(self),
            final(self).wf(),
    {
        proof {
            assert(self.cache.deep_view().len() == self.cache@.len());
        }
        if self.cache.len() > 0 {
            self.last_emit = now;
            true
        } else {
            false
        }
    }

    /// The rendered rows of the whole cache, in cache order.
    pub open spec fn spec_render(
        c: Seq<PodObsView>,
        idx: Map<Seq<char>, Seq<char>>,
        now: int,
    ) -> Seq<PodInfoView>
        decreases c.len(),
    {
        if c.len() == 0 {
            Seq::empty()
        } else {
            Self::spec_render(c.drop_last(), idx, now).push(spec_pod_info(c.last(), idx, now))
        }
    }

    /// Machine bounds for rendering every cached pod at `now` (seconds
    /// since the Unix epoch).
    pub open spec fn render_ok(&self, now: int) -> bool {
        forall|i: int|
            0 <= i < self.cache_view().len() ==> pod_render_ok(#[trigger] self.cache_view()[i], now)
    }

    /// Render the full current pod list for subscribers.
    pub fn render(&self, now_epoch: i64) -> (r: Vec<PodInfo>)
        requires
            self.render_ok(now_epoch as int),
        ensures
            r.deep_view() == Self::spec_render(
                self.cache_view(),
                self.index_view(),
                now_epoch as int,
            ),
    {
        let ghost c = self.cache.deep_view();
        let mut out: Vec<PodInfo> = Vec::new();
        let mut i: usize = 0;
        proof {
            assert(c.take(0) =~= Seq::<PodObsView>::empty());
        }
        while i < self.cache.len()
            invariant
                c == self.cache.deep_view(),
                i <= self.cache.len() == c.len(),
                self.render_ok(now_epoch as int),
                out.deep_view() =~= Self::spec_render(c.take(i as int), self.index_view(), now_epoch as int),
            decreases self.cache.len() - i,
        {
            let ghost outdeep = out.deep_view();
            proof {
                assert(c.take(i + 1).drop_last() =~= c.take(i as int));
                assert(c.take(i + 1).last() == c[i as int]);
            }
            proof {
                assert(self.cache_view()[i as int] == c[i as int]);
                assert(pod_render_ok(c[i as int], now_epoch as int));
            }
            let row = pod_to_pod_info(&self.cache[i], &self.index, now_epoch);
            out.push(row);
            proof {
                assert(out.deep_view() =~= outdeep + seq![
                    spec_pod_info(c[i as int], self.index_view(), now_epoch as int),
                ]);
            }
            i += 1;
        }
        proof {
            assert(c.take(c.len() as int) =~= c);
        }
        out
    }
}

} // verus!
