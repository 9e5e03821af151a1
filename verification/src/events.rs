//! Namespace event views: best-effort event lookup, selection within a
//! lookback window, and ordering newest-first.

use vstd::prelude::*;

use crate::entities::common::{EventInfo, EventInfoView};
use crate::entities::incident::{NamespaceEventInfo, NamespaceEventView};
use crate::obs::{EventObs, EventObsView, EventSource, EventSourceView, TimeObsView};
use crate::podview::{opt_age_seq, or_empty};
use crate::text::{lex_lt, str_eq};

verus! {

/// Epochs this crate computes with stay far inside `i64`, so age and
/// cutoff subtractions cannot overflow. The bound is about 125,000 years
/// on either side of 1970.
pub open spec fn sane_epoch(e: int) -> bool {
    -4000000000000 <= e <= 4000000000000
}

/// An optional observed instant with a sane epoch.
pub open spec fn sane_opt_time(t: Option<TimeObsView>) -> bool {
    match t {
        Some(tv) => sane_epoch(tv.epoch),
        None => true,
    }
}

/// All instants carried by the observed events are sane.
pub open spec fn sane_event_times(evs: Seq<EventObsView>) -> bool {
    forall|i: int|
        0 <= i < evs.len() ==> sane_opt_time(#[trigger] evs[i].event_time) && sane_opt_time(
            evs[i].creation_time,
        )
}

/// The events fetched for the resource `name` of kind `kind`: the first
/// matching entry's events, or none. Event enrichment is best-effort, so
/// a missing entry reads as no events.
pub open spec fn spec_lookup_events(
    srcs: Seq<EventSourceView>,
    name: Seq<char>,
    kind: Seq<char>,
) -> Seq<EventInfoView>
    decreases srcs.len(),
{
    if srcs.len() == 0 {
        Seq::empty()
    } else if srcs[0].name == name && srcs[0].kind == kind {
        srcs[0].events
    } else {
        spec_lookup_events(srcs.drop_first(), name, kind)
    }
}

/// Copy a list of events, field by field.
pub fn clone_events(v: &Vec<EventInfo>) -> (r: Vec<EventInfo>)
    ensures
        r.deep_view() == v.deep_view(),
{
    let ghost all = v.deep_view();
    let mut r: Vec<EventInfo> = Vec::new();
    let mut i: usize = 0;
    while i < v.len()
        invariant
            all == v.deep_view(),
            i <= v.len() == all.len(),
            r.deep_view() =~~= all.take(i as int),
        decreases v.len() - i,
    {
        let ghost pre = r@;
        let ghost predeep = r.deep_view();
        proof {
            assert(predeep.len() == i);
            assert(predeep.len() == pre.len());
            assert(pre.len() == i);
        }
        r.push(
            EventInfo {
                reason: v[i].reason.clone(),
                message: v[i].message.clone(),
                count: v[i].count,
                age: v[i].age.clone(),
                event_type: v[i].event_type.clone(),
            },
        );
        proof {
            assert(r@.last()@ == all[i as int]);
            assert forall|k: int| 0 <= k <= i implies #[trigger] r.deep_view()[k] == all[k] by {
                if k < i {
                    assert(r@[k] == pre[k]);
                    assert(r.deep_view()[k] == pre[k].deep_view());
                    assert(predeep[k] == pre[k].deep_view());
                    assert(predeep[k] == all.take(i as int)[k]);
                } else {
                    assert(r.deep_view()[k] == r@[k].deep_view());
                }
            }
            assert(r.deep_view() =~~= all.take(i + 1));
        }
        i += 1;
    }
    proof {
        assert(all.take(all.len() as int) =~= all);
    }
    r
}

/// Find the events fetched for one resource.
pub fn lookup_events(srcs: &Vec<EventSource>, name: &str, kind: &str) -> (r: Vec<EventInfo>)
    ensures
        r.deep_view() == spec_lookup_events(srcs.deep_view(), name@, kind@),
{
    let ghost all = srcs.deep_view();
    let mut i: usize = 0;
    proof {
        assert(all.skip(0) =~= all);
    }
    while i < srcs.len()
        invariant
            all == srcs.deep_view(),
            i <= srcs.len() == all.len(),
            spec_lookup_events(all, name@, kind@) == spec_lookup_events(
                all.skip(i as int),
                name@,
                kind@,
            ),
        decreases srcs.len() - i,
    {
        proof {
            assert(all.skip(i as int)[0] == all[i as int]);
        }
        if str_eq(srcs[i].name.as_str(), name) && str_eq(srcs[i].kind.as_str(), kind) {
            return clone_events(&srcs[i].events);
        }
        proof {
            assert(all.skip(i as int).drop_first() =~= all.skip(i + 1));
        }
        i += 1;
    }
    proof {
        assert(all.skip(i as int).len() == 0);
    }
    Vec::new()
}

/// The instant an event is dated by: its event time, else its creation
/// time.
pub open spec fn eff_time(e: EventObsView) -> Option<TimeObsView> {
    match e.event_time {
        Some(t) => Some(t),
        None => e.creation_time,
    }
}

/// Whether an event falls inside the lookback window. An undated event
/// always does, as does every event when no window is given.
pub open spec fn within_window(e: EventObsView, cutoff: Option<int>) -> bool {
    match cutoff {
        Some(c) => match eff_time(e) {
            Some(t) => t.epoch >= c,
            None => true,
        },
        None => true,
    }
}

/// The namespace event view of one observed event, as observed at `now`.
/// Missing texts default to empty, a missing count to 1, a missing type
/// to `Normal`; the timestamp is the dating instant's RFC 3339 text, or
/// empty for an undated event.
pub open spec fn spec_ns_event(e: EventObsView, now: int) -> NamespaceEventView {
    NamespaceEventView {
        involved_kind: or_empty(e.involved_kind),
        involved_name: or_empty(e.involved_name),
        reason: or_empty(e.reason),
        message: or_empty(e.message),
        count: match e.count {
            Some(c) => c as int,
            None => 1,
        },
        event_type: match e.event_type {
            Some(t) => t,
            None => "Normal"@,
        },
        timestamp: match eff_time(e) {
            Some(t) => t.rfc3339,
            None => Seq::empty(),
        },
        age: opt_age_seq(e.creation_time, now),
    }
}

/// The events inside the window, rendered, in observed order.
pub open spec fn spec_select_events(
    evs: Seq<EventObsView>,
    cutoff: Option<int>,
    now: int,
) -> Seq<NamespaceEventView>
    decreases evs.len(),
{
    if evs.len() == 0 {
        Seq::empty()
    } else {
        let rest = spec_select_events(evs.drop_last(), cutoff, now);
        if within_window(evs.last(), cutoff) {
            rest + seq![spec_ns_event(evs.last(), now)]
        } else {
            rest
        }
    }
}

/// `a` must come strictly before `b` in a newest-first event listing:
/// its timestamp text is lexicographically greater. Timestamps are RFC
/// 3339 in one form, so this is newest-first; the empty timestamp of an
/// undated event is the least text and sorts last.
pub open spec fn ns_event_before(a: NamespaceEventView, b: NamespaceEventView) -> bool {
    lex_lt(b.timestamp, a.timestamp)
}

/// Insertion of one element into a newest-first run, after every element
/// it does not strictly precede (so equal timestamps keep their order).
pub open spec fn insert_ns_desc(x: NamespaceEventView, s: Seq<NamespaceEventView>) -> Seq<
    NamespaceEventView,
>
    decreases s.len(),
{
    if s.len() == 0 {
        seq![x]
    } else if ns_event_before(x, s[0]) {
        seq![x] + s
    } else {
        seq![s[0]] + insert_ns_desc(x, s.drop_first())
    }
}

/// Stable newest-first ordering of an event listing.
pub open spec fn sort_ns_desc(s: Seq<NamespaceEventView>) -> Seq<NamespaceEventView>
    decreases s.len(),
{
    if s.len() == 0 {
        Seq::empty()
    } else {
        insert_ns_desc(s.last(), sort_ns_desc(s.drop_last()))
    }
}

/// Inserting at the first position whose element the new one strictly
/// precedes realizes `insert_ns_desc`.
proof fn lemma_insert_ns_at(x: NamespaceEventView, s: Seq<NamespaceEventView>, j: int)
    requires
        0 <= j <= s.len(),
        forall|k: int| 0 <= k < j ==> !ns_event_before(x, #[trigger] s[k]),
        j < s.len() ==> ns_event_before(x, s[j]),
    ensures
        insert_ns_desc(x, s) =~= s.take(j) + seq![x] + s.skip(j),
    decreases s.len(),
{
    if s.len() == 0 {
        assert(insert_ns_desc(x, s) =~= s.take(j) + seq![x] + s.skip(j));
    } else if j == 0 {
        assert(insert_ns_desc(x, s) =~= s.take(0) + seq![x] + s.skip(0));
    } else {
        assert(!ns_event_before(x, s[0]));
        lemma_insert_ns_at(x, s.drop_first(), j - 1);
        assert(forall|k: int|
            0 <= k < j - 1 ==> #[trigger] s.drop_first()[k] == s[k + 1]);
        assert(s.drop_first().take(j - 1) =~= s.take(j).drop_first());
        assert(s.drop_first().skip(j - 1) =~= s.skip(j));
        assert(insert_ns_desc(x, s) =~= seq![s[0]] + insert_ns_desc(x, s.drop_first()));
        assert(insert_ns_desc(x, s) =~= s.take(j) + seq![x] + s.skip(j));
    }
}

/// Sort an event listing newest-first, keeping the observed order of
/// equal timestamps.
pub fn sort_events_desc(v: Vec<NamespaceEventInfo>) -> (r: Vec<NamespaceEventInfo>)
    ensures
        r.deep_view() == sort_ns_desc(v.deep_view()),
{
    let ghost all = v.deep_view();
    let mut src = v;
    let mut out: Vec<NamespaceEventInfo> = Vec::new();
    let mut i: usize = 0;
    proof {
        assert(all.take(0) =~= Seq::<NamespaceEventView>::empty());
    }
    while i < src.len()
        invariant
            all == src.deep_view(),
            i <= src.len() == all.len(),
            out.deep_view() == sort_ns_desc(all.take(i as int)),
        decreases src.len() - i,
    {
        let ghost sorted = out.deep_view();
        let x = &src[i];
        let mut j: usize = 0;
        while j < out.len() && !crate::text::str_lex_lt(
            out[j].timestamp.as_str(),
            x.timestamp.as_str(),
        )
            invariant
                sorted == out.deep_view(),
                j <= out.len() == sorted.len(),
                all == src.deep_view(),
                i < all.len(),
                x == src[i as int],
                forall|k: int| 0 <= k < j ==> !ns_event_before(x@, #[trigger] sorted[k]),
            decreases out.len() - j,
        {
            j += 1;
        }
        proof {
            if j < out.len() {
                assert(ns_event_before(x@, sorted[j as int]));
            }
        }
        let item = NamespaceEventInfo {
            involved_kind: x.involved_kind.clone(),
            involved_name: x.involved_name.clone(),
            reason: x.reason.clone(),
            message: x.message.clone(),
            count: x.count,
            event_type: x.event_type.clone(),
            timestamp: x.timestamp.clone(),
            age: x.age.clone(),
        };
        assert(item@ == x@);
        out.insert(j, item);
        proof {
            lemma_insert_ns_at(x@, sorted, j as int);
            assert(out.deep_view() =~= sorted.take(j as int) + seq![x@] + sorted.skip(j as int));
            assert(all.take(i + 1).drop_last() =~= all.take(i as int));
            assert(all.take(i + 1).last() == all[i as int]);
            assert(out.deep_view() =~= insert_ns_desc(all[i as int], sorted));
        }
        i += 1;
    }
    proof {
        assert(all.take(all.len() as int) =~= all);
    }
    out
}

/// All namespace events rendered newest-first: every observed event
/// inside the lookback window (`since_minutes` back from `now`, or no
/// window), rendered as `spec_ns_event` and ordered newest-first with
/// undated events last.
pub fn fetch_namespace_events(
    events: &Vec<EventObs>,
    since_minutes: Option<u32>,
    now: i64,
) -> (r: Vec<NamespaceEventInfo>)
    requires
        sane_epoch(now as int),
        sane_event_times(events.deep_view()),
    ensures
        r.deep_view() == sort_ns_desc(
            spec_select_events(
                events.deep_view(),
                match since_minutes {
                    Some(m) => Some((now - 60 * (m as i64)) as int),
                    None => None::<int>,
                },
                now as int,
            ),
        ),
{
    let ghost all = events.deep_view();
    let cutoff: Option<i64> = match since_minutes {
        Some(m) => Some(now - 60 * (m as i64)),
        None => None,
    };
    let ghost cutoff_view = match cutoff {
        Some(c) => Some(c as int),
        None => None::<int>,
    };
    let mut picked: Vec<NamespaceEventInfo> = Vec::new();
    let mut i: usize = 0;
    proof {
        assert(all.take(0) =~= Seq::<EventObsView>::empty());
    }
    while i < events.len()
        invariant
            all == events.deep_view(),
            i <= events.len() == all.len(),
            sane_epoch(now as int),
            sane_event_times(all),
            match (cutoff, cutoff_view) {
                (Some(c), Some(cv)) => c as int == cv,
                (None, None) => true,
                _ => false,
            },
            picked.deep_view() == spec_select_events(all.take(i as int), cutoff_view, now as int),
        decreases events.len() - i,
    {
        let e = &events[i];
        let inside: bool = match (&cutoff, &e.event_time, &e.creation_time) {
            (Some(c), Some(t), _) => t.epoch >= *c,
            (Some(c), None, Some(t)) => t.epoch >= *c,
            _ => true,
        };
        if inside {
            let eff: Option<&crate::obs::TimeObs> = match (&e.event_time, &e.creation_time) {
                (Some(t), _) => Some(t),
                (None, Some(t)) => Some(t),
                (None, None) => None,
            };
            let item = NamespaceEventInfo {
                involved_kind: clone_or_empty(&e.involved_kind),
                involved_name: clone_or_empty(&e.involved_name),
                reason: clone_or_empty(&e.reason),
                message: clone_or_empty(&e.message),
                count: match e.count {
                    Some(c) => c,
                    None => 1,
                },
                event_type: match &e.event_type {
                    Some(t) => t.clone(),
                    None => "Normal".to_owned(),
                },
                timestamp: match eff {
                    Some(t) => t.rfc3339.clone(),
                    None => String::new(),
                },
                age: match &e.creation_time {
                    Some(t) => crate::formatting::format_age(Some(t.epoch), now),
                    None => crate::formatting::format_age(None, now),
                },
            };
            assert(item@ == spec_ns_event(all[i as int], now as int));
            picked.push(item);
        }
        proof {
            assert(all.take(i + 1).drop_last() =~= all.take(i as int));
            assert(all.take(i + 1).last() == all[i as int]);
            if inside {
                assert(picked.deep_view() =~= spec_select_events(all.take(i as int), cutoff_view, now as int) + seq![spec_ns_event(all[i as int], now as int)]);
            }
        }
        i += 1;
    }
    proof {
        assert(all.take(all.len() as int) =~= all);
    }
    sort_events_desc(picked)
}

/// Copy an optional text, defaulting to empty.
pub fn clone_or_empty(o: &Option<String>) -> (r: String)
    ensures
        r@ == or_empty(o.deep_view()),
{
    match o {
        Some(s) => s.clone(),
        None => String::new(),
    }
}

} // verus!
