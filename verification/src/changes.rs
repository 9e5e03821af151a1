//! Recent-change detection: four independent detectors over observed
//! cluster state, concatenated, deduplicated and ordered newest-first.

use vstd::prelude::*;
use vstd::string::StringExecFns;

use crate::entities::incident::{ChangeDetails, ChangeDetailsView, ChangeEvent, ChangeEventView};
use crate::events::{eff_time, sane_epoch, within_window};
use crate::obs::{EventObs, EventObsView, HpaObs, HpaObsView, ReplicaSetObs, ReplicaSetObsView, WorkloadObs, WorkloadObsView};
use crate::owner::first_deployment_owner;
use crate::podview::or_empty;
use crate::text::{int_of_dec, lex_lt, str_eq, str_lex_lt};
use crate::timeparse::rfc3339_epoch;

verus! {

/// Two changes count as the same finding when their type, resource name
/// and description coincide.
pub open spec fn change_key_eq(a: ChangeEventView, b: ChangeEventView) -> bool {
    a.change_type == b.change_type && a.resource_name == b.resource_name && a.description
        == b.description
}

/// Deduplication keeping the first occurrence of each
/// (type, resource name, description) key.
pub open spec fn spec_dedup_changes(s: Seq<ChangeEventView>) -> Seq<ChangeEventView>
    decreases s.len(),
{
    if s.len() == 0 {
        Seq::empty()
    } else {
        let rest = spec_dedup_changes(s.drop_last());
        if exists|k: int| 0 <= k < s.len() - 1 && change_key_eq(#[trigger] s[k], s.last()) {
            rest
        } else {
            rest.push(s.last())
        }
    }
}

/// Deduplication keeps exactly the keys of its input.
pub proof fn lemma_dedup_key_set(s: Seq<ChangeEventView>, c: ChangeEventView)
    ensures
        (exists|k: int| 0 <= k < s.len() && change_key_eq(#[trigger] s[k], c)) <==> (exists|j: int|
            0 <= j < spec_dedup_changes(s).len() && change_key_eq(
                #[trigger] spec_dedup_changes(s)[j],
                c,
            )),
    decreases s.len(),
{
    if s.len() > 0 {
        lemma_dedup_key_set(s.drop_last(), c);
        lemma_dedup_key_set(s.drop_last(), s.last());
        let rest = spec_dedup_changes(s.drop_last());
        if exists|k: int| 0 <= k < s.len() - 1 && change_key_eq(#[trigger] s[k], s.last()) {
            assert(spec_dedup_changes(s) == rest);
            if exists|k: int| 0 <= k < s.len() && change_key_eq(#[trigger] s[k], c) {
                let k = choose|k: int| 0 <= k < s.len() && change_key_eq(#[trigger] s[k], c);
                if k == s.len() - 1 {
                    let k2 = choose|k2: int|
                        0 <= k2 < s.len() - 1 && change_key_eq(#[trigger] s[k2], s.last());
                    assert(s.drop_last()[k2] == s[k2]);
                    assert(change_key_eq(s.drop_last()[k2], c));
                } else {
                    assert(s.drop_last()[k] == s[k]);
                }
            }
            if exists|j: int|
                0 <= j < spec_dedup_changes(s).len() && change_key_eq(
                    #[trigger] spec_dedup_changes(s)[j],
                    c,
                ) {
                let j = choose|j: int|
                    0 <= j < rest.len() && change_key_eq(#[trigger] rest[j], c);
                assert(exists|k: int|
                    0 <= k < s.drop_last().len() && change_key_eq(#[trigger] s.drop_last()[k], c));
                let k = choose|k: int|
                    0 <= k < s.drop_last().len() && change_key_eq(#[trigger] s.drop_last()[k], c);
                assert(s[k] == s.drop_last()[k]);
            }
        } else {
            assert(spec_dedup_changes(s) == rest.push(s.last()));
            if exists|k: int| 0 <= k < s.len() && change_key_eq(#[trigger] s[k], c) {
                let k = choose|k: int| 0 <= k < s.len() && change_key_eq(#[trigger] s[k], c);
                if k == s.len() - 1 {
                    assert(spec_dedup_changes(s).last() == s.last());
                    assert(change_key_eq(spec_dedup_changes(s)[spec_dedup_changes(s).len() - 1], c));
                } else {
                    assert(s.drop_last()[k] == s[k]);
                    let j = choose|j: int|
                        0 <= j < rest.len() && change_key_eq(#[trigger] rest[j], c);
                    assert(spec_dedup_changes(s)[j] == rest[j]);
                }
            }
            if exists|j: int|
                0 <= j < spec_dedup_changes(s).len() && change_key_eq(
                    #[trigger] spec_dedup_changes(s)[j],
                    c,
                ) {
                let j = choose|j: int|
                    0 <= j < spec_dedup_changes(s).len() && change_key_eq(
                        #[trigger] spec_dedup_changes(s)[j],
                        c,
                    );
                if j == spec_dedup_changes(s).len() - 1 {
                    assert(change_key_eq(s.last(), c));
                } else {
                    assert(spec_dedup_changes(s)[j] == rest[j]);
                    let k = choose|k: int|
                        0 <= k < s.drop_last().len() && change_key_eq(
                            #[trigger] s.drop_last()[k],
                            c,
                        );
                    assert(s[k] == s.drop_last()[k]);
                }
            }
        }
    }
}

/// No two entries of a deduplicated listing share a key, and every entry
/// is one of the input's.
pub proof fn lemma_dedup_distinct(s: Seq<ChangeEventView>)
    ensures
        forall|a: int, b: int|
            0 <= a < b < spec_dedup_changes(s).len() ==> !change_key_eq(
                #[trigger] spec_dedup_changes(s)[a],
                #[trigger] spec_dedup_changes(s)[b],
            ),
        forall|j: int|
            0 <= j < spec_dedup_changes(s).len() ==> exists|k: int|
                0 <= k < s.len() && s[k] == #[trigger] spec_dedup_changes(s)[j],
    decreases s.len(),
{
    if s.len() > 0 {
        lemma_dedup_distinct(s.drop_last());
        let rest = spec_dedup_changes(s.drop_last());
        assert(forall|j: int|
            0 <= j < rest.len() ==> exists|k: int|
                0 <= k < s.drop_last().len() && s.drop_last()[k] == #[trigger] rest[j]);
        assert(forall|k: int|
            0 <= k < s.drop_last().len() ==> #[trigger] s.drop_last()[k] == s[k]);
        if exists|k: int| 0 <= k < s.len() - 1 && change_key_eq(#[trigger] s[k], s.last()) {
        } else {
            assert forall|a: int, b: int|
                0 <= a < b < spec_dedup_changes(s).len() implies !change_key_eq(
                #[trigger] spec_dedup_changes(s)[a],
                #[trigger] spec_dedup_changes(s)[b],
            ) by {
                if b == spec_dedup_changes(s).len() - 1 {
                    assert(spec_dedup_changes(s)[a] == rest[a]);
                    let k = choose|k: int|
                        0 <= k < s.drop_last().len() && s.drop_last()[k] == rest[a];
                    assert(s[k] == rest[a]);
                    assert(!change_key_eq(s[k], s.last()));
                } else {
                    assert(spec_dedup_changes(s)[a] == rest[a]);
                    assert(spec_dedup_changes(s)[b] == rest[b]);
                }
            }
        }
    }
}

/// Whether the listing already holds an entry with `c`'s key.
fn contains_change_key(out: &Vec<ChangeEvent>, c: &ChangeEvent) -> (r: bool)
    ensures
        r == exists|j: int|
            0 <= j < out.deep_view().len() && change_key_eq(#[trigger] out.deep_view()[j], c@),
{
    let ghost all = out.deep_view();
    let mut j: usize = 0;
    while j < out.len()
        invariant
            all == out.deep_view(),
            j <= out.len() == all.len(),
            forall|k: int| 0 <= k < j ==> !change_key_eq(#[trigger] all[k], c@),
        decreases out.len() - j,
    {
        if str_eq(out[j].change_type.as_str(), c.change_type.as_str()) && str_eq(
            out[j].resource_name.as_str(),
            c.resource_name.as_str(),
        ) && str_eq(out[j].description.as_str(), c.description.as_str()) {
            assert(change_key_eq(all[j as int], c@));
            return true;
        }
        j += 1;
    }
    false
}

/// Drop every change whose (type, resource name, description) key was
/// already seen, keeping first occurrences in order.
pub fn dedup_changes(v: Vec<ChangeEvent>) -> (r: Vec<ChangeEvent>)
    ensures
        r.deep_view() == spec_dedup_changes(v.deep_view()),
{
    let ghost all = v.deep_view();
    let mut src = v;
    let mut out: Vec<ChangeEvent> = Vec::new();
    let ghost i: int = 0;
    proof {
        assert(all.take(0) =~= Seq::<ChangeEventView>::empty());
        assert(all.skip(0) =~= all);
    }
    while src.len() > 0
        invariant
            0 <= i <= all.len(),
            src.deep_view() =~= all.skip(i),
            out.deep_view() =~= spec_dedup_changes(all.take(i)),
        decreases src.len(),
    {
        let ghost pre = src.deep_view();
        proof {
            assert(pre.len() == src@.len());
            assert(pre.len() == all.skip(i).len());
            assert(i < all.len());
            assert(all.skip(i)[0] == all[i]);
            assert(pre[0] == all[i]);
        }
        let c = src.remove(0);
        proof {
            assert(src.deep_view() =~= pre.remove(0));
            assert(pre.remove(0) =~= all.skip(i + 1));
        }
        let dup = contains_change_key(&out, &c);
        proof {
            assert(all.take(i + 1).drop_last() =~= all.take(i));
            assert(all.take(i + 1).last() == all[i]);
            lemma_dedup_key_set(all.take(i), c@);
            assert(forall|k: int| 0 <= k < i ==> #[trigger] all.take(i)[k] == all[k]);
        }
        if !dup {
            let ghost outpre = out@;
            let ghost outdeep = out.deep_view();
            out.push(c);
            proof {
                assert(outdeep.len() == outpre.len());
                assert forall|k: int| 0 <= k < out@.len() implies #[trigger] out.deep_view()[k]
                    == spec_dedup_changes(all.take(i + 1))[k] by {
                    if k < outpre.len() {
                        assert(out@[k] == outpre[k]);
                        assert(out.deep_view()[k] == outpre[k].deep_view());
                        assert(outdeep[k] == outpre[k].deep_view());
                    } else {
                        assert(out@[k] == c);
                    }
                }
                assert(out.deep_view() =~= spec_dedup_changes(all.take(i + 1)));
            }
        }
        proof {
            i = i + 1;
        }
    }
    proof {
        assert(all.take(all.len() as int) =~= all);
        assert(all.skip(i) =~= src.deep_view());
        assert(i == all.len());
    }
    out
}

/// `a` must come strictly before `b` in a newest-first change listing.
/// Timestamps are RFC 3339 in one form, so lexicographic order is
/// chronological; an empty timestamp is the least text and sorts last.
pub open spec fn change_before(a: ChangeEventView, b: ChangeEventView) -> bool {
    lex_lt(b.timestamp, a.timestamp)
}

/// Insertion of one change into a newest-first run, after every change
/// it does not strictly precede.
pub open spec fn insert_change_desc(x: ChangeEventView, s: Seq<ChangeEventView>) -> Seq<
    ChangeEventView,
>
    decreases s.len(),
{
    if s.len() == 0 {
        seq![x]
    } else if change_before(x, s[0]) {
        seq![x] + s
    } else {
        seq![s[0]] + insert_change_desc(x, s.drop_first())
    }
}

/// Stable newest-first ordering of a change listing.
pub open spec fn sort_changes_desc(s: Seq<ChangeEventView>) -> Seq<ChangeEventView>
    decreases s.len(),
{
    if s.len() == 0 {
        Seq::empty()
    } else {
        insert_change_desc(s.last(), sort_changes_desc(s.drop_last()))
    }
}

proof fn lemma_insert_change_at(x: ChangeEventView, s: Seq<ChangeEventView>, j: int)
    requires
        0 <= j <= s.len(),
        forall|k: int| 0 <= k < j ==> !change_before(x, #[trigger] s[k]),
        j < s.len() ==> change_before(x, s[j]),
    ensures
        insert_change_desc(x, s) =~= s.take(j) + seq![x] + s.skip(j),
    decreases s.len(),
{
    if s.len() == 0 {
        assert(insert_change_desc(x, s) =~= s.take(j) + seq![x] + s.skip(j));
    } else if j == 0 {
        assert(insert_change_desc(x, s) =~= s.take(0) + seq![x] + s.skip(0));
    } else {
        assert(!change_before(x, s[0]));
        lemma_insert_change_at(x, s.drop_first(), j - 1);
        assert(forall|k: int| 0 <= k < j - 1 ==> #[trigger] s.drop_first()[k] == s[k + 1]);
        assert(s.drop_first().take(j - 1) =~= s.take(j).drop_first());
        assert(s.drop_first().skip(j - 1) =~= s.skip(j));
        assert(insert_change_desc(x, s) =~= seq![s[0]] + insert_change_desc(x, s.drop_first()));
        assert(insert_change_desc(x, s) =~= s.take(j) + seq![x] + s.skip(j));
    }
}

/// Sort a change listing newest-first, keeping the detector order of
/// equal timestamps.
pub fn sort_changes(v: Vec<ChangeEvent>) -> (r: Vec<ChangeEvent>)
    ensures
        r.deep_view() == sort_changes_desc(v.deep_view()),
{
    let ghost all = v.deep_view();
    let mut src = v;
    let mut out: Vec<ChangeEvent> = Vec::new();
    let ghost i: int = 0;
    proof {
        assert(all.take(0) =~= Seq::<ChangeEventView>::empty());
        assert(all.skip(0) =~= all);
    }
    while src.len() > 0
        invariant
            0 <= i <= all.len(),
            src.deep_view() =~= all.skip(i),
            out.deep_view() =~= sort_changes_desc(all.take(i)),
        decreases src.len(),
    {
        let ghost pre = src.deep_view();
        proof {
            assert(pre.len() == src@.len());
            assert(pre.len() == all.skip(i).len());
            assert(i < all.len());
            assert(all.skip(i)[0] == all[i]);
            assert(pre[0] == all[i]);
        }
        let x = src.remove(0);
        proof {
            assert(src.deep_view() =~= pre.remove(0));
            assert(pre.remove(0) =~= all.skip(i + 1));
        }
        let ghost sorted = out.deep_view();
        let mut j: usize = 0;
        while j < out.len() && !str_lex_lt(out[j].timestamp.as_str(), x.timestamp.as_str())
            invariant
                sorted == out.deep_view(),
                j <= out.len() == sorted.len(),
                forall|k: int| 0 <= k < j ==> !change_before(x@, #[trigger] sorted[k]),
            decreases out.len() - j,
        {
            j += 1;
        }
        proof {
            if j < out.len() {
                assert(change_before(x@, sorted[j as int]));
            }
        }
        let ghost outpre = out@;
        out.insert(j, x);
        proof {
            lemma_insert_change_at(x@, sorted, j as int);
            assert(out@ == outpre.insert(j as int, x));
            assert forall|k: int| 0 <= k < out@.len() implies #[trigger] out.deep_view()[k] == (
            sorted.take(j as int) + seq![x@] + sorted.skip(j as int))[k] by {
                if k < j {
                    assert(out@[k] == outpre[k]);
                    assert(sorted[k] == outpre[k].deep_view());
                } else if k == j {
                    assert(out@[k] == x);
                } else {
                    assert(out@[k] == outpre[k - 1]);
                    assert(sorted[k - 1] == outpre[k - 1].deep_view());
                }
            }
            assert(out.deep_view() =~= sorted.take(j as int) + seq![x@] + sorted.skip(j as int));
            assert(all.take(i + 1).drop_last() =~= all.take(i));
            assert(all.take(i + 1).last() == all[i]);
            assert(out.deep_view() =~= insert_change_desc(all[i], sorted));
            i = i + 1;
        }
    }
    proof {
        assert(all.take(all.len() as int) =~= all);
        assert(all.skip(i) =~= src.deep_view());
        assert(i == all.len());
    }
    out
}

/// The Deployment that owns a generation, by its first owner reference
/// of kind `Deployment`.
pub open spec fn gen_owner(g: ReplicaSetObsView) -> Option<Seq<char>> {
    first_deployment_owner(g.owners)
}

/// A generation's revision: its annotation read as a decimal integer, 0
/// when absent or unparsable.
pub open spec fn gen_revision(g: ReplicaSetObsView) -> int {
    match g.revision {
        Some(s) => match int_of_dec(s) {
            Some(v) => v as int,
            None => 0,
        },
        None => 0,
    }
}

/// Read a generation's revision.
pub fn revision_of(g: &ReplicaSetObs) -> (r: i64)
    ensures
        r as int == gen_revision(g@),
{
    match &g.revision {
        Some(s) => match crate::text::parse_i64(s.as_str()) {
            Some(v) => v,
            None => 0,
        },
        None => 0,
    }
}

/// The generations owned by `owner`, in listing order.
pub open spec fn gens_of_owner(gens: Seq<ReplicaSetObsView>, owner: Seq<char>) -> Seq<
    ReplicaSetObsView,
>
    decreases gens.len(),
{
    if gens.len() == 0 {
        Seq::empty()
    } else {
        gens_of_owner(gens.drop_last(), owner) + if gen_owner(gens.last()) == Some(owner) {
            seq![gens.last()]
        } else {
            Seq::empty()
        }
    }
}

/// Insertion of one generation into a revision-ascending run, after
/// every generation of equal or lower revision.
pub open spec fn insert_gen_asc(x: ReplicaSetObsView, s: Seq<ReplicaSetObsView>) -> Seq<
    ReplicaSetObsView,
>
    decreases s.len(),
{
    if s.len() == 0 {
        seq![x]
    } else if gen_revision(x) < gen_revision(s[0]) {
        seq![x] + s
    } else {
        seq![s[0]] + insert_gen_asc(x, s.drop_first())
    }
}

/// Stable revision-ascending ordering of generations.
pub open spec fn sort_gens_asc(s: Seq<ReplicaSetObsView>) -> Seq<ReplicaSetObsView>
    decreases s.len(),
{
    if s.len() == 0 {
        Seq::empty()
    } else {
        insert_gen_asc(s.last(), sort_gens_asc(s.drop_last()))
    }
}

proof fn lemma_insert_gen_at(x: ReplicaSetObsView, s: Seq<ReplicaSetObsView>, j: int)
    requires
        0 <= j <= s.len(),
        forall|k: int| 0 <= k < j ==> gen_revision(x) >= gen_revision(#[trigger] s[k]),
        j < s.len() ==> gen_revision(x) < gen_revision(s[j]),
    ensures
        insert_gen_asc(x, s) =~= s.take(j) + seq![x] + s.skip(j),
    decreases s.len(),
{
    if s.len() == 0 {
        assert(insert_gen_asc(x, s) =~= s.take(j) + seq![x] + s.skip(j));
    } else if j == 0 {
        assert(insert_gen_asc(x, s) =~= s.take(0) + seq![x] + s.skip(0));
    } else {
        lemma_insert_gen_at(x, s.drop_first(), j - 1);
        assert(forall|k: int| 0 <= k < j - 1 ==> #[trigger] s.drop_first()[k] == s[k + 1]);
        assert(s.drop_first().take(j - 1) =~= s.take(j).drop_first());
        assert(s.drop_first().skip(j - 1) =~= s.skip(j));
        assert(insert_gen_asc(x, s) =~= seq![s[0]] + insert_gen_asc(x, s.drop_first()));
        assert(insert_gen_asc(x, s) =~= s.take(j) + seq![x] + s.skip(j));
    }
}

/// Sort generations by revision ascending, keeping the listing order of
/// equal revisions (absent revisions cluster at the front as 0).
pub fn sort_generations<'a>(v: Vec<&'a ReplicaSetObs>) -> (r: Vec<&'a ReplicaSetObs>)
    ensures
        r.deep_view() == sort_gens_asc(v.deep_view()),
{
    let ghost all = v.deep_view();
    let mut src = v;
    let mut out: Vec<&ReplicaSetObs> = Vec::new();
    let ghost i: int = 0;
    proof {
        assert(all.take(0) =~= Seq::<ReplicaSetObsView>::empty());
        assert(all.skip(0) =~= all);
    }
    while src.len() > 0
        invariant
            0 <= i <= all.len(),
            src.deep_view() =~= all.skip(i),
            out.deep_view() =~= sort_gens_asc(all.take(i)),
        decreases src.len(),
    {
        let ghost pre = src.deep_view();
        proof {
            assert(pre.len() == src@.len());
            assert(pre.len() == all.skip(i).len());
            assert(i < all.len());
            assert(all.skip(i)[0] == all[i]);
            assert(pre[0] == all[i]);
        }
        let x = src.remove(0);
        proof {
            assert(src.deep_view() =~= pre.remove(0));
            assert(pre.remove(0) =~= all.skip(i + 1));
        }
        let xrev = revision_of(x);
        let ghost sorted = out.deep_view();
        let mut j: usize = 0;
        while j < out.len() && !(xrev < revision_of(out[j]))
            invariant
                sorted == out.deep_view(),
                j <= out.len() == sorted.len(),
                xrev as int == gen_revision(x@),
                forall|k: int| 0 <= k < j ==> gen_revision(x@) >= gen_revision(#[trigger] sorted[k]),
            decreases out.len() - j,
        {
            j += 1;
        }
        proof {
            if j < out.len() {
                assert(gen_revision(x@) < gen_revision(sorted[j as int]));
            }
        }
        let ghost outpre = out@;
        out.insert(j, x);
        proof {
            lemma_insert_gen_at(x@, sorted, j as int);
            assert(out@ == outpre.insert(j as int, x));
            assert forall|k: int| 0 <= k < out@.len() implies #[trigger] out.deep_view()[k] == (
            sorted.take(j as int) + seq![x@] + sorted.skip(j as int))[k] by {
                if k < j {
                    assert(out@[k] == outpre[k]);
                    assert(sorted[k] == outpre[k].deep_view());
                } else if k == j {
                    assert(out@[k] == x);
                } else {
                    assert(out@[k] == outpre[k - 1]);
                    assert(sorted[k - 1] == outpre[k - 1].deep_view());
                }
            }
            assert(out.deep_view() =~= sorted.take(j as int) + seq![x@] + sorted.skip(j as int));
            assert(all.take(i + 1).drop_last() =~= all.take(i));
            assert(all.take(i + 1).last() == all[i]);
            assert(out.deep_view() =~= insert_gen_asc(all[i], sorted));
            i = i + 1;
        }
    }
    proof {
        assert(all.take(all.len() as int) =~= all);
        assert(all.skip(i) =~= src.deep_view());
        assert(i == all.len());
    }
    out
}

/// The change a Deployment's sorted generations yield: when the newest
/// generation was created inside the window, an image update if its
/// image differs from the previous generation's known image, else a
/// new-generation notice; otherwise nothing.
pub open spec fn spec_group_change(
    owner: Seq<char>,
    sorted: Seq<ReplicaSetObsView>,
    cutoff: int,
) -> Option<ChangeEventView> {
    if sorted.len() == 0 {
        None
    } else {
        let newest = sorted.last();
        match newest.created {
            Some(t) => if t.epoch >= cutoff {
                let revision = or_empty(newest.revision);
                let new_image = or_empty(newest.image);
                let old_image = if sorted.len() >= 2 {
                    or_empty(sorted[sorted.len() - 2].image)
                } else {
                    Seq::empty()
                };
                if old_image.len() > 0 && old_image != new_image {
                    Some(
                        ChangeEventView {
                            timestamp: t.rfc3339,
                            change_type: "ImageUpdate"@,
                            resource_kind: "Deployment"@,
                            resource_name: owner,
                            description: "Image updated: "@ + old_image + " -> "@ + new_image,
                            details: ChangeDetailsView::ImageUpdate {
                                old_image,
                                new_image,
                                revision,
                            },
                        },
                    )
                } else {
                    Some(
                        ChangeEventView {
                            timestamp: t.rfc3339,
                            change_type: "ImageUpdate"@,
                            resource_kind: "Deployment"@,
                            resource_name: owner,
                            description: "New ReplicaSet (rev "@ + revision + "): "@ + new_image,
                            details: ChangeDetailsView::NewReplicaSet {
                                name: newest.name,
                                revision,
                                image: new_image,
                            },
                        },
                    )
                }
            } else {
                None
            },
            None => None,
        }
    }
}

/// Build the change for one Deployment's sorted generations.
fn make_group_change(owner: &String, sorted: &Vec<&ReplicaSetObs>, cutoff: i64) -> (r: Option<
    ChangeEvent,
>)
    ensures
        r.deep_view() == spec_group_change(owner@, sorted.deep_view(), cutoff as int),
{
    let ghost sv = sorted.deep_view();
    if sorted.len() == 0 {
        return None;
    }
    let newest = sorted[sorted.len() - 1];
    proof {
        assert(sv.last() == newest@);
    }
    match &newest.created {
        None => None,
        Some(t) => {
            if t.epoch >= cutoff {
                let revision = crate::events::clone_or_empty(&newest.revision);
                let new_image = crate::events::clone_or_empty(&newest.image);
                let old_image = if sorted.len() >= 2 {
                    let prev = sorted[sorted.len() - 2];
                    proof {
                        assert(sv[sv.len() - 2] == prev@);
                    }
                    crate::events::clone_or_empty(&prev.image)
                } else {
                    String::new()
                };
                if !old_image.as_str().is_empty() && !str_eq(
                    old_image.as_str(),
                    new_image.as_str(),
                ) {
                    let mut desc = "Image updated: ".to_owned();
                    desc.append(old_image.as_str());
                    desc.append(" -> ");
                    desc.append(new_image.as_str());
                    Some(
                        ChangeEvent {
                            timestamp: t.rfc3339.clone(),
                            change_type: "ImageUpdate".to_owned(),
                            resource_kind: "Deployment".to_owned(),
                            resource_name: owner.clone(),
                            description: desc,
                            details: ChangeDetails::ImageUpdate { old_image, new_image, revision },
                        },
                    )
                } else {
                    let mut desc = "New ReplicaSet (rev ".to_owned();
                    desc.append(revision.as_str());
                    desc.append("): ");
                    desc.append(new_image.as_str());
                    Some(
                        ChangeEvent {
                            timestamp: t.rfc3339.clone(),
                            change_type: "ImageUpdate".to_owned(),
                            resource_kind: "Deployment".to_owned(),
                            resource_name: owner.clone(),
                            description: desc,
                            details: ChangeDetails::NewReplicaSet {
                                name: newest.name.clone(),
                                revision,
                                image: new_image,
                            },
                        },
                    )
                }
            } else {
                None
            }
        },
    }
}

/// A change listing of zero or one entries.
pub open spec fn opt_to_seq(c: Option<ChangeEventView>) -> Seq<ChangeEventView> {
    match c {
        Some(x) => seq![x],
        None => Seq::empty(),
    }
}

/// Whether position `i` holds the first generation of its owner.
pub open spec fn first_owner_occurrence(gens: Seq<ReplicaSetObsView>, i: int) -> bool {
    gen_owner(gens[i]) is Some && forall|j: int|
        0 <= j < i ==> gen_owner(#[trigger] gens[j]) != gen_owner(gens[i])
}

/// The image and new-generation changes of the first `n` positions: one
/// candidate change per Deployment, emitted at its first generation's
/// position, computed from all of its generations in revision order.
pub open spec fn image_changes_upto(gens: Seq<ReplicaSetObsView>, cutoff: int, n: int) -> Seq<
    ChangeEventView,
>
    decreases n,
{
    if n <= 0 {
        Seq::empty()
    } else {
        image_changes_upto(gens, cutoff, n - 1) + if first_owner_occurrence(gens, n - 1) {
            opt_to_seq(
                spec_group_change(
                    gen_owner(gens[n - 1]).unwrap(),
                    sort_gens_asc(gens_of_owner(gens, gen_owner(gens[n - 1]).unwrap())),
                    cutoff,
                ),
            )
        } else {
            Seq::empty()
        }
    }
}

/// All image and new-generation changes of a generation listing.
pub open spec fn image_changes(gens: Seq<ReplicaSetObsView>, cutoff: int) -> Seq<ChangeEventView> {
    image_changes_upto(gens, cutoff, gens.len() as int)
}

/// Detect image updates and new generations: group generations by
/// owning Deployment, order each group by revision, and report on the
/// newest generation of each group created inside the window.
#[verifier::rlimit(60)]
pub fn detect_image_changes(gens: &Vec<ReplicaSetObs>, cutoff: i64) -> (r: Vec<ChangeEvent>)
    ensures
        r.deep_view() == image_changes(gens.deep_view(), cutoff as int),
{
    let ghost all = gens.deep_view();
    let mut out: Vec<ChangeEvent> = Vec::new();
    let mut i: usize = 0;
    while i < gens.len()
        invariant
            all == gens.deep_view(),
            i <= gens.len() == all.len(),
            out.deep_view() =~= image_changes_upto(all, cutoff as int, i as int),
        decreases gens.len() - i,
    {
        match crate::owner::find_deployment_owner(&gens[i].owners) {
            None => {
                assert(!first_owner_occurrence(all, i as int));
            },
            Some(o) => {
                let mut seen = false;
                let mut j: usize = 0;
                while j < i
                    invariant
                        all == gens.deep_view(),
                        i < all.len(),
                        j <= i,
                        o.name@ == gen_owner(all[i as int]).unwrap(),
                        gen_owner(all[i as int]) is Some,
                        !seen ==> forall|k: int|
                            0 <= k < j ==> gen_owner(#[trigger] all[k]) != gen_owner(all[i as int]),
                        seen ==> exists|k: int|
                            0 <= k < i && gen_owner(#[trigger] all[k]) == gen_owner(all[i as int]),
                    decreases i - j,
                {
                    match crate::owner::find_deployment_owner(&gens[j].owners) {
                        Some(oj) => {
                            if str_eq(oj.name.as_str(), o.name.as_str()) {
                                proof {
                                    assert(gen_owner(all[j as int]) == gen_owner(all[i as int]));
                                }
                                seen = true;
                            }
                        },
                        None => {},
                    }
                    j += 1;
                }
                if seen {
                    assert(!first_owner_occurrence(all, i as int));
                } else {
                    assert(first_owner_occurrence(all, i as int));
                    let mut members: Vec<&ReplicaSetObs> = Vec::new();
                    let mut k: usize = 0;
                    proof {
                        assert(all.take(0) =~= Seq::<ReplicaSetObsView>::empty());
                    }
                    while k < gens.len()
                        invariant
                            all == gens.deep_view(),
                            k <= gens.len() == all.len(),
                            i < all.len(),
                            o.name@ == gen_owner(all[i as int]).unwrap(),
                            gen_owner(all[i as int]) is Some,
                            members.deep_view() =~= gens_of_owner(all.take(k as int), o.name@),
                        decreases gens.len() - k,
                    {
                        let ghost mpre = members.deep_view();
                        let mut push_it = false;
                        match crate::owner::find_deployment_owner(&gens[k].owners) {
                            Some(ok) => {
                                if str_eq(ok.name.as_str(), o.name.as_str()) {
                                    push_it = true;
                                }
                            },
                            None => {},
                        }
                        proof {
                            assert(all.take(k + 1).drop_last() =~= all.take(k as int));
                            assert(all.take(k + 1).last() == all[k as int]);
                        }
                        if push_it {
                            members.push(&gens[k]);
                            proof {
                                assert(members.deep_view() =~= mpre + seq![all[k as int]]);
                            }
                        }
                        k += 1;
                    }
                    proof {
                        assert(all.take(all.len() as int) =~= all);
                    }
                    let sorted = sort_generations(members);
                    let ghost outdeep = out.deep_view();
                    match make_group_change(&o.name, &sorted, cutoff) {
                        Some(c) => {
                            out.push(c);
                            proof {
                                assert(out.deep_view() =~= outdeep + seq![
                                    spec_group_change(
                                        o.name@,
                                        sort_gens_asc(gens_of_owner(all, o.name@)),
                                        cutoff as int,
                                    ).unwrap(),
                                ]);
                            }
                        },
                        None => {},
                    }
                }
            },
        }
        i += 1;
    }
    out
}

/// The restart-annotation change of one Deployment: reported when the
/// annotation parses as RFC 3339 and falls inside the window.
pub open spec fn restart_change(w: WorkloadObsView, cutoff: int) -> Option<ChangeEventView> {
    match w.restarted_at {
        Some(ts) => match rfc3339_epoch(ts) {
            Some(e) => if e >= cutoff {
                Some(
                    ChangeEventView {
                        timestamp: ts,
                        change_type: "Restart"@,
                        resource_kind: "Deployment"@,
                        resource_name: w.name,
                        description: "Deployment restarted at "@ + ts,
                        details: ChangeDetailsView::Restart { triggered_at: ts },
                    },
                )
            } else {
                None
            },
            None => None,
        },
        None => None,
    }
}

/// The restart changes of a Deployment listing, in order.
pub open spec fn restart_changes(deps: Seq<WorkloadObsView>, cutoff: int) -> Seq<ChangeEventView>
    decreases deps.len(),
{
    if deps.len() == 0 {
        Seq::empty()
    } else {
        restart_changes(deps.drop_last(), cutoff) + opt_to_seq(restart_change(deps.last(), cutoff))
    }
}

/// Detect rollout restarts from the pod-template restart annotation.
pub fn detect_restart_changes(deps: &Vec<WorkloadObs>, cutoff: i64) -> (r: Vec<ChangeEvent>)
    ensures
        r.deep_view() == restart_changes(deps.deep_view(), cutoff as int),
{
    let ghost all = deps.deep_view();
    let mut out: Vec<ChangeEvent> = Vec::new();
    let mut i: usize = 0;
    proof {
        assert(all.take(0) =~= Seq::<WorkloadObsView>::empty());
    }
    while i < deps.len()
        invariant
            all == deps.deep_view(),
            i <= deps.len() == all.len(),
            out.deep_view() =~= restart_changes(all.take(i as int), cutoff as int),
        decreases deps.len() - i,
    {
        let ghost outdeep = out.deep_view();
        proof {
            assert(all.take(i + 1).drop_last() =~= all.take(i as int));
            assert(all.take(i + 1).last() == all[i as int]);
        }
        match &deps[i].restarted_at {
            Some(ts) => {
                match crate::timeparse::parse_rfc3339_epoch(ts.as_str()) {
                    Some(e) => {
                        if e >= cutoff {
                            let mut desc = "Deployment restarted at ".to_owned();
                            desc.append(ts.as_str());
                            out.push(
                                ChangeEvent {
                                    timestamp: ts.clone(),
                                    change_type: "Restart".to_owned(),
                                    resource_kind: "Deployment".to_owned(),
                                    resource_name: deps[i].name.clone(),
                                    description: desc,
                                    details: ChangeDetails::Restart { triggered_at: ts.clone() },
                                },
                            );
                            proof {
                                assert(out.deep_view() =~= outdeep + seq![
                                    restart_change(all[i as int], cutoff as int).unwrap(),
                                ]);
                            }
                        }
                    },
                    None => {},
                }
            },
            None => {},
        }
        i += 1;
    }
    proof {
        assert(all.take(all.len() as int) =~= all);
    }
    out
}

/// The change one autoscaler event yields: a rescale notice for each
/// event whose reason is `SuccessfulRescale`.
pub open spec fn hpa_event_change(h: HpaObsView, ev: crate::entities::common::EventInfoView) -> Option<
    ChangeEventView,
> {
    if ev.reason == "SuccessfulRescale"@ {
        Some(
            ChangeEventView {
                timestamp: Seq::empty(),
                change_type: "HPAScale"@,
                resource_kind: "HPA"@,
                resource_name: h.name,
                description: ev.message,
                details: ChangeDetailsView::HPAScale {
                    current_replicas: match h.current_replicas {
                        Some(c) => c as int,
                        None => 0,
                    },
                    desired_replicas: match h.desired_replicas {
                        Some(d) => d as int,
                        None => 0,
                    },
                    metric_status: ev.message,
                },
            },
        )
    } else {
        None
    }
}

/// The rescale changes of one autoscaler's events, in order.
pub open spec fn hpa_changes_one(h: HpaObsView, evs: Seq<crate::entities::common::EventInfoView>) -> Seq<
    ChangeEventView,
>
    decreases evs.len(),
{
    if evs.len() == 0 {
        Seq::empty()
    } else {
        hpa_changes_one(h, evs.drop_last()) + opt_to_seq(hpa_event_change(h, evs.last()))
    }
}

/// The rescale changes of an autoscaler listing, in order.
pub open spec fn hpa_changes(hpas: Seq<HpaObsView>) -> Seq<ChangeEventView>
    decreases hpas.len(),
{
    if hpas.len() == 0 {
        Seq::empty()
    } else {
        hpa_changes(hpas.drop_last()) + hpa_changes_one(hpas.last(), hpas.last().events)
    }
}

/// Detect autoscaler rescales from each autoscaler's fetched events.
pub fn detect_hpa_changes(hpas: &Vec<HpaObs>) -> (r: Vec<ChangeEvent>)
    ensures
        r.deep_view() == hpa_changes(hpas.deep_view()),
{
    let ghost all = hpas.deep_view();
    let mut out: Vec<ChangeEvent> = Vec::new();
    let mut i: usize = 0;
    proof {
        assert(all.take(0) =~= Seq::<HpaObsView>::empty());
    }
    while i < hpas.len()
        invariant
            all == hpas.deep_view(),
            i <= hpas.len() == all.len(),
            out.deep_view() =~= hpa_changes(all.take(i as int)),
        decreases hpas.len() - i,
    {
        let h = &hpas[i];
        let ghost hv = all[i as int];
        let ghost evs = hv.events;
        let mut j: usize = 0;
        proof {
            assert(evs.take(0) =~= Seq::<crate::entities::common::EventInfoView>::empty());
            assert(hpa_changes_one(hv, evs.take(0)) =~= Seq::<ChangeEventView>::empty());
        }
        while j < h.events.len()
            invariant
                all == hpas.deep_view(),
                i < all.len(),
                h == hpas[i as int],
                hv == all[i as int],
                evs == hv.events,
                j <= h.events.len() == evs.len(),
                out.deep_view() =~= hpa_changes(all.take(i as int)) + hpa_changes_one(
                    hv,
                    evs.take(j as int),
                ),
            decreases h.events.len() - j,
        {
            let ghost outdeep = out.deep_view();
            proof {
                assert(evs.take(j + 1).drop_last() =~= evs.take(j as int));
                assert(evs.take(j + 1).last() == evs[j as int]);
            }
            if str_eq(h.events[j].reason.as_str(), "SuccessfulRescale") {
                out.push(
                    ChangeEvent {
                        timestamp: String::new(),
                        change_type: "HPAScale".to_owned(),
                        resource_kind: "HPA".to_owned(),
                        resource_name: h.name.clone(),
                        description: h.events[j].message.clone(),
                        details: ChangeDetails::HPAScale {
                            current_replicas: match h.current_replicas {
                                Some(c) => c,
                                None => 0,
                            },
                            desired_replicas: match h.desired_replicas {
                                Some(d) => d,
                                None => 0,
                            },
                            metric_status: h.events[j].message.clone(),
                        },
                    },
                );
                proof {
                    assert(out.deep_view() =~= outdeep + seq![
                        hpa_event_change(hv, evs[j as int]).unwrap(),
                    ]);
                }
            }
            j += 1;
        }
        proof {
            assert(evs.take(evs.len() as int) =~= evs);
            assert(all.take(i + 1).drop_last() =~= all.take(i as int));
            assert(all.take(i + 1).last() == all[i as int]);
        }
        i += 1;
    }
    proof {
        assert(all.take(all.len() as int) =~= all);
    }
    out
}

/// The change one namespace event yields: a generic scaling notice for
/// each event with reason `ScalingReplicaSet` inside the window.
pub open spec fn scaling_event_change(e: EventObsView, cutoff: int) -> Option<ChangeEventView> {
    if within_window(e, Some(cutoff)) && or_empty(e.reason) == "ScalingReplicaSet"@ {
        Some(
            ChangeEventView {
                timestamp: match eff_time(e) {
                    Some(t) => t.rfc3339,
                    None => Seq::empty(),
                },
                change_type: "ScaleChange"@,
                resource_kind: "Deployment"@,
                resource_name: or_empty(e.involved_name),
                description: or_empty(e.message),
                details: ChangeDetailsView::Generic { info: or_empty(e.message) },
            },
        )
    } else {
        None
    }
}

/// The generic scaling changes of a namespace event listing, in order.
pub open spec fn scaling_changes(evs: Seq<EventObsView>, cutoff: int) -> Seq<ChangeEventView>
    decreases evs.len(),
{
    if evs.len() == 0 {
        Seq::empty()
    } else {
        scaling_changes(evs.drop_last(), cutoff) + opt_to_seq(
            scaling_event_change(evs.last(), cutoff),
        )
    }
}

/// Detect scaling activity from namespace events.
pub fn detect_scaling_changes(events: &Vec<EventObs>, cutoff: i64) -> (r: Vec<ChangeEvent>)
    ensures
        r.deep_view() == scaling_changes(events.deep_view(), cutoff as int),
{
    let ghost all = events.deep_view();
    let mut out: Vec<ChangeEvent> = Vec::new();
    let mut i: usize = 0;
    proof {
        assert(all.take(0) =~= Seq::<EventObsView>::empty());
    }
    while i < events.len()
        invariant
            all == events.deep_view(),
            i <= events.len() == all.len(),
            out.deep_view() =~= scaling_changes(all.take(i as int), cutoff as int),
        decreases events.len() - i,
    {
        let ghost outdeep = out.deep_view();
        proof {
            assert(all.take(i + 1).drop_last() =~= all.take(i as int));
            assert(all.take(i + 1).last() == all[i as int]);
        }
        let e = &events[i];
        let inside: bool = match (&e.event_time, &e.creation_time) {
            (Some(t), _) => t.epoch >= cutoff,
            (None, Some(t)) => t.epoch >= cutoff,
            _ => true,
        };
        let is_scaling = match &e.reason {
            Some(rr) => str_eq(rr.as_str(), "ScalingReplicaSet"),
            None => {
                proof {
                    reveal_strlit("ScalingReplicaSet");
                }
                assert(or_empty(all[i as int].reason).len() == 0);
                false
            },
        };
        if inside && is_scaling {
            let message = crate::events::clone_or_empty(&e.message);
            out.push(
                ChangeEvent {
                    timestamp: match (&e.event_time, &e.creation_time) {
                        (Some(t), _) => t.rfc3339.clone(),
                        (None, Some(t)) => t.rfc3339.clone(),
                        (None, None) => String::new(),
                    },
                    change_type: "ScaleChange".to_owned(),
                    resource_kind: "Deployment".to_owned(),
                    resource_name: crate::events::clone_or_empty(&e.involved_name),
                    description: message.clone(),
                    details: ChangeDetails::Generic { info: message },
                },
            );
            proof {
                assert(out.deep_view() =~= outdeep + seq![
                    scaling_event_change(all[i as int], cutoff as int).unwrap(),
                ]);
            }
        }
        i += 1;
    }
    proof {
        assert(all.take(all.len() as int) =~= all);
    }
    out
}

/// Everything the four detectors find, concatenated in detector order.
pub open spec fn spec_recent_changes(
    gens: Seq<ReplicaSetObsView>,
    deps: Seq<WorkloadObsView>,
    hpas: Seq<HpaObsView>,
    events: Seq<EventObsView>,
    cutoff: int,
) -> Seq<ChangeEventView> {
    image_changes(gens, cutoff) + restart_changes(deps, cutoff) + hpa_changes(hpas)
        + scaling_changes(events, cutoff)
}

/// Append one change listing to another.
fn concat_changes(a: &mut Vec<ChangeEvent>, b: Vec<ChangeEvent>)
    ensures
        final(a).deep_view() == old(a).deep_view() + b.deep_view(),
{
    let ghost adeep = a.deep_view();
    let ghost apre = a@;
    let ghost bdeep = b.deep_view();
    let ghost bpre = b@;
    let mut bb = b;
    a.append(&mut bb);
    proof {
        assert(a@ == apre + bpre);
        assert forall|k: int| 0 <= k < a@.len() implies #[trigger] a.deep_view()[k] == (adeep
            + bdeep)[k] by {
            if k < apre.len() {
                assert(a@[k] == apre[k]);
                assert(adeep[k] == apre[k].deep_view());
            } else {
                assert(a@[k] == bpre[k - apre.len()]);
                assert(bdeep[k - apre.len()] == bpre[k - apre.len()].deep_view());
            }
        }
        assert(a.deep_view() =~= adeep + bdeep);
    }
}

/// Everything that changed inside the lookback window, deduplicated by
/// (type, resource name, description) keeping first occurrences, and
/// ordered newest-first (undated changes last). The window reaches
/// `since_minutes` back from `now`.
pub fn detect_recent_changes(
    gens: &Vec<ReplicaSetObs>,
    deployments: &Vec<WorkloadObs>,
    hpas: &Vec<HpaObs>,
    events: &Vec<EventObs>,
    since_minutes: u32,
    now: i64,
) -> (r: Vec<ChangeEvent>)
    requires
        sane_epoch(now as int),
    ensures
        r.deep_view() == sort_changes_desc(
            spec_dedup_changes(
                spec_recent_changes(
                    gens.deep_view(),
                    deployments.deep_view(),
                    hpas.deep_view(),
                    events.deep_view(),
                    now - 60 * (since_minutes as int),
                ),
            ),
        ),
{
    let cutoff: i64 = now - 60 * (since_minutes as i64);
    let mut changes = detect_image_changes(gens, cutoff);
    concat_changes(&mut changes, detect_restart_changes(deployments, cutoff));
    concat_changes(&mut changes, detect_hpa_changes(hpas));
    concat_changes(&mut changes, detect_scaling_changes(events, cutoff));
    sort_changes(dedup_changes(changes))
}

} // verus!
