//! Ownership resolution: mapping a pod back to its logical owning
//! workload through the replica-generation hop.
//!
//! A [`ReplicaSetIndex`] maps each replica generation's name to the
//! Deployment that owns it (the first owner reference of kind
//! `Deployment` wins). A pod's owner chain is then resolved by its first
//! recognized owner reference: a `ReplicaSet` reference goes through the
//! index (falling back to the generation's own name and kind when the
//! generation's owner is unknown), a `StatefulSet`, `DaemonSet` or `Job`
//! reference is reported directly, and anything else resolves to nothing.

use vstd::prelude::*;

use crate::entities::common::{OwnerRefInfo, OwnerRefView};
use crate::obs::{ReplicaSetObs, ReplicaSetObsView};
use crate::text::str_eq;

verus! {

/// The owning Deployment's name named by the first owner reference of
/// kind `Deployment`, if any.
pub open spec fn first_deployment_owner(owners: Seq<OwnerRefView>) -> Option<Seq<char>>
    decreases owners.len(),
{
    if owners.len() == 0 {
        None
    } else if owners[0].kind == "Deployment"@ {
        Some(owners[0].name)
    } else {
        first_deployment_owner(owners.drop_first())
    }
}

/// The map from generation name to owning Deployment name induced by a
/// listing of replica generations; a later generation with the same name
/// overrides an earlier one.
pub open spec fn generation_index(gens: Seq<ReplicaSetObsView>) -> Map<Seq<char>, Seq<char>>
    decreases gens.len(),
{
    if gens.len() == 0 {
        Map::empty()
    } else {
        let m = generation_index(gens.drop_last());
        match first_deployment_owner(gens.last().owners) {
            Some(o) => m.insert(gens.last().name, o),
            None => m,
        }
    }
}

/// An owner kind that ownership resolution recognizes.
pub open spec fn recognized_owner_kind(kind: Seq<char>) -> bool {
    kind == "ReplicaSet"@ || kind == "StatefulSet"@ || kind == "DaemonSet"@ || kind == "Job"@
}

/// The workload (kind and name) that a pod with the given owner chain
/// belongs to, under the generation index `idx`. The first recognized
/// owner reference decides.
pub open spec fn spec_resolve(owners: Seq<OwnerRefView>, idx: Map<Seq<char>, Seq<char>>) -> Option<
    OwnerRefView,
>
    decreases owners.len(),
{
    if owners.len() == 0 {
        None
    } else {
        let o = owners[0];
        if o.kind == "ReplicaSet"@ {
            if idx.contains_key(o.name) {
                Some(OwnerRefView { kind: "Deployment"@, name: idx[o.name] })
            } else {
                Some(OwnerRefView { kind: "ReplicaSet"@, name: o.name })
            }
        } else if o.kind == "StatefulSet"@ || o.kind == "DaemonSet"@ || o.kind == "Job"@ {
            Some(o)
        } else {
            spec_resolve(owners.drop_first(), idx)
        }
    }
}

/// The index from replica-generation name to owning Deployment name,
/// rebuilt wholesale from each full listing.
pub struct ReplicaSetIndex {
    pairs: Vec<IndexPair>,
}

struct IndexPair {
    gen_name: String,
    workload: String,
}

struct IndexPairView {
    gen_name: Seq<char>,
    workload: Seq<char>,
}

impl View for IndexPair {
    type V = IndexPairView;

    closed spec fn view(&self) -> IndexPairView {
        IndexPairView { gen_name: self.gen_name@, workload: self.workload@ }
    }
}

impl DeepView for IndexPair {
    type V = IndexPairView;

    closed spec fn deep_view(&self) -> IndexPairView {
        self.view()
    }
}

spec fn pairs_map(ps: Seq<IndexPairView>) -> Map<Seq<char>, Seq<char>>
    decreases ps.len(),
{
    if ps.len() == 0 {
        Map::empty()
    } else {
        pairs_map(ps.drop_last()).insert(ps.last().gen_name, ps.last().workload)
    }
}

impl View for ReplicaSetIndex {
    type V = Map<Seq<char>, Seq<char>>;

    closed spec fn view(&self) -> Map<Seq<char>, Seq<char>> {
        pairs_map(self.pairs.deep_view())
    }
}

/// Find the first owner reference of kind `Deployment`.
pub fn find_deployment_owner(owners: &Vec<OwnerRefInfo>) -> (r: Option<&OwnerRefInfo>)
    ensures
        match r {
            Some(o) => first_deployment_owner(owners.deep_view()) == Some(o.name@),
            None => first_deployment_owner(owners.deep_view()) is None,
        },
{
    let ghost all = owners.deep_view();
    let mut i: usize = 0;
    proof {
        assert(all.skip(0) =~= all);
    }
    while i < owners.len()
        invariant
            all == owners.deep_view(),
            i <= owners.len() == all.len(),
            first_deployment_owner(all) == first_deployment_owner(all.skip(i as int)),
        decreases owners.len() - i,
    {
        proof {
            assert(all.skip(i as int)[0] == all[i as int]);
        }
        if str_eq(owners[i].kind.as_str(), "Deployment") {
            return Some(&owners[i]);
        }
        proof {
            assert(all.skip(i as int).drop_first() =~= all.skip(i + 1));
        }
        i += 1;
    }
    proof {
        assert(all.skip(i as int).len() == 0);
    }
    None
}

impl ReplicaSetIndex {
    /// Build the index from a full listing of replica generations.
    pub fn build(gens: &Vec<ReplicaSetObs>) -> (r: ReplicaSetIndex)
        ensures
            r@ == generation_index(gens.deep_view()),
    {
        let ghost all = gens.deep_view();
        let mut idx = ReplicaSetIndex { pairs: Vec::new() };
        let mut i: usize = 0;
        proof {
            assert(all.take(0) =~= Seq::<ReplicaSetObsView>::empty());
        }
        while i < gens.len()
            invariant
                all == gens.deep_view(),
                i <= gens.len() == all.len(),
                pairs_map(idx.pairs.deep_view()) == generation_index(all.take(i as int)),
            decreases gens.len() - i,
        {
            let ghost before = idx.pairs.deep_view();
            match find_deployment_owner(&gens[i].owners) {
                Some(o) => {
                    idx.pairs.push(
                        IndexPair { gen_name: gens[i].name.clone(), workload: o.name.clone() },
                    );
                    proof {
                        assert(idx.pairs.deep_view().drop_last() =~= before);
                        assert(idx.pairs.deep_view().last() == IndexPairView {
                            gen_name: all[i as int].name,
                            workload: first_deployment_owner(all[i as int].owners).unwrap(),
                        });
                    }
                },
                None => {},
            }
            proof {
                assert(all.take(i + 1).drop_last() =~= all.take(i as int));
                assert(all.take(i + 1).last() == all[i as int]);
            }
            i += 1;
        }
        proof {
            assert(all.take(all.len() as int) =~= all);
        }
        idx
    }

    /// Look up the Deployment that owns the named generation.
    pub fn lookup(&self, name: &str) -> (r: Option<&String>)
        ensures
            match r {
                Some(w) => self@.contains_key(name@) && w@ == self@[name@],
                None => !self@.contains_key(name@),
            },
    {
        let ghost all = self.pairs.deep_view();
        let mut found: Option<&String> = None;
        let mut i: usize = 0;
        proof {
            assert(all.take(0) =~= Seq::<IndexPairView>::empty());
        }
        while i < self.pairs.len()
            invariant
                all == self.pairs.deep_view(),
                i <= self.pairs.len() == all.len(),
                match found {
                    Some(w) => pairs_map(all.take(i as int)).contains_key(name@) && w@
                        == pairs_map(all.take(i as int))[name@],
                    None => !pairs_map(all.take(i as int)).contains_key(name@),
                },
            decreases self.pairs.len() - i,
        {
            proof {
                assert(all.take(i + 1).drop_last() =~= all.take(i as int));
                assert(all.take(i + 1).last() == all[i as int]);
            }
            if str_eq(self.pairs[i].gen_name.as_str(), name) {
                found = Some(&self.pairs[i].workload);
            }
            i += 1;
        }
        proof {
            assert(all.take(all.len() as int) =~= all);
        }
        found
    }
}

/// Resolve a pod's owner chain to its logical owning workload.
pub fn resolve(owners: &Vec<OwnerRefInfo>, idx: &ReplicaSetIndex) -> (r: Option<OwnerRefInfo>)
    ensures
        r.deep_view() == spec_resolve(owners.deep_view(), idx@),
{
    let ghost all = owners.deep_view();
    let mut i: usize = 0;
    proof {
        assert(all.skip(0) =~= all);
    }
    while i < owners.len()
        invariant
            all == owners.deep_view(),
            i <= owners.len() == all.len(),
            spec_resolve(all, idx@) == spec_resolve(all.skip(i as int), idx@),
        decreases owners.len() - i,
    {
        proof {
            assert(all.skip(i as int)[0] == all[i as int]);
        }
        let o = &owners[i];
        if str_eq(o.kind.as_str(), "ReplicaSet") {
            match idx.lookup(o.name.as_str()) {
                Some(w) => {
                    return Some(
                        OwnerRefInfo { kind: "Deployment".to_owned(), name: w.clone() },
                    );
                },
                None => {
                    return Some(
                        OwnerRefInfo { kind: "ReplicaSet".to_owned(), name: o.name.clone() },
                    );
                },
            }
        }
        if str_eq(o.kind.as_str(), "StatefulSet") || str_eq(o.kind.as_str(), "DaemonSet")
            || str_eq(o.kind.as_str(), "Job") {
            return Some(OwnerRefInfo { kind: o.kind.clone(), name: o.name.clone() });
        }
        proof {
            assert(all.skip(i as int).drop_first() =~= all.skip(i + 1));
        }
        i += 1;
    }
    proof {
        assert(all.skip(i as int).len() == 0);
    }
    None
}

/// Whether ownership resolution recognizes any owner reference in the
/// chain.
pub open spec fn has_recognized_owner(owners: Seq<OwnerRefView>) -> bool {
    exists|i: int| 0 <= i < owners.len() && recognized_owner_kind(#[trigger] owners[i].kind)
}

/// Ownership law, first part: a pod whose first recognized owner
/// reference points at a replica generation that the index attributes to
/// a Deployment resolves to that Deployment.
pub proof fn lemma_resolve_via_generation(
    owners: Seq<OwnerRefView>,
    idx: Map<Seq<char>, Seq<char>>,
    k: int,
)
    requires
        0 <= k < owners.len(),
        owners[k].kind == "ReplicaSet"@,
        idx.contains_key(owners[k].name),
        forall|j: int| 0 <= j < k ==> !recognized_owner_kind(#[trigger] owners[j].kind),
    ensures
        spec_resolve(owners, idx) == Some(
            OwnerRefView { kind: "Deployment"@, name: idx[owners[k].name] },
        ),
    decreases owners.len(),
{
    if k == 0 {
    } else {
        assert(!recognized_owner_kind(owners[0].kind));
        lemma_resolve_via_generation(owners.drop_first(), idx, k - 1);
        assert(owners.drop_first()[k - 1] == owners[k]);
    }
}

/// Ownership law, second part: a pod owned directly by a StatefulSet,
/// DaemonSet or Job — with no earlier recognized owner reference —
/// resolves to that workload's kind and name.
pub proof fn lemma_resolve_direct(
    owners: Seq<OwnerRefView>,
    idx: Map<Seq<char>, Seq<char>>,
    k: int,
)
    requires
        0 <= k < owners.len(),
        owners[k].kind == "StatefulSet"@ || owners[k].kind == "DaemonSet"@ || owners[k].kind
            == "Job"@,
        forall|j: int| 0 <= j < k ==> !recognized_owner_kind(#[trigger] owners[j].kind),
    ensures
        spec_resolve(owners, idx) == Some(owners[k]),
    decreases owners.len(),
{
    reveal_strlit("ReplicaSet");
    reveal_strlit("StatefulSet");
    reveal_strlit("DaemonSet");
    reveal_strlit("Job");
    assert("StatefulSet"@.len() != "ReplicaSet"@.len());
    assert("DaemonSet"@.len() != "ReplicaSet"@.len());
    assert("Job"@.len() != "ReplicaSet"@.len());
    if k == 0 {
    } else {
        assert(!recognized_owner_kind(owners[0].kind));
        lemma_resolve_direct(owners.drop_first(), idx, k - 1);
        assert(owners.drop_first()[k - 1] == owners[k]);
    }
}

/// Ownership law, third part: a pod with no recognized owner kind in its
/// chain resolves to nothing.
pub proof fn lemma_resolve_unrecognized(owners: Seq<OwnerRefView>, idx: Map<Seq<char>, Seq<char>>)
    requires
        !has_recognized_owner(owners),
    ensures
        spec_resolve(owners, idx) is None,
    decreases owners.len(),
{
    if owners.len() > 0 {
        assert(!recognized_owner_kind(owners[0].kind));
        assert(!has_recognized_owner(owners.drop_first())) by {
            assert(forall|i: int|
                0 <= i < owners.drop_first().len() ==> #[trigger] owners.drop_first()[i]
                    == owners[i + 1]);
        }
        lemma_resolve_unrecognized(owners.drop_first(), idx);
    }
}

/// Every generation with a Deployment owner is present in the index; when
/// generation names are distinct, it maps to its own first Deployment
/// owner.
pub proof fn lemma_generation_index_entry(gens: Seq<ReplicaSetObsView>, i: int)
    requires
        0 <= i < gens.len(),
        first_deployment_owner(gens[i].owners) is Some,
        forall|a: int, b: int|
            0 <= a < b < gens.len() ==> (#[trigger] gens[a].name) != (#[trigger] gens[b].name),
    ensures
        generation_index(gens).contains_key(gens[i].name),
        generation_index(gens)[gens[i].name] == first_deployment_owner(gens[i].owners).unwrap(),
    decreases gens.len(),
{
    if i == gens.len() - 1 {
    } else {
        assert(gens.drop_last()[i] == gens[i]);
        lemma_generation_index_entry(gens.drop_last(), i);
        assert(gens[i].name != gens.last().name);
    }
}

} // verus!
