//! Affected-route matching: ingress paths whose backend service name
//! textually matches an unhealthy workload's name. The match is a
//! heuristic (equality or prefix either way), deliberately best-effort:
//! services are not resolved through label selectors here.

use vstd::prelude::*;

use crate::entities::incident::{AffectedRoute, AffectedRouteView};
use crate::obs::{IngressObs, IngressObsView, IngressPathObsView, IngressRuleObsView};
use crate::text::{str_eq, str_starts_with};

verus! {

/// Whether a backend service name textually matches a workload name:
/// equal, or either is a prefix of the other.
pub open spec fn name_matches(svc: Seq<char>, wl: Seq<char>) -> bool {
    svc == wl || wl.is_prefix_of(svc) || svc.is_prefix_of(wl)
}

/// Whether a service name matches any unhealthy workload name.
pub open spec fn matches_any(svc: Seq<char>, names: Seq<Seq<char>>) -> bool {
    exists|i: int| 0 <= i < names.len() && name_matches(svc, #[trigger] names[i])
}

/// An optional host, defaulting to the wildcard.
pub open spec fn or_star(h: Option<Seq<char>>) -> Seq<char> {
    match h {
        Some(s) => s,
        None => "*"@,
    }
}

/// An optional path, defaulting to the root.
pub open spec fn or_root(p: Option<Seq<char>>) -> Seq<char> {
    match p {
        Some(s) => s,
        None => "/"@,
    }
}

/// The route one ingress path yields: reported, marked unhealthy, when
/// its backend service name matches an unhealthy workload name.
pub open spec fn route_of_path(
    ing_name: Seq<char>,
    host: Option<Seq<char>>,
    path: IngressPathObsView,
    names: Seq<Seq<char>>,
) -> Option<AffectedRouteView> {
    match path.service {
        Some(svc) => if matches_any(svc, names) {
            Some(
                AffectedRouteView {
                    route_type: "Ingress"@,
                    route_name: ing_name,
                    hosts: seq![or_star(host)],
                    paths: seq![or_root(path.path)],
                    backend_service: svc,
                    backend_healthy: false,
                },
            )
        } else {
            None
        },
        None => None,
    }
}

/// A route listing of zero or one entries.
pub open spec fn opt_route_to_seq(c: Option<AffectedRouteView>) -> Seq<AffectedRouteView> {
    match c {
        Some(x) => seq![x],
        None => Seq::empty(),
    }
}

/// The routes one ingress rule yields, over its paths in order.
pub open spec fn routes_of_rule(
    ing_name: Seq<char>,
    rule: IngressRuleObsView,
    names: Seq<Seq<char>>,
    n: int,
) -> Seq<AffectedRouteView>
    decreases n,
{
    if n <= 0 {
        Seq::empty()
    } else {
        routes_of_rule(ing_name, rule, names, n - 1) + opt_route_to_seq(
            route_of_path(ing_name, rule.host, rule.paths[n - 1], names),
        )
    }
}

/// The routes one ingress yields, over its rules in order.
pub open spec fn routes_of_ingress(ing: IngressObsView, names: Seq<Seq<char>>, n: int) -> Seq<
    AffectedRouteView,
>
    decreases n,
{
    if n <= 0 {
        Seq::empty()
    } else {
        routes_of_ingress(ing, names, n - 1) + routes_of_rule(
            ing.name,
            ing.rules[n - 1],
            names,
            ing.rules[n - 1].paths.len() as int,
        )
    }
}

/// Every affected route of an ingress listing, in listing order.
pub open spec fn spec_affected_routes(ings: Seq<IngressObsView>, names: Seq<Seq<char>>) -> Seq<
    AffectedRouteView,
>
    decreases ings.len(),
{
    if ings.len() == 0 {
        Seq::empty()
    } else {
        spec_affected_routes(ings.drop_last(), names) + routes_of_ingress(
            ings.last(),
            names,
            ings.last().rules.len() as int,
        )
    }
}

/// Whether a service name matches any of the given workload names.
fn matches_any_exec(svc: &str, names: &Vec<String>) -> (r: bool)
    ensures
        r == matches_any(svc@, names.deep_view()),
{
    let ghost all = names.deep_view();
    let mut i: usize = 0;
    while i < names.len()
        invariant
            all == names.deep_view(),
            i <= names.len() == all.len(),
            forall|k: int| 0 <= k < i ==> !name_matches(svc@, #[trigger] all[k]),
        decreases names.len() - i,
    {
        let wl = names[i].as_str();
        if str_eq(svc, wl) || str_starts_with(svc, wl) || str_starts_with(wl, svc) {
            assert(name_matches(svc@, all[i as int]));
            return true;
        }
        i += 1;
    }
    false
}

/// Every ingress path whose backend service name matches an unhealthy
/// workload name, reported as an affected route marked unhealthy.
pub fn find_affected_routes(ingresses: &Vec<IngressObs>, unhealthy_names: &Vec<String>) -> (r: Vec<
    AffectedRoute,
>)
    ensures
        r.deep_view() == spec_affected_routes(ingresses.deep_view(), unhealthy_names.deep_view()),
{
    let ghost all = ingresses.deep_view();
    let ghost names = unhealthy_names.deep_view();
    let mut out: Vec<AffectedRoute> = Vec::new();
    let mut i: usize = 0;
    proof {
        assert(all.take(0) =~= Seq::<IngressObsView>::empty());
    }
    while i < ingresses.len()
        invariant
            all == ingresses.deep_view(),
            names == unhealthy_names.deep_view(),
            i <= ingresses.len() == all.len(),
            out.deep_view() =~= spec_affected_routes(all.take(i as int), names),
        decreases ingresses.len() - i,
    {
        let ing = &ingresses[i];
        let ghost iv = all[i as int];
        let mut j: usize = 0;
        while j < ing.rules.len()
            invariant
                all == ingresses.deep_view(),
                names == unhealthy_names.deep_view(),
                i < all.len(),
                ing == ingresses[i as int],
                iv == all[i as int],
                j <= ing.rules.len() == iv.rules.len(),
                out.deep_view() =~= spec_affected_routes(all.take(i as int), names)
                    + routes_of_ingress(iv, names, j as int),
            decreases ing.rules.len() - j,
        {
            let rule = &ing.rules[j];
            let ghost rv = iv.rules[j as int];
            let mut k: usize = 0;
            while k < rule.paths.len()
                invariant
                    all == ingresses.deep_view(),
                    names == unhealthy_names.deep_view(),
                    i < all.len(),
                    ing == ingresses[i as int],
                    iv == all[i as int],
                    j < iv.rules.len(),
                    rule == ingresses[i as int].rules[j as int],
                    rv == iv.rules[j as int],
                    k <= rule.paths.len() == rv.paths.len(),
                    out.deep_view() =~= spec_affected_routes(all.take(i as int), names)
                        + routes_of_ingress(iv, names, j as int) + routes_of_rule(
                        iv.name,
                        rv,
                        names,
                        k as int,
                    ),
                decreases rule.paths.len() - k,
            {
                let ghost outdeep = out.deep_view();
                match &rule.paths[k].service {
                    Some(svc) => {
                        if matches_any_exec(svc.as_str(), unhealthy_names) {
                            let host = match &rule.host {
                                Some(h) => h.clone(),
                                None => "*".to_owned(),
                            };
                            let path_text = match &rule.paths[k].path {
                                Some(p) => p.clone(),
                                None => "/".to_owned(),
                            };
                            let mut hosts: Vec<String> = Vec::new();
                            hosts.push(host);
                            let mut paths: Vec<String> = Vec::new();
                            paths.push(path_text);
                            out.push(
                                AffectedRoute {
                                    route_type: "Ingress".to_owned(),
                                    route_name: ing.name.clone(),
                                    hosts,
                                    paths,
                                    backend_service: svc.clone(),
                                    backend_healthy: false,
                                },
                            );
                            proof {
                                assert(out@.last()@.hosts =~= seq![or_star(rv.host)]);
                                assert(out@.last()@.paths =~= seq![or_root(rv.paths[k as int].path)]);
                                assert(out.deep_view() =~= outdeep + seq![
                                    route_of_path(iv.name, rv.host, rv.paths[k as int], names).unwrap(),
                                ]);
                            }
                        }
                    },
                    None => {},
                }
                k += 1;
            }
            j += 1;
        }
        proof {
            assert(all.take(i + 1).drop_last() =~= all.take(i as int));
            assert(all.take(i + 1).last() == all[i as int]);
        }
        i += 1;
    }
    proof {
        assert(all.take(all.len() as int) =~= all);
    }
    out
}

} // verus!
