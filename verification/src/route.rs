//! The router: maps an inbound request to a backend target, either from
//! the reserved path prefix or, failing that, from the `Referer`/`Origin`
//! fallback heuristic.

use vstd::prelude::*;

use crate::bytes::{
    contains_bytes, contains_seq, dec_digits, find_first, first_match, is_prefix_of,
    lemma_first_match, lemma_match_at_skip, match_at, push_u16, starts_at,
};
use crate::lits::{lit_proxy_prefix, spec_proxy_prefix};
use crate::outside::{url_dec, url_decode};
use crate::registry::{no_target, target_at, Registry, Target};
use crate::rewrite::copy_range;

verus! {

/// The raw name segment and the remaining path of a request under the
/// reserved prefix: `/proxy/<seg>` or `/proxy/<seg>/<rest>`, the segment
/// running to the next `/` or the end, and required to be nonempty.
pub open spec fn spec_proxy_route(path: Seq<u8>) -> Option<(Seq<u8>, Seq<u8>)> {
    if !is_prefix_of(spec_proxy_prefix(), path) {
        None
    } else {
        let after = path.skip(spec_proxy_prefix().len() as int);
        let cut = match first_match(after, seq![47u8]) {
            Some(j) => j,
            None => after.len() as int,
        };
        if cut == 0 {
            None
        } else {
            Some((after.subrange(0, cut), after.skip(cut)))
        }
    }
}

/// Split a path under the reserved prefix into its raw name segment and
/// the rest of the path.
pub fn split_proxy_path(path: &Vec<u8>) -> (r: Option<(Vec<u8>, Vec<u8>)>)
    ensures
        match r {
            Some(sr) => spec_proxy_route(path@) == Some((sr.0@, sr.1@)),
            None => spec_proxy_route(path@) is None,
        },
{
    let pp = lit_proxy_prefix();
    let is_pref = starts_at(path, &pp, 0);
    proof {
        lemma_match_at_skip(path@, pp@, 0);
        assert(path@.skip(0) =~= path@);
    }
    if !is_pref {
        return None;
    }
    let after = copy_range(path, pp.len(), path.len());
    proof {
        assert(after@ =~= path@.skip(spec_proxy_prefix().len() as int));
    }
    let slash: Vec<u8> = vec![47u8];
    proof {
        assert(slash@ =~= seq![47u8]);
    }
    let cut: usize = match find_first(&after, &slash) {
        Some(j) => {
            proof {
                lemma_first_match(after@, slash@);
            }
            j
        },
        None => after.len(),
    };
    if cut == 0 {
        return None;
    }
    let seg = copy_range(&after, 0, cut);
    let rest = copy_range(&after, cut, after.len());
    proof {
        assert(rest@ =~= after@.skip(cut as int));
    }
    Some((seg, rest))
}

/// The raw name segment the fallback heuristic reads out of a `Referer`
/// value: what follows the first occurrence of the reserved prefix, up
/// to the next `/` or the end.  Unlike the primary route it may be empty.
pub open spec fn spec_referer_name(r: Seq<u8>) -> Option<Seq<u8>> {
    match first_match(r, spec_proxy_prefix()) {
        Some(i) => {
            let after = r.skip(i + spec_proxy_prefix().len());
            let cut = match first_match(after, seq![47u8]) {
                Some(j) => j,
                None => after.len() as int,
            };
            Some(after.subrange(0, cut))
        },
        None => None,
    }
}

/// Extract the raw name segment from a `Referer` value.
pub fn referer_name(r: &Vec<u8>) -> (o: Option<Vec<u8>>)
    ensures
        match o {
            Some(seg) => spec_referer_name(r@) == Some(seg@),
            None => spec_referer_name(r@) is None,
        },
{
    let pp = lit_proxy_prefix();
    if let Some(i) = find_first(r, &pp) {
        proof {
            lemma_first_match(r@, pp@);
            assert(match_at(r@, pp@, i as int));
        }
        let total = r.len();
        assert(i + pp@.len() <= total);
        let after = copy_range(r, i + pp.len(), r.len());
        proof {
            assert(after@ =~= r@.skip(i + spec_proxy_prefix().len()));
        }
        let slash: Vec<u8> = vec![47u8];
        proof {
            assert(slash@ =~= seq![47u8]);
        }
        let cut: usize = match find_first(&after, &slash) {
            Some(j) => {
                proof {
                    lemma_first_match(after@, slash@);
                }
                j
            },
            None => after.len(),
        };
        let seg = copy_range(&after, 0, cut);
        Some(seg)
    } else {
        None
    }
}

/// The view of an optional header value.
pub open spec fn opt_view(o: Option<&Vec<u8>>) -> Option<Seq<u8>> {
    match o {
        Some(v) => Some(v@),
        None => None,
    }
}

/// Which decoded name the fallback heuristic picks: the name found in
/// the `Referer`, or — when the `Referer` or `Origin` value names the
/// proxy's own port — the first registered target, best-effort.
pub open spec fn spec_fallback_name(
    ts: Seq<Target>,
    router_port: u16,
    referer: Option<Seq<u8>>,
    origin: Option<Seq<u8>>,
) -> Option<Seq<u8>> {
    let rv = match referer {
        Some(v) => v,
        None => Seq::<u8>::empty(),
    };
    match spec_referer_name(rv) {
        Some(seg) => Some(url_dec(seg)),
        None => {
            let ov = match origin {
                Some(v) => v,
                None => Seq::<u8>::empty(),
            };
            let marker = seq![58u8] + dec_digits(router_port as nat);
            if contains_seq(ov, marker) || contains_seq(rv, marker) {
                if ts.len() > 0 {
                    Some(ts[0].name@)
                } else {
                    None
                }
            } else {
                None
            }
        },
    }
}

/// Resolve a request that carries the reserved prefix: decode the name
/// segment and look it up; hand back the target's index and the
/// remaining path.
pub fn resolve_primary(reg: &Registry, path: &Vec<u8>) -> (r: Option<(usize, Vec<u8>)>)
    ensures
        match r {
            Some(pr) => spec_proxy_route(path@) matches Some(sr) && target_at(
                reg.targets@,
                pr.0 as int,
                url_dec(sr.0),
            ) && pr.1@ == sr.1,
            None => spec_proxy_route(path@) is None || (spec_proxy_route(path@) matches Some(sr)
                && no_target(reg.targets@, url_dec(sr.0))),
        },
{
    match split_proxy_path(path) {
        None => None,
        Some(sr) => {
            let name = url_decode(&sr.0);
            match reg.find_target(&name) {
                None => None,
                Some(i) => Some((i, sr.1)),
            }
        },
    }
}

/// Resolve a request without the reserved prefix through the heuristic.
pub fn resolve_fallback(
    reg: &Registry,
    referer: Option<&Vec<u8>>,
    origin: Option<&Vec<u8>>,
) -> (r: Option<usize>)
    ensures
        match r {
            Some(i) => spec_fallback_name(
                reg.targets@,
                reg.router_port,
                opt_view(referer),
                opt_view(origin),
            ) matches Some(n) && target_at(reg.targets@, i as int, n),
            None => match spec_fallback_name(
                reg.targets@,
                reg.router_port,
                opt_view(referer),
                opt_view(origin),
            ) {
                Some(n) => no_target(reg.targets@, n),
                None => true,
            },
        },
{
    let empty: Vec<u8> = Vec::new();
    let rv: &Vec<u8> = match referer {
        Some(v) => v,
        None => &empty,
    };
    proof {
        assert(empty@ =~= Seq::<u8>::empty());
    }
    match referer_name(rv) {
        Some(seg) => {
            let name = url_decode(&seg);
            match reg.find_target(&name) {
                None => None,
                Some(i) => Some(i),
            }
        },
        None => {
            let ov: &Vec<u8> = match origin {
                Some(v) => v,
                None => &empty,
            };
            let mut marker: Vec<u8> = Vec::new();
            marker.push(58u8);
            push_u16(&mut marker, reg.router_port);
            proof {
                assert(marker@ =~= seq![58u8] + dec_digits(reg.router_port as nat));
            }
            if contains_bytes(ov, &marker) || contains_bytes(rv, &marker) {
                if reg.targets.len() > 0 {
                    Some(0)
                } else {
                    None
                }
            } else {
                None
            }
        },
    }
}


/// The forwarding law in one piece: for a nonempty percent-encoded
/// target name `e` and a remainder `rest` that is empty or begins with
/// `/`, a request path `/proxy/<e><rest>` parses to exactly the segment
/// `e` and remainder `rest`.  With `plan_primary`'s contract this says
/// that such a request is routed to the target named `url_dec(e)` and
/// forwarded to `localhost:<port><rest>` (an empty remainder becoming
/// `/`) with its query string unchanged.
pub proof fn lemma_primary_route_exact(e: Seq<u8>, rest: Seq<u8>)
    requires
        e.len() > 0,
        forall|k: int| 0 <= k < e.len() ==> #[trigger] crate::outside::enc_byte(e[k]),
        rest.len() == 0 || rest[0] == 47u8,
    ensures
        spec_proxy_route(spec_proxy_prefix() + e + rest) == Some((e, rest)),
{
    let pp = spec_proxy_prefix();
    let path = pp + e + rest;
    assert(path =~= pp + (e + rest));
    assert(is_prefix_of(pp, path)) by {
        assert(path.subrange(0, pp.len() as int) =~= pp);
    }
    let after = path.skip(pp.len() as int);
    assert(after =~= e + rest);
    let slash = seq![47u8];
    // percent-encoding never emits a slash, so the segment runs to the
    // remainder's leading slash, or to the end
    assert forall|k: int| 0 <= k < e.len() implies after[k] != 47u8 by {
        assert(crate::outside::enc_byte(e[k]));
        assert(after[k] == e[k]);
    }
    assert forall|j: int| 0 <= j < e.len() implies !match_at(after, slash, j) by {
        if match_at(after, slash, j) {
            assert(after.subrange(j, j + 1)[0] == after[j]);
        }
    }
    lemma_first_match(after, slash);
    if rest.len() == 0 {
        assert(after.len() == e.len());
        if first_match(after, slash) is Some {
            let k = first_match(after, slash)->Some_0;
            assert(match_at(after, slash, k));
            assert(false);
        }
        assert(after.subrange(0, after.len() as int) =~= e);
        assert(after.skip(after.len() as int) =~= rest);
    } else {
        assert(match_at(after, slash, e.len() as int)) by {
            assert(after[e.len() as int] == rest[0]);
            assert(after.subrange(e.len() as int, e.len() as int + 1) =~= slash);
        }
        let fm = first_match(after, slash);
        if fm is None {
            assert(!match_at(after, slash, e.len() as int));
            assert(false);
        }
        let k = fm->Some_0;
        if k < e.len() {
            assert(match_at(after, slash, k));
            assert(false);
        }
        if k > e.len() {
            assert(!match_at(after, slash, e.len() as int));
            assert(false);
        }
        assert(after.subrange(0, e.len() as int) =~= e);
        assert(after.skip(e.len() as int) =~= rest);
    }
}

} // verus!
