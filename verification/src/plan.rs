//! The request transformer: given a resolved target, produce the
//! outbound request — the backend URI and every header value the proxy
//! sets or rewrites.  The surrounding process only copies these values
//! into its header map.

use vstd::prelude::*;

use crate::bytes::{dec_digits, push_all, push_u16};
use crate::lits::{
    lit_host_prefix, lit_localhost, lit_loopback, lit_proto_http, lit_scheme_host,
    spec_host_prefix, spec_localhost, spec_loopback, spec_proto_http, spec_scheme_host,
};
use crate::outside::{uri_path_and_query, uri_pq, url_dec};
use crate::registry::{no_target, target_at, Registry};
use crate::rewrite::copy_range;
use crate::route::{
    opt_view, resolve_fallback, resolve_primary, spec_fallback_name, spec_proxy_route,
};

verus! {

/// The pieces of the inbound request that routing and planning read.
pub struct Inbound {
    /// The raw request path.
    pub path: Vec<u8>,
    /// The raw query string, without its `?`.
    pub query: Option<Vec<u8>>,
    /// The inbound `Host` value, where readable.
    pub host: Option<Vec<u8>>,
    /// Whether an `Origin` header is present at all.
    pub has_origin: bool,
    /// The readable `Origin` value, for the fallback heuristic.
    pub origin: Option<Vec<u8>>,
    /// The readable `Referer` value.
    pub referer: Option<Vec<u8>>,
}

/// The outbound request: the backend URI and the headers to set.
/// `origin` and `referer` are `None` where the inbound header is absent
/// (or, for `Referer`, unparseable) and must then be left untouched.
pub struct RequestPlan {
    pub target_index: usize,
    pub port: u16,
    pub uri: Vec<u8>,
    pub host: Vec<u8>,
    pub forwarded_for: Vec<u8>,
    pub forwarded_proto: Vec<u8>,
    pub forwarded_host: Vec<u8>,
    pub origin: Option<Vec<u8>>,
    pub referer: Option<Vec<u8>>,
}

/// The view of an owned optional byte string.
pub open spec fn optv(o: Option<Vec<u8>>) -> Option<Seq<u8>> {
    match o {
        Some(v) => Some(v@),
        None => None,
    }
}

/// `http://localhost:<port><path>[?<query>]`.
pub open spec fn spec_backend_uri(port: u16, path: Seq<u8>, query: Option<Seq<u8>>) -> Seq<u8> {
    spec_scheme_host() + dec_digits(port as nat) + path + (match query {
        Some(q) => seq![63u8] + q,
        None => Seq::<u8>::empty(),
    })
}

/// `localhost:<port>`.
pub open spec fn spec_host_value(port: u16) -> Seq<u8> {
    spec_host_prefix() + dec_digits(port as nat)
}

/// `http://localhost:<port>`.
pub open spec fn spec_origin_value(port: u16) -> Seq<u8> {
    spec_scheme_host() + dec_digits(port as nat)
}

/// `http://localhost:<port><path-and-query of the old referer>`.
pub open spec fn spec_referer_value(port: u16, pq: Seq<u8>) -> Seq<u8> {
    spec_scheme_host() + dec_digits(port as nat) + pq
}

/// An empty remainder is the backend root.
pub open spec fn spec_norm_path(rest: Seq<u8>) -> Seq<u8> {
    if rest.len() == 0 {
        seq![47u8]
    } else {
        rest
    }
}

/// Every field of the plan, pinned down: the URI addresses the target's
/// port with the given backend path and the unchanged query; `Host` is
/// rewritten to the backend; the forwarded-for/proto/host triple names
/// the proxy hop; `Origin` is rewritten exactly when present; `Referer`
/// is rewritten exactly when present and parseable, keeping its
/// path-and-query.
pub open spec fn plan_fields_ok(
    plan: RequestPlan,
    port: u16,
    backend_path: Seq<u8>,
    inb: Inbound,
) -> bool {
    &&& plan.port == port
    &&& plan.uri@ == spec_backend_uri(port, backend_path, optv(inb.query))
    &&& plan.host@ == spec_host_value(port)
    &&& plan.forwarded_for@ == spec_loopback()
    &&& plan.forwarded_proto@ == spec_proto_http()
    &&& plan.forwarded_host@ == (match optv(inb.host) {
        Some(h) => h,
        None => spec_localhost(),
    })
    &&& (inb.has_origin ==> (plan.origin matches Some(o) && o@ == spec_origin_value(port)))
    &&& (!inb.has_origin ==> plan.origin is None)
    &&& (match optv(inb.referer) {
        Some(rv) => match uri_pq(rv) {
            Some(pq) => plan.referer matches Some(nr) && nr@ == spec_referer_value(port, pq),
            None => plan.referer is None,
        },
        None => plan.referer is None,
    })
}

/// Duplicate a byte string.
pub fn dup(v: &Vec<u8>) -> (r: Vec<u8>)
    ensures
        r@ == v@,
{
    let r = copy_range(v, 0, v.len());
    assert(v@.subrange(0, v@.len() as int) =~= v@);
    r
}

/// Build the outbound plan for the target at `index`, sending it the
/// given backend path.
pub fn build_plan(reg: &Registry, index: usize, backend_path: &Vec<u8>, inb: &Inbound) -> (plan:
    RequestPlan)
    requires
        index < reg.targets@.len(),
    ensures
        plan_fields_ok(plan, reg.targets@[index as int].port, backend_path@, *inb),
        plan.target_index == index,
{
    let port = reg.targets[index].port;

    let mut uri = lit_scheme_host();
    push_u16(&mut uri, port);
    push_all(&mut uri, backend_path);
    match &inb.query {
        Some(q) => {
            uri.push(63u8);
            push_all(&mut uri, q);
            proof {
                assert(uri@ =~= spec_backend_uri(port, backend_path@, optv(inb.query)));
            }
        },
        None => {
            proof {
                assert(uri@ =~= spec_backend_uri(port, backend_path@, optv(inb.query)));
            }
        },
    }

    let mut host = lit_host_prefix();
    push_u16(&mut host, port);

    let forwarded_host = match &inb.host {
        Some(h) => dup(h),
        None => lit_localhost(),
    };

    let origin = if inb.has_origin {
        let mut o = lit_scheme_host();
        push_u16(&mut o, port);
        Some(o)
    } else {
        None
    };

    let referer = match &inb.referer {
        Some(rv) => match uri_path_and_query(rv) {
            Some(pq) => {
                let mut nr = lit_scheme_host();
                push_u16(&mut nr, port);
                push_all(&mut nr, &pq);
                Some(nr)
            },
            None => None,
        },
        None => None,
    };

    RequestPlan {
        target_index: index,
        port,
        uri,
        host,
        forwarded_for: lit_loopback(),
        forwarded_proto: lit_proto_http(),
        forwarded_host,
        origin,
        referer,
    }
}

/// Plan a request that carries the reserved prefix: resolve the target,
/// strip the prefix (an empty remainder becomes `/`), and build the
/// outbound request.  `None` is the not-found outcome.
pub fn plan_primary(reg: &Registry, inb: &Inbound) -> (r: Option<RequestPlan>)
    ensures
        match r {
            Some(plan) => spec_proxy_route(inb.path@) matches Some(sr) && target_at(
                reg.targets@,
                plan.target_index as int,
                url_dec(sr.0),
            ) && plan_fields_ok(
                plan,
                reg.targets@[plan.target_index as int].port,
                spec_norm_path(sr.1),
                *inb,
            ),
            None => spec_proxy_route(inb.path@) is None || (spec_proxy_route(inb.path@)
                matches Some(sr) && no_target(reg.targets@, url_dec(sr.0))),
        },
{
    match resolve_primary(reg, &inb.path) {
        None => None,
        Some(pr) => {
            let (index, rest) = pr;
            let backend_path = if rest.len() == 0 {
                let mut root: Vec<u8> = Vec::new();
                root.push(47u8);
                proof {
                    assert(root@ =~= seq![47u8]);
                }
                root
            } else {
                rest
            };
            Some(build_plan(reg, index, &backend_path, inb))
        },
    }
}

/// Plan a request without the reserved prefix: resolve through the
/// `Referer`/`Origin` heuristic and forward the path unchanged.
/// `None` is the not-found outcome.
pub fn plan_fallback(reg: &Registry, inb: &Inbound) -> (r: Option<RequestPlan>)
    ensures
        match r {
            Some(plan) => spec_fallback_name(
                reg.targets@,
                reg.router_port,
                optv(inb.referer),
                optv(inb.origin),
            ) matches Some(n) && target_at(reg.targets@, plan.target_index as int, n)
                && plan_fields_ok(
                plan,
                reg.targets@[plan.target_index as int].port,
                inb.path@,
                *inb,
            ),
            None => match spec_fallback_name(
                reg.targets@,
                reg.router_port,
                optv(inb.referer),
                optv(inb.origin),
            ) {
                Some(n) => no_target(reg.targets@, n),
                None => true,
            },
        },
{
    let referer = match &inb.referer {
        Some(v) => Some(v),
        None => None,
    };
    let origin = match &inb.origin {
        Some(v) => Some(v),
        None => None,
    };
    proof {
        assert(opt_view(referer) == optv(inb.referer));
        assert(opt_view(origin) == optv(inb.origin));
    }
    match resolve_fallback(reg, referer, origin) {
        None => None,
        Some(index) => Some(build_plan(reg, index, &inb.path, inb)),
    }
}

} // verus!
