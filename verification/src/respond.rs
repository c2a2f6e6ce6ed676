//! The response transformer's decisions: classifying a backend response
//! by declared content type and request-path suffix, dispatching the
//! body-rewriting pass, and synthesizing the proxy's own error
//! responses.

use vstd::prelude::*;

use crate::bytes::{
    contains_bytes, contains_seq, dec_digits, ends_with, first_match, is_suffix_of,
    lemma_first_match, match_at, push_all, push_u16,
};
use crate::lits::{
    lit_ct_css, lit_ct_html, lit_ct_js, lit_ct_ts, lit_err_body_read, lit_err_gateway_a,
    lit_err_gateway_b, lit_err_timeout_a, lit_err_timeout_b, lit_ext_css, lit_ext_js, lit_ext_mjs,
    lit_ext_ts, lit_ext_tsx, lit_q_js, lit_q_mjs, lit_q_ts, lit_q_tsx, lit_vite_deps,
    spec_ct_css, spec_ct_html, spec_ct_js, spec_ct_ts, spec_err_body_read, spec_err_gateway_a,
    spec_err_gateway_b, spec_err_timeout_a, spec_err_timeout_b, spec_ext_css, spec_ext_js,
    spec_ext_mjs, spec_ext_ts, spec_ext_tsx, spec_q_js, spec_q_mjs, spec_q_ts, spec_q_tsx,
    spec_vite_deps,
};
use crate::registry::Target;
use crate::rewrite::{
    css_rewritten, html_rewritten, js_rewritten, rewrite_css, rewrite_html, rewrite_js,
};

verus! {

/// The bound, in seconds, on every upstream request.
pub const UPSTREAM_TIMEOUT_SECS: u64 = 10;

/// Status codes the core produces itself.
pub const STATUS_BAD_REQUEST: u16 = 400;

pub const STATUS_NOT_FOUND: u16 = 404;

pub const STATUS_INTERNAL_ERROR: u16 = 500;

pub const STATUS_BAD_GATEWAY: u16 = 502;

pub const STATUS_GATEWAY_TIMEOUT: u16 = 504;

/// How a backend response's body is to be handled.
#[derive(PartialEq, Eq, Structural, Debug, Clone, Copy)]
pub enum BodyKind {
    Html,
    Css,
    Js,
    Other,
}

/// The response declares or the path suggests JavaScript/TypeScript.
pub open spec fn spec_is_js(ct: Seq<u8>, path: Seq<u8>) -> bool {
    ||| contains_seq(ct, spec_ct_js())
    ||| contains_seq(ct, spec_ct_ts())
    ||| is_suffix_of(spec_ext_js(), path)
    ||| is_suffix_of(spec_ext_mjs(), path)
    ||| is_suffix_of(spec_ext_ts(), path)
    ||| is_suffix_of(spec_ext_tsx(), path)
    ||| contains_seq(path, spec_q_js())
    ||| contains_seq(path, spec_q_mjs())
    ||| contains_seq(path, spec_q_ts())
    ||| contains_seq(path, spec_q_tsx())
}

/// The response declares or the path suggests CSS.
pub open spec fn spec_is_css(ct: Seq<u8>, path: Seq<u8>) -> bool {
    contains_seq(ct, spec_ct_css()) || is_suffix_of(spec_ext_css(), path)
}

/// Content-type dispatch, the same on every route: HTML first, then
/// CSS, then JavaScript/TypeScript, by declared MIME type first and
/// path suffix second.
pub open spec fn spec_classify(ct: Seq<u8>, path: Seq<u8>) -> BodyKind {
    if contains_seq(ct, spec_ct_html()) {
        BodyKind::Html
    } else if spec_is_css(ct, path) {
        BodyKind::Css
    } else if spec_is_js(ct, path) {
        BodyKind::Js
    } else {
        BodyKind::Other
    }
}

fn is_js(ct: &Vec<u8>, path: &Vec<u8>) -> (b: bool)
    ensures
        b == spec_is_js(ct@, path@),
{
    let ct_js = lit_ct_js();
    let ct_ts = lit_ct_ts();
    let e_js = lit_ext_js();
    let e_mjs = lit_ext_mjs();
    let e_ts = lit_ext_ts();
    let e_tsx = lit_ext_tsx();
    let q_js = lit_q_js();
    let q_mjs = lit_q_mjs();
    let q_ts = lit_q_ts();
    let q_tsx = lit_q_tsx();
    contains_bytes(ct, &ct_js) || contains_bytes(ct, &ct_ts) || ends_with(path, &e_js)
        || ends_with(path, &e_mjs) || ends_with(path, &e_ts) || ends_with(path, &e_tsx)
        || contains_bytes(path, &q_js) || contains_bytes(path, &q_mjs) || contains_bytes(
        path,
        &q_ts,
    ) || contains_bytes(path, &q_tsx)
}

fn is_css(ct: &Vec<u8>, path: &Vec<u8>) -> (b: bool)
    ensures
        b == spec_is_css(ct@, path@),
{
    let ct_css = lit_ct_css();
    let e_css = lit_ext_css();
    contains_bytes(ct, &ct_css) || ends_with(path, &e_css)
}

/// Classify a backend response by its declared content type and the
/// request path.
pub fn classify(ct: &Vec<u8>, path: &Vec<u8>) -> (k: BodyKind)
    ensures
        k == spec_classify(ct@, path@),
{
    let ct_html = lit_ct_html();
    if contains_bytes(ct, &ct_html) {
        BodyKind::Html
    } else if is_css(ct, path) {
        BodyKind::Css
    } else if is_js(ct, path) {
        BodyKind::Js
    } else {
        BodyKind::Other
    }
}

/// The request path names a pre-bundled dependency artifact, which the
/// JavaScript pass must leave untouched.
pub fn is_bundled_dep(path: &Vec<u8>) -> (b: bool)
    ensures
        b == contains_seq(path@, spec_vite_deps()),
{
    let v = lit_vite_deps();
    contains_bytes(path, &v)
}

/// What the body of a rewritten response holds.
pub open spec fn spec_processed(kind: BodyKind, bundled: bool, b: Seq<u8>, e: Seq<u8>) -> Seq<
    u8,
> {
    match kind {
        BodyKind::Html => html_rewritten(b, e),
        BodyKind::Css => css_rewritten(b, e),
        BodyKind::Js => if bundled {
            b
        } else {
            js_rewritten(b, e)
        },
        BodyKind::Other => b,
    }
}

/// Run the rewriting pass a response body calls for.  `bundled` skips
/// the JavaScript pass for pre-bundled dependency artifacts.
pub fn process_body(kind: BodyKind, bundled: bool, body: &Vec<u8>, enc: &Vec<u8>) -> (r: Vec<u8>)
    ensures
        r@ == spec_processed(kind, bundled, body@, enc@),
{
    match kind {
        BodyKind::Html => rewrite_html(body, enc),
        BodyKind::Css => rewrite_css(body, enc),
        BodyKind::Js => {
            if bundled {
                crate::plan::dup(body)
            } else {
                rewrite_js(body, enc)
            }
        },
        BodyKind::Other => crate::plan::dup(body),
    }
}

/// Transform one backend response body, on either route: classify it
/// by content type and path, percent-encode the target's name, and run
/// the pass the class calls for — skipping pre-bundled dependency
/// artifacts.  A kind other than `Other` means the body was rewritten
/// and `Content-Length` no longer holds.
pub fn transform_response(target: &Target, ct: &Vec<u8>, path: &Vec<u8>, body: &Vec<u8>) -> (r: (
    BodyKind,
    Vec<u8>,
))
    ensures
        ({
            let kind = spec_classify(ct@, path@);
            let bundled = contains_seq(path@, spec_vite_deps());
            r.0 == kind && r.1@ == spec_processed(
                kind,
                bundled,
                body@,
                crate::outside::url_enc(target.name@),
            )
        }),
{
    let enc = crate::outside::url_encode(&target.name);
    let kind = classify(ct, path);
    let bundled = is_bundled_dep(path);
    let out = process_body(kind, bundled, body, &enc);
    (kind, out)
}

/// The always-applied response-header edits: the two header names to
/// remove, and the resource-policy value to insert exactly when no such
/// header is present.
pub struct HeaderEdits {
    /// `content-security-policy`, to be removed.
    pub remove_csp: Vec<u8>,
    /// `content-security-policy-report-only`, to be removed.
    pub remove_csp_report_only: Vec<u8>,
    /// `cross-origin`, to be set as `cross-origin-resource-policy`
    /// when that header is absent.
    pub set_resource_policy: Option<Vec<u8>>,
}

/// Decide the header edits every proxied response gets: strip both
/// Content-Security-Policy headers, and set
/// `Cross-Origin-Resource-Policy: cross-origin` if and only if the
/// response carries none.
pub fn response_header_edits(has_resource_policy: bool) -> (r: HeaderEdits)
    ensures
        r.remove_csp@ == crate::lits::spec_hdr_csp(),
        r.remove_csp_report_only@ == crate::lits::spec_hdr_csp_ro(),
        !has_resource_policy ==> (r.set_resource_policy matches Some(v) && v@
            == crate::lits::spec_cross_origin()),
        has_resource_policy ==> r.set_resource_policy is None,
{
    HeaderEdits {
        remove_csp: crate::lits::lit_hdr_csp(),
        remove_csp_report_only: crate::lits::lit_hdr_csp_ro(),
        set_resource_policy: if has_resource_policy {
            None
        } else {
            Some(crate::lits::lit_cross_origin())
        },
    }
}

/// Why an upstream request produced no response to forward.
pub enum UpstreamError {
    /// A connection or protocol failure, with the transport's message.
    Transport(Vec<u8>),
    /// No response within the bounded wait.
    Timeout,
}

/// `proxy error: backend server <name>:<port> is not reachable\ndetails: <err>`.
pub open spec fn spec_gateway_body(name: Seq<u8>, port: u16, err: Seq<u8>) -> Seq<u8> {
    spec_err_gateway_a() + name + seq![58u8] + dec_digits(port as nat) + spec_err_gateway_b()
        + err
}

/// `timeout: backend server <name>:<port> did not respond within 10 seconds`.
pub open spec fn spec_timeout_body(name: Seq<u8>, port: u16) -> Seq<u8> {
    spec_err_timeout_a() + name + seq![58u8] + dec_digits(port as nat) + spec_err_timeout_b()
}

/// The status and plain-text diagnostic body for a failed upstream
/// request: 502 for a transport failure, 504 for the timeout, each body
/// naming the target and its port.
pub fn upstream_error_response(target: &Target, err: &UpstreamError) -> (r: (u16, Vec<u8>))
    ensures
        err matches UpstreamError::Transport(e) ==> r.0 == STATUS_BAD_GATEWAY && r.1@
            == spec_gateway_body(target.name@, target.port, e@),
        err matches UpstreamError::Timeout ==> r.0 == STATUS_GATEWAY_TIMEOUT && r.1@
            == spec_timeout_body(target.name@, target.port),
{
    match err {
        UpstreamError::Transport(e) => {
            let mut body = lit_err_gateway_a();
            push_all(&mut body, &target.name);
            body.push(58u8);
            push_u16(&mut body, target.port);
            let tail = lit_err_gateway_b();
            push_all(&mut body, &tail);
            push_all(&mut body, e);
            proof {
                assert(body@ =~= spec_gateway_body(target.name@, target.port, e@));
            }
            (STATUS_BAD_GATEWAY, body)
        },
        UpstreamError::Timeout => {
            let mut body = lit_err_timeout_a();
            push_all(&mut body, &target.name);
            body.push(58u8);
            push_u16(&mut body, target.port);
            let tail = lit_err_timeout_b();
            push_all(&mut body, &tail);
            proof {
                assert(body@ =~= spec_timeout_body(target.name@, target.port));
            }
            (STATUS_GATEWAY_TIMEOUT, body)
        },
    }
}

/// The status and body for a response whose bytes could not be read.
pub fn body_read_error_response() -> (r: (u16, Vec<u8>))
    ensures
        r.0 == STATUS_INTERNAL_ERROR,
        r.1@ == spec_err_body_read(),
{
    (STATUS_INTERNAL_ERROR, lit_err_body_read())
}

/// A timeout diagnostic always mentions the failing target by name.
pub proof fn lemma_timeout_body_names_target(name: Seq<u8>, port: u16)
    ensures
        contains_seq(spec_timeout_body(name, port), name),
{
    let body = spec_timeout_body(name, port);
    let off = spec_err_timeout_a().len() as int;
    assert(match_at(body, name, off)) by {
        assert(body.subrange(off, off + name.len()) =~= name);
    }
    lemma_first_match(body, name);
    if first_match(body, name) is None {
        assert(!match_at(body, name, off));
    }
}

} // verus!
