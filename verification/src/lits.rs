//! The byte-string constants of the proxy: the literal rewrite patterns,
//! the reserved path segment, markers used by the HTML pass, content-type
//! and file-extension fragments, and diagnostic-body fragments.
//!
//! Each constant comes as a spec sequence and as an executable builder
//! proved to produce exactly that sequence.

use vstd::prelude::*;

verus! {

/// `src="/`
pub open spec fn spec_pat_src_dq() -> Seq<u8> {
    seq![115u8, 114, 99, 61, 34, 47]
}

/// `src="/`
pub fn lit_pat_src_dq() -> (r: Vec<u8>)
    ensures
        r@ == spec_pat_src_dq(),
{
    let v: Vec<u8> = vec![115u8, 114, 99, 61, 34, 47];
    proof {
        assert(v@ =~= spec_pat_src_dq());
    }
    v
}

/// `href="/`
pub open spec fn spec_pat_href_dq() -> Seq<u8> {
    seq![104u8, 114, 101, 102, 61, 34, 47]
}

/// `href="/`
pub fn lit_pat_href_dq() -> (r: Vec<u8>)
    ensures
        r@ == spec_pat_href_dq(),
{
    let v: Vec<u8> = vec![104u8, 114, 101, 102, 61, 34, 47];
    proof {
        assert(v@ =~= spec_pat_href_dq());
    }
    v
}

/// `src='/`
pub open spec fn spec_pat_src_sq() -> Seq<u8> {
    seq![115u8, 114, 99, 61, 39, 47]
}

/// `src='/`
pub fn lit_pat_src_sq() -> (r: Vec<u8>)
    ensures
        r@ == spec_pat_src_sq(),
{
    let v: Vec<u8> = vec![115u8, 114, 99, 61, 39, 47];
    proof {
        assert(v@ =~= spec_pat_src_sq());
    }
    v
}

/// `href='/`
pub open spec fn spec_pat_href_sq() -> Seq<u8> {
    seq![104u8, 114, 101, 102, 61, 39, 47]
}

/// `href='/`
pub fn lit_pat_href_sq() -> (r: Vec<u8>)
    ensures
        r@ == spec_pat_href_sq(),
{
    let v: Vec<u8> = vec![104u8, 114, 101, 102, 61, 39, 47];
    proof {
        assert(v@ =~= spec_pat_href_sq());
    }
    v
}

/// `fetch('/`
pub open spec fn spec_pat_fetch_sq() -> Seq<u8> {
    seq![102u8, 101, 116, 99, 104, 40, 39, 47]
}

/// `fetch('/`
pub fn lit_pat_fetch_sq() -> (r: Vec<u8>)
    ensures
        r@ == spec_pat_fetch_sq(),
{
    let v: Vec<u8> = vec![102u8, 101, 116, 99, 104, 40, 39, 47];
    proof {
        assert(v@ =~= spec_pat_fetch_sq());
    }
    v
}

/// `fetch("/`
pub open spec fn spec_pat_fetch_dq() -> Seq<u8> {
    seq![102u8, 101, 116, 99, 104, 40, 34, 47]
}

/// `fetch("/`
pub fn lit_pat_fetch_dq() -> (r: Vec<u8>)
    ensures
        r@ == spec_pat_fetch_dq(),
{
    let v: Vec<u8> = vec![102u8, 101, 116, 99, 104, 40, 34, 47];
    proof {
        assert(v@ =~= spec_pat_fetch_dq());
    }
    v
}

/// `.open('GET', '/`
pub open spec fn spec_pat_open_get_sq() -> Seq<u8> {
    seq![46u8, 111, 112, 101, 110, 40, 39, 71, 69, 84, 39, 44, 32, 39, 47]
}

/// `.open('GET', '/`
pub fn lit_pat_open_get_sq() -> (r: Vec<u8>)
    ensures
        r@ == spec_pat_open_get_sq(),
{
    let v: Vec<u8> = vec![46u8, 111, 112, 101, 110, 40, 39, 71, 69, 84, 39, 44, 32, 39, 47];
    proof {
        assert(v@ =~= spec_pat_open_get_sq());
    }
    v
}

/// `.open('POST', '/`
pub open spec fn spec_pat_open_post_sq() -> Seq<u8> {
    seq![46u8, 111, 112, 101, 110, 40, 39, 80, 79, 83, 84, 39, 44, 32, 39, 47]
}

/// `.open('POST', '/`
pub fn lit_pat_open_post_sq() -> (r: Vec<u8>)
    ensures
        r@ == spec_pat_open_post_sq(),
{
    let v: Vec<u8> = vec![46u8, 111, 112, 101, 110, 40, 39, 80, 79, 83, 84, 39, 44, 32, 39, 47];
    proof {
        assert(v@ =~= spec_pat_open_post_sq());
    }
    v
}

/// `.open("GET", "/`
pub open spec fn spec_pat_open_get_dq() -> Seq<u8> {
    seq![46u8, 111, 112, 101, 110, 40, 34, 71, 69, 84, 34, 44, 32, 34, 47]
}

/// `.open("GET", "/`
pub fn lit_pat_open_get_dq() -> (r: Vec<u8>)
    ensures
        r@ == spec_pat_open_get_dq(),
{
    let v: Vec<u8> = vec![46u8, 111, 112, 101, 110, 40, 34, 71, 69, 84, 34, 44, 32, 34, 47];
    proof {
        assert(v@ =~= spec_pat_open_get_dq());
    }
    v
}

/// `.open("POST", "/`
pub open spec fn spec_pat_open_post_dq() -> Seq<u8> {
    seq![46u8, 111, 112, 101, 110, 40, 34, 80, 79, 83, 84, 34, 44, 32, 34, 47]
}

/// `.open("POST", "/`
pub fn lit_pat_open_post_dq() -> (r: Vec<u8>)
    ensures
        r@ == spec_pat_open_post_dq(),
{
    let v: Vec<u8> = vec![46u8, 111, 112, 101, 110, 40, 34, 80, 79, 83, 84, 34, 44, 32, 34, 47];
    proof {
        assert(v@ =~= spec_pat_open_post_dq());
    }
    v
}

/// `url('/`
pub open spec fn spec_pat_url_sq() -> Seq<u8> {
    seq![117u8, 114, 108, 40, 39, 47]
}

/// `url('/`
pub fn lit_pat_url_sq() -> (r: Vec<u8>)
    ensures
        r@ == spec_pat_url_sq(),
{
    let v: Vec<u8> = vec![117u8, 114, 108, 40, 39, 47];
    proof {
        assert(v@ =~= spec_pat_url_sq());
    }
    v
}

/// `url("/`
pub open spec fn spec_pat_url_dq() -> Seq<u8> {
    seq![117u8, 114, 108, 40, 34, 47]
}

/// `url("/`
pub fn lit_pat_url_dq() -> (r: Vec<u8>)
    ensures
        r@ == spec_pat_url_dq(),
{
    let v: Vec<u8> = vec![117u8, 114, 108, 40, 34, 47];
    proof {
        assert(v@ =~= spec_pat_url_dq());
    }
    v
}

/// `url(/`
pub open spec fn spec_pat_url_bare() -> Seq<u8> {
    seq![117u8, 114, 108, 40, 47]
}

/// `url(/`
pub fn lit_pat_url_bare() -> (r: Vec<u8>)
    ensures
        r@ == spec_pat_url_bare(),
{
    let v: Vec<u8> = vec![117u8, 114, 108, 40, 47];
    proof {
        assert(v@ =~= spec_pat_url_bare());
    }
    v
}

/// `@import '/`
pub open spec fn spec_pat_import_sq() -> Seq<u8> {
    seq![64u8, 105, 109, 112, 111, 114, 116, 32, 39, 47]
}

/// `@import '/`
pub fn lit_pat_import_sq() -> (r: Vec<u8>)
    ensures
        r@ == spec_pat_import_sq(),
{
    let v: Vec<u8> = vec![64u8, 105, 109, 112, 111, 114, 116, 32, 39, 47];
    proof {
        assert(v@ =~= spec_pat_import_sq());
    }
    v
}

/// `@import "/`
pub open spec fn spec_pat_import_dq() -> Seq<u8> {
    seq![64u8, 105, 109, 112, 111, 114, 116, 32, 34, 47]
}

/// `@import "/`
pub fn lit_pat_import_dq() -> (r: Vec<u8>)
    ensures
        r@ == spec_pat_import_dq(),
{
    let v: Vec<u8> = vec![64u8, 105, 109, 112, 111, 114, 116, 32, 34, 47];
    proof {
        assert(v@ =~= spec_pat_import_dq());
    }
    v
}

/// `from '/`
pub open spec fn spec_pat_from_sq() -> Seq<u8> {
    seq![102u8, 114, 111, 109, 32, 39, 47]
}

/// `from '/`
pub fn lit_pat_from_sq() -> (r: Vec<u8>)
    ensures
        r@ == spec_pat_from_sq(),
{
    let v: Vec<u8> = vec![102u8, 114, 111, 109, 32, 39, 47];
    proof {
        assert(v@ =~= spec_pat_from_sq());
    }
    v
}

/// `from "/`
pub open spec fn spec_pat_from_dq() -> Seq<u8> {
    seq![102u8, 114, 111, 109, 32, 34, 47]
}

/// `from "/`
pub fn lit_pat_from_dq() -> (r: Vec<u8>)
    ensures
        r@ == spec_pat_from_dq(),
{
    let v: Vec<u8> = vec![102u8, 114, 111, 109, 32, 34, 47];
    proof {
        assert(v@ =~= spec_pat_from_dq());
    }
    v
}

/// `import('/`
pub open spec fn spec_pat_dynimport_sq() -> Seq<u8> {
    seq![105u8, 109, 112, 111, 114, 116, 40, 39, 47]
}

/// `import('/`
pub fn lit_pat_dynimport_sq() -> (r: Vec<u8>)
    ensures
        r@ == spec_pat_dynimport_sq(),
{
    let v: Vec<u8> = vec![105u8, 109, 112, 111, 114, 116, 40, 39, 47];
    proof {
        assert(v@ =~= spec_pat_dynimport_sq());
    }
    v
}

/// `import("/`
pub open spec fn spec_pat_dynimport_dq() -> Seq<u8> {
    seq![105u8, 109, 112, 111, 114, 116, 40, 34, 47]
}

/// `import("/`
pub fn lit_pat_dynimport_dq() -> (r: Vec<u8>)
    ensures
        r@ == spec_pat_dynimport_dq(),
{
    let v: Vec<u8> = vec![105u8, 109, 112, 111, 114, 116, 40, 34, 47];
    proof {
        assert(v@ =~= spec_pat_dynimport_dq());
    }
    v
}

/// `proxy/`
pub open spec fn spec_proxy_seg() -> Seq<u8> {
    seq![112u8, 114, 111, 120, 121, 47]
}

/// `proxy/`
pub fn lit_proxy_seg() -> (r: Vec<u8>)
    ensures
        r@ == spec_proxy_seg(),
{
    let v: Vec<u8> = vec![112u8, 114, 111, 120, 121, 47];
    proof {
        assert(v@ =~= spec_proxy_seg());
    }
    v
}

/// `/proxy/`
pub open spec fn spec_proxy_prefix() -> Seq<u8> {
    seq![47u8, 112, 114, 111, 120, 121, 47]
}

/// `/proxy/`
pub fn lit_proxy_prefix() -> (r: Vec<u8>)
    ensures
        r@ == spec_proxy_prefix(),
{
    let v: Vec<u8> = vec![47u8, 112, 114, 111, 120, 121, 47];
    proof {
        assert(v@ =~= spec_proxy_prefix());
    }
    v
}

/// `<head>`
pub open spec fn spec_head_lc() -> Seq<u8> {
    seq![60u8, 104, 101, 97, 100, 62]
}

/// `<head>`
pub fn lit_head_lc() -> (r: Vec<u8>)
    ensures
        r@ == spec_head_lc(),
{
    let v: Vec<u8> = vec![60u8, 104, 101, 97, 100, 62];
    proof {
        assert(v@ =~= spec_head_lc());
    }
    v
}

/// `</head>`
pub open spec fn spec_head_close() -> Seq<u8> {
    seq![60u8, 47, 104, 101, 97, 100, 62]
}

/// `</head>`
pub fn lit_head_close() -> (r: Vec<u8>)
    ensures
        r@ == spec_head_close(),
{
    let v: Vec<u8> = vec![60u8, 47, 104, 101, 97, 100, 62];
    proof {
        assert(v@ =~= spec_head_close());
    }
    v
}

/// `<html`
pub open spec fn spec_html_open() -> Seq<u8> {
    seq![60u8, 104, 116, 109, 108]
}

/// `<html`
pub fn lit_html_open() -> (r: Vec<u8>)
    ensures
        r@ == spec_html_open(),
{
    let v: Vec<u8> = vec![60u8, 104, 116, 109, 108];
    proof {
        assert(v@ =~= spec_html_open());
    }
    v
}

/// `>`
pub open spec fn spec_gt() -> Seq<u8> {
    seq![62u8]
}

/// `>`
pub fn lit_gt() -> (r: Vec<u8>)
    ensures
        r@ == spec_gt(),
{
    let v: Vec<u8> = vec![62u8];
    proof {
        assert(v@ =~= spec_gt());
    }
    v
}

/// `<base href="/proxy/`
pub open spec fn spec_base_open() -> Seq<u8> {
    seq![60u8, 98, 97, 115, 101, 32, 104, 114, 101, 102, 61, 34, 47, 112, 114, 111, 120, 121, 47]
}

/// `<base href="/proxy/`
pub fn lit_base_open() -> (r: Vec<u8>)
    ensures
        r@ == spec_base_open(),
{
    let v: Vec<u8> = vec![60u8, 98, 97, 115, 101, 32, 104, 114, 101, 102, 61, 34, 47, 112, 114, 111, 120, 121, 47];
    proof {
        assert(v@ =~= spec_base_open());
    }
    v
}

/// `/">`
pub open spec fn spec_base_close() -> Seq<u8> {
    seq![47u8, 34, 62]
}

/// `/">`
pub fn lit_base_close() -> (r: Vec<u8>)
    ensures
        r@ == spec_base_close(),
{
    let v: Vec<u8> = vec![47u8, 34, 62];
    proof {
        assert(v@ =~= spec_base_close());
    }
    v
}

/// `<meta http-equiv="Content-Security-Policy"`
pub open spec fn spec_meta_csp_dq() -> Seq<u8> {
    seq![60u8, 109, 101, 116, 97, 32, 104, 116, 116, 112, 45, 101, 113, 117, 105, 118, 61, 34, 67, 111, 110, 116, 101, 110, 116, 45, 83, 101, 99, 117, 114, 105, 116, 121, 45, 80, 111, 108, 105, 99, 121, 34]
}

/// `<meta http-equiv="Content-Security-Policy"`
pub fn lit_meta_csp_dq() -> (r: Vec<u8>)
    ensures
        r@ == spec_meta_csp_dq(),
{
    let v: Vec<u8> = vec![60u8, 109, 101, 116, 97, 32, 104, 116, 116, 112, 45, 101, 113, 117, 105, 118, 61, 34, 67, 111, 110, 116, 101, 110, 116, 45, 83, 101, 99, 117, 114, 105, 116, 121, 45, 80, 111, 108, 105, 99, 121, 34];
    proof {
        assert(v@ =~= spec_meta_csp_dq());
    }
    v
}

/// `<meta http-equiv='Content-Security-Policy'`
pub open spec fn spec_meta_csp_sq() -> Seq<u8> {
    seq![60u8, 109, 101, 116, 97, 32, 104, 116, 116, 112, 45, 101, 113, 117, 105, 118, 61, 39, 67, 111, 110, 116, 101, 110, 116, 45, 83, 101, 99, 117, 114, 105, 116, 121, 45, 80, 111, 108, 105, 99, 121, 39]
}

/// `<meta http-equiv='Content-Security-Policy'`
pub fn lit_meta_csp_sq() -> (r: Vec<u8>)
    ensures
        r@ == spec_meta_csp_sq(),
{
    let v: Vec<u8> = vec![60u8, 109, 101, 116, 97, 32, 104, 116, 116, 112, 45, 101, 113, 117, 105, 118, 61, 39, 67, 111, 110, 116, 101, 110, 116, 45, 83, 101, 99, 117, 114, 105, 116, 121, 45, 80, 111, 108, 105, 99, 121, 39];
    proof {
        assert(v@ =~= spec_meta_csp_sq());
    }
    v
}

/// `text/html`
pub open spec fn spec_ct_html() -> Seq<u8> {
    seq![116u8, 101, 120, 116, 47, 104, 116, 109, 108]
}

/// `text/html`
pub fn lit_ct_html() -> (r: Vec<u8>)
    ensures
        r@ == spec_ct_html(),
{
    let v: Vec<u8> = vec![116u8, 101, 120, 116, 47, 104, 116, 109, 108];
    proof {
        assert(v@ =~= spec_ct_html());
    }
    v
}

/// `css`
pub open spec fn spec_ct_css() -> Seq<u8> {
    seq![99u8, 115, 115]
}

/// `css`
pub fn lit_ct_css() -> (r: Vec<u8>)
    ensures
        r@ == spec_ct_css(),
{
    let v: Vec<u8> = vec![99u8, 115, 115];
    proof {
        assert(v@ =~= spec_ct_css());
    }
    v
}

/// `.css`
pub open spec fn spec_ext_css() -> Seq<u8> {
    seq![46u8, 99, 115, 115]
}

/// `.css`
pub fn lit_ext_css() -> (r: Vec<u8>)
    ensures
        r@ == spec_ext_css(),
{
    let v: Vec<u8> = vec![46u8, 99, 115, 115];
    proof {
        assert(v@ =~= spec_ext_css());
    }
    v
}

/// `javascript`
pub open spec fn spec_ct_js() -> Seq<u8> {
    seq![106u8, 97, 118, 97, 115, 99, 114, 105, 112, 116]
}

/// `javascript`
pub fn lit_ct_js() -> (r: Vec<u8>)
    ensures
        r@ == spec_ct_js(),
{
    let v: Vec<u8> = vec![106u8, 97, 118, 97, 115, 99, 114, 105, 112, 116];
    proof {
        assert(v@ =~= spec_ct_js());
    }
    v
}

/// `typescript`
pub open spec fn spec_ct_ts() -> Seq<u8> {
    seq![116u8, 121, 112, 101, 115, 99, 114, 105, 112, 116]
}

/// `typescript`
pub fn lit_ct_ts() -> (r: Vec<u8>)
    ensures
        r@ == spec_ct_ts(),
{
    let v: Vec<u8> = vec![116u8, 121, 112, 101, 115, 99, 114, 105, 112, 116];
    proof {
        assert(v@ =~= spec_ct_ts());
    }
    v
}

/// `.js`
pub open spec fn spec_ext_js() -> Seq<u8> {
    seq![46u8, 106, 115]
}

/// `.js`
pub fn lit_ext_js() -> (r: Vec<u8>)
    ensures
        r@ == spec_ext_js(),
{
    let v: Vec<u8> = vec![46u8, 106, 115];
    proof {
        assert(v@ =~= spec_ext_js());
    }
    v
}

/// `.mjs`
pub open spec fn spec_ext_mjs() -> Seq<u8> {
    seq![46u8, 109, 106, 115]
}

/// `.mjs`
pub fn lit_ext_mjs() -> (r: Vec<u8>)
    ensures
        r@ == spec_ext_mjs(),
{
    let v: Vec<u8> = vec![46u8, 109, 106, 115];
    proof {
        assert(v@ =~= spec_ext_mjs());
    }
    v
}

/// `.ts`
pub open spec fn spec_ext_ts() -> Seq<u8> {
    seq![46u8, 116, 115]
}

/// `.ts`
pub fn lit_ext_ts() -> (r: Vec<u8>)
    ensures
        r@ == spec_ext_ts(),
{
    let v: Vec<u8> = vec![46u8, 116, 115];
    proof {
        assert(v@ =~= spec_ext_ts());
    }
    v
}

/// `.tsx`
pub open spec fn spec_ext_tsx() -> Seq<u8> {
    seq![46u8, 116, 115, 120]
}

/// `.tsx`
pub fn lit_ext_tsx() -> (r: Vec<u8>)
    ensures
        r@ == spec_ext_tsx(),
{
    let v: Vec<u8> = vec![46u8, 116, 115, 120];
    proof {
        assert(v@ =~= spec_ext_tsx());
    }
    v
}

/// `.js?`
pub open spec fn spec_q_js() -> Seq<u8> {
    seq![46u8, 106, 115, 63]
}

/// `.js?`
pub fn lit_q_js() -> (r: Vec<u8>)
    ensures
        r@ == spec_q_js(),
{
    let v: Vec<u8> = vec![46u8, 106, 115, 63];
    proof {
        assert(v@ =~= spec_q_js());
    }
    v
}

/// `.mjs?`
pub open spec fn spec_q_mjs() -> Seq<u8> {
    seq![46u8, 109, 106, 115, 63]
}

/// `.mjs?`
pub fn lit_q_mjs() -> (r: Vec<u8>)
    ensures
        r@ == spec_q_mjs(),
{
    let v: Vec<u8> = vec![46u8, 109, 106, 115, 63];
    proof {
        assert(v@ =~= spec_q_mjs());
    }
    v
}

/// `.ts?`
pub open spec fn spec_q_ts() -> Seq<u8> {
    seq![46u8, 116, 115, 63]
}

/// `.ts?`
pub fn lit_q_ts() -> (r: Vec<u8>)
    ensures
        r@ == spec_q_ts(),
{
    let v: Vec<u8> = vec![46u8, 116, 115, 63];
    proof {
        assert(v@ =~= spec_q_ts());
    }
    v
}

/// `.tsx?`
pub open spec fn spec_q_tsx() -> Seq<u8> {
    seq![46u8, 116, 115, 120, 63]
}

/// `.tsx?`
pub fn lit_q_tsx() -> (r: Vec<u8>)
    ensures
        r@ == spec_q_tsx(),
{
    let v: Vec<u8> = vec![46u8, 116, 115, 120, 63];
    proof {
        assert(v@ =~= spec_q_tsx());
    }
    v
}

/// `/node_modules/.vite/deps/`
pub open spec fn spec_vite_deps() -> Seq<u8> {
    seq![47u8, 110, 111, 100, 101, 95, 109, 111, 100, 117, 108, 101, 115, 47, 46, 118, 105, 116, 101, 47, 100, 101, 112, 115, 47]
}

/// `/node_modules/.vite/deps/`
pub fn lit_vite_deps() -> (r: Vec<u8>)
    ensures
        r@ == spec_vite_deps(),
{
    let v: Vec<u8> = vec![47u8, 110, 111, 100, 101, 95, 109, 111, 100, 117, 108, 101, 115, 47, 46, 118, 105, 116, 101, 47, 100, 101, 112, 115, 47];
    proof {
        assert(v@ =~= spec_vite_deps());
    }
    v
}

/// `http://localhost:`
pub open spec fn spec_scheme_host() -> Seq<u8> {
    seq![104u8, 116, 116, 112, 58, 47, 47, 108, 111, 99, 97, 108, 104, 111, 115, 116, 58]
}

/// `http://localhost:`
pub fn lit_scheme_host() -> (r: Vec<u8>)
    ensures
        r@ == spec_scheme_host(),
{
    let v: Vec<u8> = vec![104u8, 116, 116, 112, 58, 47, 47, 108, 111, 99, 97, 108, 104, 111, 115, 116, 58];
    proof {
        assert(v@ =~= spec_scheme_host());
    }
    v
}

/// `localhost:`
pub open spec fn spec_host_prefix() -> Seq<u8> {
    seq![108u8, 111, 99, 97, 108, 104, 111, 115, 116, 58]
}

/// `localhost:`
pub fn lit_host_prefix() -> (r: Vec<u8>)
    ensures
        r@ == spec_host_prefix(),
{
    let v: Vec<u8> = vec![108u8, 111, 99, 97, 108, 104, 111, 115, 116, 58];
    proof {
        assert(v@ =~= spec_host_prefix());
    }
    v
}

/// `localhost`
pub open spec fn spec_localhost() -> Seq<u8> {
    seq![108u8, 111, 99, 97, 108, 104, 111, 115, 116]
}

/// `localhost`
pub fn lit_localhost() -> (r: Vec<u8>)
    ensures
        r@ == spec_localhost(),
{
    let v: Vec<u8> = vec![108u8, 111, 99, 97, 108, 104, 111, 115, 116];
    proof {
        assert(v@ =~= spec_localhost());
    }
    v
}

/// `127.0.0.1`
pub open spec fn spec_loopback() -> Seq<u8> {
    seq![49u8, 50, 55, 46, 48, 46, 48, 46, 49]
}

/// `127.0.0.1`
pub fn lit_loopback() -> (r: Vec<u8>)
    ensures
        r@ == spec_loopback(),
{
    let v: Vec<u8> = vec![49u8, 50, 55, 46, 48, 46, 48, 46, 49];
    proof {
        assert(v@ =~= spec_loopback());
    }
    v
}

/// `proxy error: backend server `
pub open spec fn spec_err_gateway_a() -> Seq<u8> {
    seq![112u8, 114, 111, 120, 121, 32, 101, 114, 114, 111, 114, 58, 32, 98, 97, 99, 107, 101, 110, 100, 32, 115, 101, 114, 118, 101, 114, 32]
}

/// `proxy error: backend server `
pub fn lit_err_gateway_a() -> (r: Vec<u8>)
    ensures
        r@ == spec_err_gateway_a(),
{
    let v: Vec<u8> = vec![112u8, 114, 111, 120, 121, 32, 101, 114, 114, 111, 114, 58, 32, 98, 97, 99, 107, 101, 110, 100, 32, 115, 101, 114, 118, 101, 114, 32];
    proof {
        assert(v@ =~= spec_err_gateway_a());
    }
    v
}

/// ` is not reachable\ndetails: `
pub open spec fn spec_err_gateway_b() -> Seq<u8> {
    seq![32u8, 105, 115, 32, 110, 111, 116, 32, 114, 101, 97, 99, 104, 97, 98, 108, 101, 10, 100, 101, 116, 97, 105, 108, 115, 58, 32]
}

/// ` is not reachable\ndetails: `
pub fn lit_err_gateway_b() -> (r: Vec<u8>)
    ensures
        r@ == spec_err_gateway_b(),
{
    let v: Vec<u8> = vec![32u8, 105, 115, 32, 110, 111, 116, 32, 114, 101, 97, 99, 104, 97, 98, 108, 101, 10, 100, 101, 116, 97, 105, 108, 115, 58, 32];
    proof {
        assert(v@ =~= spec_err_gateway_b());
    }
    v
}

/// `timeout: backend server `
pub open spec fn spec_err_timeout_a() -> Seq<u8> {
    seq![116u8, 105, 109, 101, 111, 117, 116, 58, 32, 98, 97, 99, 107, 101, 110, 100, 32, 115, 101, 114, 118, 101, 114, 32]
}

/// `timeout: backend server `
pub fn lit_err_timeout_a() -> (r: Vec<u8>)
    ensures
        r@ == spec_err_timeout_a(),
{
    let v: Vec<u8> = vec![116u8, 105, 109, 101, 111, 117, 116, 58, 32, 98, 97, 99, 107, 101, 110, 100, 32, 115, 101, 114, 118, 101, 114, 32];
    proof {
        assert(v@ =~= spec_err_timeout_a());
    }
    v
}

/// ` did not respond within 10 seconds`
pub open spec fn spec_err_timeout_b() -> Seq<u8> {
    seq![32u8, 100, 105, 100, 32, 110, 111, 116, 32, 114, 101, 115, 112, 111, 110, 100, 32, 119, 105, 116, 104, 105, 110, 32, 49, 48, 32, 115, 101, 99, 111, 110, 100, 115]
}

/// ` did not respond within 10 seconds`
pub fn lit_err_timeout_b() -> (r: Vec<u8>)
    ensures
        r@ == spec_err_timeout_b(),
{
    let v: Vec<u8> = vec![32u8, 100, 105, 100, 32, 110, 111, 116, 32, 114, 101, 115, 112, 111, 110, 100, 32, 119, 105, 116, 104, 105, 110, 32, 49, 48, 32, 115, 101, 99, 111, 110, 100, 115];
    proof {
        assert(v@ =~= spec_err_timeout_b());
    }
    v
}

/// `failed to read the backend response body`
pub open spec fn spec_err_body_read() -> Seq<u8> {
    seq![102u8, 97, 105, 108, 101, 100, 32, 116, 111, 32, 114, 101, 97, 100, 32, 116, 104, 101, 32, 98, 97, 99, 107, 101, 110, 100, 32, 114, 101, 115, 112, 111, 110, 115, 101, 32, 98, 111, 100, 121]
}

/// `failed to read the backend response body`
pub fn lit_err_body_read() -> (r: Vec<u8>)
    ensures
        r@ == spec_err_body_read(),
{
    let v: Vec<u8> = vec![102u8, 97, 105, 108, 101, 100, 32, 116, 111, 32, 114, 101, 97, 100, 32, 116, 104, 101, 32, 98, 97, 99, 107, 101, 110, 100, 32, 114, 101, 115, 112, 111, 110, 115, 101, 32, 98, 111, 100, 121];
    proof {
        assert(v@ =~= spec_err_body_read());
    }
    v
}

/// `http`
pub open spec fn spec_proto_http() -> Seq<u8> {
    seq![104u8, 116, 116, 112]
}

/// `http`
pub fn lit_proto_http() -> (r: Vec<u8>)
    ensures
        r@ == spec_proto_http(),
{
    let v: Vec<u8> = vec![104u8, 116, 116, 112];
    proof {
        assert(v@ =~= spec_proto_http());
    }
    v
}

/// `content-security-policy`
pub open spec fn spec_hdr_csp() -> Seq<u8> {
    seq![99u8, 111, 110, 116, 101, 110, 116, 45, 115, 101, 99, 117, 114, 105, 116, 121, 45, 112, 111, 108, 105, 99, 121]
}

/// `content-security-policy`
pub fn lit_hdr_csp() -> (r: Vec<u8>)
    ensures
        r@ == spec_hdr_csp(),
{
    let v: Vec<u8> = vec![99u8, 111, 110, 116, 101, 110, 116, 45, 115, 101, 99, 117, 114, 105, 116, 121, 45, 112, 111, 108, 105, 99, 121];
    proof {
        assert(v@ =~= spec_hdr_csp());
    }
    v
}

/// `content-security-policy-report-only`
pub open spec fn spec_hdr_csp_ro() -> Seq<u8> {
    seq![99u8, 111, 110, 116, 101, 110, 116, 45, 115, 101, 99, 117, 114, 105, 116, 121, 45, 112, 111, 108, 105, 99, 121, 45, 114, 101, 112, 111, 114, 116, 45, 111, 110, 108, 121]
}

/// `content-security-policy-report-only`
pub fn lit_hdr_csp_ro() -> (r: Vec<u8>)
    ensures
        r@ == spec_hdr_csp_ro(),
{
    let v: Vec<u8> = vec![99u8, 111, 110, 116, 101, 110, 116, 45, 115, 101, 99, 117, 114, 105, 116, 121, 45, 112, 111, 108, 105, 99, 121, 45, 114, 101, 112, 111, 114, 116, 45, 111, 110, 108, 121];
    proof {
        assert(v@ =~= spec_hdr_csp_ro());
    }
    v
}

/// `cross-origin`
pub open spec fn spec_cross_origin() -> Seq<u8> {
    seq![99u8, 114, 111, 115, 115, 45, 111, 114, 105, 103, 105, 110]
}

/// `cross-origin`
pub fn lit_cross_origin() -> (r: Vec<u8>)
    ensures
        r@ == spec_cross_origin(),
{
    let v: Vec<u8> = vec![99u8, 114, 111, 115, 115, 45, 111, 114, 105, 103, 105, 110];
    proof {
        assert(v@ =~= spec_cross_origin());
    }
    v
}
} // verus!