//! The body-rewriting pass.
//!
//! A pattern is a literal lead ending in `/` (for example `src="/`).  The
//! pass scans the body left to right; at each occurrence of the pattern it
//! either leaves the reference alone — when the path already starts with
//! the reserved `proxy/` segment, which is the double-prefix guard that
//! makes the pass idempotent — or splices the proxy prefix
//! `proxy/<encoded-name>/` in right after the pattern's `/`.
//!
//! The HTML pass additionally inserts a `<base>` element after the first
//! `<head>` (or synthesizes a head right after the opening `<html...>` tag)
//! and removes `<meta http-equiv=...Content-Security-Policy...>` elements.

use vstd::prelude::*;

use crate::bytes::{
    find_first, find_first_ci, first_match, first_match_ci, is_prefix_of, is_suffix_of,
    lemma_match_at_skip, match_at, match_at_ci, push_all, push_range, starts_at,
};
use crate::lits::{
    lit_base_close, lit_base_open, lit_gt, lit_head_close, lit_head_lc, lit_html_open, lit_meta_csp_dq, lit_meta_csp_sq, lit_pat_dynimport_dq, lit_pat_dynimport_sq,
    lit_pat_fetch_dq, lit_pat_fetch_sq, lit_pat_from_dq, lit_pat_from_sq, lit_pat_href_dq,
    lit_pat_href_sq, lit_pat_import_dq, lit_pat_import_sq, lit_pat_open_get_dq,
    lit_pat_open_get_sq, lit_pat_open_post_dq, lit_pat_open_post_sq, lit_pat_src_dq,
    lit_pat_src_sq, lit_pat_url_bare, lit_pat_url_dq, lit_pat_url_sq, lit_proxy_seg,
    spec_base_close, spec_base_open, spec_gt, spec_head_close, spec_head_lc, spec_html_open, spec_meta_csp_dq, spec_meta_csp_sq, spec_pat_dynimport_dq,
    spec_pat_dynimport_sq, spec_pat_fetch_dq, spec_pat_fetch_sq, spec_pat_from_dq,
    spec_pat_from_sq, spec_pat_href_dq, spec_pat_href_sq, spec_pat_import_dq, spec_pat_import_sq,
    spec_pat_open_get_dq, spec_pat_open_get_sq, spec_pat_open_post_dq, spec_pat_open_post_sq,
    spec_pat_src_dq, spec_pat_src_sq, spec_pat_url_bare, spec_pat_url_dq, spec_pat_url_sq,
    spec_proxy_seg,
};

verus! {

/// One rewriting step over the whole body for a single pattern `p`
/// (a lead ending in `/`) and encoded target name `e`: occurrences of
/// `p` already followed by `proxy/` are copied, any other occurrence of
/// `p` gets `proxy/<e>/` spliced in after it.
pub open spec fn rw(s: Seq<u8>, p: Seq<u8>, e: Seq<u8>) -> Seq<u8>
    decreases s.len(),
{
    if p.len() == 0 || s.len() < p.len() {
        s
    } else if is_prefix_of(p + spec_proxy_seg(), s) {
        (p + spec_proxy_seg()) + rw(s.skip(p.len() + spec_proxy_seg().len() as int), p, e)
    } else if is_prefix_of(p, s) {
        (p + spec_proxy_seg()) + e + seq![47u8] + rw(s.skip(p.len() as int), p, e)
    } else {
        seq![s[0]] + rw(s.skip(1), p, e)
    }
}

pub proof fn lemma_skip_skip(s: Seq<u8>, a: int, b: int)
    requires
        0 <= a,
        0 <= b,
        a + b <= s.len(),
    ensures
        s.skip(a).skip(b) == s.skip(a + b),
{
    assert(s.skip(a).skip(b) =~= s.skip(a + b));
}

pub proof fn lemma_concat_parts(a: Seq<u8>, b: Seq<u8>)
    ensures
        is_prefix_of(a, a + b),
        (a + b).skip(a.len() as int) == b,
{
    assert((a + b).subrange(0, a.len() as int) =~= a);
    assert((a + b).skip(a.len() as int) =~= b);
}

/// Apply one pattern pass to `s`.
pub fn apply_pattern(s: &Vec<u8>, p: &Vec<u8>, e: &Vec<u8>) -> (r: Vec<u8>)
    requires
        p.len() >= 1,
    ensures
        r@ == rw(s@, p@, e@),
{
    // the already-rewritten form of the pattern, and the insertion block
    let mut pk: Vec<u8> = Vec::new();
    push_all(&mut pk, p);
    let seg = lit_proxy_seg();
    push_all(&mut pk, &seg);
    let mut ins: Vec<u8> = Vec::new();
    push_all(&mut ins, &pk);
    push_all(&mut ins, e);
    ins.push(47u8);
    assert(ins@ =~= (p@ + spec_proxy_seg()) + e@ + seq![47u8]);

    let mut out: Vec<u8> = Vec::new();
    let mut i: usize = 0;
    proof {
        assert(s@.skip(0) =~= s@);
        assert(Seq::<u8>::empty() + rw(s@, p@, e@) =~= rw(s@, p@, e@));
    }
    while i < s.len()
        invariant
            p.len() >= 1,
            0 <= i <= s.len(),
            pk@ == p@ + spec_proxy_seg(),
            ins@ == (p@ + spec_proxy_seg()) + e@ + seq![47u8],
            rw(s@, p@, e@) == out@ + rw(s@.skip(i as int), p@, e@),
        decreases s.len() - i,
    {
        let ghost rest = s@.skip(i as int);
        if starts_at(s, &pk, i) {
            proof {
                lemma_match_at_skip(s@, pk@, i as int);
                lemma_skip_skip(s@, i as int, pk@.len() as int);
                assert(rw(rest, p@, e@) == pk@ + rw(s@.skip(i + pk@.len()), p@, e@));
            }
            push_all(&mut out, &pk);
            i += pk.len();
        } else if starts_at(s, p, i) {
            proof {
                lemma_match_at_skip(s@, pk@, i as int);
                lemma_match_at_skip(s@, p@, i as int);
                lemma_skip_skip(s@, i as int, p@.len() as int);
                assert(rw(rest, p@, e@) == ins@ + rw(s@.skip(i + p@.len()), p@, e@));
            }
            push_all(&mut out, &ins);
            i += p.len();
        } else {
            proof {
                lemma_match_at_skip(s@, pk@, i as int);
                lemma_match_at_skip(s@, p@, i as int);
                lemma_skip_skip(s@, i as int, 1);
                assert(seq![s@[i as int]] + s@.skip(i + 1) =~= rest);
                if rest.len() < p@.len() {
                    assert(rw(s@.skip(i + 1), p@, e@) == s@.skip(i + 1));
                    assert(rw(rest, p@, e@) == seq![s@[i as int]] + rw(s@.skip(i + 1), p@, e@));
                } else {
                    assert(rw(rest, p@, e@) == seq![s@[i as int]] + rw(s@.skip(i + 1), p@, e@));
                }
            }
            let c = s[i];
            out.push(c);
            i += 1;
        }
        proof {
            assert(out@ + rw(s@.skip(i as int), p@, e@) =~= rw(s@, p@, e@));
        }
    }
    proof {
        assert(s@.skip(i as int) =~= Seq::<u8>::empty());
        assert(rw(Seq::<u8>::empty(), p@, e@) == Seq::<u8>::empty());
        assert(out@ + Seq::<u8>::empty() =~= out@);
    }
    out
}

/// `s[a..b]` on its own.
pub fn copy_range(s: &Vec<u8>, a: usize, b: usize) -> (r: Vec<u8>)
    requires
        a <= b <= s.len(),
    ensures
        r@ == s@.subrange(a as int, b as int),
{
    let mut out: Vec<u8> = Vec::new();
    push_range(&mut out, s, a, b);
    assert(Seq::<u8>::empty() + s@.subrange(a as int, b as int) =~= s@.subrange(
        a as int,
        b as int,
    ));
    out
}

/// The `<base>` element for a target whose encoded name is `e`.
pub open spec fn base_tag(e: Seq<u8>) -> Seq<u8> {
    spec_base_open() + e + spec_base_close()
}

/// The body with the `<base>` element inserted: right after the first
/// `<head>` (a case-sensitive, then a case-insensitive attempt), or as
/// a synthesized head right after the opening `<html...>` tag, or
/// unchanged when neither anchor exists.
pub open spec fn with_base(h: Seq<u8>, e: Seq<u8>) -> Seq<u8> {
    let lc = spec_head_lc();
    match first_match(h, lc) {
        Some(i) => h.subrange(0, i + lc.len()) + base_tag(e) + h.skip(i + lc.len()),
        None => match first_match_ci(h, lc) {
            Some(i) => h.subrange(0, i + lc.len()) + base_tag(e) + h.skip(i + lc.len()),
            None => match first_match(h, spec_html_open()) {
                Some(i) => match first_match(h.skip(i), spec_gt()) {
                    Some(j) => h.subrange(0, i + j + 1) + spec_head_lc() + base_tag(e)
                        + spec_head_close() + h.skip(i + j + 1),
                    None => h,
                },
                None => h,
            },
        },
    }
}

/// The body with every occurrence of the element opened by `pat`
/// removed, each up to and including the next `>`, repeated until none
/// is left; unchanged once `pat` does not occur or no `>` follows it.
pub open spec fn without_elements(h: Seq<u8>, pat: Seq<u8>) -> Seq<u8>
    decreases h.len(),
{
    match first_match(h, pat) {
        Some(i) => match first_match(h.skip(i), spec_gt()) {
            Some(j) => if 0 <= i && 0 <= j && i + j + 1 <= h.len() {
                without_elements(h.subrange(0, i) + h.skip(i + j + 1), pat)
            } else {
                h
            },
            None => h,
        },
        None => h,
    }
}

/// Insert the `<base>` element for encoded name `e` into `h`.
pub fn insert_base(h: &Vec<u8>, e: &Vec<u8>) -> (r: Vec<u8>)
    ensures
        r@ == with_base(h@, e@),
{
    let lc = lit_head_lc();
    let mut tag: Vec<u8> = lit_base_open();
    push_all(&mut tag, e);
    let close = lit_base_close();
    push_all(&mut tag, &close);
    assert(tag@ =~= base_tag(e@));
    if let Some(i) = find_first(h, &lc) {
        proof {
            crate::bytes::lemma_first_match(h@, lc@);
            assert(match_at(h@, lc@, i as int));
        }
        let total = h.len();
        assert(i + lc@.len() <= total);
        let cut: usize = i + lc.len();
        let mut out = copy_range(h, 0, cut);
        push_all(&mut out, &tag);
        push_range(&mut out, h, cut, h.len());
        assert(out@ =~= with_base(h@, e@));
        return out;
    }
    if let Some(i) = find_first_ci(h, &lc) {
        proof {
            crate::bytes::lemma_first_match_ci(h@, lc@);
            assert(match_at_ci(h@, lc@, i as int));
        }
        let total = h.len();
        assert(i + lc@.len() <= total);
        let cut: usize = i + lc.len();
        let mut out = copy_range(h, 0, cut);
        push_all(&mut out, &tag);
        push_range(&mut out, h, cut, h.len());
        assert(out@ =~= with_base(h@, e@));
        return out;
    }
    let ho = lit_html_open();
    if let Some(i) = find_first(h, &ho) {
        proof {
            crate::bytes::lemma_first_match(h@, ho@);
        }
        let suffix = copy_range(h, i, h.len());
        assert(suffix@ =~= h@.skip(i as int));
        let gt = lit_gt();
        if let Some(j) = find_first(&suffix, &gt) {
            proof {
                crate::bytes::lemma_first_match(suffix@, gt@);
            }
            let cut: usize = i + j + 1;
            let mut out = copy_range(h, 0, cut);
            let hl = lit_head_lc();
            push_all(&mut out, &hl);
            push_all(&mut out, &tag);
            let hc = lit_head_close();
            push_all(&mut out, &hc);
            push_range(&mut out, h, cut, h.len());
            assert(out@ =~= with_base(h@, e@));
            return out;
        }
        let mut out: Vec<u8> = Vec::new();
        push_all(&mut out, h);
        assert(out@ =~= h@);
        return out;
    }
    let mut out: Vec<u8> = Vec::new();
    push_all(&mut out, h);
    assert(out@ =~= h@);
    out
}

/// Remove every element opened by `pat`, each up to the next `>`.
pub fn remove_elements(h: &Vec<u8>, pat: &Vec<u8>) -> (r: Vec<u8>)
    ensures
        r@ == without_elements(h@, pat@),
    decreases h@.len(),
{
    if let Some(i) = find_first(h, pat) {
        proof {
            crate::bytes::lemma_first_match(h@, pat@);
            assert(match_at(h@, pat@, i as int));
        }
        let suffix = copy_range(h, i, h.len());
        assert(suffix@ =~= h@.skip(i as int));
        let gt = lit_gt();
        if let Some(j) = find_first(&suffix, &gt) {
            proof {
                crate::bytes::lemma_first_match(suffix@, gt@);
                assert(match_at(suffix@, gt@, j as int));
            }
            let total = h.len();
            assert(i + j + 1 <= total);
            let cut: usize = i + j + 1;
            let mut shorter = copy_range(h, 0, i);
            push_range(&mut shorter, h, cut, h.len());
            assert(shorter@ =~= h@.subrange(0, i as int) + h@.skip(cut as int));
            return remove_elements(&shorter, pat);
        }
    }
    let mut out: Vec<u8> = Vec::new();
    push_all(&mut out, h);
    assert(out@ =~= h@);
    out
}

/// The ten literal patterns of the HTML pass, applied in order.
pub open spec fn html_pattern_pass(b: Seq<u8>, e: Seq<u8>) -> Seq<u8> {
    let b1 = rw(b, spec_pat_src_dq(), e);
    let b2 = rw(b1, spec_pat_href_dq(), e);
    let b3 = rw(b2, spec_pat_src_sq(), e);
    let b4 = rw(b3, spec_pat_href_sq(), e);
    let b5 = rw(b4, spec_pat_fetch_sq(), e);
    let b6 = rw(b5, spec_pat_fetch_dq(), e);
    let b7 = rw(b6, spec_pat_open_get_sq(), e);
    let b8 = rw(b7, spec_pat_open_post_sq(), e);
    let b9 = rw(b8, spec_pat_open_get_dq(), e);
    rw(b9, spec_pat_open_post_dq(), e)
}

/// The full HTML pass: `<base>` insertion, removal of both quoted forms
/// of the CSP `<meta>` element, then the pattern passes.
pub open spec fn html_rewritten(b: Seq<u8>, e: Seq<u8>) -> Seq<u8> {
    html_pattern_pass(
        without_elements(
            without_elements(with_base(b, e), spec_meta_csp_dq()),
            spec_meta_csp_sq(),
        ),
        e,
    )
}

/// The five literal patterns of the CSS pass, applied in order.
pub open spec fn css_rewritten(b: Seq<u8>, e: Seq<u8>) -> Seq<u8> {
    let b1 = rw(b, spec_pat_url_sq(), e);
    let b2 = rw(b1, spec_pat_url_dq(), e);
    let b3 = rw(b2, spec_pat_url_bare(), e);
    let b4 = rw(b3, spec_pat_import_sq(), e);
    rw(b4, spec_pat_import_dq(), e)
}

/// The four literal patterns of the JavaScript/TypeScript pass,
/// applied in order.
pub open spec fn js_rewritten(b: Seq<u8>, e: Seq<u8>) -> Seq<u8> {
    let b1 = rw(b, spec_pat_from_sq(), e);
    let b2 = rw(b1, spec_pat_from_dq(), e);
    let b3 = rw(b2, spec_pat_dynimport_sq(), e);
    rw(b3, spec_pat_dynimport_dq(), e)
}

/// Rewrite an HTML body for the target whose encoded name is `e`.
pub fn rewrite_html(b: &Vec<u8>, e: &Vec<u8>) -> (r: Vec<u8>)
    ensures
        r@ == html_rewritten(b@, e@),
{
    let based = insert_base(b, e);
    let m1 = lit_meta_csp_dq();
    let stripped1 = remove_elements(&based, &m1);
    let m2 = lit_meta_csp_sq();
    let stripped = remove_elements(&stripped1, &m2);
    let p1 = lit_pat_src_dq();
    let b1 = apply_pattern(&stripped, &p1, e);
    let p2 = lit_pat_href_dq();
    let b2 = apply_pattern(&b1, &p2, e);
    let p3 = lit_pat_src_sq();
    let b3 = apply_pattern(&b2, &p3, e);
    let p4 = lit_pat_href_sq();
    let b4 = apply_pattern(&b3, &p4, e);
    let p5 = lit_pat_fetch_sq();
    let b5 = apply_pattern(&b4, &p5, e);
    let p6 = lit_pat_fetch_dq();
    let b6 = apply_pattern(&b5, &p6, e);
    let p7 = lit_pat_open_get_sq();
    let b7 = apply_pattern(&b6, &p7, e);
    let p8 = lit_pat_open_post_sq();
    let b8 = apply_pattern(&b7, &p8, e);
    let p9 = lit_pat_open_get_dq();
    let b9 = apply_pattern(&b8, &p9, e);
    let p10 = lit_pat_open_post_dq();
    apply_pattern(&b9, &p10, e)
}

/// Rewrite a CSS body for the target whose encoded name is `e`.
pub fn rewrite_css(b: &Vec<u8>, e: &Vec<u8>) -> (r: Vec<u8>)
    ensures
        r@ == css_rewritten(b@, e@),
{
    let p1 = lit_pat_url_sq();
    let b1 = apply_pattern(b, &p1, e);
    let p2 = lit_pat_url_dq();
    let b2 = apply_pattern(&b1, &p2, e);
    let p3 = lit_pat_url_bare();
    let b3 = apply_pattern(&b2, &p3, e);
    let p4 = lit_pat_import_sq();
    let b4 = apply_pattern(&b3, &p4, e);
    let p5 = lit_pat_import_dq();
    apply_pattern(&b4, &p5, e)
}

/// Rewrite a JavaScript/TypeScript body for the target whose encoded
/// name is `e`.
pub fn rewrite_js(b: &Vec<u8>, e: &Vec<u8>) -> (r: Vec<u8>)
    ensures
        r@ == js_rewritten(b@, e@),
{
    let p1 = lit_pat_from_sq();
    let b1 = apply_pattern(b, &p1, e);
    let p2 = lit_pat_from_dq();
    let b2 = apply_pattern(&b1, &p2, e);
    let p3 = lit_pat_dynimport_sq();
    let b3 = apply_pattern(&b2, &p3, e);
    let p4 = lit_pat_dynimport_dq();
    apply_pattern(&b3, &p4, e)
}

/// A well-formed pattern: a nonempty lead closed by a single trailing `/`,
/// whose first byte occurs nowhere else in the pattern.  Every literal
/// pattern of the proxy has this shape.
pub open spec fn pat_ok(p: Seq<u8>) -> bool {
    &&& p.len() >= 2
    &&& p[p.len() - 1] == 47u8
    &&& (forall|i: int| 0 <= i < p.len() - 1 ==> p[i] != 47u8)
    &&& (forall|i: int| 1 <= i < p.len() ==> #[trigger] p[i] != p[0])
}

/// The encoded target name contains no `/` and nothing equal to the
/// lead's closing byte (a quote or parenthesis); percent-encoding
/// guarantees both.
pub open spec fn enc_ok(p: Seq<u8>, e: Seq<u8>) -> bool {
    forall|i: int| 0 <= i < e.len() ==> e[i] != 47u8 && e[i] != p[p.len() - 2]
}

pub proof fn lemma_prefix_left(a: Seq<u8>, b: Seq<u8>, s: Seq<u8>)
    requires
        is_prefix_of(a + b, s),
    ensures
        is_prefix_of(a, s),
{
    assert(s.subrange(0, a.len() as int) =~= (a + b).subrange(0, a.len() as int));
    assert((a + b).subrange(0, a.len() as int) =~= a);
}

/// Scanning a stretch that holds no occurrence of the pattern copies it.
pub proof fn lemma_copy_through(u: Seq<u8>, t: Seq<u8>, p: Seq<u8>, e: Seq<u8>)
    requires
        p.len() >= 1,
        forall|j: int| 0 <= j < u.len() ==> !is_prefix_of(p, #[trigger] (u + t).skip(j)),
    ensures
        rw(u + t, p, e) == u + rw(t, p, e),
    decreases u.len(),
{
    let s = u + t;
    if u.len() == 0 {
        assert(s =~= t);
        assert(u + rw(t, p, e) =~= rw(t, p, e));
    } else {
        assert(!is_prefix_of(p, s.skip(0)));
        assert(s.skip(0) =~= s);
        if s.len() < p.len() {
            assert(rw(s, p, e) == s);
            assert(t.len() < p.len());
            assert(rw(t, p, e) == t);
        } else {
            if is_prefix_of(p + spec_proxy_seg(), s) {
                lemma_prefix_left(p, spec_proxy_seg(), s);
                assert(false);
            }
            assert(rw(s, p, e) == seq![s[0]] + rw(s.skip(1), p, e));
            let u1 = u.skip(1);
            assert(s.skip(1) =~= u1 + t);
            assert forall|j: int| 0 <= j < u1.len() implies !is_prefix_of(
                p,
                #[trigger] (u1 + t).skip(j),
            ) by {
                assert(!is_prefix_of(p, s.skip(j + 1)));
                lemma_skip_skip(s, 1, j);
                assert((u1 + t).skip(j) == s.skip(1).skip(j));
            }
            lemma_copy_through(u1, t, p, e);
            assert(seq![s[0]] + (u1 + rw(t, p, e)) =~= u + rw(t, p, e));
        }
    }
}

/// No occurrence of the pattern can begin inside the spliced block
/// `<encoded-name>/`, whatever follows it.
pub proof fn lemma_enc_no_match(e: Seq<u8>, t: Seq<u8>, p: Seq<u8>, j: int)
    requires
        pat_ok(p),
        enc_ok(p, e),
        0 <= j < e.len() + 1,
    ensures
        !is_prefix_of(p, (e + seq![47u8] + t).skip(j)),
{
    let u = e + seq![47u8];
    let s = u + t;
    if is_prefix_of(p, s.skip(j)) {
        let w = s.skip(j);
        assert(w.subrange(0, p.len() as int) == p);
        assert(forall|m: int|
            0 <= m < p.len() ==> w.subrange(0, p.len() as int)[m] == #[trigger] w[m]);
        if j == e.len() {
            // the occurrence would have to start at the separator slash
            assert(w[0] == s[j]);
            assert(s[j] == u[j]);
            assert(u[e.len() as int] == 47u8);
            assert(p[0] != 47u8);
            assert(false);
        } else if j + p.len() <= e.len() {
            // the pattern would lie wholly inside the name, slash and all
            assert(w[p.len() - 1] == s[j + p.len() - 1]);
            assert(s[j + p.len() - 1] == e[j + p.len() - 1]);
            assert(e[j + p.len() - 1] != 47u8);
            assert(p[p.len() - 1] == 47u8);
            assert(false);
        } else {
            // the occurrence covers the separator slash: the slash can only
            // be the pattern's last byte, so the lead would end at the
            // name's last byte, which percent-encoding rules out
            let m = e.len() - j;
            assert(0 < m < p.len());
            assert(w[m] == s[j + m]);
            assert(s[j + m] == u[e.len() as int]);
            assert(u[e.len() as int] == 47u8);
            assert(p[m] == 47u8);
            assert(m == p.len() - 1);
            assert(w[p.len() - 2] == s[j + p.len() - 2]);
            assert(j + p.len() - 2 == e.len() - 1);
            assert(s[e.len() - 1] == e[e.len() - 1]);
            assert(e[e.len() - 1] != p[p.len() - 2]);
            assert(false);
        }
    }
}

/// If the output of a pass begins with a tail `p[j..]` of the pattern,
/// the input already did: a pass never shifts an occurrence into view.
pub proof fn lemma_noshift(t: Seq<u8>, p: Seq<u8>, e: Seq<u8>, j: int)
    requires
        pat_ok(p),
        1 <= j < p.len(),
        is_prefix_of(p.skip(j), rw(t, p, e)),
    ensures
        is_prefix_of(p.skip(j), t),
    decreases t.len(),
{
    let q = p.skip(j);
    let r = rw(t, p, e);
    assert(q.len() == p.len() - j);
    assert(r.subrange(0, q.len() as int) == q);
    assert(forall|m: int|
        0 <= m < q.len() ==> r.subrange(0, q.len() as int)[m] == #[trigger] r[m]);
    assert(r[0] == q[0]);
    assert(q[0] == p[j]);
    if t.len() < p.len() {
        // the pass copied t unchanged
    } else if is_prefix_of(p + spec_proxy_seg(), t) {
        assert(r[0] == (p + spec_proxy_seg())[0]);
        assert(p[j] != p[0]);
        assert(false);
    } else if is_prefix_of(p, t) {
        assert(r[0] == (p + spec_proxy_seg())[0]);
        assert(p[j] != p[0]);
        assert(false);
    } else {
        assert(r == seq![t[0]] + rw(t.skip(1), p, e));
        assert(t[0] == p[j]);
        if j == p.len() - 1 {
            assert(t.subrange(0, q.len() as int) =~= q);
        } else {
            let r1 = rw(t.skip(1), p, e);
            assert(r1.len() >= q.len() - 1);
            assert(is_prefix_of(p.skip(j + 1), r1)) by {
                assert forall|m: int| 0 <= m < p.len() - j - 1 implies #[trigger] r1[m] == p.skip(
                    j + 1,
                )[m] by {
                    assert(r[m + 1] == q[m + 1]);
                    assert(r1[m] == r[m + 1]);
                }
                assert(r1.subrange(0, (p.len() - j - 1) as int) =~= p.skip(j + 1));
            }
            lemma_noshift(t.skip(1), p, e, j + 1);
            assert forall|m: int| 0 <= m < q.len() implies #[trigger] t[m] == q[m] by {
                if m >= 1 {
                    assert(t.skip(1).subrange(0, (p.len() - j - 1) as int)[m - 1] == p.skip(
                        j + 1,
                    )[m - 1]);
                    assert(t[m] == t.skip(1)[m - 1]);
                }
            }
            assert(t.subrange(0, q.len() as int) =~= q);
        }
    }
}

/// A pass never brings a fresh occurrence of the pattern to the front.
pub proof fn lemma_head_not_match(s: Seq<u8>, p: Seq<u8>, e: Seq<u8>)
    requires
        pat_ok(p),
        s.len() >= p.len(),
        !is_prefix_of(p, s),
    ensures
        !is_prefix_of(p, seq![s[0]] + rw(s.skip(1), p, e)),
{
    let r1 = rw(s.skip(1), p, e);
    let r2 = seq![s[0]] + r1;
    if is_prefix_of(p, r2) {
        assert(r2.subrange(0, p.len() as int) == p);
        assert(forall|m: int|
            0 <= m < p.len() ==> r2.subrange(0, p.len() as int)[m] == #[trigger] r2[m]);
        assert(s[0] == p[0]);
        assert(is_prefix_of(p.skip(1), r1)) by {
            assert forall|m: int| 0 <= m < p.len() - 1 implies #[trigger] r1[m] == p.skip(1)[m] by {
                assert(r2[m + 1] == p[m + 1]);
                assert(r1[m] == r2[m + 1]);
            }
            assert(r1.subrange(0, (p.len() - 1) as int) =~= p.skip(1));
        }
        lemma_noshift(s.skip(1), p, e, 1);
        assert forall|m: int| 0 <= m < p.len() implies #[trigger] s[m] == p[m] by {
            if m >= 1 {
                assert(s.skip(1).subrange(0, (p.len() - 1) as int)[m - 1] == p.skip(1)[m - 1]);
                assert(s[m] == s.skip(1)[m - 1]);
            }
        }
        assert(s.subrange(0, p.len() as int) =~= p);
        assert(false);
    }
}

/// The pattern pass is idempotent: a second pass over already-rewritten
/// content changes nothing, because every occurrence of the pattern in the
/// output is already followed by the reserved `proxy/` segment and the
/// double-prefix guard copies it.
pub proof fn lemma_rw_idempotent(s: Seq<u8>, p: Seq<u8>, e: Seq<u8>)
    requires
        pat_ok(p),
        enc_ok(p, e),
    ensures
        rw(rw(s, p, e), p, e) == rw(s, p, e),
    decreases s.len(),
{
    let pk = p + spec_proxy_seg();
    let r = rw(s, p, e);
    if s.len() < p.len() {
        assert(r == s);
    } else if is_prefix_of(pk, s) {
        let s1 = s.skip(pk.len() as int);
        assert(r == pk + rw(s1, p, e));
        lemma_rw_idempotent(s1, p, e);
        lemma_concat_parts(pk, rw(s1, p, e));
        assert(r.len() >= p.len());
        assert(rw(r, p, e) == pk + rw(r.skip(pk.len() as int), p, e));
        assert(r.skip(pk.len() as int) == rw(s1, p, e));
    } else if is_prefix_of(p, s) {
        let s1 = s.skip(p.len() as int);
        let u = e + seq![47u8];
        let t1 = rw(s1, p, e);
        assert(r == pk + e + seq![47u8] + t1);
        lemma_rw_idempotent(s1, p, e);
        let tail = u + t1;
        assert(r =~= pk + tail);
        lemma_concat_parts(pk, tail);
        assert(is_prefix_of(pk, r));
        assert(r.skip(pk.len() as int) == tail);
        assert(rw(r, p, e) == pk + rw(tail, p, e));
        assert forall|j: int| 0 <= j < u.len() implies !is_prefix_of(
            p,
            #[trigger] (u + t1).skip(j),
        ) by {
            lemma_enc_no_match(e, t1, p, j);
        }
        lemma_copy_through(u, t1, p, e);
        assert(rw(tail, p, e) == u + rw(t1, p, e));
        assert(pk + (u + t1) =~= pk + e + seq![47u8] + t1);
    } else {
        let s1 = s.skip(1);
        let t1 = rw(s1, p, e);
        assert(r == seq![s[0]] + t1);
        lemma_rw_idempotent(s1, p, e);
        lemma_head_not_match(s, p, e);
        if r.len() < p.len() {
            assert(rw(r, p, e) == r);
        } else {
            if is_prefix_of(pk, r) {
                lemma_prefix_left(p, spec_proxy_seg(), r);
                assert(false);
            }
            assert(rw(r, p, e) == seq![r[0]] + rw(r.skip(1), p, e));
            lemma_concat_parts(seq![s[0]], t1);
            assert(r.skip(1) =~= t1);
            assert(r[0] == s[0]);
        }
    }
}

/// Every literal pattern of the three passes is well-formed, and each
/// ends its lead in a quote or parenthesis, which percent-encoding
/// never emits.
pub proof fn lemma_patterns_wf()
    ensures
        pat_ok(spec_pat_src_dq()) && !crate::outside::enc_byte(spec_pat_src_dq()[4]),
        pat_ok(spec_pat_href_dq()) && !crate::outside::enc_byte(spec_pat_href_dq()[5]),
        pat_ok(spec_pat_src_sq()) && !crate::outside::enc_byte(spec_pat_src_sq()[4]),
        pat_ok(spec_pat_href_sq()) && !crate::outside::enc_byte(spec_pat_href_sq()[5]),
        pat_ok(spec_pat_fetch_sq()) && !crate::outside::enc_byte(spec_pat_fetch_sq()[6]),
        pat_ok(spec_pat_fetch_dq()) && !crate::outside::enc_byte(spec_pat_fetch_dq()[6]),
        pat_ok(spec_pat_open_get_sq()) && !crate::outside::enc_byte(spec_pat_open_get_sq()[13]),
        pat_ok(spec_pat_open_post_sq()) && !crate::outside::enc_byte(spec_pat_open_post_sq()[14]),
        pat_ok(spec_pat_open_get_dq()) && !crate::outside::enc_byte(spec_pat_open_get_dq()[13]),
        pat_ok(spec_pat_open_post_dq()) && !crate::outside::enc_byte(spec_pat_open_post_dq()[14]),
        pat_ok(spec_pat_url_sq()) && !crate::outside::enc_byte(spec_pat_url_sq()[4]),
        pat_ok(spec_pat_url_dq()) && !crate::outside::enc_byte(spec_pat_url_dq()[4]),
        pat_ok(spec_pat_url_bare()) && !crate::outside::enc_byte(spec_pat_url_bare()[3]),
        pat_ok(spec_pat_import_sq()) && !crate::outside::enc_byte(spec_pat_import_sq()[8]),
        pat_ok(spec_pat_import_dq()) && !crate::outside::enc_byte(spec_pat_import_dq()[8]),
        pat_ok(spec_pat_from_sq()) && !crate::outside::enc_byte(spec_pat_from_sq()[5]),
        pat_ok(spec_pat_from_dq()) && !crate::outside::enc_byte(spec_pat_from_dq()[5]),
        pat_ok(spec_pat_dynimport_sq()) && !crate::outside::enc_byte(spec_pat_dynimport_sq()[7]),
        pat_ok(spec_pat_dynimport_dq()) && !crate::outside::enc_byte(spec_pat_dynimport_dq()[7]),
{
}

/// A percent-encoded name is safe beside any well-formed pattern whose
/// closing lead byte percent-encoding never emits.
pub proof fn lemma_enc_bytes_enc_ok(p: Seq<u8>, e: Seq<u8>)
    requires
        pat_ok(p),
        !crate::outside::enc_byte(p[p.len() - 2]),
        forall|i: int| 0 <= i < e.len() ==> #[trigger] crate::outside::enc_byte(e[i]),
    ensures
        enc_ok(p, e),
{
    assert forall|i: int| 0 <= i < e.len() implies #[trigger] e[i] != 47u8 && e[i] != p[
        p.len() - 2
    ] by {
        assert(crate::outside::enc_byte(e[i]));
    }
}

/// Every occurrence of the pattern in `s` already carries the reserved
/// segment: `s` is fully rewritten with respect to `p`.
pub open spec fn guarded(s: Seq<u8>, p: Seq<u8>) -> bool {
    forall|j: int|
        0 <= j <= s.len() && #[trigger] is_prefix_of(p, s.skip(j)) ==> is_prefix_of(
            p + spec_proxy_seg(),
            s.skip(j),
        )
}

pub proof fn lemma_guarded_skip(s: Seq<u8>, p: Seq<u8>, n: int)
    requires
        guarded(s, p),
        0 <= n <= s.len(),
    ensures
        guarded(s.skip(n), p),
{
    assert forall|j: int|
        0 <= j <= s.skip(n).len() && #[trigger] is_prefix_of(p, s.skip(n).skip(j)) implies is_prefix_of(
        p + spec_proxy_seg(),
        s.skip(n).skip(j),
    ) by {
        lemma_skip_skip(s, n, j);
        assert(is_prefix_of(p, s.skip(n + j)));
    }
}

/// In `q + proxy/ + anything`, the slash occurs only where `q` and the
/// reserved segment end.
pub proof fn lemma_block_slashes(q: Seq<u8>, i: int)
    requires
        pat_ok(q),
        0 <= i < q.len() + spec_proxy_seg().len(),
        (q + spec_proxy_seg())[i] == 47u8,
    ensures
        i == q.len() - 1 || i == q.len() + spec_proxy_seg().len() - 1,
{
    if i < q.len() {
        assert((q + spec_proxy_seg())[i] == q[i]);
    } else {
        assert((q + spec_proxy_seg())[i] == spec_proxy_seg()[i - q.len()]);
    }
}

/// No occurrence of pattern `a` begins strictly inside the block
/// `b + proxy/`, whatever follows it: the slashes of the block sit
/// where `a`'s single slash cannot.
pub proof fn lemma_block_no_match(a: Seq<u8>, b: Seq<u8>, t: Seq<u8>, j: int)
    requires
        pat_ok(a),
        pat_ok(b),
        a != b ==> !is_suffix_of(a, b),
        !crate::outside::enc_byte(a[a.len() - 2]),
        1 <= j < b.len() + spec_proxy_seg().len(),
    ensures
        !is_prefix_of(a, (b + spec_proxy_seg() + t).skip(j)),
{
    let bk = b + spec_proxy_seg();
    let s = bk + t;
    assert(s =~= (b + spec_proxy_seg()) + t);
    if is_prefix_of(a, s.skip(j)) {
        let w = s.skip(j);
        assert(w.subrange(0, a.len() as int) == a);
        assert(forall|m: int|
            0 <= m < a.len() ==> w.subrange(0, a.len() as int)[m] == #[trigger] w[m]);
        assert(forall|m: int| 0 <= m < w.len() ==> w[m] == s[j + m]);
        assert(forall|m: int| 0 <= m < bk.len() ==> s[m] == bk[m]);
        if j + a.len() <= bk.len() {
            // the final slash of `a` falls on a slash of the block
            assert(bk[j + a.len() - 1] == 47u8);
            lemma_block_slashes(b, j + a.len() - 1);
            if j + a.len() - 1 == b.len() - 1 {
                // then `a` would be a suffix of `b`
                assert(a.len() <= b.len());
                assert forall|m: int| 0 <= m < a.len() implies b.subrange(
                    b.len() - a.len(),
                    b.len() as int,
                )[m] == a[m] by {
                    assert(bk[j + m] == b[j + m]);
                }
                assert(b.subrange(b.len() - a.len(), b.len() as int) =~= a);
                if a == b {
                    assert(j == 0);
                }
                assert(false);
            } else {
                // then `a` would end in `y/`
                assert(a[a.len() - 2] == bk[j + a.len() - 2]);
                assert(bk[bk.len() - 2] == 121u8);
                assert(false);
            }
        } else {
            // the occurrence would cover the block's final slash inside
            // `a`'s lead
            let m = bk.len() - 1 - j;
            assert(0 <= m < a.len() - 1);
            assert(a[m] == s[bk.len() - 1]);
            assert(s[bk.len() - 1] == bk[bk.len() - 1]);
            assert(bk[bk.len() - 1] == 47u8);
            assert(false);
        }
    }
}

/// If the output of a `q`-pass begins with a tail of pattern `p`, the
/// input already did — also across distinct patterns.
pub proof fn lemma_noshift_cross(t: Seq<u8>, p: Seq<u8>, q: Seq<u8>, e: Seq<u8>, m: int)
    requires
        pat_ok(p),
        pat_ok(q),
        p != q ==> !is_suffix_of(q, p),
        !crate::outside::enc_byte(p[p.len() - 2]),
        forall|i: int| 0 <= i < e.len() ==> #[trigger] crate::outside::enc_byte(e[i]),
        1 <= m < p.len(),
        is_prefix_of(p.skip(m), rw(t, q, e)),
    ensures
        is_prefix_of(p.skip(m), t),
    decreases t.len(),
{
    let w = p.skip(m);
    let r = rw(t, q, e);
    let qk = q + spec_proxy_seg();
    assert(w.len() == p.len() - m);
    assert(r.subrange(0, w.len() as int) == w);
    assert(forall|i: int| 0 <= i < w.len() ==> r.subrange(0, w.len() as int)[i] == #[trigger] r[i]);
    assert(forall|i: int| 0 <= i < w.len() ==> w[i] == p[m + i]);
    if t.len() < q.len() {
        // the pass copied t unchanged
    } else if is_prefix_of(qk, t) || is_prefix_of(q, t) {
        // r = qk + tail, where tail is the rest of the output
        let tail: Seq<u8> = if is_prefix_of(qk, t) {
            rw(t.skip(qk.len() as int), q, e)
        } else {
            e + seq![47u8] + rw(t.skip(q.len() as int), q, e)
        };
        assert(r =~= qk + tail);
        assert(forall|i: int| 0 <= i < qk.len() ==> #[trigger] r[i] == qk[i]);
        // w ends with `p`'s single slash; find where it lands in r
        assert(w[w.len() - 1] == p[p.len() - 1]);
        if w.len() <= qk.len() {
            assert(qk[w.len() - 1] == 47u8);
            lemma_block_slashes(q, w.len() - 1);
            if w.len() - 1 == q.len() - 1 {
                // then q would be a suffix of p
                assert(w.len() == q.len());
                assert forall|i: int| 0 <= i < q.len() implies p.subrange(
                    p.len() - q.len(),
                    p.len() as int,
                )[i] == q[i] by {
                    assert(w[i] == qk[i]);
                }
                assert(p.subrange(p.len() - q.len(), p.len() as int) =~= q);
                if p == q {
                    assert(m == 0);
                }
                assert(false);
            } else {
                // then p would end in `y/`
                assert(w.len() == qk.len());
                assert(p[p.len() - 2] == w[w.len() - 2]);
                assert(w[w.len() - 2] == qk[qk.len() - 2]);
                assert(qk[qk.len() - 2] == 121u8);
                assert(false);
            }
        } else {
            // w would cover the block's final slash inside p's lead
            let i = qk.len() - 1;
            assert(w[i] == qk[i]);
            assert(qk[i] == 47u8);
            assert(p[m + i] == 47u8);
            assert(m + i < p.len() - 1);
            assert(false);
        }
    } else {
        assert(r == seq![t[0]] + rw(t.skip(1), q, e));
        assert(t[0] == w[0]);
        if m == p.len() - 1 {
            assert(t.subrange(0, w.len() as int) =~= w);
        } else {
            let r1 = rw(t.skip(1), q, e);
            assert(is_prefix_of(p.skip(m + 1), r1)) by {
                assert forall|i: int| 0 <= i < p.len() - m - 1 implies #[trigger] r1[i] == p.skip(
                    m + 1,
                )[i] by {
                    assert(r[i + 1] == w[i + 1]);
                    assert(r1[i] == r[i + 1]);
                }
                assert(r1.subrange(0, (p.len() - m - 1) as int) =~= p.skip(m + 1));
            }
            lemma_noshift_cross(t.skip(1), p, q, e, m + 1);
            assert forall|i: int| 0 <= i < w.len() implies t.subrange(0, w.len() as int)[i]
                == w[i] by {
                if i >= 1 {
                    assert(t.skip(1).subrange(0, (p.len() - m - 1) as int)[i - 1] == p.skip(
                        m + 1,
                    )[i - 1]);
                    assert(t[i] == t.skip(1)[i - 1]);
                }
            }
            assert(t.subrange(0, w.len() as int) =~= w);
        }
    }
}

/// A fully rewritten body is a fixed point of its pattern's pass.
pub proof fn lemma_guarded_fixed(s: Seq<u8>, p: Seq<u8>, e: Seq<u8>)
    requires
        pat_ok(p),
        guarded(s, p),
    ensures
        rw(s, p, e) == s,
    decreases s.len(),
{
    let pk = p + spec_proxy_seg();
    if s.len() < p.len() {
    } else if is_prefix_of(pk, s) {
        let s1 = s.skip(pk.len() as int);
        lemma_guarded_skip(s, p, pk.len() as int);
        lemma_guarded_fixed(s1, p, e);
        assert(pk + s1 =~= s);
    } else if is_prefix_of(p, s) {
        assert(s.skip(0) =~= s);
        assert(is_prefix_of(p, s.skip(0)));
        assert(is_prefix_of(pk, s.skip(0)));
        assert(false);
    } else {
        let s1 = s.skip(1);
        lemma_guarded_skip(s, p, 1);
        lemma_guarded_fixed(s1, p, e);
        assert(seq![s[0]] + s1 =~= s);
    }
}

/// Occurrences at or past `n` in `a + t`, where `a` is `n` long, are
/// occurrences in `t`, guarded alike.
proof fn lemma_guard_lift(a: Seq<u8>, t: Seq<u8>, p: Seq<u8>, j: int)
    requires
        a.len() <= j <= a.len() + t.len(),
    ensures
        (a + t).skip(j) == t.skip(j - a.len()),
{
    assert((a + t).skip(j) =~= t.skip(j - a.len()));
}

/// The conditions under which the passes of two patterns cannot disturb
/// each other: neither is a suffix of the other, both are well-formed,
/// both close their lead with a byte percent-encoding never emits, and
/// the spliced name is percent-encoded.  The same-pattern case needs
/// none of the cross conditions.
pub open spec fn cross_ok(p: Seq<u8>, q: Seq<u8>, e: Seq<u8>) -> bool {
    &&& pat_ok(p)
    &&& pat_ok(q)
    &&& !crate::outside::enc_byte(p[p.len() - 2])
    &&& !crate::outside::enc_byte(q[q.len() - 2])
    &&& (p != q ==> !is_suffix_of(p, q) && !is_suffix_of(q, p))
    &&& (forall|i: int| 0 <= i < e.len() ==> #[trigger] crate::outside::enc_byte(e[i]))
}

/// After a `q`-pass, every occurrence of `p` is guarded — provided it
/// already was beforehand, or `q` is `p` itself.
pub proof fn lemma_pass_guards(s: Seq<u8>, p: Seq<u8>, q: Seq<u8>, e: Seq<u8>)
    requires
        cross_ok(p, q, e),
        p == q || guarded(s, p),
    ensures
        guarded(rw(s, q, e), p),
    decreases s.len(),
{
    let qk = q + spec_proxy_seg();
    let r = rw(s, q, e);
    lemma_enc_bytes_enc_ok(p, e);
    if s.len() < q.len() {
        // the pass copies s; occurrences of p need q's length only when
        // p == q, and then s is too short to hold one
        assert(r == s);
        if p == q {
            assert forall|j: int|
                0 <= j <= r.len() && #[trigger] is_prefix_of(p, r.skip(j)) implies is_prefix_of(
                p + spec_proxy_seg(),
                r.skip(j),
            ) by {
                assert(r.skip(j).len() == s.len() - j);
                assert(false);
            }
        }
    } else if is_prefix_of(qk, s) {
        let s1 = s.skip(qk.len() as int);
        let r1 = rw(s1, q, e);
        assert(r == qk + r1);
        if p != q {
            lemma_guarded_skip(s, p, qk.len() as int);
        }
        lemma_pass_guards(s1, p, q, e);
        assert forall|j: int|
            0 <= j <= r.len() && #[trigger] is_prefix_of(p, r.skip(j)) implies is_prefix_of(
            p + spec_proxy_seg(),
            r.skip(j),
        ) by {
            if j == 0 {
                if p == q {
                    lemma_concat_parts(qk, r1);
                    assert(r.skip(0) =~= r);
                } else {
                    // p cannot begin exactly at a q-block
                    assert(r.skip(0) =~= r);
                    lemma_head_of_block_absurd(p, q, r1);
                }
            } else if j < qk.len() {
                assert(r =~= qk + r1);
                lemma_block_no_match(p, q, r1, j);
                assert(false);
            } else {
                lemma_guard_lift(qk, r1, p, j);
                assert(is_prefix_of(p, r1.skip(j - qk.len())));
                assert(is_prefix_of(p + spec_proxy_seg(), r1.skip(j - qk.len())));
            }
        }
    } else if is_prefix_of(q, s) {
        let s1 = s.skip(q.len() as int);
        let r1 = rw(s1, q, e);
        let mid = e + seq![47u8] + r1;
        assert(r =~= qk + mid);
        if p != q {
            lemma_guarded_skip(s, p, q.len() as int);
        }
        lemma_pass_guards(s1, p, q, e);
        assert forall|j: int|
            0 <= j <= r.len() && #[trigger] is_prefix_of(p, r.skip(j)) implies is_prefix_of(
            p + spec_proxy_seg(),
            r.skip(j),
        ) by {
            if j == 0 {
                if p == q {
                    lemma_concat_parts(qk, mid);
                    assert(r.skip(0) =~= r);
                    assert(is_prefix_of(p + spec_proxy_seg(), r.skip(0)));
                } else {
                    assert(r.skip(0) =~= r);
                    lemma_head_of_block_absurd(p, q, mid);
                }
            } else if j < qk.len() {
                lemma_block_no_match(p, q, mid, j);
                assert(r.skip(j) =~= (qk + mid).skip(j));
                assert(false);
            } else if j <= qk.len() + e.len() {
                lemma_guard_lift(qk, mid, p, j);
                lemma_enc_no_match(e, r1, p, j - qk.len());
                assert(mid =~= (e + seq![47u8]) + r1);
                assert(mid.skip(j - qk.len()) =~= (e + seq![47u8] + r1).skip(j - qk.len()));
                assert(false);
            } else {
                lemma_guard_lift(qk, mid, p, j);
                let a2 = e + seq![47u8];
                lemma_guard_lift(a2, r1, p, j - qk.len());
                assert(mid =~= a2 + r1);
                assert(mid.skip(j - qk.len()) =~= (a2 + r1).skip(j - qk.len()));
                assert(is_prefix_of(p, r1.skip(j - qk.len() - a2.len())));
                assert(is_prefix_of(p + spec_proxy_seg(), r1.skip(j - qk.len() - a2.len())));
            }
        }
    } else {
        let s1 = s.skip(1);
        let r1 = rw(s1, q, e);
        assert(r == seq![s[0]] + r1);
        if p != q {
            lemma_guarded_skip(s, p, 1);
        }
        lemma_pass_guards(s1, p, q, e);
        assert forall|j: int|
            0 <= j <= r.len() && #[trigger] is_prefix_of(p, r.skip(j)) implies is_prefix_of(
            p + spec_proxy_seg(),
            r.skip(j),
        ) by {
            if j == 0 {
                assert(r.skip(0) =~= r);
                assert(r[0] == s[0]);
                assert(r.subrange(0, p.len() as int) == p);
                assert(forall|i: int|
                    0 <= i < p.len() ==> r.subrange(0, p.len() as int)[i] == #[trigger] r[i]);
                assert(s[0] == p[0]);
                // the rest of p must already have been at the head of s1
                assert(is_prefix_of(p.skip(1), r1)) by {
                    assert forall|i: int| 0 <= i < p.len() - 1 implies #[trigger] r1[i] == p.skip(
                        1,
                    )[i] by {
                        assert(r[i + 1] == p[i + 1]);
                        assert(r1[i] == r[i + 1]);
                    }
                    assert(r1.subrange(0, (p.len() - 1) as int) =~= p.skip(1));
                }
                lemma_noshift_cross(s1, p, q, e, 1);
                assert forall|i: int| 0 <= i < p.len() implies s.subrange(0, p.len() as int)[i]
                    == p[i] by {
                    if i >= 1 {
                        assert(s1.subrange(0, (p.len() - 1) as int)[i - 1] == p.skip(1)[i - 1]);
                        assert(s[i] == s1[i - 1]);
                    }
                }
                assert(s.subrange(0, p.len() as int) =~= p);
                assert(is_prefix_of(p, s));
                if p == q {
                    // a p-occurrence at the head contradicts the char branch
                    assert(false);
                } else {
                    // s was guarded here, and the q-pass copies the whole
                    // guarded stretch unchanged
                    assert(s.skip(0) =~= s);
                    assert(is_prefix_of(p, s.skip(0)));
                    let pk = p + spec_proxy_seg();
                    assert(is_prefix_of(pk, s));
                    lemma_copy_guarded_head(s, p, q, e);
                    assert(is_prefix_of(pk, r.skip(0)));
                }
            } else {
                lemma_guard_lift(seq![s[0]], r1, p, j);
                assert(is_prefix_of(p, r1.skip(j - 1)));
                assert(is_prefix_of(p + spec_proxy_seg(), r1.skip(j - 1)));
            }
        }
    }
}

/// Pattern `p` cannot begin exactly where a `q`-block begins, `q`
/// another pattern.
proof fn lemma_head_of_block_absurd(p: Seq<u8>, q: Seq<u8>, t: Seq<u8>)
    requires
        pat_ok(p),
        pat_ok(q),
        p != q,
        !crate::outside::enc_byte(p[p.len() - 2]),
    ensures
        !is_prefix_of(p, (q + spec_proxy_seg()) + t),
{
    let qk = q + spec_proxy_seg();
    let s = qk + t;
    if !is_prefix_of(p, s) {
        return;
    }
    assert(s.subrange(0, p.len() as int) == p);
    assert(forall|i: int|
        0 <= i < p.len() ==> s.subrange(0, p.len() as int)[i] == #[trigger] s[i]);
    assert(forall|i: int| 0 <= i < qk.len() ==> s[i] == qk[i]);
    if p.len() <= qk.len() {
        assert(qk[p.len() - 1] == 47u8);
        lemma_block_slashes(q, p.len() - 1);
        if p.len() == q.len() {
            assert forall|i: int| 0 <= i < p.len() implies q.subrange(0, q.len() as int)[i]
                == p[i] by {
                assert(s[i] == qk[i]);
            }
            assert(q.subrange(0, q.len() as int) =~= q);
            assert(q =~= p);
            assert(false);
        } else {
            assert(p.len() == qk.len());
            assert(p[p.len() - 2] == qk[qk.len() - 2]);
            assert(qk[qk.len() - 2] == 121u8);
            assert(false);
        }
    } else {
        assert(p[qk.len() - 1] == qk[qk.len() - 1]);
        assert(qk[qk.len() - 1] == 47u8);
        assert(qk.len() - 1 < p.len() - 1);
        assert(false);
    }
}

/// A `q`-pass copies a guarded `p`-occurrence standing at the head of
/// `s` unchanged: the output still begins with `p + proxy/`.
proof fn lemma_copy_guarded_head(s: Seq<u8>, p: Seq<u8>, q: Seq<u8>, e: Seq<u8>)
    requires
        cross_ok(p, q, e),
        p != q,
        is_prefix_of(p + spec_proxy_seg(), s),
        !is_prefix_of(q, s),
        s.len() >= q.len(),
    ensures
        is_prefix_of(p + spec_proxy_seg(), rw(s, q, e)),
{
    let pk = p + spec_proxy_seg();
    let u = s.subrange(0, pk.len() as int);
    let t = s.skip(pk.len() as int);
    assert(u == pk);
    assert(u + t =~= s);
    assert forall|j: int| 0 <= j < u.len() implies !is_prefix_of(q, #[trigger] (u + t).skip(
        j,
    )) by {
        assert((u + t).skip(j) =~= s.skip(j));
        if is_prefix_of(q, s.skip(j)) {
            if j == 0 {
                assert(s.skip(0) =~= s);
                assert(false);
            } else {
                // q would begin strictly inside the p-block
                assert(s.skip(j) =~= (pk + t).skip(j));
                lemma_block_no_match(q, p, t, j);
                assert(false);
            }
        }
    }
    lemma_copy_through(u, t, q, e);
    assert(rw(s, q, e) == rw(u + t, q, e));
    lemma_concat_parts(u, rw(t, q, e));
}

/// The CSS pass — all five patterns in order — is idempotent: a second pass over already-rewritten content
/// changes nothing, for any percent-encoded target name.
pub proof fn lemma_css_pass_idempotent(b: Seq<u8>, e: Seq<u8>)
    requires
        forall|i: int| 0 <= i < e.len() ==> #[trigger] crate::outside::enc_byte(e[i]),
    ensures
        css_rewritten(css_rewritten(b, e), e) == css_rewritten(b, e),
{
    lemma_patterns_wf();
    let p1 = spec_pat_url_sq();
    let p2 = spec_pat_url_dq();
    let p3 = spec_pat_url_bare();
    let p4 = spec_pat_import_sq();
    let p5 = spec_pat_import_dq();
    let b0 = b;
    let b1 = rw(b0, p1, e);
    let b2 = rw(b1, p2, e);
    let b3 = rw(b2, p3, e);
    let b4 = rw(b3, p4, e);
    let b5 = rw(b4, p5, e);
    assert(cross_ok(p1, p1, e));
    assert(cross_ok(p2, p2, e));
    assert(cross_ok(p3, p3, e));
    assert(cross_ok(p4, p4, e));
    assert(cross_ok(p5, p5, e));
    assert(cross_ok(p1, p2, e));
    assert(cross_ok(p1, p3, e));
    assert(cross_ok(p1, p4, e));
    assert(cross_ok(p1, p5, e));
    assert(cross_ok(p2, p3, e));
    assert(cross_ok(p2, p4, e));
    assert(cross_ok(p2, p5, e));
    assert(cross_ok(p3, p4, e));
    assert(cross_ok(p3, p5, e));
    assert(cross_ok(p4, p5, e));
    lemma_pass_guards(b0, p1, p1, e);
    lemma_pass_guards(b1, p1, p2, e);
    lemma_pass_guards(b2, p1, p3, e);
    lemma_pass_guards(b3, p1, p4, e);
    lemma_pass_guards(b4, p1, p5, e);
    lemma_pass_guards(b1, p2, p2, e);
    lemma_pass_guards(b2, p2, p3, e);
    lemma_pass_guards(b3, p2, p4, e);
    lemma_pass_guards(b4, p2, p5, e);
    lemma_pass_guards(b2, p3, p3, e);
    lemma_pass_guards(b3, p3, p4, e);
    lemma_pass_guards(b4, p3, p5, e);
    lemma_pass_guards(b3, p4, p4, e);
    lemma_pass_guards(b4, p4, p5, e);
    lemma_pass_guards(b4, p5, p5, e);
    lemma_guarded_fixed(b5, p1, e);
    lemma_guarded_fixed(b5, p2, e);
    lemma_guarded_fixed(b5, p3, e);
    lemma_guarded_fixed(b5, p4, e);
    lemma_guarded_fixed(b5, p5, e);
}

/// The JavaScript/TypeScript pass — all four patterns in order — is idempotent: a second pass over already-rewritten content
/// changes nothing, for any percent-encoded target name.
pub proof fn lemma_js_pass_idempotent(b: Seq<u8>, e: Seq<u8>)
    requires
        forall|i: int| 0 <= i < e.len() ==> #[trigger] crate::outside::enc_byte(e[i]),
    ensures
        js_rewritten(js_rewritten(b, e), e) == js_rewritten(b, e),
{
    lemma_patterns_wf();
    let p1 = spec_pat_from_sq();
    let p2 = spec_pat_from_dq();
    let p3 = spec_pat_dynimport_sq();
    let p4 = spec_pat_dynimport_dq();
    let b0 = b;
    let b1 = rw(b0, p1, e);
    let b2 = rw(b1, p2, e);
    let b3 = rw(b2, p3, e);
    let b4 = rw(b3, p4, e);
    assert(cross_ok(p1, p1, e));
    assert(cross_ok(p2, p2, e));
    assert(cross_ok(p3, p3, e));
    assert(cross_ok(p4, p4, e));
    assert(cross_ok(p1, p2, e));
    assert(cross_ok(p1, p3, e));
    assert(cross_ok(p1, p4, e));
    assert(cross_ok(p2, p3, e));
    assert(cross_ok(p2, p4, e));
    assert(cross_ok(p3, p4, e));
    lemma_pass_guards(b0, p1, p1, e);
    lemma_pass_guards(b1, p1, p2, e);
    lemma_pass_guards(b2, p1, p3, e);
    lemma_pass_guards(b3, p1, p4, e);
    lemma_pass_guards(b1, p2, p2, e);
    lemma_pass_guards(b2, p2, p3, e);
    lemma_pass_guards(b3, p2, p4, e);
    lemma_pass_guards(b2, p3, p3, e);
    lemma_pass_guards(b3, p3, p4, e);
    lemma_pass_guards(b3, p4, p4, e);
    lemma_guarded_fixed(b4, p1, e);
    lemma_guarded_fixed(b4, p2, e);
    lemma_guarded_fixed(b4, p3, e);
    lemma_guarded_fixed(b4, p4, e);
}

/// The HTML pattern pass — all ten patterns in order — is idempotent: a second pass over already-rewritten content
/// changes nothing, for any percent-encoded target name.
pub proof fn lemma_html_pass_idempotent(b: Seq<u8>, e: Seq<u8>)
    requires
        forall|i: int| 0 <= i < e.len() ==> #[trigger] crate::outside::enc_byte(e[i]),
    ensures
        html_pattern_pass(html_pattern_pass(b, e), e) == html_pattern_pass(b, e),
{
    lemma_patterns_wf();
    let p1 = spec_pat_src_dq();
    let p2 = spec_pat_href_dq();
    let p3 = spec_pat_src_sq();
    let p4 = spec_pat_href_sq();
    let p5 = spec_pat_fetch_sq();
    let p6 = spec_pat_fetch_dq();
    let p7 = spec_pat_open_get_sq();
    let p8 = spec_pat_open_post_sq();
    let p9 = spec_pat_open_get_dq();
    let p10 = spec_pat_open_post_dq();
    let b0 = b;
    let b1 = rw(b0, p1, e);
    let b2 = rw(b1, p2, e);
    let b3 = rw(b2, p3, e);
    let b4 = rw(b3, p4, e);
    let b5 = rw(b4, p5, e);
    let b6 = rw(b5, p6, e);
    let b7 = rw(b6, p7, e);
    let b8 = rw(b7, p8, e);
    let b9 = rw(b8, p9, e);
    let b10 = rw(b9, p10, e);
    assert(cross_ok(p1, p1, e));
    assert(cross_ok(p2, p2, e));
    assert(cross_ok(p3, p3, e));
    assert(cross_ok(p4, p4, e));
    assert(cross_ok(p5, p5, e));
    assert(cross_ok(p6, p6, e));
    assert(cross_ok(p7, p7, e));
    assert(cross_ok(p8, p8, e));
    assert(cross_ok(p9, p9, e));
    assert(cross_ok(p10, p10, e));
    assert(cross_ok(p1, p2, e));
    assert(cross_ok(p1, p3, e));
    assert(cross_ok(p1, p4, e));
    assert(cross_ok(p1, p5, e));
    assert(cross_ok(p1, p6, e));
    assert(cross_ok(p1, p7, e));
    assert(cross_ok(p1, p8, e));
    assert(cross_ok(p1, p9, e));
    assert(cross_ok(p1, p10, e));
    assert(cross_ok(p2, p3, e));
    assert(cross_ok(p2, p4, e));
    assert(cross_ok(p2, p5, e));
    assert(cross_ok(p2, p6, e));
    assert(cross_ok(p2, p7, e));
    assert(cross_ok(p2, p8, e));
    assert(cross_ok(p2, p9, e));
    assert(cross_ok(p2, p10, e));
    assert(cross_ok(p3, p4, e));
    assert(cross_ok(p3, p5, e));
    assert(cross_ok(p3, p6, e));
    assert(cross_ok(p3, p7, e));
    assert(cross_ok(p3, p8, e));
    assert(cross_ok(p3, p9, e));
    assert(cross_ok(p3, p10, e));
    assert(cross_ok(p4, p5, e));
    assert(cross_ok(p4, p6, e));
    assert(cross_ok(p4, p7, e));
    assert(cross_ok(p4, p8, e));
    assert(cross_ok(p4, p9, e));
    assert(cross_ok(p4, p10, e));
    assert(cross_ok(p5, p6, e));
    assert(cross_ok(p5, p7, e));
    assert(cross_ok(p5, p8, e));
    assert(cross_ok(p5, p9, e));
    assert(cross_ok(p5, p10, e));
    assert(cross_ok(p6, p7, e));
    assert(cross_ok(p6, p8, e));
    assert(cross_ok(p6, p9, e));
    assert(cross_ok(p6, p10, e));
    assert(cross_ok(p7, p8, e));
    assert(cross_ok(p7, p9, e));
    assert(cross_ok(p7, p10, e));
    assert(cross_ok(p8, p9, e));
    assert(cross_ok(p8, p10, e));
    assert(cross_ok(p9, p10, e));
    lemma_pass_guards(b0, p1, p1, e);
    lemma_pass_guards(b1, p1, p2, e);
    lemma_pass_guards(b2, p1, p3, e);
    lemma_pass_guards(b3, p1, p4, e);
    lemma_pass_guards(b4, p1, p5, e);
    lemma_pass_guards(b5, p1, p6, e);
    lemma_pass_guards(b6, p1, p7, e);
    lemma_pass_guards(b7, p1, p8, e);
    lemma_pass_guards(b8, p1, p9, e);
    lemma_pass_guards(b9, p1, p10, e);
    lemma_pass_guards(b1, p2, p2, e);
    lemma_pass_guards(b2, p2, p3, e);
    lemma_pass_guards(b3, p2, p4, e);
    lemma_pass_guards(b4, p2, p5, e);
    lemma_pass_guards(b5, p2, p6, e);
    lemma_pass_guards(b6, p2, p7, e);
    lemma_pass_guards(b7, p2, p8, e);
    lemma_pass_guards(b8, p2, p9, e);
    lemma_pass_guards(b9, p2, p10, e);
    lemma_pass_guards(b2, p3, p3, e);
    lemma_pass_guards(b3, p3, p4, e);
    lemma_pass_guards(b4, p3, p5, e);
    lemma_pass_guards(b5, p3, p6, e);
    lemma_pass_guards(b6, p3, p7, e);
    lemma_pass_guards(b7, p3, p8, e);
    lemma_pass_guards(b8, p3, p9, e);
    lemma_pass_guards(b9, p3, p10, e);
    lemma_pass_guards(b3, p4, p4, e);
    lemma_pass_guards(b4, p4, p5, e);
    lemma_pass_guards(b5, p4, p6, e);
    lemma_pass_guards(b6, p4, p7, e);
    lemma_pass_guards(b7, p4, p8, e);
    lemma_pass_guards(b8, p4, p9, e);
    lemma_pass_guards(b9, p4, p10, e);
    lemma_pass_guards(b4, p5, p5, e);
    lemma_pass_guards(b5, p5, p6, e);
    lemma_pass_guards(b6, p5, p7, e);
    lemma_pass_guards(b7, p5, p8, e);
    lemma_pass_guards(b8, p5, p9, e);
    lemma_pass_guards(b9, p5, p10, e);
    lemma_pass_guards(b5, p6, p6, e);
    lemma_pass_guards(b6, p6, p7, e);
    lemma_pass_guards(b7, p6, p8, e);
    lemma_pass_guards(b8, p6, p9, e);
    lemma_pass_guards(b9, p6, p10, e);
    lemma_pass_guards(b6, p7, p7, e);
    lemma_pass_guards(b7, p7, p8, e);
    lemma_pass_guards(b8, p7, p9, e);
    lemma_pass_guards(b9, p7, p10, e);
    lemma_pass_guards(b7, p8, p8, e);
    lemma_pass_guards(b8, p8, p9, e);
    lemma_pass_guards(b9, p8, p10, e);
    lemma_pass_guards(b8, p9, p9, e);
    lemma_pass_guards(b9, p9, p10, e);
    lemma_pass_guards(b9, p10, p10, e);
    lemma_guarded_fixed(b10, p1, e);
    lemma_guarded_fixed(b10, p2, e);
    lemma_guarded_fixed(b10, p3, e);
    lemma_guarded_fixed(b10, p4, e);
    lemma_guarded_fixed(b10, p5, e);
    lemma_guarded_fixed(b10, p6, e);
    lemma_guarded_fixed(b10, p7, e);
    lemma_guarded_fixed(b10, p8, e);
    lemma_guarded_fixed(b10, p9, e);
    lemma_guarded_fixed(b10, p10, e);
}

} // verus!
