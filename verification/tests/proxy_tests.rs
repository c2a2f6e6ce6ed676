use portrooter::bytes::u16_digits;
use portrooter::plan::{plan_fallback, plan_primary, Inbound};
use portrooter::registry::{Registry, Target};
use portrooter::respond::{
    body_read_error_response, classify, is_bundled_dep, response_header_edits,
    transform_response, upstream_error_response, BodyKind, UpstreamError, STATUS_BAD_GATEWAY,
    STATUS_GATEWAY_TIMEOUT, STATUS_INTERNAL_ERROR, UPSTREAM_TIMEOUT_SECS,
};
use portrooter::rewrite::{rewrite_css, rewrite_html, rewrite_js};

fn registry() -> Registry {
    Registry {
        router_port: 3000,
        targets: vec![
            Target {
                name: b"alpha".to_vec(),
                port: 4000,
                description: b"first backend".to_vec(),
            },
            Target {
                name: b"my app".to_vec(),
                port: 5000,
                description: b"second backend".to_vec(),
            },
        ],
    }
}

fn inbound(path: &str) -> Inbound {
    Inbound {
        path: path.as_bytes().to_vec(),
        query: None,
        host: None,
        has_origin: false,
        origin: None,
        referer: None,
    }
}

fn contains(haystack: &[u8], needle: &[u8]) -> bool {
    haystack
        .windows(needle.len().max(1))
        .any(|w| w == needle)
}

#[test]
fn forwards_path_and_query() {
    let reg = registry();
    let mut inb = inbound("/proxy/alpha/api/data");
    inb.query = Some(b"x=1&y=2".to_vec());
    let plan = plan_primary(&reg, &inb).expect("alpha resolves");
    assert_eq!(plan.port, 4000);
    assert_eq!(plan.uri, b"http://localhost:4000/api/data?x=1&y=2".to_vec());
}

#[test]
fn empty_remainder_goes_to_root() {
    let reg = registry();
    let inb = inbound("/proxy/alpha");
    let plan = plan_primary(&reg, &inb).expect("alpha resolves");
    assert_eq!(plan.uri, b"http://localhost:4000/".to_vec());
}

#[test]
fn encoded_name_resolves() {
    let reg = registry();
    let inb = inbound("/proxy/my%20app/assets/x.png");
    let plan = plan_primary(&reg, &inb).expect("my app resolves");
    assert_eq!(plan.port, 5000);
    assert_eq!(plan.uri, b"http://localhost:5000/assets/x.png".to_vec());
}

#[test]
fn header_plan_values() {
    let reg = registry();
    let mut inb = inbound("/proxy/alpha/page");
    inb.host = Some(b"localhost:3000".to_vec());
    inb.has_origin = true;
    inb.origin = Some(b"http://localhost:3000".to_vec());
    inb.referer = Some(b"http://localhost:3000/proxy/alpha/page?tab=2".to_vec());
    let plan = plan_primary(&reg, &inb).expect("alpha resolves");
    assert_eq!(plan.host, b"localhost:4000".to_vec());
    assert_eq!(plan.forwarded_for, b"127.0.0.1".to_vec());
    assert_eq!(plan.forwarded_proto, b"http".to_vec());
    assert_eq!(plan.forwarded_host, b"localhost:3000".to_vec());
    assert_eq!(plan.origin, Some(b"http://localhost:4000".to_vec()));
    assert_eq!(
        plan.referer,
        Some(b"http://localhost:4000/proxy/alpha/page?tab=2".to_vec())
    );
}

#[test]
fn absent_host_defaults_to_localhost() {
    let reg = registry();
    let inb = inbound("/proxy/alpha/x");
    let plan = plan_primary(&reg, &inb).expect("alpha resolves");
    assert_eq!(plan.forwarded_host, b"localhost".to_vec());
    assert_eq!(plan.origin, None);
    assert_eq!(plan.referer, None);
}

#[test]
fn unknown_target_not_found() {
    let reg = registry();
    assert!(plan_primary(&reg, &inbound("/proxy/gamma/x")).is_none());
}

#[test]
fn malformed_percent_encoding_not_found() {
    let reg = registry();
    assert!(plan_primary(&reg, &inbound("/proxy/%zz/x")).is_none());
    assert!(plan_primary(&reg, &inbound("/proxy/%ff")).is_none());
}

#[test]
fn empty_name_segment_not_routed() {
    let reg = registry();
    assert!(plan_primary(&reg, &inbound("/proxy/")).is_none());
    assert!(plan_primary(&reg, &inbound("/other/path")).is_none());
}

#[test]
fn fallback_referer_resolves() {
    let reg = registry();
    let mut inb = inbound("/logo.png");
    inb.referer = Some(b"http://localhost:3000/proxy/alpha/page".to_vec());
    let plan = plan_fallback(&reg, &inb).expect("referer names alpha");
    assert_eq!(plan.port, 4000);
    assert_eq!(plan.uri, b"http://localhost:4000/logo.png".to_vec());
}

#[test]
fn fallback_referer_encoded_name() {
    let reg = registry();
    let mut inb = inbound("/logo.png");
    inb.referer = Some(b"http://localhost:3000/proxy/my%20app/page".to_vec());
    let plan = plan_fallback(&reg, &inb).expect("referer names my app");
    assert_eq!(plan.port, 5000);
}

#[test]
fn fallback_origin_port_defaults_to_first_target() {
    let reg = registry();
    let mut inb = inbound("/logo.png");
    inb.origin = Some(b"http://localhost:3000".to_vec());
    let plan = plan_fallback(&reg, &inb).expect("origin names the proxy port");
    assert_eq!(plan.port, 4000);
}

#[test]
fn fallback_without_signals_not_found() {
    let reg = registry();
    assert!(plan_fallback(&reg, &inbound("/logo.png")).is_none());
    let mut inb = inbound("/logo.png");
    inb.origin = Some(b"http://localhost:9999".to_vec());
    assert!(plan_fallback(&reg, &inb).is_none());
}

#[test]
fn fallback_referer_unknown_target_not_found() {
    let reg = registry();
    let mut inb = inbound("/logo.png");
    inb.referer = Some(b"http://localhost:3000/proxy/gamma/page".to_vec());
    assert!(plan_fallback(&reg, &inb).is_none());
}

#[test]
fn html_rewrite_inserts_base_and_prefixes() {
    let body = b"<html><head></head><body><img src=\"/logo.png\"></body></html>".to_vec();
    let out = rewrite_html(&body, &b"alpha".to_vec());
    assert_eq!(
        out,
        b"<html><head><base href=\"/proxy/alpha/\"></head><body><img src=\"/proxy/alpha/logo.png\"></body></html>"
            .to_vec()
    );
}

#[test]
fn html_rewrite_synthesizes_head() {
    let body = b"<html lang=\"en\"><body></body></html>".to_vec();
    let out = rewrite_html(&body, &b"alpha".to_vec());
    assert_eq!(
        out,
        b"<html lang=\"en\"><head><base href=\"/proxy/alpha/\"></head><body></body></html>"
            .to_vec()
    );
}

#[test]
fn html_rewrite_uppercase_head() {
    let body = b"<HEAD></HEAD><img src=\"/a.png\">".to_vec();
    let out = rewrite_html(&body, &b"alpha".to_vec());
    assert_eq!(
        out,
        b"<HEAD><base href=\"/proxy/alpha/\"></HEAD><img src=\"/proxy/alpha/a.png\">".to_vec()
    );
}

#[test]
fn html_rewrite_removes_csp_meta() {
    let body = b"<head><meta http-equiv=\"Content-Security-Policy\" content=\"default-src\"></head>"
        .to_vec();
    let out = rewrite_html(&body, &b"alpha".to_vec());
    assert!(!contains(&out, b"Content-Security-Policy"));
    let body2 =
        b"<head><meta http-equiv='Content-Security-Policy' content='default-src'></head>".to_vec();
    let out2 = rewrite_html(&body2, &b"alpha".to_vec());
    assert!(!contains(&out2, b"Content-Security-Policy"));
}

#[test]
fn html_rewrite_fetch_and_xhr_patterns() {
    let body = b"<head></head><script>fetch('/api/x');r.open('GET', '/api/y');</script>".to_vec();
    let out = rewrite_html(&body, &b"alpha".to_vec());
    assert!(contains(&out, b"fetch('/proxy/alpha/api/x')"));
    assert!(contains(&out, b".open('GET', '/proxy/alpha/api/y')"));
}

#[test]
fn html_second_pass_accumulates_no_prefixes() {
    let body = b"<html><head></head><body><img src=\"/logo.png\"><script>fetch('/api')</script></body></html>"
        .to_vec();
    let once = rewrite_html(&body, &b"alpha".to_vec());
    let twice = rewrite_html(&once, &b"alpha".to_vec());
    assert!(contains(&twice, b"src=\"/proxy/alpha/logo.png\""));
    assert!(contains(&twice, b"fetch('/proxy/alpha/api')"));
    assert!(!contains(&twice, b"/proxy/alpha/proxy/"));
}

#[test]
fn css_rewrite_and_second_pass() {
    let body = b"body { background: url('/img/bg.png'); }".to_vec();
    let once = rewrite_css(&body, &b"alpha".to_vec());
    assert_eq!(
        once,
        b"body { background: url('/proxy/alpha/img/bg.png'); }".to_vec()
    );
    let twice = rewrite_css(&once, &b"alpha".to_vec());
    assert_eq!(twice, once);
}

#[test]
fn css_rewrite_bare_url_and_import() {
    let body = b"@import '/theme.css'; div { background: url(/x.png); }".to_vec();
    let once = rewrite_css(&body, &b"alpha".to_vec());
    assert_eq!(
        once,
        b"@import '/proxy/alpha/theme.css'; div { background: url(/proxy/alpha/x.png); }".to_vec()
    );
    let twice = rewrite_css(&once, &b"alpha".to_vec());
    assert_eq!(twice, once);
}

#[test]
fn js_rewrite_and_second_pass() {
    let body = b"import x from '/lib.js';\nconst m = import(\"/mod.js\");".to_vec();
    let once = rewrite_js(&body, &b"alpha".to_vec());
    assert_eq!(
        once,
        b"import x from '/proxy/alpha/lib.js';\nconst m = import(\"/proxy/alpha/mod.js\");"
            .to_vec()
    );
    let twice = rewrite_js(&once, &b"alpha".to_vec());
    assert_eq!(twice, once);
}

#[test]
fn js_bundled_dependency_untouched() {
    let reg = registry();
    let target = &reg.targets[0];
    let body = b"import x from '/lib.js';".to_vec();
    let path = b"/proxy/alpha/node_modules/.vite/deps/x.js".to_vec();
    assert!(is_bundled_dep(&path));
    let (kind, out) = transform_response(target, &b"".to_vec(), &path, &body);
    assert_eq!(kind, BodyKind::Js);
    assert_eq!(out, body);
}

#[test]
fn js_served_under_proxy_path_is_rewritten() {
    let reg = registry();
    let target = &reg.targets[0];
    let body = b"import x from '/lib.js'".to_vec();
    let path = b"/proxy/alpha/app.js".to_vec();
    let (kind, out) = transform_response(target, &b"".to_vec(), &path, &body);
    assert_eq!(kind, BodyKind::Js);
    assert_eq!(out, b"import x from '/proxy/alpha/lib.js'".to_vec());
}

#[test]
fn rewrite_uses_percent_encoded_name() {
    let reg = registry();
    let target = &reg.targets[1];
    let body = b"import x from '/lib.js'".to_vec();
    let path = b"/app.js".to_vec();
    let (_, out) = transform_response(target, &b"text/javascript".to_vec(), &path, &body);
    assert_eq!(out, b"import x from '/proxy/my%20app/lib.js'".to_vec());
}

#[test]
fn classification_orders() {
    assert_eq!(
        classify(&b"text/html; charset=utf-8".to_vec(), &b"/x.js".to_vec()),
        BodyKind::Html
    );
    assert_eq!(classify(&b"text/css".to_vec(), &b"/x".to_vec()), BodyKind::Css);
    assert_eq!(
        classify(&b"".to_vec(), &b"/style.css".to_vec()),
        BodyKind::Css
    );
    assert_eq!(
        classify(&b"application/javascript".to_vec(), &b"/x".to_vec()),
        BodyKind::Js
    );
    assert_eq!(classify(&b"".to_vec(), &b"/m.mjs".to_vec()), BodyKind::Js);
    assert_eq!(classify(&b"".to_vec(), &b"/m.ts?v=3".to_vec()), BodyKind::Js);
    assert_eq!(
        classify(&b"application/json".to_vec(), &b"/data".to_vec()),
        BodyKind::Other
    );
    assert_eq!(
        classify(&b"application/octet-stream".to_vec(), &b"/blob".to_vec()),
        BodyKind::Other
    );
}

#[test]
fn fallback_html_response_is_rewritten_too() {
    let reg = registry();
    let target = &reg.targets[0];
    let body = b"<html><head></head><body><img src=\"/logo.png\"></body></html>".to_vec();
    let (kind, out) =
        transform_response(target, &b"text/html".to_vec(), &b"/logo-page".to_vec(), &body);
    assert_eq!(kind, BodyKind::Html);
    assert_eq!(
        out,
        b"<html><head><base href=\"/proxy/alpha/\"></head><body><img src=\"/proxy/alpha/logo.png\"></body></html>"
            .to_vec()
    );
}

#[test]
fn all_csp_metas_removed() {
    let body = b"<head><meta http-equiv=\"Content-Security-Policy\" content=\"a\"><meta http-equiv=\"Content-Security-Policy\" content=\"b\"><meta http-equiv='Content-Security-Policy' content='c'></head>"
        .to_vec();
    let out = rewrite_html(&body, &b"alpha".to_vec());
    assert!(!contains(&out, b"Content-Security-Policy"));
}

#[test]
fn mixed_case_head_gets_base_after_it() {
    let body = b"<Head></Head><img src=\"/a.png\">".to_vec();
    let out = rewrite_html(&body, &b"alpha".to_vec());
    assert_eq!(
        out,
        b"<Head><base href=\"/proxy/alpha/\"></Head><img src=\"/proxy/alpha/a.png\">".to_vec()
    );
}

#[test]
fn response_header_edit_decisions() {
    let with_corp = response_header_edits(true);
    assert_eq!(with_corp.remove_csp, b"content-security-policy".to_vec());
    assert_eq!(
        with_corp.remove_csp_report_only,
        b"content-security-policy-report-only".to_vec()
    );
    assert_eq!(with_corp.set_resource_policy, None);
    let without_corp = response_header_edits(false);
    assert_eq!(
        without_corp.set_resource_policy,
        Some(b"cross-origin".to_vec())
    );
}

#[test]
fn timeout_yields_504_naming_target() {
    let reg = registry();
    let target = &reg.targets[0];
    let (status, body) = upstream_error_response(target, &UpstreamError::Timeout);
    assert_eq!(status, STATUS_GATEWAY_TIMEOUT);
    assert_eq!(status, 504);
    assert!(contains(&body, b"alpha"));
    assert!(contains(&body, b"4000"));
    assert!(contains(&body, b"10 seconds"));
    assert_eq!(UPSTREAM_TIMEOUT_SECS, 10);
}

#[test]
fn transport_failure_yields_502_naming_target() {
    let reg = registry();
    let target = &reg.targets[1];
    let (status, body) =
        upstream_error_response(target, &UpstreamError::Transport(b"connection refused".to_vec()));
    assert_eq!(status, STATUS_BAD_GATEWAY);
    assert_eq!(status, 502);
    assert!(contains(&body, b"my app"));
    assert!(contains(&body, b"5000"));
    assert!(contains(&body, b"connection refused"));
}

#[test]
fn body_read_failure_yields_500() {
    let (status, body) = body_read_error_response();
    assert_eq!(status, STATUS_INTERNAL_ERROR);
    assert_eq!(status, 500);
    assert!(!body.is_empty());
}

#[test]
fn port_digits_render_in_decimal() {
    assert_eq!(u16_digits(0), b"0".to_vec());
    assert_eq!(u16_digits(7), b"7".to_vec());
    assert_eq!(u16_digits(4000), b"4000".to_vec());
    assert_eq!(u16_digits(65535), b"65535".to_vec());
}

#[test]
fn already_prefixed_references_kept() {
    let body = b"<head></head><a href=\"/proxy/beta/x\">l</a><img src=\"/pic.png\">".to_vec();
    let out = rewrite_html(&body, &b"alpha".to_vec());
    assert!(contains(&out, b"href=\"/proxy/beta/x\""));
    assert!(contains(&out, b"src=\"/proxy/alpha/pic.png\""));
}

#[test]
fn duplicate_names_first_match_wins() {
    let reg = Registry {
        router_port: 3000,
        targets: vec![
            Target {
                name: b"dup".to_vec(),
                port: 4100,
                description: b"first of two".to_vec(),
            },
            Target {
                name: b"dup".to_vec(),
                port: 4200,
                description: b"second of two".to_vec(),
            },
        ],
    };
    let plan = plan_primary(&reg, &inbound("/proxy/dup/x")).expect("dup resolves");
    assert_eq!(plan.port, 4100);
}

#[test]
fn empty_bodies_pass_through() {
    let e = b"alpha".to_vec();
    assert_eq!(rewrite_css(&Vec::new(), &e), Vec::<u8>::new());
    assert_eq!(rewrite_js(&Vec::new(), &e), Vec::<u8>::new());
    assert_eq!(rewrite_html(&Vec::new(), &e), Vec::<u8>::new());
}

#[test]
fn fallback_keeps_query() {
    let reg = registry();
    let mut inb = inbound("/api/data");
    inb.query = Some(b"q=1".to_vec());
    inb.referer = Some(b"http://localhost:3000/proxy/alpha/page".to_vec());
    let plan = plan_fallback(&reg, &inb).expect("referer names alpha");
    assert_eq!(plan.uri, b"http://localhost:4000/api/data?q=1".to_vec());
}
