//! The crate's trusted boundary: percent-encoding and URI parsing are
//! done by outside crates, behind wrappers whose contracts name their
//! results.  Everything else in the crate is verified against these
//! contracts.

use vstd::prelude::*;

verus! {

/// What `urlencoding::encode_binary` returns for the given bytes.
pub uninterp spec fn url_enc(s: Seq<u8>) -> Seq<u8>;

/// What `urlencoding::decode_binary` returns for the given bytes.
pub uninterp spec fn url_dec(s: Seq<u8>) -> Seq<u8>;

/// The path-and-query part `http::Uri` parses out of the given bytes;
/// `None` when they are not UTF-8 or not a URI reference.
pub uninterp spec fn uri_pq(s: Seq<u8>) -> Option<Seq<u8>>;

/// A byte percent-encoding passes through unescaped — an ASCII
/// alphanumeric or one of `-` `.` `_` `~` — or the `%` it escapes
/// everything else with.
pub open spec fn enc_byte(b: u8) -> bool {
    (48 <= b <= 57) || (65 <= b <= 90) || (97 <= b <= 122) || b == 45 || b == 46 || b == 95
        || b == 126 || b == 37
}

/// Relies on `urlencoding::encode_binary`: percent-encodes every byte
/// except ASCII alphanumerics and `-` `.` `_` `~`.  The result is a
/// function of the input alone; every byte of it is unescaped-safe or
/// `%`; each input byte yields at least one output byte; and decoding
/// it yields the input again.
#[verifier::external_body]
pub(crate) fn url_encode(s: &Vec<u8>) -> (r: Vec<u8>)
    ensures
        r@ == url_enc(s@),
        url_dec(r@) == s@,
        r@.len() >= s@.len(),
        forall|i: int| 0 <= i < r@.len() ==> enc_byte(r@[i]),
{
    urlencoding::encode_binary(s.as_slice()).into_owned().into_bytes()
}

/// Relies on `urlencoding::decode_binary`: replaces every well-formed
/// `%XX` escape by its byte, keeps everything else, and never fails.
/// The result is a function of the input alone, and input holding no
/// `%` at all is handed back unchanged.
#[verifier::external_body]
pub(crate) fn url_decode(s: &Vec<u8>) -> (r: Vec<u8>)
    ensures
        r@ == url_dec(s@),
        (forall|i: int| 0 <= i < s@.len() ==> s@[i] != 37u8) ==> r@ == s@,
{
    urlencoding::decode_binary(s.as_slice()).into_owned()
}

/// Relies on `http::Uri` parsing (`FromStr`) and `Uri::path_and_query`:
/// hands back the path-and-query of the given URI reference (empty when
/// the URI has none), or `None` when the bytes are not UTF-8 or do not
/// parse.  The result is a function of the input alone.
#[verifier::external_body]
pub(crate) fn uri_path_and_query(s: &Vec<u8>) -> (r: Option<Vec<u8>>)
    ensures
        (r is Some) == (uri_pq(s@) is Some),
        r matches Some(v) ==> uri_pq(s@) == Some(v@),
{
    let t = match std::str::from_utf8(s.as_slice()) {
        Ok(t) => t,
        Err(_) => return None,
    };
    let u: http::Uri = match t.parse() {
        Ok(u) => u,
        Err(_) => return None,
    };
    Some(match u.path_and_query() {
        Some(pq) => pq.as_str().as_bytes().to_vec(),
        None => Vec::new(),
    })
}

} // verus!
