//! Byte-sequence primitives: prefix tests, first-occurrence search,
//! concatenation builders and decimal rendering of port numbers.
//!
//! Everything the proxy does to paths, headers and bodies is expressed
//! over `Seq<u8>`, and these are the shared building blocks.

use vstd::prelude::*;

verus! {

/// `p` is a prefix of `s`.
pub open spec fn is_prefix_of(p: Seq<u8>, s: Seq<u8>) -> bool {
    p.len() <= s.len() && s.subrange(0, p.len() as int) == p
}

/// `p` occurs in `s` starting at index `i`.
pub open spec fn match_at(s: Seq<u8>, p: Seq<u8>, i: int) -> bool {
    0 <= i && i + p.len() <= s.len() && s.subrange(i, i + p.len()) == p
}

/// Index of the leftmost occurrence of `p` in `s`, if any.
pub open spec fn first_match(s: Seq<u8>, p: Seq<u8>) -> Option<int>
    decreases s.len(),
{
    if p.len() == 0 {
        Some(0)
    } else if p.len() > s.len() {
        None
    } else if is_prefix_of(p, s) {
        Some(0)
    } else {
        match first_match(s.skip(1), p) {
            None => None,
            Some(k) => Some(k + 1),
        }
    }
}

/// `s` contains an occurrence of `p`.
pub open spec fn contains_seq(s: Seq<u8>, p: Seq<u8>) -> bool {
    first_match(s, p) is Some
}

/// `p` is a suffix of `s`.
pub open spec fn is_suffix_of(p: Seq<u8>, s: Seq<u8>) -> bool {
    p.len() <= s.len() && s.subrange(s.len() - p.len(), s.len() as int) == p
}

pub proof fn lemma_match_at_skip(s: Seq<u8>, p: Seq<u8>, i: int)
    requires
        0 <= i <= s.len(),
    ensures
        match_at(s, p, i) == is_prefix_of(p, s.skip(i)),
{
    if i + p.len() <= s.len() {
        assert(s.skip(i).subrange(0, p.len() as int) =~= s.subrange(i, i + p.len()));
    }
}

pub proof fn lemma_match_at_shift(s: Seq<u8>, p: Seq<u8>, i: int)
    requires
        0 <= i,
        1 <= s.len(),
    ensures
        match_at(s.skip(1), p, i) == match_at(s, p, i + 1),
{
    if i + p.len() <= s.len() - 1 {
        assert(s.skip(1).subrange(i, i + p.len()) =~= s.subrange(i + 1, i + 1 + p.len()));
    }
}

/// `first_match` returns exactly the leftmost occurrence.
pub proof fn lemma_first_match(s: Seq<u8>, p: Seq<u8>)
    ensures
        match first_match(s, p) {
            Some(i) => match_at(s, p, i) && (forall|j: int| 0 <= j < i ==> !match_at(s, p, j)),
            None => forall|j: int| !match_at(s, p, j),
        },
    decreases s.len(),
{
    if p.len() == 0 {
        assert(s.subrange(0, 0) =~= p);
    } else if p.len() > s.len() {
        assert forall|j: int| !match_at(s, p, j) by {}
    } else if is_prefix_of(p, s) {
    } else {
        lemma_first_match(s.skip(1), p);
        match first_match(s.skip(1), p) {
            None => {
                assert forall|j: int| !match_at(s, p, j) by {
                    if 1 <= j {
                        lemma_match_at_shift(s, p, j - 1);
                    } else if j == 0 {
                        lemma_match_at_skip(s, p, 0);
                        assert(s.skip(0) =~= s);
                    }
                }
            },
            Some(k) => {
                lemma_match_at_shift(s, p, k);
                assert forall|j: int| 0 <= j < k + 1 implies !match_at(s, p, j) by {
                    if 1 <= j {
                        lemma_match_at_shift(s, p, j - 1);
                    } else {
                        lemma_match_at_skip(s, p, 0);
                        assert(s.skip(0) =~= s);
                    }
                }
            },
        }
    }
}

/// Does `p` occur in `s` at position `i`?
pub fn starts_at(s: &Vec<u8>, p: &Vec<u8>, i: usize) -> (b: bool)
    requires
        i <= s.len(),
    ensures
        b == match_at(s@, p@, i as int),
{
    if s.len() - i < p.len() {
        return false;
    }
    let mut j: usize = 0;
    while j < p.len()
        invariant
            i + p.len() <= s.len(),
            0 <= j <= p.len(),
            forall|k: int| 0 <= k < j ==> s@[i + k] == p@[k],
        decreases p.len() - j,
    {
        if s[i + j] != p[j] {
            assert(s@.subrange(i as int, i + p.len()) != p@) by {
                assert(s@.subrange(i as int, i + p.len())[j as int] != p@[j as int]);
            }
            return false;
        }
        j += 1;
    }
    assert(s@.subrange(i as int, i + p.len()) =~= p@);
    true
}

/// Leftmost occurrence of `p` in `s`, scanning from the left.
pub fn find_first(s: &Vec<u8>, p: &Vec<u8>) -> (r: Option<usize>)
    ensures
        match r {
            Some(i) => first_match(s@, p@) == Some(i as int),
            None => first_match(s@, p@) is None,
        },
{
    if p.len() == 0 {
        return Some(0);
    }
    if p.len() > s.len() {
        proof {
            lemma_first_match(s@, p@);
        }
        return None;
    }
    let mut i: usize = 0;
    while s.len() - i >= p.len()
        invariant
            1 <= p.len() <= s.len(),
            0 <= i <= s.len(),
            forall|j: int| 0 <= j < i ==> !match_at(s@, p@, j),
        decreases s.len() - i,
    {
        if starts_at(s, p, i) {
            proof {
                // no occurrence lies before i, and one lies at i,
                // so the leftmost occurrence is exactly i
                lemma_first_match(s@, p@);
                let fm = first_match(s@, p@);
                if fm is None {
                    assert(match_at(s@, p@, i as int));
                    assert(false);
                } else {
                    let k = fm->Some_0;
                    if k < i {
                        assert(match_at(s@, p@, k));
                        assert(false);
                    }
                    if k > i {
                        assert(!match_at(s@, p@, i as int));
                        assert(false);
                    }
                }
            }
            return Some(i);
        }
        i += 1;
    }
    proof {
        lemma_first_match(s@, p@);
        assert forall|j: int| !match_at(s@, p@, j) by {
            if 0 <= j < i {
            } else if j + p@.len() > s@.len() {
            }
        }
        if first_match(s@, p@) is Some {
            let k = first_match(s@, p@)->Some_0;
            assert(!match_at(s@, p@, k));
        }
    }
    None
}

/// Does `s` contain `p` anywhere?
pub fn contains_bytes(s: &Vec<u8>, p: &Vec<u8>) -> (b: bool)
    ensures
        b == contains_seq(s@, p@),
{
    match find_first(s, p) {
        Some(_) => true,
        None => false,
    }
}

/// Does `s` end with `p`?
pub fn ends_with(s: &Vec<u8>, p: &Vec<u8>) -> (b: bool)
    ensures
        b == is_suffix_of(p@, s@),
{
    if p.len() > s.len() {
        return false;
    }
    let mut j: usize = 0;
    let off: usize = s.len() - p.len();
    while j < p.len()
        invariant
            p.len() <= s.len(),
            off == s.len() - p.len(),
            0 <= j <= p.len(),
            forall|k: int| 0 <= k < j ==> s@[off + k] == p@[k],
        decreases p.len() - j,
    {
        if s[off + j] != p[j] {
            assert(s@.subrange(s@.len() - p@.len(), s@.len() as int) != p@) by {
                assert(s@.subrange(s@.len() - p@.len(), s@.len() as int)[j as int] != p@[
                    j as int
                ]);
            }
            return false;
        }
        j += 1;
    }
    assert(s@.subrange(s@.len() - p@.len(), s@.len() as int) =~= p@);
    true
}

/// The two byte strings are equal.
pub fn bytes_eq(a: &Vec<u8>, b: &Vec<u8>) -> (r: bool)
    ensures
        r == (a@ == b@),
{
    if a.len() != b.len() {
        return false;
    }
    let mut j: usize = 0;
    while j < a.len()
        invariant
            a.len() == b.len(),
            0 <= j <= a.len(),
            forall|k: int| 0 <= k < j ==> a@[k] == b@[k],
        decreases a.len() - j,
    {
        if a[j] != b[j] {
            return false;
        }
        j += 1;
    }
    assert(a@ =~= b@);
    true
}

/// Append all of `s` to `out`.
pub fn push_all(out: &mut Vec<u8>, s: &Vec<u8>)
    ensures
        final(out)@ == old(out)@ + s@,
{
    let mut j: usize = 0;
    while j < s.len()
        invariant
            0 <= j <= s.len(),
            out@ == old(out)@ + s@.subrange(0, j as int),
        decreases s.len() - j,
    {
        out.push(s[j]);
        assert(old(out)@ + s@.subrange(0, j as int) + seq![s@[j as int]] =~= old(out)@
            + s@.subrange(0, j + 1));
        j += 1;
    }
    assert(old(out)@ + s@.subrange(0, s@.len() as int) =~= old(out)@ + s@);
}

/// Append `s[a..b]` to `out`.
pub fn push_range(out: &mut Vec<u8>, s: &Vec<u8>, a: usize, b: usize)
    requires
        a <= b <= s.len(),
    ensures
        final(out)@ == old(out)@ + s@.subrange(a as int, b as int),
{
    let mut j: usize = a;
    while j < b
        invariant
            a <= j <= b <= s.len(),
            out@ == old(out)@ + s@.subrange(a as int, j as int),
        decreases b - j,
    {
        out.push(s[j]);
        assert(old(out)@ + s@.subrange(a as int, j as int) + seq![s@[j as int]] =~= old(out)@
            + s@.subrange(a as int, j + 1));
        j += 1;
    }
}

/// The decimal digits of `n`, most significant first.
pub open spec fn dec_digits(n: nat) -> Seq<u8>
    decreases n,
{
    if n < 10 {
        seq![(48 + n) as u8]
    } else {
        dec_digits(n / 10) + seq![(48 + n % 10) as u8]
    }
}

/// Append the decimal rendering of `n` to `out`.
pub fn push_u16(out: &mut Vec<u8>, n: u16)
    ensures
        final(out)@ == old(out)@ + dec_digits(n as nat),
    decreases n,
{
    if n < 10 {
        out.push(48 + n as u8);
        assert(old(out)@.push((48 + n as nat) as u8) =~= old(out)@ + dec_digits(n as nat));
    } else {
        push_u16(out, n / 10);
        let d: u8 = 48 + (n % 10) as u8;
        out.push(d);
        assert((old(out)@ + dec_digits((n / 10) as nat)).push(d) =~= old(out)@ + dec_digits(
            n as nat,
        ));
    }
}

/// The decimal rendering of `n` on its own.
pub fn u16_digits(n: u16) -> (r: Vec<u8>)
    ensures
        r@ == dec_digits(n as nat),
{
    let mut out: Vec<u8> = Vec::new();
    push_u16(&mut out, n);
    assert(Seq::<u8>::empty() + dec_digits(n as nat) =~= dec_digits(n as nat));
    out
}


/// ASCII upper-case letters folded to lower case; every other byte is
/// itself.
pub open spec fn lower_byte(b: u8) -> u8 {
    if 65 <= b <= 90 {
        (b + 32) as u8
    } else {
        b
    }
}

/// `p` occurs in `s` at index `i`, ASCII case ignored.
pub open spec fn match_at_ci(s: Seq<u8>, p: Seq<u8>, i: int) -> bool {
    &&& 0 <= i
    &&& i + p.len() <= s.len()
    &&& forall|k: int| 0 <= k < p.len() ==> lower_byte(s[i + k]) == lower_byte(#[trigger] p[k])
}

/// Index of the leftmost case-insensitive occurrence of `p` in `s`.
pub open spec fn first_match_ci(s: Seq<u8>, p: Seq<u8>) -> Option<int>
    decreases s.len(),
{
    if p.len() == 0 {
        Some(0)
    } else if p.len() > s.len() {
        None
    } else if match_at_ci(s, p, 0) {
        Some(0)
    } else {
        match first_match_ci(s.skip(1), p) {
            None => None,
            Some(k) => Some(k + 1),
        }
    }
}

pub proof fn lemma_match_at_ci_shift(s: Seq<u8>, p: Seq<u8>, i: int)
    requires
        0 <= i,
        1 <= s.len(),
    ensures
        match_at_ci(s.skip(1), p, i) == match_at_ci(s, p, i + 1),
{
    if i + p.len() <= s.len() - 1 {
        if match_at_ci(s.skip(1), p, i) {
            assert forall|k: int| 0 <= k < p.len() implies lower_byte(s[i + 1 + k]) == lower_byte(
                #[trigger] p[k],
            ) by {
                assert(lower_byte(s.skip(1)[i + k]) == lower_byte(p[k]));
                assert(s.skip(1)[i + k] == s[i + 1 + k]);
            }
        }
        if match_at_ci(s, p, i + 1) {
            assert forall|k: int| 0 <= k < p.len() implies lower_byte(s.skip(1)[i + k])
                == lower_byte(#[trigger] p[k]) by {
                assert(lower_byte(s[i + 1 + k]) == lower_byte(p[k]));
                assert(s.skip(1)[i + k] == s[i + 1 + k]);
            }
        }
    }
}

/// `first_match_ci` returns exactly the leftmost case-insensitive
/// occurrence.
pub proof fn lemma_first_match_ci(s: Seq<u8>, p: Seq<u8>)
    ensures
        match first_match_ci(s, p) {
            Some(i) => match_at_ci(s, p, i) && (forall|j: int|
                0 <= j < i ==> !match_at_ci(s, p, j)),
            None => forall|j: int| !match_at_ci(s, p, j),
        },
    decreases s.len(),
{
    if p.len() == 0 {
    } else if p.len() > s.len() {
        assert forall|j: int| !match_at_ci(s, p, j) by {}
    } else if match_at_ci(s, p, 0) {
    } else {
        lemma_first_match_ci(s.skip(1), p);
        match first_match_ci(s.skip(1), p) {
            None => {
                assert forall|j: int| !match_at_ci(s, p, j) by {
                    if 1 <= j {
                        lemma_match_at_ci_shift(s, p, j - 1);
                    }
                }
            },
            Some(k) => {
                lemma_match_at_ci_shift(s, p, k);
                assert forall|j: int| 0 <= j < k + 1 implies !match_at_ci(s, p, j) by {
                    if 1 <= j {
                        lemma_match_at_ci_shift(s, p, j - 1);
                    }
                }
            },
        }
    }
}

/// Does `p` occur at position `i` of `s`, ASCII case ignored?
pub fn starts_at_ci(s: &Vec<u8>, p: &Vec<u8>, i: usize) -> (b: bool)
    requires
        i <= s.len(),
    ensures
        b == match_at_ci(s@, p@, i as int),
{
    if s.len() - i < p.len() {
        return false;
    }
    let mut j: usize = 0;
    while j < p.len()
        invariant
            i + p.len() <= s.len(),
            0 <= j <= p.len(),
            forall|k: int|
                0 <= k < j ==> lower_byte(s@[i + k]) == lower_byte(#[trigger] p@[k]),
        decreases p.len() - j,
    {
        let a = s[i + j];
        let b = p[j];
        let la: u8 = if 65 <= a && a <= 90 {
            a + 32
        } else {
            a
        };
        let lb: u8 = if 65 <= b && b <= 90 {
            b + 32
        } else {
            b
        };
        if la != lb {
            return false;
        }
        j += 1;
    }
    true
}

/// Leftmost case-insensitive occurrence of `p` in `s`.
pub fn find_first_ci(s: &Vec<u8>, p: &Vec<u8>) -> (r: Option<usize>)
    ensures
        match r {
            Some(i) => first_match_ci(s@, p@) == Some(i as int),
            None => first_match_ci(s@, p@) is None,
        },
{
    if p.len() == 0 {
        return Some(0);
    }
    if p.len() > s.len() {
        proof {
            lemma_first_match_ci(s@, p@);
        }
        return None;
    }
    let mut i: usize = 0;
    while s.len() - i >= p.len()
        invariant
            1 <= p.len() <= s.len(),
            0 <= i <= s.len(),
            forall|j: int| 0 <= j < i ==> !match_at_ci(s@, p@, j),
        decreases s.len() - i,
    {
        if starts_at_ci(s, p, i) {
            proof {
                lemma_first_match_ci(s@, p@);
                let fm = first_match_ci(s@, p@);
                if fm is None {
                    assert(match_at_ci(s@, p@, i as int));
                    assert(false);
                } else {
                    let k = fm->Some_0;
                    if k < i {
                        assert(match_at_ci(s@, p@, k));
                        assert(false);
                    }
                    if k > i {
                        assert(!match_at_ci(s@, p@, i as int));
                        assert(false);
                    }
                }
            }
            return Some(i);
        }
        i += 1;
    }
    proof {
        lemma_first_match_ci(s@, p@);
        assert forall|j: int| !match_at_ci(s@, p@, j) by {
            if 0 <= j < i {
            }
        }
        if first_match_ci(s@, p@) is Some {
            let k = first_match_ci(s@, p@)->Some_0;
            assert(!match_at_ci(s@, p@, k));
        }
    }
    None
}

} // verus!
