//! Byte-string utilities for path and name matching.
//!
//! Paths and process names are handled as raw byte strings; case folding is
//! ASCII-only, which is what the folder-prefix and name heuristics need.

use vstd::prelude::*;

verus! {

/// ASCII lower-casing of one byte; bytes outside `A`..=`Z` are unchanged.
pub open spec fn lower_byte(b: u8) -> u8 {
    if 65 <= b && b <= 90 {
        (b + 32) as u8
    } else {
        b
    }
}

/// ASCII lower-casing of a byte string.
pub open spec fn lower_bytes(s: Seq<u8>) -> Seq<u8> {
    s.map_values(|b: u8| lower_byte(b))
}

/// `p` is a prefix of `s`.
pub open spec fn is_prefix_of(p: Seq<u8>, s: Seq<u8>) -> bool {
    p.len() <= s.len() && s.subrange(0, p.len() as int) == p
}

/// ASCII lower-case a byte string.
pub fn to_lower(s: &[u8]) -> (r: Vec<u8>)
    ensures
        r@ == lower_bytes(s@),
{
    let mut r: Vec<u8> = Vec::new();
    let mut i: usize = 0;
    while i < s.len()
        invariant
            i <= s.len(),
            r@ == lower_bytes(s@.subrange(0, i as int)),
        decreases s.len() - i,
    {
        let b = s[i];
        if 65 <= b && b <= 90 {
            r.push(b + 32);
        } else {
            r.push(b);
        }
        assert(lower_bytes(s@.subrange(0, i as int + 1)) =~= lower_bytes(
            s@.subrange(0, i as int),
        ).push(lower_byte(s@[i as int])));
        i = i + 1;
    }
    assert(s@.subrange(0, s@.len() as int) =~= s@);
    r
}

/// Whether `s` starts with the prefix `p`.
pub fn starts_with(s: &[u8], p: &[u8]) -> (r: bool)
    ensures
        r == is_prefix_of(p@, s@),
{
    if p.len() > s.len() {
        return false;
    }
    let mut i: usize = 0;
    while i < p.len()
        invariant
            p@.len() <= s@.len(),
            i <= p.len(),
            forall|j: int| 0 <= j < i ==> s@[j] == p@[j],
        decreases p.len() - i,
    {
        if s[i] != p[i] {
            assert(s@.subrange(0, p@.len() as int) != p@) by {
                assert(s@.subrange(0, p@.len() as int)[i as int] != p@[i as int]);
            }
            return false;
        }
        i = i + 1;
    }
    assert(s@.subrange(0, p@.len() as int) =~= p@);
    true
}

/// `p` is a suffix of `s`.
pub open spec fn is_suffix_of(p: Seq<u8>, s: Seq<u8>) -> bool {
    p.len() <= s.len() && s.subrange(s.len() - p.len(), s.len() as int) == p
}

/// Whether `s` ends with the suffix `p`.
pub fn ends_with(s: &[u8], p: &[u8]) -> (r: bool)
    ensures
        r == is_suffix_of(p@, s@),
{
    if p.len() > s.len() {
        return false;
    }
    let off: usize = s.len() - p.len();
    let mut i: usize = 0;
    while i < p.len()
        invariant
            p@.len() <= s@.len(),
            s@.len() <= usize::MAX,
            off == s@.len() - p@.len(),
            i <= p.len(),
            forall|j: int| 0 <= j < i ==> s@[off + j] == p@[j],
        decreases p.len() - i,
    {
        if s[off + i] != p[i] {
            assert(s@.subrange(s@.len() - p@.len(), s@.len() as int) != p@) by {
                assert(s@.subrange(s@.len() - p@.len(), s@.len() as int)[i as int] != p@[
                    i as int
                ]);
            }
            return false;
        }
        i = i + 1;
    }
    assert(s@.subrange(s@.len() - p@.len(), s@.len() as int) =~= p@);
    true
}

/// `sub` occurs in `s` starting at position `at`.
pub open spec fn occurs_at(s: Seq<u8>, sub: Seq<u8>, at: int) -> bool {
    0 <= at && at + sub.len() <= s.len() && s.subrange(at, at + sub.len()) == sub
}

/// `sub` occurs somewhere in `s`.
pub open spec fn contains_seq(s: Seq<u8>, sub: Seq<u8>) -> bool {
    exists|at: int| occurs_at(s, sub, at)
}

/// Whether `sub` occurs as a contiguous run inside `s` (naive scan).
pub fn contains_sub(s: &[u8], sub: &[u8]) -> (r: bool)
    ensures
        r == contains_seq(s@, sub@),
{
    if sub.len() > s.len() {
        assert(!contains_seq(s@, sub@)) by {
            assert(forall|at: int| !occurs_at(s@, sub@, at));
        }
        return false;
    }
    let mut at: usize = 0;
    while at <= s.len() - sub.len()
        invariant
            sub@.len() <= s@.len(),
            s@.len() <= usize::MAX,
            at <= s@.len() - sub@.len() + 1,
            forall|a: int| 0 <= a < at ==> !occurs_at(s@, sub@, a),
        decreases s.len() - sub.len() + 1 - at,
    {
        let mut i: usize = 0;
        let mut hit = true;
        while i < sub.len()
            invariant
                sub@.len() <= s@.len(),
                s@.len() <= usize::MAX,
                at + sub@.len() <= s@.len(),
                i <= sub.len(),
                hit == (forall|j: int| 0 <= j < i ==> s@[at + j] == sub@[j]),
            decreases sub.len() - i,
        {
            if s[at + i] != sub[i] {
                hit = false;
                assert(s@[at + i as int] != sub@[i as int]);
                i = sub.len();
            } else {
                i = i + 1;
            }
        }
        if hit {
            assert(occurs_at(s@, sub@, at as int)) by {
                assert(s@.subrange(at as int, at + sub@.len()) =~= sub@);
            }
            return true;
        } else {
            assert(!occurs_at(s@, sub@, at as int)) by {
                let j = choose|j: int| 0 <= j < sub@.len() && s@[at + j] != sub@[j];
                assert(s@.subrange(at as int, at + sub@.len())[j] == s@[at + j]);
            }
        }
        at = at + 1;
    }
    assert(forall|a: int| !occurs_at(s@, sub@, a));
    false
}

/// The decimal digits of `n`, most significant first.
pub open spec fn dec_digits(n: nat) -> Seq<u8>
    decreases n,
{
    if n < 10 {
        seq![(48 + n) as u8]
    } else {
        dec_digits(n / 10) + seq![(48 + (n % 10)) as u8]
    }
}

/// The decimal rendering of an integer, with a leading minus sign when
/// negative.
pub open spec fn spec_i32_dec(n: int) -> Seq<u8> {
    if n < 0 {
        seq![45u8] + dec_digits((-n) as nat)
    } else {
        dec_digits(n as nat)
    }
}

/// Render an integer in decimal.
pub fn i32_to_dec(n: i32) -> (r: Vec<u8>)
    ensures
        r@ == spec_i32_dec(n as int),
{
    let neg = n < 0;
    let mag: u64 = if n < 0 {
        (-(n as i64)) as u64
    } else {
        n as u64
    };
    assert(mag as nat == (if n < 0 {
        (-(n as int)) as nat
    } else {
        n as nat
    }));

    let mut rev: Vec<u8> = Vec::new();
    let mut cur: u64 = mag;
    while cur >= 10
        invariant
            dec_digits(mag as nat) == dec_digits(cur as nat) + rev@.reverse(),
        decreases cur,
    {
        let d: u8 = 48 + ((cur % 10) as u8);
        let ghost pre = rev@;
        rev.push(d);
        proof {
            assert(rev@.reverse() =~= seq![d] + pre.reverse());
            assert(dec_digits(cur as nat) =~= dec_digits((cur / 10) as nat) + seq![d]);
            assert(dec_digits((cur / 10) as nat) + seq![d] + pre.reverse() =~= dec_digits(
                (cur / 10) as nat,
            ) + (seq![d] + pre.reverse()));
        }
        cur = cur / 10;
    }

    let mut r: Vec<u8> = Vec::new();
    if neg {
        r.push(45);
    }
    r.push(48 + (cur as u8));
    let ghost base = r@;
    let mut k: usize = 0;
    while k < rev.len()
        invariant
            k <= rev@.len(),
            r@ == base + rev@.reverse().take(k as int),
        decreases rev.len() - k,
    {
        let ghost pre = r@;
        r.push(rev[rev.len() - 1 - k]);
        proof {
            assert(rev@.reverse()[k as int] == rev@[rev@.len() - 1 - k as int]);
            assert(r@ =~= base + rev@.reverse().take(k as int + 1));
        }
        k = k + 1;
    }
    proof {
        assert(rev@.reverse().take(rev@.len() as int) =~= rev@.reverse());
        assert(r@ =~= base + rev@.reverse());
        assert(dec_digits(mag as nat) == seq![(48 + (cur as nat)) as u8] + rev@.reverse());
        if neg {
            assert(r@ =~= seq![45u8] + dec_digits(mag as nat));
        } else {
            assert(r@ =~= dec_digits(mag as nat));
        }
    }
    r
}

/// Copy a byte string.
pub fn clone_bytes(v: &Vec<u8>) -> (r: Vec<u8>)
    ensures
        r@ == v@,
{
    let mut r: Vec<u8> = Vec::new();
    let mut i: usize = 0;
    while i < v.len()
        invariant
            i <= v@.len(),
            r@ == v@.subrange(0, i as int),
        decreases v.len() - i,
    {
        r.push(v[i]);
        assert(r@ =~= v@.subrange(0, i as int + 1));
        i = i + 1;
    }
    assert(v@.subrange(0, v@.len() as int) =~= v@);
    r
}

/// Byte-for-byte equality of two byte strings.
pub fn bytes_eq(a: &[u8], b: &[u8]) -> (r: bool)
    ensures
        r == (a@ == b@),
{
    if a.len() != b.len() {
        assert(a@ != b@);
        return false;
    }
    let mut i: usize = 0;
    while i < a.len()
        invariant
            a@.len() == b@.len(),
            i <= a.len(),
            forall|j: int| 0 <= j < i ==> a@[j] == b@[j],
        decreases a.len() - i,
    {
        if a[i] != b[i] {
            return false;
        }
        i = i + 1;
    }
    assert(a@ =~= b@);
    true
}

} // verus!
