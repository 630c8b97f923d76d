//! Searching a memory region for the first place where a signature matches.
//!
//! Start offsets are tried in ascending order, and at each the signature is
//! compared token by token with the bytes there; the first offset at which
//! every token accepts its byte is the answer. The search reads the region
//! through `Region::read` alone, so each of its reads lies inside the region
//! and is counted.

use vstd::prelude::*;
use crate::pattern::Signature;
use crate::pattern::Token;
use crate::region::Region;

verus! {

/// Whether `sig` matches the bytes of `mem` that start at offset `i`: the
/// whole signature fits inside `mem` there and every token accepts its byte.
pub open spec fn matches_at(sig: Seq<Token>, mem: Seq<u8>, i: int) -> bool {
    &&& 0 <= i
    &&& i + sig.len() <= mem.len()
    &&& forall|j: int| 0 <= j < sig.len() ==> (#[trigger] sig[j]).accepts(mem[i + j])
}

/// Whether `i` is the least offset at which `sig` matches in `mem`.
pub open spec fn is_first_match(sig: Seq<Token>, mem: Seq<u8>, i: int) -> bool {
    &&& matches_at(sig, mem, i)
    &&& forall|k: int| 0 <= k < i ==> !matches_at(sig, mem, k)
}

/// The least offset at which `sig` matches in `mem`, if it matches anywhere.
pub open spec fn first_match(sig: Seq<Token>, mem: Seq<u8>) -> Option<int> {
    if exists|i: int| matches_at(sig, mem, i) {
        Some(choose|i: int| is_first_match(sig, mem, i))
    } else {
        None
    }
}

/// The signature whose tokens are exactly the given bytes.
pub open spec fn exact_signature(bytes: Seq<u8>) -> Seq<Token> {
    Seq::new(bytes.len(), |j: int| Token::Byte(bytes[j]))
}

/// Whether every token of `sig` is the wildcard.
pub open spec fn all_wildcards(sig: Seq<Token>) -> bool {
    forall|j: int| 0 <= j < sig.len() ==> (#[trigger] sig[j]) is Wildcard
}

/// `first_match` is the least matching offset: it is `Some(i)` exactly when
/// `i` is a match with no match before it, and `None` exactly when there is
/// no match at all.
pub proof fn lemma_first_match_is_least(sig: Seq<Token>, mem: Seq<u8>, i: int)
    ensures
        first_match(sig, mem) == Some(i) <==> is_first_match(sig, mem, i),
        first_match(sig, mem) is None <==> forall|k: int| !matches_at(sig, mem, k),
{
    if exists|k: int| matches_at(sig, mem, k) {
        let w = choose|k: int| matches_at(sig, mem, k);
        lemma_least_match_exists(sig, mem, w);
        let c = choose|k: int| is_first_match(sig, mem, k);
        assert(is_first_match(sig, mem, c));
        if is_first_match(sig, mem, i) {
            assert(!(i < c));
            assert(!(c < i));
        }
    }
}

/// Below any match there is a least one.
proof fn lemma_least_match_exists(sig: Seq<Token>, mem: Seq<u8>, w: int)
    requires
        matches_at(sig, mem, w),
    ensures
        exists|i: int| is_first_match(sig, mem, i),
    decreases w,
{
    if forall|k: int| 0 <= k < w ==> !matches_at(sig, mem, k) {
        assert(is_first_match(sig, mem, w));
    } else {
        let k = choose|k: int| 0 <= k < w && matches_at(sig, mem, k);
        lemma_least_match_exists(sig, mem, k);
    }
}

/// A wildcard never influences a match: two memories of one length that
/// agree wherever the signature, laid at offset `i`, has a byte token, match
/// there alike.
pub proof fn lemma_wildcards_do_not_influence(
    sig: Seq<Token>,
    first: Seq<u8>,
    second: Seq<u8>,
    i: int,
)
    requires
        first.len() == second.len(),
        forall|j: int|
            0 <= j < sig.len() && 0 <= i && i + j < first.len() && (#[trigger] sig[j]) is Byte
                ==> first[i + j] == second[i + j],
    ensures
        matches_at(sig, first, i) == matches_at(sig, second, i),
{
    if 0 <= i && i + sig.len() <= first.len() {
        assert forall|j: int| 0 <= j < sig.len() implies (#[trigger] sig[j]).accepts(first[i + j])
            == sig[j].accepts(second[i + j]) by {}
    }
}

/// A signature longer than the region matches nowhere in it.
pub proof fn lemma_short_region_has_no_match(sig: Seq<Token>, mem: Seq<u8>)
    requires
        mem.len() < sig.len(),
    ensures
        first_match(sig, mem) is None,
{
    assert forall|k: int| !matches_at(sig, mem, k) by {}
}

/// A signature made of wildcards alone, no longer than the region, matches
/// first at offset 0.
pub proof fn lemma_wildcards_match_at_start(sig: Seq<Token>, mem: Seq<u8>)
    requires
        all_wildcards(sig),
        sig.len() <= mem.len(),
    ensures
        first_match(sig, mem) == Some(0int),
{
    assert(is_first_match(sig, mem, 0));
    lemma_first_match_is_least(sig, mem, 0);
}

/// If the bytes `pat` stand in `mem` at offset `o`, and no byte of `mem`
/// before `o` equals the first byte of `pat`, then the exact signature of
/// `pat` matches first at `o`.
pub proof fn lemma_embedded_bytes_found(pat: Seq<u8>, mem: Seq<u8>, o: int)
    requires
        pat.len() > 0,
        0 <= o,
        o + pat.len() <= mem.len(),
        mem.subrange(o, o + pat.len()) == pat,
        forall|k: int| 0 <= k < o ==> mem[k] != pat[0],
    ensures
        first_match(exact_signature(pat), mem) == Some(o),
{
    let sig = exact_signature(pat);
    assert forall|j: int| 0 <= j < sig.len() implies (#[trigger] sig[j]).accepts(mem[o + j]) by {
        assert(mem.subrange(o, o + pat.len())[j] == mem[o + j]);
    }
    assert forall|k: int| 0 <= k < o implies !matches_at(sig, mem, k) by {
        if matches_at(sig, mem, k) {
            assert(sig[0].accepts(mem[k + 0]));
        }
    }
    assert(is_first_match(sig, mem, o));
    lemma_first_match_is_least(sig, mem, o);
}

/// The address of the first match of `sig` in a region that starts at `base`.
pub open spec fn scan_result(sig: Seq<Token>, base: usize, mem: Seq<u8>) -> Option<usize> {
    match first_match(sig, mem) {
        Some(i) => Some((base + i) as usize),
        None => None,
    }
}

/// The most bytes that a search for a signature of `m` tokens reads in a
/// region of `n` bytes: none when the signature is longer than the region,
/// else `m` at each of the `n - m + 1` start offsets.
pub open spec fn read_bound(m: nat, n: nat) -> nat {
    if n < m {
        0
    } else {
        (m * (n - m + 1)) as nat
    }
}

/// Searches `region` for `sig` and returns the address of the first byte of
/// the earliest match, or `None` when the signature matches nowhere.
pub fn scan(sig: &Signature, region: &Region) -> (r: Option<usize>)
    ensures
        r == scan_result(sig@, region.base(), region.bytes()),
        r matches Some(a) ==> region.base() <= a && is_first_match(
            sig@,
            region.bytes(),
            a - region.base(),
        ),
        r is None ==> forall|k: int| !matches_at(sig@, region.bytes(), k),
        region.bytes().len() < sig@.len() ==> r is None,
        all_wildcards(sig@) && sig@.len() <= region.bytes().len() ==> r == Some(region.base()),
{
    scan_counting(sig, region).0
}

/// Searches as `scan` does, and says besides how many bytes of the region
/// were read: none at all when the signature is longer than the region, and
/// never more than the signature's length at each start offset.
pub fn scan_counting(sig: &Signature, region: &Region) -> (r: (Option<usize>, Ghost<nat>))
    ensures
        r.0 == scan_result(sig@, region.base(), region.bytes()),
        r.0 matches Some(a) ==> region.base() <= a && is_first_match(
            sig@,
            region.bytes(),
            a - region.base(),
        ),
        r.0 is None ==> forall|k: int| !matches_at(sig@, region.bytes(), k),
        region.bytes().len() < sig@.len() ==> r.0 is None && r.1@ == 0,
        all_wildcards(sig@) && sig@.len() <= region.bytes().len() ==> r.0 == Some(region.base()),
        r.1@ <= read_bound(sig@.len(), region.bytes().len()),
{
    let mut reads: Ghost<nat> = Ghost(0);
    let m: usize = sig.len();
    let n: usize = region.len();
    let base: usize = region.start();
    if n < m {
        proof {
            lemma_short_region_has_no_match(sig@, region.bytes());
        }
        return (None, reads);
    }
    let last: usize = n - m;
    let mut i: usize = 0;
    while i <= last
        invariant
            m == sig@.len(),
            n == region.bytes().len(),
            base == region.base(),
            base + n <= usize::MAX,
            0 < m <= n,
            last == n - m,
            i <= last + 1,
            forall|k: int| 0 <= k < i ==> !matches_at(sig@, region.bytes(), k),
            reads@ <= m * i,
        decreases last + 1 - i,
    {
        let found = matches_here(sig, region, i, &mut reads);
        proof {
            assert(m * (i + 1) == m * i + m) by (nonlinear_arith);
            assert(m * (i + 1) <= m * (last + 1)) by (nonlinear_arith)
                requires
                    i <= last,
            ;
        }
        if found {
            proof {
                lemma_first_match_is_least(sig@, region.bytes(), i as int);
                if all_wildcards(sig@) {
                    lemma_wildcards_match_at_start(sig@, region.bytes());
                }
            }
            return (Some(base + i), reads);
        }
        i += 1;
    }
    proof {
        assert forall|k: int| !matches_at(sig@, region.bytes(), k) by {}
        lemma_first_match_is_least(sig@, region.bytes(), 0);
        if all_wildcards(sig@) {
            lemma_wildcards_match_at_start(sig@, region.bytes());
        }
    }
    (None, reads)
}

/// Compares the signature with the bytes at offset `i`, token by token, and
/// stops at the first token that does not accept its byte.
fn matches_here(sig: &Signature, region: &Region, i: usize, reads: &mut Ghost<nat>) -> (r: bool)
    requires
        i + sig@.len() <= region.bytes().len(),
    ensures
        r == matches_at(sig@, region.bytes(), i as int),
        old(reads)@ <= final(reads)@ <= old(reads)@ + sig@.len(),
{
    let m: usize = sig.len();
    let n: usize = region.len();
    let mut j: usize = 0;
    while j < m
        invariant
            m == sig@.len(),
            n == region.bytes().len(),
            i + m <= n,
            j <= m,
            forall|t: int| 0 <= t < j ==> (#[trigger] sig@[t]).accepts(region.bytes()[i + t]),
            reads@ == old(reads)@ + j,
        decreases m - j,
    {
        let b: u8 = region.read(i + j, reads);
        if !sig.at(j).matches(b) {
            assert(!sig@[j as int].accepts(region.bytes()[i + j]));
            return false;
        }
        j += 1;
    }
    true
}

} // verus!
