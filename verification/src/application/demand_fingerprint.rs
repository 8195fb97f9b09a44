//! Demand fingerprinting for session transcript matching.

use vstd::prelude::*;

use crate::text::{
    ascii_lower, eq_ignore_ascii_case, fmt_hex, hex_digits, is_ascii_text, lowercase, to_lowercase,
    trim, trim_str,
};

verus! {

/// The 64-bit value that `std`'s default hasher (`DefaultHasher`, created
/// fresh with its fixed keys) computes for a string with these characters.
pub uninterp spec fn demand_hash(s: Seq<char>) -> u64;

/// Calls `BuildHasher::hash_one` on a `BuildHasherDefault<DefaultHasher>`:
/// a fresh `DefaultHasher` hashes `s` and returns `finish()`. `DefaultHasher::new`
/// uses fixed keys (no per-process seed), so the result depends on `s` alone;
/// which value it is (SipHash) is not restated here.
#[verifier::external_body]
fn hash_text(s: &str) -> (r: u64)
    ensures
        r == demand_hash(s@),
{
    std::hash::BuildHasher::hash_one(
        &std::hash::BuildHasherDefault::<std::collections::hash_map::DefaultHasher>::default(),
        s,
    )
}

/// The fingerprint of `demand`: 16 lowercase hex digits of the hash of the
/// trimmed, lowercased demand.
pub open spec fn fingerprint_of(demand: Seq<char>) -> Seq<char> {
    hex_digits(demand_hash(lowercase(trim(demand))) as nat, 16)
}

/// The fingerprint of an ASCII demand, with the lowercasing spelled out.
pub open spec fn ascii_fingerprint(demand: Seq<char>) -> Seq<char> {
    hex_digits(demand_hash(trim(demand).map_values(|c: char| ascii_lower(c))) as nat, 16)
}

/// Produce a hex fingerprint for a demand string. A fast, deterministic,
/// non-cryptographic hash, sufficient for local session matching.
pub fn fingerprint(demand: &str) -> (r: String)
    ensures
        r@ == fingerprint_of(demand@),
        r@.len() == 16,
        is_ascii_text(trim(demand@)) ==> r@ == ascii_fingerprint(demand@),
{
    let trimmed = trim_str(demand);
    let normalized = to_lowercase(trimmed.as_str());
    let h = hash_text(normalized.as_str());
    let r = fmt_hex(h, 16);
    proof {
        lemma_hex_len(h as nat, 16);
    }
    r
}

/// `hex_digits(n, k)` has exactly `k` characters.
pub proof fn lemma_hex_len(n: nat, k: nat)
    ensures
        hex_digits(n, k).len() == k,
    decreases k,
{
    if k > 0 {
        lemma_hex_len(n / 16, (k - 1) as nat);
    }
}

/// Demands that trim to the same text have the same fingerprint: surrounding
/// whitespace never changes a fingerprint.
pub proof fn lemma_fingerprint_ignores_whitespace(a: Seq<char>, b: Seq<char>)
    requires
        trim(a) == trim(b),
    ensures
        fingerprint_of(a) == fingerprint_of(b),
{
}

/// ASCII demands that are equal up to case and surrounding whitespace have
/// the same fingerprint.
pub proof fn lemma_fingerprint_ignores_ascii_case(a: Seq<char>, b: Seq<char>)
    requires
        is_ascii_text(trim(a)),
        is_ascii_text(trim(b)),
        eq_ignore_ascii_case(trim(a), trim(b)),
    ensures
        ascii_fingerprint(a) == ascii_fingerprint(b),
{
    assert(trim(a).map_values(|c: char| ascii_lower(c)) =~= trim(b).map_values(
        |c: char| ascii_lower(c),
    ));
}

} // verus!
