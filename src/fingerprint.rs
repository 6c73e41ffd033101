//! From an input string to its digest and to the eight selectors.

use vstd::prelude::*;

verus! {

/// The MD5 digest of the UTF-8 bytes of a string.
pub uninterp spec fn md5_of(s: Seq<char>) -> Seq<u8>;

/// Relies on `md5::compute`: the 16-byte MD5 digest of the string's UTF-8
/// bytes, a function of the string alone.
#[verifier::external_body]
fn md5_digest(input: &str) -> (r: [u8; 16])
    ensures
        r@ == md5_of(input@),
{
    md5::compute(input).0
}

/// Selector `i` of a digest: the `i`-th pair of bytes read big-endian,
/// reduced modulo ten.
pub open spec fn bucket(h: Seq<u8>, i: int) -> u8 {
    ((h[2 * i] as int * 256 + h[2 * i + 1] as int) % 10) as u8
}

/// The eight selectors of a 16-byte digest.
pub open spec fn buckets_of(h: Seq<u8>) -> Seq<u8> {
    Seq::new(8, |i: int| bucket(h, i))
}

/// Splits a digest into eight big-endian pairs and reduces each modulo ten.
pub fn get_buckets(hash: &[u8; 16]) -> (r: [u8; 8])
    ensures
        r@ == buckets_of(hash@),
        forall|i: int| 0 <= i < 8 ==> r@[i] <= 9,
{
    let mut buckets: [u8; 8] = [0u8; 8];
    let mut i: usize = 0;
    while i < 8
        invariant
            0 <= i <= 8,
            forall|j: int| 0 <= j < i ==> buckets@[j] == bucket(hash@, j),
        decreases 8 - i,
    {
        let pair_value: u16 = hash[i * 2] as u16 * 256 + hash[i * 2 + 1] as u16;
        buckets[i] = (pair_value % 10) as u8;
        i = i + 1;
    }
    assert(buckets@ =~= buckets_of(hash@));
    buckets
}

/// The eight selectors of a string: its MD5 digest, bucketed.
pub fn selectors_of(input: &str) -> (r: [u8; 8])
    ensures
        r@ == buckets_of(md5_of(input@)),
        forall|i: int| 0 <= i < 8 ==> r@[i] <= 9,
{
    let hash = md5_digest(input);
    get_buckets(&hash)
}

/// Every selector of every string lies in `0..=9`.
pub proof fn lemma_selectors_in_range(input: Seq<char>)
    ensures
        forall|i: int| 0 <= i < 8 ==> #[trigger] buckets_of(md5_of(input))[i] <= 9,
{
}

} // verus!
