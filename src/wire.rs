//! Byte-level helpers shared by the frame builder and the reply classifier:
//! big-endian fields and the Internet checksum.
use vstd::prelude::*;

verus! {

/// The big-endian 16-bit value of two bytes.
pub open spec fn be16(hi: u8, lo: u8) -> nat {
    hi as nat * 256 + lo as nat
}

/// The big-endian 16-bit value stored at `s[i]`, `s[i + 1]`.
pub open spec fn be16_at(s: Seq<u8>, i: int) -> nat {
    be16(s[i], s[i + 1])
}

/// The big-endian 32-bit value stored at `s[i..i + 4]`.
pub open spec fn be32_at(s: Seq<u8>, i: int) -> nat {
    be16_at(s, i) * 65536 + be16_at(s, i + 2)
}

/// The two bytes of `v`, most significant first.
pub open spec fn u16_bytes(v: u16) -> Seq<u8> {
    seq![(v / 256) as u8, (v % 256) as u8]
}

/// The four octets of an IPv4 address, most significant first.
pub open spec fn ipv4_octets(a: u32) -> Seq<u8> {
    seq![(a / 16777216) as u8, ((a / 65536) % 256) as u8, ((a / 256) % 256) as u8, (a % 256) as u8]
}

/// The sum of the big-endian 16-bit words of `data`, leaving out the word
/// with index `skip` (no word is left out when `skip` is negative or past the end).
pub open spec fn word_sum(data: Seq<u8>, skip: int) -> nat
    decreases data.len(),
{
    if data.len() < 2 {
        0
    } else {
        (if skip == 0 { 0 } else { be16(data[0], data[1]) }) + word_sum(
            data.subrange(2, data.len() as int),
            skip - 1,
        )
    }
}

/// Adds the carries above 16 bits back in until the value fits in 16 bits.
pub open spec fn fold_carries(s: nat) -> nat
    decreases s,
{
    if s < 0x10000 {
        s
    } else {
        fold_carries(s / 0x10000 + s % 0x10000)
    }
}

/// The Internet checksum (one's complement of the one's-complement sum) of
/// `data` with word `skip` left out.
pub open spec fn checksum_of(data: Seq<u8>, skip: int) -> int {
    0xFFFF - fold_carries(word_sum(data, skip))
}

/// A 16-bit one's-complement sum over `data` that comes out all ones: what a
/// receiver checks of a header whose checksum field is filled in.
pub open spec fn checksum_verifies(data: Seq<u8>) -> bool {
    fold_carries(word_sum(data, -1)) == 0xFFFF
}

pub proof fn lemma_fold_carries_bounds(s: nat)
    ensures
        fold_carries(s) < 0x10000,
        s > 0 ==> fold_carries(s) > 0,
        fold_carries(s) % 0xFFFF == s % 0xFFFF,
    decreases s,
{
    if s >= 0x10000 {
        let t = s / 0x10000 + s % 0x10000;
        assert(s == 0x10000 * (s / 0x10000) + s % 0x10000);
        assert(t % 0xFFFF == s % 0xFFFF) by (nonlinear_arith)
            requires
                s == 0x10000 * (s / 0x10000) + s % 0x10000,
                t == s / 0x10000 + s % 0x10000,
        {
            assert(s == t + 0xFFFF * (s / 0x10000));
        }
        lemma_fold_carries_bounds(t);
    }
}

/// Writing the big-endian word `w` at word index `k` of `data` adds `w` to the
/// sum that leaves nothing out, over the sum that leaves word `k` out.
pub proof fn lemma_word_sum_fill(data: Seq<u8>, k: int, hi: u8, lo: u8)
    requires
        0 <= k,
        2 * k + 1 < data.len(),
    ensures
        word_sum(data.update(2 * k, hi).update(2 * k + 1, lo), -1) == word_sum(data, k) + be16(
            hi,
            lo,
        ),
    decreases k,
{
    let filled = data.update(2 * k, hi).update(2 * k + 1, lo);
    if k == 0 {
        assert(filled.subrange(2, filled.len() as int) =~= data.subrange(2, data.len() as int));
        lemma_word_sum_no_skip(data.subrange(2, data.len() as int), -2, -1);
    } else {
        let rest = data.subrange(2, data.len() as int);
        lemma_word_sum_fill(rest, k - 1, hi, lo);
        lemma_word_sum_no_skip(rest.update(2 * (k - 1), hi).update(2 * (k - 1) + 1, lo), -2, -1);
        assert(filled.subrange(2, filled.len() as int) =~= rest.update(2 * (k - 1), hi).update(
            2 * (k - 1) + 1,
            lo,
        ));
    }
}

/// Two negative skips mean the same: no word is left out.
pub proof fn lemma_word_sum_no_skip(data: Seq<u8>, a: int, b: int)
    requires
        a < 0,
        b < 0,
    ensures
        word_sum(data, a) == word_sum(data, b),
    decreases data.len(),
{
    if data.len() >= 2 {
        lemma_word_sum_no_skip(data.subrange(2, data.len() as int), a - 1, b - 1);
    }
}

/// Filling word `k` with the checksum computed over `data` with that word left
/// out gives data whose checksum verifies.
pub proof fn lemma_checksum_fill_verifies(data: Seq<u8>, k: int, c: u16)
    requires
        0 <= k,
        2 * k + 1 < data.len(),
        c as int == checksum_of(data, k),
    ensures
        checksum_verifies(data.update(2 * k, (c / 256) as u8).update(2 * k + 1, (c % 256) as u8)),
{
    let s = word_sum(data, k);
    lemma_word_sum_fill(data, k, (c / 256) as u8, (c % 256) as u8);
    assert(be16((c / 256) as u8, (c % 256) as u8) == c);
    lemma_fold_carries_bounds(s);
    let f = fold_carries(s);
    let t: nat = s + c as nat;
    assert(t == s + 0xFFFF - f);
    lemma_fold_carries_bounds(t);
    assert(t % 0xFFFF == 0) by (nonlinear_arith)
        requires
            f % 0xFFFF == s % 0xFFFF,
            t == s + 0xFFFF - f,
            f <= s,
    {
    }
    if s == 0 {
        assert(f == 0);
    }
    assert(t > 0);
}

/// Relies on pnet::util::checksum: for non-empty data of even length it sums
/// the big-endian 16-bit words into a u32, skipping word `skipword`, folds the
/// carries back in and returns the complement.
#[verifier::external_body]
pub(crate) fn internet_checksum(data: &[u8], skipword: usize) -> (r: u16)
    requires
        0 < data@.len() <= 65536,
        data@.len() % 2 == 0,
    ensures
        r as int == checksum_of(data@, skipword as int),
{
    pnet::util::checksum(data, skipword)
}

} // verus!
