//! The Internet checksum: the ones' complement of the ones' complement
//! sum of the data, taken as big-endian 16-bit words.

use vstd::prelude::*;

verus! {

/// The sum of the big-endian 16-bit words of `bytes`. A last odd byte
/// counts as the high byte of a word whose low byte is zero.
pub open spec fn word_sum(bytes: Seq<u8>) -> nat
    decreases bytes.len(),
{
    if bytes.len() == 0 {
        0
    } else if bytes.len() == 1 {
        bytes[0] as nat * 0x100
    } else {
        bytes[0] as nat * 0x100 + bytes[1] as nat + word_sum(bytes.skip(2))
    }
}

/// `n` with every carry out of the low 16 bits added back in.
pub open spec fn fold_carries(n: nat) -> nat
    decreases n,
{
    if n <= 0xffff {
        n
    } else {
        fold_carries(n / 0x1_0000 + n % 0x1_0000)
    }
}

/// The Internet checksum of `bytes`.
pub open spec fn internet_checksum(bytes: Seq<u8>) -> u16 {
    (0xffff - fold_carries(word_sum(bytes))) as u16
}

/// `p` with the big-endian bytes of `v` at `at` and `at + 1`.
pub open spec fn put16(p: Seq<u8>, at: int, v: u16) -> Seq<u8> {
    p.update(at, (v / 0x100) as u8).update(at + 1, (v % 0x100) as u8)
}

/// Whether data that holds its own checksum passes the check of the
/// receiver: its words, the checksum among them, sum to all ones.
pub open spec fn verifies(bytes: Seq<u8>) -> bool {
    fold_carries(word_sum(bytes)) == 0xffff
}

/// Folding leaves a 16-bit value.
pub proof fn lemma_fold_carries_fits(n: nat)
    ensures
        fold_carries(n) <= 0xffff,
    decreases n,
{
    if n > 0xffff {
        lemma_fold_carries_fits(n / 0x1_0000 + n % 0x1_0000);
    }
}

/// Each pair of bytes adds at most one full word to the sum.
pub proof fn lemma_word_sum_bound(bytes: Seq<u8>)
    ensures
        word_sum(bytes) <= 0xffff * ((bytes.len() + 1) / 2),
    decreases bytes.len(),
{
    if bytes.len() >= 2 {
        lemma_word_sum_bound(bytes.skip(2));
    }
}

/// Folding keeps the remainder modulo `0xffff`, and what is not zero does
/// not become zero.
pub proof fn lemma_fold_carries_remainder(n: nat)
    ensures
        fold_carries(n) % 0xffff == n % 0xffff,
        n > 0 ==> fold_carries(n) > 0,
    decreases n,
{
    if n > 0xffff {
        let q = n / 0x1_0000;
        let r = n % 0x1_0000;
        lemma_fold_carries_remainder(q + r);
        assert(n == (q + r) + q * 0xffff);
        assert(((q + r) + q * 0xffff) % 0xffff == (q + r) % 0xffff) by {
            vstd::arithmetic::div_mod::lemma_mod_multiples_vanish(
                q as int,
                (q + r) as int,
                0xffff,
            );
        }
    }
}

/// A word written over two zero bytes at an even position adds its value
/// to the sum of the words.
pub proof fn lemma_word_sum_put16(bytes: Seq<u8>, at: int, v: u16)
    requires
        0 <= at,
        at % 2 == 0,
        at + 2 <= bytes.len(),
        bytes[at] == 0,
        bytes[at + 1] == 0,
    ensures
        word_sum(put16(bytes, at, v)) == word_sum(bytes) + v,
    decreases at,
{
    let put = put16(bytes, at, v);
    if at == 0 {
        assert(put.skip(2) =~= bytes.skip(2));
    } else {
        lemma_word_sum_put16(bytes.skip(2), at - 2, v);
        assert(put.skip(2) =~= put16(bytes.skip(2), at - 2, v));
    }
}

/// Data with its checksum put in where two zero bytes stood, at an even
/// position, passes the check of the receiver.
pub proof fn law_checksum_verifies(bytes: Seq<u8>, at: int)
    requires
        0 <= at,
        at % 2 == 0,
        at + 2 <= bytes.len(),
        bytes[at] == 0,
        bytes[at + 1] == 0,
    ensures
        verifies(put16(bytes, at, internet_checksum(bytes))),
{
    let sum = word_sum(bytes);
    let folded = fold_carries(sum);
    lemma_fold_carries_fits(sum);
    lemma_fold_carries_remainder(sum);
    lemma_word_sum_put16(bytes, at, internet_checksum(bytes));
    let total = (sum + 0xffff - folded) as nat;
    assert(word_sum(put16(bytes, at, internet_checksum(bytes))) == total);
    lemma_fold_carries_fits(total);
    lemma_fold_carries_remainder(total);
    assert(folded <= sum) by {
        lemma_fold_carries_shrinks(sum);
    }
    assert(total % 0xffff == 0) by {
        let k = sum / 0xffff;
        let j = folded / 0xffff;
        vstd::arithmetic::div_mod::lemma_fundamental_div_mod(sum as int, 0xffff);
        vstd::arithmetic::div_mod::lemma_fundamental_div_mod(folded as int, 0xffff);
        assert(total == 0xffff * (k - j + 1));
        vstd::arithmetic::div_mod::lemma_mod_multiples_basic(k - j + 1, 0xffff);
        assert(0xffff * (k - j + 1) == (k - j + 1) * 0xffff) by (nonlinear_arith);
    }
}

/// Folding never makes a number larger.
pub proof fn lemma_fold_carries_shrinks(n: nat)
    ensures
        fold_carries(n) <= n,
    decreases n,
{
    if n > 0xffff {
        lemma_fold_carries_shrinks(n / 0x1_0000 + n % 0x1_0000);
    }
}

/// The sum of the words of `bytes`.
fn sum_words(bytes: &Vec<u8>) -> (sum: u128)
    ensures
        sum == word_sum(bytes@),
{
    let n = bytes.len();
    let mut sum: u128 = 0;
    let mut i: usize = 0;
    proof {
        lemma_word_sum_bound(bytes@);
        assert(bytes@.skip(0) =~= bytes@);
    }
    while n - i >= 2
        invariant
            i <= n,
            n == bytes.len(),
            sum + word_sum(bytes@.skip(i as int)) == word_sum(bytes@),
            word_sum(bytes@) <= 0xffff * ((n + 1) / 2),
        decreases n - i,
    {
        proof {
            let rest = bytes@.skip(i as int);
            assert(rest.skip(2) =~= bytes@.skip(i + 2));
            assert(rest[0] == bytes@[i as int] && rest[1] == bytes@[i + 1]);
        }
        sum = sum + (bytes[i] as u128) * 0x100 + bytes[i + 1] as u128;
        i += 2;
    }
    if i < n {
        proof {
            let rest = bytes@.skip(i as int);
            assert(rest.len() == 1);
            assert(rest[0] == bytes@[i as int]);
        }
        sum = sum + (bytes[i] as u128) * 0x100;
    } else {
        assert(bytes@.skip(i as int).len() == 0);
    }
    sum
}

/// The Internet checksum of `bytes`.
pub fn checksum(bytes: &Vec<u8>) -> (sum: u16)
    ensures
        sum == internet_checksum(bytes@),
{
    let mut n: u128 = sum_words(bytes);
    let ghost total = n as nat;
    while n > 0xffff
        invariant
            fold_carries(n as nat) == fold_carries(total),
        decreases n,
    {
        n = n / 0x1_0000 + n % 0x1_0000;
    }
    0xffff - n as u16
}

} // verus!
