//! The Internet checksum: the ones'-complement of the ones'-complement sum
//! of the 16-bit big-endian words of a frame.

use vstd::prelude::*;

verus! {

/// Ones'-complement addition of two 16-bit quantities: a carry out of bit 15
/// is added back in at bit 0.
pub open spec fn end_around_add(a: nat, b: nat) -> nat {
    if a + b > 0xFFFF {
        (a + b - 0xFFFF) as nat
    } else {
        a + b
    }
}

/// The ones'-complement sum of the 16-bit big-endian words of `bytes`. A
/// trailing odd byte counts as the high half of a word whose low half is zero.
pub open spec fn ones_complement_sum(bytes: Seq<u8>) -> nat
    decreases bytes.len(),
{
    let n = bytes.len() as int;
    if n == 0 {
        0
    } else if n % 2 == 1 {
        end_around_add(ones_complement_sum(bytes.take(n - 1)), bytes[n - 1] as nat * 256)
    } else {
        end_around_add(
            ones_complement_sum(bytes.take(n - 2)),
            bytes[n - 2] as nat * 256 + bytes[n - 1] as nat,
        )
    }
}

/// The Internet checksum of `bytes`: the ones'-complement (bitwise inverse in
/// 16 bits) of their ones'-complement sum.
pub open spec fn internet_checksum(bytes: Seq<u8>) -> nat {
    (0xFFFF - ones_complement_sum(bytes)) as nat
}

/// The weight with which the byte at offset `i` enters the arithmetic sum of
/// the words: 256 for the high half of a word, 1 for the low half.
pub open spec fn byte_weight(i: int) -> nat {
    if i % 2 == 0 {
        256
    } else {
        1
    }
}

/// The plain arithmetic sum of the words of `bytes`, without any folding.
pub open spec fn weighted_sum(bytes: Seq<u8>) -> nat
    decreases bytes.len(),
{
    if bytes.len() == 0 {
        0
    } else {
        weighted_sum(bytes.drop_last()) + bytes.last() as nat * byte_weight(bytes.len() - 1)
    }
}

/// The ones'-complement sum never leaves 16 bits.
pub proof fn lemma_sum_in_range(bytes: Seq<u8>)
    ensures
        ones_complement_sum(bytes) <= 0xFFFF,
    decreases bytes.len(),
{
    let n = bytes.len() as int;
    if n == 0 {
    } else if n % 2 == 1 {
        lemma_sum_in_range(bytes.take(n - 1));
    } else {
        lemma_sum_in_range(bytes.take(n - 2));
    }
}

/// The ones'-complement sum is the arithmetic sum of the words reduced modulo
/// 65535, except that a non-zero multiple of 65535 is kept as 0xFFFF: the sum
/// is zero only when every byte is zero.
pub proof fn lemma_sum_is_weighted_sum_folded(bytes: Seq<u8>)
    ensures
        ones_complement_sum(bytes) <= 0xFFFF,
        ones_complement_sum(bytes) % 65535 == weighted_sum(bytes) % 65535,
        ones_complement_sum(bytes) == 0 <==> weighted_sum(bytes) == 0,
    decreases bytes.len(),
{
    let n = bytes.len() as int;
    if n == 0 {
    } else if n % 2 == 1 {
        let head = bytes.take(n - 1);
        lemma_sum_is_weighted_sum_folded(head);
        assert(bytes.drop_last() == head);
        let s = ones_complement_sum(head);
        let w = weighted_sum(head);
        let t = bytes[n - 1] as nat * 256;
        assert(byte_weight(n - 1) == 256);
        assert(weighted_sum(bytes) == w + t);
        lemma_end_around_add_mod(s, t, w);
    } else {
        let head = bytes.take(n - 2);
        lemma_sum_is_weighted_sum_folded(head);
        let mid = bytes.drop_last();
        assert(mid.drop_last() == head);
        assert(mid.last() == bytes[n - 2]);
        let s = ones_complement_sum(head);
        let w = weighted_sum(head);
        let t = bytes[n - 2] as nat * 256 + bytes[n - 1] as nat;
        assert(byte_weight(n - 2) == 256);
        assert(byte_weight(n - 1) == 1);
        assert(mid.len() == n - 1);
        assert(weighted_sum(mid) == w + bytes[n - 2] as nat * 256);
        assert(bytes.last() == bytes[n - 1]);
        assert(weighted_sum(bytes) == weighted_sum(mid) + bytes[n - 1] as nat * 1);
        assert(weighted_sum(bytes) == w + t);
        lemma_end_around_add_mod(s, t, w);
    }
}

/// One step of the folding argument: adding a word `t` with end-around carry
/// to a sum `s` that stands for `w` gives a sum that stands for `w + t`.
proof fn lemma_end_around_add_mod(s: nat, t: nat, w: nat)
    requires
        s <= 0xFFFF,
        t <= 0xFFFF,
        s % 65535 == w % 65535,
        s == 0 <==> w == 0,
    ensures
        end_around_add(s, t) <= 0xFFFF,
        end_around_add(s, t) % 65535 == (w + t) % 65535,
        end_around_add(s, t) == 0 <==> w + t == 0,
{
    let r = end_around_add(s, t);
    assert(r % 65535 == (s + t) % 65535) by {
        if s + t > 0xFFFF {
            vstd::arithmetic::div_mod::lemma_mod_sub_multiples_vanish((s + t) as int, 65535);
        }
    }
    assert((s + t) % 65535 == (w + t) % 65535) by {
        vstd::arithmetic::div_mod::lemma_add_mod_noop(s as int, t as int, 65535);
        vstd::arithmetic::div_mod::lemma_add_mod_noop(w as int, t as int, 65535);
    }
}

/// Changing one byte moves the arithmetic sum of the words by the change of
/// that byte times its weight.
pub proof fn lemma_weighted_sum_update(bytes: Seq<u8>, position: int, byte: u8)
    requires
        0 <= position < bytes.len(),
    ensures
        weighted_sum(bytes.update(position, byte)) + bytes[position] as nat * byte_weight(position)
            == weighted_sum(bytes) + byte as nat * byte_weight(position),
    decreases bytes.len(),
{
    let changed = bytes.update(position, byte);
    if position == bytes.len() - 1 {
        assert(changed.drop_last() == bytes.drop_last());
    } else {
        assert(changed.drop_last() == bytes.drop_last().update(position, byte));
        lemma_weighted_sum_update(bytes.drop_last(), position, byte);
    }
}

/// Changing one byte changes the ones'-complement sum.
pub proof fn lemma_sum_changes_with_byte(bytes: Seq<u8>, position: int, byte: u8)
    requires
        0 <= position < bytes.len(),
        byte != bytes[position],
    ensures
        ones_complement_sum(bytes.update(position, byte)) != ones_complement_sum(bytes),
{
    let changed = bytes.update(position, byte);
    lemma_sum_is_weighted_sum_folded(bytes);
    lemma_sum_is_weighted_sum_folded(changed);
    lemma_weighted_sum_update(bytes, position, byte);
    let w = byte_weight(position);
    let gap = (byte as int - bytes[position] as int) * w;
    assert(weighted_sum(changed) - weighted_sum(bytes) == gap) by (nonlinear_arith)
        requires
            weighted_sum(changed) + bytes[position] as nat * w == weighted_sum(bytes) + byte as nat
                * w,
            gap == (byte as int - bytes[position] as int) * w,
    ;
    assert(-65535 < gap < 65535 && gap != 0) by (nonlinear_arith)
        requires
            gap == (byte as int - bytes[position] as int) * w,
            w == 1 || w == 256,
            byte != bytes[position],
    ;
    if ones_complement_sum(changed) == ones_complement_sum(bytes) {
        vstd::arithmetic::div_mod::lemma_mod_equivalence(
            weighted_sum(changed) as int,
            weighted_sum(bytes) as int,
            65535,
        );
        assert(gap % 65535 == 0);
        assert(false);
    }
}

/// The ones'-complement sum of the words of `bytes`.
pub fn ones_sum(bytes: &[u8]) -> (sum: u16)
    ensures
        sum == ones_complement_sum(bytes@),
{
    let n = bytes.len();
    let mut acc: u32 = 0;
    let mut i: usize = 0;
    while i + 1 < n
        invariant
            n == bytes@.len(),
            i <= n,
            i % 2 == 0,
            acc <= 0xFFFF,
            acc == ones_complement_sum(bytes@.take(i as int)),
        decreases n - i,
    {
        let word: u32 = (bytes[i] as u32) * 256 + (bytes[i + 1] as u32);
        proof {
            let next = bytes@.take(i + 2);
            assert(next.take(i as int) == bytes@.take(i as int));
            assert(next[i as int] == bytes@[i as int]);
            assert(next[i + 1] == bytes@[i + 1]);
        }
        acc = acc + word;
        if acc > 0xFFFF {
            acc = acc - 0xFFFF;
        }
        i = i + 2;
    }
    if i < n {
        let word: u32 = (bytes[i] as u32) * 256;
        proof {
            assert(bytes@.take(n as int) == bytes@);
            assert(bytes@.take(n - 1) == bytes@.take(i as int));
        }
        acc = acc + word;
        if acc > 0xFFFF {
            acc = acc - 0xFFFF;
        }
    } else {
        proof {
            assert(bytes@.take(n as int) == bytes@);
        }
    }
    acc as u16
}

/// The Internet checksum of `bytes`.
pub fn checksum_of(bytes: &[u8]) -> (sum: u16)
    ensures
        sum == internet_checksum(bytes@),
{
    let s = ones_sum(bytes);
    0xFFFF - s
}

} // verus!
