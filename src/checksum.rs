//! The Internet checksum (RFC 1071) as used by IPv4 (RFC 791) and ICMP (RFC 792).
use vstd::prelude::*;

verus! {

/// The `k`-th big-endian 16-bit word of `s`; a trailing odd byte is the high half.
pub open spec fn word(s: Seq<u8>, k: int) -> nat {
    if 2 * k + 1 < s.len() {
        (s[2 * k] as nat) * 256 + (s[2 * k + 1] as nat)
    } else {
        (s[2 * k] as nat) * 256
    }
}

/// Number of 16-bit words that cover `s`.
pub open spec fn word_count(s: Seq<u8>) -> nat {
    ((s.len() + 1) / 2) as nat
}

/// Sum of the first `k` words of `s`, leaving out the word at index `skip`.
pub open spec fn words_sum(s: Seq<u8>, skip: int, k: nat) -> nat
    decreases k,
{
    if k == 0 {
        0
    } else {
        words_sum(s, skip, (k - 1) as nat) + if k - 1 == skip {
            0
        } else {
            word(s, k - 1)
        }
    }
}

/// End-around carry: fold the high bits back into the low 16 until it fits.
pub open spec fn fold16(x: nat) -> nat
    decreases x,
    via fold16_decreases
{
    if x < 0x10000 {
        x
    } else {
        fold16(x / 0x10000 + x % 0x10000)
    }
}

#[via_fn]
proof fn fold16_decreases(x: nat) {
    if x >= 0x10000 {
        assert(x / 0x10000 + x % 0x10000 < x) by (nonlinear_arith)
            requires x >= 0x10000;
    }
}

/// The ones' complement of the ones' complement sum of the words of `s`,
/// with the word at index `skip` (where the checksum itself goes) left out.
pub open spec fn internet_checksum(s: Seq<u8>, skip: int) -> u16 {
    (0xffff - fold16(words_sum(s, skip, word_count(s)))) as u16
}

/// Whether `s`, checksum field included, sums to all ones: the receiver's test.
pub open spec fn checksum_verifies(s: Seq<u8>) -> bool {
    fold16(words_sum(s, -1, word_count(s))) == 0xffff
}

/// Words outside the skipped one agree, so the sums agree.
proof fn lemma_words_sum_same(s: Seq<u8>, t: Seq<u8>, skip: int, m: nat)
    requires
        s.len() == t.len(),
        0 <= skip,
        2 * skip + 1 < s.len(),
        m <= word_count(s),
        forall|i: int|
            0 <= i < s.len() && i != 2 * skip && i != 2 * skip + 1 ==> s[i] == t[i],
    ensures
        words_sum(s, skip, m) == words_sum(t, skip, m),
    decreases m,
{
    if m > 0 {
        lemma_words_sum_same(s, t, skip, (m - 1) as nat);
        let j = m - 1;
        if j != skip {
            assert(s[2 * j] == t[2 * j]);
            if 2 * j + 1 < s.len() {
                assert(s[2 * j + 1] == t[2 * j + 1]);
            }
        }
    }
}

/// Summing every word is summing all but word `k`, plus word `k`.
proof fn lemma_words_sum_skip(t: Seq<u8>, k: int, m: nat)
    requires
        0 <= k,
    ensures
        words_sum(t, -1, m) == words_sum(t, k, m) + if k < m {
            word(t, k)
        } else {
            0
        },
    decreases m,
{
    if m > 0 {
        lemma_words_sum_skip(t, k, (m - 1) as nat);
    }
}

/// The end-around carry keeps the value modulo 65535, fits in 16 bits, and
/// is zero only for zero.
proof fn lemma_fold16(x: nat)
    ensures
        fold16(x) <= 0xffff,
        fold16(x) % 0xffff == x % 0xffff,
        x > 0 ==> fold16(x) > 0,
    decreases x,
{
    if x >= 0x10000 {
        let q = x / 0x10000;
        let r = x % 0x10000;
        let y = q + r;
        assert(x == 0x10000 * q + r && q >= 1 && y < x) by (nonlinear_arith)
            requires q == x / 0x10000, r == x % 0x10000, x >= 0x10000, y == q + r;
        assert(x == 0xffff * q + y);
        vstd::arithmetic::div_mod::lemma_mod_multiples_vanish(q as int, y as int, 0xffff);
        lemma_fold16(y);
    }
}

/// The checksum written into its own field makes the message verify.
pub proof fn lemma_checksum_verifies(s: Seq<u8>, k: int)
    requires
        0 <= k,
        2 * k + 1 < s.len(),
    ensures
        checksum_verifies(
            s.update(2 * k, (internet_checksum(s, k) / 256) as u8).update(
                2 * k + 1,
                (internet_checksum(s, k) % 256) as u8,
            ),
        ),
{
    let n = word_count(s);
    let ss = words_sum(s, k, n);
    let f = fold16(ss);
    lemma_fold16(ss);
    let c = internet_checksum(s, k);
    assert(c == 0xffff - f);
    let t = s.update(2 * k, (c / 256) as u8).update(2 * k + 1, (c % 256) as u8);
    assert(word_count(t) == n);
    lemma_words_sum_same(s, t, k, n);
    lemma_words_sum_skip(t, k, n);
    assert(word(t, k) == (c / 256) * 256 + c % 256);
    assert((c / 256) * 256 + c % 256 == c) by (nonlinear_arith);
    let total: nat = ss + c as nat;
    assert(words_sum(t, -1, n) == total);
    lemma_fold16(total);
    assert(total == ss - f + 0xffff);
    vstd::arithmetic::div_mod::lemma_mod_sub_multiples_vanish(total as int, 0xffff);
    assert((total as int) % 0xffff == 0) by {
        vstd::arithmetic::div_mod::lemma_sub_mod_noop(ss as int, f as int, 0xffff);
        vstd::arithmetic::div_mod::lemma_mod_adds(ss - f, 0xffff, 0xffff);
    }
    if ss == 0 {
        assert(fold16(0) == 0);
    }
    assert(total > 0);
}

/// How many leading bytes of `packet` pnet's `ipv4::checksum` takes as the
/// header: four times the header-length field, kept between 20 and the
/// length of the packet.
pub open spec fn ipv4_header_span(packet: Seq<u8>) -> int {
    let hl = (packet[0] % 16) as int * 4;
    if hl < 20 {
        20
    } else if hl > packet.len() {
        packet.len() as int
    } else {
        hl
    }
}

/// The checksum does not depend on what its own field holds.
pub proof fn lemma_checksum_ignores_field(s: Seq<u8>, t: Seq<u8>, k: int)
    requires
        s.len() == t.len(),
        0 <= k,
        2 * k + 1 < s.len(),
        forall|i: int| 0 <= i < s.len() && i != 2 * k && i != 2 * k + 1 ==> s[i] == t[i],
    ensures
        internet_checksum(s, k) == internet_checksum(t, k),
{
    lemma_words_sum_same(s, t, k, word_count(s));
}

/// A message carries the checksum of its other words at word `k`.
pub proof fn lemma_stored_checksum_verifies(s: Seq<u8>, k: int)
    requires
        0 <= k,
        2 * k + 1 < s.len(),
        (s[2 * k] as nat) * 256 + (s[2 * k + 1] as nat) == internet_checksum(s, k),
    ensures
        checksum_verifies(s),
{
    let c = internet_checksum(s, k);
    lemma_checksum_verifies(s, k);
    assert(c / 256 == s[2 * k] && c % 256 == s[2 * k + 1]) by (nonlinear_arith)
        requires
            (s[2 * k] as nat) * 256 + (s[2 * k + 1] as nat) == c,
            s[2 * k] < 256,
            s[2 * k + 1] < 256,
    ;
    assert(s.update(2 * k, (c / 256) as u8).update(2 * k + 1, (c % 256) as u8) =~= s);
}

/// A message verifies exactly when its checksum field holds the checksum of
/// its other words, or holds 0xffff where that checksum is 0 (the two forms
/// of zero in ones' complement).
pub proof fn lemma_verifies_iff(s: Seq<u8>, k: int)
    requires
        0 <= k,
        2 * k + 1 < s.len(),
    ensures
        checksum_verifies(s) <==> (word(s, k) == internet_checksum(s, k) || (internet_checksum(
            s,
            k,
        ) == 0 && word(s, k) == 0xffff)),
{
    let n = word_count(s);
    let ss = words_sum(s, k, n);
    let f = fold16(ss);
    lemma_fold16(ss);
    let x = word(s, k);
    assert(x <= 0xffff) by (nonlinear_arith)
        requires x == (s[2 * k] as nat) * 256 + (s[2 * k + 1] as nat), s[2 * k] < 256, s[2 * k + 1] < 256;
    lemma_words_sum_skip(s, k, n);
    let total: nat = ss + x;
    assert(words_sum(s, -1, n) == total);
    lemma_fold16(total);
    vstd::arithmetic::div_mod::lemma_add_mod_noop(ss as int, x as int, 0xffff);
    vstd::arithmetic::div_mod::lemma_add_mod_noop(f as int, x as int, 0xffff);
    vstd::arithmetic::div_mod::lemma_mod_twice(ss as int, 0xffff);
    assert((total as int) % 0xffff == ((f + x) as int) % 0xffff);
    if total == 0 {
        assert(fold16(0) == 0);
    }
    if ss == 0 {
        assert(fold16(0) == 0);
    }
}

/// Relies on pnet's `ipv4::checksum`: over the header of `packet` (the span
/// above) it sums the words but the one at index 5 (the checksum field) and
/// complements the folded sum.
#[verifier::external_body]
pub(crate) fn ipv4_header_checksum(packet: &[u8]) -> (r: u16)
    requires
        packet@.len() >= 20,
    ensures
        r == internet_checksum(packet@.subrange(0, ipv4_header_span(packet@)), 5),
{
    let packet = pnet::packet::ipv4::Ipv4Packet::new(packet).unwrap();
    pnet::packet::ipv4::checksum(&packet)
}

/// Relies on pnet's `icmp::checksum`: over the whole ICMP message it sums the
/// words but the one at index 1 (the checksum field) and complements the
/// folded sum. The bound on the length keeps pnet's 32-bit sum from overflowing.
#[verifier::external_body]
pub(crate) fn icmp_message_checksum(message: &[u8]) -> (r: u16)
    requires
        4 <= message@.len() <= 0xffff,
    ensures
        r == internet_checksum(message@, 1),
{
    let packet = pnet::packet::icmp::IcmpPacket::new(message).unwrap();
    pnet::packet::icmp::checksum(&packet)
}

} // verus!
