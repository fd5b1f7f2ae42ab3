//! Big integers of the wire form: decimal text read into 32 big-endian bytes.
use crate::decimal::{all_digits, decimal_value, digit_value, is_digit, lemma_decimal_value_prefix_mono};
use vstd::prelude::*;

verus! {

/// Width of a wire big integer in bytes.
pub const BIG_WIDTH: usize = 32;

pub open spec fn pow256(k: nat) -> nat
    decreases k,
{
    if k == 0 {
        1
    } else {
        256 * pow256((k - 1) as nat)
    }
}

/// The number that big-endian bytes denote.
pub open spec fn be_value(s: Seq<u8>) -> nat
    decreases s.len(),
{
    if s.len() == 0 {
        0
    } else {
        be_value(s.drop_last()) * 256 + s.last() as nat
    }
}

/// The `k` big-endian bytes of `v` (modulo 256^k).
pub open spec fn be_bytes(v: nat, k: nat) -> Seq<u8>
    decreases k,
{
    if k == 0 {
        Seq::empty()
    } else {
        be_bytes(v / 256, (k - 1) as nat).push((v % 256) as u8)
    }
}

/// Bytes are the big-endian bytes of the number they denote.
pub proof fn lemma_be_bytes_of_value(s: Seq<u8>)
    ensures
        s == be_bytes(be_value(s), s.len()),
    decreases s.len(),
{
    if s.len() > 0 {
        let q = be_value(s.drop_last());
        let r = s.last() as nat;
        vstd::arithmetic::div_mod::lemma_fundamental_div_mod_converse(
            be_value(s) as int,
            256,
            q as int,
            r as int,
        );
        lemma_be_bytes_of_value(s.drop_last());
        assert(s =~= s.drop_last().push(s.last()));
    }
}

/// The largest number of `k` bytes is `k` bytes of `0xff`.
pub proof fn lemma_all_ones(k: nat)
    ensures
        be_bytes((pow256(k) - 1) as nat, k) == Seq::new(k, |i: int| 0xffu8),
    decreases k,
{
    lemma_pow256_pos(k);
    if k > 0 {
        let p = pow256((k - 1) as nat);
        lemma_pow256_pos((k - 1) as nat);
        lemma_all_ones((k - 1) as nat);
        vstd::arithmetic::div_mod::lemma_fundamental_div_mod_converse(
            pow256(k) - 1,
            256,
            p - 1,
            255,
        );
        assert(be_bytes((pow256(k) - 1) as nat, k) =~= Seq::new(k, |i: int| 0xffu8));
    } else {
        assert(be_bytes((pow256(k) - 1) as nat, k) =~= Seq::new(k, |i: int| 0xffu8));
    }
}

/// What reading decimal text as an unsigned 256-bit integer gives: digits
/// only (the empty text reads as zero), and a value below 2^256.
pub open spec fn big_decimal_spec(s: Seq<char>) -> Option<nat> {
    if all_digits(s) && decimal_value(s) < pow256(BIG_WIDTH as nat) {
        Some(decimal_value(s))
    } else {
        None
    }
}

pub proof fn lemma_pow256_pos(k: nat)
    ensures
        pow256(k) >= 1,
    decreases k,
{
    if k > 0 {
        lemma_pow256_pos((k - 1) as nat);
    }
}

proof fn lemma_be_value_prepend(a: u8, t: Seq<u8>)
    ensures
        be_value(seq![a] + t) == a as nat * pow256(t.len()) + be_value(t),
    decreases t.len(),
{
    if t.len() == 0 {
        assert((seq![a] + t).drop_last() =~= Seq::<u8>::empty());
        assert((seq![a] + t).last() == a);
        assert(be_value(Seq::<u8>::empty()) == 0);
        assert(pow256(0) == 1);
    } else {
        let u = seq![a] + t;
        assert(u.drop_last() =~= seq![a] + t.drop_last());
        lemma_be_value_prepend(a, t.drop_last());
        let p = pow256((t.len() - 1) as nat);
        assert(pow256(t.len()) == 256 * p);
        assert((a as nat * p + be_value(t.drop_last())) * 256 + t.last() as nat == a as nat * (256 * p)
            + (be_value(t.drop_last()) * 256 + t.last() as nat)) by (nonlinear_arith);
    }
}

proof fn lemma_be_value_bound(s: Seq<u8>)
    ensures
        be_value(s) < pow256(s.len()),
    decreases s.len(),
{
    if s.len() > 0 {
        lemma_be_value_bound(s.drop_last());
        let p = pow256((s.len() - 1) as nat);
        let v = be_value(s.drop_last());
        let l = s.last() as nat;
        assert(v * 256 + l < 256 * p) by (nonlinear_arith)
            requires
                v < p,
                l < 256,
        ;
    }
}

/// Multiplies the big-endian number in `b` by ten and adds `d`, in place;
/// returns what overflows the width.
fn mul10_add(b: &mut Vec<u8>, d: u8) -> (carry: u32)
    requires
        d < 10,
    ensures
        final(b)@.len() == old(b)@.len(),
        be_value(final(b)@) + carry as nat * pow256(old(b)@.len()) == 10 * be_value(old(b)@) + d as nat,
{
    let ghost orig = b@;
    let n = b.len();
    let mut carry: u32 = d as u32;
    let mut i: usize = n;
    assert(b@.subrange(n as int, n as int) =~= Seq::<u8>::empty());
    assert(orig.subrange(n as int, n as int) =~= Seq::<u8>::empty());
    assert(be_value(Seq::<u8>::empty()) == 0);
    assert(pow256(0) == 1);
    assert(be_value(b@.subrange(i as int, n as int)) == 0);
    assert(be_value(orig.subrange(i as int, n as int)) == 0);
    assert(pow256((n - i) as nat) == 1);
    assert(carry as nat * pow256((n - i) as nat) == d as nat);
    while i > 0
        invariant
            i <= n,
            n == b@.len(),
            orig.len() == n,
            carry < 10,
            b@.subrange(0, i as int) == orig.subrange(0, i as int),
            be_value(b@.subrange(i as int, n as int)) + carry as nat * pow256((n - i) as nat) == 10
                * be_value(orig.subrange(i as int, n as int)) + d as nat,
        decreases i,
    {
        let ghost prev = b@;
        let x: u32 = (b[i - 1] as u32) * 10 + carry;
        let byte = (x % 256) as u8;
        let next_carry = x / 256;
        b.set(i - 1, byte);
        proof {
            let k = (n - i) as nat;
            let p = pow256(k);
            let o = orig[i - 1];
            assert(prev[i - 1] == o) by {
                assert(prev.subrange(0, i as int)[i - 1] == orig.subrange(0, i as int)[i - 1]);
            }
            assert(b@.subrange(0, i - 1) =~= orig.subrange(0, i - 1)) by {
                assert(prev.subrange(0, i as int).subrange(0, i - 1) =~= prev.subrange(0, i - 1));
                assert(orig.subrange(0, i as int).subrange(0, i - 1) =~= orig.subrange(0, i - 1));
                assert(b@.subrange(0, i - 1) =~= prev.subrange(0, i - 1));
            }
            assert(b@.subrange(i - 1, n as int) =~= seq![byte] + prev.subrange(i as int, n as int));
            assert(orig.subrange(i - 1, n as int) =~= seq![o] + orig.subrange(i as int, n as int));
            assert(b@.subrange(i as int, n as int) =~= prev.subrange(i as int, n as int));
            lemma_be_value_prepend(byte, prev.subrange(i as int, n as int));
            lemma_be_value_prepend(o, orig.subrange(i as int, n as int));
            assert(pow256(k + 1) == 256 * p);
            let bv = be_value(prev.subrange(i as int, n as int));
            let ov = be_value(orig.subrange(i as int, n as int));
            assert(x == o as nat * 10 + carry as nat);
            assert(x == byte as nat + 256 * next_carry as nat);
            assert(byte as nat * p + bv + next_carry as nat * (256 * p) == 10 * (o as nat * p + ov)
                + d as nat) by (nonlinear_arith)
                requires
                    bv + carry as nat * p == 10 * ov + d as nat,
                    x == o as nat * 10 + carry as nat,
                    x == byte as nat + 256 * next_carry as nat,
            ;
        }
        carry = next_carry;
        i = i - 1;
    }
    assert(b@.subrange(0, n as int) =~= b@);
    assert(orig.subrange(0, n as int) =~= orig);
    carry
}

/// Reads decimal text as an unsigned 256-bit integer and gives its 32
/// big-endian bytes; `None` on a character that is not a digit or on a value
/// of 2^256 or more. The empty text reads as zero.
pub fn decimal_to_be32(s: &str) -> (r: Option<Vec<u8>>)
    ensures
        r matches Some(b) ==> big_decimal_spec(s@) == Some(be_value(b@)) && b@.len() == BIG_WIDTH,
        r is None ==> big_decimal_spec(s@) is None,
{
    let mut b: Vec<u8> = Vec::new();
    let mut k: usize = 0;
    while k < BIG_WIDTH
        invariant
            k <= BIG_WIDTH,
            b@.len() == k,
            be_value(b@) == 0,
        decreases BIG_WIDTH - k,
    {
        let ghost prev = b@;
        b.push(0);
        k = k + 1;
        assert(b@.drop_last() =~= prev);
    }
    let n = s.unicode_len();
    let mut i: usize = 0;
    proof {
        lemma_pow256_pos(BIG_WIDTH as nat);
        assert(s@.subrange(0, 0) =~= Seq::<char>::empty());
    }
    while i < n
        invariant
            i <= n,
            n == s@.len(),
            b@.len() == BIG_WIDTH,
            all_digits(s@.subrange(0, i as int)),
            be_value(b@) == decimal_value(s@.subrange(0, i as int)),
            be_value(b@) < pow256(BIG_WIDTH as nat),
        decreases n - i,
    {
        let c = s.get_char(i);
        if !('0' <= c && c <= '9') {
            assert(!is_digit(s@[i as int]));
            return None;
        }
        let d = (c as u32 - '0' as u32) as u8;
        let ghost before = b@;
        let carry = mul10_add(&mut b, d);
        proof {
            let t = s@.subrange(0, i + 1);
            assert(t.drop_last() =~= s@.subrange(0, i as int));
            assert(t.last() == c);
            assert(digit_value(c) == d as nat);
            assert(decimal_value(t) == 10 * be_value(before) + d as nat);
        }
        if carry != 0 {
            proof {
                let t = s@.subrange(0, i + 1);
                lemma_pow256_pos(BIG_WIDTH as nat);
                assert(decimal_value(t) >= pow256(BIG_WIDTH as nat)) by (nonlinear_arith)
                    requires
                        decimal_value(t) == be_value(b@) + carry as nat * pow256(BIG_WIDTH as nat),
                        carry >= 1,
                ;
                if all_digits(s@) {
                    lemma_decimal_value_prefix_mono(s@, i + 1, s@.len() as int);
                    assert(s@.subrange(0, s@.len() as int) =~= s@);
                }
            }
            return None;
        }
        proof {
            lemma_be_value_bound(b@);
        }
        assert(all_digits(s@.subrange(0, i + 1))) by {
            assert forall|j: int| 0 <= j < i + 1 implies is_digit(#[trigger] s@.subrange(0, i + 1)[j]) by {
                if j < i {
                    assert(s@.subrange(0, i + 1)[j] == s@.subrange(0, i as int)[j]);
                }
            }
        }
        i = i + 1;
    }
    assert(s@.subrange(0, n as int) =~= s@);
    Some(b)
}

} // verus!
