//! Facts about big-endian weighted sums of 0/1 sequences.
use vstd::prelude::*;
use vstd::arithmetic::power2::{pow2, lemma_pow2_unfold, lemma_pow2_pos};
use vstd::arithmetic::div_mod::{lemma_div_denominator, lemma_fundamental_div_mod, lemma_fundamental_div_mod_converse};
use crate::field::{weighted_sum, seq_sum, seq_prod, is_bit_seq};

verus! {

/// Every element equals `x`.
pub open spec fn all_eq(s: Seq<u64>, x: u64) -> bool {
    forall|i: int| 0 <= i < s.len() ==> #[trigger] s[i] == x
}

/// The big-endian `w`-bit decomposition of `v` (bit `i` has weight `2^(w-1-i)`).
pub open spec fn bit_row(v: nat, w: nat) -> Seq<u64> {
    Seq::new(w, |i: int| ((v / pow2((w - 1 - i) as nat)) % 2) as u64)
}

/// `w` zero cells.
pub open spec fn zero_row(w: nat) -> Seq<u64> {
    Seq::new(w, |i: int| 0u64)
}

proof fn lemma_pow2_step(n: nat)
    requires
        n >= 1,
    ensures
        pow2(n) == 2 * pow2((n - 1) as nat),
{
    lemma_pow2_unfold(n);
}

/// Splitting a sequence splits its weighted sum.
pub proof fn lemma_weighted_sum_concat(s: Seq<u64>, t: Seq<u64>)
    ensures
        weighted_sum(s + t) == weighted_sum(s) * pow2(t.len()) + weighted_sum(t),
    decreases t.len(),
{
    if t.len() == 0 {
        assert(s + t =~= s);
        assert(pow2(0) == 1) by {
            vstd::arithmetic::power2::lemma2_to64();
        }
    } else {
        let t1 = t.drop_last();
        assert((s + t).drop_last() =~= s + t1);
        assert((s + t).last() == t.last());
        lemma_weighted_sum_concat(s, t1);
        lemma_pow2_step(t.len());
        let a = weighted_sum(s);
        let p = pow2(t1.len()) as int;
        assert(2 * (a * p) == a * (2 * p)) by (nonlinear_arith);
    }
}

/// Bounds of the weighted sum of a 0/1 sequence, and when they are reached.
pub proof fn lemma_weighted_sum_bits(s: Seq<u64>)
    requires
        is_bit_seq(s),
    ensures
        0 <= weighted_sum(s) <= pow2(s.len()) - 1,
        weighted_sum(s) == 0 <==> all_eq(s, 0),
        weighted_sum(s) == pow2(s.len()) - 1 <==> all_eq(s, 1),
    decreases s.len(),
{
    if s.len() == 0 {
        assert(pow2(0) == 1) by {
            vstd::arithmetic::power2::lemma2_to64();
        }
    } else {
        let s1 = s.drop_last();
        assert(is_bit_seq(s1)) by {
            assert forall|i: int| 0 <= i < s1.len() implies #[trigger] s1[i] == 0 || s1[i] == 1 by {
                assert(s1[i] == s[i]);
            }
        }
        lemma_weighted_sum_bits(s1);
        lemma_pow2_step(s.len());
        let n = s.len() as int;
        assert(s.last() == s[n - 1]);
        if all_eq(s, 0) {
            assert(all_eq(s1, 0)) by {
                assert forall|i: int| 0 <= i < s1.len() implies #[trigger] s1[i] == 0 by {
                    assert(s1[i] == s[i]);
                }
            }
        }
        if all_eq(s1, 0) && s.last() == 0 {
            assert forall|i: int| 0 <= i < s.len() implies #[trigger] s[i] == 0 by {
                if i < n - 1 {
                    assert(s1[i] == s[i]);
                }
            }
        }
        if all_eq(s, 1) {
            assert(all_eq(s1, 1)) by {
                assert forall|i: int| 0 <= i < s1.len() implies #[trigger] s1[i] == 1 by {
                    assert(s1[i] == s[i]);
                }
            }
        }
        if all_eq(s1, 1) && s.last() == 1 {
            assert forall|i: int| 0 <= i < s.len() implies #[trigger] s[i] == 1 by {
                if i < n - 1 {
                    assert(s1[i] == s[i]);
                }
            }
        }
    }
}

/// The sum of a 0/1 sequence counts its ones.
pub proof fn lemma_sum_bits(s: Seq<u64>)
    requires
        is_bit_seq(s),
    ensures
        0 <= seq_sum(s) <= s.len(),
        seq_sum(s) == 0 <==> all_eq(s, 0),
    decreases s.len(),
{
    if s.len() > 0 {
        let s1 = s.drop_last();
        let n = s.len() as int;
        assert(is_bit_seq(s1)) by {
            assert forall|i: int| 0 <= i < s1.len() implies #[trigger] s1[i] == 0 || s1[i] == 1 by {
                assert(s1[i] == s[i]);
            }
        }
        lemma_sum_bits(s1);
        assert(s.last() == s[n - 1]);
        if all_eq(s, 0) {
            assert(all_eq(s1, 0)) by {
                assert forall|i: int| 0 <= i < s1.len() implies #[trigger] s1[i] == 0 by {
                    assert(s1[i] == s[i]);
                }
            }
        }
        if all_eq(s1, 0) && s.last() == 0 {
            assert forall|i: int| 0 <= i < s.len() implies #[trigger] s[i] == 0 by {
                if i < n - 1 {
                    assert(s1[i] == s[i]);
                }
            }
        }
    }
}

/// The product of a 0/1 sequence is 1 when every element is 1, and 0 otherwise.
pub proof fn lemma_prod_bits(s: Seq<u64>)
    requires
        is_bit_seq(s),
    ensures
        seq_prod(s) == (if all_eq(s, 1) { 1int } else { 0int }),
    decreases s.len(),
{
    if s.len() > 0 {
        let s1 = s.drop_last();
        let n = s.len() as int;
        assert(is_bit_seq(s1)) by {
            assert forall|i: int| 0 <= i < s1.len() implies #[trigger] s1[i] == 0 || s1[i] == 1 by {
                assert(s1[i] == s[i]);
            }
        }
        lemma_prod_bits(s1);
        assert(s.last() == s[n - 1]);
        if all_eq(s, 1) {
            assert(all_eq(s1, 1)) by {
                assert forall|i: int| 0 <= i < s1.len() implies #[trigger] s1[i] == 1 by {
                    assert(s1[i] == s[i]);
                }
            }
        }
        if all_eq(s1, 1) && s.last() == 1 {
            assert forall|i: int| 0 <= i < s.len() implies #[trigger] s[i] == 1 by {
                if i < n - 1 {
                    assert(s1[i] == s[i]);
                }
            }
        }
    }
}

/// Changing one element moves the weighted sum by the change times its weight.
pub proof fn lemma_weighted_sum_update(s: Seq<u64>, c: int, x: u64)
    requires
        0 <= c < s.len(),
    ensures
        weighted_sum(s.update(c, x)) == weighted_sum(s) + (x - s[c]) * pow2((s.len() - 1 - c) as nat),
    decreases s.len(),
{
    let n = s.len() as int;
    let u = s.update(c, x);
    if c == n - 1 {
        assert(u.drop_last() =~= s.drop_last());
        assert(u.last() == x);
        assert(s.last() == s[c]);
        assert(pow2(0) == 1) by {
            vstd::arithmetic::power2::lemma2_to64();
        }
    } else {
        assert(u.drop_last() =~= s.drop_last().update(c, x));
        assert(u.last() == s.last());
        assert(s.drop_last()[c] == s[c]);
        lemma_weighted_sum_update(s.drop_last(), c, x);
        lemma_pow2_step((n - 1 - c) as nat);
        let d = x - s[c];
        let p = pow2((n - 2 - c) as nat) as int;
        assert(2 * (d * p) == d * (2 * p)) by (nonlinear_arith);
        assert(pow2((n - 1 - c) as nat) == 2 * p);
        assert(weighted_sum(u) == 2 * weighted_sum(u.drop_last()) + u.last());
        assert(weighted_sum(s) == 2 * weighted_sum(s.drop_last()) + s.last());
        assert(weighted_sum(u.drop_last()) == weighted_sum(s.drop_last()) + d * p);
    }
}

/// The bit decomposition is a 0/1 sequence whose weighted sum is `v` modulo `2^w`.
pub proof fn lemma_bit_row(v: nat, w: nat)
    ensures
        is_bit_seq(bit_row(v, w)),
        weighted_sum(bit_row(v, w)) == v % pow2(w),
    decreases w,
{
    let row = bit_row(v, w);
    assert(is_bit_seq(row));
    if w == 0 {
        assert(pow2(0) == 1) by {
            vstd::arithmetic::power2::lemma2_to64();
        }
    } else {
        let q = v / 2;
        assert(row.drop_last() =~= bit_row(q, (w - 1) as nat)) by {
            assert forall|i: int| 0 <= i < w - 1 implies #[trigger] row.drop_last()[i] == bit_row(
                q,
                (w - 1) as nat,
            )[i] by {
                let k = (w - 2 - i) as nat;
                lemma_pow2_step((k + 1) as nat);
                lemma_pow2_pos(k);
                lemma_div_denominator(v as int, 2, pow2(k) as int);
            }
        }
        assert(pow2(0) == 1) by {
            vstd::arithmetic::power2::lemma2_to64();
        }
        assert(row.last() == row[w - 1]);
        assert(((w - 1 - (w - 1)) as nat) == 0);
        assert(v / pow2(0) == v);
        assert(row.last() == v % 2);
        lemma_bit_row(q, (w - 1) as nat);
        let p = pow2((w - 1) as nat) as int;
        lemma_pow2_step(w);
        lemma_pow2_pos((w - 1) as nat);
        lemma_fundamental_div_mod(v as int, 2);
        lemma_fundamental_div_mod(q as int, p);
        let t = (q as int) / p;
        let s = (q as int) % p;
        let b = (v as int) % 2;
        assert(v == t * (2 * p) + (2 * s + b)) by (nonlinear_arith)
            requires
                v == 2 * q + b,
                q == p * t + s,
        ;
        lemma_fundamental_div_mod_converse(v as int, 2 * p, t, 2 * s + b);
    }
}

} // verus!
