//! Why the identities pin the value below the modulus: on a 0/1 row they say
//! exactly that the row is canonical, and a canonical row weighs less than
//! the modulus.
use vstd::prelude::*;
use vstd::arithmetic::power2::{pow2, lemma_pow2_adds, lemma_pow2_unfold, lemma_pow2_pos, lemma2_to64};
use vstd::arithmetic::div_mod::{lemma_small_mod, lemma_mul_mod_noop_left, lemma_mod_twice};
use crate::field::{weighted_sum, seq_sum, seq_prod, is_bit_seq};
use crate::bits::{
    all_eq, lemma_weighted_sum_concat, lemma_weighted_sum_bits, lemma_sum_bits, lemma_prod_bits,
};
use crate::profile::{ProfileModel, lemma_run_pattern_value};
use crate::constraints::{
    run_of, tail_of, naive_row_holds, booleanity_holds, sign_holds, canonicality_holds,
    cascade_holds, cascade_prev, cascade_selector, cascade_values,
};

verus! {

/// The sign bit is clear (when there is one), and a full run is followed by
/// zeros only.
pub open spec fn row_canonical(pm: ProfileModel, row: Seq<u64>) -> bool {
    &&& pm.sign_bit_is_zero ==> row[0] == 0
    &&& all_eq(run_of(pm, row), 1) ==> all_eq(tail_of(pm, row), 0)
}

proof fn lemma_pow2_above(n: nat)
    ensures
        pow2(n) >= n + 1,
    decreases n,
{
    if n == 0 {
        lemma2_to64();
    } else {
        lemma_pow2_above((n - 1) as nat);
        lemma_pow2_unfold(n);
        lemma_pow2_pos((n - 1) as nat);
    }
}

pub proof fn lemma_bits_subrange(s: Seq<u64>, a: int, b: int)
    requires
        is_bit_seq(s),
        0 <= a <= b <= s.len(),
    ensures
        is_bit_seq(s.subrange(a, b)),
{
    let t = s.subrange(a, b);
    assert forall|i: int| 0 <= i < t.len() implies #[trigger] t[i] == 0 || t[i] == 1 by {
        assert(t[i] == s[a + i]);
    }
}

/// `modulus - 1 = 2^(run_len + tail_len) - 2^tail_len`; the modulus exceeds
/// the tail length and does not exceed `2^bit_width`.
pub proof fn lemma_modulus_shape(pm: ProfileModel)
    requires
        pm.wf(),
    ensures
        pm.modulus - 1 == pow2((pm.run_len + pm.tail_len()) as nat) - pow2(pm.tail_len() as nat),
        pm.modulus - 1 >= pow2(pm.tail_len() as nat),
        pm.modulus > pm.tail_len() + 1,
        pm.modulus <= pow2(pm.bit_width as nat),
{
    let l = pm.run_len as nat;
    let r = pm.tail_len() as nat;
    lemma_run_pattern_value(pm);
    lemma_pow2_adds(l, r);
    lemma_pow2_above(l);
    lemma_pow2_above(r);
    let a = pow2(l) as int;
    let b = pow2(r) as int;
    assert(a * b - b >= b) by (nonlinear_arith)
        requires
            a >= 2,
            b >= 1,
    ;
    if l + r < pm.bit_width {
        vstd::arithmetic::power2::lemma_pow2_strictly_increases(l + r, pm.bit_width as nat);
    }
}

/// On a 0/1 row of the profile's width, the naive row identities hold
/// exactly when the row is canonical.
pub proof fn lemma_bits_naive_row(pm: ProfileModel, row: Seq<u64>)
    requires
        pm.wf(),
        is_bit_seq(row),
        row.len() == pm.bit_width,
    ensures
        naive_row_holds(pm, row) <==> row_canonical(pm, row),
        booleanity_holds(pm, row),
        sign_holds(pm, row) <==> (pm.sign_bit_is_zero ==> row[0] == 0),
        canonicality_holds(pm, seq_prod(run_of(pm, row)), row) <==> (all_eq(run_of(pm, row), 1)
            ==> all_eq(tail_of(pm, row), 0)),
{
    let m = pm.modulus;
    assert forall|i: int| 0 <= i < row.len() implies (#[trigger] row[i] * (row[i] - 1)) % m
        == 0 by {
        assert(row[i] * (row[i] - 1) == 0) by {
            assert(row[i] == 0 || row[i] == 1);
        }
    }
    assert(row[0] == 0 || row[0] == 1);
    lemma_small_mod(row[0] as nat, m as nat);
    let run = run_of(pm, row);
    let tail = tail_of(pm, row);
    lemma_bits_subrange(row, pm.run_start, pm.run_end());
    lemma_bits_subrange(row, pm.run_end(), pm.bit_width);
    lemma_prod_bits(run);
    lemma_sum_bits(tail);
    lemma_modulus_shape(pm);
    let prod = seq_prod(run);
    let sum = seq_sum(tail);
    assert(0 <= prod * sum <= sum) by (nonlinear_arith)
        requires
            prod == 0 || prod == 1,
            0 <= sum,
    ;
    lemma_small_mod((prod * sum) as nat, m as nat);
    assert(prod * sum == 0 <==> (prod == 0 || sum == 0)) by (nonlinear_arith)
        requires
            prod == 0 || prod == 1,
    ;
}

/// A 0/1 row of the profile's width is canonical exactly when its weighted
/// sum is below the modulus.
pub proof fn lemma_bits_canonical(pm: ProfileModel, row: Seq<u64>)
    requires
        pm.wf(),
        is_bit_seq(row),
        row.len() == pm.bit_width,
    ensures
        row_canonical(pm, row) <==> weighted_sum(row) < pm.modulus,
        weighted_sum(row) == pm.modulus - 1 ==> all_eq(run_of(pm, row), 1) && all_eq(
            tail_of(pm, row),
            0,
        ),
        weighted_sum(row) < pm.modulus - 1 ==> !all_eq(run_of(pm, row), 1),
{
    let pre = row.subrange(0, pm.run_start);
    let run = run_of(pm, row);
    let tail = tail_of(pm, row);
    assert(row =~= (pre + run) + tail);
    lemma_bits_subrange(row, 0, pm.run_start);
    lemma_bits_subrange(row, pm.run_start, pm.run_end());
    lemma_bits_subrange(row, pm.run_end(), pm.bit_width);
    lemma_weighted_sum_bits(pre);
    lemma_weighted_sum_bits(run);
    lemma_weighted_sum_bits(tail);
    lemma_weighted_sum_concat(pre, run);
    lemma_weighted_sum_concat(pre + run, tail);
    lemma_modulus_shape(pm);
    let l = pm.run_len as nat;
    let r = pm.tail_len() as nat;
    lemma_pow2_adds(l, r);
    lemma_pow2_above(l);
    lemma_pow2_pos(r);
    let big_a = weighted_sum(pre);
    if pm.sign_bit_is_zero {
        assert(pre.drop_last() =~= Seq::<u64>::empty());
        assert(weighted_sum(pre.drop_last()) == 0);
        assert(pre.last() == pre[0]);
        assert(big_a == 2 * weighted_sum(pre.drop_last()) + pre.last());
        assert(big_a == pre[0]);
        assert(pre[0] == row[0]);
    } else {
        assert(pre =~= Seq::<u64>::empty());
    }
    let p = pow2(l) as int;
    let q = pow2(r) as int;
    let big_r = weighted_sum(run);
    let big_t = weighted_sum(tail);
    let v = weighted_sum(row);
    assert(v == (big_a * p + big_r) * q + big_t);
    assert(pm.modulus - 1 == p * q - q);
    assert(0 <= big_a <= 1);
    if big_a == 1 {
        assert((big_a * p + big_r) * q + big_t >= p * q) by (nonlinear_arith)
            requires
                big_a == 1,
                big_r >= 0,
                big_t >= 0,
                q >= 1,
        ;
    } else {
        assert(big_a * p == 0) by (nonlinear_arith)
            requires
                big_a == 0,
        ;
        if big_r == p - 1 {
            assert(big_r * q == p * q - q) by (nonlinear_arith)
                requires
                    big_r == p - 1,
            ;
        } else {
            assert(big_r * q + big_t <= p * q - q - 1) by (nonlinear_arith)
                requires
                    0 <= big_r <= p - 2,
                    0 <= big_t <= q - 1,
                    q >= 1,
            ;
        }
    }
}

/// Changing one element moves the sum by the change.
pub proof fn lemma_sum_update(s: Seq<u64>, c: int, x: u64)
    requires
        0 <= c < s.len(),
    ensures
        seq_sum(s.update(c, x)) == seq_sum(s) + x - s[c],
    decreases s.len(),
{
    let u = s.update(c, x);
    if c == s.len() - 1 {
        assert(u.drop_last() =~= s.drop_last());
    } else {
        assert(u.drop_last() =~= s.drop_last().update(c, x));
        assert(u.last() == s.last());
        lemma_sum_update(s.drop_last(), c, x);
    }
}

/// The cascade values satisfy the cascade identities; and whenever the
/// cascade identities hold, the cascade's selector equals the product of the
/// run in the field.
pub proof fn lemma_cascade(pm: ProfileModel, row: Seq<u64>, aux: Seq<u64>)
    requires
        pm.wf(),
        row.len() == pm.bit_width,
    ensures
        cascade_holds(pm, row, cascade_values(pm, row)),
        cascade_holds(pm, row, aux) ==> cascade_selector(pm, row, aux) % pm.modulus == seq_prod(
            run_of(pm, row),
        ) % pm.modulus,
{
    let m = pm.modulus;
    let s = pm.run_start;
    let cv = cascade_values(pm, row);
    // prefix products of the run
    assert forall|k: int| 0 <= k < pm.run_len - 1 implies (cascade_prev(pm, row, cv, k) * row[s
        + 1 + k]) % m == (#[trigger] seq_prod(row.subrange(s, s + 2 + k))) % m by {
        let pk = row.subrange(s, s + 2 + k);
        assert(pk.drop_last() =~= row.subrange(s, s + 1 + k));
        assert(pk.last() == row[s + 1 + k]);
        if k == 0 {
            let p1 = row.subrange(s, s + 1);
            assert(p1.drop_last() =~= Seq::<u64>::empty());
            assert(seq_prod(p1) == seq_prod(p1.drop_last()) * p1.last());
        } else {
            lemma_mul_mod_noop_left(seq_prod(row.subrange(s, s + 1 + k)), row[s + 1 + k] as int, m);
        }
    }
    assert forall|k: int| 0 <= k < cv.len() implies (#[trigger] cv[k] as int) % m == (cascade_prev(
        pm,
        row,
        cv,
        k,
    ) * row[s + 1 + k]) % m by {
        lemma_mod_twice(seq_prod(row.subrange(s, s + 2 + k)), m);
    }
    if cascade_holds(pm, row, aux) {
        lemma_cascade_prefix(pm, row, aux, aux.len() as int);
        assert(row.subrange(s, s + 1 + aux.len()) =~= run_of(pm, row));
    }
}

/// Under the cascade identities, `cascade_prev(k)` is the product of the
/// first `k + 1` run bits in the field.
proof fn lemma_cascade_prefix(pm: ProfileModel, row: Seq<u64>, aux: Seq<u64>, k: int)
    requires
        pm.wf(),
        row.len() == pm.bit_width,
        cascade_holds(pm, row, aux),
        0 <= k <= aux.len(),
    ensures
        cascade_prev(pm, row, aux, k) % pm.modulus == seq_prod(
            row.subrange(pm.run_start, pm.run_start + 1 + k),
        ) % pm.modulus,
    decreases k,
{
    let m = pm.modulus;
    let s = pm.run_start;
    let pk = row.subrange(s, s + 1 + k);
    assert(pk.drop_last() =~= row.subrange(s, s + k));
    if k == 0 {
        assert(pk.drop_last() =~= Seq::<u64>::empty());
        assert(seq_prod(pk) == seq_prod(pk.drop_last()) * pk.last());
    } else {
        lemma_cascade_prefix(pm, row, aux, k - 1);
        assert(aux[k - 1] as int % m == (cascade_prev(pm, row, aux, k - 1) * row[s + k]) % m);
        lemma_mul_mod_noop_left(cascade_prev(pm, row, aux, k - 1), row[s + k] as int, m);
        lemma_mul_mod_noop_left(seq_prod(pk.drop_last()), row[s + k] as int, m);
        assert(pk.last() == row[s + k]);
    }
}

} // verus!
