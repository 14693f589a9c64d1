//! What holds of every trace that the builder produces, stated over the
//! spec models and proved.
use vstd::prelude::*;
use vstd::arithmetic::power2::{pow2, lemma_pow2_pos};
use vstd::arithmetic::div_mod::{lemma_small_mod, lemma_mul_mod_noop_left};
use crate::field::{weighted_sum, seq_sum, seq_prod, is_bit_seq};
use crate::bits::{all_eq, bit_row, zero_row, lemma_bit_row, lemma_sum_bits, lemma_prod_bits, lemma_weighted_sum_update};
use crate::profile::ProfileModel;
use crate::trace::value_trace;
use crate::constraints::{
    run_of, tail_of, naive_accepts, reduced_accepts, naive_row_holds, row_base_holds,
    filler_holds, reconstruction_holds, canonicality_holds, cascade_values, cascade_selector,
    cascade_holds,
};
use crate::canonical::{
    row_canonical, lemma_bits_naive_row, lemma_bits_canonical, lemma_cascade, lemma_modulus_shape,
    lemma_sum_update,
};

verus! {

/// `t` with the 0/1 cell at row `r`, column `c` flipped.
pub open spec fn flip_cell(t: Seq<Seq<u64>>, r: int, c: int) -> Seq<Seq<u64>> {
    t.update(r, t[r].update(c, (1 - t[r][c]) as u64))
}

/// Filler rows meet every identity that applies to them.
proof fn lemma_zero_row(pm: ProfileModel)
    requires
        pm.wf(),
    ensures
        naive_row_holds(pm, zero_row(pm.bit_width as nat)),
        filler_holds(pm, zero_row(pm.bit_width as nat)),
{
    let z = zero_row(pm.bit_width as nat);
    assert(is_bit_seq(z));
    assert(all_eq(z, 0));
    lemma_sum_bits(z);
    lemma_bits_naive_row(pm, z);
    let t = tail_of(pm, z);
    assert(all_eq(t, 0));
    assert(row_canonical(pm, z));
    lemma_small_mod(0, pm.modulus as nat);
}

/// The trace of a value that fits the bit width is accepted by the naive
/// constraint system, and by the degree-reduced one with the cascade values
/// of its first row, exactly when the value is below the modulus.
pub proof fn theorem_trace_accepted_iff_below_modulus(pm: ProfileModel, v: u64, rows: nat)
    requires
        pm.wf(),
        v < pow2(pm.bit_width as nat),
        rows >= 1,
    ensures
        naive_accepts(pm, value_trace(v as nat, pm.bit_width as nat, rows), v) <==> v
            < pm.modulus,
        reduced_accepts(
            pm,
            value_trace(v as nat, pm.bit_width as nat, rows),
            cascade_values(pm, bit_row(v as nat, pm.bit_width as nat)),
            v,
        ) <==> v < pm.modulus,
{
    let w = pm.bit_width as nat;
    let t = value_trace(v as nat, w, rows);
    let row0 = bit_row(v as nat, w);
    let m = pm.modulus;
    assert(t[0] == row0);
    lemma_bit_row(v as nat, w);
    lemma_small_mod(v as nat, pow2(w));
    assert(weighted_sum(row0) == v);
    lemma_bits_naive_row(pm, row0);
    lemma_bits_canonical(pm, row0);
    assert(reconstruction_holds(pm, row0, v));
    lemma_zero_row(pm);
    assert(forall|r: int| 1 <= r < t.len() ==> #[trigger] t[r] == zero_row(w));
    let aux = cascade_values(pm, row0);
    lemma_cascade(pm, row0, aux);
    let sum = seq_sum(tail_of(pm, row0));
    let prod = seq_prod(run_of(pm, row0));
    let sel = cascade_selector(pm, row0, aux);
    lemma_mul_mod_noop_left(sel, sum, m);
    lemma_mul_mod_noop_left(prod, sum, m);
    assert(canonicality_holds(pm, sel, row0) <==> canonicality_holds(pm, prod, row0));
    if v < m {
        assert(naive_row_holds(pm, row0));
        assert(naive_accepts(pm, t, v));
    } else {
        assert(!naive_row_holds(pm, t[0]));
    }
}

/// Reconstruction inverts the builder: for `v` below the modulus the trace
/// can be built, and its first row weighs `v` in the field.
pub proof fn law_round_trip(pm: ProfileModel, v: u64, rows: nat)
    requires
        pm.wf(),
        v < pm.modulus,
        rows >= 1,
    ensures
        v < pow2(pm.bit_width as nat),
        weighted_sum(value_trace(v as nat, pm.bit_width as nat, rows)[0]) % pm.modulus == v,
{
    let w = pm.bit_width as nat;
    lemma_modulus_shape(pm);
    lemma_bit_row(v as nat, w);
    lemma_small_mod(v as nat, pow2(w));
    lemma_small_mod(v as nat, pm.modulus as nat);
}

/// Every cell of every built trace is 0 or 1.
pub proof fn law_booleanity(v: nat, w: nat, rows: nat)
    ensures
        forall|r: int, i: int|
            0 <= r < rows && 0 <= i < w ==> #[trigger] value_trace(v, w, rows)[r][i] == 0
                || value_trace(v, w, rows)[r][i] == 1,
{
    lemma_bit_row(v, w);
}

/// At `modulus - 1` the run is all ones and the bits below it are all zero;
/// at `modulus - 2` the run is not full, so the selector is zero. Both
/// traces are accepted.
pub proof fn law_canonicality_boundary(pm: ProfileModel, rows: nat)
    requires
        pm.wf(),
        rows >= 1,
    ensures
        all_eq(run_of(pm, bit_row((pm.modulus - 1) as nat, pm.bit_width as nat)), 1),
        all_eq(tail_of(pm, bit_row((pm.modulus - 1) as nat, pm.bit_width as nat)), 0),
        naive_accepts(
            pm,
            value_trace((pm.modulus - 1) as nat, pm.bit_width as nat, rows),
            (pm.modulus - 1) as u64,
        ),
        seq_prod(run_of(pm, bit_row((pm.modulus - 2) as nat, pm.bit_width as nat))) == 0,
        naive_accepts(
            pm,
            value_trace((pm.modulus - 2) as nat, pm.bit_width as nat, rows),
            (pm.modulus - 2) as u64,
        ),
{
    let w = pm.bit_width as nat;
    lemma_modulus_shape(pm);
    let top = (pm.modulus - 1) as u64;
    let below = (pm.modulus - 2) as u64;
    theorem_trace_accepted_iff_below_modulus(pm, top, rows);
    theorem_trace_accepted_iff_below_modulus(pm, below, rows);
    lemma_bit_row(top as nat, w);
    lemma_bit_row(below as nat, w);
    lemma_small_mod(top as nat, pow2(w));
    lemma_small_mod(below as nat, pow2(w));
    lemma_bits_canonical(pm, bit_row(top as nat, w));
    lemma_bits_canonical(pm, bit_row(below as nat, w));
    crate::canonical::lemma_bits_subrange(bit_row(below as nat, w), pm.run_start, pm.run_end());
    lemma_prod_bits(run_of(pm, bit_row(below as nat, w)));
}

/// On every built trace, the naive and the degree-reduced constraint
/// systems (the latter with the cascade values of the first row) agree.
pub proof fn law_degree_reduction_equivalence(pm: ProfileModel, v: u64, rows: nat)
    requires
        pm.wf(),
        v < pow2(pm.bit_width as nat),
        rows >= 1,
    ensures
        naive_accepts(pm, value_trace(v as nat, pm.bit_width as nat, rows), v) == reduced_accepts(
            pm,
            value_trace(v as nat, pm.bit_width as nat, rows),
            cascade_values(pm, value_trace(v as nat, pm.bit_width as nat, rows)[0]),
            v,
        ),
{
    theorem_trace_accepted_iff_below_modulus(pm, v, rows);
}

/// Flipping any one cell of the trace of a value below the modulus, with
/// the instance value unchanged, makes both constraint systems reject it,
/// whatever auxiliary values come with it.
pub proof fn law_single_flip_rejected(
    pm: ProfileModel,
    v: u64,
    rows: nat,
    r: int,
    c: int,
    aux: Seq<u64>,
)
    requires
        pm.wf(),
        v < pm.modulus,
        rows >= 1,
        0 <= r < rows,
        0 <= c < pm.bit_width,
    ensures
        !naive_accepts(pm, flip_cell(value_trace(v as nat, pm.bit_width as nat, rows), r, c), v),
        !reduced_accepts(
            pm,
            flip_cell(value_trace(v as nat, pm.bit_width as nat, rows), r, c),
            aux,
            v,
        ),
{
    let w = pm.bit_width as nat;
    let m = pm.modulus;
    let t = value_trace(v as nat, w, rows);
    let f = flip_cell(t, r, c);
    lemma_modulus_shape(pm);
    lemma_bit_row(v as nat, w);
    if r >= 1 {
        let z = zero_row(w);
        assert(t[r] == z);
        lemma_sum_bits(z);
        assert(all_eq(z, 0));
        lemma_sum_update(z, c, 1);
        assert(f[r] == z.update(c, 1));
        lemma_small_mod(1, m as nat);
        assert(!filler_holds(pm, f[r]));
    } else {
        let row0 = bit_row(v as nat, w);
        assert(t[0] == row0);
        let b = row0[c];
        let x = (1 - b) as u64;
        let g = row0.update(c, x);
        assert(f[0] == g);
        assert(is_bit_seq(g));
        lemma_small_mod(v as nat, pow2(w));
        lemma_weighted_sum_update(row0, c, x);
        lemma_pow2_pos((w - 1 - c) as nat);
        assert(weighted_sum(row0) == v);
        assert(b == 0 || b == 1);
        let d = x - b;
        let pw = pow2((w - 1 - c) as nat) as int;
        assert(d * pw != 0) by (nonlinear_arith)
            requires
                d == 1 || d == -1,
                pw > 0,
        ;
        assert(weighted_sum(g) != v);
        crate::bits::lemma_weighted_sum_bits(g);
        lemma_bits_naive_row(pm, g);
        lemma_bits_canonical(pm, g);
        if weighted_sum(g) < m {
            lemma_small_mod(weighted_sum(g) as nat, m as nat);
            lemma_small_mod(v as nat, m as nat);
            assert(!reconstruction_holds(pm, g, v));
        }
        assert(!naive_accepts(pm, f, v));
        lemma_cascade(pm, g, aux);
        if cascade_holds(pm, g, aux) && row_base_holds(pm, g) {
            let sum = seq_sum(tail_of(pm, g));
            lemma_mul_mod_noop_left(cascade_selector(pm, g, aux), sum, m);
            lemma_mul_mod_noop_left(seq_prod(run_of(pm, g)), sum, m);
        }
        assert(!reduced_accepts(pm, f, aux, v));
    }
}

/// Whatever 0/1 first row the naive constraint system accepts spells, as an
/// integer, the canonical representative of the instance value: it is
/// strictly below the modulus and equals the value reduced by it.
pub proof fn law_accepted_bits_are_canonical(pm: ProfileModel, t: Seq<Seq<u64>>, v: u64)
    requires
        pm.wf(),
        naive_accepts(pm, t, v),
        is_bit_seq(t[0]),
    ensures
        0 <= weighted_sum(t[0]) < pm.modulus,
        weighted_sum(t[0]) == (v as int) % pm.modulus,
{
    assert(naive_row_holds(pm, t[0]));
    lemma_bits_naive_row(pm, t[0]);
    lemma_bits_canonical(pm, t[0]);
    crate::bits::lemma_weighted_sum_bits(t[0]);
    lemma_small_mod(weighted_sum(t[0]) as nat, pm.modulus as nat);
}

} // verus!
