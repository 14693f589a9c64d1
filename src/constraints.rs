//! The range-check constraint system, evaluated on a concrete trace.
//!
//! Every identity is stated over the integers modulo the field's modulus.
//! Booleanity, the zero sign bit and canonicality hold on every row; the
//! reconstruction is scoped to the first row; rows below the first are
//! filler and must sum to zero. The canonicality rule is the selector
//! identity `selector * tail_sum = 0`, where the selector is the product of
//! the run's bits (naive variant) or the end of a cascade of pairwise
//! products supplied as auxiliary values (degree-reduced variant).
use vstd::prelude::*;
use vstd::arithmetic::div_mod::lemma_mul_mod_noop_left;
use crate::error::RangeCheckError;
use crate::field::{
    weighted_sum, seq_sum, seq_prod, mul_mod, sum_mod, prod_mod, weighted_sum_mod,
    is_boolean_residue,
};
use crate::profile::{ModulusProfile, ProfileModel};
use crate::trace::TraceMatrix;

verus! {

/// The cells of the run.
pub open spec fn run_of(pm: ProfileModel, row: Seq<u64>) -> Seq<u64> {
    row.subrange(pm.run_start, pm.run_end())
}

/// The cells below the run.
pub open spec fn tail_of(pm: ProfileModel, row: Seq<u64>) -> Seq<u64> {
    row.subrange(pm.run_end(), pm.bit_width)
}

/// `c * (c - 1) = 0` for every cell.
pub open spec fn booleanity_holds(pm: ProfileModel, row: Seq<u64>) -> bool {
    forall|i: int| 0 <= i < row.len() ==> (#[trigger] row[i] * (row[i] - 1)) % pm.modulus == 0
}

/// The top cell is zero when the profile asks for a zero sign bit.
pub open spec fn sign_holds(pm: ProfileModel, row: Seq<u64>) -> bool {
    pm.sign_bit_is_zero ==> (row[0] as int) % pm.modulus == 0
}

/// `selector * (sum of the tail) = 0`.
pub open spec fn canonicality_holds(pm: ProfileModel, selector: int, row: Seq<u64>) -> bool {
    (selector * seq_sum(tail_of(pm, row))) % pm.modulus == 0
}

/// The weighted sum of the row equals the instance value in the field.
pub open spec fn reconstruction_holds(pm: ProfileModel, row: Seq<u64>, value: u64) -> bool {
    weighted_sum(row) % pm.modulus == (value as int) % pm.modulus
}

/// A filler row sums to zero.
pub open spec fn filler_holds(pm: ProfileModel, row: Seq<u64>) -> bool {
    seq_sum(row) % pm.modulus == 0
}

/// The identities shared by both variants, on one row of the right width.
pub open spec fn row_base_holds(pm: ProfileModel, row: Seq<u64>) -> bool {
    &&& row.len() == pm.bit_width
    &&& booleanity_holds(pm, row)
    &&& sign_holds(pm, row)
}

/// The identities of the naive variant, on one row.
pub open spec fn naive_row_holds(pm: ProfileModel, row: Seq<u64>) -> bool {
    &&& row_base_holds(pm, row)
    &&& canonicality_holds(pm, seq_prod(run_of(pm, row)), row)
}

/// The naive constraint system accepts the trace for the instance `value`.
pub open spec fn naive_accepts(pm: ProfileModel, t: Seq<Seq<u64>>, value: u64) -> bool {
    &&& t.len() >= 1
    &&& forall|r: int| 0 <= r < t.len() ==> naive_row_holds(pm, #[trigger] t[r])
    &&& forall|r: int| 1 <= r < t.len() ==> filler_holds(pm, #[trigger] t[r])
    &&& reconstruction_holds(pm, t[0], value)
}

/// The factor that the cascade step `k` multiplies by the run bit
/// `run_start + 1 + k`: the first run bit for `k == 0`, else `aux[k - 1]`.
pub open spec fn cascade_prev(pm: ProfileModel, row: Seq<u64>, aux: Seq<u64>, k: int) -> int {
    if k == 0 {
        row[pm.run_start] as int
    } else {
        aux[k - 1] as int
    }
}

/// Each auxiliary value is the previous one times the next run bit:
/// `aux[0] = b[s] * b[s+1]`, `aux[k] = aux[k-1] * b[s+1+k]`.
pub open spec fn cascade_holds(pm: ProfileModel, row: Seq<u64>, aux: Seq<u64>) -> bool {
    &&& aux.len() == pm.run_len - 1
    &&& forall|k: int|
        0 <= k < aux.len() ==> (#[trigger] aux[k] as int) % pm.modulus == (cascade_prev(pm, row, aux, k)
            * row[pm.run_start + 1 + k]) % pm.modulus
}

/// The selector of the degree-reduced variant: the last cascade value, or the
/// single run bit when the run has length one.
pub open spec fn cascade_selector(pm: ProfileModel, row: Seq<u64>, aux: Seq<u64>) -> int {
    cascade_prev(pm, row, aux, aux.len() as int)
}

/// The degree-reduced constraint system accepts the trace with the auxiliary
/// values `aux` for the instance `value`.
pub open spec fn reduced_accepts(
    pm: ProfileModel,
    t: Seq<Seq<u64>>,
    aux: Seq<u64>,
    value: u64,
) -> bool {
    &&& t.len() >= 1
    &&& forall|r: int| 0 <= r < t.len() ==> row_base_holds(pm, #[trigger] t[r])
    &&& forall|r: int| 1 <= r < t.len() ==> filler_holds(pm, #[trigger] t[r])
    &&& reconstruction_holds(pm, t[0], value)
    &&& cascade_holds(pm, t[0], aux)
    &&& canonicality_holds(pm, cascade_selector(pm, t[0], aux), t[0])
}

/// The auxiliary values that the cascade asks for, reduced: prefix products
/// of the run of length 2, 3, ..., `run_len`.
pub open spec fn cascade_values(pm: ProfileModel, row: Seq<u64>) -> Seq<u64> {
    Seq::new(
        (pm.run_len - 1) as nat,
        |k: int|
            (seq_prod(row.subrange(pm.run_start, pm.run_start + 2 + k)) % pm.modulus) as u64,
    )
}

/// Booleanity of every cell of `row`.
fn row_is_boolean(row: &Vec<u64>, m: u64) -> (r: bool)
    requires
        m > 0,
    ensures
        r == (forall|i: int| 0 <= i < row@.len() ==> (#[trigger] row@[i] * (row@[i] - 1)) % (m as int) == 0),
{
    let mut i: usize = 0;
    while i < row.len()
        invariant
            m > 0,
            i <= row.len(),
            forall|j: int| 0 <= j < i ==> (#[trigger] row@[j] * (row@[j] - 1)) % (m as int) == 0,
        decreases row.len() - i,
    {
        if !is_boolean_residue(row[i], m) {
            return false;
        }
        i = i + 1;
    }
    true
}

/// The identities shared by both variants on one row.
fn check_row_base(profile: &ModulusProfile, row: &Vec<u64>) -> (r: bool)
    requires
        profile@.wf(),
    ensures
        r == row_base_holds(profile@, row@),
{
    let m = profile.modulus();
    if row.len() != profile.bit_width() {
        return false;
    }
    if !row_is_boolean(row, m) {
        return false;
    }
    if profile.sign_bit_is_zero() && row[0] % m != 0 {
        return false;
    }
    true
}

/// `(selector * tail_sum(row)) mod m == 0`, for a selector already reduced.
fn check_canonicality(profile: &ModulusProfile, selector: u64, row: &Vec<u64>) -> (r: bool)
    requires
        profile@.wf(),
        row@.len() == profile@.bit_width,
    ensures
        r == canonicality_holds(profile@, selector as int, row@),
{
    let m = profile.modulus();
    let tail = sum_mod(row, profile.run_start() + profile.run_len(), row.len(), m);
    proof {
        vstd::arithmetic::div_mod::lemma_mul_mod_noop_right(
            selector as int,
            seq_sum(tail_of(profile@, row@)),
            m as int,
        );
    }
    mul_mod(selector, tail, m) == 0
}

/// The naive identities on one row.
fn check_naive_row(profile: &ModulusProfile, row: &Vec<u64>) -> (r: bool)
    requires
        profile@.wf(),
    ensures
        r == naive_row_holds(profile@, row@),
{
    if !check_row_base(profile, row) {
        return false;
    }
    let m = profile.modulus();
    let start = profile.run_start();
    let selector = prod_mod(row, start, start + profile.run_len(), m);
    proof {
        lemma_mul_mod_noop_left(
            seq_prod(run_of(profile@, row@)),
            seq_sum(tail_of(profile@, row@)),
            m as int,
        );
    }
    check_canonicality(profile, selector, row)
}

/// The field value that the first row reconstructs: its weighted sum modulo
/// the field's modulus.
pub fn reconstruct(profile: &ModulusProfile, trace: &TraceMatrix) -> (r: u64)
    requires
        profile@.wf(),
        trace@.len() >= 1,
    ensures
        r == weighted_sum(trace@[0]) % profile@.modulus,
{
    weighted_sum_mod(trace.row(0), profile.modulus())
}

/// Rows below the first: the shared identities (with canonicality in the
/// naive variant) and the zero filler.
fn check_rows(profile: &ModulusProfile, trace: &TraceMatrix, naive: bool) -> (r: bool)
    requires
        profile@.wf(),
    ensures
        r == ((forall|i: int|
            0 <= i < trace@.len() ==> if naive {
                naive_row_holds(profile@, #[trigger] trace@[i])
            } else {
                row_base_holds(profile@, trace@[i])
            }) && (forall|i: int| 1 <= i < trace@.len() ==> filler_holds(profile@, #[trigger] trace@[i]))),
{
    let m = profile.modulus();
    let mut i: usize = 0;
    while i < trace.height()
        invariant
            profile@.wf(),
            m == profile@.modulus,
            i <= trace@.len(),
            forall|j: int|
                0 <= j < i ==> if naive {
                    naive_row_holds(profile@, #[trigger] trace@[j])
                } else {
                    row_base_holds(profile@, trace@[j])
                },
            forall|j: int| 1 <= j < i ==> filler_holds(profile@, #[trigger] trace@[j]),
        decreases trace@.len() - i,
    {
        let row = trace.row(i);
        let ok = if naive {
            check_naive_row(profile, row)
        } else {
            check_row_base(profile, row)
        };
        if !ok {
            return false;
        }
        if i > 0 {
            let s = sum_mod(row, 0, row.len(), m);
            proof {
                assert(row@.subrange(0, row@.len() as int) =~= row@);
            }
            if s != 0 {
                return false;
            }
        }
        i = i + 1;
    }
    true
}

/// Evaluates the naive constraint system on `trace` for the instance `value`:
/// `Ok` when every identity holds, `ConstraintViolation` otherwise.
pub fn eval_naive(profile: &ModulusProfile, trace: &TraceMatrix, value: u64) -> (r: Result<
    (),
    RangeCheckError,
>)
    requires
        profile@.wf(),
    ensures
        r is Ok <==> naive_accepts(profile@, trace@, value),
        r matches Err(e) ==> e == RangeCheckError::ConstraintViolation,
{
    if trace.height() == 0 {
        return Err(RangeCheckError::ConstraintViolation);
    }
    if !check_rows(profile, trace, true) {
        return Err(RangeCheckError::ConstraintViolation);
    }
    if reconstruct(profile, trace) != value % profile.modulus() {
        return Err(RangeCheckError::ConstraintViolation);
    }
    Ok(())
}

/// The auxiliary values of the degree-reduced variant for `row`: the running
/// products of the run's bits, `b[s]*b[s+1]`, then times `b[s+2]`, and so on.
pub fn derive_aux(profile: &ModulusProfile, row: &Vec<u64>) -> (r: Vec<u64>)
    requires
        profile@.wf(),
        row@.len() == profile@.bit_width,
    ensures
        r@ == cascade_values(profile@, row@),
{
    let ghost pm = profile@;
    let m = profile.modulus();
    let start = profile.run_start();
    let steps = profile.run_len() - 1;
    let mut out: Vec<u64> = Vec::new();
    let mut acc: u64 = row[start] % m;
    let mut k: usize = 0;
    proof {
        let s = row@.subrange(start as int, start as int + 1);
        assert(s.drop_last() =~= Seq::<u64>::empty());
        assert(seq_prod(s.drop_last()) == 1);
        assert(s.last() == row@[start as int]);
        assert(s.len() == 1);
        assert(seq_prod(s) == seq_prod(s.drop_last()) * s.last());
        assert(seq_prod(s) == row@[start as int]);
    }
    while k < steps
        invariant
            pm == profile@,
            pm.wf(),
            m == pm.modulus,
            start == pm.run_start,
            steps == pm.run_len - 1,
            row@.len() == pm.bit_width,
            k <= steps,
            acc == seq_prod(row@.subrange(start as int, start + 1 + k)) % (m as int),
            out@ =~= cascade_values(pm, row@).subrange(0, k as int),
        decreases steps - k,
    {
        proof {
            let s = row@.subrange(start as int, start + 2 + k);
            assert(s.drop_last() =~= row@.subrange(start as int, start + 1 + k));
            lemma_mul_mod_noop_left(
                seq_prod(s.drop_last()),
                row@[start + 1 + k] as int,
                m as int,
            );
        }
        acc = mul_mod(acc, row[start + 1 + k], m);
        out.push(acc);
        k = k + 1;
    }
    out
}

/// The cascade check on the first row.
fn check_cascade(profile: &ModulusProfile, row: &Vec<u64>, aux: &Vec<u64>) -> (r: bool)
    requires
        profile@.wf(),
        row@.len() == profile@.bit_width,
    ensures
        r == cascade_holds(profile@, row@, aux@),
{
    let m = profile.modulus();
    let start = profile.run_start();
    if aux.len() != profile.run_len() - 1 {
        return false;
    }
    let mut k: usize = 0;
    while k < aux.len()
        invariant
            profile@.wf(),
            m == profile@.modulus,
            start == profile@.run_start,
            row@.len() == profile@.bit_width,
            aux@.len() == profile@.run_len - 1,
            k <= aux@.len(),
            forall|j: int|
                0 <= j < k ==> (#[trigger] aux@[j] as int) % (m as int) == (cascade_prev(
                    profile@,
                    row@,
                    aux@,
                    j,
                ) * row@[start + 1 + j]) % (m as int),
        decreases aux@.len() - k,
    {
        let prev = if k == 0 {
            row[start]
        } else {
            aux[k - 1]
        };
        if aux[k] % m != mul_mod(prev, row[start + 1 + k], m) {
            return false;
        }
        k = k + 1;
    }
    true
}

/// Evaluates the degree-reduced constraint system on `trace` with the
/// auxiliary values `aux` for the instance `value`: `Ok` when every identity
/// holds, `ConstraintViolation` otherwise.
pub fn eval_reduced(
    profile: &ModulusProfile,
    trace: &TraceMatrix,
    aux: &Vec<u64>,
    value: u64,
) -> (r: Result<(), RangeCheckError>)
    requires
        profile@.wf(),
    ensures
        r is Ok <==> reduced_accepts(profile@, trace@, aux@, value),
        r matches Err(e) ==> e == RangeCheckError::ConstraintViolation,
{
    if trace.height() == 0 {
        return Err(RangeCheckError::ConstraintViolation);
    }
    if !check_rows(profile, trace, false) {
        return Err(RangeCheckError::ConstraintViolation);
    }
    assert(row_base_holds(profile@, trace@[0]));
    if reconstruct(profile, trace) != value % profile.modulus() {
        return Err(RangeCheckError::ConstraintViolation);
    }
    let row = trace.row(0);
    if !check_cascade(profile, row, aux) {
        return Err(RangeCheckError::ConstraintViolation);
    }
    let m = profile.modulus();
    let selector = if aux.len() == 0 {
        row[profile.run_start()]
    } else {
        aux[aux.len() - 1]
    };
    proof {
        lemma_mul_mod_noop_left(
            selector as int,
            seq_sum(tail_of(profile@, row@)),
            m as int,
        );
    }
    if !check_canonicality(profile, selector % m, row) {
        return Err(RangeCheckError::ConstraintViolation);
    }
    Ok(())
}

} // verus!
