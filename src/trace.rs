//! The witness trace: a rectangular block of field elements whose first row
//! holds the big-endian bits of the checked value.
use vstd::prelude::*;
use vstd::arithmetic::power2::{pow2, lemma_pow2_unfold, lemma_pow2_pos, lemma2_to64};
use vstd::arithmetic::div_mod::{lemma_div_denominator, lemma_basic_div, lemma_div_non_zero};
use crate::error::RangeCheckError;
use crate::profile::ModulusProfile;
use crate::bits::{bit_row, zero_row};

verus! {

/// The trace built for `v` with `w` columns and `rows` rows: the bits of `v`
/// on the first row, zero filler below.
pub open spec fn value_trace(v: nat, w: nat, rows: nat) -> Seq<Seq<u64>> {
    Seq::new(rows, |r: int| if r == 0 { bit_row(v, w) } else { zero_row(w) })
}

/// Rows of field elements, each a residue held in a `u64`.
pub struct TraceMatrix {
    rows: Vec<Vec<u64>>,
}

impl View for TraceMatrix {
    type V = Seq<Seq<u64>>;

    closed spec fn view(&self) -> Seq<Seq<u64>> {
        self.rows@.map_values(|r: Vec<u64>| r@)
    }
}

fn zeros(w: usize) -> (r: Vec<u64>)
    ensures
        r@ == zero_row(w as nat),
{
    let mut v: Vec<u64> = Vec::new();
    let mut i: usize = 0;
    while i < w
        invariant
            i <= w,
            v@ == zero_row(i as nat),
        decreases w - i,
    {
        v.push(0);
        i = i + 1;
        proof {
            assert(v@ =~= zero_row(i as nat));
        }
    }
    v
}

/// The `w` low bits of `value`, most significant first, or `None` when
/// `value` does not fit in `w` bits.
fn value_bits(value: u64, w: usize) -> (r: Option<Vec<u64>>)
    requires
        1 <= w <= 64,
    ensures
        r is Some <==> value < pow2(w as nat),
        r matches Some(bits) ==> bits@ == bit_row(value as nat, w as nat),
{
    let mut bits = zeros(w);
    let mut x: u64 = value;
    let mut k: usize = 0;
    proof {
        lemma2_to64();
    }
    while k < w
        invariant
            1 <= w <= 64,
            k <= w,
            bits@.len() == w,
            x == value as nat / pow2(k as nat),
            forall|j: int|
                0 <= j < k ==> #[trigger] bits@[w - 1 - j] == ((value as nat / pow2(j as nat))
                    % 2) as u64,
        decreases w - k,
    {
        bits.set(w - 1 - k, x % 2);
        proof {
            lemma_pow2_unfold((k + 1) as nat);
            lemma_pow2_pos(k as nat);
            lemma_div_denominator(value as int, pow2(k as nat) as int, 2);
            assert(pow2(k as nat) * 2 == pow2((k + 1) as nat));
        }
        x = x / 2;
        k = k + 1;
    }
    proof {
        lemma_pow2_pos(w as nat);
        if value < pow2(w as nat) {
            lemma_basic_div(value as int, pow2(w as nat) as int);
        } else {
            lemma_div_non_zero(value as int, pow2(w as nat) as int);
        }
    }
    if x != 0 {
        return None;
    }
    proof {
        assert forall|i: int| 0 <= i < w implies #[trigger] bits@[i] == bit_row(
            value as nat,
            w as nat,
        )[i] by {
            let j = w - 1 - i;
            assert(bits@[w - 1 - j] == ((value as nat / pow2(j as nat)) % 2) as u64);
        }
        assert(bits@ =~= bit_row(value as nat, w as nat));
    }
    Some(bits)
}

/// Builds the trace of `value` for `profile` with `rows` rows: the
/// big-endian bits on the first row, zero filler on the others. Fails with
/// `ValueOutOfDomain` when `value` does not fit the profile's bit width.
pub fn build_trace(profile: &ModulusProfile, value: u64, rows: usize) -> (r: Result<
    TraceMatrix,
    RangeCheckError,
>)
    requires
        profile@.wf(),
        rows >= 1,
    ensures
        r is Ok <==> value < pow2(profile@.bit_width as nat),
        r matches Ok(t) ==> t@ == value_trace(value as nat, profile@.bit_width as nat, rows as nat),
        r matches Err(e) ==> e == RangeCheckError::ValueOutOfDomain,
{
    let w = profile.bit_width();
    let first = match value_bits(value, w) {
        Some(bits) => bits,
        None => {
            return Err(RangeCheckError::ValueOutOfDomain);
        },
    };
    let ghost expected = value_trace(value as nat, w as nat, rows as nat);
    let mut out: Vec<Vec<u64>> = Vec::new();
    out.push(first);
    let mut r: usize = 1;
    while r < rows
        invariant
            1 <= r <= rows,
            out@.len() == r,
            expected == value_trace(value as nat, w as nat, rows as nat),
            forall|i: int| 0 <= i < r ==> (#[trigger] out@[i])@ == expected[i],
        decreases rows - r,
    {
        out.push(zeros(w));
        r = r + 1;
    }
    let t = TraceMatrix { rows: out };
    proof {
        assert(t@ =~= expected);
    }
    Ok(t)
}

impl TraceMatrix {
    /// A trace holding the given rows, as they are.
    pub fn from_rows(rows: Vec<Vec<u64>>) -> (t: TraceMatrix)
        ensures
            t@ == rows@.map_values(|r: Vec<u64>| r@),
    {
        TraceMatrix { rows }
    }

    /// Number of rows.
    pub fn height(&self) -> (r: usize)
        ensures
            r == self@.len(),
    {
        self.rows.len()
    }

    /// Length of the first row, 0 when there is none.
    pub fn width(&self) -> (r: usize)
        ensures
            r == (if self@.len() == 0 { 0 } else { self@[0].len() }),
    {
        if self.rows.len() == 0 {
            0
        } else {
            self.rows[0].len()
        }
    }

    /// Row `i`.
    pub fn row(&self, i: usize) -> (r: &Vec<u64>)
        requires
            i < self@.len(),
        ensures
            r@ == self@[i as int],
    {
        &self.rows[i]
    }

    /// The cell at row `i`, column `j`.
    pub fn get(&self, i: usize, j: usize) -> (r: u64)
        requires
            i < self@.len(),
            j < self@[i as int].len(),
        ensures
            r == self@[i as int][j as int],
    {
        self.rows[i][j]
    }

    /// Overwrites the cell at row `i`, column `j`.
    pub fn set(&mut self, i: usize, j: usize, x: u64)
        requires
            i < old(self)@.len(),
            j < old(self)@[i as int].len(),
        ensures
            final(self)@ == old(self)@.update(i as int, old(self)@[i as int].update(j as int, x)),
    {
        let mut row = self.rows[i].clone();
        row.set(j, x);
        self.rows.set(i, row);
        proof {
            assert(self@ =~= old(self)@.update(i as int, old(self)@[i as int].update(j as int, x)));
        }
    }
}

} // verus!
