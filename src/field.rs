//! Field elements as residues in `[0, modulus)` held in a `u64`, and the
//! integer models that the constraints are stated over.
use vstd::prelude::*;
use vstd::arithmetic::div_mod::{
    lemma_add_mod_noop, lemma_mul_mod_noop_left, lemma_mul_mod_noop_right,
    lemma_mod_twice, lemma_small_mod,
};

verus! {

/// Big-endian weighted sum: the element at index `i` of a sequence of
/// length `n` carries the weight `2^(n-1-i)`.
pub open spec fn weighted_sum(s: Seq<u64>) -> int
    decreases s.len(),
{
    if s.len() == 0 {
        0
    } else {
        2 * weighted_sum(s.drop_last()) + s.last()
    }
}

/// Sum of the elements, as an integer.
pub open spec fn seq_sum(s: Seq<u64>) -> int
    decreases s.len(),
{
    if s.len() == 0 {
        0
    } else {
        seq_sum(s.drop_last()) + s.last()
    }
}

/// Product of the elements, as an integer.
pub open spec fn seq_prod(s: Seq<u64>) -> int
    decreases s.len(),
{
    if s.len() == 0 {
        1
    } else {
        seq_prod(s.drop_last()) * s.last()
    }
}

/// Every element is 0 or 1.
pub open spec fn is_bit_seq(s: Seq<u64>) -> bool {
    forall|i: int| 0 <= i < s.len() ==> #[trigger] s[i] == 0 || s[i] == 1
}

/// `(a * b) mod m`.
pub fn mul_mod(a: u64, b: u64, m: u64) -> (r: u64)
    requires
        m > 0,
    ensures
        r == (a * b) % (m as int),
        r < m,
{
    assert((a as int) * (b as int) <= 0xffff_ffff_ffff_ffff * 0xffff_ffff_ffff_ffff) by (nonlinear_arith)
        requires
            0 <= a <= 0xffff_ffff_ffff_ffff,
            0 <= b <= 0xffff_ffff_ffff_ffff,
    ;
    let wide: u128 = (a as u128) * (b as u128);
    (wide % (m as u128)) as u64
}

/// `(a + b) mod m`.
pub fn add_mod(a: u64, b: u64, m: u64) -> (r: u64)
    requires
        m > 0,
    ensures
        r == (a + b) % (m as int),
        r < m,
{
    let wide: u128 = (a as u128) + (b as u128);
    (wide % (m as u128)) as u64
}

/// Whether `c` satisfies the booleanity identity `c * (c - 1) = 0` mod `m`.
pub fn is_boolean_residue(c: u64, m: u64) -> (r: bool)
    requires
        m > 0,
    ensures
        r == ((c * (c - 1)) % (m as int) == 0),
{
    let x = c % m;
    let y = add_mod(x, m - 1, m);
    let z = mul_mod(x, y, m);
    proof {
        let mi = m as int;
        // y == (c - 1) mod m
        lemma_add_mod_noop(c as int, mi - 1, mi);
        lemma_mod_twice(mi - 1, mi);
        lemma_small_mod((mi - 1) as nat, mi as nat);
        assert(((c as int) + (mi - 1)) % mi == ((c as int) - 1) % mi) by {
            vstd::arithmetic::div_mod::lemma_mod_add_multiples_vanish((c as int) - 1, mi);
        }
        lemma_mul_mod_noop_left(c as int, y as int, mi);
        lemma_mul_mod_noop_right(c as int, (c as int) - 1, mi);
    }
    z == 0
}

/// `(a * (x mod m) + c) mod m == (a * x + c) mod m`.
pub proof fn lemma_mod_linear(a: int, x: int, c: int, m: int)
    requires
        m > 0,
    ensures
        (a * (x % m) + c) % m == (a * x + c) % m,
{
    lemma_add_mod_noop(a * (x % m), c, m);
    lemma_add_mod_noop(a * x, c, m);
    lemma_mul_mod_noop_right(a, x, m);
}

/// `seq_sum(row[from..to]) mod m`.
pub fn sum_mod(row: &Vec<u64>, from: usize, to: usize, m: u64) -> (r: u64)
    requires
        m > 0,
        from <= to <= row.len(),
    ensures
        r == seq_sum(row@.subrange(from as int, to as int)) % (m as int),
{
    let mut acc: u64 = 0;
    let mut i: usize = from;
    proof {
        assert(row@.subrange(from as int, from as int) =~= Seq::<u64>::empty());
        lemma_small_mod(0, m as nat);
    }
    while i < to
        invariant
            m > 0,
            from <= i <= to <= row.len(),
            acc == seq_sum(row@.subrange(from as int, i as int)) % (m as int),
        decreases to - i,
    {
        proof {
            let s = row@.subrange(from as int, i as int + 1);
            assert(s.drop_last() =~= row@.subrange(from as int, i as int));
            lemma_mod_linear(1, seq_sum(s.drop_last()), row[i as int] as int, m as int);
        }
        acc = add_mod(acc, row[i], m);
        i = i + 1;
    }
    acc
}

/// `seq_prod(row[from..to]) mod m`.
pub fn prod_mod(row: &Vec<u64>, from: usize, to: usize, m: u64) -> (r: u64)
    requires
        m > 0,
        from <= to <= row.len(),
    ensures
        r == seq_prod(row@.subrange(from as int, to as int)) % (m as int),
{
    let mut acc: u64 = 1 % m;
    let mut i: usize = from;
    proof {
        assert(row@.subrange(from as int, from as int) =~= Seq::<u64>::empty());
    }
    while i < to
        invariant
            m > 0,
            from <= i <= to <= row.len(),
            acc == seq_prod(row@.subrange(from as int, i as int)) % (m as int),
        decreases to - i,
    {
        proof {
            let s = row@.subrange(from as int, i as int + 1);
            assert(s.drop_last() =~= row@.subrange(from as int, i as int));
            lemma_mul_mod_noop_left(seq_prod(s.drop_last()), row[i as int] as int, m as int);
        }
        acc = mul_mod(acc, row[i], m);
        i = i + 1;
    }
    acc
}

/// `weighted_sum(row) mod m`, by Horner's rule.
pub fn weighted_sum_mod(row: &Vec<u64>, m: u64) -> (r: u64)
    requires
        m > 0,
    ensures
        r == weighted_sum(row@) % (m as int),
{
    let mut acc: u64 = 0;
    let mut i: usize = 0;
    proof {
        assert(row@.subrange(0, 0) =~= Seq::<u64>::empty());
        lemma_small_mod(0, m as nat);
    }
    while i < row.len()
        invariant
            m > 0,
            i <= row.len(),
            acc == weighted_sum(row@.subrange(0, i as int)) % (m as int),
        decreases row.len() - i,
    {
        proof {
            let s = row@.subrange(0, i as int + 1);
            assert(s.drop_last() =~= row@.subrange(0, i as int));
            lemma_mod_linear(2, weighted_sum(s.drop_last()), row[i as int] as int, m as int);
        }
        let wide: u128 = 2 * (acc as u128) + (row[i] as u128);
        acc = (wide % (m as u128)) as u64;
        i = i + 1;
    }
    proof {
        assert(row@.subrange(0, row.len() as int) =~= row@);
    }
    acc
}

} // verus!
