//! The shape of a field's canonical range: a sign bit that must be zero (or
//! none), then a run of bits that, when all set, forces every lower bit to
//! zero. `modulus - 1` is exactly that run of ones followed by zeros.
use vstd::prelude::*;
use vstd::arithmetic::power2::{pow2, lemma_pow2_adds, lemma_pow2_unfold, lemma2_to64};
use crate::error::RangeCheckError;
use crate::field::weighted_sum;
use crate::bits::{lemma_weighted_sum_concat, lemma_weighted_sum_bits, all_eq};

verus! {

/// The mathematical content of a [`ModulusProfile`].
pub struct ProfileModel {
    pub modulus: int,
    pub bit_width: int,
    pub sign_bit_is_zero: bool,
    pub run_start: int,
    pub run_len: int,
}

impl ProfileModel {
    pub open spec fn run_end(self) -> int {
        self.run_start + self.run_len
    }

    /// Number of bits below the run.
    pub open spec fn tail_len(self) -> int {
        self.bit_width - self.run_end()
    }

    /// Ones on the run, zeros elsewhere.
    pub open spec fn run_pattern(self) -> Seq<u64> {
        Seq::new(
            self.bit_width as nat,
            |i: int| if self.run_start <= i < self.run_end() { 1u64 } else { 0u64 },
        )
    }

    /// The run sits right below the sign bit (or at the top when there is
    /// none), fits the width, and its pattern weighs exactly `modulus - 1`.
    pub open spec fn wf(self) -> bool {
        &&& 1 <= self.bit_width <= 64
        &&& self.run_start == (if self.sign_bit_is_zero { 1int } else { 0int })
        &&& 1 <= self.run_len
        &&& self.run_end() <= self.bit_width
        &&& 2 <= self.modulus <= u64::MAX
        &&& weighted_sum(self.run_pattern()) == self.modulus - 1
    }

    /// Weight of bit `i` in the field: `2^(bit_width-1-i) mod modulus`.
    pub open spec fn weight(self, i: int) -> int {
        pow2((self.bit_width - 1 - i) as nat) as int % self.modulus
    }
}

/// The BabyBear profile.
pub open spec fn baby_bear_model() -> ProfileModel {
    ProfileModel {
        modulus: 0x7800_0001,
        bit_width: 32,
        sign_bit_is_zero: true,
        run_start: 1,
        run_len: 4,
    }
}

/// The Goldilocks profile.
pub open spec fn goldilocks_model() -> ProfileModel {
    ProfileModel {
        modulus: 0xffff_ffff_0000_0001,
        bit_width: 64,
        sign_bit_is_zero: false,
        run_start: 0,
        run_len: 32,
    }
}

/// The Mersenne31 profile.
pub open spec fn mersenne31_model() -> ProfileModel {
    ProfileModel {
        modulus: 0x7fff_ffff,
        bit_width: 32,
        sign_bit_is_zero: true,
        run_start: 1,
        run_len: 30,
    }
}

/// `(2^l - 1) * 2^r`, the value of `l` ones followed by `r` zeros.
pub open spec fn run_value(l: nat, r: nat) -> int {
    pow2(l + r) - pow2(r)
}

/// The pattern of a profile weighs `(2^run_len - 1) * 2^tail_len`.
pub proof fn lemma_run_pattern_value(pm: ProfileModel)
    requires
        0 <= pm.run_start,
        0 <= pm.run_len,
        pm.run_end() <= pm.bit_width,
    ensures
        weighted_sum(pm.run_pattern()) == run_value(pm.run_len as nat, pm.tail_len() as nat),
{
    let s = pm.run_pattern();
    let a = s.subrange(0, pm.run_start);
    let b = s.subrange(pm.run_start, pm.run_end());
    let c = s.subrange(pm.run_end(), pm.bit_width);
    assert(s =~= (a + b) + c);
    assert(all_eq(a, 0));
    assert(all_eq(b, 1));
    assert(all_eq(c, 0));
    lemma_weighted_sum_bits(a);
    lemma_weighted_sum_bits(b);
    lemma_weighted_sum_bits(c);
    lemma_weighted_sum_concat(a, b);
    lemma_weighted_sum_concat(a + b, c);
    let l = pm.run_len as nat;
    let r = pm.tail_len() as nat;
    lemma_pow2_adds(l, r);
    let pl = pow2(l) as int;
    let pr = pow2(r) as int;
    assert((pl - 1) * pr == pl * pr - pr) by (nonlinear_arith);
}

/// Describes where a field's modulus puts its canonical-range boundary.
pub struct ModulusProfile {
    modulus: u64,
    bit_width: usize,
    sign_bit_is_zero: bool,
    run_start: usize,
    run_len: usize,
}

impl View for ModulusProfile {
    type V = ProfileModel;

    closed spec fn view(&self) -> ProfileModel {
        ProfileModel {
            modulus: self.modulus as int,
            bit_width: self.bit_width as int,
            sign_bit_is_zero: self.sign_bit_is_zero,
            run_start: self.run_start as int,
            run_len: self.run_len as int,
        }
    }
}

/// `2^e`, exactly.
fn pow2_u128(e: usize) -> (r: u128)
    requires
        e <= 64,
    ensures
        r == pow2(e as nat),
{
    let mut x: u128 = 1;
    let mut i: usize = 0;
    proof {
        lemma2_to64();
    }
    while i < e
        invariant
            i <= e <= 64,
            x == pow2(i as nat),
        decreases e - i,
    {
        proof {
            lemma2_to64();
            lemma_pow2_unfold((i + 1) as nat);
            vstd::arithmetic::power2::lemma_pow2_strictly_increases(i as nat, 64);
        }
        x = 2 * x;
        i = i + 1;
    }
    x
}

impl ModulusProfile {
    /// Checks a profile and returns it, or `InvalidModulusProfile` when its
    /// bit pattern does not encode `modulus - 1` exactly.
    pub fn new(
        modulus: u64,
        bit_width: usize,
        sign_bit_is_zero: bool,
        run_start: usize,
        run_len: usize,
    ) -> (r: Result<ModulusProfile, RangeCheckError>)
        ensures
            (ProfileModel {
                modulus: modulus as int,
                bit_width: bit_width as int,
                sign_bit_is_zero,
                run_start: run_start as int,
                run_len: run_len as int,
            }).wf() <==> r is Ok,
            r matches Ok(p) ==> p@ == (ProfileModel {
                modulus: modulus as int,
                bit_width: bit_width as int,
                sign_bit_is_zero,
                run_start: run_start as int,
                run_len: run_len as int,
            }),
            r matches Err(e) ==> e == RangeCheckError::InvalidModulusProfile,
    {
        let p = ModulusProfile { modulus, bit_width, sign_bit_is_zero, run_start, run_len };
        let expected_start: usize = if sign_bit_is_zero { 1 } else { 0 };
        if bit_width < 1 || bit_width > 64 || run_start != expected_start || run_len < 1
            || run_len > bit_width - run_start {
            return Err(RangeCheckError::InvalidModulusProfile);
        }
        let tail = bit_width - run_start - run_len;
        proof {
            lemma_run_pattern_value(p@);
            lemma_pow2_adds(run_len as nat, tail as nat);
            vstd::arithmetic::power2::lemma_pow2_pos(run_len as nat);
            let a = pow2(run_len as nat) as int;
            let b = pow2(tail as nat) as int;
            assert(a * b >= b) by (nonlinear_arith)
                requires
                    a >= 1,
                    b >= 0,
            ;
        }
        let pattern = pow2_u128(run_len + tail) - pow2_u128(tail);
        if modulus < 2 || pattern != (modulus - 1) as u128 {
            return Err(RangeCheckError::InvalidModulusProfile);
        }
        Ok(p)
    }

    /// BabyBear, `p = 2^31 - 2^27 + 1`: sign bit zero, then a run of four bits.
    pub fn baby_bear() -> (r: ModulusProfile)
        ensures
            r@ == baby_bear_model(),
            r@.wf(),
    {
        let p = ModulusProfile {
            modulus: 0x7800_0001,
            bit_width: 32,
            sign_bit_is_zero: true,
            run_start: 1,
            run_len: 4,
        };
        proof {
            lemma_run_pattern_value(p@);
            lemma2_to64();
        }
        p
    }

    /// Goldilocks, `p = 2^64 - 2^32 + 1`: no sign bit, a run of the top 32 bits.
    pub fn goldilocks() -> (r: ModulusProfile)
        ensures
            r@ == goldilocks_model(),
            r@.wf(),
    {
        let p = ModulusProfile {
            modulus: 0xffff_ffff_0000_0001,
            bit_width: 64,
            sign_bit_is_zero: false,
            run_start: 0,
            run_len: 32,
        };
        proof {
            lemma_run_pattern_value(p@);
            lemma2_to64();
        }
        p
    }

    /// Mersenne31, `p = 2^31 - 1`: sign bit zero, then a run of thirty bits
    /// above the last one.
    pub fn mersenne31() -> (r: ModulusProfile)
        ensures
            r@ == mersenne31_model(),
            r@.wf(),
    {
        let p = ModulusProfile {
            modulus: 0x7fff_ffff,
            bit_width: 32,
            sign_bit_is_zero: true,
            run_start: 1,
            run_len: 30,
        };
        proof {
            lemma_run_pattern_value(p@);
            lemma2_to64();
        }
        p
    }

    /// The reconstruction weights, most significant first: bit `i` weighs
    /// `2^(bit_width-1-i)` reduced modulo the modulus.
    pub fn weights(&self) -> (r: Vec<u64>)
        requires
            self@.wf(),
        ensures
            r@.len() == self@.bit_width,
            forall|i: int| 0 <= i < self@.bit_width ==> #[trigger] r@[i] == self@.weight(i),
    {
        let w = self.bit_width;
        let m = self.modulus;
        let mut out: Vec<u64> = Vec::new();
        let mut i: usize = 0;
        while i < w
            invariant
                i <= w,
                out@.len() == i,
            decreases w - i,
        {
            out.push(0);
            i = i + 1;
        }
        let mut cur: u64 = 1;
        let mut k: usize = 0;
        proof {
            lemma2_to64();
            vstd::arithmetic::div_mod::lemma_small_mod(1, m as nat);
        }
        while k < w
            invariant
                self@.wf(),
                w == self@.bit_width,
                m == self@.modulus,
                k <= w,
                out@.len() == w,
                cur == (pow2(k as nat) as int) % (m as int),
                forall|j: int| w - k <= j < w ==> #[trigger] out@[j] == self@.weight(j),
            decreases w - k,
        {
            out.set(w - 1 - k, cur);
            proof {
                lemma_pow2_unfold((k + 1) as nat);
                crate::field::lemma_mod_linear(2, pow2(k as nat) as int, 0, m as int);
            }
            cur = crate::field::add_mod(cur, cur, m);
            k = k + 1;
        }
        out
    }

    pub fn modulus(&self) -> (r: u64)
        ensures
            r == self@.modulus,
    {
        self.modulus
    }

    pub fn bit_width(&self) -> (r: usize)
        ensures
            r == self@.bit_width,
    {
        self.bit_width
    }

    pub fn sign_bit_is_zero(&self) -> (r: bool)
        ensures
            r == self@.sign_bit_is_zero,
    {
        self.sign_bit_is_zero
    }

    pub fn run_start(&self) -> (r: usize)
        ensures
            r == self@.run_start,
    {
        self.run_start
    }

    pub fn run_len(&self) -> (r: usize)
        ensures
            r == self@.run_len,
    {
        self.run_len
    }
}

} // verus!
