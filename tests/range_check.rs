use range_check::babybear_v1::{self, BabyBearRangeCheckAir};
use range_check::constraints::{derive_aux, eval_naive, eval_reduced, reconstruct};
use range_check::error::RangeCheckError;
use range_check::gadget::check_value;
use range_check::goldilocks_v1::{self, GoldilocksRangeCheckAir};
use range_check::m31::{self, Mersenne31RangeCheckAir, MERSENNE31_TRACE_ROWS};
use range_check::profile::ModulusProfile;
use range_check::rc_babybear_babybear_keccak_ver2::{
    generate_trace_and_inputs, BabyBearRangeCheckBitDecompositionAir,
};
use range_check::rc_babybear_babybear_poseidon2_ver1;
use range_check::trace::{build_trace, TraceMatrix};

const BABY_BEAR_P: u64 = 0x7800_0001;
const GOLDILOCKS_P: u64 = 0xffff_ffff_0000_0001;
const MERSENNE31_P: u64 = 0x7fff_ffff;

fn first_row(t: &TraceMatrix) -> Vec<u64> {
    t.row(0).clone()
}

fn bits_of(value: u64, width: usize) -> Vec<u64> {
    (0..width).map(|i| (value >> (width - 1 - i)) & 1).collect()
}

fn all_profiles() -> Vec<ModulusProfile> {
    vec![
        ModulusProfile::baby_bear(),
        ModulusProfile::goldilocks(),
        ModulusProfile::mersenne31(),
    ]
}

fn samples(p: &ModulusProfile) -> Vec<u64> {
    let m = p.modulus();
    vec![0, 1, 2, 3, 0x1234, m / 2, m - 3, m - 2, m - 1]
}

#[test]
fn baby_bear_zero_is_all_zero_and_accepted() {
    let t = babybear_v1::generate_trace(0);
    assert_eq!(t.height(), 1);
    assert_eq!(first_row(&t), vec![0u64; 32]);
    let air = BabyBearRangeCheckAir { value: 0 };
    assert_eq!(air.width(), 32);
    assert_eq!(air.eval(&t), Ok(()));
}

#[test]
fn baby_bear_modulus_minus_one_is_accepted() {
    let v = (BABY_BEAR_P - 1) as u32;
    let t = babybear_v1::generate_trace(v);
    let row = first_row(&t);
    assert_eq!(row[0], 0);
    assert_eq!(&row[1..5], &[1, 1, 1, 1]);
    assert!(row[5..].iter().all(|&b| b == 0));
    assert_eq!(BabyBearRangeCheckAir { value: v }.eval(&t), Ok(()));
}

#[test]
fn baby_bear_modulus_is_rejected() {
    let v = BABY_BEAR_P as u32;
    let t = babybear_v1::generate_trace(v);
    assert_eq!(
        BabyBearRangeCheckAir { value: v }.eval(&t),
        Err(RangeCheckError::ConstraintViolation)
    );
    assert_eq!(
        check_value(&ModulusProfile::baby_bear(), BABY_BEAR_P),
        Err(RangeCheckError::ConstraintViolation)
    );
}

#[test]
fn goldilocks_modulus_minus_one_is_accepted() {
    let v: u64 = 0xffff_ffff_0000_0000;
    let t = goldilocks_v1::generate_trace(v);
    let row = first_row(&t);
    assert_eq!(row.len(), 64);
    assert!(row[..32].iter().all(|&b| b == 1));
    assert!(row[32..].iter().all(|&b| b == 0));
    let air = GoldilocksRangeCheckAir { value: v };
    assert_eq!(air.width(), 64);
    assert_eq!(air.eval(&t), Ok(()));
}

#[test]
fn goldilocks_above_modulus_is_rejected() {
    let v: u64 = 0xffff_ffff_0000_0002;
    let t = goldilocks_v1::generate_trace(v);
    assert_eq!(
        GoldilocksRangeCheckAir { value: v }.eval(&t),
        Err(RangeCheckError::ConstraintViolation)
    );
    assert_eq!(
        check_value(&ModulusProfile::goldilocks(), v),
        Err(RangeCheckError::ConstraintViolation)
    );
    assert_eq!(check_value(&ModulusProfile::goldilocks(), GOLDILOCKS_P - 1), Ok(()));
}

#[test]
fn mersenne31_trace_has_filler_rows() {
    let t = m31::generate_mersenne31_trace(5);
    assert_eq!(t.height(), MERSENNE31_TRACE_ROWS);
    assert_eq!(first_row(&t), bits_of(5, 32));
    for r in 1..t.height() {
        assert_eq!(t.row(r), &vec![0u64; 32]);
    }
    let air = Mersenne31RangeCheckAir { value: 5 };
    assert_eq!(air.width(), 32);
    assert_eq!(air.eval(&t), Ok(()));
}

#[test]
fn mersenne31_boundary() {
    let top = (MERSENNE31_P - 1) as u32;
    let t = m31::generate_mersenne31_trace(top);
    assert_eq!(Mersenne31RangeCheckAir { value: top }.eval(&t), Ok(()));
    // p itself is 0 in the field and reconstructs to 0, but its bits are all
    // ones under the run, which canonicality forbids.
    let p = MERSENNE31_P as u32;
    let t = m31::generate_mersenne31_trace(p);
    assert_eq!(
        Mersenne31RangeCheckAir { value: p }.eval(&t),
        Err(RangeCheckError::ConstraintViolation)
    );
}

#[test]
fn mersenne31_nonzero_filler_is_rejected() {
    let mut t = m31::generate_mersenne31_trace(9);
    t.set(2, 31, 1);
    assert_eq!(
        Mersenne31RangeCheckAir { value: 9 }.eval(&t),
        Err(RangeCheckError::ConstraintViolation)
    );
}

#[test]
fn poseidon2_variant_matches_keccak_variant() {
    for v in [0u32, 1, 0x7800_0000, 0x7800_0001, 0xffff_ffff] {
        let t = rc_babybear_babybear_poseidon2_ver1::generate_trace(v);
        let air = rc_babybear_babybear_poseidon2_ver1::BabyBearRangeCheckAir { value: v };
        assert_eq!(air.width(), 32);
        assert_eq!(
            air.eval(&t),
            BabyBearRangeCheckAir { value: v }.eval(&babybear_v1::generate_trace(v))
        );
        assert_eq!(air.eval(&t).is_ok(), (v as u64) < BABY_BEAR_P);
    }
}

#[test]
fn bit_decomposition_cascade_values() {
    let v = (BABY_BEAR_P - 1) as u32;
    let (t, a, b, c) = generate_trace_and_inputs(v);
    assert_eq!((a, b, c), (1, 1, 1));
    let air = BabyBearRangeCheckBitDecompositionAir {
        value: v,
        and_bits_1_to_2: a,
        and_bits_1_to_3: b,
        and_bits_1_to_4: c,
    };
    assert_eq!(air.width(), 32);
    assert_eq!(air.eval(&t), Ok(()));

    // bits 1..5 of 0x6000_0000 are 1, 1, 0, 0
    let (t, a, b, c) = generate_trace_and_inputs(0x6000_0000);
    assert_eq!((a, b, c), (1, 0, 0));
    let air = BabyBearRangeCheckBitDecompositionAir {
        value: 0x6000_0000,
        and_bits_1_to_2: a,
        and_bits_1_to_3: b,
        and_bits_1_to_4: c,
    };
    assert_eq!(air.eval(&t), Ok(()));
}

#[test]
fn bit_decomposition_rejects_forged_cascade() {
    // the run is full, but a forged selector of 0 would hide the nonzero tail
    let v = BABY_BEAR_P as u32;
    let (t, a, b, _) = generate_trace_and_inputs(v);
    let forged = BabyBearRangeCheckBitDecompositionAir {
        value: v,
        and_bits_1_to_2: a,
        and_bits_1_to_3: b,
        and_bits_1_to_4: 0,
    };
    assert_eq!(forged.eval(&t), Err(RangeCheckError::ConstraintViolation));
    let honest = BabyBearRangeCheckBitDecompositionAir {
        value: v,
        and_bits_1_to_2: a,
        and_bits_1_to_3: b,
        and_bits_1_to_4: 1,
    };
    assert_eq!(honest.eval(&t), Err(RangeCheckError::ConstraintViolation));
}

#[test]
fn round_trip_reconstructs_value() {
    for p in all_profiles() {
        for v in samples(&p) {
            let t = build_trace(&p, v, 1).unwrap();
            assert_eq!(reconstruct(&p, &t), v);
        }
    }
}

#[test]
fn reconstruct_reduces_modulo_modulus() {
    let p = ModulusProfile::baby_bear();
    let t = build_trace(&p, BABY_BEAR_P + 5, 1).unwrap();
    assert_eq!(reconstruct(&p, &t), 5);
}

#[test]
fn built_traces_are_boolean() {
    for p in all_profiles() {
        for v in samples(&p) {
            let t = build_trace(&p, v, 4).unwrap();
            assert_eq!(t.height(), 4);
            assert_eq!(t.width(), p.bit_width());
            for r in 0..t.height() {
                assert!(t.row(r).iter().all(|&b| b == 0 || b == 1));
            }
        }
    }
}

#[test]
fn canonicality_boundary_for_every_profile() {
    for p in all_profiles() {
        let m = p.modulus();
        let (s, l) = (p.run_start(), p.run_len());
        let top = build_trace(&p, m - 1, 1).unwrap();
        let row = first_row(&top);
        assert!(row[s..s + l].iter().all(|&b| b == 1));
        assert!(row[s + l..].iter().all(|&b| b == 0));
        assert_eq!(eval_naive(&p, &top, m - 1), Ok(()));
        let below = build_trace(&p, m - 2, 1).unwrap();
        let row = first_row(&below);
        assert!(row[s..s + l].iter().any(|&b| b == 0));
        assert_eq!(eval_naive(&p, &below, m - 2), Ok(()));
    }
}

#[test]
fn naive_and_reduced_agree_on_built_traces() {
    for p in all_profiles() {
        let mut values = samples(&p);
        values.push(p.modulus());
        values.push(p.modulus() + 1);
        if p.bit_width() < 64 {
            values.push((1u64 << p.bit_width()) - 1);
        } else {
            values.push(u64::MAX);
        }
        for v in values {
            let t = build_trace(&p, v, 1).unwrap();
            let aux = derive_aux(&p, t.row(0));
            assert_eq!(aux.len(), p.run_len() - 1);
            let naive = eval_naive(&p, &t, v);
            assert_eq!(naive, eval_reduced(&p, &t, &aux, v));
            assert_eq!(naive.is_ok(), v < p.modulus());
        }
    }
}

#[test]
fn flipping_any_bit_is_rejected() {
    for p in all_profiles() {
        for v in [0, 7, p.modulus() - 2, p.modulus() - 1] {
            let t = build_trace(&p, v, 2).unwrap();
            let aux = derive_aux(&p, t.row(0));
            for r in 0..t.height() {
                for c in 0..p.bit_width() {
                    let mut f = build_trace(&p, v, 2).unwrap();
                    f.set(r, c, 1 - t.get(r, c));
                    assert_eq!(eval_naive(&p, &f, v), Err(RangeCheckError::ConstraintViolation));
                    assert_eq!(
                        eval_reduced(&p, &f, &aux, v),
                        Err(RangeCheckError::ConstraintViolation)
                    );
                    let faux = derive_aux(&p, f.row(0));
                    assert_eq!(
                        eval_reduced(&p, &f, &faux, v),
                        Err(RangeCheckError::ConstraintViolation)
                    );
                }
            }
        }
    }
}

#[test]
fn non_boolean_cell_is_rejected() {
    let p = ModulusProfile::baby_bear();
    // 2 in the last column and value 2: reconstruction holds, booleanity does not
    let mut row = vec![0u64; 32];
    row[31] = 2;
    let t = TraceMatrix::from_rows(vec![row]);
    assert_eq!(eval_naive(&p, &t, 2), Err(RangeCheckError::ConstraintViolation));
}

#[test]
fn malformed_shapes_are_rejected() {
    let p = ModulusProfile::baby_bear();
    let empty = TraceMatrix::from_rows(vec![]);
    assert_eq!(empty.width(), 0);
    assert_eq!(eval_naive(&p, &empty, 0), Err(RangeCheckError::ConstraintViolation));
    let narrow = TraceMatrix::from_rows(vec![vec![0u64; 31]]);
    assert_eq!(eval_naive(&p, &narrow, 0), Err(RangeCheckError::ConstraintViolation));
    let t = build_trace(&p, 0, 1).unwrap();
    assert_eq!(
        eval_reduced(&p, &t, &vec![0, 0], 0),
        Err(RangeCheckError::ConstraintViolation)
    );
}

#[test]
fn wrong_instance_value_is_rejected() {
    let p = ModulusProfile::goldilocks();
    let t = build_trace(&p, 12345, 1).unwrap();
    assert_eq!(eval_naive(&p, &t, 12346), Err(RangeCheckError::ConstraintViolation));
    // the instance value is read in the field
    assert_eq!(eval_naive(&p, &t, 12345), Ok(()));
}

#[test]
fn value_out_of_domain() {
    let p = ModulusProfile::baby_bear();
    assert!(matches!(
        build_trace(&p, 1u64 << 32, 1),
        Err(RangeCheckError::ValueOutOfDomain)
    ));
    assert_eq!(check_value(&p, 1u64 << 32), Err(RangeCheckError::ValueOutOfDomain));
    assert_eq!(check_value(&p, u64::MAX), Err(RangeCheckError::ValueOutOfDomain));
    assert!(build_trace(&p, (1u64 << 32) - 1, 1).is_ok());
    assert_eq!(
        check_value(&p, (1u64 << 32) - 1),
        Err(RangeCheckError::ConstraintViolation)
    );
}

#[test]
fn check_value_accepts_below_modulus() {
    for p in all_profiles() {
        for v in samples(&p) {
            assert_eq!(check_value(&p, v), Ok(()));
        }
    }
}

#[test]
fn profiles_are_validated() {
    let ok = ModulusProfile::new(BABY_BEAR_P, 32, true, 1, 4).unwrap();
    assert_eq!(ok.modulus(), BABY_BEAR_P);
    assert_eq!(ok.bit_width(), 32);
    assert!(ok.sign_bit_is_zero());
    assert_eq!(ok.run_start(), 1);
    assert_eq!(ok.run_len(), 4);
    assert!(ModulusProfile::new(GOLDILOCKS_P, 64, false, 0, 32).is_ok());
    assert!(ModulusProfile::new(MERSENNE31_P, 32, true, 1, 30).is_ok());
    let bad = [
        ModulusProfile::new(BABY_BEAR_P + 2, 32, true, 1, 4),
        ModulusProfile::new(BABY_BEAR_P, 32, true, 1, 3),
        ModulusProfile::new(BABY_BEAR_P, 32, false, 1, 4),
        ModulusProfile::new(BABY_BEAR_P, 32, true, 0, 4),
        ModulusProfile::new(BABY_BEAR_P, 65, true, 1, 4),
        ModulusProfile::new(BABY_BEAR_P, 32, true, 1, 40),
        ModulusProfile::new(1, 1, false, 0, 0),
    ];
    for b in bad {
        assert!(matches!(b, Err(RangeCheckError::InvalidModulusProfile)));
    }
}

#[test]
fn reconstruction_weights() {
    let w = ModulusProfile::baby_bear().weights();
    assert_eq!(w.len(), 32);
    assert_eq!(w[0], (1u64 << 31) % BABY_BEAR_P);
    assert_eq!(w[0], 134_217_727);
    assert_eq!(w[1], 1 << 30);
    assert_eq!(w[31], 1);
    let w = ModulusProfile::mersenne31().weights();
    assert_eq!(w[0], 1);
    assert_eq!(w[1], 1 << 30);
    let w = ModulusProfile::goldilocks().weights();
    assert_eq!(w[0], 1u64 << 63);
    assert_eq!(w[63], 1);
}

#[test]
fn non_canonical_decomposition_is_rejected() {
    // the bits of p + 3 reconstruct to 3 in the field, but are not canonical
    let p = ModulusProfile::baby_bear();
    let alias = TraceMatrix::from_rows(vec![bits_of(BABY_BEAR_P + 3, 32)]);
    assert_eq!(reconstruct(&p, &alias), 3);
    assert_eq!(eval_naive(&p, &alias, 3), Err(RangeCheckError::ConstraintViolation));
    let aux = derive_aux(&p, alias.row(0));
    assert_eq!(aux, vec![1, 1, 1]);
    assert_eq!(eval_reduced(&p, &alias, &aux, 3), Err(RangeCheckError::ConstraintViolation));
    let canonical = TraceMatrix::from_rows(vec![bits_of(3, 32)]);
    assert_eq!(eval_naive(&p, &canonical, 3), Ok(()));
    assert_eq!(eval_naive(&p, &canonical, BABY_BEAR_P + 3), Ok(()));
}
