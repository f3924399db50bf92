use dory::arithmetic::{DummyMsm, Field, Group, MultiScalarMul, Pairing};
use dory::bn254::{Fr, FrAdditive, FrPairing};
use dory::commit::compute_nu;
use dory::poly::{
    compute_l_r_tensors, compute_left_right_vec, compute_polynomial_evaluation, compute_v_vec,
    fold_eval_from_coords_and_alphas, multilinear_lagrange_vec, Polynomial, StandardPolynomial,
};

fn fr(x: u64) -> Fr {
    Fr::from_u64(x)
}

fn frs(xs: &[u64]) -> Vec<Fr> {
    xs.iter().map(|&x| fr(x)).collect()
}

#[test]
fn field_operations_follow_arithmetic_mod_r() {
    assert_eq!(fr(2).add(&fr(3)), fr(5));
    assert_eq!(fr(7).mul(&fr(6)), fr(42));
    assert_eq!(fr(3).sub(&fr(5)), Fr::from_i64(-2));
    assert_eq!(Fr::from_i64(-1).add(&Fr::one()), Fr::zero());
    assert_eq!(Fr::from_i64(17), fr(17));
    let x = fr(123456789);
    assert_eq!(x.mul(&x.inv().unwrap()), Fr::one());
    assert!(Fr::zero().inv().is_none());
    assert!(Fr::zero().is_zero());
    assert!(!Fr::one().is_zero());
    assert!(x.equals(&fr(123456789)));
    assert!(!x.equals(&fr(12345678)));
}

#[test]
fn field_bytes_are_canonical_little_endian() {
    let x = fr(0x0102);
    let bytes = x.to_bytes_le();
    assert_eq!(bytes.len(), 32);
    assert_eq!(bytes[0], 0x02);
    assert_eq!(bytes[1], 0x01);
    assert!(bytes[2..].iter().all(|&b| b == 0));
    assert_eq!(Fr::from_le_bytes_mod_order(&bytes), x);
    assert_eq!(x.limbs(), [0x0102, 0, 0, 0]);
}

#[test]
fn from_le_bytes_reduces_modulo_r() {
    // r = 0x30644e72e131a029b85045b68181585d2833e84879b9709143e1f593f0000001
    let r_limbs = [0x43e1f593f0000001u64, 0x2833e84879b97091, 0xb85045b68181585d, 0x30644e72e131a029];
    assert!(Fr::from_limbs(r_limbs).is_none());
    let mut below = r_limbs;
    below[0] -= 1;
    assert_eq!(Fr::from_limbs(below), Some(Fr::from_i64(-1)));
    let mut bytes = Vec::new();
    for l in r_limbs {
        bytes.extend_from_slice(&l.to_le_bytes());
    }
    assert_eq!(Fr::from_le_bytes_mod_order(&bytes), Fr::zero());
    bytes[0] += 5;
    assert_eq!(Fr::from_le_bytes_mod_order(&bytes), fr(5));
}

#[test]
fn additive_group_and_pairing() {
    let a = FrAdditive(fr(3));
    let b = FrAdditive(fr(4));
    assert_eq!(a.add(&b), FrAdditive(fr(7)));
    assert_eq!(a.add(&a.neg()), FrAdditive::identity());
    assert_eq!(a.scale(&fr(5)), FrAdditive(fr(15)));
    assert_eq!(FrPairing::pair(&a, &b), FrAdditive(fr(12)));
    assert_eq!(FrPairing::multi_pair(&[a, b], &[b, a]), FrAdditive(fr(24)));
    assert_eq!(
        <DummyMsm as MultiScalarMul<FrAdditive>>::msm(&[a, b], &[fr(2), fr(10)]),
        FrAdditive(fr(46))
    );
}

#[test]
fn vectorised_msm_variants() {
    let a = FrAdditive(fr(3));
    let b = FrAdditive(fr(4));
    let out = <DummyMsm as MultiScalarMul<FrAdditive>>::fixed_base_vector_msm(&a, &[fr(1), fr(2)]);
    assert_eq!(out, vec![FrAdditive(fr(3)), FrAdditive(fr(6))]);
    let mut vs = vec![a, b];
    <DummyMsm as MultiScalarMul<FrAdditive>>::fixed_scalar_variable_with_add(&[b, a], &mut vs, &fr(2));
    assert_eq!(vs, vec![FrAdditive(fr(11)), FrAdditive(fr(10))]);
    let mut ws = vec![a, b];
    <DummyMsm as MultiScalarMul<FrAdditive>>::fixed_scalar_scale_with_add(&mut ws, &[b, a], &fr(2));
    assert_eq!(ws, vec![FrAdditive(fr(10)), FrAdditive(fr(11))]);
}

#[test]
fn lagrange_vector_of_two_coordinates() {
    let a = fr(5);
    let b = fr(7);
    let one = Fr::one();
    let mut v = vec![Fr::zero(); 4];
    multilinear_lagrange_vec(&mut v, &[a, b]);
    let na = one.sub(&a);
    let nb = one.sub(&b);
    assert_eq!(v, vec![na.mul(&nb), a.mul(&nb), na.mul(&b), a.mul(&b)]);
    let mut w = vec![Fr::zero(); 3];
    multilinear_lagrange_vec(&mut w, &[]);
    assert_eq!(w, vec![one, one, one]);
}

#[test]
fn polynomial_evaluation_is_the_lagrange_sum() {
    let coeffs = frs(&[2, 3, 5, 7]);
    let poly = StandardPolynomial::new(&coeffs);
    let point = frs(&[10, 100]);
    let mut basis = vec![Fr::zero(); 4];
    multilinear_lagrange_vec(&mut basis, &point);
    let mut expected = Fr::zero();
    for i in 0..4 {
        expected = expected.add(&coeffs[i].mul(&basis[i]));
    }
    assert_eq!(compute_polynomial_evaluation::<Fr, FrAdditive, _>(&poly, &point), expected);
    // at a corner of the hypercube the evaluation is a coefficient
    let corner = frs(&[1, 0]);
    assert_eq!(compute_polynomial_evaluation::<Fr, FrAdditive, _>(&poly, &corner), fr(3));
    assert_eq!(<StandardPolynomial<Fr> as Polynomial<Fr, FrAdditive>>::len(&poly), 4);
    assert!(!<StandardPolynomial<Fr> as Polynomial<Fr, FrAdditive>>::is_empty(&poly));
    assert_eq!(<StandardPolynomial<Fr> as Polynomial<Fr, FrAdditive>>::get(&poly, 4), None);
}

#[test]
fn left_right_vectors_split_the_point() {
    let point = frs(&[2, 3, 4, 5]);
    let (l, r) = compute_left_right_vec(&point, 2, 2);
    let mut l_expected = vec![Fr::zero(); 4];
    multilinear_lagrange_vec(&mut l_expected, &point[2..]);
    let mut r_expected = vec![Fr::zero(); 4];
    multilinear_lagrange_vec(&mut r_expected, &point[..2]);
    assert_eq!(l, l_expected);
    assert_eq!(r, r_expected);
}

#[test]
fn tensors_give_the_left_right_vectors() {
    let point = frs(&[2, 3, 4, 5, 6, 7]);
    let (l_coords, r_coords) = compute_l_r_tensors(&point, 2, 2);
    assert_eq!(l_coords, frs(&[4, 5, 6, 7]));
    assert_eq!(r_coords, frs(&[2, 3, 0, 0]));
    let (l_coords, r_coords) = compute_l_r_tensors(&point[..2], 2, 2);
    assert_eq!(l_coords, frs(&[0, 0, 0, 0]));
    assert_eq!(r_coords, frs(&[2, 3, 0, 0]));
}

#[test]
fn v_vec_is_the_vector_matrix_product() {
    // M = [[1, 2], [3, 4]], L = [10, 20]: v = [70, 100]
    let poly = StandardPolynomial::new(&frs(&[1, 2, 3, 4]));
    let v = compute_v_vec::<Fr, FrAdditive, _>(&poly, &frs(&[10, 20]), 1, 1);
    assert_eq!(v, frs(&[70, 100]));
    let w = <StandardPolynomial<Fr> as Polynomial<Fr, FrAdditive>>::vector_matrix_product(
        &poly,
        &frs(&[10, 20]),
    );
    assert_eq!(w, frs(&[70, 100]));
}

#[test]
fn row_commitments_are_row_msms() {
    let poly = StandardPolynomial::new(&frs(&[1, 2, 3, 4, 5]));
    let gens = vec![FrAdditive(fr(10)), FrAdditive(fr(100))];
    let rows = <StandardPolynomial<Fr> as Polynomial<Fr, FrAdditive>>::commit_rows::<DummyMsm>(
        &poly, &gens, 2,
    );
    assert_eq!(rows, vec![FrAdditive(fr(210)), FrAdditive(fr(430)), FrAdditive(fr(50))]);
}

#[test]
fn folded_evaluation_multiplies_one_factor_per_challenge() {
    // coordinates are folded last-first: (α₀(1 − 3) + 3)(α₁(1 − 2) + 2)
    let r = fold_eval_from_coords_and_alphas(&frs(&[2, 3]), &frs(&[5, 7]));
    let f0 = fr(5).mul(&Fr::one().sub(&fr(3))).add(&fr(3));
    let f1 = fr(7).mul(&Fr::one().sub(&fr(2))).add(&fr(2));
    assert_eq!(r, f0.mul(&f1));
    assert_eq!(fold_eval_from_coords_and_alphas(&frs(&[2, 3]), &[]), Fr::one());
    // at the all-ones point every factor is one
    assert_eq!(fold_eval_from_coords_and_alphas(&frs(&[1, 1]), &frs(&[5, 7])), Fr::one());
}

#[test]
fn symmetric_split_of_the_variables() {
    assert_eq!(compute_nu(10, 5), 5);
    assert_eq!(compute_nu(11, 6), 5);
    assert_eq!(compute_nu(0, 0), 0);
    assert_eq!(compute_nu(1, 1), 0);
}

#[test]
fn vmv_split_of_the_variables() {
    assert_eq!(dory::vmv::vmv_state::compute_nu(10, 5), 5);
    assert_eq!(dory::vmv::vmv_state::compute_nu(7, 5), 5);
    assert_eq!(dory::vmv::vmv_state::compute_nu(12, 5), 7);
    assert_eq!(dory::vmv::vmv_state::compute_nu(0, 0), 0);
}

fn vmv_product(coeffs: &[Fr], point: &[Fr]) -> Fr {
    let k = point.len() / 2;
    let poly = StandardPolynomial::new(coeffs);
    let (l, r) = compute_left_right_vec(point, k, k);
    let v = compute_v_vec::<Fr, FrAdditive, _>(&poly, &l, k, k);
    let mut y = Fr::zero();
    for c in 0..v.len() {
        y = y.add(&v[c].mul(&r[c]));
    }
    y
}

#[test]
fn vmv_product_is_the_polynomial_evaluation() {
    let coeffs = frs(&[3, 1, 4, 1, 5, 9, 2, 6, 5, 3, 5, 8, 9, 7, 9, 3]);
    let point = frs(&[2, 7, 11, 13]);
    let poly = StandardPolynomial::new(&coeffs);
    let expected = compute_polynomial_evaluation::<Fr, FrAdditive, _>(&poly, &point);
    assert_eq!(vmv_product(&coeffs, &point), expected);
    // fewer coefficients than the matrix holds: the missing ones count as zero
    let short = frs(&[3, 1, 4, 1, 5, 9, 2, 6, 5, 3, 5]);
    let short_poly = StandardPolynomial::new(&short);
    let expected = compute_polynomial_evaluation::<Fr, FrAdditive, _>(&short_poly, &point);
    assert_eq!(vmv_product(&short, &point), expected);
    // no coordinates: the constant polynomial
    assert_eq!(vmv_product(&frs(&[42]), &[]), fr(42));
}

#[test]
fn tensors_split_a_point_between_rows_and_columns() {
    // σ < d ≤ 2σ: the first ν coordinates go to the columns, the rest to the rows
    let point = frs(&[2, 3, 4]);
    let (l_coords, r_coords) = compute_l_r_tensors(&point, 2, 2);
    assert_eq!(r_coords, frs(&[2, 3, 0, 0]));
    assert_eq!(l_coords, frs(&[4, 0, 0, 0]));
    let (l, r) = compute_left_right_vec(&point, 2, 2);
    let mut r_expected = vec![Fr::zero(); 4];
    multilinear_lagrange_vec(&mut r_expected, &r_coords[..2]);
    assert_eq!(r, r_expected);
    let mut l_expected = vec![Fr::zero(); 2];
    multilinear_lagrange_vec(&mut l_expected, &l_coords[..1]);
    assert_eq!(l[..2].to_vec(), l_expected);
    assert_eq!(l[2..].to_vec(), frs(&[0, 0]));
}

#[test]
fn lagrange_vector_extends_by_one_coordinate() {
    let point = frs(&[3, 5]);
    let p = fr(7);
    let mut v = vec![Fr::zero(); 4];
    multilinear_lagrange_vec(&mut v, &point);
    let mut w = vec![Fr::zero(); 8];
    multilinear_lagrange_vec(&mut w, &frs(&[3, 5, 7]));
    for j in 0..4 {
        assert_eq!(w[j], v[j].mul(&Fr::one().sub(&p)));
        assert_eq!(w[j + 4], v[j].mul(&p));
    }
}
