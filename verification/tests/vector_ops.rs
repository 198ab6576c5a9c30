use state_space_tween::vector::VectorND;

#[test]
fn origin_is_all_zero() {
    let v: VectorND<3> = VectorND::origin();
    assert_eq!(v.to_vec(), vec![0i64, 0, 0]);
    assert_eq!(VectorND::<3>::len(), 3);
}

#[test]
fn from_components_pads_missing_with_zero() {
    let v: VectorND<4> = VectorND::from_components(&[7i64, 8]);
    assert_eq!(v.to_vec(), vec![7i64, 8, 0, 0]);
}

#[test]
fn from_components_ignores_excess() {
    let v: VectorND<2> = VectorND::from_components(&[1i64, 2, 3, 4]);
    assert_eq!(v.to_vec(), vec![1i64, 2]);
}

#[test]
fn from_components_round_trips_own_components() {
    let v: VectorND<3> = VectorND::from_components(&[5i64, -6, 7]);
    let again: VectorND<3> = VectorND::from_components(&[v.get(0), v.get(1), v.get(2)]);
    assert_eq!(again.to_vec(), v.to_vec());
}

#[test]
fn get_reads_single_components() {
    let v: VectorND<3> = VectorND::from_components(&[10i64, 20, 30]);
    assert_eq!(v.get(0), 10);
    assert_eq!(v.get(2), 30);
}

#[test]
fn componentwise_sum_difference_product() {
    let a: VectorND<2> = VectorND::from_components(&[3i64, -4]);
    let b: VectorND<2> = VectorND::from_components(&[5i64, 6]);
    assert_eq!(a.add(&b).to_vec(), vec![8i64, 2]);
    assert_eq!(a.sub(&b).to_vec(), vec![-2i64, -10]);
    assert_eq!(a.mul(&b).to_vec(), vec![15i64, -24]);
}

#[test]
fn add_then_sub_returns_original() {
    let a: VectorND<3> = VectorND::from_components(&[1i64, -2, 3]);
    let b: VectorND<3> = VectorND::from_components(&[10i64, 20, -30]);
    assert_eq!(a.add(&b).sub(&b).to_vec(), a.to_vec());
}

#[test]
fn scale_by_one_is_identity() {
    let a: VectorND<3> = VectorND::from_components(&[4i64, -5, 6]);
    assert_eq!(a.scale(1).to_vec(), a.to_vec());
}

#[test]
fn scale_by_zero_is_origin() {
    let a: VectorND<3> = VectorND::from_components(&[4i64, -5, 6]);
    let o: VectorND<3> = VectorND::origin();
    assert_eq!(a.scale(0).to_vec(), o.to_vec());
}

#[test]
fn scale_multiplies_every_component() {
    let a: VectorND<3> = VectorND::from_components(&[4i64, -5, 6]);
    assert_eq!(a.scale(-3).to_vec(), vec![-12i64, 15, -18]);
}

#[test]
fn extremal_combination_is_componentwise() {
    let a: VectorND<3> = VectorND::from_components(&[5i64, 1, -2]);
    let b: VectorND<3> = VectorND::from_components(&[3i64, 4, -7]);
    let big = VectorND::from_biggest_components(&a, &b);
    assert_eq!(big.to_vec(), vec![5i64, 4, -2]);
    let small = VectorND::from_smallest_components(&a, &b);
    assert_eq!(small.to_vec(), vec![3i64, 1, -7]);
}

#[test]
fn extremal_combination_of_equal_vectors() {
    let a: VectorND<2> = VectorND::from_components(&[9i64, -9]);
    assert_eq!(VectorND::from_biggest_components(&a, &a).to_vec(), a.to_vec());
    assert_eq!(VectorND::from_smallest_components(&a, &a).to_vec(), a.to_vec());
}
