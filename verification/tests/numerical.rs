use tfs::NumericalVec;

#[test]
fn numerical_vec_adds_position_by_position() {
    let a = NumericalVec::from(vec![1.0, 2.0, 3.0]);
    let b = NumericalVec::from(vec![0.5, 0.25, 0.125]);
    assert_eq!(a.add(&b).data(), &vec![1.5, 2.25, 3.125]);
    assert_eq!(a.data(), &vec![1.0, 2.0, 3.0]);
}

#[test]
fn numerical_vec_subtracts_position_by_position() {
    let a = NumericalVec::from(vec![10, 20, 30]);
    let b = NumericalVec::from(vec![1, 2, 3]);
    assert_eq!(a.sub(&b).data(), &vec![9, 18, 27]);
    let none: NumericalVec<i32> = NumericalVec::from(vec![]);
    assert_eq!(none.add(&none).data(), &Vec::<i32>::new());
}
