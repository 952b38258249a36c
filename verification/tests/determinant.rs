use linalg::error::{CustomErrors, NotImplementedError};
use linalg::matrix::{create_identity_matrix, get_determinant, Matrix};

fn matrix(rows: Vec<Vec<i32>>) -> Matrix<i32> {
    Matrix::new(rows).unwrap()
}

#[test]
fn determinant_of_two_by_two() {
    let m = matrix(vec![vec![1, 2], vec![3, 4]]);
    assert_eq!(get_determinant(&m).unwrap(), -2);
}

#[test]
fn determinant_of_singular_three_by_three() {
    let m = matrix(vec![vec![1, 2, 3], vec![4, 5, 6], vec![7, 8, 9]]);
    assert_eq!(get_determinant(&m).unwrap(), 0);
}

#[test]
fn determinant_of_regular_three_by_three() {
    let m = matrix(vec![vec![2, -3, 1], vec![2, 0, -1], vec![1, 4, 5]]);
    assert_eq!(get_determinant(&m).unwrap(), 49);
}

#[test]
fn determinant_of_single_entry() {
    assert_eq!(get_determinant(&matrix(vec![vec![7]])).unwrap(), 7);
    assert_eq!(get_determinant(&matrix(vec![vec![-7]])).unwrap(), -7);
}

#[test]
fn determinant_of_two_by_three_is_not_implemented() {
    let m = matrix(vec![vec![1, 2, 3], vec![4, 5, 6]]);
    let result = get_determinant(&m);
    assert_eq!(result.unwrap_err(), CustomErrors::NotImplemented(NotImplementedError));
}

#[test]
fn determinant_of_three_by_two_is_not_implemented() {
    let m = matrix(vec![vec![1, 2], vec![3, 4], vec![5, 6]]);
    let result = get_determinant(&m);
    assert_eq!(result.unwrap_err(), CustomErrors::NotImplemented(NotImplementedError));
}

#[test]
fn determinant_of_identity_is_one() {
    for n in 1..=6 {
        let id = create_identity_matrix::<i32>(n).unwrap();
        assert_eq!(get_determinant(&id).unwrap(), 1);
        let id = create_identity_matrix::<i64>(n).unwrap();
        assert_eq!(get_determinant(&id).unwrap(), 1i64);
    }
}

#[test]
fn determinant_of_diagonal_is_product_of_diagonal() {
    let m = matrix(vec![
        vec![2, 0, 0, 0],
        vec![0, 3, 0, 0],
        vec![0, 0, 4, 0],
        vec![0, 0, 0, 5],
    ]);
    assert_eq!(get_determinant(&m).unwrap(), 120);
}

#[test]
fn determinant_of_triangular_four_by_four() {
    let m = matrix(vec![
        vec![1, 2, 3, 4],
        vec![0, -2, 5, 6],
        vec![0, 0, 3, 7],
        vec![0, 0, 0, -4],
    ]);
    assert_eq!(get_determinant(&m).unwrap(), 24);
}

#[test]
fn determinant_changes_sign_when_rows_are_swapped() {
    let m = matrix(vec![vec![2, -3, 1], vec![2, 0, -1], vec![1, 4, 5]]);
    let swapped = matrix(vec![vec![2, 0, -1], vec![2, -3, 1], vec![1, 4, 5]]);
    assert_eq!(get_determinant(&m).unwrap(), 49);
    assert_eq!(get_determinant(&swapped).unwrap(), -49);
}

#[test]
fn determinant_of_transpose_is_the_same() {
    let m = matrix(vec![vec![3, 1, -2, 0], vec![4, 0, 1, 5], vec![-1, 2, 2, 1], vec![0, 3, 1, -2]]);
    let value = get_determinant(&m).unwrap();
    assert_eq!(get_determinant(&m.transpose()).unwrap(), value);
    assert_eq!(value, 74);
}

#[test]
fn determinant_over_wide_elements() {
    let m: Matrix<i64> = Matrix::new(vec![
        vec![3_000_000_000, 1],
        vec![2, 3_000_000_000],
    ]).unwrap();
    assert_eq!(get_determinant(&m).unwrap(), 8_999_999_999_999_999_998i64);
}

#[test]
fn determinant_over_widest_elements() {
    let m: Matrix<i128> = Matrix::new(vec![
        vec![10_000_000_000_000_000_000, 3],
        vec![5, 10_000_000_000_000_000_000],
    ]).unwrap();
    assert_eq!(
        get_determinant(&m).unwrap(),
        99_999_999_999_999_999_999_999_999_999_999_999_985i128
    );
}

#[test]
fn determinant_wraps_around() {
    let m = matrix(vec![vec![65536, 0], vec![0, 65536]]);
    assert_eq!(get_determinant(&m).unwrap(), 0);
}

#[test]
fn determinant_of_the_empty_square_is_one() {
    let empty: Matrix<i32> = Matrix { rows: vec![], m: 0, n: 0 };
    assert_eq!(get_determinant(&empty).unwrap(), 1);
}
