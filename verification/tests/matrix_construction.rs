use linalg::error::{CustomErrors, EmptyVectorError, NonUniformError};
use linalg::matrix::{can_add, can_multiply, create_identity_matrix, is_square, Matrix};
use linalg::models::classifier::{DecisionTree, NullNode, TreeNodes};

fn matrix(rows: Vec<Vec<i32>>) -> Matrix<i32> {
    Matrix::new(rows).unwrap()
}

#[test]
fn new_without_rows_is_empty_vector() {
    let result = Matrix::<i32>::new(vec![]);
    assert_eq!(result.unwrap_err(), CustomErrors::EmptyVector(EmptyVectorError));
}

#[test]
fn new_with_empty_first_row_is_empty_vector() {
    let result = Matrix::<i32>::new(vec![vec![]]);
    assert_eq!(result.unwrap_err(), CustomErrors::EmptyVector(EmptyVectorError));
}

#[test]
fn new_with_empty_first_row_and_longer_second_is_empty_vector() {
    let result = Matrix::<i32>::new(vec![vec![], vec![1]]);
    assert_eq!(result.unwrap_err(), CustomErrors::EmptyVector(EmptyVectorError));
}

#[test]
fn new_with_short_row_is_non_uniform() {
    let result = Matrix::new(vec![vec![1, 2], vec![3]]);
    assert_eq!(result.unwrap_err(), CustomErrors::NonUniform(NonUniformError));
}

#[test]
fn new_with_long_last_row_is_non_uniform() {
    let result = Matrix::new(vec![vec![1, 2], vec![3, 4], vec![5, 6, 7]]);
    assert_eq!(result.unwrap_err(), CustomErrors::NonUniform(NonUniformError));
}

#[test]
fn new_with_empty_later_row_is_non_uniform() {
    let result = Matrix::new(vec![vec![1], vec![]]);
    assert_eq!(result.unwrap_err(), CustomErrors::NonUniform(NonUniformError));
}

#[test]
fn new_square_records_shape_and_rows() {
    let m = matrix(vec![vec![1, 2], vec![3, 4]]);
    assert_eq!(m.m, 2);
    assert_eq!(m.n, 2);
    assert_eq!(m.rows, vec![vec![1, 2], vec![3, 4]]);
}

#[test]
fn new_single_row_and_single_column() {
    let row = matrix(vec![vec![1, 2, 3]]);
    assert_eq!((row.m, row.n), (1, 3));
    let column = matrix(vec![vec![1], vec![2], vec![3]]);
    assert_eq!((column.m, column.n), (3, 1));
}

#[test]
fn clone_keeps_rows_and_shape() {
    let m = matrix(vec![vec![1, 2, 3], vec![4, 5, 6]]);
    let copy = m.clone();
    assert_eq!(copy.rows, m.rows);
    assert_eq!((copy.m, copy.n), (2, 3));
}

#[test]
fn transpose_swaps_rows_and_columns() {
    let m = matrix(vec![vec![1, 2, 3], vec![4, 5, 6]]);
    let t = m.transpose();
    assert_eq!((t.m, t.n), (3, 2));
    assert_eq!(t.rows, vec![vec![1, 4], vec![2, 5], vec![3, 6]]);
    assert_eq!(m.rows, vec![vec![1, 2, 3], vec![4, 5, 6]]);
}

#[test]
fn transpose_of_single_entry() {
    let t = matrix(vec![vec![9]]).transpose();
    assert_eq!((t.m, t.n), (1, 1));
    assert_eq!(t.rows, vec![vec![9]]);
}

#[test]
fn transpose_of_row_is_column() {
    let t = matrix(vec![vec![1, 2, 3]]).transpose();
    assert_eq!((t.m, t.n), (3, 1));
    assert_eq!(t.rows, vec![vec![1], vec![2], vec![3]]);
}

#[test]
fn transpose_twice_is_the_matrix() {
    let m = matrix(vec![vec![1, -2, 3, 0], vec![4, 5, -6, 7], vec![8, 9, 10, -11]]);
    let back = m.transpose().transpose();
    assert_eq!((back.m, back.n), (m.m, m.n));
    assert_eq!(back.rows, m.rows);
}

#[test]
fn transpose_twice_keeps_an_empty_shape() {
    let no_rows: Matrix<i32> = Matrix { rows: vec![], m: 0, n: 3 };
    let t = no_rows.transpose();
    assert_eq!((t.m, t.n), (3, 0));
    assert_eq!(t.rows, vec![Vec::<i32>::new(), vec![], vec![]]);
    let back = t.transpose();
    assert_eq!((back.m, back.n), (0, 3));
    assert!(back.rows.is_empty());
}

#[test]
fn identity_of_three() {
    let id = create_identity_matrix::<i32>(3).unwrap();
    assert_eq!((id.m, id.n), (3, 3));
    assert_eq!(id.rows, vec![vec![1, 0, 0], vec![0, 1, 0], vec![0, 0, 1]]);
}

#[test]
fn identity_of_one() {
    let id = create_identity_matrix::<u64>(1).unwrap();
    assert_eq!((id.m, id.n), (1, 1));
    assert_eq!(id.rows, vec![vec![1u64]]);
}

#[test]
fn identity_of_zero_is_empty_vector() {
    let result = create_identity_matrix::<i32>(0);
    assert_eq!(result.unwrap_err(), CustomErrors::EmptyVector(EmptyVectorError));
}

#[test]
fn is_square_compares_rows_and_columns() {
    assert!(is_square(&matrix(vec![vec![1, 2], vec![3, 4]])));
    assert!(is_square(&matrix(vec![vec![1]])));
    assert!(!is_square(&matrix(vec![vec![1, 2, 3], vec![4, 5, 6]])));
    assert!(!is_square(&matrix(vec![vec![1], vec![2]])));
}

#[test]
fn can_add_holds_for_square_matrices_of_one_size() {
    let a = matrix(vec![vec![1, 2], vec![3, 4]]);
    let b = matrix(vec![vec![5, 6], vec![7, 8]]);
    assert!(can_add(&a, &b));
    assert!(can_add(&b, &a));
}

#[test]
fn can_add_holds_rows_of_first_against_columns_of_second() {
    let a = matrix(vec![vec![1, 2, 3], vec![4, 5, 6]]);
    let b = matrix(vec![vec![1, 2, 3], vec![4, 5, 6]]);
    assert!(!can_add(&a, &b));
    let square = matrix(vec![vec![1, 2], vec![3, 4]]);
    let tall = matrix(vec![vec![1, 2], vec![3, 4], vec![5, 6]]);
    assert!(can_add(&square, &tall));
    assert!(!can_add(&tall, &square));
}

#[test]
fn can_add_needs_equal_columns() {
    let a = matrix(vec![vec![1, 2], vec![3, 4]]);
    let b = matrix(vec![vec![1, 2, 3], vec![4, 5, 6]]);
    assert!(!can_add(&a, &b));
    assert!(!can_add(&b, &a));
}

#[test]
fn can_multiply_compares_inner_dimensions() {
    let a = matrix(vec![vec![1, 2, 3], vec![4, 5, 6]]);
    let b = matrix(vec![vec![1, 2], vec![3, 4], vec![5, 6]]);
    let c = matrix(vec![vec![1, 2], vec![3, 4], vec![5, 6], vec![7, 8]]);
    assert!(can_multiply(&a, &b));
    assert!(can_multiply(&b, &a));
    assert!(!can_multiply(&a, &c));
    assert!(can_multiply(&c, &a));
    assert!(!can_multiply(&a, &a));
}

#[test]
fn decision_tree_shapes_can_be_made() {
    let _tree = DecisionTree::new(2, 10);
    let _end = NullNode {};
    let kinds = [TreeNodes::TreeNode, TreeNodes::NullNode];
    assert!(matches!(kinds[0], TreeNodes::TreeNode));
    assert!(matches!(kinds[1], TreeNodes::NullNode));
}
