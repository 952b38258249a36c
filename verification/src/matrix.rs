//! The matrix type and its arithmetic.
//!
//! A [`Matrix`] is modelled by its view, the sequence of its rows, each a
//! sequence of elements.  Every operation states its result as a function of
//! the views of its operands; the functions are defined here, ahead of the
//! operations that compute them.

use vstd::prelude::*;
use crate::error::{
    CustomErrors,
    EmptyVectorError,
    MismatchError,
    NonUniformError,
    NotImplementedError,
};
use crate::numeric::{Numeric, Signed};
use crate::operations::{add_vec, vector_sum};
use crate::permutation::{
    as_indices,
    factorial,
    get_permutation_sign,
    is_permutation,
    lemma_nth_permutation_is_permutation,
    nth_permutation,
    permutation_sign,
    PermutationGenerator,
};

verus! {

/// A rectangular grid of elements with its number of rows `m` and of
/// columns `n`.
#[derive(Debug)]
pub struct Matrix<T: Copy> {
    /// The rows, from the first to the last.
    pub rows: Vec<Vec<T>>,
    /// The number of rows.
    pub m: usize,
    /// The number of columns.
    pub n: usize,
}

/// The rows of a matrix as sequences.
pub open spec fn rows_view<T>(rows: Seq<Vec<T>>) -> Seq<Seq<T>> {
    rows.map_values(|row: Vec<T>| row@)
}

impl<T: Copy> View for Matrix<T> {
    type V = Seq<Seq<T>>;

    open spec fn view(&self) -> Seq<Seq<T>> {
        rows_view(self.rows@)
    }
}

impl<T: Copy> Clone for Matrix<T> {
    /// A matrix with the same rows and the same recorded shape.
    fn clone(&self) -> (result: Matrix<T>)
        ensures
            result@ == self@,
            result.m == self.m,
            result.n == self.n,
    {
        let mut rows: Vec<Vec<T>> = Vec::new();
        for i in 0..self.rows.len()
            invariant
                rows@.len() == i,
                forall|r: int| 0 <= r < i ==> (#[trigger] rows@[r])@ == self.rows@[r]@,
        {
            let mut row: Vec<T> = Vec::new();
            let len = self.rows[i].len();
            for j in 0..len
                invariant
                    i < self.rows@.len(),
                    len == self.rows@[i as int]@.len(),
                    row@.len() == j,
                    forall|c: int| 0 <= c < j ==> #[trigger] row@[c] == self.rows@[i as int]@[c],
            {
                row.push(self.rows[i][j]);
            }
            assert(row@ =~= self.rows@[i as int]@);
            rows.push(row);
        }
        let result = Matrix { rows, m: self.m, n: self.n };
        assert(result@ =~= self@);
        result
    }
}

/// Every row has exactly `n` elements.
pub open spec fn rectangular<T>(rows: Seq<Seq<T>>, n: nat) -> bool {
    forall|i: int| 0 <= i < rows.len() ==> (#[trigger] rows[i]).len() == n
}

/// The reason why `rows` cannot make a matrix, if there is one: no row or an
/// empty first row, or a row that is not as long as the first.
pub open spec fn shape_error<T>(rows: Seq<Seq<T>>) -> Option<CustomErrors> {
    if rows.len() == 0 || rows[0].len() == 0 {
        Some(CustomErrors::EmptyVector(EmptyVectorError))
    } else if !rectangular(rows, rows[0].len()) {
        Some(CustomErrors::NonUniform(NonUniformError))
    } else {
        None
    }
}

/// The rows of the transpose of a grid with `n` columns: row `j` holds
/// column `j` of `rows`.
pub open spec fn transposed<T>(rows: Seq<Seq<T>>, n: nat) -> Seq<Seq<T>> {
    Seq::new(n, |j: int| Seq::new(rows.len(), |i: int| rows[i][j]))
}

/// Whether addition is offered for the shapes of `matrix_1` and `matrix_2`.
pub open spec fn spec_can_add<T: Copy>(matrix_1: &Matrix<T>, matrix_2: &Matrix<T>) -> bool {
    matrix_1.m == matrix_2.n && matrix_1.n == matrix_2.n
}

/// Whether multiplication is offered for the shapes of `matrix_1` and
/// `matrix_2`.
pub open spec fn spec_can_multiply<T: Copy>(matrix_1: &Matrix<T>, matrix_2: &Matrix<T>) -> bool {
    matrix_1.n == matrix_2.m
}

/// Whether `matrix` is recorded with as many rows as columns.
pub open spec fn spec_is_square<T: Copy>(matrix: &Matrix<T>) -> bool {
    matrix.m == matrix.n
}

/// The rows of the identity matrix of size `dim`: one on the diagonal, zero
/// elsewhere.
pub open spec fn identity_rows<T: Numeric>(dim: nat) -> Seq<Seq<T>> {
    Seq::new(
        dim,
        |i: int|
            Seq::new(
                dim,
                |j: int|
                    if i == j {
                        T::one_spec()
                    } else {
                        T::zero_spec()
                    },
            ),
    )
}

/// The element-wise sum of two grids, row by row over the rows of `a`.
pub open spec fn matrix_sum<T: Numeric>(a: Seq<Seq<T>>, b: Seq<Seq<T>>) -> Seq<Seq<T>> {
    Seq::new(a.len(), |i: int| vector_sum(a[i], b[i]))
}

/// The sum of the first `upto` products `row[k] * b[k][j]`, added up from
/// zero in the order of `k`.
pub open spec fn dot<T: Numeric>(row: Seq<T>, b: Seq<Seq<T>>, j: int, upto: nat) -> T
    decreases upto,
{
    if upto == 0 {
        T::zero_spec()
    } else {
        dot(row, b, j, (upto - 1) as nat).add_spec(row[upto - 1].mul_spec(b[upto - 1][j]))
    }
}

/// The product of two grids: the entry at `(i, j)` is row `i` of `a` times
/// column `j` of `b`.  The result has as many columns as the first row of
/// `b`.
pub open spec fn matrix_product<T: Numeric>(a: Seq<Seq<T>>, b: Seq<Seq<T>>) -> Seq<Seq<T>> {
    Seq::new(a.len(), |i: int| Seq::new(b[0].len(), |j: int| dot(a[i], b, j, a[i].len())))
}

/// The product of the entries that `perm` picks from the first `upto` rows,
/// one from each row `i` at column `perm[i]`, multiplied up from one in the
/// order of the rows.
pub open spec fn term<T: Numeric>(rows: Seq<Seq<T>>, perm: Seq<int>, upto: nat) -> T
    decreases upto,
{
    if upto == 0 {
        T::one_spec()
    } else {
        term(rows, perm, (upto - 1) as nat).mul_spec(rows[upto - 1][perm[upto - 1]])
    }
}

/// The sign of `perm` as an element: one for an even permutation, minus one
/// for an odd one.
pub open spec fn sign_element<T: Signed>(perm: Seq<int>) -> T {
    if permutation_sign(perm) == 1 {
        T::one_spec()
    } else {
        T::neg_one_spec()
    }
}

/// The sum of the signed terms of the first `count` permutations of the row
/// indices, added up from zero in the order of their numbers.
pub open spec fn leibniz_sum<T: Signed>(rows: Seq<Seq<T>>, count: nat) -> T
    decreases count,
{
    if count == 0 {
        T::zero_spec()
    } else {
        let perm = nth_permutation(rows.len(), (count - 1) as nat);
        leibniz_sum(rows, (count - 1) as nat).add_spec(
            sign_element::<T>(perm).mul_spec(term(rows, perm, rows.len())),
        )
    }
}

/// The determinant of a square grid by the Leibniz formula: the sum, over
/// all permutations of the row indices, of the sign of the permutation times
/// the product of the entries that it picks.
pub open spec fn determinant<T: Signed>(rows: Seq<Seq<T>>) -> T {
    leibniz_sum(rows, factorial(rows.len()))
}

impl<T: Copy> Matrix<T> {
    /// The recorded shape is the shape of the rows: there are `m` rows of
    /// `n` elements each.
    pub open spec fn is_rectangular(&self) -> bool {
        &&& self.rows@.len() == self.m
        &&& rectangular(self@, self.n as nat)
    }

    /// What the constructor establishes: a rectangular grid with at least
    /// one row and one column.
    pub open spec fn well_formed(&self) -> bool {
        &&& self.is_rectangular()
        &&& self.m >= 1
        &&& self.n >= 1
    }

    /// Makes a matrix of the given rows.  Fails with `EmptyVector` when there
    /// is no row or the first row is empty, and with `NonUniform` when a row
    /// is not as long as the first.
    pub fn new(rows: Vec<Vec<T>>) -> (result: Result<Matrix<T>, CustomErrors>)
        ensures
            match result {
                Ok(matrix) => {
                    &&& shape_error(rows_view(rows@)) is None
                    &&& matrix.rows == rows
                    &&& matrix.m == rows@.len()
                    &&& matrix.n == rows@[0]@.len()
                    &&& matrix.well_formed()
                },
                Err(e) => shape_error(rows_view(rows@)) == Some(e),
            },
    {
        let m = rows.len();
        if m == 0 {
            return Err(CustomErrors::EmptyVector(EmptyVectorError));
        }
        let n = rows[0].len();
        if n == 0 {
            return Err(CustomErrors::EmptyVector(EmptyVectorError));
        }
        for i in 1..m
            invariant
                1 <= m == rows@.len(),
                1 <= n == rows_view(rows@)[0].len(),
                forall|k: int| 0 <= k < i ==> (#[trigger] rows_view(rows@)[k]).len() == n,
        {
            if rows[i].len() != n {
                assert(rows_view(rows@)[i as int].len() != n);
                return Err(CustomErrors::NonUniform(NonUniformError));
            }
        }
        Ok(Matrix { rows, m, n })
    }

    /// The transpose: the matrix whose entry at `(j, i)` is the entry of
    /// `self` at `(i, j)`.
    pub fn transpose(&self) -> (result: Matrix<T>)
        requires
            self.is_rectangular(),
        ensures
            result.is_rectangular(),
            result.m == self.n,
            result.n == self.m,
            result@ == transposed(self@, self.n as nat),
    {
        let mut new_matrix: Vec<Vec<T>> = Vec::new();
        let row_count: usize = self.m;
        let column_count: usize = self.n;
        for j in 0..column_count
            invariant
                row_count == self.m,
                column_count == self.n,
                self.is_rectangular(),
                new_matrix@.len() == j,
                forall|c: int|
                    0 <= c < j ==> (#[trigger] new_matrix@[c])@ == transposed(
                        self@,
                        self.n as nat,
                    )[c],
        {
            let mut transposed_row: Vec<T> = Vec::new();
            for i in 0..row_count
                invariant
                    row_count == self.m,
                    j < self.n,
                    self.is_rectangular(),
                    transposed_row@.len() == i,
                    forall|r: int| 0 <= r < i ==> #[trigger] transposed_row@[r] == self@[r][j as int],
            {
                assert(self@[i as int].len() == self.n);
                transposed_row.push(self.rows[i][j]);
            }
            assert(transposed_row@ =~= transposed(self@, self.n as nat)[j as int]);
            new_matrix.push(transposed_row);
        }
        let result = Matrix { rows: new_matrix, m: self.n, n: self.m };
        assert(result@ =~= transposed(self@, self.n as nat));
        result
    }
}

/// The identity matrix of size `dim`.  Fails with `EmptyVector` when `dim`
/// is zero.
pub fn create_identity_matrix<T: Numeric>(dim: usize) -> (result: Result<Matrix<T>, CustomErrors>)
    ensures
        match result {
            Ok(matrix) => {
                &&& dim >= 1
                &&& matrix.well_formed()
                &&& matrix.m == dim
                &&& matrix.n == dim
                &&& matrix@ == identity_rows::<T>(dim as nat)
            },
            Err(e) => dim == 0 && e == CustomErrors::EmptyVector(EmptyVectorError),
        },
{
    if dim == 0 {
        return Err(CustomErrors::EmptyVector(EmptyVectorError));
    }
    let cast_zero: T = T::zero();
    let cast_one: T = T::one();

    let mut rows: Vec<Vec<T>> = Vec::new();
    for i in 0..dim
        invariant
            cast_zero == T::zero_spec(),
            cast_one == T::one_spec(),
            rows@.len() == i,
            forall|r: int|
                0 <= r < i ==> (#[trigger] rows@[r])@ == identity_rows::<T>(dim as nat)[r],
    {
        let mut matrix_row: Vec<T> = Vec::new();
        for j in 0..dim
            invariant
                i < dim,
                cast_zero == T::zero_spec(),
                cast_one == T::one_spec(),
                matrix_row@.len() == j,
                forall|c: int|
                    0 <= c < j ==> #[trigger] matrix_row@[c] == identity_rows::<T>(
                        dim as nat,
                    )[i as int][c],
        {
            if j == i {
                matrix_row.push(cast_one)
            } else {
                matrix_row.push(cast_zero)
            }
        }
        assert(matrix_row@ =~= identity_rows::<T>(dim as nat)[i as int]);
        rows.push(matrix_row);
    }
    let matrix = Matrix { rows, m: dim, n: dim };
    assert(matrix@ =~= identity_rows::<T>(dim as nat));
    Ok(matrix)
}

/// The operands whose sum [`add_matrices`] returns: [`can_add`] holds of
/// them, and `matrix_2` has a row for every row of `matrix_1`.
pub open spec fn sum_defined<T: Copy>(matrix_1: &Matrix<T>, matrix_2: &Matrix<T>) -> bool {
    can_add(matrix_1, matrix_2) && matrix_1.m <= matrix_2.m
}

/// Adds two matrices element by element.
///
/// The sum has the shape of `matrix_1`; rows of `matrix_2` beyond those of
/// `matrix_1` are left out of it.  Operands that [`can_add`] refuses fail
/// with `Mismatch`, and so do operands of which `matrix_2` has fewer rows
/// than `matrix_1`.
pub fn add_matrices<T: Numeric>(matrix_1: Matrix<T>, matrix_2: Matrix<T>) -> (result: Result<
    Matrix<T>,
    CustomErrors,
>)
    requires
        matrix_1.is_rectangular(),
        matrix_2.is_rectangular(),
    ensures
        match result {
            Ok(sum) => {
                &&& sum_defined(&matrix_1, &matrix_2)
                &&& sum.is_rectangular()
                &&& sum.m == matrix_1.m
                &&& sum.n == matrix_1.n
                &&& sum@ == matrix_sum(matrix_1@, matrix_2@)
            },
            Err(e) => {
                &&& !sum_defined(&matrix_1, &matrix_2)
                &&& e == CustomErrors::Mismatch(MismatchError)
            },
        },
{
    if !can_add(&matrix_1, &matrix_2) {
        return Err(CustomErrors::Mismatch(MismatchError));
    }
    if matrix_1.m > matrix_2.m {
        return Err(CustomErrors::Mismatch(MismatchError));
    }
    let mut new_matrix_rows: Vec<Vec<T>> = Vec::new();
    for i in 0..matrix_1.m
        invariant
            matrix_1.is_rectangular(),
            matrix_2.is_rectangular(),
            matrix_1.n == matrix_2.n,
            matrix_1.m <= matrix_2.m,
            new_matrix_rows@.len() == i,
            forall|r: int|
                0 <= r < i ==> (#[trigger] new_matrix_rows@[r])@ == vector_sum(
                    matrix_1@[r],
                    matrix_2@[r],
                ),
    {
        assert(matrix_1@[i as int].len() == matrix_1.n);
        assert(matrix_2@[i as int].len() == matrix_2.n);
        let new_row = match add_vec(&matrix_1.rows[i], &matrix_2.rows[i]) {
            Ok(vec) => vec,
            Err(e) => return Err(e),
        };
        new_matrix_rows.push(new_row)
    }
    let sum = Matrix { rows: new_matrix_rows, m: matrix_1.m, n: matrix_1.n };
    assert(sum@ =~= matrix_sum(matrix_1@, matrix_2@));
    Ok(sum)
}

/// Multiplies two matrices.
///
/// Fails with `EmptyVector` when a dimension of an operand is zero, and
/// with `Mismatch` when `matrix_1` has not as many columns as `matrix_2`
/// has rows.  The product has the rows of `matrix_1` and the columns of
/// `matrix_2`.
pub fn multiply_matrices<T: Numeric>(matrix_1: Matrix<T>, matrix_2: Matrix<T>) -> (result: Result<
    Matrix<T>,
    CustomErrors,
>)
    requires
        matrix_1.is_rectangular(),
        matrix_2.is_rectangular(),
    ensures
        match result {
            Ok(product) => {
                &&& matrix_1.well_formed()
                &&& matrix_2.well_formed()
                &&& can_multiply(&matrix_1, &matrix_2)
                &&& product.well_formed()
                &&& product.m == matrix_1.m
                &&& product.n == matrix_2.n
                &&& product@ == matrix_product(matrix_1@, matrix_2@)
            },
            Err(e) => if matrix_1.m == 0 || matrix_1.n == 0 || matrix_2.m == 0 || matrix_2.n
                == 0 {
                e == CustomErrors::EmptyVector(EmptyVectorError)
            } else {
                !can_multiply(&matrix_1, &matrix_2) && e == CustomErrors::Mismatch(MismatchError)
            },
        },
{
    if matrix_1.m == 0 || matrix_1.n == 0 || matrix_2.m == 0 || matrix_2.n == 0 {
        return Err(CustomErrors::EmptyVector(EmptyVectorError));
    }
    if !can_multiply(&matrix_1, &matrix_2) {
        return Err(CustomErrors::Mismatch(MismatchError));
    }
    let mut new_matrix_rows: Vec<Vec<T>> = Vec::new();

    for i in 0..matrix_1.m
        invariant
            matrix_1.well_formed(),
            matrix_2.well_formed(),
            matrix_1.n == matrix_2.m,
            new_matrix_rows@.len() == i,
            forall|r: int|
                0 <= r < i ==> (#[trigger] new_matrix_rows@[r])@ == matrix_product(
                    matrix_1@,
                    matrix_2@,
                )[r],
    {
        let mut new_row: Vec<T> = Vec::new();
        assert(matrix_1@[i as int].len() == matrix_1.n);
        assert(matrix_2@[0].len() == matrix_2.n);
        for j in 0..matrix_2.n
            invariant
                i < matrix_1.m,
                matrix_1.well_formed(),
                matrix_2.well_formed(),
                matrix_1.n == matrix_2.m,
                matrix_1@[i as int].len() == matrix_1.n,
                new_row@.len() == j,
                forall|c: int|
                    0 <= c < j ==> #[trigger] new_row@[c] == dot(
                        matrix_1@[i as int],
                        matrix_2@,
                        c,
                        matrix_1.n as nat,
                    ),
        {
            let mut element_sum: T = T::zero();
            for k in 0..matrix_1.n
                invariant
                    i < matrix_1.m,
                    j < matrix_2.n,
                    matrix_1.well_formed(),
                    matrix_2.well_formed(),
                    matrix_1.n == matrix_2.m,
                    element_sum == dot(matrix_1@[i as int], matrix_2@, j as int, k as nat),
            {
                assert(matrix_1@[i as int].len() == matrix_1.n);
                assert(matrix_2@[k as int].len() == matrix_2.n);
                element_sum = element_sum.plus(matrix_1.rows[i][k].times(matrix_2.rows[k][j]));
            }
            new_row.push(element_sum)
        }
        assert(new_row@ =~= matrix_product(matrix_1@, matrix_2@)[i as int]);
        new_matrix_rows.push(new_row)
    }
    let product = Matrix { rows: new_matrix_rows, m: matrix_1.m, n: matrix_2.n };
    assert(product@ =~= matrix_product(matrix_1@, matrix_2@));
    Ok(product)
}

/// Tells whether `matrix` has as many rows as columns.
#[verifier::when_used_as_spec(spec_is_square)]
pub fn is_square<T: Copy>(matrix: &Matrix<T>) -> (result: bool)
    ensures
        result == (matrix.m == matrix.n),
{
    if matrix.m != matrix.n {
        return false;
    }
    true
}

/// Tells whether [`add_matrices`] accepts the shapes of the two matrices:
/// the number of rows and the number of columns of `matrix_1` must both
/// equal the number of columns of `matrix_2`.
///
/// Note that the rows of `matrix_1` are held against the *columns* of
/// `matrix_2`, not against its rows.  Two matrices of one shape can
/// therefore be added only when they are square.
#[verifier::when_used_as_spec(spec_can_add)]
pub fn can_add<T: Copy>(matrix_1: &Matrix<T>, matrix_2: &Matrix<T>) -> (result: bool)
    ensures
        result == (matrix_1.m == matrix_2.n && matrix_1.n == matrix_2.n),
{
    if matrix_1.m != matrix_2.n {
        return false;
    }
    if matrix_1.n != matrix_2.n {
        return false;
    }
    true
}

/// Tells whether [`multiply_matrices`] accepts the shapes of the two
/// matrices: `matrix_1` must have as many columns as `matrix_2` has rows.
#[verifier::when_used_as_spec(spec_can_multiply)]
pub fn can_multiply<T: Copy>(matrix_1: &Matrix<T>, matrix_2: &Matrix<T>) -> (result: bool)
    ensures
        result == (matrix_1.n == matrix_2.m),
{
    if matrix_1.n != matrix_2.m {
        return false;
    }
    true
}

/// The determinant of a square matrix.  Fails with `NotImplemented` when
/// the matrix is not square.
pub fn get_determinant<T: Signed>(matrix: &Matrix<T>) -> (result: Result<T, CustomErrors>)
    requires
        matrix.is_rectangular(),
    ensures
        match result {
            Ok(value) => is_square(matrix) && value == determinant(matrix@),
            Err(e) => !is_square(matrix) && e == CustomErrors::NotImplemented(NotImplementedError),
        },
{
    if !is_square(matrix) {
        return Err(CustomErrors::NotImplemented(NotImplementedError));
    }
    let size = matrix.rows.len();
    let rows = &matrix.rows;
    let mut perms = PermutationGenerator::new(size);
    let zero_cast: T = T::zero();
    let one_cast: T = T::one();
    let mut total: T = zero_cast;
    loop
        invariant
            matrix.is_rectangular(),
            rows == &matrix.rows,
            size == matrix.m,
            size == matrix.n,
            perms.size() == size,
            one_cast == T::one_spec(),
            total == leibniz_sum(matrix@, perms.produced()),
        ensures
            perms.produced() == factorial(size as nat),
        decreases factorial(size as nat) - perms.produced(),
    {
        let ghost number = perms.produced();
        let perm = match perms.next_permutation() {
            Some(perm) => perm,
            None => {
                break ;
            },
        };
        proof {
            lemma_nth_permutation_is_permutation(size as nat, number);
        }
        let sign: T = if get_permutation_sign(&perm) == 1 {
            one_cast
        } else {
            T::neg_one()
        };
        let mut product: T = one_cast;
        for i in 0..size
            invariant
                matrix.is_rectangular(),
                rows == &matrix.rows,
                size == matrix.m,
                size == matrix.n,
                is_permutation(as_indices(perm@), size as nat),
                product == term(matrix@, as_indices(perm@), i as nat),
        {
            assert(as_indices(perm@)[i as int] == perm@[i as int]);
            assert(matrix@[i as int].len() == matrix.n);
            product = product.times(rows[i][perm[i]]);
        }
        total = total.plus(sign.times(product));
    }
    Ok(total)
}

} // verus!
