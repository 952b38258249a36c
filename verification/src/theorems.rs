//! What holds of the matrix operations for every operand.
//!
//! The theorems are stated over the functions in which the operations of
//! [`crate::matrix`] state their results, so each of them is a statement
//! about what those operations return.

use vstd::prelude::*;
use crate::matrix::{
    determinant,
    dot,
    identity_rows,
    leibniz_sum,
    matrix_product,
    matrix_sum,
    rectangular,
    sign_element,
    sum_defined,
    term,
    transposed,
    Matrix,
};
use crate::numeric::{NumericLaws, SignedLaws};
use crate::operations::vector_sum;
use crate::permutation::{
    factorial,
    greater_before,
    identity_permutation,
    inversions,
    lemma_factorial_positive,
    lemma_first_permutation_is_identity,
    lemma_identity_sign,
    lemma_nth_permutation_injective,
    lemma_nth_permutation_is_permutation,
    nth_permutation,
    permutation_sign,
};

verus! {

/// Transposing twice gives the grid back.
pub proof fn lemma_transpose_involution<T>(rows: Seq<Seq<T>>, n: nat)
    requires
        rectangular(rows, n),
    ensures
        transposed(transposed(rows, n), rows.len()) == rows,
{
    let back = transposed(transposed(rows, n), rows.len());
    assert forall|i: int| 0 <= i < rows.len() implies back[i] == rows[i] by {
        assert(rows[i].len() == n);
        assert(back[i] =~= rows[i]);
    }
    assert(back =~= rows);
}

/// Whether the sum of two matrices of one shape is defined does not depend
/// on their order, and neither does the sum.
pub proof fn lemma_add_commutative<T: NumericLaws>(a: Matrix<T>, b: Matrix<T>)
    requires
        a.is_rectangular(),
        b.is_rectangular(),
        a.m == b.m,
        a.n == b.n,
    ensures
        sum_defined(&a, &b) == sum_defined(&b, &a),
        matrix_sum(a@, b@) == matrix_sum(b@, a@),
{
    assert forall|i: int| 0 <= i < a@.len() implies vector_sum(a@[i], b@[i]) == vector_sum(
        b@[i],
        a@[i],
    ) by {
        assert(a@[i].len() == a.n && b@[i].len() == b.n);
        assert forall|j: int| 0 <= j < a.n implies a@[i][j].add_spec(b@[i][j]) == b@[i][j].add_spec(
            a@[i][j],
        ) by {
            T::lemma_add_commutative(a@[i][j], b@[i][j]);
        }
        assert(vector_sum(a@[i], b@[i]) =~= vector_sum(b@[i], a@[i]));
    }
    assert(matrix_sum(a@, b@) =~= matrix_sum(b@, a@));
}

/// The sum of three grids of one shape does not depend on how it is
/// grouped.
pub proof fn lemma_add_associative<T: NumericLaws>(
    a: Seq<Seq<T>>,
    b: Seq<Seq<T>>,
    c: Seq<Seq<T>>,
    n: nat,
)
    requires
        a.len() == b.len(),
        b.len() == c.len(),
        rectangular(a, n),
        rectangular(b, n),
        rectangular(c, n),
    ensures
        matrix_sum(matrix_sum(a, b), c) == matrix_sum(a, matrix_sum(b, c)),
{
    let left = matrix_sum(matrix_sum(a, b), c);
    let right = matrix_sum(a, matrix_sum(b, c));
    assert forall|i: int| 0 <= i < a.len() implies left[i] == right[i] by {
        assert(a[i].len() == n && b[i].len() == n && c[i].len() == n);
        assert forall|j: int| 0 <= j < n implies left[i][j] == right[i][j] by {
            T::lemma_add_associative(a[i][j], b[i][j], c[i][j]);
        }
        assert(left[i] =~= right[i]);
    }
    assert(left =~= right);
}

/// Row `row` times column `j` of the identity, as far as it has been added
/// up: the entry at `j` once the sum has passed it, zero before.
proof fn lemma_dot_identity_right<T: NumericLaws>(row: Seq<T>, n: nat, j: int, upto: nat)
    requires
        row.len() == n,
        0 <= j < n,
        upto <= n,
    ensures
        dot(row, identity_rows::<T>(n), j, upto) == if upto > j {
            row[j]
        } else {
            T::zero_spec()
        },
    decreases upto,
{
    if upto > 0 {
        let k = upto - 1;
        lemma_dot_identity_right(row, n, j, k as nat);
        T::lemma_mul_one(row[k]);
        T::lemma_mul_zero(row[k]);
        T::lemma_add_zero(row[j]);
        T::lemma_add_zero(T::zero_spec());
    }
}

/// Row `i` of the identity times column `j` of `rows`, as far as it has
/// been added up: the entry at `(i, j)` once the sum has passed row `i`,
/// zero before.
proof fn lemma_dot_identity_left<T: NumericLaws>(rows: Seq<Seq<T>>, m: nat, i: int, j: int, upto: nat)
    requires
        rows.len() == m,
        0 <= i < m,
        upto <= m,
    ensures
        dot(identity_rows::<T>(m)[i], rows, j, upto) == if upto > i {
            rows[i][j]
        } else {
            T::zero_spec()
        },
    decreases upto,
{
    if upto > 0 {
        let k = upto - 1;
        lemma_dot_identity_left(rows, m, i, j, k as nat);
        T::lemma_mul_one(rows[k][j]);
        T::lemma_mul_zero(rows[k][j]);
        T::lemma_add_zero(rows[i][j]);
        T::lemma_add_zero(T::zero_spec());
    }
}

/// Multiplying by the identity of the fitting size, on either side, gives
/// the grid back.
pub proof fn lemma_multiply_identity<T: NumericLaws>(rows: Seq<Seq<T>>, n: nat)
    requires
        rows.len() >= 1,
        n >= 1,
        rectangular(rows, n),
    ensures
        matrix_product(rows, identity_rows::<T>(n)) == rows,
        matrix_product(identity_rows::<T>(rows.len()), rows) == rows,
{
    let m = rows.len();
    let right = matrix_product(rows, identity_rows::<T>(n));
    let left = matrix_product(identity_rows::<T>(m), rows);
    assert(rows[0].len() == n);
    assert forall|i: int| 0 <= i < m implies right[i] == rows[i] && left[i] == rows[i] by {
        assert(rows[i].len() == n);
        assert forall|j: int| 0 <= j < n implies right[i][j] == rows[i][j] && left[i][j]
            == rows[i][j] by {
            lemma_dot_identity_right(rows[i], n, j, n);
            lemma_dot_identity_left(rows, m, i, j, m);
        }
        assert(right[i] =~= rows[i]);
        assert(left[i] =~= rows[i]);
    }
    assert(right =~= rows);
    assert(left =~= rows);
}

/// The product along the identity permutation of the identity matrix is
/// one.
proof fn lemma_term_of_diagonal<T: NumericLaws>(n: nat, upto: nat)
    requires
        upto <= n,
    ensures
        term(identity_rows::<T>(n), identity_permutation(n), upto) == T::one_spec(),
    decreases upto,
{
    if upto > 0 {
        lemma_term_of_diagonal::<T>(n, (upto - 1) as nat);
        T::lemma_mul_one(T::one_spec());
    }
}

/// A product that has picked a zero is zero, whatever else it picks.
proof fn lemma_term_with_zero<T: NumericLaws>(rows: Seq<Seq<T>>, perm: Seq<int>, at: int, upto: nat)
    requires
        0 <= at < upto,
        rows[at][perm[at]] == T::zero_spec(),
    ensures
        term(rows, perm, upto) == T::zero_spec(),
    decreases upto,
{
    let k = upto - 1;
    if at < k {
        lemma_term_with_zero(rows, perm, at, k as nat);
        T::lemma_mul_zero(rows[k][perm[k]]);
    } else {
        T::lemma_mul_zero(term(rows, perm, k as nat));
    }
}

/// Of the identity matrix, every permutation but the first contributes
/// zero to the sum, so the sum is one from the first term on.
proof fn lemma_leibniz_sum_of_identity<T: SignedLaws>(n: nat, count: nat)
    requires
        1 <= count <= factorial(n),
    ensures
        leibniz_sum(identity_rows::<T>(n), count) == T::one_spec(),
    decreases count,
{
    let rows = identity_rows::<T>(n);
    let k = (count - 1) as nat;
    let perm = nth_permutation(n, k);
    assert(rows.len() == n);
    if k == 0 {
        lemma_first_permutation_is_identity(n);
        lemma_identity_sign(n);
        lemma_term_of_diagonal::<T>(n, n);
        T::lemma_mul_one(T::one_spec());
        T::lemma_add_zero(T::one_spec());
        assert(leibniz_sum(rows, 0) == T::zero_spec());
    } else {
        lemma_leibniz_sum_of_identity::<T>(n, k);
        lemma_nth_permutation_is_permutation(n, k);
        assert(exists|i: int| 0 <= i < n && perm[i] != i) by {
            if forall|i: int| 0 <= i < n ==> perm[i] == i {
                assert(perm =~= identity_permutation(n));
                lemma_first_permutation_is_identity(n);
                lemma_nth_permutation_injective(n, k, 0);
            }
        }
        let at = choose|i: int| 0 <= i < n && perm[i] != i;
        assert(rows[at][perm[at]] == T::zero_spec());
        lemma_term_with_zero(rows, perm, at, n);
        T::lemma_mul_zero(sign_element::<T>(perm));
        T::lemma_add_zero(T::one_spec());
    }
}

/// The determinant of a grid of two rows and two columns is the product of
/// its diagonal plus minus one times the product of the other two entries.
pub proof fn lemma_determinant_two_by_two<T: SignedLaws>(a: T, b: T, c: T, d: T)
    ensures
        determinant(seq![seq![a, b], seq![c, d]]) == a.mul_spec(d).add_spec(
            T::neg_one_spec().mul_spec(b.mul_spec(c)),
        ),
{
    let rows = seq![seq![a, b], seq![c, d]];
    let straight = nth_permutation(2, 0);
    let crossed = nth_permutation(2, 1);
    assert(rows.len() == 2 && rows[0] == seq![a, b] && rows[1] == seq![c, d]);
    assert(straight == seq![0int, 1int] && permutation_sign(straight) == 1) by {
        lemma_first_permutation_is_identity(2);
        lemma_identity_sign(2);
        assert(identity_permutation(2) =~= seq![0int, 1int]);
    }
    assert(crossed == seq![1int, 0int] && permutation_sign(crossed) == -1) by {
        reveal_with_fuel(nth_permutation, 3);
        reveal_with_fuel(inversions, 3);
        reveal_with_fuel(greater_before, 2);
        assert(1nat / 2 == 0 && 1nat % 2 == 1 && 0nat / 1 == 0 && 0nat % 1 == 0);
        assert(crossed =~= seq![1int, 0int]);
    }
    assert(term(rows, straight, 2) == a.mul_spec(d) && term(rows, crossed, 2) == b.mul_spec(c))
        by {
        reveal_with_fuel(term, 3);
        T::lemma_mul_one(a);
        T::lemma_mul_one(b);
    }
    assert(determinant(rows) == T::zero_spec().add_spec(
        T::one_spec().mul_spec(a.mul_spec(d)),
    ).add_spec(T::neg_one_spec().mul_spec(b.mul_spec(c)))) by {
        reveal_with_fuel(factorial, 3);
        reveal_with_fuel(leibniz_sum, 3);
    }
    T::lemma_mul_one(a.mul_spec(d));
    T::lemma_add_zero(a.mul_spec(d));
}

/// The determinant of an identity matrix is one.
pub proof fn lemma_determinant_of_identity<T: SignedLaws>(n: nat)
    ensures
        determinant(identity_rows::<T>(n)) == T::one_spec(),
{
    lemma_factorial_positive(n);
    lemma_leibniz_sum_of_identity::<T>(n, factorial(n));
}

} // verus!
