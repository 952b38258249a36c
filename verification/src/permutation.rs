//! Permutations of the indices `0..n`, their enumeration and their sign.
//!
//! The permutations of `0..n` are numbered from `0` to `n! - 1` by
//! [`nth_permutation`].  The numbering is proved to list every permutation
//! exactly once, so a sum over `k < n!` is a sum over all permutations.
//! [`PermutationGenerator`] walks through the numbering one permutation at a
//! time, without ever holding more than one of them.

use vstd::prelude::*;
use vstd::arithmetic::div_mod::{
    lemma_fundamental_div_mod,
    lemma_fundamental_div_mod_converse,
    lemma_multiply_divide_lt,
};
use vstd::seq_lib::seq_to_set_is_finite;
use vstd::set_lib::{lemma_int_range, lemma_subset_equality, set_int_range};

verus! {

/// The product `1 * 2 * ... * n`.
pub open spec fn factorial(n: nat) -> nat
    decreases n,
{
    if n == 0 {
        1
    } else {
        n * factorial((n - 1) as nat)
    }
}

/// A permutation of `0..n`: `n` distinct indices, each below `n`.
pub open spec fn is_permutation(p: Seq<int>, n: nat) -> bool {
    &&& p.len() == n
    &&& forall|i: int| 0 <= i < n ==> 0 <= #[trigger] p[i] < n
    &&& forall|i: int, j: int| 0 <= i < j < n ==> p[i] != p[j]
}

/// The permutation that leaves every index in its place.
pub open spec fn identity_permutation(n: nat) -> Seq<int> {
    Seq::new(n, |i: int| i)
}

/// The permutation of `0..n` with number `k`.
///
/// The last digit of `k` in base `n` says how many places before the end the
/// largest index `n - 1` stands; the remaining digits number the permutation
/// of `0..n-1` that is left when it is taken out.  Number `0` is the identity.
pub open spec fn nth_permutation(n: nat, k: nat) -> Seq<int>
    decreases n,
{
    if n == 0 {
        Seq::empty()
    } else {
        nth_permutation((n - 1) as nat, k / n).insert((n - 1) - (k % n), n - 1)
    }
}

/// There is at least one permutation of every size.
pub proof fn lemma_factorial_positive(n: nat)
    ensures
        factorial(n) >= 1,
    decreases n,
{
    if n > 0 {
        lemma_factorial_positive((n - 1) as nat);
        let rest = factorial((n - 1) as nat);
        assert(n * rest >= 1) by (nonlinear_arith)
            requires
                n >= 1,
                rest >= 1,
        ;
    }
}

/// Every number names a permutation.
pub proof fn lemma_nth_permutation_is_permutation(n: nat, k: nat)
    ensures
        is_permutation(nth_permutation(n, k), n),
    decreases n,
{
    if n > 0 {
        let rest = nth_permutation((n - 1) as nat, k / n);
        let at = (n - 1) - (k % n);
        lemma_nth_permutation_is_permutation((n - 1) as nat, k / n);
        rest.insert_ensures(at, n - 1);
        let p = nth_permutation(n, k);
        assert forall|i: int| 0 <= i < n implies 0 <= #[trigger] p[i] < n by {
            if i > at {
                assert(p[(i - 1) + 1] == rest[i - 1]);
            }
        }
        assert forall|i: int, j: int| 0 <= i < j < n implies p[i] != p[j] by {
            if i > at {
                assert(p[(i - 1) + 1] == rest[i - 1]);
            }
            if j > at {
                assert(p[(j - 1) + 1] == rest[j - 1]);
            }
        }
    }
}

/// The numbering starts with the identity.
pub proof fn lemma_first_permutation_is_identity(n: nat)
    ensures
        nth_permutation(n, 0) == identity_permutation(n),
    decreases n,
{
    if n > 0 {
        lemma_first_permutation_is_identity((n - 1) as nat);
        assert(0nat / n == 0 && 0nat % n == 0);
    }
    assert(nth_permutation(n, 0) =~= identity_permutation(n));
}

/// A permutation of `0..n` takes every value below `n`: the index at which
/// `p` holds `v` is returned.
pub proof fn lemma_permutation_is_onto(p: Seq<int>, n: nat, v: int) -> (i: int)
    requires
        is_permutation(p, n),
        0 <= v < n,
    ensures
        0 <= i < n,
        p[i] == v,
{
    let values = p.to_set();
    let range = set_int_range(0, n as int);
    assert(p.no_duplicates());
    p.unique_seq_to_set();
    seq_to_set_is_finite(p);
    lemma_int_range(0, n as int);
    assert(values.subset_of(range)) by {
        assert forall|x: int| values.contains(x) implies range.contains(x) by {
            let i = choose|i: int| 0 <= i < p.len() && p[i] == x;
            assert(0 <= p[i] < n);
        }
    }
    lemma_subset_equality(values, range);
    assert(range.contains(v));
    assert(p.contains(v));
    choose|i: int| 0 <= i < p.len() && p[i] == v
}

/// Two different numbers below `n!` name two different permutations.
pub proof fn lemma_nth_permutation_injective(n: nat, j: nat, k: nat)
    requires
        j < factorial(n),
        k < factorial(n),
        nth_permutation(n, j) == nth_permutation(n, k),
    ensures
        j == k,
    decreases n,
{
    if n > 0 {
        let m = (n - 1) as nat;
        let rest_j = nth_permutation(m, j / n);
        let rest_k = nth_permutation(m, k / n);
        let at_j = m - (j % n);
        let at_k = m - (k % n);
        let p = nth_permutation(n, j);
        lemma_nth_permutation_is_permutation(n, j);
        lemma_nth_permutation_is_permutation(m, j / n);
        lemma_nth_permutation_is_permutation(m, k / n);
        rest_j.insert_ensures(at_j, m as int);
        rest_k.insert_ensures(at_k, m as int);
        assert(p[at_j] == m && p[at_k] == m);
        assert(at_j == at_k);
        assert(rest_j =~= rest_k) by {
            assert forall|i: int| 0 <= i < m implies rest_j[i] == rest_k[i] by {
                if i < at_j {
                    assert(p[i] == rest_j[i] && p[i] == rest_k[i]);
                } else {
                    assert(p[i + 1] == rest_j[i] && p[i + 1] == rest_k[i]);
                }
            }
        }
        lemma_multiply_divide_lt(j as int, n as int, factorial(m) as int);
        lemma_multiply_divide_lt(k as int, n as int, factorial(m) as int);
        lemma_nth_permutation_injective(m, j / n, k / n);
        lemma_fundamental_div_mod(j as int, n as int);
        lemma_fundamental_div_mod(k as int, n as int);
    }
}

/// Every permutation of `0..n` has a number below `n!`, which is returned.
pub proof fn lemma_permutation_has_number(p: Seq<int>, n: nat) -> (k: nat)
    requires
        is_permutation(p, n),
    ensures
        k < factorial(n),
        nth_permutation(n, k) == p,
    decreases n,
{
    if n == 0 {
        assert(p =~= Seq::empty());
        0
    } else {
        let m = (n - 1) as nat;
        let at = lemma_permutation_is_onto(p, n, m as int);
        let rest = p.remove(at);
        p.remove_ensures(at);
        assert(is_permutation(rest, m)) by {
            assert forall|i: int| 0 <= i < m implies 0 <= #[trigger] rest[i] < m by {
                let from = if i < at { i } else { i + 1 };
                assert(rest[i] == p[from] && p[from] != p[at]);
            }
            assert forall|i: int, j: int| 0 <= i < j < m implies rest[i] != rest[j] by {
                let from_i = if i < at { i } else { i + 1 };
                let from_j = if j < at { j } else { j + 1 };
                assert(rest[i] == p[from_i] && rest[j] == p[from_j]);
            }
        }
        let q = lemma_permutation_has_number(rest, m);
        let digit = (m - at) as nat;
        let k = q * n + digit;
        lemma_fundamental_div_mod_converse(k as int, n as int, q as int, digit as int);
        assert(rest.insert(at, m as int) =~= p);
        assert(k < n * factorial(m)) by (nonlinear_arith)
            requires
                k == q * n + digit,
                digit < n,
                q < factorial(m),
        ;
        k
    }
}

/// The entries of an index vector as mathematical integers.
pub open spec fn as_indices(v: Seq<usize>) -> Seq<int> {
    v.map_values(|x: usize| x as int)
}

/// How many of the first `upto` entries of `p` are greater than its entry
/// at `j`.
pub open spec fn greater_before(p: Seq<int>, j: int, upto: nat) -> nat
    decreases upto,
{
    if upto == 0 {
        0
    } else {
        greater_before(p, j, (upto - 1) as nat) + if p[upto - 1] > p[j] {
            1nat
        } else {
            0nat
        }
    }
}

/// The number of inversions among the first `upto` entries of `p`: the pairs
/// `i < j < upto` with `p[i] > p[j]`.
pub open spec fn inversions(p: Seq<int>, upto: nat) -> nat
    decreases upto,
{
    if upto == 0 {
        0
    } else {
        inversions(p, (upto - 1) as nat) + greater_before(p, upto - 1, (upto - 1) as nat)
    }
}

/// The sign of `p`: `1` when the number of its inversions is even, `-1` when
/// it is odd.
pub open spec fn permutation_sign(p: Seq<int>) -> int {
    if inversions(p, p.len()) % 2 == 0 {
        1
    } else {
        -1
    }
}

/// The identity has no inversions, so its sign is `1`.
pub proof fn lemma_identity_sign(n: nat)
    ensures
        permutation_sign(identity_permutation(n)) == 1,
{
    lemma_identity_inversions(n, n);
}

proof fn lemma_identity_inversions(n: nat, upto: nat)
    requires
        upto <= n,
    ensures
        inversions(identity_permutation(n), upto) == 0,
    decreases upto,
{
    if upto > 0 {
        lemma_identity_inversions(n, (upto - 1) as nat);
        lemma_identity_greater_before(n, upto - 1, (upto - 1) as nat);
    }
}

proof fn lemma_identity_greater_before(n: nat, j: int, upto: nat)
    requires
        upto <= j < n,
    ensures
        greater_before(identity_permutation(n), j, upto) == 0,
    decreases upto,
{
    if upto > 0 {
        lemma_identity_greater_before(n, j, (upto - 1) as nat);
    }
}

/// Computes the sign of a sequence of indices by counting its inversions.
pub fn get_permutation_sign(perm: &Vec<usize>) -> (sign: i32)
    ensures
        sign == permutation_sign(as_indices(perm@)),
{
    let n = perm.len();
    let ghost p = as_indices(perm@);
    let mut odd = false;
    let mut j: usize = 0;
    while j < n
        invariant
            j <= n,
            n == perm.len(),
            p == as_indices(perm@),
            odd <==> inversions(p, j as nat) % 2 == 1,
        decreases n - j,
    {
        let mut i: usize = 0;
        while i < j
            invariant
                i <= j < n,
                n == perm.len(),
                p == as_indices(perm@),
                odd <==> (inversions(p, j as nat) + greater_before(p, j as int, i as nat)) % 2
                    == 1,
            decreases j - i,
        {
            if perm[i] > perm[j] {
                odd = !odd;
            }
            i += 1;
        }
        j += 1;
    }
    if odd {
        -1
    } else {
        1
    }
}

/// The number written by the first `upto` digits, the last of them counting
/// least.  The digit at place `i` runs from `0` to `i`.
spec fn number_of(digits: Seq<usize>, upto: nat) -> nat
    decreases upto,
{
    if upto == 0 {
        0
    } else {
        number_of(digits, (upto - 1) as nat) * upto + digits[upto - 1] as nat
    }
}

/// Every digit is within the range of its place.
spec fn digits_in_range(digits: Seq<usize>) -> bool {
    forall|i: int| 0 <= i < digits.len() ==> digits[i] <= i
}

/// Digits within range write a number below the factorial of their length.
proof fn lemma_number_below_factorial(digits: Seq<usize>, upto: nat)
    requires
        digits_in_range(digits),
        upto <= digits.len(),
    ensures
        number_of(digits, upto) < factorial(upto),
    decreases upto,
{
    if upto > 0 {
        let m = (upto - 1) as nat;
        lemma_number_below_factorial(digits, m);
        let q = number_of(digits, m);
        let d = digits[upto - 1];
        assert(q * upto + d < upto * factorial(m)) by (nonlinear_arith)
            requires
                q < factorial(m),
                d < upto,
        ;
    }
}

/// The number does not depend on digits beyond `upto`.
proof fn lemma_number_prefix(a: Seq<usize>, b: Seq<usize>, upto: nat)
    requires
        upto <= a.len(),
        upto <= b.len(),
        forall|i: int| 0 <= i < upto ==> a[i] == b[i],
    ensures
        number_of(a, upto) == number_of(b, upto),
    decreases upto,
{
    if upto > 0 {
        lemma_number_prefix(a, b, (upto - 1) as nat);
    }
}

/// Where the digits from `from` on are all at their greatest in `before` and
/// all zero in `after`, a step from `before` to `after` below `from` carries
/// through to the whole number.
proof fn lemma_number_carry(before: Seq<usize>, after: Seq<usize>, from: nat, upto: nat)
    requires
        from <= upto <= before.len(),
        before.len() == after.len(),
        number_of(after, from) == number_of(before, from) + 1,
        forall|i: int| from <= i < upto ==> before[i] == i && after[i] == 0,
    ensures
        number_of(after, upto) == number_of(before, upto) + 1,
    decreases upto,
{
    if upto > from {
        let m = (upto - 1) as nat;
        lemma_number_carry(before, after, from, m);
        let q = number_of(before, m);
        assert((q + 1) * upto == q * upto + m + 1) by (nonlinear_arith)
            requires
                upto == m + 1,
        ;
    }
}

/// The greatest number of a given length is the last before the factorial.
proof fn lemma_number_greatest(digits: Seq<usize>, upto: nat)
    requires
        upto <= digits.len(),
        forall|i: int| 0 <= i < upto ==> digits[i] == i,
    ensures
        number_of(digits, upto) + 1 == factorial(upto),
    decreases upto,
{
    if upto > 0 {
        let m = (upto - 1) as nat;
        lemma_number_greatest(digits, m);
        let q = number_of(digits, m);
        assert(q * upto + m + 1 == upto * (q + 1)) by (nonlinear_arith)
            requires
                upto == m + 1,
        ;
    }
}

/// Walks through the permutations of `0..size` in the order of their numbers,
/// handing out one at a time.
pub struct PermutationGenerator {
    digits: Vec<usize>,
    exhausted: bool,
}

impl PermutationGenerator {
    #[verifier::type_invariant]
    spec fn valid(&self) -> bool {
        digits_in_range(self.digits@)
    }

    /// The size of the permutations that are handed out.
    pub closed spec fn size(&self) -> nat {
        self.digits@.len()
    }

    /// How many permutations have been handed out so far; this is also the
    /// number of the permutation that comes next.
    pub closed spec fn produced(&self) -> nat {
        if self.exhausted {
            factorial(self.digits@.len())
        } else {
            number_of(self.digits@, self.digits@.len())
        }
    }

    /// A generator for the permutations of `0..size`, standing before the
    /// first of them.
    pub fn new(size: usize) -> (generator: PermutationGenerator)
        ensures
            generator.size() == size,
            generator.produced() == 0,
    {
        let mut digits: Vec<usize> = Vec::new();
        let mut i: usize = 0;
        while i < size
            invariant
                i <= size,
                digits@.len() == i,
                forall|j: int| 0 <= j < i ==> digits@[j] == 0,
                number_of(digits@, i as nat) == 0,
            decreases size - i,
        {
            let ghost before = digits@;
            digits.push(0);
            proof {
                lemma_number_prefix(before, digits@, i as nat);
                assert(number_of(digits@, (i + 1) as nat) == 0nat * (i + 1) as nat + 0nat);
            }
            i += 1;
        }
        PermutationGenerator { digits, exhausted: false }
    }

    /// Hands out the next permutation, or `None` once all `size!` of them
    /// have been handed out.
    pub fn next_permutation(&mut self) -> (next: Option<Vec<usize>>)
        ensures
            final(self).size() == old(self).size(),
            old(self).produced() <= factorial(old(self).size()),
            old(self).produced() < factorial(old(self).size()) ==> next.is_some(),
            match next {
                Some(perm) => {
                    &&& old(self).produced() < factorial(old(self).size())
                    &&& as_indices(perm@) == nth_permutation(
                        old(self).size(),
                        old(self).produced(),
                    )
                    &&& final(self).produced() == old(self).produced() + 1
                },
                None => {
                    &&& old(self).produced() == factorial(old(self).size())
                    &&& final(self).produced() == old(self).produced()
                },
            },
    {
        proof {
            use_type_invariant(&*self);
            lemma_number_below_factorial(self.digits@, self.digits@.len());
        }
        if self.exhausted {
            return None;
        }
        let perm = self.current();
        self.advance();
        Some(perm)
    }

    /// Builds the permutation whose number the digits write.
    fn current(&self) -> (perm: Vec<usize>)
        requires
            !self.exhausted,
        ensures
            as_indices(perm@) == nth_permutation(self.size(), self.produced()),
    {
        proof {
            use_type_invariant(self);
        }
        let n = self.digits.len();
        let mut perm: Vec<usize> = Vec::new();
        let mut i: usize = 0;
        while i < n
            invariant
                i <= n,
                n == self.digits@.len(),
                digits_in_range(self.digits@),
                perm@.len() == i,
                as_indices(perm@) == nth_permutation(i as nat, number_of(self.digits@, i as nat)),
            decreases n - i,
        {
            let ghost before = perm@;
            let digit = self.digits[i];
            let at = i - digit;
            perm.insert(at, i);
            proof {
                let k = number_of(self.digits@, (i + 1) as nat);
                lemma_fundamental_div_mod_converse(
                    k as int,
                    i + 1,
                    number_of(self.digits@, i as nat) as int,
                    digit as int,
                );
                assert(as_indices(perm@) =~= as_indices(before).insert(at as int, i as int));
            }
            i += 1;
        }
        perm
    }

    /// Steps to the next number, or marks the generator as exhausted when
    /// the digits write the greatest number.
    fn advance(&mut self)
        requires
            !old(self).exhausted,
        ensures
            final(self).size() == old(self).size(),
            final(self).produced() == old(self).produced() + 1,
    {
        proof {
            use_type_invariant(&*self);
        }
        let mut digits: Vec<usize> = Vec::new();
        std::mem::swap(&mut digits, &mut self.digits);
        let stepped = step_digits(&mut digits);
        self.digits = digits;
        if !stepped {
            self.exhausted = true;
        }
    }
}

/// Adds one to the number that `digits` writes.  Where the digits already
/// write the greatest number of their length, they are left as they are and
/// `false` is returned.
fn step_digits(digits: &mut Vec<usize>) -> (stepped: bool)
    requires
        digits_in_range(old(digits)@),
    ensures
        final(digits)@.len() == old(digits)@.len(),
        digits_in_range(final(digits)@),
        stepped ==> number_of(final(digits)@, final(digits)@.len()) == number_of(
            old(digits)@,
            old(digits)@.len(),
        ) + 1,
        !stepped ==> final(digits)@ == old(digits)@ && number_of(
            old(digits)@,
            old(digits)@.len(),
        ) + 1 == factorial(old(digits)@.len()),
{
    let n = digits.len();
    let ghost before = digits@;
    let mut j: usize = n;
    while j > 0 && digits[j - 1] == j - 1
        invariant
            j <= n,
            n == digits@.len(),
            digits@ == before,
            forall|i: int| j <= i < n ==> before[i] == i,
        decreases j,
    {
        j -= 1;
    }
    if j == 0 {
        proof {
            lemma_number_greatest(before, n as nat);
        }
        return false;
    }
    let digit = digits[j - 1];
    digits.set(j - 1, digit + 1);
    proof {
        lemma_number_prefix(before, digits@, (j - 1) as nat);
    }
    let mut i: usize = j;
    while i < n
        invariant
            j <= i <= n,
            n == digits@.len(),
            n == before.len(),
            digits_in_range(digits@),
            number_of(digits@, j as nat) == number_of(before, j as nat) + 1,
            forall|x: int| j <= x < n ==> before[x] == x,
            forall|x: int| j <= x < i ==> digits@[x] == 0,
        decreases n - i,
    {
        let ghost step = digits@;
        digits.set(i, 0);
        proof {
            lemma_number_prefix(step, digits@, j as nat);
        }
        i += 1;
    }
    proof {
        lemma_number_carry(before, digits@, j as nat, n as nat);
    }
    true
}

} // verus!
