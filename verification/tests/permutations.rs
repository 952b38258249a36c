use linalg::permutation::{get_permutation_sign, PermutationGenerator};

fn all_permutations(size: usize) -> Vec<Vec<usize>> {
    let mut generator = PermutationGenerator::new(size);
    let mut all = Vec::new();
    while let Some(perm) = generator.next_permutation() {
        all.push(perm);
    }
    all
}

#[test]
fn sign_of_identity_is_one() {
    assert_eq!(get_permutation_sign(&vec![0, 1, 2, 3]), 1);
    assert_eq!(get_permutation_sign(&vec![0]), 1);
    assert_eq!(get_permutation_sign(&vec![]), 1);
}

#[test]
fn sign_of_one_swap_is_minus_one() {
    assert_eq!(get_permutation_sign(&vec![1, 0]), -1);
    assert_eq!(get_permutation_sign(&vec![1, 0, 2]), -1);
    assert_eq!(get_permutation_sign(&vec![0, 2, 1]), -1);
    assert_eq!(get_permutation_sign(&vec![2, 1, 0]), -1);
}

#[test]
fn sign_of_a_cycle_of_three_is_one() {
    assert_eq!(get_permutation_sign(&vec![2, 0, 1]), 1);
    assert_eq!(get_permutation_sign(&vec![1, 2, 0]), 1);
}

#[test]
fn sign_goes_by_the_parity_of_inversions() {
    assert_eq!(get_permutation_sign(&vec![3, 2, 1, 0]), 1);
    assert_eq!(get_permutation_sign(&vec![3, 1, 2, 0]), -1);
    assert_eq!(get_permutation_sign(&vec![4, 3, 2, 1, 0]), 1);
    assert_eq!(get_permutation_sign(&vec![1, 2, 3, 4, 0]), 1);
    assert_eq!(get_permutation_sign(&vec![1, 2, 3, 0]), -1);
}

#[test]
fn generator_of_size_zero_gives_the_empty_permutation_once() {
    let mut generator = PermutationGenerator::new(0);
    assert_eq!(generator.next_permutation(), Some(vec![]));
    assert_eq!(generator.next_permutation(), None);
    assert_eq!(generator.next_permutation(), None);
}

#[test]
fn generator_of_size_one() {
    assert_eq!(all_permutations(1), vec![vec![0]]);
}

#[test]
fn generator_of_size_two() {
    assert_eq!(all_permutations(2), vec![vec![0, 1], vec![1, 0]]);
}

#[test]
fn generator_of_size_three_goes_in_the_order_of_the_numbers() {
    assert_eq!(
        all_permutations(3),
        vec![
            vec![0, 1, 2],
            vec![0, 2, 1],
            vec![2, 0, 1],
            vec![1, 0, 2],
            vec![1, 2, 0],
            vec![2, 1, 0],
        ]
    );
}

#[test]
fn generator_stays_exhausted() {
    let mut generator = PermutationGenerator::new(2);
    assert!(generator.next_permutation().is_some());
    assert!(generator.next_permutation().is_some());
    assert!(generator.next_permutation().is_none());
    assert!(generator.next_permutation().is_none());
}

#[test]
fn generator_gives_every_permutation_exactly_once() {
    let expected = [1usize, 1, 2, 6, 24, 120, 720];
    for size in 0..=6 {
        let all = all_permutations(size);
        assert_eq!(all.len(), expected[size]);
        for perm in &all {
            assert_eq!(perm.len(), size);
            let mut sorted = perm.clone();
            sorted.sort();
            assert_eq!(sorted, (0..size).collect::<Vec<usize>>());
        }
        let mut distinct = all.clone();
        distinct.sort();
        distinct.dedup();
        assert_eq!(distinct.len(), all.len());
    }
}

#[test]
fn generator_starts_with_the_identity() {
    for size in 0..=5 {
        let mut generator = PermutationGenerator::new(size);
        assert_eq!(generator.next_permutation(), Some((0..size).collect::<Vec<usize>>()));
    }
}

#[test]
fn signs_of_all_permutations_balance() {
    for size in 2..=6 {
        let total: i32 = all_permutations(size).iter().map(get_permutation_sign).sum();
        assert_eq!(total, 0);
    }
}
