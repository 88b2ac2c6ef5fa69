use fibonacci::fib::{fibonacci, fibonacci_checked, fibonacci_fresh, MAX_INDEX, MAX_TERM};
use std::collections::HashMap;

/// The sequence computed independently, bottom-up, without any cache.
fn reference_terms() -> Vec<u128> {
    let mut terms: Vec<u128> = vec![0, 1];
    for i in 2..=186usize {
        let next = terms[i - 1] + terms[i - 2];
        terms.push(next);
    }
    terms
}

#[test]
fn matches_reference_sequence_everywhere() {
    let terms = reference_terms();
    for n in 0..=186u128 {
        let mut cache: HashMap<u128, u128> = HashMap::new();
        assert_eq!(fibonacci(n, &mut cache), terms[n as usize]);
    }
}

#[test]
fn base_cases_ignore_cache_contents() {
    let mut cache: HashMap<u128, u128> = HashMap::new();
    cache.insert(2, 999);
    cache.insert(77, 123456);
    assert_eq!(fibonacci(0, &mut cache), 0);
    assert_eq!(fibonacci(1, &mut cache), 1);
    // The base cases neither read nor write the cache.
    assert_eq!(cache.len(), 2);
    assert_eq!(cache.get(&2), Some(&999));
    assert_eq!(cache.get(&77), Some(&123456));
}

#[test]
fn second_evaluation_is_a_pure_hit() {
    let mut cache: HashMap<u128, u128> = HashMap::new();
    let first = fibonacci(30, &mut cache);
    let len_after_first = cache.len();
    let second = fibonacci(30, &mut cache);
    let len_after_second = cache.len();
    assert_eq!(first, second);
    assert_eq!(first, 832040);
    assert_eq!(len_after_first, 29);
    assert_eq!(len_after_first, len_after_second);
}

#[test]
fn terms_grow_monotonically() {
    let terms = reference_terms();
    for n in 0..=186u128 {
        let value = fibonacci_fresh(n).unwrap();
        assert_eq!(value, terms[n as usize]);
        if n > 0 {
            assert!(terms[(n - 1) as usize] <= value);
        }
    }
}

#[test]
fn cache_holds_exactly_the_indices_up_to_n() {
    let mut cache: HashMap<u128, u128> = HashMap::new();
    fibonacci(10, &mut cache);
    assert_eq!(cache.len(), 9);
    for k in 2..=10u128 {
        assert!(cache.contains_key(&k));
    }
    assert!(!cache.contains_key(&0));
    assert!(!cache.contains_key(&1));
    assert!(!cache.contains_key(&11));
}

#[test]
fn prior_entries_survive_an_evaluation() {
    let mut cache: HashMap<u128, u128> = HashMap::new();
    cache.insert(50, 12586269025);
    fibonacci(10, &mut cache);
    assert_eq!(cache.len(), 10);
    assert_eq!(cache.get(&50), Some(&12586269025));
    for k in 2..=10u128 {
        assert!(cache.contains_key(&k));
    }
}

#[test]
fn largest_index_fits_without_overflow() {
    assert_eq!(fibonacci_fresh(MAX_INDEX), Some(MAX_TERM));
    assert_eq!(MAX_TERM, 332825110087067562321196029789634457848u128);
}

#[test]
fn out_of_bound_index_is_refused_and_cache_untouched() {
    let mut cache: HashMap<u128, u128> = HashMap::new();
    assert_eq!(fibonacci_checked(187, &mut cache), None);
    assert!(cache.is_empty());
    assert_eq!(fibonacci_fresh(u128::MAX), None);
    assert_eq!(fibonacci_checked(186, &mut cache), Some(MAX_TERM));
}

#[test]
fn small_terms_have_their_known_values() {
    assert_eq!(fibonacci_fresh(2), Some(1));
    assert_eq!(fibonacci_fresh(5), Some(5));
    assert_eq!(fibonacci_fresh(10), Some(55));
    assert_eq!(fibonacci_fresh(20), Some(6765));
    assert_eq!(fibonacci_fresh(50), Some(12586269025));
}
