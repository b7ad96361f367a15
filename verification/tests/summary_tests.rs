//! The figures collections report: distinct values, observed booleans,
//! and minimum, maximum and total.

use cityjson_stac::stac::summaries::{bool_values, contains_text, extend_new, i64_stats, push_new, u64_stats};

#[test]
fn statistics_of_counts() {
    assert_eq!(u64_stats(&vec![]), None);
    assert_eq!(u64_stats(&vec![7]), Some((7, 7, 7)));
    assert_eq!(u64_stats(&vec![5, 2, 9, 2]), Some((2, 9, 18)));
    assert_eq!(i64_stats(&vec![-5, 10, 0]), Some((-5, 10, 5)));
    assert_eq!(i64_stats(&vec![]), None);
}

#[test]
fn minimum_maximum_total_order_for_counts() {
    for counts in [vec![3u64], vec![0, 0], vec![4, 1, 8, 2], vec![u64::MAX - 1, 1]] {
        let (mn, mx, total) = u64_stats(&counts).unwrap();
        assert!(mn <= mx && mx <= total);
    }
}

#[test]
fn observed_booleans() {
    assert_eq!(bool_values(&vec![]), Vec::<bool>::new());
    assert_eq!(bool_values(&vec![true, true]), vec![true]);
    assert_eq!(bool_values(&vec![true, false, true]), vec![false, true]);
    assert_eq!(bool_values(&vec![false]), vec![false]);
}

#[test]
fn distinct_in_order_of_first_appearance() {
    let mut acc: Vec<String> = Vec::new();
    push_new(&mut acc, "b".to_string());
    push_new(&mut acc, "a".to_string());
    push_new(&mut acc, "b".to_string());
    assert_eq!(acc, vec!["b".to_string(), "a".to_string()]);
    extend_new(&mut acc, &vec!["c".to_string(), "a".to_string(), "c".to_string(), "d".to_string()]);
    assert_eq!(acc, vec!["b", "a", "c", "d"]);
    assert!(contains_text(&acc, "d"));
    assert!(!contains_text(&acc, "e"));
}
