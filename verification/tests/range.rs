use elm_pair::range::contains_range;

#[test]
fn large_range_includes_smaller_range() {
    assert!(contains_range(&(0..10), &(2..3)));
}

#[test]
fn range_includes_itself() {
    assert!(contains_range(&(0..10), &(0..10)));
}

#[test]
fn range_does_not_include_overlapping_range() {
    assert!(!contains_range(&(0..10), &(5..15)));
}

#[test]
fn range_does_not_include_larger_range() {
    assert!(!contains_range(&(5..10), &(0..15)));
}

#[test]
fn range_does_not_include_non_overlapping_range() {
    assert!(!contains_range(&(0..10), &(20..30)));
}

#[test]
fn range_inclusion_is_transitive_on_examples() {
    assert!(contains_range(&(0..10), &(2..8)));
    assert!(contains_range(&(2..8), &(3..4)));
    assert!(contains_range(&(0..10), &(3..4)));
}
