use weasel::error::SearchError;
use weasel::fitness::{fitness, fitness_checked};

fn chars(s: &str) -> Vec<char> {
    s.chars().collect()
}

#[test]
fn fitness_counts_mismatches() {
    assert_eq!(fitness(&chars("CAT"), &chars("CAT")), 0);
    assert_eq!(fitness(&chars("CAT"), &chars("CUT")), 1);
    assert_eq!(fitness(&chars("CAT"), &chars("DOG")), 3);
    assert_eq!(fitness(&chars("METHINKS"), &chars("METHANKS")), 1);
}

#[test]
fn fitness_is_symmetric() {
    let a = chars("WEASEL");
    let b = chars("WASTED");
    assert_eq!(fitness(&a, &b), fitness(&b, &a));
    let c = chars("A CAT");
    let d = chars("B DOG");
    assert_eq!(fitness(&c, &d), fitness(&d, &c));
}

#[test]
fn fitness_zero_iff_identical() {
    let a = chars("METHINKS IT IS LIKE A WEASEL");
    assert_eq!(fitness(&a, &a), 0);
    let mut b = a.clone();
    b[5] = 'Z';
    assert!(fitness(&a, &b) > 0);
}

#[test]
fn fitness_is_bounded_by_length() {
    let a = chars("AAAA");
    let b = chars("BBBB");
    let f = fitness(&a, &b);
    assert_eq!(f, 4);
    let c = chars("ABBA");
    let g = fitness(&a, &c);
    assert!(g <= 4);
    assert_eq!(g, 2);
}

#[test]
fn fitness_of_empty_sequences_is_zero() {
    let e: Vec<char> = Vec::new();
    assert_eq!(fitness(&e, &Vec::new()), 0);
}

#[test]
fn fitness_checked_matches_fitness_on_equal_lengths() {
    let a = chars("CAT");
    let b = chars("CUT");
    assert_eq!(fitness_checked(&a, &b), Ok(1));
}

#[test]
fn fitness_checked_reports_length_mismatch() {
    let a = chars("CAT");
    let b = chars("CATS");
    assert_eq!(
        fitness_checked(&a, &b),
        Err(SearchError::InternalInvariantViolation)
    );
}
