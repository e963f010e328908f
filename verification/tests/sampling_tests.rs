use lcs::random_string;

#[test]
fn random_string_has_requested_length() {
    assert_eq!(random_string(0, 4).chars().count(), 0);
    assert_eq!(random_string(100, 4).chars().count(), 100);
}

#[test]
fn random_string_stays_in_alphabet() {
    let s = random_string(500, 7);
    for c in s.chars() {
        assert!(('A'..='H').contains(&c), "unit {c:?} outside the alphabet");
    }
}

#[test]
fn random_string_single_letter_alphabet() {
    let s = random_string(64, 0);
    assert_eq!(s, "A".repeat(64));
}
