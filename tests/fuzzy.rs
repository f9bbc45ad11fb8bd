use cardamom_chai::fuzzy::fuzzy_match;

#[test]
fn empty_needle_never_matches() {
    assert!(!fuzzy_match("", ""));
    assert!(!fuzzy_match("elaichi", ""));
    assert!(!fuzzy_match("a", ""));
}

#[test]
fn subsequence_in_order_matches() {
    assert!(fuzzy_match("elaichi", "ec"));
}

#[test]
fn subsequence_out_of_order_does_not_match() {
    assert!(!fuzzy_match("elaichi", "ce"));
}

#[test]
fn whole_and_partial_needles() {
    assert!(fuzzy_match("cardamom", "cardamom"));
    assert!(fuzzy_match("cardamom", "cdm"));
    assert!(!fuzzy_match("cardamom", "cardamomx"));
    assert!(!fuzzy_match("", "a"));
    assert!(fuzzy_match("a", "a"));
}

#[test]
fn repeated_characters_need_repeated_matches() {
    assert!(fuzzy_match("banana", "aaa"));
    assert!(!fuzzy_match("banana", "aaaa"));
}

#[test]
fn matching_is_case_sensitive() {
    assert!(!fuzzy_match("chai", "C"));
    assert!(fuzzy_match("chai", "c"));
}

#[test]
fn non_ascii_characters_match() {
    assert!(fuzzy_match("crème brûlée", "rûl"));
    assert!(!fuzzy_match("crème brûlée", "rul"));
}
