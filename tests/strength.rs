use genpass::strength::{check_password_strength, is_symbol, score_strength, Strength};

#[test]
fn strength_is_strong_when_all_criteria_met() {
    let password = "Aa1!aaaaaa";
    assert_eq!(check_password_strength(password), "Strong");
}

#[test]
fn strength_is_moderate_when_three_criteria_met() {
    let password = "Aa1bbbbbbb";
    assert_eq!(check_password_strength(password), "Moderate");
}

#[test]
fn strength_is_weak_when_two_or_fewer_criteria_met() {
    let password = "Aa1bbbb";
    assert_eq!(check_password_strength(password), "Weak");
}

#[test]
fn strength_is_do_not_use_when_few_criteria_met() {
    let password = "aaaa";
    assert_eq!(check_password_strength(password), "Do not use!!!!");
}

#[test]
fn empty_password_is_do_not_use() {
    assert_eq!(score_strength(""), Strength::DoNotUse);
}

#[test]
fn symbols_without_letters_rate_weak() {
    assert_eq!(score_strength("!!!!!!!!!!1"), Strength::Weak);
    assert_eq!(score_strength("!1"), Strength::DoNotUse);
}

#[test]
fn length_alone_counts_once() {
    assert_eq!(score_strength("aaaaaaaaaa"), Strength::DoNotUse);
    assert_eq!(score_strength("aaaaaaaaaaA"), Strength::Weak);
}

#[test]
fn short_password_with_four_kinds_is_moderate() {
    assert_eq!(score_strength("aA1+"), Strength::Moderate);
}

#[test]
fn labels_match_ratings() {
    assert_eq!(Strength::Strong.label(), "Strong");
    assert_eq!(Strength::Moderate.label(), "Moderate");
    assert_eq!(Strength::Weak.label(), "Weak");
    assert_eq!(Strength::DoNotUse.label(), "Do not use!!!!");
}

#[test]
fn symbol_set_is_exact() {
    for c in "!#$%&()*+".chars() {
        assert!(is_symbol(c));
    }
    for c in "\"',-./@^_a0".chars() {
        assert!(!is_symbol(c));
    }
}
