use raur::prompt::is_affirmative;

#[test]
fn yes_is_said_in_several_ways() {
    assert!(is_affirmative("y"));
    assert!(is_affirmative("yes"));
    assert!(is_affirmative("Y\n"));
    assert!(is_affirmative("  YeS \r\n"));
}

#[test]
fn empty_answer_says_yes() {
    assert!(is_affirmative(""));
    assert!(is_affirmative("\n"));
    assert!(is_affirmative(" \t "));
}

#[test]
fn anything_else_says_no() {
    assert!(!is_affirmative("n"));
    assert!(!is_affirmative("no"));
    assert!(!is_affirmative("yes please"));
    assert!(!is_affirmative("ye"));
    assert!(!is_affirmative("yess"));
    assert!(!is_affirmative("y e s"));
    assert!(!is_affirmative("oui"));
}
