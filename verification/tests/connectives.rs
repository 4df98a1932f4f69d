use propositional_logic::connectives::and;
use propositional_logic::connectives::iff;
use propositional_logic::connectives::imply;
use propositional_logic::connectives::not;
use propositional_logic::connectives::or;
use propositional_logic::connectives::xor;

#[test]
fn test_not() {
    assert_eq!(not(true), false);
    assert_eq!(not(false), true);
}

#[test]
fn test_and() {
    assert_eq!(and(true, true), true);
    assert_eq!(and(true, false), false);
    assert_eq!(and(false, true), false);
    assert_eq!(and(false, false), false);
}

#[test]
fn test_or() {
    assert_eq!(or(true, true), true);
    assert_eq!(or(true, false), true);
    assert_eq!(or(false, true), true);
    assert_eq!(or(false, false), false);
}

#[test]
fn test_xor() {
    assert_eq!(xor(true, true), false);
    assert_eq!(xor(true, false), true);
    assert_eq!(xor(false, true), true);
    assert_eq!(xor(false, false), false);
}

#[test]
fn test_imply() {
    assert_eq!(imply(true, true), true);
    assert_eq!(imply(true, false), false);
    assert_eq!(imply(false, true), true);
    assert_eq!(imply(false, false), true);
}

#[test]
fn test_iff() {
    assert_eq!(iff(true, true), true);
    assert_eq!(iff(true, false), false);
    assert_eq!(iff(false, true), false);
    assert_eq!(iff(false, false), true);
}

#[test]
fn lib_test_not() {
    assert_eq!(not(true), false);
    assert_eq!(not(false), true);
}

#[test]
fn lib_test_and() {
    assert_eq!(and(true, true), true);
    assert_eq!(and(true, false), false);
    assert_eq!(and(false, true), false);
    assert_eq!(and(false, false), false);
}

#[test]
fn lib_test_or() {
    assert_eq!(or(true, true), true);
    assert_eq!(or(true, false), true);
    assert_eq!(or(false, true), true);
    assert_eq!(or(false, false), false);
}

#[test]
fn lib_test_xor() {
    assert_eq!(xor(true, true), false);
    assert_eq!(xor(true, false), true);
    assert_eq!(xor(false, true), true);
    assert_eq!(xor(false, false), false);
}

#[test]
fn lib_test_imply() {
    assert_eq!(imply(true, true), true);
    assert_eq!(imply(true, false), false);
    assert_eq!(imply(false, true), true);
    assert_eq!(imply(false, false), true);
}

#[test]
fn lib_test_iff() {
    assert_eq!(iff(true, true), true);
    assert_eq!(iff(true, false), false);
    assert_eq!(iff(false, true), false);
    assert_eq!(iff(false, false), true);
}
