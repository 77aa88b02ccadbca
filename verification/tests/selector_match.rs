use ttest::selector_match::{exclusive_or_none, shared_or_none, SelectorMatch};

#[test]
fn exclusive_or_none_returns_exclusive_when_true() {
    assert_eq!(SelectorMatch::Exclusive, exclusive_or_none(true));
}

#[test]
fn exclusive_or_none_returns_none_when_false() {
    assert_eq!(SelectorMatch::NoMatch, exclusive_or_none(false));
}

#[test]
fn shared_or_none_returns_shared_when_true() {
    assert_eq!(SelectorMatch::Shared, shared_or_none(true));
}

#[test]
fn shared_or_none_returns_none_when_false() {
    assert_eq!(SelectorMatch::NoMatch, shared_or_none(false));
}
