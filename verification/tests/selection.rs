use kiter::selection::{Selection, SelectionSet};
use kiter::text::valid_name;

#[test]
fn valid_name_rejects_traversal() {
    assert!(!valid_name("../evil"));
    assert!(!valid_name("a/b"));
    assert!(!valid_name(""));
    assert!(valid_name("simple_kite_v1"));
    assert!(!valid_name(&"x".repeat(65)));
}

#[test]
fn valid_name_takes_the_longest_name_and_no_other_characters() {
    assert!(valid_name(&"x".repeat(64)));
    assert!(valid_name("A-z_09"));
    assert!(!valid_name("a.b"));
    assert!(!valid_name("a b"));
    assert!(!valid_name("k\u{ef}te"));
}

#[test]
fn selection_set_replace_add_remove() {
    let mut sel = SelectionSet::default();
    sel.set(Selection::Point(0)); // plain click/drag: replace
    assert_eq!(sel.len(), 1);
    sel.add(Selection::Point(1)); // shift: add
    assert!(sel.contains(Selection::Point(0)) && sel.contains(Selection::Point(1)));
    sel.remove(Selection::Point(0)); // ctrl: subtract
    assert!(!sel.contains(Selection::Point(0)));
    assert!(sel.contains(Selection::Point(1)));
    sel.set(Selection::Point(2)); // plain click again replaces the whole set
    assert_eq!(sel.len(), 1);
    assert!(sel.contains(Selection::Point(2)));
}

#[test]
fn toggling_adds_a_member_and_takes_it_out() {
    let mut sel = SelectionSet::new();
    sel.toggle(Selection::Point(3));
    sel.toggle(Selection::Spar(1));
    assert_eq!(sel.as_slice(), &[Selection::Point(3), Selection::Spar(1)]);
    sel.toggle(Selection::Point(3));
    assert_eq!(sel.as_slice(), &[Selection::Spar(1)]);
    assert_eq!(sel.single(), Some(Selection::Spar(1)));
    sel.toggle(Selection::Nothing);
    assert_eq!(sel.len(), 1);
}
