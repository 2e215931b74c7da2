use shape_macros::order::{check_keys, check_order, lex_less, OrderViolation};

fn names(v: &[&str]) -> Vec<String> {
    v.iter().map(|s| s.to_string()).collect()
}

#[test]
fn sorted_names_are_accepted() {
    assert_eq!(check_order(&names(&["Alpha", "Beta", "Gamma"])), None);
}

#[test]
fn first_violation_is_reported() {
    let n = names(&["Beta", "Alpha", "Gamma"]);
    let v = check_order(&n).unwrap();
    assert_eq!(v, OrderViolation { index: 1, before: 0 });
    assert_eq!(v.message(&n), "Alpha should sort before Beta");
}

#[test]
fn comparison_ignores_case() {
    assert_eq!(check_order(&names(&["apple", "Banana"])), None);
    assert_eq!(check_order(&names(&["Apple", "banana", "CHERRY"])), None);
}

#[test]
fn violation_names_first_greater_variant_in_whole_list() {
    let n = names(&["Alpha", "Delta", "Gamma", "Beta", "Epsilon"]);
    let v = check_order(&n).unwrap();
    assert_eq!(v, OrderViolation { index: 3, before: 1 });
    assert_eq!(v.message(&n), "Beta should sort before Delta");
}

#[test]
fn only_first_violation_is_reported() {
    let n = names(&["B", "A", "D", "C"]);
    assert_eq!(check_order(&n), Some(OrderViolation { index: 1, before: 0 }));
}

#[test]
fn empty_and_single_lists_are_sorted() {
    assert_eq!(check_order(&vec![]), None);
    assert_eq!(check_order(&names(&["A"])), None);
    assert_eq!(check_order(&names(&["a", "A", "a"])), None);
}

#[test]
fn check_keys_compares_exactly() {
    assert_eq!(check_keys(&names(&["apple", "banana"])), None);
    assert_eq!(check_keys(&names(&["apple", "Banana"])), Some(OrderViolation { index: 1, before: 0 }));
}

#[test]
fn lex_less_orders_by_character() {
    assert!(lex_less(&"ab".to_string(), &"b".to_string()));
    assert!(lex_less(&"a".to_string(), &"ab".to_string()));
    assert!(!lex_less(&"ab".to_string(), &"ab".to_string()));
    assert!(!lex_less(&"b".to_string(), &"ab".to_string()));
    assert!(lex_less(&"".to_string(), &"a".to_string()));
    assert!(lex_less(&"Z".to_string(), &"a".to_string()));
}
