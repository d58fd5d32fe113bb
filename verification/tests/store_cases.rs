use expression_engine::keyword::{
    is_infix_op, is_not, is_op, is_postfix_op, is_prefix_op, is_ternary_op,
};
use expression_engine::store::{Slots, Store};
use expression_engine::{init, Registry};

#[test]
fn a_store_keeps_the_last_value_set_under_a_name() {
    let mut store: Store<i32> = Store::new();
    assert_eq!(store.get("a"), None);
    assert!(!store.contains("a"));
    store.set("a", 1);
    store.set("b", 2);
    store.set("a", 3);
    assert_eq!(store.get("a"), Some(&3));
    assert_eq!(store.get("b"), Some(&2));
    assert_eq!(store.get("c"), None);
    assert_eq!(store.len(), 2);
    assert!(store.contains("b"));
}

#[test]
fn names_are_told_apart_by_every_character() {
    let mut store: Store<&str> = Store::new();
    store.set("", "empty");
    store.set("é", "accent");
    store.set("e", "plain");
    assert_eq!(store.get(""), Some(&"empty"));
    assert_eq!(store.get("é"), Some(&"accent"));
    assert_eq!(store.get("e"), Some(&"plain"));
    assert_eq!(store.get("E"), None);
}

#[test]
fn slots_hold_one_item_for_a_name() {
    let mut slots: Slots<String> = Slots::new();
    assert!(slots.find("x").is_none());
    slots.put("x", "one".to_string());
    slots.put("y", "two".to_string());
    slots.put("x", "three".to_string());
    assert_eq!(slots.find("x"), Some(&"three".to_string()));
    assert_eq!(slots.find("y"), Some(&"two".to_string()));
    assert!(slots.find("z").is_none());
}

#[test]
fn the_classifier_answers_from_the_tables() {
    let mut registry: Registry = init();
    assert!(is_prefix_op(&registry, "!"));
    assert!(is_prefix_op(&registry, "not"));
    assert!(!is_prefix_op(&registry, "in"));
    assert!(is_infix_op(&registry, "in"));
    assert!(is_infix_op(&registry, "<<="));
    assert!(!is_infix_op(&registry, "++"));
    assert!(is_postfix_op(&registry, "++"));
    assert!(!is_postfix_op(&registry, "+"));
    assert!(is_ternary_op("?"));
    assert!(is_ternary_op(":"));
    assert!(!is_ternary_op("?:"));
    assert!(is_op(&registry, ":"));
    assert!(is_op(&registry, "AND"));
    assert!(!is_op(&registry, "and"));
    assert!(is_not("not"));
    assert!(!is_not("Not"));
    assert!(!is_op(&registry, "between"));
    registry.infix.redirect("between", "in");
    assert!(is_op(&registry, "between"));
}

#[test]
fn the_built_in_tables_hold_the_documented_precedences() {
    let registry = init();
    for (op, left, right) in [
        ("=", 20, 19),
        ("+=", 20, 19),
        ("|=", 20, 19),
        ("||", 40, 41),
        ("&&", 50, 51),
        ("<", 60, 61),
        ("!=", 60, 61),
        ("|", 70, 71),
        ("^", 80, 81),
        ("&", 90, 91),
        ("<<", 100, 101),
        (">>", 100, 101),
        ("+", 110, 111),
        ("-", 110, 111),
        ("*", 120, 121),
        ("/", 120, 121),
        ("%", 120, 121),
        ("beginWith", 200, 201),
        ("endWith", 200, 201),
        ("in", 200, 201),
    ] {
        assert_eq!(registry.infix.get_precidence(op), (left, right));
    }
    assert!(registry.prefix.exist("OR"));
    assert!(registry.postfix.exist("--"));
    assert!(registry.functions.get("sum").is_ok());
    assert!(registry.functions.get("avg").is_err());
}
