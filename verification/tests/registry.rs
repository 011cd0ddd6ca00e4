use kyuri::registry::Registry;
use kyuri::state::BarState;

fn bar(message: &str) -> BarState {
    BarState::new(10, message, "{msg}", true, 0)
}

#[test]
fn a_new_registry_is_empty() {
    let registry = Registry::new();
    assert!(registry.ids.is_empty());
    assert!(registry.states.is_empty());
    assert_eq!(registry.next_id, 0);
    assert_eq!(registry.lookup(0), None);
}

#[test]
fn bars_are_kept_in_creation_order() {
    let mut registry = Registry::new();
    assert_eq!(registry.insert(bar("a")), 0);
    assert_eq!(registry.insert(bar("b")), 1);
    assert_eq!(registry.insert(bar("c")), 2);
    assert_eq!(registry.ids, vec![0, 1, 2]);
    assert_eq!(registry.next_id, 3);
    let messages: Vec<&str> = registry.states.iter().map(|s| s.message.as_str()).collect();
    assert_eq!(messages, vec!["a", "b", "c"]);
}

#[test]
fn lookup_finds_the_index_of_an_identifier() {
    let mut registry = Registry::new();
    registry.insert(bar("a"));
    registry.insert(bar("b"));
    registry.insert(bar("c"));
    assert_eq!(registry.lookup(0), Some(0));
    assert_eq!(registry.lookup(2), Some(2));
    assert_eq!(registry.lookup(3), None);
    assert_eq!(registry.lookup(u64::MAX), None);
}

#[test]
fn removing_a_bar_moves_the_later_ones_up() {
    let mut registry = Registry::new();
    registry.insert(bar("a"));
    registry.insert(bar("b"));
    registry.insert(bar("c"));
    let gone = registry.remove(1);
    assert_eq!(gone.message, "b");
    assert_eq!(registry.ids, vec![0, 2]);
    assert_eq!(registry.lookup(1), None);
    assert_eq!(registry.lookup(2), Some(1));
    assert_eq!(registry.states[1].message, "c");
}

#[test]
fn an_identifier_that_was_removed_is_not_given_again() {
    let mut registry = Registry::new();
    registry.insert(bar("a"));
    registry.remove(0);
    assert_eq!(registry.insert(bar("b")), 1);
    assert_eq!(registry.ids, vec![1]);
    assert_eq!(registry.lookup(0), None);
}
