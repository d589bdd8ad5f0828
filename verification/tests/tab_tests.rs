use dagger_explorer::tab::ExplorerTab;

#[test]
fn history() {
    let mut t = ExplorerTab::new(3, "/a".to_string());
    assert_eq!(t.id, 3);
    assert!(!t.can_go_back());
    t.navigate("/a/b".to_string());
    t.navigate("/a/b/c".to_string());
    assert_eq!(t.current, "/a/b/c");
    assert!(t.go_back());
    assert_eq!(t.current, "/a/b");
    assert!(t.can_go_forward());
    assert!(t.go_forward());
    assert_eq!(t.current, "/a/b/c");
    assert!(!t.go_forward());
}

#[test]
fn back_then_forward_restores() {
    let mut t = ExplorerTab::new(0, "/x".to_string());
    t.navigate("/y".to_string());
    let before = (t.current.clone(), t.back_stack.clone(), t.forward_stack.clone());
    t.go_back();
    t.go_forward();
    assert_eq!((t.current.clone(), t.back_stack.clone(), t.forward_stack.clone()), before);
}

#[test]
fn navigating_to_the_same_place_changes_nothing() {
    let mut t = ExplorerTab::new(0, "/x".to_string());
    t.navigate("/x/".to_string());
    assert_eq!(t.current, "/x");
    assert!(t.back_stack.is_empty());
}

#[test]
fn navigating_clears_forward_history() {
    let mut t = ExplorerTab::new(0, "/x".to_string());
    t.navigate("/y".to_string());
    t.go_back();
    t.navigate("/z".to_string());
    assert!(!t.can_go_forward());
    assert_eq!(t.back_stack, vec!["/x".to_string()]);
}

#[test]
fn going_up() {
    let mut t = ExplorerTab::new(0, "/a/b".to_string());
    assert!(t.can_go_up());
    assert!(t.go_up());
    assert_eq!(t.current, "/a");
    assert!(t.go_up());
    assert_eq!(t.current, "/");
    assert!(!t.can_go_up());
    assert!(!t.go_up());
    assert_eq!(t.refresh_same(), "/");
    assert_eq!(t.label("/home/u"), "Root");
}
