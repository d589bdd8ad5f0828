use dagger_explorer::entries::FileEntry;
use dagger_explorer::nav::{
    linear_extend_direction, multi_select_modifiers, selection_neighbor_index, KeyModifiers, LinearDirection, NavKey,
};
use dagger_explorer::selection::{
    advance_selection_with_space, contiguous_selection_range, extend_selection_linear, handle_item_click,
    move_selection_linear, move_selection_with_arrow, select_all_active, ClickKind, ClickOutcome,
};
use dagger_explorer::view::{FileViewOptions, ViewMode};

fn entries(n: usize) -> Vec<FileEntry> {
    (0..n)
        .map(|i| FileEntry {
            name: format!("f{i}"),
            path: format!("/d/f{i}"),
            is_dir: false,
            size: 1,
            modified_ns: 0,
            is_hidden: false,
        })
        .collect()
}

fn paths(v: &[&str]) -> Vec<String> {
    v.iter().map(|s| s.to_string()).collect()
}

#[test]
fn linear_directions() {
    assert_eq!(linear_extend_direction(ViewMode::SmallIcons, NavKey::ArrowRight), Some(LinearDirection::Next));
    assert_eq!(linear_extend_direction(ViewMode::LargeIcons, NavKey::ArrowLeft), Some(LinearDirection::Prev));
    assert_eq!(linear_extend_direction(ViewMode::LargeIcons, NavKey::ArrowUp), None);
    assert_eq!(linear_extend_direction(ViewMode::SmallList, NavKey::ArrowDown), Some(LinearDirection::Next));
    assert_eq!(linear_extend_direction(ViewMode::LargeList, NavKey::ArrowUp), Some(LinearDirection::Prev));
    assert_eq!(linear_extend_direction(ViewMode::SmallList, NavKey::Space), Some(LinearDirection::Next));
    assert_eq!(linear_extend_direction(ViewMode::SmallList, NavKey::ArrowLeft), None);
}

#[test]
fn modifiers_for_multi_select() {
    let none = KeyModifiers { ctrl: false, shift: false, command: false, mac_cmd: false };
    assert!(!multi_select_modifiers(&none));
    assert!(multi_select_modifiers(&KeyModifiers { shift: true, ..none }));
    assert!(multi_select_modifiers(&KeyModifiers { mac_cmd: true, ..none }));
}

#[test]
fn grid_neighbours() {
    // 10 entries, 4 per row.
    assert_eq!(selection_neighbor_index(5, 10, ViewMode::SmallIcons, 4, NavKey::ArrowRight), Some(6));
    assert_eq!(selection_neighbor_index(7, 10, ViewMode::SmallIcons, 4, NavKey::ArrowRight), None);
    assert_eq!(selection_neighbor_index(4, 10, ViewMode::SmallIcons, 4, NavKey::ArrowLeft), None);
    assert_eq!(selection_neighbor_index(5, 10, ViewMode::SmallIcons, 4, NavKey::ArrowUp), Some(1));
    assert_eq!(selection_neighbor_index(1, 10, ViewMode::SmallIcons, 4, NavKey::ArrowUp), None);
    assert_eq!(selection_neighbor_index(5, 10, ViewMode::SmallIcons, 4, NavKey::ArrowDown), Some(9));
    assert_eq!(selection_neighbor_index(6, 10, ViewMode::SmallIcons, 4, NavKey::ArrowDown), None);
    assert_eq!(selection_neighbor_index(9, 10, ViewMode::SmallIcons, 4, NavKey::ArrowRight), None);
    assert_eq!(selection_neighbor_index(2, 10, ViewMode::LargeIcons, 0, NavKey::ArrowDown), Some(3));
    assert_eq!(selection_neighbor_index(10, 10, ViewMode::SmallIcons, 4, NavKey::ArrowLeft), None);
    assert_eq!(selection_neighbor_index(0, 0, ViewMode::SmallIcons, 4, NavKey::ArrowRight), None);
}

#[test]
fn list_neighbours() {
    assert_eq!(selection_neighbor_index(0, 3, ViewMode::SmallList, 4, NavKey::ArrowUp), None);
    assert_eq!(selection_neighbor_index(1, 3, ViewMode::SmallList, 4, NavKey::ArrowUp), Some(0));
    assert_eq!(selection_neighbor_index(1, 3, ViewMode::LargeList, 4, NavKey::ArrowDown), Some(2));
    assert_eq!(selection_neighbor_index(2, 3, ViewMode::LargeList, 4, NavKey::ArrowDown), None);
    assert_eq!(selection_neighbor_index(1, 3, ViewMode::LargeList, 4, NavKey::ArrowRight), None);
}

#[test]
fn right_then_left_returns() {
    for current in 0..10usize {
        if let Some(n) = selection_neighbor_index(current, 10, ViewMode::SmallIcons, 3, NavKey::ArrowRight) {
            assert_eq!(selection_neighbor_index(n, 10, ViewMode::SmallIcons, 3, NavKey::ArrowLeft), Some(current));
        }
        if let Some(n) = selection_neighbor_index(current, 10, ViewMode::SmallIcons, 3, NavKey::ArrowDown) {
            assert_eq!(selection_neighbor_index(n, 10, ViewMode::SmallIcons, 3, NavKey::ArrowUp), Some(current));
        }
    }
}

#[test]
fn contiguous_ranges() {
    let es = entries(6);
    assert_eq!(contiguous_selection_range(&paths(&["/d/f2", "/d/f3"]), &es), Some((2, 3)));
    assert_eq!(contiguous_selection_range(&paths(&["/d/f4", "/d/f2", "/d/f3"]), &es), Some((2, 4)));
    assert_eq!(contiguous_selection_range(&paths(&["/d/f1", "/d/f3"]), &es), None);
    assert_eq!(contiguous_selection_range(&paths(&["/d/f1", "/elsewhere"]), &es), Some((1, 1)));
    assert_eq!(contiguous_selection_range(&paths(&["/d/f1", "/d/f1"]), &es), None);
    assert_eq!(contiguous_selection_range(&Vec::new(), &es), None);
}

#[test]
fn moving_and_extending() {
    let es = entries(5);
    let mut o = FileViewOptions::new();
    o.set_selection(paths(&["/d/f1", "/d/f2"]));
    assert!(move_selection_linear(&mut o, &es, LinearDirection::Next));
    assert_eq!(o.selected, paths(&["/d/f3"]));
    assert!(move_selection_linear(&mut o, &es, LinearDirection::Prev));
    assert_eq!(o.selected, paths(&["/d/f2"]));
    assert!(extend_selection_linear(&mut o, &es, LinearDirection::Prev));
    assert_eq!(o.selected, paths(&["/d/f1", "/d/f2"]));
    assert!(extend_selection_linear(&mut o, &es, LinearDirection::Next));
    assert_eq!(o.selected, paths(&["/d/f1", "/d/f2", "/d/f3"]));
    o.set_selection(paths(&["/d/f4"]));
    assert!(!move_selection_linear(&mut o, &es, LinearDirection::Next));
    assert!(!extend_selection_linear(&mut o, &es, LinearDirection::Next));
    assert_eq!(o.selected, paths(&["/d/f4"]));
}

#[test]
fn extending_sorts_the_selection_by_position() {
    let es = entries(5);
    let mut o = FileViewOptions::new();
    o.set_selection(paths(&["/elsewhere", "/d/f3", "/d/f2"]));
    assert!(extend_selection_linear(&mut o, &es, LinearDirection::Prev));
    assert_eq!(o.selected, paths(&["/d/f1", "/d/f2", "/d/f3", "/elsewhere"]));
}

#[test]
fn space_and_arrows() {
    let es = entries(6);
    let mut o = FileViewOptions::new();
    assert!(advance_selection_with_space(&mut o, &es));
    assert_eq!(o.selected, paths(&["/d/f0"]));
    assert!(!advance_selection_with_space(&mut o, &es));
    assert!(move_selection_with_arrow(&mut o, &es, 3, NavKey::ArrowDown));
    assert_eq!(o.selected, paths(&["/d/f3"]));
    assert!(!move_selection_with_arrow(&mut o, &es, 3, NavKey::ArrowDown));
    o.add_to_selection("/d/f4".to_string());
    assert!(!move_selection_with_arrow(&mut o, &es, 3, NavKey::ArrowUp));
    let mut empty = FileViewOptions::new();
    assert!(!advance_selection_with_space(&mut empty, &Vec::new()));
}

#[test]
fn select_all() {
    let es = entries(3);
    let mut o = FileViewOptions::new();
    select_all_active(&mut o, &es);
    assert_eq!(o.selected, paths(&["/d/f0", "/d/f1", "/d/f2"]));
}

#[test]
fn clicks() {
    let mut o = FileViewOptions::new();
    assert_eq!(
        handle_item_click(&mut o, ClickKind::Primary, false, false, false, "/d/a".to_string(), "a".to_string()),
        ClickOutcome::Done
    );
    assert_eq!(o.selected, paths(&["/d/a"]));
    handle_item_click(&mut o, ClickKind::Primary, false, false, false, "/d/a".to_string(), "a".to_string());
    assert_eq!(o.renaming.as_ref().expect("rename").text, "a");
    handle_item_click(&mut o, ClickKind::Primary, false, false, true, "/d/b".to_string(), "b".to_string());
    assert_eq!(o.selected, paths(&["/d/a", "/d/b"]));
    handle_item_click(&mut o, ClickKind::Secondary, false, false, false, "/d/b".to_string(), "b".to_string());
    assert_eq!(o.selected, paths(&["/d/a", "/d/b"]));
    handle_item_click(&mut o, ClickKind::Secondary, false, false, false, "/d/c".to_string(), "c".to_string());
    assert_eq!(o.selected, paths(&["/d/c"]));
    handle_item_click(&mut o, ClickKind::Primary, true, false, false, "/d/x".to_string(), "x".to_string());
    assert_eq!(o.selected, paths(&["/d/c"]));
    assert_eq!(
        handle_item_click(&mut o, ClickKind::Double, false, false, false, "/d/x".to_string(), "x".to_string()),
        ClickOutcome::Open
    );
}
