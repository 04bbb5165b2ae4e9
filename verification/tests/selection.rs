use mx::selection::{is_member, FileSelection};

#[test]
fn click_shift_click_and_control_click() {
    let start = FileSelection::Empty;
    let one = start.select(2, false, false);
    assert_eq!(one, FileSelection::Single(2));
    let range = one.select(5, true, false);
    assert_eq!(range, FileSelection::Multiple(vec![2, 3, 4, 5]));
    let toggled = range.select(3, false, true);
    assert_eq!(toggled, FileSelection::Multiple(vec![2, 4, 5]));
}

#[test]
fn click_on_nothing_selected_ignores_the_keys() {
    assert_eq!(FileSelection::Empty.select(4, true, false), FileSelection::Single(4));
    assert_eq!(FileSelection::Empty.select(4, false, true), FileSelection::Single(4));
    assert_eq!(FileSelection::Empty.select(4, true, true), FileSelection::Single(4));
}

#[test]
fn click_on_the_selected_row_clears_the_selection() {
    let one = FileSelection::Single(3);
    assert_eq!(one.select(3, false, false), FileSelection::Empty);
    assert_eq!(one.select(3, true, false), FileSelection::Empty);
    assert_eq!(one.select(3, false, true), FileSelection::Empty);
}

#[test]
fn plain_click_replaces_the_selection() {
    assert_eq!(FileSelection::Single(3).select(7, false, false), FileSelection::Single(7));
    assert_eq!(
        FileSelection::Multiple(vec![1, 2, 3]).select(2, false, false),
        FileSelection::Single(2)
    );
}

#[test]
fn shift_click_below_the_selected_row_selects_the_rising_span() {
    assert_eq!(
        FileSelection::Single(5).select(2, true, false),
        FileSelection::Multiple(vec![2, 3, 4, 5])
    );
}

#[test]
fn shift_wins_over_control() {
    assert_eq!(
        FileSelection::Single(1).select(3, true, true),
        FileSelection::Multiple(vec![1, 2, 3])
    );
}

#[test]
fn control_click_on_one_row_selects_both_in_click_order() {
    assert_eq!(
        FileSelection::Single(4).select(1, false, true),
        FileSelection::Multiple(vec![4, 1])
    );
}

#[test]
fn shift_click_on_several_starts_from_the_row_added_first() {
    let several = FileSelection::Multiple(vec![4, 1, 9]);
    assert_eq!(several.select(6, true, false), FileSelection::Multiple(vec![4, 5, 6]));
    assert_eq!(several.select(2, true, false), FileSelection::Multiple(vec![2, 3, 4]));
    assert_eq!(several.select(4, true, false), FileSelection::Multiple(vec![4]));
}

#[test]
fn repeated_shift_clicks_grow_and_shrink_one_span() {
    let start = FileSelection::Single(2);
    let grown = start.select(6, true, false);
    assert_eq!(grown, FileSelection::Multiple(vec![2, 3, 4, 5, 6]));
    let shrunk = grown.select(3, true, false);
    assert_eq!(shrunk, FileSelection::Multiple(vec![2, 3]));
}

#[test]
fn control_click_adds_a_row_at_the_end() {
    assert_eq!(
        FileSelection::Multiple(vec![2, 4]).select(3, false, true),
        FileSelection::Multiple(vec![2, 4, 3])
    );
}

#[test]
fn control_click_can_take_out_the_last_row() {
    let none_left = FileSelection::Multiple(vec![2]).select(2, false, true);
    assert_eq!(none_left, FileSelection::Multiple(Vec::new()));
    assert_eq!(none_left.count(), 0);
    assert_eq!(none_left.select(5, false, true), FileSelection::Multiple(vec![5]));
}

#[test]
fn shift_click_without_a_first_row_selects_the_clicked_row() {
    let none_left = FileSelection::Multiple(Vec::new());
    assert_eq!(none_left.select(5, true, false), FileSelection::Single(5));
}

#[test]
fn contains_and_count_follow_the_selection() {
    assert!(!FileSelection::Empty.contains(0));
    assert_eq!(FileSelection::Empty.count(), 0);
    assert!(FileSelection::Single(3).contains(3));
    assert!(!FileSelection::Single(3).contains(2));
    assert_eq!(FileSelection::Single(3).count(), 1);
    let several = FileSelection::Multiple(vec![2, 4, 5]);
    assert!(several.contains(4));
    assert!(!several.contains(3));
    assert_eq!(several.count(), 3);
    assert!(is_member(&vec![1, 2, 3], 2));
    assert!(!is_member(&Vec::new(), 2));
}

#[test]
fn the_selection_starts_empty() {
    assert_eq!(FileSelection::default(), FileSelection::Empty);
}
