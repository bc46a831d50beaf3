use tabview::errors::TableError;
use tabview::view_state::ViewState;

#[test]
fn fresh_state_is_forward_and_empty() {
    let v = ViewState::new();
    assert!(!v.reversed());
    assert!(v.selection_is_empty());
}

#[test]
fn forward_order_is_the_identity() {
    let v = ViewState::new();
    for l in 0..5usize {
        assert_eq!(v.logical_to_physical(l, 5), Ok(l));
    }
}

#[test]
fn reversed_order_is_the_mirror() {
    let mut v = ViewState::new();
    v.toggle_sort();
    assert!(v.reversed());
    assert_eq!(v.logical_to_physical(0, 5), Ok(4));
    assert_eq!(v.logical_to_physical(2, 5), Ok(2));
    assert_eq!(v.logical_to_physical(4, 5), Ok(0));
}

#[test]
fn mapping_twice_restores_the_index() {
    let mut v = ViewState::new();
    v.toggle_sort();
    for l in 0..7usize {
        let p = v.logical_to_physical(l, 7).unwrap();
        assert_eq!(v.logical_to_physical(p, 7), Ok(l));
    }
}

#[test]
fn mapping_past_the_table_is_rejected() {
    let v = ViewState::new();
    assert_eq!(v.logical_to_physical(5, 5), Err(TableError::IndexOutOfRange));
    assert_eq!(v.logical_to_physical(0, 0), Err(TableError::IndexOutOfRange));
}

#[test]
fn toggling_sort_twice_restores_the_mapping() {
    let mut v = ViewState::new();
    let before: Vec<usize> = (0..6).map(|l| v.logical_to_physical(l, 6).unwrap()).collect();
    v.toggle_sort();
    v.toggle_sort();
    assert!(!v.reversed());
    let after: Vec<usize> = (0..6).map(|l| v.logical_to_physical(l, 6).unwrap()).collect();
    assert_eq!(before, after);
}

#[test]
fn toggling_a_row_twice_restores_its_selection() {
    let mut v = ViewState::new();
    assert_eq!(v.toggle_row_selection(3, 5), Ok(()));
    assert!(v.is_selected(3));
    assert_eq!(v.toggle_row_selection(3, 5), Ok(()));
    assert!(!v.is_selected(3));
    assert_eq!(v.toggle_row_selection(3, 5), Ok(()));
    assert!(v.is_selected(3));
}

#[test]
fn selection_survives_a_sort_flip() {
    let mut v = ViewState::new();
    assert_eq!(v.toggle_row_selection(1, 4), Ok(()));
    v.toggle_sort();
    assert!(v.is_selected(1));
}

#[test]
fn selecting_past_the_table_is_rejected() {
    let mut v = ViewState::new();
    assert_eq!(v.toggle_row_selection(4, 4), Err(TableError::IndexOutOfRange));
    assert!(v.selection_is_empty());
}

#[test]
fn unknown_index_reads_as_unselected() {
    let v = ViewState::new();
    assert!(!v.is_selected(99));
}

#[test]
fn replacing_the_table_clears_every_selection() {
    let mut v = ViewState::new();
    assert_eq!(v.toggle_row_selection(0, 3), Ok(()));
    assert_eq!(v.toggle_row_selection(2, 3), Ok(()));
    v.toggle_sort();
    assert!(!v.selection_is_empty());
    v.on_table_replaced(10);
    assert!(v.selection_is_empty());
    assert!(v.reversed());
}

#[test]
fn restore_keeps_valid_indices_and_collapses_duplicates() {
    let persisted = vec![1, 3, 3, 7];
    let v = ViewState::restore(true, &persisted, 5);
    assert!(v.reversed());
    assert!(v.is_selected(1));
    assert!(v.is_selected(3));
    assert!(!v.is_selected(7));
    let mut rows = v.selected_rows();
    rows.sort();
    assert_eq!(rows, vec![1, 3]);
}

#[test]
fn selected_rows_lists_each_selected_index_once() {
    let mut v = ViewState::new();
    assert_eq!(v.toggle_row_selection(2, 6), Ok(()));
    assert_eq!(v.toggle_row_selection(5, 6), Ok(()));
    let mut rows = v.selected_rows();
    rows.sort();
    assert_eq!(rows, vec![2, 5]);
}
