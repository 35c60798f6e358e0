use rowsearch::selection::Selection;

#[test]
fn new_keeps_positions_and_order() {
    let sel = Selection::new(vec![2, 0, 2]);
    assert_eq!(sel.len(), 3);
    assert_eq!(sel.get(0), 2);
    assert_eq!(sel.get(1), 0);
    assert_eq!(sel.get(2), 2);
}

#[test]
fn all_selects_every_position_in_order() {
    let sel = Selection::all(4);
    assert_eq!(sel.len(), 4);
    for k in 0..4usize {
        assert_eq!(sel.get(k), k);
    }
    assert_eq!(Selection::all(0).len(), 0);
}

#[test]
fn fits_asks_every_position_to_exist() {
    let sel = Selection::new(vec![0, 3, 1]);
    assert!(sel.fits(4));
    assert!(sel.fits(5));
    assert!(!sel.fits(3));
    assert!(!sel.fits(0));
    assert!(Selection::all(3).fits(3));
    assert!(!Selection::all(3).fits(2));
}

#[test]
fn empty_selection_fits_any_width() {
    let sel = Selection::new(Vec::new());
    assert!(sel.fits(0));
    assert!(sel.fits(7));
}
