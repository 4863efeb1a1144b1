use vaultwalker::scroll::recompute_scroll;

fn in_window(offset: usize, selected: usize, height: usize) -> bool {
    offset <= selected && selected < offset + height - 1
}

#[test]
fn scroll_keeps_selection_visible() {
    // moving down past the bottom of the window advances the offset
    let off = recompute_scroll(19, 0, 10, 20);
    assert_eq!(off, 11);
    assert!(in_window(off, 19, 10));

    // selection in the middle of the window: offset untouched
    let off = recompute_scroll(5, 3, 10, 20);
    assert_eq!(off, 3);
    assert!(in_window(off, 5, 10));

    // moving up to the offset keeps one row of context above
    let off = recompute_scroll(3, 3, 10, 20);
    assert_eq!(off, 2);
    assert!(in_window(off, 3, 10));
}

#[test]
fn scroll_first_item() {
    let off = recompute_scroll(0, 5, 10, 20);
    assert_eq!(off, 0);
    assert!(in_window(off, 0, 10));
}

#[test]
fn scroll_last_item() {
    // the very last item gets the one-row adjustment
    let off = recompute_scroll(19, 11, 10, 20);
    assert!(in_window(off, 19, 10));

    // a single-item list
    let off = recompute_scroll(0, 0, 4, 1);
    assert_eq!(off, 0);
    assert!(in_window(off, 0, 4));
}

#[test]
fn scroll_small_window() {
    // the smallest supported frame still shows the selection
    for selected in 0..8usize {
        let off = recompute_scroll(selected, 0, 4, 8);
        assert!(in_window(off, selected, 4));
    }
}
