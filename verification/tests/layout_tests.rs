use determinant::layout::{border_flags, layout};

#[test]
fn widths_always_sum_to_the_terminal_width() {
    for pane_count in 1usize..=20 {
        for width in (pane_count as u16)..=500 {
            for selected in [0usize, pane_count / 2, pane_count - 1] {
                let slots = layout(width, pane_count, selected);
                assert_eq!(slots.len(), pane_count);
                let sum: u32 = slots.iter().map(|s| s.1 as u32).sum();
                assert_eq!(sum, width as u32);
            }
        }
    }
}

#[test]
fn remainder_goes_to_the_first_pane() {
    let slots = layout(10, 3, 0);
    // base 3, remainder 1; the selected pane is first, so nothing is stolen
    assert_eq!(slots, vec![(0, 4), (4, 3), (7, 3)]);
}

#[test]
fn selected_pane_steals_one_column_from_its_left_neighbour() {
    let slots = layout(10, 3, 1);
    assert_eq!(slots, vec![(0, 3), (3, 4), (7, 3)]);
    let slots2 = layout(10, 3, 2);
    assert_eq!(slots2, vec![(0, 4), (4, 2), (6, 4)]);
}

#[test]
fn single_pane_gets_the_whole_width() {
    assert_eq!(layout(80, 1, 0), vec![(0, 80)]);
    assert_eq!(layout(1, 1, 0), vec![(0, 1)]);
}

#[test]
fn panes_tile_without_gaps() {
    for selected in 0usize..7 {
        let slots = layout(83, 7, selected);
        assert_eq!(slots[0].0, 0);
        for i in 0..6 {
            assert_eq!(slots[i].0 + slots[i].1, slots[i + 1].0);
        }
        assert_eq!(slots[6].0 + slots[6].1, 83);
    }
}

#[test]
fn border_flags_follow_the_selection() {
    // top always; left only on a selected non-first pane; right unless the
    // pane is last or its right neighbour is selected
    assert_eq!(border_flags(3, 1, 0), (true, false, false));
    assert_eq!(border_flags(3, 1, 1), (true, true, true));
    assert_eq!(border_flags(3, 1, 2), (true, false, false));
    assert_eq!(border_flags(1, 0, 0), (true, false, false));
    assert_eq!(border_flags(2, 0, 0), (true, false, true));
    assert_eq!(border_flags(2, 0, 1), (true, false, false));
}
