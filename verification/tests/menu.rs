use ip_bypass_plus_frag::menu::{
    ip_selection_step, mode_selection_step, range_selection_step, Key, MenuStep,
};

#[test]
fn mode_menu_has_two_rows() {
    assert_eq!(mode_selection_step(Key::Down, 0), MenuStep::Select(1));
    assert_eq!(mode_selection_step(Key::Char('j'), 1), MenuStep::Select(1));
    assert_eq!(mode_selection_step(Key::Up, 0), MenuStep::Select(0));
    assert_eq!(mode_selection_step(Key::Char('k'), 1), MenuStep::Select(0));
    assert_eq!(mode_selection_step(Key::Enter, 1), MenuStep::Choose(1));
    assert_eq!(mode_selection_step(Key::Char('1'), 1), MenuStep::Choose(0));
    assert_eq!(mode_selection_step(Key::Char('2'), 0), MenuStep::Choose(1));
    assert_eq!(mode_selection_step(Key::Esc, 1), MenuStep::Select(1));
}

#[test]
fn range_menu_moves_and_chooses() {
    assert_eq!(range_selection_step(Key::Down, 1, 3), MenuStep::Select(2));
    assert_eq!(range_selection_step(Key::Down, 2, 3), MenuStep::Select(2));
    assert_eq!(range_selection_step(Key::Enter, 2, 3), MenuStep::Choose(2));
    assert_eq!(range_selection_step(Key::Char('q'), 2, 3), MenuStep::Select(2));
}

#[test]
fn leaving_the_address_menu_takes_the_first() {
    for key in [Key::Char('q'), Key::Char('Q'), Key::Esc] {
        assert_eq!(ip_selection_step(key, 4, 9), MenuStep::Choose(0));
    }
    assert_eq!(ip_selection_step(Key::Enter, 4, 9), MenuStep::Choose(4));
    assert_eq!(ip_selection_step(Key::Down, 8, 9), MenuStep::Select(8));
    assert_eq!(ip_selection_step(Key::Up, 4, 9), MenuStep::Select(3));
}
