use giadd::{decode_key, viewport_height_for_rows, Command, Outcome, Renderer, SelectorState, TermOp};

fn strings(items: &[&str]) -> Vec<String> {
    items.iter().map(|s| s.to_string()).collect()
}

fn window(s: &SelectorState) -> Vec<String> {
    s.fmt_lines_for_display()
}

#[test]
fn lines_to_strings() {
    let mut g = SelectorState::new(
        strings(&["?? /hello", " M /is-it-me-you're-looking-for"]),
        10,
    );
    g.apply(Command::ToggleSelect);
    g.apply(Command::MoveDown);
    assert_eq!(g.cursor(), 1);

    assert_eq!(
        g.fmt_lines_for_display(),
        vec![
            "  [*] ?? /hello".to_string(),
            "> [ ]  M /is-it-me-you're-looking-for".to_string(),
        ]
    )
}

#[test]
fn scrolls_one_line_and_wraps_to_top() {
    let mut s = SelectorState::new(strings(&["a", "b", "c"]), 2);
    assert_eq!(s.cursor(), 0);
    assert_eq!(window(&s), strings(&["> [ ] a", "  [ ] b"]));

    assert_eq!(s.apply(Command::MoveDown), Outcome::Continue);
    assert_eq!(s.cursor(), 1);
    assert_eq!(s.top(), 0);
    assert_eq!(window(&s), strings(&["  [ ] a", "> [ ] b"]));

    s.apply(Command::MoveDown);
    assert_eq!(s.cursor(), 2);
    assert_eq!(s.top(), 1);
    assert_eq!(window(&s), strings(&["  [ ] b", "> [ ] c"]));

    s.apply(Command::MoveDown);
    assert_eq!(s.cursor(), 0);
    assert_eq!(s.top(), 0);
    assert_eq!(window(&s), strings(&["> [ ] a", "  [ ] b"]));
}

#[test]
fn moving_up_from_first_shows_the_tail() {
    let mut s = SelectorState::new(strings(&["a", "b", "c", "d"]), 2);
    s.apply(Command::MoveUp);
    assert_eq!(s.cursor(), 3);
    assert_eq!(s.top(), 2);
    assert_eq!(window(&s), strings(&["  [ ] c", "> [ ] d"]));
    s.apply(Command::MoveUp);
    s.apply(Command::MoveUp);
    assert_eq!(s.cursor(), 1);
    assert_eq!(s.top(), 1);
}

#[test]
fn toggle_then_confirm_keeps_list_order() {
    let mut s = SelectorState::new(strings(&["x", "y"]), 5);
    s.apply(Command::ToggleSelect);
    s.apply(Command::MoveDown);
    s.apply(Command::ToggleSelect);
    assert_eq!(s.apply(Command::Confirm), Outcome::Finished(strings(&["x", "y"])));
}

#[test]
fn confirm_order_does_not_follow_marking_order() {
    let mut s = SelectorState::new(strings(&["p", "q", "r"]), 5);
    s.apply(Command::MoveUp);
    s.apply(Command::ToggleSelect);
    s.apply(Command::MoveUp);
    s.apply(Command::MoveUp);
    s.apply(Command::ToggleSelect);
    assert_eq!(s.apply(Command::Confirm), Outcome::Finished(strings(&["p", "r"])));
}

#[test]
fn confirm_with_nothing_marked_is_empty() {
    let mut s = SelectorState::new(strings(&["only"]), 1);
    assert_eq!(s.apply(Command::Confirm), Outcome::Finished(vec![]));
}

#[test]
fn cancel_and_force_quit_differ() {
    let mut s = SelectorState::new(strings(&["a", "b"]), 2);
    s.apply(Command::ToggleSelect);
    let cancel = s.apply(Command::Cancel);
    let quit = s.apply(Command::ForceQuit);
    assert_eq!(cancel, Outcome::Cancelled { forced: false });
    assert_eq!(quit, Outcome::Cancelled { forced: true });
    assert_ne!(cancel, quit);
    assert_eq!(cancel.exit_code(), 0);
    assert_eq!(quit.exit_code(), 130);
    assert!(cancel.into_selection().is_empty());
    assert!(quit.into_selection().is_empty());
    assert!(s.is_selected(0));
}

#[test]
fn cursor_stays_in_view_over_many_commands() {
    let mut s = SelectorState::new(strings(&["a", "b", "c", "d", "e"]), 3);
    let cmds = [
        Command::MoveDown,
        Command::MoveDown,
        Command::MoveDown,
        Command::MoveUp,
        Command::ToggleSelect,
        Command::MoveUp,
        Command::MoveUp,
        Command::MoveUp,
        Command::MoveUp,
        Command::MoveDown,
        Command::Unrecognized,
        Command::MoveDown,
    ];
    for c in cmds.iter() {
        s.apply(*c);
        assert!(s.cursor() < s.len());
        assert!(s.top() <= s.cursor());
        assert!(s.cursor() < s.top() + s.viewport_height());
        assert!(s.top() <= s.len() - 3);
    }
}

#[test]
fn full_turn_returns_cursor() {
    for start in 0..4 {
        let mut s = SelectorState::new(strings(&["a", "b", "c", "d"]), 2);
        for _ in 0..start {
            s.apply(Command::MoveDown);
        }
        for _ in 0..4 {
            s.apply(Command::MoveDown);
        }
        assert_eq!(s.cursor(), start);
        for _ in 0..4 {
            s.apply(Command::MoveUp);
        }
        assert_eq!(s.cursor(), start);
    }
}

#[test]
fn toggle_twice_restores_selection() {
    let mut s = SelectorState::new(strings(&["a", "b"]), 2);
    s.apply(Command::MoveDown);
    s.apply(Command::ToggleSelect);
    assert!(s.is_selected(1));
    s.apply(Command::ToggleSelect);
    assert!(!s.is_selected(1));
    assert!(!s.is_selected(0));
    assert_eq!(s.cursor(), 1);
}

#[test]
fn single_line_never_moves() {
    let mut s = SelectorState::new(strings(&["solo"]), 3);
    s.apply(Command::MoveDown);
    assert_eq!((s.cursor(), s.top()), (0, 0));
    s.apply(Command::MoveUp);
    assert_eq!((s.cursor(), s.top()), (0, 0));
}

#[test]
fn empty_list_is_inert() {
    let mut s = SelectorState::new(vec![], 3);
    s.apply(Command::MoveDown);
    s.apply(Command::MoveUp);
    s.apply(Command::ToggleSelect);
    assert_eq!(s.cursor(), 0);
    assert!(window(&s).is_empty());
    assert_eq!(s.apply(Command::Confirm), Outcome::Finished(vec![]));
}

#[test]
fn resizing_keeps_cursor_in_view() {
    let mut s = SelectorState::new(strings(&["a", "b", "c", "d", "e", "f"]), 5);
    for _ in 0..4 {
        s.apply(Command::MoveDown);
    }
    assert_eq!((s.cursor(), s.top()), (4, 0));
    s.set_viewport_height(2);
    assert_eq!((s.cursor(), s.top()), (4, 3));
    s.set_viewport_height(10);
    assert_eq!(s.top(), 0);
    assert_eq!(window(&s).len(), 6);
}

#[test]
fn keys_decode_to_commands() {
    assert_eq!(decode_key(&[106, 0, 0]), Command::MoveDown);
    assert_eq!(decode_key(&[107, 0, 0]), Command::MoveUp);
    assert_eq!(decode_key(&[32, 0, 0]), Command::ToggleSelect);
    assert_eq!(decode_key(&[13, 0, 0]), Command::Confirm);
    assert_eq!(decode_key(&[113, 0, 0]), Command::Cancel);
    assert_eq!(decode_key(&[27, 0, 0]), Command::Cancel);
    assert_eq!(decode_key(&[3, 0, 0]), Command::ForceQuit);
    assert_eq!(decode_key(&[120, 0, 0]), Command::Unrecognized);
    // An arrow key's escape sequence is not bound.
    assert_eq!(decode_key(&[27, 91, 65]), Command::Unrecognized);
}

#[test]
fn repaint_erases_exactly_what_was_drawn() {
    let mut r = Renderer::new();
    let first = r.frame(&strings(&["one", "two", "three"]), 4);
    assert_eq!(
        first,
        vec![
            TermOp::Text("one".to_string()),
            TermOp::Text("two".to_string()),
            TermOp::Text("three".to_string()),
        ]
    );
    let second = r.frame(&strings(&["x"]), 4);
    assert_eq!(
        second,
        vec![
            TermOp::CursorUp(3),
            TermOp::BlankLine(4),
            TermOp::BlankLine(4),
            TermOp::BlankLine(4),
            TermOp::CursorUp(3),
            TermOp::Text("x".to_string()),
        ]
    );
    let erased = second.iter().filter(|o| matches!(o, TermOp::BlankLine(_))).count();
    let printed = second.iter().filter(|o| matches!(o, TermOp::Text(_))).count();
    assert_eq!((erased, printed), (3, 1));
    assert_eq!(r.drawn(), 1);
    assert_eq!(r.clear(4), vec![TermOp::CursorUp(1), TermOp::BlankLine(4), TermOp::CursorUp(1)]);
    assert_eq!(r.drawn(), 0);
    assert!(r.clear(4).is_empty());
}

#[test]
fn viewport_height_leaves_one_row() {
    assert_eq!(viewport_height_for_rows(24), 23);
    assert_eq!(viewport_height_for_rows(2), 1);
    assert_eq!(viewport_height_for_rows(1), 1);
    assert_eq!(viewport_height_for_rows(0), 1);
}

#[test]
fn fitting_to_terminal_keeps_cursor_in_view() {
    let mut s = SelectorState::new(strings(&["a", "b", "c", "d"]), 3);
    s.apply(Command::MoveUp);
    let before = (s.cursor(), s.top(), s.viewport_height());
    match s.fit_to_terminal() {
        None => assert_eq!((s.cursor(), s.top(), s.viewport_height()), before),
        Some(width) => {
            assert!(width >= 1);
            assert_eq!(s.cursor(), 3);
            assert!(s.top() <= s.cursor() && s.cursor() < s.top() + s.viewport_height());
        }
    }
}

#[test]
fn confirm_depends_only_on_toggle_parity() {
    let items = strings(&["a", "b", "c"]);
    let mut s1 = SelectorState::new(items.clone(), 2);
    s1.apply(Command::ToggleSelect);
    s1.apply(Command::MoveDown);
    s1.apply(Command::MoveDown);
    s1.apply(Command::ToggleSelect);
    s1.apply(Command::MoveUp);
    s1.apply(Command::MoveUp);
    s1.apply(Command::ToggleSelect);
    s1.apply(Command::ToggleSelect);

    let mut s2 = SelectorState::new(items, 2);
    s2.apply(Command::MoveUp);
    s2.apply(Command::ToggleSelect);
    s2.apply(Command::MoveDown);
    s2.apply(Command::ToggleSelect);
    s2.apply(Command::ToggleSelect);
    s2.apply(Command::ToggleSelect);

    assert_eq!(s1.apply(Command::Confirm), s2.apply(Command::Confirm));
    assert_eq!(s2.apply(Command::Confirm), Outcome::Finished(strings(&["a", "c"])));
}
