use paperd::console::{
    apply_completion, cur_i, is_printable, key_from_code, max_index, prompt_index, prompt_line,
    visible_lines, ArrowMode, Completions, ConsoleInput, Key, PromptUpdate, ScreenState, CLOSE_WINDOW,
    NO_ACTION, SEND_KEY,
};

fn typed(c: &mut ConsoleInput, s: &str) {
    for ch in s.chars() {
        c.handle_main_key(Key::Char(ch), 0, 24);
    }
}

fn line(c: &ConsoleInput) -> String {
    c.input.iter().collect()
}

#[test]
fn scroll_offset_clamps_when_everything_fits() {
    let mut c = ConsoleInput::new();
    c.handle_main_key(Key::F2, 5, 10);
    assert_eq!(c.mode, ArrowMode::Scroll);
    for _ in 0..20 {
        let out = c.handle_main_key(Key::Up, 5, 10);
        assert!(!out.redraw);
    }
    assert_eq!(c.index, 0);
    c.handle_main_key(Key::PageUp, 5, 10);
    assert_eq!(c.index, 0);
}

#[test]
fn scroll_offset_stops_at_the_top() {
    let mut c = ConsoleInput::new();
    c.handle_main_key(Key::F2, 30, 10);
    for _ in 0..40 {
        c.handle_main_key(Key::Up, 30, 10);
    }
    assert_eq!(c.index, 21);
    c.handle_main_key(Key::PageDown, 30, 10);
    assert_eq!(c.index, 16);
    c.handle_main_key(Key::Down, 30, 10);
    assert_eq!(c.index, 15);
    let out = c.handle_main_key(Key::CtrlF, 30, 10);
    assert!(out.redraw);
    assert_eq!(c.index, 0);
    c.handle_main_key(Key::PageUp, 30, 10);
    assert_eq!(c.index, 5);
    c.clamp_offset(8, 10);
    assert_eq!(c.index, 0);
}

#[test]
fn scrolled_view_follows_new_lines() {
    let mut c = ConsoleInput::new();
    c.handle_main_key(Key::F2, 30, 10);
    c.handle_main_key(Key::Up, 30, 10);
    c.track_growth(4, 34, 10);
    assert_eq!(c.index, 5);
    let mut d = ConsoleInput::new();
    d.track_growth(4, 34, 10);
    assert_eq!(d.index, 0);
}

#[test]
fn typing_echoes_and_requests_completions() {
    let mut c = ConsoleInput::new();
    let out = c.handle_main_key(Key::Char('s'), 0, 24);
    assert_eq!(out.prompt, PromptUpdate::Echo('s'));
    assert_eq!(out.request.as_deref(), Some("s"));
    typed(&mut c, "ay");
    c.handle_main_key(Key::Left, 0, 24);
    let out = c.handle_main_key(Key::Char('X'), 0, 24);
    assert_eq!(out.prompt, PromptUpdate::Redraw);
    assert_eq!(line(&c), "saXy");
    assert_eq!(c.cursor_index, 3);
}

#[test]
fn backspace_at_end_and_in_the_middle() {
    let mut c = ConsoleInput::new();
    typed(&mut c, "abc");
    let out = c.handle_main_key(Key::Backspace, 0, 24);
    assert_eq!(out.prompt, PromptUpdate::DeleteLast);
    assert_eq!(line(&c), "ab");
    c.handle_main_key(Key::Left, 0, 24);
    let out = c.handle_main_key(Key::Backspace, 0, 24);
    assert_eq!(out.prompt, PromptUpdate::Redraw);
    assert_eq!(line(&c), "b");
    assert_eq!(c.cursor_index, 0);
    let out = c.handle_main_key(Key::Backspace, 0, 24);
    assert_eq!(out.prompt, PromptUpdate::Unchanged);
    c.handle_main_key(Key::Right, 0, 24);
    let out = c.handle_main_key(Key::Backspace, 0, 24);
    assert!(out.request.is_none());
    assert!(c.input.is_empty());
}

#[test]
fn enter_submits_and_folds_history() {
    let mut c = ConsoleInput::new();
    typed(&mut c, "one");
    let out = c.handle_main_key(Key::Enter, 0, 24);
    assert_eq!(out.submit.as_deref(), Some("one"));
    typed(&mut c, "two");
    c.handle_main_key(Key::Enter, 0, 24);
    let out = c.handle_main_key(Key::Enter, 0, 24);
    assert!(out.submit.is_none());
    c.handle_main_key(Key::Up, 0, 24);
    assert_eq!(line(&c), "two");
    c.handle_main_key(Key::Up, 0, 24);
    assert_eq!(line(&c), "one");
    assert_eq!(c.history_down, vec!["two".to_string()]);
    c.handle_main_key(Key::Down, 0, 24);
    assert_eq!(line(&c), "two");
    c.handle_main_key(Key::Down, 0, 24);
    assert_eq!(line(&c), "");
    assert_eq!(c.history_up, vec!["one".to_string(), "two".to_string()]);
    c.handle_main_key(Key::Up, 0, 24);
    typed(&mut c, "!");
    c.handle_main_key(Key::Enter, 0, 24);
    assert_eq!(c.history_up, vec!["one".to_string(), "two!".to_string()]);
    assert!(c.history_down.is_empty());
}

#[test]
fn quit_keys() {
    let mut c = ConsoleInput::new();
    assert!(c.handle_main_key(Key::CtrlQ, 0, 24).quit);
    assert!(c.handle_main_key(Key::CtrlB, 0, 24).quit);
}

#[test]
fn key_codes() {
    assert_eq!(key_from_code(9), Key::Tab);
    assert_eq!(key_from_code(10), Key::Enter);
    assert_eq!(key_from_code(127), Key::Backspace);
    assert_eq!(key_from_code(17), Key::CtrlQ);
    assert_eq!(key_from_code(27), Key::Escape);
    assert_eq!(key_from_code('a' as i32), Key::Char('a'));
    assert_eq!(key_from_code(0xD800), Key::Other);
    assert_eq!(key_from_code(-1), Key::Other);
    assert!(is_printable('a'));
    assert!(is_printable('é'));
    assert!(is_printable(' '));
    assert!(is_printable('/'));
    assert!(!is_printable('\u{1b}'));
}

#[test]
fn screen_positions() {
    assert_eq!(prompt_line(24), 22);
    assert_eq!(prompt_index(3), 5);
    assert_eq!(max_index(5, 10), -4);
    assert_eq!(cur_i(7), 7);
    assert_eq!(visible_lines(5, 0, 10), vec![(7, 4), (6, 3), (5, 2), (4, 1), (3, 0)]);
    assert_eq!(visible_lines(30, 2, 5), vec![(2, 27), (1, 26), (0, 25)]);
}

#[test]
fn completion_replaces_the_last_word() {
    let input: Vec<char> = "give Notch dia".chars().collect();
    let out: String = apply_completion(&input, "diamond").into_iter().collect();
    assert_eq!(out, "give Notch diamond");
    let out: String = apply_completion(&"gi".chars().collect(), "give").into_iter().collect();
    assert_eq!(out, "give");
    let out: String = apply_completion(&"tp ".chars().collect(), "Notch").into_iter().collect();
    assert_eq!(out, "tp Notch");
}

#[test]
fn popup_needs_room_and_suggestions() {
    let s = vec!["a".to_string(), "b".to_string()];
    assert!(Completions::new(14, 80, s.clone()).is_none());
    assert!(Completions::new(24, 39, s.clone()).is_none());
    assert!(Completions::new(24, 80, Vec::new()).is_none());
    let p = Completions::new(24, 80, s).unwrap();
    assert_eq!(p.lines, 2);
    assert_eq!(p.height, 4);
    assert_eq!(p.top_row(24), 18);
    assert_eq!(p.row_of(0), 2);
    let many: Vec<String> = (0..40).map(|i| i.to_string()).collect();
    assert_eq!(Completions::new(17, 80, many.clone()).unwrap().lines, 12);
    assert_eq!(Completions::new(50, 80, many).unwrap().lines, 15);
    assert!(!Completions::fits(14, 80));
}

#[test]
fn popup_navigation() {
    let s = vec!["alpha".to_string(), "beta".to_string(), "gamma".to_string()];
    let mut p = Completions::new(24, 80, s).unwrap();
    assert_eq!(p.handle_key(Key::Down), (None, NO_ACTION));
    assert_eq!(p.index, None);
    p.handle_key(Key::Up);
    assert_eq!(p.index, Some(0));
    p.handle_key(Key::Up);
    p.handle_key(Key::Up);
    p.handle_key(Key::Up);
    assert_eq!(p.index, Some(2));
    assert_eq!(p.handle_key(Key::Tab), (Some("gamma".to_string()), NO_ACTION));
    p.handle_key(Key::Down);
    assert_eq!(p.handle_key(Key::Enter), (Some("beta".to_string()), CLOSE_WINDOW));
    assert_eq!(p.handle_key(Key::Escape), (None, CLOSE_WINDOW));
    assert_eq!(p.handle_key(Key::Char('x')), (None, SEND_KEY));
    assert_eq!(p.handle_key(Key::CtrlQ), (None, CLOSE_WINDOW | SEND_KEY));
}

#[test]
fn popup_in_front_of_the_edit_line() {
    let mut c = ConsoleInput::new();
    typed(&mut c, "tp No");
    let mut popup = Completions::new(24, 80, vec!["Notch".to_string(), "Nobody".to_string()]);
    let out = c.handle_key(&mut popup, Key::Tab, 0, 24);
    assert_eq!(out.prompt, PromptUpdate::Redraw);
    assert_eq!(line(&c), "tp Notch");
    assert!(popup.is_some());
    let out = c.handle_key(&mut popup, Key::Char('!'), 0, 24);
    assert_eq!(out.request.as_deref(), Some("tp Notch!"));
    assert!(popup.is_some());
    c.handle_key(&mut popup, Key::Up, 0, 24);
    c.handle_key(&mut popup, Key::Up, 0, 24);
    let out = c.handle_key(&mut popup, Key::Enter, 0, 24);
    assert!(out.submit.is_none());
    assert!(popup.is_none());
    assert_eq!(line(&c), "tp Nobody");
    let mut none = None;
    let out = c.handle_key(&mut none, Key::Enter, 0, 24);
    assert_eq!(out.submit.as_deref(), Some("tp Nobody"));
}

#[test]
fn enter_without_highlight_submits_and_closes() {
    let mut c = ConsoleInput::new();
    typed(&mut c, "list");
    let mut popup = Completions::new(24, 80, vec!["list".to_string()]);
    let out = c.handle_key(&mut popup, Key::Enter, 0, 24);
    assert!(popup.is_none());
    assert_eq!(out.submit.as_deref(), Some("list"));
}

#[test]
fn emptying_the_line_closes_the_popup() {
    let mut c = ConsoleInput::new();
    typed(&mut c, "x");
    let mut popup = Completions::new(24, 80, vec!["xp".to_string()]);
    let out = c.handle_key(&mut popup, Key::Backspace, 0, 24);
    assert!(out.request.is_none());
    assert!(popup.is_none());
}

#[test]
fn resize_closes_the_popup_and_redraws() {
    let mut c = ConsoleInput::new();
    typed(&mut c, "x");
    let mut popup = Completions::new(24, 80, vec!["xp".to_string()]);
    let out = c.handle_key(&mut popup, Key::Resize, 0, 24);
    assert!(out.redraw);
    assert!(popup.is_none());
}

#[test]
fn redraw_only_after_changes() {
    let mut screen = ScreenState::new();
    assert!(screen.needs_redraw(0, 0, 80, 24));
    screen.mark_drawn(10, 0, 80, 24);
    assert!(!screen.needs_redraw(10, 0, 80, 24));
    assert!(screen.needs_redraw(11, 0, 80, 24));
    assert!(screen.needs_redraw(10, 1, 80, 24));
    assert!(screen.needs_redraw(10, 0, 81, 24));
    assert_eq!(screen.grown(14, 0), 4);
    assert_eq!(screen.grown(14, 2), 0);
    assert_eq!(ScreenState::new().grown(5, 0), 0);
}
