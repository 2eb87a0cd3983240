use calc_core::app::{
    move_word_backward_pub, move_word_forward_pub, App, FileRead, KeyCode, KeyEvent, KeyModifiers,
    MouseEvent, MouseEventKind, Rect,
};
use calc_core::editor::LineOutput;
use calc_core::mode::{Config, EditStyle, Mode};

fn key(code: KeyCode) -> KeyEvent {
    KeyEvent { code, modifiers: KeyModifiers { shift: false, control: false, alt: false } }
}

fn ctrl(c: char) -> KeyEvent {
    KeyEvent { code: KeyCode::Char(c), modifiers: KeyModifiers { shift: false, control: true, alt: false } }
}

fn shift(code: KeyCode) -> KeyEvent {
    KeyEvent { code, modifiers: KeyModifiers { shift: true, control: false, alt: false } }
}

fn simple() -> App {
    App::new(Config { edit_style: EditStyle::Simple })
}

fn vim() -> App {
    App::new(Config { edit_style: EditStyle::Vim })
}

fn type_str(app: &mut App, s: &str) {
    for c in s.chars() {
        if c == '\n' {
            app.handle_key(key(KeyCode::Enter));
        } else {
            app.handle_key(key(KeyCode::Char(c)));
        }
    }
}

fn lines(app: &App) -> Vec<String> {
    app.buffers[app.active_tab].lines.clone()
}

fn cursor(app: &App) -> (usize, usize) {
    let b = &app.buffers[app.active_tab];
    (b.cursor_y, b.cursor_x)
}

#[test]
fn typing_and_undo_in_simple_mode() {
    let mut app = simple();
    assert_eq!(app.mode, Mode::Insert);
    type_str(&mut app, "1 + 2\nx");
    assert_eq!(lines(&app), vec!["1 + 2", "x"]);
    assert_eq!(cursor(&app), (1, 1));
    assert!(app.buffers[0].dirty);
    let e = app.take_effects();
    assert!(e.evaluate);
    app.handle_key(ctrl('z'));
    assert_eq!(lines(&app), vec!["1 + 2", ""]);
    assert_eq!(app.message.as_deref(), Some("Undo"));
    app.handle_key(ctrl('Z'));
    assert_eq!(lines(&app), vec!["1 + 2", "x"]);
}

#[test]
fn backspace_joins_lines() {
    let mut app = simple();
    type_str(&mut app, "ab\ncd");
    app.handle_key(key(KeyCode::Home));
    app.handle_key(key(KeyCode::Backspace));
    assert_eq!(lines(&app), vec!["abcd"]);
    assert_eq!(cursor(&app), (0, 2));
}

#[test]
fn tab_inserts_two_spaces() {
    let mut app = simple();
    app.handle_key(key(KeyCode::Tab));
    assert_eq!(lines(&app), vec!["  "]);
    assert_eq!(cursor(&app), (0, 2));
}

#[test]
fn shift_selection_copy_and_cut() {
    let mut app = simple();
    type_str(&mut app, "hello world");
    app.handle_key(key(KeyCode::Home));
    for _ in 0..5 {
        app.handle_key(shift(KeyCode::Right));
    }
    app.handle_key(ctrl('c'));
    let e = app.take_effects();
    assert_eq!(e.copy.as_deref(), Some("hello"));
    assert_eq!(app.message.as_deref(), Some("Copied"));
    for _ in 0..5 {
        app.handle_key(shift(KeyCode::Left));
    }
    app.handle_key(ctrl('x'));
    assert_eq!(lines(&app), vec![" world"]);
    assert_eq!(app.take_effects().copy.as_deref(), Some("hello"));
}

#[test]
fn ctrl_d_deletes_line_and_paste_reinserts() {
    let mut app = simple();
    type_str(&mut app, "one\ntwo");
    app.handle_key(ctrl('d'));
    assert_eq!(lines(&app), vec!["one"]);
    app.handle_key(ctrl('v'));
    assert!(app.take_effects().read_clipboard);
    app.finish_paste(Some("A\nB".to_string()));
    assert_eq!(lines(&app), vec!["onA", "Be"]);
    assert_eq!(cursor(&app), (1, 1));
}

#[test]
fn word_deletion() {
    let mut app = simple();
    type_str(&mut app, "foo bar");
    app.handle_key(KeyEvent {
        code: KeyCode::Backspace,
        modifiers: KeyModifiers { shift: false, control: true, alt: false },
    });
    assert_eq!(lines(&app), vec!["foo "]);
}

#[test]
fn quit_prompt_when_dirty() {
    let mut app = simple();
    type_str(&mut app, "1");
    app.handle_key(ctrl('q'));
    assert!(app.prompt.is_some());
    app.handle_key(key(KeyCode::Char('n')));
    assert!(app.prompt.is_none());
    assert!(!app.should_quit);
    assert_eq!(app.message.as_deref(), Some("Quit cancelled"));
    app.handle_key(ctrl('q'));
    app.handle_key(key(KeyCode::Char('y')));
    assert!(app.should_quit);
}

#[test]
fn save_as_prompt_and_write() {
    let mut app = simple();
    type_str(&mut app, "1\n2");
    app.handle_key(ctrl('s'));
    assert!(app.prompt.is_some());
    type_str(&mut app, "notes");
    app.handle_key(key(KeyCode::Enter));
    let e = app.take_effects();
    let w = e.write.unwrap();
    assert_eq!(w.path, "notes.calc");
    assert_eq!(w.content, "1\n2");
    app.finish_write(Ok(()));
    assert!(!app.buffers[0].dirty);
    assert_eq!(app.message.as_deref(), Some("Saved to notes.calc"));
    assert_eq!(app.buffers[0].tab_name(), "notes.calc");
}

#[test]
fn load_file_contents() {
    let mut app = simple();
    app.load_contents("dir/a.calc", FileRead::Contents("x = 1\r\ny = 2\n".to_string())).unwrap();
    assert_eq!(lines(&app), vec!["x = 1", "y = 2"]);
    assert_eq!(app.message.as_deref(), Some("Loaded dir/a.calc"));
    assert_eq!(app.buffers[0].tab_name(), "a.calc");
    app.load_contents("b.calc", FileRead::NotFound).unwrap();
    assert_eq!(app.message.as_deref(), Some("New file: b.calc"));
    assert!(app.load_contents("c.calc", FileRead::Failed("denied".to_string())).is_err());
    assert!(app.buffers[0].file_path.is_none());
}

#[test]
fn tabs_open_switch_and_close() {
    let mut app = simple();
    app.handle_key(ctrl('n'));
    assert_eq!(app.buffers.len(), 2);
    assert_eq!(app.active_tab, 1);
    app.next_tab();
    assert_eq!(app.active_tab, 0);
    app.prev_tab();
    assert_eq!(app.active_tab, 1);
    app.close_tab_force();
    assert_eq!(app.buffers.len(), 1);
    assert_eq!(app.message.as_deref(), Some("Tab closed (1 remaining)"));
    app.close_tab_force();
    assert!(app.should_quit);
}

#[test]
fn vim_modes_and_edits() {
    let mut app = vim();
    assert_eq!(app.mode, Mode::Normal);
    app.handle_key(key(KeyCode::Char('i')));
    type_str(&mut app, "foo bar");
    app.handle_key(key(KeyCode::Esc));
    assert_eq!(app.mode, Mode::Normal);
    assert_eq!(cursor(&app), (0, 6));
    app.handle_key(key(KeyCode::Char('0')));
    app.handle_key(key(KeyCode::Char('w')));
    assert_eq!(cursor(&app), (0, 4));
    app.handle_key(key(KeyCode::Char('d')));
    app.handle_key(key(KeyCode::Char('i')));
    app.handle_key(key(KeyCode::Char('w')));
    assert_eq!(lines(&app), vec!["foo "]);
    app.handle_key(key(KeyCode::Char('u')));
    assert_eq!(lines(&app), vec!["foo bar"]);
}

#[test]
fn vim_yank_paste_and_count_goto() {
    let mut app = vim();
    app.handle_key(key(KeyCode::Char('i')));
    type_str(&mut app, "a\nb\nc");
    app.handle_key(key(KeyCode::Esc));
    app.handle_key(key(KeyCode::Char('g')));
    app.handle_key(key(KeyCode::Char('g')));
    assert_eq!(cursor(&app).0, 0);
    app.handle_key(key(KeyCode::Char('y')));
    app.handle_key(key(KeyCode::Char('y')));
    assert_eq!(app.message.as_deref(), Some("1 line yanked"));
    app.handle_key(key(KeyCode::Char('p')));
    assert_eq!(lines(&app), vec!["a", "a", "b", "c"]);
    app.handle_key(key(KeyCode::Char('3')));
    assert_eq!(app.message.as_deref(), Some("3"));
    app.handle_key(key(KeyCode::Char('G')));
    assert_eq!(cursor(&app).0, 2);
    app.handle_key(key(KeyCode::Char('G')));
    assert_eq!(cursor(&app).0, 3);
}

#[test]
fn vim_visual_line_delete() {
    let mut app = vim();
    app.handle_key(key(KeyCode::Char('i')));
    type_str(&mut app, "a\nb\nc");
    app.handle_key(key(KeyCode::Esc));
    app.handle_key(key(KeyCode::Char('k')));
    app.handle_key(key(KeyCode::Char('V')));
    app.handle_key(key(KeyCode::Char('j')));
    app.handle_key(key(KeyCode::Char('d')));
    assert_eq!(lines(&app), vec!["a"]);
    assert_eq!(app.mode, Mode::Normal);
    assert_eq!(app.take_effects().copy.as_deref(), Some("b\nc"));
}

#[test]
fn vim_command_line() {
    let mut app = vim();
    app.handle_key(key(KeyCode::Char(':')));
    assert_eq!(app.mode, Mode::Command);
    type_str(&mut app, "tabnew");
    app.handle_key(key(KeyCode::Enter));
    assert_eq!(app.buffers.len(), 2);
    assert_eq!(app.mode, Mode::Normal);
    app.handle_key(key(KeyCode::Char(':')));
    type_str(&mut app, "bogus");
    app.handle_key(key(KeyCode::Enter));
    assert_eq!(app.message.as_deref(), Some("Unknown command: :bogus"));
}

#[test]
fn easy_motion_jump() {
    let mut app = vim();
    app.handle_key(key(KeyCode::Char('i')));
    type_str(&mut app, "x = 1\ny = x");
    app.handle_key(key(KeyCode::Esc));
    app.handle_key(key(KeyCode::Char('f')));
    assert_eq!(app.message.as_deref(), Some("EasyMotion: type to search"));
    app.handle_key(key(KeyCode::Char('x')));
    let em = app.easy_motion.as_ref().unwrap();
    assert_eq!(em.matches, vec![(0, 0), (1, 4)]);
    assert_eq!(em.labels, vec!['a', 's']);
    app.handle_key(key(KeyCode::Char('s')));
    assert!(app.easy_motion.is_none());
    assert_eq!(cursor(&app), (1, 4));
}

#[test]
fn mouse_click_and_double_click() {
    let mut app = simple();
    type_str(&mut app, "alpha beta");
    app.layout_editor_area = Some(Rect { x: 4, y: 1, width: 40, height: 10 });
    let click = |t: u64| MouseEvent { kind: MouseEventKind::LeftDown, column: 11, row: 1, time_ms: t };
    app.handle_mouse(click(1000));
    assert_eq!(cursor(&app), (0, 7));
    app.handle_mouse(click(1200));
    let sel = app.buffers[0].selection.unwrap();
    assert_eq!((sel.anchor_y, sel.anchor_x), (0, 6));
    assert_eq!(cursor(&app), (0, 9));
}

#[test]
fn tab_bar_click_selects_tab() {
    let mut app = simple();
    app.new_buffer();
    app.layout_tab_bar = Some(Rect { x: 0, y: 0, width: 80, height: 1 });
    app.handle_mouse(MouseEvent { kind: MouseEventKind::LeftDown, column: 2, row: 0, time_ms: 0 });
    assert_eq!(app.active_tab, 0);
    app.handle_mouse(MouseEvent { kind: MouseEventKind::LeftDown, column: 12, row: 0, time_ms: 0 });
    assert_eq!(app.active_tab, 1);
}

#[test]
fn easy_motion_matches_ignore_case() {
    let mut app = vim();
    app.handle_key(key(KeyCode::Char('i')));
    type_str(&mut app, "Xa x\nAX");
    app.handle_key(key(KeyCode::Esc));
    app.handle_key(key(KeyCode::Char('f')));
    app.handle_key(key(KeyCode::Char('x')));
    let em = app.easy_motion.as_ref().unwrap();
    assert_eq!(em.matches, vec![(0, 0), (0, 3), (1, 1)]);
}

#[test]
fn saved_text_loads_back() {
    let mut app = simple();
    type_str(&mut app, "a = 2\n\nb = a * 3");
    app.handle_key(ctrl('s'));
    type_str(&mut app, "round");
    app.handle_key(key(KeyCode::Enter));
    let w = app.take_effects().write.unwrap();
    app.finish_write(Ok(()));
    let mut other = simple();
    other.load_contents(&w.path, FileRead::Contents(w.content.clone())).unwrap();
    assert_eq!(lines(&other), vec!["a = 2", "", "b = a * 3"]);
    assert_eq!(lines(&other), lines(&app));
}

#[test]
fn shift_keys_extend_one_selection_until_a_plain_key() {
    let mut app = simple();
    type_str(&mut app, "abc def\nxyz");
    app.handle_key(key(KeyCode::Up));
    app.handle_key(key(KeyCode::Home));
    app.handle_key(shift(KeyCode::Right));
    app.handle_key(shift(KeyCode::Right));
    app.handle_key(shift(KeyCode::Down));
    let sel = app.buffers[0].selection.unwrap();
    assert_eq!((sel.anchor_y, sel.anchor_x), (0, 0));
    assert_eq!(cursor(&app), (1, 2));
    app.handle_key(key(KeyCode::Left));
    assert!(app.buffers[0].selection.is_none());
    assert_eq!(cursor(&app), (1, 1));
}

#[test]
fn vertical_moves_remember_the_column() {
    let mut app = simple();
    type_str(&mut app, "hello world\nab\nhello world");
    app.handle_key(key(KeyCode::Up));
    app.handle_key(key(KeyCode::Up));
    assert_eq!(cursor(&app), (0, 11));
    app.handle_key(key(KeyCode::Left));
    app.handle_key(key(KeyCode::Left));
    app.handle_key(key(KeyCode::Left));
    assert_eq!(cursor(&app), (0, 8));
    app.handle_key(key(KeyCode::Down));
    assert_eq!(cursor(&app), (1, 2));
    app.handle_key(key(KeyCode::Down));
    assert_eq!(cursor(&app), (2, 8));
    app.handle_key(key(KeyCode::Up));
    app.handle_key(key(KeyCode::Up));
    assert_eq!(cursor(&app), (0, 8));
}

#[test]
fn word_motions_on_the_active_buffer() {
    let mut app = simple();
    type_str(&mut app, "total = a + b");
    app.handle_key(key(KeyCode::Home));
    move_word_forward_pub(&mut app);
    assert_eq!(cursor(&app), (0, 6));
    move_word_forward_pub(&mut app);
    assert_eq!(cursor(&app), (0, 8));
    move_word_backward_pub(&mut app);
    assert_eq!(cursor(&app), (0, 6));
    move_word_backward_pub(&mut app);
    assert_eq!(cursor(&app), (0, 0));
}

#[test]
fn paste_falls_back_to_the_yank_buffer() {
    let mut app = simple();
    type_str(&mut app, "one\ntwo");
    app.handle_key(ctrl('d'));
    assert_eq!(cursor(&app), (0, 2));
    app.paste_from_clipboard(None);
    assert_eq!(lines(&app), vec!["ontwoe"]);
    assert_eq!(cursor(&app), (0, 5));
    app.paste_from_clipboard(Some(String::new()));
    assert_eq!(lines(&app), vec!["ontwoe"]);
}

#[test]
fn missing_file_is_written_on_first_save() {
    let mut app = simple();
    app.load_contents("fresh.calc", FileRead::NotFound).unwrap();
    type_str(&mut app, "x = 4");
    app.handle_key(ctrl('s'));
    assert!(app.prompt.is_none());
    let w = app.take_effects().write.unwrap();
    assert_eq!(w.path, "fresh.calc");
    assert_eq!(w.content, "x = 4");
}

#[test]
fn quit_commands_keep_unsaved_work() {
    let mut app = vim();
    app.handle_key(key(KeyCode::Char('i')));
    type_str(&mut app, "1 + 1");
    app.handle_key(key(KeyCode::Esc));
    type_str(&mut app, ":q");
    app.handle_key(key(KeyCode::Enter));
    assert!(!app.should_quit);
    assert_eq!(app.message.as_deref(), Some("Unsaved changes. Use :q! to force or :w to save."));
    assert_eq!(lines(&app), vec!["1 + 1"]);
    type_str(&mut app, ":qa");
    app.handle_key(key(KeyCode::Enter));
    assert!(!app.should_quit);
    assert!(app.prompt.is_some());
}

#[test]
fn save_as_keeps_a_given_extension() {
    let mut app = vim();
    type_str(&mut app, ":w data.txt");
    app.handle_key(key(KeyCode::Enter));
    let w = app.take_effects().write.unwrap();
    assert_eq!(w.path, "data.txt");
    app.finish_write(Ok(()));
    type_str(&mut app, ":w plain");
    app.handle_key(key(KeyCode::Enter));
    assert_eq!(app.take_effects().write.unwrap().path, "plain.calc");
}

#[test]
fn delete_key_in_normal_mode_deletes_under_cursor() {
    for code in [KeyCode::Char('x'), KeyCode::Delete] {
        let mut app = vim();
        app.handle_key(key(KeyCode::Char('i')));
        type_str(&mut app, "abc");
        app.handle_key(key(KeyCode::Esc));
        app.handle_key(key(KeyCode::Char('0')));
        app.handle_key(key(KeyCode::Char('l')));
        assert_eq!(cursor(&app), (0, 1));
        app.handle_key(key(code));
        assert_eq!(lines(&app), vec!["ac"]);
        assert_eq!(cursor(&app), (0, 1));
        assert_eq!(app.mode, Mode::Normal);
    }
}

#[test]
fn delete_key_in_visual_mode_deletes_selection() {
    for code in [KeyCode::Char('d'), KeyCode::Delete] {
        let mut app = vim();
        app.handle_key(key(KeyCode::Char('i')));
        type_str(&mut app, "a\nb\nc\nd");
        app.handle_key(key(KeyCode::Esc));
        type_str(&mut app, "gg");
        app.handle_key(key(KeyCode::Char('V')));
        app.handle_key(key(KeyCode::Char('j')));
        app.handle_key(key(KeyCode::Char('j')));
        app.take_effects();
        app.handle_key(key(code));
        assert_eq!(lines(&app), vec!["d"]);
        assert_eq!(app.buffers[0].yank_buffer, vec!["a", "b", "c"]);
        assert_eq!(app.take_effects().copy.as_deref(), Some("a\nb\nc"));
        assert!(app.buffers[0].selection.is_none());
        assert_eq!(app.mode, Mode::Normal);
        assert_eq!(cursor(&app), (0, 0));
    }
}

#[test]
fn save_as_adds_calc_to_a_file_name_without_extension() {
    for (given, written) in [("./notes", "./notes.calc"), ("notes", "notes.calc"), ("a.txt", "a.txt"), ("dir.d/x", "dir.d/x.calc")] {
        let mut app = simple();
        type_str(&mut app, "1");
        app.handle_key(ctrl('s'));
        type_str(&mut app, given);
        app.handle_key(key(KeyCode::Enter));
        let w = app.take_effects().write.unwrap();
        assert_eq!(w.path, written);
        app.finish_write(Ok(()));
        assert_eq!(app.buffers[0].file_path.as_deref(), Some(written));
        assert_eq!(app.message, Some(format!("Saved to {}", written)));
        assert!(!app.buffers[0].dirty);
    }
}

#[test]
fn control_keys_end_the_selection_too() {
    let mut app = simple();
    type_str(&mut app, "abc");
    app.handle_key(shift(KeyCode::Left));
    assert!(app.buffers[0].selection.is_some());
    app.handle_key(ctrl('s'));
    assert!(app.buffers[0].selection.is_none());
    app.handle_key(key(KeyCode::Esc));
    app.prompt = None;
    app.handle_key(shift(KeyCode::Left));
    app.handle_key(ctrl('z'));
    assert!(app.buffers[0].selection.is_none());
}

#[test]
fn enter_then_backspace_restores_the_line() {
    let mut app = simple();
    type_str(&mut app, "abcd");
    app.handle_key(key(KeyCode::Left));
    app.handle_key(key(KeyCode::Left));
    app.handle_key(key(KeyCode::Enter));
    assert_eq!(lines(&app), vec!["ab", "cd"]);
    app.handle_key(key(KeyCode::Backspace));
    assert_eq!(lines(&app), vec!["abcd"]);
    assert_eq!(cursor(&app), (0, 2));
}

#[test]
fn click_on_a_result_copies_it() {
    let mut app = simple();
    type_str(&mut app, "1 + 1");
    app.take_effects();
    app.set_results(vec![LineOutput { display: "2".to_string(), error: None }]);
    app.layout_results_area = Some(Rect { x: 50, y: 1, width: 20, height: 10 });
    app.handle_mouse(MouseEvent { kind: MouseEventKind::LeftDown, column: 55, row: 1, time_ms: 0 });
    assert_eq!(app.take_effects().copy.as_deref(), Some("2"));
    assert_eq!(app.message.as_deref(), Some("Copied: 2"));
}

#[test]
fn tab_switch_ends_only_the_selection_it_was_pressed_in() {
    let mut app = simple();
    type_str(&mut app, "abc");
    app.handle_key(shift(KeyCode::Left));
    app.new_buffer();
    type_str(&mut app, "xyz");
    app.handle_key(shift(KeyCode::Left));
    app.prev_tab();
    assert_eq!(app.active_tab, 0);
    assert!(app.buffers[0].selection.is_some());
    let ctrl_pgdn = KeyEvent {
        code: KeyCode::PageDown,
        modifiers: KeyModifiers { shift: false, control: true, alt: false },
    };
    app.handle_key(ctrl_pgdn);
    assert_eq!(app.active_tab, 1);
    assert!(app.buffers[0].selection.is_none());
    let sel = app.buffers[1].selection.unwrap();
    assert_eq!((sel.anchor_y, sel.anchor_x), (0, 3));
}
