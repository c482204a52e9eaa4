use editor_core::buffer::Selection;
use editor_core::editor::{Application, Key, Modes, ViewAction};
use editor_core::screen::{CursorPosition, Screen, ScreenOp};

fn app(text: &str) -> Application {
    Application::new(text.to_string())
}

#[test]
fn normal_mode_moves_the_selection() {
    let mut a = app("ab\ncd\n");
    assert_eq!(a.handle_event(Key::Char('l'), 10), ViewAction::Nothing);
    assert_eq!(a.buffer.get_root_selection(), Selection { start: 1, end: 2 });
    a.handle_event(Key::Char('j'), 10);
    assert_eq!(a.buffer.get_root_selection(), Selection { start: 4, end: 5 });
    a.handle_event(Key::Char('k'), 10);
    a.handle_event(Key::Char('h'), 10);
    assert_eq!(a.buffer.get_root_selection(), Selection { start: 0, end: 1 });
    assert_eq!(a.mode, Modes::Normal);
    assert!(!a.quit);
}

#[test]
fn q_quits_in_normal_mode() {
    let mut a = app("x");
    a.handle_event(Key::Char('q'), 10);
    assert!(a.quit);
}

#[test]
fn insert_mode_echoes_and_escape_leaves() {
    let mut a = app("x");
    assert_eq!(a.handle_event(Key::Char('i'), 10), ViewAction::ChangeMode(Modes::Insert));
    assert_eq!(a.mode, Modes::Insert);
    assert_eq!(a.handle_event(Key::Char('z'), 10), ViewAction::WriteChar('z'));
    assert_eq!(a.handle_event(Key::Char('q'), 10), ViewAction::WriteChar('q'));
    assert!(!a.quit);
    assert_eq!(a.handle_event(Key::Esc, 10), ViewAction::ChangeMode(Modes::Normal));
    assert_eq!(a.mode, Modes::Normal);
}

#[test]
fn command_q_quits() {
    let mut a = app("x");
    a.handle_event(Key::Char(':'), 10);
    assert_eq!(a.mode, Modes::Command);
    a.handle_event(Key::Char('q'), 10);
    assert_eq!(a.command, "q");
    assert!(!a.quit);
    a.handle_event(Key::Char('\n'), 10);
    assert!(a.quit);
}

#[test]
fn other_commands_return_to_normal_mode_and_are_dropped() {
    let mut a = app("x");
    a.handle_event(Key::Char(':'), 10);
    a.handle_event(Key::Char('w'), 10);
    a.handle_event(Key::Char('x'), 10);
    a.handle_event(Key::Backspace, 10);
    assert_eq!(a.command, "w");
    assert_eq!(a.handle_event(Key::Char('\n'), 10), ViewAction::ChangeMode(Modes::Normal));
    assert_eq!(a.mode, Modes::Normal);
    assert_eq!(a.command, "");
    assert!(!a.quit);
}

#[test]
fn backspace_on_an_empty_command_keeps_it_empty() {
    let mut a = app("x");
    a.handle_event(Key::Char(':'), 10);
    a.handle_event(Key::Backspace, 10);
    assert_eq!(a.command, "");
    assert_eq!(a.mode, Modes::Command);
    a.handle_event(Key::Esc, 10);
    assert_eq!(a.mode, Modes::Normal);
}

#[test]
fn control_keys_scroll() {
    let text: String = (0..30).map(|i| format!("{}\n", i)).collect();
    let mut a = app(&text);
    a.handle_event(Key::Ctrl('e'), 10);
    a.handle_event(Key::Ctrl('e'), 10);
    assert_eq!(a.viewport.top, 2);
    assert_eq!(a.buffer.get_root_selection_line(), 2);
    a.handle_event(Key::Ctrl('y'), 10);
    assert_eq!(a.viewport.top, 1);
    a.handle_event(Key::Other, 10);
    assert_eq!(a.viewport.top, 1);
}

#[test]
fn screen_echo_moves_the_cursor() {
    let mut s = Screen::new();
    let ops = s.write_char('a');
    assert_eq!(s.position, CursorPosition { row: 1, col: 2 });
    assert_eq!(ops, vec![ScreenOp::Write('a'), ScreenOp::Goto(CursorPosition { row: 1, col: 2 })]);
    s.write_char('\n');
    assert_eq!(s.position, CursorPosition { row: 2, col: 1 });
}

#[test]
fn screen_command_mode_saves_and_restores_the_cursor() {
    let mut s = Screen::new();
    s.write_char('a');
    let ops = s.change_mode(Modes::Command, 24);
    let prompt = CursorPosition { row: 24, col: 1 };
    assert_eq!(
        ops,
        vec![
            ScreenOp::Goto(prompt),
            ScreenOp::Write(':'),
            ScreenOp::Goto(CursorPosition { row: 24, col: 2 }),
        ]
    );
    assert_eq!(s.last_position, CursorPosition { row: 1, col: 2 });
    let back = s.change_mode(Modes::Normal, 24);
    assert_eq!(back, vec![ScreenOp::ClearLine, ScreenOp::Goto(CursorPosition { row: 1, col: 2 })]);
    assert_eq!(s.position, CursorPosition { row: 1, col: 2 });
    assert_eq!(s.mode, Modes::Normal);
}
