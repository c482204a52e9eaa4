//! The editor's state machine: the mode, the command line and the buffer,
//! driven one key at a time. What the screen must do in answer is handed
//! back as an action.
use crate::buffer::Buffer;
use crate::strings::{pop_char, push_char};
use crate::viewport::{scrolled_down, scrolled_up, Viewport};
use vstd::prelude::*;

verus! {

/// The editing modes.
#[derive(Clone, Copy, Debug, PartialEq, Eq, Structural)]
pub enum Modes {
    Normal,
    Insert,
    Command,
}

/// A decoded key press.
#[derive(Clone, Copy, Debug, PartialEq, Eq, Structural)]
pub enum Key {
    Char(char),
    Ctrl(char),
    Esc,
    Backspace,
    Other,
}

/// What the screen must do after a key: switch its mode, echo a
/// character, or nothing beyond drawing the next frame.
#[derive(Clone, Copy, Debug, PartialEq, Eq, Structural)]
pub enum ViewAction {
    Nothing,
    ChangeMode(Modes),
    WriteChar(char),
}

/// The state of the editor between keys.
pub struct Application {
    pub quit: bool,
    pub mode: Modes,
    pub command: String,
    pub buffer: Buffer,
    pub viewport: Viewport,
}

impl Application {
    pub open spec fn wf(&self) -> bool {
        self.buffer.wf()
    }

    /// `after` has the buffer of this state and only the listed changes.
    pub open spec fn same_but_mode(&self, after: &Application, mode: Modes) -> bool {
        &&& after.quit == self.quit
        &&& after.mode == mode
        &&& after.buffer == self.buffer
        &&& after.viewport == self.viewport
        &&& after.command@ == (if self.mode == Modes::Command && mode != Modes::Command {
            Seq::empty()
        } else {
            self.command@
        })
    }

    /// `after` has only `quit` set, and `action` is nothing.
    pub open spec fn quits(&self, after: &Application, action: ViewAction) -> bool {
        &&& after.quit
        &&& after.mode == self.mode
        &&& after.command@ == self.command@
        &&& after.buffer == self.buffer
        &&& after.viewport == self.viewport
        &&& action == ViewAction::Nothing
    }

    /// `after` differs at most in its buffer and viewport, and `action` is
    /// nothing.
    pub open spec fn moves(&self, after: &Application, action: ViewAction) -> bool {
        &&& after.quit == self.quit
        &&& after.mode == self.mode
        &&& after.command@ == self.command@
        &&& action == ViewAction::Nothing
    }

    /// `after` and `action` are what the key `event` gives in insert mode.
    pub open spec fn insert_step(&self, after: &Application, event: Key, action: ViewAction) -> bool {
        match event {
            Key::Esc => self.same_but_mode(after, Modes::Normal) && action == ViewAction::ChangeMode(
                Modes::Normal,
            ),
            Key::Char(c) => *after == *self && action == ViewAction::WriteChar(c),
            _ => *after == *self && action == ViewAction::Nothing,
        }
    }

    /// `after` and `action` are what the key `event` gives in normal mode,
    /// on a pane `height` rows high.
    pub open spec fn normal_step(
        &self,
        after: &Application,
        event: Key,
        height: usize,
        action: ViewAction,
    ) -> bool {
        match event {
            Key::Char('q') => self.quits(after, action),
            Key::Char('i') => self.same_but_mode(after, Modes::Insert) && action
                == ViewAction::ChangeMode(Modes::Insert),
            Key::Char(':') => self.same_but_mode(after, Modes::Command) && action
                == ViewAction::ChangeMode(Modes::Command),
            Key::Char('h') => self.moves(after, action) && after.viewport == self.viewport
                && self.buffer.stepped_left(&after.buffer),
            Key::Char('j') => self.moves(after, action) && after.viewport == self.viewport
                && self.buffer.stepped_down(&after.buffer),
            Key::Char('k') => self.moves(after, action) && after.viewport == self.viewport
                && self.buffer.stepped_up(&after.buffer),
            Key::Char('l') => self.moves(after, action) && after.viewport == self.viewport
                && self.buffer.stepped_right(&after.buffer),
            Key::Ctrl('e') => self.moves(after, action) && scrolled_down(
                self.viewport,
                self.buffer,
                after.viewport,
                after.buffer,
                height as nat,
            ),
            Key::Ctrl('y') => self.moves(after, action) && scrolled_up(
                self.viewport,
                self.buffer,
                after.viewport,
                after.buffer,
                height as nat,
            ),
            _ => *after == *self && action == ViewAction::Nothing,
        }
    }

    /// `after` and `action` are what the key `event` gives in command mode.
    pub open spec fn command_step(&self, after: &Application, event: Key, action: ViewAction) -> bool {
        match event {
            Key::Backspace => {
                &&& after.command@ == (if self.command@.len() > 0 {
                    self.command@.drop_last()
                } else {
                    self.command@
                })
                &&& after.quit == self.quit
                &&& after.mode == self.mode
                &&& after.buffer == self.buffer
                &&& after.viewport == self.viewport
                &&& action == ViewAction::Nothing
            },
            Key::Char('\n') => if self.command@ == "q"@ {
                self.quits(after, action)
            } else {
                self.same_but_mode(after, Modes::Normal) && action == ViewAction::ChangeMode(
                    Modes::Normal,
                )
            },
            Key::Char(c) => {
                &&& after.command@ == self.command@.push(c)
                &&& after.quit == self.quit
                &&& after.mode == self.mode
                &&& after.buffer == self.buffer
                &&& after.viewport == self.viewport
                &&& action == ViewAction::Nothing
            },
            Key::Esc => self.same_but_mode(after, Modes::Normal) && action == ViewAction::ChangeMode(
                Modes::Normal,
            ),
            _ => *after == *self && action == ViewAction::Nothing,
        }
    }

    /// An editor in normal mode over `text`.
    pub fn new(text: String) -> (a: Application)
        requires
            text@.len() < usize::MAX,
        ensures
            a.wf(),
            !a.quit,
            a.mode == Modes::Normal,
            a.command@ == Seq::<char>::empty(),
            a.buffer.text() == text@,
            a.viewport.top == 0,
    {
        Application {
            quit: false,
            mode: Modes::Normal,
            command: String::new(),
            buffer: Buffer::new(text),
            viewport: Viewport::new(),
        }
    }

    /// Switches to `mode`; leaving command mode drops the command typed.
    pub fn change_mode(&mut self, mode: Modes) -> (action: ViewAction)
        ensures
            old(self).same_but_mode(final(self), mode),
            action == ViewAction::ChangeMode(mode),
    {
        if self.mode == Modes::Command && mode != Modes::Command {
            self.command = String::new();
        }
        self.mode = mode;
        ViewAction::ChangeMode(mode)
    }

    /// Runs the command typed: `q` quits, anything else returns to normal
    /// mode.
    pub fn handle_command(&mut self) -> (action: ViewAction)
        ensures
            old(self).command@ == "q"@ ==> old(self).quits(final(self), action),
            old(self).command@ != "q"@ ==> old(self).same_but_mode(final(self), Modes::Normal)
                && action == ViewAction::ChangeMode(Modes::Normal),
    {
        let quit_command = String::from_str("q");
        if self.command.eq(&quit_command) {
            self.quit = true;
            ViewAction::Nothing
        } else {
            self.change_mode(Modes::Normal)
        }
    }

    /// Insert mode: escape returns to normal mode, a character is echoed.
    pub fn handle_insert_mode_event(&mut self, event: Key) -> (action: ViewAction)
        ensures
            old(self).insert_step(final(self), event, action),
    {
        match event {
            Key::Esc => self.change_mode(Modes::Normal),
            Key::Char(c) => ViewAction::WriteChar(c),
            _ => ViewAction::Nothing,
        }
    }

    /// Normal mode: `q` quits, `i` and `:` enter insert and command mode,
    /// `h` `j` `k` `l` move the root selection, control-`e` and control-`y`
    /// scroll down and up on a pane `height` rows high (a text row and the
    /// command row at least), moving the root selection along where the
    /// scroll would leave it off screen.
    pub fn handle_normal_mode_event(&mut self, event: Key, height: usize) -> (action: ViewAction)
        requires
            old(self).wf(),
            height >= 2,
        ensures
            final(self).wf(),
            old(self).normal_step(final(self), event, height, action),
    {
        match event {
            Key::Char('q') => {
                self.quit = true;
                ViewAction::Nothing
            },
            Key::Char('i') => self.change_mode(Modes::Insert),
            Key::Char(':') => self.change_mode(Modes::Command),
            Key::Char('h') => {
                self.buffer.select_char_left();
                ViewAction::Nothing
            },
            Key::Char('j') => {
                self.buffer.select_char_down();
                ViewAction::Nothing
            },
            Key::Char('k') => {
                self.buffer.select_char_up();
                ViewAction::Nothing
            },
            Key::Char('l') => {
                self.buffer.select_char_right();
                ViewAction::Nothing
            },
            Key::Ctrl('e') => {
                self.viewport.scroll_down(&mut self.buffer, height);
                ViewAction::Nothing
            },
            Key::Ctrl('y') => {
                self.viewport.scroll_up(&mut self.buffer, height);
                ViewAction::Nothing
            },
            _ => ViewAction::Nothing,
        }
    }

    /// Command mode: characters extend the command, backspace removes the
    /// last one, enter runs it and escape returns to normal mode.
    pub fn handle_command_mode_event(&mut self, event: Key) -> (action: ViewAction)
        ensures
            old(self).command_step(final(self), event, action),
    {
        match event {
            Key::Backspace => {
                pop_char(&mut self.command);
                ViewAction::Nothing
            },
            Key::Char('\n') => self.handle_command(),
            Key::Char(c) => {
                push_char(&mut self.command, c);
                ViewAction::Nothing
            },
            Key::Esc => self.change_mode(Modes::Normal),
            _ => ViewAction::Nothing,
        }
    }

    /// Handles a key in the current mode.
    pub fn handle_event(&mut self, event: Key, height: usize) -> (action: ViewAction)
        requires
            old(self).wf(),
            height >= 2,
        ensures
            final(self).wf(),
            old(self).mode == Modes::Insert ==> old(self).insert_step(final(self), event, action),
            old(self).mode == Modes::Normal ==> old(self).normal_step(
                final(self),
                event,
                height,
                action,
            ),
            old(self).mode == Modes::Command ==> old(self).command_step(final(self), event, action),
    {
        match self.mode {
            Modes::Insert => self.handle_insert_mode_event(event),
            Modes::Normal => self.handle_normal_mode_event(event, height),
            Modes::Command => self.handle_command_mode_event(event),
        }
    }
}

} // verus!
