//! Decoding key events into selector commands, and applying commands.
//!
//! The decoder sees key events in a plain form — the key, whether the
//! modifier set is exactly Control, and whether the event is a press — and
//! maps each to one command of the state machine. Only presses act: repeats
//! and releases decode to no command, so platforms that report them do not
//! double-apply. Applying a command mutates the state and returns what the
//! run loop should do next: keep going or quit, and which switch to perform.

use vstd::prelude::*;

use crate::state::{State, SwitchDirective};

verus! {

/// A key, as far as the selector distinguishes them.
#[derive(Clone, Copy, Debug, PartialEq, Eq)]
pub enum Key {
    Char(char),
    Up,
    Down,
    Left,
    Right,
    Tab,
    BackTab,
    Backspace,
    Delete,
    Esc,
    Enter,
    Other,
}

/// One discrete key event.
#[derive(Clone, Copy, Debug, PartialEq, Eq)]
pub struct KeyEvent {
    pub key: Key,
    /// Whether the modifier set is exactly Control.
    pub control: bool,
    /// Whether this is a press, rather than a repeat or a release.
    pub is_press: bool,
}

/// A command of the selector state machine.
#[derive(Clone, Copy, Debug, PartialEq, Eq)]
pub enum Command {
    SelectionNext,
    SelectionPrev,
    CursorBackward,
    CursorForward,
    InsertChar(char),
    DeleteBackward,
    DeleteForward,
    Abort,
    Confirm,
    Noop,
}

/// The command a key event decodes to. The up and down keys swap their
/// meaning with the list direction, so that the key pointing at the next row
/// on screen always selects it; Control with a plain letter mirrors the arrow
/// keys; any other character, Control held or not, is typed into the pattern.
pub open spec fn spec_decode(ev: KeyEvent, inverted: bool) -> Command {
    if !ev.is_press {
        Command::Noop
    } else {
        match ev.key {
            Key::Down => if inverted {
                Command::SelectionNext
            } else {
                Command::SelectionPrev
            },
            Key::Up => if inverted {
                Command::SelectionPrev
            } else {
                Command::SelectionNext
            },
            Key::Left => Command::CursorBackward,
            Key::Right => Command::CursorForward,
            Key::Tab => Command::SelectionNext,
            Key::BackTab => Command::SelectionPrev,
            Key::Char(c) => if ev.control && c == 'j' {
                if inverted {
                    Command::SelectionNext
                } else {
                    Command::SelectionPrev
                }
            } else if ev.control && c == 'k' {
                if inverted {
                    Command::SelectionPrev
                } else {
                    Command::SelectionNext
                }
            } else if ev.control && c == 'h' {
                Command::CursorBackward
            } else if ev.control && c == 'l' {
                Command::CursorForward
            } else {
                Command::InsertChar(c)
            },
            Key::Backspace => Command::DeleteBackward,
            Key::Delete => Command::DeleteForward,
            Key::Esc => Command::Abort,
            Key::Enter => Command::Confirm,
            Key::Other => Command::Noop,
        }
    }
}

/// Decodes one key event into the command it stands for.
pub fn decode(ev: KeyEvent, inverted: bool) -> (r: Command)
    ensures
        r == spec_decode(ev, inverted),
{
    if !ev.is_press {
        return Command::Noop;
    }
    match ev.key {
        Key::Down => if inverted {
            Command::SelectionNext
        } else {
            Command::SelectionPrev
        },
        Key::Up => if inverted {
            Command::SelectionPrev
        } else {
            Command::SelectionNext
        },
        Key::Left => Command::CursorBackward,
        Key::Right => Command::CursorForward,
        Key::Tab => Command::SelectionNext,
        Key::BackTab => Command::SelectionPrev,
        Key::Char(c) => {
            if ev.control && c == 'j' {
                if inverted {
                    Command::SelectionNext
                } else {
                    Command::SelectionPrev
                }
            } else if ev.control && c == 'k' {
                if inverted {
                    Command::SelectionPrev
                } else {
                    Command::SelectionNext
                }
            } else if ev.control && c == 'h' {
                Command::CursorBackward
            } else if ev.control && c == 'l' {
                Command::CursorForward
            } else {
                Command::InsertChar(c)
            }
        },
        Key::Backspace => Command::DeleteBackward,
        Key::Delete => Command::DeleteForward,
        Key::Esc => Command::Abort,
        Key::Enter => Command::Confirm,
        Key::Other => Command::Noop,
    }
}

/// What the run loop does after one command: switch to a candidate, switch
/// back to the initially active session, or nothing.
#[derive(Clone, Copy, Debug, PartialEq, Eq)]
pub enum StepAction {
    DoNothing,
    Switch(SwitchDirective),
    SwitchToInitial,
}

/// The run loop's marching orders after one command.
#[derive(Clone, Copy, Debug, PartialEq, Eq)]
pub struct StepOutcome {
    pub quit: bool,
    pub action: StepAction,
}

/// The step action standing for an optional switch directive.
pub open spec fn action_of(d: Option<SwitchDirective>) -> StepAction {
    match d {
        Some(x) => StepAction::Switch(x),
        None => StepAction::DoNothing,
    }
}

fn to_action(d: Option<SwitchDirective>) -> (r: StepAction)
    ensures
        r == action_of(d),
{
    match d {
        Some(x) => StepAction::Switch(x),
        None => StepAction::DoNothing,
    }
}

/// Applies one command to the selector state and says what the run loop does
/// next. Selection moves on an empty match list do nothing; a confirm quits
/// only when something was selected, and on an empty list switches nothing;
/// an abort always quits, switching back to the initial session.
pub fn apply_command(state: &mut State, cmd: Command) -> (r: StepOutcome)
    requires
        old(state).wf(),
    ensures
        final (state).wf(),
        State::candidates_unchanged(old(state), final (state)),
        cmd == Command::Noop ==> *final (state) == *old(state) && r == (StepOutcome {
            quit: false,
            action: StepAction::DoNothing,
        }),
        cmd == Command::SelectionNext && old(state).matches@.len() > 0 ==> final (
        state).selection_pos == (old(state).selection_pos + 1) % (old(state).matches@.len() as int)
            && r.quit == false && r.action == action_of(
            final (state).switch_directive_spec(false),
        ),
        cmd == Command::SelectionPrev && old(state).matches@.len() > 0 ==> final (
        state).selection_pos == (old(state).selection_pos + old(state).matches@.len() - 1) % (
        old(state).matches@.len() as int) && r.quit == false && r.action == action_of(
            final (state).switch_directive_spec(false),
        ),
        (cmd == Command::SelectionNext || cmd == Command::SelectionPrev) && old(
            state,
        ).matches@.len() == 0 ==> *final (state) == *old(state) && r == (StepOutcome {
            quit: false,
            action: StepAction::DoNothing,
        }),
        cmd == Command::CursorBackward ==> final (state).cursor_pos == (if old(state).cursor_pos
            > 0 {
            old(state).cursor_pos - 1
        } else {
            0int
        }) && final (state).pattern == old(state).pattern && final (state).matches == old(
            state,
        ).matches && r == (StepOutcome { quit: false, action: StepAction::DoNothing }),
        cmd == Command::CursorForward ==> final (state).cursor_pos == (if old(state).cursor_pos
            < old(state).pattern@.len() {
            old(state).cursor_pos + 1
        } else {
            old(state).cursor_pos as int
        }) && final (state).pattern == old(state).pattern && final (state).matches == old(
            state,
        ).matches && r == (StepOutcome { quit: false, action: StepAction::DoNothing }),
        cmd matches Command::InsertChar(c) ==> final (state).pattern@ == old(
            state,
        ).pattern@.insert(old(state).cursor_pos as int, c) && State::rematched(
            old(state),
            final (state),
        ) && r.quit == false && r.action == action_of(final (state).switch_directive_spec(false)),
        cmd == Command::DeleteBackward && old(state).cursor_pos > 0 ==> final (state).pattern@
            == old(state).pattern@.remove(old(state).cursor_pos - 1 as int) && State::rematched(
            old(state),
            final (state),
        ) && r.quit == false && r.action == action_of(final (state).switch_directive_spec(false)),
        cmd == Command::DeleteBackward && old(state).cursor_pos == 0 ==> *final (state) == *old(
            state,
        ) && r == (StepOutcome { quit: false, action: StepAction::DoNothing }),
        cmd == Command::DeleteForward && old(state).cursor_pos < old(state).pattern@.len()
            ==> final (state).pattern@ == old(state).pattern@.remove(old(state).cursor_pos as int)
            && State::rematched(old(state), final (state)) && r.quit == false && r.action
            == action_of(final (state).switch_directive_spec(false)),
        cmd == Command::DeleteForward && old(state).cursor_pos >= old(state).pattern@.len()
            ==> *final (state) == *old(state) && r == (StepOutcome {
            quit: false,
            action: StepAction::DoNothing,
        }),
        cmd == Command::Abort ==> *final (state) == *old(state) && r == (StepOutcome {
            quit: true,
            action: StepAction::SwitchToInitial,
        }),
        cmd == Command::Confirm ==> *final (state) == *old(state) && r.quit == (old(
            state,
        ).matches@.len() > 0) && r.action == action_of(old(state).switch_directive_spec(true)),
{
    match cmd {
        Command::SelectionNext => {
            if state.matches_len() > 0 {
                let d = state.selection_next();
                StepOutcome { quit: false, action: to_action(d) }
            } else {
                StepOutcome { quit: false, action: StepAction::DoNothing }
            }
        },
        Command::SelectionPrev => {
            if state.matches_len() > 0 {
                let d = state.selection_prev();
                StepOutcome { quit: false, action: to_action(d) }
            } else {
                StepOutcome { quit: false, action: StepAction::DoNothing }
            }
        },
        Command::CursorBackward => {
            state.cursor_backward();
            StepOutcome { quit: false, action: StepAction::DoNothing }
        },
        Command::CursorForward => {
            state.cursor_forward();
            StepOutcome { quit: false, action: StepAction::DoNothing }
        },
        Command::InsertChar(c) => {
            state.char_add(c);
            let d = state.switch_session(false);
            StepOutcome { quit: false, action: to_action(d) }
        },
        Command::DeleteBackward => {
            let had = state.cursor_pos() > 0;
            state.char_delete_backward();
            if had {
                let d = state.switch_session(false);
                StepOutcome { quit: false, action: to_action(d) }
            } else {
                StepOutcome { quit: false, action: StepAction::DoNothing }
            }
        },
        Command::DeleteForward => {
            let had = state.cursor_pos() < state.pattern.len();
            state.char_delete_forward();
            if had {
                let d = state.switch_session(false);
                StepOutcome { quit: false, action: to_action(d) }
            } else {
                StepOutcome { quit: false, action: StepAction::DoNothing }
            }
        },
        Command::Abort => StepOutcome { quit: true, action: StepAction::SwitchToInitial },
        Command::Confirm => {
            let (selected, d) = state.confirm();
            StepOutcome { quit: selected, action: to_action(d) }
        },
        Command::Noop => StepOutcome { quit: false, action: StepAction::DoNothing },
    }
}

} // verus!
