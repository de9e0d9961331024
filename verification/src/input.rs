//! Key -> [`Action`] mapping.
//!
//! Pure and mode-aware: in text-entry mode keys feed the line buffer;
//! otherwise they drive navigation and editing. Keys are described by
//! the library's own [`KeyEvent`]; the terminal layer converts its key
//! events into it.

use vstd::prelude::*;

verus! {

/// A semantic action produced from a key press.
#[derive(Debug, Clone, Copy, PartialEq, Eq, Structural)]
pub enum Action {
    /// Nothing bound to this key.
    Unbound,
    // Navigation.
    PrevRow,
    NextRow,
    PrevComponent,
    NextComponent,
    // Editing the focused component.
    Increment,
    Decrement,
    // Row / mode toggles.
    ToggleExpand,
    ToggleSubField,
    ToggleMode,
    CopyPrevious,
    Distribute,
    ResetRow,
    // Text entry.
    BeginEdit,
    Char(char),
    Backspace,
    CommitEdit,
    CancelEdit,
    // Global.
    ToggleHelp,
    Write,
    WriteForce,
    Quit,
    QuitForce,
    // Confirmation prompt.
    ConfirmYes,
    ConfirmNo,
}

/// Which keymap applies.
#[derive(Debug, Clone, Copy, PartialEq, Eq, Structural)]
pub enum Context {
    Navigate,
    Editing,
    Confirm,
}

/// The key that was pressed.
#[derive(Debug, Clone, Copy, PartialEq, Eq, Structural)]
pub enum KeyCode {
    Char(char),
    Up,
    Down,
    Left,
    Right,
    Tab,
    BackTab,
    Enter,
    Esc,
    Backspace,
    Delete,
    Home,
    End,
    F(u8),
    /// Any other key.
    Other,
}

/// The modifier keys held with a key.
#[derive(Debug, Clone, Copy, PartialEq, Eq, Structural)]
pub struct KeyModifiers {
    pub shift: bool,
    pub control: bool,
}

impl KeyModifiers {
    /// No modifier.
    pub fn none() -> (m: Self)
        ensures
            !m.shift && !m.control,
    {
        KeyModifiers { shift: false, control: false }
    }

    /// Shift alone.
    pub fn shift() -> (m: Self)
        ensures
            m.shift && !m.control,
    {
        KeyModifiers { shift: true, control: false }
    }

    /// Control alone.
    pub fn control() -> (m: Self)
        ensures
            !m.shift && m.control,
    {
        KeyModifiers { shift: false, control: true }
    }
}

/// A key press: the key and its modifiers.
#[derive(Debug, Clone, Copy, PartialEq, Eq, Structural)]
pub struct KeyEvent {
    pub code: KeyCode,
    pub modifiers: KeyModifiers,
}

impl KeyEvent {
    pub fn new(code: KeyCode, modifiers: KeyModifiers) -> (k: Self)
        ensures
            k.code == code,
            k.modifiers == modifiers,
    {
        KeyEvent { code, modifiers }
    }
}

/// The action of a key in text entry.
pub open spec fn editing_action(key: KeyEvent) -> Action {
    match key.code {
        KeyCode::Char(c) => Action::Char(c),
        KeyCode::Backspace => Action::Backspace,
        KeyCode::Enter => Action::CommitEdit,
        KeyCode::Esc => Action::CancelEdit,
        _ => Action::Unbound,
    }
}

/// The action of a key outside text entry.
pub open spec fn navigate_action(key: KeyEvent) -> Action {
    let shift = key.modifiers.shift;
    if key.modifiers.control && key.code == KeyCode::Char('c') {
        // Ctrl-C always quits.
        Action::Quit
    } else {
        match key.code {
            KeyCode::Up => if shift { Action::Increment } else { Action::PrevRow },
            KeyCode::Down => if shift { Action::Decrement } else { Action::NextRow },
            KeyCode::Left => Action::PrevComponent,
            KeyCode::Right => Action::NextComponent,
            KeyCode::Tab => Action::ToggleExpand,
            KeyCode::Enter => Action::BeginEdit,
            KeyCode::Esc => Action::Quit,
            KeyCode::Char(c) => if c == 'k' {
                Action::PrevRow
            } else if c == 'j' {
                Action::NextRow
            } else if c == 'h' {
                Action::PrevComponent
            } else if c == 'l' {
                Action::NextComponent
            } else if c == '+' || c == 'K' {
                Action::Increment
            } else if c == '-' || c == 'J' {
                Action::Decrement
            } else if c == 't' {
                Action::ToggleSubField
            } else if c == 's' {
                Action::ToggleMode
            } else if c == 'c' {
                Action::CopyPrevious
            } else if c == '=' {
                Action::Distribute
            } else if c == 'd' {
                Action::ResetRow
            } else if c == 'e' {
                Action::BeginEdit
            } else if c == '?' {
                Action::ToggleHelp
            } else if c == 'w' {
                Action::Write
            } else if c == 'q' {
                Action::Quit
            } else {
                Action::Unbound
            },
            _ => Action::Unbound,
        }
    }
}

/// Map a key to an action. `editing` selects the text-entry keymap.
pub fn map(key: KeyEvent, editing: bool) -> (a: Action)
    ensures
        a == if editing { editing_action(key) } else { navigate_action(key) },
{
    if editing {
        return match key.code {
            KeyCode::Char(c) => Action::Char(c),
            KeyCode::Backspace => Action::Backspace,
            KeyCode::Enter => Action::CommitEdit,
            KeyCode::Esc => Action::CancelEdit,
            _ => Action::Unbound,
        };
    }
    // Ctrl-C always quits.
    if key.modifiers.control && key.code == KeyCode::Char('c') {
        return Action::Quit;
    }
    let shift = key.modifiers.shift;
    match key.code {
        KeyCode::Up => if shift {
            Action::Increment
        } else {
            Action::PrevRow
        },
        KeyCode::Down => if shift {
            Action::Decrement
        } else {
            Action::NextRow
        },
        KeyCode::Left => Action::PrevComponent,
        KeyCode::Right => Action::NextComponent,
        KeyCode::Tab => Action::ToggleExpand,
        KeyCode::Enter => Action::BeginEdit,
        KeyCode::Esc => Action::Quit,
        KeyCode::Char(c) => match c {
            'k' => Action::PrevRow,
            'j' => Action::NextRow,
            'h' => Action::PrevComponent,
            'l' => Action::NextComponent,
            '+' | 'K' => Action::Increment,
            '-' | 'J' => Action::Decrement,
            't' => Action::ToggleSubField,
            's' => Action::ToggleMode,
            'c' => Action::CopyPrevious,
            '=' => Action::Distribute,
            'd' => Action::ResetRow,
            'e' => Action::BeginEdit,
            '?' => Action::ToggleHelp,
            'w' => Action::Write,
            'q' => Action::Quit,
            _ => Action::Unbound,
        },
        _ => Action::Unbound,
    }
}

/// The action of a key at a confirmation prompt (`[y] yes  [n/Esc] no`).
pub open spec fn confirm_action(key: KeyEvent) -> Action {
    match key.code {
        KeyCode::Char(c) => if c == 'y' || c == 'Y' {
            Action::ConfirmYes
        } else if c == 'n' || c == 'N' {
            Action::ConfirmNo
        } else {
            Action::Unbound
        },
        KeyCode::Esc => Action::ConfirmNo,
        _ => Action::Unbound,
    }
}

/// The action of a key in the keymap of `context`: Ctrl-C is a hard
/// abort from every mode, `W` and `Q` force a write or a quit past the
/// confirmation prompt, and otherwise the mode's own keymap applies.
pub open spec fn context_action(key: KeyEvent, context: Context) -> Action {
    if key.modifiers.control && key.code == KeyCode::Char('c') {
        Action::QuitForce
    } else {
        match context {
            Context::Editing => editing_action(key),
            Context::Confirm => confirm_action(key),
            Context::Navigate => if key.code == KeyCode::Char('W') {
                Action::WriteForce
            } else if key.code == KeyCode::Char('Q') {
                Action::QuitForce
            } else {
                navigate_action(key)
            },
        }
    }
}

/// Map a key to an action in the keymap of `context`.
pub fn map_in(key: KeyEvent, context: Context) -> (a: Action)
    ensures
        a == context_action(key, context),
{
    if key.modifiers.control && key.code == KeyCode::Char('c') {
        return Action::QuitForce;
    }
    match context {
        Context::Editing => map(key, true),
        Context::Navigate => match key.code {
            KeyCode::Char('W') => Action::WriteForce,
            KeyCode::Char('Q') => Action::QuitForce,
            _ => map(key, false),
        },
        Context::Confirm => match key.code {
            KeyCode::Char(c) => match c {
                'y' | 'Y' => Action::ConfirmYes,
                'n' | 'N' => Action::ConfirmNo,
                _ => Action::Unbound,
            },
            KeyCode::Esc => Action::ConfirmNo,
            _ => Action::Unbound,
        },
    }
}

} // verus!
