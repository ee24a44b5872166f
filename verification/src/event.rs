//! The events that the dashboard is driven by, and what handling one of
//! them comes to.

use vstd::prelude::*;

verus! {

/// A key of the keyboard.
#[derive(Clone, Copy, Debug, PartialEq, Eq, Structural)]
pub enum KeyCode {
    Backspace,
    Enter,
    Left,
    Right,
    Up,
    Down,
    Home,
    End,
    PageUp,
    PageDown,
    Tab,
    BackTab,
    Delete,
    Insert,
    F(u8),
    Char(char),
    Null,
    Esc,
}

/// The modifier keys held down with a key or a mouse button.
#[derive(Clone, Copy, Debug, PartialEq, Eq, Structural)]
pub struct KeyModifiers {
    pub shift: bool,
    pub control: bool,
    pub alt: bool,
}

impl KeyModifiers {
    /// No modifier key.
    pub fn none() -> (r: KeyModifiers)
        ensures
            r == (KeyModifiers { shift: false, control: false, alt: false }),
    {
        KeyModifiers { shift: false, control: false, alt: false }
    }
}

/// What happened to a key.
#[derive(Clone, Copy, Debug, PartialEq, Eq, Structural)]
pub enum KeyEventKind {
    Press,
    Repeat,
    Release,
}

#[derive(Clone, Copy, Debug, PartialEq, Eq, Structural)]
pub struct KeyEvent {
    pub code: KeyCode,
    pub modifiers: KeyModifiers,
    pub kind: KeyEventKind,
}

#[derive(Clone, Copy, Debug, PartialEq, Eq, Structural)]
pub enum MouseButton {
    Left,
    Right,
    Middle,
}

/// What happened to the mouse.
#[derive(Clone, Copy, Debug, PartialEq, Eq, Structural)]
pub enum MouseEventKind {
    Down(MouseButton),
    Up(MouseButton),
    Drag(MouseButton),
    Moved,
    ScrollDown,
    ScrollUp,
    ScrollLeft,
    ScrollRight,
}

#[derive(Clone, Copy, Debug, PartialEq, Eq, Structural)]
pub struct MouseEvent {
    pub kind: MouseEventKind,
    pub column: u16,
    pub row: u16,
    pub modifiers: KeyModifiers,
}

impl MouseEvent {
    /// Where the pointer is: its column and its row.
    pub fn position(&self) -> (r: (u16, u16))
        ensures
            r == (self.column, self.row),
    {
        (self.column, self.row)
    }
}

/// What the terminal reports.
#[derive(Clone, Debug, PartialEq, Eq)]
pub enum TerminalEvent {
    Key(KeyEvent),
    Mouse(MouseEvent),
    Resize(u16, u16),
    FocusGained,
    FocusLost,
    Paste(String),
}

/// What the user did, as far as the dashboard takes note of it.
#[derive(Clone, Copy, Debug, PartialEq, Eq, Structural)]
pub enum UserEvent {
    Key(KeyEvent),
    Mouse(MouseEvent),
    Resize(u16, u16),
}

impl UserEvent {
    /// The press of the key `code` with no modifier key.
    pub fn from_key(code: KeyCode) -> (r: UserEvent)
        ensures
            r == UserEvent::Key(
                KeyEvent {
                    code,
                    modifiers: KeyModifiers { shift: false, control: false, alt: false },
                    kind: KeyEventKind::Press,
                },
            ),
    {
        UserEvent::Key(KeyEvent { code, modifiers: KeyModifiers::none(), kind: KeyEventKind::Press })
    }

    /// The press of the key that types `c`.
    pub fn from_char(c: char) -> (r: UserEvent)
        ensures
            r == UserEvent::Key(
                KeyEvent {
                    code: KeyCode::Char(c),
                    modifiers: KeyModifiers { shift: false, control: false, alt: false },
                    kind: KeyEventKind::Press,
                },
            ),
    {
        UserEvent::from_key(KeyCode::Char(c))
    }
}

/// What the dashboard takes note of among the reports of the terminal: a
/// key that is pressed or held, the mouse, and a new size. The release of
/// a key, the focus and pasted text are passed over.
pub open spec fn noted(ev: TerminalEvent) -> Option<UserEvent> {
    match ev {
        TerminalEvent::Key(key) => if key.kind == KeyEventKind::Release {
            None
        } else {
            Some(UserEvent::Key(key))
        },
        TerminalEvent::Mouse(mouse) => Some(UserEvent::Mouse(mouse)),
        TerminalEvent::Resize(w, h) => Some(UserEvent::Resize(w, h)),
        TerminalEvent::FocusGained => None,
        TerminalEvent::FocusLost => None,
        TerminalEvent::Paste(_) => None,
    }
}

/// The event to hand on for a report of the terminal, if any.
pub fn read_key(ev: &TerminalEvent) -> (r: Option<UserEvent>)
    ensures
        r == noted(*ev),
{
    match ev {
        TerminalEvent::Key(key) => match key.kind {
            KeyEventKind::Release => None,
            _ => Some(UserEvent::Key(*key)),
        },
        TerminalEvent::Mouse(mouse) => Some(UserEvent::Mouse(*mouse)),
        TerminalEvent::Resize(w, h) => Some(UserEvent::Resize(*w, *h)),
        TerminalEvent::FocusGained => None,
        TerminalEvent::FocusLost => None,
        TerminalEvent::Paste(_) => None,
    }
}

/// What handling an event came to.
#[derive(Clone, Copy, Debug, PartialEq, Eq, Structural)]
pub enum EventResult {
    /// The event was handled; nothing is left to do.
    Nop,
    /// The event meant nothing to who got it.
    Ignore,
    /// The event asks for the action with this number, which the program
    /// around the dashboard knows how to carry out.
    Callback(usize),
    /// The event asks this of the main loop.
    Window(WindowEvent),
}

/// What the main loop is asked to do next.
#[derive(Clone, Copy, Debug, PartialEq, Eq, Structural)]
pub enum WindowEvent {
    CloseWindow,
    Continue,
    ResizeWindow(u16, u16),
    /// Carry out the action with this number.
    Callback(usize),
}

} // verus!
