//! The raw stimulus set consumed by the dispatch loop, and the plain models
//! of the terminal's input events.
//!
//! Event producers translate device input into these values and enqueue
//! them; producers never mutate UI state.

use vstd::prelude::*;

verus! {

/// A key on the keyboard, as reported by the input device.
#[derive(Debug, Clone, Copy, PartialEq, Eq, Structural)]
pub enum KeyCode {
    Backspace,
    Enter,
    Left,
    Right,
    Up,
    Down,
    Home,
    End,
    PageUp,
    PageDown,
    Tab,
    BackTab,
    Delete,
    Insert,
    F(u8),
    Char(char),
    Null,
    Esc,
    CapsLock,
    ScrollLock,
    NumLock,
    PrintScreen,
    Pause,
    Menu,
    KeypadBegin,
    Unsupported,
}

/// The modifier keys held during a key event.
#[derive(Debug, Clone, Copy, PartialEq, Eq, Structural)]
pub struct KeyModifiers {
    pub shift: bool,
    pub alt: bool,
    pub control: bool,
}

impl KeyModifiers {
    /// No modifier held.
    pub fn none() -> (r: KeyModifiers)
        ensures
            !r.shift && !r.alt && !r.control,
    {
        KeyModifiers { shift: false, alt: false, control: false }
    }
}

/// Whether a key was pressed, released, or held until repeat.
#[derive(Debug, Clone, Copy, PartialEq, Eq, Structural)]
pub enum KeyEventKind {
    Press,
    Release,
    Repeat,
}

/// One keyboard event: a key, the modifiers held, and the kind of stroke.
#[derive(Debug, Clone, Copy, PartialEq, Eq, Structural)]
pub struct KeyEvent {
    pub code: KeyCode,
    pub modifiers: KeyModifiers,
    pub kind: KeyEventKind,
}

impl KeyEvent {
    pub fn new(code: KeyCode, modifiers: KeyModifiers, kind: KeyEventKind) -> (r: KeyEvent)
        ensures
            r.code == code,
            r.modifiers == modifiers,
            r.kind == kind,
    {
        KeyEvent { code, modifiers, kind }
    }
}

/// One mouse event: the cell it points at and the modifiers held.
#[derive(Debug, Clone, Copy, PartialEq, Eq, Structural)]
pub struct MouseEvent {
    pub column: u16,
    pub row: u16,
    pub modifiers: KeyModifiers,
}

/// A raw stimulus for the dispatch loop. Immutable and cheap to copy.
#[derive(Debug, Clone, Copy, PartialEq, Eq, Structural)]
pub enum Event {
    /// The application was asked to terminate.
    Quit,
    /// A keyboard event arrived.
    Key(KeyEvent),
    /// A mouse event arrived.
    Mouse(MouseEvent),
    /// The screen was resized to the given width and height.
    Resize(u16, u16),
    /// The application heartbeat fired.
    AppTick,
    /// The render heartbeat fired.
    RenderTick,
    /// The input stream failed.
    Error,
}

/// The coarse application-level happenings, as a plain enumeration.
#[derive(Debug, Clone, Copy, PartialEq, Eq, Structural)]
pub enum AppEvent {
    Tick,
    Init,
    Quit,
    Error,
}

/// The raw feed from the terminal device, modeled as plain values. The
/// input producer translates these into [`Event`]s.
#[derive(Debug, PartialEq, Eq)]
pub enum TerminalEvent {
    FocusGained,
    FocusLost,
    Key(KeyEvent),
    Mouse(MouseEvent),
    Paste(String),
    Resize(u16, u16),
    Unsupported,
}

/// The interrupt chord that asks the application to terminate: control-c,
/// pressed.
pub open spec fn is_quit_chord(k: KeyEvent) -> bool {
    k.code == KeyCode::Char('c') && k.modifiers.control && k.kind is Press
}

/// Translates one raw terminal event into the event the producer enqueues,
/// or `None` for events the runtime ignores.
///
/// The interrupt chord becomes `Quit`; other key events, mouse events and
/// resizes pass through; focus changes, pastes and unsupported input are
/// ignored.
pub fn translate_terminal_event(te: &TerminalEvent) -> (r: Option<Event>)
    ensures
        match *te {
            TerminalEvent::Key(k) => if is_quit_chord(k) {
                r == Some(Event::Quit)
            } else {
                r == Some(Event::Key(k))
            },
            TerminalEvent::Mouse(m) => r == Some(Event::Mouse(m)),
            TerminalEvent::Resize(w, h) => r == Some(Event::Resize(w, h)),
            TerminalEvent::FocusGained => r is None,
            TerminalEvent::FocusLost => r is None,
            TerminalEvent::Paste(_) => r is None,
            TerminalEvent::Unsupported => r is None,
        },
{
    match te {
        TerminalEvent::Key(k) => {
            let quit = match k.code {
                KeyCode::Char(c) => c == 'c' && k.modifiers.control && match k.kind {
                    KeyEventKind::Press => true,
                    _ => false,
                },
                _ => false,
            };
            if quit {
                Some(Event::Quit)
            } else {
                Some(Event::Key(*k))
            }
        },
        TerminalEvent::Mouse(m) => Some(Event::Mouse(*m)),
        TerminalEvent::Resize(w, h) => Some(Event::Resize(*w, *h)),
        TerminalEvent::FocusGained => None,
        TerminalEvent::FocusLost => None,
        TerminalEvent::Paste(_) => None,
        TerminalEvent::Unsupported => None,
    }
}

} // verus!
