//! What the player does, as the game sees it: keys and clicks, free of any
//! terminal library.

use vstd::prelude::*;

verus! {

/// A key.
#[derive(Clone, Copy, Debug, PartialEq, Eq)]
pub enum Key {
    Up,
    Down,
    Left,
    Right,
    Enter,
    Esc,
    Char(char),
    Other,
}

/// The modifier keys held down with a key.
#[derive(Clone, Copy, Debug, PartialEq, Eq)]
pub struct Modifiers {
    pub shift: bool,
    pub control: bool,
    pub alt: bool,
    pub logo: bool,
    pub hyper: bool,
    pub meta: bool,
}

impl Modifiers {
    /// Control is held down, and nothing else.
    pub open spec fn is_control(self) -> bool {
        self.control && !self.shift && !self.alt && !self.logo && !self.hyper && !self.meta
    }
}

/// A button of the pointer.
#[derive(Clone, Copy, Debug, PartialEq, Eq)]
pub enum Button {
    Left,
    Right,
    Other,
}

/// What the pointer did.
#[derive(Clone, Copy, Debug, PartialEq, Eq)]
pub enum PointerKind {
    Down(Button),
    Moved,
    Other,
}

/// An event from the terminal.
#[derive(Clone, Copy, Debug, PartialEq, Eq)]
pub enum InputEvent {
    /// A key was pressed.
    KeyPress { code: Key, modifiers: Modifiers },
    /// The pointer did something at a column and row of the terminal.
    Pointer { kind: PointerKind, column: u16, row: u16 },
    /// The terminal changed its size.
    Resize,
    /// Anything else.
    Other,
}

impl InputEvent {
    /// The event asks to leave the program: escape, or `c` with control.
    pub open spec fn asks_exit(self) -> bool {
        match self {
            InputEvent::KeyPress { code: Key::Esc, .. } => true,
            InputEvent::KeyPress { code: Key::Char(c), modifiers } => c == 'c'
                && modifiers.is_control(),
            _ => false,
        }
    }

    /// The event asks to play the board again: `r`.
    pub open spec fn asks_restart(self) -> bool {
        self matches InputEvent::KeyPress { code: Key::Char(c), .. } && c == 'r'
    }

    /// The event asks for the main menu: `m`.
    pub open spec fn asks_menu(self) -> bool {
        self matches InputEvent::KeyPress { code: Key::Char(c), .. } && c == 'm'
    }
}

/// Tells whether the event asks to leave the program.
pub fn should_exit(event: &InputEvent) -> (exit: bool)
    ensures
        exit == event.asks_exit(),
{
    match event {
        InputEvent::KeyPress { code: Key::Esc, .. } => true,
        InputEvent::KeyPress { code: Key::Char(c), modifiers } => *c == 'c' && modifiers.control
            && !modifiers.shift && !modifiers.alt && !modifiers.logo && !modifiers.hyper
            && !modifiers.meta,
        _ => false,
    }
}

/// Tells whether the event asks to play the board again.
pub fn should_restart(event: &InputEvent) -> (restart: bool)
    ensures
        restart == event.asks_restart(),
{
    match event {
        InputEvent::KeyPress { code: Key::Char(c), .. } => *c == 'r',
        _ => false,
    }
}

/// Tells whether the event asks for the main menu.
pub fn should_menu(event: &InputEvent) -> (menu: bool)
    ensures
        menu == event.asks_menu(),
{
    match event {
        InputEvent::KeyPress { code: Key::Char(c), .. } => *c == 'm',
        _ => false,
    }
}

} // verus!
