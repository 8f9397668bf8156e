use vstd::prelude::*;

verus! {

/// A key press, as far as the editor tells keys apart.
#[derive(Clone, Copy, Debug, PartialEq, Eq, Structural)]
pub enum Key {
    Backspace,
    Left,
    Right,
    Up,
    Down,
    Home,
    End,
    PageUp,
    PageDown,
    Delete,
    /// A character key; Enter is `Char('\n')`.
    Char(char),
    /// A character key pressed together with Ctrl.
    Ctrl(char),
    Esc,
    /// Any key the editor has no use for.
    Other,
}

} // verus!
