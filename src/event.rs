//! Events funnelled through the main loop, with keys in a normalized form.
use vstd::prelude::*;

verus! {

/// The key of a key press.
#[derive(Debug, Clone, Copy, PartialEq, Eq, Structural)]
pub enum KeyCode {
    Char(char),
    Esc,
    Enter,
    Backspace,
    Tab,
    Up,
    Down,
    PageUp,
    PageDown,
    /// Any key the dashboard has no binding for.
    Other,
}

/// The modifier keys held during a key press.
#[derive(Debug, Clone, Copy, PartialEq, Eq, Structural)]
pub enum Modifiers {
    /// No modifier at all.
    Plain,
    /// Control and nothing else.
    Control,
    /// Any other combination.
    Other,
}

/// A normalized key press.
#[derive(Debug, Clone, Copy, PartialEq, Eq, Structural)]
pub struct KeyPress {
    pub code: KeyCode,
    pub mods: Modifiers,
}

/// All events funnelled through the main loop's channel.
#[derive(Debug, Clone, Copy, PartialEq, Eq, Structural)]
pub enum AppEvent {
    /// A keypress from the keyboard-reading thread.
    Key(KeyPress),
    /// The filesystem watcher detected a change (debounced).
    FsChange,
    /// The terminal was resized — triggers a re-render.
    Resize,
}

} // verus!
