//! The host keys the C64 keyboard matrix understands.
use vstd::prelude::*;

verus! {

/// A key of the host keyboard that stands for a key of the C64, named after
/// the host key (`Caret` is the key that types `^`).
#[derive(Debug, Clone, Copy, PartialEq, Eq, Structural)]
pub enum HostKey {
    Delete,
    Enter,
    ArrowRight,
    F7,
    F1,
    F3,
    F5,
    ArrowDown,
    Digit3,
    KeyW,
    KeyA,
    Digit4,
    KeyZ,
    KeyS,
    KeyE,
    ShiftLeft,
    Digit5,
    KeyR,
    KeyD,
    Digit6,
    KeyC,
    KeyF,
    KeyT,
    KeyX,
    Digit7,
    KeyY,
    KeyG,
    Digit8,
    KeyB,
    KeyH,
    KeyU,
    KeyV,
    Digit9,
    KeyI,
    KeyJ,
    Digit0,
    KeyM,
    KeyK,
    KeyO,
    KeyN,
    NumpadAdd,
    KeyP,
    KeyL,
    Caret,
    Period,
    Semicolon,
    Quote,
    Comma,
    NumpadStar,
    Backquote,
    ShiftRight,
    IntlRo,
    Minus,
    Digit1,
    ControlLeft,
    Digit2,
    Space,
    AltLeft,
    KeyQ,
    Tab,
}

/// The row and column of the keyboard matrix that `key` closes.
pub open spec fn key_position(key: HostKey) -> (usize, usize) {
    match key {
        HostKey::Delete => (0, 0),
        HostKey::Enter => (0, 1),
        HostKey::ArrowRight => (0, 2),
        HostKey::F7 => (0, 3),
        HostKey::F1 => (0, 4),
        HostKey::F3 => (0, 5),
        HostKey::F5 => (0, 6),
        HostKey::ArrowDown => (0, 7),
        HostKey::Digit3 => (1, 0),
        HostKey::KeyW => (1, 1),
        HostKey::KeyA => (1, 2),
        HostKey::Digit4 => (1, 3),
        HostKey::KeyZ => (1, 4),
        HostKey::KeyS => (1, 5),
        HostKey::KeyE => (1, 6),
        HostKey::ShiftLeft => (1, 7),
        HostKey::Digit5 => (2, 0),
        HostKey::KeyR => (2, 1),
        HostKey::KeyD => (2, 2),
        HostKey::Digit6 => (2, 3),
        HostKey::KeyC => (2, 4),
        HostKey::KeyF => (2, 5),
        HostKey::KeyT => (2, 6),
        HostKey::KeyX => (2, 7),
        HostKey::Digit7 => (3, 0),
        HostKey::KeyY => (3, 1),
        HostKey::KeyG => (3, 2),
        HostKey::Digit8 => (3, 3),
        HostKey::KeyB => (3, 4),
        HostKey::KeyH => (3, 5),
        HostKey::KeyU => (3, 6),
        HostKey::KeyV => (3, 7),
        HostKey::Digit9 => (4, 0),
        HostKey::KeyI => (4, 1),
        HostKey::KeyJ => (4, 2),
        HostKey::Digit0 => (4, 3),
        HostKey::KeyM => (4, 4),
        HostKey::KeyK => (4, 5),
        HostKey::KeyO => (4, 6),
        HostKey::KeyN => (4, 7),
        HostKey::NumpadAdd => (5, 0),
        HostKey::KeyP => (5, 1),
        HostKey::KeyL => (5, 2),
        HostKey::Caret => (5, 3),
        HostKey::Period => (5, 4),
        HostKey::Semicolon => (5, 5),
        HostKey::Quote => (5, 6),
        HostKey::Comma => (5, 7),
        HostKey::NumpadStar => (6, 1),
        HostKey::Backquote => (6, 3),
        HostKey::ShiftRight => (6, 4),
        HostKey::IntlRo => (6, 5),
        HostKey::Minus => (6, 7),
        HostKey::Digit1 => (7, 0),
        HostKey::ControlLeft => (7, 2),
        HostKey::Digit2 => (7, 3),
        HostKey::Space => (7, 4),
        HostKey::AltLeft => (7, 5),
        HostKey::KeyQ => (7, 6),
        HostKey::Tab => (7, 7),
    }
}

/// The row and column of the keyboard matrix that `key` closes.
pub fn matrix_position(key: HostKey) -> (r: (usize, usize))
    ensures
        r == key_position(key),
        r.0 < 8,
        r.1 < 8,
{
    match key {
        HostKey::Delete => (0, 0),
        HostKey::Enter => (0, 1),
        HostKey::ArrowRight => (0, 2),
        HostKey::F7 => (0, 3),
        HostKey::F1 => (0, 4),
        HostKey::F3 => (0, 5),
        HostKey::F5 => (0, 6),
        HostKey::ArrowDown => (0, 7),
        HostKey::Digit3 => (1, 0),
        HostKey::KeyW => (1, 1),
        HostKey::KeyA => (1, 2),
        HostKey::Digit4 => (1, 3),
        HostKey::KeyZ => (1, 4),
        HostKey::KeyS => (1, 5),
        HostKey::KeyE => (1, 6),
        HostKey::ShiftLeft => (1, 7),
        HostKey::Digit5 => (2, 0),
        HostKey::KeyR => (2, 1),
        HostKey::KeyD => (2, 2),
        HostKey::Digit6 => (2, 3),
        HostKey::KeyC => (2, 4),
        HostKey::KeyF => (2, 5),
        HostKey::KeyT => (2, 6),
        HostKey::KeyX => (2, 7),
        HostKey::Digit7 => (3, 0),
        HostKey::KeyY => (3, 1),
        HostKey::KeyG => (3, 2),
        HostKey::Digit8 => (3, 3),
        HostKey::KeyB => (3, 4),
        HostKey::KeyH => (3, 5),
        HostKey::KeyU => (3, 6),
        HostKey::KeyV => (3, 7),
        HostKey::Digit9 => (4, 0),
        HostKey::KeyI => (4, 1),
        HostKey::KeyJ => (4, 2),
        HostKey::Digit0 => (4, 3),
        HostKey::KeyM => (4, 4),
        HostKey::KeyK => (4, 5),
        HostKey::KeyO => (4, 6),
        HostKey::KeyN => (4, 7),
        HostKey::NumpadAdd => (5, 0),
        HostKey::KeyP => (5, 1),
        HostKey::KeyL => (5, 2),
        HostKey::Caret => (5, 3),
        HostKey::Period => (5, 4),
        HostKey::Semicolon => (5, 5),
        HostKey::Quote => (5, 6),
        HostKey::Comma => (5, 7),
        HostKey::NumpadStar => (6, 1),
        HostKey::Backquote => (6, 3),
        HostKey::ShiftRight => (6, 4),
        HostKey::IntlRo => (6, 5),
        HostKey::Minus => (6, 7),
        HostKey::Digit1 => (7, 0),
        HostKey::ControlLeft => (7, 2),
        HostKey::Digit2 => (7, 3),
        HostKey::Space => (7, 4),
        HostKey::AltLeft => (7, 5),
        HostKey::KeyQ => (7, 6),
        HostKey::Tab => (7, 7),
    }
}


/// No two host keys close the same switch of the keyboard matrix.
#[verifier::spinoff_prover]
pub proof fn lemma_keys_distinct(k1: HostKey, k2: HostKey)
    requires
        key_position(k1) == key_position(k2),
    ensures
        k1 == k2,
{
    match k1 {
        HostKey::Delete => {},
        HostKey::Enter => {},
        HostKey::ArrowRight => {},
        HostKey::F7 => {},
        HostKey::F1 => {},
        HostKey::F3 => {},
        HostKey::F5 => {},
        HostKey::ArrowDown => {},
        HostKey::Digit3 => {},
        HostKey::KeyW => {},
        HostKey::KeyA => {},
        HostKey::Digit4 => {},
        HostKey::KeyZ => {},
        HostKey::KeyS => {},
        HostKey::KeyE => {},
        HostKey::ShiftLeft => {},
        HostKey::Digit5 => {},
        HostKey::KeyR => {},
        HostKey::KeyD => {},
        HostKey::Digit6 => {},
        HostKey::KeyC => {},
        HostKey::KeyF => {},
        HostKey::KeyT => {},
        HostKey::KeyX => {},
        HostKey::Digit7 => {},
        HostKey::KeyY => {},
        HostKey::KeyG => {},
        HostKey::Digit8 => {},
        HostKey::KeyB => {},
        HostKey::KeyH => {},
        HostKey::KeyU => {},
        HostKey::KeyV => {},
        HostKey::Digit9 => {},
        HostKey::KeyI => {},
        HostKey::KeyJ => {},
        HostKey::Digit0 => {},
        HostKey::KeyM => {},
        HostKey::KeyK => {},
        HostKey::KeyO => {},
        HostKey::KeyN => {},
        HostKey::NumpadAdd => {},
        HostKey::KeyP => {},
        HostKey::KeyL => {},
        HostKey::Caret => {},
        HostKey::Period => {},
        HostKey::Semicolon => {},
        HostKey::Quote => {},
        HostKey::Comma => {},
        HostKey::NumpadStar => {},
        HostKey::Backquote => {},
        HostKey::ShiftRight => {},
        HostKey::IntlRo => {},
        HostKey::Minus => {},
        HostKey::Digit1 => {},
        HostKey::ControlLeft => {},
        HostKey::Digit2 => {},
        HostKey::Space => {},
        HostKey::AltLeft => {},
        HostKey::KeyQ => {},
        HostKey::Tab => {},
    }
}

} // verus!
