//! Hardware keyboard scancodes and the plain input vocabulary shared with
//! the platform stage.
//!
//! [`ScanCode`] follows the USB HID usage tables; the per-platform maps
//! translate the raw codes that each operating system reports.

use vstd::prelude::*;

verus! {

/// A hardware keyboard key, named after the USB HID usage tables.
#[derive(Debug, Copy, Clone, Eq, PartialEq, Structural, Hash)]
pub enum ScanCode {
    A,
    B,
    C,
    D,
    E,
    F,
    G,
    H,
    I,
    J,
    K,
    L,
    N,
    M,
    O,
    P,
    Q,
    R,
    S,
    T,
    U,
    V,
    W,
    X,
    Y,
    Z,
    Num1,
    Num2,
    Num3,
    Num4,
    Num5,
    Num6,
    Num7,
    Num8,
    Num9,
    Num0,
    Enter,
    Escape,
    Backspace,
    Tab,
    Space,
    Minus,
    Equals,
    LeftBracket,
    RightBracket,
    Backslash,
    NonUsHash,
    Semicolon,
    Apostrophe,
    Grave,
    Comma,
    Period,
    Slash,
    CapsLock,
    F1,
    F2,
    F3,
    F4,
    F5,
    F6,
    F7,
    F8,
    F9,
    F10,
    F11,
    F12,
    PrintScreen,
    ScrollLock,
    Pause,
    Insert,
    Home,
    PageUp,
    Delete,
    End,
    PageDown,
    Right,
    Left,
    Down,
    Up,
    NumLock,
    PadDivide,
    PadMultiply,
    PadMinus,
    PadPlus,
    PadEnter,
    Pad1,
    Pad2,
    Pad3,
    Pad4,
    Pad5,
    Pad6,
    Pad7,
    Pad8,
    Pad9,
    Pad0,
    PadDecimal,
    NonUsBackslash,
    PadEquals,
    Menu,
    Mute,
    VolumeUp,
    VolumeDown,
    SysReq,
    LeftControl,
    LeftShift,
    LeftAlt,
    LeftGui,
    RightControl,
    RightShift,
    RightAlt,
    RightGui,
}

/// The USB HID usage code of a key.
pub open spec fn usb_hid_code(s: ScanCode) -> u32 {
    match s {
        ScanCode::A => 4,
        ScanCode::B => 5,
        ScanCode::C => 6,
        ScanCode::D => 7,
        ScanCode::E => 8,
        ScanCode::F => 9,
        ScanCode::G => 10,
        ScanCode::H => 11,
        ScanCode::I => 12,
        ScanCode::J => 13,
        ScanCode::K => 14,
        ScanCode::L => 15,
        ScanCode::N => 16,
        ScanCode::M => 17,
        ScanCode::O => 18,
        ScanCode::P => 19,
        ScanCode::Q => 20,
        ScanCode::R => 21,
        ScanCode::S => 22,
        ScanCode::T => 23,
        ScanCode::U => 24,
        ScanCode::V => 25,
        ScanCode::W => 26,
        ScanCode::X => 27,
        ScanCode::Y => 28,
        ScanCode::Z => 29,
        ScanCode::Num1 => 30,
        ScanCode::Num2 => 31,
        ScanCode::Num3 => 32,
        ScanCode::Num4 => 33,
        ScanCode::Num5 => 34,
        ScanCode::Num6 => 35,
        ScanCode::Num7 => 36,
        ScanCode::Num8 => 37,
        ScanCode::Num9 => 38,
        ScanCode::Num0 => 39,
        ScanCode::Enter => 40,
        ScanCode::Escape => 41,
        ScanCode::Backspace => 42,
        ScanCode::Tab => 43,
        ScanCode::Space => 44,
        ScanCode::Minus => 45,
        ScanCode::Equals => 46,
        ScanCode::LeftBracket => 47,
        ScanCode::RightBracket => 48,
        ScanCode::Backslash => 49,
        ScanCode::NonUsHash => 50,
        ScanCode::Semicolon => 51,
        ScanCode::Apostrophe => 52,
        ScanCode::Grave => 53,
        ScanCode::Comma => 54,
        ScanCode::Period => 55,
        ScanCode::Slash => 56,
        ScanCode::CapsLock => 57,
        ScanCode::F1 => 58,
        ScanCode::F2 => 59,
        ScanCode::F3 => 60,
        ScanCode::F4 => 61,
        ScanCode::F5 => 62,
        ScanCode::F6 => 63,
        ScanCode::F7 => 64,
        ScanCode::F8 => 65,
        ScanCode::F9 => 66,
        ScanCode::F10 => 67,
        ScanCode::F11 => 68,
        ScanCode::F12 => 69,
        ScanCode::PrintScreen => 70,
        ScanCode::ScrollLock => 71,
        ScanCode::Pause => 72,
        ScanCode::Insert => 73,
        ScanCode::Home => 74,
        ScanCode::PageUp => 75,
        ScanCode::Delete => 76,
        ScanCode::End => 77,
        ScanCode::PageDown => 78,
        ScanCode::Right => 79,
        ScanCode::Left => 80,
        ScanCode::Down => 81,
        ScanCode::Up => 82,
        ScanCode::NumLock => 83,
        ScanCode::PadDivide => 84,
        ScanCode::PadMultiply => 85,
        ScanCode::PadMinus => 86,
        ScanCode::PadPlus => 87,
        ScanCode::PadEnter => 88,
        ScanCode::Pad1 => 89,
        ScanCode::Pad2 => 90,
        ScanCode::Pad3 => 91,
        ScanCode::Pad4 => 92,
        ScanCode::Pad5 => 93,
        ScanCode::Pad6 => 94,
        ScanCode::Pad7 => 95,
        ScanCode::Pad8 => 96,
        ScanCode::Pad9 => 97,
        ScanCode::Pad0 => 98,
        ScanCode::PadDecimal => 99,
        ScanCode::NonUsBackslash => 100,
        ScanCode::PadEquals => 103,
        ScanCode::Menu => 118,
        ScanCode::Mute => 127,
        ScanCode::VolumeUp => 128,
        ScanCode::VolumeDown => 129,
        ScanCode::SysReq => 154,
        ScanCode::LeftControl => 224,
        ScanCode::LeftShift => 225,
        ScanCode::LeftAlt => 226,
        ScanCode::LeftGui => 227,
        ScanCode::RightControl => 228,
        ScanCode::RightShift => 229,
        ScanCode::RightAlt => 230,
        ScanCode::RightGui => 231,
    }
}

impl ScanCode {
    /// The key of a raw USB HID usage code. Hardware reports the usage in
    /// the code's low byte, so only that byte selects: the result is the
    /// unique key whose usage code equals it, if any key does.
    pub fn from_usb_hid(hardware_scancode: u32) -> (r: Option<ScanCode>)
        ensures
            match r {
                Some(s) => usb_hid_code(s) == hardware_scancode & 0xff,
                None => forall|s: ScanCode| usb_hid_code(s) != hardware_scancode & 0xff,
            },
    {
        let usage = hardware_scancode & 0xff;
        match usage {
            4 => Some(ScanCode::A),
            5 => Some(ScanCode::B),
            6 => Some(ScanCode::C),
            7 => Some(ScanCode::D),
            8 => Some(ScanCode::E),
            9 => Some(ScanCode::F),
            10 => Some(ScanCode::G),
            11 => Some(ScanCode::H),
            12 => Some(ScanCode::I),
            13 => Some(ScanCode::J),
            14 => Some(ScanCode::K),
            15 => Some(ScanCode::L),
            16 => Some(ScanCode::N),
            17 => Some(ScanCode::M),
            18 => Some(ScanCode::O),
            19 => Some(ScanCode::P),
            20 => Some(ScanCode::Q),
            21 => Some(ScanCode::R),
            22 => Some(ScanCode::S),
            23 => Some(ScanCode::T),
            24 => Some(ScanCode::U),
            25 => Some(ScanCode::V),
            26 => Some(ScanCode::W),
            27 => Some(ScanCode::X),
            28 => Some(ScanCode::Y),
            29 => Some(ScanCode::Z),
            30 => Some(ScanCode::Num1),
            31 => Some(ScanCode::Num2),
            32 => Some(ScanCode::Num3),
            33 => Some(ScanCode::Num4),
            34 => Some(ScanCode::Num5),
            35 => Some(ScanCode::Num6),
            36 => Some(ScanCode::Num7),
            37 => Some(ScanCode::Num8),
            38 => Some(ScanCode::Num9),
            39 => Some(ScanCode::Num0),
            40 => Some(ScanCode::Enter),
            41 => Some(ScanCode::Escape),
            42 => Some(ScanCode::Backspace),
            43 => Some(ScanCode::Tab),
            44 => Some(ScanCode::Space),
            45 => Some(ScanCode::Minus),
            46 => Some(ScanCode::Equals),
            47 => Some(ScanCode::LeftBracket),
            48 => Some(ScanCode::RightBracket),
            49 => Some(ScanCode::Backslash),
            50 => Some(ScanCode::NonUsHash),
            51 => Some(ScanCode::Semicolon),
            52 => Some(ScanCode::Apostrophe),
            53 => Some(ScanCode::Grave),
            54 => Some(ScanCode::Comma),
            55 => Some(ScanCode::Period),
            56 => Some(ScanCode::Slash),
            57 => Some(ScanCode::CapsLock),
            58 => Some(ScanCode::F1),
            59 => Some(ScanCode::F2),
            60 => Some(ScanCode::F3),
            61 => Some(ScanCode::F4),
            62 => Some(ScanCode::F5),
            63 => Some(ScanCode::F6),
            64 => Some(ScanCode::F7),
            65 => Some(ScanCode::F8),
            66 => Some(ScanCode::F9),
            67 => Some(ScanCode::F10),
            68 => Some(ScanCode::F11),
            69 => Some(ScanCode::F12),
            70 => Some(ScanCode::PrintScreen),
            71 => Some(ScanCode::ScrollLock),
            72 => Some(ScanCode::Pause),
            73 => Some(ScanCode::Insert),
            74 => Some(ScanCode::Home),
            75 => Some(ScanCode::PageUp),
            76 => Some(ScanCode::Delete),
            77 => Some(ScanCode::End),
            78 => Some(ScanCode::PageDown),
            79 => Some(ScanCode::Right),
            80 => Some(ScanCode::Left),
            81 => Some(ScanCode::Down),
            82 => Some(ScanCode::Up),
            83 => Some(ScanCode::NumLock),
            84 => Some(ScanCode::PadDivide),
            85 => Some(ScanCode::PadMultiply),
            86 => Some(ScanCode::PadMinus),
            87 => Some(ScanCode::PadPlus),
            88 => Some(ScanCode::PadEnter),
            89 => Some(ScanCode::Pad1),
            90 => Some(ScanCode::Pad2),
            91 => Some(ScanCode::Pad3),
            92 => Some(ScanCode::Pad4),
            93 => Some(ScanCode::Pad5),
            94 => Some(ScanCode::Pad6),
            95 => Some(ScanCode::Pad7),
            96 => Some(ScanCode::Pad8),
            97 => Some(ScanCode::Pad9),
            98 => Some(ScanCode::Pad0),
            99 => Some(ScanCode::PadDecimal),
            100 => Some(ScanCode::NonUsBackslash),
            103 => Some(ScanCode::PadEquals),
            118 => Some(ScanCode::Menu),
            127 => Some(ScanCode::Mute),
            128 => Some(ScanCode::VolumeUp),
            129 => Some(ScanCode::VolumeDown),
            154 => Some(ScanCode::SysReq),
            224 => Some(ScanCode::LeftControl),
            225 => Some(ScanCode::LeftShift),
            226 => Some(ScanCode::LeftAlt),
            227 => Some(ScanCode::LeftGui),
            228 => Some(ScanCode::RightControl),
            229 => Some(ScanCode::RightShift),
            230 => Some(ScanCode::RightAlt),
            231 => Some(ScanCode::RightGui),
            _ => None,
        }
    }

}

/// The key a raw Windows scancode names, if any.
pub open spec fn windows_scancode(c: u8) -> Option<ScanCode> {
    if c == 1 {
        Some(ScanCode::Escape)
    } else if c == 2 {
        Some(ScanCode::Num1)
    } else if c == 3 {
        Some(ScanCode::Num2)
    } else if c == 4 {
        Some(ScanCode::Num3)
    } else if c == 5 {
        Some(ScanCode::Num4)
    } else if c == 6 {
        Some(ScanCode::Num5)
    } else if c == 7 {
        Some(ScanCode::Num6)
    } else if c == 8 {
        Some(ScanCode::Num7)
    } else if c == 9 {
        Some(ScanCode::Num8)
    } else if c == 10 {
        Some(ScanCode::Num9)
    } else if c == 11 {
        Some(ScanCode::Num0)
    } else if c == 12 {
        Some(ScanCode::Minus)
    } else if c == 13 {
        Some(ScanCode::Equals)
    } else if c == 14 {
        Some(ScanCode::Backspace)
    } else if c == 15 {
        Some(ScanCode::Tab)
    } else if c == 16 {
        Some(ScanCode::Q)
    } else if c == 17 {
        Some(ScanCode::W)
    } else if c == 18 {
        Some(ScanCode::E)
    } else if c == 19 {
        Some(ScanCode::R)
    } else if c == 20 {
        Some(ScanCode::T)
    } else if c == 21 {
        Some(ScanCode::Y)
    } else if c == 22 {
        Some(ScanCode::U)
    } else if c == 23 {
        Some(ScanCode::I)
    } else if c == 24 {
        Some(ScanCode::O)
    } else if c == 25 {
        Some(ScanCode::P)
    } else if c == 26 {
        Some(ScanCode::LeftBracket)
    } else if c == 27 {
        Some(ScanCode::RightBracket)
    } else if c == 28 {
        Some(ScanCode::Enter)
    } else if c == 29 {
        Some(ScanCode::LeftControl)
    } else if c == 30 {
        Some(ScanCode::A)
    } else if c == 31 {
        Some(ScanCode::S)
    } else if c == 32 {
        Some(ScanCode::D)
    } else if c == 33 {
        Some(ScanCode::F)
    } else if c == 34 {
        Some(ScanCode::G)
    } else if c == 35 {
        Some(ScanCode::H)
    } else if c == 36 {
        Some(ScanCode::J)
    } else if c == 37 {
        Some(ScanCode::K)
    } else if c == 38 {
        Some(ScanCode::L)
    } else if c == 39 {
        Some(ScanCode::Semicolon)
    } else if c == 40 {
        Some(ScanCode::Apostrophe)
    } else if c == 41 {
        Some(ScanCode::Grave)
    } else if c == 42 {
        Some(ScanCode::LeftShift)
    } else if c == 43 {
        Some(ScanCode::Backslash)
    } else if c == 44 {
        Some(ScanCode::Z)
    } else if c == 45 {
        Some(ScanCode::X)
    } else if c == 46 {
        Some(ScanCode::C)
    } else if c == 47 {
        Some(ScanCode::V)
    } else if c == 48 {
        Some(ScanCode::B)
    } else if c == 49 {
        Some(ScanCode::N)
    } else if c == 50 {
        Some(ScanCode::M)
    } else if c == 51 {
        Some(ScanCode::Comma)
    } else if c == 52 {
        Some(ScanCode::Period)
    } else if c == 53 {
        Some(ScanCode::Slash)
    } else if c == 54 {
        Some(ScanCode::RightShift)
    } else if c == 55 {
        Some(ScanCode::PadMultiply)
    } else if c == 56 {
        Some(ScanCode::LeftAlt)
    } else if c == 57 {
        Some(ScanCode::Space)
    } else if c == 58 {
        Some(ScanCode::CapsLock)
    } else if c == 59 {
        Some(ScanCode::F1)
    } else if c == 60 {
        Some(ScanCode::F2)
    } else if c == 61 {
        Some(ScanCode::F3)
    } else if c == 62 {
        Some(ScanCode::F4)
    } else if c == 63 {
        Some(ScanCode::F5)
    } else if c == 64 {
        Some(ScanCode::F6)
    } else if c == 65 {
        Some(ScanCode::F7)
    } else if c == 66 {
        Some(ScanCode::F8)
    } else if c == 67 {
        Some(ScanCode::F9)
    } else if c == 68 {
        Some(ScanCode::F10)
    } else if c == 69 {
        Some(ScanCode::NumLock)
    } else if c == 70 {
        Some(ScanCode::ScrollLock)
    } else if c == 71 {
        Some(ScanCode::Home)
    } else if c == 72 {
        Some(ScanCode::Up)
    } else if c == 73 {
        Some(ScanCode::PageUp)
    } else if c == 74 {
        Some(ScanCode::PadMinus)
    } else if c == 75 {
        Some(ScanCode::Left)
    } else if c == 76 {
        Some(ScanCode::Pad5)
    } else if c == 77 {
        Some(ScanCode::Right)
    } else if c == 78 {
        Some(ScanCode::PadPlus)
    } else if c == 79 {
        Some(ScanCode::End)
    } else if c == 80 {
        Some(ScanCode::Down)
    } else if c == 81 {
        Some(ScanCode::PageDown)
    } else if c == 82 {
        Some(ScanCode::Insert)
    } else if c == 83 {
        Some(ScanCode::Delete)
    } else if c == 86 {
        Some(ScanCode::NonUsBackslash)
    } else if c == 87 {
        Some(ScanCode::F11)
    } else if c == 88 {
        Some(ScanCode::F12)
    } else if c == 89 {
        Some(ScanCode::Pause)
    } else if c == 91 {
        Some(ScanCode::LeftGui)
    } else if c == 92 {
        Some(ScanCode::RightGui)
    } else if c == 93 {
        Some(ScanCode::Menu)
    } else {
        None
    }
}

/// The key a raw Macos scancode names, if any.
pub open spec fn macos_scancode(c: u8) -> Option<ScanCode> {
    if c == 0 {
        Some(ScanCode::A)
    } else if c == 1 {
        Some(ScanCode::S)
    } else if c == 2 {
        Some(ScanCode::D)
    } else if c == 3 {
        Some(ScanCode::F)
    } else if c == 4 {
        Some(ScanCode::H)
    } else if c == 5 {
        Some(ScanCode::G)
    } else if c == 6 {
        Some(ScanCode::Z)
    } else if c == 7 {
        Some(ScanCode::X)
    } else if c == 8 {
        Some(ScanCode::C)
    } else if c == 9 {
        Some(ScanCode::V)
    } else if c == 10 {
        Some(ScanCode::NonUsBackslash)
    } else if c == 11 {
        Some(ScanCode::B)
    } else if c == 12 {
        Some(ScanCode::Q)
    } else if c == 13 {
        Some(ScanCode::W)
    } else if c == 14 {
        Some(ScanCode::E)
    } else if c == 15 {
        Some(ScanCode::R)
    } else if c == 16 {
        Some(ScanCode::Y)
    } else if c == 17 {
        Some(ScanCode::T)
    } else if c == 18 {
        Some(ScanCode::Num1)
    } else if c == 19 {
        Some(ScanCode::Num2)
    } else if c == 20 {
        Some(ScanCode::Num3)
    } else if c == 21 {
        Some(ScanCode::Num4)
    } else if c == 22 {
        Some(ScanCode::Num6)
    } else if c == 23 {
        Some(ScanCode::Num5)
    } else if c == 24 {
        Some(ScanCode::Equals)
    } else if c == 25 {
        Some(ScanCode::Num9)
    } else if c == 26 {
        Some(ScanCode::Num7)
    } else if c == 27 {
        Some(ScanCode::Minus)
    } else if c == 28 {
        Some(ScanCode::Num8)
    } else if c == 29 {
        Some(ScanCode::Num0)
    } else if c == 30 {
        Some(ScanCode::RightBracket)
    } else if c == 31 {
        Some(ScanCode::O)
    } else if c == 32 {
        Some(ScanCode::U)
    } else if c == 33 {
        Some(ScanCode::LeftBracket)
    } else if c == 34 {
        Some(ScanCode::I)
    } else if c == 35 {
        Some(ScanCode::P)
    } else if c == 36 {
        Some(ScanCode::Enter)
    } else if c == 37 {
        Some(ScanCode::L)
    } else if c == 38 {
        Some(ScanCode::J)
    } else if c == 39 {
        Some(ScanCode::Apostrophe)
    } else if c == 40 {
        Some(ScanCode::K)
    } else if c == 41 {
        Some(ScanCode::Semicolon)
    } else if c == 42 {
        Some(ScanCode::Backslash)
    } else if c == 43 {
        Some(ScanCode::Comma)
    } else if c == 44 {
        Some(ScanCode::Slash)
    } else if c == 45 {
        Some(ScanCode::N)
    } else if c == 46 {
        Some(ScanCode::M)
    } else if c == 47 {
        Some(ScanCode::Period)
    } else if c == 48 {
        Some(ScanCode::Tab)
    } else if c == 49 {
        Some(ScanCode::Space)
    } else if c == 50 {
        Some(ScanCode::Grave)
    } else if c == 51 {
        Some(ScanCode::Backspace)
    } else if c == 52 {
        Some(ScanCode::PadEnter)
    } else if c == 53 {
        Some(ScanCode::Escape)
    } else if c == 54 {
        Some(ScanCode::RightGui)
    } else if c == 55 {
        Some(ScanCode::LeftGui)
    } else if c == 56 {
        Some(ScanCode::LeftShift)
    } else if c == 57 {
        Some(ScanCode::CapsLock)
    } else if c == 58 {
        Some(ScanCode::LeftAlt)
    } else if c == 59 {
        Some(ScanCode::LeftControl)
    } else if c == 60 {
        Some(ScanCode::RightShift)
    } else if c == 61 {
        Some(ScanCode::RightAlt)
    } else if c == 62 {
        Some(ScanCode::RightControl)
    } else if c == 65 {
        Some(ScanCode::PadDecimal)
    } else if c == 67 {
        Some(ScanCode::PadMultiply)
    } else if c == 69 {
        Some(ScanCode::PadPlus)
    } else if c == 71 {
        Some(ScanCode::NumLock)
    } else if c == 72 {
        Some(ScanCode::VolumeUp)
    } else if c == 73 {
        Some(ScanCode::VolumeDown)
    } else if c == 74 {
        Some(ScanCode::Mute)
    } else if c == 75 {
        Some(ScanCode::PadDivide)
    } else if c == 76 {
        Some(ScanCode::PadEnter)
    } else if c == 78 {
        Some(ScanCode::PadMinus)
    } else if c == 81 {
        Some(ScanCode::PadEquals)
    } else if c == 82 {
        Some(ScanCode::Pad0)
    } else if c == 83 {
        Some(ScanCode::Pad1)
    } else if c == 84 {
        Some(ScanCode::Pad2)
    } else if c == 85 {
        Some(ScanCode::Pad3)
    } else if c == 86 {
        Some(ScanCode::Pad4)
    } else if c == 87 {
        Some(ScanCode::Pad5)
    } else if c == 88 {
        Some(ScanCode::Pad6)
    } else if c == 89 {
        Some(ScanCode::Pad7)
    } else if c == 91 {
        Some(ScanCode::Pad8)
    } else if c == 92 {
        Some(ScanCode::Pad9)
    } else if c == 96 {
        Some(ScanCode::F5)
    } else if c == 97 {
        Some(ScanCode::F6)
    } else if c == 98 {
        Some(ScanCode::F7)
    } else if c == 99 {
        Some(ScanCode::F3)
    } else if c == 100 {
        Some(ScanCode::F8)
    } else if c == 101 {
        Some(ScanCode::F9)
    } else if c == 103 {
        Some(ScanCode::F11)
    } else if c == 106 {
        Some(ScanCode::Pause)
    } else if c == 107 {
        Some(ScanCode::PrintScreen)
    } else if c == 109 {
        Some(ScanCode::F10)
    } else if c == 111 {
        Some(ScanCode::F12)
    } else if c == 113 {
        Some(ScanCode::ScrollLock)
    } else if c == 114 {
        Some(ScanCode::Insert)
    } else if c == 115 {
        Some(ScanCode::Home)
    } else if c == 116 {
        Some(ScanCode::PageUp)
    } else if c == 117 {
        Some(ScanCode::Delete)
    } else if c == 118 {
        Some(ScanCode::F4)
    } else if c == 119 {
        Some(ScanCode::End)
    } else if c == 120 {
        Some(ScanCode::F2)
    } else if c == 121 {
        Some(ScanCode::PageDown)
    } else if c == 122 {
        Some(ScanCode::F1)
    } else if c == 123 {
        Some(ScanCode::Left)
    } else if c == 124 {
        Some(ScanCode::Right)
    } else if c == 125 {
        Some(ScanCode::Down)
    } else if c == 126 {
        Some(ScanCode::Up)
    } else {
        None
    }
}

/// The key a raw Linux scancode names, if any.
pub open spec fn linux_scancode(c: u8) -> Option<ScanCode> {
    if c == 9 {
        Some(ScanCode::Escape)
    } else if c == 10 {
        Some(ScanCode::Num1)
    } else if c == 11 {
        Some(ScanCode::Num2)
    } else if c == 12 {
        Some(ScanCode::Num3)
    } else if c == 13 {
        Some(ScanCode::Num4)
    } else if c == 14 {
        Some(ScanCode::Num5)
    } else if c == 15 {
        Some(ScanCode::Num6)
    } else if c == 16 {
        Some(ScanCode::Num7)
    } else if c == 17 {
        Some(ScanCode::Num8)
    } else if c == 18 {
        Some(ScanCode::Num9)
    } else if c == 19 {
        Some(ScanCode::Num0)
    } else if c == 20 {
        Some(ScanCode::Minus)
    } else if c == 21 {
        Some(ScanCode::Equals)
    } else if c == 22 {
        Some(ScanCode::Backspace)
    } else if c == 23 {
        Some(ScanCode::Tab)
    } else if c == 24 {
        Some(ScanCode::Q)
    } else if c == 25 {
        Some(ScanCode::W)
    } else if c == 26 {
        Some(ScanCode::E)
    } else if c == 27 {
        Some(ScanCode::R)
    } else if c == 28 {
        Some(ScanCode::T)
    } else if c == 29 {
        Some(ScanCode::Y)
    } else if c == 30 {
        Some(ScanCode::U)
    } else if c == 31 {
        Some(ScanCode::I)
    } else if c == 32 {
        Some(ScanCode::O)
    } else if c == 33 {
        Some(ScanCode::P)
    } else if c == 34 {
        Some(ScanCode::LeftBracket)
    } else if c == 35 {
        Some(ScanCode::RightBracket)
    } else if c == 36 {
        Some(ScanCode::Enter)
    } else if c == 37 {
        Some(ScanCode::LeftControl)
    } else if c == 38 {
        Some(ScanCode::A)
    } else if c == 39 {
        Some(ScanCode::S)
    } else if c == 40 {
        Some(ScanCode::D)
    } else if c == 41 {
        Some(ScanCode::F)
    } else if c == 42 {
        Some(ScanCode::G)
    } else if c == 43 {
        Some(ScanCode::H)
    } else if c == 44 {
        Some(ScanCode::J)
    } else if c == 45 {
        Some(ScanCode::K)
    } else if c == 46 {
        Some(ScanCode::L)
    } else if c == 47 {
        Some(ScanCode::Semicolon)
    } else if c == 48 {
        Some(ScanCode::Apostrophe)
    } else if c == 49 {
        Some(ScanCode::Grave)
    } else if c == 50 {
        Some(ScanCode::LeftShift)
    } else if c == 51 {
        Some(ScanCode::Backslash)
    } else if c == 52 {
        Some(ScanCode::Z)
    } else if c == 53 {
        Some(ScanCode::X)
    } else if c == 54 {
        Some(ScanCode::C)
    } else if c == 55 {
        Some(ScanCode::V)
    } else if c == 56 {
        Some(ScanCode::B)
    } else if c == 57 {
        Some(ScanCode::N)
    } else if c == 58 {
        Some(ScanCode::M)
    } else if c == 59 {
        Some(ScanCode::Comma)
    } else if c == 60 {
        Some(ScanCode::Period)
    } else if c == 61 {
        Some(ScanCode::Slash)
    } else if c == 62 {
        Some(ScanCode::RightShift)
    } else if c == 63 {
        Some(ScanCode::PadMultiply)
    } else if c == 64 {
        Some(ScanCode::LeftAlt)
    } else if c == 65 {
        Some(ScanCode::Space)
    } else if c == 66 {
        Some(ScanCode::CapsLock)
    } else if c == 67 {
        Some(ScanCode::F1)
    } else if c == 68 {
        Some(ScanCode::F2)
    } else if c == 69 {
        Some(ScanCode::F3)
    } else if c == 70 {
        Some(ScanCode::F4)
    } else if c == 71 {
        Some(ScanCode::F5)
    } else if c == 72 {
        Some(ScanCode::F6)
    } else if c == 73 {
        Some(ScanCode::F7)
    } else if c == 74 {
        Some(ScanCode::F8)
    } else if c == 75 {
        Some(ScanCode::F9)
    } else if c == 76 {
        Some(ScanCode::F10)
    } else if c == 77 {
        Some(ScanCode::NumLock)
    } else if c == 78 {
        Some(ScanCode::ScrollLock)
    } else if c == 79 {
        Some(ScanCode::Pad7)
    } else if c == 80 {
        Some(ScanCode::Pad8)
    } else if c == 81 {
        Some(ScanCode::Pad9)
    } else if c == 82 {
        Some(ScanCode::PadMinus)
    } else if c == 83 {
        Some(ScanCode::Pad4)
    } else if c == 84 {
        Some(ScanCode::Pad5)
    } else if c == 85 {
        Some(ScanCode::Pad6)
    } else if c == 86 {
        Some(ScanCode::PadPlus)
    } else if c == 87 {
        Some(ScanCode::Pad1)
    } else if c == 88 {
        Some(ScanCode::Pad2)
    } else if c == 89 {
        Some(ScanCode::Pad3)
    } else if c == 90 {
        Some(ScanCode::Pad0)
    } else if c == 91 {
        Some(ScanCode::PadDecimal)
    } else if c == 94 {
        Some(ScanCode::NonUsBackslash)
    } else if c == 95 {
        Some(ScanCode::F11)
    } else if c == 96 {
        Some(ScanCode::F12)
    } else if c == 104 {
        Some(ScanCode::PadEnter)
    } else if c == 105 {
        Some(ScanCode::RightControl)
    } else if c == 106 {
        Some(ScanCode::PadDivide)
    } else if c == 107 {
        Some(ScanCode::SysReq)
    } else if c == 108 {
        Some(ScanCode::RightAlt)
    } else if c == 110 {
        Some(ScanCode::Home)
    } else if c == 111 {
        Some(ScanCode::Up)
    } else if c == 112 {
        Some(ScanCode::PageUp)
    } else if c == 113 {
        Some(ScanCode::Left)
    } else if c == 114 {
        Some(ScanCode::Right)
    } else if c == 115 {
        Some(ScanCode::End)
    } else if c == 116 {
        Some(ScanCode::Down)
    } else if c == 117 {
        Some(ScanCode::PageDown)
    } else if c == 118 {
        Some(ScanCode::Insert)
    } else if c == 119 {
        Some(ScanCode::Delete)
    } else if c == 121 {
        Some(ScanCode::Mute)
    } else if c == 122 {
        Some(ScanCode::VolumeDown)
    } else if c == 123 {
        Some(ScanCode::VolumeUp)
    } else if c == 127 {
        Some(ScanCode::Pause)
    } else if c == 133 {
        Some(ScanCode::LeftGui)
    } else if c == 134 {
        Some(ScanCode::RightGui)
    } else if c == 135 {
        Some(ScanCode::Menu)
    } else {
        None
    }
}

/// The host operating systems whose raw scancodes the engine translates.
#[derive(Debug, Copy, Clone, Eq, PartialEq, Structural, Hash)]
pub enum HostPlatform {
    Windows,
    Macos,
    Linux,
}

impl ScanCode {
    /// The key of a raw Windows scancode, per [`windows_scancode`].
    pub fn from_windows(hardware_scancode: u8) -> (r: Option<ScanCode>)
        ensures
            r == windows_scancode(hardware_scancode),
    {
        match hardware_scancode {
            1 => Some(ScanCode::Escape),
            2 => Some(ScanCode::Num1),
            3 => Some(ScanCode::Num2),
            4 => Some(ScanCode::Num3),
            5 => Some(ScanCode::Num4),
            6 => Some(ScanCode::Num5),
            7 => Some(ScanCode::Num6),
            8 => Some(ScanCode::Num7),
            9 => Some(ScanCode::Num8),
            10 => Some(ScanCode::Num9),
            11 => Some(ScanCode::Num0),
            12 => Some(ScanCode::Minus),
            13 => Some(ScanCode::Equals),
            14 => Some(ScanCode::Backspace),
            15 => Some(ScanCode::Tab),
            16 => Some(ScanCode::Q),
            17 => Some(ScanCode::W),
            18 => Some(ScanCode::E),
            19 => Some(ScanCode::R),
            20 => Some(ScanCode::T),
            21 => Some(ScanCode::Y),
            22 => Some(ScanCode::U),
            23 => Some(ScanCode::I),
            24 => Some(ScanCode::O),
            25 => Some(ScanCode::P),
            26 => Some(ScanCode::LeftBracket),
            27 => Some(ScanCode::RightBracket),
            28 => Some(ScanCode::Enter),
            29 => Some(ScanCode::LeftControl),
            30 => Some(ScanCode::A),
            31 => Some(ScanCode::S),
            32 => Some(ScanCode::D),
            33 => Some(ScanCode::F),
            34 => Some(ScanCode::G),
            35 => Some(ScanCode::H),
            36 => Some(ScanCode::J),
            37 => Some(ScanCode::K),
            38 => Some(ScanCode::L),
            39 => Some(ScanCode::Semicolon),
            40 => Some(ScanCode::Apostrophe),
            41 => Some(ScanCode::Grave),
            42 => Some(ScanCode::LeftShift),
            43 => Some(ScanCode::Backslash),
            44 => Some(ScanCode::Z),
            45 => Some(ScanCode::X),
            46 => Some(ScanCode::C),
            47 => Some(ScanCode::V),
            48 => Some(ScanCode::B),
            49 => Some(ScanCode::N),
            50 => Some(ScanCode::M),
            51 => Some(ScanCode::Comma),
            52 => Some(ScanCode::Period),
            53 => Some(ScanCode::Slash),
            54 => Some(ScanCode::RightShift),
            55 => Some(ScanCode::PadMultiply),
            56 => Some(ScanCode::LeftAlt),
            57 => Some(ScanCode::Space),
            58 => Some(ScanCode::CapsLock),
            59 => Some(ScanCode::F1),
            60 => Some(ScanCode::F2),
            61 => Some(ScanCode::F3),
            62 => Some(ScanCode::F4),
            63 => Some(ScanCode::F5),
            64 => Some(ScanCode::F6),
            65 => Some(ScanCode::F7),
            66 => Some(ScanCode::F8),
            67 => Some(ScanCode::F9),
            68 => Some(ScanCode::F10),
            69 => Some(ScanCode::NumLock),
            70 => Some(ScanCode::ScrollLock),
            71 => Some(ScanCode::Home),
            72 => Some(ScanCode::Up),
            73 => Some(ScanCode::PageUp),
            74 => Some(ScanCode::PadMinus),
            75 => Some(ScanCode::Left),
            76 => Some(ScanCode::Pad5),
            77 => Some(ScanCode::Right),
            78 => Some(ScanCode::PadPlus),
            79 => Some(ScanCode::End),
            80 => Some(ScanCode::Down),
            81 => Some(ScanCode::PageDown),
            82 => Some(ScanCode::Insert),
            83 => Some(ScanCode::Delete),
            86 => Some(ScanCode::NonUsBackslash),
            87 => Some(ScanCode::F11),
            88 => Some(ScanCode::F12),
            89 => Some(ScanCode::Pause),
            91 => Some(ScanCode::LeftGui),
            92 => Some(ScanCode::RightGui),
            93 => Some(ScanCode::Menu),
            _ => None,
        }
    }

    /// The key of a raw Macos scancode, per [`macos_scancode`].
    pub fn from_macos(hardware_scancode: u8) -> (r: Option<ScanCode>)
        ensures
            r == macos_scancode(hardware_scancode),
    {
        match hardware_scancode {
            0 => Some(ScanCode::A),
            1 => Some(ScanCode::S),
            2 => Some(ScanCode::D),
            3 => Some(ScanCode::F),
            4 => Some(ScanCode::H),
            5 => Some(ScanCode::G),
            6 => Some(ScanCode::Z),
            7 => Some(ScanCode::X),
            8 => Some(ScanCode::C),
            9 => Some(ScanCode::V),
            10 => Some(ScanCode::NonUsBackslash),
            11 => Some(ScanCode::B),
            12 => Some(ScanCode::Q),
            13 => Some(ScanCode::W),
            14 => Some(ScanCode::E),
            15 => Some(ScanCode::R),
            16 => Some(ScanCode::Y),
            17 => Some(ScanCode::T),
            18 => Some(ScanCode::Num1),
            19 => Some(ScanCode::Num2),
            20 => Some(ScanCode::Num3),
            21 => Some(ScanCode::Num4),
            22 => Some(ScanCode::Num6),
            23 => Some(ScanCode::Num5),
            24 => Some(ScanCode::Equals),
            25 => Some(ScanCode::Num9),
            26 => Some(ScanCode::Num7),
            27 => Some(ScanCode::Minus),
            28 => Some(ScanCode::Num8),
            29 => Some(ScanCode::Num0),
            30 => Some(ScanCode::RightBracket),
            31 => Some(ScanCode::O),
            32 => Some(ScanCode::U),
            33 => Some(ScanCode::LeftBracket),
            34 => Some(ScanCode::I),
            35 => Some(ScanCode::P),
            36 => Some(ScanCode::Enter),
            37 => Some(ScanCode::L),
            38 => Some(ScanCode::J),
            39 => Some(ScanCode::Apostrophe),
            40 => Some(ScanCode::K),
            41 => Some(ScanCode::Semicolon),
            42 => Some(ScanCode::Backslash),
            43 => Some(ScanCode::Comma),
            44 => Some(ScanCode::Slash),
            45 => Some(ScanCode::N),
            46 => Some(ScanCode::M),
            47 => Some(ScanCode::Period),
            48 => Some(ScanCode::Tab),
            49 => Some(ScanCode::Space),
            50 => Some(ScanCode::Grave),
            51 => Some(ScanCode::Backspace),
            52 => Some(ScanCode::PadEnter),
            53 => Some(ScanCode::Escape),
            54 => Some(ScanCode::RightGui),
            55 => Some(ScanCode::LeftGui),
            56 => Some(ScanCode::LeftShift),
            57 => Some(ScanCode::CapsLock),
            58 => Some(ScanCode::LeftAlt),
            59 => Some(ScanCode::LeftControl),
            60 => Some(ScanCode::RightShift),
            61 => Some(ScanCode::RightAlt),
            62 => Some(ScanCode::RightControl),
            65 => Some(ScanCode::PadDecimal),
            67 => Some(ScanCode::PadMultiply),
            69 => Some(ScanCode::PadPlus),
            71 => Some(ScanCode::NumLock),
            72 => Some(ScanCode::VolumeUp),
            73 => Some(ScanCode::VolumeDown),
            74 => Some(ScanCode::Mute),
            75 => Some(ScanCode::PadDivide),
            76 => Some(ScanCode::PadEnter),
            78 => Some(ScanCode::PadMinus),
            81 => Some(ScanCode::PadEquals),
            82 => Some(ScanCode::Pad0),
            83 => Some(ScanCode::Pad1),
            84 => Some(ScanCode::Pad2),
            85 => Some(ScanCode::Pad3),
            86 => Some(ScanCode::Pad4),
            87 => Some(ScanCode::Pad5),
            88 => Some(ScanCode::Pad6),
            89 => Some(ScanCode::Pad7),
            91 => Some(ScanCode::Pad8),
            92 => Some(ScanCode::Pad9),
            96 => Some(ScanCode::F5),
            97 => Some(ScanCode::F6),
            98 => Some(ScanCode::F7),
            99 => Some(ScanCode::F3),
            100 => Some(ScanCode::F8),
            101 => Some(ScanCode::F9),
            103 => Some(ScanCode::F11),
            106 => Some(ScanCode::Pause),
            107 => Some(ScanCode::PrintScreen),
            109 => Some(ScanCode::F10),
            111 => Some(ScanCode::F12),
            113 => Some(ScanCode::ScrollLock),
            114 => Some(ScanCode::Insert),
            115 => Some(ScanCode::Home),
            116 => Some(ScanCode::PageUp),
            117 => Some(ScanCode::Delete),
            118 => Some(ScanCode::F4),
            119 => Some(ScanCode::End),
            120 => Some(ScanCode::F2),
            121 => Some(ScanCode::PageDown),
            122 => Some(ScanCode::F1),
            123 => Some(ScanCode::Left),
            124 => Some(ScanCode::Right),
            125 => Some(ScanCode::Down),
            126 => Some(ScanCode::Up),
            _ => None,
        }
    }

    /// The key of a raw Linux scancode, per [`linux_scancode`].
    pub fn from_linux(hardware_scancode: u8) -> (r: Option<ScanCode>)
        ensures
            r == linux_scancode(hardware_scancode),
    {
        match hardware_scancode {
            9 => Some(ScanCode::Escape),
            10 => Some(ScanCode::Num1),
            11 => Some(ScanCode::Num2),
            12 => Some(ScanCode::Num3),
            13 => Some(ScanCode::Num4),
            14 => Some(ScanCode::Num5),
            15 => Some(ScanCode::Num6),
            16 => Some(ScanCode::Num7),
            17 => Some(ScanCode::Num8),
            18 => Some(ScanCode::Num9),
            19 => Some(ScanCode::Num0),
            20 => Some(ScanCode::Minus),
            21 => Some(ScanCode::Equals),
            22 => Some(ScanCode::Backspace),
            23 => Some(ScanCode::Tab),
            24 => Some(ScanCode::Q),
            25 => Some(ScanCode::W),
            26 => Some(ScanCode::E),
            27 => Some(ScanCode::R),
            28 => Some(ScanCode::T),
            29 => Some(ScanCode::Y),
            30 => Some(ScanCode::U),
            31 => Some(ScanCode::I),
            32 => Some(ScanCode::O),
            33 => Some(ScanCode::P),
            34 => Some(ScanCode::LeftBracket),
            35 => Some(ScanCode::RightBracket),
            36 => Some(ScanCode::Enter),
            37 => Some(ScanCode::LeftControl),
            38 => Some(ScanCode::A),
            39 => Some(ScanCode::S),
            40 => Some(ScanCode::D),
            41 => Some(ScanCode::F),
            42 => Some(ScanCode::G),
            43 => Some(ScanCode::H),
            44 => Some(ScanCode::J),
            45 => Some(ScanCode::K),
            46 => Some(ScanCode::L),
            47 => Some(ScanCode::Semicolon),
            48 => Some(ScanCode::Apostrophe),
            49 => Some(ScanCode::Grave),
            50 => Some(ScanCode::LeftShift),
            51 => Some(ScanCode::Backslash),
            52 => Some(ScanCode::Z),
            53 => Some(ScanCode::X),
            54 => Some(ScanCode::C),
            55 => Some(ScanCode::V),
            56 => Some(ScanCode::B),
            57 => Some(ScanCode::N),
            58 => Some(ScanCode::M),
            59 => Some(ScanCode::Comma),
            60 => Some(ScanCode::Period),
            61 => Some(ScanCode::Slash),
            62 => Some(ScanCode::RightShift),
            63 => Some(ScanCode::PadMultiply),
            64 => Some(ScanCode::LeftAlt),
            65 => Some(ScanCode::Space),
            66 => Some(ScanCode::CapsLock),
            67 => Some(ScanCode::F1),
            68 => Some(ScanCode::F2),
            69 => Some(ScanCode::F3),
            70 => Some(ScanCode::F4),
            71 => Some(ScanCode::F5),
            72 => Some(ScanCode::F6),
            73 => Some(ScanCode::F7),
            74 => Some(ScanCode::F8),
            75 => Some(ScanCode::F9),
            76 => Some(ScanCode::F10),
            77 => Some(ScanCode::NumLock),
            78 => Some(ScanCode::ScrollLock),
            79 => Some(ScanCode::Pad7),
            80 => Some(ScanCode::Pad8),
            81 => Some(ScanCode::Pad9),
            82 => Some(ScanCode::PadMinus),
            83 => Some(ScanCode::Pad4),
            84 => Some(ScanCode::Pad5),
            85 => Some(ScanCode::Pad6),
            86 => Some(ScanCode::PadPlus),
            87 => Some(ScanCode::Pad1),
            88 => Some(ScanCode::Pad2),
            89 => Some(ScanCode::Pad3),
            90 => Some(ScanCode::Pad0),
            91 => Some(ScanCode::PadDecimal),
            94 => Some(ScanCode::NonUsBackslash),
            95 => Some(ScanCode::F11),
            96 => Some(ScanCode::F12),
            104 => Some(ScanCode::PadEnter),
            105 => Some(ScanCode::RightControl),
            106 => Some(ScanCode::PadDivide),
            107 => Some(ScanCode::SysReq),
            108 => Some(ScanCode::RightAlt),
            110 => Some(ScanCode::Home),
            111 => Some(ScanCode::Up),
            112 => Some(ScanCode::PageUp),
            113 => Some(ScanCode::Left),
            114 => Some(ScanCode::Right),
            115 => Some(ScanCode::End),
            116 => Some(ScanCode::Down),
            117 => Some(ScanCode::PageDown),
            118 => Some(ScanCode::Insert),
            119 => Some(ScanCode::Delete),
            121 => Some(ScanCode::Mute),
            122 => Some(ScanCode::VolumeDown),
            123 => Some(ScanCode::VolumeUp),
            127 => Some(ScanCode::Pause),
            133 => Some(ScanCode::LeftGui),
            134 => Some(ScanCode::RightGui),
            135 => Some(ScanCode::Menu),
            _ => None,
        }
    }

    /// The key of a raw scancode from the given host platform.
    pub fn from_platform(platform: HostPlatform, hardware_scancode: u8) -> (r: Option<ScanCode>)
        ensures
            r == match platform {
                HostPlatform::Windows => windows_scancode(hardware_scancode),
                HostPlatform::Macos => macos_scancode(hardware_scancode),
                HostPlatform::Linux => linux_scancode(hardware_scancode),
            },
    {
        match platform {
            HostPlatform::Windows => ScanCode::from_windows(hardware_scancode),
            HostPlatform::Macos => ScanCode::from_macos(hardware_scancode),
            HostPlatform::Linux => ScanCode::from_linux(hardware_scancode),
        }
    }
}

/// A mouse button.
#[derive(Debug, Hash, PartialEq, Eq, Structural, Clone, Copy)]
pub enum MouseButton {
    Left,
    Right,
    Middle,
    Other(u16),
}

/// A scroll axis.
#[derive(Debug, Hash, PartialEq, Eq, Structural, Clone, Copy)]
pub enum ScrollDirection {
    Horizontal,
    Vertical,
}

/// Which pointer of a multi-pointer device.
#[derive(Debug, Hash, PartialEq, Eq, Structural, Clone, Copy)]
pub enum PointerKind {
    Primary,
    Secondary,
    Tertiary,
}

/// What raw input an action is bound to.
#[derive(Debug, Copy, Clone, Eq, PartialEq, Structural, Hash)]
pub enum ActionTrigger {
    Mouse(MouseButton),
    Scroll(ScrollDirection),
    Key(ScanCode),
}

/// Where a bound action stands within one press-and-release.
#[derive(Debug, Copy, Clone, PartialEq, Eq, Structural)]
pub enum ActionState {
    Start,
    Hold,
    End,
}

} // verus!
