//! Key codes of the HID boot-keyboard usage table, and the 8-byte input
//! report that carries them.

use vstd::prelude::*;

verus! {

/// A HID keyboard usage value.
///
/// The modifiers occupy the contiguous range `0xE0..=0xE7`, so that
/// `code - 0xE0` is the key's bit index in the report's modifier byte.
#[allow(missing_docs)]
#[derive(Debug, Clone, Copy, PartialEq, Eq, PartialOrd, Ord, Structural)]
pub enum KeyCode {
    No,
    ErrorRollOver,
    PostFail,
    ErrorUndefined,
    A,
    B,
    C,
    D,
    E,
    F,
    G,
    H,
    I,
    J,
    K,
    L,
    M,
    N,
    O,
    P,
    Q,
    R,
    S,
    T,
    U,
    V,
    W,
    X,
    Y,
    Z,
    Kb1,
    Kb2,
    Kb3,
    Kb4,
    Kb5,
    Kb6,
    Kb7,
    Kb8,
    Kb9,
    Kb0,
    Enter,
    Escape,
    BSpace,
    Tab,
    Space,
    Minus,
    Equal,
    LBracket,
    RBracket,
    Bslash,
    NonUsHash,
    SColon,
    Quote,
    Grave,
    Comma,
    Dot,
    Slash,
    CapsLock,
    F1,
    F2,
    F3,
    F4,
    F5,
    F6,
    F7,
    F8,
    F9,
    F10,
    F11,
    F12,
    PScreen,
    ScrollLock,
    Pause,
    Insert,
    Home,
    PgUp,
    Delete,
    End,
    PgDown,
    Right,
    Left,
    Down,
    Up,
    NumLock,
    KpSlash,
    KpAsterisk,
    KpMinus,
    KpPlus,
    KpEnter,
    Kp1,
    Kp2,
    Kp3,
    Kp4,
    Kp5,
    Kp6,
    Kp7,
    Kp8,
    Kp9,
    Kp0,
    KpDot,
    NonUsBslash,
    Application,
    Power,
    KpEqual,
    F13,
    F14,
    F15,
    F16,
    F17,
    F18,
    F19,
    F20,
    F21,
    F22,
    F23,
    F24,
    Execute,
    Help,
    Menu,
    Select,
    Stop,
    Again,
    Undo,
    Cut,
    Copy,
    Paste,
    Find,
    Mute,
    VolUp,
    VolDown,
    LockingCapsLock,
    LockingNumLock,
    LockingScrollLock,
    KpComma,
    KpEqualSign,
    Intl1,
    Intl2,
    Intl3,
    Intl4,
    Intl5,
    Intl6,
    Intl7,
    Intl8,
    Intl9,
    Lang1,
    Lang2,
    Lang3,
    Lang4,
    Lang5,
    Lang6,
    Lang7,
    Lang8,
    Lang9,
    AltErase,
    SysReq,
    Cancel,
    Clear,
    Prior,
    Return,
    Separator,
    Out,
    Oper,
    ClearAgain,
    CrSel,
    ExSel,
    LCtrl,
    LShift,
    LAlt,
    LGui,
    RCtrl,
    RShift,
    RAlt,
    RGui,
    MediaPlayPause,
    MediaStopCD,
    MediaPreviousSong,
    MediaNextSong,
    MediaEjectCD,
    MediaVolUp,
    MediaVolDown,
    MediaMute,
    MediaWWW,
    MediaBack,
    MediaForward,
    MediaStop,
    MediaFind,
    MediaScrollUp,
    MediaScrollDown,
    MediaEdit,
    MediaSleep,
    MeidaCoffee,
    MediaRefresh,
    MediaCalc,
}

impl KeyCode {
    /// The HID usage value of this key code.
    pub open spec fn spec_code(self) -> u8 {
        match self {
            KeyCode::No => 0x00,
            KeyCode::ErrorRollOver => 0x01,
            KeyCode::PostFail => 0x02,
            KeyCode::ErrorUndefined => 0x03,
            KeyCode::A => 0x04,
            KeyCode::B => 0x05,
            KeyCode::C => 0x06,
            KeyCode::D => 0x07,
            KeyCode::E => 0x08,
            KeyCode::F => 0x09,
            KeyCode::G => 0x0a,
            KeyCode::H => 0x0b,
            KeyCode::I => 0x0c,
            KeyCode::J => 0x0d,
            KeyCode::K => 0x0e,
            KeyCode::L => 0x0f,
            KeyCode::M => 0x10,
            KeyCode::N => 0x11,
            KeyCode::O => 0x12,
            KeyCode::P => 0x13,
            KeyCode::Q => 0x14,
            KeyCode::R => 0x15,
            KeyCode::S => 0x16,
            KeyCode::T => 0x17,
            KeyCode::U => 0x18,
            KeyCode::V => 0x19,
            KeyCode::W => 0x1a,
            KeyCode::X => 0x1b,
            KeyCode::Y => 0x1c,
            KeyCode::Z => 0x1d,
            KeyCode::Kb1 => 0x1e,
            KeyCode::Kb2 => 0x1f,
            KeyCode::Kb3 => 0x20,
            KeyCode::Kb4 => 0x21,
            KeyCode::Kb5 => 0x22,
            KeyCode::Kb6 => 0x23,
            KeyCode::Kb7 => 0x24,
            KeyCode::Kb8 => 0x25,
            KeyCode::Kb9 => 0x26,
            KeyCode::Kb0 => 0x27,
            KeyCode::Enter => 0x28,
            KeyCode::Escape => 0x29,
            KeyCode::BSpace => 0x2a,
            KeyCode::Tab => 0x2b,
            KeyCode::Space => 0x2c,
            KeyCode::Minus => 0x2d,
            KeyCode::Equal => 0x2e,
            KeyCode::LBracket => 0x2f,
            KeyCode::RBracket => 0x30,
            KeyCode::Bslash => 0x31,
            KeyCode::NonUsHash => 0x32,
            KeyCode::SColon => 0x33,
            KeyCode::Quote => 0x34,
            KeyCode::Grave => 0x35,
            KeyCode::Comma => 0x36,
            KeyCode::Dot => 0x37,
            KeyCode::Slash => 0x38,
            KeyCode::CapsLock => 0x39,
            KeyCode::F1 => 0x3a,
            KeyCode::F2 => 0x3b,
            KeyCode::F3 => 0x3c,
            KeyCode::F4 => 0x3d,
            KeyCode::F5 => 0x3e,
            KeyCode::F6 => 0x3f,
            KeyCode::F7 => 0x40,
            KeyCode::F8 => 0x41,
            KeyCode::F9 => 0x42,
            KeyCode::F10 => 0x43,
            KeyCode::F11 => 0x44,
            KeyCode::F12 => 0x45,
            KeyCode::PScreen => 0x46,
            KeyCode::ScrollLock => 0x47,
            KeyCode::Pause => 0x48,
            KeyCode::Insert => 0x49,
            KeyCode::Home => 0x4a,
            KeyCode::PgUp => 0x4b,
            KeyCode::Delete => 0x4c,
            KeyCode::End => 0x4d,
            KeyCode::PgDown => 0x4e,
            KeyCode::Right => 0x4f,
            KeyCode::Left => 0x50,
            KeyCode::Down => 0x51,
            KeyCode::Up => 0x52,
            KeyCode::NumLock => 0x53,
            KeyCode::KpSlash => 0x54,
            KeyCode::KpAsterisk => 0x55,
            KeyCode::KpMinus => 0x56,
            KeyCode::KpPlus => 0x57,
            KeyCode::KpEnter => 0x58,
            KeyCode::Kp1 => 0x59,
            KeyCode::Kp2 => 0x5a,
            KeyCode::Kp3 => 0x5b,
            KeyCode::Kp4 => 0x5c,
            KeyCode::Kp5 => 0x5d,
            KeyCode::Kp6 => 0x5e,
            KeyCode::Kp7 => 0x5f,
            KeyCode::Kp8 => 0x60,
            KeyCode::Kp9 => 0x61,
            KeyCode::Kp0 => 0x62,
            KeyCode::KpDot => 0x63,
            KeyCode::NonUsBslash => 0x64,
            KeyCode::Application => 0x65,
            KeyCode::Power => 0x66,
            KeyCode::KpEqual => 0x67,
            KeyCode::F13 => 0x68,
            KeyCode::F14 => 0x69,
            KeyCode::F15 => 0x6a,
            KeyCode::F16 => 0x6b,
            KeyCode::F17 => 0x6c,
            KeyCode::F18 => 0x6d,
            KeyCode::F19 => 0x6e,
            KeyCode::F20 => 0x6f,
            KeyCode::F21 => 0x70,
            KeyCode::F22 => 0x71,
            KeyCode::F23 => 0x72,
            KeyCode::F24 => 0x73,
            KeyCode::Execute => 0x74,
            KeyCode::Help => 0x75,
            KeyCode::Menu => 0x76,
            KeyCode::Select => 0x77,
            KeyCode::Stop => 0x78,
            KeyCode::Again => 0x79,
            KeyCode::Undo => 0x7a,
            KeyCode::Cut => 0x7b,
            KeyCode::Copy => 0x7c,
            KeyCode::Paste => 0x7d,
            KeyCode::Find => 0x7e,
            KeyCode::Mute => 0x7f,
            KeyCode::VolUp => 0x80,
            KeyCode::VolDown => 0x81,
            KeyCode::LockingCapsLock => 0x82,
            KeyCode::LockingNumLock => 0x83,
            KeyCode::LockingScrollLock => 0x84,
            KeyCode::KpComma => 0x85,
            KeyCode::KpEqualSign => 0x86,
            KeyCode::Intl1 => 0x87,
            KeyCode::Intl2 => 0x88,
            KeyCode::Intl3 => 0x89,
            KeyCode::Intl4 => 0x8a,
            KeyCode::Intl5 => 0x8b,
            KeyCode::Intl6 => 0x8c,
            KeyCode::Intl7 => 0x8d,
            KeyCode::Intl8 => 0x8e,
            KeyCode::Intl9 => 0x8f,
            KeyCode::Lang1 => 0x90,
            KeyCode::Lang2 => 0x91,
            KeyCode::Lang3 => 0x92,
            KeyCode::Lang4 => 0x93,
            KeyCode::Lang5 => 0x94,
            KeyCode::Lang6 => 0x95,
            KeyCode::Lang7 => 0x96,
            KeyCode::Lang8 => 0x97,
            KeyCode::Lang9 => 0x98,
            KeyCode::AltErase => 0x99,
            KeyCode::SysReq => 0x9a,
            KeyCode::Cancel => 0x9b,
            KeyCode::Clear => 0x9c,
            KeyCode::Prior => 0x9d,
            KeyCode::Return => 0x9e,
            KeyCode::Separator => 0x9f,
            KeyCode::Out => 0xa0,
            KeyCode::Oper => 0xa1,
            KeyCode::ClearAgain => 0xa2,
            KeyCode::CrSel => 0xa3,
            KeyCode::ExSel => 0xa4,
            KeyCode::LCtrl => 0xe0,
            KeyCode::LShift => 0xe1,
            KeyCode::LAlt => 0xe2,
            KeyCode::LGui => 0xe3,
            KeyCode::RCtrl => 0xe4,
            KeyCode::RShift => 0xe5,
            KeyCode::RAlt => 0xe6,
            KeyCode::RGui => 0xe7,
            KeyCode::MediaPlayPause => 0xe8,
            KeyCode::MediaStopCD => 0xe9,
            KeyCode::MediaPreviousSong => 0xea,
            KeyCode::MediaNextSong => 0xeb,
            KeyCode::MediaEjectCD => 0xec,
            KeyCode::MediaVolUp => 0xed,
            KeyCode::MediaVolDown => 0xee,
            KeyCode::MediaMute => 0xef,
            KeyCode::MediaWWW => 0xf0,
            KeyCode::MediaBack => 0xf1,
            KeyCode::MediaForward => 0xf2,
            KeyCode::MediaStop => 0xf3,
            KeyCode::MediaFind => 0xf4,
            KeyCode::MediaScrollUp => 0xf5,
            KeyCode::MediaScrollDown => 0xf6,
            KeyCode::MediaEdit => 0xf7,
            KeyCode::MediaSleep => 0xf8,
            KeyCode::MeidaCoffee => 0xf9,
            KeyCode::MediaRefresh => 0xfa,
            KeyCode::MediaCalc => 0xfb,
        }
    }

    /// The HID usage value of this key code.
    #[verifier::when_used_as_spec(spec_code)]
    pub fn code(self) -> (r: u8)
        ensures
            r == self.spec_code(),
    {
        match self {
            KeyCode::No => 0x00,
            KeyCode::ErrorRollOver => 0x01,
            KeyCode::PostFail => 0x02,
            KeyCode::ErrorUndefined => 0x03,
            KeyCode::A => 0x04,
            KeyCode::B => 0x05,
            KeyCode::C => 0x06,
            KeyCode::D => 0x07,
            KeyCode::E => 0x08,
            KeyCode::F => 0x09,
            KeyCode::G => 0x0a,
            KeyCode::H => 0x0b,
            KeyCode::I => 0x0c,
            KeyCode::J => 0x0d,
            KeyCode::K => 0x0e,
            KeyCode::L => 0x0f,
            KeyCode::M => 0x10,
            KeyCode::N => 0x11,
            KeyCode::O => 0x12,
            KeyCode::P => 0x13,
            KeyCode::Q => 0x14,
            KeyCode::R => 0x15,
            KeyCode::S => 0x16,
            KeyCode::T => 0x17,
            KeyCode::U => 0x18,
            KeyCode::V => 0x19,
            KeyCode::W => 0x1a,
            KeyCode::X => 0x1b,
            KeyCode::Y => 0x1c,
            KeyCode::Z => 0x1d,
            KeyCode::Kb1 => 0x1e,
            KeyCode::Kb2 => 0x1f,
            KeyCode::Kb3 => 0x20,
            KeyCode::Kb4 => 0x21,
            KeyCode::Kb5 => 0x22,
            KeyCode::Kb6 => 0x23,
            KeyCode::Kb7 => 0x24,
            KeyCode::Kb8 => 0x25,
            KeyCode::Kb9 => 0x26,
            KeyCode::Kb0 => 0x27,
            KeyCode::Enter => 0x28,
            KeyCode::Escape => 0x29,
            KeyCode::BSpace => 0x2a,
            KeyCode::Tab => 0x2b,
            KeyCode::Space => 0x2c,
            KeyCode::Minus => 0x2d,
            KeyCode::Equal => 0x2e,
            KeyCode::LBracket => 0x2f,
            KeyCode::RBracket => 0x30,
            KeyCode::Bslash => 0x31,
            KeyCode::NonUsHash => 0x32,
            KeyCode::SColon => 0x33,
            KeyCode::Quote => 0x34,
            KeyCode::Grave => 0x35,
            KeyCode::Comma => 0x36,
            KeyCode::Dot => 0x37,
            KeyCode::Slash => 0x38,
            KeyCode::CapsLock => 0x39,
            KeyCode::F1 => 0x3a,
            KeyCode::F2 => 0x3b,
            KeyCode::F3 => 0x3c,
            KeyCode::F4 => 0x3d,
            KeyCode::F5 => 0x3e,
            KeyCode::F6 => 0x3f,
            KeyCode::F7 => 0x40,
            KeyCode::F8 => 0x41,
            KeyCode::F9 => 0x42,
            KeyCode::F10 => 0x43,
            KeyCode::F11 => 0x44,
            KeyCode::F12 => 0x45,
            KeyCode::PScreen => 0x46,
            KeyCode::ScrollLock => 0x47,
            KeyCode::Pause => 0x48,
            KeyCode::Insert => 0x49,
            KeyCode::Home => 0x4a,
            KeyCode::PgUp => 0x4b,
            KeyCode::Delete => 0x4c,
            KeyCode::End => 0x4d,
            KeyCode::PgDown => 0x4e,
            KeyCode::Right => 0x4f,
            KeyCode::Left => 0x50,
            KeyCode::Down => 0x51,
            KeyCode::Up => 0x52,
            KeyCode::NumLock => 0x53,
            KeyCode::KpSlash => 0x54,
            KeyCode::KpAsterisk => 0x55,
            KeyCode::KpMinus => 0x56,
            KeyCode::KpPlus => 0x57,
            KeyCode::KpEnter => 0x58,
            KeyCode::Kp1 => 0x59,
            KeyCode::Kp2 => 0x5a,
            KeyCode::Kp3 => 0x5b,
            KeyCode::Kp4 => 0x5c,
            KeyCode::Kp5 => 0x5d,
            KeyCode::Kp6 => 0x5e,
            KeyCode::Kp7 => 0x5f,
            KeyCode::Kp8 => 0x60,
            KeyCode::Kp9 => 0x61,
            KeyCode::Kp0 => 0x62,
            KeyCode::KpDot => 0x63,
            KeyCode::NonUsBslash => 0x64,
            KeyCode::Application => 0x65,
            KeyCode::Power => 0x66,
            KeyCode::KpEqual => 0x67,
            KeyCode::F13 => 0x68,
            KeyCode::F14 => 0x69,
            KeyCode::F15 => 0x6a,
            KeyCode::F16 => 0x6b,
            KeyCode::F17 => 0x6c,
            KeyCode::F18 => 0x6d,
            KeyCode::F19 => 0x6e,
            KeyCode::F20 => 0x6f,
            KeyCode::F21 => 0x70,
            KeyCode::F22 => 0x71,
            KeyCode::F23 => 0x72,
            KeyCode::F24 => 0x73,
            KeyCode::Execute => 0x74,
            KeyCode::Help => 0x75,
            KeyCode::Menu => 0x76,
            KeyCode::Select => 0x77,
            KeyCode::Stop => 0x78,
            KeyCode::Again => 0x79,
            KeyCode::Undo => 0x7a,
            KeyCode::Cut => 0x7b,
            KeyCode::Copy => 0x7c,
            KeyCode::Paste => 0x7d,
            KeyCode::Find => 0x7e,
            KeyCode::Mute => 0x7f,
            KeyCode::VolUp => 0x80,
            KeyCode::VolDown => 0x81,
            KeyCode::LockingCapsLock => 0x82,
            KeyCode::LockingNumLock => 0x83,
            KeyCode::LockingScrollLock => 0x84,
            KeyCode::KpComma => 0x85,
            KeyCode::KpEqualSign => 0x86,
            KeyCode::Intl1 => 0x87,
            KeyCode::Intl2 => 0x88,
            KeyCode::Intl3 => 0x89,
            KeyCode::Intl4 => 0x8a,
            KeyCode::Intl5 => 0x8b,
            KeyCode::Intl6 => 0x8c,
            KeyCode::Intl7 => 0x8d,
            KeyCode::Intl8 => 0x8e,
            KeyCode::Intl9 => 0x8f,
            KeyCode::Lang1 => 0x90,
            KeyCode::Lang2 => 0x91,
            KeyCode::Lang3 => 0x92,
            KeyCode::Lang4 => 0x93,
            KeyCode::Lang5 => 0x94,
            KeyCode::Lang6 => 0x95,
            KeyCode::Lang7 => 0x96,
            KeyCode::Lang8 => 0x97,
            KeyCode::Lang9 => 0x98,
            KeyCode::AltErase => 0x99,
            KeyCode::SysReq => 0x9a,
            KeyCode::Cancel => 0x9b,
            KeyCode::Clear => 0x9c,
            KeyCode::Prior => 0x9d,
            KeyCode::Return => 0x9e,
            KeyCode::Separator => 0x9f,
            KeyCode::Out => 0xa0,
            KeyCode::Oper => 0xa1,
            KeyCode::ClearAgain => 0xa2,
            KeyCode::CrSel => 0xa3,
            KeyCode::ExSel => 0xa4,
            KeyCode::LCtrl => 0xe0,
            KeyCode::LShift => 0xe1,
            KeyCode::LAlt => 0xe2,
            KeyCode::LGui => 0xe3,
            KeyCode::RCtrl => 0xe4,
            KeyCode::RShift => 0xe5,
            KeyCode::RAlt => 0xe6,
            KeyCode::RGui => 0xe7,
            KeyCode::MediaPlayPause => 0xe8,
            KeyCode::MediaStopCD => 0xe9,
            KeyCode::MediaPreviousSong => 0xea,
            KeyCode::MediaNextSong => 0xeb,
            KeyCode::MediaEjectCD => 0xec,
            KeyCode::MediaVolUp => 0xed,
            KeyCode::MediaVolDown => 0xee,
            KeyCode::MediaMute => 0xef,
            KeyCode::MediaWWW => 0xf0,
            KeyCode::MediaBack => 0xf1,
            KeyCode::MediaForward => 0xf2,
            KeyCode::MediaStop => 0xf3,
            KeyCode::MediaFind => 0xf4,
            KeyCode::MediaScrollUp => 0xf5,
            KeyCode::MediaScrollDown => 0xf6,
            KeyCode::MediaEdit => 0xf7,
            KeyCode::MediaSleep => 0xf8,
            KeyCode::MeidaCoffee => 0xf9,
            KeyCode::MediaRefresh => 0xfa,
            KeyCode::MediaCalc => 0xfb,
        }
    }

    /// Whether this key code is one of the eight modifiers.
    pub open spec fn spec_is_modifier(self) -> bool {
        0xe0 <= self.spec_code() <= 0xe7
    }

    /// Returns `true` if the key code corresponds to a modifier (sent
    /// separately on the USB HID protocol).
    #[verifier::when_used_as_spec(spec_is_modifier)]
    pub fn is_modifier(self) -> (r: bool)
        ensures
            r == self.spec_is_modifier(),
    {
        let c = self.code();
        0xe0 <= c && c <= 0xe7
    }

    /// The bit of this modifier in the report's modifier byte, or 0 for a
    /// key code that is no modifier.
    pub open spec fn spec_modifier_bit(self) -> u8 {
        if self.spec_is_modifier() {
            1u8 << ((self.spec_code() - 0xe0) as u8)
        } else {
            0u8
        }
    }

    /// Returns the byte with the bit corresponding to the USB HID
    /// modifier, or 0 if the key code is no modifier.
    pub fn as_modifier_bit(self) -> (r: u8)
        ensures
            r == self.spec_modifier_bit(),
    {
        if self.is_modifier() {
            1u8 << (self.code() - 0xe0)
        } else {
            0u8
        }
    }
}

/// The bytes of a report with no modifier and no key pressed.
pub open spec fn empty_report() -> Seq<u8> {
    seq![0u8, 0, 0, 0, 0, 0, 0, 0]
}

/// The given report bytes with bytes 2..8 replaced by the usage value of
/// `kc`.
pub open spec fn spec_set_all(s: Seq<u8>, kc: KeyCode) -> Seq<u8> {
    seq![
        s[0],
        s[1],
        kc.spec_code(),
        kc.spec_code(),
        kc.spec_code(),
        kc.spec_code(),
        kc.spec_code(),
        kc.spec_code(),
    ]
}

/// The report bytes after registering one pressed key, per the HID boot
/// keyboard conventions: `No` is ignored; the error codes flood bytes
/// 2..8; a modifier sets its bit in byte 0; any other code takes the
/// first free slot of bytes 2..8, and floods them with `ErrorRollOver`
/// when all six slots are taken.
pub open spec fn spec_pressed(s: Seq<u8>, kc: KeyCode) -> Seq<u8> {
    let c = kc.spec_code();
    if c == 0 {
        s
    } else if c <= 3 {
        spec_set_all(s, kc)
    } else if kc.spec_is_modifier() {
        s.update(0, s[0] | kc.spec_modifier_bit())
    } else if s[2] == 0 {
        s.update(2, c)
    } else if s[3] == 0 {
        s.update(3, c)
    } else if s[4] == 0 {
        s.update(4, c)
    } else if s[5] == 0 {
        s.update(5, c)
    } else if s[6] == 0 {
        s.update(6, c)
    } else if s[7] == 0 {
        s.update(7, c)
    } else {
        spec_set_all(s, KeyCode::ErrorRollOver)
    }
}

/// A standard 8-byte keyboard HID boot-protocol input report.
///
/// Byte 0 is the modifier bitmap, byte 1 is reserved, and bytes 2..8
/// hold up to six non-modifier usage codes.
#[derive(Debug, Clone)]
pub struct KbHidReport([u8; 8]);

impl View for KbHidReport {
    type V = Seq<u8>;

    closed spec fn view(&self) -> Seq<u8> {
        self.0@
    }
}

impl KbHidReport {
    /// Creates a report with no modifier and no key pressed.
    pub fn new() -> (r: Self)
        ensures
            r@ == empty_report(),
    {
        let r = KbHidReport([0u8; 8]);
        proof {
            assert(r@ =~= empty_report());
        }
        r
    }

    /// Returns the byte slice of the report, as sent on the wire.
    pub fn as_bytes(&self) -> (r: &[u8])
        ensures
            r@ == self@,
    {
        self.0.as_slice()
    }

    /// Every report holds exactly 8 bytes.
    pub proof fn lemma_len(&self)
        ensures
            self@.len() == 8,
    {
    }

    /// Registers the given key code in the report.
    pub fn pressed(&mut self, kc: KeyCode)
        ensures
            final(self)@ == spec_pressed(old(self)@, kc),
    {
        let c = kc.code();
        if c == 0 {
        } else if c <= 3 {
            self.set_all(kc);
        } else if kc.is_modifier() {
            let b0 = self.0[0] | kc.as_modifier_bit();
            self.0 = [b0, self.0[1], self.0[2], self.0[3], self.0[4], self.0[5], self.0[6], self.0[7]];
            proof {
                assert(self.0@ =~= old(self).0@.update(0, b0));
            }
        } else if self.0[2] == 0 {
            self.0 = [self.0[0], self.0[1], c, self.0[3], self.0[4], self.0[5], self.0[6], self.0[7]];
            proof {
                assert(self.0@ =~= old(self).0@.update(2, c));
            }
        } else if self.0[3] == 0 {
            self.0 = [self.0[0], self.0[1], self.0[2], c, self.0[4], self.0[5], self.0[6], self.0[7]];
            proof {
                assert(self.0@ =~= old(self).0@.update(3, c));
            }
        } else if self.0[4] == 0 {
            self.0 = [self.0[0], self.0[1], self.0[2], self.0[3], c, self.0[5], self.0[6], self.0[7]];
            proof {
                assert(self.0@ =~= old(self).0@.update(4, c));
            }
        } else if self.0[5] == 0 {
            self.0 = [self.0[0], self.0[1], self.0[2], self.0[3], self.0[4], c, self.0[6], self.0[7]];
            proof {
                assert(self.0@ =~= old(self).0@.update(5, c));
            }
        } else if self.0[6] == 0 {
            self.0 = [self.0[0], self.0[1], self.0[2], self.0[3], self.0[4], self.0[5], c, self.0[7]];
            proof {
                assert(self.0@ =~= old(self).0@.update(6, c));
            }
        } else if self.0[7] == 0 {
            self.0 = [self.0[0], self.0[1], self.0[2], self.0[3], self.0[4], self.0[5], self.0[6], c];
            proof {
                assert(self.0@ =~= old(self).0@.update(7, c));
            }
        } else {
            self.set_all(KeyCode::ErrorRollOver);
        }
    }

    /// Whether this report carries the same bytes as another.
    pub fn same_as(&self, other: &KbHidReport) -> (r: bool)
        ensures
            r == (self@ == other@),
    {
        let eq = self.0[0] == other.0[0] && self.0[1] == other.0[1] && self.0[2] == other.0[2]
            && self.0[3] == other.0[3] && self.0[4] == other.0[4] && self.0[5] == other.0[5]
            && self.0[6] == other.0[6] && self.0[7] == other.0[7];
        proof {
            if eq {
                assert(self.0@ =~= other.0@);
            }
        }
        eq
    }

    /// Sets bytes 2..8 of the report to the given key code.
    pub fn set_all(&mut self, kc: KeyCode)
        ensures
            final(self)@ == spec_set_all(old(self)@, kc),
    {
        let c = kc.code();
        self.0 = [self.0[0], self.0[1], c, c, c, c, c, c];
        proof {
            assert(self.0@ =~= spec_set_all(old(self)@, kc));
        }
    }
}

impl Default for KbHidReport {
    /// Creates a report with no modifier and no key pressed.
    fn default() -> (r: Self)
        ensures
            r@ == empty_report(),
    {
        KbHidReport::new()
    }
}

/// A sequence of `n` zero bytes.
pub open spec fn zeros(n: nat) -> Seq<u8> {
    Seq::new(n, |i: int| 0u8)
}

/// The usage values of the non-modifier key codes, in order.
pub open spec fn nonmod_codes(kcs: Seq<KeyCode>) -> Seq<u8>
    decreases kcs.len(),
{
    if kcs.len() == 0 {
        Seq::empty()
    } else {
        nonmod_codes(kcs.drop_last()) + if kcs.last().spec_is_modifier() {
            Seq::empty()
        } else {
            seq![kcs.last().spec_code()]
        }
    }
}

/// The report built by registering each key code in turn, starting
/// from the empty report.
pub open spec fn report_of(kcs: Seq<KeyCode>) -> Seq<u8>
    decreases kcs.len(),
{
    if kcs.len() == 0 {
        empty_report()
    } else {
        spec_pressed(report_of(kcs.drop_last()), kcs.last())
    }
}

/// Slot filling and roll-over: registering actual keys (usage values
/// above the error codes), at most six non-modifiers fill bytes 2..8
/// in insertion order with trailing zeros; more than six flood bytes
/// 2..8 with `ErrorRollOver`.
pub proof fn lemma_report_slots(kcs: Seq<KeyCode>)
    requires
        forall|i: int| 0 <= i < kcs.len() ==> (#[trigger] kcs[i]).spec_code() > 3,
    ensures
        report_of(kcs).len() == 8,
        nonmod_codes(kcs).len() <= 6 ==> report_of(kcs).subrange(2, 8) == nonmod_codes(kcs)
            + zeros((6 - nonmod_codes(kcs).len()) as nat),
        nonmod_codes(kcs).len() > 6 ==> report_of(kcs).subrange(2, 8) == Seq::new(
            6,
            |i: int| 1u8,
        ),
    decreases kcs.len(),
{
    let r = report_of(kcs);
    let nm = nonmod_codes(kcs);
    lemma_nonmod_codes_pos(kcs);
    if kcs.len() == 0 {
        assert(r.subrange(2, 8) =~= nm + zeros(6));
    } else {
        let prev = kcs.drop_last();
        assert(forall|i: int| 0 <= i < prev.len() ==> (#[trigger] prev[i]).spec_code() > 3);
        lemma_report_slots(prev);
        lemma_nonmod_codes_pos(prev);
        let rp = report_of(prev);
        let np = nonmod_codes(prev);
        let kc = kcs.last();
        let c = kc.spec_code();
        assert(c == kcs[kcs.len() - 1].spec_code());
        assert(c > 3);
        let sub = rp.subrange(2, 8);
        if np.len() <= 6 {
            assert(rp[2] == sub[0] && rp[3] == sub[1] && rp[4] == sub[2] && rp[5] == sub[3]
                && rp[6] == sub[4] && rp[7] == sub[5]);
        } else {
            assert(rp[2] == sub[0] && rp[3] == sub[1] && rp[4] == sub[2] && rp[5] == sub[3]
                && rp[6] == sub[4] && rp[7] == sub[5]);
        }
        if kc.spec_is_modifier() {
            assert(nm =~= np);
            assert(r == rp.update(0, rp[0] | kc.spec_modifier_bit()));
            assert(r.subrange(2, 8) =~= rp.subrange(2, 8));
        } else {
            assert(nm =~= np.push(c));
            if np.len() < 6 {
                let sl = np.len() as int;
                assert(forall|t: int| 0 <= t < sl ==> #[trigger] sub[t] == np[t]);
                assert(forall|t: int| 0 <= t < sl ==> #[trigger] sub[t] > 3);
                assert(sub[sl] == 0);
                assert(r == rp.update(2 + sl, c));
                assert(r.subrange(2, 8) =~= nm + zeros((6 - nm.len()) as nat));
            } else if np.len() == 6 {
                assert(forall|t: int| 0 <= t < 6 ==> #[trigger] sub[t] == np[t]);
                assert(forall|t: int| 0 <= t < 6 ==> #[trigger] sub[t] > 3);
                assert(r == spec_set_all(rp, KeyCode::ErrorRollOver));
                assert(r.subrange(2, 8) =~= Seq::new(6, |i: int| 1u8));
            } else {
                assert(forall|t: int| 0 <= t < 6 ==> #[trigger] sub[t] == Seq::new(
                    6,
                    |i: int| 1u8,
                )[t]);
                assert(forall|t: int| 0 <= t < 6 ==> #[trigger] sub[t] == 1);
                assert(r == spec_set_all(rp, KeyCode::ErrorRollOver));
                assert(r.subrange(2, 8) =~= Seq::new(6, |i: int| 1u8));
            }
        }
    }
}

/// Every collected non-modifier usage value is above the error codes.
proof fn lemma_nonmod_codes_pos(kcs: Seq<KeyCode>)
    requires
        forall|i: int| 0 <= i < kcs.len() ==> (#[trigger] kcs[i]).spec_code() > 3,
    ensures
        forall|t: int| 0 <= t < nonmod_codes(kcs).len() ==> #[trigger] nonmod_codes(kcs)[t] > 3,
    decreases kcs.len(),
{
    if kcs.len() > 0 {
        let prev = kcs.drop_last();
        assert(forall|i: int| 0 <= i < prev.len() ==> (#[trigger] prev[i]).spec_code() > 3);
        lemma_nonmod_codes_pos(prev);
        assert(kcs[kcs.len() - 1].spec_code() > 3);
        let np = nonmod_codes(prev);
        assert(forall|t: int|
            0 <= t < nonmod_codes(kcs).len() ==> #[trigger] nonmod_codes(kcs)[t] == if t
                < np.len() {
                np[t]
            } else {
                kcs.last().spec_code()
            });
    }
}

} // verus!
