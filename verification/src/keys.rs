//! Host-independent key codes: each names the character or function a key
//! produces, whatever the host keyboard's layout.

use vstd::prelude::*;

verus! {

/// A key, identified by what it types (`Quotedbl` is `"`, wherever the host
/// keyboard puts it) or by its function.
#[derive(Clone, Copy, Debug, PartialEq, Eq, Hash, Structural)]
pub enum Keycode {
    A,
    B,
    C,
    D,
    E,
    F,
    G,
    H,
    I,
    J,
    K,
    L,
    M,
    N,
    O,
    P,
    Q,
    R,
    S,
    T,
    U,
    V,
    W,
    X,
    Y,
    Z,
    Num0,
    Num1,
    Num2,
    Num3,
    Num4,
    Num5,
    Num6,
    Num7,
    Num8,
    Num9,
    Kp0,
    Kp1,
    Kp2,
    Kp3,
    Kp4,
    Kp5,
    Kp6,
    Kp7,
    Kp8,
    Kp9,
    At,
    KpAt,
    Exclaim,
    Quotedbl,
    Hash,
    Dollar,
    Percent,
    KpPercent,
    Ampersand,
    KpAmpersand,
    Quote,
    LeftParen,
    KpLeftParen,
    RightParen,
    KpRightParen,
    Colon,
    KpColon,
    Asterisk,
    KpMultiply,
    Semicolon,
    Plus,
    KpPlus,
    Comma,
    KpComma,
    Less,
    KpLess,
    Minus,
    KpMinus,
    Equals,
    KpEquals,
    Period,
    KpPeriod,
    Greater,
    KpGreater,
    Slash,
    KpDivide,
    Question,
    Return,
    KpEnter,
    Home,
    End,
    Up,
    Down,
    Left,
    Right,
    Backspace,
    Space,
    LShift,
    RShift,
    LCtrl,
    RAlt,
    Break,
    Clear,
}

} // verus!
