//! Logical and physical key identities.
//!
//! `Key` is a closed enumeration of the logical keys the tracker can
//! observe. Each key has a rank, a total order used to keep the held-key
//! set in a deterministic display order, and a display name.
//! `PhysicalKey` identifies a key by physical position; it is a distinct
//! type so the two identities cannot be confused.

use vstd::prelude::*;

verus! {

/// A logical (layout-aware) keyboard key.
#[derive(Clone, Copy, PartialEq, Eq, Structural)]
pub enum Key {
    A,
    B,
    C,
    D,
    E,
    F,
    G,
    H,
    I,
    J,
    K,
    L,
    M,
    N,
    O,
    P,
    Q,
    R,
    S,
    T,
    U,
    V,
    W,
    X,
    Y,
    Z,
    Num0,
    Num1,
    Num2,
    Num3,
    Num4,
    Num5,
    Num6,
    Num7,
    Num8,
    Num9,
    Space,
    Enter,
    Escape,
    Tab,
    Backspace,
    Delete,
    ArrowUp,
    ArrowDown,
    ArrowLeft,
    ArrowRight,
}

impl Key {
    /// The position of this key in the display order.
    pub open spec fn rank_spec(self) -> int {
        match self {
            Key::A => 0,
            Key::B => 1,
            Key::C => 2,
            Key::D => 3,
            Key::E => 4,
            Key::F => 5,
            Key::G => 6,
            Key::H => 7,
            Key::I => 8,
            Key::J => 9,
            Key::K => 10,
            Key::L => 11,
            Key::M => 12,
            Key::N => 13,
            Key::O => 14,
            Key::P => 15,
            Key::Q => 16,
            Key::R => 17,
            Key::S => 18,
            Key::T => 19,
            Key::U => 20,
            Key::V => 21,
            Key::W => 22,
            Key::X => 23,
            Key::Y => 24,
            Key::Z => 25,
            Key::Num0 => 26,
            Key::Num1 => 27,
            Key::Num2 => 28,
            Key::Num3 => 29,
            Key::Num4 => 30,
            Key::Num5 => 31,
            Key::Num6 => 32,
            Key::Num7 => 33,
            Key::Num8 => 34,
            Key::Num9 => 35,
            Key::Space => 36,
            Key::Enter => 37,
            Key::Escape => 38,
            Key::Tab => 39,
            Key::Backspace => 40,
            Key::Delete => 41,
            Key::ArrowUp => 42,
            Key::ArrowDown => 43,
            Key::ArrowLeft => 44,
            Key::ArrowRight => 45,
        }
    }

    /// The position of this key in the display order.
    pub fn rank(self) -> (r: u32)
        ensures
            r as int == self.rank_spec(),
    {
        match self {
            Key::A => 0,
            Key::B => 1,
            Key::C => 2,
            Key::D => 3,
            Key::E => 4,
            Key::F => 5,
            Key::G => 6,
            Key::H => 7,
            Key::I => 8,
            Key::J => 9,
            Key::K => 10,
            Key::L => 11,
            Key::M => 12,
            Key::N => 13,
            Key::O => 14,
            Key::P => 15,
            Key::Q => 16,
            Key::R => 17,
            Key::S => 18,
            Key::T => 19,
            Key::U => 20,
            Key::V => 21,
            Key::W => 22,
            Key::X => 23,
            Key::Y => 24,
            Key::Z => 25,
            Key::Num0 => 26,
            Key::Num1 => 27,
            Key::Num2 => 28,
            Key::Num3 => 29,
            Key::Num4 => 30,
            Key::Num5 => 31,
            Key::Num6 => 32,
            Key::Num7 => 33,
            Key::Num8 => 34,
            Key::Num9 => 35,
            Key::Space => 36,
            Key::Enter => 37,
            Key::Escape => 38,
            Key::Tab => 39,
            Key::Backspace => 40,
            Key::Delete => 41,
            Key::ArrowUp => 42,
            Key::ArrowDown => 43,
            Key::ArrowLeft => 44,
            Key::ArrowRight => 45,
        }
    }

    /// The display name of this key.
    pub open spec fn name_spec(self) -> Seq<char> {
        match self {
            Key::A => "A"@,
            Key::B => "B"@,
            Key::C => "C"@,
            Key::D => "D"@,
            Key::E => "E"@,
            Key::F => "F"@,
            Key::G => "G"@,
            Key::H => "H"@,
            Key::I => "I"@,
            Key::J => "J"@,
            Key::K => "K"@,
            Key::L => "L"@,
            Key::M => "M"@,
            Key::N => "N"@,
            Key::O => "O"@,
            Key::P => "P"@,
            Key::Q => "Q"@,
            Key::R => "R"@,
            Key::S => "S"@,
            Key::T => "T"@,
            Key::U => "U"@,
            Key::V => "V"@,
            Key::W => "W"@,
            Key::X => "X"@,
            Key::Y => "Y"@,
            Key::Z => "Z"@,
            Key::Num0 => "Num0"@,
            Key::Num1 => "Num1"@,
            Key::Num2 => "Num2"@,
            Key::Num3 => "Num3"@,
            Key::Num4 => "Num4"@,
            Key::Num5 => "Num5"@,
            Key::Num6 => "Num6"@,
            Key::Num7 => "Num7"@,
            Key::Num8 => "Num8"@,
            Key::Num9 => "Num9"@,
            Key::Space => "Space"@,
            Key::Enter => "Enter"@,
            Key::Escape => "Escape"@,
            Key::Tab => "Tab"@,
            Key::Backspace => "Backspace"@,
            Key::Delete => "Delete"@,
            Key::ArrowUp => "ArrowUp"@,
            Key::ArrowDown => "ArrowDown"@,
            Key::ArrowLeft => "ArrowLeft"@,
            Key::ArrowRight => "ArrowRight"@,
        }
    }

    /// The display name of this key.
    pub fn name(self) -> (r: &'static str)
        ensures
            r@ == self.name_spec(),
    {
        match self {
            Key::A => "A",
            Key::B => "B",
            Key::C => "C",
            Key::D => "D",
            Key::E => "E",
            Key::F => "F",
            Key::G => "G",
            Key::H => "H",
            Key::I => "I",
            Key::J => "J",
            Key::K => "K",
            Key::L => "L",
            Key::M => "M",
            Key::N => "N",
            Key::O => "O",
            Key::P => "P",
            Key::Q => "Q",
            Key::R => "R",
            Key::S => "S",
            Key::T => "T",
            Key::U => "U",
            Key::V => "V",
            Key::W => "W",
            Key::X => "X",
            Key::Y => "Y",
            Key::Z => "Z",
            Key::Num0 => "Num0",
            Key::Num1 => "Num1",
            Key::Num2 => "Num2",
            Key::Num3 => "Num3",
            Key::Num4 => "Num4",
            Key::Num5 => "Num5",
            Key::Num6 => "Num6",
            Key::Num7 => "Num7",
            Key::Num8 => "Num8",
            Key::Num9 => "Num9",
            Key::Space => "Space",
            Key::Enter => "Enter",
            Key::Escape => "Escape",
            Key::Tab => "Tab",
            Key::Backspace => "Backspace",
            Key::Delete => "Delete",
            Key::ArrowUp => "ArrowUp",
            Key::ArrowDown => "ArrowDown",
            Key::ArrowLeft => "ArrowLeft",
            Key::ArrowRight => "ArrowRight",
        }
    }
}

/// The key whose rank is `r`, for ranks in range; an arbitrary fixed key
/// otherwise. Serves as the inverse witness showing that ranks are
/// distinct across variants.
pub open spec fn key_of_rank(r: int) -> Key {
    if r == 0 {
        Key::A
    } else if r == 1 {
        Key::B
    } else if r == 2 {
        Key::C
    } else if r == 3 {
        Key::D
    } else if r == 4 {
        Key::E
    } else if r == 5 {
        Key::F
    } else if r == 6 {
        Key::G
    } else if r == 7 {
        Key::H
    } else if r == 8 {
        Key::I
    } else if r == 9 {
        Key::J
    } else if r == 10 {
        Key::K
    } else if r == 11 {
        Key::L
    } else if r == 12 {
        Key::M
    } else if r == 13 {
        Key::N
    } else if r == 14 {
        Key::O
    } else if r == 15 {
        Key::P
    } else if r == 16 {
        Key::Q
    } else if r == 17 {
        Key::R
    } else if r == 18 {
        Key::S
    } else if r == 19 {
        Key::T
    } else if r == 20 {
        Key::U
    } else if r == 21 {
        Key::V
    } else if r == 22 {
        Key::W
    } else if r == 23 {
        Key::X
    } else if r == 24 {
        Key::Y
    } else if r == 25 {
        Key::Z
    } else if r == 26 {
        Key::Num0
    } else if r == 27 {
        Key::Num1
    } else if r == 28 {
        Key::Num2
    } else if r == 29 {
        Key::Num3
    } else if r == 30 {
        Key::Num4
    } else if r == 31 {
        Key::Num5
    } else if r == 32 {
        Key::Num6
    } else if r == 33 {
        Key::Num7
    } else if r == 34 {
        Key::Num8
    } else if r == 35 {
        Key::Num9
    } else if r == 36 {
        Key::Space
    } else if r == 37 {
        Key::Enter
    } else if r == 38 {
        Key::Escape
    } else if r == 39 {
        Key::Tab
    } else if r == 40 {
        Key::Backspace
    } else if r == 41 {
        Key::Delete
    } else if r == 42 {
        Key::ArrowUp
    } else if r == 43 {
        Key::ArrowDown
    } else if r == 44 {
        Key::ArrowLeft
    } else {
        Key::ArrowRight
    }
}

/// Every key is recovered from its rank.
pub proof fn lemma_key_of_rank(k: Key)
    ensures
        key_of_rank(k.rank_spec()) == k,
{
}

/// Distinct keys have distinct ranks.
pub proof fn lemma_rank_injective(a: Key, b: Key)
    requires
        a.rank_spec() == b.rank_spec(),
    ensures
        a == b,
{
    lemma_key_of_rank(a);
    lemma_key_of_rank(b);
}

/// A physical (layout-independent) key position. The identity carried is
/// the key reported at that position by the input backend.
#[derive(Clone, Copy, PartialEq, Eq, Structural)]
pub struct PhysicalKey(pub Key);

impl PhysicalKey {
    /// The display name of this physical key.
    pub open spec fn name_spec(self) -> Seq<char> {
        self.0.name_spec()
    }

    /// The display name of this physical key.
    pub fn name(self) -> (r: &'static str)
        ensures
            r@ == self.name_spec(),
    {
        self.0.name()
    }
}

} // verus!
