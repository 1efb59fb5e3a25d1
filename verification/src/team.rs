//! The teams of a game, with their names and colours.

use vstd::prelude::*;

verus! {

#[derive(Clone, Copy, PartialEq, Eq, Structural, Debug)]
pub enum Team {
    Black,
    Blue,
    Brown,
    Cyan,
    Gray,
    Green,
    LightBlue,
    LightGray,
    Lime,
    Magenta,
    Orange,
    Pink,
    Purple,
    Red,
    White,
    Yellow,
}

impl Team {
    /// The name that players see.
    pub open spec fn title(self) -> Seq<char> {
        match self {
            Team::Black => "Black"@,
            Team::Blue => "Blue"@,
            Team::Brown => "Brown"@,
            Team::Cyan => "Cyan"@,
            Team::Gray => "Gray"@,
            Team::Green => "Green"@,
            Team::LightBlue => "Light Blue"@,
            Team::LightGray => "Light Gray"@,
            Team::Lime => "Lime"@,
            Team::Magenta => "Magenta"@,
            Team::Orange => "Orange"@,
            Team::Pink => "Pink"@,
            Team::Purple => "Purple"@,
            Team::Red => "Red"@,
            Team::White => "White"@,
            Team::Yellow => "Yellow"@,
        }
    }

    /// The colour, as red, green and blue in one number: that of the wool.
    pub open spec fn color(self) -> int {
        match self {
            Team::Black => 0x141519,
            Team::Blue => 0x35399d,
            Team::Brown => 0x724728,
            Team::Cyan => 0x158991,
            Team::Gray => 0x3e4447,
            Team::Green => 0x546d1b,
            Team::LightBlue => 0x3aafd9,
            Team::LightGray => 0x8e8e86,
            Team::Lime => 0x70b919,
            Team::Magenta => 0xbd44b3,
            Team::Orange => 0xf07613,
            Team::Pink => 0xed8dac,
            Team::Purple => 0x792aac,
            Team::Red => 0xa12722,
            Team::White => 0xe9ecec,
            Team::Yellow => 0xf8c627,
        }
    }

    /// The name that players see.
    pub fn name(self) -> (r: &'static str)
        ensures
            r@ == self.title(),
    {
        match self {
            Team::Black => "Black",
            Team::Blue => "Blue",
            Team::Brown => "Brown",
            Team::Cyan => "Cyan",
            Team::Gray => "Gray",
            Team::Green => "Green",
            Team::LightBlue => "Light Blue",
            Team::LightGray => "Light Gray",
            Team::Lime => "Lime",
            Team::Magenta => "Magenta",
            Team::Orange => "Orange",
            Team::Pink => "Pink",
            Team::Purple => "Purple",
            Team::Red => "Red",
            Team::White => "White",
            Team::Yellow => "Yellow",
        }
    }

    /// The colour, as red, green and blue.
    pub fn rgb(self) -> (r: (u8, u8, u8))
        ensures
            r.0 as int * 0x1_0000 + r.1 as int * 0x100 + r.2 as int == self.color(),
            r == (match self {
                Team::Black => (0x14u8, 0x15u8, 0x19u8),
                Team::Blue => (0x35u8, 0x39u8, 0x9du8),
                Team::Brown => (0x72u8, 0x47u8, 0x28u8),
                Team::Cyan => (0x15u8, 0x89u8, 0x91u8),
                Team::Gray => (0x3eu8, 0x44u8, 0x47u8),
                Team::Green => (0x54u8, 0x6du8, 0x1bu8),
                Team::LightBlue => (0x3au8, 0xafu8, 0xd9u8),
                Team::LightGray => (0x8eu8, 0x8eu8, 0x86u8),
                Team::Lime => (0x70u8, 0xb9u8, 0x19u8),
                Team::Magenta => (0xbdu8, 0x44u8, 0xb3u8),
                Team::Orange => (0xf0u8, 0x76u8, 0x13u8),
                Team::Pink => (0xedu8, 0x8du8, 0xacu8),
                Team::Purple => (0x79u8, 0x2au8, 0xacu8),
                Team::Red => (0xa1u8, 0x27u8, 0x22u8),
                Team::White => (0xe9u8, 0xecu8, 0xecu8),
                Team::Yellow => (0xf8u8, 0xc6u8, 0x27u8),
            }),
    {
        match self {
            Team::Black => (0x14, 0x15, 0x19),
            Team::Blue => (0x35, 0x39, 0x9d),
            Team::Brown => (0x72, 0x47, 0x28),
            Team::Cyan => (0x15, 0x89, 0x91),
            Team::Gray => (0x3e, 0x44, 0x47),
            Team::Green => (0x54, 0x6d, 0x1b),
            Team::LightBlue => (0x3a, 0xaf, 0xd9),
            Team::LightGray => (0x8e, 0x8e, 0x86),
            Team::Lime => (0x70, 0xb9, 0x19),
            Team::Magenta => (0xbd, 0x44, 0xb3),
            Team::Orange => (0xf0, 0x76, 0x13),
            Team::Pink => (0xed, 0x8d, 0xac),
            Team::Purple => (0x79, 0x2a, 0xac),
            Team::Red => (0xa1, 0x27, 0x22),
            Team::White => (0xe9, 0xec, 0xec),
            Team::Yellow => (0xf8, 0xc6, 0x27),
        }
    }
}

/// No two teams share a colour.
pub proof fn law_teams_have_their_own_colors(a: Team, b: Team)
    requires
        a.color() == b.color(),
    ensures
        a == b,
{
}

/// The team that players are in when they join.
pub fn initial_team() -> (r: Team)
    ensures
        r == Team::Red,
{
    Team::Red
}

/// No two teams share a name.
pub proof fn law_teams_have_their_own_names(a: Team, b: Team)
    requires
        a.title() == b.title(),
    ensures
        a == b,
{
    reveal_strlit("Black");
    reveal_strlit("Blue");
    reveal_strlit("Brown");
    reveal_strlit("Cyan");
    reveal_strlit("Gray");
    reveal_strlit("Green");
    reveal_strlit("Light Blue");
    reveal_strlit("Light Gray");
    reveal_strlit("Lime");
    reveal_strlit("Magenta");
    reveal_strlit("Orange");
    reveal_strlit("Pink");
    reveal_strlit("Purple");
    reveal_strlit("Red");
    reveal_strlit("White");
    reveal_strlit("Yellow");
    let s = a.title();
    let t = b.title();
    assert(s.len() == t.len() && s[0] == t[0] && s[1] == t[1] && s[2] == t[2]);
    assert(s.len() == 10 ==> s[6] == t[6]);
}

} // verus!
