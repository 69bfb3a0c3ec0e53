//! The five-color palette and the colored six-sided die value type.

use vstd::prelude::*;
use crate::rng::random_face;

verus! {

/// One of the five die colors. A player's hidden "secret" scoring color is
/// also drawn from this palette.
#[derive(Clone, Copy, Debug, PartialEq, Eq, Structural)]
pub enum Color {
    Red,
    Yellow,
    Green,
    Blue,
    Purple,
}

/// The full palette, in catalog order.
pub open spec fn all_colors_seq() -> Seq<Color> {
    seq![Color::Red, Color::Yellow, Color::Green, Color::Blue, Color::Purple]
}

/// Builds the palette as a vector, in catalog order.
pub fn all_colors() -> (v: Vec<Color>)
    ensures
        v@ == all_colors_seq(),
{
    let mut v: Vec<Color> = Vec::new();
    v.push(Color::Red);
    v.push(Color::Yellow);
    v.push(Color::Green);
    v.push(Color::Blue);
    v.push(Color::Purple);
    proof {
        assert(v@ =~= all_colors_seq());
    }
    v
}

/// A colored six-sided die showing one face value.
#[derive(Clone, Copy, Debug, PartialEq, Eq, Structural)]
pub struct Dice {
    pub color: Color,
    pub face: u8,
}

/// The ASCII letter naming a color on the wire: the color's initial.
pub open spec fn color_letter(c: Color) -> u8 {
    match c {
        Color::Red => 82u8,
        Color::Yellow => 89u8,
        Color::Green => 71u8,
        Color::Blue => 66u8,
        Color::Purple => 80u8,
    }
}

impl Color {
    /// The ASCII letter naming this color on the wire.
    pub fn letter(self) -> (b: u8)
        ensures
            b == color_letter(self),
    {
        match self {
            Color::Red => 82,
            Color::Yellow => 89,
            Color::Green => 71,
            Color::Blue => 66,
            Color::Purple => 80,
        }
    }

    /// The color named by the given ASCII letter, if any.
    pub fn from_letter(b: u8) -> (r: Option<Color>)
        ensures
            r matches Some(c) ==> color_letter(c) == b,
            forall|c: Color| color_letter(c) == b ==> r == Some(c),
    {
        match b {
            82 => Some(Color::Red),
            89 => Some(Color::Yellow),
            71 => Some(Color::Green),
            66 => Some(Color::Blue),
            80 => Some(Color::Purple),
            _ => None,
        }
    }
}

/// The two-byte wire code of a die: the color letter, then the face value
/// as an ASCII digit.
pub open spec fn dice_code(d: Dice) -> Seq<u8> {
    seq![color_letter(d.color), (48 + d.face) as u8]
}

impl Dice {
    /// A die is well formed when it shows one of the six face values.
    pub open spec fn wf(self) -> bool {
        1 <= self.face <= 6
    }

    /// Rolls a fresh die of the given color.
    pub fn roll(color: Color) -> (d: Dice)
        ensures
            d.color == color,
            d.wf(),
    {
        Dice { color, face: random_face() }
    }

    /// Rerolls the face, keeping the color.
    pub fn reroll(&mut self)
        ensures
            final(self).color == old(self).color,
            final(self).wf(),
    {
        self.face = random_face();
    }

    /// Encodes the die as its two-byte wire code.
    pub fn to_code_bytes(&self) -> (v: Vec<u8>)
        requires
            self.wf(),
        ensures
            v@ == dice_code(*self),
    {
        let mut v: Vec<u8> = Vec::new();
        v.push(self.color.letter());
        v.push(48 + self.face);
        proof {
            assert(v@ =~= dice_code(*self));
        }
        v
    }

    /// Decodes a die from its two-byte wire code; exactly the codes of
    /// well-formed dice are accepted.
    pub fn from_code_bytes(b: &[u8]) -> (r: Option<Dice>)
        ensures
            r matches Some(d) ==> d.wf() && b@ == dice_code(d),
            forall|d: Dice| d.wf() && b@ == dice_code(d) ==> r == Some(d),
    {
        if b.len() != 2 {
            return None;
        }
        let color = match Color::from_letter(b[0]) {
            Some(c) => c,
            None => {
                return None;
            },
        };
        let digit = b[1];
        if digit < 49 || digit > 54 {
            proof {
                assert(forall|d: Dice| d.wf() && b@ == dice_code(d) ==> 49 <= b@[1] <= 54);
            }
            return None;
        }
        let d = Dice { color, face: digit - 48 };
        proof {
            assert(b@ =~= dice_code(d));
        }
        Some(d)
    }

    /// The same die turned to its opposite face (opposite faces of a die
    /// always sum to 7).
    pub open spec fn flipped(self) -> Dice {
        Dice { color: self.color, face: (7 - self.face) as u8 }
    }

    /// Turns the die to its opposite face.
    pub fn flip(&mut self)
        requires
            old(self).wf(),
        ensures
            *final(self) == old(self).flipped(),
            final(self).wf(),
    {
        self.face = 7 - self.face;
    }

    /// Raises the face value by one, saturating at 6.
    pub fn increment(&mut self)
        requires
            old(self).wf(),
        ensures
            final(self).color == old(self).color,
            final(self).face == if old(self).face == 6 { 6int } else { old(self).face + 1 },
            final(self).wf(),
    {
        if self.face < 6 {
            self.face = self.face + 1;
        }
    }

    /// Lowers the face value by one, saturating at 1.
    pub fn decrement(&mut self)
        requires
            old(self).wf(),
        ensures
            final(self).color == old(self).color,
            final(self).face == if old(self).face == 1 { 1int } else { old(self).face - 1 },
            final(self).wf(),
    {
        if self.face > 1 {
            self.face = self.face - 1;
        }
    }
}

} // verus!
