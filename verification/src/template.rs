//! Board templates: pre-printed grids of placement constraints, one of
//! which each player permanently adopts for the match.

use vstd::prelude::*;
use crate::color::Color;
use crate::constants::{BOARD_COLS, BOARD_ROWS};

verus! {

/// A board-cell constraint. Immutable once a template is chosen.
#[derive(Clone, Copy, Debug, PartialEq, Eq, Structural)]
pub enum Slot {
    /// Accepts any die.
    Any,
    /// Accepts only dice of this color.
    Color(Color),
    /// Accepts only dice showing this face value.
    Face(u8),
}

/// A fixed grid of slots plus the starting token value a player receives
/// for adopting it.
#[derive(Clone, Debug)]
pub struct BoardTemplate {
    pub slots: Vec<Vec<Slot>>,
    pub value: u8,
}

impl BoardTemplate {
    /// A template is well formed when its slot grid has the board's
    /// dimensions.
    pub open spec fn wf(self) -> bool {
        &&& self.slots@.len() == BOARD_ROWS
        &&& forall|i: int| 0 <= i < self.slots@.len() ==> (#[trigger] self.slots@[i])@.len() == BOARD_COLS
    }
}

fn red() -> (s: Slot)
    ensures
        s == Slot::Color(Color::Red),
{
    Slot::Color(Color::Red)
}

fn yellow() -> (s: Slot)
    ensures
        s == Slot::Color(Color::Yellow),
{
    Slot::Color(Color::Yellow)
}

fn green() -> (s: Slot)
    ensures
        s == Slot::Color(Color::Green),
{
    Slot::Color(Color::Green)
}

fn blue() -> (s: Slot)
    ensures
        s == Slot::Color(Color::Blue),
{
    Slot::Color(Color::Blue)
}

fn purple() -> (s: Slot)
    ensures
        s == Slot::Color(Color::Purple),
{
    Slot::Color(Color::Purple)
}

fn face(n: u8) -> (s: Slot)
    ensures
        s == Slot::Face(n),
{
    Slot::Face(n)
}

fn open_slot() -> (s: Slot)
    ensures
        s == Slot::Any,
{
    Slot::Any
}

/// Builds one board row from five slots.
fn row5(a: Slot, b: Slot, c: Slot, d: Slot, e: Slot) -> (v: Vec<Slot>)
    ensures
        v@ == seq![a, b, c, d, e],
{
    let mut v: Vec<Slot> = Vec::new();
    v.push(a);
    v.push(b);
    v.push(c);
    v.push(d);
    v.push(e);
    proof {
        assert(v@ =~= seq![a, b, c, d, e]);
    }
    v
}

/// Assembles a template from four rows and a starting token value.
fn template(r0: Vec<Slot>, r1: Vec<Slot>, r2: Vec<Slot>, r3: Vec<Slot>, value: u8) -> (t:
    BoardTemplate)
    requires
        r0@.len() == BOARD_COLS,
        r1@.len() == BOARD_COLS,
        r2@.len() == BOARD_COLS,
        r3@.len() == BOARD_COLS,
    ensures
        t.wf(),
        t.value == value,
{
    let mut slots: Vec<Vec<Slot>> = Vec::new();
    slots.push(r0);
    slots.push(r1);
    slots.push(r2);
    slots.push(r3);
    BoardTemplate { slots, value }
}

/// Appends a well-formed template, keeping every element well formed.
fn push_template(v: &mut Vec<BoardTemplate>, t: BoardTemplate)
    requires
        forall|i: int| 0 <= i < old(v)@.len() ==> (#[trigger] old(v)@[i]).wf(),
        t.wf(),
    ensures
        final(v)@.len() == old(v)@.len() + 1,
        forall|i: int| 0 <= i < final(v)@.len() ==> (#[trigger] final(v)@[i]).wf(),
{
    v.push(t);
}

/// The full template catalog: twelve cards with two sides each.
pub fn all_board_templates() -> (v: Vec<BoardTemplate>)
    ensures
        v@.len() == 24,
        forall|i: int| 0 <= i < v@.len() ==> (#[trigger] v@[i]).wf(),
{
    let mut v: Vec<BoardTemplate> = Vec::new();
    // Bellesguard
    push_template(&mut v, template(
        row5(blue(), face(6), open_slot(), open_slot(), yellow()),
        row5(open_slot(), face(3), blue(), open_slot(), open_slot()),
        row5(open_slot(), face(5), face(6), face(2), open_slot()),
        row5(open_slot(), face(4), open_slot(), face(1), green()),
        3,
    ));
    // Batllo
    push_template(&mut v, template(
        row5(open_slot(), open_slot(), face(6), open_slot(), open_slot()),
        row5(open_slot(), face(5), blue(), face(4), open_slot()),
        row5(face(3), green(), yellow(), purple(), face(2)),
        row5(face(1), face(4), red(), face(5), face(3)),
        5,
    ));
    // Fractal Drops
    push_template(&mut v, template(
        row5(open_slot(), face(4), open_slot(), yellow(), face(6)),
        row5(red(), open_slot(), face(2), open_slot(), open_slot()),
        row5(open_slot(), open_slot(), red(), purple(), face(1)),
        row5(blue(), yellow(), open_slot(), open_slot(), open_slot()),
        3,
    ));
    // Ripples of Light
    push_template(&mut v, template(
        row5(open_slot(), open_slot(), open_slot(), red(), face(5)),
        row5(open_slot(), open_slot(), purple(), face(4), blue()),
        row5(open_slot(), blue(), face(3), yellow(), face(6)),
        row5(yellow(), face(2), green(), face(1), red()),
        5,
    ));
    // Luz Celestial
    push_template(&mut v, template(
        row5(open_slot(), open_slot(), red(), face(5), open_slot()),
        row5(purple(), face(4), open_slot(), green(), face(3)),
        row5(face(6), open_slot(), open_slot(), blue(), open_slot()),
        row5(open_slot(), yellow(), face(2), open_slot(), open_slot()),
        3,
    ));
    // Fulgor del Cielo
    push_template(&mut v, template(
        row5(open_slot(), blue(), red(), open_slot(), open_slot()),
        row5(open_slot(), face(4), face(5), open_slot(), blue()),
        row5(blue(), face(2), open_slot(), red(), face(5)),
        row5(face(6), red(), face(3), face(1), open_slot()),
        5,
    ));
    // Sun Catcher
    push_template(&mut v, template(
        row5(open_slot(), blue(), face(2), open_slot(), yellow()),
        row5(open_slot(), face(4), open_slot(), red(), open_slot()),
        row5(open_slot(), open_slot(), face(5), yellow(), open_slot()),
        row5(green(), face(3), open_slot(), open_slot(), purple()),
        3,
    ));
    // Shadow Thief
    push_template(&mut v, template(
        row5(face(6), purple(), open_slot(), open_slot(), face(5)),
        row5(face(5), open_slot(), purple(), open_slot(), open_slot()),
        row5(red(), face(6), open_slot(), purple(), open_slot()),
        row5(yellow(), red(), face(5), face(4), face(3)),
        5,
    ));
    // Symphony of Light
    push_template(&mut v, template(
        row5(face(2), open_slot(), face(5), open_slot(), face(1)),
        row5(yellow(), face(6), purple(), face(2), red()),
        row5(open_slot(), blue(), face(4), green(), open_slot()),
        row5(open_slot(), face(3), open_slot(), face(5), open_slot()),
        6,
    ));
    // Virtus
    push_template(&mut v, template(
        row5(face(4), open_slot(), face(2), face(5), green()),
        row5(open_slot(), open_slot(), face(6), green(), face(2)),
        row5(open_slot(), face(3), green(), face(4), open_slot()),
        row5(face(5), green(), face(1), open_slot(), open_slot()),
        5,
    ));
    // Aurorae Magnificus
    push_template(&mut v, template(
        row5(face(5), green(), blue(), purple(), face(2)),
        row5(purple(), open_slot(), open_slot(), open_slot(), yellow()),
        row5(yellow(), open_slot(), face(6), open_slot(), purple()),
        row5(face(1), open_slot(), open_slot(), green(), face(4)),
        5,
    ));
    // Aurora Sagradis
    push_template(&mut v, template(
        row5(red(), open_slot(), blue(), open_slot(), yellow()),
        row5(face(4), purple(), face(3), green(), face(2)),
        row5(open_slot(), face(1), open_slot(), face(5), open_slot()),
        row5(open_slot(), open_slot(), face(6), open_slot(), open_slot()),
        4,
    ));
    // Industria
    push_template(&mut v, template(
        row5(face(1), red(), face(3), open_slot(), face(6)),
        row5(face(5), face(4), red(), face(2), open_slot()),
        row5(open_slot(), open_slot(), face(5), red(), face(1)),
        row5(open_slot(), open_slot(), open_slot(), face(3), red()),
        5,
    ));
    // Via Lux
    push_template(&mut v, template(
        row5(yellow(), open_slot(), face(6), open_slot(), open_slot()),
        row5(open_slot(), face(1), face(5), open_slot(), face(2)),
        row5(face(3), yellow(), red(), purple(), open_slot()),
        row5(open_slot(), open_slot(), face(4), face(3), red()),
        4,
    ));
    // Sun's Glory
    push_template(&mut v, template(
        row5(face(1), purple(), yellow(), open_slot(), face(4)),
        row5(purple(), yellow(), open_slot(), open_slot(), face(6)),
        row5(yellow(), open_slot(), open_slot(), face(5), face(3)),
        row5(open_slot(), face(5), face(4), face(2), face(1)),
        6,
    ));
    // Firelight
    push_template(&mut v, template(
        row5(face(3), face(4), face(1), face(5), open_slot()),
        row5(open_slot(), face(6), face(2), open_slot(), yellow()),
        row5(open_slot(), open_slot(), open_slot(), yellow(), red()),
        row5(face(5), open_slot(), yellow(), red(), face(6)),
        5,
    ));
    // Lux Mundi
    push_template(&mut v, template(
        row5(open_slot(), open_slot(), face(1), open_slot(), open_slot()),
        row5(face(1), green(), face(3), blue(), face(2)),
        row5(blue(), face(5), face(4), face(6), green()),
        row5(open_slot(), blue(), face(5), green(), open_slot()),
        6,
    ));
    // Lux Astram
    push_template(&mut v, template(
        row5(open_slot(), face(1), green(), purple(), face(4)),
        row5(face(6), purple(), face(2), face(5), green()),
        row5(face(1), green(), face(5), face(3), purple()),
        row5(open_slot(), open_slot(), open_slot(), open_slot(), open_slot()),
        5,
    ));
    // Water of Life
    push_template(&mut v, template(
        row5(face(6), blue(), open_slot(), open_slot(), face(1)),
        row5(open_slot(), face(5), blue(), open_slot(), open_slot()),
        row5(face(4), red(), face(2), blue(), open_slot()),
        row5(green(), face(6), yellow(), face(3), purple()),
        6,
    ));
    // Gravitas
    push_template(&mut v, template(
        row5(face(1), open_slot(), face(3), blue(), open_slot()),
        row5(open_slot(), face(2), blue(), open_slot(), open_slot()),
        row5(face(6), blue(), open_slot(), face(4), open_slot()),
        row5(blue(), face(5), face(2), open_slot(), face(1)),
        5,
    ));
    // Firmitas
    push_template(&mut v, template(
        row5(purple(), face(6), open_slot(), open_slot(), face(3)),
        row5(face(5), purple(), face(3), open_slot(), open_slot()),
        row5(open_slot(), face(2), purple(), face(1), open_slot()),
        row5(open_slot(), face(1), face(5), purple(), face(4)),
        5,
    ));
    // Kaleidoscopic Dream
    push_template(&mut v, template(
        row5(yellow(), blue(), open_slot(), open_slot(), face(1)),
        row5(green(), open_slot(), face(5), open_slot(), face(4)),
        row5(face(3), open_slot(), red(), open_slot(), green()),
        row5(face(2), open_slot(), open_slot(), blue(), yellow()),
        4,
    ));
    // Chromatic Splendor
    push_template(&mut v, template(
        row5(open_slot(), open_slot(), green(), open_slot(), open_slot()),
        row5(face(2), yellow(), face(5), blue(), face(1)),
        row5(open_slot(), red(), face(3), purple(), open_slot()),
        row5(face(1), open_slot(), face(6), open_slot(), face(4)),
        4,
    ));
    // Comitas
    push_template(&mut v, template(
        row5(yellow(), open_slot(), face(2), open_slot(), face(6)),
        row5(open_slot(), face(4), open_slot(), face(5), yellow()),
        row5(open_slot(), open_slot(), open_slot(), yellow(), face(5)),
        row5(face(1), face(2), yellow(), face(3), open_slot()),
        5,
    ));
    v
}

} // verus!
