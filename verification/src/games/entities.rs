use vstd::prelude::*;
use unicode_width::UnicodeWidthStr;

verus! {

/// The number of terminal columns that the text `s` covers, as the
/// `unicode_width` crate measures it (East Asian wide characters count two
/// columns, zero-width characters none).
pub uninterp spec fn display_columns(s: Seq<char>) -> nat;

/// Calls `UnicodeWidthStr::width` of the `unicode_width` crate.
/// Trusted: its result is the display width that crate computes for `s`,
/// which depends on the text alone; nothing more is claimed of it.
#[verifier::external_body]
pub(crate) fn text_display_width(s: &str) -> (w: usize)
    ensures
        w == display_columns(s@),
{
    UnicodeWidthStr::width(s)
}

/// Something drawn on the board: its cell, its glyph, how many columns the
/// glyph covers, and the cell at which it was last drawn.
pub struct Entity {
    pub x: u16,
    pub y: u16,
    pub display: String,
    pub width: u16,
    pub last_x: u16,
    pub last_y: u16,
}

/// The mathematical value of an [`Entity`].
pub struct EntityView {
    pub x: u16,
    pub y: u16,
    pub display: Seq<char>,
    pub width: u16,
    pub last_x: u16,
    pub last_y: u16,
}

impl View for Entity {
    type V = EntityView;

    open spec fn view(&self) -> EntityView {
        EntityView {
            x: self.x,
            y: self.y,
            display: self.display@,
            width: self.width,
            last_x: self.last_x,
            last_y: self.last_y,
        }
    }
}

/// Two entities collide when they stand on the same row and the column
/// spans `[x, x + width)` that they cover overlap.
pub open spec fn spans_collide(a: EntityView, b: EntityView) -> bool {
    &&& a.y == b.y
    &&& a.x < b.x + b.width
    &&& b.x < a.x + a.width
}

impl Entity {
    /// Whether `self` and `other` cover a common cell.
    pub fn coll_detect(&self, other: &Entity) -> (hit: bool)
        ensures
            hit == spans_collide(self@, other@),
    {
        let a_end: u32 = self.x as u32 + self.width as u32;
        let b_end: u32 = other.x as u32 + other.width as u32;
        self.y == other.y && (self.x as u32) < b_end && (other.x as u32) < a_end
    }
}

/// What every figure of a game offers: where it is, how to move it, and
/// the glyph it is drawn with.
pub trait GameEntity {
    /// The cell of the figure.
    spec fn cell(&self) -> (u16, u16);

    /// The glyph of the figure.
    spec fn glyph(&self) -> Seq<char>;

    fn position(&self) -> (p: (u16, u16))
        ensures
            p == self.cell(),
    ;

    fn move_to(&mut self, x: u16, y: u16)
        ensures
            final(self).cell() == (x, y),
            final(self).glyph() == old(self).glyph(),
    ;

    fn display(&self) -> (s: &str)
        ensures
            s@ == self.glyph(),
    ;
}

} // verus!
