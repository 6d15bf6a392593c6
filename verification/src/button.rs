use vstd::prelude::*;

use crate::rect::PxRect;

verus! {

/// What a button shows: an image named by path, a text label, or nothing.
#[derive(Clone, Debug)]
pub enum BtnContent {
    Image(String),
    Text(String),
    NoContent,
}

/// The clickable model of a button: its pixel bounds and its content.  A
/// renderer pairs this with whatever it needs to draw the button.
pub struct Button {
    pub rect: PxRect,
    pub content: BtnContent,
}

impl Button {
    /// Whether a click at `(px, py)` hits this button, edges inclusive.
    pub fn does_click(&self, px: u32, py: u32) -> (r: bool)
        ensures
            r == self.rect.spec_contains(px, py),
    {
        self.rect.does_click(px, py)
    }
}

} // verus!
