use vstd::prelude::*;

verus! {

/// A rectangle in pixel space: its canonical position and size, plus a
/// pixel offset added before conversion to device space (used for scroll
/// translation).  Positions are integers and may be negative or off
/// screen.  The float device-space vertices a renderer derives from these
/// fields are recomputed on every viewport resize or offset change, never
/// stored alongside them.
#[derive(Clone, Copy, PartialEq, Eq, Structural, Debug)]
pub struct PxRect {
    pub x: i64,
    pub y: i64,
    pub w: u32,
    pub h: u32,
    pub offset_x: i64,
    pub offset_y: i64,
}

impl PxRect {
    /// A rectangle at a pixel position with a pixel size and offset.
    pub fn new(x: i64, y: i64, w: u32, h: u32, offset_x: i64, offset_y: i64) -> (r: PxRect)
        ensures
            r == (PxRect { x, y, w, h, offset_x, offset_y }),
    {
        PxRect { x, y, w, h, offset_x, offset_y }
    }

    /// Replaces position and size together, keeping the offset.
    pub fn set_rect(&mut self, x: i64, y: i64, w: u32, h: u32)
        ensures
            *final(self) == (PxRect {
                x,
                y,
                w,
                h,
                offset_x: old(self).offset_x,
                offset_y: old(self).offset_y,
            }),
    {
        self.x = x;
        self.y = y;
        self.w = w;
        self.h = h;
    }

    /// Replaces the position, keeping size and offset.
    pub fn set_pos(&mut self, x: i64, y: i64)
        ensures
            *final(self) == (PxRect { x, y, ..*old(self) }),
    {
        self.x = x;
        self.y = y;
    }

    /// Replaces the offset, keeping position and size.
    pub fn set_offset(&mut self, offset_x: i64, offset_y: i64)
        ensures
            *final(self) == (PxRect { offset_x, offset_y, ..*old(self) }),
    {
        self.offset_x = offset_x;
        self.offset_y = offset_y;
    }

    /// The canonical pixel position.
    pub fn get_pos(&self) -> (p: (i64, i64))
        ensures
            p.0 == self.x,
            p.1 == self.y,
    {
        (self.x, self.y)
    }

    /// Point-in-rectangle containment, all four edges inclusive.
    pub open spec fn spec_contains(self, px: u32, py: u32) -> bool {
        &&& self.x <= px as int <= self.x + self.w
        &&& self.y <= py as int <= self.y + self.h
    }

    /// Whether a click at `(px, py)` hits this rectangle; the hit test of
    /// the rectangular UI controls, edges inclusive.
    pub fn does_click(&self, px: u32, py: u32) -> (r: bool)
        ensures
            r == self.spec_contains(px, py),
    {
        let cx = px as i128;
        let cy = py as i128;
        let x0 = self.x as i128;
        let y0 = self.y as i128;
        cx >= x0 && cx <= x0 + self.w as i128 && cy >= y0 && cy <= y0 + self.h as i128
    }
}

/// The height of the top margin bar in pixels.
pub const MARGIN_HEIGHT: u32 = 20;

/// The side of the square margin icons in pixels.
pub const ICON_SIDE: u32 = 16;

/// The inset of the margin icons from the screen corner in pixels.
pub const ICON_INSET: i64 = 2;

/// The pixel layout of the top margin: the bar across the top of the
/// screen, the modified-state icon at its left, and the exit button at its
/// right.
#[derive(Clone, Copy, PartialEq, Eq, Structural, Debug)]
pub struct TopMarginLayout {
    pub bar: PxRect,
    pub icon: PxRect,
    pub exit_button: PxRect,
}

/// Where the top-margin chrome sits for a given screen width and height:
/// the bar spans the full width at the top, the icon sits inset at the
/// left, and the exit button sits inset from the right edge.
pub fn top_margin_layout(screen_w: u32, screen_h: u32) -> (m: TopMarginLayout)
    ensures
        m.bar == (PxRect { x: 0, y: 0, w: screen_w, h: MARGIN_HEIGHT, offset_x: 0, offset_y: 0 }),
        m.icon == (PxRect {
            x: ICON_INSET,
            y: ICON_INSET,
            w: ICON_SIDE,
            h: ICON_SIDE,
            offset_x: 0,
            offset_y: 0,
        }),
        m.exit_button.x == screen_w - 20,
        m.exit_button.y == ICON_INSET,
        m.exit_button.w == ICON_SIDE,
        m.exit_button.h == ICON_SIDE,
        m.exit_button.offset_x == 0,
        m.exit_button.offset_y == 0,
{
    let bar = PxRect::new(0, 0, screen_w, MARGIN_HEIGHT, 0, 0);
    let icon = PxRect::new(ICON_INSET, ICON_INSET, ICON_SIDE, ICON_SIDE, 0, 0);
    let exit_button = PxRect::new(screen_w as i64 - 20, ICON_INSET, ICON_SIDE, ICON_SIDE, 0, 0);
    TopMarginLayout { bar, icon, exit_button }
}

} // verus!
