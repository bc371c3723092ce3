//! Where things are drawn: areas of the screen, and how a list shares its area
//! with a preview.

use vstd::prelude::*;

verus! {

/// Narrower than this, a side-by-side preview leaves neither pane usable.
pub const MIN_WIDTH: u16 = 72;

/// Shorter than this, a stacked preview leaves neither pane usable.
pub const MIN_HEIGHT: u16 = 20;

/// A rectangle of screen cells.
#[derive(Debug, Clone, Copy, PartialEq, Eq, Structural)]
pub struct Rect {
    pub x: u16,
    pub y: u16,
    pub width: u16,
    pub height: u16,
}

/// The smaller of two numbers.
pub open spec fn least(left: int, right: int) -> int {
    if left < right {
        left
    } else {
        right
    }
}

/// `left - right`, or nothing where `right` is larger.
pub open spec fn less(left: int, right: int) -> int {
    if left < right {
        0
    } else {
        left - right
    }
}

impl Rect {
    /// Whether a cell lies in the area.
    pub open spec fn contains(self, column: int, row: int) -> bool {
        self.x <= column < self.x + self.width && self.y <= row < self.y + self.height
    }

    /// The area at the same place with another width.
    pub fn with_width(self, width: u16) -> (area: Rect)
        ensures
            area == (Rect { width, ..self }),
    {
        Rect { x: self.x, y: self.y, width, height: self.height }
    }

    /// The area at the same place with another height.
    pub fn with_height(self, height: u16) -> (area: Rect)
        ensures
            area == (Rect { height, ..self }),
    {
        Rect { x: self.x, y: self.y, width: self.width, height }
    }

    /// The area without its first `width` columns, down to no column at all.
    pub fn clip_left(self, width: u16) -> (area: Rect)
        ensures
            area.x == least(self.x + least(width as int, self.width as int), u16::MAX as int),
            area.width == less(self.width as int, width as int),
            area.y == self.y && area.height == self.height,
    {
        let clipped: u16 = if width < self.width {
            width
        } else {
            self.width
        };
        Rect {
            x: self.x.saturating_add(clipped),
            y: self.y,
            width: self.width - clipped,
            height: self.height,
        }
    }

    /// The area without its first `height` rows, down to no row at all.
    pub fn clip_top(self, height: u16) -> (area: Rect)
        ensures
            area.y == least(self.y + least(height as int, self.height as int), u16::MAX as int),
            area.height == less(self.height as int, height as int),
            area.x == self.x && area.width == self.width,
    {
        let clipped: u16 = if height < self.height {
            height
        } else {
            self.height
        };
        Rect {
            x: self.x,
            y: self.y.saturating_add(clipped),
            width: self.width,
            height: self.height - clipped,
        }
    }

    /// The area without its last `height` rows, down to no row at all.
    pub fn clip_bottom(self, height: u16) -> (area: Rect)
        ensures
            area == self.clipped_bottom(height),
    {
        Rect {
            x: self.x,
            y: self.y,
            width: self.width,
            height: self.height.saturating_sub(height),
        }
    }

    /// The area without its last `height` rows.
    pub open spec fn clipped_bottom(self, height: u16) -> Rect {
        Rect { height: less(self.height as int, height as int) as u16, ..self }
    }
}

/// Where a text of `len` cells starts so as to stand in the middle of an area.
pub open spec fn centered(area: Rect, len: int) -> (int, int) {
    (area.x + less(area.width as int, len) / 2, area.y + area.height as int / 2)
}

/// The column and the row where a text of `len` cells starts so as to stand in
/// the middle of `area`.
pub fn center(area: Rect, len: u16) -> (at: (u32, u32))
    ensures
        at.0 == centered(area, len as int).0,
        at.1 == centered(area, len as int).1,
{
    let gap: u16 = area.width.saturating_sub(len);
    (area.x as u32 + (gap / 2) as u32, area.y as u32 + (area.height / 2) as u32)
}

/// The bottom row of the tree's inner area, where the prompt is drawn.
pub open spec fn bottom_row(inner: Rect) -> Rect {
    Rect { y: (inner.y + less(inner.height as int, 1)) as u16, height: 1, ..inner }
}

/// The bottom row of the tree's inner area, where the prompt is drawn.
pub fn prompt_row(inner: Rect) -> (row: Rect)
    requires
        inner.y + inner.height <= u16::MAX + 1,
    ensures
        row == bottom_row(inner),
{
    Rect {
        x: inner.x,
        y: inner.y + inner.height.saturating_sub(1),
        width: inner.width,
        height: 1,
    }
}

/// What becomes of the terminal's cursor while a layer is on top. Either answer
/// keeps the editor's own cursor from showing through.
#[derive(Debug, Clone, Copy, PartialEq, Eq, Structural)]
pub enum Cursor {
    /// It is hidden, in the top left corner.
    Hidden,
    /// It is where typing lands in the prompt drawn in this row.
    Prompt(Rect),
}

/// Where a list draws its preview.
#[derive(Debug, Clone, Copy, PartialEq, Eq, Structural)]
pub enum PreviewLayout {
    /// Beside the list.
    Right,
    /// Under the list.
    Bottom,
}

impl Default for PreviewLayout {
    fn default() -> (layout: Self)
        ensures
            layout == PreviewLayout::Right,
    {
        PreviewLayout::Right
    }
}

impl PreviewLayout {
    /// Whether an area is large enough to be divided this way.
    pub open spec fn has_room(self, area: Rect) -> bool {
        match self {
            PreviewLayout::Right => area.width > MIN_WIDTH,
            PreviewLayout::Bottom => area.height > MIN_HEIGHT,
        }
    }

    /// The list's share of an area that has room for a preview.
    pub open spec fn list_share(self, area: Rect) -> Rect {
        match self {
            PreviewLayout::Right => Rect { width: area.width / 2, ..area },
            PreviewLayout::Bottom => Rect { height: area.height / 2, ..area },
        }
    }

    /// The preview's share of an area that has room for one: what the list
    /// leaves. It cannot start beyond the last column or row there is.
    pub open spec fn preview_share(self, area: Rect) -> Rect {
        match self {
            PreviewLayout::Right => Rect {
                x: least(area.x + area.width / 2, u16::MAX as int) as u16,
                width: (area.width - area.width / 2) as u16,
                ..area
            },
            PreviewLayout::Bottom => Rect {
                y: least(area.y + area.height / 2, u16::MAX as int) as u16,
                height: (area.height - area.height / 2) as u16,
                ..area
            },
        }
    }

    /// The two shares of an area.
    pub open spec fn shares(self, area: Rect) -> (Rect, Option<Rect>) {
        if self.has_room(area) {
            (self.list_share(area), Some(self.preview_share(area)))
        } else {
            (area, None)
        }
    }

    /// Divides `area` into the list area and, where there is room for one, the
    /// preview area.
    pub fn split(self, area: Rect) -> (panes: (Rect, Option<Rect>))
        ensures
            panes == self.shares(area),
    {
        match self {
            PreviewLayout::Right if area.width > MIN_WIDTH => {
                let width: u16 = area.width / 2;
                (area.with_width(width), Some(area.clip_left(width)))
            },
            PreviewLayout::Bottom if area.height > MIN_HEIGHT => {
                let height: u16 = area.height / 2;
                (area.with_height(height), Some(area.clip_top(height)))
            },
            // Too cramped to divide: the list gets everything and the caller
            // skips the preview.
            _ => (area, None),
        }
    }
}

/// A split loses no cell and shares none: each cell of the area is in exactly
/// one of the two panes, and the panes hold no other cell.
pub proof fn law_split_partitions(layout: PreviewLayout, area: Rect, column: int, row: int)
    requires
        area.x + area.width <= u16::MAX + 1,
        area.y + area.height <= u16::MAX + 1,
    ensures
        ({
            let (list, preview) = layout.shares(area);
            let in_preview = preview is Some && preview->0.contains(column, row);
            &&& area.contains(column, row) <==> (list.contains(column, row) || in_preview)
            &&& !(list.contains(column, row) && in_preview)
        }),
{
}

/// The two panes are of the same size, up to one column or row that goes to
/// the preview.
pub proof fn law_split_halves(layout: PreviewLayout, area: Rect)
    ensures
        layout.shares(area).1 matches Some(preview) ==> {
            let list = layout.shares(area).0;
            match layout {
                PreviewLayout::Right => {
                    &&& list.width <= preview.width <= list.width + 1
                    &&& list.width + preview.width == area.width
                    &&& list.height == area.height && preview.height == area.height
                },
                PreviewLayout::Bottom => {
                    &&& list.height <= preview.height <= list.height + 1
                    &&& list.height + preview.height == area.height
                    &&& list.width == area.width && preview.width == area.width
                },
            }
        },
{
}

/// Each layout minds its own dimension only: the other one never decides
/// whether there is a preview.
pub proof fn law_split_own_dimension(area: Rect, other: u16)
    ensures
        PreviewLayout::Right.shares(area).1 is Some <==> PreviewLayout::Right.shares(
            Rect { height: other, ..area },
        ).1 is Some,
        PreviewLayout::Bottom.shares(area).1 is Some <==> PreviewLayout::Bottom.shares(
            Rect { width: other, ..area },
        ).1 is Some,
{
}

} // verus!
