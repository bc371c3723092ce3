//! Where things stand on the screen, in terms of columns and rows.

use vstd::prelude::*;

use crate::component::{FileTreeView, Line, RowStyle};
use crate::layout::{PreviewLayout, Rect};

verus! {

/// The smaller of two numbers is one of them and not above either; a difference
/// is what is left of the first, or nothing.
pub proof fn law_least_and_less(left: int, right: int)
    ensures
        ({
            let least = crate::layout::least(left, right);
            let less = crate::layout::less(left, right);
            &&& least <= left && least <= right && (least == left || least == right)
            &&& left >= right ==> less + right == left
            &&& left < right ==> less == 0
        }),
{
}

/// Taking rows off the bottom keeps the corner and the width, and leaves what
/// there is above.
pub proof fn law_clip_bottom(area: Rect, rows: u16)
    ensures
        ({
            let left = area.clipped_bottom(rows);
            &&& left.x == area.x && left.y == area.y && left.width == area.width
            &&& area.height >= rows ==> left.height + rows == area.height
            &&& area.height < rows ==> left.height == 0
        }),
{
}

/// A text in the middle has as many columns free on its left as on its right, or
/// one less; one that is too long starts at the left edge. Half of the rows are
/// above it, rounded down.
pub proof fn law_center(area: Rect, len: int)
    requires
        0 <= len,
    ensures
        ({
            let (x, y) = crate::layout::centered(area, len);
            let left = x - area.x;
            let right = area.width - len - left;
            let above = y - area.y;
            &&& len <= area.width ==> 0 <= left && (left == right || left + 1 == right)
            &&& len > area.width ==> left == 0
            &&& 2 * above <= area.height < 2 * above + 2
        }),
{
}

/// The prompt has the last row to itself, as wide as the area; without rows it
/// has the first.
pub proof fn law_prompt_row(inner: Rect)
    requires
        inner.y + inner.height <= u16::MAX + 1,
    ensures
        ({
            let row = crate::layout::bottom_row(inner);
            &&& row.x == inner.x && row.width == inner.width && row.height == 1
            &&& inner.height > 0 ==> row.y + 1 == inner.y + inner.height
            &&& inner.height == 0 ==> row.y == inner.y
        }),
{
}

/// An area is divided side by side from 73 columns on and one above the other
/// from 21 rows on, and else not at all. The list gets the first half, rounded
/// down, and the preview all that is left, directly behind, but never beyond the
/// last column or row that can be counted.
pub proof fn law_split(layout: PreviewLayout, area: Rect)
    ensures
        ({
            let (list, preview) = layout.shares(area);
            match layout {
                PreviewLayout::Right => {
                    &&& area.width <= 72 ==> list == area && preview is None
                    &&& area.width >= 73 ==> {
                        &&& 2 * list.width <= area.width < 2 * list.width + 2
                        &&& list == (Rect { width: list.width, ..area })
                        &&& preview matches Some(preview)
                        &&& list.x + list.width <= u16::MAX ==> preview.x == list.x + list.width
                        &&& list.x + list.width > u16::MAX ==> preview.x == u16::MAX
                        &&& preview.width + list.width == area.width
                        &&& preview.y == area.y && preview.height == area.height
                    }
                },
                PreviewLayout::Bottom => {
                    &&& area.height <= 20 ==> list == area && preview is None
                    &&& area.height >= 21 ==> {
                        &&& 2 * list.height <= area.height < 2 * list.height + 2
                        &&& list == (Rect { height: list.height, ..area })
                        &&& preview matches Some(preview)
                        &&& list.y + list.height <= u16::MAX ==> preview.y == list.y + list.height
                        &&& list.y + list.height > u16::MAX ==> preview.y == u16::MAX
                        &&& preview.height + list.height == area.height
                        &&& preview.x == area.x && preview.width == area.width
                    }
                },
            }
        }),
{
}

/// The rows of the tree get the area that there is, without its last row where
/// a prompt or a question is open.
pub proof fn law_list_area<D>(view: FileTreeView<D>, inner: Rect)
    ensures
        ({
            let list = view.list_area(inner);
            let shared = view.prompt is Some || view.confirm is Some;
            &&& list == (Rect { height: list.height, ..inner })
            &&& !shared || inner.height == 0 ==> list.height == inner.height
            &&& shared && inner.height > 0 ==> list.height + 1 == inner.height
        }),
{
}

/// Scrolling goes no further than it must: of all places of the view from which
/// the cursor can be seen and no row is wasted below the last, it takes the
/// nearest. Without room there is nothing to scroll, and an empty tree is shown
/// from its start.
pub proof fn law_scroll_is_least(offset: int, len: int, selected: int, height: int, other: int)
    requires
        0 <= offset,
        0 <= selected < len || (selected == 0 && len == 0),
        0 <= height,
    ensures
        ({
            let now = crate::component::scrolled(offset, len, selected, height);
            &&& height == 0 ==> now == offset
            &&& height > 0 && len == 0 ==> now == 0
            &&& height > 0 && len > 0 ==> now <= selected < now + height && (now == 0 || 0 < now && now + height
                <= len)
            &&& height > 0 && len > 0 && other <= selected < other + height && (other == 0 || 0 < other
                && other + height <= len) ==> {
                ||| now == other
                ||| offset <= now < other
                ||| other < now <= offset
            }
        }),
{
}

/// Drawing scrolls, remembers how many rows fit, and changes nothing else.
pub proof fn law_scroll_into<D>(view: FileTreeView<D>, inner: Rect)
    ensures
        ({
            let after = view.scroll_into(inner);
            &&& after == (FileTreeView { offset: after.offset, height: after.height, ..view })
            &&& after.height == view.list_area(inner).height
            &&& after.offset == crate::component::scrolled(
                view.offset,
                view.tree.rows.len() as int,
                view.tree.selected,
                after.height,
            )
        }),
{
}

/// As many rows are drawn as fit and as there are from the first visible one on.
pub proof fn law_drawn_rows<D>(view: FileTreeView<D>)
    requires
        0 <= view.offset,
        0 <= view.height,
    ensures
        ({
            let drawn = view.drawn_rows();
            let len = view.tree.rows.len() as int;
            &&& 0 <= drawn <= view.height
            &&& drawn > 0 ==> view.offset + drawn <= len
            &&& drawn < view.height ==> view.offset + drawn >= len
        }),
{
}

/// A row is drawn as it should be: two columns in for each level, then two for
/// the marker, two for the icon, and the name in what is left. The marker says
/// of a directory whether it is open, a directory's name ends in a slash, and
/// the row under the cursor stands out. Columns are counted in 16 bits.
pub proof fn law_line<D>(view: FileTreeView<D>, line: Line, list: Rect, row: int)
    requires
        view.is_line(line, list, row),
        0 <= row,
        0 <= view.offset,
        view.offset + row < view.tree.rows.len(),
    ensures
        ({
            let entry = view.tree.rows[view.offset + row];
            let name = crate::path::shown_text(crate::path::buf_text(&entry.path));
            let indent = line.x - list.x;
            &&& line.index == view.offset + row
            &&& line.y == list.y + row
            &&& entry.depth < 0x8000 ==> indent == 2 * entry.depth
            &&& 0 <= indent < 0x1_0000 && indent == (2 * entry.depth) % 0x1_0000
            &&& indent <= list.width ==> line.width + indent == list.width
            &&& indent > list.width ==> line.width == 0
            &&& line.icon_x == line.x + 2
            &&& line.name_x == line.x + 4
            &&& line.width >= 4 ==> line.name_width + 4 == line.width
            &&& line.width < 4 ==> line.name_width == 0
            &&& !entry.is_dir ==> line.marker@ == "  "@ && line.name@ == name
            &&& entry.is_dir ==> line.name@ == name + "/"@
            &&& entry.is_dir && entry.expanded ==> line.marker@ == "▾ "@
            &&& entry.is_dir && !entry.expanded ==> line.marker@ == "▸ "@
            &&& line.style == RowStyle::Selected <==> view.offset + row == view.tree.selected
            &&& line.style == RowStyle::Directory ==> entry.is_dir
            &&& line.style == RowStyle::Text ==> !entry.is_dir
        }),
{
    let entry = view.tree.rows[view.offset + row];
    assert(entry.depth * crate::component::INDENT == 2 * entry.depth);
}

} // verus!
