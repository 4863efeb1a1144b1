//! The viewport scroller: maps the selection onto a fixed-height terminal.

use vstd::prelude::*;

verus! {

/// The new scroll offset for a frame of `height` terminal rows (one of which
/// is reserved for the status line), with `total` items in the rendered
/// listing. Keeps one row of context above the selection when possible, and
/// advances so the selection sits near the bottom otherwise, with a one-row
/// adjustment when the selection is the very last item.
pub open spec fn scrolled(selected: int, offset: int, height: int, total: int) -> int {
    let off = if selected <= offset {
        if selected == 0 {
            0
        } else {
            selected - 1
        }
    } else {
        offset
    };
    if selected - off >= height - 3 {
        let adj: int = if selected + 1 == total {
            1
        } else {
            0
        };
        let base = selected + 3 - height;
        if base >= adj {
            base - adj
        } else {
            0
        }
    } else {
        off
    }
}

/// Recompute the scroll offset before a render. The output always keeps the
/// selection inside the rendered window: `r <= selected < r + height - 1`,
/// for every in-range selection, including the first and last item.
pub fn recompute_scroll(selected: usize, offset: usize, height: usize, total: usize) -> (r: usize)
    requires
        height >= 4,
        selected < total,
    ensures
        r == scrolled(selected as int, offset as int, height as int, total as int),
        r <= selected,
        selected < r + height - 1,
{
    let mut off = offset;
    if selected <= off {
        off = if selected == 0 {
            0
        } else {
            selected - 1
        };
    }
    if selected - off >= height - 3 {
        let adj: usize = if selected + 1 == total {
            1
        } else {
            0
        };
        let base = selected - (height - 3);
        off = if base >= adj {
            base - adj
        } else {
            0
        };
    }
    off
}

} // verus!
