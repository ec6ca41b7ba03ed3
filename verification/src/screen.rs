//! Terminal viewport geometry: size, scroll offsets, and cursor reveal.

use vstd::prelude::*;

use crate::keys::KeyCode;

verus! {

/// Terminal size and scroll state; the bottom row is the status line.
#[derive(Clone, Copy, Debug, PartialEq, Eq, Structural)]
pub struct Screen {
    pub width: u16,
    pub height: u16,
    pub scroll_top: usize,
    pub scroll_left: usize,
    pub wrap_col: usize,
}

/// Rows available for content: everything but the status line.
pub open spec fn content_rows(s: Screen) -> int {
    if s.height >= 1 {
        s.height - 1
    } else {
        0
    }
}

/// `pos` lies inside the window of `size` cells starting at `start`.
pub open spec fn shown(start: int, size: int, pos: int) -> bool {
    start <= pos < start + size
}

/// The scroll offset after revealing `pos` in a window of `size` cells.
pub open spec fn revealed(start: int, size: int, pos: int) -> int {
    if size <= 0 {
        0
    } else if pos < start {
        pos
    } else if pos >= start + size {
        pos - size + 1
    } else {
        start
    }
}

impl Screen {
    pub fn new(width: u16, height: u16) -> (s: Screen)
        ensures
            s == (Screen { width, height, scroll_top: 0, scroll_left: 0, wrap_col: 0 }),
    {
        Screen { width, height, scroll_top: 0, scroll_left: 0, wrap_col: 0 }
    }

    pub fn visible_height(&self) -> (h: usize)
        ensures
            h == content_rows(*self),
    {
        if self.height >= 1 {
            (self.height - 1) as usize
        } else {
            0
        }
    }

    pub fn visible_width(&self) -> (w: usize)
        ensures
            w == self.width,
    {
        self.width as usize
    }

    pub fn update_size(&mut self, width: u16, height: u16)
        ensures
            *final(self) == (Screen { width, height, ..*old(self) }),
    {
        self.width = width;
        self.height = height;
    }

    /// A zero-sized dimension cannot keep a scroll offset.
    pub fn clamp_scroll(&mut self)
        ensures
            final(self).width == old(self).width,
            final(self).height == old(self).height,
            final(self).wrap_col == old(self).wrap_col,
            final(self).scroll_top == if content_rows(*old(self)) == 0 {
                0
            } else {
                old(self).scroll_top
            },
            final(self).scroll_left == if old(self).width == 0 {
                0
            } else {
                old(self).scroll_left
            },
    {
        if self.visible_height() == 0 {
            self.scroll_top = 0;
        }
        if self.width == 0 {
            self.scroll_left = 0;
        }
    }

    /// Scrolls the least amount that shows `row`.
    pub fn reveal_row(&mut self, row: usize)
        ensures
            final(self).scroll_top == revealed(old(self).scroll_top as int, content_rows(*old(self)), row as int),
            content_rows(*old(self)) > 0 ==> shown(final(self).scroll_top as int, content_rows(*old(self)), row as int),
            final(self).width == old(self).width,
            final(self).height == old(self).height,
            final(self).scroll_left == old(self).scroll_left,
            final(self).wrap_col == old(self).wrap_col,
    {
        let size = self.visible_height();
        self.scroll_top = scroll_to_show(self.scroll_top, size, row);
    }

    /// Scrolls the least amount that shows `col` in the full width.
    pub fn reveal_col(&mut self, col: usize)
        ensures
            final(self).scroll_left == revealed(old(self).scroll_left as int, old(self).width as int, col as int),
            old(self).width > 0 ==> shown(final(self).scroll_left as int, old(self).width as int, col as int),
            final(self).width == old(self).width,
            final(self).height == old(self).height,
            final(self).scroll_top == old(self).scroll_top,
            final(self).wrap_col == old(self).wrap_col,
    {
        let size = self.width as usize;
        self.scroll_left = scroll_to_show(self.scroll_left, size, col);
    }

    /// Scrolls the least amount that shows `col` in `width` content columns.
    pub fn reveal_col_with_width(&mut self, col: usize, width: usize)
        ensures
            final(self).scroll_left == revealed(old(self).scroll_left as int, width as int, col as int),
            width > 0 ==> shown(final(self).scroll_left as int, width as int, col as int),
            final(self).width == old(self).width,
            final(self).height == old(self).height,
            final(self).scroll_top == old(self).scroll_top,
            final(self).wrap_col == old(self).wrap_col,
    {
        self.scroll_left = scroll_to_show(self.scroll_left, width, col);
    }
}

/// The least scroll change that shows `pos` in a window of `size` cells.
fn scroll_to_show(start: usize, size: usize, pos: usize) -> (res: usize)
    ensures
        res == revealed(start as int, size as int, pos as int),
        size > 0 ==> shown(res as int, size as int, pos as int),
{
    if size == 0 {
        0
    } else if pos < start {
        pos
    } else if pos - start >= size {
        pos - size + 1
    } else {
        start
    }
}


/// The first shown line after scrolling a read-only view of `lines` lines
/// with `code`: arrows move one line, pages one screen, Home and End to the
/// ends; the view never scrolls past its last line.
pub open spec fn scrolled(top: int, lines: int, rows: int, code: KeyCode) -> int {
    let last = if lines > 0 { lines - 1 } else { 0 };
    let page = if rows > 0 { rows } else { 1 };
    let want = match code {
        KeyCode::Up => top - 1,
        KeyCode::Down => top + 1,
        KeyCode::PageUp => top - page,
        KeyCode::PageDown => top + page,
        KeyCode::Home => 0,
        KeyCode::End => last,
        _ => top,
    };
    if want < 0 {
        0
    } else if want > last {
        last
    } else {
        want
    }
}

/// The keys that scroll a read-only view.
pub open spec fn scroll_key(code: KeyCode) -> bool {
    code == KeyCode::Up || code == KeyCode::Down || code == KeyCode::PageUp || code == KeyCode::PageDown
        || code == KeyCode::Home || code == KeyCode::End
}

impl Screen {
    /// Scrolls a read-only view of `lines` lines.
    pub fn scroll_view(&mut self, lines: usize, code: KeyCode)
        ensures
            *final(self) == (Screen {
                scroll_top: scrolled(old(self).scroll_top as int, lines as int, content_rows(*old(self)), code) as usize,
                ..*old(self)
            }),
    {
        let last: usize = if lines > 0 { lines - 1 } else { 0 };
        let rows = self.visible_height();
        let page: usize = if rows > 0 { rows } else { 1 };
        let top = self.scroll_top;
        let want: usize = match code {
            KeyCode::Up => if top > 0 { top - 1 } else { 0 },
            KeyCode::Down => if top < last { top + 1 } else { last },
            KeyCode::PageUp => if top > page { top - page } else { 0 },
            KeyCode::PageDown => if top < last && last - top > page { top + page } else { last },
            KeyCode::Home => 0,
            KeyCode::End => last,
            _ => if top > last { last } else { top },
        };
        self.scroll_top = if want > last { last } else { want };
    }
}

} // verus!
