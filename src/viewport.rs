use vstd::prelude::*;

verus! {

/// Largest value of a `u64`, as an integer.
pub open spec fn u64_top() -> int {
    u64::MAX as int
}

/// `x` clamped into the range of a `u64`.
pub open spec fn clamp_u64(x: int) -> int {
    if x < 0 {
        0
    } else if x > u64_top() {
        u64_top()
    } else {
        x
    }
}

/// The last cell of a window that starts at `top` and is `len` cells long:
/// `top + len` saturated to the range of a `u64`, minus one, and never above
/// `top` (so a window of length zero is one cell long).
pub open spec fn window_bottom(top: u64, len: u16) -> u64 {
    let end = clamp_u64(top + len);
    if end - 1 < top {
        top
    } else {
        (end - 1) as u64
    }
}

/// Scroll offsets and physical size of the visible window into a document.
#[derive(Debug, Clone, Copy)]
pub struct Viewport {
    row: u64,
    col: u64,
    width: u16,
    height: u16,
}

impl View for Viewport {
    /// `(top_row, top_col, width, height)`.
    type V = (u64, u64, u16, u16);

    closed spec fn view(&self) -> (u64, u64, u16, u16) {
        (self.row, self.col, self.width, self.height)
    }
}

impl Default for Viewport {
    fn default() -> (r: Viewport)
        ensures
            r@ == (0u64, 0u64, 0u16, 0u16),
    {
        Viewport { row: 0, col: 0, width: 0, height: 0 }
    }
}

/// Adds a signed delta to an unsigned offset, clamping to the range of `u64`.
pub fn saturating_offset(base: u64, delta: i64) -> (r: u64)
    ensures
        r as int == clamp_u64(base + delta),
{
    if delta >= 0 {
        base.saturating_add(delta as u64)
    } else {
        let down: u64 = (-(delta as i128)) as u64;
        base.saturating_sub(down)
    }
}

impl Viewport {
    /// Overwrites the whole state after a render.
    pub fn store(&mut self, row: u64, col: u64, width: u16, height: u16)
        ensures
            final(self)@ == (row, col, width, height),
    {
        self.width = width;
        self.height = height;
        self.row = row;
        self.col = col;
    }

    /// The logical coordinates of the top-left visible cell.
    pub fn scroll_top(&self) -> (r: (u64, u64))
        ensures
            r == (self@.0, self@.1),
    {
        (self.row, self.col)
    }

    /// Scroll offsets together with the last rendered width and height.
    pub fn rect(&self) -> (r: (u64, u64, u16, u16))
        ensures
            r == self@,
    {
        (self.row, self.col, self.width, self.height)
    }

    /// The inclusive visible rectangle `(row_top, col_top, row_bottom, col_bottom)`.
    /// A bottom never lies above its top, even for a zero-sized window.
    pub fn position(&self) -> (r: (u64, u64, u64, u64))
        ensures
            r == (self@.0, self@.1, window_bottom(self@.0, self@.3), window_bottom(self@.1, self@.2)),
            r.2 >= r.0,
            r.3 >= r.1,
    {
        let (row_top, col_top, width, height) = self.rect();
        let row_bottom = row_top.saturating_add(height as u64).saturating_sub(1);
        let col_bottom = col_top.saturating_add(width as u64).saturating_sub(1);
        let row_bottom = if row_bottom < row_top { row_top } else { row_bottom };
        let col_bottom = if col_bottom < col_top { col_top } else { col_bottom };
        (row_top, col_top, row_bottom, col_bottom)
    }

    /// Scrolls by a signed number of rows and columns; offsets stop at zero
    /// and at the largest `u64` instead of wrapping.
    pub fn scroll(&mut self, rows: i64, cols: i64)
        ensures
            final(self)@.0 as int == clamp_u64(old(self)@.0 + rows),
            final(self)@.1 as int == clamp_u64(old(self)@.1 + cols),
            final(self)@.2 == old(self)@.2,
            final(self)@.3 == old(self)@.3,
    {
        self.row = saturating_offset(self.row, rows);
        self.col = saturating_offset(self.col, cols);
    }
}

} // verus!
