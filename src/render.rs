use vstd::prelude::*;
use crate::buffer::{active_pattern, min_int, Buffer, BufferView};
use crate::find::{lists_occurrences, occurrences};
use crate::scroll::{digit_count, follow, next_scroll_top, num_digits};
use crate::text::view_lines;

verus! {

/// One document line in the visible window.
#[derive(Debug, Clone)]
pub struct VisibleLine {
    /// Index of the line in the document.
    pub row: usize,
    /// The line's text.
    pub content: Vec<char>,
    /// Column of the cursor, when the cursor is on this line.
    pub cursor: Option<usize>,
    /// Columns where the active search pattern occurs, in increasing order.
    pub matches: Vec<usize>,
}

/// What one render of a buffer shows.
#[derive(Debug, Clone)]
pub struct Frame {
    /// First visible row.
    pub top_row: u64,
    /// First visible column.
    pub top_col: u64,
    /// Width of the line-number gutter, zero when lines are not numbered.
    pub gutter: usize,
    /// The visible lines, top to bottom.
    pub lines: Vec<VisibleLine>,
    /// Text shown in place of an empty document, after a cursor cell.
    pub placeholder: Option<Vec<char>>,
}

/// The number shown for the last visible line of a window that starts at
/// row `top` and is `height` rows high: `min(top + height, line count)`.
pub open spec fn last_visible_number(v: BufferView, top: int, height: int) -> int {
    min_int(top + height, v.lines.len() as int)
}

/// Width of the line-number gutter of a window that starts at row `top` and
/// is `height` rows high: the digits of the largest line number shown and a
/// separating space, or nothing without line numbers.
pub open spec fn gutter_width(v: BufferView, top: int, height: int) -> int {
    if v.line_numbers { digit_count(last_visible_number(v, top, height) as nat) + 1 as int } else { 0 }
}

/// Columns left for text beside the gutter in a window `width` cells wide.
pub open spec fn text_width(v: BufferView, top: int, height: int, width: u16) -> int {
    if width >= gutter_width(v, top, height) { width - gutter_width(v, top, height) } else { 0 }
}

/// `ms` lists the occurrences of `p` in `line`; none for an empty pattern.
pub open spec fn highlights(line: Seq<char>, p: Seq<char>, ms: Seq<usize>) -> bool {
    if p.len() == 0 { ms.len() == 0 } else { lists_occurrences(line, p, ms) }
}

/// `out` holds lines `top .. min(top + height, line count)` of `v`, each
/// with its row, its text, the cursor column on the cursor's line and the
/// occurrences of the active search pattern.
pub open spec fn shows_lines(v: BufferView, top: int, height: int, out: Seq<VisibleLine>) -> bool {
    &&& out.len() == (if top < v.lines.len() { min_int(top + height, v.lines.len() as int) - top } else { 0 })
    &&& forall|i: int| 0 <= i < out.len() ==> {
        &&& (#[trigger] out[i]).row == top + i
        &&& out[i].content@ == v.lines[top + i]
        &&& out[i].cursor == (if top + i == v.row { Some(v.col as usize) } else { None::<usize> })
        &&& highlights(v.lines[top + i], active_pattern(v), out[i].matches@)
    }
}

/// `r` is the frame of buffer `v` in a window `width` by `height` cells:
/// the scroll offsets follow the cursor from the last viewport, along rows
/// with the window's height and along columns with the width left beside
/// the gutter; an empty document with a placeholder shows only the
/// placeholder, any other document its visible lines.
pub open spec fn renders(v: BufferView, width: u16, height: u16, r: Frame) -> bool {
    &&& r.top_row as int == follow(v.viewport.0 as int, v.row, height as int)
    &&& r.top_col as int == follow(v.viewport.1 as int, v.col, text_width(v, r.top_row as int, height as int, width))
    &&& r.gutter == gutter_width(v, r.top_row as int, height as int)
    &&& r.top_row <= v.row
    &&& (v.placeholder.len() > 0 && v.lines.len() == 1 && v.lines[0].len() == 0) ==> (r.placeholder matches Some(
        p,
    ) && p@ == v.placeholder && r.lines@.len() == 0)
    &&& !(v.placeholder.len() > 0 && v.lines.len() == 1 && v.lines[0].len() == 0) ==> (r.placeholder is None
        && shows_lines(v, r.top_row as int, height as int, r.lines@))
}

/// Draws a buffer: lays out the visible window around the cursor.
pub struct Renderer<'a>(&'a Buffer);

impl<'a> Renderer<'a> {
    /// The buffer drawn.
    pub closed spec fn buffer(&self) -> &'a Buffer {
        self.0
    }

    /// A renderer for `buffer`.
    pub fn new(buffer: &'a Buffer) -> (r: Self)
        ensures
            r.buffer() == buffer,
    {
        Renderer(buffer)
    }

    /// Lines `top_row .. top_row + height` that exist, ready to draw.
    pub fn text(&self, top_row: usize, height: usize) -> (r: Vec<VisibleLine>)
        requires
            self.buffer().wf(),
        ensures
            shows_lines(self.buffer()@, top_row as int, height as int, r@),
    {
        let b = self.0;
        proof {
            b.lemma_wf();
        }
        let lines = b.lines();
        let (row, col) = b.cursor();
        let n = lines.len();
        let pattern = b.search_text();
        let bottom: usize = if top_row < n && height < n - top_row { top_row + height } else { n };
        let mut out: Vec<VisibleLine> = Vec::new();
        let mut i: usize = top_row;
        while i < bottom
            invariant
                view_lines(lines@) == b@.lines,
                n == lines@.len(),
                row == b@.row && col == b@.col,
                bottom <= n,
                top_row <= i || bottom <= top_row,
                i < bottom ==> out@.len() == i - top_row,
                bottom == (if top_row < n { min_int(top_row + height, n as int) } else { n as int }),
                i >= bottom ==> shows_lines(b@, top_row as int, height as int, out@),
                i < bottom ==> forall|k: int| 0 <= k < out@.len() ==> {
                    &&& (#[trigger] out@[k]).row == top_row + k
                    &&& out@[k].content@ == b@.lines[top_row + k]
                    &&& out@[k].cursor == (if top_row + k == b@.row { Some(b@.col as usize) } else { None::<usize> })
                    &&& highlights(b@.lines[top_row + k], active_pattern(b@), out@[k].matches@)
                },
                pattern@ == active_pattern(b@),
            decreases bottom - i,
        {
            let content = lines[i].clone();
            assert(content@ =~= b@.lines[i as int]);
            let cursor = if i == row { Some(col) } else { None };
            let matches = occurrences(&lines[i], &pattern);
            out.push(VisibleLine { row: i, content, cursor, matches });
            i = i + 1;
        }
        out
    }

    /// The placeholder line of an empty document.
    fn placeholder_text(&self) -> (r: Vec<char>)
        ensures
            r@ == self.buffer()@.placeholder,
    {
        self.0.placeholder().clone()
    }

    /// Lays out a window `width` by `height` cells: the scroll offsets follow
    /// the cursor from the buffer's last viewport, along rows with the
    /// window's height and along columns with the width left beside the
    /// gutter. An empty document with a placeholder shows the placeholder.
    pub fn render(self, width: u16, height: u16) -> (r: Frame)
        requires
            self.buffer().wf(),
        ensures
            renders(self.buffer()@, width, height, r),
    {
        let b = self.0;
        proof {
            b.lemma_wf();
        }
        let (row, col) = b.cursor();
        let (top_row, top_col) = b.viewport().scroll_top();
        let top_row = next_scroll_top(top_row, row as u64, height as u64);
        let n = b.lines().len();
        let top = top_row as usize;
        let last_number: usize = if (height as usize) < n - top { top + height as usize } else { n };
        let gutter: usize = if b.line_numbers() {
            num_digits(last_number) as usize + 1
        } else {
            0
        };
        let text_cols: u64 = if width as usize >= gutter { (width as usize - gutter) as u64 } else { 0 };
        let top_col = next_scroll_top(top_col, col as u64, text_cols);
        if b.placeholder().len() > 0 && b.is_empty() {
            Frame { top_row, top_col, gutter, lines: Vec::new(), placeholder: Some(self.placeholder_text()) }
        } else {
            let lines = self.text(top_row as usize, height as usize);
            Frame { top_row, top_col, gutter, lines, placeholder: None }
        }
    }
}

impl Buffer {
    /// Renders the buffer into a window `width` by `height` cells and stores
    /// the resulting scroll offsets and size in its viewport, once.
    pub fn render(&mut self, width: u16, height: u16) -> (r: Frame)
        requires
            old(self).wf(),
        ensures
            final(self).wf(),
            final(self)@ == (BufferView { viewport: (r.top_row, r.top_col, width, height), ..old(self)@ }),
            renders(old(self)@, width, height, r),
    {
        let frame = Renderer::new(self).render(width, height);
        self.store_viewport(frame.top_row, frame.top_col, width, height);
        frame
    }
}

} // verus!
