use vstd::prelude::*;
use crate::find::{find_first_from, find_last_before, first_from, last_before, none_before, none_from};
use crate::input::{Input, Key};
use crate::search::{opened, SearchBox, SearchView};
use crate::history::{
    bounded_push, copy_lines, lemma_record, lemma_redo, lemma_undo, reapplied, redoable, reverted, splice, splice_lines,
    undoable, view_changes, Change, ChangeView, MAX_HISTORY,
};
use crate::text::{
    contents_of, file_contents, fits, in_text, lemma_parse_bounds, lines_of, one_line, parse_lines, text_wf,
    view_lines,
};
use crate::viewport::{clamp_u64, window_bottom, Viewport};

verus! {

/// How much chrome surrounds the content area.
#[derive(Debug, Clone, Copy, PartialEq, Eq, Structural)]
pub enum Fullscreen {
    Off,
    Half,
    Full,
}

/// The next fullscreen mode in the cycle off, half, full.
pub open spec fn next_mode(f: Fullscreen) -> Fullscreen {
    match f {
        Fullscreen::Off => Fullscreen::Half,
        Fullscreen::Half => Fullscreen::Full,
        Fullscreen::Full => Fullscreen::Off,
    }
}

/// Abstract state of one open document.
pub struct BufferView {
    pub lines: Seq<Seq<char>>,
    pub row: int,
    pub col: int,
    pub anchor: Option<(int, int)>,
    pub modified: bool,
    pub hard_tab: bool,
    pub line_numbers: bool,
    pub fullscreen: Fullscreen,
    pub search: SearchView,
    pub viewport: (u64, u64, u16, u16),
    pub path: Seq<char>,
    pub placeholder: Seq<char>,
    /// Edits that can be undone, oldest first.
    pub history: Seq<ChangeView>,
    /// Undone edits that can be redone, the next one last.
    pub future: Seq<ChangeView>,
}

/// What the Tab key inserts at column `c`: a hard tab, or spaces up to the
/// next multiple of four.
pub open spec fn tab_text(hard: bool, c: int) -> Seq<char> {
    if hard {
        seq!['\t']
    } else {
        Seq::new((4 - c % 4) as nat, |i: int| ' ')
    }
}

/// An editing key as a change of the text: from row `.0`, `.1` lines are
/// replaced by the lines `.2`, and the cursor goes to `(.3, .4)`. `None` when
/// the key does not edit here (a movement, an edge of the document, a line
/// that would no longer fit in memory).
pub open spec fn edit(v: BufferView, key: Key) -> Option<(int, int, Seq<Seq<char>>, int, int)> {
    let ls = v.lines;
    let r = v.row;
    let c = v.col;
    let line = ls[r];
    match key {
        Key::Char(ch) => if ch != '\n' && ch != '\r' && fits(line.len() + 1) {
            Some((r, 1, seq![line.take(c) + seq![ch] + line.skip(c)], r, c + 1))
        } else {
            None
        },
        Key::Tab => if fits(line.len() + tab_text(v.hard_tab, c).len()) {
            Some((r, 1, seq![line.take(c) + tab_text(v.hard_tab, c) + line.skip(c)], r, c + tab_text(v.hard_tab, c).len()))
        } else {
            None
        },
        Key::Enter => if fits(ls.len() + 1) {
            Some((r, 1, seq![line.take(c), line.skip(c)], r + 1, 0))
        } else {
            None
        },
        Key::Backspace => if c > 0 {
            Some((r, 1, seq![line.remove(c - 1)], r, c - 1))
        } else if r > 0 && fits(ls[r - 1].len() + line.len()) {
            Some((r - 1, 2, seq![ls[r - 1] + line], r - 1, ls[r - 1].len() as int))
        } else {
            None
        },
        Key::Delete => if c < line.len() {
            Some((r, 1, seq![line.remove(c)], r, c))
        } else if r + 1 < ls.len() && fits(line.len() + ls[r + 1].len()) {
            Some((r, 2, seq![line + ls[r + 1]], r, c))
        } else {
            None
        },
        _ => None,
    }
}

/// The buffer after the lines from row `r` (`k` of them) are replaced by
/// `new` and the cursor moves to `(nr, nc)`: the edit is recorded for undo,
/// the redo list is cleared, the selection dropped and the buffer marked
/// modified.
pub open spec fn edited(v: BufferView, r: int, k: int, new: Seq<Seq<char>>, nr: int, nc: int) -> BufferView {
    BufferView {
        lines: splice(v.lines, r, k, new),
        row: nr,
        col: nc,
        anchor: None,
        modified: true,
        history: bounded_push(
            v.history,
            ChangeView { row: r, old: v.lines.subrange(r, r + k), new, before: (v.row, v.col), after: (nr, nc) },
        ),
        future: Seq::empty(),
        ..v
    }
}

/// The buffer after undo: the last edit is reverted and the cursor goes back
/// to where it was before it; nothing happens without an edit to undo.
pub open spec fn undone(v: BufferView) -> BufferView {
    if v.history.len() == 0 {
        v
    } else {
        let ch = v.history.last();
        BufferView {
            lines: reverted(v.lines, ch),
            row: ch.before.0,
            col: ch.before.1,
            anchor: None,
            modified: true,
            history: v.history.drop_last(),
            future: v.future.push(ch),
            ..v
        }
    }
}

/// The buffer after redo: the last undone edit is made again and the
/// cursor goes where that edit left it; nothing happens without one.
pub open spec fn redone(v: BufferView) -> BufferView {
    if v.future.len() == 0 {
        v
    } else {
        let ch = v.future.last();
        BufferView {
            lines: reapplied(v.lines, ch),
            row: ch.after.0,
            col: ch.after.1,
            anchor: None,
            modified: true,
            history: bounded_push(v.history, ch),
            future: v.future.drop_last(),
            ..v
        }
    }
}

/// Ctrl-U undoes.
pub open spec fn is_undo(input: Input) -> bool {
    input.ctrl && !input.alt && input.key == Key::Char('u')
}

/// Ctrl-R redoes.
pub open spec fn is_redo(input: Input) -> bool {
    input.ctrl && !input.alt && input.key == Key::Char('r')
}

/// The key moves the cursor.
pub open spec fn is_move(key: Key) -> bool {
    match key {
        Key::Left | Key::Right | Key::Up | Key::Down | Key::Home | Key::End => true,
        _ => false,
    }
}

/// Smaller of two integers.
pub open spec fn min_int(a: int, b: int) -> int {
    if a <= b { a } else { b }
}

/// The cursor after a movement key.
pub open spec fn moved(v: BufferView, key: Key) -> (int, int) {
    let ls = v.lines;
    let r = v.row;
    let c = v.col;
    match key {
        Key::Left => if c > 0 {
            (r, c - 1)
        } else if r > 0 {
            (r - 1, ls[r - 1].len() as int)
        } else {
            (r, c)
        },
        Key::Right => if c < ls[r].len() {
            (r, c + 1)
        } else if r + 1 < ls.len() {
            (r + 1, 0)
        } else {
            (r, c)
        },
        Key::Up => if r > 0 {
            (r - 1, min_int(c, ls[r - 1].len() as int))
        } else {
            (r, c)
        },
        Key::Down => if r + 1 < ls.len() {
            (r + 1, min_int(c, ls[r + 1].len() as int))
        } else {
            (r, c)
        },
        Key::Home => (r, 0),
        Key::End => (r, ls[r].len() as int),
        _ => (r, c),
    }
}

/// The buffer after one key of editing input: Ctrl-U and Ctrl-R undo and
/// redo; an edit replaces lines and moves the cursor (see `edited`); a
/// movement moves the cursor, extending the selection when Shift is held
/// and dropping it otherwise; Page Up and Page Down scroll the viewport by
/// its height and bring the cursor into it; anything else changes nothing.
pub open spec fn after_input(v: BufferView, input: Input) -> BufferView {
    if is_undo(input) {
        undone(v)
    } else if is_redo(input) {
        redone(v)
    } else if input.ctrl || input.alt {
        v
    } else {
        match edit(v, input.key) {
            Some(e) => edited(v, e.0, e.1, e.2, e.3, e.4),
            None => if is_move(input.key) {
                BufferView {
                    row: moved(v, input.key).0,
                    col: moved(v, input.key).1,
                    anchor: if !input.shift {
                        None
                    } else if v.anchor is Some {
                        v.anchor
                    } else {
                        Some((v.row, v.col))
                    },
                    ..v
                }
            } else if is_page(input.key) {
                BufferView {
                    viewport: paged_viewport(v, input.key),
                    row: cursor_in_view(v, paged_viewport(v, input.key)).0,
                    col: cursor_in_view(v, paged_viewport(v, input.key)).1,
                    anchor: None,
                    ..v
                }
            } else {
                v
            },
        }
    }
}

/// The key scrolls by a page.
pub open spec fn is_page(key: Key) -> bool {
    key == Key::PageUp || key == Key::PageDown
}

/// The viewport scrolled by its own height: down for PageDown, up
/// otherwise, stopping at the first row.
pub open spec fn paged_viewport(v: BufferView, key: Key) -> (u64, u64, u16, u16) {
    let vp = v.viewport;
    let d: int = if key == Key::PageDown { vp.3 as int } else { -(vp.3 as int) };
    (clamp_u64(vp.0 + d) as u64, vp.1, vp.2, vp.3)
}

/// `x` clamped into `lo..=hi`.
pub open spec fn clamp_to(x: int, lo: int, hi: int) -> int {
    if x < lo { lo } else if x > hi { hi } else { x }
}

/// The cursor moved by the least amount into the visible rectangle of `vp`,
/// then into the text.
pub open spec fn cursor_in_view(v: BufferView, vp: (u64, u64, u16, u16)) -> (int, int) {
    let r = min_int(clamp_to(v.row, vp.0 as int, window_bottom(vp.0, vp.3) as int), v.lines.len() - 1);
    let c = min_int(clamp_to(v.col, vp.1 as int, window_bottom(vp.1, vp.2) as int), v.lines[r].len() as int);
    (r, c)
}

/// The key changes the text: an edit, or an undo or redo with something to
/// undo or redo.
pub open spec fn input_edits(v: BufferView, input: Input) -> bool {
    if is_undo(input) {
        v.history.len() > 0
    } else if is_redo(input) {
        v.future.len() > 0
    } else {
        !input.ctrl && !input.alt && edit(v, input.key) is Some
    }
}

/// The selected text: from the earlier of anchor and cursor to the later,
/// cut at the end of the first selected line. `None` without a selection or
/// when anchor and cursor coincide.
pub open spec fn selection(v: BufferView) -> Option<Seq<char>> {
    match v.anchor {
        Some(a) => if a == (v.row, v.col) {
            None
        } else {
            let cur = (v.row, v.col);
            let s = if a.0 < cur.0 || (a.0 == cur.0 && a.1 < cur.1) { a } else { cur };
            let e = if s == a { cur } else { a };
            if s.0 == e.0 {
                Some(v.lines[s.0].subrange(s.1, e.1))
            } else {
                Some(v.lines[s.0].skip(s.1))
            }
        },
        None => None,
    }
}

/// The search pattern a buffer's text is searched for: the overlay's
/// pattern while it is open, none otherwise.
pub open spec fn active_pattern(v: BufferView) -> Seq<char> {
    if v.search.open { v.search.pattern } else { Seq::empty() }
}

/// The buffer after the search overlay is opened: the pattern is seeded
/// from the selection, which is dropped, or else kept from before.
pub open spec fn after_open_search(v: BufferView) -> BufferView {
    let seed = match selection(v) {
        Some(t) => t,
        None => v.search.pattern,
    };
    BufferView {
        anchor: None,
        search: SearchView { pattern: seed, cursor: seed.len() as int, error: None, ..opened(v.search) },
        ..v
    }
}

/// One open document: lines of text, cursor, selection, modification flag,
/// its search overlay and its viewport.
pub struct Buffer {
    lines: Vec<Vec<char>>,
    row: usize,
    col: usize,
    anchor: Option<(usize, usize)>,
    modified: bool,
    hard_tab: bool,
    line_numbers: bool,
    fullscreen: Fullscreen,
    search: SearchBox,
    viewport: Viewport,
    path: String,
    placeholder: Vec<char>,
    history: Vec<Change>,
    future: Vec<Change>,
}

impl View for Buffer {
    type V = BufferView;

    closed spec fn view(&self) -> BufferView {
        BufferView {
            lines: view_lines(self.lines@),
            row: self.row as int,
            col: self.col as int,
            anchor: match self.anchor {
                Some(a) => Some((a.0 as int, a.1 as int)),
                None => None,
            },
            modified: self.modified,
            hard_tab: self.hard_tab,
            line_numbers: self.line_numbers,
            fullscreen: self.fullscreen,
            search: self.search@,
            viewport: self.viewport@,
            path: self.path@,
            placeholder: self.placeholder@,
            history: view_changes(self.history@),
            future: view_changes(self.future@),
        }
    }
}

/// Some line starts with a tab.
pub open spec fn tab_indented(lines: Seq<Seq<char>>) -> bool {
    exists|i: int| 0 <= i < lines.len() && lines[i].len() > 0 && #[trigger] lines[i][0] == '\t'
}

/// The view of a buffer is well formed.
pub open spec fn view_wf(v: BufferView) -> bool {
    &&& text_wf(v.lines)
    &&& undoable(v.lines, v.history)
    &&& redoable(v.lines, v.future)
    &&& in_text(v.lines, (v.row, v.col))
    &&& (v.anchor matches Some(a) ==> in_text(v.lines, a))
    &&& 0 <= v.search.cursor <= v.search.pattern.len()
    &&& fits(v.search.pattern.len())
    &&& one_line(v.search.pattern)
}

impl Buffer {
    /// Well-formed: at least one line, no newline inside a line, lengths that
    /// fit, cursor and selection anchor inside the text.
    pub closed spec fn wf(&self) -> bool {
        &&& view_wf(self@)
        &&& self.search.wf()
    }

    /// What well-formedness says of the view.
    pub proof fn lemma_wf(&self)
        requires
            self.wf(),
        ensures
            view_wf(self@),
    {
    }

    /// A buffer for `path` holding `contents` read from its file, or a new
    /// empty document when there is no file. Tab indentation is kept when a
    /// line of the file starts with a tab.
    pub fn new(path: String, contents: Option<Vec<char>>) -> (r: Buffer)
        requires
            contents matches Some(t) ==> t@.len() + 1 < usize::MAX,
        ensures
            r.wf(),
            r@.lines == (match contents {
                Some(t) => parse_lines(t@),
                None => seq![Seq::<char>::empty()],
            }),
            r@.row == 0 && r@.col == 0,
            r@.anchor is None,
            !r@.modified,
            r@.hard_tab == tab_indented(r@.lines),
            r@.line_numbers,
            r@.fullscreen == Fullscreen::Off,
            r@.search == (SearchView { open: false, pattern: Seq::empty(), cursor: 0, error: None }),
            r@.viewport == (0u64, 0u64, 0u16, 0u16),
            r@.path == path@,
            r@.placeholder == Seq::<char>::empty(),
            r@.history.len() == 0 && r@.future.len() == 0,
    {
        let lines = match contents {
            Some(t) => {
                proof {
                    lemma_parse_bounds(t@);
                }
                lines_of(&t)
            },
            None => {
                let mut ls: Vec<Vec<char>> = Vec::new();
                ls.push(Vec::new());
                assert(view_lines(ls@) =~= seq![Seq::<char>::empty()]);
                ls
            },
        };
        let ghost ls = view_lines(lines@);
        assert(one_line(Seq::<char>::empty()));
        let mut hard_tab = false;
        let mut i: usize = 0;
        while i < lines.len()
            invariant
                ls == view_lines(lines@),
                i <= lines@.len(),
                hard_tab == exists|j: int| 0 <= j < i && ls[j].len() > 0 && #[trigger] ls[j][0] == '\t',
            decreases lines@.len() - i,
        {
            assert(ls[i as int] == lines@[i as int]@);
            if lines[i].len() > 0 && lines[i][0] == '\t' {
                hard_tab = true;
                assert(ls[i as int][0] == '\t');
            }
            i = i + 1;
        }
        let b = Buffer {
            lines,
            row: 0,
            col: 0,
            anchor: None,
            modified: false,
            hard_tab,
            line_numbers: true,
            fullscreen: Fullscreen::Off,
            search: SearchBox::new(),
            viewport: Viewport::default(),
            path,
            placeholder: Vec::new(),
            history: Vec::new(),
            future: Vec::new(),
        };
        assert(b@.history =~= Seq::<ChangeView>::empty());
        assert(b@.future =~= Seq::<ChangeView>::empty());
        b
    }

    /// The lines of the document.
    pub fn lines(&self) -> (r: &Vec<Vec<char>>)
        ensures
            view_lines(r@) == self@.lines,
    {
        &self.lines
    }

    /// Cursor as `(row, column)`.
    pub fn cursor(&self) -> (r: (usize, usize))
        ensures
            r.0 == self@.row && r.1 == self@.col,
    {
        (self.row, self.col)
    }

    /// Whether the text changed since it was last saved.
    pub fn is_modified(&self) -> (r: bool)
        ensures
            r == self@.modified,
    {
        self.modified
    }

    /// The file this buffer belongs to.
    pub fn path(&self) -> (r: &String)
        ensures
            r@ == self@.path,
    {
        &self.path
    }

    /// The search overlay of this buffer.
    pub fn search(&self) -> (r: &SearchBox)
        ensures
            r@ == self@.search,
    {
        &self.search
    }

    /// The scroll state left by the last render.
    pub fn viewport(&self) -> (r: &Viewport)
        ensures
            r@ == self@.viewport,
    {
        &self.viewport
    }

    /// Whether lines are numbered.
    pub fn line_numbers(&self) -> (r: bool)
        ensures
            r == self@.line_numbers,
    {
        self.line_numbers
    }

    /// Current fullscreen mode.
    pub fn fullscreen(&self) -> (r: Fullscreen)
        ensures
            r == self@.fullscreen,
    {
        self.fullscreen
    }

    /// Text shown in an empty document.
    pub fn placeholder(&self) -> (r: &Vec<char>)
        ensures
            r@ == self@.placeholder,
    {
        &self.placeholder
    }

    /// The document holds a single empty line.
    pub fn is_empty(&self) -> (r: bool)
        requires
            self.wf(),
        ensures
            r == (self@.lines.len() == 1 && self@.lines[0].len() == 0),
    {
        self.lines.len() == 1 && self.lines[0].len() == 0
    }

    /// Sets the text shown in an empty document.
    pub fn set_placeholder(&mut self, text: Vec<char>)
        requires
            old(self).wf(),
        ensures
            final(self).wf(),
            final(self)@ == (BufferView { placeholder: text@, ..old(self)@ }),
    {
        self.placeholder = text;
    }

    /// Switches line numbers on or off.
    pub fn toggle_line_numbers(&mut self)
        requires
            old(self).wf(),
        ensures
            final(self).wf(),
            final(self)@ == (BufferView { line_numbers: !old(self)@.line_numbers, ..old(self)@ }),
    {
        self.line_numbers = !self.line_numbers;
    }

    /// Cycles the fullscreen mode: off, half, full, off.
    pub fn toggle_fullscreen(&mut self)
        requires
            old(self).wf(),
        ensures
            final(self).wf(),
            final(self)@ == (BufferView { fullscreen: next_mode(old(self)@.fullscreen), ..old(self)@ }),
    {
        self.fullscreen = match self.fullscreen {
            Fullscreen::Off => Fullscreen::Half,
            Fullscreen::Half => Fullscreen::Full,
            Fullscreen::Full => Fullscreen::Off,
        };
    }
}

impl Buffer {
    /// Replaces `k` lines from row `r` by `new`, moves the cursor to
    /// `(nr, nc)` and records the edit for undo.
    fn apply_edit(&mut self, r: usize, k: usize, new: Vec<Vec<char>>, nr: usize, nc: usize)
        requires
            old(self).wf(),
            r + k <= old(self)@.lines.len(),
            old(self)@.lines.subrange(r as int, r + k) != view_lines(new@),
            text_wf(splice(old(self)@.lines, r as int, k as int, view_lines(new@))),
            in_text(splice(old(self)@.lines, r as int, k as int, view_lines(new@)), (nr as int, nc as int)),
        ensures
            final(self).wf(),
            final(self)@ == edited(old(self)@, r as int, k as int, view_lines(new@), nr as int, nc as int),
            final(self)@.lines != old(self)@.lines,
    {
        let ghost v0 = self@;
        proof {
            crate::history::lemma_splice_changes(v0.lines, r as int, k as int, view_lines(new@));
        }
        let old_lines = copy_lines(&self.lines, r, k);
        splice_lines(&mut self.lines, r, k, &new);
        let ch = Change { row: r, old: old_lines, new, before: (self.row, self.col), after: (nr, nc) };
        let ghost chv = ch@;
        if self.history.len() >= MAX_HISTORY {
            self.history.remove(0);
        }
        self.history.push(ch);
        self.future = Vec::new();
        self.row = nr;
        self.col = nc;
        self.anchor = None;
        self.modified = true;
        proof {
            assert(reapplied(v0.lines, chv) == splice(v0.lines, r as int, k as int, view_lines(new@)));
            lemma_record(v0.lines, v0.history, chv);
            if v0.history.len() >= MAX_HISTORY as nat {
                assert(self@.history =~= v0.history.skip(1).push(chv));
            } else {
                assert(self@.history =~= v0.history.push(chv));
            }
            assert(self@.future =~= Seq::<ChangeView>::empty());
            assert(self@ =~= edited(v0, r as int, k as int, view_lines(new@), nr as int, nc as int));
        }
    }

    /// Inserts `s` at the cursor, which moves past it.
    fn insert_chars(&mut self, s: &Vec<char>)
        requires
            old(self).wf(),
            one_line(s@),
            s@.len() > 0,
            fits(old(self)@.lines[old(self)@.row].len() + s@.len()),
        ensures
            final(self).wf(),
            final(self)@ == edited(
                old(self)@,
                old(self)@.row,
                1,
                seq![old(self)@.lines[old(self)@.row].take(old(self)@.col) + s@ + old(self)@.lines[old(self)@.row].skip(old(self)@.col)],
                old(self)@.row,
                old(self)@.col + s@.len(),
            ),
            final(self)@.lines != old(self)@.lines,
    {
        let r = self.row;
        let c = self.col;
        let ghost ls0 = self@.lines;
        let ghost line0 = ls0[r as int];
        let mut line = self.lines[r].clone();
        assert(line@ =~= line0);
        let mut k: usize = 0;
        while k < s.len()
            invariant
                c <= line0.len(),
                k <= s@.len(),
                fits(line0.len() + s@.len()),
                line@ == line0.take(c as int) + s@.take(k as int) + line0.skip(c as int),
            decreases s@.len() - k,
        {
            line.insert(c + k, s[k]);
            k = k + 1;
            assert(line@ =~= line0.take(c as int) + s@.take(k as int) + line0.skip(c as int));
        }
        assert(s@.take(s@.len() as int) =~= s@);
        let ghost new_line = line@;
        let mut new: Vec<Vec<char>> = Vec::new();
        new.push(line);
        assert(view_lines(new@) =~= seq![new_line]);
        let ghost ls1 = splice(ls0, r as int, 1, seq![new_line]);
        assert(ls1 =~= ls0.update(r as int, new_line));
        assert(one_line(new_line)) by {
            assert(one_line(line0));
        }
        assert forall|i: int| 0 <= i < ls1.len() implies one_line(#[trigger] ls1[i]) && fits(ls1[i].len()) by {
            assert(one_line(ls0[i]) && fits(ls0[i].len()));
        }
        assert(ls0.subrange(r as int, r + 1)[0] == line0);
        assert(view_lines(new@)[0].len() != ls0.subrange(r as int, r + 1)[0].len());
        self.apply_edit(r, 1, new, r, c + s.len());
    }

    /// Breaks the line at the cursor, which moves to the start of the new line.
    fn break_line(&mut self)
        requires
            old(self).wf(),
            fits(old(self)@.lines.len() + 1),
        ensures
            final(self).wf(),
            final(self)@ == edited(
                old(self)@,
                old(self)@.row,
                1,
                seq![old(self)@.lines[old(self)@.row].take(old(self)@.col), old(self)@.lines[old(self)@.row].skip(old(self)@.col)],
                old(self)@.row + 1,
                0,
            ),
            final(self)@.lines != old(self)@.lines,
    {
        let r = self.row;
        let c = self.col;
        let ghost ls0 = self@.lines;
        let mut line = self.lines[r].clone();
        assert(line@ =~= ls0[r as int]);
        let tail = line.split_off(c);
        let ghost head_v = line@;
        let ghost tail_v = tail@;
        let mut new: Vec<Vec<char>> = Vec::new();
        new.push(line);
        new.push(tail);
        assert(view_lines(new@) =~= seq![head_v, tail_v]);
        let ghost ls1 = splice(ls0, r as int, 1, seq![head_v, tail_v]);
        assert(one_line(ls0[r as int]));
        assert forall|i: int| 0 <= i < ls1.len() implies one_line(#[trigger] ls1[i]) && fits(ls1[i].len()) by {
            if i < r {
                assert(one_line(ls0[i]) && fits(ls0[i].len()));
            } else if i > r + 1 {
                assert(ls1[i] == ls0[i - 1]);
                assert(one_line(ls0[i - 1]) && fits(ls0[i - 1].len()));
            } else if i == r {
                assert(ls1[i] == head_v);
            } else {
                assert(ls1[i] == tail_v);
            }
        }
        assert(ls0.subrange(r as int, r + 1).len() != view_lines(new@).len());
        self.apply_edit(r, 1, new, r + 1, 0);
    }

    /// Removes the character at column `c` of the cursor's line; the cursor
    /// goes to column `c`.
    fn remove_char(&mut self, c: usize)
        requires
            old(self).wf(),
            c < old(self)@.lines[old(self)@.row].len(),
            c <= old(self)@.col,
        ensures
            final(self).wf(),
            final(self)@ == edited(
                old(self)@,
                old(self)@.row,
                1,
                seq![old(self)@.lines[old(self)@.row].remove(c as int)],
                old(self)@.row,
                c as int,
            ),
            final(self)@.lines != old(self)@.lines,
    {
        let r = self.row;
        let ghost ls0 = self@.lines;
        let mut line = self.lines[r].clone();
        assert(line@ =~= ls0[r as int]);
        line.remove(c);
        let ghost new_line = line@;
        let mut new: Vec<Vec<char>> = Vec::new();
        new.push(line);
        assert(view_lines(new@) =~= seq![new_line]);
        let ghost ls1 = splice(ls0, r as int, 1, seq![new_line]);
        assert(ls1 =~= ls0.update(r as int, new_line));
        assert(one_line(ls0[r as int]));
        assert forall|i: int| 0 <= i < ls1.len() implies one_line(#[trigger] ls1[i]) && fits(ls1[i].len()) by {
            assert(one_line(ls0[i]) && fits(ls0[i].len()));
            if i == r {
                assert forall|j: int| 0 <= j < ls1[i].len() implies ls1[i][j] != '\n' by {
                    if j < c {
                        assert(ls1[i][j] == ls0[i][j]);
                    } else {
                        assert(ls1[i][j] == ls0[i][j + 1]);
                    }
                }
            }
        }
        assert(ls0.subrange(r as int, r + 1)[0] == ls0[r as int]);
        assert(view_lines(new@)[0].len() != ls0[r as int].len());
        self.apply_edit(r, 1, new, r, c);
    }

    /// Appends line `r + 1` to line `r`; the cursor goes to `(r, c)`.
    fn join_next(&mut self, r: usize, c: usize)
        requires
            old(self).wf(),
            r + 1 < old(self)@.lines.len(),
            c <= old(self)@.lines[r as int].len(),
            fits(old(self)@.lines[r as int].len() + old(self)@.lines[r + 1].len()),
        ensures
            final(self).wf(),
            final(self)@ == edited(
                old(self)@,
                r as int,
                2,
                seq![old(self)@.lines[r as int] + old(self)@.lines[r + 1]],
                r as int,
                c as int,
            ),
            final(self)@.lines != old(self)@.lines,
    {
        let ghost ls0 = self@.lines;
        let mut line = self.lines[r].clone();
        assert(line@ =~= ls0[r as int]);
        let mut next = self.lines[r + 1].clone();
        assert(next@ =~= ls0[r + 1]);
        line.append(&mut next);
        let ghost new_line = line@;
        let mut new: Vec<Vec<char>> = Vec::new();
        new.push(line);
        assert(view_lines(new@) =~= seq![new_line]);
        let ghost ls1 = splice(ls0, r as int, 2, seq![new_line]);
        assert(one_line(ls0[r as int]));
        assert(one_line(ls0[r + 1]));
        assert forall|i: int| 0 <= i < ls1.len() implies one_line(#[trigger] ls1[i]) && fits(ls1[i].len()) by {
            if i < r {
                assert(one_line(ls0[i]) && fits(ls0[i].len()));
            } else if i > r {
                assert(ls1[i] == ls0[i + 1]);
                assert(one_line(ls0[i + 1]) && fits(ls0[i + 1].len()));
            } else {
                assert(ls1[i] == new_line);
            }
        }
        assert(ls0.subrange(r as int, r + 2).len() != view_lines(new@).len());
        self.apply_edit(r, 2, new, r, c);
    }

    /// Reverts the last edit; returns whether there was one.
    pub fn undo(&mut self) -> (r: bool)
        requires
            old(self).wf(),
        ensures
            final(self).wf(),
            final(self)@ == undone(old(self)@),
            r == (old(self)@.history.len() > 0),
            r == (final(self)@.lines != old(self)@.lines),
    {
        let ghost v0 = self@;
        match self.history.pop() {
            None => false,
            Some(ch) => {
                proof {
                    assert(v0.history.last() == ch@);
                    assert(view_changes(self.history@) =~= v0.history.drop_last());
                    lemma_undo(v0.lines, v0.history, v0.future);
                    crate::history::lemma_splice_changes(v0.lines, ch@.row, ch@.new.len() as int, ch@.old);
                }
                let ghost chv = ch@;
                splice_lines(&mut self.lines, ch.row, ch.new.len(), &ch.old);
                self.row = ch.before.0;
                self.col = ch.before.1;
                self.anchor = None;
                self.modified = true;
                self.future.push(ch);
                assert(view_changes(self.future@) =~= v0.future.push(chv));
                assert(self@ =~= undone(v0));
                true
            },
        }
    }

    /// Makes the last undone edit again; returns whether there was one.
    pub fn redo(&mut self) -> (r: bool)
        requires
            old(self).wf(),
        ensures
            final(self).wf(),
            final(self)@ == redone(old(self)@),
            r == (old(self)@.future.len() > 0),
            r == (final(self)@.lines != old(self)@.lines),
    {
        let ghost v0 = self@;
        match self.future.pop() {
            None => false,
            Some(ch) => {
                proof {
                    assert(v0.future.last() == ch@);
                    assert(view_changes(self.future@) =~= v0.future.drop_last());
                    lemma_redo(v0.lines, v0.history, v0.future);
                    crate::history::lemma_splice_changes(v0.lines, ch@.row, ch@.old.len() as int, ch@.new);
                }
                let ghost chv = ch@;
                splice_lines(&mut self.lines, ch.row, ch.old.len(), &ch.new);
                self.row = ch.after.0;
                self.col = ch.after.1;
                self.anchor = None;
                self.modified = true;
                if self.history.len() >= MAX_HISTORY {
                    self.history.remove(0);
                }
                self.history.push(ch);
                proof {
                    if v0.history.len() >= MAX_HISTORY as nat {
                        assert(view_changes(self.history@) =~= v0.history.skip(1).push(chv));
                    } else {
                        assert(view_changes(self.history@) =~= v0.history.push(chv));
                    }
                }
                assert(self@ =~= redone(v0));
                true
            },
        }
    }
}

impl Buffer {
    /// The characters the Tab key inserts at the cursor.
    fn tab_chars(&self) -> (r: Vec<char>)
        requires
            self.wf(),
        ensures
            r@ == tab_text(self@.hard_tab, self@.col),
            one_line(r@),
            r@.len() > 0,
    {
        let mut out: Vec<char> = Vec::new();
        if self.hard_tab {
            out.push('\t');
            assert(out@ =~= seq!['\t']);
        } else {
            let n: usize = 4 - self.col % 4;
            let mut k: usize = 0;
            while k < n
                invariant
                    k <= n,
                    out@ == Seq::new(k as nat, |i: int| ' '),
                decreases n - k,
            {
                out.push(' ');
                k = k + 1;
                assert(out@ =~= Seq::new(k as nat, |i: int| ' '));
            }
        }
        out
    }

    /// Applies one key of editing input (see `after_input`), including
    /// Ctrl-U to undo and Ctrl-R to redo. Returns whether the text changed;
    /// a change marks the buffer modified.
    pub fn input(&mut self, input: Input) -> (r: bool)
        requires
            old(self).wf(),
        ensures
            final(self).wf(),
            final(self)@ == after_input(old(self)@, input),
            r == input_edits(old(self)@, input),
            r == (final(self)@.lines != old(self)@.lines),
    {
        proof {
            self.lemma_wf();
        }
        if input.ctrl && !input.alt && input.key == Key::Char('u') {
            return self.undo();
        }
        if input.ctrl && !input.alt && input.key == Key::Char('r') {
            return self.redo();
        }
        if input.ctrl || input.alt {
            return false;
        }
        let r = self.row;
        let c = self.col;
        let len = self.lines[r].len();
        match input.key {
            Key::Char(ch) => {
                if ch != '\n' && ch != '\r' && len < usize::MAX - 1 {
                    let mut s: Vec<char> = Vec::new();
                    s.push(ch);
                    assert(s@ =~= seq![ch]);
                    self.insert_chars(&s);
                    true
                } else {
                    false
                }
            },
            Key::Tab => {
                let s = self.tab_chars();
                if len < usize::MAX - s.len() {
                    self.insert_chars(&s);
                    true
                } else {
                    false
                }
            },
            Key::Enter => {
                if self.lines.len() < usize::MAX - 1 {
                    self.break_line();
                    true
                } else {
                    false
                }
            },
            Key::Backspace => {
                if c > 0 {
                    self.remove_char(c - 1);
                    true
                } else if r > 0 && self.lines[r - 1].len() < usize::MAX - len {
                    let prev = self.lines[r - 1].len();
                    self.join_next(r - 1, prev);
                    true
                } else {
                    false
                }
            },
            Key::Delete => {
                if c < len {
                    self.remove_char(c);
                    true
                } else if r + 1 < self.lines.len() && self.lines[r + 1].len() < usize::MAX - len {
                    self.join_next(r, c);
                    true
                } else {
                    false
                }
            },
            Key::PageUp => {
                self.page(false);
                false
            },
            Key::PageDown => {
                self.page(true);
                false
            },
            _ => {
                if is_move_key(input.key) {
                    self.move_cursor(input.key, input.shift);
                }
                false
            },
        }
    }

    /// Moves the cursor by a movement key, extending the selection when
    /// `select` holds and dropping it otherwise.
    fn move_cursor(&mut self, key: Key, select: bool)
        requires
            old(self).wf(),
            is_move(key),
        ensures
            final(self).wf(),
            final(self)@ == (BufferView {
                row: moved(old(self)@, key).0,
                col: moved(old(self)@, key).1,
                anchor: if !select {
                    None
                } else if old(self)@.anchor is Some {
                    old(self)@.anchor
                } else {
                    Some((old(self)@.row, old(self)@.col))
                },
                ..old(self)@
            }),
    {
        let r = self.row;
        let c = self.col;
        let n = self.lines.len();
        if select {
            if self.anchor.is_none() {
                self.anchor = Some((r, c));
            }
        } else {
            self.anchor = None;
        }
        let (nr, nc) = match key {
            Key::Left => if c > 0 {
                (r, c - 1)
            } else if r > 0 {
                (r - 1, self.lines[r - 1].len())
            } else {
                (r, c)
            },
            Key::Right => if c < self.lines[r].len() {
                (r, c + 1)
            } else if r + 1 < n {
                (r + 1, 0)
            } else {
                (r, c)
            },
            Key::Up => if r > 0 {
                let l = self.lines[r - 1].len();
                (r - 1, if c <= l { c } else { l })
            } else {
                (r, c)
            },
            Key::Down => if r + 1 < n {
                let l = self.lines[r + 1].len();
                (r + 1, if c <= l { c } else { l })
            } else {
                (r, c)
            },
            Key::Home => (r, 0),
            _ => (r, self.lines[r].len()),
        };
        self.row = nr;
        self.col = nc;
    }
}

/// Whether `key` moves the cursor.
pub fn is_move_key(key: Key) -> (r: bool)
    ensures
        r == is_move(key),
{
    match key {
        Key::Left | Key::Right | Key::Up | Key::Down | Key::Home | Key::End => true,
        _ => false,
    }
}

/// Characters `from..to` of `line`.
fn copy_range(line: &Vec<char>, from: usize, to: usize) -> (r: Vec<char>)
    requires
        from <= to <= line@.len(),
    ensures
        r@ == line@.subrange(from as int, to as int),
{
    let mut out: Vec<char> = Vec::new();
    let mut k: usize = from;
    while k < to
        invariant
            from <= k <= to <= line@.len(),
            out@ == line@.subrange(from as int, k as int),
        decreases to - k,
    {
        out.push(line[k]);
        k = k + 1;
        assert(out@ =~= line@.subrange(from as int, k as int));
    }
    out
}

impl Buffer {
    /// Removes the selection and returns its text (see `selection`).
    pub fn take_selection(&mut self) -> (r: Option<Vec<char>>)
        requires
            old(self).wf(),
        ensures
            final(self).wf(),
            final(self)@ == (BufferView { anchor: None, ..old(self)@ }),
            r is Some <==> selection(old(self)@) is Some,
            r matches Some(t) ==> selection(old(self)@) == Some(t@),
    {
        proof {
            self.lemma_wf();
        }
        let anchor = self.anchor;
        self.anchor = None;
        match anchor {
            None => None,
            Some(a) => {
                let cur = (self.row, self.col);
                if a.0 == cur.0 && a.1 == cur.1 {
                    None
                } else {
                    let a_first = a.0 < cur.0 || (a.0 == cur.0 && a.1 < cur.1);
                    let (s, e) = if a_first { (a, cur) } else { (cur, a) };
                    let line = &self.lines[s.0];
                    if s.0 == e.0 {
                        Some(copy_range(line, s.1, e.1))
                    } else {
                        Some(copy_range(line, s.1, line.len()))
                    }
                }
            },
        }
    }

    /// Opens the search overlay. Its pattern is seeded with the selected text
    /// when there is a selection, and is otherwise the pattern last used.
    pub fn open_search(&mut self)
        requires
            old(self).wf(),
        ensures
            final(self).wf(),
            final(self)@ == after_open_search(old(self)@),
            selection(old(self)@) matches Some(t) ==> final(self)@.search.pattern == t,
            selection(old(self)@) is None ==> final(self)@.search.pattern == old(self)@.search.pattern,
            final(self)@.search.open,
    {
        proof {
            self.lemma_wf();
        }
        let ghost v0 = self@;
        let prev = self.search.open();
        let seed = match self.take_selection() {
            Some(t) => t,
            None => prev,
        };
        proof {
            if let Some(t) = selection(v0) {
                let a = v0.anchor.unwrap();
                let cur = (v0.row, v0.col);
                let st = if a.0 < cur.0 || (a.0 == cur.0 && a.1 < cur.1) { a } else { cur };
                assert(one_line(v0.lines[st.0]));
                assert(fits(v0.lines[st.0].len()));
            }
        }
        self.search.set_pattern(&seed);
        self.search.set_error(None);
        assert(self@ =~= after_open_search(v0));
    }
}

/// Where a forward search starts: at the cursor when `at_cursor`, just
/// after it otherwise.
pub open spec fn forward_start(v: BufferView, at_cursor: bool) -> (int, int) {
    if at_cursor { (v.row, v.col) } else { (v.row, v.col + 1) }
}

/// `m` is where a forward search lands: the first occurrence from the start
/// point, or, when there is none, the first occurrence from the top.
pub open spec fn forward_target(v: BufferView, at_cursor: bool, m: (int, int)) -> bool {
    let p = active_pattern(v);
    let start = forward_start(v, at_cursor);
    first_from(v.lines, p, start, m) || (none_from(v.lines, p, start) && first_from(v.lines, p, (0, 0), m))
}

/// `m` is where a backward search lands: the last occurrence before the
/// cursor, or, when there is none, the last occurrence in the text.
pub open spec fn backward_target(v: BufferView, m: (int, int)) -> bool {
    let p = active_pattern(v);
    let cur = (v.row, v.col);
    let end = (v.lines.len() as int, 0);
    last_before(v.lines, p, cur, m) || (none_before(v.lines, p, cur) && last_before(v.lines, p, end, m))
}

/// The buffer after its search overlay closes.
pub open spec fn after_close_search(v: BufferView) -> BufferView {
    BufferView { search: crate::search::closed(v.search), ..v }
}

impl Buffer {
    /// The pattern occurrences are searched and highlighted for: the
    /// overlay's pattern while it is open, empty otherwise.
    pub fn search_text(&self) -> (r: Vec<char>)
        ensures
            r@ == active_pattern(self@),
    {
        if self.search.is_open() {
            self.search.pattern()
        } else {
            Vec::new()
        }
    }

    /// The pattern to search for, when the overlay is open and the pattern is
    /// not empty.
    fn search_pattern(&self) -> (r: Option<Vec<char>>)
        requires
            self.wf(),
        ensures
            r matches Some(p) ==> p@ == active_pattern(self@) && p@.len() > 0,
            r is None ==> active_pattern(self@).len() == 0,
    {
        if !self.search.is_open() {
            return None;
        }
        let p = self.search.pattern();
        if p.len() == 0 {
            None
        } else {
            Some(p)
        }
    }

    /// Moves the cursor to the next occurrence of the search pattern,
    /// wrapping to the top; the cursor's own position counts when
    /// `at_cursor`. Returns whether an occurrence was found; without one the
    /// buffer is unchanged.
    pub fn search_forward(&mut self, at_cursor: bool) -> (r: bool)
        requires
            old(self).wf(),
        ensures
            final(self).wf(),
            r ==> active_pattern(old(self)@).len() > 0,
            r ==> final(self)@ == (BufferView { row: final(self)@.row, col: final(self)@.col, ..old(self)@ }),
            r ==> forward_target(old(self)@, at_cursor, (final(self)@.row, final(self)@.col)),
            !r ==> final(self)@ == old(self)@,
            !r ==> active_pattern(old(self)@).len() == 0 || none_from(old(self)@.lines, active_pattern(old(self)@), (0, 0)),
    {
        proof {
            self.lemma_wf();
        }
        let p = match self.search_pattern() {
            Some(p) => p,
            None => return false,
        };
        let (sr, sc) = if at_cursor { (self.row, self.col) } else { (self.row, self.col + 1) };
        let found = match find_first_from(&self.lines, &p, sr, sc) {
            Some(m) => Some(m),
            None => find_first_from(&self.lines, &p, 0, 0),
        };
        match found {
            Some(m) => {
                self.row = m.0;
                self.col = m.1;
                true
            },
            None => false,
        }
    }

    /// Moves the cursor to the previous occurrence of the search pattern,
    /// wrapping to the bottom. Returns whether an occurrence was found;
    /// without one the buffer is unchanged.
    pub fn search_back(&mut self) -> (r: bool)
        requires
            old(self).wf(),
        ensures
            final(self).wf(),
            r ==> active_pattern(old(self)@).len() > 0,
            r ==> final(self)@ == (BufferView { row: final(self)@.row, col: final(self)@.col, ..old(self)@ }),
            r ==> backward_target(old(self)@, (final(self)@.row, final(self)@.col)),
            !r ==> final(self)@ == old(self)@,
            !r ==> active_pattern(old(self)@).len() == 0 || none_before(
                old(self)@.lines,
                active_pattern(old(self)@),
                (old(self)@.lines.len() as int, 0),
            ),
    {
        proof {
            self.lemma_wf();
        }
        let p = match self.search_pattern() {
            Some(p) => p,
            None => return false,
        };
        let found = match find_last_before(&self.lines, &p, self.row, self.col) {
            Some(m) => Some(m),
            None => find_last_before(&self.lines, &p, self.lines.len(), 0),
        };
        match found {
            Some(m) => {
                self.row = m.0;
                self.col = m.1;
                true
            },
            None => false,
        }
    }

    /// Closes the search overlay; its pattern is kept for the next opening.
    pub fn close_search(&mut self)
        requires
            old(self).wf(),
        ensures
            final(self).wf(),
            final(self)@ == after_close_search(old(self)@),
    {
        self.search.close();
    }

    /// Passes one key to the search pattern editor. When the pattern text
    /// changes, the new pattern is in force and the overlay shows no error.
    pub fn edit_search(&mut self, input: Input)
        requires
            old(self).wf(),
        ensures
            final(self).wf(),
            input.key == Key::Enter ==> final(self)@ == old(self)@,
            input.key != Key::Enter ==> {
                let e = crate::search::pattern_edit(old(self)@.search.pattern, old(self)@.search.cursor, input);
                final(self)@ == (BufferView {
                    search: SearchView {
                        pattern: e.0,
                        cursor: e.1,
                        error: if e.2 { None } else { old(self)@.search.error },
                        ..old(self)@.search
                    },
                    ..old(self)@
                })
            },
    {
        if let Some(_query) = self.search.input(input) {
            self.search.set_error(None);
        }
    }

    /// Shows `err` in the search overlay, or clears it.
    pub fn set_search_error(&mut self, err: Option<crate::search::SearchError>)
        requires
            old(self).wf(),
        ensures
            final(self).wf(),
            final(self)@ == (BufferView { search: SearchView { error: err, ..old(self)@.search }, ..old(self)@ }),
    {
        self.search.set_error(err);
    }

    /// What saving writes to the file: nothing for an unmodified buffer,
    /// otherwise the lines, each ending in a newline except an empty last
    /// line.
    pub fn save_contents(&self) -> (r: Option<Vec<char>>)
        requires
            self.wf(),
        ensures
            !self@.modified ==> r is None,
            self@.modified ==> (r matches Some(t) && t@ == file_contents(self@.lines)),
    {
        if !self.modified {
            return None;
        }
        Some(contents_of(&self.lines))
    }

    /// Records that the contents were written.
    pub fn mark_saved(&mut self)
        requires
            old(self).wf(),
        ensures
            final(self).wf(),
            final(self)@ == (BufferView { modified: false, ..old(self)@ }),
    {
        self.modified = false;
    }
}

/// Canceling the search overlay and opening it again, with no selection in
/// between, brings back the pattern that was being edited.
pub proof fn lemma_cancel_then_reopen(v: BufferView)
    requires
        v.anchor is None,
    ensures
        after_open_search(after_close_search(v)).search.pattern == v.search.pattern,
        after_open_search(after_close_search(v)).search.open,
{
}

/// Saving a buffer and reading the file back yields the buffer's lines,
/// unless the last of several lines is empty (its newline-free end is then
/// indistinguishable from the previous line's terminator).
pub proof fn lemma_saved_lines_read_back(v: BufferView)
    requires
        view_wf(v),
        v.lines.last().len() > 0 || v.lines.len() == 1,
    ensures
        parse_lines(file_contents(v.lines)) == v.lines,
{
    crate::text::lemma_contents_round_trip(v.lines);
}

impl Buffer {
    /// Overwrites the viewport with the outcome of a render.
    pub fn store_viewport(&mut self, row: u64, col: u64, width: u16, height: u16)
        requires
            old(self).wf(),
        ensures
            final(self).wf(),
            final(self)@ == (BufferView { viewport: (row, col, width, height), ..old(self)@ }),
    {
        self.viewport.store(row, col, width, height);
    }
}

impl Buffer {
    /// Scrolls the viewport by its height and brings the cursor into it.
    fn page(&mut self, down: bool)
        requires
            old(self).wf(),
        ensures
            final(self).wf(),
            ({
                let key = if down { Key::PageDown } else { Key::PageUp };
                let vp = paged_viewport(old(self)@, key);
                final(self)@ == (BufferView {
                    viewport: vp,
                    row: cursor_in_view(old(self)@, vp).0,
                    col: cursor_in_view(old(self)@, vp).1,
                    anchor: None,
                    ..old(self)@
                })
            }),
    {
        let h = self.viewport.rect().3 as i64;
        self.viewport.scroll(if down { h } else { -h }, 0);
        let (rt, ct, rb, cb) = self.viewport.position();
        let row = self.row as u64;
        let r1 = if row < rt { rt } else if row > rb { rb } else { row };
        let last = (self.lines.len() - 1) as u64;
        let r = (if r1 > last { last } else { r1 }) as usize;
        let col = self.col as u64;
        let c1 = if col < ct { ct } else if col > cb { cb } else { col };
        let len = self.lines[r].len() as u64;
        let c = (if c1 > len { len } else { c1 }) as usize;
        self.row = r;
        self.col = c;
        self.anchor = None;
    }
}

/// Undoing an edit brings back the text and the cursor from before it.
pub proof fn lemma_undo_reverts_edit(v: BufferView, input: Input)
    requires
        view_wf(v),
        input_edits(v, input),
        !is_undo(input),
        !is_redo(input),
    ensures
        undone(after_input(v, input)).lines == v.lines,
        undone(after_input(v, input)).row == v.row,
        undone(after_input(v, input)).col == v.col,
{
    let e = edit(v, input.key).unwrap();
    crate::history::lemma_splice_back(v.lines, e.0, e.1, e.2);
}

} // verus!
