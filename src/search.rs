use vstd::prelude::*;
use crate::input::{Input, Key};
use crate::text::one_line;

verus! {

/// Why the last search step failed. Patterns are literal text, so a
/// pattern is never malformed and a failed search is the only error.
#[derive(Debug, Clone, Copy, PartialEq, Eq, Structural)]
pub enum SearchError {
    NotFound,
}

/// Abstract state of the search overlay.
pub struct SearchView {
    pub open: bool,
    pub pattern: Seq<char>,
    pub cursor: int,
    pub error: Option<SearchError>,
}

/// The overlay's state after it is opened: the pattern is kept.
pub open spec fn opened(s: SearchView) -> SearchView {
    SearchView { open: true, ..s }
}

/// The overlay's state after it is closed: the pattern is kept for the next
/// opening and the edit cursor goes to its end.
pub open spec fn closed(s: SearchView) -> SearchView {
    SearchView { open: false, cursor: s.pattern.len() as int, ..s }
}

/// The pattern and edit cursor after one key of single-line editing, with
/// whether the pattern text changed. Newlines never enter the pattern.
pub open spec fn pattern_edit(p: Seq<char>, c: int, input: Input) -> (Seq<char>, int, bool) {
    if input.ctrl || input.alt {
        (p, c, false)
    } else {
        match input.key {
            Key::Char(ch) => if ch != '\n' && ch != '\r' && p.len() + 1 < usize::MAX {
                (p.insert(c, ch), c + 1, true)
            } else {
                (p, c, false)
            },
            Key::Backspace => if c > 0 {
                (p.remove(c - 1), c - 1, true)
            } else {
                (p, c, false)
            },
            Key::Delete => if c < p.len() {
                (p.remove(c), c, true)
            } else {
                (p, c, false)
            },
            Key::Left => (p, if c > 0 { c - 1 } else { c }, false),
            Key::Right => (p, if c < p.len() { c + 1 } else { c }, false),
            Key::Home => (p, 0, false),
            Key::End => (p, p.len() as int, false),
            _ => (p, c, false),
        }
    }
}

/// The single-line editor of the search overlay.
#[derive(Debug)]
pub struct SearchBox {
    open: bool,
    pattern: Vec<char>,
    cursor: usize,
    error: Option<SearchError>,
}

impl View for SearchBox {
    type V = SearchView;

    closed spec fn view(&self) -> SearchView {
        SearchView { open: self.open, pattern: self.pattern@, cursor: self.cursor as int, error: self.error }
    }
}

impl SearchBox {
    /// Well-formed: the cursor lies in the pattern, which is one line.
    pub open spec fn wf(&self) -> bool {
        &&& 0 <= self@.cursor <= self@.pattern.len()
        &&& self@.pattern.len() < usize::MAX
        &&& one_line(self@.pattern)
    }

    /// A closed overlay with an empty pattern.
    pub fn new() -> (r: SearchBox)
        ensures
            r.wf(),
            r@ == (SearchView { open: false, pattern: Seq::empty(), cursor: 0, error: None }),
    {
        SearchBox { open: false, pattern: Vec::new(), cursor: 0, error: None }
    }

    /// Whether the overlay has input focus.
    pub fn is_open(&self) -> (r: bool)
        ensures
            r == self@.open,
    {
        self.open
    }

    /// A copy of the pattern text.
    pub fn pattern(&self) -> (r: Vec<char>)
        ensures
            r@ == self@.pattern,
    {
        self.pattern.clone()
    }

    /// The error shown in the overlay's border, if any.
    pub fn error(&self) -> (r: Option<SearchError>)
        ensures
            r == self@.error,
    {
        self.error
    }

    /// Edit cursor within the pattern.
    pub fn cursor(&self) -> (r: usize)
        ensures
            r == self@.cursor,
    {
        self.cursor
    }

    /// Opens the overlay and returns the remembered pattern.
    pub fn open(&mut self) -> (r: Vec<char>)
        requires
            old(self).wf(),
        ensures
            final(self).wf(),
            final(self)@ == opened(old(self)@),
            r@ == old(self)@.pattern,
    {
        self.open = true;
        self.pattern.clone()
    }

    /// Closes the overlay; the pattern stays for the next opening.
    pub fn close(&mut self)
        requires
            old(self).wf(),
        ensures
            final(self).wf(),
            final(self)@ == closed(old(self)@),
    {
        self.open = false;
        self.cursor = self.pattern.len();
    }

    /// Rows the overlay takes: a bordered one-line band when open, none
    /// when closed.
    pub fn height(&self) -> (r: u16)
        ensures
            r == (if self@.open { 3u16 } else { 0u16 }),
    {
        if self.open {
            3
        } else {
            0
        }
    }

    /// Replaces the pattern text, placing the edit cursor at its end.
    pub fn set_pattern(&mut self, pattern: &Vec<char>)
        requires
            old(self).wf(),
            one_line(pattern@),
            pattern@.len() < usize::MAX,
        ensures
            final(self).wf(),
            final(self)@ == (SearchView { pattern: pattern@, cursor: pattern@.len() as int, ..old(self)@ }),
    {
        self.pattern = pattern.clone();
        assert(self.pattern@ =~= pattern@);
        self.cursor = pattern.len();
    }

    /// Applies one key to the pattern. Returns the new pattern when its text
    /// changed; Enter never reaches the pattern.
    pub fn input(&mut self, input: Input) -> (r: Option<Vec<char>>)
        requires
            old(self).wf(),
        ensures
            final(self).wf(),
            input.key == Key::Enter ==> r is None && final(self)@ == old(self)@,
            input.key != Key::Enter ==> {
                let e = pattern_edit(old(self)@.pattern, old(self)@.cursor, input);
                &&& final(self)@ == (SearchView { pattern: e.0, cursor: e.1, ..old(self)@ })
                &&& (r is Some <==> e.2)
                &&& (r matches Some(p) ==> p@ == e.0)
            },
    {
        if input.key == Key::Enter {
            return None;
        }
        let ghost p0 = self.pattern@;
        if input.ctrl || input.alt {
            return None;
        }
        match input.key {
            Key::Char(ch) => {
                if ch != '\n' && ch != '\r' && self.pattern.len() < usize::MAX - 1 {
                    self.pattern.insert(self.cursor, ch);
                    self.cursor = self.cursor + 1;
                    assert forall|i: int| 0 <= i < self.pattern@.len() implies self.pattern@[i] != '\n' by {
                        if i < old(self)@.cursor {
                            assert(self.pattern@[i] == p0[i]);
                        } else if i > old(self)@.cursor {
                            assert(self.pattern@[i] == p0[i - 1]);
                        }
                    }
                    Some(self.pattern.clone())
                } else {
                    None
                }
            },
            Key::Backspace => {
                if self.cursor > 0 {
                    self.pattern.remove(self.cursor - 1);
                    self.cursor = self.cursor - 1;
                    assert forall|i: int| 0 <= i < self.pattern@.len() implies self.pattern@[i] != '\n' by {
                        if i < self.cursor {
                            assert(self.pattern@[i] == p0[i]);
                        } else {
                            assert(self.pattern@[i] == p0[i + 1]);
                        }
                    }
                    Some(self.pattern.clone())
                } else {
                    None
                }
            },
            Key::Delete => {
                if self.cursor < self.pattern.len() {
                    self.pattern.remove(self.cursor);
                    assert forall|i: int| 0 <= i < self.pattern@.len() implies self.pattern@[i] != '\n' by {
                        if i < self.cursor {
                            assert(self.pattern@[i] == p0[i]);
                        } else {
                            assert(self.pattern@[i] == p0[i + 1]);
                        }
                    }
                    Some(self.pattern.clone())
                } else {
                    None
                }
            },
            Key::Left => {
                if self.cursor > 0 {
                    self.cursor = self.cursor - 1;
                }
                None
            },
            Key::Right => {
                if self.cursor < self.pattern.len() {
                    self.cursor = self.cursor + 1;
                }
                None
            },
            Key::Home => {
                self.cursor = 0;
                None
            },
            Key::End => {
                self.cursor = self.pattern.len();
                None
            },
            _ => None,
        }
    }

    /// Shows `err` in the overlay's border, or clears it.
    pub fn set_error(&mut self, err: Option<SearchError>)
        requires
            old(self).wf(),
        ensures
            final(self).wf(),
            final(self)@ == (SearchView { error: err, ..old(self)@ }),
    {
        self.error = err;
    }
}

} // verus!
