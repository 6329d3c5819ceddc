use vstd::prelude::*;
use crate::buffer::{
    after_close_search, after_input, after_open_search, active_pattern, backward_target, forward_target,
    next_mode, selection, view_wf, Buffer, BufferView, Fullscreen,
};
use crate::find::{none_before, none_from};
use crate::text::fits;
use crate::input::{Input, Key};
use crate::render::{renders, Frame};
use crate::search::{pattern_edit, SearchError, SearchView};

verus! {

/// A transient status message.
#[derive(Debug, Clone, Copy, PartialEq, Eq, Structural)]
pub enum Message {
    /// The buffer with this index became active.
    Switched(usize),
    /// The active buffer was saved.
    Saved,
    /// The search found no occurrence.
    NotFound,
}

/// What the caller does after an input was processed.
#[derive(Debug, Clone, Copy, PartialEq, Eq, Structural)]
pub enum Status {
    /// Render and read the next input.
    Continue,
    /// Leave the editor.
    Stop,
    /// Write the active buffer's contents (see `Buffer::save_contents`), then
    /// call `Editor::saved`.
    Save,
}

/// Why an editor could not be made.
#[derive(Debug, Clone, Copy, PartialEq, Eq, Structural)]
pub enum StartError {
    /// No file was given.
    NoFiles,
}

/// The global commands, checked before any other handling of a key.
#[derive(Debug, Clone, Copy, PartialEq, Eq, Structural)]
pub enum Command {
    ToggleFullscreen,
    ToggleLineNumbers,
    Quit,
    /// Switch to the buffer with this 0-based index (Alt and a digit from
    /// `1` to `9`).
    Switch(u32),
    /// Alt and `0`, which names no buffer: ignored.
    NoBuffer,
    Save,
    /// Not a global command.
    Other,
}

/// The global command a key press stands for.
pub open spec fn command_of(input: Input) -> Command {
    match input.key {
        Key::F(11) => Command::ToggleFullscreen,
        Key::F(12) => Command::ToggleLineNumbers,
        Key::Char('q') if input.ctrl => Command::Quit,
        Key::Char(ch) if input.alt && !input.ctrl && !input.shift && '0' <= ch <= '9' => if ch == '0' {
            Command::NoBuffer
        } else {
            Command::Switch((ch as u32 - '1' as u32) as u32)
        },
        Key::Char('s') if input.ctrl => Command::Save,
        _ => Command::Other,
    }
}

/// Sorts a key press into a global command.
pub fn command(input: Input) -> (r: Command)
    ensures
        r == command_of(input),
{
    match input.key {
        Key::F(11) => Command::ToggleFullscreen,
        Key::F(12) => Command::ToggleLineNumbers,
        Key::Char('q') if input.ctrl => Command::Quit,
        Key::Char(ch) if input.alt && !input.ctrl && !input.shift && '0' <= ch && ch <= '9' => if ch == '0' {
            Command::NoBuffer
        } else {
            Command::Switch(ch as u32 - '1' as u32)
        },
        Key::Char('s') if input.ctrl => Command::Save,
        _ => Command::Other,
    }
}

/// Abstract state of the editor.
pub struct EditorView {
    pub buffers: Seq<BufferView>,
    pub current: int,
    pub message: Option<Message>,
}

/// The active buffer.
pub open spec fn active(e: EditorView) -> BufferView {
    e.buffers[e.current]
}

/// `e2` differs from `e` at most in the active buffer, which is `b`.
pub open spec fn with_active(e: EditorView, e2: EditorView, b: BufferView) -> bool {
    &&& e2.buffers == e.buffers.update(e.current, b)
    &&& e2.current == e.current
}

/// `b2` is `b` after a forward search step: when `found`, the cursor moved
/// to the target; otherwise there is no occurrence and `b2` is `b`.
pub open spec fn searched_forward(b: BufferView, at_cursor: bool, found: bool, b2: BufferView) -> bool {
    if found {
        b2 == (BufferView { row: b2.row, col: b2.col, ..b }) && active_pattern(b).len() > 0 && forward_target(
            b,
            at_cursor,
            (b2.row, b2.col),
        )
    } else {
        b2 == b && (active_pattern(b).len() == 0 || none_from(b.lines, active_pattern(b), (0, 0)))
    }
}

/// `b2` is `b` after a backward search step, as `searched_forward`.
pub open spec fn searched_back(b: BufferView, found: bool, b2: BufferView) -> bool {
    if found {
        b2 == (BufferView { row: b2.row, col: b2.col, ..b }) && active_pattern(b).len() > 0 && backward_target(
            b,
            (b2.row, b2.col),
        )
    } else {
        b2 == b && (active_pattern(b).len() == 0 || none_before(
            b.lines,
            active_pattern(b),
            (b.lines.len() as int, 0),
        ))
    }
}

/// `b` with a not-found error shown in its search overlay.
pub open spec fn with_not_found(b: BufferView) -> BufferView {
    BufferView { search: SearchView { error: Some(SearchError::NotFound), ..b.search }, ..b }
}

/// How a key changes the editor while the active buffer's search overlay is
/// open: Down and Up step to the next and previous occurrence, showing an
/// error in the overlay when there is none; Enter jumps to the first
/// occurrence from the cursor and closes the overlay, reporting a miss in
/// the status message; Esc closes it; any other key edits the pattern.
pub open spec fn search_step(e: EditorView, input: Input, e2: EditorView) -> bool {
    let b = active(e);
    let b2 = active(e2);
    &&& with_active(e, e2, b2)
    &&& match input.key {
        Key::Down => e2.message == e.message && exists|found: bool, m: BufferView|
            #[trigger] searched_forward(b, false, found, m) && b2 == (if found { m } else { with_not_found(b) }),
        Key::Up => e2.message == e.message && exists|found: bool, m: BufferView|
            #[trigger] searched_back(b, found, m) && b2 == (if found { m } else { with_not_found(b) }),
        Key::Enter => exists|found: bool, m: BufferView|
            #[trigger] searched_forward(b, true, found, m) && b2 == after_close_search(m) && e2.message == (if found {
                e.message
            } else {
                Some(Message::NotFound)
            }),
        Key::Esc => e2.message == e.message && b2 == after_close_search(b),
        _ => e2.message == e.message && ({
            let pe = pattern_edit(b.search.pattern, b.search.cursor, input);
            b2 == (BufferView {
                search: SearchView {
                    pattern: pe.0,
                    cursor: pe.1,
                    error: if pe.2 { None } else { b.search.error },
                    ..b.search
                },
                ..b
            })
        }),
    }
}

/// The editor: its buffers, the index of the active one, and a transient
/// status message.
pub struct Editor {
    buffers: Vec<Buffer>,
    current: usize,
    message: Option<Message>,
}

impl View for Editor {
    type V = EditorView;

    closed spec fn view(&self) -> EditorView {
        EditorView {
            buffers: Seq::new(self.buffers@.len(), |i: int| self.buffers@[i]@),
            current: self.current as int,
            message: self.message,
        }
    }
}

impl Editor {
    /// Well-formed: a non-empty list of well-formed buffers and an index into it.
    pub closed spec fn wf(&self) -> bool {
        &&& self.buffers@.len() >= 1
        &&& self.current < self.buffers@.len()
        &&& forall|i: int| 0 <= i < self.buffers@.len() ==> (#[trigger] self.buffers@[i]).wf()
    }

    /// What well-formedness says of the view: the active index lies among
    /// the buffers, and each buffer is well formed.
    pub proof fn lemma_wf(&self)
        requires
            self.wf(),
        ensures
            self@.buffers.len() >= 1,
            0 <= self@.current < self@.buffers.len(),
            forall|i: int| 0 <= i < self@.buffers.len() ==> view_wf(#[trigger] self@.buffers[i]),
    {
        assert forall|i: int| 0 <= i < self@.buffers.len() implies view_wf(#[trigger] self@.buffers[i]) by {
            self.buffers@[i].lemma_wf();
        }
    }

    /// An editor over `buffers`, the first one active; refused without any.
    pub fn new(buffers: Vec<Buffer>) -> (r: Result<Editor, StartError>)
        requires
            forall|i: int| 0 <= i < buffers@.len() ==> (#[trigger] buffers@[i]).wf(),
        ensures
            buffers@.len() == 0 <==> r is Err,
            r matches Err(err) ==> err == StartError::NoFiles,
            r matches Ok(e) ==> e.wf() && e@ == (EditorView {
                buffers: Seq::new(buffers@.len(), |i: int| buffers@[i]@),
                current: 0,
                message: None,
            }),
    {
        if buffers.len() == 0 {
            return Err(StartError::NoFiles);
        }
        Ok(Editor { buffers, current: 0, message: None })
    }

    /// Index of the active buffer.
    pub fn current(&self) -> (r: usize)
        ensures
            r == self@.current,
    {
        self.current
    }

    /// Number of open buffers.
    pub fn buffer_count(&self) -> (r: usize)
        ensures
            r == self@.buffers.len(),
    {
        self.buffers.len()
    }

    /// The active buffer.
    pub fn active(&self) -> (r: &Buffer)
        requires
            self.wf(),
        ensures
            r@ == active(self@),
            r.wf(),
    {
        &self.buffers[self.current]
    }

    /// The buffer with index `i`.
    pub fn buffer(&self, i: usize) -> (r: &Buffer)
        requires
            self.wf(),
            i < self@.buffers.len(),
        ensures
            r@ == self@.buffers[i as int],
            r.wf(),
    {
        &self.buffers[i]
    }

    /// The status message.
    pub fn message(&self) -> (r: Option<Message>)
        ensures
            r == self@.message,
    {
        self.message
    }

    /// Removes and returns the status message: it is shown once.
    pub fn take_message(&mut self) -> (r: Option<Message>)
        requires
            old(self).wf(),
        ensures
            final(self).wf(),
            r == old(self)@.message,
            final(self)@ == (EditorView { message: None, ..old(self)@ }),
    {
        let m = self.message;
        self.message = None;
        m
    }

    /// Records that the active buffer's contents were written (or that
    /// there was nothing to write).
    pub fn saved(&mut self)
        requires
            old(self).wf(),
        ensures
            final(self).wf(),
            with_active(old(self)@, final(self)@, BufferView { modified: false, ..active(old(self)@) }),
            final(self)@.message == Some(Message::Saved),
    {
        let ghost e0 = self@;
        let cur = self.current;
        self.buffers[cur].mark_saved();
        self.message = Some(Message::Saved);
        assert(self@.buffers =~= e0.buffers.update(cur as int, BufferView { modified: false, ..active(e0) }));
    }

    /// Renders the active buffer into a window `width` by `height` cells.
    pub fn render_active(&mut self, width: u16, height: u16) -> (r: Frame)
        requires
            old(self).wf(),
        ensures
            final(self).wf(),
            with_active(old(self)@, final(self)@, BufferView {
                viewport: (r.top_row, r.top_col, width, height),
                ..active(old(self)@)
            }),
            final(self)@.message == old(self)@.message,
            renders(active(old(self)@), width, height, r),
    {
        let ghost e0 = self@;
        let cur = self.current;
        let f = self.buffers[cur].render(width, height);
        assert(self@.buffers =~= e0.buffers.update(
            cur as int,
            BufferView { viewport: (f.top_row, f.top_col, width, height), ..active(e0) },
        ));
        f
    }
}

/// The editor after a switch to buffer `i`: it becomes active with a
/// message saying so, unless it is not open or already active.
pub open spec fn switched(e: EditorView, i: u32) -> EditorView {
    if (i as int) < e.buffers.len() && i as int != e.current {
        EditorView { current: i as int, message: Some(Message::Switched(i as usize)), ..e }
    } else {
        e
    }
}

/// `e2` and `r` are the editor and the status after key `input` in `e`:
/// global commands first, then the search overlay when it is open, then
/// the active buffer, where Ctrl-F opens the overlay.
pub open spec fn dispatched(e: EditorView, input: Input, e2: EditorView, r: Status) -> bool {
    let b = active(e);
    match command_of(input) {
        Command::Quit => r == Status::Stop && e2 == e,
        Command::Save => r == Status::Save && e2 == e,
        Command::ToggleFullscreen => r == Status::Continue && e2.message == e.message && with_active(
            e,
            e2,
            BufferView { fullscreen: next_mode(b.fullscreen), ..b },
        ),
        Command::ToggleLineNumbers => r == Status::Continue && e2.message == e.message && with_active(
            e,
            e2,
            BufferView { line_numbers: !b.line_numbers, ..b },
        ),
        Command::Switch(i) => r == Status::Continue && e2 == switched(e, i),
        Command::NoBuffer => r == Status::Continue && e2 == e,
        Command::Other => r == Status::Continue && if b.search.open {
            search_step(e, input, e2)
        } else if opens_search(input) {
            e2.message == e.message && with_active(e, e2, after_open_search(b))
        } else {
            e2.message == e.message && with_active(e, e2, after_input(b, input))
        },
    }
}

/// Whether the key opens the search overlay (Ctrl-F).
pub open spec fn opens_search(input: Input) -> bool {
    input.key == Key::Char('f') && input.ctrl
}

impl Editor {
    /// Handles one key press. Global commands come first: toggling
    /// fullscreen or line numbers of the active buffer, quitting, switching
    /// buffers (a switch to a missing or to the active buffer does nothing),
    /// and saving. Otherwise the key goes to the active buffer's search
    /// overlay while it is open, and to the buffer itself when not, where
    /// Ctrl-F opens the overlay.
    pub fn process_input(&mut self, input: Input) -> (r: Status)
        requires
            old(self).wf(),
        ensures
            final(self).wf(),
            dispatched(old(self)@, input, final(self)@, r),
    {
        let ghost e0 = self@;
        let cur = self.current;
        proof {
            assert(self.buffers@[cur as int].wf());
        }
        match command(input) {
            Command::Quit => Status::Stop,
            Command::Save => Status::Save,
            Command::ToggleFullscreen => {
                self.buffers[cur].toggle_fullscreen();
                assert(self@.buffers =~= e0.buffers.update(cur as int, active(self@)));
                Status::Continue
            },
            Command::ToggleLineNumbers => {
                self.buffers[cur].toggle_line_numbers();
                assert(self@.buffers =~= e0.buffers.update(cur as int, active(self@)));
                Status::Continue
            },
            Command::NoBuffer => Status::Continue,
            Command::Switch(i) => {
                if (i as usize) < self.buffers.len() && i as usize != cur {
                    self.current = i as usize;
                    self.message = Some(Message::Switched(i as usize));
                }
                Status::Continue
            },
            Command::Other => {
                if self.buffers[cur].search().is_open() {
                    self.search_key(input);
                } else if input.key == Key::Char('f') && input.ctrl {
                    self.buffers[cur].open_search();
                    assert(self@.buffers =~= e0.buffers.update(cur as int, active(self@)));
                } else {
                    self.buffers[cur].input(input);
                    assert(self@.buffers =~= e0.buffers.update(cur as int, active(self@)));
                }
                Status::Continue
            },
        }
    }

    /// Handles a key while the active buffer's search overlay is open.
    fn search_key(&mut self, input: Input)
        requires
            old(self).wf(),
            active(old(self)@).search.open,
        ensures
            final(self).wf(),
            search_step(old(self)@, input, final(self)@),
    {
        let ghost e0 = self@;
        let ghost b0 = active(e0);
        let cur = self.current;
        proof {
            assert(self.buffers@[cur as int].wf());
        }
        match input.key {
            Key::Down => {
                let found = self.buffers[cur].search_forward(false);
                let ghost m = self.buffers@[cur as int]@;
                if !found {
                    self.buffers[cur].set_search_error(Some(SearchError::NotFound));
                }
                assert(self@.buffers =~= e0.buffers.update(cur as int, active(self@)));
                assert(searched_forward(b0, false, found, m));
            },
            Key::Up => {
                let found = self.buffers[cur].search_back();
                let ghost m = self.buffers@[cur as int]@;
                if !found {
                    self.buffers[cur].set_search_error(Some(SearchError::NotFound));
                }
                assert(self@.buffers =~= e0.buffers.update(cur as int, active(self@)));
                assert(searched_back(b0, found, m));
            },
            Key::Enter => {
                let found = self.buffers[cur].search_forward(true);
                let ghost m = self.buffers@[cur as int]@;
                if !found {
                    self.message = Some(Message::NotFound);
                }
                self.buffers[cur].close_search();
                assert(self@.buffers =~= e0.buffers.update(cur as int, active(self@)));
                assert(searched_forward(b0, true, found, m));
            },
            Key::Esc => {
                self.buffers[cur].close_search();
                assert(self@.buffers =~= e0.buffers.update(cur as int, active(self@)));
            },
            _ => {
                self.buffers[cur].edit_search(input);
                assert(self@.buffers =~= e0.buffers.update(cur as int, active(self@)));
            },
        }
    }
}

/// Confirming a search that finds nothing keeps the cursor where it was,
/// closes the overlay and reports the miss in the status message.
pub proof fn lemma_confirm_without_match(e: EditorView, input: Input, e2: EditorView, r: Status)
    requires
        0 <= e.current < e.buffers.len(),
        input.key == Key::Enter,
        active(e).search.open,
        none_from(active(e).lines, active_pattern(active(e)), (0, 0)),
        dispatched(e, input, e2, r),
    ensures
        active(e2).row == active(e).row,
        active(e2).col == active(e).col,
        active(e2).lines == active(e).lines,
        !active(e2).search.open,
        e2.message == Some(Message::NotFound),
        r == Status::Continue,
{
    assert(command_of(input) == Command::Other);
    let b = active(e);
    let (found, m) = choose|found: bool, m: BufferView|
        #[trigger] searched_forward(b, true, found, m) && active(e2) == after_close_search(m) && e2.message == (
        if found {
            e.message
        } else {
            Some(Message::NotFound)
        });
    if found {
        let t = (m.row, m.col);
        assert(crate::find::match_at(b.lines, active_pattern(b), t.0, t.1));
    }
}

/// Alt and a digit that names no open buffer changes nothing: neither the
/// active buffer nor the status message.
pub proof fn lemma_switch_out_of_range(e: EditorView, input: Input, e2: EditorView, r: Status)
    requires
        input.alt && !input.ctrl && !input.shift,
        input.key matches Key::Char(d) && '0' <= d <= '9' && (d == '0' || d as int - '1' as int >= e.buffers.len()),
        dispatched(e, input, e2, r),
    ensures
        e2.current == e.current,
        e2.message == e.message,
        e2 == e,
        r == Status::Continue,
{
}

/// What the bottom line of the screen shows.
#[derive(Debug, Clone, Copy, PartialEq, Eq, Structural)]
pub enum Footer {
    /// A status message, shown once.
    Message(Message),
    /// The keys of the open search overlay.
    SearchHelp,
    /// The editor's main keys.
    Help,
}

/// Which bands surround the content area in a fullscreen mode, as
/// `(status line, message line)`; the search band is always laid out, with
/// the overlay's height.
pub fn bands(mode: Fullscreen) -> (r: (bool, bool))
    ensures
        r == (mode != Fullscreen::Full, mode == Fullscreen::Off),
{
    match mode {
        Fullscreen::Off => (true, true),
        Fullscreen::Half => (true, false),
        Fullscreen::Full => (false, false),
    }
}

impl Editor {
    /// Picks the bottom line: the pending message, which is consumed, or
    /// else help for the search overlay when it is open, or the main help.
    pub fn take_footer(&mut self) -> (r: Footer)
        requires
            old(self).wf(),
        ensures
            final(self).wf(),
            final(self)@ == (EditorView { message: None, ..old(self)@ }),
            r == (match old(self)@.message {
                Some(m) => Footer::Message(m),
                None => if active(old(self)@).search.open { Footer::SearchHelp } else { Footer::Help },
            }),
    {
        match self.take_message() {
            Some(m) => Footer::Message(m),
            None => if self.active().search().is_open() {
                Footer::SearchHelp
            } else {
                Footer::Help
            },
        }
    }
}

/// Ctrl-F with the overlay closed opens it, seeded with the selected text
/// when there is a selection and with the last pattern otherwise.
pub proof fn lemma_open_search_seeds(e: EditorView, input: Input, e2: EditorView, r: Status)
    requires
        0 <= e.current < e.buffers.len(),
        !active(e).search.open,
        opens_search(input),
        dispatched(e, input, e2, r),
    ensures
        active(e2).search.open,
        selection(active(e)) matches Some(t) ==> active(e2).search.pattern == t,
        selection(active(e)) is None ==> active(e2).search.pattern == active(e).search.pattern,
        active_pattern(active(e2)) == active(e2).search.pattern,
        r == Status::Continue,
{
    assert(command_of(input) == Command::Other);
}

/// What happened at the terminal.
#[derive(Debug, Clone, Copy, PartialEq, Eq, Structural)]
pub enum TermEvent {
    /// A key press.
    Key(Input),
    /// The terminal changed size.
    Resize,
    /// Anything else (mouse, focus, paste).
    Other,
}

/// What the event loop does with one terminal event.
#[derive(Debug, Clone, Copy, PartialEq, Eq, Structural)]
pub struct Step {
    /// Render before anything else (the terminal was resized).
    pub render_first: bool,
    /// What to do after the key was handled.
    pub status: Status,
    /// Render after handling (only when a key reached the editor and the
    /// editor goes on).
    pub render_after: bool,
}

/// The event carries a key that the editor handles: a key press other than
/// the null key.
pub open spec fn handled_key(ev: TermEvent) -> Option<Input> {
    match ev {
        TermEvent::Key(i) => if i.key != Key::Null { Some(i) } else { None },
        _ => None,
    }
}

/// The figures of the status line.
#[derive(Debug, Clone, Copy, PartialEq, Eq, Structural)]
pub struct StatusLine {
    /// 1-based number of the active buffer.
    pub slot: usize,
    /// Number of open buffers.
    pub count: usize,
    /// Whether the active buffer has unsaved changes.
    pub modified: bool,
    /// 1-based line of the cursor.
    pub line: usize,
    /// 1-based column of the cursor.
    pub column: usize,
}

impl Editor {
    /// One turn of the event loop: a resize asks for a render first; a key
    /// press other than the null key goes to `process_input`, and a render
    /// follows unless the editor stops; anything else is dropped.
    pub fn handle_event(&mut self, ev: TermEvent) -> (r: Step)
        requires
            old(self).wf(),
        ensures
            final(self).wf(),
            r.render_first == (ev == TermEvent::Resize),
            handled_key(ev) matches Some(i) ==> dispatched(old(self)@, i, final(self)@, r.status)
                && r.render_after == (r.status != Status::Stop),
            handled_key(ev) is None ==> final(self)@ == old(self)@ && r.status == Status::Continue
                && !r.render_after,
    {
        let render_first = match ev {
            TermEvent::Resize => true,
            _ => false,
        };
        match ev {
            TermEvent::Key(i) => {
                if i.key == Key::Null {
                    Step { render_first, status: Status::Continue, render_after: false }
                } else {
                    let status = self.process_input(i);
                    let render_after = match status {
                        Status::Stop => false,
                        _ => true,
                    };
                    Step { render_first, status, render_after }
                }
            },
            _ => Step { render_first, status: Status::Continue, render_after: false },
        }
    }

    /// The status line of the active buffer: `[slot/count]`, whether it is
    /// modified, and the cursor as 1-based line and column.
    pub fn status_line(&self) -> (r: StatusLine)
        requires
            self.wf(),
        ensures
            r.slot == self@.current + 1,
            r.count == self@.buffers.len(),
            r.modified == active(self@).modified,
            r.line == active(self@).row + 1,
            r.column == active(self@).col + 1,
    {
        proof {
            self.lemma_wf();
        }
        let b = self.active();
        proof {
            b.lemma_wf();
            assert(fits(b@.lines[b@.row].len()));
        }
        let (row, col) = b.cursor();
        let count = self.buffers.len();
        StatusLine {
            slot: self.current + 1,
            count,
            modified: b.is_modified(),
            line: row + 1,
            column: col + 1,
        }
    }
}

} // verus!
