use vstd::prelude::*;
use crate::text::{in_text, text_wf, view_lines};

verus! {

/// Largest number of edits that can be undone.
pub const MAX_HISTORY: usize = 100;

/// `ls` with the `k` lines from row `r` replaced by `new`.
pub open spec fn splice(ls: Seq<Seq<char>>, r: int, k: int, new: Seq<Seq<char>>) -> Seq<Seq<char>> {
    ls.take(r) + new + ls.skip(r + k)
}

/// Abstract record of one edit: from row `row`, the lines `old` became the
/// lines `new`, and the cursor went from `before` to `after`.
pub struct ChangeView {
    pub row: int,
    pub old: Seq<Seq<char>>,
    pub new: Seq<Seq<char>>,
    pub before: (int, int),
    pub after: (int, int),
}

/// One recorded edit.
#[derive(Debug)]
pub struct Change {
    pub row: usize,
    pub old: Vec<Vec<char>>,
    pub new: Vec<Vec<char>>,
    pub before: (usize, usize),
    pub after: (usize, usize),
}

impl View for Change {
    type V = ChangeView;

    open spec fn view(&self) -> ChangeView {
        ChangeView {
            row: self.row as int,
            old: view_lines(self.old@),
            new: view_lines(self.new@),
            before: (self.before.0 as int, self.before.1 as int),
            after: (self.after.0 as int, self.after.1 as int),
        }
    }
}

/// The views of a sequence of changes.
pub open spec fn view_changes(h: Seq<Change>) -> Seq<ChangeView> {
    Seq::new(h.len(), |i: int| h[i]@)
}

/// The text before change `ch`, given the text after it.
pub open spec fn reverted(ls: Seq<Seq<char>>, ch: ChangeView) -> Seq<Seq<char>> {
    splice(ls, ch.row, ch.new.len() as int, ch.old)
}

/// The text after change `ch`, given the text before it.
pub open spec fn reapplied(ls: Seq<Seq<char>>, ch: ChangeView) -> Seq<Seq<char>> {
    splice(ls, ch.row, ch.old.len() as int, ch.new)
}

/// Undoing the changes of `h`, last first, starting from `ls`, goes
/// through well-formed texts with the recorded cursors inside them, and
/// every recorded change changed the lines it covers.
pub open spec fn undoable(ls: Seq<Seq<char>>, h: Seq<ChangeView>) -> bool
    decreases h.len(),
{
    if h.len() == 0 {
        true
    } else {
        let ch = h.last();
        &&& ch.old != ch.new
        &&& 0 <= ch.row
        &&& ch.row + ch.new.len() <= ls.len()
        &&& ls.subrange(ch.row, ch.row + ch.new.len()) == ch.new
        &&& in_text(ls, ch.after)
        &&& text_wf(reverted(ls, ch))
        &&& in_text(reverted(ls, ch), ch.before)
        &&& undoable(reverted(ls, ch), h.drop_last())
    }
}

/// Redoing the changes of `f`, last first, starting from `ls`, goes
/// through well-formed texts with the recorded cursors inside them, and
/// every recorded change changes the lines it covers.
pub open spec fn redoable(ls: Seq<Seq<char>>, f: Seq<ChangeView>) -> bool
    decreases f.len(),
{
    if f.len() == 0 {
        true
    } else {
        let ch = f.last();
        &&& ch.old != ch.new
        &&& 0 <= ch.row
        &&& ch.row + ch.old.len() <= ls.len()
        &&& ls.subrange(ch.row, ch.row + ch.old.len()) == ch.old
        &&& in_text(ls, ch.before)
        &&& text_wf(reapplied(ls, ch))
        &&& in_text(reapplied(ls, ch), ch.after)
        &&& redoable(reapplied(ls, ch), f.drop_last())
    }
}

/// `h` with `ch` appended, dropping the oldest entry when full.
pub open spec fn bounded_push(h: Seq<ChangeView>, ch: ChangeView) -> Seq<ChangeView> {
    if h.len() >= MAX_HISTORY { h.skip(1).push(ch) } else { h.push(ch) }
}

/// Forgetting the oldest change keeps the rest undoable.
pub proof fn lemma_undoable_skip(ls: Seq<Seq<char>>, h: Seq<ChangeView>)
    requires
        undoable(ls, h),
        h.len() > 0,
    ensures
        undoable(ls, h.skip(1)),
    decreases h.len(),
{
    if h.len() > 1 {
        let ch = h.last();
        assert(h.skip(1).last() == ch);
        assert(h.skip(1).drop_last() =~= h.drop_last().skip(1));
        lemma_undoable_skip(reverted(ls, ch), h.drop_last());
    } else {
        assert(h.skip(1).len() == 0);
    }
}

/// Replacing lines by `new` and then `new` by the replaced lines gives back
/// the text.
pub proof fn lemma_splice_back(ls: Seq<Seq<char>>, r: int, k: int, new: Seq<Seq<char>>)
    requires
        0 <= r,
        0 <= k,
        r + k <= ls.len(),
    ensures
        splice(ls, r, k, new).subrange(r, r + new.len()) == new,
        splice(splice(ls, r, k, new), r, new.len() as int, ls.subrange(r, r + k)) == ls,
{
    assert(splice(ls, r, k, new).subrange(r, r + new.len()) =~= new);
    assert(splice(splice(ls, r, k, new), r, new.len() as int, ls.subrange(r, r + k)) =~= ls);
}

/// Replacing lines by different lines changes the text.
pub proof fn lemma_splice_changes(ls: Seq<Seq<char>>, r: int, k: int, new: Seq<Seq<char>>)
    requires
        0 <= r,
        0 <= k,
        r + k <= ls.len(),
        ls.subrange(r, r + k) != new,
    ensures
        splice(ls, r, k, new) != ls,
{
    if splice(ls, r, k, new) == ls {
        lemma_splice_back(ls, r, k, new);
        assert(new.len() == k);
        assert(ls.subrange(r, r + k) == new);
    }
}

/// Recording an edit from a well-formed state keeps the history undoable.
pub proof fn lemma_record(ls: Seq<Seq<char>>, h: Seq<ChangeView>, ch: ChangeView)
    requires
        text_wf(ls),
        undoable(ls, h),
        ch.old != ch.new,
        0 <= ch.row,
        ch.row + ch.old.len() <= ls.len(),
        ch.old == ls.subrange(ch.row, ch.row + ch.old.len()),
        in_text(ls, ch.before),
        text_wf(reapplied(ls, ch)),
        in_text(reapplied(ls, ch), ch.after),
    ensures
        undoable(reapplied(ls, ch), bounded_push(h, ch)),
{
    let after = reapplied(ls, ch);
    lemma_splice_back(ls, ch.row, ch.old.len() as int, ch.new);
    assert(reverted(after, ch) == ls);
    if h.len() >= MAX_HISTORY {
        lemma_undoable_skip(ls, h);
        assert(h.skip(1).push(ch).drop_last() =~= h.skip(1));
    } else {
        assert(h.push(ch).drop_last() =~= h);
    }
}

/// Undoing the last change of an undoable history gives a state from which
/// it can be redone.
pub proof fn lemma_undo(ls: Seq<Seq<char>>, h: Seq<ChangeView>, f: Seq<ChangeView>)
    requires
        text_wf(ls),
        undoable(ls, h),
        redoable(ls, f),
        h.len() > 0,
    ensures
        undoable(reverted(ls, h.last()), h.drop_last()),
        redoable(reverted(ls, h.last()), f.push(h.last())),
{
    let ch = h.last();
    let prev = reverted(ls, ch);
    assert(ls =~= ls.take(ch.row) + ch.new + ls.skip(ch.row + ch.new.len()));
    lemma_splice_back(ls, ch.row, ch.new.len() as int, ch.old);
    assert(prev.subrange(ch.row, ch.row + ch.old.len()) == ch.old);
    assert(reapplied(prev, ch) =~= ls);
    assert(f.push(ch).drop_last() =~= f);
}

/// Redoing the last undone change gives a state from which it can be
/// undone again.
pub proof fn lemma_redo(ls: Seq<Seq<char>>, h: Seq<ChangeView>, f: Seq<ChangeView>)
    requires
        text_wf(ls),
        undoable(ls, h),
        redoable(ls, f),
        f.len() > 0,
    ensures
        undoable(reapplied(ls, f.last()), bounded_push(h, f.last())),
        redoable(reapplied(ls, f.last()), f.drop_last()),
{
    let ch = f.last();
    lemma_record(ls, h, ch);
}

/// Lines `r .. r + k` of `lines`.
pub fn copy_lines(lines: &Vec<Vec<char>>, r: usize, k: usize) -> (out: Vec<Vec<char>>)
    requires
        r + k <= lines@.len(),
    ensures
        view_lines(out@) == view_lines(lines@).subrange(r as int, r + k),
{
    let mut out: Vec<Vec<char>> = Vec::new();
    let mut j: usize = 0;
    while j < k
        invariant
            r + k <= lines.len(),
            j <= k,
            view_lines(out@) == view_lines(lines@).subrange(r as int, r + j),
        decreases k - j,
    {
        let line = lines[r + j].clone();
        assert(line@ =~= lines@[r + j]@);
        let ghost before = view_lines(out@);
        let ghost lv = line@;
        out.push(line);
        assert(view_lines(out@) =~= before.push(lv));
        j = j + 1;
        assert(view_lines(out@) =~= view_lines(lines@).subrange(r as int, r + j));
    }
    out
}

/// Replaces the `k` lines from row `r` by copies of `new`.
pub fn splice_lines(lines: &mut Vec<Vec<char>>, r: usize, k: usize, new: &Vec<Vec<char>>)
    requires
        r + k <= old(lines)@.len(),
    ensures
        view_lines(final(lines)@) == splice(view_lines(old(lines)@), r as int, k as int, view_lines(new@)),
{
    let ghost ls0 = view_lines(lines@);
    let mut j: usize = 0;
    while j < k
        invariant
            r + k <= ls0.len(),
            j <= k,
            lines.len() == ls0.len() - j,
            view_lines(lines@) == ls0.take(r as int) + ls0.skip(r + j),
        decreases k - j,
    {
        let ghost pre = lines@;
        lines.remove(r);
        assert(view_lines(lines@) =~= view_lines(pre).remove(r as int));
        j = j + 1;
        assert(view_lines(lines@) =~= ls0.take(r as int) + ls0.skip(r + j));
    }
    let mut j: usize = 0;
    while j < new.len()
        invariant
            r + k <= ls0.len(),
            j <= new@.len(),
            lines.len() == ls0.len() - k + j,
            view_lines(lines@) == ls0.take(r as int) + view_lines(new@).take(j as int) + ls0.skip(r + k),
        decreases new@.len() - j,
    {
        let line = new[j].clone();
        assert(line@ =~= new@[j as int]@);
        let ghost pre = lines@;
        let ghost lv = line@;
        lines.insert(r + j, line);
        assert(view_lines(lines@) =~= view_lines(pre).insert(r + j, lv));
        j = j + 1;
        assert(view_lines(lines@) =~= ls0.take(r as int) + view_lines(new@).take(j as int) + ls0.skip(r + k));
    }
    assert(view_lines(new@).take(new@.len() as int) =~= view_lines(new@));
}

} // verus!
