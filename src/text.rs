use vstd::prelude::*;

verus! {

/// The character sequences held by a vector of lines.
pub open spec fn view_lines(v: Seq<Vec<char>>) -> Seq<Seq<char>> {
    Seq::new(v.len(), |i: int| v[i]@)
}

/// Every line followed by a newline, concatenated.
pub open spec fn terminated(lines: Seq<Seq<char>>) -> Seq<char>
    decreases lines.len(),
{
    if lines.len() == 0 {
        Seq::empty()
    } else {
        terminated(lines.drop_last()) + lines.last() + seq!['\n']
    }
}

/// File contents of a line sequence: each line ends with a newline, except
/// that an empty last line adds nothing.
pub open spec fn file_contents(lines: Seq<Seq<char>>) -> Seq<char> {
    if lines.len() > 0 && lines.last().len() == 0 {
        terminated(lines.drop_last())
    } else {
        terminated(lines)
    }
}

/// The pieces of `text` between newlines (always at least one).
pub open spec fn pieces(text: Seq<char>) -> Seq<Seq<char>>
    decreases text.len(),
{
    if text.len() == 0 {
        seq![Seq::empty()]
    } else {
        let p = pieces(text.drop_last());
        if text.last() == '\n' {
            p.push(Seq::empty())
        } else {
            p.update(p.len() - 1, p.last().push(text.last()))
        }
    }
}

/// Lines read from file contents: the pieces between newlines, where a
/// final newline ends the last line rather than starting a new one.
pub open spec fn parse_lines(text: Seq<char>) -> Seq<Seq<char>> {
    let p = pieces(text);
    if p.len() > 1 && p.last().len() == 0 {
        p.drop_last()
    } else {
        p
    }
}

/// A length that a `Vec` can still grow past.
pub open spec fn fits(n: nat) -> bool {
    n < usize::MAX
}

/// A position lies in the text.
pub open spec fn in_text(lines: Seq<Seq<char>>, p: (int, int)) -> bool {
    0 <= p.0 < lines.len() && 0 <= p.1 <= lines[p.0].len()
}

/// Well-formed text: at least one line, none holding a newline, and all
/// lengths such that the text can still grow.
pub open spec fn text_wf(ls: Seq<Seq<char>>) -> bool {
    &&& ls.len() >= 1
    &&& fits(ls.len())
    &&& forall|i: int| 0 <= i < ls.len() ==> fits(#[trigger] ls[i].len())
    &&& single_lines(ls)
}

/// No newline in `p`.
pub open spec fn one_line(p: Seq<char>) -> bool {
    forall|i: int| 0 <= i < p.len() ==> p[i] != '\n'
}

/// No line holds a newline.
pub open spec fn single_lines(lines: Seq<Seq<char>>) -> bool {
    forall|i: int| 0 <= i < lines.len() ==> one_line(#[trigger] lines[i])
}

/// Facts on the pieces of a text: how many, how long, and free of newlines.
pub proof fn lemma_pieces_bounds(text: Seq<char>)
    ensures
        pieces(text).len() <= text.len() + 1,
        forall|i: int| 0 <= i < pieces(text).len() ==> #[trigger] pieces(text)[i].len() <= text.len(),
        single_lines(pieces(text)),
    decreases text.len(),
{
    if text.len() > 0 {
        lemma_pieces_bounds(text.drop_last());
        lemma_pieces_len(text.drop_last());
        let p = pieces(text.drop_last());
        if text.last() != '\n' {
            let q = p.last().push(text.last());
            assert(one_line(q)) by {
                assert(one_line(p[p.len() - 1]));
            }
        }
    }
}

/// Facts on the lines read from a text.
pub proof fn lemma_parse_bounds(text: Seq<char>)
    ensures
        parse_lines(text).len() >= 1,
        parse_lines(text).len() <= text.len() + 1,
        forall|i: int| 0 <= i < parse_lines(text).len() ==> #[trigger] parse_lines(text)[i].len() <= text.len(),
        single_lines(parse_lines(text)),
{
    lemma_pieces_bounds(text);
    lemma_pieces_len(text);
    let p = pieces(text);
    if p.len() > 1 && p.last().len() == 0 {
        assert forall|i: int| 0 <= i < p.drop_last().len() implies one_line(#[trigger] p.drop_last()[i]) by {
            assert(one_line(p[i]));
        }
        assert forall|i: int| 0 <= i < p.drop_last().len() implies #[trigger] p.drop_last()[i].len() <= text.len() by {
            assert(p[i].len() <= text.len());
        }
    }
}

proof fn lemma_pieces_len(text: Seq<char>)
    ensures
        pieces(text).len() >= 1,
    decreases text.len(),
{
    if text.len() > 0 {
        lemma_pieces_len(text.drop_last());
    }
}

proof fn lemma_pieces_append_plain(a: Seq<char>, b: Seq<char>)
    requires
        forall|j: int| 0 <= j < b.len() ==> b[j] != '\n',
    ensures
        pieces(a + b).len() == pieces(a).len(),
        pieces(a + b) == pieces(a).update(pieces(a).len() - 1, pieces(a).last() + b),
    decreases b.len(),
{
    lemma_pieces_len(a);
    if b.len() == 0 {
        assert(a + b =~= a);
        assert(pieces(a).last() + b =~= pieces(a).last());
        assert(pieces(a).update(pieces(a).len() - 1, pieces(a).last()) =~= pieces(a));
    } else {
        let b0 = b.drop_last();
        lemma_pieces_append_plain(a, b0);
        assert((a + b).drop_last() =~= a + b0);
        assert((a + b).last() == b.last());
        assert(pieces(a).last() + b0 + seq![b.last()] =~= pieces(a).last() + b);
        let p0 = pieces(a + b0);
        assert(p0.last() == pieces(a).last() + b0);
        assert(p0.last().push(b.last()) =~= pieces(a).last() + b);
        assert(pieces(a + b) =~= pieces(a).update(pieces(a).len() - 1, pieces(a).last() + b));
    }
}

proof fn lemma_pieces_terminated(lines: Seq<Seq<char>>)
    requires
        single_lines(lines),
    ensures
        pieces(terminated(lines)) == lines.push(Seq::empty()),
    decreases lines.len(),
{
    if lines.len() == 0 {
        assert(seq![Seq::<char>::empty()] =~= lines.push(Seq::empty()));
    } else {
        let init = lines.drop_last();
        assert forall|i: int| 0 <= i < init.len() implies one_line(#[trigger] init[i]) by {
            assert(one_line(lines[i]));
        }
        lemma_pieces_terminated(init);
        let a = terminated(init);
        let last = lines.last();
        assert(one_line(lines[lines.len() - 1]));
        lemma_pieces_append_plain(a, last);
        let t = terminated(lines);
        assert(t.drop_last() =~= a + last);
        assert(t.last() == '\n');
        assert(pieces(a + last) =~= init.push(last));
        assert(init.push(last) =~= lines);
    }
}

/// Writing lines and reading the file back gives the same lines, for any
/// non-empty sequence of single lines whose last line is non-empty or which
/// is a single line.
pub proof fn lemma_contents_round_trip(lines: Seq<Seq<char>>)
    requires
        lines.len() > 0,
        single_lines(lines),
        lines.last().len() > 0 || lines.len() == 1,
    ensures
        parse_lines(file_contents(lines)) == lines,
{
    if lines.last().len() > 0 {
        lemma_pieces_terminated(lines);
        assert(lines.push(Seq::empty()).drop_last() =~= lines);
    } else {
        assert(lines.drop_last() =~= Seq::<Seq<char>>::empty());
        assert(terminated(lines.drop_last()) =~= Seq::<char>::empty());
        assert(lines[0] =~= Seq::<char>::empty());
        assert(lines =~= seq![Seq::<char>::empty()]);
    }
}

/// Appends the characters of `src` to `dst`.
fn append_chars(dst: &mut Vec<char>, src: &Vec<char>)
    ensures
        final(dst)@ == old(dst)@ + src@,
{
    let mut i: usize = 0;
    while i < src.len()
        invariant
            i <= src@.len(),
            dst@ == old(dst)@ + src@.take(i as int),
        decreases src@.len() - i,
    {
        dst.push(src[i]);
        i = i + 1;
        assert(src@.take(i as int) =~= src@.take(i - 1) + seq![src@[i - 1]]);
    }
    assert(src@.take(src@.len() as int) =~= src@);
}

/// File contents for a line sequence.
pub fn contents_of(lines: &Vec<Vec<char>>) -> (r: Vec<char>)
    ensures
        r@ == file_contents(view_lines(lines@)),
{
    let ghost dv = view_lines(lines@);
    let n = lines.len();
    let skip_last = n > 0 && lines[n - 1].len() == 0;
    let upto: usize = if skip_last { n - 1 } else { n };
    let mut out: Vec<char> = Vec::new();
    let mut i: usize = 0;
    while i < upto
        invariant
            upto <= n == lines.len(),
            dv == view_lines(lines@),
            i <= upto,
            out@ == terminated(dv.take(i as int)),
        decreases upto - i,
    {
        append_chars(&mut out, &lines[i]);
        out.push('\n');
        i = i + 1;
        assert(dv.take(i as int).drop_last() =~= dv.take(i - 1));
    }
    if skip_last {
        assert(dv.take(upto as int) =~= dv.drop_last());
    } else {
        assert(dv.take(upto as int) =~= dv);
    }
    out
}

/// Splits file contents into lines.
pub fn lines_of(text: &Vec<char>) -> (r: Vec<Vec<char>>)
    ensures
        view_lines(r@) == parse_lines(text@),
        r.len() >= 1,
{
    let mut done: Vec<Vec<char>> = Vec::new();
    let mut cur: Vec<char> = Vec::new();
    let mut i: usize = 0;
    while i < text.len()
        invariant
            i <= text@.len(),
            view_lines(done@).push(cur@) == pieces(text@.take(i as int)),
        decreases text@.len() - i,
    {
        let c = text[i];
        let ghost before = view_lines(done@).push(cur@);
        assert(text@.take(i + 1).drop_last() =~= text@.take(i as int));
        if c == '\n' {
            let ghost old_dv = view_lines(done@);
            let finished = cur;
            done.push(finished);
            cur = Vec::new();
            assert(view_lines(done@) =~= old_dv.push(finished@));
            assert(view_lines(done@).push(cur@) =~= before.push(Seq::empty()));
        } else {
            cur.push(c);
            assert(view_lines(done@).push(cur@) =~= before.update(before.len() - 1, before.last().push(c)));
        }
        i = i + 1;
    }
    assert(text@.take(text@.len() as int) =~= text@);
    let ghost p = view_lines(done@).push(cur@);
    assert(p.last() == cur@);
    if done.len() > 0 && cur.len() == 0 {
        assert(p.drop_last() =~= view_lines(done@));
        done
    } else {
        let ghost old_dv = view_lines(done@);
        let ghost last = cur@;
        done.push(cur);
        assert(view_lines(done@) =~= old_dv.push(last));
        done
    }
}

} // verus!
