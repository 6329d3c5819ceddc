use vstd::prelude::*;
use crate::text::view_lines;

verus! {

// Search patterns are literal text: a pattern matches where the same
// characters stand in one line, and no pattern is malformed.

/// `p` occurs in line `r` of `lines` starting at column `c`.
pub open spec fn match_at(lines: Seq<Seq<char>>, p: Seq<char>, r: int, c: int) -> bool {
    &&& 0 <= r < lines.len()
    &&& 0 <= c
    &&& c + p.len() <= lines[r].len()
    &&& lines[r].subrange(c, c + p.len()) == p
}

/// Position `a` comes before position `b` in reading order.
pub open spec fn before(a: (int, int), b: (int, int)) -> bool {
    a.0 < b.0 || (a.0 == b.0 && a.1 < b.1)
}

/// `m` is the first occurrence at or after `start`.
pub open spec fn first_from(lines: Seq<Seq<char>>, p: Seq<char>, start: (int, int), m: (int, int)) -> bool {
    &&& match_at(lines, p, m.0, m.1)
    &&& !before(m, start)
    &&& forall|qr: int, qc: int| #[trigger] match_at(lines, p, qr, qc) && !before((qr, qc), start)
        ==> !before((qr, qc), m)
}

/// No occurrence at or after `start`.
pub open spec fn none_from(lines: Seq<Seq<char>>, p: Seq<char>, start: (int, int)) -> bool {
    forall|qr: int, qc: int| #[trigger] match_at(lines, p, qr, qc) ==> before((qr, qc), start)
}

/// `m` is the last occurrence before `end`.
pub open spec fn last_before(lines: Seq<Seq<char>>, p: Seq<char>, end: (int, int), m: (int, int)) -> bool {
    &&& match_at(lines, p, m.0, m.1)
    &&& before(m, end)
    &&& forall|qr: int, qc: int| #[trigger] match_at(lines, p, qr, qc) && before((qr, qc), end)
        ==> !before(m, (qr, qc))
}

/// No occurrence before `end`.
pub open spec fn none_before(lines: Seq<Seq<char>>, p: Seq<char>, end: (int, int)) -> bool {
    forall|qr: int, qc: int| #[trigger] match_at(lines, p, qr, qc) ==> !before((qr, qc), end)
}

/// Whether `p` occurs in `line` at column `c`.
pub fn occurs_at(line: &Vec<char>, p: &Vec<char>, c: usize) -> (r: bool)
    ensures
        r == (c + p@.len() <= line@.len() && line@.subrange(c as int, c + p@.len()) == p@),
{
    if p.len() > line.len() || c > line.len() - p.len() {
        return false;
    }
    let n = line.len();
    let mut k: usize = 0;
    while k < p.len()
        invariant
            n == line@.len(),
            c + p@.len() <= line@.len(),
            k <= p@.len(),
            forall|j: int| 0 <= j < k ==> line@[c + j] == p@[j],
        decreases p@.len() - k,
    {
        if line[c + k] != p[k] {
            assert(line@.subrange(c as int, c + p@.len())[k as int] != p@[k as int]);
            return false;
        }
        k = k + 1;
    }
    assert(line@.subrange(c as int, c + p@.len()) =~= p@);
    true
}

/// The first occurrence of `p` at or after `(start_row, start_col)`.
pub fn find_first_from(lines: &Vec<Vec<char>>, p: &Vec<char>, start_row: usize, start_col: usize) -> (r: Option<(usize, usize)>)
    requires
        p@.len() > 0,
    ensures
        r matches Some(m) ==> first_from(view_lines(lines@), p@, (start_row as int, start_col as int), (m.0 as int, m.1 as int)),
        r is None ==> none_from(view_lines(lines@), p@, (start_row as int, start_col as int)),
{
    let ghost ls = view_lines(lines@);
    let ghost start = (start_row as int, start_col as int);
    let mut r: usize = start_row;
    while r < lines.len()
        invariant
            ls == view_lines(lines@),
            start == (start_row as int, start_col as int),
            start_row <= r,
            p@.len() > 0,
            forall|qr: int, qc: int| #[trigger] match_at(ls, p@, qr, qc) && !before((qr, qc), start) ==> qr >= r,
        decreases lines@.len() - r,
    {
        let line = &lines[r];
        let mut c: usize = if r == start_row { start_col } else { 0 };
        if p.len() <= line.len() {
            while c <= line.len() - p.len()
                invariant
                    ls == view_lines(lines@),
                    start == (start_row as int, start_col as int),
                    r < lines@.len(),
                    start_row <= r,
                    *line == lines@[r as int],
                    p@.len() <= line@.len(),
                    p@.len() > 0,
                    r == start_row ==> c >= start_col,
                    forall|qr: int, qc: int| #[trigger] match_at(ls, p@, qr, qc) && !before((qr, qc), start) ==> qr > r || (qr == r && qc >= c),
                decreases line@.len() - c,
            {
                if occurs_at(line, p, c) {
                    assert(match_at(ls, p@, r as int, c as int));
                    return Some((r, c));
                }
                c = c + 1;
            }
        }
        r = r + 1;
    }
    None
}

/// The last occurrence of `p` before `(end_row, end_col)`.
pub fn find_last_before(lines: &Vec<Vec<char>>, p: &Vec<char>, end_row: usize, end_col: usize) -> (r: Option<(usize, usize)>)
    requires
        p@.len() > 0,
    ensures
        r matches Some(m) ==> last_before(view_lines(lines@), p@, (end_row as int, end_col as int), (m.0 as int, m.1 as int)),
        r is None ==> none_before(view_lines(lines@), p@, (end_row as int, end_col as int)),
{
    let ghost ls = view_lines(lines@);
    let ghost end = (end_row as int, end_col as int);
    let mut r: usize = if end_row < lines.len() { end_row + 1 } else { lines.len() };
    while r > 0
        invariant
            ls == view_lines(lines@),
            end == (end_row as int, end_col as int),
            r <= lines@.len(),
            r <= end_row + 1,
            p@.len() > 0,
            forall|qr: int, qc: int| #[trigger] match_at(ls, p@, qr, qc) && before((qr, qc), end) ==> qr < r,
        decreases r,
    {
        r = r - 1;
        let line = &lines[r];
        if p.len() <= line.len() {
            let top: usize = line.len() - p.len();
            let mut c: usize = if r == end_row {
                if end_col <= top { end_col } else { top + 1 }
            } else {
                top + 1
            };
            while c > 0
                invariant
                    ls == view_lines(lines@),
                    end == (end_row as int, end_col as int),
                    r < lines@.len(),
                    r <= end_row,
                    *line == lines@[r as int],
                    top == line@.len() - p@.len(),
                    p@.len() > 0,
                    c <= top + 1,
                    r == end_row ==> c <= end_col,
                    forall|qr: int, qc: int| #[trigger] match_at(ls, p@, qr, qc) && before((qr, qc), end) ==> qr < r || (qr == r && qc < c),
                decreases c,
            {
                c = c - 1;
                if occurs_at(line, p, c) {
                    assert(match_at(ls, p@, r as int, c as int));
                    return Some((r, c));
                }
            }
        }
    }
    None
}

/// `p` occurs in `line` at column `c`.
pub open spec fn occurs(line: Seq<char>, p: Seq<char>, c: int) -> bool {
    0 <= c && c + p.len() <= line.len() && line.subrange(c, c + p.len()) == p
}

/// `ms` lists, in increasing order, every column where `p` occurs in `line`.
pub open spec fn lists_occurrences(line: Seq<char>, p: Seq<char>, ms: Seq<usize>) -> bool {
    &&& forall|i: int, j: int| 0 <= i < j < ms.len() ==> ms[i] < ms[j]
    &&& forall|i: int| 0 <= i < ms.len() ==> occurs(line, p, #[trigger] ms[i] as int)
    &&& forall|c: usize| #[trigger] occurs(line, p, c as int) ==> ms.contains(c)
}

/// Every column where `p` occurs in `line`, in increasing order; none for an
/// empty pattern.
pub fn occurrences(line: &Vec<char>, p: &Vec<char>) -> (r: Vec<usize>)
    ensures
        p@.len() == 0 ==> r@.len() == 0,
        p@.len() > 0 ==> lists_occurrences(line@, p@, r@),
{
    let mut out: Vec<usize> = Vec::new();
    if p.len() == 0 || p.len() > line.len() {
        return out;
    }
    let n = line.len();
    let last: usize = n - p.len();
    let mut c: usize = 0;
    while c <= last
        invariant
            n == line@.len(),
            p@.len() > 0,
            last == line@.len() - p@.len(),
            c <= last + 1,
            forall|i: int, j: int| 0 <= i < j < out@.len() ==> out@[i] < out@[j],
            forall|i: int| 0 <= i < out@.len() ==> out@[i] < c,
            forall|i: int| 0 <= i < out@.len() ==> occurs(line@, p@, #[trigger] out@[i] as int),
            forall|d: usize| d < c && #[trigger] occurs(line@, p@, d as int) ==> out@.contains(d),
        decreases last + 1 - c,
    {
        if occurs_at(line, p, c) {
            let ghost before = out@;
            out.push(c);
            assert forall|d: usize| d < c + 1 && #[trigger] occurs(line@, p@, d as int) implies out@.contains(d) by {
                if d < c {
                    let k = choose|k: int| 0 <= k < before.len() && before[k] == d;
                    assert(out@[k] == d);
                } else {
                    assert(out@[before.len() as int] == d);
                }
            }
        }
        c = c + 1;
    }
    assert forall|d: usize| #[trigger] occurs(line@, p@, d as int) implies out@.contains(d) by {
        assert(d < c);
    }
    out
}

} // verus!
