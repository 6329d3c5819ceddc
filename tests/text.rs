use ded::find::occurrences;
use ded::text::{contents_of, lines_of};

fn chars(s: &str) -> Vec<char> {
    s.chars().collect()
}

fn lines(ls: &[&str]) -> Vec<Vec<char>> {
    ls.iter().map(|l| chars(l)).collect()
}

#[test]
fn contents_end_lines_with_newlines() {
    assert_eq!(contents_of(&lines(&["a", "bc"])), chars("a\nbc\n"));
}

#[test]
fn empty_last_line_adds_no_newline() {
    assert_eq!(contents_of(&lines(&["a", ""])), chars("a\n"));
    assert_eq!(contents_of(&lines(&[""])), chars(""));
}

#[test]
fn read_lines_from_contents() {
    assert_eq!(lines_of(&chars("hello\n")), lines(&["hello"]));
    assert_eq!(lines_of(&chars("hello")), lines(&["hello"]));
    assert_eq!(lines_of(&chars("")), lines(&[""]));
    assert_eq!(lines_of(&chars("a\n\nb")), lines(&["a", "", "b"]));
    assert_eq!(lines_of(&chars("a\n\n")), lines(&["a", ""]));
}

#[test]
fn contents_read_back() {
    for ls in [vec!["hello"], vec![""], vec!["a", "", "c"], vec!["x", "y"]] {
        let v = lines(&ls);
        assert_eq!(lines_of(&contents_of(&v)), v);
    }
}

#[test]
fn file_read_then_written_keeps_trailing_newline() {
    let t = chars("hello\n");
    assert_eq!(contents_of(&lines_of(&t)), t);
}

#[test]
fn occurrences_in_a_line() {
    assert_eq!(occurrences(&chars("banana"), &chars("ana")), vec![1, 3]);
    assert_eq!(occurrences(&chars("banana"), &chars("")), Vec::<usize>::new());
    assert_eq!(occurrences(&chars("ba"), &chars("banana")), Vec::<usize>::new());
}
