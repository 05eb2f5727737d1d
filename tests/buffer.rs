use ember::buffer::Buffer;
use ember::view::View;
use ember::terminal::Size;

fn lines(text: &str) -> Vec<String> {
    Buffer::load(text).lines
}

#[test]
fn three_lines_without_final_break() {
    assert_eq!(lines("one\ntwo\nthree"), vec!["one", "two", "three"]);
}

#[test]
fn final_break_adds_no_empty_line() {
    assert_eq!(lines("one\ntwo\n"), vec!["one", "two"]);
}

#[test]
fn crlf_endings_are_removed() {
    assert_eq!(lines("a\r\nb\r\n"), vec!["a", "b"]);
}

#[test]
fn lone_carriage_return_at_end_is_kept() {
    assert_eq!(lines("a\nb\r"), vec!["a", "b\r"]);
}

#[test]
fn empty_lines_inside_are_kept() {
    assert_eq!(lines("a\n\n\nb"), vec!["a", "", "", "b"]);
    assert_eq!(lines("\n"), vec![""]);
}

#[test]
fn empty_text_has_no_lines() {
    let b = Buffer::load("");
    assert!(b.is_empty());
    assert!(!Buffer::load("x").is_empty());
}

#[test]
fn unicode_lines_are_kept_whole() {
    assert_eq!(lines("héllo\nwörld"), vec!["héllo", "wörld"]);
}

#[test]
fn failed_read_leaves_empty_buffer_empty() {
    let mut v = View::new(Size { width: 80, height: 24 });
    v.load(None);
    assert!(v.buffer.is_empty());
}

#[test]
fn failed_read_keeps_earlier_lines() {
    let mut v = View::new(Size { width: 80, height: 24 });
    v.load(Some("first\nsecond"));
    v.load(None);
    assert_eq!(v.buffer.lines, vec!["first", "second"]);
    v.load(Some("third"));
    assert_eq!(v.buffer.lines, vec!["third"]);
}
