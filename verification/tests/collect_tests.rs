use copypathtool::collect::{join_lines, paths_from_lines};
use copypathtool::text::trim_str;

fn strings(v: &[&str]) -> Vec<String> {
    v.iter().map(|s| s.to_string()).collect()
}

#[test]
fn lines_are_trimmed_deduplicated_and_sorted() {
    let lines = strings(&["C:\\b.txt", "  C:\\a.txt\r", "", "   ", "C:\\b.txt", "\tC:\\c.txt"]);
    assert_eq!(paths_from_lines(&lines), strings(&["C:\\a.txt", "C:\\b.txt", "C:\\c.txt"]));
}

#[test]
fn order_follows_code_points() {
    let lines = strings(&["b", "B", "a", "ab", "中", "A"]);
    assert_eq!(paths_from_lines(&lines), strings(&["A", "B", "a", "ab", "b", "中"]));
}

#[test]
fn no_lines_no_paths() {
    assert_eq!(paths_from_lines(&Vec::new()), Vec::<String>::new());
    assert_eq!(paths_from_lines(&strings(&["", " \t "])), Vec::<String>::new());
}

#[test]
fn line_order_does_not_matter() {
    let a = paths_from_lines(&strings(&["x", "y", "z", "x"]));
    let b = paths_from_lines(&strings(&["z", "x", "y"]));
    assert_eq!(a, b);
}

#[test]
fn clipboard_text_uses_crlf() {
    assert_eq!(join_lines(&strings(&["C:\\a", "C:\\b", "C:\\c"])), "C:\\a\r\nC:\\b\r\nC:\\c");
    assert_eq!(join_lines(&strings(&["C:\\only"])), "C:\\only");
    assert_eq!(join_lines(&Vec::new()), "");
}

#[test]
fn trim_matches_std() {
    for s in ["  a b  ", "\u{3000}x\u{a0}", "\r\n", "", "no-space", "\u{2028}y\u{200b}"] {
        assert_eq!(trim_str(s), s.trim());
    }
}
