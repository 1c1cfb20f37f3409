use wrun::diff::{
    algorithm_name, format_line_number, granularity_name, pretty_path, strip_newline,
    with_path_headers, DiffUtil,
};

#[test]
fn canonical_names() {
    assert_eq!(granularity_name("WORD"), "word");
    assert_eq!(granularity_name("char"), "char");
    assert_eq!(granularity_name("anything"), "line");
    assert_eq!(algorithm_name("Patience"), "patience");
    assert_eq!(algorithm_name("LCS"), "lcs");
    assert_eq!(algorithm_name("whatever"), "myers");
}

#[test]
fn display_path_and_newline_strip() {
    assert_eq!(pretty_path(""), "file");
    assert_eq!(pretty_path("src/a.rs"), "src/a.rs");
    assert_eq!(strip_newline("x\n"), "x");
    assert_eq!(strip_newline("x"), "x");
    assert_eq!(strip_newline(""), "");
}

#[test]
fn line_numbers_right_aligned() {
    assert_eq!(format_line_number(Some(4), 3), "  5");
    assert_eq!(format_line_number(Some(99), 2), "100");
    assert_eq!(format_line_number(None, 3), "   ");
}

#[test]
fn header_rewrite() {
    let patch = "--- original\n+++ modified\n@@ -1 +1 @@\n-a\n+b\n".to_string();
    assert_eq!(
        with_path_headers(patch, "f.txt"),
        "--- a/f.txt\n+++ b/f.txt\n@@ -1 +1 @@\n-a\n+b\n"
    );
    let untouched = "no headers here".to_string();
    assert_eq!(with_path_headers(untouched, "f"), "no headers here");
}

#[test]
fn patch_matches_direct_diffy_output() {
    let d = DiffUtil::new();
    let before = "one\ntwo\nthree\n";
    let after = "one\n2\nthree\n";
    let expected = diffy::create_patch(before, after)
        .to_string()
        .replacen("--- original", "--- a/n.txt", 1)
        .replacen("+++ modified", "+++ b/n.txt", 1);
    assert_eq!(d.patch("n.txt", before, after), expected);
}

#[test]
fn patch_round_trip_applies() {
    let d = DiffUtil::new();
    let before = "alpha\nbeta\ngamma\n";
    let after = "alpha\nBETA\ngamma\n";
    let patch = d.patch("f", before, after);
    let applied = d.applyPatchResult(before, &patch);
    assert_eq!(applied.len(), 2);
    assert_eq!(applied[0], "ok");
    assert_eq!(applied[1], after);
}

#[test]
fn apply_bad_patch_reports_error() {
    let d = DiffUtil::new();
    let patch = "--- original\n+++ modified\n@@ -1,1 +1,1 @@\n-no such line\n+x\n";
    let out = d.applyPatchResult("something else entirely\n", patch);
    assert_eq!(out.len(), 2);
    assert_eq!(out[0], "error");
    assert!(!out[1].is_empty());
}

#[test]
fn patch_color_carries_headers() {
    let d = DiffUtil::new();
    let colored = d.patchColor("c.txt", "a\n", "b\n");
    assert!(colored.contains("--- a/c.txt"));
    assert!(colored.contains("+++ b/c.txt"));
}

#[test]
fn pretty_line_mode_output() {
    let d = DiffUtil::new();
    let out = d.pretty("f.txt", "a\nsame\n", "b\nsame\n", "line", "myers");
    assert!(out.starts_with(
        "• Edited f.txt (\x1b[32m+1\x1b[0m \x1b[31m-1\x1b[0m) [line/myers]\n"
    ));
    assert!(out.contains("\x1b[31m-a\x1b[0m"));
    assert!(out.contains("\x1b[32m+b\x1b[0m"));
    assert!(out.ends_with("\n"));
}

#[test]
fn pretty_inline_mode_output() {
    let d = DiffUtil::new();
    let out = d.pretty("", "a b", "a c", "word", "myers");
    assert!(out.starts_with(
        "• Edited file (\x1b[32m+1\x1b[0m \x1b[31m-1\x1b[0m) [word/myers]\n"
    ));
    assert!(out.contains("Granularity: word (inline token view)"));
    assert!(out.contains("\x1b[31mb\x1b[0m"));
    assert!(out.contains("\x1b[32mc\x1b[0m"));
    assert!(out.ends_with("\n"));
}
