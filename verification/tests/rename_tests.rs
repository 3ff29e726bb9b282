use copypathtool::rename::{
    compute_new_name, parse_first_number, planned_name_of, preview_lines, rename_summary_message,
    rename_targets, RenameSettings,
};

fn settings(find: &str, replace: &str, prefix: &str, suffix: &str, numbered: bool, first: i32) -> RenameSettings {
    RenameSettings {
        find: find.to_string(),
        replace: replace.to_string(),
        prefix: prefix.to_string(),
        suffix: suffix.to_string(),
        numbered,
        first_number: first,
    }
}

#[test]
fn new_name_without_changes_keeps_stem_and_extension() {
    assert_eq!(compute_new_name("photo", "jpg", "", "", "", "", false, 1, 0), "photo.jpg");
}

#[test]
fn new_name_replaces_every_occurrence() {
    assert_eq!(compute_new_name("a_b_a", "txt", "a", "x", "", "", false, 1, 0), "x_b_x.txt");
}

#[test]
fn new_name_replaces_without_overlap_from_the_left() {
    assert_eq!(compute_new_name("aaa", "", "aa", "b", "", "", false, 1, 0), "ba");
    assert_eq!(compute_new_name("abab", "md", "ab", "", "", "", false, 1, 0), ".md");
}

#[test]
fn new_name_with_empty_find_replaces_nothing() {
    assert_eq!(compute_new_name("abc", "", "", "zz", "", "", false, 1, 0), "abc");
}

#[test]
fn new_name_with_prefix_suffix_and_number() {
    assert_eq!(
        compute_new_name("img", "png", "", "", "pre_", "_suf", true, 1, 0),
        "pre_img_suf_01.png"
    );
    assert_eq!(compute_new_name("img", "png", "", "", "", "", true, 1, 9), "img_10.png");
    assert_eq!(compute_new_name("img", "png", "", "", "", "", true, 99, 1), "img_100.png");
}

#[test]
fn new_name_numbers_zero_and_negative() {
    assert_eq!(compute_new_name("f", "", "", "", "", "", true, 0, 0), "f_00");
    assert_eq!(compute_new_name("f", "", "", "", "", "", true, -5, 0), "f_-5");
    assert_eq!(compute_new_name("f", "", "", "", "", "", true, -12, 0), "f_-12");
    assert_eq!(compute_new_name("f", "x", "", "", "", "", true, -3, 3), "f_00.x");
}

#[test]
fn new_name_handles_unicode() {
    assert_eq!(compute_new_name("照片", "jpg", "照", "相", "新", "", false, 1, 0), "新相片.jpg");
}

#[test]
fn first_number_parses_like_i32() {
    assert_eq!(parse_first_number("5"), 5);
    assert_eq!(parse_first_number("007"), 7);
    assert_eq!(parse_first_number("-3"), -3);
    assert_eq!(parse_first_number("+7"), 7);
    assert_eq!(parse_first_number("2147483647"), i32::MAX);
    assert_eq!(parse_first_number("-2147483648"), i32::MIN);
}

#[test]
fn first_number_defaults_to_one() {
    assert_eq!(parse_first_number(""), 1);
    assert_eq!(parse_first_number("abc"), 1);
    assert_eq!(parse_first_number(" 5"), 1);
    assert_eq!(parse_first_number("5 "), 1);
    assert_eq!(parse_first_number("-"), 1);
    assert_eq!(parse_first_number("+"), 1);
    assert_eq!(parse_first_number("2147483648"), 1);
    assert_eq!(parse_first_number("-2147483649"), 1);
    assert_eq!(parse_first_number("99999999999999999999"), 1);
    assert_eq!(parse_first_number("1.5"), 1);
}

#[test]
fn preview_shows_old_and_new_names() {
    let paths = vec!["C:\\dir\\a.txt".to_string(), "C:\\dir\\b.tar.gz".to_string()];
    let s = settings("", "", "new_", "", true, 1);
    let lines = preview_lines(&paths, &s);
    assert_eq!(lines, vec!["a.txt -> new_a_01.txt".to_string(), "b.tar.gz -> new_b.tar_02.gz".to_string()]);
}

#[test]
fn targets_stay_in_the_folder() {
    let paths = vec![
        "C:\\dir\\a.txt".to_string(),
        "C:\\top.txt".to_string(),
        "rel.txt".to_string(),
        "D:x.txt".to_string(),
    ];
    let s = settings("", "", "", "_v2", false, 1);
    let targets = rename_targets(&paths, &s);
    assert_eq!(
        targets,
        vec![
            "C:\\dir\\a_v2.txt".to_string(),
            "C:\\top_v2.txt".to_string(),
            "rel_v2.txt".to_string(),
            "D:x_v2.txt".to_string(),
        ]
    );
}

#[test]
fn blank_settings_keep_names() {
    let s = settings("", "zz", "", "", false, 1);
    assert_eq!(planned_name_of("C:\\x\\report.final.pdf", &s, 0), "report.final.pdf");
    assert_eq!(planned_name_of("C:\\x\\.hidden", &s, 0), ".hidden");
    assert_eq!(planned_name_of("C:\\x\\noext", &s, 0), "noext");
    // A name ending in a dot loses it: its extension is empty.
    assert_eq!(planned_name_of("C:\\x\\odd.", &s, 0), "odd");
}

#[test]
fn summary_messages() {
    assert_eq!(rename_summary_message(3, 0), "重新命名成功！共修改了 3 個檔案。");
    assert_eq!(rename_summary_message(0, 0), "重新命名成功！共修改了 0 個檔案。");
    assert_eq!(rename_summary_message(2, 1), "修改完成。成功：2，失敗：1。");
    assert_eq!(rename_summary_message(12, 30), "修改完成。成功：12，失敗：30。");
}

#[test]
fn different_numbers_give_different_names() {
    let a = compute_new_name("img", "png", "", "", "", "", true, 1, 0);
    let b = compute_new_name("img", "png", "", "", "", "", true, 1, 1);
    let c = compute_new_name("img", "png", "", "", "", "", true, 1, 9);
    assert_eq!(a, "img_01.png");
    assert_eq!(b, "img_02.png");
    assert_eq!(c, "img_10.png");
    assert_ne!(a, b);
    assert_ne!(b, c);
    let neg = compute_new_name("f", "", "", "", "", "", true, -1, 0);
    let pos = compute_new_name("f", "", "", "", "", "", true, -1, 2);
    assert_eq!(neg, "f_-1");
    assert_eq!(pos, "f_01");
}

#[test]
fn renaming_a_path_without_file_name_lands_on_the_shown_name() {
    let paths = vec!["a\\..".to_string()];
    let s = settings("", "", "new", "", false, 1);
    let lines = preview_lines(&paths, &s);
    assert_eq!(lines, vec![" -> new".to_string()]);
    let targets = rename_targets(&paths, &s);
    assert_eq!(targets, vec!["a\\new".to_string()]);
}
