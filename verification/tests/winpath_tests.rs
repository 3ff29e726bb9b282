use copypathtool::winpath::{extension, file_name, file_stem, join, parent};

fn some(s: &str) -> Option<String> {
    Some(s.to_string())
}

#[test]
fn file_name_of_ordinary_paths() {
    assert_eq!(file_name("C:\\dir\\file.txt"), some("file.txt"));
    assert_eq!(file_name("C:/dir/file.txt"), some("file.txt"));
    assert_eq!(file_name("file.txt"), some("file.txt"));
    assert_eq!(file_name("C:file.txt"), some("file.txt"));
    assert_eq!(file_name("C:\\dir\\sub\\"), some("sub"));
    assert_eq!(file_name("dir\\sub\\."), some("sub"));
    assert_eq!(file_name("\\\\server\\share\\f.txt"), some("f.txt"));
}

#[test]
fn file_name_missing() {
    assert_eq!(file_name(""), None);
    assert_eq!(file_name("C:"), None);
    assert_eq!(file_name("C:\\"), None);
    assert_eq!(file_name("\\"), None);
    assert_eq!(file_name("."), None);
    assert_eq!(file_name("dir\\.."), None);
    assert_eq!(file_name(".."), None);
}

#[test]
fn stems_and_extensions() {
    assert_eq!(file_stem("C:\\a\\b.tar.gz"), some("b.tar"));
    assert_eq!(extension("C:\\a\\b.tar.gz"), some("gz"));
    assert_eq!(file_stem("C:\\a\\.bashrc"), some(".bashrc"));
    assert_eq!(extension("C:\\a\\.bashrc"), None);
    assert_eq!(file_stem("C:\\a\\foo."), some("foo"));
    assert_eq!(extension("C:\\a\\foo."), some(""));
    assert_eq!(file_stem("C:\\a\\noext"), some("noext"));
    assert_eq!(extension("C:\\a\\noext"), None);
    assert_eq!(file_stem("C:\\"), None);
    assert_eq!(extension("C:\\"), None);
}

#[test]
fn parents() {
    assert_eq!(parent("C:\\dir\\file.txt"), some("C:\\dir"));
    assert_eq!(parent("C:\\file.txt"), some("C:\\"));
    assert_eq!(parent("C:file.txt"), some("C:"));
    assert_eq!(parent("file.txt"), some(""));
    assert_eq!(parent("dir\\\\file"), some("dir"));
    assert_eq!(parent("dir/./file"), some("dir"));
    assert_eq!(parent("./x"), some("."));
    assert_eq!(parent("."), some(""));
    assert_eq!(parent("a\\.."), some("a"));
    assert_eq!(parent("C:\\"), None);
    assert_eq!(parent("C:"), None);
    assert_eq!(parent(""), None);
}

#[test]
fn joins() {
    assert_eq!(join("C:\\dir", "new.txt"), "C:\\dir\\new.txt");
    assert_eq!(join("C:\\", "new.txt"), "C:\\new.txt");
    assert_eq!(join("C:", "new.txt"), "C:new.txt");
    assert_eq!(join("", "new.txt"), "new.txt");
    assert_eq!(join("dir/", "x"), "dir/x");
    assert_eq!(join("C:\\dir", "D:\\other"), "D:\\other");
    assert_eq!(join("C:\\dir", "\\rooted"), "C:\\rooted");
    assert_eq!(join("dir", "\\rooted"), "\\rooted");
    assert_eq!(join("C:\\ProgramData", "CopyPathTool"), "C:\\ProgramData\\CopyPathTool");
}

#[test]
fn renamed_file_keeps_its_folder() {
    let path = "C:\\dir\\old.txt";
    let folder = parent(path).unwrap();
    let moved = join(&folder, "new name.txt");
    assert_eq!(parent(&moved), Some(folder));
    assert_eq!(file_name(&moved), some("new name.txt"));
}

#[test]
fn share_paths() {
    assert_eq!(file_name("\\\\server\\share"), None);
    assert_eq!(parent("\\\\server\\share"), None);
    assert_eq!(file_name("\\\\server\\share\\"), None);
    assert_eq!(file_name("\\\\server\\share\\f.txt"), some("f.txt"));
    assert_eq!(parent("\\\\server\\share\\f.txt"), some("\\\\server\\share\\"));
    assert_eq!(parent("\\\\server\\share\\dir\\f.txt"), some("\\\\server\\share\\dir"));
    assert_eq!(file_name("//server/share/f.txt"), some("f.txt"));
    assert_eq!(parent("//server/share/f.txt"), some("//server/share/"));
    // Without a share name there is no prefix: the server is a component.
    assert_eq!(file_name("\\\\server"), some("server"));
    assert_eq!(parent("\\\\server"), some("\\"));
}

#[test]
fn device_and_verbatim_paths() {
    assert_eq!(file_name("\\\\.\\COM1"), None);
    assert_eq!(file_name("\\\\.\\pipe\\name"), some("name"));
    assert_eq!(parent("\\\\.\\pipe\\name"), some("\\\\.\\pipe\\"));
    assert_eq!(file_name("\\\\?\\C:"), None);
    assert_eq!(file_name("\\\\?\\C:\\dir\\f.txt"), some("f.txt"));
    assert_eq!(parent("\\\\?\\C:\\dir\\f.txt"), some("\\\\?\\C:\\dir"));
    // A verbatim path separates with `\` only, and keeps `.`.
    assert_eq!(file_name("\\\\?\\C:\\a/b"), some("a/b"));
    assert_eq!(file_name("\\\\?\\C:\\a\\."), None);
    assert_eq!(parent("\\\\?\\C:\\a\\."), some("\\\\?\\C:\\a"));
    assert_eq!(file_name("\\\\?\\UNC\\server\\share"), None);
    assert_eq!(file_name("\\\\?\\UNC\\server\\share\\f"), some("f"));
    assert_eq!(parent("\\\\?\\UNC\\server\\share\\f"), some("\\\\?\\UNC\\server\\share\\"));
}

#[test]
fn leading_dot_after_a_drive_is_not_a_component() {
    assert_eq!(parent("C:."), None);
    assert_eq!(file_name("C:."), None);
    assert_eq!(parent("C:.\\x"), some("C:."));
    assert_eq!(parent(".\\"), some(""));
}

#[test]
fn joins_with_prefixes() {
    assert_eq!(join("\\\\server\\share\\", "f.txt"), "\\\\server\\share\\f.txt");
    assert_eq!(join("\\\\server\\share", "f.txt"), "\\\\server\\share\\f.txt");
    assert_eq!(join("\\\\server\\share\\dir", "\\rooted"), "\\\\server\\share\\rooted");
    assert_eq!(join("C:\\dir", "\\\\srv\\sh"), "\\\\srv\\sh");
}

#[test]
fn renamed_file_in_a_share_keeps_its_folder() {
    let path = "\\\\server\\share\\old.txt";
    let folder = parent(path).unwrap();
    let moved = join(&folder, "new.txt");
    assert_eq!(moved, "\\\\server\\share\\new.txt");
    assert_eq!(parent(&moved), Some(folder));
    assert_eq!(file_name(&moved), some("new.txt"));
}

#[test]
fn joins_to_verbatim_paths_rebuild_the_path() {
    assert_eq!(join("\\\\?\\C:\\dir", "new.txt"), "\\\\?\\C:\\dir\\new.txt");
    assert_eq!(join("\\\\?\\C:\\a\\\\b\\", "x"), "\\\\?\\C:\\a\\b\\x");
    assert_eq!(join("\\\\?\\C:\\a\\b", "..\\c"), "\\\\?\\C:\\a\\c");
    assert_eq!(join("\\\\?\\C:\\a", ".\\c"), "\\\\?\\C:\\a\\c");
    assert_eq!(join("\\\\?\\C:\\a", "\\r"), "\\\\?\\C:\\r");
    assert_eq!(join("\\\\?\\C:", "x"), "\\\\?\\C:\\x");
    assert_eq!(join("\\\\?\\C:\\a\\.", ".."), "\\\\?\\C:\\a\\.");
    assert_eq!(join("\\\\?\\C:\\a/b", "c"), "\\\\?\\C:\\a/b\\c");
    assert_eq!(join("\\\\?\\C:\\a", ""), "\\\\?\\C:\\a\\");
}

#[test]
fn renamed_file_in_a_verbatim_path_keeps_its_folder() {
    let path = "\\\\?\\C:\\dir\\old.txt";
    let folder = parent(path).unwrap();
    let moved = join(&folder, "new.txt");
    assert_eq!(moved, "\\\\?\\C:\\dir\\new.txt");
    assert_eq!(parent(&moved), Some(folder));
    assert_eq!(file_name(&moved), some("new.txt"));
}

#[test]
fn a_bare_server_folder_becomes_a_share() {
    // `\\\\server\\\\f.txt` has the folder `\\\\server`; joining a name to it
    // makes that name the share, so the result has no file name.
    let folder = parent("\\\\server\\\\f.txt").unwrap();
    assert_eq!(folder, "\\\\server");
    let moved = join(&folder, "g.txt");
    assert_eq!(moved, "\\\\server\\g.txt");
    assert_eq!(file_name(&moved), None);
    assert_eq!(parent(&moved), None);
}

#[test]
fn renamed_file_in_a_rewritten_verbatim_folder_gets_the_new_name() {
    let path = "\\\\?\\C:\\a\\\\b\\old.txt";
    let folder = parent(path).unwrap();
    assert_eq!(folder, "\\\\?\\C:\\a\\\\b");
    let moved = join(&folder, "new.txt");
    assert_eq!(moved, "\\\\?\\C:\\a\\b\\new.txt");
    assert_eq!(file_name(&moved), some("new.txt"));
    let path = "\\\\?\\UNC\\srv\\\\x\\old.txt";
    let folder = parent(path).unwrap();
    assert_eq!(folder, "\\\\?\\UNC\\srv\\\\x");
    let moved = join(&folder, "new.txt");
    assert_eq!(moved, "\\\\?\\UNC\\srv\\x\\new.txt");
    assert_eq!(file_name(&moved), some("new.txt"));
}
