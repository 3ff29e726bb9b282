use copypathtool::cli::{launch_folder_of, parse_mode, shell_arguments, shell_program_name, Mode, Shell};
use copypathtool::registry::Assistant;

fn assistant() -> Assistant {
    Assistant { title: "Agent".to_string(), program: "agent".to_string() }
}

fn args(v: &[&str]) -> Vec<String> {
    v.iter().map(|s| s.to_string()).collect()
}

#[test]
fn modes() {
    let a = assistant();
    assert!(matches!(parse_mode(&args(&[]), &a), Mode::Nothing));
    assert!(matches!(parse_mode(&args(&["tool.exe"]), &a), Mode::Settings));
    match parse_mode(&args(&["tool.exe", "--install"]), &a) {
        Mode::SilentInstall { features } => {
            assert!(features.copy_path && features.open_cmd && features.open_powershell);
            assert!(features.batch_rename && features.open_assistant);
        }
        other => panic!("unexpected mode {:?}", other),
    }
    assert!(matches!(parse_mode(&args(&["tool.exe", "--uninstall"]), &a), Mode::SilentUninstall));
    match parse_mode(&args(&["tool.exe", "--rename", "C:\\a.txt", "extra"]), &a) {
        Mode::Rename { path } => assert_eq!(path, "C:\\a.txt"),
        m => panic!("{:?}", m),
    }
    match parse_mode(&args(&["tool.exe", "--ps", "C:\\dir"]), &a) {
        Mode::Launch { shell, path } => {
            assert_eq!(shell, Shell::PowerShell);
            assert_eq!(path, "C:\\dir");
        }
        m => panic!("{:?}", m),
    }
    match parse_mode(&args(&["tool.exe", "--agent", "C:\\dir"]), &a) {
        Mode::Launch { shell, .. } => assert_eq!(shell, Shell::Assistant),
        m => panic!("{:?}", m),
    }
    match parse_mode(&args(&["tool.exe", "C:\\file.txt"]), &a) {
        Mode::CopyPath { path } => assert_eq!(path, "C:\\file.txt"),
        m => panic!("{:?}", m),
    }
}

#[test]
fn switches_without_their_path_copy_instead() {
    let a = assistant();
    match parse_mode(&args(&["tool.exe", "--cmd"]), &a) {
        Mode::CopyPath { path } => assert_eq!(path, "--cmd"),
        m => panic!("{:?}", m),
    }
    match parse_mode(&args(&["tool.exe", "--install", "x"]), &a) {
        Mode::CopyPath { path } => assert_eq!(path, "--install"),
        m => panic!("{:?}", m),
    }
}

#[test]
fn shells_open_in_the_folder_of_a_file() {
    assert_eq!(launch_folder_of("C:\\dir\\file.txt", true), "C:\\dir");
    assert_eq!(launch_folder_of("C:\\", true), "C:\\");
    assert_eq!(launch_folder_of("C:\\dir", false), "C:\\dir");
}

#[test]
fn shell_programs() {
    let a = assistant();
    assert_eq!(shell_program_name(Shell::Cmd), "cmd.exe");
    assert_eq!(shell_program_name(Shell::PowerShell), "powershell.exe");
    assert_eq!(shell_program_name(Shell::Assistant), "cmd.exe");
    assert!(shell_arguments(Shell::Cmd, &a).is_empty());
    assert_eq!(shell_arguments(Shell::Assistant, &a), vec!["/k", "agent --dangerously-skip-permissions"]);
}
