use copypathtool::gui::{
    settings_step, ApplyState, SettingsAction, SettingsEvent,
    apply_report, check_state, closes_after_apply, control_code, control_id, is_apply_command,
    removes_everything, rename_window_command, settings_window_title, ApplyOutcome, RenameCommand,
    ID_BTN_APPLY, ID_BTN_RENAME, ID_CHK_NUM, ID_TXT_FIND, MB_ERROR, MB_INFORMATION,
};
use copypathtool::registry::Features;

fn wparam(id: i32, code: usize) -> usize {
    (code << 16) | (id as usize)
}

#[test]
fn command_words() {
    assert_eq!(control_id(wparam(105, 0)), 105);
    assert_eq!(control_code(wparam(201, 0x300)), 0x300);
    assert_eq!(control_id(0xDEAD_0000_0069), 0x69);
    assert_eq!(control_code(0xDEAD_0300_0069), 0x0300);
}

#[test]
fn rename_window_commands() {
    assert_eq!(rename_window_command(wparam(ID_TXT_FIND, 0x300)), RenameCommand::Refresh);
    assert_eq!(rename_window_command(wparam(206, 0x300)), RenameCommand::Refresh);
    assert_eq!(rename_window_command(wparam(ID_TXT_FIND, 0x100)), RenameCommand::Ignore);
    assert_eq!(rename_window_command(wparam(ID_CHK_NUM, 0)), RenameCommand::Refresh);
    assert_eq!(rename_window_command(wparam(ID_CHK_NUM, 5)), RenameCommand::Ignore);
    assert_eq!(rename_window_command(wparam(ID_BTN_RENAME, 0)), RenameCommand::Rename);
    assert_eq!(rename_window_command(wparam(ID_BTN_RENAME, 7)), RenameCommand::Rename);
    assert_eq!(rename_window_command(wparam(208, 1)), RenameCommand::Ignore);
}

#[test]
fn apply_button() {
    assert!(is_apply_command(wparam(ID_BTN_APPLY, 0)));
    assert!(!is_apply_command(wparam(101, 0)));
}

#[test]
fn unchecking_everything_removes_the_tool() {
    let none = Features { copy_path: false, open_cmd: false, open_powershell: false, batch_rename: false, open_assistant: false };
    assert!(removes_everything(none));
    let one = Features { batch_rename: true, ..none };
    assert!(!removes_everything(one));
}

#[test]
fn apply_reports() {
    let r = apply_report(ApplyOutcome::Removed);
    assert_eq!((r.icon, r.caption.as_str(), r.done_code), (MB_INFORMATION, "成功", 1));
    assert_eq!(r.message, "設定已套用！所有右鍵選單功能已成功移除。");
    let r = apply_report(ApplyOutcome::Installed);
    assert_eq!(r.done_code, 0);
    assert_eq!(r.message, "設定已套用！右鍵選單功能已成功更新。\n程式已複製到本機 ProgramData 目錄儲存。");
    let r = apply_report(ApplyOutcome::Failed { error: "無法建立安裝目錄".to_string() });
    assert_eq!((r.icon, r.caption.as_str(), r.done_code), (MB_ERROR, "錯誤", 2));
    assert_eq!(r.message, "設定套用失敗：無法建立安裝目錄");
    assert!(closes_after_apply(1));
    assert!(!closes_after_apply(0));
    assert!(!closes_after_apply(2));
}

#[test]
fn titles_and_check_states() {
    assert_eq!(settings_window_title(), "右鍵選單工具設定精靈 v1.3.1");
    assert_eq!(check_state(true), 1);
    assert_eq!(check_state(false), 0);
}

#[test]
fn apply_button_stays_disabled_while_a_job_runs() {
    let start = ApplyState { button_enabled: true, job_running: false };
    let (s1, a1) = settings_step(start, SettingsEvent::Command { wparam: 105 });
    assert_eq!(a1, SettingsAction::StartApply);
    assert_eq!(s1, ApplyState { button_enabled: false, job_running: true });
    let (s2, a2) = settings_step(s1, SettingsEvent::Command { wparam: 101 });
    assert_eq!(a2, SettingsAction::Ignore);
    assert_eq!(s2, s1);
    let (s3, a3) = settings_step(s2, SettingsEvent::ApplyDone { code: 0 });
    assert_eq!(a3, SettingsAction::EnableButton);
    assert_eq!(s3, start);
    let (s4, _) = settings_step(s3, SettingsEvent::Command { wparam: (0 << 16) | 105 });
    let (s5, a5) = settings_step(s4, SettingsEvent::ApplyDone { code: 2 });
    assert_eq!(a5, SettingsAction::EnableButton);
    assert_eq!(s5, start);
    let (s6, _) = settings_step(s5, SettingsEvent::Command { wparam: 105 });
    let (s7, a7) = settings_step(s6, SettingsEvent::ApplyDone { code: 1 });
    assert_eq!(a7, SettingsAction::Quit);
    assert_eq!(s7, ApplyState { button_enabled: false, job_running: false });
}
