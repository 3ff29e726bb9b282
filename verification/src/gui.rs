//! The decisions of the two windows: which control a `WM_COMMAND` comes
//! from and what it asks for, what applying the settings does, and what
//! is reported afterwards.

use vstd::prelude::*;
use crate::registry::Features;
use crate::text::{concat, owned};

verus! {

/// Version of the tool, shown in the settings window's title.
pub const VERSION: &'static str = "1.3.1";

/// Check box "copy path" of the settings window.
pub const ID_CHK_COPY: i32 = 101;
/// Check box "open CMD here".
pub const ID_CHK_CMD: i32 = 102;
/// Check box "open PowerShell here".
pub const ID_CHK_PS: i32 = 103;
/// Check box "batch rename".
pub const ID_CHK_RENAME: i32 = 104;
/// Button "apply".
pub const ID_BTN_APPLY: i32 = 105;
/// Check box "open the assistant here".
pub const ID_CHK_ASSISTANT: i32 = 106;

/// Edit box "find" of the rename window.
pub const ID_TXT_FIND: i32 = 201;
/// Edit box "replace".
pub const ID_TXT_REPLACE: i32 = 202;
/// Edit box "prefix".
pub const ID_TXT_PREFIX: i32 = 203;
/// Edit box "suffix".
pub const ID_TXT_SUFFIX: i32 = 204;
/// Check box "numbering".
pub const ID_CHK_NUM: i32 = 205;
/// Edit box "first number".
pub const ID_TXT_NUM_START: i32 = 206;
/// Button "rename".
pub const ID_BTN_RENAME: i32 = 207;
/// Preview list.
pub const ID_LST_PREVIEW: i32 = 208;

/// Notification: the text of an edit box changed.
pub const EN_CHANGE: usize = 0x0300;
/// Notification: a button was clicked.
pub const BN_CLICKED: usize = 0;

/// `MB_OK | MB_ICONINFORMATION`.
pub const MB_INFORMATION: u32 = 0x40;
/// `MB_OK | MB_ICONERROR`.
pub const MB_ERROR: u32 = 0x10;

/// The control of a `WM_COMMAND`: the low 16 bits of `wparam`.
pub open spec fn command_id(wparam: usize) -> i32 {
    (wparam & 0xFFFF) as i32
}

/// The notification code of a `WM_COMMAND`: bits 16 to 31 of `wparam`.
pub open spec fn notify_code(wparam: usize) -> usize {
    (wparam >> 16) & 0xFFFF
}

/// The control a `WM_COMMAND` comes from.
pub fn control_id(wparam: usize) -> (id: i32)
    ensures
        id == command_id(wparam),
        0 <= id <= 0xFFFF,
{
    let low = wparam & 0xFFFF;
    assert(low <= 0xFFFF) by (bit_vector)
        requires
            low == wparam & 0xFFFF,
    ;
    low as i32
}

/// The notification code of a `WM_COMMAND`.
pub fn control_code(wparam: usize) -> (code: usize)
    ensures
        code == notify_code(wparam),
{
    (wparam >> 16) & 0xFFFF
}

/// What the rename window does for a command.
#[derive(Clone, Copy, PartialEq, Eq, Structural, Debug)]
pub enum RenameCommand {
    /// Recompute the preview.
    Refresh,
    /// Rename the files.
    Rename,
    /// Nothing.
    Ignore,
}

/// The rename window refreshes its preview when one of its edit boxes
/// changes or the numbering box is clicked, and renames when its button
/// is pressed (whatever the notification).
pub open spec fn rename_command(id: i32, code: usize) -> RenameCommand {
    if (id == ID_TXT_FIND || id == ID_TXT_REPLACE || id == ID_TXT_PREFIX || id == ID_TXT_SUFFIX
        || id == ID_TXT_NUM_START) && code == EN_CHANGE {
        RenameCommand::Refresh
    } else if id == ID_CHK_NUM && code == BN_CLICKED {
        RenameCommand::Refresh
    } else if id == ID_BTN_RENAME {
        RenameCommand::Rename
    } else {
        RenameCommand::Ignore
    }
}

/// What the rename window does for a `WM_COMMAND` with `wparam`.
pub fn rename_window_command(wparam: usize) -> (c: RenameCommand)
    ensures
        c == rename_command(command_id(wparam), notify_code(wparam)),
{
    let id = control_id(wparam);
    let code = control_code(wparam);
    if (id == ID_TXT_FIND || id == ID_TXT_REPLACE || id == ID_TXT_PREFIX || id == ID_TXT_SUFFIX
        || id == ID_TXT_NUM_START) && code == EN_CHANGE {
        RenameCommand::Refresh
    } else if id == ID_CHK_NUM && code == BN_CLICKED {
        RenameCommand::Refresh
    } else if id == ID_BTN_RENAME {
        RenameCommand::Rename
    } else {
        RenameCommand::Ignore
    }
}

/// Whether a `WM_COMMAND` of the settings window asks to apply the
/// settings: it comes from the apply button.
pub fn is_apply_command(wparam: usize) -> (r: bool)
    ensures
        r == (command_id(wparam) == ID_BTN_APPLY),
{
    control_id(wparam) == ID_BTN_APPLY
}

/// No entry is enabled.
pub open spec fn none_enabled(f: Features) -> bool {
    !f.copy_path && !f.open_cmd && !f.open_powershell && !f.batch_rename && !f.open_assistant
}

/// Applying settings with no entry enabled removes the tool; otherwise the
/// chosen entries are installed.
pub fn removes_everything(f: Features) -> (r: bool)
    ensures
        r == none_enabled(f),
{
    !f.copy_path && !f.open_cmd && !f.open_powershell && !f.batch_rename && !f.open_assistant
}

/// How applying the settings ended.
pub enum ApplyOutcome {
    /// Every entry was removed.
    Removed,
    /// The chosen entries were installed.
    Installed,
    /// Installing failed with this message.
    Failed { error: String },
}

/// What the settings window shows after applying, and the code it posts
/// back to itself: 1 after removal (the window then closes), 0 after an
/// installation, 2 after a failure.
pub struct ApplyReport {
    /// Message-box style (buttons and icon).
    pub icon: u32,
    /// Caption of the message box.
    pub caption: String,
    /// Text of the message box.
    pub message: String,
    /// Code posted back to the window when applying is done.
    pub done_code: usize,
}

/// The caption, message, icon and code for an outcome.
pub open spec fn report_matches(outcome: ApplyOutcome, r: ApplyReport) -> bool {
    match outcome {
        ApplyOutcome::Removed => r.icon == MB_INFORMATION && r.caption@ == "成功"@ && r.message@
            == "設定已套用！所有右鍵選單功能已成功移除。"@ && r.done_code == 1,
        ApplyOutcome::Installed => r.icon == MB_INFORMATION && r.caption@ == "成功"@ && r.message@
            == "設定已套用！右鍵選單功能已成功更新。\n程式已複製到本機 ProgramData 目錄儲存。"@
            && r.done_code == 0,
        ApplyOutcome::Failed { error } => r.icon == MB_ERROR && r.caption@ == "錯誤"@
            && r.message@ == "設定套用失敗："@ + error@ && r.done_code == 2,
    }
}

/// The report for how applying the settings ended.
pub fn apply_report(outcome: ApplyOutcome) -> (r: ApplyReport)
    ensures
        report_matches(outcome, r),
{
    match outcome {
        ApplyOutcome::Removed => ApplyReport {
            icon: MB_INFORMATION,
            caption: owned("成功"),
            message: owned("設定已套用！所有右鍵選單功能已成功移除。"),
            done_code: 1,
        },
        ApplyOutcome::Installed => ApplyReport {
            icon: MB_INFORMATION,
            caption: owned("成功"),
            message: owned("設定已套用！右鍵選單功能已成功更新。\n程式已複製到本機 ProgramData 目錄儲存。"),
            done_code: 0,
        },
        ApplyOutcome::Failed { error } => ApplyReport {
            icon: MB_ERROR,
            caption: owned("錯誤"),
            message: concat("設定套用失敗：", error.as_str()),
            done_code: 2,
        },
    }
}

/// After the report: the window closes when everything was removed (code
/// 1); otherwise the apply button is enabled again.
pub fn closes_after_apply(done_code: usize) -> (r: bool)
    ensures
        r == (done_code == 1),
{
    done_code == 1
}

/// The title of the settings window, with the version.
pub open spec fn settings_title() -> Seq<char> {
    "右鍵選單工具設定精靈 v"@ + VERSION@
}

/// The title of the settings window.
pub fn settings_window_title() -> (r: String)
    ensures
        r@ == settings_title(),
{
    concat("右鍵選單工具設定精靈 v", VERSION)
}

/// The state a check box is set to: checked (1) or not (0).
pub fn check_state(on: bool) -> (r: usize)
    ensures
        r == if on { 1usize } else { 0usize },
{
    if on { 1 } else { 0 }
}


/// Where the settings window stands with applying: whether its apply
/// button is enabled and whether a background job that applies the
/// settings is running.
#[derive(Clone, Copy, PartialEq, Eq, Structural, Debug)]
pub struct ApplyState {
    pub button_enabled: bool,
    pub job_running: bool,
}

/// What reaches the settings window's decisions about applying: a
/// `WM_COMMAND` with its `wparam`, or the message a finished job posts
/// with its code.
#[derive(Clone, Copy, PartialEq, Eq, Structural, Debug)]
pub enum SettingsEvent {
    Command { wparam: usize },
    ApplyDone { code: usize },
}

/// What the window does next.
#[derive(Clone, Copy, PartialEq, Eq, Structural, Debug)]
pub enum SettingsAction {
    /// Nothing.
    Ignore,
    /// Disable the apply button, then start a job that applies the checked
    /// entries.
    StartApply,
    /// Show the job's report and enable the apply button again.
    EnableButton,
    /// Show the job's report and quit (everything was removed).
    Quit,
}

/// The window as it opens: button enabled, no job.
pub open spec fn initial_apply_state() -> ApplyState {
    ApplyState { button_enabled: true, job_running: false }
}

/// The next state and the action for an event: a click on the apply
/// button disables the button and starts a job; a finished job with code
/// 1 quits the window, any other code enables the button again; every
/// other command changes nothing.
pub open spec fn settings_transition(st: ApplyState, ev: SettingsEvent) -> (ApplyState, SettingsAction) {
    match ev {
        SettingsEvent::Command { wparam } => {
            if command_id(wparam) == ID_BTN_APPLY {
                (ApplyState { button_enabled: false, job_running: true }, SettingsAction::StartApply)
            } else {
                (st, SettingsAction::Ignore)
            }
        },
        SettingsEvent::ApplyDone { code } => {
            if code == 1 {
                (ApplyState { button_enabled: false, job_running: false }, SettingsAction::Quit)
            } else {
                (ApplyState { button_enabled: true, job_running: false }, SettingsAction::EnableButton)
            }
        },
    }
}

/// Decides what the settings window does for an event.
pub fn settings_step(st: ApplyState, ev: SettingsEvent) -> (r: (ApplyState, SettingsAction))
    ensures
        r == settings_transition(st, ev),
{
    match ev {
        SettingsEvent::Command { wparam } => {
            if is_apply_command(wparam) {
                (ApplyState { button_enabled: false, job_running: true }, SettingsAction::StartApply)
            } else {
                (st, SettingsAction::Ignore)
            }
        },
        SettingsEvent::ApplyDone { code } => {
            if closes_after_apply(code) {
                (ApplyState { button_enabled: false, job_running: false }, SettingsAction::Quit)
            } else {
                (ApplyState { button_enabled: true, job_running: false }, SettingsAction::EnableButton)
            }
        },
    }
}

/// What Windows can deliver in a state: a click on the apply button only
/// while it is enabled, and a job's report only while a job runs (each
/// job posts one).
pub open spec fn event_possible(st: ApplyState, ev: SettingsEvent) -> bool {
    match ev {
        SettingsEvent::Command { wparam } => command_id(wparam) == ID_BTN_APPLY ==> st.button_enabled,
        SettingsEvent::ApplyDone { code } => st.job_running,
    }
}

/// The button is never enabled while a job runs.
pub open spec fn apply_invariant(st: ApplyState) -> bool {
    !(st.button_enabled && st.job_running)
}

/// The state after a sequence of events.
pub open spec fn run_events(st: ApplyState, evs: Seq<SettingsEvent>) -> ApplyState
    decreases evs.len(),
{
    if evs.len() == 0 {
        st
    } else {
        run_events(settings_transition(st, evs[0]).0, evs.skip(1))
    }
}

/// Every event of the sequence can be delivered when it comes.
pub open spec fn events_possible(st: ApplyState, evs: Seq<SettingsEvent>) -> bool
    decreases evs.len(),
{
    if evs.len() == 0 {
        true
    } else {
        event_possible(st, evs[0]) && events_possible(settings_transition(st, evs[0]).0, evs.skip(1))
    }
}

/// One step keeps the apply button disabled while a job runs: a click
/// disables the button before its job starts, only a finished job enables
/// the button again (unless it quits the window), and no click can start
/// a second job while one runs.
pub proof fn lemma_apply_step(st: ApplyState, ev: SettingsEvent)
    requires
        apply_invariant(st),
        event_possible(st, ev),
    ensures
        ({
            let (next, action) = settings_transition(st, ev);
            &&& apply_invariant(next)
            &&& action == SettingsAction::StartApply ==> !st.job_running && !next.button_enabled
                && next.job_running
            &&& (!st.button_enabled && next.button_enabled) ==> (ev matches SettingsEvent::ApplyDone {
                code,
            } && code != 1)
            &&& st.job_running && !next.job_running ==> ev is ApplyDone
        }),
{
}

/// Whatever the window receives, starting from its opening state, its
/// apply button is never enabled while a job runs, so at most one job
/// runs at a time.
pub proof fn lemma_apply_sequence(evs: Seq<SettingsEvent>)
    requires
        events_possible(initial_apply_state(), evs),
    ensures
        apply_invariant(run_events(initial_apply_state(), evs)),
{
    lemma_apply_runs(initial_apply_state(), evs);
}

proof fn lemma_apply_runs(st: ApplyState, evs: Seq<SettingsEvent>)
    requires
        apply_invariant(st),
        events_possible(st, evs),
    ensures
        apply_invariant(run_events(st, evs)),
    decreases evs.len(),
{
    if evs.len() > 0 {
        lemma_apply_step(st, evs[0]);
        lemma_apply_runs(settings_transition(st, evs[0]).0, evs.skip(1));
    }
}


/// Applying removes everything exactly when no box is checked: the one
/// choice that removes is the one with all five entries off, and any
/// checked entry means installing.
pub proof fn lemma_removal_only_when_nothing_checked(f: Features)
    ensures
        none_enabled(f) <==> f == (Features {
            copy_path: false,
            open_cmd: false,
            open_powershell: false,
            batch_rename: false,
            open_assistant: false,
        }),
        f.copy_path || f.open_cmd || f.open_powershell || f.batch_rename || f.open_assistant
            ==> !none_enabled(f),
{
}

/// Every text the preview is computed from refreshes it: a change in the
/// find, replace, prefix, suffix or first-number box (and no other box)
/// recomputes the preview, as does a click on the numbering box; the
/// rename button renames whatever its notification.
pub proof fn lemma_preview_inputs_refresh(id: i32, code: usize)
    ensures
        rename_command(id, EN_CHANGE) == RenameCommand::Refresh <==> (id == 201 || id == 202 || id
            == 203 || id == 204 || id == 206),
        rename_command(205, BN_CLICKED) == RenameCommand::Refresh,
        rename_command(207, code) == RenameCommand::Rename,
{
}
} // verus!
