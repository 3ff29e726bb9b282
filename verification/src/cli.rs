//! What the program does for a command line, and how it starts a shell in
//! a folder.

use vstd::prelude::*;
use crate::registry::{Assistant, Features, MenuItem, icon, switch};
use crate::text::{concat, owned, push_string, same_text, string_views};
use crate::winpath::{parent, spec_parent};

verus! {

/// The shells the context menu can open.
#[derive(Clone, Copy, PartialEq, Eq, Structural, Debug)]
pub enum Shell {
    Cmd,
    PowerShell,
    Assistant,
}

/// What to do for a command line.
#[derive(Debug)]
pub enum Mode {
    /// No argument at all (not even the program): nothing.
    Nothing,
    /// Only the program: show the settings window.
    Settings,
    /// `--install`: install these entries (every one) without a window.
    SilentInstall { features: Features },
    /// `--uninstall`: remove every entry without a window.
    SilentUninstall,
    /// `--rename <path>`: open the batch-rename window for the selection.
    Rename { path: String },
    /// `--cmd`, `--ps` or the assistant's switch with a path: open that
    /// shell there.
    Launch { shell: Shell, path: String },
    /// Any other argument: copy the selected paths to the clipboard.
    CopyPath { path: String },
}

/// A mode, with its path as a character sequence.
pub enum ModeView {
    Nothing,
    Settings,
    SilentInstall { features: Features },
    SilentUninstall,
    Rename { path: Seq<char> },
    Launch { shell: Shell, path: Seq<char> },
    CopyPath { path: Seq<char> },
}

impl View for Mode {
    type V = ModeView;

    open spec fn view(&self) -> ModeView {
        match self {
            Mode::Nothing => ModeView::Nothing,
            Mode::Settings => ModeView::Settings,
            Mode::SilentInstall { features } => ModeView::SilentInstall { features: *features },
            Mode::SilentUninstall => ModeView::SilentUninstall,
            Mode::Rename { path } => ModeView::Rename { path: path@ },
            Mode::Launch { shell, path } => ModeView::Launch { shell: *shell, path: path@ },
            Mode::CopyPath { path } => ModeView::CopyPath { path: path@ },
        }
    }
}

/// Every entry enabled: what `--install` installs.
pub open spec fn all_features() -> Features {
    Features {
        copy_path: true,
        open_cmd: true,
        open_powershell: true,
        batch_rename: true,
        open_assistant: true,
    }
}

/// Every entry enabled.
pub fn every_feature() -> (f: Features)
    ensures
        f == all_features(),
{
    Features {
        copy_path: true,
        open_cmd: true,
        open_powershell: true,
        batch_rename: true,
        open_assistant: true,
    }
}

/// The switch that opens the assistant: `--` and its program name.
pub open spec fn assistant_switch(asst: Assistant) -> Seq<char> {
    "--"@ + asst.program@
}

/// The shell a switch names, if any.
pub open spec fn shell_of(arg: Seq<char>, asst: Assistant) -> Option<Shell> {
    if arg == "--cmd"@ {
        Some(Shell::Cmd)
    } else if arg == "--ps"@ {
        Some(Shell::PowerShell)
    } else if arg == assistant_switch(asst) {
        Some(Shell::Assistant)
    } else {
        None
    }
}

/// The mode for the command line `args` (the program first): checked in
/// this order, a lone program opens the settings; exactly one argument
/// `--install` installs every entry silently, `--uninstall` removes them; `--rename`
/// or a shell switch followed by a path (extra arguments are ignored)
/// renames or opens the shell; any other first argument is a path to copy.
pub open spec fn mode_of(args: Seq<Seq<char>>, asst: Assistant) -> ModeView {
    if args.len() == 1 {
        ModeView::Settings
    } else if args.len() == 2 && args[1] == "--install"@ {
        ModeView::SilentInstall { features: all_features() }
    } else if args.len() == 2 && args[1] == "--uninstall"@ {
        ModeView::SilentUninstall
    } else if args.len() >= 3 && args[1] == "--rename"@ {
        ModeView::Rename { path: args[2] }
    } else if args.len() >= 3 && shell_of(args[1], asst) is Some {
        ModeView::Launch { shell: shell_of(args[1], asst)->0, path: args[2] }
    } else if args.len() >= 2 {
        ModeView::CopyPath { path: args[1] }
    } else {
        ModeView::Nothing
    }
}

fn shell_of_arg(arg: &str, asst: &Assistant) -> (r: Option<Shell>)
    ensures
        r == shell_of(arg@, *asst),
{
    let switch = concat("--", asst.program.as_str());
    if same_text(arg, "--cmd") {
        Some(Shell::Cmd)
    } else if same_text(arg, "--ps") {
        Some(Shell::PowerShell)
    } else if same_text(arg, switch.as_str()) {
        Some(Shell::Assistant)
    } else {
        None
    }
}

/// Decides what to do for the command line `args`.
pub fn parse_mode(args: &Vec<String>, asst: &Assistant) -> (m: Mode)
    ensures
        m@ == mode_of(string_views(args@), *asst),
{
    let ghost a = string_views(args@);
    assert(a.len() == args.len());
    assert(forall|i: int| 0 <= i < args.len() ==> a[i] == #[trigger] args@[i]@);
    let n = args.len();
    if n == 1 {
        Mode::Settings
    } else if n == 2 && same_text(args[1].as_str(), "--install") {
        Mode::SilentInstall { features: every_feature() }
    } else if n == 2 && same_text(args[1].as_str(), "--uninstall") {
        Mode::SilentUninstall
    } else if n >= 3 && same_text(args[1].as_str(), "--rename") {
        Mode::Rename { path: args[2].clone() }
    } else if n >= 3 && shell_of_arg(args[1].as_str(), asst).is_some() {
        let shell = shell_of_arg(args[1].as_str(), asst).unwrap();
        Mode::Launch { shell, path: args[2].clone() }
    } else if n >= 2 {
        Mode::CopyPath { path: args[1].clone() }
    } else {
        Mode::Nothing
    }
}

/// The folder a shell opens in: the folder of a file (`C:\` when a file
/// has none), or the path itself for anything else.
pub open spec fn launch_folder(path: Seq<char>, is_file: bool) -> Seq<char> {
    if is_file {
        match spec_parent(path) {
            Some(p) => p,
            None => "C:\\"@,
        }
    } else {
        path
    }
}

/// The folder a shell opens in for `path`; `is_file` tells whether `path`
/// names a file.
pub fn launch_folder_of(path: &str, is_file: bool) -> (r: String)
    ensures
        r@ == launch_folder(path@, is_file),
{
    if is_file {
        match parent(path) {
            Some(p) => p,
            None => owned("C:\\"),
        }
    } else {
        owned(path)
    }
}

/// The program a shell runs.
pub open spec fn shell_program(shell: Shell) -> Seq<char> {
    match shell {
        Shell::PowerShell => "powershell.exe"@,
        _ => "cmd.exe"@,
    }
}

/// The arguments the program gets: the assistant runs in a CMD window
/// that starts its program with `--dangerously-skip-permissions` and stays
/// open.
pub open spec fn shell_args(shell: Shell, asst: Assistant) -> Seq<Seq<char>> {
    match shell {
        Shell::Assistant => seq!["/k"@, asst.program@ + " --dangerously-skip-permissions"@],
        _ => seq![],
    }
}

/// The program a shell runs.
pub fn shell_program_name(shell: Shell) -> (r: &'static str)
    ensures
        r@ == shell_program(shell),
{
    match shell {
        Shell::PowerShell => "powershell.exe",
        _ => "cmd.exe",
    }
}

/// The arguments a shell's program gets.
pub fn shell_arguments(shell: Shell, asst: &Assistant) -> (r: Vec<String>)
    ensures
        string_views(r@) == shell_args(shell, *asst),
{
    let mut r: Vec<String> = Vec::new();
    match shell {
        Shell::Assistant => {
            push_string(&mut r, owned("/k"));
            push_string(
                &mut r,
                concat(asst.program.as_str(), " --dangerously-skip-permissions"),
            );
        },
        _ => {},
    }
    assert(string_views(r@) =~= shell_args(shell, *asst));
    r
}


/// Each launch switch names its own shell, whatever the program path, the
/// folder and the assistant: `--cmd` starts `cmd.exe`, `--ps` starts
/// `powershell.exe`, and the assistant's switch starts its console.
pub proof fn lemma_switches_name_their_shells(prog: Seq<char>, path: Seq<char>, asst: Assistant)
    requires
        asst.program@ != "cmd"@,
        asst.program@ != "ps"@,
        asst.program@ != "rename"@,
    ensures
        mode_of(seq![prog, "--cmd"@, path], asst) == (ModeView::Launch { shell: Shell::Cmd, path }),
        mode_of(seq![prog, "--ps"@, path], asst) == (ModeView::Launch {
            shell: Shell::PowerShell,
            path,
        }),
        mode_of(seq![prog, assistant_switch(asst), path], asst) == (ModeView::Launch {
            shell: Shell::Assistant,
            path,
        }),
        shell_program(Shell::Cmd) == "cmd.exe"@,
        shell_program(Shell::PowerShell) == "powershell.exe"@,
{
    reveal_strlit("--cmd");
    reveal_strlit("--ps");
    reveal_strlit("--rename");
    reveal_strlit("--install");
    reveal_strlit("--uninstall");
    reveal_strlit("--");
    reveal_strlit("cmd");
    reveal_strlit("ps");
    reveal_strlit("rename");
    assert("--ps"@.len() == 4 && "--cmd"@.len() == 5 && "--rename"@.len() == 8);
    assert("--ps"@ != "--cmd"@);
    assert("--ps"@ != "--rename"@);
    assert("--cmd"@ != "--rename"@);
    assert(seq![prog, "--ps"@, path][1] == "--ps"@);
    let sw = assistant_switch(asst);
    assert(sw != "--rename"@) by {
        if sw == "--rename"@ {
            assert(asst.program@ =~= sw.skip(2));
            assert("--rename"@.skip(2) =~= "rename"@);
        }
    }
    assert(sw != "--cmd"@) by {
        if sw == "--cmd"@ {
            assert(asst.program@ =~= sw.skip(2));
            assert("--cmd"@.skip(2) =~= "cmd"@);
        }
    }
    assert(sw != "--ps"@) by {
        if sw == "--ps"@ {
            assert(asst.program@ =~= sw.skip(2));
            assert("--ps"@.skip(2) =~= "ps"@);
        }
    }
}

/// The mode a menu entry stands for, on the clicked path: copying the
/// path, opening CMD, PowerShell or the assistant there, or renaming.
pub open spec fn entry_mode(item: MenuItem, path: Seq<char>) -> ModeView {
    match item {
        MenuItem::CopyPath => ModeView::CopyPath { path },
        MenuItem::OpenCmd => ModeView::Launch { shell: Shell::Cmd, path },
        MenuItem::OpenPowerShell => ModeView::Launch { shell: Shell::PowerShell, path },
        MenuItem::BatchRename => ModeView::Rename { path },
        MenuItem::OpenAssistant => ModeView::Launch { shell: Shell::Assistant, path },
    }
}

/// What a menu entry writes is what the tool does when Explorer runs it:
/// the entry's switch is empty or one word followed by a space, and the
/// command line made of the program, that word and the clicked path is
/// read back as the entry's own mode.  A shell entry starts the program
/// of its own icon.  (A clicked path that reads `--install` or
/// `--uninstall`, or an assistant named like another switch, would be
/// read otherwise.)
pub proof fn lemma_menu_entries_dispatch(
    prog: Seq<char>,
    item: MenuItem,
    path: Seq<char>,
    asst: Assistant,
)
    requires
        path != "--install"@,
        path != "--uninstall"@,
        asst.program@ != "cmd"@,
        asst.program@ != "ps"@,
        asst.program@ != "rename"@,
        forall|i: int| 0 <= i < asst.program@.len() ==> #[trigger] asst.program@[i] != ' ',
    ensures
        ({
            let w = switch(item, asst);
            let args = if w.len() == 0 {
                seq![prog, path]
            } else {
                seq![prog, w.drop_last(), path]
            };
            &&& w.len() == 0 || w.last() == ' '
            &&& forall|i: int| 0 <= i < w.len() - 1 ==> #[trigger] w[i] != ' '
            &&& mode_of(args, asst) == entry_mode(item, path)
        }),
        item == MenuItem::OpenCmd ==> shell_program(Shell::Cmd) == icon(item),
        item == MenuItem::OpenPowerShell ==> shell_program(Shell::PowerShell) == icon(item),
{
    reveal_strlit("--cmd ");
    reveal_strlit("--ps ");
    reveal_strlit("--rename ");
    reveal_strlit("--rename");
    reveal_strlit("--cmd");
    reveal_strlit("--ps");
    reveal_strlit("--install");
    reveal_strlit("--uninstall");
    reveal_strlit("");
    reveal_strlit("--");
    reveal_strlit(" ");
    reveal_strlit("cmd.exe");
    reveal_strlit("powershell.exe");
    lemma_switches_name_their_shells(prog, path, asst);
    let w = switch(item, asst);
    match item {
        MenuItem::CopyPath => {},
        MenuItem::OpenCmd => {
            assert(w.drop_last() =~= "--cmd"@);
        },
        MenuItem::OpenPowerShell => {
            assert(w.drop_last() =~= "--ps"@);
        },
        MenuItem::BatchRename => {
            assert(w.drop_last() =~= "--rename"@);
        },
        MenuItem::OpenAssistant => {
            assert(w.drop_last() =~= assistant_switch(asst));
            assert forall|i: int| 0 <= i < w.len() - 1 implies #[trigger] w[i] != ' ' by {
                if i >= 2 {
                    assert(w[i] == asst.program@[i - 2]);
                }
            }
        },
    }
}
} // verus!
