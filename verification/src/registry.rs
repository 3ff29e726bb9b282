//! The registry side of the tool: which context-menu entries exist, the
//! keys and values that enable them, the order in which they are written or
//! removed, the arguments handed to `reg.exe`, and the bit flags that carry
//! the menu states between threads.

use vstd::prelude::*;
use crate::text::{chars_of, concat, extend_chars, owned, push_string, string_of, string_views};
use crate::winpath::{join, spec_join};

verus! {

/// The context-menu entries the tool manages.
#[derive(Clone, Copy, PartialEq, Eq, Structural, Debug)]
pub enum MenuItem {
    CopyPath,
    OpenCmd,
    OpenPowerShell,
    BatchRename,
    OpenAssistant,
}

/// Where Explorer shows an entry: on files, on folders, or on the
/// background of an open folder.
#[derive(Clone, Copy, PartialEq, Eq, Structural, Debug)]
pub enum Place {
    AnyFile,
    Directory,
    Background,
}

/// The command-line assistant that the last entry opens in a console: the
/// name it is shown under and the program that is run.
pub struct Assistant {
    /// Name shown in the menu and used in the registry verb (`Open<title>`).
    pub title: String,
    /// Program run in the console; also the command-line switch
    /// (`--<program>`) of the entry.
    pub program: String,
}

/// Which entries are enabled.
#[derive(Clone, Copy, PartialEq, Eq, Structural, Debug)]
pub struct Features {
    pub copy_path: bool,
    pub open_cmd: bool,
    pub open_powershell: bool,
    pub batch_rename: bool,
    pub open_assistant: bool,
}

/// Name of the registry verb of an entry.
pub open spec fn verb(item: MenuItem, asst: Assistant) -> Seq<char> {
    match item {
        MenuItem::CopyPath => "CopyPath"@,
        MenuItem::OpenCmd => "OpenCMD"@,
        MenuItem::OpenPowerShell => "OpenPS"@,
        MenuItem::BatchRename => "BatchRename"@,
        MenuItem::OpenAssistant => "Open"@ + asst.title@,
    }
}

/// Text Explorer shows for an entry.
pub open spec fn label(item: MenuItem, asst: Assistant) -> Seq<char> {
    match item {
        MenuItem::CopyPath => "複製路徑"@,
        MenuItem::OpenCmd => "在此處開啟 CMD"@,
        MenuItem::OpenPowerShell => "在此處開啟 PowerShell"@,
        MenuItem::BatchRename => "批次修改檔名"@,
        MenuItem::OpenAssistant => "在此處開啟 "@ + asst.title@ + " (YOLO)"@,
    }
}

/// Icon of an entry.
pub open spec fn icon(item: MenuItem) -> Seq<char> {
    match item {
        MenuItem::CopyPath => "shell32.dll,-16763"@,
        MenuItem::OpenCmd => "cmd.exe"@,
        MenuItem::OpenPowerShell => "powershell.exe"@,
        MenuItem::BatchRename => "shell32.dll,-16815"@,
        MenuItem::OpenAssistant => "cmd.exe"@,
    }
}

/// Command-line switch (with its trailing space) that the entry's command
/// passes to the tool; copying a path takes none.
pub open spec fn switch(item: MenuItem, asst: Assistant) -> Seq<char> {
    match item {
        MenuItem::CopyPath => ""@,
        MenuItem::OpenCmd => "--cmd "@,
        MenuItem::OpenPowerShell => "--ps "@,
        MenuItem::BatchRename => "--rename "@,
        MenuItem::OpenAssistant => "--"@ + asst.program@ + " "@,
    }
}

/// Where an entry is shown: batch renaming only on files and folders,
/// every other entry also on folder backgrounds.
pub open spec fn places(item: MenuItem) -> Seq<Place> {
    match item {
        MenuItem::BatchRename => seq![Place::AnyFile, Place::Directory],
        _ => seq![Place::AnyFile, Place::Directory, Place::Background],
    }
}

/// Registry class of a place.
pub open spec fn class_path(place: Place) -> Seq<char> {
    match place {
        Place::AnyFile => "*"@,
        Place::Directory => "Directory"@,
        Place::Background => "Directory\\Background"@,
    }
}

/// Placeholder Explorer replaces with the clicked item (`%V` for a folder
/// background, `%1` otherwise).
pub open spec fn placeholder(place: Place) -> Seq<char> {
    match place {
        Place::Background => "%V"@,
        _ => "%1"@,
    }
}

/// Key of an entry at a place, below the registry root.
pub open spec fn menu_key(place: Place, item: MenuItem, asst: Assistant) -> Seq<char> {
    "Software\\Classes\\"@ + class_path(place) + "\\shell\\"@ + verb(item, asst)
}

/// Command line an entry runs: the quoted program path, the switch, and
/// the quoted placeholder.
pub open spec fn menu_command(exe: Seq<char>, place: Place, item: MenuItem, asst: Assistant) -> Seq<char> {
    "\""@ + exe + "\" "@ + switch(item, asst) + "\""@ + placeholder(place) + "\""@
}

fn verb_text(item: MenuItem, asst: &Assistant) -> (r: String)
    ensures
        r@ == verb(item, *asst),
{
    match item {
        MenuItem::CopyPath => owned("CopyPath"),
        MenuItem::OpenCmd => owned("OpenCMD"),
        MenuItem::OpenPowerShell => owned("OpenPS"),
        MenuItem::BatchRename => owned("BatchRename"),
        MenuItem::OpenAssistant => concat("Open", asst.title.as_str()),
    }
}

fn label_text(item: MenuItem, asst: &Assistant) -> (r: String)
    ensures
        r@ == label(item, *asst),
{
    match item {
        MenuItem::CopyPath => owned("複製路徑"),
        MenuItem::OpenCmd => owned("在此處開啟 CMD"),
        MenuItem::OpenPowerShell => owned("在此處開啟 PowerShell"),
        MenuItem::BatchRename => owned("批次修改檔名"),
        MenuItem::OpenAssistant => {
            let t = concat("在此處開啟 ", asst.title.as_str());
            concat(t.as_str(), " (YOLO)")
        },
    }
}

fn icon_str(item: MenuItem) -> (r: &'static str)
    ensures
        r@ == icon(item),
{
    match item {
        MenuItem::CopyPath => "shell32.dll,-16763",
        MenuItem::OpenCmd => "cmd.exe",
        MenuItem::OpenPowerShell => "powershell.exe",
        MenuItem::BatchRename => "shell32.dll,-16815",
        MenuItem::OpenAssistant => "cmd.exe",
    }
}

fn switch_text(item: MenuItem, asst: &Assistant) -> (r: String)
    ensures
        r@ == switch(item, *asst),
{
    match item {
        MenuItem::CopyPath => owned(""),
        MenuItem::OpenCmd => owned("--cmd "),
        MenuItem::OpenPowerShell => owned("--ps "),
        MenuItem::BatchRename => owned("--rename "),
        MenuItem::OpenAssistant => {
            let t = concat("--", asst.program.as_str());
            concat(t.as_str(), " ")
        },
    }
}

fn class_path_str(place: Place) -> (r: &'static str)
    ensures
        r@ == class_path(place),
{
    match place {
        Place::AnyFile => "*",
        Place::Directory => "Directory",
        Place::Background => "Directory\\Background",
    }
}

fn placeholder_str(place: Place) -> (r: &'static str)
    ensures
        r@ == placeholder(place),
{
    match place {
        Place::Background => "%V",
        _ => "%1",
    }
}

/// The places of an entry, in order.
pub fn item_places(item: MenuItem) -> (r: Vec<Place>)
    ensures
        r@ == places(item),
{
    match item {
        MenuItem::BatchRename => vec![Place::AnyFile, Place::Directory],
        _ => vec![Place::AnyFile, Place::Directory, Place::Background],
    }
}

/// Key of an entry at a place.
pub fn menu_key_string(place: Place, item: MenuItem, asst: &Assistant) -> (r: String)
    ensures
        r@ == menu_key(place, item, *asst),
{
    let mut v = chars_of("Software\\Classes\\");
    extend_chars(&mut v, &chars_of(class_path_str(place)));
    extend_chars(&mut v, &chars_of("\\shell\\"));
    extend_chars(&mut v, &chars_of(verb_text(item, asst).as_str()));
    string_of(&v)
}

/// Command line of an entry at a place, for the program at `exe`.
pub fn menu_command_string(exe: &str, place: Place, item: MenuItem, asst: &Assistant) -> (r: String)
    ensures
        r@ == menu_command(exe@, place, item, *asst),
{
    let mut v = chars_of("\"");
    extend_chars(&mut v, &chars_of(exe));
    extend_chars(&mut v, &chars_of("\" "));
    extend_chars(&mut v, &chars_of(switch_text(item, asst).as_str()));
    extend_chars(&mut v, &chars_of("\""));
    extend_chars(&mut v, &chars_of(placeholder_str(place)));
    extend_chars(&mut v, &chars_of("\""));
    string_of(&v)
}


/// One change to the registry.
#[derive(Debug)]
pub enum RegistryOp {
    /// Write the string `value` as the value `name` (the default value when
    /// `name` is empty) of `root\key`, creating the key.
    SetValue { root: String, key: String, name: String, value: String },
    /// Delete `root\key` with everything below it.
    DeleteKey { root: String, key: String },
}

/// What a registry change is, as character sequences.
pub enum RegistryOpView {
    SetValue { root: Seq<char>, key: Seq<char>, name: Seq<char>, value: Seq<char> },
    DeleteKey { root: Seq<char>, key: Seq<char> },
}

impl View for RegistryOp {
    type V = RegistryOpView;

    open spec fn view(&self) -> RegistryOpView {
        match self {
            RegistryOp::SetValue { root, key, name, value } => RegistryOpView::SetValue {
                root: root@,
                key: key@,
                name: name@,
                value: value@,
            },
            RegistryOp::DeleteKey { root, key } => RegistryOpView::DeleteKey {
                root: root@,
                key: key@,
            },
        }
    }
}

/// The views of a list of registry changes.
pub open spec fn op_views(ops: Seq<RegistryOp>) -> Seq<RegistryOpView> {
    ops.map_values(|op: RegistryOp| op@)
}

proof fn lemma_op_views_push(s: Seq<RegistryOp>, x: RegistryOp)
    ensures
        op_views(s.push(x)) == op_views(s).push(x@),
{
    assert(op_views(s.push(x)) =~= op_views(s).push(x@));
}

/// The registry root the tool writes to: the machine's (`HKLM`) when it has
/// administrator rights, the user's (`HKCU`) otherwise.
pub open spec fn root_for(is_admin: bool) -> Seq<char> {
    if is_admin { "HKLM"@ } else { "HKCU"@ }
}

/// The three values that enable an entry at a place: its label as the
/// default value, its icon, and its command as the default value of the
/// `command` subkey.
pub open spec fn enable_ops(root: Seq<char>, exe: Seq<char>, place: Place, item: MenuItem, asst: Assistant) -> Seq<RegistryOpView> {
    let key = menu_key(place, item, asst);
    seq![
        RegistryOpView::SetValue { root, key, name: ""@, value: label(item, asst) },
        RegistryOpView::SetValue { root, key, name: "Icon"@, value: icon(item) },
        RegistryOpView::SetValue {
            root,
            key: key + "\\command"@,
            name: ""@,
            value: menu_command(exe, place, item, asst),
        },
    ]
}

/// For each place, the values enabling `item` there.
pub open spec fn enable_at(root: Seq<char>, exe: Seq<char>, item: MenuItem, asst: Assistant) -> spec_fn(Place) -> Seq<RegistryOpView> {
    |place: Place| enable_ops(root, exe, place, item, asst)
}

/// For each place, deleting the key of `item` there.
pub open spec fn delete_at(root: Seq<char>, item: MenuItem, asst: Assistant) -> spec_fn(Place) -> Seq<RegistryOpView> {
    |place: Place| seq![RegistryOpView::DeleteKey { root, key: menu_key(place, item, asst) }]
}

/// The changes for one entry: when enabled, its values at each of its
/// places; when disabled, deleting its key at each of its places.
pub open spec fn item_ops(root: Seq<char>, exe: Seq<char>, item: MenuItem, enabled: bool, asst: Assistant) -> Seq<RegistryOpView> {
    if enabled {
        places(item).flat_map(enable_at(root, exe, item, asst))
    } else {
        places(item).flat_map(delete_at(root, item, asst))
    }
}

/// The changes that apply a choice of entries: the entries in menu order
/// (copy path, CMD, PowerShell, batch rename, assistant), each enabled or
/// removed.
pub open spec fn install_plan(root: Seq<char>, exe: Seq<char>, f: Features, asst: Assistant) -> Seq<RegistryOpView> {
    item_ops(root, exe, MenuItem::CopyPath, f.copy_path, asst) + item_ops(root, exe, MenuItem::OpenCmd, f.open_cmd, asst)
        + item_ops(root, exe, MenuItem::OpenPowerShell, f.open_powershell, asst) + item_ops(
        root,
        exe,
        MenuItem::BatchRename,
        f.batch_rename,
        asst,
    ) + item_ops(root, exe, MenuItem::OpenAssistant, f.open_assistant, asst)
}

/// The registry root to write to.
pub fn registry_root(is_admin: bool) -> (r: &'static str)
    ensures
        r@ == root_for(is_admin),
{
    if is_admin { "HKLM" } else { "HKCU" }
}

fn push_item_ops(out: &mut Vec<RegistryOp>, root: &str, exe: &str, item: MenuItem, enabled: bool, asst: &Assistant)
    ensures
        op_views(final(out)@) == op_views(old(out)@) + item_ops(root@, exe@, item, enabled, *asst),
{
    let ps = item_places(item);
    let ghost start = op_views(out@);
    let mut i: usize = 0;
    while i < ps.len()
        invariant
            i <= ps.len(),
            ps@ == places(item),
            op_views(out@) == start + if enabled {
                ps@.take(i as int).flat_map(enable_at(root@, exe@, item, *asst))
            } else {
                ps@.take(i as int).flat_map(delete_at(root@, item, *asst))
            },
        decreases ps.len() - i,
    {
        let place = ps[i];
        let key = menu_key_string(place, item, asst);
        let ghost before = op_views(out@);
        if enabled {
            let a = RegistryOp::SetValue {
                root: owned(root),
                key: key.clone(),
                name: owned(""),
                value: label_text(item, asst),
            };
            let b = RegistryOp::SetValue {
                root: owned(root),
                key: key.clone(),
                name: owned("Icon"),
                value: owned(icon_str(item)),
            };
            let c = RegistryOp::SetValue {
                root: owned(root),
                key: concat(key.as_str(), "\\command"),
                name: owned(""),
                value: menu_command_string(exe, place, item, asst),
            };
            let ghost s0 = out@;
            out.push(a);
            proof { lemma_op_views_push(s0, a); }
            let ghost s1 = out@;
            out.push(b);
            proof { lemma_op_views_push(s1, b); }
            let ghost s2 = out@;
            out.push(c);
            proof { lemma_op_views_push(s2, c); }
            let ghost e = enable_ops(root@, exe@, place, item, *asst);
            assert(a@ == e[0]);
            assert(b@ == e[1]);
            assert(c@ == e[2]);
            assert(op_views(out@) =~= before + enable_at(root@, exe@, item, *asst)(place));
        } else {
            let d = RegistryOp::DeleteKey { root: owned(root), key };
            let ghost s0 = out@;
            out.push(d);
            proof { lemma_op_views_push(s0, d); }
            assert(op_views(out@) =~= before + delete_at(root@, item, *asst)(place));
        }
        proof {
            ps@.lemma_flat_map_take_append(enable_at(root@, exe@, item, *asst), i as int);
            ps@.lemma_flat_map_take_append(delete_at(root@, item, *asst), i as int);
        }
        i += 1;
    }
    assert(ps@.take(ps.len() as int) == ps@);
}

/// The registry changes that apply the choice `f` for the program at
/// `exe`, under the root chosen by `is_admin`, in the order they are made.
pub fn install_plan_ops(exe: &str, f: Features, is_admin: bool, asst: &Assistant) -> (ops: Vec<RegistryOp>)
    ensures
        op_views(ops@) == install_plan(root_for(is_admin), exe@, f, *asst),
{
    let root = registry_root(is_admin);
    let mut ops: Vec<RegistryOp> = Vec::new();
    assert(op_views(ops@) =~= Seq::<RegistryOpView>::empty());
    push_item_ops(&mut ops, root, exe, MenuItem::CopyPath, f.copy_path, asst);
    push_item_ops(&mut ops, root, exe, MenuItem::OpenCmd, f.open_cmd, asst);
    push_item_ops(&mut ops, root, exe, MenuItem::OpenPowerShell, f.open_powershell, asst);
    push_item_ops(&mut ops, root, exe, MenuItem::BatchRename, f.batch_rename, asst);
    push_item_ops(&mut ops, root, exe, MenuItem::OpenAssistant, f.open_assistant, asst);
    ops
}


/// Every place, in the order the tool removes entries.
pub open spec fn all_places() -> Seq<Place> {
    seq![Place::AnyFile, Place::Directory, Place::Background]
}

/// Every entry, in menu order.
pub open spec fn all_items() -> Seq<MenuItem> {
    seq![
        MenuItem::CopyPath,
        MenuItem::OpenCmd,
        MenuItem::OpenPowerShell,
        MenuItem::BatchRename,
        MenuItem::OpenAssistant,
    ]
}

/// Removing one entry at one place: from the user's root, then from the
/// machine's.
pub open spec fn remove_everywhere(place: Place, asst: Assistant) -> spec_fn(MenuItem) -> Seq<RegistryOpView> {
    |item: MenuItem|
        seq![
            RegistryOpView::DeleteKey { root: "HKCU"@, key: menu_key(place, item, asst) },
            RegistryOpView::DeleteKey { root: "HKLM"@, key: menu_key(place, item, asst) },
        ]
}

/// Removing every entry at one place.
pub open spec fn remove_place(asst: Assistant) -> spec_fn(Place) -> Seq<RegistryOpView> {
    |place: Place| all_items().flat_map(remove_everywhere(place, asst))
}

/// The changes that remove the tool: every entry at every place (batch
/// renaming included on folder backgrounds), under both roots.
pub open spec fn uninstall_plan(asst: Assistant) -> Seq<RegistryOpView> {
    all_places().flat_map(remove_place(asst))
}

fn all_items_vec() -> (r: Vec<MenuItem>)
    ensures
        r@ == all_items(),
{
    vec![
        MenuItem::CopyPath,
        MenuItem::OpenCmd,
        MenuItem::OpenPowerShell,
        MenuItem::BatchRename,
        MenuItem::OpenAssistant,
    ]
}

/// The registry changes that remove every entry, in the order they are made.
pub fn uninstall_plan_ops(asst: &Assistant) -> (ops: Vec<RegistryOp>)
    ensures
        op_views(ops@) == uninstall_plan(*asst),
{
    let ps = vec![Place::AnyFile, Place::Directory, Place::Background];
    let items = all_items_vec();
    let mut ops: Vec<RegistryOp> = Vec::new();
    assert(ps@ == all_places());
    let mut i: usize = 0;
    while i < ps.len()
        invariant
            i <= ps.len(),
            ps@ == all_places(),
            items@ == all_items(),
            op_views(ops@) == ps@.take(i as int).flat_map(remove_place(*asst)),
        decreases ps.len() - i,
    {
        let place = ps[i];
        let ghost start = op_views(ops@);
        let mut j: usize = 0;
        while j < items.len()
            invariant
                j <= items.len(),
                items@ == all_items(),
                op_views(ops@) == start + items@.take(j as int).flat_map(remove_everywhere(place, *asst)),
            decreases items.len() - j,
        {
            let item = items[j];
            let key = menu_key_string(place, item, asst);
            let a = RegistryOp::DeleteKey { root: owned("HKCU"), key: key.clone() };
            let b = RegistryOp::DeleteKey { root: owned("HKLM"), key };
            let ghost s0 = ops@;
            ops.push(a);
            proof { lemma_op_views_push(s0, a); }
            let ghost s1 = ops@;
            ops.push(b);
            proof {
                lemma_op_views_push(s1, b);
                items@.lemma_flat_map_take_append(remove_everywhere(place, *asst), j as int);
            }
            assert(op_views(ops@) =~= start + items@.take(j + 1).flat_map(remove_everywhere(place, *asst)));
            j += 1;
        }
        assert(items@.take(items.len() as int) == items@);
        proof {
            ps@.lemma_flat_map_take_append(remove_place(*asst), i as int);
        }
        assert(op_views(ops@) =~= ps@.take(i + 1).flat_map(remove_place(*asst)));
        i += 1;
    }
    assert(ps@.take(ps.len() as int) == ps@);
    ops
}


/// `root\key`, the full name `reg.exe` takes.
pub open spec fn full_key(root: Seq<char>, key: Seq<char>) -> Seq<char> {
    root + "\\"@ + key
}

/// Arguments of `reg.exe` that make a registry change: `add` with the
/// value name (`/ve` for the default value), type `REG_SZ`, the data and
/// `/f`; or `delete` with `/f`.
pub open spec fn reg_args(op: RegistryOpView) -> Seq<Seq<char>> {
    match op {
        RegistryOpView::SetValue { root, key, name, value } => seq!["add"@, full_key(root, key)] + (
        if name.len() == 0 {
            seq!["/ve"@]
        } else {
            seq!["/v"@, name]
        }) + seq!["/t"@, "REG_SZ"@, "/d"@, value, "/f"@],
        RegistryOpView::DeleteKey { root, key } => seq!["delete"@, full_key(root, key), "/f"@],
    }
}

/// `root\key`.
pub fn full_key_string(root: &str, key: &str) -> (r: String)
    ensures
        r@ == full_key(root@, key@),
{
    let mut v = chars_of(root);
    v.push('\\');
    extend_chars(&mut v, &chars_of(key));
    assert("\\"@ =~= seq!['\\']) by {
        reveal_strlit("\\");
    }
    string_of(&v)
}

/// The arguments of `reg.exe` that make the change `op`.
pub fn reg_command_args(op: &RegistryOp) -> (args: Vec<String>)
    ensures
        string_views(args@) == reg_args(op@),
{
    let mut args: Vec<String> = Vec::new();
    match op {
        RegistryOp::SetValue { root, key, name, value } => {
            push_string(&mut args, owned("add"));
            push_string(&mut args, full_key_string(root.as_str(), key.as_str()));
            if name.as_str().unicode_len() == 0 {
                push_string(&mut args, owned("/ve"));
            } else {
                push_string(&mut args, owned("/v"));
                push_string(&mut args, name.clone());
            }
            push_string(&mut args, owned("/t"));
            push_string(&mut args, owned("REG_SZ"));
            push_string(&mut args, owned("/d"));
            push_string(&mut args, value.clone());
            push_string(&mut args, owned("/f"));
        },
        RegistryOp::DeleteKey { root, key } => {
            push_string(&mut args, owned("delete"));
            push_string(&mut args, full_key_string(root.as_str(), key.as_str()));
            push_string(&mut args, owned("/f"));
        },
    }
    assert(string_views(args@) =~= reg_args(op@));
    args
}

/// The arguments of `reg.exe` that ask whether `root\key` exists.
pub fn reg_query_args(root: &str, key: &str) -> (args: Vec<String>)
    ensures
        string_views(args@) == seq!["query"@, full_key(root@, key@)],
{
    let mut args: Vec<String> = Vec::new();
    push_string(&mut args, owned("query"));
    push_string(&mut args, full_key_string(root, key));
    assert(string_views(args@) =~= seq!["query"@, full_key(root@, key@)]);
    args
}

/// The message shown when writing the value `name` of `key` fails.
pub open spec fn write_failure_message(key: Seq<char>, name: Seq<char>) -> Seq<char> {
    "無法寫入登錄值: "@ + key + "\\"@ + name + "，請確認是否有權限或被防毒軟體阻擋。"@
}

/// After a change has been attempted: `None` to go on with the next one,
/// or the error that ends the installation.  Only a failed write ends it;
/// a deletion that fails (typically because the key was not there) does
/// not.
pub open spec fn step_outcome(op: RegistryOpView, succeeded: bool) -> Option<Seq<char>> {
    match op {
        RegistryOpView::SetValue { root, key, name, value } => if succeeded {
            None
        } else {
            Some(write_failure_message(key, name))
        },
        RegistryOpView::DeleteKey { .. } => None,
    }
}

/// Decides how installation goes on after the change `op` was attempted.
pub fn after_change(op: &RegistryOp, succeeded: bool) -> (r: Option<String>)
    ensures
        match r {
            Some(m) => step_outcome(op@, succeeded) == Some(m@),
            None => step_outcome(op@, succeeded) is None,
        },
{
    match op {
        RegistryOp::SetValue { key, name, .. } => {
            if succeeded {
                None
            } else {
                let mut v = chars_of("無法寫入登錄值: ");
                extend_chars(&mut v, &chars_of(key.as_str()));
                extend_chars(&mut v, &chars_of("\\"));
                extend_chars(&mut v, &chars_of(name.as_str()));
                extend_chars(&mut v, &chars_of("，請確認是否有權限或被防毒軟體阻擋。"));
                Some(string_of(&v))
            }
        },
        RegistryOp::DeleteKey { .. } => None,
    }
}

/// The roots searched for an entry, in order: an administrator looks in the
/// machine's root and then the user's, anyone else in the user's only.
pub open spec fn query_roots(is_admin: bool) -> Seq<Seq<char>> {
    if is_admin {
        seq!["HKLM"@, "HKCU"@]
    } else {
        seq!["HKCU"@]
    }
}

/// The roots in which to look for an entry.
pub fn query_root_list(is_admin: bool) -> (r: Vec<String>)
    ensures
        string_views(r@) == query_roots(is_admin),
{
    let mut r: Vec<String> = Vec::new();
    if is_admin {
        push_string(&mut r, owned("HKLM"));
    }
    push_string(&mut r, owned("HKCU"));
    assert(string_views(r@) =~= query_roots(is_admin));
    r
}

/// The place whose key tells whether an entry is enabled: files for copying
/// a path and batch renaming, folders for the others.
pub open spec fn probe_place(item: MenuItem) -> Place {
    match item {
        MenuItem::CopyPath | MenuItem::BatchRename => Place::AnyFile,
        _ => Place::Directory,
    }
}

/// The key whose presence shows that `item` is enabled.
pub fn probe_key(item: MenuItem, asst: &Assistant) -> (r: String)
    ensures
        r@ == menu_key(probe_place(item), item, *asst),
{
    let place = match item {
        MenuItem::CopyPath | MenuItem::BatchRename => Place::AnyFile,
        _ => Place::Directory,
    };
    menu_key_string(place, item, asst)
}

/// The key written, then deleted, to find out whether the process may
/// write to the machine's root.
pub open spec fn admin_probe_key() -> Seq<char> {
    "HKLM\\Software\\CopyPathTool_CheckAdmin"@
}

/// Arguments of `reg.exe` for the write that tests administrator rights.
pub fn admin_probe_add_args() -> (args: Vec<String>)
    ensures
        string_views(args@) == seq!["add"@, admin_probe_key(), "/v"@, "Test"@, "/t"@, "REG_SZ"@, "/d"@, "1"@, "/f"@],
{
    let mut args: Vec<String> = Vec::new();
    push_string(&mut args, owned("add"));
    push_string(&mut args, owned("HKLM\\Software\\CopyPathTool_CheckAdmin"));
    push_string(&mut args, owned("/v"));
    push_string(&mut args, owned("Test"));
    push_string(&mut args, owned("/t"));
    push_string(&mut args, owned("REG_SZ"));
    push_string(&mut args, owned("/d"));
    push_string(&mut args, owned("1"));
    push_string(&mut args, owned("/f"));
    assert(string_views(args@) =~= seq!["add"@, admin_probe_key(), "/v"@, "Test"@, "/t"@, "REG_SZ"@, "/d"@, "1"@, "/f"@]);
    args
}

/// Arguments of `reg.exe` that remove the key of the rights test.
pub fn admin_probe_delete_args() -> (args: Vec<String>)
    ensures
        string_views(args@) == seq!["delete"@, admin_probe_key(), "/f"@],
{
    let mut args: Vec<String> = Vec::new();
    push_string(&mut args, owned("delete"));
    push_string(&mut args, owned("HKLM\\Software\\CopyPathTool_CheckAdmin"));
    push_string(&mut args, owned("/f"));
    assert(string_views(args@) =~= seq!["delete"@, admin_probe_key(), "/f"@]);
    args
}

/// The folder the tool installs itself into, below `ProgramData`.
pub open spec fn install_dir(program_data: Seq<char>) -> Seq<char> {
    spec_join(program_data, "CopyPathTool"@)
}

/// The installed program.
pub open spec fn installed_exe(program_data: Seq<char>) -> Seq<char> {
    spec_join(install_dir(program_data), "CopyPathTool.exe"@)
}

/// The install folder for the `ProgramData` folder `program_data`.
pub fn install_dir_path(program_data: &str) -> (r: String)
    ensures
        r@ == install_dir(program_data@),
{
    join(program_data, "CopyPathTool")
}

/// The installed program for the `ProgramData` folder `program_data`.
pub fn installed_exe_path(program_data: &str) -> (r: String)
    ensures
        r@ == installed_exe(program_data@),
{
    let dir = install_dir_path(program_data);
    join(dir.as_str(), "CopyPathTool.exe")
}

/// The command a running installed copy leaves behind to delete itself: it
/// waits about a second, deletes the program, then its folder.
pub open spec fn self_delete_command(exe: Seq<char>, dir: Seq<char>) -> Seq<char> {
    "ping 127.0.0.1 -n 2 > nul && del /f /q \""@ + exe + "\" && rmdir \""@ + dir + "\""@
}

/// The self-deleting command for the program `exe` in the folder `dir`.
pub fn self_delete_command_line(exe: &str, dir: &str) -> (r: String)
    ensures
        r@ == self_delete_command(exe@, dir@),
{
    let mut v = chars_of("ping 127.0.0.1 -n 2 > nul && del /f /q \"");
    extend_chars(&mut v, &chars_of(exe));
    extend_chars(&mut v, &chars_of("\" && rmdir \""));
    extend_chars(&mut v, &chars_of(dir));
    extend_chars(&mut v, &chars_of("\""));
    string_of(&v)
}


/// The entries' states packed into bits: bit 0 copy path, bit 1 CMD, bit 2
/// PowerShell, bit 3 batch rename, bit 4 assistant.
pub open spec fn feature_bits(f: Features) -> usize {
    ((if f.copy_path { 1usize } else { 0usize }) | (if f.open_cmd { 2usize } else { 0usize }) | (
    if f.open_powershell { 4usize } else { 0usize }) | (if f.batch_rename { 8usize } else { 0usize })
        | (if f.open_assistant { 16usize } else { 0usize }))
}

/// The entries' states read back from bits.
pub open spec fn features_of_bits(w: usize) -> Features {
    Features {
        copy_path: w & 1 != 0,
        open_cmd: w & 2 != 0,
        open_powershell: w & 4 != 0,
        batch_rename: w & 8 != 0,
        open_assistant: w & 16 != 0,
    }
}

/// Packs the entries' states into bits.
pub fn pack_features(f: Features) -> (w: usize)
    ensures
        w == feature_bits(f),
{
    (if f.copy_path { 1usize } else { 0usize }) | (if f.open_cmd { 2usize } else { 0usize }) | (
    if f.open_powershell { 4usize } else { 0usize }) | (if f.batch_rename { 8usize } else { 0usize })
        | (if f.open_assistant { 16usize } else { 0usize })
}

/// Reads the entries' states back from bits.
pub fn unpack_features(w: usize) -> (f: Features)
    ensures
        f == features_of_bits(w),
{
    Features {
        copy_path: w & 1 != 0,
        open_cmd: w & 2 != 0,
        open_powershell: w & 4 != 0,
        batch_rename: w & 8 != 0,
        open_assistant: w & 16 != 0,
    }
}

/// Reading packed states back gives the states that were packed.
pub proof fn lemma_unpack_pack(f: Features)
    ensures
        features_of_bits(feature_bits(f)) == f,
{
    let a = f.copy_path;
    let b = f.open_cmd;
    let c = f.open_powershell;
    let d = f.batch_rename;
    let e = f.open_assistant;
    let w = feature_bits(f);
    assert(w == ((if a { 1usize } else { 0usize }) | (if b { 2usize } else { 0usize }) | (if c {
        4usize
    } else {
        0usize
    }) | (if d { 8usize } else { 0usize }) | (if e { 16usize } else { 0usize })));
    assert(((w & 1 != 0) == a && (w & 2 != 0) == b && (w & 4 != 0) == c && (w & 8 != 0) == d && (w
        & 16 != 0) == e)) by (bit_vector)
        requires
            w == ((if a { 1usize } else { 0usize }) | (if b { 2usize } else { 0usize }) | (if c {
                4usize
            } else {
                0usize
            }) | (if d { 8usize } else { 0usize }) | (if e { 16usize } else { 0usize })),
    ;
}

/// Packing states read from bits gives back the low five bits, the only
/// ones that carry a state.
pub proof fn lemma_pack_unpack(w: usize)
    ensures
        feature_bits(features_of_bits(w)) == w & 31,
{
    assert(((if w & 1 != 0 { 1usize } else { 0usize }) | (if w & 2 != 0 { 2usize } else { 0usize }) | (
    if w & 4 != 0 { 4usize } else { 0usize }) | (if w & 8 != 0 { 8usize } else { 0usize }) | (if w
        & 16 != 0 { 16usize } else { 0usize })) == w & 31) by (bit_vector);
}


proof fn lemma_flat_map_has<A, B>(s: Seq<A>, f: spec_fn(A) -> Seq<B>, k: int, x: B)
    requires
        0 <= k < s.len(),
        f(s[k]).contains(x),
    ensures
        s.flat_map(f).contains(x),
    decreases s.len(),
{
    let init = s.drop_last();
    assert(s == init.push(s.last()));
    init.lemma_flat_map_push(f, s.last());
    if k == s.len() - 1 {
        let fx = f(s[k]);
        let j = choose|j: int| 0 <= j < fx.len() && fx[j] == x;
        assert(s.flat_map(f)[init.flat_map(f).len() + j] == x);
    } else {
        assert(init[k] == s[k]);
        lemma_flat_map_has(init, f, k, x);
        let j = choose|j: int| 0 <= j < init.flat_map(f).len() && init.flat_map(f)[j] == x;
        assert(s.flat_map(f)[j] == x);
    }
}

proof fn lemma_flat_map_from<A, B>(s: Seq<A>, f: spec_fn(A) -> Seq<B>, x: B)
    requires
        s.flat_map(f).contains(x),
    ensures
        exists|k: int| 0 <= k < s.len() && #[trigger] f(s[k]).contains(x),
    decreases s.len(),
{
    if s.len() == 0 {
        assert(s.flat_map(f) =~= Seq::<B>::empty());
    } else {
        let init = s.drop_last();
        assert(s == init.push(s.last()));
        init.lemma_flat_map_push(f, s.last());
        let j = choose|j: int| 0 <= j < s.flat_map(f).len() && s.flat_map(f)[j] == x;
        if j < init.flat_map(f).len() {
            assert(init.flat_map(f)[j] == x);
            lemma_flat_map_from(init, f, x);
            let k = choose|k: int| 0 <= k < init.len() && #[trigger] f(init[k]).contains(x);
            assert(init[k] == s[k]);
        } else {
            let l = j - init.flat_map(f).len();
            assert(f(s.last())[l] == x);
            assert(f(s[s.len() - 1]).contains(x));
        }
    }
}

/// `del` deletes the key that `op` writes to, or the key above it.
pub open spec fn deletion_covers(del: RegistryOpView, op: RegistryOpView) -> bool {
    match (del, op) {
        (
            RegistryOpView::DeleteKey { root: r1, key: k1 },
            RegistryOpView::SetValue { root: r2, key: k2, .. },
        ) => r1 == r2 && (k2 == k1 || k2 == k1 + "\\command"@),
        _ => false,
    }
}

proof fn lemma_removal_listed(root: Seq<char>, place: Place, item: MenuItem, asst: Assistant)
    requires
        root == "HKCU"@ || root == "HKLM"@,
    ensures
        uninstall_plan(asst).contains(RegistryOpView::DeleteKey { root, key: menu_key(place, item, asst) }),
{
    let del = RegistryOpView::DeleteKey { root, key: menu_key(place, item, asst) };
    let pi: int = match place {
        Place::AnyFile => 0,
        Place::Directory => 1,
        Place::Background => 2,
    };
    let ii: int = match item {
        MenuItem::CopyPath => 0,
        MenuItem::OpenCmd => 1,
        MenuItem::OpenPowerShell => 2,
        MenuItem::BatchRename => 3,
        MenuItem::OpenAssistant => 4,
    };
    assert(all_places()[pi] == place);
    assert(all_items()[ii] == item);
    let pair = remove_everywhere(place, asst)(item);
    if root == "HKCU"@ {
        assert(pair[0] == del);
    } else {
        assert(pair[1] == del);
    }
    assert(pair.contains(del));
    lemma_flat_map_has(all_items(), remove_everywhere(place, asst), ii, del);
    assert(remove_place(asst)(place) == all_items().flat_map(remove_everywhere(place, asst)));
    lemma_flat_map_has(all_places(), remove_place(asst), pi, del);
}

proof fn lemma_item_op_covered(root: Seq<char>, exe: Seq<char>, item: MenuItem, enabled: bool, op: RegistryOpView, asst: Assistant)
    requires
        root == "HKCU"@ || root == "HKLM"@,
        item_ops(root, exe, item, enabled, asst).contains(op),
        op is SetValue,
    ensures
        exists|del: RegistryOpView| uninstall_plan(asst).contains(del) && #[trigger] deletion_covers(del, op),
{
    if enabled {
        lemma_flat_map_from(places(item), enable_at(root, exe, item, asst), op);
        let k = choose|k: int| 0 <= k < places(item).len() && #[trigger] enable_at(root, exe, item, asst)(places(item)[k]).contains(op);
        let place = places(item)[k];
        let del = RegistryOpView::DeleteKey { root, key: menu_key(place, item, asst) };
        lemma_removal_listed(root, place, item, asst);
        let ops = enable_ops(root, exe, place, item, asst);
        let j = choose|j: int| 0 <= j < ops.len() && ops[j] == op;
        assert(deletion_covers(del, op));
    } else {
        lemma_flat_map_from(places(item), delete_at(root, item, asst), op);
        let k = choose|k: int| 0 <= k < places(item).len() && #[trigger] delete_at(root, item, asst)(places(item)[k]).contains(op);
        let ops = delete_at(root, item, asst)(places(item)[k]);
        let j = choose|j: int| 0 <= j < ops.len() && ops[j] == op;
        assert(!(op is SetValue));
    }
}

/// Removing the tool undoes any installation: every value an installation
/// writes, under either root, lies in a key that removal deletes.
pub proof fn lemma_uninstall_covers_install(is_admin: bool, exe: Seq<char>, f: Features, op: RegistryOpView, asst: Assistant)
    requires
        install_plan(root_for(is_admin), exe, f, asst).contains(op),
        op is SetValue,
    ensures
        exists|del: RegistryOpView| uninstall_plan(asst).contains(del) && #[trigger] deletion_covers(del, op),
{
    let root = root_for(is_admin);
    let a = item_ops(root, exe, MenuItem::CopyPath, f.copy_path, asst);
    let b = item_ops(root, exe, MenuItem::OpenCmd, f.open_cmd, asst);
    let c = item_ops(root, exe, MenuItem::OpenPowerShell, f.open_powershell, asst);
    let d = item_ops(root, exe, MenuItem::BatchRename, f.batch_rename, asst);
    let e = item_ops(root, exe, MenuItem::OpenAssistant, f.open_assistant, asst);
    let plan = install_plan(root, exe, f, asst);
    assert(plan == a + b + c + d + e);
    let i = choose|i: int| 0 <= i < plan.len() && plan[i] == op;
    if i < a.len() {
        assert(a[i] == op);
        lemma_item_op_covered(root, exe, MenuItem::CopyPath, f.copy_path, op, asst);
    } else if i < a.len() + b.len() {
        assert(b[i - a.len()] == op);
        lemma_item_op_covered(root, exe, MenuItem::OpenCmd, f.open_cmd, op, asst);
    } else if i < a.len() + b.len() + c.len() {
        assert(c[i - a.len() - b.len()] == op);
        lemma_item_op_covered(root, exe, MenuItem::OpenPowerShell, f.open_powershell, op, asst);
    } else if i < a.len() + b.len() + c.len() + d.len() {
        assert(d[i - a.len() - b.len() - c.len()] == op);
        lemma_item_op_covered(root, exe, MenuItem::BatchRename, f.batch_rename, op, asst);
    } else {
        assert(e[i - a.len() - b.len() - c.len() - d.len()] == op);
        lemma_item_op_covered(root, exe, MenuItem::OpenAssistant, f.open_assistant, op, asst);
    }
}

} // verus!
