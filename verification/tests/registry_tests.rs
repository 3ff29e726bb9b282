use copypathtool::registry::{
    admin_probe_add_args, admin_probe_delete_args, after_change, install_dir_path,
    install_plan_ops, installed_exe_path, pack_features, probe_key, query_root_list,
    reg_command_args, reg_query_args, registry_root, self_delete_command_line,
    uninstall_plan_ops, unpack_features, Assistant, Features, MenuItem, RegistryOp,
};

fn assistant() -> Assistant {
    Assistant { title: "Agent".to_string(), program: "agent".to_string() }
}

fn all(on: bool) -> Features {
    Features { copy_path: on, open_cmd: on, open_powershell: on, batch_rename: on, open_assistant: on }
}

fn set(op: &RegistryOp) -> (String, String, String, String) {
    match op {
        RegistryOp::SetValue { root, key, name, value } => {
            (root.clone(), key.clone(), name.clone(), value.clone())
        }
        RegistryOp::DeleteKey { .. } => panic!("expected a value"),
    }
}

fn del(op: &RegistryOp) -> (String, String) {
    match op {
        RegistryOp::DeleteKey { root, key } => (root.clone(), key.clone()),
        RegistryOp::SetValue { .. } => panic!("expected a deletion"),
    }
}

fn tuple(a: &str, b: &str, c: &str, d: &str) -> (String, String, String, String) {
    (a.to_string(), b.to_string(), c.to_string(), d.to_string())
}

#[test]
fn full_install_writes_every_entry() {
    let exe = "C:\\ProgramData\\CopyPathTool\\CopyPathTool.exe";
    let ops = install_plan_ops(exe, all(true), false, &assistant());
    assert_eq!(ops.len(), 42);
    assert_eq!(set(&ops[0]), tuple("HKCU", "Software\\Classes\\*\\shell\\CopyPath", "", "複製路徑"));
    assert_eq!(set(&ops[1]), tuple("HKCU", "Software\\Classes\\*\\shell\\CopyPath", "Icon", "shell32.dll,-16763"));
    assert_eq!(
        set(&ops[2]),
        tuple(
            "HKCU",
            "Software\\Classes\\*\\shell\\CopyPath\\command",
            "",
            "\"C:\\ProgramData\\CopyPathTool\\CopyPathTool.exe\" \"%1\""
        )
    );
    assert_eq!(
        set(&ops[8]),
        tuple(
            "HKCU",
            "Software\\Classes\\Directory\\Background\\shell\\CopyPath\\command",
            "",
            "\"C:\\ProgramData\\CopyPathTool\\CopyPathTool.exe\" \"%V\""
        )
    );
    assert_eq!(
        set(&ops[11]),
        tuple(
            "HKCU",
            "Software\\Classes\\*\\shell\\OpenCMD\\command",
            "",
            "\"C:\\ProgramData\\CopyPathTool\\CopyPathTool.exe\" --cmd \"%1\""
        )
    );
    assert_eq!(set(&ops[18]), tuple("HKCU", "Software\\Classes\\*\\shell\\OpenPS", "", "在此處開啟 PowerShell"));
    assert_eq!(set(&ops[27]), tuple("HKCU", "Software\\Classes\\*\\shell\\BatchRename", "", "批次修改檔名"));
    assert_eq!(set(&ops[31]).1, "Software\\Classes\\Directory\\shell\\BatchRename");
    assert_eq!(set(&ops[33]), tuple("HKCU", "Software\\Classes\\*\\shell\\OpenAgent", "", "在此處開啟 Agent (YOLO)"));
    assert_eq!(
        set(&ops[41]),
        tuple(
            "HKCU",
            "Software\\Classes\\Directory\\Background\\shell\\OpenAgent\\command",
            "",
            "\"C:\\ProgramData\\CopyPathTool\\CopyPathTool.exe\" --agent \"%V\""
        )
    );
}

#[test]
fn admin_install_writes_machine_root() {
    let ops = install_plan_ops("x.exe", all(true), true, &assistant());
    assert!(ops.iter().all(|op| set(op).0 == "HKLM"));
}

#[test]
fn disabled_entries_are_deleted() {
    let f = Features { copy_path: true, open_cmd: false, open_powershell: false, batch_rename: false, open_assistant: false };
    let ops = install_plan_ops("x.exe", f, false, &assistant());
    assert_eq!(ops.len(), 9 + 3 + 3 + 2 + 3);
    assert_eq!(del(&ops[9]), ("HKCU".to_string(), "Software\\Classes\\*\\shell\\OpenCMD".to_string()));
    assert_eq!(del(&ops[16]), ("HKCU".to_string(), "Software\\Classes\\Directory\\shell\\BatchRename".to_string()));
    assert_eq!(del(&ops[19]), ("HKCU".to_string(), "Software\\Classes\\Directory\\Background\\shell\\OpenAgent".to_string()));
}

#[test]
fn uninstall_deletes_all_keys_under_both_roots() {
    let ops = uninstall_plan_ops(&assistant());
    assert_eq!(ops.len(), 30);
    assert_eq!(del(&ops[0]), ("HKCU".to_string(), "Software\\Classes\\*\\shell\\CopyPath".to_string()));
    assert_eq!(del(&ops[1]), ("HKLM".to_string(), "Software\\Classes\\*\\shell\\CopyPath".to_string()));
    assert_eq!(del(&ops[29]), ("HKLM".to_string(), "Software\\Classes\\Directory\\Background\\shell\\OpenAgent".to_string()));
    assert_eq!(del(&ops[26]).1, "Software\\Classes\\Directory\\Background\\shell\\BatchRename");
}

#[test]
fn uninstall_covers_every_install_write() {
    let keys: Vec<(String, String)> = uninstall_plan_ops(&assistant()).iter().map(del).collect();
    for admin in [false, true] {
        for op in install_plan_ops("p.exe", all(true), admin, &assistant()).iter() {
            let (root, key, _, _) = set(op);
            let base = key.strip_suffix("\\command").unwrap_or(&key).to_string();
            assert!(keys.contains(&(root, base)));
        }
    }
}

#[test]
fn reg_exe_arguments() {
    let op = RegistryOp::SetValue {
        root: "HKCU".to_string(),
        key: "Software\\Classes\\*\\shell\\CopyPath".to_string(),
        name: "".to_string(),
        value: "複製路徑".to_string(),
    };
    assert_eq!(
        reg_command_args(&op),
        vec!["add", "HKCU\\Software\\Classes\\*\\shell\\CopyPath", "/ve", "/t", "REG_SZ", "/d", "複製路徑", "/f"]
    );
    let op = RegistryOp::SetValue {
        root: "HKLM".to_string(),
        key: "K".to_string(),
        name: "Icon".to_string(),
        value: "cmd.exe".to_string(),
    };
    assert_eq!(reg_command_args(&op), vec!["add", "HKLM\\K", "/v", "Icon", "/t", "REG_SZ", "/d", "cmd.exe", "/f"]);
    let op = RegistryOp::DeleteKey { root: "HKCU".to_string(), key: "K\\L".to_string() };
    assert_eq!(reg_command_args(&op), vec!["delete", "HKCU\\K\\L", "/f"]);
    assert_eq!(reg_query_args("HKLM", "Software\\X"), vec!["query", "HKLM\\Software\\X"]);
}

#[test]
fn failed_write_stops_installation() {
    let op = RegistryOp::SetValue {
        root: "HKCU".to_string(),
        key: "Software\\Classes\\*\\shell\\CopyPath".to_string(),
        name: "Icon".to_string(),
        value: "v".to_string(),
    };
    assert_eq!(after_change(&op, true), None);
    assert_eq!(
        after_change(&op, false),
        Some("無法寫入登錄值: Software\\Classes\\*\\shell\\CopyPath\\Icon，請確認是否有權限或被防毒軟體阻擋。".to_string())
    );
    let op = RegistryOp::DeleteKey { root: "HKCU".to_string(), key: "K".to_string() };
    assert_eq!(after_change(&op, false), None);
}

#[test]
fn roots() {
    assert_eq!(registry_root(true), "HKLM");
    assert_eq!(registry_root(false), "HKCU");
    assert_eq!(query_root_list(true), vec!["HKLM", "HKCU"]);
    assert_eq!(query_root_list(false), vec!["HKCU"]);
}

#[test]
fn probe_keys() {
    let a = assistant();
    assert_eq!(probe_key(MenuItem::CopyPath, &a), "Software\\Classes\\*\\shell\\CopyPath");
    assert_eq!(probe_key(MenuItem::OpenCmd, &a), "Software\\Classes\\Directory\\shell\\OpenCMD");
    assert_eq!(probe_key(MenuItem::OpenPowerShell, &a), "Software\\Classes\\Directory\\shell\\OpenPS");
    assert_eq!(probe_key(MenuItem::BatchRename, &a), "Software\\Classes\\*\\shell\\BatchRename");
    assert_eq!(probe_key(MenuItem::OpenAssistant, &a), "Software\\Classes\\Directory\\shell\\OpenAgent");
}

#[test]
fn admin_probe_commands() {
    assert_eq!(
        admin_probe_add_args(),
        vec!["add", "HKLM\\Software\\CopyPathTool_CheckAdmin", "/v", "Test", "/t", "REG_SZ", "/d", "1", "/f"]
    );
    assert_eq!(admin_probe_delete_args(), vec!["delete", "HKLM\\Software\\CopyPathTool_CheckAdmin", "/f"]);
}

#[test]
fn feature_flags_round_trip() {
    for w in 0usize..32 {
        let f = unpack_features(w);
        assert_eq!(pack_features(f), w);
        assert_eq!(unpack_features(pack_features(f)), f);
    }
    assert_eq!(pack_features(all(true)), 31);
    assert_eq!(pack_features(all(false)), 0);
    let f = Features { copy_path: true, open_cmd: false, open_powershell: true, batch_rename: false, open_assistant: true };
    assert_eq!(pack_features(f), 1 | 4 | 16);
    assert_eq!(pack_features(unpack_features(0xFFE5)), 0xFFE5 & 31);
}

#[test]
fn install_locations() {
    assert_eq!(install_dir_path("C:\\ProgramData"), "C:\\ProgramData\\CopyPathTool");
    assert_eq!(installed_exe_path("C:\\ProgramData"), "C:\\ProgramData\\CopyPathTool\\CopyPathTool.exe");
    assert_eq!(installed_exe_path("C:\\ProgramData\\"), "C:\\ProgramData\\CopyPathTool\\CopyPathTool.exe");
    assert_eq!(
        self_delete_command_line("C:\\P\\CopyPathTool\\CopyPathTool.exe", "C:\\P\\CopyPathTool"),
        "ping 127.0.0.1 -n 2 > nul && del /f /q \"C:\\P\\CopyPathTool\\CopyPathTool.exe\" && rmdir \"C:\\P\\CopyPathTool\""
    );
}
