use dshplusplus_desktop::cli::{
    dsh_cli_relative_paths, checkout_names, is_executable_cli_file, resolve_dsh_cli_candidate, CliChoice,
    PathKind,
};
use dshplusplus_desktop::config::StoredConfig;
use dshplusplus_desktop::extension::{
    classify_extension_record, merge_profile_states, ExtensionInstallState, ExtensionRecord, ManifestKeys,
    ProfileObservation,
};
use dshplusplus_desktop::mca::{mca_serve_args, MCA_PORT};
use dshplusplus_desktop::paths::find_dsh_near_paths;
use dshplusplus_desktop::shim::agent_shim_content;
use dshplusplus_desktop::workspace::{merge_workspaces, workspace_ids_to_append, WorkspaceEntry};

#[test]
fn agent_shim_content_contains_profile_injection_and_mcp_emulation() {
    let content = agent_shim_content(r#""C:\node.exe" "E:\DSH\bin.js""#);
    assert!(content.contains(r#""C:\node.exe" "E:\DSH\bin.js""#), "launcher 原样嵌入");
    assert!(content.contains("--profile dshplusplus"), "无 profile 时注入默认 profile");
    assert!(content.contains("if \"%1\"==\"mcp\""), "拦截 mcp 子命令");
    assert!(content.contains("mca-control-center"), "mcp list 读取注册标记");
    assert!(content.contains("No MCP servers configured."), "无注册时的 list 输出");
}

#[test]
fn mca_serve_args_use_dedicated_port_and_self_agent_base_url() {
    assert_eq!(MCA_PORT, 18767, "MCA 端口必须是 DSH++ 专属端口");
    let args = mca_serve_args(MCA_PORT);
    let flag = |name: &str| {
        args.iter()
            .position(|arg| arg == name)
            .unwrap_or_else(|| panic!("serve 参数缺少 {name}"))
            + 1
    };
    assert_eq!(args[0], "serve");
    assert_eq!(args[flag("--port")], "18767");
    assert_eq!(
        args[flag("--agent-base-url")],
        "http://127.0.0.1:18767",
        "健康探测必须指向自己，而非外部 MCA 的 8766"
    );
}

#[test]
fn computer_capabilities_default_on() {
    let config = StoredConfig::defaults(String::new());
    assert!(config.mca_computer_observe, "观察电脑应默认开启");
    assert!(config.mca_computer_act, "操作电脑应默认开启");
}

#[test]
fn load_config_forces_computer_capabilities_on() {
    // {"dshPort":18760,"mcaComputerObserve":false,"mcaComputerAct":false}, the
    // missing fields taken from the defaults.
    let mut saved = StoredConfig::defaults(String::new());
    saved.dsh_port = 18760;
    saved.mca_computer_observe = false;
    saved.mca_computer_act = false;
    let config = saved.after_load();
    assert!(config.mca_computer_observe, "加载后观察电脑应被强制开启");
    assert!(config.mca_computer_act, "加载后操作电脑应被强制开启");
}

fn entry(id: &str, path: &str) -> WorkspaceEntry {
    WorkspaceEntry { id: id.to_string(), path: Some(path.to_string()) }
}

#[test]
fn merge_workspace_registry_adds_missing_records_by_path() {
    let legacy = vec![
        entry("bb729f88-f841-48dd-a74e-8a8de3430ac4", "D:\\SampleProject"),
        entry("89b555cb-33e4-4342-8f11-c6ab1ea639c3", "E:\\SampleProject"),
    ];
    let target = vec![entry("02b0fd35-b0f2-429e-b996-8f5bef696fc8", "D:\\SampleProject")];
    let inserted = merge_workspaces(&legacy, &target);
    let mut merged = target.clone();
    merged.extend(inserted.iter().cloned());
    assert_eq!(merged.len(), 2, "应合并缺失的 workspace 记录");
    assert!(merged.iter().any(|e| e.id == "89b555cb-33e4-4342-8f11-c6ab1ea639c3"));
    assert!(merged.iter().any(|e| e.id == "02b0fd35-b0f2-429e-b996-8f5bef696fc8"));
    let existing = vec![Some("02b0fd35-b0f2-429e-b996-8f5bef696fc8".to_string())];
    let appended = workspace_ids_to_append(&existing, &inserted);
    let mut ids: Vec<String> = existing.iter().flatten().cloned().collect();
    ids.extend(appended);
    assert_eq!(ids.len(), 2);
    assert_eq!(ids[0], "02b0fd35-b0f2-429e-b996-8f5bef696fc8", "原有顺序保持在前");
    assert_eq!(ids[1], "89b555cb-33e4-4342-8f11-c6ab1ea639c3");

    let again = merge_workspaces(&legacy, &merged);
    assert!(again.is_empty(), "重复合并必须无副作用");
    let id_list: Vec<Option<String>> = ids.iter().cloned().map(Some).collect();
    assert!(workspace_ids_to_append(&id_list, &again).is_empty(), "重复合并必须无副作用");
}

fn keys(version: &str, key: &str) -> ManifestKeys {
    ManifestKeys { version: Some(format!("\"{version}\"")), key: Some(format!("\"{key}\"")) }
}

fn record(state: i64, path: &str) -> ExtensionRecord {
    ExtensionRecord { state: Some(state), has_disable_reasons: false, path: Some(path.to_string()) }
}

#[test]
fn extension_status_classifies_four_states() {
    let expected = Some(keys("0.1.0", "KEY"));
    // No record in any profile.
    let (status, profile, path) = merge_profile_states(&Vec::new());
    assert_eq!(status, ExtensionInstallState::NotInstalled);
    assert!(profile.is_none() && path.is_none());

    // The record points at the current extension directory.
    let ext = "C:\\data\\browser-extension";
    let state = classify_extension_record(&record(1, ext), &Some(keys("0.1.0", "KEY")), &expected);
    let (status, profile, path) = merge_profile_states(&vec![ProfileObservation {
        state,
        profile: "Default".to_string(),
        path: Some(ext.to_string()),
    }]);
    assert_eq!(status, ExtensionInstallState::Installed);
    assert_eq!(profile.as_deref(), Some("Default"));
    assert_eq!(path.as_deref(), Some(ext));

    // The recorded directory is gone: no manifest can be read there.
    let state = classify_extension_record(&record(1, "C:\\data\\gone"), &None, &expected);
    assert_eq!(state, ExtensionInstallState::Stale);

    // state 0: disabled.
    let state = classify_extension_record(&record(0, ext), &Some(keys("0.1.0", "KEY")), &expected);
    assert_eq!(state, ExtensionInstallState::Disabled);
}

#[test]
fn extension_status_marks_version_mismatch_stale() {
    let expected = Some(keys("0.2.0", "KEY"));
    let state = classify_extension_record(
        &record(1, "C:\\data\\old-extension"),
        &Some(keys("0.1.0", "KEY")),
        &expected,
    );
    assert_eq!(state, ExtensionInstallState::Stale, "版本不一致应判失效");
}

#[test]
fn extension_scan_merges_profiles_preferring_healthy_record() {
    let expected = Some(keys("0.1.0", "KEY"));
    let ext = "C:\\data\\browser-extension";
    let gone = classify_extension_record(&record(1, "C:\\data\\gone"), &None, &expected);
    let healthy = classify_extension_record(&record(1, ext), &Some(keys("0.1.0", "KEY")), &expected);
    let (status, profile, _) = merge_profile_states(&vec![
        ProfileObservation { state: gone, profile: "Default".to_string(), path: Some("C:\\data\\gone".to_string()) },
        ProfileObservation { state: healthy, profile: "Profile 1".to_string(), path: Some(ext.to_string()) },
    ]);
    assert_eq!(status, ExtensionInstallState::Installed);
    assert_eq!(profile.as_deref(), Some("Profile 1"), "应取健康记录所在 profile");
}

/// Which of the relative CLI locations exist below a directory.
fn present(files: &[&str]) -> Vec<bool> {
    dsh_cli_relative_paths().iter().map(|relative| files.contains(relative)).collect()
}

#[test]
fn resolves_dsh_cli_from_source_and_installed_directories() {
    // DeepseekHarness/apps/cli/lib/bin.js, seen from three levels.
    assert_eq!(
        resolve_dsh_cli_candidate(PathKind::Directory, false, &present(&["apps/cli/lib/bin.js"])),
        CliChoice::Candidate(0)
    );
    assert_eq!(
        resolve_dsh_cli_candidate(PathKind::Directory, false, &present(&["lib/bin.js"])),
        CliChoice::Candidate(1)
    );
    assert_eq!(
        resolve_dsh_cli_candidate(PathKind::Directory, false, &present(&["bin.js"])),
        CliChoice::Candidate(5)
    );
    // node_modules/@deepseek-ai/dsh/lib/bin.js from node_modules.
    assert_eq!(
        resolve_dsh_cli_candidate(PathKind::Directory, false, &present(&["@deepseek-ai/dsh/lib/bin.js"])),
        CliChoice::Candidate(2)
    );
    assert_eq!(resolve_dsh_cli_candidate(PathKind::Missing, false, &present(&[])), CliChoice::NotFound);
}

#[test]
fn finds_sibling_dsh_source_checkout_from_portable_stage() {
    // Ancestors of <tmp>/DSHPlusPlus/zip-stage; the CLI is in <tmp>/DeepseekHarness.
    let ancestors = vec![
        "/tmp/t/DSHPlusPlus/zip-stage".to_string(),
        "/tmp/t/DSHPlusPlus".to_string(),
        "/tmp/t".to_string(),
        "/tmp".to_string(),
        "/".to_string(),
    ];
    let plan = find_dsh_near_paths(&ancestors);
    let hit = plan.iter().position(|step| *step == (2, Some(0))).unwrap();
    assert_eq!(hit, 9);
    assert_eq!(checkout_names()[0], "DeepseekHarness");
}

#[test]
fn resolve_dsh_cli_candidate_rejects_windows_unlaunchable_files() {
    let sh_shim = is_executable_cli_file(None, true);
    assert_eq!(resolve_dsh_cli_candidate(PathKind::File, sh_shim, &Vec::new()), CliChoice::NotFound, "无扩展名 sh shim 应被拒绝");
    let ps1 = is_executable_cli_file(Some("ps1"), true);
    assert_eq!(resolve_dsh_cli_candidate(PathKind::File, ps1, &Vec::new()), CliChoice::NotFound, "dsh.ps1 应被拒绝");
    let cmd = is_executable_cli_file(Some("cmd"), true);
    assert_eq!(resolve_dsh_cli_candidate(PathKind::File, cmd, &Vec::new()), CliChoice::Input, "dsh.cmd 应被接受");
    let js = is_executable_cli_file(Some("js"), true);
    assert_eq!(resolve_dsh_cli_candidate(PathKind::File, js, &Vec::new()), CliChoice::Input, "bin.js 应被接受");
}

#[test]
fn resolve_dsh_cli_candidate_prefers_package_bin_in_npm_dir() {
    // An npm bin directory: dsh, dsh.cmd, dsh.ps1 and the package below node_modules.
    let flags = present(&["dsh.cmd", "node_modules/@deepseek-ai/dsh/lib/bin.js"]);
    let choice = resolve_dsh_cli_candidate(PathKind::Directory, false, &flags);
    let CliChoice::Candidate(index) = choice else { panic!("npm 目录应能解析出 CLI") };
    assert!(
        dsh_cli_relative_paths()[index].ends_with("node_modules/@deepseek-ai/dsh/lib/bin.js"),
        "应解析到包本体 bin.js，实际：{}",
        dsh_cli_relative_paths()[index]
    );
}
