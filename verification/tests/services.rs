use dshplusplus_desktop::cli::effective_dsh_cli;
use dshplusplus_desktop::config::StoredConfig;
use dshplusplus_desktop::extension::{browser_executable_candidates, browser_user_data_subdir};
use dshplusplus_desktop::profile::plugin_packages;
use dshplusplus_desktop::service::dsh_window_error;
use dshplusplus_desktop::extension::{
    install_action, native_host_cmd, register_native_host, unregister_chrome_native_host, ExtensionInstallState,
    InstallAction,
};
use dshplusplus_desktop::mca::{
    deepseek_route_view, key_providers, local_endpoint, mca_route_outcome, mca_route_settings, LayerRecord,
    ProviderRecord, RouteRecord, BROWSER_PORT,
};
use dshplusplus_desktop::profile::{cordis_patch_text, plus_provider_text, vision_provider_text};
use dshplusplus_desktop::proxy::system_proxy_wanted;
use dshplusplus_desktop::service::{
    dsh_navigation_allowed, needs_port_probe, refresh_service, start_plan, timeout_marks_error, ChildPoll, ServiceState, StartPlan,
};
use dshplusplus_desktop::session::{rpc_id, rpc_url, session_migration, SessionModel};
use dshplusplus_desktop::shim::{dsh_shim_content, shim_launcher};
use dshplusplus_desktop::update::{
    apply_summary, applied_entry, manifest_app_with_legacy, plugin_needs_update, plugin_tarball_url,
    remote_update_url, update_check_result, ComponentUpdate, ManifestArtifact, ManifestFetch, ManifestPlugins,
    UpdateManifest,
};

fn s(v: &str) -> String {
    v.to_string()
}

fn component(name: &str, current: Option<&str>, latest: Option<&str>, available: bool, note: &str) -> ComponentUpdate {
    ComponentUpdate {
        name: s(name),
        current: current.map(s),
        latest: latest.map(s),
        available,
        note: s(note),
    }
}

#[test]
fn update_check_with_every_component_newer() {
    let manifest = UpdateManifest {
        app: Some(ManifestArtifact { version: s("0.1.1"), url: s("https://example.com/app.exe") }),
        plugins: Some(ManifestPlugins {
            url_prefix: s("https://example.com/dl/"),
            packages: vec![(s("multimodal"), s("0.1.0-dev.2"))],
        }),
        mca: Some(ManifestArtifact { version: s("1.0.0"), url: s("https://example.com/mca-runtime.exe") }),
    };
    let r = update_check_result(
        "0.1.0",
        &ManifestFetch::Loaded(manifest),
        &Ok(()),
        false,
        &vec![(s("multimodal"), s("0.1.0-dev.1"))],
        &Some(s("1.2.0")),
        &Some(s("1.3.0")),
    );
    assert_eq!(
        r.components,
        vec![
            component("app", Some("0.1.0"), Some("0.1.1"), true, "已下载到 DSHPlusPlus.update.exe；退出后运行“更新到新版.cmd”即可生效"),
            component("multimodal", Some("0.1.0-dev.1"), Some("0.1.0-dev.2"), true, "点击「更新插件与 MCA」下载，重启 DSH 后生效"),
            component("mca", None, Some("1.0.0"), true, "点击「更新插件与 MCA」下载替换，重启后生效"),
            component("dsh", Some("1.2.0"), Some("1.3.0"), true, "上游有新版 1.3.0：npm install -g @deepseek-ai/dsh@latest"),
        ]
    );
    assert!(r.available);
    assert_eq!(r.version, Some(s("0.1.1")));
    assert_eq!(r.message, "发现新版本 0.1.1（已下载），请退出后运行“更新到新版.cmd”。");
}

#[test]
fn update_check_with_only_a_staged_file() {
    let r = update_check_result("0.1.0", &ManifestFetch::NotConfigured, &Ok(()), true, &Vec::new(), &None, &None);
    assert_eq!(
        r.components,
        vec![
            component("dsh", None, None, false, "未安装 DSH（或无法读取版本）"),
            component("app", Some("0.1.0"), None, true, "发现本地暂存的新版本（DSHPlusPlus.update.exe）。请退出后运行“更新到新版.cmd”。"),
        ]
    );
    assert!(r.available);
    assert_eq!(r.version, None);
    assert_eq!(r.message, "发现新版本 DSH++（已下载），请退出后运行“更新到新版.cmd”。");
}

#[test]
fn update_check_when_the_manifest_fails() {
    let r = update_check_result("0.1.0", &ManifestFetch::Failed(s("boom")), &Ok(()), false, &Vec::new(), &Some(s("1")), &None);
    assert_eq!(
        r.components,
        vec![
            component("app", Some("0.1.0"), None, false, "清单获取失败：boom"),
            component("dsh", Some("1"), None, false, "本地 1；npm registry 查询失败（网络？）"),
        ]
    );
    assert!(!r.available);
    assert_eq!(r.message, "当前已是最新版本（0.1.0）。未发现待安装更新。");
}

#[test]
fn update_check_when_up_to_date() {
    let manifest = UpdateManifest {
        app: Some(ManifestArtifact { version: s("0.1.0"), url: s("https://example.com/app.exe") }),
        plugins: None,
        mca: Some(ManifestArtifact { version: s("1.0.0"), url: String::new() }),
    };
    let r = update_check_result("0.1.0", &ManifestFetch::Loaded(manifest.clone()), &Ok(()), false, &Vec::new(), &Some(s("2")), &Some(s("2")));
    assert_eq!(
        r.components,
        vec![
            component("app", Some("0.1.0"), Some("0.1.0"), false, "已是最新版本"),
            component("mca", None, Some("1.0.0"), false, "点击「更新插件与 MCA」下载替换，重启后生效"),
            component("dsh", Some("2"), Some("2"), false, "已是最新版本"),
        ]
    );
    assert_eq!(r.message, "DSH++ 已是最新（0.1.0）。");
    let staged = update_check_result("0.1.0", &ManifestFetch::Loaded(manifest), &Ok(()), true, &Vec::new(), &None, &None);
    assert_eq!(staged.components[0].note, "与清单一致；发现本地暂存的更新文件，退出后运行“更新到新版.cmd”");
}

#[test]
fn failed_download_is_reported_on_the_app() {
    let manifest = UpdateManifest {
        app: Some(ManifestArtifact { version: s("0.2.0"), url: s("https://example.com/app.exe") }),
        plugins: None,
        mca: None,
    };
    let r = update_check_result("0.1.0", &ManifestFetch::Loaded(manifest), &Err(s("下载失败")), false, &Vec::new(), &None, &None);
    assert_eq!(r.components[0], component("app", Some("0.1.0"), Some("0.2.0"), false, "下载失败"));
    assert!(!r.available);
}

#[test]
fn legacy_manifest_top_level_fields_become_the_app() {
    let app = manifest_app_with_legacy(None, Some(s("0.1.0-dev.3")), Some(s("https://example.com/app.exe")));
    assert_eq!(app, Some(ManifestArtifact { version: s("0.1.0-dev.3"), url: s("https://example.com/app.exe") }));
    assert_eq!(manifest_app_with_legacy(None, None, Some(String::new())), None);
    let kept = ManifestArtifact { version: s("1"), url: s("u") };
    assert_eq!(manifest_app_with_legacy(Some(kept.clone()), Some(s("2")), None), Some(kept));
}

#[test]
fn plugin_update_plan() {
    let local = vec![(s("multimodal"), s("0.1.0"))];
    assert!(!plugin_needs_update(&local, &s("multimodal"), &s("0.1.0")));
    assert!(plugin_needs_update(&local, &s("multimodal"), &s("0.2.0")));
    assert!(plugin_needs_update(&local, &s("bundle-plus"), &s("0.1.0")));
    assert_eq!(
        plugin_tarball_url("https://example.com/dl/", "multimodal", "0.1.0-dev.2"),
        "https://example.com/dl/dshplusplus-multimodal-0.1.0-dev.2.tgz"
    );
    assert_eq!(
        plugin_tarball_url("https://example.com/dl/", "@dshplusplus/multimodal", "0.2.0"),
        "https://example.com/dl/dshplusplus-multimodal-0.2.0.tgz"
    );
    assert_eq!(remote_update_url("  https://u/m.json \n"), Some(s("https://u/m.json")));
    assert_eq!(remote_update_url("   "), None);
    assert_eq!(apply_summary(&Vec::new()), "插件与 MCA 均已是最新版本");
    let applied = vec![applied_entry("multimodal", "0.2.0"), applied_entry("mca", "1.0.0")];
    assert_eq!(
        apply_summary(&applied),
        "已更新：multimodal → 0.2.0，mca → 1.0.0。重启 DSH 后插件生效；MCA 会在下次启动时自动使用新版本。"
    );
}

#[test]
fn profile_patch_names_the_services_and_disables_unconfigured_vision() {
    let config = StoredConfig::defaults(String::new());
    let patch = cordis_patch_text(&config, "/home/a/dshplusplus/observations");
    assert!(patch.starts_with("- insert:\n    - id: dshplusplus-mca\n"));
    assert!(patch.contains("url: http://127.0.0.1:18767/mcp/deepseek-tui\n"));
    assert!(patch.contains("url: http://127.0.0.1:18766/mcp\n"));
    assert!(patch.contains("storeRoot: '/home/a/dshplusplus/observations'\n"));
    assert!(patch.contains("- id: dshplusplus-multimodal-llm\n  disabled: true\n"));
    assert!(patch.contains("- id: dshplusplus-multimodal-router\n  disabled: true\n"));
    let mut off = config.clone();
    off.enable_mca = false;
    off.enable_browser = false;
    off.vision_base_url = s("https://v");
    off.vision_model = s("m");
    let patch = cordis_patch_text(&off, "o");
    assert!(patch.starts_with("- id: dshplusplus-multimodal\n  config:\n    storeRoot: 'o'\n\n"));
    assert!(patch.contains("  disabled: false\n"));
    assert!(!patch.contains("dshplusplus-mca"));
}

#[test]
fn vision_provider_fragment() {
    let mut config = StoredConfig::defaults(String::new());
    config.vision_base_url = s("https://vision.example.com/v1");
    config.vision_model = s("qwen-vl");
    assert_eq!(
        vision_provider_text(&config),
        "\nllm-pi-ai:\n  providers:\n    vision-gateway:\n      displayName: DSH++ Vision\n      apiKeyEnv: DSHPLUSPLUS_VISION_API_KEY\n      api: 'openai-completions'\n      baseURL: 'https://vision.example.com/v1'\n      defaultInput: [text, image]\n      models:\n        - id: 'qwen-vl'\n          name: 'qwen-vl'\n          input: [text, image]\n"
    );
}

#[test]
fn plus_provider_fragment_indents_the_models() {
    let text = plus_provider_text("DEEPSEEK_API_KEY", "https://api.deepseek.com", "- id: deepseek-v4-flash\r\n  name: DeepSeek-V4-Flash\n");
    assert_eq!(
        text,
        "llm-pi-ai:\n  providers:\n    deepseek-plus:\n      displayName: DeepSeek · DSH++ 图片适配\n      apiKeyEnv: 'DEEPSEEK_API_KEY'\n      api: openai-completions\n      baseURL: 'https://api.deepseek.com'\n      defaultInput: [text, image]\n      models:\n      - id: deepseek-v4-flash\n        name: DeepSeek-V4-Flash\n"
    );
}

#[test]
fn service_refresh_transitions() {
    let r = refresh_service(ServiceState::Starting, s("m"), ChildPoll::Alive, true, "127.0.0.1", 18760);
    assert_eq!(r, (ServiceState::Running, s("正在监听 127.0.0.1:18760"), false));
    let r = refresh_service(ServiceState::Starting, s("m"), ChildPoll::Alive, false, "127.0.0.1", 18760);
    assert_eq!(r, (ServiceState::Starting, s("进程已创建，等待服务就绪"), false));
    let r = refresh_service(ServiceState::Error, s("m"), ChildPoll::Alive, false, "h", 1);
    assert_eq!(r, (ServiceState::Error, s("m"), false));
    let r = refresh_service(ServiceState::Running, s("m"), ChildPoll::Exited(s("exit code: 1")), false, "h", 1);
    assert_eq!(r, (ServiceState::Error, s("进程已退出（exit code: 1）"), true));
    let r = refresh_service(ServiceState::Running, s("m"), ChildPoll::Exited(s("exit code: 0")), true, "h", 1);
    assert_eq!(r, (ServiceState::Running, s("已连接到正在监听的服务（启动进程退出：exit code: 0）"), true));
    let r = refresh_service(ServiceState::Running, s("m"), ChildPoll::NoChild, false, "h", 1);
    assert_eq!(r, (ServiceState::Stopped, s("服务连接已断开"), false));
    let r = refresh_service(ServiceState::Running, s("ok"), ChildPoll::NoChild, true, "h", 1);
    assert_eq!(r, (ServiceState::Running, s("ok"), false));
    let r = refresh_service(ServiceState::Starting, s("m"), ChildPoll::Failed(s("e")), false, "h", 1);
    assert_eq!(r, (ServiceState::Error, s("e"), false));
    assert!(!needs_port_probe(&ChildPoll::NoChild, ServiceState::Stopped));
    assert!(needs_port_probe(&ChildPoll::NoChild, ServiceState::Running));
    assert!(!needs_port_probe(&ChildPoll::Failed(s("e")), ServiceState::Running));
}

#[test]
fn route_settings_and_outcomes() {
    let mut config = StoredConfig::defaults(String::new());
    let settings = mca_route_settings(&config);
    assert_eq!(settings.mode, "assist");
    assert_eq!(settings.capabilities.len(), 7);
    assert!(settings.allow_external);
    assert_eq!(settings.model_name, "deepseek-chat");
    assert!(!settings.capability_release_enabled);
    assert_eq!((settings.model_provider, settings.model_family), ("deepseek", "deepseek"));
    assert_eq!(settings.computer_allowed_risk, "low");
    assert!(settings.computer_require_confirmation);
    assert_eq!(settings.computer_access_mode, "ask");
    config.enable_mca = false;
    let settings = mca_route_settings(&config);
    assert_eq!(settings.mode, "off");
    assert!(settings.capabilities.is_empty());
    assert!(!settings.allow_external);

    assert_eq!(mca_route_outcome(&None, false, true, 7), (true, s("7 项 MCA 能力已就绪"), false));
    assert_eq!(mca_route_outcome(&None, true, false, 0), (true, s("MCA 能力路由已关闭"), false));
    assert_eq!(mca_route_outcome(&Some(s("x")), false, true, 7), (true, s("MCA 已启动，能力下发失败：x"), false));
    assert_eq!(
        mca_route_outcome(&Some(s("x")), true, true, 7),
        (false, s("端口 18767 不是可用的 MCA 服务，或能力配置不受支持：x"), true)
    );
    assert_eq!(local_endpoint(BROWSER_PORT, "/api/health"), "http://127.0.0.1:18766/api/health");
}

#[test]
fn provider_health_keeps_the_key_providers() {
    let records = vec![
        ProviderRecord { provider_id: Some(s("wheel.pyautogui-desktop")), enabled: Some(true), available: None, detail: Some(s("ok")) },
        ProviderRecord { provider_id: Some(s("something.else")), enabled: Some(true), available: Some(true), detail: None },
        ProviderRecord { provider_id: Some(s("builtin.html")), enabled: None, available: Some(true), detail: None },
    ];
    let views = key_providers(&records);
    assert_eq!(views.len(), 2);
    assert_eq!(views[0].provider_id, "wheel.pyautogui-desktop");
    assert!(views[0].enabled && !views[0].available);
    assert_eq!(views[0].detail, "ok");
    assert_eq!(views[1].provider_id, "builtin.html");
    assert!(!views[1].enabled && views[1].available && views[1].detail.is_empty());
}

#[test]
fn route_view_of_the_deepseek_agent() {
    let other = RouteRecord {
        agent_id: Some(s("codex")),
        route_available: Some(true),
        capabilities: None,
        available_capabilities: None,
        computer_provider_enabled: None,
        health_overall: None,
        health_layers: None,
    };
    assert_eq!(deepseek_route_view(&vec![other.clone()]), None);
    let mine = RouteRecord {
        agent_id: Some(s("deepseek-tui")),
        route_available: Some(true),
        capabilities: Some(vec![s("image")]),
        available_capabilities: None,
        computer_provider_enabled: Some(false),
        health_overall: None,
        health_layers: Some(vec![
            LayerRecord { blocking: Some(false), detail: Some(s("first")) },
            LayerRecord { blocking: Some(true), detail: Some(s("未检测到 Agent 命令")) },
        ]),
    };
    let view = deepseek_route_view(&vec![other, mine]).unwrap();
    assert_eq!(view.agent_id, "deepseek-tui");
    assert!(view.route_available && !view.computer_provider_enabled);
    assert_eq!(view.capabilities, vec![s("image")]);
    assert!(view.available_capabilities.is_empty());
    assert_eq!(view.health, "unknown");
    assert_eq!(view.health_detail, "未检测到 Agent 命令");
}

#[test]
fn sessions_move_to_the_image_capable_provider() {
    let moved = session_migration(&SessionModel {
        provider: Some(s("deepseek-official")),
        model: Some(s("deepseek-v4-pro")),
        reasoning_effort: Some(s("max")),
    })
    .unwrap();
    assert_eq!(moved.provider, "deepseek-plus");
    assert_eq!(moved.model, "deepseek-v4-pro");
    assert_eq!(moved.reasoning_effort, Some(s("max")));
    assert!(session_migration(&SessionModel { provider: Some(s("deepseek-plus")), model: Some(s("m")), reasoning_effort: None }).is_none());
    assert!(session_migration(&SessionModel { provider: Some(s("deepseek")), model: None, reasoning_effort: None }).is_none());
    assert_eq!(rpc_id(42, "123"), "dshplusplus-42-123");
    assert_eq!(rpc_url("127.0.0.1", 18760, "session.list"), "http://127.0.0.1:18760/api/session.list");
}

#[test]
fn shims_start_the_cli() {
    assert_eq!(shim_launcher(Some("C:\\node.exe"), "E:\\DSH\\bin.js", true), Some(s("\"C:\\node.exe\" \"E:\\DSH\\bin.js\"")));
    assert_eq!(shim_launcher(None, "E:\\DSH\\bin.js", true), None);
    assert_eq!(shim_launcher(None, "E:\\DSH\\dsh.cmd", false), Some(s("\"E:\\DSH\\dsh.cmd\"")));
    assert_eq!(dsh_shim_content("\"dsh.exe\""), "@echo off\r\n\"dsh.exe\" %*\r\n");
}

#[test]
fn install_actions_and_native_host_cleanup() {
    assert_eq!(install_action(ExtensionInstallState::Installed, true), InstallAction::Connect);
    let commands = unregister_chrome_native_host();
    assert_eq!(commands.len(), 2);
    assert_eq!(
        commands[0],
        vec!["delete", r"HKCU\Software\Google\Chrome\NativeMessagingHosts\com.dshplusplus.browser", "/f"]
    );
    assert_eq!(
        commands[1],
        vec!["delete", r"HKCU\Software\Microsoft\Edge\NativeMessagingHosts\com.dshplusplus.browser", "/f"]
    );
}

#[test]
fn native_host_wrapper_and_registration() {
    assert_eq!(
        native_host_cmd("C:\\node\\node.exe", "D:\\data\\native-host.mjs"),
        "@echo off\r\nset DSHPLUSPLUS_GATEWAY=http://127.0.0.1:18766\r\n\"C:\\node\\node.exe\" \"D:\\data\\native-host.mjs\" %*\r\n"
    );
    let commands = register_native_host("D:\\data\\host.json");
    assert_eq!(
        commands[0],
        vec!["add", r"HKCU\Software\Google\Chrome\NativeMessagingHosts\com.dshplusplus.browser", "/ve", "/d", "D:\\data\\host.json", "/f"]
    );
    assert_eq!(commands[1][1], r"HKCU\Software\Microsoft\Edge\NativeMessagingHosts\com.dshplusplus.browser");
    assert_eq!(commands.len(), 2);
}

#[test]
fn browser_locations() {
    assert_eq!(
        browser_executable_candidates("edge"),
        vec![
            ("ProgramFiles(x86)", r"Microsoft\Edge\Application\msedge.exe"),
            ("ProgramFiles", r"Microsoft\Edge\Application\msedge.exe"),
        ]
    );
    assert_eq!(
        browser_executable_candidates("chrome"),
        vec![
            ("ProgramFiles", r"Google\Chrome\Application\chrome.exe"),
            ("ProgramFiles(x86)", r"Google\Chrome\Application\chrome.exe"),
            ("LOCALAPPDATA", r"Google\Chrome\Application\chrome.exe"),
        ]
    );
    assert_eq!(browser_user_data_subdir("edge"), r"Microsoft\Edge\User Data");
    assert_eq!(browser_user_data_subdir("firefox"), r"Google\Chrome\User Data");
}

#[test]
fn configured_cli_wins_when_found() {
    let found = Some(s("D:\\dsh\\bin.js"));
    let discovered = Some(s("C:\\npm\\dsh.cmd"));
    assert_eq!(effective_dsh_cli(" D:\\dsh ", found.clone(), discovered.clone()), found);
    assert_eq!(effective_dsh_cli("D:\\gone", None, discovered.clone()), discovered);
    assert_eq!(effective_dsh_cli("   ", found, discovered.clone()), discovered);
}

#[test]
fn window_messages_and_packages() {
    assert_eq!(dsh_window_error(ServiceState::Starting), "DSH 正在启动，请稍候再打开");
    assert_eq!(dsh_window_error(ServiceState::Error), "DSH 未运行，请先点击“启动 DSH”");
    assert_eq!(plugin_packages(), vec!["multimodal", "multimodal-llm", "multimodal-router", "tool-media-inspect", "bundle-plus"]);
}

#[test]
fn status_texts() {
    assert_eq!(
        dshplusplus_desktop::extension::chrome_use_status(&Ok(())),
        "chromeUse：扩展已就绪，打开 Chrome 后自动连接"
    );
    assert_eq!(
        dshplusplus_desktop::extension::chrome_use_status(&Err(s("x"))),
        "chromeUse 扩展准备失败：x"
    );
    assert_eq!(
        dshplusplus_desktop::service::logs_report("a", "b"),
        "=== DSH ===\na\n\n=== MCA ===\nb"
    );
}


#[test]
fn start_follows_what_holds_the_port() {
    assert_eq!(start_plan(false, false), StartPlan::Launch);
    assert_eq!(start_plan(true, true), StartPlan::Reuse);
    assert_eq!(start_plan(true, false), StartPlan::PortTaken);
    assert!(timeout_marks_error(true, ServiceState::Error));
    assert!(timeout_marks_error(false, ServiceState::Starting));
    assert!(!timeout_marks_error(false, ServiceState::Error));
    assert!(system_proxy_wanted(false, false));
    assert!(!system_proxy_wanted(true, false));
    assert!(!system_proxy_wanted(false, true));
}

#[test]
fn dsh_window_stays_on_the_local_machine() {
    assert!(dsh_navigation_allowed("http", Some("127.0.0.1")));
    assert!(dsh_navigation_allowed("https", Some("localhost")));
    assert!(!dsh_navigation_allowed("https", Some("example.com")));
    assert!(!dsh_navigation_allowed("file", Some("localhost")));
    assert!(!dsh_navigation_allowed("http", None));
}
