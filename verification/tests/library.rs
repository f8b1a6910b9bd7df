use dshplusplus_desktop::config::{
    dsh_window_url, entered_key, mca_capabilities, validate_config, validate_url, ConfigInput, ConfigView,
    StoredConfig,
};
use dshplusplus_desktop::instance::{ensure_single_instance, window_title_matches, MutexOutcome};
use dshplusplus_desktop::paths::{
    config_path, default_dsh_home, effective_dsh_home, extension_source, find_project_root, path_string, path_string_wide,
    random_suffix,
};
use std::path::Path;
use dshplusplus_desktop::profile::yaml_quote;
use dshplusplus_desktop::proxy::system_proxy_vars;
use dshplusplus_desktop::runtime::{data_root_choice, explicit_dsh_home, first_available, is_portable};
use dshplusplus_desktop::secret::{protect_secret, unprotect_secret};
use dshplusplus_desktop::text::decimal_string;
use dshplusplus_desktop::wide::to_wide;

fn input() -> ConfigInput {
    let c = StoredConfig::defaults(String::new());
    ConfigInput {
        dsh_host: c.dsh_host,
        dsh_port: c.dsh_port,
        workspace: c.workspace,
        dsh_cli: c.dsh_cli,
        update_url: c.update_url,
        auto_start_dsh: c.auto_start_dsh,
        auto_open_dsh_window: c.auto_open_dsh_window,
        enable_mca: c.enable_mca,
        enable_browser: c.enable_browser,
        enable_chrome_use: c.enable_chrome_use,
        mca_image: c.mca_image,
        mca_video: c.mca_video,
        mca_audio: c.mca_audio,
        mca_document: c.mca_document,
        mca_web: c.mca_web,
        mca_computer_observe: c.mca_computer_observe,
        mca_computer_act: c.mca_computer_act,
        deepseek_base_url: c.deepseek_base_url,
        deepseek_model: c.deepseek_model,
        deepseek_api_key: None,
        vision_provider: c.vision_provider,
        vision_base_url: c.vision_base_url,
        vision_model: c.vision_model,
        vision_api: c.vision_api,
        vision_api_key: None,
        enable_multimodal: c.enable_multimodal,
    }
}

fn error_of(i: &ConfigInput, workspace_is_dir: bool, cli_found: bool) -> String {
    validate_config(i, workspace_is_dir, cli_found).unwrap_err()
}

#[test]
fn default_configuration_is_valid() {
    assert_eq!(validate_config(&input(), true, true), Ok(()));
}

#[test]
fn each_configuration_rule_has_its_message() {
    let mut i = input();
    i.dsh_host = "0.0.0.0".to_string();
    assert_eq!(error_of(&i, true, true), "DSH 监听地址只能是 127.0.0.1 或 localhost");

    let mut i = input();
    i.dsh_host = "localhost".to_string();
    i.dsh_port = 1023;
    assert_eq!(error_of(&i, true, true), "DSH 端口必须不小于 1024");

    let mut i = input();
    i.deepseek_model = String::new();
    assert_eq!(error_of(&i, true, true), "DeepSeek 模型不能为空");

    let mut i = input();
    i.mca_computer_observe = false;
    assert_eq!(error_of(&i, true, true), "启用“操作电脑”时必须同时启用“观察电脑”");

    let mut i = input();
    i.deepseek_base_url = "http://api.deepseek.com".to_string();
    assert_eq!(error_of(&i, true, true), "DeepSeek Base URL 必须使用 HTTPS；只有本机地址允许 HTTP");

    let mut i = input();
    i.vision_provider = "vision gateway".to_string();
    assert_eq!(error_of(&i, true, true), "多模态 Provider ID 只能包含字母、数字、连字符和下划线");

    let mut i = input();
    i.vision_base_url = "http://example.com".to_string();
    assert_eq!(error_of(&i, true, true), "多模态 Base URL 必须使用 HTTPS；只有本机地址允许 HTTP");

    let mut i = input();
    i.workspace = "D:\\missing".to_string();
    assert_eq!(error_of(&i, false, true), "默认工作目录不存在");

    let mut i = input();
    i.dsh_cli = "  D:\\nowhere  ".to_string();
    assert_eq!(
        error_of(&i, true, false),
        "所选位置中未找到 DSH CLI；请选择 DeepSeekHarness 仓库目录、安装目录或 bin.js/dsh.cmd/dsh.exe"
    );
}

#[test]
fn vision_rules_apply_only_with_multimodal_on() {
    let mut i = input();
    i.enable_multimodal = false;
    i.vision_provider = "bad id!".to_string();
    i.vision_base_url = "http://example.com".to_string();
    assert_eq!(validate_config(&i, true, true), Ok(()));
    // A blank CLI location needs no CLI.
    i.dsh_cli = "   ".to_string();
    assert_eq!(validate_config(&i, true, false), Ok(()));
}

#[test]
fn urls_must_be_https_or_local() {
    assert_eq!(validate_url("https://api.deepseek.com", "X", false), Ok(()));
    assert_eq!(validate_url("http://127.0.0.1:8080/v1", "X", false), Ok(()));
    assert_eq!(validate_url("http://localhost/v1", "X", false), Ok(()));
    assert_eq!(validate_url("", "X", true), Ok(()));
    assert_eq!(validate_url("", "X", false), Err("X 必须使用 HTTPS；只有本机地址允许 HTTP".to_string()));
    assert_eq!(validate_url("ftp://a", "Y", true), Err("Y 必须使用 HTTPS；只有本机地址允许 HTTP".to_string()));
}

#[test]
fn capabilities_follow_switches_in_fixed_order() {
    let mut c = StoredConfig::defaults(String::new());
    assert_eq!(
        mca_capabilities(&c),
        vec!["image", "video", "audio", "document", "web", "computer.observe", "computer.act"]
    );
    c.mca_video = false;
    c.mca_web = false;
    c.mca_computer_act = false;
    assert_eq!(mca_capabilities(&c), vec!["image", "audio", "document", "computer.observe"]);
}

#[test]
fn window_url_and_view_of_defaults() {
    let mut c = StoredConfig::defaults("D:\\work".to_string());
    assert_eq!(dsh_window_url(&c), "http://127.0.0.1:18760");
    c.deepseek_secret = Some("stored".to_string());
    let v = ConfigView::from(&c);
    assert!(v.has_deepseek_key);
    assert!(!v.has_vision_key);
    assert_eq!(v.workspace, "D:\\work");
}

#[test]
fn only_nonempty_keys_count_as_entered() {
    assert_eq!(entered_key(&Some("sk-1".to_string())), Some("sk-1".to_string()));
    assert_eq!(entered_key(&Some(String::new())), None);
    assert_eq!(entered_key(&None), None);
}

#[test]
fn stored_keys_read_back_unchanged() {
    assert_eq!(unprotect_secret("c2s=").unwrap(), "sk");
    assert_eq!(unprotect_secret("").unwrap(), "");
    assert_eq!(unprotect_secret("5a+G6ZKlLfCflJE=").unwrap(), "密钥-🔑");
}

#[test]
fn keys_are_not_protected_without_dpapi() {
    assert_eq!(
        protect_secret("sk-abc123"),
        Err("当前平台不支持安全保存密钥：仅 Windows 提供 DPAPI 加密".to_string())
    );
}

#[test]
fn unreadable_stored_keys_are_errors() {
    assert!(unprotect_secret("not base64!").is_err());
    // "/w==" is the single byte 0xFF, not UTF-8.
    assert!(unprotect_secret("/w==").is_err());
}

#[test]
fn proxy_setting_per_scheme() {
    let vars = system_proxy_vars("http=proxy:8080;https=secure:8443\0\0");
    assert_eq!(
        vars,
        vec![
            ("HTTP_PROXY".to_string(), "http://proxy:8080".to_string()),
            ("HTTPS_PROXY".to_string(), "http://secure:8443".to_string()),
            ("NO_PROXY".to_string(), "localhost,127.0.0.1,::1".to_string()),
        ]
    );
}

#[test]
fn proxy_setting_for_all_schemes() {
    let vars = system_proxy_vars("proxy.corp:3128");
    assert_eq!(
        vars,
        vec![
            ("HTTP_PROXY".to_string(), "http://proxy.corp:3128".to_string()),
            ("HTTPS_PROXY".to_string(), "http://proxy.corp:3128".to_string()),
            ("NO_PROXY".to_string(), "localhost,127.0.0.1,::1".to_string()),
        ]
    );
    let vars = system_proxy_vars("socks=s:1;https=https://h:2");
    assert_eq!(
        vars,
        vec![
            ("HTTPS_PROXY".to_string(), "https://h:2".to_string()),
            ("NO_PROXY".to_string(), "localhost,127.0.0.1,::1".to_string()),
        ]
    );
    assert!(system_proxy_vars("\0").is_empty());
    assert!(system_proxy_vars("ftp=f:21").is_empty());
}

#[test]
fn yaml_quotes_double_inner_quotes() {
    assert_eq!(yaml_quote("it's"), "'it''s'");
    assert_eq!(yaml_quote(""), "''");
    assert_eq!(yaml_quote("C:\\Users\\a"), "'C:\\Users\\a'");
}

#[test]
fn wide_text_ends_with_zero() {
    assert_eq!(to_wide("A中"), vec![0x41, 0x4E2D, 0]);
    assert_eq!(to_wide("😀"), vec![0xD83D, 0xDE00, 0]);
    assert_eq!(to_wide(""), vec![0]);
}

#[test]
fn decimal_notation() {
    assert_eq!(decimal_string(0), "0");
    assert_eq!(decimal_string(18760), "18760");
    assert_eq!(decimal_string(u64::MAX), u64::MAX.to_string());
}

#[test]
fn one_instance_at_a_time() {
    assert_eq!(ensure_single_instance(MutexOutcome::Created), Ok(()));
    assert_eq!(ensure_single_instance(MutexOutcome::AlreadyExists), Err("已有 DSH++ 实例正在运行".to_string()));
    assert_eq!(ensure_single_instance(MutexOutcome::Failed), Err("创建单实例互斥体失败".to_string()));
}

#[test]
fn main_window_is_found_by_exact_title() {
    let target = to_wide("DSH++ 控制中心");
    let title: Vec<u16> = "DSH++ 控制中心".encode_utf16().collect();
    assert!(window_title_matches(&title, &target));
    let longer: Vec<u16> = "DSH++ 控制中心 - 2".encode_utf16().collect();
    assert!(!window_title_matches(&longer, &target));
    let shorter: Vec<u16> = "DSH++".encode_utf16().collect();
    assert!(!window_title_matches(&shorter, &target));
    assert!(!window_title_matches(&[], &target));
}

#[test]
fn paths_as_text() {
    assert_eq!(path_string("D:\\数据\\x".as_bytes()), "D:\\数据\\x");
    assert_eq!(path_string(&[b'a', 0xFF, b'b']), "a\u{FFFD}b");
    assert!(config_path("data").ends_with("dshplusplus.json"));
    assert!(config_path("data").starts_with("data"));
    assert_eq!(config_path("data"), joined("data", &["dshplusplus.json"]));
    let wide: Vec<u16> = "D:\\数据".encode_utf16().collect();
    assert_eq!(path_string_wide(&wide), "D:\\数据");
    assert_eq!(path_string_wide(&[0x61, 0xD800, 0x62]), "a\u{FFFD}b");
}

/// `base` joined with `names`, as the platform joins paths.
fn joined(base: &str, names: &[&str]) -> String {
    let mut path = Path::new(base).to_path_buf();
    for name in names {
        path.push(name);
    }
    path.to_string_lossy().into_owned()
}

#[test]
fn dsh_home_preference() {
    assert_eq!(effective_dsh_home(Some("E:\\home".to_string()), Some("C:\\u\\.dsh".to_string()), "d"), "E:\\home");
    assert_eq!(effective_dsh_home(None, Some("C:\\u\\.dsh".to_string()), "d"), "C:\\u\\.dsh");
    let fallback = effective_dsh_home(None, None, "d");
    assert!(fallback.ends_with("dsh-home") && fallback.starts_with("d"));
    let standard = default_dsh_home(Some("C:\\Users\\a".to_string()), Some("/home/a".to_string())).unwrap();
    assert!(standard.starts_with("C:\\Users\\a") && standard.ends_with(".dsh"));
    let home = default_dsh_home(None, Some("/home/a".to_string())).unwrap();
    assert!(home.starts_with("/home/a") && home.ends_with(".dsh"));
    assert_eq!(home, joined("/home/a", &[".dsh"]));
    assert_eq!(standard, joined("C:\\Users\\a", &[".dsh"]));
    assert_eq!(fallback, joined("d", &["dsh-home"]));
    assert_eq!(default_dsh_home(None, None), None);
}

#[test]
fn explicit_dsh_home_rules() {
    assert_eq!(explicit_dsh_home(Some("E:\\h".to_string()), true, "d"), Some("E:\\h".to_string()));
    assert_eq!(explicit_dsh_home(Some(String::new()), false, "d"), None);
    assert_eq!(explicit_dsh_home(None, false, "d"), None);
    let portable = explicit_dsh_home(Some(String::new()), true, "d").unwrap();
    assert!(portable.ends_with("dsh-home"));
    assert_eq!(portable, joined("d", &["dsh-home"]));
}

#[test]
fn runtime_layout_choices() {
    assert!(is_portable(true, false, true));
    assert!(is_portable(true, true, false));
    assert!(!is_portable(false, true, true));
    assert!(!is_portable(true, false, false));
    assert_eq!(
        first_available(vec![None, Some("B".to_string()), Some("C".to_string())]),
        Some("B".to_string())
    );
    assert_eq!(first_available(vec![None, None]), None);
    assert_eq!(data_root_choice(Some("X".to_string()), true, "exe", None), "X");
    assert!(data_root_choice(None, true, "exe", None).ends_with(".portable"));
    let dev = data_root_choice(None, false, "exe", Some("root".to_string()));
    assert!(dev.starts_with("root") && dev.ends_with("desktop-data"));
    assert_eq!(dev, joined("root", &[".tmp/desktop-data"]));
    assert_eq!(data_root_choice(None, true, "exe", None), joined("exe", &[".portable"]));
}

#[test]
fn first_matching_locations() {
    assert_eq!(find_project_root(&vec![false, true, true], &vec![true, false, true]), Some(2));
    assert_eq!(find_project_root(&vec![true], &vec![false]), None);
    let candidates = vec!["a/extension".to_string(), "a/../extension".to_string(), "a/../../extension".to_string()];
    assert_eq!(extension_source(&candidates, &vec![false, true, true]), Some("a/../extension".to_string()));
    assert_eq!(extension_source(&candidates, &vec![false, false, false]), None);
}

#[test]
fn suffixes_are_decimal() {
    let s = random_suffix();
    assert!(!s.is_empty() && s.chars().all(|c| c.is_ascii_digit()));
}

#[test]
fn dsh_near_search_takes_the_first_resolving_step() {
    let ancestors = vec!["t/DSHPlusPlus/zip-stage".to_string(), "t/DSHPlusPlus".to_string(), "t".to_string()];
    let steps = dshplusplus_desktop::paths::find_dsh_near_paths(&ancestors);
    assert_eq!(steps.len(), 12);
    let mut resolves = vec![false; 12];
    resolves[9] = true;
    resolves[11] = true;
    assert_eq!(dshplusplus_desktop::paths::dsh_near_hit(&ancestors, &resolves), Some(9));
    assert_eq!(steps[9], (2, Some(0)));
    assert_eq!(dshplusplus_desktop::paths::dsh_near_hit(&ancestors, &vec![false; 12]), None);
    assert_eq!(dshplusplus_desktop::paths::dsh_near_hit(&Vec::new(), &Vec::new()), None);
}
