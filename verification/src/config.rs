//! The control center's configuration: stored form, form input, UI view, and the
//! rules that a saved configuration must satisfy.
use vstd::prelude::*;
use crate::text::{push_decimal, decimal, trim, trimmed, char_vec, starts_with, has_prefix, str_eq};

verus! {

broadcast use vstd::string::group_string_axioms;

/// The configuration as it is kept on disk.
#[derive(Clone, Debug, PartialEq, Eq)]
pub struct StoredConfig {
    pub dsh_host: String,
    pub dsh_port: u16,
    pub workspace: String,
    /// Explicit DSH CLI path; empty means automatic discovery.
    pub dsh_cli: String,
    /// Optional remote update manifest URL.
    pub update_url: String,
    pub auto_start_dsh: bool,
    pub auto_open_dsh_window: bool,
    pub enable_mca: bool,
    pub enable_browser: bool,
    pub enable_chrome_use: bool,
    pub mca_image: bool,
    pub mca_video: bool,
    pub mca_audio: bool,
    pub mca_document: bool,
    pub mca_web: bool,
    pub mca_computer_observe: bool,
    pub mca_computer_act: bool,
    pub deepseek_base_url: String,
    pub deepseek_model: String,
    pub deepseek_secret: Option<String>,
    pub vision_provider: String,
    pub vision_base_url: String,
    pub vision_model: String,
    pub vision_api: String,
    pub vision_secret: Option<String>,
    pub enable_multimodal: bool,
}

/// What the settings form submits.
#[derive(Clone, Debug, PartialEq, Eq)]
pub struct ConfigInput {
    pub dsh_host: String,
    pub dsh_port: u16,
    pub workspace: String,
    pub dsh_cli: String,
    pub update_url: String,
    pub auto_start_dsh: bool,
    pub auto_open_dsh_window: bool,
    pub enable_mca: bool,
    pub enable_browser: bool,
    pub enable_chrome_use: bool,
    pub mca_image: bool,
    pub mca_video: bool,
    pub mca_audio: bool,
    pub mca_document: bool,
    pub mca_web: bool,
    pub mca_computer_observe: bool,
    pub mca_computer_act: bool,
    pub deepseek_base_url: String,
    pub deepseek_model: String,
    pub deepseek_api_key: Option<String>,
    pub vision_provider: String,
    pub vision_base_url: String,
    pub vision_model: String,
    pub vision_api: String,
    pub vision_api_key: Option<String>,
    pub enable_multimodal: bool,
}

/// The configuration as the UI sees it: secrets only as "present or not".
#[derive(Clone, Debug, PartialEq, Eq)]
pub struct ConfigView {
    pub dsh_host: String,
    pub dsh_port: u16,
    pub workspace: String,
    pub dsh_cli: String,
    pub update_url: String,
    pub auto_start_dsh: bool,
    pub auto_open_dsh_window: bool,
    pub enable_mca: bool,
    pub enable_browser: bool,
    pub enable_chrome_use: bool,
    pub mca_image: bool,
    pub mca_video: bool,
    pub mca_audio: bool,
    pub mca_document: bool,
    pub mca_web: bool,
    pub mca_computer_observe: bool,
    pub mca_computer_act: bool,
    pub deepseek_base_url: String,
    pub deepseek_model: String,
    pub has_deepseek_key: bool,
    pub vision_provider: String,
    pub vision_base_url: String,
    pub vision_model: String,
    pub vision_api: String,
    pub has_vision_key: bool,
    pub enable_multimodal: bool,
}

/// The UI view of a stored configuration.
pub open spec fn config_view_of(c: StoredConfig) -> ConfigView {
    ConfigView {
        dsh_host: c.dsh_host,
        dsh_port: c.dsh_port,
        workspace: c.workspace,
        dsh_cli: c.dsh_cli,
        update_url: c.update_url,
        auto_start_dsh: c.auto_start_dsh,
        auto_open_dsh_window: c.auto_open_dsh_window,
        enable_mca: c.enable_mca,
        enable_browser: c.enable_browser,
        enable_chrome_use: c.enable_chrome_use,
        mca_image: c.mca_image,
        mca_video: c.mca_video,
        mca_audio: c.mca_audio,
        mca_document: c.mca_document,
        mca_web: c.mca_web,
        mca_computer_observe: c.mca_computer_observe,
        mca_computer_act: c.mca_computer_act,
        deepseek_base_url: c.deepseek_base_url,
        deepseek_model: c.deepseek_model,
        has_deepseek_key: c.deepseek_secret is Some,
        vision_provider: c.vision_provider,
        vision_base_url: c.vision_base_url,
        vision_model: c.vision_model,
        vision_api: c.vision_api,
        has_vision_key: c.vision_secret is Some,
        enable_multimodal: c.enable_multimodal,
    }
}

/// The stored configuration that a validated form input becomes, given the secrets
/// to keep and the resolved CLI path.
pub open spec fn stored_of_input(
    input: ConfigInput,
    dsh_cli: String,
    deepseek_secret: Option<String>,
    vision_secret: Option<String>,
) -> StoredConfig {
    StoredConfig {
        dsh_host: input.dsh_host,
        dsh_port: input.dsh_port,
        workspace: input.workspace,
        dsh_cli: dsh_cli,
        update_url: input.update_url,
        auto_start_dsh: input.auto_start_dsh,
        auto_open_dsh_window: input.auto_open_dsh_window,
        enable_mca: input.enable_mca,
        enable_browser: input.enable_browser,
        enable_chrome_use: input.enable_chrome_use,
        mca_image: input.mca_image,
        mca_video: input.mca_video,
        mca_audio: input.mca_audio,
        mca_document: input.mca_document,
        mca_web: input.mca_web,
        mca_computer_observe: input.mca_computer_observe,
        mca_computer_act: input.mca_computer_act,
        deepseek_base_url: input.deepseek_base_url,
        deepseek_model: input.deepseek_model,
        deepseek_secret: deepseek_secret,
        vision_provider: input.vision_provider,
        vision_base_url: input.vision_base_url,
        vision_model: input.vision_model,
        vision_api: input.vision_api,
        vision_secret: vision_secret,
        enable_multimodal: input.enable_multimodal,
    }
}

impl StoredConfig {
    /// The configuration of a first start, with `workspace` as the default working
    /// directory.
    pub fn defaults(workspace: String) -> (c: StoredConfig)
        ensures
            c.dsh_host@ == "127.0.0.1"@,
            c.dsh_port == 18760,
            c.workspace == workspace,
            c.dsh_cli@ == Seq::<char>::empty(),
            c.update_url@ == Seq::<char>::empty(),
            !c.auto_start_dsh,
            c.auto_open_dsh_window,
            c.enable_mca,
            c.enable_browser,
            c.enable_chrome_use,
            c.mca_image,
            c.mca_video,
            c.mca_audio,
            c.mca_document,
            c.mca_web,
            c.mca_computer_observe,
            c.mca_computer_act,
            c.deepseek_base_url@ == "https://api.deepseek.com"@,
            c.deepseek_model@ == "deepseek-chat"@,
            c.deepseek_secret is None,
            c.vision_provider@ == "vision-gateway"@,
            c.vision_base_url@ == Seq::<char>::empty(),
            c.vision_model@ == Seq::<char>::empty(),
            c.vision_api@ == "openai-completions"@,
            c.vision_secret is None,
            c.enable_multimodal,
    {
        StoredConfig {
            dsh_host: String::from_str("127.0.0.1"),
            dsh_port: 18760,
            workspace,
            dsh_cli: String::new(),
            update_url: String::new(),
            auto_start_dsh: false,
            auto_open_dsh_window: true,
            enable_mca: true,
            enable_browser: true,
            enable_chrome_use: true,
            mca_image: true,
            mca_video: true,
            mca_audio: true,
            mca_document: true,
            mca_web: true,
            mca_computer_observe: true,
            mca_computer_act: true,
            deepseek_base_url: String::from_str("https://api.deepseek.com"),
            deepseek_model: String::from_str("deepseek-chat"),
            deepseek_secret: None,
            vision_provider: String::from_str("vision-gateway"),
            vision_base_url: String::new(),
            vision_model: String::new(),
            vision_api: String::from_str("openai-completions"),
            vision_secret: None,
            enable_multimodal: true,
        }
    }

    /// A configuration just read from disk: the computer capabilities are switched
    /// on whatever was saved, everything else is kept.
    pub fn after_load(self) -> (c: StoredConfig)
        ensures
            c == (StoredConfig { mca_computer_observe: true, mca_computer_act: true, ..self }),
    {
        let mut c = self;
        c.mca_computer_observe = true;
        c.mca_computer_act = true;
        c
    }

    /// The stored form of a validated input.
    pub fn from_input(
        input: ConfigInput,
        dsh_cli: String,
        deepseek_secret: Option<String>,
        vision_secret: Option<String>,
    ) -> (c: StoredConfig)
        ensures
            c == stored_of_input(input, dsh_cli, deepseek_secret, vision_secret),
    {
        StoredConfig {
            dsh_host: input.dsh_host,
            dsh_port: input.dsh_port,
            workspace: input.workspace,
            dsh_cli,
            update_url: input.update_url,
            auto_start_dsh: input.auto_start_dsh,
            auto_open_dsh_window: input.auto_open_dsh_window,
            enable_mca: input.enable_mca,
            enable_browser: input.enable_browser,
            enable_chrome_use: input.enable_chrome_use,
            mca_image: input.mca_image,
            mca_video: input.mca_video,
            mca_audio: input.mca_audio,
            mca_document: input.mca_document,
            mca_web: input.mca_web,
            mca_computer_observe: input.mca_computer_observe,
            mca_computer_act: input.mca_computer_act,
            deepseek_base_url: input.deepseek_base_url,
            deepseek_model: input.deepseek_model,
            deepseek_secret,
            vision_provider: input.vision_provider,
            vision_base_url: input.vision_base_url,
            vision_model: input.vision_model,
            vision_api: input.vision_api,
            vision_secret,
            enable_multimodal: input.enable_multimodal,
        }
    }
}

impl ConfigView {
    /// The UI view of a stored configuration.
    pub fn from(value: &StoredConfig) -> (v: ConfigView)
        ensures
            v == config_view_of(*value),
    {
        ConfigView {
            dsh_host: value.dsh_host.clone(),
            dsh_port: value.dsh_port,
            workspace: value.workspace.clone(),
            dsh_cli: value.dsh_cli.clone(),
            update_url: value.update_url.clone(),
            auto_start_dsh: value.auto_start_dsh,
            auto_open_dsh_window: value.auto_open_dsh_window,
            enable_mca: value.enable_mca,
            enable_browser: value.enable_browser,
            enable_chrome_use: value.enable_chrome_use,
            mca_image: value.mca_image,
            mca_video: value.mca_video,
            mca_audio: value.mca_audio,
            mca_document: value.mca_document,
            mca_web: value.mca_web,
            mca_computer_observe: value.mca_computer_observe,
            mca_computer_act: value.mca_computer_act,
            deepseek_base_url: value.deepseek_base_url.clone(),
            deepseek_model: value.deepseek_model.clone(),
            has_deepseek_key: value.deepseek_secret.is_some(),
            vision_provider: value.vision_provider.clone(),
            vision_base_url: value.vision_base_url.clone(),
            vision_model: value.vision_model.clone(),
            vision_api: value.vision_api.clone(),
            has_vision_key: value.vision_secret.is_some(),
            enable_multimodal: value.enable_multimodal,
        }
    }
}

/// A key typed into the form counts only when it is not empty.
pub fn entered_key(key: &Option<String>) -> (r: Option<String>)
    ensures
        r == (match *key {
            Some(k) => if k@.len() > 0 { Some(k) } else { None },
            None => None,
        }),
{
    match key {
        Some(k) => if k.as_str().is_empty() { None } else { Some(k.clone()) },
        None => None,
    }
}

/// The URL is acceptable: HTTPS, or plain HTTP to this machine, or empty where
/// that is allowed.
pub open spec fn url_allowed(value: Seq<char>, allow_empty: bool) -> bool {
    (value.len() == 0 && allow_empty) || has_prefix(value, "https://"@) || has_prefix(
        value,
        "http://127.0.0.1"@,
    ) || has_prefix(value, "http://localhost"@)
}

/// The message for a URL that is refused.
pub open spec fn url_error(field: Seq<char>) -> Seq<char> {
    field + " 必须使用 HTTPS；只有本机地址允许 HTTP"@
}

/// Checks a configured URL: `field` names it in the message.
pub fn validate_url(value: &str, field: &str, allow_empty: bool) -> (r: Result<(), String>)
    ensures
        r matches Ok(_) <==> url_allowed(value@, allow_empty),
        r matches Err(m) ==> m@ == url_error(field@),
{
    if value.is_empty() && allow_empty {
        return Ok(());
    }
    if starts_with(value, "https://") || starts_with(value, "http://127.0.0.1") || starts_with(
        value,
        "http://localhost",
    ) {
        return Ok(());
    }
    let mut m = String::from_str(field);
    m.append(" 必须使用 HTTPS；只有本机地址允许 HTTP");
    Err(m)
}

/// A character allowed in a provider id.
pub open spec fn provider_id_char(c: char) -> bool {
    ('a' <= c && c <= 'z') || ('A' <= c && c <= 'Z') || ('0' <= c && c <= '9') || c == '-' || c
        == '_'
}

/// A provider id: non-empty, made of ASCII letters, digits, `-` and `_`.
pub open spec fn valid_provider_id(s: Seq<char>) -> bool {
    s.len() > 0 && forall|i: int| 0 <= i < s.len() ==> provider_id_char(#[trigger] s[i])
}

fn provider_id_ok(s: &str) -> (r: bool)
    ensures
        r == valid_provider_id(s@),
{
    let x = char_vec(s);
    if x.len() == 0 {
        return false;
    }
    let mut i: usize = 0;
    while i < x.len()
        invariant
            x@ == s@,
            i <= x@.len(),
            forall|j: int| 0 <= j < i ==> provider_id_char(#[trigger] x@[j]),
        decreases x.len() - i,
    {
        let c = x[i];
        if !(('a' <= c && c <= 'z') || ('A' <= c && c <= 'Z') || ('0' <= c && c <= '9') || c
            == '-' || c == '_') {
            return false;
        }
        i = i + 1;
    }
    true
}

/// The first rule that `input` breaks, as its message, or `None` when it is valid.
/// `workspace_is_dir` and `cli_found` report whether the workspace directory exists
/// and whether a DSH CLI was found at the configured CLI location.
pub open spec fn config_error(input: ConfigInput, workspace_is_dir: bool, cli_found: bool) -> Option<
    Seq<char>,
> {
    if input.dsh_host@ != "127.0.0.1"@ && input.dsh_host@ != "localhost"@ {
        Some("DSH 监听地址只能是 127.0.0.1 或 localhost"@)
    } else if input.dsh_port < 1024 {
        Some("DSH 端口必须不小于 1024"@)
    } else if input.deepseek_model@.len() == 0 {
        Some("DeepSeek 模型不能为空"@)
    } else if input.mca_computer_act && !input.mca_computer_observe {
        Some("启用“操作电脑”时必须同时启用“观察电脑”"@)
    } else if !url_allowed(input.deepseek_base_url@, false) {
        Some(url_error("DeepSeek Base URL"@))
    } else if input.enable_multimodal && !valid_provider_id(input.vision_provider@) {
        Some("多模态 Provider ID 只能包含字母、数字、连字符和下划线"@)
    } else if input.enable_multimodal && !url_allowed(input.vision_base_url@, true) {
        Some(url_error("多模态 Base URL"@))
    } else if input.workspace@.len() > 0 && !workspace_is_dir {
        Some("默认工作目录不存在"@)
    } else if trim(input.dsh_cli@).len() > 0 && !cli_found {
        Some(
            "所选位置中未找到 DSH CLI；请选择 DeepSeekHarness 仓库目录、安装目录或 bin.js/dsh.cmd/dsh.exe"@,
        )
    } else {
        None
    }
}

fn error_text(s: &str) -> (r: Result<(), String>)
    ensures
        r matches Err(m) && m@ == s@,
{
    Err(String::from_str(s))
}

/// Validates a submitted configuration: `Err` carries the message of the first rule
/// broken, in the order of `config_error`.
pub fn validate_config(input: &ConfigInput, workspace_is_dir: bool, cli_found: bool) -> (r: Result<
    (),
    String,
>)
    ensures
        r matches Ok(_) <==> config_error(*input, workspace_is_dir, cli_found) is None,
        r matches Err(m) ==> Some(m@) == config_error(*input, workspace_is_dir, cli_found),
{
    if !str_eq(input.dsh_host.as_str(), "127.0.0.1") && !str_eq(input.dsh_host.as_str(), "localhost") {
        return error_text("DSH 监听地址只能是 127.0.0.1 或 localhost");
    }
    if input.dsh_port < 1024 {
        return error_text("DSH 端口必须不小于 1024");
    }
    if input.deepseek_model.as_str().is_empty() {
        return error_text("DeepSeek 模型不能为空");
    }
    if input.mca_computer_act && !input.mca_computer_observe {
        return error_text("启用“操作电脑”时必须同时启用“观察电脑”");
    }
    validate_url(input.deepseek_base_url.as_str(), "DeepSeek Base URL", false)?;
    if input.enable_multimodal {
        if !provider_id_ok(input.vision_provider.as_str()) {
            return error_text("多模态 Provider ID 只能包含字母、数字、连字符和下划线");
        }
        validate_url(input.vision_base_url.as_str(), "多模态 Base URL", true)?;
    }
    if !input.workspace.as_str().is_empty() && !workspace_is_dir {
        return error_text("默认工作目录不存在");
    }
    let cli = trimmed(input.dsh_cli.as_str());
    if !cli.as_str().is_empty() && !cli_found {
        return error_text(
            "所选位置中未找到 DSH CLI；请选择 DeepSeekHarness 仓库目录、安装目录或 bin.js/dsh.cmd/dsh.exe",
        );
    }
    Ok(())
}

/// The MCA capabilities a configuration switches on, in their fixed order.
pub open spec fn capability_names(c: StoredConfig) -> Seq<Seq<char>> {
    let s0 = Seq::<Seq<char>>::empty();
    let s1 = if c.mca_image { s0.push("image"@) } else { s0 };
    let s2 = if c.mca_video { s1.push("video"@) } else { s1 };
    let s3 = if c.mca_audio { s2.push("audio"@) } else { s2 };
    let s4 = if c.mca_document { s3.push("document"@) } else { s3 };
    let s5 = if c.mca_web { s4.push("web"@) } else { s4 };
    let s6 = if c.mca_computer_observe { s5.push("computer.observe"@) } else { s5 };
    if c.mca_computer_act { s6.push("computer.act"@) } else { s6 }
}

/// The views of a list of string slices.
pub open spec fn str_views(v: Seq<&str>) -> Seq<Seq<char>> {
    v.map_values(|s: &str| s@)
}

proof fn lemma_str_views_push(v: Seq<&str>, s: &str)
    ensures
        str_views(v.push(s)) == str_views(v).push(s@),
{
    assert(str_views(v.push(s)) =~= str_views(v).push(s@));
}

/// The MCA capabilities this configuration switches on.
pub fn mca_capabilities(config: &StoredConfig) -> (r: Vec<&'static str>)
    ensures
        str_views(r@) == capability_names(*config),
{
    let mut capabilities: Vec<&'static str> = Vec::new();
    assert(str_views(capabilities@) =~= Seq::<Seq<char>>::empty());
    if config.mca_image {
        proof { lemma_str_views_push(capabilities@, "image"); }
        capabilities.push("image");
    }
    if config.mca_video {
        proof { lemma_str_views_push(capabilities@, "video"); }
        capabilities.push("video");
    }
    if config.mca_audio {
        proof { lemma_str_views_push(capabilities@, "audio"); }
        capabilities.push("audio");
    }
    if config.mca_document {
        proof { lemma_str_views_push(capabilities@, "document"); }
        capabilities.push("document");
    }
    if config.mca_web {
        proof { lemma_str_views_push(capabilities@, "web"); }
        capabilities.push("web");
    }
    if config.mca_computer_observe {
        proof { lemma_str_views_push(capabilities@, "computer.observe"); }
        capabilities.push("computer.observe");
    }
    if config.mca_computer_act {
        proof { lemma_str_views_push(capabilities@, "computer.act"); }
        capabilities.push("computer.act");
    }
    capabilities
}

/// `http://<host>:<port>`.
pub open spec fn http_url(host: Seq<char>, port: u16) -> Seq<char> {
    "http://"@ + host + ":"@ + decimal(port as nat)
}

/// The address of the DSH web UI for this configuration.
pub fn dsh_window_url(config: &StoredConfig) -> (r: String)
    ensures
        r@ == http_url(config.dsh_host@, config.dsh_port),
{
    let mut r = String::from_str("http://");
    r.append(config.dsh_host.as_str());
    r.append(":");
    push_decimal(&mut r, config.dsh_port as u64);
    r
}


/// An ASCII letter or digit, `-` or `_`, by code point: 48..=57, 65..=90,
/// 97..=122, 45, 95.
pub open spec fn ascii_word_char(c: char) -> bool {
    let n = c as int;
    (48 <= n && n <= 57) || (65 <= n && n <= 90) || (97 <= n && n <= 122) || n == 45 || n == 95
}

/// Law: once the rules before it are met, a configuration with the multimodal
/// plugins on is refused for its vision provider id exactly when the id is
/// empty or holds a character other than an ASCII letter, an ASCII digit, `-`
/// or `_`; an id made only of those, with the remaining rules met, is accepted.
pub proof fn law_vision_provider_id_rule(input: ConfigInput, workspace_is_dir: bool, cli_found: bool)
    requires
        input.enable_multimodal,
        input.dsh_host@ == "127.0.0.1"@ || input.dsh_host@ == "localhost"@,
        input.dsh_port >= 1024,
        input.deepseek_model@.len() > 0,
        !(input.mca_computer_act && !input.mca_computer_observe),
        url_allowed(input.deepseek_base_url@, false),
    ensures
        !(input.vision_provider@.len() > 0 && forall|i: int|
            0 <= i < input.vision_provider@.len() ==> ascii_word_char(#[trigger] input.vision_provider@[i]))
            ==> config_error(input, workspace_is_dir, cli_found) == Some(
            "多模态 Provider ID 只能包含字母、数字、连字符和下划线"@,
        ),
        (input.vision_provider@.len() > 0 && forall|i: int|
            0 <= i < input.vision_provider@.len() ==> ascii_word_char(#[trigger] input.vision_provider@[i]))
            && url_allowed(input.vision_base_url@, true) && (input.workspace@.len() == 0 || workspace_is_dir) && (trim(
            input.dsh_cli@,
        ).len() == 0 || cli_found) ==> config_error(input, workspace_is_dir, cli_found) is None,
{
    let v = input.vision_provider@;
    assert forall|i: int| 0 <= i < v.len() implies (ascii_word_char(#[trigger] v[i]) <==> provider_id_char(v[i])) by {
        let c = v[i];
        assert(('a' <= c && c <= 'z') <==> (97 <= (c as int) && (c as int) <= 122));
        assert(('A' <= c && c <= 'Z') <==> (65 <= (c as int) && (c as int) <= 90));
        assert(('0' <= c && c <= '9') <==> (48 <= (c as int) && (c as int) <= 57));
        assert((c == '-') <==> ((c as int) == 45));
        assert((c == '_') <==> ((c as int) == 95));
    }
}

} // verus!
