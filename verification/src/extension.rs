//! The browser extension that lets DSH drive the user's own Chrome or Edge: how its
//! install state is judged from the browser profiles, and what an install does.
use vstd::prelude::*;
use crate::text::str_eq;
use crate::settings::{entries_model, kt, lemma_values_push, list, mapping, push_entry, text_value, values_model, KeyModel, SettingsKey, SettingsValue, ValueModel, model};

verus! {

broadcast use vstd::string::group_string_axioms;

/// Install state of the extension in one browser.
#[derive(PartialEq, Eq, Structural, Clone, Copy, Debug)]
pub enum ExtensionInstallState {
    NotInstalled,
    Installed,
    /// Recorded, but the recorded directory is gone or holds another version.
    Stale,
    Disabled,
}

/// Merge priority across profiles: a healthy record beats a disabled one, which
/// beats a stale one.
pub open spec fn rank(state: ExtensionInstallState) -> int {
    match state {
        ExtensionInstallState::NotInstalled => 0,
        ExtensionInstallState::Stale => 1,
        ExtensionInstallState::Disabled => 2,
        ExtensionInstallState::Installed => 3,
    }
}

/// The merge priority of an install state.
pub fn extension_state_rank(state: ExtensionInstallState) -> (r: u8)
    ensures
        r as int == rank(state),
{
    match state {
        ExtensionInstallState::NotInstalled => 0,
        ExtensionInstallState::Stale => 1,
        ExtensionInstallState::Disabled => 2,
        ExtensionInstallState::Installed => 3,
    }
}

/// The extension's entry in a profile's preferences.
#[derive(Clone, Debug, PartialEq, Eq)]
pub struct ExtensionRecord {
    /// The `state` number, where it is an integer.
    pub state: Option<i64>,
    /// `disable_reasons` is a non-empty list.
    pub has_disable_reasons: bool,
    /// The `path` string, where there is one.
    pub path: Option<String>,
}

/// The identifying fields of an extension manifest: `version` and `key`, each as
/// its JSON text, `None` where the field is absent.
#[derive(Clone, Debug, PartialEq, Eq)]
pub struct ManifestKeys {
    pub version: Option<String>,
    pub key: Option<String>,
}

pub open spec fn ov(o: Option<String>) -> Option<Seq<char>> {
    match o {
        Some(s) => Some(s@),
        None => None,
    }
}

/// The state of one record. `actual` is the manifest found in the recorded
/// directory (`None` when it cannot be read), `expected` the one that should be
/// installed, where known.
pub open spec fn classify(
    record: ExtensionRecord,
    actual: Option<ManifestKeys>,
    expected: Option<ManifestKeys>,
) -> ExtensionInstallState {
    if record.state == Some(0i64) || record.has_disable_reasons {
        ExtensionInstallState::Disabled
    } else if record.path is None {
        ExtensionInstallState::Stale
    } else {
        match actual {
            None => ExtensionInstallState::Stale,
            Some(a) => match expected {
                Some(e) => if ov(a.version) != ov(e.version) || ov(a.key) != ov(e.key) {
                    ExtensionInstallState::Stale
                } else {
                    ExtensionInstallState::Installed
                },
                None => ExtensionInstallState::Installed,
            },
        }
    }
}

fn same_text(a: &Option<String>, b: &Option<String>) -> (r: bool)
    ensures
        r == (ov(*a) == ov(*b)),
{
    match (a, b) {
        (Some(x), Some(y)) => *x == *y,
        (None, None) => true,
        _ => false,
    }
}

/// The install state of one profile record.
pub fn classify_extension_record(
    record: &ExtensionRecord,
    actual: &Option<ManifestKeys>,
    expected: &Option<ManifestKeys>,
) -> (r: ExtensionInstallState)
    ensures
        r == classify(*record, *actual, *expected),
{
    let disabled = match record.state {
        Some(s) => s == 0,
        None => false,
    } || record.has_disable_reasons;
    if disabled {
        return ExtensionInstallState::Disabled;
    }
    if record.path.is_none() {
        return ExtensionInstallState::Stale;
    }
    match actual {
        None => ExtensionInstallState::Stale,
        Some(a) => match expected {
            Some(e) => if !same_text(&a.version, &e.version) || !same_text(&a.key, &e.key) {
                ExtensionInstallState::Stale
            } else {
                ExtensionInstallState::Installed
            },
            None => ExtensionInstallState::Installed,
        },
    }
}

/// A record found in one profile: its state, the profile's name and the recorded
/// path.
#[derive(Clone, Debug, PartialEq, Eq)]
pub struct ProfileObservation {
    pub state: ExtensionInstallState,
    pub profile: String,
    pub path: Option<String>,
}

/// State, profile and path after looking at `obs` in order: a later record replaces
/// the kept one only when its rank is strictly higher; with no record at all the
/// extension is not installed.
pub open spec fn merge_observations(obs: Seq<ProfileObservation>) -> (
    ExtensionInstallState,
    Option<Seq<char>>,
    Option<Seq<char>>,
)
    decreases obs.len(),
{
    if obs.len() == 0 {
        (ExtensionInstallState::NotInstalled, None, None)
    } else {
        let before = merge_observations(obs.drop_last());
        let o = obs.last();
        if obs.len() == 1 || rank(o.state) > rank(before.0) {
            (o.state, Some(o.profile@), Some(
                match o.path {
                    Some(p) => p@,
                    None => Seq::empty(),
                },
            ))
        } else {
            before
        }
    }
}

/// The extension's state in a browser, merged over the records of all its profiles
/// (in profile order), with the profile and path of the record kept.
pub fn merge_profile_states(obs: &Vec<ProfileObservation>) -> (r: (
    ExtensionInstallState,
    Option<String>,
    Option<String>,
))
    ensures
        (r.0, ov(r.1), ov(r.2)) == merge_observations(obs@),
{
    let mut best: Option<(ExtensionInstallState, String, String)> = None;
    let mut i: usize = 0;
    while i < obs.len()
        invariant
            i <= obs@.len(),
            (i == 0) == (best is None),
            best matches Some(b) ==> (b.0, Some(b.1@), Some(b.2@)) == merge_observations(
                obs@.take(i as int),
            ),
        decreases obs.len() - i,
    {
        let o = &obs[i];
        assert(obs@.take(i + 1).drop_last() =~= obs@.take(i as int));
        assert(obs@.take(i + 1).last() == obs@[i as int]);
        let replace = match &best {
            None => true,
            Some(b) => extension_state_rank(o.state) > extension_state_rank(b.0),
        };
        if replace {
            let path = match &o.path {
                Some(p) => p.clone(),
                None => String::new(),
            };
            best = Some((o.state, o.profile.clone(), path));
        }
        i = i + 1;
    }
    assert(obs@.take(i as int) =~= obs@);
    match best {
        Some(b) => (b.0, Some(b.1), Some(b.2)),
        None => (ExtensionInstallState::NotInstalled, None, None),
    }
}

/// Law: the merged state is the highest-ranked state among the records.
pub proof fn law_merge_takes_highest_rank(obs: Seq<ProfileObservation>, k: int)
    requires
        0 <= k < obs.len(),
    ensures
        rank(merge_observations(obs).0) >= rank(obs[k].state),
        exists|j: int| 0 <= j < obs.len() && merge_observations(obs).0 == obs[j].state,
    decreases obs.len(),
{
    let before = merge_observations(obs.drop_last());
    if obs.len() == 1 {
        assert(merge_observations(obs).0 == obs[0].state);
    } else {
        if k < obs.len() - 1 {
            law_merge_takes_highest_rank(obs.drop_last(), k);
            assert(obs.drop_last()[k] == obs[k]);
        } else {
            law_merge_takes_highest_rank(obs.drop_last(), 0);
        }
        if rank(obs.last().state) > rank(before.0) {
            assert(merge_observations(obs).0 == obs[obs.len() - 1].state);
        } else {
            let j = choose|j: int|
                0 <= j < obs.len() - 1 && before.0 == obs.drop_last()[j].state;
            assert(merge_observations(obs).0 == obs[j].state);
        }
    }
}

/// Law: the extension counts as not installed exactly when no profile records it.
pub proof fn law_merge_not_installed_iff_no_record(obs: Seq<ProfileObservation>)
    requires
        forall|k: int| 0 <= k < obs.len() ==> obs[k].state != ExtensionInstallState::NotInstalled,
    ensures
        (merge_observations(obs).0 == ExtensionInstallState::NotInstalled) <==> obs.len() == 0,
{
    if obs.len() > 0 {
        law_merge_takes_highest_rank(obs, 0);
        let j = choose|j: int| 0 <= j < obs.len() && merge_observations(obs).0 == obs[j].state;
        assert(obs[j].state != ExtensionInstallState::NotInstalled);
    }
}

/// The browser an install targets: Edge when asked for, else Chrome.
pub fn target_browser(requested: &Option<String>) -> (r: &'static str)
    ensures
        r@ == (match *requested {
            Some(b) => if b@ == "edge"@ { "edge"@ } else { "chrome"@ },
            None => "chrome"@,
        }),
{
    match requested {
        Some(b) => if str_eq(b.as_str(), "edge") { "edge" } else { "chrome" },
        None => "chrome",
    }
}

/// The browser's display name.
pub fn browser_label(browser: &str) -> (r: &'static str)
    ensures
        r@ == (if browser@ == "edge"@ { "Edge"@ } else { "Chrome"@ }),
{
    if str_eq(browser, "edge") { "Edge" } else { "Chrome" }
}

/// The browser's extension management page.
pub fn extension_page(browser: &str) -> (r: &'static str)
    ensures
        r@ == (if browser@ == "edge"@ { "edge://extensions"@ } else { "chrome://extensions"@ }),
{
    if str_eq(browser, "edge") { "edge://extensions" } else { "chrome://extensions" }
}

/// The process image name of the browser.
pub fn browser_image(browser: &str) -> (r: &'static str)
    ensures
        r@ == (if browser@ == "edge"@ { "msedge.exe"@ } else { "chrome.exe"@ }),
{
    if str_eq(browser, "edge") { "msedge.exe" } else { "chrome.exe" }
}

/// What an install does first.
#[derive(PartialEq, Eq, Structural, Clone, Copy, Debug)]
pub enum InstallAction {
    /// The extension is installed: start the browser (when it is not running) and
    /// wait for the bridge.
    Connect,
    /// Start the browser with the extension loaded from its directory, then wait for
    /// the bridge.
    LoadExtension,
    /// Guide the user through loading the extension by hand.
    Guide,
}

/// The install action for the recorded state and whether the browser runs: a
/// running browser ignores command-line loading.
pub fn install_action(status: ExtensionInstallState, running: bool) -> (r: InstallAction)
    ensures
        r == (if status == ExtensionInstallState::Installed {
            InstallAction::Connect
        } else if running {
            InstallAction::Guide
        } else {
            InstallAction::LoadExtension
        }),
{
    match status {
        ExtensionInstallState::Installed => InstallAction::Connect,
        _ => if running { InstallAction::Guide } else { InstallAction::LoadExtension },
    }
}

/// The message after connecting an installed extension.
pub fn connect_message(label: &str, connected: bool) -> (r: String)
    ensures
        r@ == label@ + (if connected {
            " 扩展已连接，可以在已打开的标签页中使用了。"@
        } else {
            " 扩展已安装；浏览器启动后扩展会自动连接，稍候状态会更新为“已连接”。"@
        }),
{
    let mut r = String::from_str(label);
    if connected {
        r.append(" 扩展已连接，可以在已打开的标签页中使用了。");
    } else {
        r.append(" 扩展已安装；浏览器启动后扩展会自动连接，稍候状态会更新为“已连接”。");
    }
    r
}

/// The message after the browser loaded the extension from the command line and
/// the bridge connected.
pub fn loaded_message(label: &str) -> (r: String)
    ensures
        r@ == label@ + " 扩展已加载并连接。若状态仍显示未安装，请在扩展管理页“加载已解压”一次以持久化。"@,
{
    let mut r = String::from_str(label);
    r.append(" 扩展已加载并连接。若状态仍显示未安装，请在扩展管理页“加载已解压”一次以持久化。");
    r
}

/// The message of the hand-loading guidance.
pub fn guidance_message(label: &str) -> (r: String)
    ensures
        r@ == label@ + " 扩展页面已打开，扩展目录已复制到剪贴板。请开启“开发者模式”，点击“加载已解压的扩展程序”，粘贴目录并确认；加载一次后永久生效。"@,
{
    let mut r = String::from_str(label);
    r.append(
        " 扩展页面已打开，扩展目录已复制到剪贴板。请开启“开发者模式”，点击“加载已解压的扩展程序”，粘贴目录并确认；加载一次后永久生效。",
    );
    r
}

/// The command-line argument that loads the extension from `directory`.
pub fn load_extension_arg(directory: &str) -> (r: String)
    ensures
        r@ == "--load-extension="@ + directory@,
{
    let mut r = String::from_str("--load-extension=");
    r.append(directory);
    r
}


/// The registry keys under which the native messaging host of the extension is
/// registered, for Chrome and for Edge (both point at one host manifest).
pub open spec fn native_host_keys() -> Seq<Seq<char>> {
    seq![
        "HKCU\\Software\\Google\\Chrome\\NativeMessagingHosts\\com.dshplusplus.browser"@,
        "HKCU\\Software\\Microsoft\\Edge\\NativeMessagingHosts\\com.dshplusplus.browser"@,
    ]
}

/// The `reg` invocations that remove the native messaging host again, one per
/// browser: `reg delete <key> /f`.
pub fn unregister_chrome_native_host() -> (r: Vec<Vec<&'static str>>)
    ensures
        r@.len() == 2,
        forall|i: int| 0 <= i < 2 ==> crate::config::str_views(#[trigger] r@[i]@) == seq![
            "delete"@,
            native_host_keys()[i],
            "/f"@,
        ],
{
    let chrome = vec!["delete", "HKCU\\Software\\Google\\Chrome\\NativeMessagingHosts\\com.dshplusplus.browser", "/f"];
    let edge = vec!["delete", "HKCU\\Software\\Microsoft\\Edge\\NativeMessagingHosts\\com.dshplusplus.browser", "/f"];
    assert(crate::config::str_views(chrome@) =~= seq!["delete"@, native_host_keys()[0], "/f"@]);
    assert(crate::config::str_views(edge@) =~= seq!["delete"@, native_host_keys()[1], "/f"@]);
    let r = vec![chrome, edge];
    r
}


/// The `native-host.cmd` wrapper: it points the host at the gateway, then runs the
/// host script with Node.
pub fn native_host_cmd(node: &str, host_script: &str) -> (r: String)
    ensures
        r@ == "@echo off\r\nset DSHPLUSPLUS_GATEWAY="@ + crate::mca::local_url(crate::mca::BROWSER_PORT) + "\r\n\""@
            + node@ + "\" \""@ + host_script@ + "\" %*\r\n"@,
{
    let mut r = String::from_str("@echo off\r\nset DSHPLUSPLUS_GATEWAY=");
    let url = crate::mca::local_base_url(crate::mca::BROWSER_PORT);
    r.append(url.as_str());
    r.append("\r\n\"");
    r.append(node);
    r.append("\" \"");
    r.append(host_script);
    r.append("\" %*\r\n");
    r
}

/// The `reg` invocations that register the host manifest at `manifest_path` for
/// Chrome and for Edge: `reg add <key> /ve /d <manifest_path> /f`.
pub fn register_native_host(manifest_path: &str) -> (r: Vec<Vec<String>>)
    ensures
        r@.len() == 2,
        forall|i: int| 0 <= i < 2 ==> crate::text::views(#[trigger] r@[i]@) == seq![
            "add"@,
            native_host_keys()[i],
            "/ve"@,
            "/d"@,
            manifest_path@,
            "/f"@,
        ],
{
    let chrome = vec![
        String::from_str("add"),
        String::from_str("HKCU\\Software\\Google\\Chrome\\NativeMessagingHosts\\com.dshplusplus.browser"),
        String::from_str("/ve"),
        String::from_str("/d"),
        String::from_str(manifest_path),
        String::from_str("/f"),
    ];
    let edge = vec![
        String::from_str("add"),
        String::from_str("HKCU\\Software\\Microsoft\\Edge\\NativeMessagingHosts\\com.dshplusplus.browser"),
        String::from_str("/ve"),
        String::from_str("/d"),
        String::from_str(manifest_path),
        String::from_str("/f"),
    ];
    assert(crate::text::views(chrome@) =~= seq!["add"@, native_host_keys()[0], "/ve"@, "/d"@, manifest_path@, "/f"@]);
    assert(crate::text::views(edge@) =~= seq!["add"@, native_host_keys()[1], "/ve"@, "/d"@, manifest_path@, "/f"@]);
    vec![chrome, edge]
}


/// Where a browser's program may be installed, in the order looked at: each an
/// environment variable naming a base directory and the path below it. Edge is
/// looked for under `ProgramFiles(x86)`, then `ProgramFiles`; Chrome under
/// `ProgramFiles`, `ProgramFiles(x86)`, then `LOCALAPPDATA`.
pub fn browser_executable_candidates(browser: &str) -> (r: Vec<(&'static str, &'static str)>)
    ensures
        browser@ == "edge"@ ==> r@.len() == 2 && r@[0].0@ == "ProgramFiles(x86)"@ && r@[1].0@ == "ProgramFiles"@
            && r@[0].1@ == "Microsoft\\Edge\\Application\\msedge.exe"@ && r@[1].1@ == r@[0].1@,
        browser@ != "edge"@ ==> r@.len() == 3 && r@[0].0@ == "ProgramFiles"@ && r@[1].0@ == "ProgramFiles(x86)"@
            && r@[2].0@ == "LOCALAPPDATA"@ && r@[0].1@ == "Google\\Chrome\\Application\\chrome.exe"@
            && r@[1].1@ == r@[0].1@ && r@[2].1@ == r@[0].1@,
{
    if str_eq(browser, "edge") {
        let path = "Microsoft\\Edge\\Application\\msedge.exe";
        vec![("ProgramFiles(x86)", path), ("ProgramFiles", path)]
    } else {
        let path = "Google\\Chrome\\Application\\chrome.exe";
        vec![("ProgramFiles", path), ("ProgramFiles(x86)", path), ("LOCALAPPDATA", path)]
    }
}

/// The browser's user data directory below `LOCALAPPDATA`.
pub fn browser_user_data_subdir(browser: &str) -> (r: &'static str)
    ensures
        r@ == (if browser@ == "edge"@ { "Microsoft\\Edge\\User Data"@ } else { "Google\\Chrome\\User Data"@ }),
{
    if str_eq(browser, "edge") { "Microsoft\\Edge\\User Data" } else { "Google\\Chrome\\User Data" }
}


/// The browser service's status after preparing the extension on start: ready,
/// or why preparing failed.
pub fn chrome_use_status(prepared: &Result<(), String>) -> (r: String)
    ensures
        r@ == (match *prepared {
            Ok(_) => "chromeUse：扩展已就绪，打开 Chrome 后自动连接"@,
            Err(e) => "chromeUse 扩展准备失败："@ + e@,
        }),
{
    match prepared {
        Ok(_) => String::from_str("chromeUse：扩展已就绪，打开 Chrome 后自动连接"),
        Err(e) => {
            let mut r = String::from_str("chromeUse 扩展准备失败：");
            r.append(e.as_str());
            r
        },
    }
}


/// The fixed id of the browser extension (derived from its key; the same in
/// Chrome and Edge).
pub const EXTENSION_ID: &'static str = "kikoigbglcakhdeknllbinnaepdaoofh";

/// The native messaging host manifest for the host program at `host_path`: name,
/// description, path, `stdio` type, and the extension as its one allowed origin.
pub open spec fn host_manifest(host_path: Seq<char>) -> ValueModel {
    ValueModel::Mapping(
        seq![
            (kt("name"@), ValueModel::Text("com.dshplusplus.browser"@)),
            (kt("description"@), ValueModel::Text("DSH++ Browser Control native messaging host"@)),
            (kt("path"@), ValueModel::Text(host_path)),
            (kt("type"@), ValueModel::Text("stdio"@)),
            (
                kt("allowed_origins"@),
                ValueModel::List(seq![ValueModel::Text("chrome-extension://kikoigbglcakhdeknllbinnaepdaoofh/"@)]),
            ),
        ],
    )
}

/// The native messaging host manifest, as a document tree.
pub fn native_host_manifest(host_path: &str) -> (r: SettingsValue)
    ensures
        model(r) == host_manifest(host_path@),
{
    let mut origins: Vec<SettingsValue> = Vec::new();
    let origin = text_value("chrome-extension://kikoigbglcakhdeknllbinnaepdaoofh/");
    proof {
        lemma_values_push(origins@, origin);
    }
    origins.push(origin);
    assert(values_model(origins@) =~= seq![
        ValueModel::Text("chrome-extension://kikoigbglcakhdeknllbinnaepdaoofh/"@),
    ]);
    let mut m: Vec<(SettingsKey, SettingsValue)> = Vec::new();
    assert(entries_model(m@) =~= Seq::<(KeyModel, ValueModel)>::empty());
    push_entry(&mut m, "name", text_value("com.dshplusplus.browser"));
    push_entry(&mut m, "description", text_value("DSH++ Browser Control native messaging host"));
    push_entry(&mut m, "path", text_value(host_path));
    push_entry(&mut m, "type", text_value("stdio"));
    push_entry(&mut m, "allowed_origins", list(origins));
    proof {
        if let ValueModel::Mapping(e) = host_manifest(host_path@) {
            assert(entries_model(m@) =~= e);
        }
    }
    mapping(m)
}


/// Law: a profile record is judged disabled exactly when the browser marks it
/// so, by state 0 or by a non-empty list of disable reasons, whatever its path
/// and manifests; it is judged installed exactly when it is not disabled, has a
/// path, the manifest there can be read, and (where the expected manifest is
/// known) that manifest's version and key are the expected ones; otherwise it
/// is stale. A record is never judged absent.
pub proof fn law_record_states(record: ExtensionRecord, actual: Option<ManifestKeys>, expected: Option<ManifestKeys>)
    ensures
        (classify(record, actual, expected) == ExtensionInstallState::Disabled) <==> (record.state == Some(0i64)
            || record.has_disable_reasons),
        record.has_disable_reasons ==> classify(record, actual, expected) == ExtensionInstallState::Disabled,
        (classify(record, actual, expected) == ExtensionInstallState::Installed) <==> ({
            &&& record.state != Some(0i64)
            &&& !record.has_disable_reasons
            &&& record.path is Some
            &&& actual is Some
            &&& (expected matches Some(e) ==> ov(actual->0.version) == ov(e.version) && ov(actual->0.key) == ov(e.key))
        }),
        classify(record, actual, expected) != ExtensionInstallState::NotInstalled,
{
}

} // verus!
