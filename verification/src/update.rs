//! Update checking and applying: which components have a newer version, what the
//! user is told, and where plugin packages are fetched from.
use vstd::prelude::*;
use crate::text::{contains, occurs_in, push_replaced, replace_all, str_eq, trim, trimmed, joined, push_joined, views};

verus! {

broadcast use vstd::string::group_string_axioms;

/// An artifact named by the update manifest.
#[derive(Clone, Debug, PartialEq, Eq)]
pub struct ManifestArtifact {
    pub version: String,
    pub url: String,
}

/// The plugin section of the update manifest: a URL prefix and, per package, its
/// newest version.
#[derive(Clone, Debug, PartialEq, Eq)]
pub struct ManifestPlugins {
    pub url_prefix: String,
    pub packages: Vec<(String, String)>,
}

/// The remote update manifest.
#[derive(Clone, Debug, PartialEq, Eq)]
pub struct UpdateManifest {
    pub app: Option<ManifestArtifact>,
    pub plugins: Option<ManifestPlugins>,
    pub mca: Option<ManifestArtifact>,
}

/// How fetching the manifest went.
#[derive(Clone, Debug, PartialEq, Eq)]
pub enum ManifestFetch {
    /// No update URL is configured.
    NotConfigured,
    /// The manifest could not be fetched or read; the message says why.
    Failed(String),
    Loaded(UpdateManifest),
}

/// The update state of one component.
#[derive(Clone, Debug, PartialEq, Eq)]
pub struct ComponentUpdate {
    pub name: String,
    pub current: Option<String>,
    pub latest: Option<String>,
    pub available: bool,
    pub note: String,
}

/// Name, current version, newest version, whether an update is available, note.
pub type ComponentView = (Seq<char>, Option<Seq<char>>, Option<Seq<char>>, bool, Seq<char>);

/// A string that may be missing, as a value.
pub open spec fn ov(o: Option<String>) -> Option<Seq<char>> {
    match o {
        Some(s) => Some(s@),
        None => None,
    }
}

impl View for ComponentUpdate {
    type V = ComponentView;

    open spec fn view(&self) -> ComponentView {
        (self.name@, ov(self.current), ov(self.latest), self.available, self.note@)
    }
}

/// The result of an update check.
#[derive(Clone, Debug, PartialEq, Eq)]
pub struct UpdateCheckResult {
    /// A new version of the application itself is available.
    pub available: bool,
    /// That version.
    pub version: Option<String>,
    pub message: String,
    pub components: Vec<ComponentUpdate>,
}

/// The component list, as values.
pub open spec fn component_views(v: Seq<ComponentUpdate>) -> Seq<ComponentView> {
    v.map_values(|c: ComponentUpdate| c@)
}

pub open spec fn note_downloaded() -> Seq<char> {
    "已下载到 DSHPlusPlus.update.exe；退出后运行“更新到新版.cmd”即可生效"@
}

pub open spec fn note_staged_same() -> Seq<char> {
    "与清单一致；发现本地暂存的更新文件，退出后运行“更新到新版.cmd”"@
}

pub open spec fn note_latest() -> Seq<char> {
    "已是最新版本"@
}

pub open spec fn note_plugin_update() -> Seq<char> {
    "点击「更新插件与 MCA」下载，重启 DSH 后生效"@
}

pub open spec fn note_mca() -> Seq<char> {
    "点击「更新插件与 MCA」下载替换，重启后生效"@
}

pub open spec fn note_staged_new() -> Seq<char> {
    "发现本地暂存的新版本（DSHPlusPlus.update.exe）。请退出后运行“更新到新版.cmd”。"@
}

/// The application entry when the manifest could not be fetched.
pub open spec fn failed_view(version: Seq<char>, error: Seq<char>) -> ComponentView {
    ("app"@, Some(version), None, false, "清单获取失败："@ + error)
}

/// The application needs downloading: the manifest names another version and a URL.
pub open spec fn app_download_needed(version: Seq<char>, a: ManifestArtifact) -> bool {
    a.version@ != version && a.url@.len() > 0
}

/// The application entry for a manifest artifact `a`; `download` is how the
/// download and staging went, where one was needed.
pub open spec fn app_view(
    version: Seq<char>,
    a: ManifestArtifact,
    download: Result<(), String>,
    staged: bool,
) -> ComponentView {
    if app_download_needed(version, a) {
        match download {
            Ok(_) => ("app"@, Some(version), Some(a.version@), true, note_downloaded()),
            Err(e) => ("app"@, Some(version), Some(a.version@), false, e@),
        }
    } else if staged {
        ("app"@, Some(version), Some(a.version@), false, note_staged_same())
    } else {
        ("app"@, Some(version), Some(a.version@), false, note_latest())
    }
}

/// The version recorded for `name` in `table`, the first entry with that name.
pub open spec fn lookup(table: Seq<(String, String)>, name: Seq<char>) -> Option<Seq<char>>
    decreases table.len(),
{
    if table.len() == 0 {
        None
    } else if table[0].0@ == name {
        Some(table[0].1@)
    } else {
        lookup(table.drop_first(), name)
    }
}

/// The entry of plugin package `p` (name and newest version) given the installed
/// versions `local`.
pub open spec fn plugin_view(local: Seq<(String, String)>, p: (String, String)) -> ComponentView {
    let current = lookup(local, p.0@);
    let available = current != Some(p.1@);
    (p.0@, current, Some(p.1@), available, if available { note_plugin_update() } else { note_latest() })
}

/// The entries of the plugin packages, in manifest order.
pub open spec fn plugin_views(local: Seq<(String, String)>, packages: Seq<(String, String)>) -> Seq<
    ComponentView,
> {
    packages.map_values(|p: (String, String)| plugin_view(local, p))
}

/// The MCA entry.
pub open spec fn mca_view(a: ManifestArtifact) -> ComponentView {
    ("mca"@, None, Some(a.version@), a.url@.len() > 0, note_mca())
}

/// The DSH entry: installed version against the registry's newest.
pub open spec fn dsh_view(installed: Option<Seq<char>>, latest: Option<Seq<char>>) -> ComponentView {
    let available = match (installed, latest) {
        (Some(c), Some(l)) => c != l,
        _ => false,
    };
    let note = match (installed, latest) {
        (Some(c), Some(l)) => if c != l {
            "上游有新版 "@ + l + "：npm install -g @deepseek-ai/dsh@latest"@
        } else {
            note_latest()
        },
        (None, _) => "未安装 DSH（或无法读取版本）"@,
        (Some(c), None) => "本地 "@ + c + "；npm registry 查询失败（网络？）"@,
    };
    ("dsh"@, installed, latest, available, note)
}

/// The application entry when no manifest is configured but an update is staged.
pub open spec fn staged_view(version: Seq<char>) -> ComponentView {
    ("app"@, Some(version), None, true, note_staged_new())
}

/// The manifest, where one was loaded.
pub open spec fn loaded(fetch: ManifestFetch) -> Option<UpdateManifest> {
    match fetch {
        ManifestFetch::Loaded(m) => Some(m),
        _ => None,
    }
}

/// All component entries of an update check, in the order they are reported.
pub open spec fn check_components(
    version: Seq<char>,
    fetch: ManifestFetch,
    download: Result<(), String>,
    staged: bool,
    local: Seq<(String, String)>,
    dsh_installed: Option<Seq<char>>,
    dsh_latest: Option<Seq<char>>,
) -> Seq<ComponentView> {
    let c0 = match fetch {
        ManifestFetch::Failed(e) => seq![failed_view(version, e@)],
        _ => Seq::empty(),
    };
    let m = loaded(fetch);
    let c1 = match m {
        Some(man) => match man.app {
            Some(a) => c0.push(app_view(version, a, download, staged)),
            None => c0,
        },
        None => c0,
    };
    let c2 = match m {
        Some(man) => match man.plugins {
            Some(p) => c1 + plugin_views(local, p.packages@),
            None => c1,
        },
        None => c1,
    };
    let c3 = match m {
        Some(man) => match man.mca {
            Some(a) => c2.push(mca_view(a)),
            None => c2,
        },
        None => c2,
    };
    let c4 = c3.push(dsh_view(dsh_installed, dsh_latest));
    if m is None && staged {
        c4.push(staged_view(version))
    } else {
        c4
    }
}

/// Position of the first entry that offers a new application version.
pub open spec fn first_app_update(cs: Seq<ComponentView>) -> Option<int>
    decreases cs.len(),
{
    if cs.len() == 0 {
        None
    } else if cs[0].0 == "app"@ && cs[0].3 {
        Some(0)
    } else {
        match first_app_update(cs.drop_first()) {
            Some(i) => Some(i + 1),
            None => None,
        }
    }
}

/// The summary message of an update check.
pub open spec fn check_message(
    version: Seq<char>,
    cs: Seq<ComponentView>,
    manifest_loaded: bool,
    staged: bool,
) -> Seq<char> {
    match first_app_update(cs) {
        Some(i) => "发现新版本 "@ + (match cs[i].2 {
            Some(l) => l,
            None => "DSH++"@,
        }) + "（已下载），请退出后运行“更新到新版.cmd”。"@,
        None => if manifest_loaded {
            "DSH++ 已是最新（"@ + version + "）。"@
        } else if staged {
            "发现本地暂存更新，请退出后运行“更新到新版.cmd”。"@
        } else {
            "当前已是最新版本（"@ + version + "）。未发现待安装更新。"@
        },
    }
}

fn component(name: &str, current: Option<String>, latest: Option<String>, available: bool, note: String) -> (c: ComponentUpdate)
    ensures
        c@ == (name@, ov(current), ov(latest), available, note@),
{
    ComponentUpdate { name: String::from_str(name), current, latest, available, note }
}

fn text(s: &str) -> (r: String)
    ensures
        r@ == s@,
{
    String::from_str(s)
}

/// Whether the application must be downloaded for manifest artifact `artifact`.
pub fn app_needs_download(version: &str, artifact: &ManifestArtifact) -> (r: bool)
    ensures
        r == app_download_needed(version@, *artifact),
{
    !str_eq(artifact.version.as_str(), version) && !artifact.url.as_str().is_empty()
}

fn app_component(
    version: &str,
    a: &ManifestArtifact,
    download: &Result<(), String>,
    staged: bool,
) -> (c: ComponentUpdate)
    ensures
        c@ == app_view(version@, *a, *download, staged),
{
    let current = Some(text(version));
    let latest = Some(a.version.clone());
    if app_needs_download(version, a) {
        match download {
            Ok(_) => component("app", current, latest, true, text(
                "已下载到 DSHPlusPlus.update.exe；退出后运行“更新到新版.cmd”即可生效",
            )),
            Err(e) => component("app", current, latest, false, e.clone()),
        }
    } else if staged {
        component("app", current, latest, false, text(
            "与清单一致；发现本地暂存的更新文件，退出后运行“更新到新版.cmd”",
        ))
    } else {
        component("app", current, latest, false, text("已是最新版本"))
    }
}

/// The installed version of `name` according to `table`.
pub fn lookup_version(table: &Vec<(String, String)>, name: &String) -> (r: Option<String>)
    ensures
        ov(r) == lookup(table@, name@),
{
    let mut i: usize = 0;
    assert(table@.skip(0) =~= table@);
    while i < table.len()
        invariant
            i <= table@.len(),
            lookup(table@, name@) == lookup(table@.skip(i as int), name@),
        decreases table.len() - i,
    {
        assert(table@.skip(i as int)[0] == table@[i as int]);
        if table[i].0 == *name {
            return Some(table[i].1.clone());
        }
        assert(table@.skip(i as int).drop_first() =~= table@.skip(i + 1));
        i = i + 1;
    }
    None
}

fn plugin_component(local: &Vec<(String, String)>, p: &(String, String)) -> (c: ComponentUpdate)
    ensures
        c@ == plugin_view(local@, *p),
{
    let current = lookup_version(local, &p.0);
    let available = match &current {
        Some(c) => !(*c == p.1),
        None => true,
    };
    let note = if available {
        text("点击「更新插件与 MCA」下载，重启 DSH 后生效")
    } else {
        text("已是最新版本")
    };
    component_named(p.0.clone(), current, Some(p.1.clone()), available, note)
}

fn component_named(name: String, current: Option<String>, latest: Option<String>, available: bool, note: String) -> (c: ComponentUpdate)
    ensures
        c@ == (name@, ov(current), ov(latest), available, note@),
{
    ComponentUpdate { name, current, latest, available, note }
}

fn dsh_component(installed: &Option<String>, latest: &Option<String>) -> (c: ComponentUpdate)
    ensures
        c@ == dsh_view(ov(*installed), ov(*latest)),
{
    let available = match (installed, latest) {
        (Some(c), Some(l)) => !(*c == *l),
        _ => false,
    };
    let note = match (installed, latest) {
        (Some(c), Some(l)) => if !(*c == *l) {
            let mut n = text("上游有新版 ");
            n.append(l.as_str());
            n.append("：npm install -g @deepseek-ai/dsh@latest");
            n
        } else {
            text("已是最新版本")
        },
        (None, _) => text("未安装 DSH（或无法读取版本）"),
        (Some(c), None) => {
            let mut n = text("本地 ");
            n.append(c.as_str());
            n.append("；npm registry 查询失败（网络？）");
            n
        },
    };
    component("dsh", installed.clone(), latest.clone(), available, note)
}

proof fn lemma_component_views_push(v: Seq<ComponentUpdate>, c: ComponentUpdate)
    ensures
        component_views(v.push(c)) == component_views(v).push(c@),
{
    assert(component_views(v.push(c)) =~= component_views(v).push(c@));
}

fn push_component(v: &mut Vec<ComponentUpdate>, c: ComponentUpdate)
    ensures
        component_views(final(v)@) == component_views(old(v)@).push(c@),
{
    proof { lemma_component_views_push(v@, c); }
    v.push(c);
}

fn find_app_update(cs: &Vec<ComponentUpdate>) -> (r: Option<usize>)
    ensures
        first_app_update(component_views(cs@)) == (match r {
            Some(j) => Some(j as int),
            None => None,
        }),
        r matches Some(j) ==> j < cs@.len(),
{
    let ghost views = component_views(cs@);
    let mut i: usize = 0;
    assert(views.skip(0) =~= views);
    while i < cs.len()
        invariant
            i <= cs@.len(),
            views == component_views(cs@),
            first_app_update(views) == (match first_app_update(views.skip(i as int)) {
                Some(j) => Some(j + i),
                None => None,
            }),
        decreases cs.len() - i,
    {
        assert(views.skip(i as int)[0] == cs@[i as int]@);
        if str_eq(cs[i].name.as_str(), "app") && cs[i].available {
            return Some(i);
        }
        assert(views.skip(i as int).drop_first() =~= views.skip(i + 1));
        i = i + 1;
    }
    assert(views.skip(i as int).len() == 0);
    None
}

/// Assembles the result of an update check for application version `version`:
/// `fetch` is how fetching the manifest went, `download` how downloading and staging
/// the new application went (looked at only where `app_needs_download` held),
/// `staged` whether an update file is staged next to the program, `local` the
/// installed plugin versions, and the DSH versions installed and published.
pub fn update_check_result(
    version: &str,
    fetch: &ManifestFetch,
    download: &Result<(), String>,
    staged: bool,
    local: &Vec<(String, String)>,
    dsh_installed: &Option<String>,
    dsh_latest: &Option<String>,
) -> (r: UpdateCheckResult)
    ensures
        component_views(r.components@) == check_components(
            version@,
            *fetch,
            *download,
            staged,
            local@,
            ov(*dsh_installed),
            ov(*dsh_latest),
        ),
        r.available == first_app_update(component_views(r.components@)) is Some,
        ov(r.version) == (match first_app_update(component_views(r.components@)) {
            Some(i) => component_views(r.components@)[i].2,
            None => None,
        }),
        r.message@ == check_message(
            version@,
            component_views(r.components@),
            loaded(*fetch) is Some,
            staged,
        ),
{
    let mut cs: Vec<ComponentUpdate> = Vec::new();
    assert(component_views(cs@) =~= Seq::<ComponentView>::empty());
    if let ManifestFetch::Failed(e) = fetch {
        let mut note = text("清单获取失败：");
        note.append(e.as_str());
        push_component(&mut cs, component("app", Some(text(version)), None, false, note));
        assert(component_views(cs@) =~= seq![failed_view(version@, e@)]);
    }
    if let ManifestFetch::Loaded(m) = fetch {
        if let Some(a) = &m.app {
            push_component(&mut cs, app_component(version, a, download, staged));
        }
        if let Some(p) = &m.plugins {
            let ghost before = component_views(cs@);
            let mut k: usize = 0;
            assert(plugin_views(local@, p.packages@.take(0)) =~= Seq::<ComponentView>::empty());
            assert(before + plugin_views(local@, p.packages@.take(0)) =~= before);
            while k < p.packages.len()
                invariant
                    k <= p.packages@.len(),
                    component_views(cs@) == before + plugin_views(local@, p.packages@.take(k as int)),
                decreases p.packages.len() - k,
            {
                let c = plugin_component(local, &p.packages[k]);
                push_component(&mut cs, c);
                assert(plugin_views(local@, p.packages@.take(k + 1)) =~= plugin_views(
                    local@,
                    p.packages@.take(k as int),
                ).push(plugin_view(local@, p.packages@[k as int])));
                assert(component_views(cs@) =~= before + plugin_views(local@, p.packages@.take(k + 1)));
                k = k + 1;
            }
            assert(p.packages@.take(k as int) =~= p.packages@);
        }
        if let Some(a) = &m.mca {
            let ok = !a.url.as_str().is_empty();
            push_component(&mut cs, component("mca", None, Some(a.version.clone()), ok, text(
                "点击「更新插件与 MCA」下载替换，重启后生效",
            )));
        }
    }
    push_component(&mut cs, dsh_component(dsh_installed, dsh_latest));
    let manifest_loaded = match fetch {
        ManifestFetch::Loaded(_) => true,
        _ => false,
    };
    if !manifest_loaded && staged {
        push_component(&mut cs, component("app", Some(text(version)), None, true, text(
            "发现本地暂存的新版本（DSHPlusPlus.update.exe）。请退出后运行“更新到新版.cmd”。",
        )));
    }
    let ghost views = component_views(cs@);
    assert(views == check_components(
        version@,
        *fetch,
        *download,
        staged,
        local@,
        ov(*dsh_installed),
        ov(*dsh_latest),
    ));
    let found = find_app_update(&cs);
    let (available, latest) = match found {
        Some(j) => {
            assert(first_app_update(views) == Some(j as int));
            (true, cs[j].latest.clone())
        },
        None => (false, None),
    };
    let message = match found {
        Some(_) => {
            let mut m = text("发现新版本 ");
            match &latest {
                Some(l) => m.append(l.as_str()),
                None => m.append("DSH++"),
            }
            m.append("（已下载），请退出后运行“更新到新版.cmd”。");
            m
        },
        None => if manifest_loaded {
            let mut m = text("DSH++ 已是最新（");
            m.append(version);
            m.append("）。");
            m
        } else if staged {
            text("发现本地暂存更新，请退出后运行“更新到新版.cmd”。")
        } else {
            let mut m = text("当前已是最新版本（");
            m.append(version);
            m.append("）。未发现待安装更新。");
            m
        },
    };
    UpdateCheckResult { available, version: latest, message, components: cs }
}


/// The remote update URL: the configured one, trimmed, unless that is empty.
pub fn remote_update_url(update_url: &str) -> (r: Option<String>)
    ensures
        ov(r) == (if trim(update_url@).len() == 0 { None } else { Some(trim(update_url@)) }),
{
    let t = trimmed(update_url);
    if t.as_str().is_empty() {
        None
    } else {
        Some(t)
    }
}

/// The message when plugins and MCA cannot be updated for want of an update URL.
pub fn no_update_source_error() -> (r: String)
    ensures
        r@ == "未配置远程更新源（运行环境页 → 更新源 URL）。插件与 MCA 无法在线更新。"@,
{
    text("未配置远程更新源（运行环境页 → 更新源 URL）。插件与 MCA 无法在线更新。")
}

/// The application artifact of a manifest, where an older manifest format gives the
/// version and URL at its top level instead.
pub open spec fn app_artifact_of(
    app: Option<ManifestArtifact>,
    top_version: Option<Seq<char>>,
    top_url: Option<Seq<char>>,
) -> Option<(Seq<char>, Seq<char>)> {
    match app {
        Some(a) => Some((a.version@, a.url@)),
        None => {
            let v = match top_version {
                Some(v) => v,
                None => Seq::empty(),
            };
            let u = match top_url {
                Some(u) => u,
                None => Seq::empty(),
            };
            if v.len() > 0 || u.len() > 0 {
                Some((v, u))
            } else {
                None
            }
        },
    }
}

/// Accepts an older manifest: with no `app` section, its top-level `version` and `url`
/// strings stand for the application when either is non-empty.
pub fn manifest_app_with_legacy(
    app: Option<ManifestArtifact>,
    top_version: Option<String>,
    top_url: Option<String>,
) -> (r: Option<ManifestArtifact>)
    ensures
        (match r {
            Some(a) => Some((a.version@, a.url@)),
            None => None,
        }) == app_artifact_of(app, ov(top_version), ov(top_url)),
{
    match app {
        Some(a) => Some(a),
        None => {
            let version = match top_version {
                Some(v) => v,
                None => String::new(),
            };
            let url = match top_url {
                Some(u) => u,
                None => String::new(),
            };
            if !version.as_str().is_empty() || !url.as_str().is_empty() {
                Some(ManifestArtifact { version, url })
            } else {
                None
            }
        },
    }
}

/// Whether plugin `package` must be fetched to reach version `latest`.
pub fn plugin_needs_update(local: &Vec<(String, String)>, package: &String, latest: &String) -> (r:
    bool)
    ensures
        r == (lookup(local@, package@) != Some(latest@)),
{
    match lookup_version(local, package) {
        Some(current) => !(current == *latest),
        None => true,
    }
}

/// The file stem of a plugin package: a scoped key `@dshplusplus/<name>` has its
/// scope written as `dshplusplus-`; a bare name gets that prefix.
pub open spec fn tarball_stem(package: Seq<char>) -> Seq<char> {
    if occurs_in(package, "@dshplusplus/"@) {
        replace_all(package, "@dshplusplus/"@, "dshplusplus-"@)
    } else {
        "dshplusplus-"@ + package
    }
}

/// The tarball name of a plugin version: `dshplusplus-<name>-<version>.tgz`.
pub open spec fn tarball_name(package: Seq<char>, latest: Seq<char>) -> Seq<char> {
    tarball_stem(package) + "-"@ + latest + ".tgz"@
}

/// The tarball file name of a plugin version.
pub fn plugin_tarball_name(package: &str, latest: &str) -> (r: String)
    ensures
        r@ == tarball_name(package@, latest@),
{
    proof {
        reveal_strlit("@dshplusplus/");
    }
    let mut r = String::new();
    if contains(package, "@dshplusplus/") {
        push_replaced(&mut r, package, "@dshplusplus/", "dshplusplus-");
    } else {
        r.append("dshplusplus-");
        r.append(package);
    }
    r.append("-");
    r.append(latest);
    r.append(".tgz");
    r
}

/// The download URL of a plugin version: the manifest's URL prefix followed by the
/// tarball name.
pub fn plugin_tarball_url(url_prefix: &str, package: &str, latest: &str) -> (r: String)
    ensures
        r@ == url_prefix@ + tarball_name(package@, latest@),
{
    let mut r = String::from_str(url_prefix);
    let name = plugin_tarball_name(package, latest);
    r.append(name.as_str());
    r
}

/// The directory a plugin tarball is unpacked into: `extract-<name>-<version>`.
pub fn plugin_extract_dir_name(package: &str, latest: &str) -> (r: String)
    ensures
        r@ == "extract-"@ + package@ + "-"@ + latest@,
{
    let mut r = text("extract-");
    r.append(package);
    r.append("-");
    r.append(latest);
    r
}

/// How an applied update is reported: `<name> → <version>`.
pub fn applied_entry(name: &str, version: &str) -> (r: String)
    ensures
        r@ == name@ + " → "@ + version@,
{
    let mut r = String::from_str(name);
    r.append(" → ");
    r.append(version);
    r
}

/// The message after applying updates.
pub open spec fn apply_message(applied: Seq<Seq<char>>) -> Seq<char> {
    if applied.len() == 0 {
        "插件与 MCA 均已是最新版本"@
    } else {
        "已更新："@ + joined(applied, "，"@) + "。重启 DSH 后插件生效；MCA 会在下次启动时自动使用新版本。"@
    }
}

/// The message after applying the updates listed in `applied`.
pub fn apply_summary(applied: &Vec<String>) -> (r: String)
    ensures
        r@ == apply_message(views(applied@)),
{
    if applied.len() == 0 {
        return text("插件与 MCA 均已是最新版本");
    }
    let mut r = text("已更新：");
    push_joined(&mut r, applied, "，");
    r.append("。重启 DSH 后插件生效；MCA 会在下次启动时自动使用新版本。");
    r
}


/// Law: in the report of an update check whose manifest lists plugin packages,
/// the entry of each package (after the application's entry, where there is
/// one) names that package, shows the installed version recorded for it and the
/// manifest's version, and offers an update exactly when the installed version
/// is missing or differs from the manifest's; an entry that offers none says
/// it is up to date.
pub proof fn law_plugin_update_offered_iff_versions_differ(
    version: Seq<char>,
    m: UpdateManifest,
    download: Result<(), String>,
    staged: bool,
    local: Seq<(String, String)>,
    dsh_installed: Option<Seq<char>>,
    dsh_latest: Option<Seq<char>>,
    k: int,
)
    requires
        m.plugins is Some,
        0 <= k < m.plugins->0.packages@.len(),
    ensures
        ({
            let cs = check_components(version, ManifestFetch::Loaded(m), download, staged, local, dsh_installed, dsh_latest);
            let at = (if m.app is Some { 1int } else { 0int }) + k;
            let name = m.plugins->0.packages@[k].0@;
            let latest = m.plugins->0.packages@[k].1@;
            &&& 0 <= at < cs.len()
            &&& cs[at].0 == name
            &&& cs[at].1 == lookup(local, name)
            &&& cs[at].2 == Some(latest)
            &&& (cs[at].3 <==> lookup(local, name) != Some(latest))
            &&& !cs[at].3 ==> cs[at].4 == "已是最新版本"@
            &&& cs[at].3 ==> cs[at].4 == "点击「更新插件与 MCA」下载，重启 DSH 后生效"@
        }),
{
    let cs = check_components(version, ManifestFetch::Loaded(m), download, staged, local, dsh_installed, dsh_latest);
    let c1: Seq<ComponentView> = match m.app {
        Some(a) => Seq::<ComponentView>::empty().push(app_view(version, a, download, staged)),
        None => Seq::empty(),
    };
    let pv = plugin_views(local, m.plugins->0.packages@);
    let c2 = c1 + pv;
    assert(c1.len() == (if m.app is Some { 1int } else { 0int }));
    assert(c2[c1.len() + k] == pv[k]);
    let c3 = match m.mca {
        Some(a) => c2.push(mca_view(a)),
        None => c2,
    };
    assert(c3[c1.len() + k] == pv[k]);
    assert(cs[c1.len() + k] == pv[k]);
}

} // verus!
