//! The MCA sidecar (content and computer capabilities): how it is started, how its
//! agent route is configured, and how its health is read back.
use vstd::prelude::*;
use crate::config::{StoredConfig, capability_names, str_views, mca_capabilities};
use crate::text::{decimal, push_decimal, str_eq, views};

verus! {

broadcast use vstd::string::group_string_axioms;

/// The port of the MCA instance that belongs to this application.
pub const MCA_PORT: u16 = 18767;

/// The port of the browser gateway.
pub const BROWSER_PORT: u16 = 18766;

proof fn lemma_views_push(v: Seq<String>, s: String)
    ensures
        views(v.push(s)) == views(v).push(s@),
{
    assert(views(v.push(s)) =~= views(v).push(s@));
}

fn push_text(v: &mut Vec<String>, s: &str)
    ensures
        views(final(v)@) == views(old(v)@).push(s@),
{
    let t = String::from_str(s);
    proof { lemma_views_push(v@, t); }
    v.push(t);
}

fn push_string(v: &mut Vec<String>, s: String)
    ensures
        views(final(v)@) == views(old(v)@).push(s@),
{
    proof { lemma_views_push(v@, s); }
    v.push(s);
}

/// `http://127.0.0.1:<port>`.
pub open spec fn local_url(port: u16) -> Seq<char> {
    "http://127.0.0.1:"@ + decimal(port as nat)
}

/// `http://127.0.0.1:<port>`.
pub fn local_base_url(port: u16) -> (r: String)
    ensures
        r@ == local_url(port),
{
    let mut r = String::from_str("http://127.0.0.1:");
    push_decimal(&mut r, port as u64);
    r
}

/// The local URL of `port` followed by `path`.
pub fn local_endpoint(port: u16, path: &str) -> (r: String)
    ensures
        r@ == local_url(port) + path@,
{
    let mut r = String::from_str("http://127.0.0.1:");
    push_decimal(&mut r, port as u64);
    r.append(path);
    r
}

/// The arguments of `mca-runtime serve` up to `--data`, after which the caller puts
/// the data directory; the agent base URL points at this very instance.
pub fn mca_serve_args(port: u16) -> (r: Vec<String>)
    ensures
        views(r@) == seq![
            "serve"@,
            "--host"@,
            "127.0.0.1"@,
            "--port"@,
            decimal(port as nat),
            "--agent-base-url"@,
            local_url(port),
            "--data"@,
        ],
{
    let mut r: Vec<String> = Vec::new();
    assert(views(r@) =~= Seq::<Seq<char>>::empty());
    push_text(&mut r, "serve");
    push_text(&mut r, "--host");
    push_text(&mut r, "127.0.0.1");
    push_text(&mut r, "--port");
    let mut p = String::new();
    push_decimal(&mut p, port as u64);
    push_string(&mut r, p);
    push_text(&mut r, "--agent-base-url");
    push_string(&mut r, local_base_url(port));
    push_text(&mut r, "--data");
    assert(views(r@) =~= seq![
        "serve"@,
        "--host"@,
        "127.0.0.1"@,
        "--port"@,
        decimal(port as nat),
        "--agent-base-url"@,
        local_url(port),
        "--data"@,
    ]);
    r
}

/// The arguments of the browser gateway script up to `--data`, after which the
/// caller puts the data directory.
pub fn browser_gateway_args(port: u16) -> (r: Vec<String>)
    ensures
        views(r@) == seq!["--host"@, "127.0.0.1"@, "--port"@, decimal(port as nat), "--data"@],
{
    let mut r: Vec<String> = Vec::new();
    assert(views(r@) =~= Seq::<Seq<char>>::empty());
    push_text(&mut r, "--host");
    push_text(&mut r, "127.0.0.1");
    push_text(&mut r, "--port");
    let mut p = String::new();
    push_decimal(&mut p, port as u64);
    push_string(&mut r, p);
    push_text(&mut r, "--data");
    assert(views(r@) =~= seq!["--host"@, "127.0.0.1"@, "--port"@, decimal(port as nat), "--data"@]);
    r
}

/// The `PATH` of the MCA process: the shim directory in front of the inherited one.
pub fn shim_path_env(shim_dir: &str, inherited: &str) -> (r: String)
    ensures
        r@ == shim_dir@ + ";"@ + inherited@,
{
    let mut r = String::from_str(shim_dir);
    r.append(";");
    r.append(inherited);
    r
}

/// The route settings pushed to MCA for the DeepSeek agent.
#[derive(Clone, Debug, PartialEq, Eq)]
pub struct McaRouteSettings {
    /// `assist` when MCA is on with at least one capability, else `off`.
    pub mode: &'static str,
    pub capabilities: Vec<&'static str>,
    /// External content is allowed when web reading is on.
    pub allow_external: bool,
    pub model_name: String,
    /// Capabilities are never released from the route: `false`.
    pub capability_release_enabled: bool,
    /// The model provider and family: `deepseek`.
    pub model_provider: &'static str,
    pub model_family: &'static str,
    /// Computer actions: only low-risk ones, each confirmed, access asked for.
    pub computer_allowed_risk: &'static str,
    pub computer_require_confirmation: bool,
    pub computer_access_mode: &'static str,
}

/// The capabilities routed: those switched on, or none when MCA is off.
pub open spec fn routed_capabilities(c: StoredConfig) -> Seq<Seq<char>> {
    if c.enable_mca { capability_names(c) } else { Seq::empty() }
}

/// The route settings for a configuration.
pub fn mca_route_settings(config: &StoredConfig) -> (r: McaRouteSettings)
    ensures
        str_views(r.capabilities@) == routed_capabilities(*config),
        r.mode@ == (if config.enable_mca && routed_capabilities(*config).len() > 0 {
            "assist"@
        } else {
            "off"@
        }),
        r.allow_external == (config.enable_mca && config.mca_web),
        r.model_name == config.deepseek_model,
        !r.capability_release_enabled,
        r.model_provider@ == "deepseek"@,
        r.model_family@ == "deepseek"@,
        r.computer_allowed_risk@ == "low"@,
        r.computer_require_confirmation,
        r.computer_access_mode@ == "ask"@,
{
    let capabilities = if config.enable_mca {
        mca_capabilities(config)
    } else {
        let v: Vec<&'static str> = Vec::new();
        assert(str_views(v@) =~= Seq::<Seq<char>>::empty());
        v
    };
    let mode = if config.enable_mca && capabilities.len() > 0 { "assist" } else { "off" };
    McaRouteSettings {
        mode,
        capabilities,
        allow_external: config.enable_mca && config.mca_web,
        model_name: config.deepseek_model.clone(),
        capability_release_enabled: false,
        model_provider: "deepseek",
        model_family: "deepseek",
        computer_allowed_risk: "low",
        computer_require_confirmation: true,
        computer_access_mode: "ask",
    }
}

/// A computer capability is routed, so the desktop provider must be enabled.
pub fn wants_desktop_provider(config: &StoredConfig) -> (r: bool)
    ensures
        r == (config.enable_mca && (config.mca_computer_observe || config.mca_computer_act)),
{
    config.enable_mca && (config.mca_computer_observe || config.mca_computer_act)
}

/// How configuring the route ended: the MCA state and message to show, and whether
/// the configuring failed.
pub open spec fn route_outcome(
    put_error: Option<Seq<char>>,
    reused: bool,
    enable_mca: bool,
    capability_count: nat,
) -> (bool, Seq<char>, bool) {
    match put_error {
        Some(e) => if reused {
            (false, "端口 "@ + decimal(MCA_PORT as nat) + " 不是可用的 MCA 服务，或能力配置不受支持："@ + e, true)
        } else {
            (true, "MCA 已启动，能力下发失败："@ + e, false)
        },
        None => (true, if enable_mca {
            decimal(capability_count) + " 项 MCA 能力已就绪"@
        } else {
            "MCA 能力路由已关闭"@
        }, false),
    }
}

/// The outcome of pushing the route: `.0` is whether MCA counts as running (else it
/// is in error), `.1` its message, `.2` whether the whole configuring fails.
/// `put_error` is the error of the request, if it failed; `reused` whether MCA was
/// already running on its port before this start.
pub fn mca_route_outcome(
    put_error: &Option<String>,
    reused: bool,
    enable_mca: bool,
    capability_count: usize,
) -> (r: (bool, String, bool))
    ensures
        (r.0, r.1@, r.2) == route_outcome(
            match *put_error {
                Some(e) => Some(e@),
                None => None,
            },
            reused,
            enable_mca,
            capability_count as nat,
        ),
{
    match put_error {
        Some(e) => if reused {
            let mut m = String::from_str("端口 ");
            push_decimal(&mut m, MCA_PORT as u64);
            m.append(" 不是可用的 MCA 服务，或能力配置不受支持：");
            m.append(e.as_str());
            (false, m, true)
        } else {
            let mut m = String::from_str("MCA 已启动，能力下发失败：");
            m.append(e.as_str());
            (true, m, false)
        },
        None => if enable_mca {
            let mut m = String::new();
            push_decimal(&mut m, capability_count as u64);
            m.append(" 项 MCA 能力已就绪");
            (true, m, false)
        } else {
            (true, String::from_str("MCA 能力路由已关闭"), false)
        },
    }
}

/// The message after enabling the desktop provider failed.
pub fn desktop_provider_error(error: &str) -> (r: String)
    ensures
        r@ == "电脑 Provider 启用失败："@ + error@,
{
    let mut m = String::from_str("电脑 Provider 启用失败：");
    m.append(error);
    m
}

/// Why the computer provider cannot be enabled now, if it cannot.
pub fn computer_provider_precheck(enable_mca: bool, mca_listening: bool) -> (r: Result<(), String>)
    ensures
        r matches Ok(_) <==> enable_mca && mca_listening,
        r matches Err(m) ==> m@ == (if !enable_mca {
            "请先在扩展能力中启用 MCA 能力层"@
        } else {
            "MCA 尚未运行，请先点击“启动 DSH”启动能力层"@
        }),
{
    if !enable_mca {
        return Err(String::from_str("请先在扩展能力中启用 MCA 能力层"));
    }
    if !mca_listening {
        return Err(String::from_str("MCA 尚未运行，请先点击“启动 DSH”启动能力层"));
    }
    Ok(())
}

/// The MCA providers whose health the capability cards show.
pub open spec fn key_provider(id: Seq<char>) -> bool {
    id == "wheel.image-metadata"@ || id == "specialist.easyocr"@ || id == "builtin.windows-ocr"@
        || id == "pipeline.media-vision"@ || id == "pipeline.media-local"@ || id
        == "specialist.whisper"@ || id == "specialist.pyannote-diarization"@ || id
        == "wheel.office-documents"@ || id == "wheel.web-collection"@ || id == "builtin.html"@
        || id == "wheel.playwright-browser"@ || id == "wheel.yt-dlp-online-media"@ || id
        == "wheel.pyautogui-desktop"@
}

fn is_key_provider(id: &str) -> (r: bool)
    ensures
        r == key_provider(id@),
{
    str_eq(id, "wheel.image-metadata") || str_eq(id, "specialist.easyocr") || str_eq(
        id,
        "builtin.windows-ocr",
    ) || str_eq(id, "pipeline.media-vision") || str_eq(id, "pipeline.media-local") || str_eq(
        id,
        "specialist.whisper",
    ) || str_eq(id, "specialist.pyannote-diarization") || str_eq(id, "wheel.office-documents")
        || str_eq(id, "wheel.web-collection") || str_eq(id, "builtin.html") || str_eq(
        id,
        "wheel.playwright-browser",
    ) || str_eq(id, "wheel.yt-dlp-online-media") || str_eq(id, "wheel.pyautogui-desktop")
}

/// One provider as MCA reports it; fields missing or of another type are `None`.
#[derive(Clone, Debug, PartialEq, Eq)]
pub struct ProviderRecord {
    pub provider_id: Option<String>,
    pub enabled: Option<bool>,
    pub available: Option<bool>,
    pub detail: Option<String>,
}

/// The tool-level health of one provider.
#[derive(Clone, Debug, PartialEq, Eq)]
pub struct McaProviderView {
    pub provider_id: String,
    pub enabled: bool,
    pub available: bool,
    pub detail: String,
}

pub type ProviderView = (Seq<char>, bool, bool, Seq<char>);

/// A text field, empty where missing.
pub open spec fn or_empty(o: Option<String>) -> Seq<char> {
    match o {
        Some(s) => s@,
        None => Seq::empty(),
    }
}

/// A flag, false where missing.
pub open spec fn or_false(o: Option<bool>) -> bool {
    match o {
        Some(b) => b,
        None => false,
    }
}

/// The key providers among `records`, in order, with missing fields defaulted.
pub open spec fn key_provider_views(records: Seq<ProviderRecord>) -> Seq<ProviderView>
    decreases records.len(),
{
    if records.len() == 0 {
        Seq::empty()
    } else {
        let before = key_provider_views(records.drop_last());
        let r = records.last();
        if key_provider(or_empty(r.provider_id)) {
            before.push((or_empty(r.provider_id), or_false(r.enabled), or_false(r.available), or_empty(r.detail)))
        } else {
            before
        }
    }
}

pub open spec fn provider_views(v: Seq<McaProviderView>) -> Seq<ProviderView> {
    v.map_values(|p: McaProviderView| (p.provider_id@, p.enabled, p.available, p.detail@))
}

fn text_or_empty(o: &Option<String>) -> (r: String)
    ensures
        r@ == or_empty(*o),
{
    match o {
        Some(s) => s.clone(),
        None => String::new(),
    }
}

/// The health of the key providers among those MCA reported.
pub fn key_providers(records: &Vec<ProviderRecord>) -> (r: Vec<McaProviderView>)
    ensures
        provider_views(r@) == key_provider_views(records@),
{
    let mut out: Vec<McaProviderView> = Vec::new();
    let mut i: usize = 0;
    assert(records@.take(0) =~= Seq::<ProviderRecord>::empty());
    assert(provider_views(out@) =~= Seq::<ProviderView>::empty());
    while i < records.len()
        invariant
            i <= records@.len(),
            provider_views(out@) == key_provider_views(records@.take(i as int)),
        decreases records.len() - i,
    {
        assert(records@.take(i + 1).drop_last() =~= records@.take(i as int));
        assert(records@.take(i + 1).last() == records@[i as int]);
        let r = &records[i];
        let id = text_or_empty(&r.provider_id);
        if is_key_provider(id.as_str()) {
            let v = McaProviderView {
                provider_id: id,
                enabled: match r.enabled { Some(b) => b, None => false },
                available: match r.available { Some(b) => b, None => false },
                detail: text_or_empty(&r.detail),
            };
            let ghost before = out@;
            out.push(v);
            assert(provider_views(out@) =~= provider_views(before).push((v.provider_id@, v.enabled, v.available, v.detail@)));
        }
        i = i + 1;
    }
    assert(records@.take(i as int) =~= records@);
    out
}

/// One health layer of an agent route.
#[derive(Clone, Debug, PartialEq, Eq)]
pub struct LayerRecord {
    pub blocking: Option<bool>,
    pub detail: Option<String>,
}

/// One agent route as MCA reports it; fields missing or of another type are `None`
/// (lists keep only their string entries).
#[derive(Clone, Debug, PartialEq, Eq)]
pub struct RouteRecord {
    pub agent_id: Option<String>,
    pub route_available: Option<bool>,
    pub capabilities: Option<Vec<String>>,
    pub available_capabilities: Option<Vec<String>>,
    pub computer_provider_enabled: Option<bool>,
    pub health_overall: Option<String>,
    pub health_layers: Option<Vec<LayerRecord>>,
}

/// The live view of the DeepSeek agent route.
#[derive(Clone, Debug, PartialEq, Eq)]
pub struct McaRouteView {
    pub agent_id: String,
    pub route_available: bool,
    pub capabilities: Vec<String>,
    pub available_capabilities: Vec<String>,
    pub computer_provider_enabled: bool,
    /// Overall health, `unknown` where MCA gives none.
    pub health: String,
    /// The detail of the first blocking layer, else of the first layer.
    pub health_detail: String,
}

/// Position of the first route of the DeepSeek agent.
pub open spec fn first_deepseek_route(routes: Seq<RouteRecord>) -> Option<int>
    decreases routes.len(),
{
    if routes.len() == 0 {
        None
    } else if ov_str(routes[0].agent_id) == Some("deepseek-tui"@) {
        Some(0)
    } else {
        match first_deepseek_route(routes.drop_first()) {
            Some(i) => Some(i + 1),
            None => None,
        }
    }
}

pub open spec fn ov_str(o: Option<String>) -> Option<Seq<char>> {
    match o {
        Some(s) => Some(s@),
        None => None,
    }
}

/// Position of the first blocking layer.
pub open spec fn first_blocking(layers: Seq<LayerRecord>) -> Option<int>
    decreases layers.len(),
{
    if layers.len() == 0 {
        None
    } else if layers[0].blocking == Some(true) {
        Some(0)
    } else {
        match first_blocking(layers.drop_first()) {
            Some(i) => Some(i + 1),
            None => None,
        }
    }
}

/// The health detail of a route: that of the first blocking layer, else of the first
/// layer, else empty.
pub open spec fn health_detail_of(layers: Option<Vec<LayerRecord>>) -> Seq<char> {
    match layers {
        Some(l) => match first_blocking(l@) {
            Some(i) => or_empty(l@[i].detail),
            None => if l@.len() > 0 { or_empty(l@[0].detail) } else { Seq::empty() },
        },
        None => Seq::empty(),
    }
}

/// A string list, empty where missing.
pub open spec fn list_or_empty(o: Option<Vec<String>>) -> Seq<Seq<char>> {
    match o {
        Some(v) => views(v@),
        None => Seq::empty(),
    }
}

fn copy_list(o: &Option<Vec<String>>) -> (r: Vec<String>)
    ensures
        views(r@) == list_or_empty(*o),
{
    let mut out: Vec<String> = Vec::new();
    assert(views(out@) =~= Seq::<Seq<char>>::empty());
    if let Some(v) = o {
        let mut i: usize = 0;
        while i < v.len()
            invariant
                i <= v@.len(),
                views(out@) == views(v@).take(i as int),
            decreases v.len() - i,
        {
            push_string(&mut out, v[i].clone());
            assert(views(out@) =~= views(v@).take(i + 1));
            i = i + 1;
        }
        assert(views(v@).take(i as int) =~= views(v@));
    }
    out
}

fn find_blocking(layers: &Vec<LayerRecord>) -> (r: Option<usize>)
    ensures
        first_blocking(layers@) == (match r {
            Some(i) => Some(i as int),
            None => None,
        }),
        r matches Some(i) ==> i < layers@.len(),
{
    let mut i: usize = 0;
    assert(layers@.skip(0) =~= layers@);
    while i < layers.len()
        invariant
            i <= layers@.len(),
            first_blocking(layers@) == (match first_blocking(layers@.skip(i as int)) {
                Some(j) => Some(j + i),
                None => None,
            }),
        decreases layers.len() - i,
    {
        assert(layers@.skip(i as int)[0] == layers@[i as int]);
        if layers[i].blocking == Some(true) {
            return Some(i);
        }
        assert(layers@.skip(i as int).drop_first() =~= layers@.skip(i + 1));
        i = i + 1;
    }
    assert(layers@.skip(i as int).len() == 0);
    None
}

fn find_deepseek_route(routes: &Vec<RouteRecord>) -> (r: Option<usize>)
    ensures
        first_deepseek_route(routes@) == (match r {
            Some(i) => Some(i as int),
            None => None,
        }),
        r matches Some(i) ==> i < routes@.len(),
{
    let mut i: usize = 0;
    assert(routes@.skip(0) =~= routes@);
    while i < routes.len()
        invariant
            i <= routes@.len(),
            first_deepseek_route(routes@) == (match first_deepseek_route(routes@.skip(i as int)) {
                Some(j) => Some(j + i),
                None => None,
            }),
        decreases routes.len() - i,
    {
        assert(routes@.skip(i as int)[0] == routes@[i as int]);
        let hit = match &routes[i].agent_id {
            Some(a) => str_eq(a.as_str(), "deepseek-tui"),
            None => false,
        };
        if hit {
            return Some(i);
        }
        assert(routes@.skip(i as int).drop_first() =~= routes@.skip(i + 1));
        i = i + 1;
    }
    assert(routes@.skip(i as int).len() == 0);
    None
}

/// The view of the DeepSeek agent route among the routes MCA reported, if there is
/// one.
pub fn deepseek_route_view(routes: &Vec<RouteRecord>) -> (r: Option<McaRouteView>)
    ensures
        r is Some <==> first_deepseek_route(routes@) is Some,
        r matches Some(v) ==> ({
            let rec = routes@[first_deepseek_route(routes@)->0];
            &&& v.agent_id@ == or_empty(rec.agent_id)
            &&& v.route_available == or_false(rec.route_available)
            &&& views(v.capabilities@) == list_or_empty(rec.capabilities)
            &&& views(v.available_capabilities@) == list_or_empty(rec.available_capabilities)
            &&& v.computer_provider_enabled == or_false(rec.computer_provider_enabled)
            &&& v.health@ == (match rec.health_overall {
                Some(h) => h@,
                None => "unknown"@,
            })
            &&& v.health_detail@ == health_detail_of(rec.health_layers)
        }),
{
    let i = find_deepseek_route(routes)?;
    let rec = &routes[i];
    let health_detail = match &rec.health_layers {
        Some(layers) => match find_blocking(layers) {
            Some(j) => text_or_empty(&layers[j].detail),
            None => if layers.len() > 0 { text_or_empty(&layers[0].detail) } else { String::new() },
        },
        None => String::new(),
    };
    Some(McaRouteView {
        agent_id: text_or_empty(&rec.agent_id),
        route_available: match rec.route_available { Some(b) => b, None => false },
        capabilities: copy_list(&rec.capabilities),
        available_capabilities: copy_list(&rec.available_capabilities),
        computer_provider_enabled: match rec.computer_provider_enabled { Some(b) => b, None => false },
        health: match &rec.health_overall {
            Some(h) => h.clone(),
            None => String::from_str("unknown"),
        },
        health_detail,
    })
}

} // verus!
