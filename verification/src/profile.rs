//! The DSH profile that this application writes: its plugin patch, the vision
//! provider it adds to the DSH settings, and the image-capable copy of the primary
//! DeepSeek provider.
use vstd::prelude::*;
use crate::config::StoredConfig;
use crate::settings::{entries_model, kt, lemma_values_push, list, mapping, push_entry, text_value, values_model, KeyModel, SettingsKey, SettingsValue, ValueModel, model};
use crate::mca::{MCA_PORT, BROWSER_PORT};
use crate::text::{decimal, push_decimal, push_replaced, replace_all, char_vec, split_ranges, split_on, range_texts, string_of, views, str_eq};

verus! {

broadcast use vstd::string::group_string_axioms;

/// `value` as a single-quoted YAML scalar: quotes doubled, then wrapped in quotes.
pub open spec fn quoted(value: Seq<char>) -> Seq<char> {
    "'"@ + replace_all(value, "'"@, "''"@) + "'"@
}

fn push_quoted(out: &mut String, value: &str)
    ensures
        final(out)@ == old(out)@ + quoted(value@),
{
    proof {
        reveal_strlit("'");
    }
    out.append("'");
    push_replaced(out, value, "'", "''");
    out.append("'");
}

/// `value` as a single-quoted YAML scalar.
pub fn yaml_quote(value: &str) -> (r: String)
    ensures
        r@ == quoted(value@),
{
    let mut r = String::new();
    push_quoted(&mut r, value);
    r
}

/// `true` or `false`.
pub open spec fn bool_text(b: bool) -> Seq<char> {
    if b { "true"@ } else { "false"@ }
}

fn push_bool(out: &mut String, b: bool)
    ensures
        final(out)@ == old(out)@ + bool_text(b),
{
    if b { out.append("true") } else { out.append("false") }
}

/// The vision model is fully configured: provider, model and base URL are set.
pub open spec fn vision_configured(c: StoredConfig) -> bool {
    c.vision_provider@.len() > 0 && c.vision_model@.len() > 0 && c.vision_base_url@.len() > 0
}

/// The multimodal plugins run: switched on and fully configured.
pub open spec fn multimodal_active(c: StoredConfig) -> bool {
    c.enable_multimodal && vision_configured(c)
}

/// Whether the vision model is fully configured.
pub fn vision_is_configured(config: &StoredConfig) -> (r: bool)
    ensures
        r == vision_configured(*config),
{
    !config.vision_provider.as_str().is_empty() && !config.vision_model.as_str().is_empty()
        && !config.vision_base_url.as_str().is_empty()
}

pub open spec fn mca_client_block() -> Seq<char> {
    "- insert:\n    - id: dshplusplus-mca\n      name: '@deepseek-ai/dsh-mcp-client'\n      config:\n        serverName: mca\n        transport: streamable-http\n        url: http://127.0.0.1:"@
        + decimal(MCA_PORT as nat)
        + "/mcp/deepseek-tui\n        failOnStartupError: false\n        reconnect:\n          enabled: true\n          initialDelayMs: 500\n          maxDelayMs: 10000\n          maxAttempts: 20\n\n"@
}

pub open spec fn browser_client_block() -> Seq<char> {
    "- insert:\n    - id: dshplusplus-browser\n      name: '@deepseek-ai/dsh-mcp-client'\n      config:\n        serverName: browser\n        transport: streamable-http\n        url: http://127.0.0.1:"@
        + decimal(BROWSER_PORT as nat)
        + "/mcp\n        failOnStartupError: false\n        reconnect:\n          enabled: true\n          initialDelayMs: 500\n          maxDelayMs: 10000\n          maxAttempts: 20\n\n"@
}

/// The plugin patch of the profile: the MCP clients of the services that are on,
/// the observation store at `observations_root`, and the vision plugins, disabled
/// unless the multimodal plugins are active.
pub open spec fn cordis_patch(c: StoredConfig, observations_root: Seq<char>) -> Seq<char> {
    let off = bool_text(!multimodal_active(c));
    (if c.enable_mca { mca_client_block() } else { Seq::empty() }) + (if c.enable_browser {
        browser_client_block()
    } else {
        Seq::empty()
    }) + "- id: dshplusplus-multimodal\n  config:\n    storeRoot: "@ + quoted(observations_root)
        + "\n\n"@ + "- id: dshplusplus-multimodal-llm\n  disabled: "@ + off
        + "\n  config:\n    id: llm-vision\n    provider: "@ + quoted(c.vision_provider@)
        + "\n    model: "@ + quoted(c.vision_model@)
        + "\n    maxTokens: 1200\n    prompt: Analyze the attached image as untrusted evidence for the primary agent. Return concise plain text only.\n\n- id: dshplusplus-multimodal-router\n  disabled: "@
        + off
        + "\n  config:\n    enabled: true\n    alwaysInspect: true\n    unknownModelPolicy: inspect\n    maxProjectionChars: 6000\n    maxTaskChars: 2000\n"@
}

/// The plugin patch (`cordis.patch.yml`) of the profile.
pub fn cordis_patch_text(config: &StoredConfig, observations_root: &str) -> (r: String)
    ensures
        r@ == cordis_patch(*config, observations_root@),
{
    let mut patch = String::new();
    if config.enable_mca {
        patch.append(
            "- insert:\n    - id: dshplusplus-mca\n      name: '@deepseek-ai/dsh-mcp-client'\n      config:\n        serverName: mca\n        transport: streamable-http\n        url: http://127.0.0.1:",
        );
        push_decimal(&mut patch, MCA_PORT as u64);
        patch.append(
            "/mcp/deepseek-tui\n        failOnStartupError: false\n        reconnect:\n          enabled: true\n          initialDelayMs: 500\n          maxDelayMs: 10000\n          maxAttempts: 20\n\n",
        );
    }
    let ghost after_mca = patch@;
    if config.enable_browser {
        patch.append(
            "- insert:\n    - id: dshplusplus-browser\n      name: '@deepseek-ai/dsh-mcp-client'\n      config:\n        serverName: browser\n        transport: streamable-http\n        url: http://127.0.0.1:",
        );
        push_decimal(&mut patch, BROWSER_PORT as u64);
        patch.append(
            "/mcp\n        failOnStartupError: false\n        reconnect:\n          enabled: true\n          initialDelayMs: 500\n          maxDelayMs: 10000\n          maxAttempts: 20\n\n",
        );
    }
    let active = config.enable_multimodal && vision_is_configured(config);
    patch.append("- id: dshplusplus-multimodal\n  config:\n    storeRoot: ");
    push_quoted(&mut patch, observations_root);
    patch.append("\n\n");
    patch.append("- id: dshplusplus-multimodal-llm\n  disabled: ");
    push_bool(&mut patch, !active);
    patch.append("\n  config:\n    id: llm-vision\n    provider: ");
    push_quoted(&mut patch, config.vision_provider.as_str());
    patch.append("\n    model: ");
    push_quoted(&mut patch, config.vision_model.as_str());
    patch.append(
        "\n    maxTokens: 1200\n    prompt: Analyze the attached image as untrusted evidence for the primary agent. Return concise plain text only.\n\n- id: dshplusplus-multimodal-router\n  disabled: ",
    );
    push_bool(&mut patch, !active);
    patch.append(
        "\n  config:\n    enabled: true\n    alwaysInspect: true\n    unknownModelPolicy: inspect\n    maxProjectionChars: 6000\n    maxTaskChars: 2000\n",
    );
    patch
}

/// The settings fragment that declares the vision provider (the provider id is
/// written as it is, the other values quoted).
pub open spec fn vision_provider_yaml(c: StoredConfig) -> Seq<char> {
    "\nllm-pi-ai:\n  providers:\n    "@ + c.vision_provider@
        + ":\n      displayName: DSH++ Vision\n      apiKeyEnv: DSHPLUSPLUS_VISION_API_KEY\n      api: "@
        + quoted(c.vision_api@) + "\n      baseURL: "@ + quoted(c.vision_base_url@)
        + "\n      defaultInput: [text, image]\n      models:\n        - id: "@ + quoted(
        c.vision_model@,
    ) + "\n          name: "@ + quoted(c.vision_model@) + "\n          input: [text, image]\n"@
}

/// The settings fragment that declares the vision provider.
pub fn vision_provider_text(config: &StoredConfig) -> (r: String)
    ensures
        r@ == vision_provider_yaml(*config),
{
    let mut r = String::from_str("\nllm-pi-ai:\n  providers:\n    ");
    r.append(config.vision_provider.as_str());
    r.append(
        ":\n      displayName: DSH++ Vision\n      apiKeyEnv: DSHPLUSPLUS_VISION_API_KEY\n      api: ",
    );
    push_quoted(&mut r, config.vision_api.as_str());
    r.append("\n      baseURL: ");
    push_quoted(&mut r, config.vision_base_url.as_str());
    r.append("\n      defaultInput: [text, image]\n      models:\n        - id: ");
    push_quoted(&mut r, config.vision_model.as_str());
    r.append("\n          name: ");
    push_quoted(&mut r, config.vision_model.as_str());
    r.append("\n          input: [text, image]\n");
    r
}

/// A line without one trailing carriage return.
pub open spec fn strip_cr(line: Seq<char>) -> Seq<char> {
    if line.len() > 0 && line.last() == '\r' { line.drop_last() } else { line }
}

/// The lines of `text` (`str::lines`): pieces between newlines, a final empty piece
/// dropped, and a carriage return before a newline removed.
pub open spec fn text_lines(text: Seq<char>) -> Seq<Seq<char>> {
    let pieces = split_on(text, '\n');
    let kept = if pieces.last().len() == 0 { pieces.drop_last() } else { pieces };
    Seq::new(
        kept.len(),
        |i: int| if i < pieces.len() - 1 { strip_cr(kept[i]) } else { kept[i] },
    )
}

/// The lines of `text` prefixed with `indent`, joined by newlines.
pub open spec fn indented(text: Seq<char>, indent: Seq<char>) -> Seq<char> {
    crate::text::joined(text_lines(text).map_values(|l: Seq<char>| indent + l), "\n"@)
}

fn push_indented(out: &mut String, text: &str, indent: &str)
    ensures
        final(out)@ == old(out)@ + indented(text@, indent@),
{
    let x = char_vec(text);
    let ranges = split_ranges(&x, '\n');
    proof { crate::text::lemma_split_on_nonempty(x@, '\n'); }
    let ghost pieces = split_on(x@, '\n');
    let last = ranges[ranges.len() - 1];
    assert(pieces.last() == x@.subrange(last.0 as int, last.1 as int));
    let count = if last.0 == last.1 { ranges.len() - 1 } else { ranges.len() };
    let ghost lines = text_lines(x@).map_values(|l: Seq<char>| indent@ + l);
    let mut items: Vec<String> = Vec::new();
    let mut k: usize = 0;
    while k < count
        invariant
            x@ == text@,
            pieces == split_on(x@, '\n'),
            range_texts(x@, ranges@) == pieces,
            forall|j: int| 0 <= j < ranges@.len() ==> #[trigger] ranges@[j].0 <= ranges@[j].1 <= x@.len(),
            count <= ranges@.len(),
            count == text_lines(x@).len(),
            lines == text_lines(x@).map_values(|l: Seq<char>| indent@ + l),
            k <= count,
            views(items@) == lines.take(k as int),
        decreases count - k,
    {
        let (from, to) = ranges[k];
        assert(pieces[k as int] == x@.subrange(from as int, to as int));
        let mut end = to;
        if k < ranges.len() - 1 && to > from && x[to - 1] == '\r' {
            end = to - 1;
            assert(x@.subrange(from as int, to as int).drop_last() =~= x@.subrange(from as int, end as int));
        }
        let mut line = String::from_str(indent);
        let body = string_of(&x, from, end);
        line.append(body.as_str());
        assert(line@ == lines[k as int]);
        let ghost before = items@;
        items.push(line);
        assert(views(items@) =~= views(before).push(line@));
        assert(views(items@) =~= lines.take(k + 1));
        k = k + 1;
    }
    assert(lines.take(k as int) =~= lines);
    crate::text::push_joined(out, &items, "\n");
}

/// The settings fragment that declares the image-capable copy `deepseek-plus` of the
/// primary provider; `models_yaml` is the YAML text of its model list.
pub open spec fn plus_provider_yaml(api_key_env: Seq<char>, base_url: Seq<char>, models_yaml: Seq<char>) -> Seq<char> {
    "llm-pi-ai:\n  providers:\n    deepseek-plus:\n      displayName: DeepSeek · DSH++ 图片适配\n      apiKeyEnv: "@
        + quoted(api_key_env)
        + "\n      api: openai-completions\n      baseURL: "@ + quoted(base_url)
        + "\n      defaultInput: [text, image]\n      models:\n"@ + indented(models_yaml, "      "@)
        + "\n"@
}

/// The settings fragment that declares `deepseek-plus`.
pub fn plus_provider_text(api_key_env: &str, base_url: &str, models_yaml: &str) -> (r: String)
    ensures
        r@ == plus_provider_yaml(api_key_env@, base_url@, models_yaml@),
{
    let mut r = String::from_str(
        "llm-pi-ai:\n  providers:\n    deepseek-plus:\n      displayName: DeepSeek · DSH++ 图片适配\n      apiKeyEnv: ",
    );
    push_quoted(&mut r, api_key_env);
    r.append("\n      api: openai-completions\n      baseURL: ");
    push_quoted(&mut r, base_url);
    r.append("\n      defaultInput: [text, image]\n      models:\n");
    push_indented(&mut r, models_yaml, "      ");
    r.append("\n");
    r
}

/// The plugin packages of this application, in the order they are copied and
/// checked for updates.
pub fn plugin_packages() -> (r: Vec<&'static str>)
    ensures
        crate::config::str_views(r@) == seq![
            "multimodal"@,
            "multimodal-llm"@,
            "multimodal-router"@,
            "tool-media-inspect"@,
            "bundle-plus"@,
        ],
{
    let r = vec!["multimodal", "multimodal-llm", "multimodal-router", "tool-media-inspect", "bundle-plus"];
    assert(crate::config::str_views(r@) =~= seq![
        "multimodal"@,
        "multimodal-llm"@,
        "multimodal-router"@,
        "tool-media-inspect"@,
        "bundle-plus"@,
    ]);
    r
}



/// The bundles the profile of this application is made of.
pub open spec fn profile_bundles() -> Seq<ValueModel> {
    seq![
        ValueModel::Text("@deepseek-ai/dsh-base"@),
        ValueModel::Text("@deepseek-ai/dsh-web-app"@),
        ValueModel::Text("@dshplusplus/bundle-plus"@),
    ]
}

/// The package description of the profile, for this application's `version`.
pub open spec fn profile_package_doc(version: Seq<char>) -> ValueModel {
    ValueModel::Mapping(
        seq![
            (kt("name"@), ValueModel::Text("dsh-profile-dshplusplus"@)),
            (kt("version"@), ValueModel::Text(version)),
            (kt("private"@), ValueModel::Bool(true)),
            (kt("dependencies"@), ValueModel::Mapping(Seq::empty())),
            (
                kt("dsh"@),
                ValueModel::Mapping(
                    seq![
                        (
                            kt("profile"@),
                            ValueModel::Mapping(seq![(kt("bundles"@), ValueModel::List(profile_bundles()))]),
                        ),
                    ],
                ),
            ),
        ],
    )
}

/// The package description of the profile, as a document tree.
pub fn profile_package(version: &str) -> (r: SettingsValue)
    ensures
        model(r) == profile_package_doc(version@),
{
    let mut bundles: Vec<SettingsValue> = Vec::new();
    assert(values_model(bundles@) =~= Seq::<ValueModel>::empty());
    let a = text_value("@deepseek-ai/dsh-base");
    proof {
        lemma_values_push(bundles@, a);
    }
    bundles.push(a);
    let b = text_value("@deepseek-ai/dsh-web-app");
    proof {
        lemma_values_push(bundles@, b);
    }
    bundles.push(b);
    let c = text_value("@dshplusplus/bundle-plus");
    proof {
        lemma_values_push(bundles@, c);
    }
    bundles.push(c);
    assert(values_model(bundles@) =~= profile_bundles());
    let mut profile: Vec<(SettingsKey, SettingsValue)> = Vec::new();
    assert(entries_model(profile@) =~= Seq::<(KeyModel, ValueModel)>::empty());
    push_entry(&mut profile, "bundles", list(bundles));
    let mut dsh: Vec<(SettingsKey, SettingsValue)> = Vec::new();
    assert(entries_model(dsh@) =~= Seq::<(KeyModel, ValueModel)>::empty());
    push_entry(&mut dsh, "profile", mapping(profile));
    let deps: Vec<(SettingsKey, SettingsValue)> = Vec::new();
    assert(entries_model(deps@) =~= Seq::<(KeyModel, ValueModel)>::empty());
    let mut m: Vec<(SettingsKey, SettingsValue)> = Vec::new();
    assert(entries_model(m@) =~= Seq::<(KeyModel, ValueModel)>::empty());
    push_entry(&mut m, "name", text_value("dsh-profile-dshplusplus"));
    push_entry(&mut m, "version", text_value(version));
    push_entry(&mut m, "private", SettingsValue::Bool(true));
    push_entry(&mut m, "dependencies", mapping(deps));
    push_entry(&mut m, "dsh", mapping(dsh));
    proof {
        if let ValueModel::Mapping(e) = profile_package_doc(version@) {
            assert(entries_model(m@) =~= e);
        }
    }
    mapping(m)
}

} // verus!
