use dshplusplus_desktop::extension::{native_host_manifest, EXTENSION_ID};
use dshplusplus_desktop::profile::profile_package;
use dshplusplus_desktop::workspace::merge_registry;
use dshplusplus_desktop::settings::{
    builtin_primary_config, merge_plus_provider, merge_vision_provider, plus_plan, primary_provider, SettingsKey,
    SettingsValue,
};

type Entries = Vec<(SettingsKey, SettingsValue)>;

fn key(k: &str) -> SettingsKey {
    SettingsKey::Text(k.to_string())
}

fn text(t: &str) -> SettingsValue {
    SettingsValue::Text(t.to_string())
}

fn get<'a>(entries: &'a [(SettingsKey, SettingsValue)], k: &str) -> Option<&'a SettingsValue> {
    entries.iter().find(|(name, _)| *name == key(k)).map(|(_, v)| v)
}

fn entries_of(v: &SettingsValue) -> &Entries {
    match v {
        SettingsValue::Mapping(m) => m,
        other => panic!("not a mapping: {other:?}"),
    }
}

fn text_of(v: Option<&SettingsValue>) -> &str {
    match v {
        Some(SettingsValue::Text(t)) => t,
        other => panic!("not text: {other:?}"),
    }
}

fn path<'a>(entries: &'a [(SettingsKey, SettingsValue)], keys: &[&str]) -> Option<&'a SettingsValue> {
    let mut current = get(entries, keys[0])?;
    for k in &keys[1..] {
        current = get(entries_of(current), k)?;
    }
    Some(current)
}

/// The parsed provider text of `deepseek-plus` for a plan's values.
fn plus_fragment(api_key_env: &str, base_url: &str, models: Vec<SettingsValue>) -> Entries {
    let plus = vec![
        (key("displayName"), text("DeepSeek · DSH++ 图片适配")),
        (key("apiKeyEnv"), text(api_key_env)),
        (key("api"), text("openai-completions")),
        (key("baseURL"), text(base_url)),
        (key("defaultInput"), SettingsValue::List(vec![text("text"), text("image")])),
        (key("models"), SettingsValue::List(models)),
    ];
    let providers = vec![(key("deepseek-plus"), SettingsValue::Mapping(plus))];
    vec![(key("llm-pi-ai"), SettingsValue::Mapping(vec![(key("providers"), SettingsValue::Mapping(providers))]))]
}

fn materialized(settings: Entries) -> Entries {
    let plan = plus_plan(&settings).expect("the primary provider is complete");
    let fragment = plus_fragment(&plan.api_key_env, &plan.base_url, plan.models);
    merge_plus_provider(settings, &fragment, &plan.primary_id)
}

#[test]
fn materialize_generates_deepseek_plus_from_builtin_defaults() {
    let settings = materialized(Vec::new());
    let plus = path(&settings, &["llm-pi-ai", "providers", "deepseek-plus"]).unwrap();
    let plus = entries_of(plus);
    assert_eq!(text_of(get(plus, "apiKeyEnv")), "DEEPSEEK_API_KEY");
    assert_eq!(text_of(get(plus, "baseURL")), "https://api.deepseek.com");
    let models = match get(plus, "models") {
        Some(SettingsValue::List(l)) => l,
        other => panic!("no models: {other:?}"),
    };
    assert_eq!(models.len(), 2);
    let first = entries_of(&models[0]);
    assert_eq!(text_of(get(first, "id")), "deepseek-v4-flash");
    assert!(matches!(get(first, "contextWindow"), Some(SettingsValue::UInt(1_000_000))));
    assert!(matches!(get(first, "maxTokens"), Some(SettingsValue::UInt(256_000))));
    match get(first, "input") {
        Some(SettingsValue::List(input)) => {
            assert!(
                input.iter().any(|v| matches!(v, SettingsValue::Text(t) if t == "image")),
                "deepseek-plus 模型必须声明 image 输入"
            );
        }
        other => panic!("no input: {other:?}"),
    }
    assert_eq!(text_of(path(&settings, &["agent-default-model", "provider"])), "deepseek-plus");
    assert_eq!(text_of(path(&settings, &["agent-default-model", "model"])), "deepseek-v4-flash");
}

#[test]
fn materialize_preserves_existing_primary_config() {
    let settings = vec![
        (
            key("agent-default-model"),
            SettingsValue::Mapping(vec![
                (key("provider"), text("deepseek-official")),
                (key("model"), text("deepseek-v4-pro")),
                (key("reasoningEffort"), text("max")),
            ]),
        ),
        (
            key("llm-deepseek"),
            SettingsValue::Mapping(vec![
                (key("apiKeyEnv"), text("MY_DEEPSEEK_KEY")),
                (key("baseURL"), text("https://proxy.example.com/v1")),
                (
                    key("models"),
                    SettingsValue::List(vec![SettingsValue::Mapping(vec![
                        (key("id"), text("deepseek-v4-pro")),
                        (key("name"), text("DeepSeek-V4-Pro")),
                        (key("contextWindow"), SettingsValue::UInt(1_000_000)),
                        (key("maxTokens"), SettingsValue::UInt(256_000)),
                    ])]),
                ),
            ]),
        ),
    ];
    let settings = materialized(settings);
    let plus = entries_of(path(&settings, &["llm-pi-ai", "providers", "deepseek-plus"]).unwrap());
    assert_eq!(text_of(get(plus, "baseURL")), "https://proxy.example.com/v1");
    assert_eq!(text_of(get(plus, "apiKeyEnv")), "MY_DEEPSEEK_KEY");
    assert_eq!(text_of(path(&settings, &["agent-default-model", "provider"])), "deepseek-plus");
    assert_eq!(text_of(path(&settings, &["agent-default-model", "model"])), "deepseek-v4-pro");
    assert_eq!(text_of(path(&settings, &["agent-default-model", "reasoningEffort"])), "max");
    // The primary model settings stay where and as they were.
    assert_eq!(settings[1].0, key("llm-deepseek"));
    assert_eq!(text_of(path(&settings, &["llm-deepseek", "apiKeyEnv"])), "MY_DEEPSEEK_KEY");
}

#[test]
fn plus_plan_copies_models_with_ids() {
    let model = |id: Option<&str>, cw: Option<u64>| {
        let mut m = Vec::new();
        if let Some(id) = id {
            m.push((key("id"), text(id)));
        }
        if let Some(cw) = cw {
            m.push((key("contextWindow"), SettingsValue::UInt(cw)));
        }
        SettingsValue::Mapping(m)
    };
    let config = SettingsValue::Mapping(vec![
        (key("apiKeyEnv"), text("K")),
        (key("baseURL"), text("https://b")),
        (key("models"), SettingsValue::List(vec![model(Some("a"), Some(5)), model(None, None), model(Some(""), None)])),
    ]);
    let settings = vec![(
        key("llm-deepseek"),
        SettingsValue::Mapping(vec![(key("providers"), SettingsValue::Mapping(vec![(key("mine"), config)]))]),
    )];
    let plan = plus_plan(&settings).unwrap();
    assert_eq!(plan.primary_id, Some("mine".to_string()));
    assert_eq!(plan.models.len(), 1);
    let entry = entries_of(&plan.models[0]);
    let keys: Vec<&SettingsKey> = entry.iter().map(|(k, _)| k).collect();
    assert_eq!(
        keys,
        vec![&key("id"), &key("input"), &key("contextWindow"), &key("maxTokens"), &key("reasoningEfforts")]
    );
    assert!(matches!(get(entry, "contextWindow"), Some(SettingsValue::UInt(5))));
    assert!(matches!(get(entry, "maxTokens"), Some(SettingsValue::UInt(256_000))));
    let efforts = entries_of(get(entry, "reasoningEfforts").unwrap());
    assert!(matches!(get(efforts, "off"), Some(SettingsValue::Null)));
    assert_eq!(text_of(get(efforts, "high")), "high");
    assert_eq!(text_of(get(efforts, "max")), "max");
}

#[test]
fn plus_plan_needs_a_complete_primary_provider() {
    let settings = vec![(key("llm-deepseek"), SettingsValue::Mapping(vec![(key("baseURL"), text("https://b"))]))];
    assert!(plus_plan(&settings).is_none());
    let (id, config) = primary_provider(&Vec::new());
    assert_eq!(id, Some("deepseek-official".to_string()));
    let builtin = builtin_primary_config();
    assert_eq!(format!("{config:?}"), format!("{builtin:?}"));
}

#[test]
fn default_model_of_another_provider_is_kept() {
    let settings = vec![(
        key("agent-default-model"),
        SettingsValue::Mapping(vec![(key("provider"), text("other")), (key("model"), text("m"))]),
    )];
    let settings = materialized(settings);
    assert_eq!(text_of(path(&settings, &["agent-default-model", "provider"])), "other");
}

#[test]
fn plus_merge_leaves_a_malformed_section() {
    let settings = vec![(key("llm-pi-ai"), text("broken")), (key("theme"), text("dark"))];
    let settings = materialized(settings);
    assert_eq!(text_of(get(&settings, "llm-pi-ai")), "broken");
    assert_eq!(text_of(get(&settings, "theme")), "dark");
    assert_eq!(text_of(path(&settings, &["agent-default-model", "provider"])), "deepseek-plus");
}

#[test]
fn plus_merge_without_a_declaration_changes_nothing() {
    let settings = vec![(key("theme"), text("dark"))];
    let merged = merge_plus_provider(settings, &Vec::new(), &None);
    assert_eq!(merged.len(), 1);
    assert_eq!(text_of(get(&merged, "theme")), "dark");
}

fn vision_fragment(provider: &str) -> Entries {
    let declaration = SettingsValue::Mapping(vec![(key("displayName"), text("DSH++ Vision"))]);
    let providers = vec![(key(provider), declaration)];
    vec![(key("llm-pi-ai"), SettingsValue::Mapping(vec![(key("providers"), SettingsValue::Mapping(providers))]))]
}

#[test]
fn vision_merge_adds_the_provider_and_keeps_the_others() {
    let settings = vec![
        (
            key("llm-pi-ai"),
            SettingsValue::Mapping(vec![(key("providers"), SettingsValue::Mapping(vec![(key("mine"), text("x"))]))]),
        ),
        (key("theme"), text("dark")),
    ];
    let merged = merge_vision_provider(settings, &vision_fragment("vis"), "vis").unwrap();
    assert_eq!(text_of(path(&merged, &["llm-pi-ai", "providers", "mine"])), "x");
    let vis = entries_of(path(&merged, &["llm-pi-ai", "providers", "vis"]).unwrap());
    assert_eq!(text_of(get(vis, "displayName")), "DSH++ Vision");
    assert_eq!(text_of(get(&merged, "theme")), "dark");
}

#[test]
fn vision_merge_replaces_a_malformed_section() {
    let settings = vec![(key("llm-pi-ai"), text("broken"))];
    let merged = merge_vision_provider(settings, &vision_fragment("vis"), "vis").unwrap();
    assert!(path(&merged, &["llm-pi-ai", "providers", "vis"]).is_some());
}

#[test]
fn vision_merge_without_a_declaration_fails() {
    let r = merge_vision_provider(Vec::new(), &vision_fragment("vis"), "other");
    assert_eq!(r.unwrap_err(), "无法生成多模态 Provider 配置");
}

fn existing_settings() -> Entries {
    vec![
        (
            key("agent-default-model"),
            SettingsValue::Mapping(vec![(key("provider"), text("deepseek-official")), (key("model"), text("m"))]),
        ),
        (key("theme"), text("dark")),
    ]
}

#[test]
fn plus_merge_twice_changes_nothing() {
    let plan = plus_plan(&existing_settings()).unwrap();
    let fragment = plus_fragment(&plan.api_key_env, &plan.base_url, plan.models);
    let once = merge_plus_provider(existing_settings(), &fragment, &plan.primary_id);
    let once_text = format!("{once:?}");
    let twice = merge_plus_provider(once, &fragment, &plan.primary_id);
    assert_eq!(format!("{twice:?}"), once_text);
    assert_eq!(text_of(path(&twice, &["agent-default-model", "provider"])), "deepseek-plus");
    assert_eq!(text_of(get(&twice, "theme")), "dark");
}

#[test]
fn vision_merge_twice_changes_nothing() {
    let once = merge_vision_provider(existing_settings(), &vision_fragment("vis"), "vis").unwrap();
    let once_text = format!("{once:?}");
    let twice = merge_vision_provider(once, &vision_fragment("vis"), "vis").unwrap();
    assert_eq!(format!("{twice:?}"), once_text);
}

/// The merges of one start, as the application runs them.
fn start_merges(settings: Entries, vision: Option<&str>) -> Entries {
    let settings = match vision {
        Some(name) => merge_vision_provider(settings, &vision_fragment(name), name).unwrap(),
        None => settings,
    };
    let plan = plus_plan(&settings).unwrap();
    let fragment = plus_fragment(&plan.api_key_env, &plan.base_url, plan.models);
    merge_plus_provider(settings, &fragment, &plan.primary_id)
}

#[test]
fn start_merges_twice_change_nothing() {
    for vision in [None, Some("vis"), Some("deepseek-plus")] {
        let once = start_merges(existing_settings(), vision);
        let once_text = format!("{once:?}");
        let twice = start_merges(once, vision);
        assert_eq!(format!("{twice:?}"), once_text);
    }
}

#[test]
fn start_merges_keep_the_plan() {
    let before = plus_plan(&existing_settings()).unwrap();
    let after = plus_plan(&start_merges(existing_settings(), Some("vis"))).unwrap();
    assert_eq!(after.primary_id, before.primary_id);
    assert_eq!(after.api_key_env, before.api_key_env);
    assert_eq!(after.base_url, before.base_url);
    assert_eq!(format!("{:?}", after.models), format!("{:?}", before.models));
}

fn ws_record(path: &str) -> SettingsValue {
    SettingsValue::Mapping(vec![(key("path"), text(path)), (key("title"), text("SampleProject"))])
}

fn registry(records: Vec<(&str, &str)>, ids: Vec<&str>) -> Entries {
    let table: Entries = records.into_iter().map(|(id, path)| (key(id), ws_record(path))).collect();
    vec![
        (key("unit"), SettingsValue::Mapping(vec![(key("name"), text("workspace")), (key("version"), SettingsValue::UInt(2))])),
        (
            key("global"),
            SettingsValue::Mapping(vec![(key("workspaceIds"), SettingsValue::List(ids.into_iter().map(text).collect()))]),
        ),
        (key("tables"), SettingsValue::Mapping(vec![(key("workspaces"), SettingsValue::Mapping(table))])),
    ]
}

#[test]
fn registry_documents_merge_once() {
    let legacy = registry(
        vec![("bb729f88", "D:\\SampleProject"), ("89b555cb", "E:\\SampleProject")],
        vec!["bb729f88", "89b555cb"],
    );
    let target = registry(vec![("02b0fd35", "D:\\SampleProject")], vec!["02b0fd35"]);
    let merged = merge_registry(&legacy, target).expect("a record is taken over");
    let table = entries_of(path(&merged, &["tables", "workspaces"]).unwrap());
    let ids: Vec<&SettingsKey> = table.iter().map(|(k, _)| k).collect();
    assert_eq!(ids, vec![&key("02b0fd35"), &key("89b555cb")]);
    assert_eq!(text_of(path(table, &["89b555cb", "path"])), "E:\\SampleProject");
    match path(&merged, &["global", "workspaceIds"]) {
        Some(SettingsValue::List(items)) => {
            let texts: Vec<&str> = items.iter().map(|v| text_of(Some(v))).collect();
            assert_eq!(texts, vec!["02b0fd35", "89b555cb"]);
        }
        other => panic!("no id list: {other:?}"),
    }
    // A second merge takes nothing over, also with the records in another order.
    assert!(merge_registry(&legacy, merged).is_none());
    let reordered = registry(vec![("89b555cb", "E:\\SampleProject"), ("02b0fd35", "D:\\SampleProject")], vec![]);
    assert!(merge_registry(&legacy, reordered).is_none());
}

#[test]
fn registry_without_a_workspace_table_is_left_alone() {
    let legacy = registry(vec![("a", "A")], vec![]);
    assert!(merge_registry(&legacy, vec![(key("tables"), text("x"))]).is_none());
    assert!(merge_registry(&Vec::new(), registry(vec![], vec![])).is_none());
}

#[test]
fn documents_written_for_the_profile_and_the_browser_host() {
    let package = profile_package("0.1.0-dev.2");
    let package = entries_of(&package);
    assert_eq!(text_of(get(package, "name")), "dsh-profile-dshplusplus");
    assert_eq!(text_of(get(package, "version")), "0.1.0-dev.2");
    assert!(matches!(get(package, "private"), Some(SettingsValue::Bool(true))));
    match path(package, &["dsh", "profile", "bundles"]) {
        Some(SettingsValue::List(b)) => assert_eq!(b.len(), 3),
        other => panic!("no bundles: {other:?}"),
    }
    let host = native_host_manifest("C:\\host.exe");
    let host = entries_of(&host);
    assert_eq!(text_of(get(host, "path")), "C:\\host.exe");
    assert_eq!(text_of(get(host, "type")), "stdio");
    match get(host, "allowed_origins") {
        Some(SettingsValue::List(o)) => {
            assert_eq!(text_of(o.first()), format!("chrome-extension://{EXTENSION_ID}/"));
        }
        other => panic!("no origins: {other:?}"),
    }
}
