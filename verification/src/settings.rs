//! The DSH settings file as a tree, and how this application merges its
//! providers into it: the vision provider, the image-capable copy
//! `deepseek-plus` of the primary DeepSeek provider, and the default model that
//! follows it. Every other setting is kept as it was.
use vstd::prelude::*;
use crate::text::str_eq;

verus! {

broadcast use vstd::string::group_string_axioms;

/// A key of a settings mapping: text, or a key of another kind that is carried
/// through unread (its number refers to the caller's table of such keys).
#[derive(Clone, Debug, PartialEq, Eq)]
pub enum SettingsKey {
    Text(String),
    Other(usize),
}

/// A value of the settings tree. Values that are not read here (tagged values,
/// numbers other than unsigned integers) are carried through as `Other`.
#[derive(Debug)]
pub enum SettingsValue {
    Null,
    Bool(bool),
    UInt(u64),
    Text(String),
    List(Vec<SettingsValue>),
    Mapping(Vec<(SettingsKey, SettingsValue)>),
    Other(usize),
}

/// The mathematical form of a key.
pub enum KeyModel {
    Text(Seq<char>),
    Other(usize),
}

/// The mathematical form of a value.
pub enum ValueModel {
    Null,
    Bool(bool),
    UInt(u64),
    Text(Seq<char>),
    List(Seq<ValueModel>),
    Mapping(Seq<(KeyModel, ValueModel)>),
    Other(usize),
}

pub open spec fn key_model(k: SettingsKey) -> KeyModel {
    match k {
        SettingsKey::Text(s) => KeyModel::Text(s@),
        SettingsKey::Other(i) => KeyModel::Other(i),
    }
}

pub open spec fn model(v: SettingsValue) -> ValueModel
    decreases v,
{
    match v {
        SettingsValue::Null => ValueModel::Null,
        SettingsValue::Bool(b) => ValueModel::Bool(b),
        SettingsValue::UInt(n) => ValueModel::UInt(n),
        SettingsValue::Text(s) => ValueModel::Text(s@),
        SettingsValue::Other(i) => ValueModel::Other(i),
        SettingsValue::List(items) => ValueModel::List(
            Seq::new(items@.len(), |i: int| if 0 <= i < items@.len() { model(items@[i]) } else { ValueModel::Null }),
        ),
        SettingsValue::Mapping(entries) => ValueModel::Mapping(
            Seq::new(
                entries@.len(),
                |i: int|
                    if 0 <= i < entries@.len() {
                        (key_model(entries@[i].0), model(entries@[i].1))
                    } else {
                        (KeyModel::Other(0), ValueModel::Null)
                    },
            ),
        ),
    }
}


/// The mathematical form of a list of values.
pub open spec fn values_model(v: Seq<SettingsValue>) -> Seq<ValueModel> {
    Seq::new(v.len(), |i: int| model(v[i]))
}

/// The mathematical form of the entries of a mapping.
pub open spec fn entries_model(e: Seq<(SettingsKey, SettingsValue)>) -> Seq<(KeyModel, ValueModel)> {
    Seq::new(e.len(), |i: int| (key_model(e[i].0), model(e[i].1)))
}

pub proof fn lemma_list_model(items: Vec<SettingsValue>)
    ensures
        model(SettingsValue::List(items)) == ValueModel::List(values_model(items@)),
{
    let s = match model(SettingsValue::List(items)) {
        ValueModel::List(s) => s,
        _ => Seq::empty(),
    };
    assert(s =~= values_model(items@));
}

pub proof fn lemma_mapping_model(entries: Vec<(SettingsKey, SettingsValue)>)
    ensures
        model(SettingsValue::Mapping(entries)) == ValueModel::Mapping(entries_model(entries@)),
{
    let s = match model(SettingsValue::Mapping(entries)) {
        ValueModel::Mapping(s) => s,
        _ => Seq::empty(),
    };
    assert(s =~= entries_model(entries@));
}

pub proof fn lemma_values_push(v: Seq<SettingsValue>, x: SettingsValue)
    ensures
        values_model(v.push(x)) == values_model(v).push(model(x)),
{
    assert(values_model(v.push(x)) =~= values_model(v).push(model(x)));
}

pub proof fn lemma_entries_push(e: Seq<(SettingsKey, SettingsValue)>, x: (SettingsKey, SettingsValue))
    ensures
        entries_model(e.push(x)) == entries_model(e).push((key_model(x.0), model(x.1))),
{
    assert(entries_model(e.push(x)) =~= entries_model(e).push((key_model(x.0), model(x.1))));
}

proof fn lemma_entries_update(e: Seq<(SettingsKey, SettingsValue)>, i: int, x: (SettingsKey, SettingsValue))
    requires
        0 <= i < e.len(),
    ensures
        entries_model(e.update(i, x)) == entries_model(e).update(i, (key_model(x.0), model(x.1))),
{
    assert(entries_model(e.update(i, x)) =~= entries_model(e).update(i, (key_model(x.0), model(x.1))));
}

/// A copy of a key.
pub fn copy_key(k: &SettingsKey) -> (r: SettingsKey)
    ensures
        key_model(r) == key_model(*k),
{
    match k {
        SettingsKey::Text(s) => SettingsKey::Text(s.clone()),
        SettingsKey::Other(i) => SettingsKey::Other(*i),
    }
}

/// A copy of a value.
pub fn copy_value(v: &SettingsValue) -> (r: SettingsValue)
    ensures
        model(r) == model(*v),
    decreases v,
{
    match v {
        SettingsValue::Null => SettingsValue::Null,
        SettingsValue::Bool(b) => SettingsValue::Bool(*b),
        SettingsValue::UInt(n) => SettingsValue::UInt(*n),
        SettingsValue::Text(s) => SettingsValue::Text(s.clone()),
        SettingsValue::Other(i) => SettingsValue::Other(*i),
        SettingsValue::List(items) => {
            let mut out: Vec<SettingsValue> = Vec::new();
            let mut j: usize = 0;
            while j < items.len()
                invariant
                    *v == SettingsValue::List(*items),
                    j <= items@.len(),
                    values_model(out@) == values_model(items@).take(j as int),
                decreases items.len() - j,
            {
                proof {
                    assert(decreases_to!(*v => (*v)->List_0));
                    assert(decreases_to!(*items => items@));
                    assert(decreases_to!(items@ => items@[j as int]));
                }
                let c = copy_value(&items[j]);
                proof {
                    lemma_values_push(out@, c);
                }
                out.push(c);
                assert(values_model(items@).take(j + 1) =~= values_model(items@).take(j as int).push(
                    model(items@[j as int]),
                ));
                j = j + 1;
            }
            assert(values_model(items@).take(j as int) =~= values_model(items@));
            proof {
                lemma_list_model(out);
                lemma_list_model(*items);
            }
            SettingsValue::List(out)
        },
        SettingsValue::Mapping(entries) => {
            let mut out: Vec<(SettingsKey, SettingsValue)> = Vec::new();
            let mut j: usize = 0;
            while j < entries.len()
                invariant
                    *v == SettingsValue::Mapping(*entries),
                    j <= entries@.len(),
                    entries_model(out@) == entries_model(entries@).take(j as int),
                decreases entries.len() - j,
            {
                proof {
                    assert(decreases_to!(*v => (*v)->Mapping_0));
                    assert(decreases_to!(*entries => entries@));
                    assert(decreases_to!(entries@ => entries@[j as int]));
                    assert(decreases_to!(entries@[j as int] => entries@[j as int].1));
                }
                let k = copy_key(&entries[j].0);
                let c = copy_value(&entries[j].1);
                proof {
                    lemma_entries_push(out@, (k, c));
                }
                out.push((k, c));
                assert(entries_model(entries@).take(j + 1) =~= entries_model(entries@).take(j as int).push(
                    (key_model(entries@[j as int].0), model(entries@[j as int].1)),
                ));
                j = j + 1;
            }
            assert(entries_model(entries@).take(j as int) =~= entries_model(entries@));
            proof {
                lemma_mapping_model(out);
                lemma_mapping_model(*entries);
            }
            SettingsValue::Mapping(out)
        },
    }
}


/// A text key.
pub open spec fn kt(s: Seq<char>) -> KeyModel {
    KeyModel::Text(s)
}

/// Position of the first entry with text key `key`.
pub open spec fn find_key(m: Seq<(KeyModel, ValueModel)>, key: Seq<char>) -> Option<int>
    decreases m.len(),
{
    if m.len() == 0 {
        None
    } else if m[0].0 == kt(key) {
        Some(0)
    } else {
        match find_key(m.drop_first(), key) {
            Some(i) => Some(i + 1),
            None => None,
        }
    }
}

pub proof fn lemma_find_key(m: Seq<(KeyModel, ValueModel)>, key: Seq<char>)
    ensures
        find_key(m, key) matches Some(i) ==> 0 <= i < m.len() && m[i].0 == kt(key),
    decreases m.len(),
{
    if m.len() > 0 && m[0].0 != kt(key) {
        lemma_find_key(m.drop_first(), key);
    }
}

/// The value at text key `key`, if the mapping has it.
pub open spec fn lookup(m: Seq<(KeyModel, ValueModel)>, key: Seq<char>) -> Option<ValueModel> {
    match find_key(m, key) {
        Some(i) => Some(m[i].1),
        None => None,
    }
}

/// The mapping with `v` at text key `key`: the existing entry is replaced in
/// place, a new key is appended.
pub open spec fn set_key(m: Seq<(KeyModel, ValueModel)>, key: Seq<char>, v: ValueModel) -> Seq<(KeyModel, ValueModel)> {
    match find_key(m, key) {
        Some(i) => m.update(i, (kt(key), v)),
        None => m.push((kt(key), v)),
    }
}

/// The entries of a value that is a mapping; none otherwise.
pub open spec fn sub_mapping(v: Option<ValueModel>) -> Seq<(KeyModel, ValueModel)> {
    match v {
        Some(ValueModel::Mapping(m)) => m,
        _ => Seq::empty(),
    }
}

/// The text of a value that is text; empty otherwise.
pub open spec fn text_of(v: Option<ValueModel>) -> Seq<char> {
    match v {
        Some(ValueModel::Text(s)) => s,
        _ => Seq::empty(),
    }
}

/// The value at text key `key` of a value that is a mapping.
pub open spec fn field(v: ValueModel, key: Seq<char>) -> Option<ValueModel> {
    match v {
        ValueModel::Mapping(m) => lookup(m, key),
        _ => None,
    }
}

/// The value at `a`, then `b`, then `c`, through mappings.
pub open spec fn nested(s: Seq<(KeyModel, ValueModel)>, a: Seq<char>, b: Seq<char>, c: Seq<char>) -> Option<ValueModel> {
    match lookup(s, a) {
        Some(ValueModel::Mapping(m1)) => match lookup(m1, b) {
            Some(ValueModel::Mapping(m2)) => lookup(m2, c),
            _ => None,
        },
        _ => None,
    }
}

pub open spec fn opt_model(v: Option<SettingsValue>) -> Option<ValueModel> {
    match v {
        Some(x) => Some(model(x)),
        None => None,
    }
}

pub open spec fn opt_text(v: Option<String>) -> Option<Seq<char>> {
    match v {
        Some(x) => Some(x@),
        None => None,
    }
}

fn key_is(k: &SettingsKey, key: &str) -> (r: bool)
    ensures
        r == (key_model(*k) == kt(key@)),
{
    match k {
        SettingsKey::Text(s) => str_eq(s.as_str(), key),
        SettingsKey::Other(_) => false,
    }
}

/// The position of text key `key` in a mapping's entries.
pub fn find_text_key(entries: &Vec<(SettingsKey, SettingsValue)>, key: &str) -> (r: Option<usize>)
    ensures
        (match r { Some(i) => Some(i as int), None => None }) == find_key(entries_model(entries@), key@),
{
    let ghost m = entries_model(entries@);
    let mut i: usize = 0;
    assert(m.skip(0) =~= m);
    while i < entries.len()
        invariant
            i <= entries@.len(),
            m == entries_model(entries@),
            find_key(m, key@) == (match find_key(m.skip(i as int), key@) {
                Some(j) => Some(j + i),
                None => None,
            }),
        decreases entries.len() - i,
    {
        assert(m.skip(i as int)[0] == m[i as int]);
        if key_is(&entries[i].0, key) {
            assert(find_key(m.skip(i as int), key@) == Some(0int));
            return Some(i);
        }
        assert(m.skip(i as int).drop_first() =~= m.skip(i + 1));
        i = i + 1;
    }
    assert(m.skip(i as int).len() == 0);
    None
}

/// A copy of the value at text key `key`, if the mapping has it.
pub fn value_at(entries: &Vec<(SettingsKey, SettingsValue)>, key: &str) -> (r: Option<SettingsValue>)
    ensures
        opt_model(r) == lookup(entries_model(entries@), key@),
{
    proof {
        lemma_find_key(entries_model(entries@), key@);
    }
    match find_text_key(entries, key) {
        Some(i) => Some(copy_value(&entries[i].1)),
        None => None,
    }
}

/// A copy of the value at text key `key` of a value that is a mapping.
pub fn field_value(v: &SettingsValue, key: &str) -> (r: Option<SettingsValue>)
    ensures
        opt_model(r) == field(model(*v), key@),
{
    match v {
        SettingsValue::Mapping(m) => {
            proof {
                lemma_mapping_model(*m);
            }
            value_at(m, key)
        },
        _ => None,
    }
}

/// The text at text key `key` of a mapping's entries; empty where it is missing
/// or not text.
pub fn text_at(entries: &Vec<(SettingsKey, SettingsValue)>, key: &str) -> (r: String)
    ensures
        r@ == text_of(lookup(entries_model(entries@), key@)),
{
    match value_at(entries, key) {
        Some(SettingsValue::Text(t)) => t,
        _ => String::new(),
    }
}

/// The entries of the value at text key `key`, where it is a mapping; none
/// otherwise.
pub fn mapping_at(entries: &Vec<(SettingsKey, SettingsValue)>, key: &str) -> (r: Vec<(SettingsKey, SettingsValue)>)
    ensures
        entries_model(r@) == sub_mapping(lookup(entries_model(entries@), key@)),
{
    match value_at(entries, key) {
        Some(SettingsValue::Mapping(m)) => {
            proof {
                lemma_mapping_model(m);
            }
            m
        },
        _ => {
            let v: Vec<(SettingsKey, SettingsValue)> = Vec::new();
            assert(entries_model(v@) =~= Seq::<(KeyModel, ValueModel)>::empty());
            v
        },
    }
}

/// Sets text key `key` to `value`: in place where the key exists, appended
/// otherwise.
pub fn set_text_key(entries: &mut Vec<(SettingsKey, SettingsValue)>, key: &str, value: SettingsValue)
    ensures
        entries_model(final(entries)@) == set_key(entries_model(old(entries)@), key@, model(value)),
{
    proof {
        lemma_find_key(entries_model(old(entries)@), key@);
    }
    let entry = (SettingsKey::Text(String::from_str(key)), value);
    match find_text_key(entries, key) {
        Some(i) => {
            proof {
                lemma_entries_update(entries@, i as int, entry);
            }
            entries.set(i, entry);
        },
        None => {
            proof {
                lemma_entries_push(entries@, entry);
            }
            entries.push(entry);
        },
    }
}

/// A text value.
pub fn text_value(s: &str) -> (r: SettingsValue)
    ensures
        model(r) == ValueModel::Text(s@),
{
    SettingsValue::Text(String::from_str(s))
}

/// A mapping value.
pub fn mapping(entries: Vec<(SettingsKey, SettingsValue)>) -> (r: SettingsValue)
    ensures
        model(r) == ValueModel::Mapping(entries_model(entries@)),
{
    proof {
        lemma_mapping_model(entries);
    }
    SettingsValue::Mapping(entries)
}

/// A list value.
pub fn list(items: Vec<SettingsValue>) -> (r: SettingsValue)
    ensures
        model(r) == ValueModel::List(values_model(items@)),
{
    proof {
        lemma_list_model(items);
    }
    SettingsValue::List(items)
}

/// Appends an entry with text key `key`.
pub fn push_entry(entries: &mut Vec<(SettingsKey, SettingsValue)>, key: &str, value: SettingsValue)
    ensures
        entries_model(final(entries)@) == entries_model(old(entries)@).push((kt(key@), model(value))),
{
    let entry = (SettingsKey::Text(String::from_str(key)), value);
    proof {
        lemma_entries_push(entries@, entry);
    }
    entries.push(entry);
}

/// A copy of the value at `a`, then `b`, then `c`, through mappings.
pub fn nested_value(entries: &Vec<(SettingsKey, SettingsValue)>, a: &str, b: &str, c: &str) -> (r: Option<SettingsValue>)
    ensures
        opt_model(r) == nested(entries_model(entries@), a@, b@, c@),
{
    match value_at(entries, a) {
        Some(SettingsValue::Mapping(m1)) => {
            proof {
                lemma_mapping_model(m1);
            }
            match value_at(&m1, b) {
                Some(SettingsValue::Mapping(m2)) => {
                    proof {
                        lemma_mapping_model(m2);
                    }
                    value_at(&m2, c)
                },
                _ => None,
            }
        },
        _ => None,
    }
}

/// The settings with provider `key` set to `p` under `llm-pi-ai.providers`; a
/// section on the way that is not a mapping is replaced by one.
pub open spec fn with_provider(s: Seq<(KeyModel, ValueModel)>, key: Seq<char>, p: ValueModel) -> Seq<
    (KeyModel, ValueModel),
> {
    let llm = sub_mapping(lookup(s, "llm-pi-ai"@));
    let providers = sub_mapping(lookup(llm, "providers"@));
    set_key(
        s,
        "llm-pi-ai"@,
        ValueModel::Mapping(set_key(llm, "providers"@, ValueModel::Mapping(set_key(providers, key, p)))),
    )
}

/// Merges the vision provider `provider` into the settings: its declaration is
/// the one under `llm-pi-ai.providers.<provider>` of `fragment`, the parsed
/// vision provider text; without one there, the merge fails.
pub fn merge_vision_provider(
    settings: Vec<(SettingsKey, SettingsValue)>,
    fragment: &Vec<(SettingsKey, SettingsValue)>,
    provider: &str,
) -> (r: Result<Vec<(SettingsKey, SettingsValue)>, String>)
    ensures
        match nested(entries_model(fragment@), "llm-pi-ai"@, "providers"@, provider@) {
            None => r matches Err(m) && m@ == "无法生成多模态 Provider 配置"@,
            Some(p) => r matches Ok(v) && entries_model(v@) == with_provider(
                entries_model(settings@),
                provider@,
                p,
            ),
        },
{
    let value = match nested_value(fragment, "llm-pi-ai", "providers", provider) {
        Some(v) => v,
        None => return Err(String::from_str("无法生成多模态 Provider 配置")),
    };
    let mut settings = settings;
    let mut llm = mapping_at(&settings, "llm-pi-ai");
    let mut providers = mapping_at(&llm, "providers");
    set_text_key(&mut providers, provider, value);
    set_text_key(&mut llm, "providers", mapping(providers));
    set_text_key(&mut settings, "llm-pi-ai", mapping(llm));
    Ok(settings)
}


/// The settings with `p` as provider `deepseek-plus` under `llm-pi-ai.providers`.
/// Missing sections are created; a section on the way that is not a mapping is
/// left as it is, and then nothing is inserted.
pub open spec fn with_plus(s: Seq<(KeyModel, ValueModel)>, p: ValueModel) -> Seq<(KeyModel, ValueModel)> {
    let entry = seq![(kt("deepseek-plus"@), p)];
    match lookup(s, "llm-pi-ai"@) {
        None => set_key(
            s,
            "llm-pi-ai"@,
            ValueModel::Mapping(seq![(kt("providers"@), ValueModel::Mapping(entry))]),
        ),
        Some(ValueModel::Mapping(l)) => set_key(
            s,
            "llm-pi-ai"@,
            ValueModel::Mapping(
                match lookup(l, "providers"@) {
                    None => set_key(l, "providers"@, ValueModel::Mapping(entry)),
                    Some(ValueModel::Mapping(ps)) => set_key(
                        l,
                        "providers"@,
                        ValueModel::Mapping(set_key(ps, "deepseek-plus"@, p)),
                    ),
                    Some(_) => l,
                },
            ),
        ),
        Some(_) => s,
    }
}

/// The settings with the default model following the primary provider `primary`
/// to `deepseek-plus` (the model is kept); a missing default model is created as
/// `deepseek-plus` / `deepseek-v4-flash`; one that is not a mapping is kept.
pub open spec fn with_default_model(s: Seq<(KeyModel, ValueModel)>, primary: Option<Seq<char>>) -> Seq<
    (KeyModel, ValueModel),
> {
    match lookup(s, "agent-default-model"@) {
        None => set_key(
            s,
            "agent-default-model"@,
            ValueModel::Mapping(
                seq![
                    (kt("provider"@), ValueModel::Text("deepseek-plus"@)),
                    (kt("model"@), ValueModel::Text("deepseek-v4-flash"@)),
                ],
            ),
        ),
        Some(ValueModel::Mapping(m)) => if text_of(lookup(m, "provider"@)) == (match primary {
            Some(p) => p,
            None => Seq::empty(),
        }) {
            set_key(
                s,
                "agent-default-model"@,
                ValueModel::Mapping(set_key(m, "provider"@, ValueModel::Text("deepseek-plus"@))),
            )
        } else {
            s
        },
        Some(_) => s,
    }
}

/// The settings after merging `deepseek-plus` from the parsed provider text
/// `fragment`, with the default model following the primary provider `primary`.
pub open spec fn plus_merged(
    s: Seq<(KeyModel, ValueModel)>,
    fragment: Seq<(KeyModel, ValueModel)>,
    primary: Option<Seq<char>>,
) -> Seq<(KeyModel, ValueModel)> {
    match nested(fragment, "llm-pi-ai"@, "providers"@, "deepseek-plus"@) {
        None => s,
        Some(p) => with_default_model(with_plus(s, p), primary),
    }
}

/// Merges `deepseek-plus` into the settings: its declaration is the one under
/// `llm-pi-ai.providers.deepseek-plus` of `fragment`, the parsed provider text;
/// without one there the settings stay as they are. Then the default model
/// follows the primary provider `primary_id`.
pub fn merge_plus_provider(
    settings: Vec<(SettingsKey, SettingsValue)>,
    fragment: &Vec<(SettingsKey, SettingsValue)>,
    primary_id: &Option<String>,
) -> (r: Vec<(SettingsKey, SettingsValue)>)
    ensures
        entries_model(r@) == plus_merged(entries_model(settings@), entries_model(fragment@), opt_text(*primary_id)),
{
    let plus = match nested_value(fragment, "llm-pi-ai", "providers", "deepseek-plus") {
        Some(v) => v,
        None => return settings,
    };
    let mut settings = settings;
    let ghost orig = entries_model(settings@);
    let ghost p = model(plus);
    let ghost entry = seq![(kt("deepseek-plus"@), p)];
    match value_at(&settings, "llm-pi-ai") {
        None => {
            let mut providers: Vec<(SettingsKey, SettingsValue)> = Vec::new();
            assert(entries_model(providers@) =~= Seq::<(KeyModel, ValueModel)>::empty());
            push_entry(&mut providers, "deepseek-plus", plus);
            assert(entries_model(providers@) =~= entry);
            let mut llm: Vec<(SettingsKey, SettingsValue)> = Vec::new();
            assert(entries_model(llm@) =~= Seq::<(KeyModel, ValueModel)>::empty());
            push_entry(&mut llm, "providers", mapping(providers));
            assert(entries_model(llm@) =~= seq![(kt("providers"@), ValueModel::Mapping(entry))]);
            set_text_key(&mut settings, "llm-pi-ai", mapping(llm));
        },
        Some(SettingsValue::Mapping(mut llm)) => {
            proof {
                lemma_mapping_model(llm);
            }
            match value_at(&llm, "providers") {
                None => {
                    let mut providers: Vec<(SettingsKey, SettingsValue)> = Vec::new();
                    assert(entries_model(providers@) =~= Seq::<(KeyModel, ValueModel)>::empty());
                    push_entry(&mut providers, "deepseek-plus", plus);
                    assert(entries_model(providers@) =~= entry);
                    set_text_key(&mut llm, "providers", mapping(providers));
                },
                Some(SettingsValue::Mapping(mut ps)) => {
                    proof {
                        lemma_mapping_model(ps);
                    }
                    set_text_key(&mut ps, "deepseek-plus", plus);
                    set_text_key(&mut llm, "providers", mapping(ps));
                },
                Some(_) => {},
            }
            set_text_key(&mut settings, "llm-pi-ai", mapping(llm));
        },
        Some(_) => {},
    }
    assert(entries_model(settings@) == with_plus(orig, p));
    match value_at(&settings, "agent-default-model") {
        None => {
            let mut m: Vec<(SettingsKey, SettingsValue)> = Vec::new();
            assert(entries_model(m@) =~= Seq::<(KeyModel, ValueModel)>::empty());
            push_entry(&mut m, "provider", text_value("deepseek-plus"));
            push_entry(&mut m, "model", text_value("deepseek-v4-flash"));
            assert(entries_model(m@) =~= seq![
                (kt("provider"@), ValueModel::Text("deepseek-plus"@)),
                (kt("model"@), ValueModel::Text("deepseek-v4-flash"@)),
            ]);
            set_text_key(&mut settings, "agent-default-model", mapping(m));
        },
        Some(SettingsValue::Mapping(mut m)) => {
            proof {
                lemma_mapping_model(m);
            }
            let current = text_at(&m, "provider");
            let primary = match primary_id {
                Some(p) => p.clone(),
                None => String::new(),
            };
            if str_eq(current.as_str(), primary.as_str()) {
                set_text_key(&mut m, "provider", text_value("deepseek-plus"));
                set_text_key(&mut settings, "agent-default-model", mapping(m));
            }
        },
        Some(_) => {},
    }
    settings
}


/// A built-in DeepSeek model: id, name, and the default capacities.
pub open spec fn builtin_model(id: Seq<char>, name: Seq<char>) -> ValueModel {
    ValueModel::Mapping(
        seq![
            (kt("id"@), ValueModel::Text(id)),
            (kt("name"@), ValueModel::Text(name)),
            (kt("contextWindow"@), ValueModel::UInt(1_000_000)),
            (kt("maxTokens"@), ValueModel::UInt(256_000)),
        ],
    )
}

/// The built-in configuration of the DeepSeek provider, used when the settings
/// never configured it.
pub open spec fn builtin_primary() -> ValueModel {
    ValueModel::Mapping(
        seq![
            (kt("apiKeyEnv"@), ValueModel::Text("DEEPSEEK_API_KEY"@)),
            (kt("baseURL"@), ValueModel::Text("https://api.deepseek.com"@)),
            (
                kt("models"@),
                ValueModel::List(
                    seq![
                        builtin_model("deepseek-v4-flash"@, "DeepSeek-V4-Flash"@),
                        builtin_model("deepseek-v4-pro"@, "DeepSeek-V4-Pro"@),
                    ],
                ),
            ),
        ],
    )
}

fn builtin_model_value(id: &str, name: &str) -> (r: SettingsValue)
    ensures
        model(r) == builtin_model(id@, name@),
{
    let mut m: Vec<(SettingsKey, SettingsValue)> = Vec::new();
    assert(entries_model(m@) =~= Seq::<(KeyModel, ValueModel)>::empty());
    push_entry(&mut m, "id", text_value(id));
    push_entry(&mut m, "name", text_value(name));
    push_entry(&mut m, "contextWindow", SettingsValue::UInt(1_000_000));
    push_entry(&mut m, "maxTokens", SettingsValue::UInt(256_000));
    assert(entries_model(m@) =~= seq![
        (kt("id"@), ValueModel::Text(id@)),
        (kt("name"@), ValueModel::Text(name@)),
        (kt("contextWindow"@), ValueModel::UInt(1_000_000)),
        (kt("maxTokens"@), ValueModel::UInt(256_000)),
    ]);
    mapping(m)
}

/// The built-in configuration of the DeepSeek provider.
pub fn builtin_primary_config() -> (r: SettingsValue)
    ensures
        model(r) == builtin_primary(),
{
    let mut models: Vec<SettingsValue> = Vec::new();
    let a = builtin_model_value("deepseek-v4-flash", "DeepSeek-V4-Flash");
    let b = builtin_model_value("deepseek-v4-pro", "DeepSeek-V4-Pro");
    proof {
        lemma_values_push(models@, a);
    }
    models.push(a);
    proof {
        lemma_values_push(models@, b);
    }
    models.push(b);
    assert(values_model(models@) =~= seq![
        builtin_model("deepseek-v4-flash"@, "DeepSeek-V4-Flash"@),
        builtin_model("deepseek-v4-pro"@, "DeepSeek-V4-Pro"@),
    ]);
    let mut m: Vec<(SettingsKey, SettingsValue)> = Vec::new();
    assert(entries_model(m@) =~= Seq::<(KeyModel, ValueModel)>::empty());
    push_entry(&mut m, "apiKeyEnv", text_value("DEEPSEEK_API_KEY"));
    push_entry(&mut m, "baseURL", text_value("https://api.deepseek.com"));
    push_entry(&mut m, "models", list(models));
    assert(entries_model(m@) =~= seq![
        (kt("apiKeyEnv"@), ValueModel::Text("DEEPSEEK_API_KEY"@)),
        (kt("baseURL"@), ValueModel::Text("https://api.deepseek.com"@)),
        (
            kt("models"@),
            ValueModel::List(
                seq![
                    builtin_model("deepseek-v4-flash"@, "DeepSeek-V4-Flash"@),
                    builtin_model("deepseek-v4-pro"@, "DeepSeek-V4-Pro"@),
                ],
            ),
        ),
    ]);
    mapping(m)
}

pub open spec fn key_text(k: KeyModel) -> Option<Seq<char>> {
    match k {
        KeyModel::Text(s) => Some(s),
        KeyModel::Other(_) => None,
    }
}

/// The primary DeepSeek provider, as its id (where it is text) and its
/// configuration: the first provider listed under `llm-deepseek.providers`;
/// else the `llm-deepseek` section itself, as `deepseek-official`; else, when the
/// settings have no such mapping, the built-in configuration as
/// `deepseek-official`.
pub open spec fn primary_of(s: Seq<(KeyModel, ValueModel)>) -> (Option<Seq<char>>, ValueModel) {
    match lookup(s, "llm-deepseek"@) {
        Some(ValueModel::Mapping(root)) => match lookup(root, "providers"@) {
            Some(ValueModel::Mapping(ps)) => if ps.len() > 0 {
                (key_text(ps[0].0), ps[0].1)
            } else {
                (Some("deepseek-official"@), ValueModel::Mapping(root))
            },
            _ => (Some("deepseek-official"@), ValueModel::Mapping(root)),
        },
        _ => (Some("deepseek-official"@), builtin_primary()),
    }
}

/// The entry of `deepseek-plus` copied from a primary model `m` with id `id`:
/// id, name (where it is text), input `[text, image]`, the capacities it states
/// (the missing ones at their defaults, after them), and the reasoning efforts
/// off, high and max.
#[verifier::opaque]
pub open spec fn plus_entry(m: ValueModel, id: Seq<char>) -> ValueModel {
    let name = match field(m, "name"@) {
        Some(ValueModel::Text(n)) => seq![(kt("name"@), ValueModel::Text(n))],
        _ => Seq::empty(),
    };
    let cw = field(m, "contextWindow"@);
    let mt = field(m, "maxTokens"@);
    ValueModel::Mapping(
        seq![(kt("id"@), ValueModel::Text(id))] + name + seq![
            (kt("input"@), ValueModel::List(seq![ValueModel::Text("text"@), ValueModel::Text("image"@)])),
        ] + (match cw {
            Some(v) => seq![(kt("contextWindow"@), v)],
            None => Seq::empty(),
        }) + (match mt {
            Some(v) => seq![(kt("maxTokens"@), v)],
            None => Seq::empty(),
        }) + (if cw is None {
            seq![(kt("contextWindow"@), ValueModel::UInt(1_000_000))]
        } else {
            Seq::empty()
        }) + (if mt is None {
            seq![(kt("maxTokens"@), ValueModel::UInt(256_000))]
        } else {
            Seq::empty()
        }) + seq![
            (
                kt("reasoningEfforts"@),
                ValueModel::Mapping(
                    seq![
                        (kt("off"@), ValueModel::Null),
                        (kt("high"@), ValueModel::Text("high"@)),
                        (kt("max"@), ValueModel::Text("max"@)),
                    ],
                ),
            ),
        ],
    )
}

/// The models of `deepseek-plus`: one entry per primary model with a non-empty
/// text id, in order.
pub open spec fn plus_entries(models: Seq<ValueModel>) -> Seq<ValueModel>
    decreases models.len(),
{
    if models.len() == 0 {
        Seq::empty()
    } else {
        let before = plus_entries(models.drop_last());
        let id = text_of(field(models.last(), "id"@));
        if id.len() == 0 {
            before
        } else {
            before.push(plus_entry(models.last(), id))
        }
    }
}

/// What the copy `deepseek-plus` is made from: the primary provider's id, its
/// API key variable, its base URL and the copied model entries; none unless the
/// primary provider has a base URL, an API key variable and at least one model.
pub open spec fn plus_plan_of(s: Seq<(KeyModel, ValueModel)>) -> Option<
    (Option<Seq<char>>, Seq<char>, Seq<char>, Seq<ValueModel>),
> {
    let (id, config) = primary_of(s);
    let base_url = text_of(field(config, "baseURL"@));
    let key = text_of(field(config, "apiKeyEnv"@));
    let models = match field(config, "models"@) {
        Some(ValueModel::List(l)) => l,
        _ => Seq::empty(),
    };
    if base_url.len() > 0 && key.len() > 0 && models.len() > 0 {
        Some((id, key, base_url, plus_entries(models)))
    } else {
        None
    }
}


/// The primary DeepSeek provider of the settings: its id, where it is text, and a
/// copy of its configuration.
pub fn primary_provider(settings: &Vec<(SettingsKey, SettingsValue)>) -> (r: (Option<String>, SettingsValue))
    ensures
        (opt_text(r.0), model(r.1)) == primary_of(entries_model(settings@)),
{
    match value_at(settings, "llm-deepseek") {
        Some(SettingsValue::Mapping(root)) => {
            proof {
                lemma_mapping_model(root);
            }
            match value_at(&root, "providers") {
                Some(SettingsValue::Mapping(ps)) => {
                    proof {
                        lemma_mapping_model(ps);
                    }
                    if ps.len() > 0 {
                        let id = match &ps[0].0 {
                            SettingsKey::Text(t) => Some(t.clone()),
                            SettingsKey::Other(_) => None,
                        };
                        (id, copy_value(&ps[0].1))
                    } else {
                        (Some(String::from_str("deepseek-official")), mapping(root))
                    }
                },
                _ => (Some(String::from_str("deepseek-official")), mapping(root)),
            }
        },
        _ => (Some(String::from_str("deepseek-official")), builtin_primary_config()),
    }
}

/// The `deepseek-plus` entry copied from primary model `m` with id `id`.
pub fn plus_entry_value(m: &SettingsValue, id: String) -> (r: SettingsValue)
    ensures
        model(r) == plus_entry(model(*m), id@),
{
    reveal(plus_entry);
    let ghost mm = model(*m);
    let mut e: Vec<(SettingsKey, SettingsValue)> = Vec::new();
    assert(entries_model(e@) =~= Seq::<(KeyModel, ValueModel)>::empty());
    let ghost idv = id@;
    push_entry(&mut e, "id", SettingsValue::Text(id));
    let ghost name_part = match field(mm, "name"@) {
        Some(ValueModel::Text(n)) => seq![(kt("name"@), ValueModel::Text(n))],
        _ => Seq::<(KeyModel, ValueModel)>::empty(),
    };
    let ghost stage = seq![(kt("id"@), ValueModel::Text(idv))];
    assert(entries_model(e@) =~= stage);
    match field_value(m, "name") {
        Some(SettingsValue::Text(n)) => {
            push_entry(&mut e, "name", SettingsValue::Text(n));
        },
        _ => {},
    }
    assert(entries_model(e@) =~= stage + name_part);
    let ghost stage = stage + name_part;
    let mut input: Vec<SettingsValue> = Vec::new();
    assert(values_model(input@) =~= Seq::<ValueModel>::empty());
    let t = text_value("text");
    proof {
        lemma_values_push(input@, t);
    }
    input.push(t);
    let im = text_value("image");
    proof {
        lemma_values_push(input@, im);
    }
    input.push(im);
    assert(values_model(input@) =~= seq![ValueModel::Text("text"@), ValueModel::Text("image"@)]);
    push_entry(&mut e, "input", list(input));
    let ghost stage = stage + seq![
        (kt("input"@), ValueModel::List(seq![ValueModel::Text("text"@), ValueModel::Text("image"@)])),
    ];
    assert(entries_model(e@) =~= stage);
    let cw = field_value(m, "contextWindow");
    let mt = field_value(m, "maxTokens");
    let cw_missing = cw.is_none();
    let mt_missing = mt.is_none();
    let ghost cwm = field(mm, "contextWindow"@);
    let ghost mtm = field(mm, "maxTokens"@);
    match cw {
        Some(v) => {
            push_entry(&mut e, "contextWindow", v);
        },
        None => {},
    }
    let ghost stage = stage + (match cwm {
        Some(v) => seq![(kt("contextWindow"@), v)],
        None => Seq::<(KeyModel, ValueModel)>::empty(),
    });
    assert(entries_model(e@) =~= stage);
    match mt {
        Some(v) => {
            push_entry(&mut e, "maxTokens", v);
        },
        None => {},
    }
    let ghost stage = stage + (match mtm {
        Some(v) => seq![(kt("maxTokens"@), v)],
        None => Seq::<(KeyModel, ValueModel)>::empty(),
    });
    assert(entries_model(e@) =~= stage);
    if cw_missing {
        push_entry(&mut e, "contextWindow", SettingsValue::UInt(1_000_000));
    }
    let ghost stage = stage + (if cwm is None {
        seq![(kt("contextWindow"@), ValueModel::UInt(1_000_000))]
    } else {
        Seq::<(KeyModel, ValueModel)>::empty()
    });
    assert(entries_model(e@) =~= stage);
    if mt_missing {
        push_entry(&mut e, "maxTokens", SettingsValue::UInt(256_000));
    }
    let ghost stage = stage + (if mtm is None {
        seq![(kt("maxTokens"@), ValueModel::UInt(256_000))]
    } else {
        Seq::<(KeyModel, ValueModel)>::empty()
    });
    assert(entries_model(e@) =~= stage);
    let mut efforts: Vec<(SettingsKey, SettingsValue)> = Vec::new();
    assert(entries_model(efforts@) =~= Seq::<(KeyModel, ValueModel)>::empty());
    push_entry(&mut efforts, "off", SettingsValue::Null);
    push_entry(&mut efforts, "high", text_value("high"));
    push_entry(&mut efforts, "max", text_value("max"));
    let ghost eff = seq![
        (kt("off"@), ValueModel::Null),
        (kt("high"@), ValueModel::Text("high"@)),
        (kt("max"@), ValueModel::Text("max"@)),
    ];
    assert(entries_model(efforts@) =~= eff);
    push_entry(&mut e, "reasoningEfforts", mapping(efforts));
    assert(entries_model(e@) =~= stage + seq![(kt("reasoningEfforts"@), ValueModel::Mapping(eff))]);
    mapping(e)
}

/// The model entries of `deepseek-plus` for the primary provider's models.
pub fn plus_model_entries(models: &Vec<SettingsValue>) -> (r: Vec<SettingsValue>)
    ensures
        values_model(r@) == plus_entries(values_model(models@)),
{
    let ghost ms = values_model(models@);
    let mut out: Vec<SettingsValue> = Vec::new();
    let mut i: usize = 0;
    assert(ms.take(0) =~= Seq::<ValueModel>::empty());
    assert(values_model(out@) =~= Seq::<ValueModel>::empty());
    while i < models.len()
        invariant
            i <= models@.len(),
            ms == values_model(models@),
            values_model(out@) == plus_entries(ms.take(i as int)),
        decreases models.len() - i,
    {
        assert(ms.take(i + 1).drop_last() =~= ms.take(i as int));
        assert(ms.take(i + 1).last() == model(models@[i as int]));
        let id = match field_value(&models[i], "id") {
            Some(SettingsValue::Text(t)) => t,
            _ => String::new(),
        };
        if !id.as_str().is_empty() {
            let entry = plus_entry_value(&models[i], id);
            proof {
                lemma_values_push(out@, entry);
            }
            out.push(entry);
        }
        i = i + 1;
    }
    assert(ms.take(i as int) =~= ms);
    out
}

/// What `deepseek-plus` is made from.
pub struct PlusPlan {
    pub primary_id: Option<String>,
    pub api_key_env: String,
    pub base_url: String,
    /// The model entries of `deepseek-plus`.
    pub models: Vec<SettingsValue>,
}

/// What `deepseek-plus` is made from, for these settings; none where the primary
/// provider lacks a base URL, an API key variable or models.
pub fn plus_plan(settings: &Vec<(SettingsKey, SettingsValue)>) -> (r: Option<PlusPlan>)
    ensures
        match plus_plan_of(entries_model(settings@)) {
            None => r is None,
            Some(p) => r matches Some(q) && opt_text(q.primary_id) == p.0 && q.api_key_env@ == p.1
                && q.base_url@ == p.2 && values_model(q.models@) == p.3,
        },
{
    let (id, config) = primary_provider(settings);
    let base_url = match field_value(&config, "baseURL") {
        Some(SettingsValue::Text(t)) => t,
        _ => String::new(),
    };
    let api_key_env = match field_value(&config, "apiKeyEnv") {
        Some(SettingsValue::Text(t)) => t,
        _ => String::new(),
    };
    let models = match field_value(&config, "models") {
        Some(SettingsValue::List(l)) => {
            proof {
                lemma_list_model(l);
            }
            l
        },
        _ => {
            let v: Vec<SettingsValue> = Vec::new();
            assert(values_model(v@) =~= Seq::<ValueModel>::empty());
            v
        },
    };
    if base_url.as_str().is_empty() || api_key_env.as_str().is_empty() || models.len() == 0 {
        return None;
    }
    let entries = plus_model_entries(&models);
    Some(PlusPlan { primary_id: id, api_key_env, base_url, models: entries })
}


/// The first position of text key `key`, or that no entry has it.
pub proof fn lemma_find_key_first(m: Seq<(KeyModel, ValueModel)>, key: Seq<char>)
    ensures
        match find_key(m, key) {
            Some(i) => 0 <= i < m.len() && m[i].0 == kt(key) && forall|j: int| 0 <= j < i ==> m[j].0 != kt(key),
            None => forall|j: int| 0 <= j < m.len() ==> m[j].0 != kt(key),
        },
    decreases m.len(),
{
    if m.len() > 0 && m[0].0 != kt(key) {
        let t = m.drop_first();
        lemma_find_key_first(t, key);
        assert forall|j: int| 1 <= j < m.len() implies m[j] == t[j - 1] by {}
        match find_key(t, key) {
            Some(i) => {
                assert forall|j: int| 0 <= j < i + 1 implies m[j].0 != kt(key) by {
                    if j > 0 {
                        assert(m[j] == t[j - 1]);
                    }
                }
            },
            None => {
                assert forall|j: int| 0 <= j < m.len() implies m[j].0 != kt(key) by {
                    if j > 0 {
                        assert(m[j] == t[j - 1]);
                    }
                }
            },
        }
    }
}

/// Setting text key `key` changes what that key looks up, and no other key.
pub proof fn lemma_set_key_lookup(m: Seq<(KeyModel, ValueModel)>, key: Seq<char>, v: ValueModel, k: Seq<char>)
    ensures
        lookup(set_key(m, key, v), k) == (if k == key {
            Some(v)
        } else {
            lookup(m, k)
        }),
{
    let m2 = set_key(m, key, v);
    lemma_find_key_first(m, key);
    lemma_find_key_first(m, k);
    lemma_find_key_first(m2, k);
    if k != key {
        assert(kt(k) != kt(key));
    }
    match find_key(m, key) {
        Some(i) => {
            assert(m2 == m.update(i, (kt(key), v)));
            assert forall|j: int| 0 <= j < m.len() && j != i implies m2[j] == m[j] by {}
            if k == key {
                match find_key(m2, k) {
                    Some(i2) => {
                        if i2 < i {
                            assert(m2[i2] == m[i2]);
                        } else if i2 > i {
                            assert(m2[i].0 == kt(k));
                        }
                    },
                    None => {
                        assert(m2[i].0 == kt(k));
                    },
                }
            } else {
                match (find_key(m, k), find_key(m2, k)) {
                    (Some(a), Some(b)) => {
                        if a < b {
                            assert(m2[a] == m[a]);
                        } else if b < a {
                            assert(m2[b] == m[b]);
                        }
                    },
                    (Some(a), None) => {
                        assert(m2[a] == m[a]);
                    },
                    (None, Some(b)) => {
                        assert(m2[b] == m[b]);
                    },
                    (None, None) => {},
                }
            }
        },
        None => {
            assert(m2 == m.push((kt(key), v)));
            assert forall|j: int| 0 <= j < m.len() implies m2[j] == m[j] by {}
            if k == key {
                match find_key(m2, k) {
                    Some(i2) => {
                        if i2 < m.len() {
                            assert(m2[i2] == m[i2]);
                        }
                    },
                    None => {
                        assert(m2[m.len() as int].0 == kt(k));
                    },
                }
            } else {
                match (find_key(m, k), find_key(m2, k)) {
                    (Some(a), Some(b)) => {
                        if a < b {
                            assert(m2[a] == m[a]);
                        } else if b < a {
                            assert(m2[b] == m[b]);
                        }
                    },
                    (Some(a), None) => {
                        assert(m2[a] == m[a]);
                    },
                    (None, Some(b)) => {
                        if b < m.len() {
                            assert(m2[b] == m[b]);
                        }
                    },
                    (None, None) => {},
                }
            }
        },
    }
}

/// The providers declared under `llm-pi-ai.providers`.
pub open spec fn providers_of(s: Seq<(KeyModel, ValueModel)>) -> Seq<(KeyModel, ValueModel)> {
    sub_mapping(lookup(sub_mapping(lookup(s, "llm-pi-ai"@)), "providers"@))
}

proof fn lemma_section_names_differ()
    ensures
        "llm-pi-ai"@ != "agent-default-model"@,
{
    reveal_strlit("llm-pi-ai");
    reveal_strlit("agent-default-model");
    assert("llm-pi-ai"@.len() != "agent-default-model"@.len());
}

/// Merging `deepseek-plus` leaves every top-level setting other than
/// `llm-pi-ai` and `agent-default-model` as it was, the primary DeepSeek
/// settings under `llm-deepseek` among them.
pub proof fn law_plus_merge_keeps_other_settings(
    s: Seq<(KeyModel, ValueModel)>,
    fragment: Seq<(KeyModel, ValueModel)>,
    primary: Option<Seq<char>>,
    key: Seq<char>,
)
    requires
        key != "llm-pi-ai"@,
        key != "agent-default-model"@,
    ensures
        lookup(plus_merged(s, fragment, primary), key) == lookup(s, key),
{
    if let Some(p) = nested(fragment, "llm-pi-ai"@, "providers"@, "deepseek-plus"@) {
        let w = with_plus(s, p);
        match lookup(s, "llm-pi-ai"@) {
            None => lemma_set_key_lookup(
                s,
                "llm-pi-ai"@,
                ValueModel::Mapping(seq![(kt("providers"@), ValueModel::Mapping(seq![(kt("deepseek-plus"@), p)]))]),
                key,
            ),
            Some(ValueModel::Mapping(l)) => {
                let inner = match lookup(l, "providers"@) {
                    None => set_key(l, "providers"@, ValueModel::Mapping(seq![(kt("deepseek-plus"@), p)])),
                    Some(ValueModel::Mapping(ps)) => set_key(
                        l,
                        "providers"@,
                        ValueModel::Mapping(set_key(ps, "deepseek-plus"@, p)),
                    ),
                    Some(_) => l,
                };
                lemma_set_key_lookup(s, "llm-pi-ai"@, ValueModel::Mapping(inner), key);
            },
            Some(_) => {},
        }
        assert(lookup(w, key) == lookup(s, key));
        lemma_default_model_keeps(w, primary, key);
    }
}

proof fn lemma_default_model_keeps(w: Seq<(KeyModel, ValueModel)>, primary: Option<Seq<char>>, key: Seq<char>)
    requires
        key != "agent-default-model"@,
    ensures
        lookup(with_default_model(w, primary), key) == lookup(w, key),
{
    match lookup(w, "agent-default-model"@) {
        None => lemma_set_key_lookup(
            w,
            "agent-default-model"@,
            ValueModel::Mapping(
                seq![
                    (kt("provider"@), ValueModel::Text("deepseek-plus"@)),
                    (kt("model"@), ValueModel::Text("deepseek-v4-flash"@)),
                ],
            ),
            key,
        ),
        Some(ValueModel::Mapping(m)) => lemma_set_key_lookup(
            w,
            "agent-default-model"@,
            ValueModel::Mapping(set_key(m, "provider"@, ValueModel::Text("deepseek-plus"@))),
            key,
        ),
        Some(_) => {},
    }
}

/// Merging `deepseek-plus` leaves every other provider under
/// `llm-pi-ai.providers` as it was; where the sections on the way are mappings
/// or missing, `deepseek-plus` is then the declaration the provider text gives.
pub proof fn law_plus_merge_providers(
    s: Seq<(KeyModel, ValueModel)>,
    fragment: Seq<(KeyModel, ValueModel)>,
    primary: Option<Seq<char>>,
    name: Seq<char>,
)
    ensures
        name != "deepseek-plus"@ ==> lookup(providers_of(plus_merged(s, fragment, primary)), name) == lookup(
            providers_of(s),
            name,
        ),
        match nested(fragment, "llm-pi-ai"@, "providers"@, "deepseek-plus"@) {
            Some(p) => (match lookup(s, "llm-pi-ai"@) {
                None => true,
                Some(ValueModel::Mapping(l)) => lookup(l, "providers"@) is None || lookup(l, "providers"@) matches Some(ValueModel::Mapping(_)),
                Some(_) => false,
            }) ==> lookup(providers_of(plus_merged(s, fragment, primary)), "deepseek-plus"@) == Some(p),
            None => true,
        },
{
    lemma_section_names_differ();
    if let Some(p) = nested(fragment, "llm-pi-ai"@, "providers"@, "deepseek-plus"@) {
        let w = with_plus(s, p);
        let entry = seq![(kt("deepseek-plus"@), p)];
        lemma_default_model_keeps(w, primary, "llm-pi-ai"@);
        lemma_set_key_lookup(entry, "deepseek-plus"@, p, name);
        assert(lookup(entry, "deepseek-plus"@) == Some(p)) by {
            assert(entry[0].0 == kt("deepseek-plus"@));
        }
        if name != "deepseek-plus"@ {
            assert(lookup(entry, name) is None) by {
                lemma_find_key_first(entry, name);
                assert(entry[0].0 != kt(name));
            }
        }
        match lookup(s, "llm-pi-ai"@) {
            None => {
                let l2 = seq![(kt("providers"@), ValueModel::Mapping(entry))];
                lemma_set_key_lookup(s, "llm-pi-ai"@, ValueModel::Mapping(l2), "llm-pi-ai"@);
                assert(lookup(l2, "providers"@) == Some(ValueModel::Mapping(entry))) by {
                    assert(l2[0].0 == kt("providers"@));
                }
            },
            Some(ValueModel::Mapping(l)) => {
                let inner = match lookup(l, "providers"@) {
                    None => set_key(l, "providers"@, ValueModel::Mapping(entry)),
                    Some(ValueModel::Mapping(ps)) => set_key(
                        l,
                        "providers"@,
                        ValueModel::Mapping(set_key(ps, "deepseek-plus"@, p)),
                    ),
                    Some(_) => l,
                };
                lemma_set_key_lookup(s, "llm-pi-ai"@, ValueModel::Mapping(inner), "llm-pi-ai"@);
                match lookup(l, "providers"@) {
                    None => {
                        lemma_set_key_lookup(l, "providers"@, ValueModel::Mapping(entry), "providers"@);
                    },
                    Some(ValueModel::Mapping(ps)) => {
                        lemma_set_key_lookup(
                            l,
                            "providers"@,
                            ValueModel::Mapping(set_key(ps, "deepseek-plus"@, p)),
                            "providers"@,
                        );
                        lemma_set_key_lookup(ps, "deepseek-plus"@, p, name);
                        lemma_set_key_lookup(ps, "deepseek-plus"@, p, "deepseek-plus"@);
                    },
                    Some(_) => {},
                }
            },
            Some(_) => {},
        }
    }
}

/// Merging the vision provider `provider` with declaration `p` sets that
/// provider under `llm-pi-ai.providers` to `p` and leaves every other provider
/// and every other top-level setting as it was.
pub proof fn law_vision_merge(s: Seq<(KeyModel, ValueModel)>, provider: Seq<char>, p: ValueModel, key: Seq<char>, name: Seq<char>)
    ensures
        key != "llm-pi-ai"@ ==> lookup(with_provider(s, provider, p), key) == lookup(s, key),
        lookup(providers_of(with_provider(s, provider, p)), provider) == Some(p),
        name != provider ==> lookup(providers_of(with_provider(s, provider, p)), name) == lookup(providers_of(s), name),
{
    let llm = sub_mapping(lookup(s, "llm-pi-ai"@));
    let providers = sub_mapping(lookup(llm, "providers"@));
    let ps2 = set_key(providers, provider, p);
    let llm2 = set_key(llm, "providers"@, ValueModel::Mapping(ps2));
    lemma_set_key_lookup(s, "llm-pi-ai"@, ValueModel::Mapping(llm2), key);
    lemma_set_key_lookup(s, "llm-pi-ai"@, ValueModel::Mapping(llm2), "llm-pi-ai"@);
    lemma_set_key_lookup(llm, "providers"@, ValueModel::Mapping(ps2), "providers"@);
    lemma_set_key_lookup(providers, provider, p, provider);
    lemma_set_key_lookup(providers, provider, p, name);
}


/// Setting a key to the value it already has changes nothing.
pub proof fn lemma_set_key_same(m: Seq<(KeyModel, ValueModel)>, k: Seq<char>, v: ValueModel)
    requires
        lookup(m, k) == Some(v),
    ensures
        set_key(m, k, v) == m,
{
    lemma_find_key_first(m, k);
    if let Some(i) = find_key(m, k) {
        assert(m.update(i, (kt(k), v)) =~= m);
    }
}

/// Merging the vision provider a second time with the same declaration changes
/// nothing.
pub proof fn law_vision_merge_idempotent(s: Seq<(KeyModel, ValueModel)>, provider: Seq<char>, p: ValueModel)
    ensures
        with_provider(with_provider(s, provider, p), provider, p) == with_provider(s, provider, p),
{
    let llm = sub_mapping(lookup(s, "llm-pi-ai"@));
    let providers = sub_mapping(lookup(llm, "providers"@));
    let ps2 = set_key(providers, provider, p);
    let llm2 = set_key(llm, "providers"@, ValueModel::Mapping(ps2));
    let w = set_key(s, "llm-pi-ai"@, ValueModel::Mapping(llm2));
    lemma_set_key_lookup(s, "llm-pi-ai"@, ValueModel::Mapping(llm2), "llm-pi-ai"@);
    lemma_set_key_lookup(llm, "providers"@, ValueModel::Mapping(ps2), "providers"@);
    lemma_set_key_lookup(providers, provider, p, provider);
    lemma_set_key_same(ps2, provider, p);
    lemma_set_key_same(llm2, "providers"@, ValueModel::Mapping(ps2));
    lemma_set_key_same(w, "llm-pi-ai"@, ValueModel::Mapping(llm2));
}

/// `deepseek-plus` is declared as `p` wherever the sections on the way allow it.
spec fn plus_in_place(x: Seq<(KeyModel, ValueModel)>, p: ValueModel) -> bool {
    match lookup(x, "llm-pi-ai"@) {
        None => false,
        Some(ValueModel::Mapping(l)) => match lookup(l, "providers"@) {
            None => false,
            Some(ValueModel::Mapping(ps)) => lookup(ps, "deepseek-plus"@) == Some(p),
            Some(_) => true,
        },
        Some(_) => true,
    }
}

proof fn lemma_plus_in_place_stays(x: Seq<(KeyModel, ValueModel)>, p: ValueModel)
    requires
        plus_in_place(x, p),
    ensures
        with_plus(x, p) == x,
{
    if let Some(ValueModel::Mapping(l)) = lookup(x, "llm-pi-ai"@) {
        match lookup(l, "providers"@) {
            Some(ValueModel::Mapping(ps)) => {
                lemma_set_key_same(ps, "deepseek-plus"@, p);
                lemma_set_key_same(l, "providers"@, ValueModel::Mapping(ps));
            },
            _ => {},
        }
        lemma_set_key_same(x, "llm-pi-ai"@, ValueModel::Mapping(l));
    }
}

proof fn lemma_plus_in_place_after(s: Seq<(KeyModel, ValueModel)>, p: ValueModel)
    ensures
        plus_in_place(with_plus(s, p), p),
{
    let entry = seq![(kt("deepseek-plus"@), p)];
    assert(lookup(entry, "deepseek-plus"@) == Some(p)) by {
        assert(entry[0].0 == kt("deepseek-plus"@));
    }
    match lookup(s, "llm-pi-ai"@) {
        None => {
            let l2 = seq![(kt("providers"@), ValueModel::Mapping(entry))];
            lemma_set_key_lookup(s, "llm-pi-ai"@, ValueModel::Mapping(l2), "llm-pi-ai"@);
            assert(lookup(l2, "providers"@) == Some(ValueModel::Mapping(entry))) by {
                assert(l2[0].0 == kt("providers"@));
            }
        },
        Some(ValueModel::Mapping(l)) => {
            let inner = match lookup(l, "providers"@) {
                None => set_key(l, "providers"@, ValueModel::Mapping(entry)),
                Some(ValueModel::Mapping(ps)) => set_key(
                    l,
                    "providers"@,
                    ValueModel::Mapping(set_key(ps, "deepseek-plus"@, p)),
                ),
                Some(_) => l,
            };
            lemma_set_key_lookup(s, "llm-pi-ai"@, ValueModel::Mapping(inner), "llm-pi-ai"@);
            match lookup(l, "providers"@) {
                None => lemma_set_key_lookup(l, "providers"@, ValueModel::Mapping(entry), "providers"@),
                Some(ValueModel::Mapping(ps)) => {
                    lemma_set_key_lookup(
                        l,
                        "providers"@,
                        ValueModel::Mapping(set_key(ps, "deepseek-plus"@, p)),
                        "providers"@,
                    );
                    lemma_set_key_lookup(ps, "deepseek-plus"@, p, "deepseek-plus"@);
                },
                Some(_) => {},
            }
        },
        Some(_) => {},
    }
}

/// Letting the default model follow the primary provider a second time changes
/// nothing.
proof fn lemma_default_model_settles(a: Seq<(KeyModel, ValueModel)>, primary: Option<Seq<char>>)
    ensures
        with_default_model(with_default_model(a, primary), primary) == with_default_model(a, primary),
{
    let b = with_default_model(a, primary);
    let plus = ValueModel::Text("deepseek-plus"@);
    match lookup(a, "agent-default-model"@) {
        None => {
            let d = seq![(kt("provider"@), plus), (kt("model"@), ValueModel::Text("deepseek-v4-flash"@))];
            lemma_set_key_lookup(a, "agent-default-model"@, ValueModel::Mapping(d), "agent-default-model"@);
            assert(lookup(d, "provider"@) == Some(plus)) by {
                assert(d[0].0 == kt("provider"@));
            }
            lemma_set_key_same(d, "provider"@, plus);
            lemma_set_key_same(b, "agent-default-model"@, ValueModel::Mapping(d));
        },
        Some(ValueModel::Mapping(m)) => {
            let prim = match primary {
                Some(q) => q,
                None => Seq::empty(),
            };
            if text_of(lookup(m, "provider"@)) == prim {
                let m2 = set_key(m, "provider"@, plus);
                lemma_set_key_lookup(a, "agent-default-model"@, ValueModel::Mapping(m2), "agent-default-model"@);
                lemma_set_key_lookup(m, "provider"@, plus, "provider"@);
                lemma_set_key_same(m2, "provider"@, plus);
                lemma_set_key_same(b, "agent-default-model"@, ValueModel::Mapping(m2));
            }
        },
        Some(_) => {},
    }
}

/// Merging `deepseek-plus` a second time with the same provider text changes
/// nothing, so the merge can run at every start.
pub proof fn law_plus_merge_idempotent(
    s: Seq<(KeyModel, ValueModel)>,
    fragment: Seq<(KeyModel, ValueModel)>,
    primary: Option<Seq<char>>,
)
    ensures
        plus_merged(plus_merged(s, fragment, primary), fragment, primary) == plus_merged(s, fragment, primary),
{
    if let Some(p) = nested(fragment, "llm-pi-ai"@, "providers"@, "deepseek-plus"@) {
        let a = with_plus(s, p);
        let b = with_default_model(a, primary);
        lemma_section_names_differ();
        lemma_plus_in_place_after(s, p);
        lemma_default_model_keeps(a, primary, "llm-pi-ai"@);
        assert(plus_in_place(b, p));
        lemma_plus_in_place_stays(b, p);
        lemma_default_model_settles(a, primary);
    }
}


proof fn lemma_plus_entry_input(m: ValueModel, id: Seq<char>)
    ensures
        field(plus_entry(m, id), "input"@) == Some(
            ValueModel::List(seq![ValueModel::Text("text"@), ValueModel::Text("image"@)]),
        ),
{
    reveal(plus_entry);
    reveal_strlit("id");
    reveal_strlit("name");
    reveal_strlit("input");
    assert(kt("id"@) != kt("input"@)) by {
        assert("id"@.len() != "input"@.len());
    }
    assert(kt("name"@) != kt("input"@)) by {
        assert("name"@.len() != "input"@.len());
    }
    let e = match plus_entry(m, id) {
        ValueModel::Mapping(e) => e,
        _ => Seq::empty(),
    };
    let name = match field(m, "name"@) {
        Some(ValueModel::Text(n)) => seq![(kt("name"@), ValueModel::Text(n))],
        _ => Seq::empty(),
    };
    let head = seq![(kt("id"@), ValueModel::Text(id))] + name;
    let j = head.len() as int;
    let input = ValueModel::List(seq![ValueModel::Text("text"@), ValueModel::Text("image"@)]);
    assert(e.len() > j);
    assert(e[j] == (kt("input"@), input));
    assert forall|k: int| 0 <= k < j implies e[k].0 != kt("input"@) by {
        assert(e[k] == head[k]);
    }
    lemma_find_key_first(e, "input"@);
    if let Some(i) = find_key(e, "input"@) {
        assert(i == j);
    }
}

/// Every model of `deepseek-plus` declares text and image input, which is what
/// lets images through to the primary models.
pub proof fn law_plus_models_take_images(models: Seq<ValueModel>, i: int)
    requires
        0 <= i < plus_entries(models).len(),
    ensures
        field(plus_entries(models)[i], "input"@) == Some(
            ValueModel::List(seq![ValueModel::Text("text"@), ValueModel::Text("image"@)]),
        ),
    decreases models.len(),
{
    let before = plus_entries(models.drop_last());
    let id = text_of(field(models.last(), "id"@));
    if id.len() == 0 || i < before.len() {
        law_plus_models_take_images(models.drop_last(), i);
    } else {
        lemma_plus_entry_input(models.last(), id);
    }
}


/// Setting a key twice leaves only the second value.
pub proof fn lemma_set_key_overwrite(m: Seq<(KeyModel, ValueModel)>, k: Seq<char>, v1: ValueModel, v2: ValueModel)
    ensures
        set_key(set_key(m, k, v1), k, v2) == set_key(m, k, v2),
{
    let m1 = set_key(m, k, v1);
    lemma_find_key_first(m, k);
    lemma_find_key_first(m1, k);
    match find_key(m, k) {
        Some(i) => {
            assert(m1 == m.update(i, (kt(k), v1)));
            if let Some(j) = find_key(m1, k) {
                if j < i {
                    assert(m1[j] == m[j]);
                } else if j > i {
                    assert(m1[i].0 == kt(k));
                }
                assert(m1.update(i, (kt(k), v2)) =~= m.update(i, (kt(k), v2)));
            } else {
                assert(m1[i].0 == kt(k));
            }
        },
        None => {
            assert(m1 == m.push((kt(k), v1)));
            let n = m.len() as int;
            if let Some(j) = find_key(m1, k) {
                if j < n {
                    assert(m1[j] == m[j]);
                }
                assert(m1.update(n, (kt(k), v2)) =~= m.push((kt(k), v2)));
            } else {
                assert(m1[n].0 == kt(k));
            }
        },
    }
}

/// The settings after the merges of one start: the vision provider `vision`
/// (its name and declaration), where one is configured, then `deepseek-plus`
/// from the parsed provider text `fragment`, with the default model following
/// the primary provider `primary`.
pub open spec fn settings_step(
    s: Seq<(KeyModel, ValueModel)>,
    vision: Option<(Seq<char>, ValueModel)>,
    fragment: Seq<(KeyModel, ValueModel)>,
    primary: Option<Seq<char>>,
) -> Seq<(KeyModel, ValueModel)> {
    let v = match vision {
        Some((name, p)) => with_provider(s, name, p),
        None => s,
    };
    plus_merged(v, fragment, primary)
}

proof fn lemma_deepseek_section_differs()
    ensures
        "llm-deepseek"@ != "llm-pi-ai"@,
        "llm-deepseek"@ != "agent-default-model"@,
{
    reveal_strlit("llm-deepseek");
    reveal_strlit("llm-pi-ai");
    reveal_strlit("agent-default-model");
    assert("llm-deepseek"@.len() != "llm-pi-ai"@.len());
    assert("llm-deepseek"@.len() != "agent-default-model"@.len());
}

/// The merges of a start leave what `deepseek-plus` is made from as it was, so
/// the next start renders the same provider text from the same plan.
pub proof fn law_plus_plan_stable(
    s: Seq<(KeyModel, ValueModel)>,
    vision: Option<(Seq<char>, ValueModel)>,
    fragment: Seq<(KeyModel, ValueModel)>,
    primary: Option<Seq<char>>,
)
    ensures
        plus_plan_of(settings_step(s, vision, fragment, primary)) == plus_plan_of(s),
{
    lemma_deepseek_section_differs();
    let v = match vision {
        Some((name, p)) => with_provider(s, name, p),
        None => s,
    };
    if let Some((name, p)) = vision {
        law_vision_merge(s, name, p, "llm-deepseek"@, name);
    }
    law_plus_merge_keeps_other_settings(v, fragment, primary, "llm-deepseek"@);
    assert(lookup(settings_step(s, vision, fragment, primary), "llm-deepseek"@) == lookup(s, "llm-deepseek"@));
}

/// Running the merges of a start a second time, with the same vision provider
/// and the same provider text, changes nothing: the settings written at one
/// start are read back unchanged at the next.
pub proof fn law_settings_step_idempotent(
    s: Seq<(KeyModel, ValueModel)>,
    vision: Option<(Seq<char>, ValueModel)>,
    fragment: Seq<(KeyModel, ValueModel)>,
    primary: Option<Seq<char>>,
)
    ensures
        settings_step(settings_step(s, vision, fragment, primary), vision, fragment, primary) == settings_step(
            s,
            vision,
            fragment,
            primary,
        ),
{
    match vision {
        None => law_plus_merge_idempotent(s, fragment, primary),
        Some((name, p)) => {
            let w = with_provider(s, name, p);
            law_vision_merge_idempotent(s, name, p);
            law_plus_merge_idempotent(w, fragment, primary);
            if let Some(q) = nested(fragment, "llm-pi-ai"@, "providers"@, "deepseek-plus"@) {
                lemma_vision_then_plus_settles(s, name, p, q, primary);
            }
        },
    }
}

proof fn lemma_vision_then_plus_settles(
    s: Seq<(KeyModel, ValueModel)>,
    name: Seq<char>,
    p: ValueModel,
    q: ValueModel,
    primary: Option<Seq<char>>,
)
    ensures
        ({
            let x = with_default_model(with_plus(with_provider(s, name, p), q), primary);
            with_default_model(with_plus(with_provider(x, name, p), q), primary) == x
        }),
{
    let llm = sub_mapping(lookup(s, "llm-pi-ai"@));
    let providers = sub_mapping(lookup(llm, "providers"@));
    let ps2 = set_key(providers, name, p);
    let llm2 = set_key(llm, "providers"@, ValueModel::Mapping(ps2));
    let w = set_key(s, "llm-pi-ai"@, ValueModel::Mapping(llm2));
    assert(w == with_provider(s, name, p));
    lemma_set_key_lookup(s, "llm-pi-ai"@, ValueModel::Mapping(llm2), "llm-pi-ai"@);
    lemma_set_key_lookup(llm, "providers"@, ValueModel::Mapping(ps2), "providers"@);
    lemma_set_key_lookup(providers, name, p, name);
    let ps3 = set_key(ps2, "deepseek-plus"@, q);
    let llm3 = set_key(llm2, "providers"@, ValueModel::Mapping(ps3));
    let a = set_key(w, "llm-pi-ai"@, ValueModel::Mapping(llm3));
    assert(a == with_plus(w, q));
    let x = with_default_model(a, primary);
    lemma_section_names_differ();
    lemma_default_model_keeps(a, primary, "llm-pi-ai"@);
    lemma_set_key_lookup(w, "llm-pi-ai"@, ValueModel::Mapping(llm3), "llm-pi-ai"@);
    lemma_set_key_lookup(llm2, "providers"@, ValueModel::Mapping(ps3), "providers"@);
    lemma_set_key_lookup(ps2, "deepseek-plus"@, q, name);
    lemma_set_key_lookup(ps2, "deepseek-plus"@, q, "deepseek-plus"@);
    assert(lookup(x, "llm-pi-ai"@) == Some(ValueModel::Mapping(llm3)));
    let ps4 = set_key(ps3, name, p);
    let llm4 = set_key(llm3, "providers"@, ValueModel::Mapping(ps4));
    let y = set_key(x, "llm-pi-ai"@, ValueModel::Mapping(llm4));
    assert(y == with_provider(x, name, p));
    lemma_default_model_settles(a, primary);
    if name != "deepseek-plus"@ {
        lemma_set_key_same(ps3, name, p);
        lemma_set_key_same(llm3, "providers"@, ValueModel::Mapping(ps3));
        lemma_set_key_same(x, "llm-pi-ai"@, ValueModel::Mapping(llm3));
        assert(y == x);
        lemma_plus_in_place_after(w, q);
        lemma_default_model_keeps(a, primary, "llm-pi-ai"@);
        assert(plus_in_place(x, q));
        lemma_plus_in_place_stays(x, q);
    } else {
        lemma_set_key_lookup(x, "llm-pi-ai"@, ValueModel::Mapping(llm4), "llm-pi-ai"@);
        lemma_set_key_lookup(llm3, "providers"@, ValueModel::Mapping(ps4), "providers"@);
        lemma_set_key_overwrite(ps3, "deepseek-plus"@, p, q);
        lemma_set_key_overwrite(ps2, "deepseek-plus"@, q, q);
        lemma_set_key_overwrite(llm3, "providers"@, ValueModel::Mapping(ps4), ValueModel::Mapping(ps3));
        lemma_set_key_overwrite(llm2, "providers"@, ValueModel::Mapping(ps3), ValueModel::Mapping(ps3));
        lemma_set_key_overwrite(x, "llm-pi-ai"@, ValueModel::Mapping(llm4), ValueModel::Mapping(llm3));
        lemma_set_key_same(x, "llm-pi-ai"@, ValueModel::Mapping(llm3));
        assert(with_plus(y, q) == x);
    }
}


/// The first position of a key in two sequences one after the other.
pub proof fn lemma_find_key_concat(a: Seq<(KeyModel, ValueModel)>, b: Seq<(KeyModel, ValueModel)>, k: Seq<char>)
    ensures
        find_key(a + b, k) == (match find_key(a, k) {
            Some(i) => Some(i),
            None => match find_key(b, k) {
                Some(j) => Some(a.len() + j),
                None => None,
            },
        }),
    decreases a.len(),
{
    if a.len() == 0 {
        assert(a + b =~= b);
    } else {
        assert((a + b)[0] == a[0]);
        if a[0].0 != kt(k) {
            assert((a + b).drop_first() =~= a.drop_first() + b);
            lemma_find_key_concat(a.drop_first(), b, k);
        }
    }
}

/// Looking up a key in two sequences one after the other: the first one's entry
/// where it has one, else the second one's.
pub proof fn lemma_lookup_concat(a: Seq<(KeyModel, ValueModel)>, b: Seq<(KeyModel, ValueModel)>, k: Seq<char>)
    ensures
        lookup(a + b, k) == (if find_key(a, k) is Some {
            lookup(a, k)
        } else {
            lookup(b, k)
        }),
{
    lemma_find_key_concat(a, b, k);
    lemma_find_key_first(a, k);
    lemma_find_key_first(b, k);
}

proof fn lemma_lookup_single(k: Seq<char>, v: ValueModel, q: Seq<char>)
    ensures
        lookup(seq![(kt(k), v)], q) == (if k == q {
            Some(v)
        } else {
            None
        }),
        find_key(seq![(kt(k), v)], q) is Some <==> k == q,
{
    let m = seq![(kt(k), v)];
    assert(m[0].0 == kt(k));
    assert(m.drop_first() =~= Seq::<(KeyModel, ValueModel)>::empty());
    assert(find_key(m.drop_first(), q) is None);
    if k != q {
        assert(kt(k) != kt(q));
        assert(find_key(m, q) is None);
    } else {
        assert(find_key(m, q) == Some(0int));
    }
}

proof fn lemma_lookup_empty(q: Seq<char>)
    ensures
        lookup(Seq::<(KeyModel, ValueModel)>::empty(), q) is None,
        find_key(Seq::<(KeyModel, ValueModel)>::empty(), q) is None,
{
}

/// What an entry of `deepseek-plus` keeps of the primary model `m` it is copied
/// from: the model's id, text and image input, and each capacity the model
/// states, unchanged; a capacity the model does not state gets the default
/// (1000000 for the context window, 256000 for the output).
#[verifier::opaque]
pub open spec fn copied_from(e: ValueModel, m: ValueModel) -> bool {
    let id = text_of(field(m, "id"@));
    &&& id.len() > 0
    &&& field(e, "id"@) == Some(ValueModel::Text(id))
    &&& field(e, "input"@) == Some(ValueModel::List(seq![ValueModel::Text("text"@), ValueModel::Text("image"@)]))
    &&& field(e, "contextWindow"@) == (match field(m, "contextWindow"@) {
        Some(v) => Some(v),
        None => Some(ValueModel::UInt(1_000_000)),
    })
    &&& field(e, "maxTokens"@) == (match field(m, "maxTokens"@) {
        Some(v) => Some(v),
        None => Some(ValueModel::UInt(256_000)),
    })
}

proof fn lemma_plus_entry_copies(m: ValueModel, id: Seq<char>)
    requires
        id == text_of(field(m, "id"@)),
        id.len() > 0,
    ensures
        copied_from(plus_entry(m, id), m),
{
    reveal(plus_entry);
    reveal_strlit("id");
    reveal_strlit("name");
    reveal_strlit("input");
    reveal_strlit("contextWindow");
    reveal_strlit("maxTokens");
    reveal_strlit("reasoningEfforts");
    let ks = seq!["id"@, "name"@, "input"@, "contextWindow"@, "maxTokens"@, "reasoningEfforts"@];
    assert(forall|a: int, b: int| 0 <= a < 6 && 0 <= b < 6 && a != b ==> #[trigger] ks[a] != #[trigger] ks[b]) by {
        assert(ks[0].len() == 2 && ks[1].len() == 4 && ks[2].len() == 5 && ks[3].len() == 13 && ks[4].len() == 9
            && ks[5].len() == 16);
        assert(ks[1][0] != ks[2][0]);
    }
    let name = match field(m, "name"@) {
        Some(ValueModel::Text(n)) => seq![(kt("name"@), ValueModel::Text(n))],
        _ => Seq::empty(),
    };
    let cw = field(m, "contextWindow"@);
    let mt = field(m, "maxTokens"@);
    let input = ValueModel::List(seq![ValueModel::Text("text"@), ValueModel::Text("image"@)]);
    let p0 = seq![(kt("id"@), ValueModel::Text(id))];
    let p2 = seq![(kt("input"@), input)];
    let p3 = match cw {
        Some(v) => seq![(kt("contextWindow"@), v)],
        None => Seq::empty(),
    };
    let p4 = match mt {
        Some(v) => seq![(kt("maxTokens"@), v)],
        None => Seq::empty(),
    };
    let p5 = if cw is None {
        seq![(kt("contextWindow"@), ValueModel::UInt(1_000_000))]
    } else {
        Seq::empty()
    };
    let p6 = if mt is None {
        seq![(kt("maxTokens"@), ValueModel::UInt(256_000))]
    } else {
        Seq::empty()
    };
    let efforts = ValueModel::Mapping(
        seq![
            (kt("off"@), ValueModel::Null),
            (kt("high"@), ValueModel::Text("high"@)),
            (kt("max"@), ValueModel::Text("max"@)),
        ],
    );
    let p7 = seq![(kt("reasoningEfforts"@), efforts)];
    let e = p0 + name + p2 + p3 + p4 + p5 + p6 + p7;
    assert(plus_entry(m, id) == ValueModel::Mapping(e));
    // Each piece, for each key asked.
    assert forall|q: Seq<char>| ks.contains(q) implies {
        &&& lookup(e, q) == (if q == "id"@ {
            lookup(p0, q)
        } else if q == "input"@ {
            lookup(p2, q)
        } else if q == "contextWindow"@ {
            if cw is Some { lookup(p3, q) } else { lookup(p5, q) }
        } else if q == "maxTokens"@ {
            if mt is Some { lookup(p4, q) } else { lookup(p6, q) }
        } else {
            lookup(e, q)
        })
    } by {
        let i = choose|i: int| 0 <= i < ks.len() && ks[i] == q;
        lemma_lookup_single("id"@, ValueModel::Text(id), q);
        lemma_lookup_single("input"@, input, q);
        lemma_lookup_single("reasoningEfforts"@, efforts, q);
        lemma_lookup_empty(q);
        match field(m, "name"@) {
            Some(ValueModel::Text(n)) => lemma_lookup_single("name"@, ValueModel::Text(n), q),
            _ => {},
        }
        if let Some(v) = cw {
            lemma_lookup_single("contextWindow"@, v, q);
        } else {
            lemma_lookup_single("contextWindow"@, ValueModel::UInt(1_000_000), q);
        }
        if let Some(v) = mt {
            lemma_lookup_single("maxTokens"@, v, q);
        } else {
            lemma_lookup_single("maxTokens"@, ValueModel::UInt(256_000), q);
        }
        lemma_lookup_concat(p0, name, q);
        lemma_lookup_concat(p0 + name, p2, q);
        lemma_lookup_concat(p0 + name + p2, p3, q);
        lemma_lookup_concat(p0 + name + p2 + p3, p4, q);
        lemma_lookup_concat(p0 + name + p2 + p3 + p4, p5, q);
        lemma_lookup_concat(p0 + name + p2 + p3 + p4 + p5, p6, q);
        lemma_lookup_concat(p0 + name + p2 + p3 + p4 + p5 + p6, p7, q);
        lemma_find_key_concat(p0, name, q);
        lemma_find_key_concat(p0 + name, p2, q);
        lemma_find_key_concat(p0 + name + p2, p3, q);
        lemma_find_key_concat(p0 + name + p2 + p3, p4, q);
        lemma_find_key_concat(p0 + name + p2 + p3 + p4, p5, q);
        lemma_find_key_concat(p0 + name + p2 + p3 + p4 + p5, p6, q);
    }
    assert(ks.contains("id"@)) by { assert(ks[0] == "id"@); }
    assert(ks.contains("input"@)) by { assert(ks[2] == "input"@); }
    assert(ks.contains("contextWindow"@)) by { assert(ks[3] == "contextWindow"@); }
    assert(ks.contains("maxTokens"@)) by { assert(ks[4] == "maxTokens"@); }
    lemma_lookup_single("id"@, ValueModel::Text(id), "id"@);
    lemma_lookup_single("input"@, input, "input"@);
    if let Some(v) = cw {
        lemma_lookup_single("contextWindow"@, v, "contextWindow"@);
    } else {
        lemma_lookup_single("contextWindow"@, ValueModel::UInt(1_000_000), "contextWindow"@);
    }
    if let Some(v) = mt {
        lemma_lookup_single("maxTokens"@, v, "maxTokens"@);
    } else {
        lemma_lookup_single("maxTokens"@, ValueModel::UInt(256_000), "maxTokens"@);
    }
    reveal(copied_from);
}


/// The position, among the primary models, of the model that the `i`-th
/// model of `deepseek-plus` is copied from.
pub open spec fn entry_source(models: Seq<ValueModel>, i: int) -> int
    decreases models.len(),
{
    if models.len() == 0 {
        0
    } else if i < plus_entries(models.drop_last()).len() {
        entry_source(models.drop_last(), i)
    } else {
        models.len() - 1
    }
}

/// The position, among the models of `deepseek-plus`, of the copy of the `j`-th
/// primary model: the number of models with an id before it.
pub open spec fn entry_index(models: Seq<ValueModel>, j: int) -> int {
    plus_entries(models.take(j)).len() as int
}

/// Law: every model of `deepseek-plus` is copied from a model of the primary
/// provider, and every primary model with a non-empty id gives one. The copy
/// keeps the model's id, declares text and image input, and keeps each capacity
/// (`contextWindow`, `maxTokens`) the model states unchanged; the defaults only
/// fill a capacity the model does not state.
#[verifier::rlimit(60)]
pub proof fn law_plus_models_keep_capacities(models: Seq<ValueModel>)
    ensures
        forall|i: int|
            #![trigger plus_entries(models)[i]]
            #![trigger entry_source(models, i)]
            0 <= i < plus_entries(models).len() ==> 0 <= entry_source(models, i) < models.len()
                && copied_from(plus_entries(models)[i], models[entry_source(models, i)]),
        forall|j: int|
            #![trigger models[j]]
            #![trigger entry_index(models, j)]
            0 <= j < models.len() && text_of(field(models[j], "id"@)).len() > 0 ==> 0 <= entry_index(models, j)
                < plus_entries(models).len() && copied_from(plus_entries(models)[entry_index(models, j)], models[j]),
    decreases models.len(),
{
    if models.len() > 0 {
        let d = models.drop_last();
        law_plus_models_keep_capacities(d);
        let before = plus_entries(d);
        let last = models.last();
        let id = text_of(field(last, "id"@));
        let n = models.len() - 1;
        assert(last == models[n]);
        if id.len() > 0 {
            lemma_plus_entry_copies(last, id);
        }
        let es = plus_entries(models);
        assert(es == (if id.len() == 0 {
            before
        } else {
            before.push(plus_entry(last, id))
        }));
        assert forall|i: int|
            #![trigger plus_entries(models)[i]]
            #![trigger entry_source(models, i)]
            0 <= i < plus_entries(models).len() implies 0 <= entry_source(models, i) < models.len()
            && copied_from(plus_entries(models)[i], models[entry_source(models, i)]) by {
            if i < before.len() {
                assert(es[i] == before[i]);
                assert(before[i] == plus_entries(d)[i]);
                assert(entry_source(models, i) == entry_source(d, i));
                assert(0 <= entry_source(d, i) < d.len());
                assert(models[entry_source(d, i)] == d[entry_source(d, i)]);
            } else {
                assert(entry_source(models, i) == n);
            }
        }
        assert forall|j: int|
            #![trigger models[j]]
            #![trigger entry_index(models, j)]
            0 <= j < models.len() && text_of(field(models[j], "id"@)).len() > 0 implies 0
            <= entry_index(models, j) < plus_entries(models).len() && copied_from(
            plus_entries(models)[entry_index(models, j)],
            models[j],
        ) by {
            if j < n {
                assert(models[j] == d[j]);
                assert(text_of(field(d[j], "id"@)).len() > 0);
                assert(models.take(j) =~= d.take(j));
                let k = entry_index(d, j);
                assert(es[k] == before[k]);
            } else {
                assert(models.take(j) =~= d);
            }
        }
    } else {
        assert(plus_entries(models).len() == 0);
    }
}

} // verus!
