//! Merging a legacy workspace registry into the current one.
//!
//! A registry is a list of workspace records, each an id and the path it
//! stands for.  Records of the legacy registry are taken over, in order,
//! when neither their id nor their path is already known.
use vstd::prelude::*;
use crate::settings::{
    copy_key, copy_value, entries_model, field, field_value, key_model, lemma_entries_push, lemma_list_model,
    lemma_mapping_model, lemma_values_push, list, lookup, mapping, mapping_at, model, set_key, set_text_key,
    sub_mapping, value_at, values_model, KeyModel, SettingsKey, SettingsValue, ValueModel,
};

verus! {

/// One workspace record: its id and, where the record has one, its path.
#[derive(Clone, Debug, PartialEq, Eq)]
pub struct WorkspaceEntry {
    pub id: String,
    pub path: Option<String>,
}

/// The mathematical form of a record.
pub type WorkspaceView = (Seq<char>, Option<Seq<char>>);

impl View for WorkspaceEntry {
    type V = WorkspaceView;

    open spec fn view(&self) -> WorkspaceView {
        (self.id@, match self.path {
            Some(p) => Some(p@),
            None => None,
        })
    }
}

/// The records of a list, as values.
pub open spec fn entry_views(v: Seq<WorkspaceEntry>) -> Seq<WorkspaceView> {
    v.map_values(|e: WorkspaceEntry| e@)
}

/// Some record of `reg` has this id.
pub open spec fn has_id(reg: Seq<WorkspaceView>, id: Seq<char>) -> bool {
    exists|j: int| 0 <= j < reg.len() && (#[trigger] reg[j]).0 == id
}

/// Some record of `reg` has this path.
pub open spec fn has_path(reg: Seq<WorkspaceView>, path: Seq<char>) -> bool {
    exists|j: int| 0 <= j < reg.len() && (#[trigger] reg[j]).1 == Some(path)
}

/// `rec` may join `reg`: its id is new, it has a path, and that path is new.
pub open spec fn admits(reg: Seq<WorkspaceView>, rec: WorkspaceView) -> bool {
    &&& !has_id(reg, rec.0)
    &&& rec.1 is Some
    &&& !has_path(reg, rec.1->0)
}

/// The registry after taking over the records of `legacy`, one after the other.
pub open spec fn merged_registry(legacy: Seq<WorkspaceView>, target: Seq<WorkspaceView>) -> Seq<
    WorkspaceView,
>
    decreases legacy.len(),
{
    if legacy.len() == 0 {
        target
    } else {
        let before = merged_registry(legacy.drop_last(), target);
        if admits(before, legacy.last()) {
            before.push(legacy.last())
        } else {
            before
        }
    }
}

/// The id list after appending `ids`, skipping those already listed; entries that
/// are not strings are `None`.
pub open spec fn appended_ids(existing: Seq<Option<Seq<char>>>, ids: Seq<Seq<char>>) -> Seq<
    Option<Seq<char>>,
>
    decreases ids.len(),
{
    if ids.len() == 0 {
        existing
    } else {
        let before = appended_ids(existing, ids.drop_last());
        if before.contains(Some(ids.last())) {
            before
        } else {
            before.push(Some(ids.last()))
        }
    }
}

/// A string that may be missing, as a value.
pub open spec fn opt_view(o: Option<String>) -> Option<Seq<char>> {
    match o {
        Some(s) => Some(s@),
        None => None,
    }
}

/// An id list (entries that are not strings are `None`), as values.
pub open spec fn id_list(v: Seq<Option<String>>) -> Seq<Option<Seq<char>>> {
    v.map_values(|o: Option<String>| opt_view(o))
}

proof fn lemma_entry_views_push(v: Seq<WorkspaceEntry>, e: WorkspaceEntry)
    ensures
        entry_views(v.push(e)) == entry_views(v).push(e@),
{
    assert(entry_views(v.push(e)) =~= entry_views(v).push(e@));
}

proof fn lemma_id_list_push(v: Seq<Option<String>>, e: Option<String>)
    ensures
        id_list(v.push(e)) == id_list(v).push(opt_view(e)),
{
    assert(id_list(v.push(e)) =~= id_list(v).push(opt_view(e)));
}

proof fn lemma_some_views_push(v: Seq<String>, e: String)
    ensures
        v.push(e).map_values(|s: String| Some(s@)) == v.map_values(|s: String| Some(s@)).push(
            Some(e@),
        ),
{
    assert(v.push(e).map_values(|s: String| Some(s@)) =~= v.map_values(|s: String| Some(s@)).push(
        Some(e@),
    ));
}

fn copy_entry(e: &WorkspaceEntry) -> (r: WorkspaceEntry)
    ensures
        r@ == e@,
{
    WorkspaceEntry {
        id: e.id.clone(),
        path: match &e.path {
            Some(p) => Some(p.clone()),
            None => None,
        },
    }
}

fn find_id(reg: &Vec<WorkspaceEntry>, id: &String) -> (r: bool)
    ensures
        r == has_id(entry_views(reg@), id@),
{
    let mut j: usize = 0;
    while j < reg.len()
        invariant
            j <= reg@.len(),
            forall|k: int| 0 <= k < j ==> (#[trigger] reg@[k])@.0 != id@,
        decreases reg.len() - j,
    {
        if reg[j].id == *id {
            assert(entry_views(reg@)[j as int].0 == id@);
            return true;
        }
        j = j + 1;
    }
    assert forall|k: int| 0 <= k < reg@.len() implies (#[trigger] entry_views(reg@)[k]).0 != id@ by {
        assert(reg@[k]@.0 != id@);
    }
    false
}

fn find_path(reg: &Vec<WorkspaceEntry>, path: &String) -> (r: bool)
    ensures
        r == has_path(entry_views(reg@), path@),
{
    let mut j: usize = 0;
    while j < reg.len()
        invariant
            j <= reg@.len(),
            forall|k: int| 0 <= k < j ==> (#[trigger] reg@[k])@.1 != Some(path@),
        decreases reg.len() - j,
    {
        let same = match &reg[j].path {
            Some(p) => *p == *path,
            None => false,
        };
        if same {
            assert(entry_views(reg@)[j as int].1 == Some(path@));
            return true;
        }
        j = j + 1;
    }
    assert forall|k: int| 0 <= k < reg@.len() implies (#[trigger] entry_views(reg@)[k]).1 != Some(
        path@,
    ) by {
        assert(reg@[k]@.1 != Some(path@));
    }
    false
}

/// The legacy records that join the target registry, in the order taken over.
pub fn merge_workspaces(
    legacy: &Vec<WorkspaceEntry>,
    target: &Vec<WorkspaceEntry>,
) -> (inserted: Vec<WorkspaceEntry>)
    ensures
        entry_views(target@) + entry_views(inserted@) == merged_registry(
            entry_views(legacy@),
            entry_views(target@),
        ),
{
    let mut current: Vec<WorkspaceEntry> = Vec::new();
    let mut t: usize = 0;
    while t < target.len()
        invariant
            t <= target@.len(),
            entry_views(current@) == entry_views(target@).take(t as int),
        decreases target.len() - t,
    {
        let c = copy_entry(&target[t]);
        proof {
            lemma_entry_views_push(current@, c);
        }
        current.push(c);
        assert(entry_views(current@) =~= entry_views(target@).take(t + 1));
        t = t + 1;
    }
    assert(entry_views(target@).take(t as int) =~= entry_views(target@));
    let mut inserted: Vec<WorkspaceEntry> = Vec::new();
    let mut i: usize = 0;
    assert(entry_views(legacy@).take(0) =~= Seq::<WorkspaceView>::empty());
    assert(entry_views(inserted@) =~= Seq::<WorkspaceView>::empty());
    while i < legacy.len()
        invariant
            i <= legacy@.len(),
            entry_views(current@) == entry_views(target@) + entry_views(inserted@),
            entry_views(current@) == merged_registry(
                entry_views(legacy@).take(i as int),
                entry_views(target@),
            ),
        decreases legacy.len() - i,
    {
        let ghost lv = entry_views(legacy@);
        assert(lv.take(i + 1).drop_last() =~= lv.take(i as int));
        assert(lv.take(i + 1).last() == legacy@[i as int]@);
        let rec = &legacy[i];
        let known_id = find_id(&current, &rec.id);
        let admitted = if known_id {
            false
        } else {
            match &rec.path {
                Some(p) => !find_path(&current, p),
                None => false,
            }
        };
        if admitted {
            let c1 = copy_entry(rec);
            let c2 = copy_entry(rec);
            proof {
                lemma_entry_views_push(current@, c1);
                lemma_entry_views_push(inserted@, c2);
            }
            current.push(c1);
            inserted.push(c2);
            assert(entry_views(current@) =~= entry_views(target@) + entry_views(inserted@));
        } else {
            assert(!admits(merged_registry(lv.take(i as int), entry_views(target@)), rec@));
        }
        i = i + 1;
    }
    assert(entry_views(legacy@).take(i as int) =~= entry_views(legacy@));
    inserted
}

fn contains_id(ids: &Vec<Option<String>>, id: &String) -> (r: bool)
    ensures
        r == id_list(ids@).contains(Some(id@)),
{
    let ghost v = id_list(ids@);
    let mut j: usize = 0;
    while j < ids.len()
        invariant
            j <= ids@.len(),
            v == id_list(ids@),
            forall|k: int| 0 <= k < j ==> v[k] != Some(id@),
        decreases ids.len() - j,
    {
        let same = match &ids[j] {
            Some(s) => *s == *id,
            None => false,
        };
        if same {
            assert(v[j as int] == Some(id@));
            return true;
        }
        j = j + 1;
    }
    false
}

/// The ids to append to the registry's ordered id list: those of `inserted`, in
/// order, that the list does not hold yet.
pub fn workspace_ids_to_append(
    existing: &Vec<Option<String>>,
    inserted: &Vec<WorkspaceEntry>,
) -> (appended: Vec<String>)
    ensures
        id_list(existing@) + appended@.map_values(
            |s: String| Some(s@),
        ) == appended_ids(
            id_list(existing@),
            entry_views(inserted@).map_values(|e: WorkspaceView| e.0),
        ),
{
    let ghost ex = id_list(existing@);
    let ghost ids = entry_views(inserted@).map_values(|e: WorkspaceView| e.0);
    let mut list: Vec<Option<String>> = Vec::new();
    let mut e: usize = 0;
    while e < existing.len()
        invariant
            e <= existing@.len(),
            id_list(list@) == ex.take(e as int),
            ex == id_list(existing@),
        decreases existing.len() - e,
    {
        let item = match &existing[e] {
            Some(s) => Some(s.clone()),
            None => None,
        };
        proof {
            lemma_id_list_push(list@, item);
        }
        list.push(item);
        assert(id_list(list@) =~= ex.take(e + 1));
        e = e + 1;
    }
    assert(ex.take(e as int) =~= ex);
    let mut appended: Vec<String> = Vec::new();
    let mut i: usize = 0;
    assert(ids.take(0) =~= Seq::<Seq<char>>::empty());
    assert(appended@.map_values(|s: String| Some(s@)) =~= Seq::<Option<Seq<char>>>::empty());
    assert(ex + appended@.map_values(|s: String| Some(s@)) =~= ex);
    while i < inserted.len()
        invariant
            i <= inserted@.len(),
            ids == entry_views(inserted@).map_values(|e: WorkspaceView| e.0),
            ex == id_list(existing@),
            id_list(list@) == ex
                + appended@.map_values(|s: String| Some(s@)),
            id_list(list@) == appended_ids(
                ex,
                ids.take(i as int),
            ),
        decreases inserted.len() - i,
    {
        assert(ids.take(i + 1).drop_last() =~= ids.take(i as int));
        assert(ids.take(i + 1).last() == inserted@[i as int].id@);
        let id = &inserted[i].id;
        if !contains_id(&list, id) {
            let a = Some(id.clone());
            let b = id.clone();
            proof {
                lemma_id_list_push(list@, a);
                lemma_some_views_push(appended@, b);
            }
            list.push(a);
            appended.push(b);
            assert(id_list(list@) =~= ex
                + appended@.map_values(|s: String| Some(s@)));
        }
        i = i + 1;
    }
    assert(ids.take(i as int) =~= ids);
    appended
}

/// The registry before merging stands unchanged at the front of the merged one.
pub proof fn lemma_merged_extends(legacy: Seq<WorkspaceView>, target: Seq<WorkspaceView>)
    ensures
        merged_registry(legacy, target).len() >= target.len(),
        merged_registry(legacy, target).take(target.len() as int) == target,
    decreases legacy.len(),
{
    if legacy.len() > 0 {
        lemma_merged_extends(legacy.drop_last(), target);
        let before = merged_registry(legacy.drop_last(), target);
        assert(before.push(legacy.last()).take(target.len() as int) =~= before.take(
            target.len() as int,
        ));
    }
}

/// Merging a shorter prefix of the legacy list gives a prefix of the result.
proof fn lemma_merged_prefix(legacy: Seq<WorkspaceView>, target: Seq<WorkspaceView>, a: int)
    requires
        0 <= a <= legacy.len(),
    ensures
        merged_registry(legacy.take(a), target).len() <= merged_registry(legacy, target).len(),
        merged_registry(legacy, target).take(merged_registry(legacy.take(a), target).len() as int)
            == merged_registry(legacy.take(a), target),
    decreases legacy.len() - a,
{
    if a == legacy.len() {
        assert(legacy.take(a) =~= legacy);
        let m = merged_registry(legacy, target);
        assert(m.take(m.len() as int) =~= m);
    } else {
        lemma_merged_prefix(legacy, target, a + 1);
        let small = merged_registry(legacy.take(a), target);
        assert(legacy.take(a + 1).drop_last() =~= legacy.take(a));
        let mid = merged_registry(legacy.take(a + 1), target);
        let big = merged_registry(legacy, target);
        assert(mid.take(small.len() as int) =~= small);
        assert(big.take(small.len() as int) =~= mid.take(small.len() as int));
    }
}

/// Facts about ids and paths carry over from a prefix to the whole list.
proof fn lemma_prefix_keeps(small: Seq<WorkspaceView>, big: Seq<WorkspaceView>, rec: WorkspaceView)
    requires
        small.len() <= big.len(),
        big.take(small.len() as int) == small,
    ensures
        has_id(small, rec.0) ==> has_id(big, rec.0),
        rec.1 is Some && has_path(small, rec.1->0) ==> has_path(big, rec.1->0),
{
    if has_id(small, rec.0) {
        let j = choose|j: int| 0 <= j < small.len() && (#[trigger] small[j]).0 == rec.0;
        assert(big[j] == small[j]);
    }
    if rec.1 is Some && has_path(small, rec.1->0) {
        let j = choose|j: int| 0 <= j < small.len() && (#[trigger] small[j]).1 == rec.1;
        assert(big[j] == small[j]);
    }
}

/// No record of the legacy list can still join the merged registry.
proof fn lemma_none_admitted(legacy: Seq<WorkspaceView>, target: Seq<WorkspaceView>, k: int)
    requires
        0 <= k < legacy.len(),
    ensures
        !admits(merged_registry(legacy, target), legacy[k]),
{
    let rec = legacy[k];
    let before = merged_registry(legacy.take(k), target);
    let after = merged_registry(legacy.take(k + 1), target);
    assert(legacy.take(k + 1).drop_last() =~= legacy.take(k));
    assert(legacy.take(k + 1).last() == rec);
    lemma_merged_prefix(legacy, target, k + 1);
    let m = merged_registry(legacy, target);
    if admits(before, rec) {
        assert(after == before.push(rec));
        assert(after[before.len() as int] == rec);
        assert(has_id(after, rec.0));
    } else {
        lemma_merged_prefix(legacy.take(k + 1), target, k);
        assert(legacy.take(k + 1).take(k) =~= legacy.take(k));
        lemma_prefix_keeps(before, after, rec);
    }
    lemma_prefix_keeps(after, m, rec);
}

/// Law: merging the same legacy registry a second time changes nothing.
pub proof fn law_merge_idempotent(legacy: Seq<WorkspaceView>, target: Seq<WorkspaceView>)
    ensures
        merged_registry(legacy, merged_registry(legacy, target)) == merged_registry(legacy, target),
{
    let m = merged_registry(legacy, target);
    assert forall|n: int| 0 <= n <= legacy.len() implies merged_registry(legacy.take(n), m)
        == m by {
        lemma_second_pass(legacy, target, n);
    }
    assert(legacy.take(legacy.len() as int) =~= legacy);
}

proof fn lemma_second_pass(legacy: Seq<WorkspaceView>, target: Seq<WorkspaceView>, n: int)
    requires
        0 <= n <= legacy.len(),
    ensures
        merged_registry(legacy.take(n), merged_registry(legacy, target)) == merged_registry(
            legacy,
            target,
        ),
    decreases n,
{
    let m = merged_registry(legacy, target);
    if n > 0 {
        lemma_second_pass(legacy, target, n - 1);
        assert(legacy.take(n).drop_last() =~= legacy.take(n - 1));
        assert(legacy.take(n).last() == legacy[n - 1]);
        lemma_none_admitted(legacy, target, n - 1);
    } else {
        assert(legacy.take(0).len() == 0);
    }
}

/// Law: every legacy record that has a path is represented in the merged
/// registry, by its id or by its path.
pub proof fn law_merge_covers_legacy(legacy: Seq<WorkspaceView>, target: Seq<WorkspaceView>, k: int)
    requires
        0 <= k < legacy.len(),
        legacy[k].1 is Some,
    ensures
        has_id(merged_registry(legacy, target), legacy[k].0) || has_path(
            merged_registry(legacy, target),
            legacy[k].1->0,
        ),
{
    lemma_none_admitted(legacy, target, k);
}

/// Law: a record taken over never repeats the path of a record before it, so the
/// merge adds no duplicate path.
pub proof fn law_merge_adds_no_duplicate_path(
    legacy: Seq<WorkspaceView>,
    target: Seq<WorkspaceView>,
    i: int,
    j: int,
)
    requires
        0 <= i < j < merged_registry(legacy, target).len(),
        j >= target.len(),
    ensures
        merged_registry(legacy, target)[j].1 is Some,
        merged_registry(legacy, target)[i].1 != merged_registry(legacy, target)[j].1,
    decreases legacy.len(),
{
    if legacy.len() == 0 {
    } else {
        let before = merged_registry(legacy.drop_last(), target);
        if admits(before, legacy.last()) && j == before.len() {
            let p = legacy.last().1->0;
            if before[i].1 == Some(p) {
                assert(has_path(before, p));
            }
        } else {
            law_merge_adds_no_duplicate_path(legacy.drop_last(), target, i, j);
        }
    }
}


proof fn lemma_appended_contains(existing: Seq<Option<Seq<char>>>, ids: Seq<Seq<char>>, k: int)
    requires
        0 <= k < ids.len(),
    ensures
        appended_ids(existing, ids).contains(Some(ids[k])),
    decreases ids.len(),
{
    let before = appended_ids(existing, ids.drop_last());
    if k == ids.len() - 1 {
        if !before.contains(Some(ids.last())) {
            assert(before.push(Some(ids.last()))[before.len() as int] == Some(ids[k]));
        }
    } else {
        lemma_appended_contains(existing, ids.drop_last(), k);
        assert(ids.drop_last()[k] == ids[k]);
        if !before.contains(Some(ids.last())) {
            let w = choose|w: int| 0 <= w < before.len() && before[w] == Some(ids[k]);
            assert(before.push(Some(ids.last()))[w] == Some(ids[k]));
        }
    }
}

proof fn lemma_appended_second_pass(existing: Seq<Option<Seq<char>>>, ids: Seq<Seq<char>>, n: int)
    requires
        0 <= n <= ids.len(),
    ensures
        appended_ids(appended_ids(existing, ids), ids.take(n)) == appended_ids(existing, ids),
    decreases n,
{
    if n > 0 {
        lemma_appended_second_pass(existing, ids, n - 1);
        assert(ids.take(n).drop_last() =~= ids.take(n - 1));
        assert(ids.take(n).last() == ids[n - 1]);
        lemma_appended_contains(existing, ids, n - 1);
    }
}

/// Law: appending the same ids to the ordered id list a second time changes
/// nothing.
pub proof fn law_append_ids_idempotent(existing: Seq<Option<Seq<char>>>, ids: Seq<Seq<char>>)
    ensures
        appended_ids(appended_ids(existing, ids), ids) == appended_ids(existing, ids),
{
    lemma_appended_second_pass(existing, ids, ids.len() as int);
    assert(ids.take(ids.len() as int) =~= ids);
}

/// Law: every id handed in ends up in the ordered id list.
pub proof fn law_append_ids_covers(existing: Seq<Option<Seq<char>>>, ids: Seq<Seq<char>>, k: int)
    requires
        0 <= k < ids.len(),
    ensures
        appended_ids(existing, ids).contains(Some(ids[k])),
{
    lemma_appended_contains(existing, ids, k);
}


/// The id a registry key stands for (the keys of a JSON object are text).
pub open spec fn key_id(k: KeyModel) -> Seq<char> {
    match k {
        KeyModel::Text(s) => s,
        KeyModel::Other(_) => Seq::empty(),
    }
}

/// The record of a registry entry: its id and its `path`, where that is text.
pub open spec fn record_view(e: (KeyModel, ValueModel)) -> WorkspaceView {
    (key_id(e.0), match field(e.1, "path"@) {
        Some(ValueModel::Text(p)) => Some(p),
        _ => None,
    })
}

pub open spec fn record_views(es: Seq<(KeyModel, ValueModel)>) -> Seq<WorkspaceView> {
    es.map_values(|e: (KeyModel, ValueModel)| record_view(e))
}

/// The entries of the legacy table `legacy` taken over, in order, into a table
/// whose records are `target`.
pub open spec fn taken_over(legacy: Seq<(KeyModel, ValueModel)>, target: Seq<WorkspaceView>) -> Seq<
    (KeyModel, ValueModel),
>
    decreases legacy.len(),
{
    if legacy.len() == 0 {
        Seq::empty()
    } else {
        let before = taken_over(legacy.drop_last(), target);
        if admits(target + record_views(before), record_view(legacy.last())) {
            before.push(legacy.last())
        } else {
            before
        }
    }
}

/// The records after taking over are those `merged_registry` gives.
pub proof fn lemma_taken_over_merged(legacy: Seq<(KeyModel, ValueModel)>, target: Seq<WorkspaceView>)
    ensures
        target + record_views(taken_over(legacy, target)) == merged_registry(record_views(legacy), target),
    decreases legacy.len(),
{
    if legacy.len() > 0 {
        lemma_taken_over_merged(legacy.drop_last(), target);
        assert(record_views(legacy).drop_last() =~= record_views(legacy.drop_last()));
        let before = taken_over(legacy.drop_last(), target);
        assert(record_views(before.push(legacy.last())) =~= record_views(before).push(record_view(legacy.last())));
        assert((target + record_views(before)).push(record_view(legacy.last())) =~= target + record_views(
            before,
        ).push(record_view(legacy.last())));
    } else {
        assert(target + record_views(Seq::<(KeyModel, ValueModel)>::empty()) =~= target);
    }
}

/// The workspace table of a registry document: `tables.workspaces`, where both
/// are objects.
pub open spec fn workspaces_of(doc: Seq<(KeyModel, ValueModel)>) -> Option<Seq<(KeyModel, ValueModel)>> {
    match lookup(doc, "tables"@) {
        Some(ValueModel::Mapping(t)) => match lookup(t, "workspaces"@) {
            Some(ValueModel::Mapping(w)) => Some(w),
            _ => None,
        },
        _ => None,
    }
}

/// The id list after appending `ids` as text, skipping those already there.
pub open spec fn with_ids(items: Seq<ValueModel>, ids: Seq<Seq<char>>) -> Seq<ValueModel>
    decreases ids.len(),
{
    if ids.len() == 0 {
        items
    } else {
        let before = with_ids(items, ids.drop_last());
        if before.contains(ValueModel::Text(ids.last())) {
            before
        } else {
            before.push(ValueModel::Text(ids.last()))
        }
    }
}

/// The ids of taken-over entries.
pub open spec fn entry_ids(es: Seq<(KeyModel, ValueModel)>) -> Seq<Seq<char>> {
    es.map_values(|e: (KeyModel, ValueModel)| key_id(e.0))
}

/// The target registry document after the legacy one is merged into it: the
/// legacy workspace entries that are taken over join the target's table, and
/// their ids join `global.workspaceIds` where that is a list. None where either
/// document has no workspace table, or nothing is taken over.
pub open spec fn registry_merged(legacy: Seq<(KeyModel, ValueModel)>, target: Seq<(KeyModel, ValueModel)>) -> Option<
    Seq<(KeyModel, ValueModel)>,
> {
    match (workspaces_of(legacy), workspaces_of(target)) {
        (Some(lw), Some(tw)) => {
            let ins = taken_over(lw, record_views(tw));
            if ins.len() == 0 {
                None
            } else {
                let tables = sub_mapping(lookup(target, "tables"@));
                let t1 = set_key(
                    target,
                    "tables"@,
                    ValueModel::Mapping(set_key(tables, "workspaces"@, ValueModel::Mapping(tw + ins))),
                );
                Some(
                    match lookup(t1, "global"@) {
                        Some(ValueModel::Mapping(g)) => match lookup(g, "workspaceIds"@) {
                            Some(ValueModel::List(items)) => set_key(
                                t1,
                                "global"@,
                                ValueModel::Mapping(
                                    set_key(g, "workspaceIds"@, ValueModel::List(with_ids(items, entry_ids(ins)))),
                                ),
                            ),
                            _ => t1,
                        },
                        _ => t1,
                    },
                )
            }
        },
        _ => None,
    }
}

fn record_of(e: &(SettingsKey, SettingsValue)) -> (r: WorkspaceEntry)
    ensures
        r@ == record_view((key_model(e.0), model(e.1))),
{
    let id = match &e.0 {
        SettingsKey::Text(s) => s.clone(),
        SettingsKey::Other(_) => String::new(),
    };
    let path = match field_value(&e.1, "path") {
        Some(SettingsValue::Text(p)) => Some(p),
        _ => None,
    };
    WorkspaceEntry { id, path }
}

fn workspace_table(doc: &Vec<(SettingsKey, SettingsValue)>) -> (r: Option<Vec<(SettingsKey, SettingsValue)>>)
    ensures
        match r {
            Some(v) => workspaces_of(entries_model(doc@)) == Some(entries_model(v@)),
            None => workspaces_of(entries_model(doc@)) is None,
        },
{
    match value_at(doc, "tables") {
        Some(SettingsValue::Mapping(t)) => {
            proof {
                lemma_mapping_model(t);
            }
            match value_at(&t, "workspaces") {
                Some(SettingsValue::Mapping(w)) => {
                    proof {
                        lemma_mapping_model(w);
                    }
                    Some(w)
                },
                _ => None,
            }
        },
        _ => None,
    }
}

fn list_has_text(items: &Vec<SettingsValue>, id: &String) -> (r: bool)
    ensures
        r == values_model(items@).contains(ValueModel::Text(id@)),
{
    let ghost v = values_model(items@);
    let mut j: usize = 0;
    while j < items.len()
        invariant
            j <= items@.len(),
            v == values_model(items@),
            forall|k: int| 0 <= k < j ==> v[k] != ValueModel::Text(id@),
        decreases items.len() - j,
    {
        let same = match &items[j] {
            SettingsValue::Text(s) => *s == *id,
            _ => false,
        };
        assert(v[j as int] == model(items@[j as int]));
        if same {
            return true;
        }
        j = j + 1;
    }
    false
}

fn append_ids(items: &mut Vec<SettingsValue>, ins: &Vec<(SettingsKey, SettingsValue)>)
    ensures
        values_model(final(items)@) == with_ids(values_model(old(items)@), entry_ids(entries_model(ins@))),
{
    let ghost start = values_model(items@);
    let ghost ids = entry_ids(entries_model(ins@));
    let mut i: usize = 0;
    assert(ids.take(0) =~= Seq::<Seq<char>>::empty());
    while i < ins.len()
        invariant
            i <= ins@.len(),
            ids == entry_ids(entries_model(ins@)),
            values_model(items@) == with_ids(start, ids.take(i as int)),
        decreases ins.len() - i,
    {
        assert(ids.take(i + 1).drop_last() =~= ids.take(i as int));
        let id = match &ins[i].0 {
            SettingsKey::Text(s) => s.clone(),
            SettingsKey::Other(_) => String::new(),
        };
        assert(ids.take(i + 1).last() == id@);
        if !list_has_text(items, &id) {
            let t = SettingsValue::Text(id);
            proof {
                lemma_values_push(items@, t);
            }
            items.push(t);
        }
        i = i + 1;
    }
    assert(ids.take(i as int) =~= ids);
}

/// Merges the legacy registry document into the target one: the result is the
/// target as `registry_merged` gives it, or none where it gives none (a document
/// without a workspace table, or no record to take over), and then the target
/// stays as it is.
pub fn merge_registry(
    legacy: &Vec<(SettingsKey, SettingsValue)>,
    target: Vec<(SettingsKey, SettingsValue)>,
) -> (r: Option<Vec<(SettingsKey, SettingsValue)>>)
    ensures
        match registry_merged(entries_model(legacy@), entries_model(target@)) {
            None => r is None,
            Some(m) => r matches Some(v) && entries_model(v@) == m,
        },
{
    let lw = match workspace_table(legacy) {
        Some(w) => w,
        None => return None,
    };
    let tw = match workspace_table(&target) {
        Some(w) => w,
        None => return None,
    };
    let ghost lwm = entries_model(lw@);
    let ghost twm = entries_model(tw@);
    let mut current: Vec<WorkspaceEntry> = Vec::new();
    let mut t: usize = 0;
    while t < tw.len()
        invariant
            t <= tw@.len(),
            twm == entries_model(tw@),
            entry_views(current@) == record_views(twm).take(t as int),
        decreases tw.len() - t,
    {
        let c = record_of(&tw[t]);
        proof {
            lemma_entry_views_push(current@, c);
        }
        current.push(c);
        assert(entry_views(current@) =~= record_views(twm).take(t + 1));
        t = t + 1;
    }
    assert(record_views(twm).take(t as int) =~= record_views(twm));
    let mut ins: Vec<(SettingsKey, SettingsValue)> = Vec::new();
    let mut i: usize = 0;
    assert(lwm.take(0) =~= Seq::<(KeyModel, ValueModel)>::empty());
    assert(entries_model(ins@) =~= Seq::<(KeyModel, ValueModel)>::empty());
    assert(record_views(Seq::<(KeyModel, ValueModel)>::empty()) =~= Seq::<WorkspaceView>::empty());
    assert(record_views(twm) + Seq::<WorkspaceView>::empty() =~= record_views(twm));
    while i < lw.len()
        invariant
            i <= lw@.len(),
            lwm == entries_model(lw@),
            twm == entries_model(tw@),
            entries_model(ins@) == taken_over(lwm.take(i as int), record_views(twm)),
            entry_views(current@) == record_views(twm) + record_views(entries_model(ins@)),
        decreases lw.len() - i,
    {
        assert(lwm.take(i + 1).drop_last() =~= lwm.take(i as int));
        assert(lwm.take(i + 1).last() == lwm[i as int]);
        let rec = record_of(&lw[i]);
        let known_id = find_id(&current, &rec.id);
        let admitted = if known_id {
            false
        } else {
            match &rec.path {
                Some(p) => !find_path(&current, p),
                None => false,
            }
        };
        if admitted {
            let e = (copy_key(&lw[i].0), copy_value(&lw[i].1));
            proof {
                lemma_entries_push(ins@, e);
                lemma_entry_views_push(current@, rec);
            }
            let ghost old_ins = entries_model(ins@);
            ins.push(e);
            current.push(rec);
            assert(record_views(entries_model(ins@)) =~= record_views(old_ins).push(rec@));
            assert(entry_views(current@) =~= record_views(twm) + record_views(entries_model(ins@)));
        }
        i = i + 1;
    }
    assert(lwm.take(i as int) =~= lwm);
    if ins.len() == 0 {
        return None;
    }
    let ghost insm = entries_model(ins@);
    let mut w = tw;
    let mut k: usize = 0;
    while k < ins.len()
        invariant
            k <= ins@.len(),
            insm == entries_model(ins@),
            entries_model(w@) == twm + insm.take(k as int),
        decreases ins.len() - k,
    {
        let e = (copy_key(&ins[k].0), copy_value(&ins[k].1));
        proof {
            lemma_entries_push(w@, e);
        }
        w.push(e);
        assert(twm + insm.take(k + 1) =~= (twm + insm.take(k as int)).push(insm[k as int]));
        k = k + 1;
    }
    assert(insm.take(k as int) =~= insm);
    let mut target = target;
    let mut tables = mapping_at(&target, "tables");
    set_text_key(&mut tables, "workspaces", mapping(w));
    set_text_key(&mut target, "tables", mapping(tables));
    match value_at(&target, "global") {
        Some(SettingsValue::Mapping(mut g)) => {
            proof {
                lemma_mapping_model(g);
            }
            match value_at(&g, "workspaceIds") {
                Some(SettingsValue::List(mut items)) => {
                    proof {
                        lemma_list_model(items);
                    }
                    append_ids(&mut items, &ins);
                    set_text_key(&mut g, "workspaceIds", list(items));
                    set_text_key(&mut target, "global", mapping(g));
                },
                _ => {},
            }
        },
        _ => {},
    }
    Some(target)
}


/// Law: merging into a registry that already represents every legacy record
/// with a path (by its id or by its path), whatever the order of its records,
/// adds nothing.
pub proof fn law_merge_into_covering_registry(legacy: Seq<WorkspaceView>, target: Seq<WorkspaceView>)
    requires
        forall|k: int|
            0 <= k < legacy.len() && (#[trigger] legacy[k]).1 is Some ==> has_id(target, legacy[k].0) || has_path(
                target,
                legacy[k].1->0,
            ),
    ensures
        merged_registry(legacy, target) == target,
    decreases legacy.len(),
{
    if legacy.len() > 0 {
        let d = legacy.drop_last();
        assert forall|k: int| 0 <= k < d.len() && (#[trigger] d[k]).1 is Some implies has_id(target, d[k].0)
            || has_path(target, d[k].1->0) by {
            assert(d[k] == legacy[k]);
        }
        law_merge_into_covering_registry(d, target);
        assert(legacy.last() == legacy[legacy.len() - 1]);
    }
}

proof fn lemma_nothing_taken_over(legacy: Seq<(KeyModel, ValueModel)>, t: Seq<WorkspaceView>)
    requires
        forall|k: int|
            0 <= k < legacy.len() && (#[trigger] record_view(legacy[k])).1 is Some ==> has_id(
                t,
                record_view(legacy[k]).0,
            ) || has_path(t, record_view(legacy[k]).1->0),
    ensures
        taken_over(legacy, t).len() == 0,
    decreases legacy.len(),
{
    if legacy.len() > 0 {
        let d = legacy.drop_last();
        assert forall|k: int| 0 <= k < d.len() && (#[trigger] record_view(d[k])).1 is Some implies has_id(
            t,
            record_view(d[k]).0,
        ) || has_path(t, record_view(d[k]).1->0) by {
            assert(d[k] == legacy[k]);
        }
        lemma_nothing_taken_over(d, t);
        assert(t + record_views(taken_over(d, t)) =~= t);
        assert(record_view(legacy.last()) == record_view(legacy[legacy.len() - 1]));
    }
}

proof fn lemma_table_names_differ()
    ensures
        "global"@ != "tables"@,
{
    reveal_strlit("global");
    reveal_strlit("tables");
    assert("global"@[0] != "tables"@[0]);
}

/// The workspace table after a merge: the target's table with the entries taken
/// over after it.
pub open spec fn merged_table(legacy: Seq<(KeyModel, ValueModel)>, target: Seq<(KeyModel, ValueModel)>) -> Seq<
    (KeyModel, ValueModel),
> {
    workspaces_of(target)->0 + taken_over(workspaces_of(legacy)->0, record_views(workspaces_of(target)->0))
}

/// The workspace table of a merged document is `merged_table`.
pub proof fn lemma_merged_table(legacy: Seq<(KeyModel, ValueModel)>, target: Seq<(KeyModel, ValueModel)>)
    requires
        registry_merged(legacy, target) is Some,
    ensures
        workspaces_of(registry_merged(legacy, target)->0) == Some(merged_table(legacy, target)),
{
    let lw = workspaces_of(legacy)->0;
    let tw = workspaces_of(target)->0;
    let ins = taken_over(lw, record_views(tw));
    let tables = sub_mapping(lookup(target, "tables"@));
    let tables2 = set_key(tables, "workspaces"@, ValueModel::Mapping(tw + ins));
    let t1 = set_key(target, "tables"@, ValueModel::Mapping(tables2));
    crate::settings::lemma_set_key_lookup(target, "tables"@, ValueModel::Mapping(tables2), "tables"@);
    crate::settings::lemma_set_key_lookup(tables, "workspaces"@, ValueModel::Mapping(tw + ins), "workspaces"@);
    lemma_table_names_differ();
    if let Some(ValueModel::Mapping(g)) = lookup(t1, "global"@) {
        if let Some(ValueModel::List(items)) = lookup(g, "workspaceIds"@) {
            crate::settings::lemma_set_key_lookup(
                t1,
                "global"@,
                ValueModel::Mapping(set_key(g, "workspaceIds"@, ValueModel::List(with_ids(items, entry_ids(ins))))),
                "tables"@,
            );
        }
    }
}

/// Law: once the legacy registry has been merged into the target document, a
/// second merge takes nothing over, also when the document is read back with its
/// workspace records in another order: any document whose workspace table holds
/// every record of the merged table is left alone.
pub proof fn law_registry_merge_settles(
    legacy: Seq<(KeyModel, ValueModel)>,
    target: Seq<(KeyModel, ValueModel)>,
    again: Seq<(KeyModel, ValueModel)>,
)
    requires
        registry_merged(legacy, target) is Some,
        workspaces_of(again) is Some,
        forall|j: int|
            0 <= j < merged_table(legacy, target).len() ==> record_views(workspaces_of(again)->0).contains(
                #[trigger] record_view(merged_table(legacy, target)[j]),
            ),
    ensures
        registry_merged(legacy, again) is None,
{
    let lw = workspaces_of(legacy)->0;
    let tw = workspaces_of(target)->0;
    let w2 = workspaces_of(again)->0;
    let ins = taken_over(lw, record_views(tw));
    lemma_merged_table(legacy, target);
    let wm = tw + ins;
    lemma_taken_over_merged(lw, record_views(tw));
    let reg = merged_registry(record_views(lw), record_views(tw));
    assert(record_views(wm) =~= record_views(tw) + record_views(ins));
    let v2 = record_views(w2);
    assert(wm == merged_table(legacy, target));
    assert forall|j: int| 0 <= j < reg.len() implies v2.contains(#[trigger] reg[j]) by {
        assert(record_views(wm)[j] == record_view(wm[j]));
        assert(reg[j] == record_view(wm[j]));
        assert(v2.contains(record_view(wm[j])));
    }
    assert forall|k: int|
        0 <= k < lw.len() && (#[trigger] record_view(lw[k])).1 is Some implies has_id(v2, record_view(lw[k]).0)
        || has_path(v2, record_view(lw[k]).1->0) by {
        assert(record_views(lw)[k] == record_view(lw[k]));
        law_merge_covers_legacy(record_views(lw), record_views(tw), k);
        if has_id(reg, record_view(lw[k]).0) {
            let j = choose|j: int| 0 <= j < reg.len() && (#[trigger] reg[j]).0 == record_view(lw[k]).0;
            assert(v2.contains(reg[j]));
            let j2 = choose|j2: int| 0 <= j2 < v2.len() && v2[j2] == reg[j];
            assert(v2[j2].0 == record_view(lw[k]).0);
        } else {
            let j = choose|j: int| 0 <= j < reg.len() && (#[trigger] reg[j]).1 == Some(record_view(lw[k]).1->0);
            assert(v2.contains(reg[j]));
            let j2 = choose|j2: int| 0 <= j2 < v2.len() && v2[j2] == reg[j];
            assert(v2[j2].1 == Some(record_view(lw[k]).1->0));
        }
    }
    lemma_nothing_taken_over(lw, v2);
}

} // verus!
