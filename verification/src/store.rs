//! The settings, dictionary and prompt templates kept in a plain JSON file
//! when the encrypted database is not available. Reading and writing the
//! file belongs to the app; these are the rules that each command applies to
//! the loaded store.

use vstd::prelude::*;
use crate::db::{
    entries_view, fresh_uuid, is_v4_uuid, opt_view, prompts_view, settings_for_storage,
    strs_view, AppSettings, DictionaryEntry, DictionaryEntryView, DictionaryUpsert,
    PromptTemplate, PromptTemplateUpsert, PromptTemplateView, copy_opt, copy_strings,
    stored_prompt,
};
use crate::hotkey::normalized_hotkey_id;
use crate::order::{
    identity_positions, is_permutation, is_stable_sort, keys_view, lemma_increasing_keys_sorted, lemma_stable_sort_of,
    stable_sort_of, stable_sort_positions,
};
use crate::seed::{builtin_prompts, builtin_table, builtin_view, BuiltinPrompt};
use crate::text::{
    append_str, chars_eq, chars_of, contains, contains_seq, is_blank, is_blank_seq, starts_with,
    starts_with_seq, string_from_chars,
};

verus! {

broadcast use vstd::string::group_string_axioms;

/// What the JSON fallback file holds.
#[derive(Debug, Clone)]
pub struct JsonFallbackStore {
    pub settings: AppSettings,
    pub dictionary: Vec<DictionaryEntry>,
    pub prompts: Vec<PromptTemplate>,
}

impl Default for JsonFallbackStore {
    fn default() -> (r: Self)
        ensures
            r.settings.bypass_llm,
            r.settings.whisper_initial_prompt@ == Seq::<char>::empty(),
            r.settings.input_device is None,
            r.settings.whisper_model@ == "small"@,
            r.settings.dictation_hotkey@ == crate::hotkey::DEFAULT_DICTATION_HOTKEY_ID@,
            r.dictionary@.len() == 0,
            r.prompts@.len() == 0,
    {
        JsonFallbackStore {
            settings: AppSettings::default(),
            dictionary: Vec::new(),
            prompts: Vec::new(),
        }
    }
}

// ---------------------------------------------------------------------------
// Identifier lookup
// ---------------------------------------------------------------------------

/// The first position at or after `i` whose identifier is `id`.
pub open spec fn first_index_from(ids: Seq<Seq<char>>, id: Seq<char>, i: int) -> Option<int>
    decreases ids.len() - i,
{
    if i < 0 || i >= ids.len() {
        None
    } else if ids[i] == id {
        Some(i)
    } else {
        first_index_from(ids, id, i + 1)
    }
}

/// The first position whose identifier is `id`.
pub open spec fn first_index(ids: Seq<Seq<char>>, id: Seq<char>) -> Option<int> {
    first_index_from(ids, id, 0)
}

pub proof fn lemma_first_index(ids: Seq<Seq<char>>, id: Seq<char>, i: int)
    requires
        0 <= i,
    ensures
        first_index_from(ids, id, i) matches Some(k) ==> i <= k < ids.len() && ids[k] == id
            && forall|j: int| i <= j < k ==> ids[j] != id,
        first_index_from(ids, id, i) is None ==> forall|j: int| i <= j < ids.len() ==> ids[j] != id,
    decreases ids.len() - i,
{
    if i < ids.len() && ids[i] != id {
        lemma_first_index(ids, id, i + 1);
    }
}

/// The identifiers of a list of entries.
pub open spec fn entry_ids(s: Seq<DictionaryEntryView>) -> Seq<Seq<char>> {
    s.map_values(|e: DictionaryEntryView| e.id)
}

/// The identifiers of a list of templates.
pub open spec fn prompt_ids(s: Seq<PromptTemplateView>) -> Seq<Seq<char>> {
    s.map_values(|p: PromptTemplateView| p.id)
}

fn find_prompt(v: &Vec<PromptTemplate>, id: &Vec<char>) -> (r: Option<usize>)
    ensures
        r matches Some(k) ==> first_index(prompt_ids(prompts_view(v@)), id@) == Some(k as int),
        r is None ==> first_index(prompt_ids(prompts_view(v@)), id@) is None,
        r matches Some(k) ==> k < v@.len() && v@[k as int].id@ == id@,
{
    let ghost ids = prompt_ids(prompts_view(v@));
    proof {
        lemma_first_index(ids, id@, 0);
    }
    let mut i: usize = 0;
    while i < v.len()
        invariant
            0 <= i <= v.len(),
            ids == prompt_ids(prompts_view(v@)),
            first_index(ids, id@) == first_index_from(ids, id@, i as int),
        decreases v.len() - i,
    {
        let c = chars_of(v[i].id.as_str());
        assert(ids[i as int] == v@[i as int].id@);
        if chars_eq(&c, id) {
            return Some(i);
        }
        i = i + 1;
    }
    None
}

fn find_entry(v: &Vec<DictionaryEntry>, id: &Vec<char>) -> (r: Option<usize>)
    ensures
        r matches Some(k) ==> first_index(entry_ids(entries_view(v@)), id@) == Some(k as int),
        r is None ==> first_index(entry_ids(entries_view(v@)), id@) is None,
        r matches Some(k) ==> k < v@.len() && v@[k as int].id@ == id@,
{
    let ghost ids = entry_ids(entries_view(v@));
    proof {
        lemma_first_index(ids, id@, 0);
    }
    let mut i: usize = 0;
    while i < v.len()
        invariant
            0 <= i <= v.len(),
            ids == entry_ids(entries_view(v@)),
            first_index(ids, id@) == first_index_from(ids, id@, i as int),
        decreases v.len() - i,
    {
        let c = chars_of(v[i].id.as_str());
        assert(ids[i as int] == v@[i as int].id@);
        if chars_eq(&c, id) {
            return Some(i);
        }
        i = i + 1;
    }
    None
}

// ---------------------------------------------------------------------------
// Built-in templates
// ---------------------------------------------------------------------------

/// The timestamp that built-in templates carry in the fallback store.
pub open spec fn fallback_timestamp_view() -> Seq<char> {
    "1970-01-01 00:00:00"@
}

/// The timestamp that built-in templates carry in the fallback store.
pub fn fallback_timestamp() -> (r: String)
    ensures
        r@ == fallback_timestamp_view(),
{
    "1970-01-01 00:00:00".to_string()
}

/// The identifier of the built-in template named `name`.
pub open spec fn builtin_id(name: Seq<char>) -> Seq<char> {
    "builtin_"@ + name
}

/// The `i`-th shipped template as a stored template.
pub open spec fn builtin_template_view(i: int) -> PromptTemplateView {
    let t = builtin_table()[i];
    PromptTemplateView {
        id: builtin_id(t.0),
        name: t.0,
        label: t.1,
        body: t.2,
        language: t.3,
        is_builtin: true,
        order_idx: i,
        created_at: fallback_timestamp_view(),
        updated_at: fallback_timestamp_view(),
    }
}

/// The shipped templates as stored templates, in display order.
pub open spec fn builtin_templates_view() -> Seq<PromptTemplateView> {
    Seq::new(builtin_table().len(), |i: int| builtin_template_view(i))
}

/// The shipped templates as stored templates: identifier `builtin_<name>`,
/// marked built-in, ordered by position, stamped with the fallback
/// timestamp.
pub fn builtin_prompt_templates() -> (r: Vec<PromptTemplate>)
    ensures
        prompts_view(r@) == builtin_templates_view(),
{
    let table = builtin_prompts();
    let ghost tv = table@.map_values(|p: BuiltinPrompt| builtin_view(p));
    let mut out: Vec<PromptTemplate> = Vec::new();
    let mut i: usize = 0;
    assert(tv.len() == table@.len());
    assert(builtin_table().len() == 4);
    while i < table.len()
        invariant
            0 <= i <= table.len(),
            tv == table@.map_values(|p: BuiltinPrompt| builtin_view(p)),
            tv == builtin_table(),
            table.len() == 4,
            prompts_view(out@) == builtin_templates_view().take(i as int),
        decreases table.len() - i,
    {
        let b = table[i];
        assert(tv[i as int] == builtin_view(b));
        let mut id = chars_of("builtin_");
        append_str(&mut id, b.name);
        let t = PromptTemplate {
            id: string_from_chars(&id),
            name: b.name.to_string(),
            label: b.label.to_string(),
            body: b.body.to_string(),
            language: b.language.to_string(),
            is_builtin: true,
            order_idx: i as i32,
            created_at: fallback_timestamp(),
            updated_at: fallback_timestamp(),
        };
        let ghost before = prompts_view(out@);
        out.push(t);
        assert(prompts_view(out@) =~= before.push(t@));
        assert(t@ == builtin_template_view(i as int));
        assert(prompts_view(out@) =~= builtin_templates_view().take(i + 1));
        i = i + 1;
    }
    assert(builtin_templates_view().take(4) =~= builtin_templates_view());
    out
}

// ---------------------------------------------------------------------------
// Listing templates
// ---------------------------------------------------------------------------

/// Folds one stored template into the listing: it replaces the template with
/// the same identifier (keeping a built-in's flag, position and creation
/// time) or is added at the end.
pub open spec fn merge_prompt(m: Seq<PromptTemplateView>, p: PromptTemplateView) -> Seq<
    PromptTemplateView,
> {
    match first_index(prompt_ids(m), p.id) {
        Some(k) => m.update(
            k,
            if m[k].is_builtin {
                PromptTemplateView {
                    is_builtin: true,
                    order_idx: m[k].order_idx,
                    created_at: m[k].created_at,
                    ..p
                }
            } else {
                p
            },
        ),
        None => m.push(p),
    }
}

/// The shipped templates with the stored ones folded in, in store order.
pub open spec fn merged_prompts(stored: Seq<PromptTemplateView>) -> Seq<PromptTemplateView>
    decreases stored.len(),
{
    if stored.len() == 0 {
        builtin_templates_view()
    } else {
        merge_prompt(merged_prompts(stored.drop_last()), stored.last())
    }
}

/// The sort key of a template: display position, then name.
pub open spec fn prompt_keys(s: Seq<PromptTemplateView>) -> Seq<(int, Seq<char>)> {
    s.map_values(|p: PromptTemplateView| (p.order_idx, p.name))
}

/// `s` sorted stably by position, then name.
pub open spec fn sorted_prompts(s: Seq<PromptTemplateView>) -> Seq<PromptTemplateView> {
    permuted(s, stable_sort_of(prompt_keys(s)))
}

/// The listing of a store whose stored templates are `stored`: the shipped
/// templates with the stored ones folded in, sorted stably by position and
/// then name.
pub open spec fn listed_prompts(stored: Seq<PromptTemplateView>) -> Seq<PromptTemplateView> {
    sorted_prompts(merged_prompts(stored))
}

/// `r` is `s` reordered by the permutation `p`.
pub open spec fn permuted<A>(s: Seq<A>, p: Seq<int>) -> Seq<A> {
    p.map_values(|i: int| s[i])
}

fn merged_with(m: &mut Vec<PromptTemplate>, p: &PromptTemplate)
    ensures
        prompts_view(final(m)@) == merge_prompt(prompts_view(old(m)@), p@),
{
    let id = chars_of(p.id.as_str());
    match find_prompt(m, &id) {
        Some(k) => {
            let base_builtin = m[k].is_builtin;
            let mut merged = p.copy();
            if base_builtin {
                merged.is_builtin = true;
                merged.order_idx = m[k].order_idx;
                merged.created_at = m[k].created_at.clone();
            }
            let ghost before = prompts_view(m@);
            m.set(k, merged);
            assert(prompts_view(m@) =~= before.update(k as int, merged@));
        },
        None => {
            let ghost before = prompts_view(m@);
            m.push(p.copy());
            assert(prompts_view(m@) =~= before.push(p@));
        },
    }
}

/// Reorders `items` by their `(order_idx, name)` keys, stably.
fn sort_prompts(items: &Vec<PromptTemplate>) -> (r: Vec<PromptTemplate>)
    ensures
        prompts_view(r@) == sorted_prompts(prompts_view(items@)),
{
    let ghost iv = prompts_view(items@);
    let mut keys: Vec<(i32, Vec<char>)> = Vec::new();
    let mut i: usize = 0;
    while i < items.len()
        invariant
            0 <= i <= items.len(),
            iv == prompts_view(items@),
            keys_view(keys@) == prompt_keys(iv).take(i as int),
        decreases items.len() - i,
    {
        let ghost before = keys_view(keys@);
        let k = (items[i].order_idx, chars_of(items[i].name.as_str()));
        keys.push(k);
        assert(keys_view(keys@) =~= before.push((items@[i as int].order_idx as int, items@[i as int].name@)));
        assert(keys_view(keys@) =~= prompt_keys(iv).take(i + 1));
        i = i + 1;
    }
    assert(prompt_keys(iv).take(items.len() as int) =~= prompt_keys(iv));
    let perm = stable_sort_positions(&keys);
    let ghost pv = perm@.map_values(|j: usize| j as int);
    let mut out: Vec<PromptTemplate> = Vec::new();
    let mut j: usize = 0;
    while j < perm.len()
        invariant
            0 <= j <= perm.len(),
            iv == prompts_view(items@),
            pv == perm@.map_values(|j: usize| j as int),
            is_stable_sort(prompt_keys(iv), pv),
            prompts_view(out@) == permuted(iv, pv).take(j as int),
        decreases perm.len() - j,
    {
        assert(pv[j as int] == perm@[j as int] as int);
        let ghost before = prompts_view(out@);
        let t = items[perm[j]].copy();
        out.push(t);
        assert(prompts_view(out@) =~= before.push(t@));
        assert(prompts_view(out@) =~= permuted(iv, pv).take(j + 1));
        j = j + 1;
    }
    assert(permuted(iv, pv).take(perm.len() as int) =~= permuted(iv, pv));
    proof {
        lemma_stable_sort_of(prompt_keys(iv), pv);
    }
    out
}

/// The prompt templates of the fallback store as the settings screen lists
/// them: the shipped templates with the stored ones folded in by identifier
/// (a stored copy of a built-in stays built-in, keeps its position and its
/// creation time), sorted stably by position and then name.
pub fn list_json_prompts(store: &JsonFallbackStore) -> (r: Vec<PromptTemplate>)
    ensures
        prompts_view(r@) == listed_prompts(prompts_view(store.prompts@)),
{
    let ghost sv = prompts_view(store.prompts@);
    let mut m = builtin_prompt_templates();
    let mut i: usize = 0;
    while i < store.prompts.len()
        invariant
            0 <= i <= store.prompts.len(),
            sv == prompts_view(store.prompts@),
            prompts_view(m@) == merged_prompts(sv.take(i as int)),
        decreases store.prompts.len() - i,
    {
        assert(sv.take(i + 1).drop_last() =~= sv.take(i as int));
        merged_with(&mut m, &store.prompts[i]);
        i = i + 1;
    }
    assert(sv.take(store.prompts.len() as int) =~= sv);
    sort_prompts(&m)
}

} // verus!

verus! {

// ---------------------------------------------------------------------------
// Dictionary
// ---------------------------------------------------------------------------

/// `s` with the element at the first position of `k` replaced by `x`, or `x`
/// added at the end when there is no such position.
pub open spec fn replace_or_push<A>(s: Seq<A>, k: Option<int>, x: A) -> Seq<A> {
    match k {
        Some(i) => s.update(i, x),
        None => s.push(x),
    }
}

/// The sort key of a dictionary entry: its term.
pub open spec fn term_keys(s: Seq<DictionaryEntryView>) -> Seq<(int, Seq<char>)> {
    s.map_values(|e: DictionaryEntryView| (0int, e.term))
}

/// The entry an upsert with identifier `id` stores at time `now`: the
/// payload's fields, the creation time of the first stored entry with that
/// identifier (or `now`), and `now` as update time.
pub open spec fn upserted_entry(
    list: Seq<DictionaryEntryView>,
    payload: DictionaryUpsert,
    id: Seq<char>,
    now: Seq<char>,
) -> DictionaryEntryView {
    DictionaryEntryView {
        id,
        term: payload.term@,
        reading: opt_view(payload.reading),
        aliases: strs_view(payload.aliases),
        category: opt_view(payload.category),
        notes: opt_view(payload.notes),
        created_at: match first_index(entry_ids(list), id) {
            Some(k) => list[k].created_at,
            None => now,
        },
        updated_at: now,
    }
}

/// The dictionary before sorting: the upserted entry in place of the first
/// one with its identifier, or added at the end.
pub open spec fn upserted_dictionary(
    list: Seq<DictionaryEntryView>,
    payload: DictionaryUpsert,
    id: Seq<char>,
    now: Seq<char>,
) -> Seq<DictionaryEntryView> {
    replace_or_push(list, first_index(entry_ids(list), id), upserted_entry(list, payload, id, now))
}

/// `s` sorted stably by term.
pub open spec fn sorted_by_term(s: Seq<DictionaryEntryView>) -> Seq<DictionaryEntryView> {
    permuted(s, stable_sort_of(term_keys(s)))
}

/// `s` without the entries whose identifier is `id`, in order.
pub open spec fn entries_without(s: Seq<DictionaryEntryView>, id: Seq<char>) -> Seq<
    DictionaryEntryView,
>
    decreases s.len(),
{
    if s.len() == 0 {
        Seq::empty()
    } else if s.last().id == id {
        entries_without(s.drop_last(), id)
    } else {
        entries_without(s.drop_last(), id).push(s.last())
    }
}

/// `s` without the templates whose identifier is `id`, in order.
pub open spec fn prompts_without(s: Seq<PromptTemplateView>, id: Seq<char>) -> Seq<
    PromptTemplateView,
>
    decreases s.len(),
{
    if s.len() == 0 {
        Seq::empty()
    } else if s.last().id == id {
        prompts_without(s.drop_last(), id)
    } else {
        prompts_without(s.drop_last(), id).push(s.last())
    }
}

fn sort_entries(items: &Vec<DictionaryEntry>) -> (r: Vec<DictionaryEntry>)
    ensures
        entries_view(r@) == sorted_by_term(entries_view(items@)),
{
    let ghost iv = entries_view(items@);
    let mut keys: Vec<(i32, Vec<char>)> = Vec::new();
    let mut i: usize = 0;
    while i < items.len()
        invariant
            0 <= i <= items.len(),
            iv == entries_view(items@),
            keys_view(keys@) == term_keys(iv).take(i as int),
        decreases items.len() - i,
    {
        let ghost before = keys_view(keys@);
        let k = (0i32, chars_of(items[i].term.as_str()));
        keys.push(k);
        assert(keys_view(keys@) =~= before.push((0int, items@[i as int].term@)));
        assert(keys_view(keys@) =~= term_keys(iv).take(i + 1));
        i = i + 1;
    }
    assert(term_keys(iv).take(items.len() as int) =~= term_keys(iv));
    let perm = stable_sort_positions(&keys);
    let ghost pv = perm@.map_values(|j: usize| j as int);
    let mut out: Vec<DictionaryEntry> = Vec::new();
    let mut j: usize = 0;
    while j < perm.len()
        invariant
            0 <= j <= perm.len(),
            iv == entries_view(items@),
            pv == perm@.map_values(|j: usize| j as int),
            is_stable_sort(term_keys(iv), pv),
            entries_view(out@) == permuted(iv, pv).take(j as int),
        decreases perm.len() - j,
    {
        assert(pv[j as int] == perm@[j as int] as int);
        let ghost before = entries_view(out@);
        let t = items[perm[j]].copy();
        out.push(t);
        assert(entries_view(out@) =~= before.push(t@));
        assert(entries_view(out@) =~= permuted(iv, pv).take(j + 1));
        j = j + 1;
    }
    assert(permuted(iv, pv).take(perm.len() as int) =~= permuted(iv, pv));
    proof {
        lemma_stable_sort_of(term_keys(iv), pv);
    }
    out
}

impl JsonFallbackStore {
    /// Creates or updates the dictionary entry with identifier `id`. A blank
    /// term is refused and leaves the store as it was. Otherwise the entry
    /// takes the payload's fields, keeps the creation time of the entry it
    /// replaces (or gets `now`), gets `now` as update time, and the
    /// dictionary is re-sorted stably by term.
    pub fn upsert_dictionary_with_id(
        &mut self,
        payload: DictionaryUpsert,
        id: String,
        now: String,
    ) -> (r: Result<DictionaryEntry, String>)
        ensures
            is_blank_seq(payload.term@) <==> r is Err,
            r matches Err(e) ==> e@ == "term must not be empty"@ && *final(self) == *old(self),
            r matches Ok(entry) ==> {
                &&& entry@ == upserted_entry(entries_view(old(self).dictionary@), payload, id@, now@)
                &&& entries_view(final(self).dictionary@) == sorted_by_term(
                    upserted_dictionary(entries_view(old(self).dictionary@), payload, id@, now@),
                )
                &&& final(self).settings == old(self).settings
                &&& final(self).prompts == old(self).prompts
            },
    {
        let term = chars_of(payload.term.as_str());
        if is_blank(&term) {
            return Err("term must not be empty".to_string());
        }
        let ghost list = entries_view(self.dictionary@);
        let idc = chars_of(id.as_str());
        let pos = find_entry(&self.dictionary, &idc);
        let created_at = match pos {
            Some(k) => self.dictionary[k].created_at.clone(),
            None => now.clone(),
        };
        let entry = DictionaryEntry {
            id,
            term: payload.term,
            reading: payload.reading,
            aliases: payload.aliases,
            category: payload.category,
            notes: payload.notes,
            created_at,
            updated_at: now,
        };
        let mut list2 = Vec::new();
        let mut i: usize = 0;
        while i < self.dictionary.len()
            invariant
                0 <= i <= self.dictionary.len(),
                entries_view(list2@) == entries_view(self.dictionary@).take(i as int),
            decreases self.dictionary.len() - i,
        {
            let ghost before = entries_view(list2@);
            let c = self.dictionary[i].copy();
            list2.push(c);
            assert(entries_view(list2@) =~= before.push(c@));
            assert(entries_view(list2@) =~= entries_view(self.dictionary@).take(i + 1));
            i = i + 1;
        }
        assert(entries_view(self.dictionary@).take(self.dictionary.len() as int) =~= list);
        let ghost before = entries_view(list2@);
        match pos {
            Some(k) => {
                list2.set(k, entry.copy());
                assert(entries_view(list2@) =~= before.update(k as int, entry@));
            },
            None => {
                list2.push(entry.copy());
                assert(entries_view(list2@) =~= before.push(entry@));
            },
        }
        self.dictionary = sort_entries(&list2);
        Ok(entry)
    }

    /// Creates or updates a dictionary entry (see
    /// [`JsonFallbackStore::upsert_dictionary_with_id`]); a payload without an
    /// identifier gets a fresh random UUID.
    pub fn upsert_dictionary(&mut self, payload: DictionaryUpsert, now: String) -> (r: Result<
        DictionaryEntry,
        String,
    >)
        ensures
            is_blank_seq(payload.term@) <==> r is Err,
            r matches Err(e) ==> e@ == "term must not be empty"@ && *final(self) == *old(self),
            r matches Ok(entry) ==> {
                &&& match payload.id {
                    Some(x) => entry.id@ == x@,
                    None => is_v4_uuid(entry.id@),
                }
                &&& entry@ == upserted_entry(
                    entries_view(old(self).dictionary@),
                    payload,
                    entry.id@,
                    now@,
                )
                &&& entries_view(final(self).dictionary@) == sorted_by_term(
                    upserted_dictionary(
                        entries_view(old(self).dictionary@),
                        payload,
                        entry.id@,
                        now@,
                    ),
                )
                &&& final(self).settings == old(self).settings
                &&& final(self).prompts == old(self).prompts
            },
    {
        let id = match &payload.id {
            Some(x) => x.clone(),
            None => fresh_uuid(),
        };
        self.upsert_dictionary_with_id(payload, id, now)
    }

    /// Removes every dictionary entry with identifier `id`; the others keep
    /// their order.
    pub fn delete_dictionary(&mut self, id: &str)
        ensures
            entries_view(final(self).dictionary@) == entries_without(
                entries_view(old(self).dictionary@),
                id@,
            ),
            final(self).settings == old(self).settings,
            final(self).prompts == old(self).prompts,
    {
        let idc = chars_of(id);
        let ghost ov = entries_view(self.dictionary@);
        let mut kept: Vec<DictionaryEntry> = Vec::new();
        let mut i: usize = 0;
        while i < self.dictionary.len()
            invariant
                0 <= i <= self.dictionary.len(),
                ov == entries_view(self.dictionary@),
                idc@ == id@,
                entries_view(kept@) == entries_without(ov.take(i as int), id@),
            decreases self.dictionary.len() - i,
        {
            assert(ov.take(i + 1).drop_last() =~= ov.take(i as int));
            assert(ov.take(i + 1).last() == self.dictionary@[i as int]@);
            let c = chars_of(self.dictionary[i].id.as_str());
            if !chars_eq(&c, &idc) {
                let ghost before = entries_view(kept@);
                let e = self.dictionary[i].copy();
                kept.push(e);
                assert(entries_view(kept@) =~= before.push(e@));
            }
            i = i + 1;
        }
        assert(ov.take(self.dictionary.len() as int) =~= ov);
        self.dictionary = kept;
    }
}

} // verus!

verus! {

// ---------------------------------------------------------------------------
// Prompt templates
// ---------------------------------------------------------------------------

/// The error for a template body without the `{input}` placeholder.
pub open spec fn missing_input_error() -> Seq<char> {
    "prompt template must contain {input} placeholder"@
}

/// Why an upsert payload is refused, if it is: a body without `{input}`,
/// then a blank name.
pub open spec fn prompt_upsert_error(payload: PromptTemplateUpsert) -> Option<Seq<char>> {
    if !contains_seq(payload.body@, "{input}"@) {
        Some(missing_input_error())
    } else if is_blank_seq(payload.name@) {
        Some("name must not be empty"@)
    } else {
        None
    }
}

/// Checks a template upsert payload (see [`prompt_upsert_error`]).
pub fn validate_prompt_upsert(payload: &PromptTemplateUpsert) -> (r: Result<(), String>)
    ensures
        r is Ok <==> prompt_upsert_error(*payload) is None,
        r matches Err(e) ==> Some(e@) == prompt_upsert_error(*payload),
{
    let body = chars_of(payload.body.as_str());
    let pat = chars_of("{input}");
    if !contains(&body, &pat) {
        return Err("prompt template must contain {input} placeholder".to_string());
    }
    let name = chars_of(payload.name.as_str());
    if is_blank(&name) {
        return Err("name must not be empty".to_string());
    }
    Ok(())
}

/// The template an upsert with identifier `id` stores at time `now`: the
/// payload's fields; built-in flag and position of the shipped template with
/// that identifier (else not built-in, position 99); creation time of the
/// stored template with that identifier, else of the shipped one, else
/// `now`.
pub open spec fn upserted_prompt(
    stored: Seq<PromptTemplateView>,
    payload: PromptTemplateUpsert,
    id: Seq<char>,
    now: Seq<char>,
) -> PromptTemplateView {
    let b = first_index(prompt_ids(builtin_templates_view()), id);
    PromptTemplateView {
        id,
        name: payload.name@,
        label: payload.label@,
        body: payload.body@,
        language: payload.language@,
        is_builtin: match b {
            Some(i) => builtin_templates_view()[i].is_builtin,
            None => false,
        },
        order_idx: match b {
            Some(i) => builtin_templates_view()[i].order_idx,
            None => 99,
        },
        created_at: match first_index(prompt_ids(stored), id) {
            Some(k) => stored[k].created_at,
            None => match b {
                Some(i) => builtin_templates_view()[i].created_at,
                None => now,
            },
        },
        updated_at: now,
    }
}

/// The error for deleting a built-in template.
pub open spec fn builtin_delete_error() -> Seq<char> {
    "cannot delete built-in template; use reset instead"@
}

/// The error for resetting an identifier that names no shipped template.
pub open spec fn no_default_error(id: Seq<char>) -> Seq<char> {
    "no shipped default for builtin id '"@ + id + "'"@
}

impl JsonFallbackStore {
    /// Creates or updates the stored template with identifier `id`. A
    /// refused payload (see [`prompt_upsert_error`]) leaves the store as it
    /// was; otherwise the template of [`upserted_prompt`] replaces the first
    /// stored one with that identifier or is added at the end.
    pub fn upsert_prompt_with_id(
        &mut self,
        payload: PromptTemplateUpsert,
        id: String,
        now: String,
    ) -> (r: Result<PromptTemplate, String>)
        ensures
            r is Err <==> prompt_upsert_error(payload) is Some,
            r matches Err(e) ==> Some(e@) == prompt_upsert_error(payload) && *final(self)
                == *old(self),
            r matches Ok(t) ==> {
                let sv = prompts_view(old(self).prompts@);
                &&& t@ == upserted_prompt(sv, payload, id@, now@)
                &&& prompts_view(final(self).prompts@) == replace_or_push(
                    sv,
                    first_index(prompt_ids(sv), id@),
                    t@,
                )
                &&& final(self).settings == old(self).settings
                &&& final(self).dictionary == old(self).dictionary
            },
    {
        match validate_prompt_upsert(&payload) {
            Err(e) => {
                return Err(e);
            },
            Ok(()) => {},
        }
        let idc = chars_of(id.as_str());
        let builtins = builtin_prompt_templates();
        let b = find_prompt(&builtins, &idc);
        let pos = find_prompt(&self.prompts, &idc);
        let created_at = match pos {
            Some(k) => self.prompts[k].created_at.clone(),
            None => match b {
                Some(i) => builtins[i].created_at.clone(),
                None => now.clone(),
            },
        };
        let is_builtin = match b {
            Some(i) => builtins[i].is_builtin,
            None => false,
        };
        let order_idx = match b {
            Some(i) => builtins[i].order_idx,
            None => 99,
        };
        let t = PromptTemplate {
            id,
            name: payload.name,
            label: payload.label,
            body: payload.body,
            language: payload.language,
            is_builtin,
            order_idx,
            created_at,
            updated_at: now,
        };
        let ghost before = prompts_view(self.prompts@);
        match pos {
            Some(k) => {
                self.prompts.set(k, t.copy());
                assert(prompts_view(self.prompts@) =~= before.update(k as int, t@));
            },
            None => {
                self.prompts.push(t.copy());
                assert(prompts_view(self.prompts@) =~= before.push(t@));
            },
        }
        Ok(t)
    }

    /// Creates or updates a stored template (see
    /// [`JsonFallbackStore::upsert_prompt_with_id`]); a payload without an
    /// identifier gets `user_` followed by a fresh random UUID.
    pub fn upsert_prompt(&mut self, payload: PromptTemplateUpsert, now: String) -> (r: Result<
        PromptTemplate,
        String,
    >)
        ensures
            r is Err <==> prompt_upsert_error(payload) is Some,
            r matches Err(e) ==> Some(e@) == prompt_upsert_error(payload) && *final(self)
                == *old(self),
            r matches Ok(t) ==> {
                let sv = prompts_view(old(self).prompts@);
                &&& match payload.id {
                    Some(x) => t.id@ == x@,
                    None => t.id@.len() == 41 && t.id@.take(5) == "user_"@ && is_v4_uuid(
                        t.id@.skip(5),
                    ),
                }
                &&& t@ == upserted_prompt(sv, payload, t.id@, now@)
                &&& prompts_view(final(self).prompts@) == replace_or_push(
                    sv,
                    first_index(prompt_ids(sv), t.id@),
                    t@,
                )
                &&& final(self).settings == old(self).settings
                &&& final(self).dictionary == old(self).dictionary
            },
    {
        let id = match &payload.id {
            Some(x) => x.clone(),
            None => {
                let mut c = chars_of("user_");
                let u = fresh_uuid();
                proof {
                    reveal_strlit("user_");
                }
                append_str(&mut c, u.as_str());
                assert(c@.take(5) =~= "user_"@);
                assert(c@.skip(5) =~= u@);
                string_from_chars(&c)
            },
        };
        self.upsert_prompt_with_id(payload, id, now)
    }

    /// Deletes the stored templates with identifier `id`. Identifiers that
    /// start with `builtin_` are refused and leave the store as it was.
    pub fn delete_prompt(&mut self, id: &str) -> (r: Result<(), String>)
        ensures
            starts_with_seq(id@, "builtin_"@) <==> r is Err,
            r matches Err(e) ==> e@ == builtin_delete_error() && *final(self) == *old(self),
            r is Ok ==> prompts_view(final(self).prompts@) == prompts_without(
                prompts_view(old(self).prompts@),
                id@,
            ),
            final(self).settings == old(self).settings,
            final(self).dictionary == old(self).dictionary,
    {
        let idc = chars_of(id);
        let pre = chars_of("builtin_");
        if starts_with(&idc, &pre) {
            return Err("cannot delete built-in template; use reset instead".to_string());
        }
        self.remove_prompts(&idc);
        Ok(())
    }

    fn remove_prompts(&mut self, idc: &Vec<char>)
        ensures
            prompts_view(final(self).prompts@) == prompts_without(
                prompts_view(old(self).prompts@),
                idc@,
            ),
            final(self).settings == old(self).settings,
            final(self).dictionary == old(self).dictionary,
    {
        let ghost ov = prompts_view(self.prompts@);
        let mut kept: Vec<PromptTemplate> = Vec::new();
        let mut i: usize = 0;
        while i < self.prompts.len()
            invariant
                0 <= i <= self.prompts.len(),
                ov == prompts_view(self.prompts@),
                prompts_view(kept@) == prompts_without(ov.take(i as int), idc@),
            decreases self.prompts.len() - i,
        {
            assert(ov.take(i + 1).drop_last() =~= ov.take(i as int));
            assert(ov.take(i + 1).last() == self.prompts@[i as int]@);
            let c = chars_of(self.prompts[i].id.as_str());
            if !chars_eq(&c, idc) {
                let ghost before = prompts_view(kept@);
                let t = self.prompts[i].copy();
                kept.push(t);
                assert(prompts_view(kept@) =~= before.push(t@));
            }
            i = i + 1;
        }
        assert(ov.take(self.prompts.len() as int) =~= ov);
        self.prompts = kept;
    }

    /// Resets a template to its shipped version: every stored template with
    /// identifier `id` is removed, and the shipped template with that
    /// identifier is returned, or an error when there is none (the removal
    /// happens either way).
    pub fn reset_prompt(&mut self, id: &str) -> (r: Result<PromptTemplate, String>)
        ensures
            prompts_view(final(self).prompts@) == prompts_without(
                prompts_view(old(self).prompts@),
                id@,
            ),
            final(self).settings == old(self).settings,
            final(self).dictionary == old(self).dictionary,
            match first_index(prompt_ids(builtin_templates_view()), id@) {
                Some(i) => r matches Ok(t) && t@ == builtin_templates_view()[i],
                None => r matches Err(e) && e@ == no_default_error(id@),
            },
    {
        let idc = chars_of(id);
        self.remove_prompts(&idc);
        let builtins = builtin_prompt_templates();
        proof {
            lemma_first_index(prompt_ids(builtin_templates_view()), id@, 0);
        }
        match find_prompt(&builtins, &idc) {
            Some(i) => Ok(builtins[i].copy()),
            None => {
                let mut m = chars_of("no shipped default for builtin id '");
                append_str(&mut m, id);
                append_str(&mut m, "'");
                Err(string_from_chars(&m))
            },
        }
    }

    /// Stores new settings: the recogniser prompt is cleaned and the hotkey
    /// normalised (see [`settings_for_storage`]); returns what was stored.
    pub fn update_settings(&mut self, settings: AppSettings) -> (r: AppSettings)
        ensures
            r == final(self).settings,
            r.bypass_llm == settings.bypass_llm,
            r.whisper_initial_prompt@ == stored_prompt(settings.whisper_initial_prompt@),
            r.input_device == settings.input_device,
            r.whisper_model == settings.whisper_model,
            r.dictation_hotkey@ == normalized_hotkey_id(settings.dictation_hotkey@),
            final(self).dictionary == old(self).dictionary,
            final(self).prompts == old(self).prompts,
    {
        let s = settings_for_storage(settings);
        self.settings = s.copy();
        s
    }
}

} // verus!

verus! {

// ---------------------------------------------------------------------------
// Laws of the store
// ---------------------------------------------------------------------------

proof fn lemma_builtins_shape()
    ensures
        builtin_templates_view().len() == 4,
        forall|i: int|
            0 <= i < 4 ==> (#[trigger] builtin_templates_view()[i]).order_idx == i
                && builtin_templates_view()[i].id == builtin_id(builtin_table()[i].0)
                && builtin_templates_view()[i].is_builtin,
        forall|i: int, j: int|
            0 <= i < j < 4 ==> (#[trigger] builtin_templates_view()[i]).id
                != (#[trigger] builtin_templates_view()[j]).id,
{
    reveal_strlit("builtin_");
    reveal_strlit("ja_keigo");
    reveal_strlit("en_business");
    reveal_strlit("ja_agent_task");
    reveal_strlit("en_agent_task");
    let b = builtin_templates_view();
    let t = builtin_table();
    assert(t[0].0[0] == 'j' && t[1].0[0] == 'e' && t[2].0[0] == 'j' && t[3].0[0] == 'e');
    assert(t[0].0.len() == 8 && t[1].0.len() == 11 && t[2].0.len() == 13 && t[3].0.len() == 13);
    assert(t[1].0[1] == 'n' && t[3].0[1] == 'n' && t[1].0[3] == 'b' && t[3].0[3] == 'a');
    assert forall|i: int, j: int| 0 <= i < j < 4 implies (#[trigger] b[i]).id != (#[trigger] b[j]).id by {
        if b[i].id == b[j].id {
            assert(b[i].id.skip(8) =~= t[i].0);
            assert(b[j].id.skip(8) =~= t[j].0);
            if i == 0 && j == 2 {
                assert(t[i].0.len() != t[j].0.len());
            } else if i == 1 && j == 3 {
                assert(t[i].0[3] != t[j].0[3]);
            } else if i == 0 && j == 1 {
                assert(t[i].0[0] != t[j].0[0]);
            } else if i == 0 && j == 3 {
                assert(t[i].0[0] != t[j].0[0]);
            } else if i == 1 && j == 2 {
                assert(t[i].0[0] != t[j].0[0]);
            } else {
                assert(t[i].0[0] != t[j].0[0]);
            }
        }
    }
}

proof fn lemma_first_index_at(ids: Seq<Seq<char>>, id: Seq<char>, i: int)
    requires
        0 <= i < ids.len(),
        ids[i] == id,
        forall|j: int| 0 <= j < ids.len() && j != i ==> ids[j] != id,
    ensures
        first_index(ids, id) == Some(i),
{
    lemma_first_index(ids, id, 0);
}

/// `permuted(s, p)` for a permutation `p` of `s`'s positions has `s`'s
/// length and holds each of `s`'s elements.
proof fn lemma_permuted_holds<A>(s: Seq<A>, p: Seq<int>, k: int)
    requires
        is_permutation(p, s.len() as int),
        0 <= k < s.len(),
    ensures
        permuted(s, p).len() == s.len(),
        permuted(s, p).contains(s[k]),
{
    crate::order::lemma_permutation_onto(p, s.len() as int, k);
    let j = choose|j: int| 0 <= j < s.len() && p[j] == k;
    assert(permuted(s, p)[j] == s[k]);
}

proof fn lemma_merged_keeps_builtin(stored: Seq<PromptTemplateView>, i: int)
    requires
        0 <= i < 4,
        forall|k: int| 0 <= k < stored.len() ==> (#[trigger] stored[k]).id
            != builtin_templates_view()[i].id,
    ensures
        merged_prompts(stored).len() >= 4,
        merged_prompts(stored)[i] == builtin_templates_view()[i],
    decreases stored.len(),
{
    lemma_builtins_shape();
    if stored.len() > 0 {
        let rest = stored.drop_last();
        assert forall|k: int| 0 <= k < rest.len() implies (#[trigger] rest[k]).id
            != builtin_templates_view()[i].id by {
            assert(rest[k] == stored[k]);
        }
        lemma_merged_keeps_builtin(rest, i);
        let m = merged_prompts(rest);
        let last = stored.last();
        assert(last == stored[stored.len() - 1]);
        lemma_first_index(prompt_ids(m), last.id, 0);
        match first_index(prompt_ids(m), last.id) {
            Some(k) => {
                assert(prompt_ids(m)[k] == m[k].id);
                assert(prompt_ids(m)[i] == m[i].id);
            },
            None => {},
        }
    }
}

proof fn lemma_prompts_without(s: Seq<PromptTemplateView>, id: Seq<char>)
    ensures
        forall|k: int| 0 <= k < prompts_without(s, id).len() ==> (#[trigger] prompts_without(s, id)[k]).id != id,
        forall|k: int| 0 <= k < s.len() && s[k].id != id ==> prompts_without(s, id).contains(#[trigger] s[k]),
    decreases s.len(),
{
    if s.len() > 0 {
        let rest = s.drop_last();
        lemma_prompts_without(rest, id);
        let r = prompts_without(rest, id);
        assert forall|k: int| 0 <= k < s.len() && s[k].id != id implies prompts_without(s, id).contains(#[trigger] s[k]) by {
            if k < s.len() - 1 {
                assert(rest[k] == s[k]);
                assert(r.contains(rest[k]));
                let j = choose|j: int| 0 <= j < r.len() && r[j] == rest[k];
                if s.last().id != id {
                    assert(r.push(s.last())[j] == s[k]);
                }
            } else {
                assert(r.push(s.last())[r.len() as int] == s[k]);
            }
        }
    }
}

proof fn lemma_entries_without(s: Seq<DictionaryEntryView>, id: Seq<char>)
    ensures
        forall|k: int| 0 <= k < entries_without(s, id).len() ==> (#[trigger] entries_without(s, id)[k]).id != id,
        forall|k: int| 0 <= k < s.len() && s[k].id != id ==> entries_without(s, id).contains(#[trigger] s[k]),
    decreases s.len(),
{
    if s.len() > 0 {
        let rest = s.drop_last();
        lemma_entries_without(rest, id);
        let r = entries_without(rest, id);
        assert forall|k: int| 0 <= k < s.len() && s[k].id != id implies entries_without(s, id).contains(#[trigger] s[k]) by {
            if k < s.len() - 1 {
                assert(rest[k] == s[k]);
                assert(r.contains(rest[k]));
                let j = choose|j: int| 0 <= j < r.len() && r[j] == rest[k];
                if s.last().id != id {
                    assert(r.push(s.last())[j] == s[k]);
                }
            } else {
                assert(r.push(s.last())[r.len() as int] == s[k]);
            }
        }
    }
}

/// A store with no stored templates lists exactly the shipped templates, in
/// their display order.
pub proof fn law_empty_store_lists_shipped_templates()
    ensures
        listed_prompts(Seq::empty()) == builtin_templates_view(),
{
    lemma_builtins_shape();
    let m = merged_prompts(Seq::<PromptTemplateView>::empty());
    let keys = prompt_keys(m);
    assert forall|i: int, j: int| 0 <= i < j < keys.len() implies #[trigger] keys[i].0 < #[trigger] keys[j].0 by {
        assert(keys[i].0 == m[i].order_idx);
        assert(keys[j].0 == m[j].order_idx);
    }
    lemma_increasing_keys_sorted(keys);
    assert(permuted(m, identity_positions(keys.len() as int)) =~= m);
}

/// A stored copy of a shipped template takes the shipped one's place in the
/// listing: it shows the stored name, label, body, language and update time,
/// but stays built-in and keeps the shipped position and creation time.
pub proof fn law_override_keeps_builtin_metadata(i: int, p: PromptTemplateView)
    requires
        0 <= i < builtin_templates_view().len(),
        p.id == builtin_templates_view()[i].id,
    ensures
        listed_prompts(seq![p]) == builtin_templates_view().update(
            i,
            PromptTemplateView {
                is_builtin: true,
                order_idx: i,
                created_at: fallback_timestamp_view(),
                ..p
            },
        ),
{
    lemma_builtins_shape();
    let b = builtin_templates_view();
    let stored = seq![p];
    assert(stored.drop_last() =~= Seq::<PromptTemplateView>::empty());
    assert(stored.last() == p);
    assert(merged_prompts(Seq::<PromptTemplateView>::empty()) == b);
    let ids = prompt_ids(b);
    assert forall|j: int| 0 <= j < ids.len() && j != i implies ids[j] != p.id by {
        assert(ids[j] == b[j].id);
        if j < i {
            assert(b[j].id != b[i].id);
        } else {
            assert(b[i].id != b[j].id);
        }
    }
    assert(ids[i] == b[i].id);
    lemma_first_index_at(ids, p.id, i);
    let expected = b.update(
        i,
        PromptTemplateView {
            is_builtin: true,
            order_idx: i,
            created_at: fallback_timestamp_view(),
            ..p
        },
    );
    assert(merged_prompts(stored) == expected);
    let keys = prompt_keys(expected);
    assert forall|a: int, c: int| 0 <= a < c < keys.len() implies #[trigger] keys[a].0 < #[trigger] keys[c].0 by {
        assert(keys[a].0 == expected[a].order_idx);
        assert(keys[c].0 == expected[c].order_idx);
    }
    lemma_increasing_keys_sorted(keys);
    assert(permuted(expected, identity_positions(keys.len() as int)) =~= expected);
}

/// Resetting a shipped template brings it back: once no stored template has
/// its identifier, the listing shows the shipped template unchanged, whatever
/// else is stored.
pub proof fn law_reset_restores_shipped_template(stored: Seq<PromptTemplateView>, i: int)
    requires
        0 <= i < builtin_templates_view().len(),
    ensures
        listed_prompts(prompts_without(stored, builtin_templates_view()[i].id)).contains(
            builtin_templates_view()[i],
        ),
{
    lemma_builtins_shape();
    let id = builtin_templates_view()[i].id;
    let kept = prompts_without(stored, id);
    lemma_prompts_without(stored, id);
    lemma_merged_keeps_builtin(kept, i);
    let m = merged_prompts(kept);
    crate::order::lemma_stable_sort_exists(prompt_keys(m));
    lemma_permuted_holds(m, stable_sort_of(prompt_keys(m)), i);
}

/// Deleting a template removes every stored template with that identifier
/// and keeps every other one.
pub proof fn law_delete_prompt_removes_only_that_id(s: Seq<PromptTemplateView>, id: Seq<char>)
    ensures
        forall|k: int| 0 <= k < prompts_without(s, id).len() ==> (#[trigger] prompts_without(s, id)[k]).id != id,
        forall|k: int| 0 <= k < s.len() && s[k].id != id ==> prompts_without(s, id).contains(#[trigger] s[k]),
{
    lemma_prompts_without(s, id);
}

/// Deleting a dictionary entry removes every entry with that identifier and
/// keeps every other one.
pub proof fn law_delete_entry_removes_only_that_id(s: Seq<DictionaryEntryView>, id: Seq<char>)
    ensures
        forall|k: int| 0 <= k < entries_without(s, id).len() ==> (#[trigger] entries_without(s, id)[k]).id != id,
        forall|k: int| 0 <= k < s.len() && s[k].id != id ==> entries_without(s, id).contains(#[trigger] s[k]),
{
    lemma_entries_without(s, id);
}

/// After an upsert the dictionary holds the upserted entry and every entry
/// it held before except the one the upsert replaced; it grows by one
/// exactly when no entry had the identifier.
pub proof fn law_upsert_entry_then_present(
    list: Seq<DictionaryEntryView>,
    payload: DictionaryUpsert,
    id: Seq<char>,
    now: Seq<char>,
)
    ensures
        sorted_by_term(upserted_dictionary(list, payload, id, now)).contains(
            upserted_entry(list, payload, id, now),
        ),
        sorted_by_term(upserted_dictionary(list, payload, id, now)).len() == list.len() + (
        if first_index(entry_ids(list), id) is None {
            1int
        } else {
            0int
        }),
        forall|k: int|
            0 <= k < list.len() && first_index(entry_ids(list), id) != Some(k)
                ==> sorted_by_term(upserted_dictionary(list, payload, id, now)).contains(
                #[trigger] list[k],
            ),
{
    let u = upserted_dictionary(list, payload, id, now);
    let e = upserted_entry(list, payload, id, now);
    let q = stable_sort_of(term_keys(u));
    crate::order::lemma_stable_sort_exists(term_keys(u));
    lemma_first_index(entry_ids(list), id, 0);
    let pos = first_index(entry_ids(list), id);
    let epos = match pos {
        Some(k) => k,
        None => list.len() as int,
    };
    assert(u[epos] == e);
    lemma_permuted_holds(u, q, epos);
    assert forall|k: int|
        0 <= k < list.len() && first_index(entry_ids(list), id) != Some(k) implies sorted_by_term(
        u,
    ).contains(#[trigger] list[k]) by {
        assert(u[k] == list[k]);
        lemma_permuted_holds(u, q, k);
    }
}

/// The listing holds every template of the merged list once and is sorted
/// by position, then name: no template is listed after one it sorts before.
pub proof fn law_listing_is_sorted(stored: Seq<PromptTemplateView>)
    ensures
        listed_prompts(stored).len() == merged_prompts(stored).len(),
        forall|k: int|
            0 <= k < merged_prompts(stored).len() ==> listed_prompts(stored).contains(
                #[trigger] merged_prompts(stored)[k],
            ),
        forall|i: int, j: int|
            0 <= i < j < listed_prompts(stored).len() ==> !crate::order::key_lt(
                (listed_prompts(stored)[j].order_idx, listed_prompts(stored)[j].name),
                (listed_prompts(stored)[i].order_idx, listed_prompts(stored)[i].name),
            ),
{
    let m = merged_prompts(stored);
    let keys = prompt_keys(m);
    let q = stable_sort_of(keys);
    crate::order::lemma_stable_sort_exists(keys);
    assert forall|k: int| 0 <= k < m.len() implies listed_prompts(stored).contains(
        #[trigger] m[k],
    ) by {
        lemma_permuted_holds(m, q, k);
    }
    if m.len() > 0 {
        lemma_permuted_holds(m, q, 0);
    }
    let r = listed_prompts(stored);
    assert forall|i: int, j: int| 0 <= i < j < r.len() implies !crate::order::key_lt(
        (r[j].order_idx, r[j].name),
        (r[i].order_idx, r[i].name),
    ) by {
        assert(crate::order::idx_lt(keys, q[i], q[j]));
        assert(keys[q[i]] == (r[i].order_idx, r[i].name));
        assert(keys[q[j]] == (r[j].order_idx, r[j].name));
        crate::order::lemma_key_lt_facts(keys[q[i]], keys[q[j]], keys[q[i]]);
        crate::order::lemma_key_lt_facts(keys[q[j]], keys[q[i]], keys[q[j]]);
    }
}

/// The stored dictionary is sorted by term: no entry comes after one whose
/// term sorts before its own.
pub proof fn law_dictionary_is_sorted_by_term(s: Seq<DictionaryEntryView>)
    ensures
        sorted_by_term(s).len() == s.len(),
        forall|i: int, j: int|
            0 <= i < j < sorted_by_term(s).len() ==> !crate::order::str_lt(
                sorted_by_term(s)[j].term,
                sorted_by_term(s)[i].term,
            ),
{
    let keys = term_keys(s);
    let q = stable_sort_of(keys);
    crate::order::lemma_stable_sort_exists(keys);
    if s.len() > 0 {
        lemma_permuted_holds(s, q, 0);
    }
    let r = sorted_by_term(s);
    assert forall|i: int, j: int| 0 <= i < j < r.len() implies !crate::order::str_lt(
        r[j].term,
        r[i].term,
    ) by {
        assert(crate::order::idx_lt(keys, q[i], q[j]));
        assert(keys[q[i]] == (0int, r[i].term));
        assert(keys[q[j]] == (0int, r[j].term));
        crate::order::lemma_key_lt_facts(keys[q[i]], keys[q[j]], keys[q[i]]);
        crate::order::lemma_key_lt_facts(keys[q[j]], keys[q[i]], keys[q[j]]);
    }
}

/// Updating a template keeps its creation time: when some stored template
/// has identifier `id`, the upserted template carries the creation time of
/// the first stored one with that identifier. A template stored for the
/// first time takes the shipped template's creation time when `id` names
/// one, else `now`. Its update time is always `now`.
pub proof fn law_prompt_update_keeps_creation_time(
    stored: Seq<PromptTemplateView>,
    payload: PromptTemplateUpsert,
    id: Seq<char>,
    now: Seq<char>,
)
    ensures
        forall|k: int|
            0 <= k < stored.len() && (#[trigger] stored[k]).id == id && (forall|j: int|
                0 <= j < k ==> stored[j].id != id) ==> upserted_prompt(stored, payload, id, now).created_at
                == stored[k].created_at,
        (forall|j: int| 0 <= j < stored.len() ==> stored[j].id != id) ==> forall|i: int|
            0 <= i < builtin_templates_view().len() && (#[trigger] builtin_templates_view()[i]).id == id
                && (forall|j: int| 0 <= j < i ==> builtin_templates_view()[j].id != id)
                ==> upserted_prompt(stored, payload, id, now).created_at
                == builtin_templates_view()[i].created_at,
        (forall|j: int| 0 <= j < stored.len() ==> stored[j].id != id) && (forall|j: int|
            0 <= j < builtin_templates_view().len() ==> builtin_templates_view()[j].id != id)
            ==> upserted_prompt(stored, payload, id, now).created_at == now,
        upserted_prompt(stored, payload, id, now).updated_at == now,
{
    let ids = prompt_ids(stored);
    let bids = prompt_ids(builtin_templates_view());
    lemma_first_index(ids, id, 0);
    lemma_first_index(bids, id, 0);
    assert forall|k: int|
        0 <= k < stored.len() && (#[trigger] stored[k]).id == id && (forall|j: int|
            0 <= j < k ==> stored[j].id != id) implies upserted_prompt(stored, payload, id, now).created_at
        == stored[k].created_at by {
        assert(ids[k] == id);
        match first_index(ids, id) {
            Some(m) => {
                assert(ids[m] == stored[m].id);
                if m < k {
                    assert(stored[m].id != id);
                }
                if m > k {
                    assert(ids[k] != id);
                }
            },
            None => {
                assert(ids[k] != id);
            },
        }
    }
    if forall|j: int| 0 <= j < stored.len() ==> stored[j].id != id {
        assert(first_index(ids, id) is None) by {
            if let Some(m) = first_index(ids, id) {
                assert(ids[m] == stored[m].id);
            }
        }
        assert forall|i: int|
            0 <= i < builtin_templates_view().len() && (#[trigger] builtin_templates_view()[i]).id == id
                && (forall|j: int| 0 <= j < i ==> builtin_templates_view()[j].id != id)
                implies upserted_prompt(stored, payload, id, now).created_at
                == builtin_templates_view()[i].created_at by {
            assert(bids[i] == id);
            match first_index(bids, id) {
                Some(m) => {
                    assert(bids[m] == builtin_templates_view()[m].id);
                    if m < i {
                        assert(builtin_templates_view()[m].id != id);
                    }
                    if m > i {
                        assert(bids[i] != id);
                    }
                },
                None => {
                    assert(bids[i] != id);
                },
            }
        }
        if forall|j: int| 0 <= j < builtin_templates_view().len() ==> builtin_templates_view()[j].id != id {
            assert(first_index(bids, id) is None) by {
                if let Some(m) = first_index(bids, id) {
                    assert(bids[m] == builtin_templates_view()[m].id);
                }
            }
        }
    }
}

/// Saving a template twice under one identifier keeps the creation time of
/// the first save: the second save returns the first one's creation time
/// and the second one's time as update time.
pub proof fn law_prompt_resave_keeps_first_creation_time(
    stored: Seq<PromptTemplateView>,
    first: PromptTemplateUpsert,
    second: PromptTemplateUpsert,
    id: Seq<char>,
    t1: Seq<char>,
    t2: Seq<char>,
)
    ensures
        ({
            let saved = upserted_prompt(stored, first, id, t1);
            let after = replace_or_push(stored, first_index(prompt_ids(stored), id), saved);
            &&& upserted_prompt(after, second, id, t2).created_at == saved.created_at
            &&& upserted_prompt(after, second, id, t2).updated_at == t2
        }),
{
    let saved = upserted_prompt(stored, first, id, t1);
    let ids = prompt_ids(stored);
    let after = replace_or_push(stored, first_index(ids, id), saved);
    let aids = prompt_ids(after);
    lemma_first_index(ids, id, 0);
    lemma_first_index(aids, id, 0);
    let pos = match first_index(ids, id) {
        Some(k) => k,
        None => stored.len() as int,
    };
    assert(after[pos] == saved);
    assert(aids[pos] == id);
    assert forall|j: int| 0 <= j < pos implies aids[j] != id by {
        assert(after[j] == stored[j]);
        assert(ids[j] == stored[j].id);
    }
    match first_index(aids, id) {
        Some(m) => {
            if m > pos {
                assert(aids[pos] != id);
            }
        },
        None => {
            assert(aids[pos] != id);
        },
    }
}

/// Updating a dictionary entry keeps its creation time: when some entry
/// has identifier `id`, the upserted entry carries the creation time of the
/// first one with that identifier; a new entry is created at `now`. Its
/// update time is always `now`.
pub proof fn law_entry_update_keeps_creation_time(
    list: Seq<DictionaryEntryView>,
    payload: DictionaryUpsert,
    id: Seq<char>,
    now: Seq<char>,
)
    ensures
        forall|k: int|
            0 <= k < list.len() && (#[trigger] list[k]).id == id && (forall|j: int|
                0 <= j < k ==> list[j].id != id) ==> upserted_entry(list, payload, id, now).created_at
                == list[k].created_at,
        (forall|j: int| 0 <= j < list.len() ==> list[j].id != id) ==> upserted_entry(
            list,
            payload,
            id,
            now,
        ).created_at == now,
        upserted_entry(list, payload, id, now).updated_at == now,
{
    let ids = entry_ids(list);
    lemma_first_index(ids, id, 0);
    assert forall|k: int|
        0 <= k < list.len() && (#[trigger] list[k]).id == id && (forall|j: int|
            0 <= j < k ==> list[j].id != id) implies upserted_entry(list, payload, id, now).created_at
        == list[k].created_at by {
        assert(ids[k] == id);
        match first_index(ids, id) {
            Some(m) => {
                assert(ids[m] == list[m].id);
                if m < k {
                    assert(list[m].id != id);
                }
                if m > k {
                    assert(ids[k] != id);
                }
            },
            None => {
                assert(ids[k] != id);
            },
        }
    }
    if forall|j: int| 0 <= j < list.len() ==> list[j].id != id {
        assert(first_index(ids, id) is None) by {
            if let Some(m) = first_index(ids, id) {
                assert(ids[m] == list[m].id);
            }
        }
    }
}

} // verus!
