//! Persistent record types, the application settings row and its rules, and
//! the timestamp format that stored rows carry.

use vstd::prelude::*;
use crate::hotkey::{normalize_dictation_hotkey_id, normalized_hotkey_id, DEFAULT_DICTATION_HOTKEY_ID};
use crate::keystore::SecretKey;
use crate::text::{
    chars_of, hex_seq, remove_nul_seq, remove_nul_take, string_from_chars, take_at_most,
};

verus! {

broadcast use vstd::string::group_string_axioms;

/// One ASR transcript.
#[derive(Debug, Clone)]
pub struct TranscriptRecord {
    pub id: String,
    pub session_id: String,
    pub text: String,
    pub language: Option<String>,
    pub created_at: String,
}

/// One LLM rewrite of a transcript.
#[derive(Debug, Clone)]
pub struct RewriteRecord {
    pub id: String,
    pub session_id: String,
    pub input_text: String,
    pub output_text: String,
    pub model: String,
    pub template: String,
    pub created_at: String,
}

/// A custom-vocabulary entry.
#[derive(Debug, Clone)]
pub struct DictionaryEntry {
    pub id: String,
    pub term: String,
    pub reading: Option<String>,
    /// Common ASR misrecognitions that stand for `term`.
    pub aliases: Vec<String>,
    /// Free-form, e.g. "person", "company", "tech", "phrase".
    pub category: Option<String>,
    pub notes: Option<String>,
    pub created_at: String,
    pub updated_at: String,
}

/// A request to create (`id == None`) or update a dictionary entry.
#[derive(Debug, Clone)]
pub struct DictionaryUpsert {
    pub id: Option<String>,
    pub term: String,
    pub reading: Option<String>,
    pub aliases: Vec<String>,
    pub category: Option<String>,
    pub notes: Option<String>,
}

/// A rewrite prompt template.
#[derive(Debug, Clone)]
pub struct PromptTemplate {
    pub id: String,
    /// Stable, slug-style identifier (e.g. "ja_keigo").
    pub name: String,
    /// Display label.
    pub label: String,
    pub body: String,
    pub language: String,
    pub is_builtin: bool,
    pub order_idx: i32,
    pub created_at: String,
    pub updated_at: String,
}

/// A request to create (`id == None`) or update a prompt template.
#[derive(Debug, Clone)]
pub struct PromptTemplateUpsert {
    pub id: Option<String>,
    pub name: String,
    pub label: String,
    pub body: String,
    pub language: String,
}

/// The single row of global application settings.
#[derive(Debug, Clone)]
pub struct AppSettings {
    /// Skip the LLM rewrite; the raw transcript goes straight to injection.
    pub bypass_llm: bool,
    /// Vocabulary-biasing prompt handed to the recogniser.
    pub whisper_initial_prompt: String,
    /// Selected input device; `None` is the system default.
    pub input_device: Option<String>,
    /// Whisper model identifier: "small", "medium", "large-v3-turbo".
    pub whisper_model: String,
    /// Hotkey preset that toggles recording.
    pub dictation_hotkey: String,
}

/// The view of an optional string.
pub open spec fn opt_view(o: Option<String>) -> Option<Seq<char>> {
    match o {
        Some(s) => Some(s@),
        None => None,
    }
}

/// The views of a list of strings.
pub open spec fn strs_view(v: Vec<String>) -> Seq<Seq<char>> {
    v@.map_values(|s: String| s@)
}

/// The preset identifier used when none is configured.
pub fn default_dictation_hotkey() -> (r: String)
    ensures
        r@ == DEFAULT_DICTATION_HOTKEY_ID@,
{
    DEFAULT_DICTATION_HOTKEY_ID.to_string()
}

impl Default for AppSettings {
    fn default() -> (r: Self)
        ensures
            r.bypass_llm,
            r.whisper_initial_prompt@ == Seq::<char>::empty(),
            r.input_device is None,
            r.whisper_model@ == "small"@,
            r.dictation_hotkey@ == DEFAULT_DICTATION_HOTKEY_ID@,
    {
        AppSettings {
            bypass_llm: true,
            whisper_initial_prompt: String::new(),
            input_device: None,
            whisper_model: "small".to_string(),
            dictation_hotkey: default_dictation_hotkey(),
        }
    }
}

/// Most characters of the recogniser prompt that are kept.
pub const MAX_INITIAL_PROMPT_CHARS: usize = 700;

/// The recogniser prompt as stored: NUL characters dropped (the recogniser
/// cannot take them), then cut to [`MAX_INITIAL_PROMPT_CHARS`] characters.
pub open spec fn stored_prompt(p: Seq<char>) -> Seq<char> {
    take_at_most(remove_nul_seq(p), MAX_INITIAL_PROMPT_CHARS as nat)
}

/// A stored recogniser prompt holds no NUL character and at most
/// [`MAX_INITIAL_PROMPT_CHARS`] characters, and storing it again keeps it as
/// it is.
pub proof fn law_stored_prompt_is_clean(p: Seq<char>)
    ensures
        forall|k: int| 0 <= k < stored_prompt(p).len() ==> #[trigger] stored_prompt(p)[k] != '\0',
        stored_prompt(p).len() <= MAX_INITIAL_PROMPT_CHARS,
        stored_prompt(stored_prompt(p)) == stored_prompt(p),
{
    let r = remove_nul_seq(p);
    crate::text::lemma_remove_nul(p);
    let s = stored_prompt(p);
    assert forall|k: int| 0 <= k < s.len() implies #[trigger] s[k] != '\0' by {
        assert(s[k] == r[k]);
    }
    crate::text::lemma_remove_nul(s);
}

/// Cleans a recogniser prompt for storage (see [`stored_prompt`]).
pub fn sanitize_initial_prompt(p: &str) -> (r: String)
    ensures
        r@ == stored_prompt(p@),
{
    let cs = chars_of(p);
    let kept = remove_nul_take(&cs, MAX_INITIAL_PROMPT_CHARS);
    string_from_chars(&kept)
}

/// The `LIKE` pattern of a history search: the query between two `%`.
pub fn search_pattern(query: &str) -> (r: String)
    ensures
        r@ == "%"@ + query@ + "%"@,
{
    let mut c = chars_of("%");
    crate::text::append_str(&mut c, query);
    crate::text::append_str(&mut c, "%");
    string_from_chars(&c)
}

/// The value of the database's `PRAGMA key`: the key's hex digits as an SQL
/// blob literal, `x'…'`.
pub fn key_pragma(key: &SecretKey) -> (r: String)
    ensures
        r@ == "x'"@ + hex_seq(key.0@) + "'"@,
{
    let mut c = chars_of("x'");
    let h = key.as_hex();
    crate::text::append_str(&mut c, h.as_str());
    crate::text::append_str(&mut c, "'");
    string_from_chars(&c)
}

/// The settings columns that later schema versions add, in order: column
/// name and the statements that add it and record the version.
pub open spec fn settings_migrations() -> Seq<(Seq<char>, Seq<char>)> {
    seq![
        ("input_device"@, ADD_INPUT_DEVICE@),
        ("whisper_model"@, ADD_WHISPER_MODEL@),
        ("dictation_hotkey"@, ADD_DICTATION_HOTKEY@),
    ]
}

/// Adds the input-device column (schema version 4).
pub const ADD_INPUT_DEVICE: &'static str = "ALTER TABLE app_settings ADD COLUMN input_device TEXT DEFAULT NULL;\n INSERT OR IGNORE INTO schema_version (version) VALUES (4);";

/// Adds the recogniser-model column (schema version 5).
pub const ADD_WHISPER_MODEL: &'static str = "ALTER TABLE app_settings ADD COLUMN whisper_model TEXT NOT NULL DEFAULT 'small';\n INSERT OR IGNORE INTO schema_version (version) VALUES (5);";

/// Adds the hotkey column (schema version 6).
pub const ADD_DICTATION_HOTKEY: &'static str = "ALTER TABLE app_settings ADD COLUMN dictation_hotkey TEXT NOT NULL DEFAULT 'primary_d';\n INSERT OR IGNORE INTO schema_version (version) VALUES (6);";

/// The statements of the first `k` migrations whose column is not among
/// `existing`, in order.
pub open spec fn pending_migrations(existing: Seq<Seq<char>>, k: int) -> Seq<Seq<char>>
    decreases k,
{
    if k <= 0 {
        Seq::empty()
    } else {
        let rest = pending_migrations(existing, k - 1);
        let m = settings_migrations()[k - 1];
        if existing.contains(m.0) {
            rest
        } else {
            rest.push(m.1)
        }
    }
}

/// The statements that bring the settings table up to date, given the names
/// of its columns: one per later column that is missing, in schema order.
pub fn settings_migrations_needed(existing: &Vec<String>) -> (r: Vec<&'static str>)
    ensures
        r@.map_values(|s: &str| s@) == pending_migrations(strs_view(*existing), 3),
{
    let table: Vec<(&'static str, &'static str)> = vec![
        ("input_device", ADD_INPUT_DEVICE),
        ("whisper_model", ADD_WHISPER_MODEL),
        ("dictation_hotkey", ADD_DICTATION_HOTKEY),
    ];
    let ghost ev = strs_view(*existing);
    let mut out: Vec<&'static str> = Vec::new();
    let mut k: usize = 0;
    while k < 3
        invariant
            0 <= k <= 3,
            table@.len() == 3,
            forall|j: int| 0 <= j < 3 ==> (#[trigger] table@[j]).0@ == settings_migrations()[j].0
                && table@[j].1@ == settings_migrations()[j].1,
            ev == strs_view(*existing),
            out@.map_values(|s: &str| s@) == pending_migrations(ev, k as int),
        decreases 3 - k,
    {
        let (name, stmt) = table[k];
        let mut present = false;
        let mut i: usize = 0;
        while i < existing.len()
            invariant
                0 <= i <= existing.len(),
                ev == strs_view(*existing),
                present == exists|j: int| 0 <= j < i && ev[j] == name@,
            decreases existing.len() - i,
        {
            assert(ev[i as int] == existing@[i as int]@);
            if crate::text::str_eq(existing[i].as_str(), name) {
                present = true;
            }
            i = i + 1;
        }
        assert(present == ev.contains(name@));
        if !present {
            let ghost before = out@.map_values(|s: &str| s@);
            out.push(stmt);
            assert(out@.map_values(|s: &str| s@) =~= before.push(stmt@));
        }
        k = k + 1;
    }
    out
}

/// Settings as they are stored: the prompt cleaned and the hotkey normalised,
/// every other field as given.
pub fn settings_for_storage(s: AppSettings) -> (r: AppSettings)
    ensures
        r.bypass_llm == s.bypass_llm,
        r.whisper_initial_prompt@ == stored_prompt(s.whisper_initial_prompt@),
        r.input_device == s.input_device,
        r.whisper_model == s.whisper_model,
        r.dictation_hotkey@ == normalized_hotkey_id(s.dictation_hotkey@),
{
    let prompt = sanitize_initial_prompt(s.whisper_initial_prompt.as_str());
    let hotkey = normalize_dictation_hotkey_id(s.dictation_hotkey.as_str());
    AppSettings {
        bypass_llm: s.bypass_llm,
        whisper_initial_prompt: prompt,
        input_device: s.input_device,
        whisper_model: s.whisper_model,
        dictation_hotkey: hotkey,
    }
}

/// Settings as read back from a stored row: the hotkey is normalised, so a
/// row written by an older build never selects an unknown preset.
pub fn settings_from_row(
    bypass_llm: bool,
    whisper_initial_prompt: String,
    input_device: Option<String>,
    whisper_model: String,
    dictation_hotkey: &str,
) -> (r: AppSettings)
    ensures
        r.bypass_llm == bypass_llm,
        r.whisper_initial_prompt == whisper_initial_prompt,
        r.input_device == input_device,
        r.whisper_model == whisper_model,
        r.dictation_hotkey@ == normalized_hotkey_id(dictation_hotkey@),
{
    AppSettings {
        bypass_llm,
        whisper_initial_prompt,
        input_device,
        whisper_model,
        dictation_hotkey: normalize_dictation_hotkey_id(dictation_hotkey),
    }
}

} // verus!

verus! {

/// The contents of a [`DictionaryEntry`].
pub struct DictionaryEntryView {
    pub id: Seq<char>,
    pub term: Seq<char>,
    pub reading: Option<Seq<char>>,
    pub aliases: Seq<Seq<char>>,
    pub category: Option<Seq<char>>,
    pub notes: Option<Seq<char>>,
    pub created_at: Seq<char>,
    pub updated_at: Seq<char>,
}

impl View for DictionaryEntry {
    type V = DictionaryEntryView;

    open spec fn view(&self) -> DictionaryEntryView {
        DictionaryEntryView {
            id: self.id@,
            term: self.term@,
            reading: opt_view(self.reading),
            aliases: strs_view(self.aliases),
            category: opt_view(self.category),
            notes: opt_view(self.notes),
            created_at: self.created_at@,
            updated_at: self.updated_at@,
        }
    }
}

/// The contents of a [`PromptTemplate`].
pub struct PromptTemplateView {
    pub id: Seq<char>,
    pub name: Seq<char>,
    pub label: Seq<char>,
    pub body: Seq<char>,
    pub language: Seq<char>,
    pub is_builtin: bool,
    pub order_idx: int,
    pub created_at: Seq<char>,
    pub updated_at: Seq<char>,
}

impl View for PromptTemplate {
    type V = PromptTemplateView;

    open spec fn view(&self) -> PromptTemplateView {
        PromptTemplateView {
            id: self.id@,
            name: self.name@,
            label: self.label@,
            body: self.body@,
            language: self.language@,
            is_builtin: self.is_builtin,
            order_idx: self.order_idx as int,
            created_at: self.created_at@,
            updated_at: self.updated_at@,
        }
    }
}

/// The views of a list of dictionary entries.
pub open spec fn entries_view(v: Seq<DictionaryEntry>) -> Seq<DictionaryEntryView> {
    v.map_values(|e: DictionaryEntry| e@)
}

/// The views of a list of prompt templates.
pub open spec fn prompts_view(v: Seq<PromptTemplate>) -> Seq<PromptTemplateView> {
    v.map_values(|p: PromptTemplate| p@)
}

/// A copy of a list of strings.
pub fn copy_strings(v: &Vec<String>) -> (r: Vec<String>)
    ensures
        strs_view(r) == strs_view(*v),
{
    let mut r: Vec<String> = Vec::new();
    let mut i: usize = 0;
    while i < v.len()
        invariant
            0 <= i <= v.len(),
            strs_view(r) == strs_view(*v).take(i as int),
        decreases v.len() - i,
    {
        let s = v[i].clone();
        assert(s@ == v@[i as int]@);
        let ghost before = strs_view(r);
        r.push(s);
        assert(strs_view(r) =~= before.push(s@));
        assert(strs_view(r) =~= strs_view(*v).take(i + 1));
        i = i + 1;
    }
    assert(strs_view(*v).take(v.len() as int) =~= strs_view(*v));
    r
}

/// A copy of an optional string.
pub fn copy_opt(o: &Option<String>) -> (r: Option<String>)
    ensures
        r == *o,
{
    match o {
        Some(s) => Some(s.clone()),
        None => None,
    }
}

impl DictionaryEntry {
    /// A copy of this entry.
    pub fn copy(&self) -> (r: DictionaryEntry)
        ensures
            r@ == self@,
    {
        DictionaryEntry {
            id: self.id.clone(),
            term: self.term.clone(),
            reading: copy_opt(&self.reading),
            aliases: copy_strings(&self.aliases),
            category: copy_opt(&self.category),
            notes: copy_opt(&self.notes),
            created_at: self.created_at.clone(),
            updated_at: self.updated_at.clone(),
        }
    }
}

impl PromptTemplate {
    /// A copy of this template.
    pub fn copy(&self) -> (r: PromptTemplate)
        ensures
            r@ == self@,
            r == *self,
    {
        PromptTemplate {
            id: self.id.clone(),
            name: self.name.clone(),
            label: self.label.clone(),
            body: self.body.clone(),
            language: self.language.clone(),
            is_builtin: self.is_builtin,
            order_idx: self.order_idx,
            created_at: self.created_at.clone(),
            updated_at: self.updated_at.clone(),
        }
    }
}

} // verus!

verus! {

/// A lowercase hex digit.
pub open spec fn is_lower_hex_char(c: char) -> bool {
    ('0' <= c && c <= '9') || ('a' <= c && c <= 'f')
}

/// The hyphenated form of a UUID: 36 characters, hyphens at positions 8, 13,
/// 18 and 23, lowercase hex digits elsewhere.
pub open spec fn is_hyphenated_uuid(s: Seq<char>) -> bool {
    &&& s.len() == 36
    &&& forall|i: int|
        0 <= i < 36 ==> if i == 8 || i == 13 || i == 18 || i == 23 {
            s[i] == '-'
        } else {
            is_lower_hex_char(#[trigger] s[i])
        }
}

/// A random (version 4, RFC 4122 variant) UUID in hyphenated form: the
/// version digit `4` at position 14 and one of `8`, `9`, `a`, `b` at
/// position 19.
pub open spec fn is_v4_uuid(s: Seq<char>) -> bool {
    &&& is_hyphenated_uuid(s)
    &&& s[14] == '4'
    &&& (s[19] == '8' || s[19] == '9' || s[19] == 'a' || s[19] == 'b')
}

/// `uuid::Uuid::new_v4().to_string()`: a fresh random UUID. The crate sets
/// the version and variant bits of random bits and its `Display` writes the
/// lowercase hyphenated form; which UUID comes back is chance, and nothing
/// more is said of it.
#[verifier::external_body]
pub(crate) fn fresh_uuid() -> (s: String)
    ensures
        is_v4_uuid(s@),
{
    uuid::Uuid::new_v4().to_string()
}

impl AppSettings {
    /// A copy of these settings.
    pub fn copy(&self) -> (r: AppSettings)
        ensures
            r == *self,
    {
        AppSettings {
            bypass_llm: self.bypass_llm,
            whisper_initial_prompt: self.whisper_initial_prompt.clone(),
            input_device: copy_opt(&self.input_device),
            whisper_model: self.whisper_model.clone(),
            dictation_hotkey: self.dictation_hotkey.clone(),
        }
    }
}

} // verus!
