//! Command-level logic of the dictation app: assembling the rewrite prompt,
//! selecting the dictionary entries that matter for an input, deciding the
//! setup state, and reading an LLM's candidate list.

use vstd::prelude::*;
use crate::asr::WhisperModelInfo;
use crate::db::{opt_view, strs_view, DictionaryEntry};
use crate::inject::FocusedFieldContext;
use crate::text::{
    append_chars, append_str, chars_of, contains, contains_seq, find_from, first_match_from,
    is_blank, is_blank_seq, join, join_seq, last_match, replace_all_seq, replace_chars, rfind,
    str_eq, string_from_chars, trim, trim_seq,
};

verus! {

broadcast use vstd::string::group_string_axioms;

// ---------------------------------------------------------------------------
// Rewrite prompt
// ---------------------------------------------------------------------------

/// Heading of the block that quotes the focused field's current text.
pub open spec fn context_heading() -> Seq<char> {
    "\n参考(現在の入力欄の内容):\n"@
}

/// Heading of the block that lists dictionary spellings.
pub open spec fn dictionary_heading() -> Seq<char> {
    "\n辞書(以下の表記を尊重してください):\n"@
}

/// The block that fills a placeholder: empty when the value is absent or
/// blank, else the heading, the value and a newline.
pub open spec fn optional_block(heading: Seq<char>, value: Option<Seq<char>>) -> Seq<char> {
    match value {
        Some(s) => if is_blank_seq(s) {
            Seq::empty()
        } else {
            heading + s + "\n"@
        },
        None => Seq::empty(),
    }
}

/// The rewrite prompt: every `{input}` in the template replaced by the input,
/// then every `{context}` by the context block, then every `{dictionary}` by
/// the dictionary block.
pub open spec fn rewrite_prompt(
    template: Seq<char>,
    input: Seq<char>,
    context: Option<Seq<char>>,
    dictionary: Option<Seq<char>>,
) -> Seq<char> {
    let a = replace_all_seq(template, "{input}"@, input);
    let b = replace_all_seq(a, "{context}"@, optional_block(context_heading(), context));
    replace_all_seq(b, "{dictionary}"@, optional_block(dictionary_heading(), dictionary))
}

fn build_block(heading: &str, value: &Option<String>) -> (r: Vec<char>)
    ensures
        r@ == optional_block(heading@, opt_view(*value)),
{
    match value {
        Some(s) => {
            let cs = chars_of(s.as_str());
            if is_blank(&cs) {
                Vec::new()
            } else {
                let mut out = chars_of(heading);
                append_chars(&mut out, &cs);
                append_str(&mut out, "\n");
                out
            }
        },
        None => Vec::new(),
    }
}

/// Builds the rewrite prompt by filling the `{input}`, `{context}` and
/// `{dictionary}` placeholders of `template` (see [`rewrite_prompt`]). A blank
/// context or dictionary leaves its placeholder empty, so the prompt shows no
/// empty heading; a template without a placeholder drops that value.
pub fn build_rewrite_prompt(
    template: String,
    input: String,
    context: Option<String>,
    dictionary: Option<String>,
) -> (r: String)
    ensures
        r@ == rewrite_prompt(template@, input@, opt_view(context), opt_view(dictionary)),
{
    let context_block = build_block("\n参考(現在の入力欄の内容):\n", &context);
    let dictionary_block = build_block("\n辞書(以下の表記を尊重してください):\n", &dictionary);
    let t = chars_of(template.as_str());
    let inp = chars_of(input.as_str());
    let p_input = chars_of("{input}");
    let p_context = chars_of("{context}");
    let p_dictionary = chars_of("{dictionary}");
    proof {
        reveal_strlit("{input}");
        reveal_strlit("{context}");
        reveal_strlit("{dictionary}");
    }
    let a = replace_chars(&t, &p_input, &inp, None);
    let b = replace_chars(&a, &p_context, &context_block, None);
    let c = replace_chars(&b, &p_dictionary, &dictionary_block, None);
    string_from_chars(&c)
}

// ---------------------------------------------------------------------------
// Relevant dictionary entries
// ---------------------------------------------------------------------------

/// The text that dictionary terms are looked up in: the input, followed by a
/// newline and the context when there is one.
pub open spec fn lookup_text(input: Seq<char>, context: Option<Seq<char>>) -> Seq<char> {
    match context {
        Some(c) => input + "\n"@ + c,
        None => input,
    }
}

/// `needle` is non-empty and occurs in `hay`. Empty strings never match, so
/// a blank reading or alias cannot select an entry for every input.
pub open spec fn occurs(hay: Seq<char>, needle: Seq<char>) -> bool {
    needle.len() > 0 && contains_seq(hay, needle)
}

/// The entry's term, reading or one of its aliases occurs in `hay`.
pub open spec fn entry_matches(e: DictionaryEntry, hay: Seq<char>) -> bool {
    ||| occurs(hay, e.term@)
    ||| (e.reading matches Some(r) && occurs(hay, r@))
    ||| exists|k: int| 0 <= k < e.aliases@.len() && occurs(hay, #[trigger] e.aliases@[k]@)
}

/// `" (x)"`-style decoration: `pre + x + post` for a present, non-empty `x`,
/// otherwise nothing.
pub open spec fn decoration(pre: Seq<char>, x: Option<Seq<char>>, post: Seq<char>) -> Seq<char> {
    match x {
        Some(v) => if v.len() > 0 {
            pre + v + post
        } else {
            Seq::empty()
        },
        None => Seq::empty(),
    }
}

/// The bullet line for one entry: `- term(reading) [category] — notes`,
/// each decoration present only when its field is set and non-empty.
pub open spec fn entry_line(e: DictionaryEntry) -> Seq<char> {
    "- "@ + e.term@ + decoration("("@, opt_view(e.reading), ")"@) + decoration(
        " ["@,
        opt_view(e.category),
        "]"@,
    ) + decoration(" — "@, opt_view(e.notes), Seq::empty())
}

/// The bullet lines of the entries that match `hay`, in entry order.
pub open spec fn relevant_lines(entries: Seq<DictionaryEntry>, hay: Seq<char>) -> Seq<Seq<char>>
    decreases entries.len(),
{
    if entries.len() == 0 {
        Seq::empty()
    } else {
        let rest = relevant_lines(entries.drop_last(), hay);
        if entry_matches(entries.last(), hay) {
            rest.push(entry_line(entries.last()))
        } else {
            rest
        }
    }
}

/// The dictionary block for an input: one line per matching entry, joined
/// by newlines; empty when nothing matches.
pub open spec fn relevant_dictionary(
    entries: Seq<DictionaryEntry>,
    input: Seq<char>,
    context: Option<Seq<char>>,
) -> Seq<char> {
    join_seq(relevant_lines(entries, lookup_text(input, context)), "\n"@)
}

fn occurs_in(hay: &Vec<char>, needle: &String) -> (b: bool)
    ensures
        b == occurs(hay@, needle@),
{
    let n = chars_of(needle.as_str());
    n.len() > 0 && contains(hay, &n)
}

fn entry_hits(e: &DictionaryEntry, hay: &Vec<char>) -> (b: bool)
    ensures
        b == entry_matches(*e, hay@),
{
    if occurs_in(hay, &e.term) {
        return true;
    }
    match &e.reading {
        Some(r) => {
            if occurs_in(hay, r) {
                return true;
            }
        },
        None => {},
    }
    let mut k: usize = 0;
    while k < e.aliases.len()
        invariant
            0 <= k <= e.aliases.len(),
            forall|j: int| 0 <= j < k ==> !occurs(hay@, #[trigger] e.aliases@[j]@),
        decreases e.aliases.len() - k,
    {
        if occurs_in(hay, &e.aliases[k]) {
            return true;
        }
        k = k + 1;
    }
    false
}

fn push_decoration(out: &mut Vec<char>, pre: &str, x: &Option<String>, post: &str)
    ensures
        final(out)@ == old(out)@ + decoration(pre@, opt_view(*x), post@),
{
    match x {
        Some(v) => {
            let cs = chars_of(v.as_str());
            if cs.len() > 0 {
                append_str(out, pre);
                append_chars(out, &cs);
                append_str(out, post);
            }
        },
        None => {},
    }
}

fn line_for(e: &DictionaryEntry) -> (r: Vec<char>)
    ensures
        r@ == entry_line(*e),
{
    let mut out = chars_of("- ");
    append_str(&mut out, e.term.as_str());
    push_decoration(&mut out, "(", &e.reading, ")");
    push_decoration(&mut out, " [", &e.category, "]");
    push_decoration(&mut out, " — ", &e.notes, "");
    proof {
        reveal_strlit("");
    }
    assert(out@ =~= entry_line(*e));
    out
}

/// Builds the dictionary block for a prompt from only those entries whose
/// term, reading or aliases occur in the input or the context (see
/// [`relevant_dictionary`]), so that a small model is not handed the whole
/// dictionary.
pub fn format_relevant_dictionary(
    entries: &[DictionaryEntry],
    input: &str,
    context: Option<&str>,
) -> (r: String)
    ensures
        r@ == relevant_dictionary(entries@, input@, match context {
            Some(c) => Some(c@),
            None => None,
        }),
{
    let ghost ctx = match context {
        Some(c) => Some(c@),
        None => None::<Seq<char>>,
    };
    let mut hay = chars_of(input);
    match context {
        Some(c) => {
            append_str(&mut hay, "\n");
            append_str(&mut hay, c);
        },
        None => {},
    }
    assert(hay@ =~= lookup_text(input@, ctx));
    let mut lines: Vec<Vec<char>> = Vec::new();
    let mut i: usize = 0;
    while i < entries.len()
        invariant
            0 <= i <= entries.len(),
            hay@ == lookup_text(input@, ctx),
            lines@.map_values(|p: Vec<char>| p@) == relevant_lines(entries@.take(i as int), hay@),
        decreases entries.len() - i,
    {
        let e = &entries[i];
        assert(entries@.take(i + 1).drop_last() =~= entries@.take(i as int));
        assert(entries@.take(i + 1).last() == entries@[i as int]);
        if entry_hits(e, &hay) {
            let line = line_for(e);
            lines.push(line);
            assert(lines@.map_values(|p: Vec<char>| p@) =~= relevant_lines(
                entries@.take(i as int),
                hay@,
            ).push(entry_line(*e)));
        }
        i = i + 1;
    }
    assert(entries@.take(entries.len() as int) =~= entries@);
    let sep = chars_of("\n");
    let joined = join(&lines, &sep);
    string_from_chars(&joined)
}

} // verus!

verus! {

// ---------------------------------------------------------------------------
// Setup check
// ---------------------------------------------------------------------------

/// The LLM models the setup wizard looks for, in order of preference. Setup
/// needs at least one of them, not all.
pub open spec fn required_models() -> Seq<Seq<char>> {
    seq![
        "qwen3.5:4b-q4_K_M"@,
        "qwen3:4b-instruct-2507-q4_K_M"@,
        "hf.co/alfredplpl/llm-jp-3-3.7b-instruct-gguf:Q4_K_M"@,
        "gemma4:e4b"@,
        "gemma4:e2b"@,
    ]
}

/// The LLM models the setup wizard looks for, in order of preference.
pub fn required_model_names() -> (r: Vec<&'static str>)
    ensures
        r@.map_values(|s: &str| s@) == required_models(),
{
    let r: Vec<&'static str> = vec![
        "qwen3.5:4b-q4_K_M",
        "qwen3:4b-instruct-2507-q4_K_M",
        "hf.co/alfredplpl/llm-jp-3-3.7b-instruct-gguf:Q4_K_M",
        "gemma4:e4b",
        "gemma4:e2b",
    ];
    assert(r@.map_values(|s: &str| s@) =~= required_models());
    r
}

/// What the setup wizard reports.
#[derive(Debug, Clone)]
pub struct SetupStatus {
    pub ollama_running: bool,
    pub ollama_version: Option<String>,
    pub models_installed: Vec<String>,
    pub models_missing: Vec<String>,
    pub whisper_available: bool,
    pub ax_trusted: bool,
    pub ready: bool,
}

/// The required models that are (`installed == true`) or are not among the
/// installed names, in preference order.
pub open spec fn required_split(names: Seq<Seq<char>>, installed: bool, k: int) -> Seq<Seq<char>>
    decreases k,
{
    if k <= 0 {
        Seq::empty()
    } else {
        let rest = required_split(names, installed, k - 1);
        if names.contains(required_models()[k - 1]) == installed {
            rest.push(required_models()[k - 1])
        } else {
            rest
        }
    }
}

/// The setup state. Without a reachable Ollama and outside Whisper-only
/// mode, the check stops there: nothing is listed and nothing is ready.
/// Otherwise the required models are split into installed and missing (all
/// missing when Ollama is down or its model list failed), and setup is ready
/// in Whisper-only mode when the recogniser model is there, else when Ollama
/// runs, at least one required model is installed and the recogniser model
/// is there.
pub open spec fn setup_ok(
    r: SetupStatus,
    ax_trusted: bool,
    bypass_llm: bool,
    ollama_running: bool,
    ollama_version: Option<Seq<char>>,
    installed: Option<Seq<Seq<char>>>,
    whisper_available: bool,
) -> bool {
    &&& r.ax_trusted == ax_trusted
    &&& r.ollama_running == ollama_running
    &&& opt_view(r.ollama_version) == (if ollama_running { ollama_version } else { None })
    &&& if !ollama_running && !bypass_llm {
        &&& strs_view(r.models_installed).len() == 0
        &&& strs_view(r.models_missing).len() == 0
        &&& !r.whisper_available
        &&& !r.ready
    } else {
        &&& r.whisper_available == whisper_available
        &&& match (ollama_running, installed) {
            (true, Some(names)) => {
                &&& strs_view(r.models_installed) == required_split(names, true, 5)
                &&& strs_view(r.models_missing) == required_split(names, false, 5)
            },
            _ => {
                &&& strs_view(r.models_installed).len() == 0
                &&& strs_view(r.models_missing) == required_models()
            },
        }
        &&& r.ready == if bypass_llm {
            whisper_available
        } else {
            ollama_running && strs_view(r.models_installed).len() > 0 && whisper_available
        }
    }
}

fn contains_name(names: &Vec<String>, x: &str) -> (r: bool)
    ensures
        r == strs_view(*names).contains(x@),
{
    let mut i: usize = 0;
    while i < names.len()
        invariant
            0 <= i <= names.len(),
            forall|j: int| 0 <= j < i ==> strs_view(*names)[j] != x@,
        decreases names.len() - i,
    {
        if str_eq(names[i].as_str(), x) {
            assert(strs_view(*names)[i as int] == x@);
            return true;
        }
        i = i + 1;
    }
    false
}

fn all_required() -> (r: Vec<String>)
    ensures
        strs_view(r) == required_models(),
{
    let names = required_model_names();
    let mut r: Vec<String> = Vec::new();
    let mut i: usize = 0;
    while i < names.len()
        invariant
            0 <= i <= names.len(),
            names@.map_values(|s: &str| s@) == required_models(),
            strs_view(r) == required_models().take(i as int),
        decreases names.len() - i,
    {
        let s = names[i].to_string();
        assert(names@.map_values(|s: &str| s@)[i as int] == names@[i as int]@);
        let ghost before = strs_view(r);
        r.push(s);
        assert(strs_view(r) =~= before.push(s@));
        assert(strs_view(r) =~= required_models().take(i + 1));
        i = i + 1;
    }
    assert(required_models().take(5) =~= required_models());
    r
}

/// Decides the setup state from what was probed (see [`setup_ok`]):
/// accessibility permission, Whisper-only mode, whether Ollama answered and
/// with which version, its installed model names (`None` when listing them
/// failed), and whether the recogniser model is present.
pub fn setup_status(
    ax_trusted: bool,
    bypass_llm: bool,
    ollama_running: bool,
    ollama_version: Option<String>,
    installed: Option<Vec<String>>,
    whisper_available: bool,
) -> (r: SetupStatus)
    ensures
        setup_ok(
            r,
            ax_trusted,
            bypass_llm,
            ollama_running,
            opt_view(ollama_version),
            match installed {
                Some(v) => Some(strs_view(v)),
                None => None,
            },
            whisper_available,
        ),
{
    let version = if ollama_running {
        ollama_version
    } else {
        None
    };
    if !ollama_running && !bypass_llm {
        return SetupStatus {
            ollama_running: false,
            ollama_version: version,
            models_installed: Vec::new(),
            models_missing: Vec::new(),
            whisper_available: false,
            ax_trusted,
            ready: false,
        };
    }
    let mut models_installed: Vec<String> = Vec::new();
    let mut models_missing: Vec<String> = Vec::new();
    let mut used_list = false;
    if ollama_running {
        match &installed {
            Some(names) => {
                used_list = true;
                let req = required_model_names();
                let mut k: usize = 0;
                while k < req.len()
                    invariant
                        0 <= k <= req.len(),
                        req@.map_values(|s: &str| s@) == required_models(),
                        strs_view(models_installed) == required_split(strs_view(*names), true, k as int),
                        strs_view(models_missing) == required_split(strs_view(*names), false, k as int),
                    decreases req.len() - k,
                {
                    assert(req@.map_values(|s: &str| s@)[k as int] == req@[k as int]@);
                    let hit = contains_name(names, req[k]);
                    let s = req[k].to_string();
                    if hit {
                        let ghost before = strs_view(models_installed);
                        models_installed.push(s);
                        assert(strs_view(models_installed) =~= before.push(s@));
                    } else {
                        let ghost before = strs_view(models_missing);
                        models_missing.push(s);
                        assert(strs_view(models_missing) =~= before.push(s@));
                    }
                    k = k + 1;
                }
                assert(req@.map_values(|s: &str| s@).len() == req@.len());
                assert(required_models().len() == 5);
                assert(k == 5);
            },
            None => {},
        }
    }
    if !used_list {
        models_missing = all_required();
    }
    assert(strs_view(models_installed).len() == models_installed@.len());
    let ready = if bypass_llm {
        whisper_available
    } else {
        ollama_running && models_installed.len() > 0 && whisper_available
    };
    SetupStatus {
        ollama_running,
        ollama_version: version,
        models_installed,
        models_missing,
        whisper_available,
        ax_trusted,
        ready,
    }
}

// ---------------------------------------------------------------------------
// Dictionary candidates from the LLM
// ---------------------------------------------------------------------------

/// A dictionary entry the LLM proposes.
#[derive(Debug, Clone)]
pub struct DictionaryCandidate {
    pub term: String,
    pub reading: Option<String>,
    pub aliases: Vec<String>,
}

/// The instruction that asks the LLM for dictionary candidates from a
/// transcript and its corrected rewrite.
pub open spec fn candidate_prompt(asr_text: Seq<char>, rewritten_text: Seq<char>) -> Seq<char> {
    CANDIDATE_PROMPT_HEAD@ + asr_text + CANDIDATE_PROMPT_MIDDLE@ + rewritten_text + CANDIDATE_PROMPT_TAIL@
}

/// Opening of the candidate instruction, up to the transcript.
pub const CANDIDATE_PROMPT_HEAD: &'static str = "あなたは音声認識ユーザーの辞書登録を補助するアシスタントです。\n以下の「ASR出力」と「修正後」から、辞書として登録する価値のある\n候補を抽出してください。\n\n抽出ルール(以下のいずれかに該当するものを候補化):\n1. 修正で表記が変わった固有名詞 → term=修正後、aliases=[ASR側の表記]\n2. 修正で変わらなくても、ASRに出てくる人名・社名・地名・製品名・略語・\n専門用語(将来 誤認識される可能性のある語)→ term=その表記、aliases=[]\n3. 一般的な日本語(普通名詞、動詞、敬語整形、空白・句読点)は無視\n\n例:\n- 入力「田中さんと打ち合わせ」→ 「田中」は普通名詞扱いで除外可。\nただし「ARI」「OpenAI」「Tauri」のような社名・固有名は必ず候補に。\n- ASRで「元橋」、修正後で「本橋」→ {\"term\":\"本橋\",\"aliases\":[\"元橋\"]}\n- ASRで「AR Advanced Technology」(社名)→ 修正不要でも候補に\n{\"term\":\"AR Advanced Technology\",\"aliases\":[]}\n\n出力(JSON 配列のみ。コードブロック・説明文・前置き禁止):\n[{\"term\":\"...\",\"reading\":\"任意\",\"aliases\":[]}]\n該当なしなら []\n\nASR出力:\n";

/// Text between the transcript and the rewrite.
pub const CANDIDATE_PROMPT_MIDDLE: &'static str = "\n\n修正後:\n";

/// Text after the rewrite.
pub const CANDIDATE_PROMPT_TAIL: &'static str = "\n\nJSON:";

/// The instruction that asks the LLM for dictionary candidates (see
/// [`candidate_prompt`]).
pub fn dictionary_candidate_prompt(asr_text: &str, rewritten_text: &str) -> (r: String)
    ensures
        r@ == candidate_prompt(asr_text@, rewritten_text@),
{
    let mut c = chars_of(CANDIDATE_PROMPT_HEAD);
    append_str(&mut c, asr_text);
    append_str(&mut c, CANDIDATE_PROMPT_MIDDLE);
    append_str(&mut c, rewritten_text);
    append_str(&mut c, CANDIDATE_PROMPT_TAIL);
    string_from_chars(&c)
}

/// The LLM's reply can be cut at its JSON array: when both brackets occur,
/// the last `]` does not come before the first `[`.
pub open spec fn json_array_cuttable(raw: Seq<char>) -> bool {
    let t = trim_seq(raw);
    match (first_match_from(t, "["@, 0), last_match(t, "]"@)) {
        (Some(s), Some(e)) => s == 0 || s - 1 <= e,
        _ => true,
    }
}

/// The JSON array in an LLM reply: the trimmed reply from its first `[` to
/// its last `]`, or an error naming the missing bracket.
pub open spec fn json_array_of(raw: Seq<char>) -> Result<Seq<char>, Seq<char>> {
    let t = trim_seq(raw);
    match first_match_from(t, "["@, 0) {
        None => Err("no JSON array in LLM output: "@ + t),
        Some(s) => match last_match(t, "]"@) {
            None => Err("no JSON array end in LLM output: "@ + t),
            Some(e) => Ok(t.subrange(s, e + 1)),
        },
    }
}

/// Whether a reply can be cut at its JSON array (see
/// [`json_array_cuttable`]); a reply whose last `]` comes before its first
/// `[` cannot.
pub fn json_array_is_cuttable(raw: &str) -> (r: bool)
    ensures
        r == json_array_cuttable(raw@),
{
    let t = trim(&chars_of(raw));
    let open = chars_of("[");
    let close = chars_of("]");
    match (find_from(&t, &open, 0), rfind(&t, &close)) {
        (Some(s), Some(e)) => s == 0 || s - 1 <= e,
        _ => true,
    }
}

/// Cuts the JSON array out of an LLM reply (see [`json_array_of`]).
pub fn extract_json_array(raw: &str) -> (r: Result<String, String>)
    requires
        json_array_cuttable(raw@),
    ensures
        match json_array_of(raw@) {
            Ok(s) => r matches Ok(x) && x@ == s,
            Err(e) => r matches Err(x) && x@ == e,
        },
{
    let t = trim(&chars_of(raw));
    let open = chars_of("[");
    let close = chars_of("]");
    match find_from(&t, &open, 0) {
        None => {
            let mut m = chars_of("no JSON array in LLM output: ");
            append_chars(&mut m, &t);
            Err(string_from_chars(&m))
        },
        Some(s) => match rfind(&t, &close) {
            None => {
                let mut m = chars_of("no JSON array end in LLM output: ");
                append_chars(&mut m, &t);
                Err(string_from_chars(&m))
            },
            Some(e) => {
                proof {
                    reveal_strlit("]");
                }
                assert(e < t@.len());
                let mut out: Vec<char> = Vec::new();
                let mut i: usize = s;
                while i <= e
                    invariant
                        s <= i <= e + 1,
                        e < t.len(),
                        out@ == t@.subrange(s as int, i as int),
                    decreases e + 1 - i,
                {
                    out.push(t[i]);
                    assert(t@.subrange(s as int, i + 1) =~= t@.subrange(s as int, i as int).push(
                        t@[i as int],
                    ));
                    i = i + 1;
                }
                Ok(string_from_chars(&out))
            },
        },
    }
}

// ---------------------------------------------------------------------------
// Small command helpers
// ---------------------------------------------------------------------------

/// How many history rows a listing returns when the caller names no limit.
pub const DEFAULT_HISTORY_LIMIT: usize = 50;

/// The history limit of a listing or search.
pub fn history_limit(limit: Option<usize>) -> (r: usize)
    ensures
        r == match limit {
            Some(n) => n,
            None => DEFAULT_HISTORY_LIMIT,
        },
{
    match limit {
        Some(n) => n,
        None => DEFAULT_HISTORY_LIMIT,
    }
}

/// A Whisper model and whether its file is present.
#[derive(Debug, Clone)]
pub struct WhisperModelStatus {
    pub id: String,
    pub display_name: String,
    pub size_bytes: u64,
    pub is_bundled: bool,
    pub available: bool,
}

/// The status row of model `m`, given whether its file was found.
pub fn whisper_model_status(m: &WhisperModelInfo, available: bool) -> (r: WhisperModelStatus)
    ensures
        r.id@ == m.id@,
        r.display_name@ == m.display_name@,
        r.size_bytes == m.size_bytes,
        r.is_bundled == m.is_bundled,
        r.available == available,
{
    WhisperModelStatus {
        id: m.id.to_string(),
        display_name: m.display_name.to_string(),
        size_bytes: m.size_bytes,
        is_bundled: m.is_bundled,
        available,
    }
}

/// The focused field's text as the UI receives it.
#[derive(Debug, Clone)]
pub struct FocusedContext {
    pub text: String,
    pub truncated: bool,
}

impl From<FocusedFieldContext> for FocusedContext {
    fn from(c: FocusedFieldContext) -> (r: Self) {
        FocusedContext { text: c.text, truncated: c.truncated }
    }
}

impl vstd::std_specs::convert::FromSpecImpl<FocusedFieldContext> for FocusedContext {
    open spec fn obeys_from_spec() -> bool {
        true
    }

    open spec fn from_spec(c: FocusedFieldContext) -> Self {
        FocusedContext { text: c.text, truncated: c.truncated }
    }
}

} // verus!

verus! {

// ---------------------------------------------------------------------------
// Laws of the prompt and dictionary helpers
// ---------------------------------------------------------------------------

/// A template without any of the three placeholders comes back unchanged,
/// whatever the input, context and dictionary.
pub proof fn law_template_without_placeholders_passes_through(
    template: Seq<char>,
    input: Seq<char>,
    context: Option<Seq<char>>,
    dictionary: Option<Seq<char>>,
)
    requires
        !contains_seq(template, "{input}"@),
        !contains_seq(template, "{context}"@),
        !contains_seq(template, "{dictionary}"@),
    ensures
        rewrite_prompt(template, input, context, dictionary) == template,
{
    crate::text::lemma_replace_absent(template, "{input}"@, input, 0);
    assert(template.skip(0) =~= template);
    crate::text::lemma_replace_absent(
        template,
        "{context}"@,
        optional_block(context_heading(), context),
        0,
    );
    crate::text::lemma_replace_absent(
        template,
        "{dictionary}"@,
        optional_block(dictionary_heading(), dictionary),
        0,
    );
}

/// A blank context, or a blank dictionary block, gives the same prompt as
/// none at all.
pub proof fn law_blank_values_are_dropped(
    template: Seq<char>,
    input: Seq<char>,
    context: Option<Seq<char>>,
    dictionary: Option<Seq<char>>,
)
    ensures
        context matches Some(c) && is_blank_seq(c) ==> rewrite_prompt(template, input, context, dictionary)
            == rewrite_prompt(template, input, None, dictionary),
        dictionary matches Some(d) && is_blank_seq(d) ==> rewrite_prompt(template, input, context, dictionary)
            == rewrite_prompt(template, input, context, None),
{
}

proof fn lemma_relevant_lines(entries: Seq<DictionaryEntry>, hay: Seq<char>)
    ensures
        relevant_lines(entries, hay).len() == 0 <==> forall|k: int|
            0 <= k < entries.len() ==> !entry_matches(#[trigger] entries[k], hay),
        relevant_lines(entries, hay).len() > 0 ==> relevant_lines(entries, hay)[0].len() > 0,
    decreases entries.len(),
{
    if entries.len() > 0 {
        let rest = entries.drop_last();
        lemma_relevant_lines(rest, hay);
        reveal_strlit("- ");
        assert(entry_line(entries.last()).len() > 0) by {
            assert(entry_line(entries.last())[0] == '-');
        }
        if forall|k: int| 0 <= k < entries.len() ==> !entry_matches(#[trigger] entries[k], hay) {
            assert(!entry_matches(entries[entries.len() - 1], hay));
            assert forall|k: int| 0 <= k < rest.len() implies !entry_matches(#[trigger] rest[k], hay) by {
                assert(rest[k] == entries[k]);
            }
        }
        if relevant_lines(entries, hay).len() == 0 {
            assert forall|k: int| 0 <= k < entries.len() implies !entry_matches(#[trigger] entries[k], hay) by {
                if k < rest.len() {
                    assert(rest[k] == entries[k]);
                }
            }
        }
        if relevant_lines(rest, hay).len() > 0 {
            assert(relevant_lines(rest, hay).push(entry_line(entries.last()))[0]
                == relevant_lines(rest, hay)[0]);
        }
    }
}

/// The dictionary block is empty exactly when no entry's term, reading or
/// alias occurs in the input (or the context).
pub proof fn law_dictionary_block_empty_iff_no_match(
    entries: Seq<DictionaryEntry>,
    input: Seq<char>,
    context: Option<Seq<char>>,
)
    ensures
        relevant_dictionary(entries, input, context).len() == 0 <==> forall|k: int|
            0 <= k < entries.len() ==> !entry_matches(
                #[trigger] entries[k],
                lookup_text(input, context),
            ),
{
    let hay = lookup_text(input, context);
    lemma_relevant_lines(entries, hay);
    let lines = relevant_lines(entries, hay);
    if lines.len() > 0 {
        crate::text::lemma_join_len(lines, "\n"@);
    }
}

/// Empty strings never select an entry: an entry whose term, reading and
/// aliases are all empty matches no text.
pub proof fn law_empty_strings_never_match(e: DictionaryEntry, hay: Seq<char>)
    requires
        e.term@.len() == 0,
        e.reading matches Some(r) ==> r@.len() == 0,
        forall|k: int| 0 <= k < e.aliases@.len() ==> (#[trigger] e.aliases@[k])@.len() == 0,
    ensures
        !entry_matches(e, hay),
{
}

proof fn lemma_matches_in_concat(a: Seq<char>, b: Seq<char>, p: Seq<char>, i: int)
    ensures
        crate::text::matches_at(a, p, i) ==> crate::text::matches_at(a + b, p, i),
        crate::text::matches_at(b, p, i) ==> crate::text::matches_at(a + b, p, a.len() + i),
{
    if crate::text::matches_at(a, p, i) {
        assert((a + b).subrange(i, i + p.len()) =~= a.subrange(i, i + p.len()));
    }
    if crate::text::matches_at(b, p, i) {
        assert((a + b).subrange(a.len() + i, a.len() + i + p.len()) =~= b.subrange(i, i + p.len()));
    }
}

proof fn lemma_lookup_text_holds(input: Seq<char>, context: Option<Seq<char>>, x: Seq<char>)
    ensures
        contains_seq(input, x) ==> contains_seq(lookup_text(input, context), x),
        context matches Some(c) && contains_seq(c, x) ==> contains_seq(lookup_text(input, context), x),
{
    if let Some(c) = context {
        let nl = "\n"@;
        if contains_seq(input, x) {
            let i = choose|i: int| crate::text::matches_at(input, x, i);
            lemma_matches_in_concat(input, nl, x, i);
            lemma_matches_in_concat(input + nl, c, x, i);
        }
        if contains_seq(c, x) {
            let i = choose|i: int| crate::text::matches_at(c, x, i);
            lemma_matches_in_concat(input + nl, c, x, i);
        }
    }
}

proof fn lemma_matching_entry_listed(entries: Seq<DictionaryEntry>, hay: Seq<char>, k: int)
    requires
        0 <= k < entries.len(),
        entry_matches(entries[k], hay),
    ensures
        relevant_lines(entries, hay).contains(entry_line(entries[k])),
    decreases entries.len(),
{
    let rest = entries.drop_last();
    let lines = relevant_lines(rest, hay);
    if k < entries.len() - 1 {
        assert(rest[k] == entries[k]);
        lemma_matching_entry_listed(rest, hay, k);
        if entry_matches(entries.last(), hay) {
            vstd::seq_lib::lemma_seq_contains_after_push(lines, entry_line(entries.last()), entry_line(entries[k]));
        }
    } else {
        vstd::seq_lib::lemma_seq_contains_after_push(lines, entry_line(entries.last()), entry_line(entries[k]));
    }
}

proof fn lemma_join_holds_parts(parts: Seq<Seq<char>>, sep: Seq<char>, p: Seq<char>)
    requires
        parts.contains(p),
    ensures
        contains_seq(join_seq(parts, sep), p),
    decreases parts.len(),
{
    if parts.len() == 1 {
        assert(parts[0] == p);
        assert(join_seq(parts, sep).subrange(0, p.len() as int) =~= p);
        assert(crate::text::matches_at(join_seq(parts, sep), p, 0));
    } else {
        let front = join_seq(parts.drop_last(), sep);
        if parts.last() == p {
            assert(p.subrange(0, p.len() as int) =~= p);
            assert(crate::text::matches_at(p, p, 0));
            lemma_matches_in_concat(front + sep, p, p, 0);
        } else {
            let j = choose|j: int| 0 <= j < parts.len() && parts[j] == p;
            assert(parts.drop_last()[j] == p);
            lemma_join_holds_parts(parts.drop_last(), sep, p);
            let i = choose|i: int| crate::text::matches_at(front, p, i);
            lemma_matches_in_concat(front, sep, p, i);
            lemma_matches_in_concat(front + sep, parts.last(), p, i);
        }
    }
}

/// An entry whose term, reading or one of whose aliases occurs (non-empty)
/// in the dictated input is listed in the dictionary block, whatever the
/// context is: the input is always searched, and a context only adds text
/// to search. The same holds of a match in the context, when there is one.
pub proof fn law_input_match_always_listed(
    entries: Seq<DictionaryEntry>,
    input: Seq<char>,
    context: Option<Seq<char>>,
    k: int,
    needle: Seq<char>,
)
    requires
        0 <= k < entries.len(),
        needle.len() > 0,
        contains_seq(input, needle) || (context matches Some(c) && contains_seq(c, needle)),
        needle == entries[k].term@ || (entries[k].reading matches Some(r) && r@ == needle) || exists|a: int|
            0 <= a < entries[k].aliases@.len() && (#[trigger] entries[k].aliases@[a])@ == needle,
    ensures
        contains_seq(relevant_dictionary(entries, input, context), entry_line(entries[k])),
{
    let hay = lookup_text(input, context);
    lemma_lookup_text_holds(input, context, needle);
    assert(entry_matches(entries[k], hay));
    lemma_matching_entry_listed(entries, hay, k);
    lemma_join_holds_parts(relevant_lines(entries, hay), "\n"@, entry_line(entries[k]));
}

proof fn lemma_one_char_at(t: Seq<char>, pat: Seq<char>, j: int)
    requires
        pat.len() == 1,
    ensures
        crate::text::matches_at(t, pat, j) <==> 0 <= j < t.len() && t[j] == pat[0],
{
    if 0 <= j < t.len() && t[j] == pat[0] {
        assert(t.subrange(j, j + 1) =~= pat);
    }
    if crate::text::matches_at(t, pat, j) {
        assert(t.subrange(j, j + 1)[0] == t[j]);
    }
}

/// The JSON array cut out of a reply runs from the first `[` of the trimmed
/// reply to its last `]`, both included: when the first `[` stands at `s`
/// and the last `]` at `e`, the cut is the trimmed reply's characters `s`
/// through `e`.
pub proof fn law_json_array_spans_first_open_to_last_close(raw: Seq<char>, s: int, e: int)
    requires
        0 <= s < trim_seq(raw).len(),
        trim_seq(raw)[s] == '[',
        forall|j: int| 0 <= j < s ==> trim_seq(raw)[j] != '[',
        0 <= e < trim_seq(raw).len(),
        trim_seq(raw)[e] == ']',
        forall|j: int| e < j < trim_seq(raw).len() ==> trim_seq(raw)[j] != ']',
    ensures
        json_array_of(raw) == Ok::<Seq<char>, Seq<char>>(trim_seq(raw).subrange(s, e + 1)),
{
    let t = trim_seq(raw);
    let open = "["@;
    let close = "]"@;
    reveal_strlit("[");
    reveal_strlit("]");
    crate::text::lemma_first_match_from(t, open, 0);
    lemma_one_char_at(t, open, s);
    lemma_one_char_at(t, close, e);
    match first_match_from(t, open, 0) {
        Some(m) => {
            lemma_one_char_at(t, open, m);
            if m > s {
                assert(!crate::text::matches_at(t, open, s));
            }
        },
        None => {
            assert(!crate::text::matches_at(t, open, s));
        },
    }
    assert(exists|i: int| crate::text::matches_at(t, close, i));
    let w = choose|i: int| crate::text::matches_at(t, close, i) && forall|j: int| i < j ==> !crate::text::matches_at(t, close, j);
    lemma_one_char_at(t, close, w);
    if w < e {
        assert(!crate::text::matches_at(t, close, e));
    }
    assert(last_match(t, close) == Some(w));
}

/// A reply whose trimmed text holds no `[` is refused as having no JSON
/// array; one that holds a `[` but no `]` is refused as having no array
/// end. Both errors quote the trimmed reply.
pub proof fn law_json_array_missing_bracket(raw: Seq<char>)
    ensures
        (forall|j: int| 0 <= j < trim_seq(raw).len() ==> trim_seq(raw)[j] != '[') ==> json_array_of(raw)
            == Err::<Seq<char>, Seq<char>>("no JSON array in LLM output: "@ + trim_seq(raw)),
        (exists|j: int| 0 <= j < trim_seq(raw).len() && trim_seq(raw)[j] == '[') && (forall|j: int|
            0 <= j < trim_seq(raw).len() ==> trim_seq(raw)[j] != ']') ==> json_array_of(raw)
            == Err::<Seq<char>, Seq<char>>("no JSON array end in LLM output: "@ + trim_seq(raw)),
{
    let t = trim_seq(raw);
    let open = "["@;
    let close = "]"@;
    reveal_strlit("[");
    reveal_strlit("]");
    crate::text::lemma_first_match_from(t, open, 0);
    if let Some(m) = first_match_from(t, open, 0) {
        lemma_one_char_at(t, open, m);
    }
    if exists|j: int| 0 <= j < t.len() && t[j] == '[' {
        let j = choose|j: int| 0 <= j < t.len() && t[j] == '[';
        lemma_one_char_at(t, open, j);
    }
    if forall|j: int| 0 <= j < t.len() ==> t[j] != ']' {
        assert forall|i: int| !crate::text::matches_at(t, close, i) by {
            lemma_one_char_at(t, close, i);
        }
    }
}

proof fn lemma_required_split(names: Seq<Seq<char>>, installed: bool, k: int, x: Seq<char>)
    requires
        0 <= k <= 5,
    ensures
        required_split(names, installed, k).contains(x) <==> exists|i: int|
            0 <= i < k && required_models()[i] == x && names.contains(x) == installed,
    decreases k,
{
    if k > 0 {
        lemma_required_split(names, installed, k - 1, x);
        let rest = required_split(names, installed, k - 1);
        let m = required_models()[k - 1];
        if names.contains(m) == installed {
            vstd::seq_lib::lemma_seq_contains_after_push(rest, m, x);
        }
        if exists|i: int| 0 <= i < k && required_models()[i] == x && names.contains(x) == installed {
            let i = choose|i: int| 0 <= i < k && required_models()[i] == x && names.contains(x) == installed;
            if i < k - 1 {
            } else {
                assert(m == x);
            }
        }
    }
}

/// Whenever Ollama runs and its model list was read, each required model is
/// reported installed exactly when the list names it, and missing exactly
/// when it does not, whether or not Whisper-only mode is on; nothing but
/// required models is reported. Outside Whisper-only mode setup is ready
/// exactly when some required model is installed and the recogniser model
/// is there.
pub proof fn law_listed_models_reported_installed(
    r: SetupStatus,
    ax_trusted: bool,
    bypass_llm: bool,
    ollama_version: Option<Seq<char>>,
    names: Seq<Seq<char>>,
    whisper_available: bool,
)
    requires
        setup_ok(r, ax_trusted, bypass_llm, true, ollama_version, Some(names), whisper_available),
    ensures
        forall|k: int| 0 <= k < 5 ==> (strs_view(r.models_installed).contains(
            #[trigger] required_models()[k],
        ) <==> names.contains(required_models()[k])),
        forall|k: int| 0 <= k < 5 ==> (strs_view(r.models_missing).contains(
            #[trigger] required_models()[k],
        ) <==> !names.contains(required_models()[k])),
        forall|x: Seq<char>| #[trigger] strs_view(r.models_installed).contains(x) ==> required_models().contains(x)
            && names.contains(x),
        forall|x: Seq<char>| #[trigger] strs_view(r.models_missing).contains(x) ==> required_models().contains(x)
            && !names.contains(x),
        !bypass_llm ==> (r.ready <==> (exists|k: int| 0 <= k < 5 && names.contains(
            #[trigger] required_models()[k],
        )) && whisper_available),
{
    let inst = strs_view(r.models_installed);
    let miss = strs_view(r.models_missing);
    assert forall|k: int| 0 <= k < 5 implies (inst.contains(#[trigger] required_models()[k])
        <==> names.contains(required_models()[k])) by {
        lemma_required_split(names, true, 5, required_models()[k]);
    }
    assert forall|k: int| 0 <= k < 5 implies (miss.contains(#[trigger] required_models()[k])
        <==> !names.contains(required_models()[k])) by {
        lemma_required_split(names, false, 5, required_models()[k]);
    }
    assert forall|x: Seq<char>| #[trigger] inst.contains(x) implies required_models().contains(x)
        && names.contains(x) by {
        lemma_required_split(names, true, 5, x);
        let i = choose|i: int| 0 <= i < 5 && required_models()[i] == x && names.contains(x) == true;
        assert(required_models()[i] == x);
    }
    assert forall|x: Seq<char>| #[trigger] miss.contains(x) implies required_models().contains(x)
        && !names.contains(x) by {
        lemma_required_split(names, false, 5, x);
        let i = choose|i: int| 0 <= i < 5 && required_models()[i] == x && names.contains(x) == false;
        assert(required_models()[i] == x);
    }
    if inst.len() > 0 {
        assert(inst.contains(inst[0]));
        lemma_required_split(names, true, 5, inst[0]);
        let i = choose|i: int| 0 <= i < 5 && required_models()[i] == inst[0] && names.contains(inst[0]) == true;
        assert(names.contains(required_models()[i]));
    }
    if exists|k: int| 0 <= k < 5 && names.contains(#[trigger] required_models()[k]) {
        let k = choose|k: int| 0 <= k < 5 && names.contains(#[trigger] required_models()[k]);
        assert(inst.contains(required_models()[k]));
    }
}

} // verus!
