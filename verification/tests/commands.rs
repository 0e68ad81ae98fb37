use dictation::commands::{
    build_rewrite_prompt, dictionary_candidate_prompt, extract_json_array, format_relevant_dictionary,
    history_limit, json_array_is_cuttable, required_model_names, setup_status, whisper_model_status,
    FocusedContext, CANDIDATE_PROMPT_HEAD, CANDIDATE_PROMPT_MIDDLE, CANDIDATE_PROMPT_TAIL,
};
use dictation::asr::find_whisper_model;
use dictation::db::DictionaryEntry;
use dictation::inject::FocusedFieldContext;

fn dict(term: &str, reading: Option<&str>, aliases: &[&str]) -> DictionaryEntry {
    DictionaryEntry {
        id: "x".into(),
        term: term.into(),
        reading: reading.map(String::from),
        aliases: aliases.iter().map(|s| s.to_string()).collect(),
        category: None,
        notes: None,
        created_at: "".into(),
        updated_at: "".into(),
    }
}

#[test]
fn build_rewrite_prompt_substitutes_input() {
    let out = build_rewrite_prompt("INPUT={input}".to_string(), "hello".to_string(), None, None);
    assert_eq!(out, "INPUT=hello");
}

#[test]
fn build_rewrite_prompt_inserts_context_block_when_present() {
    let out = build_rewrite_prompt(
        "{context}{input}".to_string(),
        "hi".to_string(),
        Some("こんにちは".into()),
        None,
    );
    assert!(out.contains("参考(現在の入力欄の内容):"));
    assert!(out.contains("こんにちは"));
    assert!(out.ends_with("hi"));
}

#[test]
fn build_rewrite_prompt_skips_empty_context_and_dictionary() {
    let out = build_rewrite_prompt(
        "[c={context}][d={dictionary}][in={input}]".to_string(),
        "x".to_string(),
        Some("   ".into()),
        None,
    );
    assert_eq!(out, "[c=][d=][in=x]");
}

#[test]
fn build_rewrite_prompt_inserts_dictionary_block() {
    let out = build_rewrite_prompt(
        "{dictionary}{input}".to_string(),
        "x".to_string(),
        None,
        Some("- 本橋(もとはし)".into()),
    );
    assert!(out.contains("辞書(以下の表記を尊重してください):"));
    assert!(out.contains("本橋(もとはし)"));
}

#[test]
fn extract_dictionary_skips_unmatched_entries() {
    let entries = vec![dict("本橋", Some("もとはし"), &["元橋"]), dict("ARI", None, &[])];
    let out = format_relevant_dictionary(&entries, "今日は元橋さんと話しました", None);
    assert!(out.contains("本橋"));
    assert!(!out.contains("ARI"));
}

#[test]
fn extract_dictionary_uses_context_haystack() {
    let entries = vec![dict("Vite", None, &[])];
    let out = format_relevant_dictionary(&entries, "build setup", Some("we ship a Vite project"));
    assert!(out.contains("Vite"));
}

#[test]
fn extract_dictionary_returns_empty_when_no_match() {
    let entries = vec![dict("本橋", Some("もとはし"), &["元橋"])];
    let out = format_relevant_dictionary(&entries, "hello world", None);
    assert!(out.is_empty());
}

#[test]
fn extract_dictionary_includes_category_and_notes() {
    let mut e = dict("ARI", None, &["アリ"]);
    e.category = Some("company".into());
    e.notes = Some("親会社".into());
    let out = format_relevant_dictionary(&[e], "今日 ARI に行く", None);
    assert!(out.contains("ARI"));
    assert!(out.contains("[company]"));
    assert!(out.contains("親会社"));
}

#[test]
fn extract_dictionary_skips_blank_aliases_and_reading() {
    let mut e = dict("Tauri", Some(""), &["", "tauri"]);
    e.category = Some("".into());
    let out = format_relevant_dictionary(&[e], "hello world", None);
    assert!(out.is_empty(), "blank alias must not match arbitrary text");
}

#[test]
fn build_rewrite_prompt_template_without_placeholders_passes_through() {
    let out = build_rewrite_prompt(
        "no placeholders".to_string(),
        "x".to_string(),
        Some("ctx".into()),
        Some("dict".into()),
    );
    assert_eq!(out, "no placeholders");
}

#[test]
fn build_rewrite_prompt_replaces_multiple_input_occurrences() {
    let out = build_rewrite_prompt(
        "echo {input} again {input}".to_string(),
        "hi".to_string(),
        None,
        None,
    );
    assert_eq!(out, "echo hi again hi");
}

#[test]
fn rewrite_prompt_blocks_are_exact() {
    let out = build_rewrite_prompt(
        "{context}|{dictionary}|{input}".to_string(),
        "in".to_string(),
        Some("ctx".into()),
        Some("- d".into()),
    );
    assert_eq!(
        out,
        "\n参考(現在の入力欄の内容):\nctx\n|\n辞書(以下の表記を尊重してください):\n- d\n|in"
    );
}

#[test]
fn rewrite_prompt_fills_placeholders_in_order() {
    // The input is put in first; a placeholder inside the input is then filled
    // like one of the template's own.
    let out = build_rewrite_prompt("{input}".to_string(), "{context}".to_string(), Some("c".into()), None);
    assert_eq!(out, "\n参考(現在の入力欄の内容):\nc\n");
}

#[test]
fn dictionary_lines_are_formatted_and_joined_in_order() {
    let mut a = dict("本橋", Some("もとはし"), &["元橋"]);
    a.category = Some("person".into());
    let mut b = dict("ARI", None, &[]);
    b.notes = Some("親会社".into());
    let out = format_relevant_dictionary(&[a, b], "元橋 と ARI", None);
    assert_eq!(out, "- 本橋(もとはし) [person]\n- ARI — 親会社");
}

#[test]
fn dictionary_reading_matches_alone() {
    let out = format_relevant_dictionary(&[dict("本橋", Some("もとはし"), &[])], "もとはしさん", None);
    assert_eq!(out, "- 本橋(もとはし)");
}

#[test]
fn setup_stops_without_ollama_outside_whisper_only_mode() {
    let s = setup_status(true, false, false, Some("0.1".into()), None, true);
    assert!(!s.ollama_running);
    assert!(s.ollama_version.is_none());
    assert!(s.models_installed.is_empty());
    assert!(s.models_missing.is_empty());
    assert!(!s.whisper_available);
    assert!(s.ax_trusted);
    assert!(!s.ready);
}

#[test]
fn setup_splits_required_models() {
    let installed = vec!["gemma4:e2b".to_string(), "other".to_string()];
    let s = setup_status(false, false, true, Some("0.9".into()), Some(installed), true);
    assert_eq!(s.ollama_version.as_deref(), Some("0.9"));
    assert_eq!(s.models_installed, vec!["gemma4:e2b".to_string()]);
    assert_eq!(
        s.models_missing,
        vec![
            "qwen3.5:4b-q4_K_M".to_string(),
            "qwen3:4b-instruct-2507-q4_K_M".to_string(),
            "hf.co/alfredplpl/llm-jp-3-3.7b-instruct-gguf:Q4_K_M".to_string(),
            "gemma4:e4b".to_string(),
        ]
    );
    assert!(s.ready);
    assert!(!s.ax_trusted);
}

#[test]
fn setup_not_ready_without_recogniser_or_models() {
    let s = setup_status(true, false, true, None, Some(vec![]), true);
    assert!(!s.ready);
    assert_eq!(s.models_missing.len(), 5);
    let s = setup_status(true, false, true, None, Some(vec!["gemma4:e4b".to_string()]), false);
    assert!(!s.ready);
}

#[test]
fn setup_whisper_only_mode_needs_only_the_recogniser() {
    let s = setup_status(true, true, false, None, None, true);
    assert!(s.ready);
    assert!(s.whisper_available);
    assert_eq!(s.models_missing.len(), 5);
    let s = setup_status(true, true, true, None, None, false);
    assert!(!s.ready);
    assert_eq!(s.models_missing, required_model_names().iter().map(|s| s.to_string()).collect::<Vec<_>>());
}

#[test]
fn candidate_prompt_wraps_both_texts() {
    let p = dictionary_candidate_prompt("元橋", "本橋");
    assert_eq!(
        p,
        format!("{}元橋{}本橋{}", CANDIDATE_PROMPT_HEAD, CANDIDATE_PROMPT_MIDDLE, CANDIDATE_PROMPT_TAIL)
    );
    assert!(p.ends_with("修正後:\n本橋\n\nJSON:"));
}

#[test]
fn json_array_is_cut_from_first_open_to_last_close() {
    assert_eq!(
        extract_json_array("  here: [{\"term\":\"A\"}] done ] \n").unwrap(),
        "[{\"term\":\"A\"}] done ]"
    );
    assert_eq!(extract_json_array("[]").unwrap(), "[]");
}

#[test]
fn json_array_errors_name_the_missing_bracket() {
    assert_eq!(
        extract_json_array("  nothing here ").unwrap_err(),
        "no JSON array in LLM output: nothing here"
    );
    assert_eq!(
        extract_json_array("[ open only").unwrap_err(),
        "no JSON array end in LLM output: [ open only"
    );
}

#[test]
fn json_array_cuttable_when_close_follows_open() {
    assert!(json_array_is_cuttable("[1]"));
    assert!(json_array_is_cuttable("no brackets"));
    assert!(json_array_is_cuttable("]["));
    assert!(!json_array_is_cuttable("] x ["));
}

#[test]
fn history_limit_defaults_to_fifty() {
    assert_eq!(history_limit(None), 50);
    assert_eq!(history_limit(Some(3)), 3);
}

#[test]
fn whisper_model_status_copies_the_catalogue_entry() {
    let m = find_whisper_model("medium").unwrap();
    let s = whisper_model_status(&m, true);
    assert_eq!(s.id, "medium");
    assert_eq!(s.size_bytes, 1_530_000_000);
    assert!(!s.is_bundled);
    assert!(s.available);
}

#[test]
fn focused_context_from_field_context() {
    let c: FocusedContext = FocusedFieldContext { text: "abc".into(), truncated: true }.into();
    assert_eq!(c.text, "abc");
    assert!(c.truncated);
}
