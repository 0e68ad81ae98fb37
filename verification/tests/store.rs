use dictation::db::{AppSettings, DictionaryUpsert, PromptTemplateUpsert};
use dictation::hotkey::DEFAULT_DICTATION_HOTKEY_ID;
use dictation::store::{builtin_prompt_templates, list_json_prompts, validate_prompt_upsert, JsonFallbackStore};

fn is_uuid(s: &str) -> bool {
    let b = s.as_bytes();
    b.len() == 36
        && b[14] == b'4'
        && matches!(b[19], b'8' | b'9' | b'a' | b'b')
        && b.iter().enumerate().all(|(i, c)| {
            if i == 8 || i == 13 || i == 18 || i == 23 {
                *c == b'-'
            } else {
                c.is_ascii_digit() || (b'a'..=b'f').contains(c)
            }
        })
}

fn entry(id: Option<&str>, term: &str) -> DictionaryUpsert {
    DictionaryUpsert {
        id: id.map(String::from),
        term: term.into(),
        reading: None,
        aliases: vec![],
        category: None,
        notes: None,
    }
}

fn prompt(id: Option<&str>, name: &str, body: &str) -> PromptTemplateUpsert {
    PromptTemplateUpsert {
        id: id.map(String::from),
        name: name.into(),
        label: "L".into(),
        body: body.into(),
        language: "ja".into(),
    }
}

#[test]
fn json_prompts_include_builtins_when_store_is_empty() {
    let store = JsonFallbackStore::default();
    let prompts = list_json_prompts(&store);
    assert!(prompts.iter().any(|prompt| prompt.name == "ja_keigo"));
    assert!(prompts.iter().all(|prompt| prompt.is_builtin));
}

#[test]
fn json_prompts_preserve_builtin_metadata_for_overrides() {
    let mut overridden = builtin_prompt_templates()
        .into_iter()
        .find(|prompt| prompt.name == "ja_keigo")
        .expect("ja_keigo builtin");
    overridden.label = "Edited".into();
    overridden.body = "Edited {input}".into();
    overridden.is_builtin = false;
    overridden.order_idx = 99;

    let store = JsonFallbackStore { prompts: vec![overridden], ..JsonFallbackStore::default() };
    let prompts = list_json_prompts(&store);
    let edited = prompts
        .iter()
        .find(|prompt| prompt.name == "ja_keigo")
        .expect("edited builtin");
    assert_eq!(edited.label, "Edited");
    assert_eq!(edited.body, "Edited {input}");
    assert!(edited.is_builtin);
    assert_eq!(edited.order_idx, 0);
}

#[test]
fn empty_store_lists_exactly_the_shipped_templates_in_order() {
    let prompts = list_json_prompts(&JsonFallbackStore::default());
    let ids: Vec<&str> = prompts.iter().map(|p| p.id.as_str()).collect();
    assert_eq!(
        ids,
        vec!["builtin_ja_keigo", "builtin_en_business", "builtin_ja_agent_task", "builtin_en_agent_task"]
    );
    assert!(prompts.iter().enumerate().all(|(i, p)| p.order_idx == i as i32));
    assert!(prompts.iter().all(|p| p.created_at == "1970-01-01 00:00:00" && p.body.contains("{input}")));
}

#[test]
fn user_templates_sort_after_builtins_by_name() {
    let mut store = JsonFallbackStore::default();
    store.upsert_prompt(prompt(Some("u2"), "zeta", "z {input}"), "t1".into()).unwrap();
    store.upsert_prompt(prompt(Some("u1"), "alpha", "a {input}"), "t2".into()).unwrap();
    let names: Vec<String> = list_json_prompts(&store).into_iter().map(|p| p.name).collect();
    assert_eq!(names, vec!["ja_keigo", "en_business", "ja_agent_task", "en_agent_task", "alpha", "zeta"]);
}

#[test]
fn upsert_prompt_refusals() {
    let mut store = JsonFallbackStore::default();
    assert_eq!(
        store.upsert_prompt(prompt(None, "n", "no placeholder"), "t".into()).unwrap_err(),
        "prompt template must contain {input} placeholder"
    );
    assert_eq!(
        store.upsert_prompt(prompt(None, "  ", "{input}"), "t".into()).unwrap_err(),
        "name must not be empty"
    );
    assert!(store.prompts.is_empty());
    assert!(validate_prompt_upsert(&prompt(None, "ok", "{input}")).is_ok());
}

#[test]
fn upsert_prompt_without_id_gets_user_uuid() {
    let mut store = JsonFallbackStore::default();
    let t = store.upsert_prompt(prompt(None, "mine", "x {input}"), "100".into()).unwrap();
    assert!(t.id.starts_with("user_"));
    assert!(is_uuid(&t.id[5..]));
    assert!(!t.is_builtin);
    assert_eq!(t.order_idx, 99);
    assert_eq!(t.created_at, "100");
    assert_eq!(t.updated_at, "100");
    assert_eq!(store.prompts.len(), 1);
}

#[test]
fn upsert_prompt_over_builtin_keeps_builtin_flags() {
    let mut store = JsonFallbackStore::default();
    let t = store
        .upsert_prompt(prompt(Some("builtin_en_business"), "en_business", "B {input}"), "5".into())
        .unwrap();
    assert!(t.is_builtin);
    assert_eq!(t.order_idx, 1);
    assert_eq!(t.created_at, "1970-01-01 00:00:00");
    let again = store
        .upsert_prompt(prompt(Some("builtin_en_business"), "en_business", "C {input}"), "6".into())
        .unwrap();
    assert_eq!(again.created_at, "1970-01-01 00:00:00");
    assert_eq!(again.updated_at, "6");
    assert_eq!(store.prompts.len(), 1);
    assert_eq!(store.prompts[0].body, "C {input}");
}

#[test]
fn delete_prompt_refuses_builtins_and_removes_others() {
    let mut store = JsonFallbackStore::default();
    store.upsert_prompt(prompt(Some("u1"), "a", "{input}"), "t".into()).unwrap();
    store.upsert_prompt(prompt(Some("u2"), "b", "{input}"), "t".into()).unwrap();
    assert_eq!(
        store.delete_prompt("builtin_ja_keigo").unwrap_err(),
        "cannot delete built-in template; use reset instead"
    );
    assert_eq!(store.prompts.len(), 2);
    store.delete_prompt("u1").unwrap();
    assert_eq!(store.prompts.len(), 1);
    assert_eq!(store.prompts[0].id, "u2");
}

#[test]
fn reset_prompt_restores_the_shipped_template() {
    let mut store = JsonFallbackStore::default();
    store
        .upsert_prompt(prompt(Some("builtin_ja_keigo"), "ja_keigo", "mine {input}"), "t".into())
        .unwrap();
    let t = store.reset_prompt("builtin_ja_keigo").unwrap();
    assert!(store.prompts.is_empty());
    assert_eq!(t.id, "builtin_ja_keigo");
    assert_eq!(t.body, builtin_prompt_templates()[0].body);
    let listed = list_json_prompts(&store);
    assert_eq!(listed[0].body, t.body);
}

#[test]
fn reset_prompt_of_unknown_id_removes_and_errs() {
    let mut store = JsonFallbackStore::default();
    store.upsert_prompt(prompt(Some("u1"), "a", "{input}"), "t".into()).unwrap();
    assert_eq!(store.reset_prompt("u1").unwrap_err(), "no shipped default for builtin id 'u1'");
    assert!(store.prompts.is_empty());
}

#[test]
fn upsert_dictionary_refuses_blank_term() {
    let mut store = JsonFallbackStore::default();
    assert_eq!(store.upsert_dictionary(entry(None, " \t"), "t".into()).unwrap_err(), "term must not be empty");
    assert!(store.dictionary.is_empty());
}

#[test]
fn upsert_dictionary_sorts_by_term_and_keeps_created_at() {
    let mut store = JsonFallbackStore::default();
    let b = store.upsert_dictionary(entry(None, "beta"), "1".into()).unwrap();
    assert!(is_uuid(&b.id));
    store.upsert_dictionary(entry(Some("a"), "alpha"), "2".into()).unwrap();
    store.upsert_dictionary(entry(Some("c"), "Gamma"), "3".into()).unwrap();
    let terms: Vec<&str> = store.dictionary.iter().map(|e| e.term.as_str()).collect();
    assert_eq!(terms, vec!["Gamma", "alpha", "beta"]);
    let updated = store.upsert_dictionary(entry(Some("a"), "alpha2"), "9".into()).unwrap();
    assert_eq!(updated.created_at, "2");
    assert_eq!(updated.updated_at, "9");
    assert_eq!(store.dictionary.len(), 3);
    assert!(store.dictionary.iter().any(|e| e.id == "a" && e.term == "alpha2"));
}

#[test]
fn delete_dictionary_removes_every_entry_with_the_id() {
    let mut store = JsonFallbackStore::default();
    store.upsert_dictionary(entry(Some("a"), "x"), "1".into()).unwrap();
    store.upsert_dictionary(entry(Some("b"), "y"), "1".into()).unwrap();
    store.delete_dictionary("a");
    assert_eq!(store.dictionary.len(), 1);
    assert_eq!(store.dictionary[0].id, "b");
    store.delete_dictionary("missing");
    assert_eq!(store.dictionary.len(), 1);
}

#[test]
fn update_settings_cleans_prompt_and_hotkey() {
    let mut store = JsonFallbackStore::default();
    let mut s = AppSettings::default();
    s.whisper_initial_prompt = format!("a\0b{}", "x".repeat(800));
    s.dictation_hotkey = "nope".into();
    s.bypass_llm = false;
    let stored = store.update_settings(s);
    assert_eq!(stored.whisper_initial_prompt.chars().count(), 700);
    assert!(stored.whisper_initial_prompt.starts_with("abx"));
    assert_eq!(stored.dictation_hotkey, DEFAULT_DICTATION_HOTKEY_ID);
    assert!(!store.settings.bypass_llm);
}

#[test]
fn shipped_template_lookup_by_name() {
    let p = dictation::seed::builtin_named("en_business").unwrap();
    assert_eq!(p.language, "en");
    assert!(p.body.contains("{input}"));
    assert!(dictation::seed::builtin_named("nope").is_none());
}
