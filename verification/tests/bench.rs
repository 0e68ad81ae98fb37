use dictation::bench::{
    extract_input_section, first_gguf, now_iso, onnx_candidates, parse_allow_list, render_prompt,
    select_workloads, sha256_hex, split_file_name, task_type_for, workload_selected,
};

fn names(v: &[&str]) -> Vec<String> {
    v.iter().map(|s| s.to_string()).collect()
}

#[test]
fn task_type_is_the_first_matching_prefix() {
    assert_eq!(task_type_for("ja_keigo_01"), Some("ja_keigo"));
    assert_eq!(task_type_for("jp_en_mix_3"), Some("jp_en_mix"));
    assert_eq!(task_type_for("en_business_02"), Some("en_business"));
    assert_eq!(task_type_for("summary"), Some("summary"));
    assert_eq!(task_type_for("other_01"), None);
}

#[test]
fn input_section_is_trimmed_and_ends_at_next_heading() {
    let text = "# W\n## INPUT\n  hello\n world \n## EXPECTED\nx";
    assert_eq!(extract_input_section(text).unwrap(), "hello\n world");
    assert_eq!(extract_input_section("## INPUT\nall the rest\n").unwrap(), "all the rest");
    assert_eq!(extract_input_section("no marker").unwrap_err(), "workload missing '## INPUT'");
}

#[test]
fn render_prompt_replaces_only_the_first_input() {
    assert_eq!(render_prompt("a {input} b {input}", "X"), "a X b {input}");
    assert_eq!(render_prompt("none", "X"), "none");
}

#[test]
fn sha256_hex_of_known_strings() {
    assert_eq!(sha256_hex("abc"), "ba7816bf8f01cfea414140de5dae2223b00361a396177a9cb410ff61f20015ad");
    assert_eq!(sha256_hex(""), "e3b0c44298fc1c149afbf4c8996fb92427ae41e4649b934ca495991b7852b855");
    assert_eq!(sha256_hex("こんにちは"), "125aeadf27b0459b8760c13a3d80912dfa8a81a68261906f60d87f4a0268646c");
}

#[test]
fn now_iso_is_epoch_seconds() {
    assert_eq!(now_iso(0), "epoch:0");
    assert_eq!(now_iso(1_700_000_000), "epoch:1700000000");
}

#[test]
fn allow_list_is_trimmed_and_drops_empty_entries() {
    assert_eq!(parse_allow_list(" a , b,,c ,"), names(&["a", "b", "c"]));
    assert!(parse_allow_list("").is_empty());
    assert_eq!(parse_allow_list("x"), names(&["x"]));
}

#[test]
fn workload_selection() {
    let allow = names(&["ja_keigo_01"]);
    assert!(workload_selected(None, "anything"));
    assert!(workload_selected(Some(&allow), "ja_keigo_01"));
    assert!(!workload_selected(Some(&allow), "ja_keigo_02"));
}

#[test]
fn file_names_split_like_paths() {
    assert_eq!(split_file_name("a.txt"), ("a".to_string(), Some("txt".to_string())));
    assert_eq!(split_file_name("a.b.gguf"), ("a.b".to_string(), Some("gguf".to_string())));
    assert_eq!(split_file_name(".hidden"), (".hidden".to_string(), None));
    assert_eq!(split_file_name("noext"), ("noext".to_string(), None));
    assert_eq!(split_file_name("dot."), ("dot".to_string(), Some(String::new())));
    assert_eq!(split_file_name(".."), ("..".to_string(), None));
}

#[test]
fn workloads_are_filtered_and_sorted() {
    let files = names(&["b.txt", "a.txt", "notes.md", ".txt", "c.txt.bak", "ja_keigo_01.txt"]);
    assert_eq!(select_workloads(&files, None), names(&["a.txt", "b.txt", "ja_keigo_01.txt"]));
    let allow = names(&["ja_keigo_01", "b"]);
    assert_eq!(select_workloads(&files, Some(&allow)), names(&["b.txt", "ja_keigo_01.txt"]));
}

#[test]
fn first_gguf_in_sorted_order() {
    assert_eq!(first_gguf(&names(&["z.gguf", "tokenizer.json", "m-q4.gguf"])).as_deref(), Some("m-q4.gguf"));
    assert!(first_gguf(&names(&["a.bin", ".gguf"])).is_none());
}

#[test]
fn onnx_candidate_order() {
    assert_eq!(
        onnx_candidates(),
        vec![
            "model.onnx",
            "decoder_model_merged_q4.onnx",
            "model_q4.onnx",
            "model_q4f16.onnx",
            "decoder_model_merged.onnx"
        ]
    );
}
