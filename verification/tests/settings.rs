use dictation::civil::{days_to_ymd, format_utc_datetime};
use dictation::db::{
    default_dictation_hotkey, key_pragma, sanitize_initial_prompt, search_pattern, settings_for_storage,
    settings_from_row, settings_migrations_needed, AppSettings, ADD_DICTATION_HOTKEY, ADD_INPUT_DEVICE,
    ADD_WHISPER_MODEL,
};
use dictation::error::DictationError;
use dictation::hotkey::{
    dictation_hotkey_ids, normalize_dictation_hotkey_id, resolve_hotkey_id, FnAction, FnState,
    DEFAULT_DICTATION_HOTKEY_ID,
};
use dictation::keystore::{key_from_stored, Keystore, SecretKey, StubKeystore};

#[test]
fn app_settings_default_uses_default_dictation_hotkey() {
    let settings = AppSettings::default();
    assert_eq!(settings.dictation_hotkey, default_dictation_hotkey());
}

#[test]
fn normalize_dictation_hotkey_accepts_known_preset() {
    assert_eq!(normalize_dictation_hotkey_id("primary_r"), "primary_r");
}

#[test]
fn normalize_dictation_hotkey_falls_back_to_default() {
    assert_eq!(normalize_dictation_hotkey_id("unknown"), DEFAULT_DICTATION_HOTKEY_ID);
}

#[test]
fn hotkey_normalisation_is_idempotent_and_known() {
    for id in ["primary_d", "primary_r", "primary_space", "ctrl_alt_space", "", "PRIMARY_D", "x"] {
        let once = normalize_dictation_hotkey_id(id);
        assert!(dictation_hotkey_ids().contains(&once.as_str()));
        assert_eq!(normalize_dictation_hotkey_id(&once), once);
    }
    assert_eq!(resolve_hotkey_id("ctrl_alt_space"), "ctrl_alt_space");
}

#[test]
fn app_settings_default_values() {
    let s = AppSettings::default();
    assert!(s.bypass_llm);
    assert_eq!(s.whisper_initial_prompt, "");
    assert!(s.input_device.is_none());
    assert_eq!(s.whisper_model, "small");
}

#[test]
fn initial_prompt_is_stripped_of_nul_and_capped() {
    assert_eq!(sanitize_initial_prompt("a\0b\0"), "ab");
    let long: String = "語".repeat(701);
    let cleaned = sanitize_initial_prompt(&long);
    assert_eq!(cleaned.chars().count(), 700);
    assert_eq!(sanitize_initial_prompt(&cleaned), cleaned);
    let nul_heavy = format!("{}{}", "\0".repeat(10), "a".repeat(700));
    assert_eq!(sanitize_initial_prompt(&nul_heavy), "a".repeat(700));
}

#[test]
fn settings_for_storage_and_from_row_normalise_hotkey() {
    let s = AppSettings {
        bypass_llm: false,
        whisper_initial_prompt: "p\0".into(),
        input_device: Some("Mic".into()),
        whisper_model: "medium".into(),
        dictation_hotkey: "bogus".into(),
    };
    let stored = settings_for_storage(s);
    assert_eq!(stored.whisper_initial_prompt, "p");
    assert_eq!(stored.dictation_hotkey, "primary_d");
    assert_eq!(stored.input_device.as_deref(), Some("Mic"));
    assert_eq!(stored.whisper_model, "medium");
    let row = settings_from_row(true, "x\0".into(), None, "small".into(), "primary_space");
    assert_eq!(row.dictation_hotkey, "primary_space");
    assert_eq!(row.whisper_initial_prompt, "x\0");
}

#[test]
fn search_pattern_wraps_query() {
    assert_eq!(search_pattern("abc"), "%abc%");
    assert_eq!(search_pattern(""), "%%");
}

#[test]
fn secret_key_hex_and_pragma() {
    let mut bytes = [0u8; 32];
    bytes[0] = 0xab;
    bytes[31] = 0x01;
    let key = SecretKey(bytes);
    let hex = key.as_hex();
    assert_eq!(hex.len(), 64);
    assert!(hex.starts_with("ab00"));
    assert!(hex.ends_with("0001"));
    assert_eq!(key_pragma(&key), format!("x'{hex}'"));
}

#[test]
fn stored_key_must_be_32_bytes() {
    assert_eq!(key_from_stored(&[1u8; 31]).err().unwrap(), "keychain key has wrong length: 31");
    assert_eq!(key_from_stored(&[]).err().unwrap(), "keychain key has wrong length: 0");
    let k = key_from_stored(&[7u8; 32]).ok().unwrap();
    assert_eq!(k.0, [7u8; 32]);
}

#[test]
fn stub_keystore_refuses() {
    assert_eq!(
        StubKeystore.get_or_create_db_key("svc").err().unwrap(),
        "Keystore not implemented for this platform"
    );
}

#[test]
fn utc_timestamps() {
    assert_eq!(format_utc_datetime(0), "1970-01-01 00:00:00");
    assert_eq!(format_utc_datetime(86_399), "1970-01-01 23:59:59");
    assert_eq!(format_utc_datetime(951_786_061), "2000-02-29 01:01:01");
    assert_eq!(format_utc_datetime(1_700_000_000), "2023-11-14 22:13:20");
    assert_eq!(format_utc_datetime(253_402_300_799), "9999-12-31 23:59:59");
}

#[test]
fn civil_dates_from_days() {
    assert_eq!(days_to_ymd(0), (1970, 1, 1));
    assert_eq!(days_to_ymd(11_016), (2000, 2, 29));
    assert_eq!(days_to_ymd(-1), (1969, 12, 31));
    assert_eq!(days_to_ymd(-719_162), (1, 1, 1));
    assert_eq!(days_to_ymd(-719_468), (0, 3, 1));
}

#[test]
fn error_messages_carry_the_part() {
    assert_eq!(DictationError::Llm("down".into()).message(), "LLM: down");
    assert_eq!(DictationError::Asr("x".into()).message(), "ASR: x");
    assert_eq!(DictationError::Audio("x".into()).message(), "Audio: x");
    assert_eq!(DictationError::Injection("x".into()).message(), "Injection: x");
    assert_eq!(DictationError::Database("x".into()).message(), "Database: x");
    assert_eq!(DictationError::Keystore("x".into()).message(), "Keystore: x");
    assert_eq!(DictationError::Permission("x".into()).message(), "Permission: x");
    assert_eq!(DictationError::Session("x".into()).message(), "Session: x");
}

#[test]
fn fn_key_short_press_announces_nothing() {
    let mut s = FnState::new();
    let a = s.on_flags(true);
    let id = match a {
        FnAction::ScheduleActivation { press_id } => press_id,
        _ => panic!("press must schedule"),
    };
    assert_eq!(id, 1);
    assert_eq!(s.on_flags(false), FnAction::Nothing);
    assert_eq!(s.on_timer(id), FnAction::Nothing);
}

#[test]
fn fn_key_long_press_announces_start_then_end() {
    let mut s = FnState::new();
    let id = match s.on_flags(true) {
        FnAction::ScheduleActivation { press_id } => press_id,
        _ => panic!("press must schedule"),
    };
    assert_eq!(s.on_flags(true), FnAction::Nothing);
    assert_eq!(s.on_timer(id), FnAction::EmitPressStart);
    assert_eq!(s.on_timer(id), FnAction::Nothing);
    assert_eq!(s.on_flags(false), FnAction::EmitPressEnd);
    assert_eq!(s.on_flags(false), FnAction::Nothing);
}

#[test]
fn fn_key_press_id_wraps() {
    let mut s = FnState { pressed: false, active: false, press_id: u64::MAX };
    assert_eq!(s.on_flags(true), FnAction::ScheduleActivation { press_id: 0 });
}

#[test]
fn settings_migrations_add_only_missing_columns() {
    let all: Vec<String> = vec!["id".into(), "input_device".into(), "whisper_model".into(), "dictation_hotkey".into()];
    assert!(settings_migrations_needed(&all).is_empty());
    let old: Vec<String> = vec!["id".into(), "bypass_llm".into(), "whisper_model".into()];
    assert_eq!(settings_migrations_needed(&old), vec![ADD_INPUT_DEVICE, ADD_DICTATION_HOTKEY]);
    assert_eq!(settings_migrations_needed(&vec![]), vec![ADD_INPUT_DEVICE, ADD_WHISPER_MODEL, ADD_DICTATION_HOTKEY]);
    assert!(ADD_WHISPER_MODEL.contains("VALUES (5)"));
}
