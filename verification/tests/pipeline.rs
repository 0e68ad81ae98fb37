use dictation::asr::{
    check_download_digest, download_target, find_whisper_model, whisper_download_url, whisper_model_filename,
    whisper_models, ModelDownload,
};
use dictation::audio::{device_infos, find_device, AudioConfig, RING_BUFFER_SIZE};
use dictation::db::AppSettings;
use dictation::flow::{
    effective_settings, LoadFailure, StartAction, StartEvent, StartFlow, StartPhase, StopAction, StopEvent,
    StopFlow, StopPhase, WhisperFailure,
};
use dictation::inject::{
    context_from_value, focus_update, frontmost_from_output, inject_mode_from, is_self, InjectAction,
    InjectMode, TextInjector, MAX_CONTEXT_CHARS,
};
use dictation::llm::{api_url, pull_progress, rewrite_params, split_ndjson, GenerationStream, DEFAULT_OLLAMA_HOST};
use dictation::session::{
    assemble_transcript, check_can_start, needs_whisper_load, transcription_prompt, DictationSession,
    SessionStage,
};
use dictation::vad::retained_ranges;

const ABC_SHA256: &str = "ba7816bf8f01cfea414140de5dae2223b00361a396177a9cb410ff61f20015ad";

fn settings(device: Option<&str>, model: &str) -> AppSettings {
    AppSettings {
        bypass_llm: true,
        whisper_initial_prompt: String::new(),
        input_device: device.map(String::from),
        whisper_model: model.into(),
        dictation_hotkey: "primary_d".into(),
    }
}

#[test]
fn start_flow_loads_model_and_starts_capture() {
    let mut f = StartFlow::new();
    assert!(matches!(
        f.step(StartEvent::GateChecked { consent_given: true, session_active: false }),
        StartAction::ReadSettings
    ));
    let a = f.step(StartEvent::SettingsRead { from_db: None, from_json: Some(settings(Some("USB"), "medium")) });
    assert!(matches!(a, StartAction::InspectWhisper));
    match f.step(StartEvent::WhisperInspected { loaded_model: Some("small".into()) }) {
        StartAction::LocateModel { model_id } => assert_eq!(model_id, "medium"),
        _ => panic!("another model is loaded: locate the wanted one"),
    }
    match f.step(StartEvent::ModelLocated { found: true }) {
        StartAction::LoadWhisper { model_id } => assert_eq!(model_id, "medium"),
        _ => panic!("found: load"),
    }
    match f.step(StartEvent::WhisperLoaded { result: Ok(()) }) {
        StartAction::StartAudio { config, ring_capacity } => {
            assert_eq!(config.device_name.as_deref(), Some("USB"));
            assert_eq!(config.sample_rate, 16_000);
            assert_eq!(config.channels, 1);
            assert_eq!(ring_capacity, RING_BUFFER_SIZE);
        }
        _ => panic!("loaded: start audio"),
    }
    assert!(matches!(f.step(StartEvent::AudioStarted { result: Ok(()) }), StartAction::CreateSession));
    match f.step(StartEvent::SessionCreated { id: "sid".into() }) {
        StartAction::Finish { result, announce_recording } => {
            assert_eq!(result, Ok("sid".to_string()));
            assert!(announce_recording);
        }
        _ => panic!("finish"),
    }
    assert_eq!(f.phase, StartPhase::Finished);
    assert!(matches!(f.step(StartEvent::ModelLocated { found: true }), StartAction::Ignore));
}

#[test]
fn start_flow_skips_loading_when_model_is_loaded() {
    let mut f = StartFlow::new();
    f.step(StartEvent::GateChecked { consent_given: true, session_active: false });
    f.step(StartEvent::SettingsRead { from_db: Some(settings(None, "small")), from_json: None });
    match f.step(StartEvent::WhisperInspected { loaded_model: Some("small".into()) }) {
        StartAction::StartAudio { config, .. } => assert!(config.device_name.is_none()),
        _ => panic!("same model: straight to audio"),
    }
}

fn finish_error(a: StartAction) -> String {
    match a {
        StartAction::Finish { result: Err(e), announce_recording: false } => e,
        _ => panic!("expected a failure"),
    }
}

#[test]
fn start_flow_refusals() {
    let mut f = StartFlow::new();
    assert_eq!(
        finish_error(f.step(StartEvent::GateChecked { consent_given: false, session_active: true })),
        "Recording consent not granted"
    );
    let mut f = StartFlow::new();
    assert_eq!(
        finish_error(f.step(StartEvent::GateChecked { consent_given: true, session_active: true })),
        "Session already active"
    );
    let mut f = StartFlow::new();
    f.step(StartEvent::GateChecked { consent_given: true, session_active: false });
    f.step(StartEvent::SettingsRead { from_db: None, from_json: None });
    f.step(StartEvent::WhisperInspected { loaded_model: None });
    assert_eq!(
        finish_error(f.step(StartEvent::ModelLocated { found: false })),
        "Whisper model 'small' not found. Download it from Settings."
    );
}

#[test]
fn start_flow_load_and_audio_failures() {
    let start = |load: Result<(), LoadFailure>| {
        let mut f = StartFlow::new();
        f.step(StartEvent::GateChecked { consent_given: true, session_active: false });
        f.step(StartEvent::SettingsRead { from_db: None, from_json: None });
        f.step(StartEvent::WhisperInspected { loaded_model: None });
        f.step(StartEvent::ModelLocated { found: true });
        let a = f.step(StartEvent::WhisperLoaded { result: load });
        (f, a)
    };
    let (_, a) = start(Err(LoadFailure::Join("cancelled".into())));
    assert_eq!(finish_error(a), "join error: cancelled");
    let (_, a) = start(Err(LoadFailure::Load("bad file".into())));
    assert_eq!(finish_error(a), "whisper load failed: bad file");
    let (mut f, _) = start(Ok(()));
    assert_eq!(
        finish_error(f.step(StartEvent::AudioStarted { result: Err("no device".into()) })),
        "audio start failed: no device"
    );
}

fn stop_until_transcribe(prompt_db: Option<&str>) -> (StopFlow, StopAction) {
    let mut f = StopFlow::new();
    assert!(matches!(f.step(StopEvent::Claimed { had_session: true }), StopAction::StopAudio));
    assert!(matches!(f.step(StopEvent::AudioStopped), StopAction::Wait { millis: 100 }));
    assert!(matches!(f.step(StopEvent::Flushed), StopAction::DrainRing));
    assert!(matches!(f.step(StopEvent::Drained { available: Some(4000) }), StopAction::FilterSpeech));
    assert!(matches!(f.step(StopEvent::Filtered { kept: 2048 }), StopAction::AnnounceTranscribing));
    assert!(matches!(
        f.step(StopEvent::PromptRead { from_db: prompt_db.map(String::from), from_json: Some("json".into()) }),
        StopAction::CheckWhisper
    ));
    let a = f.step(StopEvent::WhisperChecked { loaded: true });
    (f, a)
}

#[test]
fn stop_flow_transcribes_and_assembles() {
    let (mut f, a) = stop_until_transcribe(Some("語彙\0"));
    match a {
        StopAction::Transcribe { language, initial_prompt } => {
            assert_eq!(language, "ja");
            assert_eq!(initial_prompt.as_deref(), Some("語彙"));
        }
        _ => panic!("transcribe"),
    }
    let segs = vec![Some(" こんにちは ".to_string()), None, Some("world".to_string())];
    match f.step(StopEvent::Transcribed { result: Ok(segs) }) {
        StopAction::Finish { result, announce_final } => {
            assert_eq!(result, Ok("こんにちは world".to_string()));
            assert!(announce_final);
        }
        _ => panic!("finish"),
    }
    assert_eq!(f.phase, StopPhase::Finished);
}

#[test]
fn stop_flow_prompt_falls_back_to_json_then_none() {
    let (_, a) = stop_until_transcribe(None);
    match a {
        StopAction::Transcribe { initial_prompt, .. } => assert_eq!(initial_prompt.as_deref(), Some("json")),
        _ => panic!("transcribe"),
    }
    let (_, a) = stop_until_transcribe(Some("\0\0"));
    match a {
        StopAction::Transcribe { initial_prompt, .. } => assert!(initial_prompt.is_none()),
        _ => panic!("transcribe"),
    }
}

fn stop_error(a: StopAction) -> String {
    match a {
        StopAction::Finish { result: Err(e), announce_final: false } => e,
        _ => panic!("expected a failure"),
    }
}

#[test]
fn stop_flow_early_ends() {
    let mut f = StopFlow::new();
    match f.step(StopEvent::Claimed { had_session: false }) {
        StopAction::Finish { result, announce_final } => {
            assert_eq!(result, Ok(String::new()));
            assert!(!announce_final);
        }
        _ => panic!("nothing to stop"),
    }
    let drained = |available: Option<usize>| {
        let mut f = StopFlow::new();
        f.step(StopEvent::Claimed { had_session: true });
        f.step(StopEvent::AudioStopped);
        f.step(StopEvent::Flushed);
        let a = f.step(StopEvent::Drained { available });
        (f, a)
    };
    assert_eq!(stop_error(drained(Some(0)).1), "No audio captured");
    assert!(matches!(drained(None).1, StopAction::Finish { result: Ok(_), announce_final: false }));
    let (mut f, _) = drained(Some(10));
    assert_eq!(stop_error(f.step(StopEvent::Filtered { kept: 0 })), "No speech detected in audio");
}

#[test]
fn stop_flow_recogniser_failures() {
    let mut f = StopFlow::new();
    f.step(StopEvent::Claimed { had_session: true });
    f.step(StopEvent::AudioStopped);
    f.step(StopEvent::Flushed);
    f.step(StopEvent::Drained { available: Some(1) });
    f.step(StopEvent::Filtered { kept: 1 });
    f.step(StopEvent::PromptRead { from_db: None, from_json: None });
    assert_eq!(stop_error(f.step(StopEvent::WhisperChecked { loaded: false })), "Whisper model not loaded");
    for (failure, message) in [
        (WhisperFailure::Join("panic".into()), "join: panic"),
        (WhisperFailure::State("oom".into()), "transcribe: whisper state: oom"),
        (WhisperFailure::Full("bad".into()), "transcribe: whisper transcribe: bad"),
    ] {
        let (mut f, _) = stop_until_transcribe(None);
        assert_eq!(stop_error(f.step(StopEvent::Transcribed { result: Err(failure) })), message);
    }
}

#[test]
fn stop_flow_ignores_out_of_order_events() {
    let mut f = StopFlow::new();
    assert!(matches!(f.step(StopEvent::Flushed), StopAction::Ignore));
    assert_eq!(f.phase, StopPhase::Claiming);
}

#[test]
fn effective_settings_prefers_database() {
    let s = effective_settings(Some(settings(None, "medium")), Some(settings(None, "small")));
    assert_eq!(s.whisper_model, "medium");
    let s = effective_settings(None, None);
    assert_eq!(s.whisper_model, "small");
    assert!(s.bypass_llm);
}

#[test]
fn session_lifecycle() {
    let mut s = DictationSession::new();
    assert_eq!(s.id.len(), 36);
    assert_eq!(&s.id[14..15], "4");
    assert!(matches!(&s.id[19..20], "8" | "9" | "a" | "b"));
    assert_eq!(s.stage, SessionStage::Idle);
    let id = s.id.clone();
    s.transition(SessionStage::Recording);
    assert_eq!(s.info().stage, SessionStage::Recording);
    s.fail("asr", "boom");
    assert_eq!(s.info().stage, SessionStage::Error { stage: "asr".into(), message: "boom".into() });
    assert_eq!(s.info().id, id);
    assert_ne!(DictationSession::new().id, id);
}

#[test]
fn session_start_checks_and_helpers() {
    assert_eq!(check_can_start(false, false).unwrap_err(), "Recording consent not granted");
    assert_eq!(check_can_start(true, true).unwrap_err(), "Session already active");
    assert!(check_can_start(true, false).is_ok());
    assert!(needs_whisper_load(None, "small"));
    assert!(needs_whisper_load(Some("medium"), "small"));
    assert!(!needs_whisper_load(Some("small"), "small"));
    assert_eq!(transcription_prompt("a\0b").as_deref(), Some("ab"));
    assert!(transcription_prompt("").is_none());
    assert_eq!(assemble_transcript(&vec![None, Some("  a ".into()), Some("b".into())]), "a b");
    assert_eq!(assemble_transcript(&vec![]), "");
}

#[test]
fn ndjson_split_and_chunked_stream_agree() {
    let (lines, tail) = split_ndjson("{\"a\":1}\n  \n {\"b\":2} \n{\"c\"");
    assert_eq!(lines, vec!["{\"a\":1}".to_string(), "{\"b\":2}".to_string()]);
    assert_eq!(tail, "{\"c\"");
    let mut s = GenerationStream::new();
    let mut all = Vec::new();
    for chunk in ["{\"a\":", "1}\n  \n {\"b\"", ":2} \n{\"c\""] {
        all.extend(s.push_text(chunk));
    }
    assert_eq!(all, lines);
    assert_eq!(s.buffer, tail);
}

#[test]
fn generation_stream_assembles_responses() {
    let mut s = GenerationStream::new();
    assert_eq!(s.apply_reply("Hel".into(), false), (Some("Hel".to_string()), false));
    assert_eq!(s.apply_reply("".into(), false), (None, false));
    assert_eq!(s.apply_reply("lo".into(), true), (Some("lo".to_string()), true));
    assert_eq!(s.full_response, "Hello");
}

#[test]
fn llm_request_helpers() {
    assert_eq!(api_url(DEFAULT_OLLAMA_HOST, "/api/tags"), "http://127.0.0.1:11434/api/tags");
    let p = rewrite_params("m".into(), "p".into(), None);
    assert_eq!(p.max_new_tokens, 512);
    assert_eq!(rewrite_params("m".into(), "p".into(), Some(7)).max_new_tokens, 7);
    let g = pull_progress("gemma", None, Some(10), None);
    assert_eq!(g.status, "");
    assert_eq!(g.total, 10);
    assert_eq!(g.completed, 0);
    assert_eq!(g.model, "gemma");
}

#[test]
fn whisper_catalogue_and_urls() {
    assert_eq!(whisper_models().len(), 3);
    assert_eq!(whisper_model_filename("large-v3-turbo"), "ggml-large-v3-turbo.bin");
    assert_eq!(whisper_model_filename("nope"), "ggml-small.bin");
    assert!(find_whisper_model("small").unwrap().is_bundled);
    assert_eq!(
        whisper_download_url("ggml-small.bin"),
        "https://huggingface.co/ggerganov/whisper.cpp/resolve/main/ggml-small.bin"
    );
    assert_eq!(download_target("tiny").err().unwrap(), "Unknown model: tiny");
    assert_eq!(download_target("medium").unwrap().filename, "ggml-medium.bin");
}

#[test]
fn download_digest_is_checked_over_all_chunks() {
    let mut m = find_whisper_model("small").unwrap();
    m.sha256 = ABC_SHA256;
    let mut d = ModelDownload::begin(&m, None);
    assert_eq!(d.total, 466_000_000);
    let p = d.on_chunk(b"a");
    assert_eq!((p.downloaded, p.total), (1, 466_000_000));
    let p = d.on_chunk(b"bc");
    assert_eq!(p.downloaded, 3);
    assert_eq!(p.model_id, "small");
    assert!(d.finish().is_ok());

    let mut d = ModelDownload::begin(&m, Some(2));
    assert_eq!(d.total, 2);
    d.on_chunk(b"ab");
    let e = d.finish().unwrap_err();
    assert!(e.starts_with(&format!("SHA-256 mismatch: expected {ABC_SHA256}, got ")));
    assert_eq!(e.len(), "SHA-256 mismatch: expected , got ".len() + 128);
    assert_ne!(&e[e.len() - 64..], ABC_SHA256);
}

#[test]
fn download_digest_unchecked_when_nothing_expected() {
    assert!(check_download_digest("", &[1, 2, 3]).is_ok());
    assert_eq!(
        check_download_digest("00", &[0xab, 0x01]).unwrap_err(),
        "SHA-256 mismatch: expected 00, got ab01"
    );
    assert!(check_download_digest("ab01", &[0xab, 0x01]).is_ok());
}

#[test]
fn vad_ranges() {
    assert!(retained_ranges(0, &vec![]).is_empty());
    assert_eq!(retained_ranges(100, &vec![]), vec![(0, 100)]);
    assert!(retained_ranges(256 * 20, &vec![false; 20]).is_empty());
    let mut speech = vec![false; 10];
    speech[5] = true;
    let r = retained_ranges(256 * 10 + 10, &speech);
    assert_eq!(r, (2..=8).map(|i| (i * 256, (i + 1) * 256)).collect::<Vec<_>>());
    let mut speech = vec![false; 10];
    speech[9] = true;
    let r = retained_ranges(256 * 10 + 10, &speech);
    assert_eq!(r.last(), Some(&(2560, 2570)));
    assert_eq!(r.first(), Some(&(6 * 256, 7 * 256)));
}

#[test]
fn silence_returns_empty() {
    let silence_frames = vec![false; 20];
    let result = retained_ranges(256 * 20, &silence_frames);
    let kept: usize = result.iter().map(|(a, b)| b - a).sum();
    assert!(result.is_empty() || kept < 256 * 20);
}

#[test]
fn short_input_returned_as_is() {
    let result = retained_ranges(100, &vec![]);
    let kept: usize = result.iter().map(|(a, b)| b - a).sum();
    assert_eq!(kept, 100);
}

#[test]
fn empty_input_returns_empty() {
    assert!(retained_ranges(0, &vec![]).is_empty());
}

#[test]
fn injection_plans() {
    let p = TextInjector::inject("hi", InjectMode::Direct);
    assert!(matches!(&p[..], [InjectAction::TypeText(t)] if t == "hi"));
    let p = TextInjector::inject("hi", InjectMode::Clipboard);
    assert!(matches!(&p[..], [InjectAction::SetClipboard(t), InjectAction::SynthPaste] if t == "hi"));
    assert_eq!(inject_mode_from(Some("direct")), InjectMode::Direct);
    assert_eq!(inject_mode_from(Some("Direct")), InjectMode::Clipboard);
    assert_eq!(inject_mode_from(None), InjectMode::Clipboard);
}

#[test]
fn focused_field_context_is_capped() {
    assert!(context_from_value("").is_none());
    let c = context_from_value("abc").unwrap();
    assert_eq!((c.text.as_str(), c.truncated), ("abc", false));
    let long = "あ".repeat(MAX_CONTEXT_CHARS + 1);
    let c = context_from_value(&long).unwrap();
    assert_eq!(c.text.chars().count(), MAX_CONTEXT_CHARS);
    assert!(c.truncated);
    let exact = "a".repeat(MAX_CONTEXT_CHARS);
    assert!(!context_from_value(&exact).unwrap().truncated);
}

#[test]
fn focus_tracking() {
    assert!(is_self("Dictation"));
    assert!(is_self("dictation"));
    assert!(!is_self("Dictation2"));
    let u = focus_update(Some(true), "Safari");
    assert!(u.external_focused && u.moved_to_external);
    assert_eq!(u.last_was_self, Some(false));
    let u = focus_update(None, "Safari");
    assert!(!u.moved_to_external);
    let u = focus_update(Some(false), "DICTATION");
    assert!(!u.external_focused && !u.moved_to_external);
    assert_eq!(frontmost_from_output(true, " Finder\n").as_deref(), Some("Finder"));
    assert!(frontmost_from_output(true, "  \n").is_none());
    assert!(frontmost_from_output(false, "Finder").is_none());
}

#[test]
fn audio_devices_and_config() {
    let d = device_infos(vec!["A".into(), "B".into()], Some("B".into()));
    assert_eq!(d.len(), 2);
    assert!(!d[0].is_default && d[1].is_default);
    assert!(device_infos(vec!["A".into()], None).iter().all(|x| !x.is_default));
    let c = AudioConfig::default();
    assert_eq!((c.sample_rate, c.channels), (16_000, 1));
    assert!(c.device_name.is_none());
}

#[test]
fn capture_device_is_found_by_name() {
    let names = vec![None, Some("Built-in".to_string()), Some("USB".to_string()), Some("USB".to_string())];
    assert_eq!(find_device(&names, &Some("USB".to_string())), Some(2));
    assert_eq!(find_device(&names, &Some("Missing".to_string())), None);
    assert_eq!(find_device(&names, &None), None);
}

#[test]
fn whisper_catalogue_display_names() {
    let names: Vec<&str> = whisper_models().iter().map(|m| m.display_name).collect();
    assert_eq!(
        names,
        vec!["Small (466 MB)", "Medium (1.5 GB) — より高精度", "Large v3 Turbo (1.6 GB) — 最高精度"]
    );
}
