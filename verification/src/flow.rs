//! The steps of starting and stopping a dictation. The app does each step's
//! outside work (locks, the recogniser, the audio device, timers, events to
//! the window) and reports what happened; these machines decide what comes
//! next and what the command finally answers.

use vstd::prelude::*;
use crate::audio::{AudioConfig, RING_BUFFER_SIZE};
use crate::db::{opt_view, AppSettings};
use crate::session::{
    assemble_transcript, assembled_transcript, needs_whisper_load, start_refusal,
    transcription_prompt,
};
use crate::text::{append_str, chars_of, remove_nul_seq, string_from_chars};

verus! {

broadcast use vstd::string::group_string_axioms;

// ---------------------------------------------------------------------------
// Settings in effect
// ---------------------------------------------------------------------------

/// `s` holds the default settings.
pub open spec fn is_default_settings(s: AppSettings) -> bool {
    &&& s.bypass_llm
    &&& s.whisper_initial_prompt@ == Seq::<char>::empty()
    &&& s.input_device is None
    &&& s.whisper_model@ == "small"@
    &&& s.dictation_hotkey@ == crate::hotkey::DEFAULT_DICTATION_HOTKEY_ID@
}

/// The settings a command works with: the database's when they could be
/// read, else the JSON store's, else the defaults.
pub fn effective_settings(from_db: Option<AppSettings>, from_json: Option<AppSettings>) -> (r:
    AppSettings)
    ensures
        match from_db {
            Some(s) => r == s,
            None => match from_json {
                Some(s) => r == s,
                None => is_default_settings(r),
            },
        },
{
    match from_db {
        Some(s) => s,
        None => match from_json {
            Some(s) => s,
            None => AppSettings::default(),
        },
    }
}

// ---------------------------------------------------------------------------
// Starting a dictation
// ---------------------------------------------------------------------------

/// Where a start request stands.
#[derive(Debug, Clone, Copy, PartialEq, Eq, Structural)]
pub enum StartPhase {
    Gate,
    Settings,
    Whisper,
    Locating,
    Loading,
    Audio,
    Session,
    Finished,
}

/// How loading the recogniser failed.
#[derive(Debug, Clone)]
pub enum LoadFailure {
    /// The loading task did not complete.
    Join(String),
    /// The recogniser refused the model file.
    Load(String),
}

/// What the app reports back while starting.
pub enum StartEvent {
    GateChecked { consent_given: bool, session_active: bool },
    SettingsRead { from_db: Option<AppSettings>, from_json: Option<AppSettings> },
    WhisperInspected { loaded_model: Option<String> },
    ModelLocated { found: bool },
    WhisperLoaded { result: Result<(), LoadFailure> },
    AudioStarted { result: Result<(), String> },
    SessionCreated { id: String },
}

/// What the app does next while starting.
pub enum StartAction {
    /// Read the settings from the database and the JSON store.
    ReadSettings,
    /// Report which recogniser model is loaded, if any.
    InspectWhisper,
    /// Drop the loaded recogniser and look for the model file.
    LocateModel { model_id: String },
    /// Load the recogniser from the file found.
    LoadWhisper { model_id: String },
    /// Open a ring buffer of `ring_capacity` samples and start capturing.
    StartAudio { config: AudioConfig, ring_capacity: usize },
    /// Create and register a new session.
    CreateSession,
    /// Answer the command; announce the recording stage on success.
    Finish { result: Result<String, String>, announce_recording: bool },
    /// The event does not belong to this stage; nothing changes.
    Ignore,
}

/// A start request in progress: its stage and the settings it runs with.
pub struct StartFlow {
    pub phase: StartPhase,
    pub device_name: Option<String>,
    pub model_id: String,
}

/// The error for a recogniser model that is not on disk.
pub open spec fn model_missing_error(id: Seq<char>) -> Seq<char> {
    "Whisper model '"@ + id + "' not found. Download it from Settings."@
}

/// The error for a failed recogniser load.
pub open spec fn load_failure_message(f: LoadFailure) -> Seq<char> {
    match f {
        LoadFailure::Join(e) => "join error: "@ + e@,
        LoadFailure::Load(e) => "whisper load failed: "@ + e@,
    }
}

/// `a` is the failing answer `message`.
pub open spec fn start_fails_with(a: StartAction, message: Seq<char>) -> bool {
    a matches StartAction::Finish { result: Err(e), announce_recording: false } && e@ == message
}

/// `a` starts capturing from the flow's device with the default format.
pub open spec fn starts_audio(a: StartAction, device: Option<String>) -> bool {
    &&& a matches StartAction::StartAudio { config, ring_capacity }
    &&& a->config.device_name == device
    &&& a->config.sample_rate == 16000
    &&& a->config.channels == 1
    &&& a->ring_capacity == RING_BUFFER_SIZE
}

/// One step of a start request: from `s`, event `ev` leads to `t` and
/// action `a`.
pub open spec fn start_step(s: StartFlow, ev: StartEvent, t: StartFlow, a: StartAction) -> bool {
    match (s.phase, ev) {
        (StartPhase::Gate, StartEvent::GateChecked { consent_given, session_active }) => {
            &&& t.device_name == s.device_name
            &&& t.model_id == s.model_id
            &&& match start_refusal(consent_given, session_active) {
                Some(m) => t.phase == StartPhase::Finished && start_fails_with(a, m),
                None => t.phase == StartPhase::Settings && a is ReadSettings,
            }
        },
        (StartPhase::Settings, StartEvent::SettingsRead { from_db, from_json }) => {
            let chosen = match from_db {
                Some(x) => Some(x),
                None => from_json,
            };
            &&& t.phase == StartPhase::Whisper
            &&& a is InspectWhisper
            &&& match chosen {
                Some(x) => t.device_name == x.input_device && t.model_id == x.whisper_model,
                None => t.device_name is None && t.model_id@ == "small"@,
            }
        },
        (StartPhase::Whisper, StartEvent::WhisperInspected { loaded_model }) => {
            &&& t.device_name == s.device_name
            &&& t.model_id == s.model_id
            &&& if (match loaded_model {
                Some(l) => l@ != s.model_id@,
                None => true,
            }) {
                t.phase == StartPhase::Locating && (a matches StartAction::LocateModel { model_id }
                    && model_id@ == s.model_id@)
            } else {
                t.phase == StartPhase::Audio && starts_audio(a, s.device_name)
            }
        },
        (StartPhase::Locating, StartEvent::ModelLocated { found }) => {
            &&& t.device_name == s.device_name
            &&& t.model_id == s.model_id
            &&& if found {
                t.phase == StartPhase::Loading && (a matches StartAction::LoadWhisper { model_id }
                    && model_id@ == s.model_id@)
            } else {
                t.phase == StartPhase::Finished && start_fails_with(a, model_missing_error(s.model_id@))
            }
        },
        (StartPhase::Loading, StartEvent::WhisperLoaded { result }) => {
            &&& t.device_name == s.device_name
            &&& t.model_id == s.model_id
            &&& match result {
                Ok(()) => t.phase == StartPhase::Audio && starts_audio(a, s.device_name),
                Err(f) => t.phase == StartPhase::Finished && start_fails_with(a, load_failure_message(f)),
            }
        },
        (StartPhase::Audio, StartEvent::AudioStarted { result }) => {
            &&& t.device_name == s.device_name
            &&& t.model_id == s.model_id
            &&& match result {
                Ok(()) => t.phase == StartPhase::Session && a is CreateSession,
                Err(e) => t.phase == StartPhase::Finished && start_fails_with(
                    a,
                    "audio start failed: "@ + e@,
                ),
            }
        },
        (StartPhase::Session, StartEvent::SessionCreated { id }) => {
            &&& t.phase == StartPhase::Finished
            &&& t.device_name == s.device_name
            &&& t.model_id == s.model_id
            &&& a matches StartAction::Finish { result: Ok(x), announce_recording: true } && x == id
        },
        _ => t == s && a is Ignore,
    }
}

fn audio_for(device_name: &Option<String>) -> (a: StartAction)
    ensures
        starts_audio(a, *device_name),
{
    let config = AudioConfig { device_name: crate::db::copy_opt(device_name), ..AudioConfig::default() };
    StartAction::StartAudio { config, ring_capacity: RING_BUFFER_SIZE }
}

fn start_failure(message: Vec<char>) -> (a: StartAction)
    ensures
        start_fails_with(a, message@),
{
    StartAction::Finish { result: Err(string_from_chars(&message)), announce_recording: false }
}

impl StartFlow {
    /// A start request that has checked nothing yet.
    pub fn new() -> (r: Self)
        ensures
            r.phase == StartPhase::Gate,
            r.device_name is None,
            r.model_id@ == Seq::<char>::empty(),
    {
        StartFlow { phase: StartPhase::Gate, device_name: None, model_id: String::new() }
    }

    /// Takes the app's report of the last step and returns the next one
    /// (see [`start_step`]). In order: consent and an idle session are
    /// required; the settings give the device and the recogniser model; the
    /// recogniser is (re)loaded when another model or none is loaded, and a
    /// missing model file or a failed load ends the request; then capture
    /// starts, a session is created, and its identifier is the answer.
    pub fn step(&mut self, ev: StartEvent) -> (a: StartAction)
        ensures
            start_step(*old(self), ev, *final(self), a),
    {
        match (self.phase, ev) {
            (StartPhase::Gate, StartEvent::GateChecked { consent_given, session_active }) => {
                match crate::session::check_can_start(consent_given, session_active) {
                    Err(e) => {
                        self.phase = StartPhase::Finished;
                        StartAction::Finish { result: Err(e), announce_recording: false }
                    },
                    Ok(()) => {
                        self.phase = StartPhase::Settings;
                        StartAction::ReadSettings
                    },
                }
            },
            (StartPhase::Settings, StartEvent::SettingsRead { from_db, from_json }) => {
                let s = effective_settings(from_db, from_json);
                self.device_name = s.input_device;
                self.model_id = s.whisper_model;
                self.phase = StartPhase::Whisper;
                StartAction::InspectWhisper
            },
            (StartPhase::Whisper, StartEvent::WhisperInspected { loaded_model }) => {
                let needs = match &loaded_model {
                    Some(l) => needs_whisper_load(Some(l.as_str()), self.model_id.as_str()),
                    None => needs_whisper_load(None, self.model_id.as_str()),
                };
                if needs {
                    self.phase = StartPhase::Locating;
                    StartAction::LocateModel { model_id: self.model_id.clone() }
                } else {
                    self.phase = StartPhase::Audio;
                    audio_for(&self.device_name)
                }
            },
            (StartPhase::Locating, StartEvent::ModelLocated { found }) => {
                if found {
                    self.phase = StartPhase::Loading;
                    StartAction::LoadWhisper { model_id: self.model_id.clone() }
                } else {
                    self.phase = StartPhase::Finished;
                    let mut m = chars_of("Whisper model '");
                    append_str(&mut m, self.model_id.as_str());
                    append_str(&mut m, "' not found. Download it from Settings.");
                    start_failure(m)
                }
            },
            (StartPhase::Loading, StartEvent::WhisperLoaded { result }) => {
                match result {
                    Ok(()) => {
                        self.phase = StartPhase::Audio;
                        audio_for(&self.device_name)
                    },
                    Err(LoadFailure::Join(e)) => {
                        self.phase = StartPhase::Finished;
                        let mut m = chars_of("join error: ");
                        append_str(&mut m, e.as_str());
                        start_failure(m)
                    },
                    Err(LoadFailure::Load(e)) => {
                        self.phase = StartPhase::Finished;
                        let mut m = chars_of("whisper load failed: ");
                        append_str(&mut m, e.as_str());
                        start_failure(m)
                    },
                }
            },
            (StartPhase::Audio, StartEvent::AudioStarted { result }) => {
                match result {
                    Ok(()) => {
                        self.phase = StartPhase::Session;
                        StartAction::CreateSession
                    },
                    Err(e) => {
                        self.phase = StartPhase::Finished;
                        let mut m = chars_of("audio start failed: ");
                        append_str(&mut m, e.as_str());
                        start_failure(m)
                    },
                }
            },
            (StartPhase::Session, StartEvent::SessionCreated { id }) => {
                self.phase = StartPhase::Finished;
                StartAction::Finish { result: Ok(id), announce_recording: true }
            },
            _ => StartAction::Ignore,
        }
    }
}

// ---------------------------------------------------------------------------
// Stopping a dictation
// ---------------------------------------------------------------------------

/// Where a stop request stands.
#[derive(Debug, Clone, Copy, PartialEq, Eq, Structural)]
pub enum StopPhase {
    Claiming,
    Stopping,
    Flushing,
    Draining,
    Filtering,
    Reading,
    Checking,
    Transcribing,
    Finished,
}

/// How a transcription failed.
#[derive(Debug, Clone)]
pub enum WhisperFailure {
    /// The transcription task did not complete.
    Join(String),
    /// The recogniser could not create its state.
    State(String),
    /// The recogniser failed on the audio.
    Full(String),
}

/// What the app reports back while stopping.
pub enum StopEvent {
    Claimed { had_session: bool },
    AudioStopped,
    Flushed,
    Drained { available: Option<usize> },
    Filtered { kept: usize },
    PromptRead { from_db: Option<String>, from_json: Option<String> },
    WhisperChecked { loaded: bool },
    /// The recogniser's segments, `None` for one that could not be read.
    Transcribed { result: Result<Vec<Option<String>>, WhisperFailure> },
}

/// What the app does next while stopping.
pub enum StopAction {
    /// Stop the audio capture.
    StopAudio,
    /// Let the capture thread flush its last samples.
    Wait { millis: u64 },
    /// Take the ring buffer and report how many samples it holds.
    DrainRing,
    /// Run the voice-activity filter over the samples.
    FilterSpeech,
    /// Announce the transcribing stage, then read the recogniser prompt.
    AnnounceTranscribing,
    /// Report whether a recogniser is loaded.
    CheckWhisper,
    /// Transcribe the filtered samples.
    Transcribe { language: String, initial_prompt: Option<String> },
    /// Answer the command; announce the final transcript on success.
    Finish { result: Result<String, String>, announce_final: bool },
    /// The event does not belong to this stage; nothing changes.
    Ignore,
}

/// A stop request in progress: its stage and the recogniser prompt once it
/// is known.
pub struct StopFlow {
    pub phase: StopPhase,
    pub initial_prompt: Option<String>,
}

/// The error for a failed transcription.
pub open spec fn whisper_failure_message(f: WhisperFailure) -> Seq<char> {
    match f {
        WhisperFailure::Join(e) => "join: "@ + e@,
        WhisperFailure::State(e) => "transcribe: whisper state: "@ + e@,
        WhisperFailure::Full(e) => "transcribe: whisper transcribe: "@ + e@,
    }
}

/// `a` is the failing answer `message`.
pub open spec fn stop_fails_with(a: StopAction, message: Seq<char>) -> bool {
    a matches StopAction::Finish { result: Err(e), announce_final: false } && e@ == message
}

/// `a` is the empty answer of a stop with nothing to do.
pub open spec fn stop_answers_nothing(a: StopAction) -> bool {
    a matches StopAction::Finish { result: Ok(x), announce_final: false } && x@ == Seq::<char>::empty()
}

/// The recogniser prompt a stop works with: the database's setting, else
/// the JSON store's, else none; NUL characters dropped, and no prompt when
/// nothing is left.
pub open spec fn stop_prompt(from_db: Option<Seq<char>>, from_json: Option<Seq<char>>) -> Option<
    Seq<char>,
> {
    let p = match from_db {
        Some(x) => x,
        None => match from_json {
            Some(x) => x,
            None => Seq::empty(),
        },
    };
    if remove_nul_seq(p).len() == 0 {
        None
    } else {
        Some(remove_nul_seq(p))
    }
}

/// One step of a stop request: from `s`, event `ev` leads to `t` and action
/// `a`.
pub open spec fn stop_step(s: StopFlow, ev: StopEvent, t: StopFlow, a: StopAction) -> bool {
    match (s.phase, ev) {
        (StopPhase::Claiming, StopEvent::Claimed { had_session }) => {
            &&& t.initial_prompt == s.initial_prompt
            &&& if had_session {
                t.phase == StopPhase::Stopping && a is StopAudio
            } else {
                t.phase == StopPhase::Finished && stop_answers_nothing(a)
            }
        },
        (StopPhase::Stopping, StopEvent::AudioStopped) => {
            &&& t.initial_prompt == s.initial_prompt
            &&& t.phase == StopPhase::Flushing
            &&& a matches StopAction::Wait { millis } && millis == 100
        },
        (StopPhase::Flushing, StopEvent::Flushed) => {
            &&& t.initial_prompt == s.initial_prompt
            &&& t.phase == StopPhase::Draining
            &&& a is DrainRing
        },
        (StopPhase::Draining, StopEvent::Drained { available }) => {
            &&& t.initial_prompt == s.initial_prompt
            &&& match available {
                None => t.phase == StopPhase::Finished && stop_answers_nothing(a),
                Some(n) => if n == 0 {
                    t.phase == StopPhase::Finished && stop_fails_with(a, "No audio captured"@)
                } else {
                    t.phase == StopPhase::Filtering && a is FilterSpeech
                },
            }
        },
        (StopPhase::Filtering, StopEvent::Filtered { kept }) => {
            &&& t.initial_prompt == s.initial_prompt
            &&& if kept == 0 {
                t.phase == StopPhase::Finished && stop_fails_with(a, "No speech detected in audio"@)
            } else {
                t.phase == StopPhase::Reading && a is AnnounceTranscribing
            }
        },
        (StopPhase::Reading, StopEvent::PromptRead { from_db, from_json }) => {
            &&& t.phase == StopPhase::Checking
            &&& a is CheckWhisper
            &&& opt_view(t.initial_prompt) == stop_prompt(opt_view(from_db), opt_view(from_json))
        },
        (StopPhase::Checking, StopEvent::WhisperChecked { loaded }) => {
            &&& t.initial_prompt == s.initial_prompt
            &&& if loaded {
                &&& t.phase == StopPhase::Transcribing
                &&& a matches StopAction::Transcribe { language, initial_prompt }
                &&& a->language@ == "ja"@
                &&& a->initial_prompt == s.initial_prompt
            } else {
                t.phase == StopPhase::Finished && stop_fails_with(a, "Whisper model not loaded"@)
            }
        },
        (StopPhase::Transcribing, StopEvent::Transcribed { result }) => {
            &&& t.initial_prompt == s.initial_prompt
            &&& t.phase == StopPhase::Finished
            &&& match result {
                Ok(segments) => a matches StopAction::Finish { result: Ok(x), announce_final: true }
                    && x@ == assembled_transcript(
                    segments@.map_values(|o: Option<String>| opt_view(o)),
                ),
                Err(f) => stop_fails_with(a, whisper_failure_message(f)),
            }
        },
        _ => t == s && a is Ignore,
    }
}

fn stop_failure(message: Vec<char>) -> (a: StopAction)
    ensures
        stop_fails_with(a, message@),
{
    StopAction::Finish { result: Err(string_from_chars(&message)), announce_final: false }
}

fn nothing_to_stop() -> (a: StopAction)
    ensures
        stop_answers_nothing(a),
{
    StopAction::Finish { result: Ok(String::new()), announce_final: false }
}

impl StopFlow {
    /// A stop request that has done nothing yet.
    pub fn new() -> (r: Self)
        ensures
            r.phase == StopPhase::Claiming,
            r.initial_prompt is None,
    {
        StopFlow { phase: StopPhase::Claiming, initial_prompt: None }
    }

    /// Takes the app's report of the last step and returns the next one
    /// (see [`stop_step`]). In order: without a session there is nothing to
    /// do; capture stops and its last samples are flushed; an empty ring
    /// buffer, or a recording in which the filter keeps no speech, ends the
    /// request with an error; the transcribing stage is announced and the
    /// recogniser prompt read; a loaded recogniser transcribes in Japanese,
    /// and the assembled transcript is the answer.
    pub fn step(&mut self, ev: StopEvent) -> (a: StopAction)
        ensures
            stop_step(*old(self), ev, *final(self), a),
    {
        match (self.phase, ev) {
            (StopPhase::Claiming, StopEvent::Claimed { had_session }) => {
                if had_session {
                    self.phase = StopPhase::Stopping;
                    StopAction::StopAudio
                } else {
                    self.phase = StopPhase::Finished;
                    nothing_to_stop()
                }
            },
            (StopPhase::Stopping, StopEvent::AudioStopped) => {
                self.phase = StopPhase::Flushing;
                StopAction::Wait { millis: 100 }
            },
            (StopPhase::Flushing, StopEvent::Flushed) => {
                self.phase = StopPhase::Draining;
                StopAction::DrainRing
            },
            (StopPhase::Draining, StopEvent::Drained { available }) => {
                match available {
                    None => {
                        self.phase = StopPhase::Finished;
                        nothing_to_stop()
                    },
                    Some(n) => {
                        if n == 0 {
                            self.phase = StopPhase::Finished;
                            stop_failure(chars_of("No audio captured"))
                        } else {
                            self.phase = StopPhase::Filtering;
                            StopAction::FilterSpeech
                        }
                    },
                }
            },
            (StopPhase::Filtering, StopEvent::Filtered { kept }) => {
                if kept == 0 {
                    self.phase = StopPhase::Finished;
                    stop_failure(chars_of("No speech detected in audio"))
                } else {
                    self.phase = StopPhase::Reading;
                    StopAction::AnnounceTranscribing
                }
            },
            (StopPhase::Reading, StopEvent::PromptRead { from_db, from_json }) => {
                let p = match from_db {
                    Some(x) => x,
                    None => match from_json {
                        Some(x) => x,
                        None => String::new(),
                    },
                };
                self.initial_prompt = transcription_prompt(p.as_str());
                self.phase = StopPhase::Checking;
                StopAction::CheckWhisper
            },
            (StopPhase::Checking, StopEvent::WhisperChecked { loaded }) => {
                if loaded {
                    self.phase = StopPhase::Transcribing;
                    StopAction::Transcribe {
                        language: "ja".to_string(),
                        initial_prompt: crate::db::copy_opt(&self.initial_prompt),
                    }
                } else {
                    self.phase = StopPhase::Finished;
                    stop_failure(chars_of("Whisper model not loaded"))
                }
            },
            (StopPhase::Transcribing, StopEvent::Transcribed { result }) => {
                self.phase = StopPhase::Finished;
                match result {
                    Ok(segments) => {
                        let text = assemble_transcript(&segments);
                        StopAction::Finish { result: Ok(text), announce_final: true }
                    },
                    Err(WhisperFailure::Join(e)) => {
                        let mut m = chars_of("join: ");
                        append_str(&mut m, e.as_str());
                        stop_failure(m)
                    },
                    Err(WhisperFailure::State(e)) => {
                        let mut m = chars_of("transcribe: whisper state: ");
                        append_str(&mut m, e.as_str());
                        stop_failure(m)
                    },
                    Err(WhisperFailure::Full(e)) => {
                        let mut m = chars_of("transcribe: whisper transcribe: ");
                        append_str(&mut m, e.as_str());
                        stop_failure(m)
                    },
                }
            },
            _ => StopAction::Ignore,
        }
    }
}

/// Once a start request has answered, it ignores whatever else is reported
/// and stays as it is.
pub proof fn law_finished_start_stays_finished(
    s: StartFlow,
    ev: StartEvent,
    t: StartFlow,
    a: StartAction,
)
    requires
        s.phase == StartPhase::Finished,
        start_step(s, ev, t, a),
    ensures
        t == s,
        a is Ignore,
{
}

/// Once a stop request has answered, it ignores whatever else is reported
/// and stays as it is.
pub proof fn law_finished_stop_stays_finished(s: StopFlow, ev: StopEvent, t: StopFlow, a: StopAction)
    requires
        s.phase == StopPhase::Finished,
        stop_step(s, ev, t, a),
    ensures
        t == s,
        a is Ignore,
{
}

} // verus!
