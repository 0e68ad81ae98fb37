//! A dictation session: its stages, its identity, and the checks that start
//! and finish a recording.

use vstd::prelude::*;
use crate::db::{fresh_uuid, is_v4_uuid, opt_view};
use crate::text::{
    append_chars, chars_of, is_blank_seq, remove_nul_seq, str_eq, string_from_chars, trim,
    trim_seq,
};
use tokio_util::sync::CancellationToken;

verus! {

broadcast use vstd::string::group_string_axioms;

#[verifier::external_type_specification]
#[verifier::external_body]
pub struct ExCancellationToken(tokio_util::sync::CancellationToken);

/// `CancellationToken::new`: a fresh token that is not cancelled; nothing
/// about it is used by the proofs.
pub assume_specification[ tokio_util::sync::CancellationToken::new ]() -> CancellationToken;

/// Where a dictation session stands.
#[derive(Debug, Clone, PartialEq, Eq)]
pub enum SessionStage {
    Idle,
    ConsentPending,
    Recording,
    Transcribing,
    Rewriting,
    Injecting,
    Done,
    Error { stage: String, message: String },
}

impl SessionStage {
    /// A copy of this stage.
    pub fn copy(&self) -> (r: SessionStage)
        ensures
            r == *self,
    {
        match self {
            SessionStage::Idle => SessionStage::Idle,
            SessionStage::ConsentPending => SessionStage::ConsentPending,
            SessionStage::Recording => SessionStage::Recording,
            SessionStage::Transcribing => SessionStage::Transcribing,
            SessionStage::Rewriting => SessionStage::Rewriting,
            SessionStage::Injecting => SessionStage::Injecting,
            SessionStage::Done => SessionStage::Done,
            SessionStage::Error { stage, message } => SessionStage::Error {
                stage: stage.clone(),
                message: message.clone(),
            },
        }
    }
}

/// What the UI is told about a session.
#[derive(Debug, Clone)]
pub struct SessionInfo {
    pub id: String,
    pub stage: SessionStage,
}

/// One recording-to-text session.
pub struct DictationSession {
    pub id: String,
    pub stage: SessionStage,
    pub cancel: CancellationToken,
    pub transcript: Option<String>,
    pub rewrite: Option<String>,
}

impl DictationSession {
    /// A new idle session with a fresh random UUID and no results yet.
    pub fn new() -> (r: Self)
        ensures
            is_v4_uuid(r.id@),
            r.stage == SessionStage::Idle,
            r.transcript is None,
            r.rewrite is None,
    {
        DictationSession {
            id: fresh_uuid(),
            stage: SessionStage::Idle,
            cancel: CancellationToken::new(),
            transcript: None,
            rewrite: None,
        }
    }

    /// Moves the session to `stage`; nothing else changes.
    pub fn transition(&mut self, stage: SessionStage)
        ensures
            final(self).stage == stage,
            final(self).id == old(self).id,
            final(self).cancel == old(self).cancel,
            final(self).transcript == old(self).transcript,
            final(self).rewrite == old(self).rewrite,
    {
        self.stage = stage;
    }

    /// The session's identifier and stage.
    pub fn info(&self) -> (r: SessionInfo)
        ensures
            r.id == self.id,
            r.stage == self.stage,
    {
        SessionInfo { id: self.id.clone(), stage: self.stage.copy() }
    }

    /// Marks the session failed in `stage` with `message`; nothing else
    /// changes.
    pub fn fail(&mut self, stage: &str, message: &str)
        ensures
            final(self).stage matches SessionStage::Error { stage: s, message: m } && s@ == stage@
                && m@ == message@,
            final(self).id == old(self).id,
            final(self).cancel == old(self).cancel,
            final(self).transcript == old(self).transcript,
            final(self).rewrite == old(self).rewrite,
    {
        self.stage = SessionStage::Error { stage: stage.to_string(), message: message.to_string() };
    }
}

impl Default for DictationSession {
    /// A new idle session (see [`DictationSession::new`]).
    fn default() -> (r: Self)
        ensures
            is_v4_uuid(r.id@),
            r.stage == SessionStage::Idle,
            r.transcript is None,
            r.rewrite is None,
    {
        DictationSession::new()
    }
}

// ---------------------------------------------------------------------------
// Starting and finishing a recording
// ---------------------------------------------------------------------------

/// Why a recording cannot start, if it cannot: consent comes first, then a
/// session that is still running.
pub open spec fn start_refusal(consent_given: bool, session_active: bool) -> Option<Seq<char>> {
    if !consent_given {
        Some("Recording consent not granted"@)
    } else if session_active {
        Some("Session already active"@)
    } else {
        None
    }
}

/// Checks that a recording may start (see [`start_refusal`]).
pub fn check_can_start(consent_given: bool, session_active: bool) -> (r: Result<(), String>)
    ensures
        r is Ok <==> start_refusal(consent_given, session_active) is None,
        r matches Err(e) ==> Some(e@) == start_refusal(consent_given, session_active),
{
    if !consent_given {
        return Err("Recording consent not granted".to_string());
    }
    if session_active {
        return Err("Session already active".to_string());
    }
    Ok(())
}

/// Whether the recogniser must be (re)loaded before recording: when none is
/// loaded or the loaded one is another model.
pub fn needs_whisper_load(loaded: Option<&str>, wanted: &str) -> (r: bool)
    ensures
        r == match loaded {
            Some(l) => l@ != wanted@,
            None => true,
        },
{
    match loaded {
        Some(l) => !str_eq(l, wanted),
        None => true,
    }
}

/// The prompt handed to the recogniser: the configured one without NUL
/// characters (which the recogniser cannot take), or none when nothing is
/// left.
pub fn transcription_prompt(configured: &str) -> (r: Option<String>)
    ensures
        match r {
            Some(p) => p@ == remove_nul_seq(configured@) && p@.len() > 0,
            None => remove_nul_seq(configured@).len() == 0,
        },
{
    let cs = chars_of(configured);
    let kept = crate::text::remove_nul_take(&cs, usize::MAX);
    assert(kept@ == remove_nul_seq(cs@)) by {
        crate::text::lemma_remove_nul(cs@);
        assert(cs@.len() == cs.len());
        assert(remove_nul_seq(cs@).len() <= usize::MAX);
    }
    if kept.len() == 0 {
        None
    } else {
        Some(string_from_chars(&kept))
    }
}

/// The transcript assembled from the recogniser's segments: each readable
/// segment trimmed, separated from what precedes it by one space once the
/// text is non-empty; unreadable segments (`None`) are skipped.
pub open spec fn assembled_transcript(segments: Seq<Option<Seq<char>>>) -> Seq<char>
    decreases segments.len(),
{
    if segments.len() == 0 {
        Seq::empty()
    } else {
        let text = assembled_transcript(segments.drop_last());
        match segments.last() {
            Some(s) => if text.len() > 0 {
                text + " "@ + trim_seq(s)
            } else {
                text + trim_seq(s)
            },
            None => text,
        }
    }
}

/// Assembles the transcript from the recogniser's segments (see
/// [`assembled_transcript`]).
pub fn assemble_transcript(segments: &Vec<Option<String>>) -> (r: String)
    ensures
        r@ == assembled_transcript(segments@.map_values(|o: Option<String>| opt_view(o))),
{
    let ghost sv = segments@.map_values(|o: Option<String>| opt_view(o));
    let mut text: Vec<char> = Vec::new();
    let mut i: usize = 0;
    while i < segments.len()
        invariant
            0 <= i <= segments.len(),
            sv == segments@.map_values(|o: Option<String>| opt_view(o)),
            text@ == assembled_transcript(sv.take(i as int)),
        decreases segments.len() - i,
    {
        assert(sv.take(i + 1).drop_last() =~= sv.take(i as int));
        assert(sv.take(i + 1).last() == opt_view(segments@[i as int]));
        match &segments[i] {
            Some(s) => {
                if text.len() > 0 {
                    text.push(' ');
                    proof {
                        reveal_strlit(" ");
                    }
                }
                let t = trim(&chars_of(s.as_str()));
                append_chars(&mut text, &t);
            },
            None => {},
        }
        i = i + 1;
    }
    assert(sv.take(segments.len() as int) =~= sv);
    string_from_chars(&text)
}

} // verus!
