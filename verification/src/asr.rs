//! Speech-recognition models: the catalogue of Whisper models, where each one
//! is downloaded from, and how a download is checked.

use vstd::prelude::*;
use crate::digest::{absorbed, digest_finish, digest_new, digest_update, sha256, DigestState};
use crate::text::{append_chars, append_str, chars_of, hex_lower, hex_seq, str_eq, string_from_chars};

verus! {

broadcast use vstd::string::group_string_axioms;

/// One recognised stretch of audio.
#[derive(Debug, Clone)]
pub struct Segment {
    pub start_ms: u64,
    pub end_ms: u64,
    pub text: String,
}

/// A full recognition result.
#[derive(Debug, Clone)]
pub struct AsrResult {
    pub segments: Vec<Segment>,
    pub full_text: String,
}

/// A Whisper model the app knows of.
#[derive(Debug, Clone, Copy)]
pub struct WhisperModelInfo {
    pub id: &'static str,
    pub filename: &'static str,
    pub display_name: &'static str,
    pub size_bytes: u64,
    /// Expected SHA-256 (lowercase hex) of the file; empty when unchecked.
    pub sha256: &'static str,
    pub is_bundled: bool,
}

/// The fields of a catalogue entry: id, file name, size, expected digest,
/// bundled, display name.
pub open spec fn model_view(m: WhisperModelInfo) -> (Seq<char>, Seq<char>, u64, Seq<char>, bool, Seq<char>) {
    (m.id@, m.filename@, m.size_bytes, m.sha256@, m.is_bundled, m.display_name@)
}

/// The model catalogue: id, file name, size, expected digest, bundled,
/// display name.
pub open spec fn model_table() -> Seq<(Seq<char>, Seq<char>, u64, Seq<char>, bool, Seq<char>)> {
    seq![
        ("small"@, "ggml-small.bin"@, 466_000_000u64, ""@, true, "Small (466 MB)"@),
        ("medium"@, "ggml-medium.bin"@, 1_530_000_000u64, ""@, false, "Medium (1.5 GB) — より高精度"@),
        (
            "large-v3-turbo"@,
            "ggml-large-v3-turbo.bin"@,
            1_620_000_000u64,
            ""@,
            false,
            "Large v3 Turbo (1.6 GB) — 最高精度"@,
        ),
    ]
}

/// The Whisper models the app can use, smallest first.
pub fn whisper_models() -> (r: Vec<WhisperModelInfo>)
    ensures
        r@.map_values(|m: WhisperModelInfo| model_view(m)) == model_table(),
{
    let r: Vec<WhisperModelInfo> = vec![
        WhisperModelInfo {
            id: "small",
            filename: "ggml-small.bin",
            display_name: "Small (466 MB)",
            size_bytes: 466_000_000,
            sha256: "",
            is_bundled: true,
        },
        WhisperModelInfo {
            id: "medium",
            filename: "ggml-medium.bin",
            display_name: "Medium (1.5 GB) — より高精度",
            size_bytes: 1_530_000_000,
            sha256: "",
            is_bundled: false,
        },
        WhisperModelInfo {
            id: "large-v3-turbo",
            filename: "ggml-large-v3-turbo.bin",
            display_name: "Large v3 Turbo (1.6 GB) — 最高精度",
            size_bytes: 1_620_000_000,
            sha256: "",
            is_bundled: false,
        },
    ];
    assert(r@.map_values(|m: WhisperModelInfo| model_view(m)) =~= model_table());
    r
}

/// The position of the first catalogue entry with identifier `id`.
pub open spec fn model_position(id: Seq<char>) -> Option<int> {
    if model_table()[0].0 == id {
        Some(0)
    } else if model_table()[1].0 == id {
        Some(1)
    } else if model_table()[2].0 == id {
        Some(2)
    } else {
        None
    }
}

/// The catalogue entry with identifier `id`, if there is one.
pub fn find_whisper_model(id: &str) -> (r: Option<WhisperModelInfo>)
    ensures
        match model_position(id@) {
            Some(k) => r matches Some(m) && model_view(m) == model_table()[k],
            None => r is None,
        },
{
    let models = whisper_models();
    let ghost mv = models@.map_values(|m: WhisperModelInfo| model_view(m));
    assert(mv.len() == 3);
    let mut i: usize = 0;
    while i < models.len()
        invariant
            0 <= i <= models.len(),
            models.len() == 3,
            mv == models@.map_values(|m: WhisperModelInfo| model_view(m)),
            mv == model_table(),
            forall|j: int| 0 <= j < i ==> model_table()[j].0 != id@,
        decreases models.len() - i,
    {
        assert(mv[i as int] == model_view(models@[i as int]));
        if str_eq(models[i].id, id) {
            return Some(models[i]);
        }
        i = i + 1;
    }
    None
}

/// The file name of the model with identifier `id`; an unknown identifier
/// falls back to the small model's file.
pub fn whisper_model_filename(id: &str) -> (r: &'static str)
    ensures
        r@ == match model_position(id@) {
            Some(k) => model_table()[k].1,
            None => "ggml-small.bin"@,
        },
{
    match find_whisper_model(id) {
        Some(m) => m.filename,
        None => "ggml-small.bin",
    }
}

/// Where the model file `filename` is downloaded from.
pub open spec fn model_download_url(filename: Seq<char>) -> Seq<char> {
    "https://huggingface.co/ggerganov/whisper.cpp/resolve/main/"@ + filename
}

/// Where the model file `filename` is downloaded from.
pub fn whisper_download_url(filename: &str) -> (r: String)
    ensures
        r@ == model_download_url(filename@),
{
    let mut c = chars_of("https://huggingface.co/ggerganov/whisper.cpp/resolve/main/");
    append_str(&mut c, filename);
    string_from_chars(&c)
}

/// The error for a download whose digest is not the expected one.
pub open spec fn digest_mismatch_error(expected: Seq<char>, got: Seq<char>) -> Seq<char> {
    "SHA-256 mismatch: expected "@ + expected + ", got "@ + got
}

/// Checks a downloaded file's SHA-256 `digest` against the catalogue's
/// `expected` lowercase hex: an empty expectation accepts anything;
/// otherwise the hex of the digest must equal it.
pub fn check_download_digest(expected: &str, digest: &[u8]) -> (r: Result<(), String>)
    ensures
        r is Ok <==> (expected@.len() == 0 || hex_seq(digest@) == expected@),
        r matches Err(e) ==> e@ == digest_mismatch_error(expected@, hex_seq(digest@)),
{
    let e = chars_of(expected);
    if e.len() == 0 {
        return Ok(());
    }
    let got = hex_lower(digest);
    if crate::text::chars_eq(&got, &e) {
        Ok(())
    } else {
        let mut m = chars_of("SHA-256 mismatch: expected ");
        append_chars(&mut m, &e);
        append_str(&mut m, ", got ");
        append_chars(&mut m, &got);
        Err(string_from_chars(&m))
    }
}

/// The error for a model identifier the catalogue does not know.
pub open spec fn unknown_model_error(id: Seq<char>) -> Seq<char> {
    "Unknown model: "@ + id
}

/// The catalogue entry to download for `model_id`, or the error for an
/// unknown identifier.
pub fn download_target(model_id: &str) -> (r: Result<WhisperModelInfo, String>)
    ensures
        match model_position(model_id@) {
            Some(k) => r matches Ok(m) && model_view(m) == model_table()[k],
            None => r matches Err(e) && e@ == unknown_model_error(model_id@),
        },
{
    match find_whisper_model(model_id) {
        Some(m) => Ok(m),
        None => {
            let mut c = chars_of("Unknown model: ");
            append_str(&mut c, model_id);
            Err(string_from_chars(&c))
        },
    }
}

/// How far a model download has come, as the progress event reports it.
#[derive(Debug, Clone)]
pub struct DownloadProgress {
    pub model_id: String,
    pub downloaded: u64,
    pub total: u64,
}

/// A model download under way: the bytes received so far are counted and
/// fed to a SHA-256 digest, which is checked against the catalogue's
/// expectation at the end.
pub struct ModelDownload {
    pub model_id: String,
    /// Expected lowercase hex SHA-256 of the file; empty when unchecked.
    pub expected_sha256: String,
    /// The size announced by the server, else the catalogue's size.
    pub total: u64,
    pub downloaded: u64,
    pub digest: DigestState,
}

impl ModelDownload {
    /// Starts the download of `model`: nothing received yet; the total is
    /// the announced content length, else the catalogue's size.
    pub fn begin(model: &WhisperModelInfo, content_length: Option<u64>) -> (r: Self)
        ensures
            r.model_id@ == model.id@,
            r.expected_sha256@ == model.sha256@,
            r.total == match content_length {
                Some(n) => n,
                None => model.size_bytes,
            },
            r.downloaded == 0,
            absorbed(r.digest) == Seq::<u8>::empty(),
    {
        ModelDownload {
            model_id: model.id.to_string(),
            expected_sha256: model.sha256.to_string(),
            total: match content_length {
                Some(n) => n,
                None => model.size_bytes,
            },
            downloaded: 0,
            digest: digest_new(),
        }
    }

    /// Takes in the next chunk of the file: it is counted and digested, and
    /// the progress to report is returned.
    pub fn on_chunk(&mut self, chunk: &[u8]) -> (r: DownloadProgress)
        requires
            old(self).downloaded + chunk@.len() <= u64::MAX,
        ensures
            final(self).downloaded == old(self).downloaded + chunk@.len(),
            absorbed(final(self).digest) == absorbed(old(self).digest) + chunk@,
            final(self).model_id == old(self).model_id,
            final(self).expected_sha256 == old(self).expected_sha256,
            final(self).total == old(self).total,
            r.model_id == final(self).model_id,
            r.downloaded == final(self).downloaded,
            r.total == final(self).total,
    {
        digest_update(&mut self.digest, chunk);
        self.downloaded = self.downloaded + chunk.len() as u64;
        DownloadProgress {
            model_id: self.model_id.clone(),
            downloaded: self.downloaded,
            total: self.total,
        }
    }

    /// Ends the download: accepted when no digest is expected or the hex of
    /// the SHA-256 of everything received is the expected one; otherwise the
    /// mismatch error.
    pub fn finish(self) -> (r: Result<(), String>)
        ensures
            r is Ok <==> (self.expected_sha256@.len() == 0 || hex_seq(sha256(absorbed(self.digest)))
                == self.expected_sha256@),
            r matches Err(e) ==> e@ == digest_mismatch_error(
                self.expected_sha256@,
                hex_seq(sha256(absorbed(self.digest))),
            ),
    {
        let ModelDownload { model_id: _, expected_sha256, total: _, downloaded: _, digest } = self;
        let d = digest_finish(digest);
        check_download_digest(expected_sha256.as_str(), d.as_slice())
    }
}

} // verus!
