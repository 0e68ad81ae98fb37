//! The local LLM runtime's vocabulary: model descriptions, rewrite requests,
//! endpoint addresses, and how a newline-delimited JSON stream is cut into
//! lines.

use vstd::prelude::*;
use crate::text::{
    append_str, chars_of, find_from, first_match_from, lemma_first_match_from, matches_at,
    string_from_chars, trim, trim_seq,
};

verus! {

broadcast use vstd::string::group_string_axioms;

/// Where the Ollama server listens by default.
pub const DEFAULT_OLLAMA_HOST: &'static str = "http://127.0.0.1:11434";

/// Tokens a rewrite may produce when the caller names no limit.
pub const DEFAULT_MAX_NEW_TOKENS: u32 = 512;

/// An installed model.
#[derive(Debug, Clone)]
pub struct ModelInfo {
    pub name: String,
    pub size_bytes: u64,
    pub family: Option<String>,
    pub quantization: Option<String>,
}

/// A rewrite request.
#[derive(Debug, Clone)]
pub struct RewriteParams {
    pub model: String,
    pub prompt: String,
    pub max_new_tokens: u32,
}

/// A rewrite request; without a token limit, [`DEFAULT_MAX_NEW_TOKENS`].
pub fn rewrite_params(model: String, prompt: String, max_new_tokens: Option<u32>) -> (r:
    RewriteParams)
    ensures
        r.model == model,
        r.prompt == prompt,
        r.max_new_tokens == match max_new_tokens {
            Some(n) => n,
            None => DEFAULT_MAX_NEW_TOKENS,
        },
{
    RewriteParams {
        model,
        prompt,
        max_new_tokens: match max_new_tokens {
            Some(n) => n,
            None => DEFAULT_MAX_NEW_TOKENS,
        },
    }
}

/// The address of `endpoint` (such as `/api/tags`) on the server at `base`.
pub fn api_url(base: &str, endpoint: &str) -> (r: String)
    ensures
        r@ == base@ + endpoint@,
{
    let mut c = chars_of(base);
    append_str(&mut c, endpoint);
    string_from_chars(&c)
}

/// The complete lines at the front of `buf`, trimmed, empty ones left out.
pub open spec fn complete_lines(buf: Seq<char>) -> Seq<Seq<char>>
    decreases buf.len(),
{
    match first_match_from(buf, "\n"@, 0) {
        Some(p) => if 0 <= p < buf.len() {
            let line = trim_seq(buf.take(p));
            let rest = complete_lines(buf.skip(p + 1));
            if line.len() > 0 {
                seq![line] + rest
            } else {
                rest
            }
        } else {
            Seq::empty()
        },
        None => Seq::empty(),
    }
}

/// What follows the last newline of `buf` (all of it when there is none).
pub open spec fn incomplete_tail(buf: Seq<char>) -> Seq<char>
    decreases buf.len(),
{
    match first_match_from(buf, "\n"@, 0) {
        Some(p) => if 0 <= p < buf.len() {
            incomplete_tail(buf.skip(p + 1))
        } else {
            buf
        },
        None => buf,
    }
}

/// Cuts the received text of a newline-delimited JSON stream into its
/// complete lines (trimmed, empty ones dropped) and the unfinished rest,
/// which waits for the next chunk.
pub fn split_ndjson(buffer: &str) -> (r: (Vec<String>, String))
    ensures
        r.0@.map_values(|s: String| s@) == complete_lines(buffer@),
        r.1@ == incomplete_tail(buffer@),
{
    let nl = chars_of("\n");
    proof {
        reveal_strlit("\n");
    }
    let mut buf = chars_of(buffer);
    let mut lines: Vec<String> = Vec::new();
    loop
        invariant
            nl@ == "\n"@,
            nl@.len() == 1,
            complete_lines(buffer@) == lines@.map_values(|s: String| s@) + complete_lines(buf@),
            incomplete_tail(buffer@) == incomplete_tail(buf@),
        decreases buf@.len(),
    {
        match find_from(&buf, &nl, 0) {
            Some(p) => {
                if p >= buf.len() {
                    // A one-character pattern cannot match at the very end.
                    assert(false);
                }
                let mut head: Vec<char> = Vec::new();
                let mut i: usize = 0;
                while i < p
                    invariant
                        0 <= i <= p,
                        p < buf.len(),
                        head@ == buf@.take(i as int),
                    decreases p - i,
                {
                    head.push(buf[i]);
                    assert(buf@.take(i + 1) =~= buf@.take(i as int).push(buf@[i as int]));
                    i = i + 1;
                }
                let line = trim(&head);
                let mut rest: Vec<char> = Vec::new();
                let mut k: usize = p + 1;
                while k < buf.len()
                    invariant
                        p + 1 <= k <= buf.len(),
                        rest@ == buf@.subrange(p + 1, k as int),
                    decreases buf.len() - k,
                {
                    rest.push(buf[k]);
                    assert(buf@.subrange(p + 1, k + 1) =~= buf@.subrange(p + 1, k as int).push(
                        buf@[k as int],
                    ));
                    k = k + 1;
                }
                assert(rest@ =~= buf@.skip(p + 1));
                let ghost before = lines@.map_values(|s: String| s@);
                if line.len() > 0 {
                    let s = string_from_chars(&line);
                    lines.push(s);
                    assert(lines@.map_values(|s: String| s@) =~= before.push(s@));
                    assert(before.push(s@) + complete_lines(rest@) =~= before + (seq![line@]
                        + complete_lines(rest@)));
                }
                buf = rest;
            },
            None => {
                let tail = string_from_chars(&buf);
                assert(complete_lines(buf@) =~= Seq::<Seq<char>>::empty());
                assert(lines@.map_values(|s: String| s@) + complete_lines(buf@) =~= lines@.map_values(
                    |s: String| s@,
                ));
                return (lines, tail);
            },
        }
    }
}

/// The state of a streamed generation: the text received after the last
/// complete line, and the response assembled so far.
pub struct GenerationStream {
    pub buffer: String,
    pub full_response: String,
}

impl GenerationStream {
    /// A stream that has received nothing.
    pub fn new() -> (r: Self)
        ensures
            r.buffer@ == Seq::<char>::empty(),
            r.full_response@ == Seq::<char>::empty(),
    {
        GenerationStream { buffer: String::new(), full_response: String::new() }
    }

    /// Takes in received text: returns the lines it completes (trimmed,
    /// empty ones dropped) and keeps the unfinished rest.
    pub fn push_text(&mut self, text: &str) -> (lines: Vec<String>)
        ensures
            lines@.map_values(|s: String| s@) == complete_lines(old(self).buffer@ + text@),
            final(self).buffer@ == incomplete_tail(old(self).buffer@ + text@),
            final(self).full_response == old(self).full_response,
    {
        let mut c = chars_of(self.buffer.as_str());
        append_str(&mut c, text);
        let joined = string_from_chars(&c);
        let (lines, tail) = split_ndjson(joined.as_str());
        self.buffer = tail;
        lines
    }

    /// Applies one decoded reply: a non-empty response is appended to the
    /// full response and returned for forwarding; the flag says whether the
    /// generation is done.
    pub fn apply_reply(&mut self, response: String, done: bool) -> (r: (Option<String>, bool))
        ensures
            final(self).full_response@ == old(self).full_response@ + response@,
            final(self).buffer == old(self).buffer,
            r.0 == (if response@.len() == 0 {
                None::<String>
            } else {
                Some(response)
            }),
            r.1 == done,
    {
        let rc = chars_of(response.as_str());
        if rc.len() == 0 {
            assert(old(self).full_response@ + response@ =~= old(self).full_response@);
            return (None, done);
        }
        let mut c = chars_of(self.full_response.as_str());
        append_str(&mut c, response.as_str());
        self.full_response = string_from_chars(&c);
        (Some(response), done)
    }
}

/// A model-pull progress report.
#[derive(Debug, Clone)]
pub struct PullProgress {
    pub model: String,
    pub status: String,
    pub total: u64,
    pub completed: u64,
}

/// The progress report for one decoded line of a model pull: missing
/// fields read as an empty status and zero counts.
pub fn pull_progress(
    model: &str,
    status: Option<String>,
    total: Option<u64>,
    completed: Option<u64>,
) -> (r: PullProgress)
    ensures
        r.model@ == model@,
        r.status@ == match status {
            Some(s) => s@,
            None => Seq::<char>::empty(),
        },
        r.total == match total {
            Some(n) => n,
            None => 0u64,
        },
        r.completed == match completed {
            Some(n) => n,
            None => 0u64,
        },
{
    PullProgress {
        model: model.to_string(),
        status: match status {
            Some(s) => s,
            None => String::new(),
        },
        total: match total {
            Some(n) => n,
            None => 0,
        },
        completed: match completed {
            Some(n) => n,
            None => 0,
        },
    }
}

proof fn lemma_newline_at(s: Seq<char>, j: int)
    ensures
        matches_at(s, "\n"@, j) <==> 0 <= j < s.len() && s[j] == '\n',
{
    reveal_strlit("\n");
    if 0 <= j < s.len() && s[j] == '\n' {
        assert(s.subrange(j, j + 1) =~= "\n"@);
    }
    if matches_at(s, "\n"@, j) {
        assert(s.subrange(j, j + 1)[0] == s[j]);
    }
}

/// The first newline of `buf + more`: the first of `buf` when it has one.
proof fn lemma_first_newline_of_concat(buf: Seq<char>, more: Seq<char>)
    ensures
        first_match_from(buf, "\n"@, 0) matches Some(p) ==> first_match_from(buf + more, "\n"@, 0)
            == Some(p) && 0 <= p < buf.len(),
        first_match_from(buf, "\n"@, 0) is None ==> forall|j: int|
            0 <= j < buf.len() ==> buf[j] != '\n',
{
    let s = buf + more;
    lemma_first_match_from(buf, "\n"@, 0);
    lemma_first_match_from(s, "\n"@, 0);
    match first_match_from(buf, "\n"@, 0) {
        Some(p) => {
            lemma_newline_at(buf, p);
            lemma_newline_at(s, p);
            assert(matches_at(s, "\n"@, p));
            match first_match_from(s, "\n"@, 0) {
                Some(q) => {
                    if q < p {
                        lemma_newline_at(s, q);
                        lemma_newline_at(buf, q);
                    }
                },
                None => {},
            }
        },
        None => {
            assert forall|j: int| 0 <= j < buf.len() implies buf[j] != '\n' by {
                lemma_newline_at(buf, j);
            }
        },
    }
}

/// Cutting a stream chunk by chunk, carrying the unfinished rest over to
/// the next chunk, gives the same lines and the same rest as cutting all the
/// text received at once.
pub proof fn law_split_is_chunk_independent(buf: Seq<char>, more: Seq<char>)
    ensures
        complete_lines(buf) + complete_lines(incomplete_tail(buf) + more) == complete_lines(
            buf + more,
        ),
        incomplete_tail(incomplete_tail(buf) + more) == incomplete_tail(buf + more),
    decreases buf.len(),
{
    lemma_first_newline_of_concat(buf, more);
    match first_match_from(buf, "\n"@, 0) {
        Some(p) => {
            let s = buf + more;
            let rest = buf.skip(p + 1);
            law_split_is_chunk_independent(rest, more);
            assert(s.take(p) =~= buf.take(p));
            assert(s.skip(p + 1) =~= rest + more);
            let line = trim_seq(buf.take(p));
            if line.len() > 0 {
                assert(seq![line] + complete_lines(rest) + complete_lines(incomplete_tail(rest) + more)
                    =~= seq![line] + (complete_lines(rest) + complete_lines(incomplete_tail(rest) + more)));
            }
        },
        None => {
            assert(complete_lines(buf) =~= Seq::<Seq<char>>::empty());
            assert(Seq::<Seq<char>>::empty() + complete_lines(buf + more) =~= complete_lines(buf + more));
        },
    }
}

/// The unfinished rest holds no newline, and every complete line is
/// non-empty and holds no newline.
pub proof fn law_split_pieces_have_no_newline(buf: Seq<char>)
    ensures
        forall|j: int| 0 <= j < incomplete_tail(buf).len() ==> #[trigger] incomplete_tail(buf)[j] != '\n',
        forall|i: int| 0 <= i < complete_lines(buf).len() ==> (#[trigger] complete_lines(buf)[i]).len() > 0,
    decreases buf.len(),
{
    lemma_first_newline_of_concat(buf, Seq::empty());
    match first_match_from(buf, "\n"@, 0) {
        Some(p) => {
            let rest = buf.skip(p + 1);
            law_split_pieces_have_no_newline(rest);
            assert(incomplete_tail(buf) == incomplete_tail(rest));
            let line = trim_seq(buf.take(p));
            if line.len() > 0 {
                assert forall|i: int| 0 <= i < complete_lines(buf).len() implies (#[trigger] complete_lines(buf)[i]).len() > 0 by {
                    if i > 0 {
                        assert(complete_lines(buf)[i] == complete_lines(rest)[i - 1]);
                    }
                }
            }
        },
        None => {
            assert(incomplete_tail(buf) == buf);
        },
    }
}

} // verus!
