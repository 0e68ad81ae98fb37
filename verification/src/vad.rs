//! Which stretches of a recording a voice-activity filter keeps. The
//! detector scores 256-sample frames; every speech frame keeps itself and
//! the three frames on either side, and the samples after the last whole
//! frame are kept when that frame is.

use vstd::prelude::*;

verus! {

/// Samples per detector frame.
pub const FRAME_SIZE: usize = 256;

/// Frames kept on each side of a speech frame.
pub const PAD_FRAMES: usize = 3;

/// Frame `i` is kept: some speech frame lies within [`PAD_FRAMES`] of it.
pub open spec fn frame_kept(speech: Seq<bool>, i: int) -> bool {
    exists|j: int| 0 <= j < speech.len() && #[trigger] speech[j] && i - 3 <= j <= i + 3
}

/// The sample ranges `[start, end)` of the kept frames among the first `k`.
pub open spec fn kept_frame_ranges(speech: Seq<bool>, k: int) -> Seq<(int, int)>
    decreases k,
{
    if k <= 0 {
        Seq::empty()
    } else if frame_kept(speech, k - 1) {
        kept_frame_ranges(speech, k - 1).push(((k - 1) * 256, k * 256))
    } else {
        kept_frame_ranges(speech, k - 1)
    }
}

/// The sample ranges `[start, end)` a recording of `n` samples keeps, given
/// the detector's verdict for each whole frame: nothing from nothing; all of
/// a recording shorter than one frame; otherwise the kept frames in order,
/// then the trailing partial frame when the last whole frame is kept.
pub open spec fn retained(n: int, speech: Seq<bool>) -> Seq<(int, int)> {
    let frames = n / 256;
    if n == 0 {
        Seq::empty()
    } else if frames == 0 {
        seq![(0, n)]
    } else if frames * 256 < n && frame_kept(speech, frames - 1) {
        kept_frame_ranges(speech, frames).push((frames * 256, n))
    } else {
        kept_frame_ranges(speech, frames)
    }
}

/// The kept-frame mask: frame `i` is kept when a speech frame lies within
/// [`PAD_FRAMES`] frames of it.
pub fn pad_speech(speech: &Vec<bool>) -> (r: Vec<bool>)
    ensures
        r@.len() == speech@.len(),
        forall|i: int| 0 <= i < r@.len() ==> #[trigger] r@[i] == frame_kept(speech@, i),
{
    let n = speech.len();
    let mut padded: Vec<bool> = Vec::new();
    let mut i: usize = 0;
    while i < n
        invariant
            0 <= i <= n,
            n == speech.len(),
            padded@.len() == i,
            forall|k: int| 0 <= k < i ==> !padded@[k],
        decreases n - i,
    {
        padded.push(false);
        i = i + 1;
    }
    let mut j: usize = 0;
    while j < n
        invariant
            0 <= j <= n,
            n == speech.len(),
            padded@.len() == n,
            forall|k: int|
                0 <= k < n ==> (#[trigger] padded@[k] <==> exists|s: int|
                    0 <= s < j && speech@[s] && k - 3 <= s <= k + 3),
        decreases n - j,
    {
        if speech[j] {
            let start = if j >= PAD_FRAMES {
                j - PAD_FRAMES
            } else {
                0
            };
            let end = if n - j >= PAD_FRAMES + 1 {
                j + PAD_FRAMES + 1
            } else {
                n
            };
            let mut p: usize = start;
            while p < end
                invariant
                    start <= p <= end,
                    end <= n,
                    start == (if j >= 3 { j - 3 } else { 0int }),
                    end == (if j + 4 <= n { j + 4 } else { n as int }),
                    n == speech.len(),
                    j < n,
                    speech@[j as int],
                    padded@.len() == n,
                    forall|k: int|
                        0 <= k < n ==> (#[trigger] padded@[k] <==> (exists|s: int|
                            0 <= s < j && speech@[s] && k - 3 <= s <= k + 3) || (start <= k < p)),
                decreases end - p,
            {
                padded.set(p, true);
                p = p + 1;
            }
            assert forall|k: int| 0 <= k < n implies (#[trigger] padded@[k] <==> exists|s: int|
                0 <= s < j + 1 && speech@[s] && k - 3 <= s <= k + 3) by {
                if start <= k < end {
                    assert(speech@[j as int] && k - 3 <= j <= k + 3);
                }
                if exists|s: int| 0 <= s < j + 1 && speech@[s] && k - 3 <= s <= k + 3 {
                    let s = choose|s: int| 0 <= s < j + 1 && speech@[s] && k - 3 <= s <= k + 3;
                    if s == j {
                        assert(start <= k < end);
                    }
                }
            }
        } else {
            assert forall|k: int| 0 <= k < n implies (#[trigger] padded@[k] <==> exists|s: int|
                0 <= s < j + 1 && speech@[s] && k - 3 <= s <= k + 3) by {
                if exists|s: int| 0 <= s < j + 1 && speech@[s] && k - 3 <= s <= k + 3 {
                    let s = choose|s: int| 0 <= s < j + 1 && speech@[s] && k - 3 <= s <= k + 3;
                    assert(s != j);
                }
            }
        }
        j = j + 1;
    }
    padded
}

/// The sample ranges `[start, end)` that a recording of `n_samples` samples
/// keeps, given the detector's verdict for each whole frame (see
/// [`retained`]).
pub fn retained_ranges(n_samples: usize, speech: &Vec<bool>) -> (r: Vec<(usize, usize)>)
    requires
        speech@.len() == n_samples / 256,
    ensures
        r@.map_values(|p: (usize, usize)| (p.0 as int, p.1 as int)) == retained(
            n_samples as int,
            speech@,
        ),
{
    let mut out: Vec<(usize, usize)> = Vec::new();
    if n_samples == 0 {
        assert(out@.map_values(|p: (usize, usize)| (p.0 as int, p.1 as int)) =~= Seq::empty());
        return out;
    }
    let frames = n_samples / FRAME_SIZE;
    if frames == 0 {
        out.push((0, n_samples));
        assert(out@.map_values(|p: (usize, usize)| (p.0 as int, p.1 as int)) =~= seq![(0int, n_samples as int)]);
        return out;
    }
    let padded = pad_speech(speech);
    let mut i: usize = 0;
    while i < frames
        invariant
            0 <= i <= frames,
            frames == n_samples / 256,
            frames * 256 <= n_samples,
            padded@.len() == frames,
            speech@.len() == frames,
            forall|k: int| 0 <= k < padded@.len() ==> #[trigger] padded@[k] == frame_kept(speech@, k),
            out@.map_values(|p: (usize, usize)| (p.0 as int, p.1 as int)) == kept_frame_ranges(
                speech@,
                i as int,
            ),
        decreases frames - i,
    {
        if padded[i] {
            let ghost before = out@.map_values(|p: (usize, usize)| (p.0 as int, p.1 as int));
            assert((i + 1) * 256 <= frames * 256) by (nonlinear_arith)
                requires
                    i < frames,
            ;
            out.push((i * FRAME_SIZE, (i + 1) * FRAME_SIZE));
            assert(out@.map_values(|p: (usize, usize)| (p.0 as int, p.1 as int)) =~= before.push(
                (i * 256, (i + 1) * 256),
            ));
        }
        i = i + 1;
    }
    let rem = frames * FRAME_SIZE;
    if rem < n_samples && padded[frames - 1] {
        let ghost before = out@.map_values(|p: (usize, usize)| (p.0 as int, p.1 as int));
        out.push((rem, n_samples));
        assert(out@.map_values(|p: (usize, usize)| (p.0 as int, p.1 as int)) =~= before.push(
            (rem as int, n_samples as int),
        ));
    }
    out
}

proof fn lemma_kept_frame_ranges(speech: Seq<bool>, k: int)
    requires
        0 <= k,
    ensures
        forall|i: int| 0 <= i < kept_frame_ranges(speech, k).len() ==> {
            let r = #[trigger] kept_frame_ranges(speech, k)[i];
            0 <= r.0 && r.1 == r.0 + 256 && r.1 <= k * 256
        },
        forall|i: int, j: int| 0 <= i < j < kept_frame_ranges(speech, k).len() ==>
            (#[trigger] kept_frame_ranges(speech, k)[i]).1 <= (#[trigger] kept_frame_ranges(speech, k)[j]).0,
        (forall|f: int| 0 <= f < k ==> !frame_kept(speech, f)) ==> kept_frame_ranges(speech, k).len() == 0,
    decreases k,
{
    if k > 0 {
        lemma_kept_frame_ranges(speech, k - 1);
        let rest = kept_frame_ranges(speech, k - 1);
        if frame_kept(speech, k - 1) {
            let all = rest.push(((k - 1) * 256, k * 256));
            assert forall|i: int| 0 <= i < all.len() implies {
                let r = #[trigger] all[i];
                0 <= r.0 && r.1 == r.0 + 256 && r.1 <= k * 256
            } by {
                if i < rest.len() {
                    assert(all[i] == rest[i]);
                }
            }
            assert forall|i: int, j: int| 0 <= i < j < all.len() implies (#[trigger] all[i]).1
                <= (#[trigger] all[j]).0 by {
                assert(all[i] == rest[i]);
                if j < rest.len() {
                    assert(all[j] == rest[j]);
                }
            }
        }
    }
}

/// A recording of at least one frame in which the detector finds no speech
/// keeps nothing.
pub proof fn law_silence_keeps_nothing(n: int, speech: Seq<bool>)
    requires
        n >= 256,
        speech.len() == n / 256,
        forall|k: int| 0 <= k < speech.len() ==> !#[trigger] speech[k],
    ensures
        retained(n, speech).len() == 0,
{
    lemma_kept_frame_ranges(speech, n / 256);
}

/// A recording shorter than one frame is kept whole, and an empty one
/// keeps nothing.
pub proof fn law_short_recording_kept_whole(n: int, speech: Seq<bool>)
    requires
        0 <= n < 256,
    ensures
        n == 0 ==> retained(n, speech).len() == 0,
        n > 0 ==> retained(n, speech) == seq![(0int, n)],
{
}

/// The kept ranges lie inside the recording, are non-empty, and come in
/// order without overlapping: the filter only drops samples, never repeats
/// or reorders them.
pub proof fn law_retained_ranges_ordered(n: int, speech: Seq<bool>)
    requires
        0 <= n,
        speech.len() == n / 256,
    ensures
        forall|i: int| 0 <= i < retained(n, speech).len() ==> {
            let r = #[trigger] retained(n, speech)[i];
            0 <= r.0 < r.1 <= n
        },
        forall|i: int, j: int| 0 <= i < j < retained(n, speech).len() ==>
            (#[trigger] retained(n, speech)[i]).1 <= (#[trigger] retained(n, speech)[j]).0,
{
    let frames = n / 256;
    assert(frames * 256 <= n);
    if frames > 0 {
        lemma_kept_frame_ranges(speech, frames);
        let kept = kept_frame_ranges(speech, frames);
        if frames * 256 < n && frame_kept(speech, frames - 1) {
            let all = kept.push((frames * 256, n));
            assert forall|i: int| 0 <= i < all.len() implies {
                let r = #[trigger] all[i];
                0 <= r.0 < r.1 <= n
            } by {
                if i < kept.len() {
                    assert(all[i] == kept[i]);
                }
            }
            assert forall|i: int, j: int| 0 <= i < j < all.len() implies (#[trigger] all[i]).1
                <= (#[trigger] all[j]).0 by {
                assert(all[i] == kept[i]);
                if j < kept.len() {
                    assert(all[j] == kept[j]);
                }
            }
        }
    }
}

proof fn lemma_kept_frame_ranges_contains(speech: Seq<bool>, k: int, f: int)
    requires
        0 <= f < k,
    ensures
        kept_frame_ranges(speech, k).contains((f * 256, f * 256 + 256)) <==> frame_kept(speech, f),
    decreases k,
{
    let x = (f * 256, f * 256 + 256);
    let rest = kept_frame_ranges(speech, k - 1);
    if f < k - 1 {
        lemma_kept_frame_ranges_contains(speech, k - 1, f);
        if frame_kept(speech, k - 1) {
            vstd::seq_lib::lemma_seq_contains_after_push(rest, ((k - 1) * 256, k * 256), x);
        }
    } else {
        lemma_kept_frame_ranges(speech, k - 1);
        assert(!rest.contains(x)) by {
            if rest.contains(x) {
                let i = choose|i: int| 0 <= i < rest.len() && rest[i] == x;
                assert(rest[i].1 <= (k - 1) * 256);
            }
        }
        if frame_kept(speech, k - 1) {
            vstd::seq_lib::lemma_seq_contains_after_push(rest, ((k - 1) * 256, k * 256), x);
        }
    }
}

/// A whole frame is kept exactly when some speech frame lies within three
/// frames of it, on either side; frames farther than that from every speech
/// frame (a pause between two utterances) are dropped. The samples after the
/// last whole frame are kept exactly when a speech frame lies within three
/// frames of that last whole frame.
pub proof fn law_kept_frames_are_near_speech(n: int, speech: Seq<bool>)
    requires
        0 <= n,
        speech.len() == n / 256,
    ensures
        forall|f: int| 0 <= f < n / 256 ==> (#[trigger] retained(n, speech).contains((f * 256, f * 256 + 256))
            <==> exists|j: int| 0 <= j < speech.len() && speech[j] && f - 3 <= j <= f + 3),
        n >= 256 ==> (retained(n, speech).contains(((n / 256) * 256, n)) <==> ((n / 256) * 256 < n
            && exists|j: int| 0 <= j < speech.len() && speech[j] && n / 256 - 4 <= j)),
{
    let frames = n / 256;
    assert(frames * 256 <= n < frames * 256 + 256);
    let kept = kept_frame_ranges(speech, frames);
    if frames > 0 {
        lemma_kept_frame_ranges(speech, frames);
        assert forall|f: int| 0 <= f < frames implies (#[trigger] retained(n, speech).contains((f * 256, f * 256 + 256))
            <==> exists|j: int| 0 <= j < speech.len() && speech[j] && f - 3 <= j <= f + 3) by {
            lemma_kept_frame_ranges_contains(speech, frames, f);
            if frames * 256 < n && frame_kept(speech, frames - 1) {
                vstd::seq_lib::lemma_seq_contains_after_push(kept, (frames * 256, n), (f * 256, f * 256 + 256));
            }
        }
        let t = (frames * 256, n);
        assert(!kept.contains(t)) by {
            if kept.contains(t) {
                let i = choose|i: int| 0 <= i < kept.len() && kept[i] == t;
                assert(kept[i].1 == kept[i].0 + 256);
            }
        }
        if frames * 256 < n && frame_kept(speech, frames - 1) {
            vstd::seq_lib::lemma_seq_contains_after_push(kept, t, t);
        }
        assert(frame_kept(speech, frames - 1) <==> exists|j: int| 0 <= j < speech.len() && speech[j] && frames - 4 <= j);
    }
}

} // verus!
