//! Helpers of the LLM benchmark harness: which task a workload belongs to,
//! the input section of a workload file, prompt rendering, digests of texts,
//! and the workload allow-list.

use vstd::prelude::*;
use vstd::string::StringSliceAdditionalSpecFns;
use crate::db::strs_view;
use crate::digest::{digest_finish, digest_new, digest_update, sha256};
use crate::order::{is_stable_sort, keys_view, lemma_stable_sort_of, stable_sort_of, stable_sort_positions};
use crate::text::{
    append_chars, append_str, chars_eq, chars_of, dec_seq, decimal, find_from, first_match_from,
    hex_lower, hex_seq, last_match, replace_chars, replacen_seq, rfind, starts_with,
    starts_with_seq, str_eq, string_from_chars, trim, trim_seq,
};

verus! {

broadcast use vstd::string::group_string_axioms;

/// The task prefixes a workload identifier can start with, in the order
/// they are tried.
pub open spec fn task_prefixes() -> Seq<Seq<char>> {
    seq!["ja_keigo"@, "jp_en_mix"@, "en_business"@, "summary"@]
}

/// The first task prefix at or after position `k` that `id` starts with.
pub open spec fn task_type_from(id: Seq<char>, k: int) -> Option<Seq<char>>
    decreases 4 - k,
{
    if k < 0 || k >= 4 {
        None
    } else if starts_with_seq(id, task_prefixes()[k]) {
        Some(task_prefixes()[k])
    } else {
        task_type_from(id, k + 1)
    }
}

/// The task a workload identifier belongs to: the first prefix it starts
/// with, if any.
pub fn task_type_for(workload_id: &str) -> (r: Option<&'static str>)
    ensures
        match task_type_from(workload_id@, 0) {
            Some(t) => r matches Some(x) && x@ == t,
            None => r is None,
        },
{
    let prefixes: Vec<&'static str> = vec!["ja_keigo", "jp_en_mix", "en_business", "summary"];
    assert(prefixes@.map_values(|s: &str| s@) =~= task_prefixes());
    let id = chars_of(workload_id);
    let mut k: usize = 0;
    while k < prefixes.len()
        invariant
            0 <= k <= prefixes.len(),
            prefixes.len() == 4,
            prefixes@.map_values(|s: &str| s@) == task_prefixes(),
            id@ == workload_id@,
            task_type_from(workload_id@, 0) == task_type_from(workload_id@, k as int),
        decreases prefixes.len() - k,
    {
        assert(prefixes@.map_values(|s: &str| s@)[k as int] == prefixes@[k as int]@);
        let p = chars_of(prefixes[k]);
        if starts_with(&id, &p) {
            return Some(prefixes[k]);
        }
        k = k + 1;
    }
    None
}

/// The input section of a workload file: the text after the first
/// `## INPUT` marker up to the next line that starts a `## ` heading (or the
/// end), trimmed.
pub open spec fn input_section(text: Seq<char>) -> Option<Seq<char>> {
    match first_match_from(text, "## INPUT"@, 0) {
        None => None,
        Some(m) => {
            let rest = text.skip(m + "## INPUT"@.len());
            let end = match first_match_from(rest, "\n## "@, 0) {
                Some(e) => e,
                None => rest.len() as int,
            };
            Some(trim_seq(rest.take(end)))
        },
    }
}

fn copy_range(v: &Vec<char>, a: usize, b: usize) -> (r: Vec<char>)
    requires
        a <= b <= v@.len(),
    ensures
        r@ == v@.subrange(a as int, b as int),
{
    let mut out: Vec<char> = Vec::new();
    let mut i: usize = a;
    while i < b
        invariant
            a <= i <= b,
            b <= v@.len(),
            out@ == v@.subrange(a as int, i as int),
        decreases b - i,
    {
        out.push(v[i]);
        assert(v@.subrange(a as int, i + 1) =~= v@.subrange(a as int, i as int).push(v@[i as int]));
        i = i + 1;
    }
    out
}

/// The input section of a workload file (see [`input_section`]), or an
/// error when the marker is missing.
pub fn extract_input_section(text: &str) -> (r: Result<String, String>)
    ensures
        match input_section(text@) {
            Some(s) => r matches Ok(x) && x@ == s,
            None => r matches Err(e) && e@ == "workload missing '## INPUT'"@,
        },
{
    let t = chars_of(text);
    let marker = chars_of("## INPUT");
    match find_from(&t, &marker, 0) {
        None => Err("workload missing '## INPUT'".to_string()),
        Some(m) => {
            let ml = marker.len();
            let tl = t.len();
            assert(m + ml <= tl);
            let start = m + ml;
            let rest = copy_range(&t, start, t.len());
            assert(rest@ =~= text@.skip(start as int));
            let heading = chars_of("\n## ");
            let end = match find_from(&rest, &heading, 0) {
                Some(e) => e,
                None => rest.len(),
            };
            proof {
                if end < rest.len() {
                    assert(end + heading@.len() <= rest@.len());
                }
            }
            let section = copy_range(&rest, 0, end);
            assert(section@ =~= rest@.take(end as int));
            let trimmed = trim(&section);
            Ok(string_from_chars(&trimmed))
        },
    }
}

/// The prompt for a workload: the first `{input}` of the template replaced
/// by the input, later ones kept.
pub fn render_prompt(template: &str, input: &str) -> (r: String)
    ensures
        r@ == replacen_seq(template@, "{input}"@, input@, 1),
{
    let t = chars_of(template);
    let pat = chars_of("{input}");
    let inp = chars_of(input);
    proof {
        reveal_strlit("{input}");
    }
    let out = replace_chars(&t, &pat, &inp, Some(1));
    string_from_chars(&out)
}

/// The lowercase hex SHA-256 of the UTF-8 bytes of `s`.
pub fn sha256_hex(s: &str) -> (r: String)
    ensures
        r@ == hex_seq(sha256(s.spec_bytes())),
        r@.len() == 64,
{
    let mut state = digest_new();
    digest_update(&mut state, s.as_bytes());
    let d = digest_finish(state);
    assert(Seq::<u8>::empty() + s.spec_bytes() =~= s.spec_bytes());
    let h = hex_lower(d.as_slice());
    string_from_chars(&h)
}

/// The audit timestamp of a benchmark row: `epoch:` and the seconds since
/// the Unix epoch.
pub fn now_iso(secs: u64) -> (r: String)
    ensures
        r@ == "epoch:"@ + dec_seq(secs as nat),
{
    let mut c = chars_of("epoch:");
    append_chars(&mut c, &decimal(secs));
    string_from_chars(&c)
}

/// The comma-separated pieces of `s`, in order (`str::split(',')`).
pub open spec fn comma_pieces(s: Seq<char>) -> Seq<Seq<char>>
    decreases s.len(),
{
    match first_match_from(s, ","@, 0) {
        Some(p) => if 0 <= p < s.len() {
            seq![s.take(p)] + comma_pieces(s.skip(p + 1))
        } else {
            seq![s]
        },
        None => seq![s],
    }
}

/// The trimmed, non-empty entries among `pieces`, in order.
pub open spec fn allow_entries(pieces: Seq<Seq<char>>) -> Seq<Seq<char>>
    decreases pieces.len(),
{
    if pieces.len() == 0 {
        Seq::empty()
    } else {
        let rest = allow_entries(pieces.drop_last());
        let t = trim_seq(pieces.last());
        if t.len() > 0 {
            rest.push(t)
        } else {
            rest
        }
    }
}

fn split_commas(only: &str) -> (pieces: Vec<Vec<char>>)
    ensures
        pieces@.map_values(|p: Vec<char>| p@) == comma_pieces(only@),
{
    let comma = chars_of(",");
    proof {
        reveal_strlit(",");
    }
    let mut buf = chars_of(only);
    let mut pieces: Vec<Vec<char>> = Vec::new();
    loop
        invariant_except_break
            comma@ == ","@,
            comma@.len() == 1,
            comma_pieces(only@) == pieces@.map_values(|p: Vec<char>| p@) + comma_pieces(buf@),
        ensures
            comma_pieces(only@) == pieces@.map_values(|p: Vec<char>| p@),
        decreases buf@.len(),
    {
        match find_from(&buf, &comma, 0) {
            Some(p) => {
                let bl = buf.len();
                assert(p + 1 <= bl);
                let head = copy_range(&buf, 0, p);
                let rest = copy_range(&buf, p + 1, bl);
                assert(head@ =~= buf@.take(p as int));
                assert(rest@ =~= buf@.skip(p + 1));
                let ghost before = pieces@.map_values(|p: Vec<char>| p@);
                pieces.push(head);
                assert(pieces@.map_values(|p: Vec<char>| p@) =~= before.push(buf@.take(p as int)));
                assert(before.push(buf@.take(p as int)) + comma_pieces(rest@) =~= before + (seq![
                    buf@.take(p as int),
                ] + comma_pieces(rest@)));
                buf = rest;
            },
            None => {
                let ghost before = pieces@.map_values(|p: Vec<char>| p@);
                let ghost last = buf@;
                assert(comma_pieces(last) == seq![last]);
                pieces.push(buf);
                assert(pieces@.map_values(|p: Vec<char>| p@) =~= before + seq![last]);
                break;
            },
        }
    }
    pieces
}

/// The workload allow-list of a comma-separated option: each entry trimmed,
/// empty entries dropped.
pub fn parse_allow_list(only: &str) -> (r: Vec<String>)
    ensures
        r@.map_values(|s: String| s@) == allow_entries(comma_pieces(only@)),
{
    let pieces = split_commas(only);
    let ghost pv = pieces@.map_values(|p: Vec<char>| p@);
    let mut out: Vec<String> = Vec::new();
    let mut i: usize = 0;
    while i < pieces.len()
        invariant
            0 <= i <= pieces.len(),
            pv == pieces@.map_values(|p: Vec<char>| p@),
            out@.map_values(|s: String| s@) == allow_entries(pv.take(i as int)),
        decreases pieces.len() - i,
    {
        assert(pv.take(i + 1).drop_last() =~= pv.take(i as int));
        assert(pv.take(i + 1).last() == pieces@[i as int]@);
        let t = trim(&pieces[i]);
        if t.len() > 0 {
            let ghost before = out@.map_values(|s: String| s@);
            let s = string_from_chars(&t);
            out.push(s);
            assert(out@.map_values(|s: String| s@) =~= before.push(s@));
        }
        i = i + 1;
    }
    assert(pv.take(pieces.len() as int) =~= pv);
    out
}

/// Whether a workload with file stem `stem` is run: always without an
/// allow-list, else when the list names it.
pub fn workload_selected(allow: Option<&Vec<String>>, stem: &str) -> (r: bool)
    ensures
        r == match allow {
            Some(a) => strs_view(*a).contains(stem@),
            None => true,
        },
{
    match allow {
        None => true,
        Some(a) => {
            let ghost av = strs_view(*a);
            let mut i: usize = 0;
            while i < a.len()
                invariant
                    0 <= i <= a.len(),
                    av == strs_view(*a),
                    allow == Some(a),
                    forall|j: int| 0 <= j < i ==> av[j] != stem@,
                decreases a.len() - i,
            {
                assert(av[i as int] == a@[i as int]@);
                if crate::text::str_eq(a[i].as_str(), stem) {
                    assert(av[i as int] == stem@);
                    assert(av.contains(stem@));
                    return true;
                }
                i = i + 1;
            }
            false
        },
    }
}

/// The ONNX weight file names looked for in a model directory, in order.
pub fn onnx_candidates() -> (r: Vec<&'static str>)
    ensures
        r@.map_values(|s: &str| s@) == seq![
            "model.onnx"@,
            "decoder_model_merged_q4.onnx"@,
            "model_q4.onnx"@,
            "model_q4f16.onnx"@,
            "decoder_model_merged.onnx"@,
        ],
{
    let r: Vec<&'static str> = vec![
        "model.onnx",
        "decoder_model_merged_q4.onnx",
        "model_q4.onnx",
        "model_q4f16.onnx",
        "decoder_model_merged.onnx",
    ];
    assert(r@.map_values(|s: &str| s@) =~= seq![
        "model.onnx"@,
        "decoder_model_merged_q4.onnx"@,
        "model_q4.onnx"@,
        "model_q4f16.onnx"@,
        "decoder_model_merged.onnx"@,
    ]);
    r
}

// ---------------------------------------------------------------------------
// Choosing files in a directory
// ---------------------------------------------------------------------------

/// The extension of a file name (`Path::extension`): what follows its last
/// `.`; none when there is no `.`, when the only `.` is the first
/// character, or for `..`.
pub open spec fn extension_of(name: Seq<char>) -> Option<Seq<char>> {
    if name == ".."@ {
        None
    } else {
        match last_match(name, "."@) {
            Some(p) => if p == 0 {
                None
            } else {
                Some(name.skip(p + 1))
            },
            None => None,
        }
    }
}

/// The stem of a file name (`Path::file_stem`): what precedes the
/// extension's `.`, or the whole name when it has no extension.
pub open spec fn stem_of(name: Seq<char>) -> Seq<char> {
    match extension_of(name) {
        Some(e) => name.take(name.len() - e.len() - 1),
        None => name,
    }
}

/// Splits a file name into its stem and extension (see [`stem_of`] and
/// [`extension_of`]).
pub fn split_file_name(name: &str) -> (r: (String, Option<String>))
    ensures
        r.0@ == stem_of(name@),
        match extension_of(name@) {
            Some(e) => r.1 matches Some(x) && x@ == e,
            None => r.1 is None,
        },
{
    if str_eq(name, "..") {
        return (name.to_string(), None);
    }
    let cs = chars_of(name);
    let dot = chars_of(".");
    proof {
        reveal_strlit(".");
    }
    match rfind(&cs, &dot) {
        Some(p) => {
            if p == 0 {
                (name.to_string(), None)
            } else {
                let n = cs.len();
                assert(p + 1 <= n);
                let stem = copy_range(&cs, 0, p);
                let ext = copy_range(&cs, p + 1, n);
                assert(ext@ =~= name@.skip(p + 1));
                assert(stem@ =~= name@.take(p as int));
                (string_from_chars(&stem), Some(string_from_chars(&ext)))
            }
        },
        None => (name.to_string(), None),
    }
}

/// `s` sorted stably in string order.
pub open spec fn sorted_names(s: Seq<Seq<char>>) -> Seq<Seq<char>> {
    stable_sort_of(name_keys(s)).map_values(|i: int| s[i])
}

/// The sort keys of names: the names themselves.
pub open spec fn name_keys(s: Seq<Seq<char>>) -> Seq<(int, Seq<char>)> {
    s.map_values(|n: Seq<char>| (0int, n))
}

fn sort_names(v: &Vec<String>) -> (r: Vec<String>)
    ensures
        strs_view(r) == sorted_names(strs_view(*v)),
{
    let ghost sv = strs_view(*v);
    let mut keys: Vec<(i32, Vec<char>)> = Vec::new();
    let mut i: usize = 0;
    while i < v.len()
        invariant
            0 <= i <= v.len(),
            sv == strs_view(*v),
            keys_view(keys@) == name_keys(sv).take(i as int),
        decreases v.len() - i,
    {
        let ghost before = keys_view(keys@);
        let k = (0i32, chars_of(v[i].as_str()));
        keys.push(k);
        assert(sv[i as int] == v@[i as int]@);
        assert(keys_view(keys@) =~= before.push((0int, v@[i as int]@)));
        assert(keys_view(keys@) =~= name_keys(sv).take(i + 1));
        i = i + 1;
    }
    assert(name_keys(sv).take(v.len() as int) =~= name_keys(sv));
    let perm = stable_sort_positions(&keys);
    let ghost pv = perm@.map_values(|j: usize| j as int);
    let mut out: Vec<String> = Vec::new();
    let mut j: usize = 0;
    while j < perm.len()
        invariant
            0 <= j <= perm.len(),
            sv == strs_view(*v),
            pv == perm@.map_values(|j: usize| j as int),
            is_stable_sort(name_keys(sv), pv),
            strs_view(out) == pv.map_values(|i: int| sv[i]).take(j as int),
        decreases perm.len() - j,
    {
        assert(pv[j as int] == perm@[j as int] as int);
        let ghost before = strs_view(out);
        let x = v[perm[j]].clone();
        assert(sv[perm@[j as int] as int] == v@[perm@[j as int] as int]@);
        out.push(x);
        assert(strs_view(out) =~= before.push(x@));
        assert(strs_view(out) =~= pv.map_values(|i: int| sv[i]).take(j + 1));
        j = j + 1;
    }
    assert(pv.map_values(|i: int| sv[i]).take(perm.len() as int) =~= pv.map_values(|i: int| sv[i]));
    proof {
        lemma_stable_sort_of(name_keys(sv), pv);
    }
    out
}

/// The workload files among the names of a directory's files: those with
/// extension `txt` whose stem the allow-list (if any) names, in order.
pub open spec fn workload_files(names: Seq<Seq<char>>, allow: Option<Seq<Seq<char>>>) -> Seq<
    Seq<char>,
>
    decreases names.len(),
{
    if names.len() == 0 {
        Seq::empty()
    } else {
        let rest = workload_files(names.drop_last(), allow);
        let n = names.last();
        if extension_of(n) == Some("txt"@) && match allow {
            Some(a) => a.contains(stem_of(n)),
            None => true,
        } {
            rest.push(n)
        } else {
            rest
        }
    }
}

/// The workloads to run from the names of the workload directory's files
/// (see [`workload_files`]), sorted.
pub fn select_workloads(names: &Vec<String>, allow: Option<&Vec<String>>) -> (r: Vec<String>)
    ensures
        strs_view(r) == sorted_names(
            workload_files(
                strs_view(*names),
                match allow {
                    Some(a) => Some(strs_view(*a)),
                    None => None,
                },
            ),
        ),
{
    let ghost nv = strs_view(*names);
    let ghost av = match allow {
        Some(a) => Some(strs_view(*a)),
        None => None::<Seq<Seq<char>>>,
    };
    let mut picked: Vec<String> = Vec::new();
    let mut i: usize = 0;
    while i < names.len()
        invariant
            0 <= i <= names.len(),
            nv == strs_view(*names),
            av == match allow {
                Some(a) => Some(strs_view(*a)),
                None => None::<Seq<Seq<char>>>,
            },
            strs_view(picked) == workload_files(nv.take(i as int), av),
        decreases names.len() - i,
    {
        assert(nv.take(i + 1).drop_last() =~= nv.take(i as int));
        assert(nv.take(i + 1).last() == names@[i as int]@);
        let (stem, ext) = split_file_name(names[i].as_str());
        let is_txt = match &ext {
            Some(e) => {
                proof {
                    reveal_strlit("txt");
                }
                str_eq(e.as_str(), "txt")
            },
            None => false,
        };
        if is_txt && workload_selected(allow, stem.as_str()) {
            let ghost before = strs_view(picked);
            let x = names[i].clone();
            picked.push(x);
            assert(strs_view(picked) =~= before.push(x@));
        }
        i = i + 1;
    }
    assert(nv.take(names.len() as int) =~= nv);
    sort_names(&picked)
}

/// The names with extension `gguf`, in order.
pub open spec fn gguf_files(names: Seq<Seq<char>>) -> Seq<Seq<char>>
    decreases names.len(),
{
    if names.len() == 0 {
        Seq::empty()
    } else {
        let rest = gguf_files(names.drop_last());
        if extension_of(names.last()) == Some("gguf"@) {
            rest.push(names.last())
        } else {
            rest
        }
    }
}

/// The model weights to load from the names of a model directory's files:
/// the first `.gguf` file in sorted order, if there is one.
pub fn first_gguf(names: &Vec<String>) -> (r: Option<String>)
    ensures
        match r {
            Some(x) => sorted_names(gguf_files(strs_view(*names))).len() > 0 && x@ == sorted_names(
                gguf_files(strs_view(*names)),
            )[0],
            None => gguf_files(strs_view(*names)).len() == 0,
        },
{
    let ghost nv = strs_view(*names);
    let mut hits: Vec<String> = Vec::new();
    let mut i: usize = 0;
    while i < names.len()
        invariant
            0 <= i <= names.len(),
            nv == strs_view(*names),
            strs_view(hits) == gguf_files(nv.take(i as int)),
        decreases names.len() - i,
    {
        assert(nv.take(i + 1).drop_last() =~= nv.take(i as int));
        assert(nv.take(i + 1).last() == names@[i as int]@);
        let (_stem, ext) = split_file_name(names[i].as_str());
        let is_gguf = match &ext {
            Some(e) => {
                proof {
                    reveal_strlit("gguf");
                }
                str_eq(e.as_str(), "gguf")
            },
            None => false,
        };
        if is_gguf {
            let ghost before = strs_view(hits);
            let x = names[i].clone();
            hits.push(x);
            assert(strs_view(hits) =~= before.push(x@));
        }
        i = i + 1;
    }
    assert(nv.take(names.len() as int) =~= nv);
    let sorted = sort_names(&hits);
    if sorted.len() == 0 {
        proof {
            crate::order::lemma_stable_sort_exists(name_keys(strs_view(hits)));
        }
        None
    } else {
        let x = sorted[0].clone();
        assert(strs_view(sorted).len() == sorted@.len());
        assert(strs_view(sorted)[0] == x@);
        Some(x)
    }
}

} // verus!
