//! Character-level text utilities: conversions between `str` and `Vec<char>`,
//! Unicode whitespace, substring search and replacement, and decimal and
//! hexadecimal rendering of integers.

use vstd::prelude::*;

verus! {

broadcast use vstd::string::group_string_axioms;

// ---------------------------------------------------------------------------
// Conversions
// ---------------------------------------------------------------------------

/// Appends one character to a `String` (`String::push`).
#[verifier::external_body]
fn push_char(s: &mut String, c: char)
    ensures
        final(s)@ == old(s)@.push(c),
{
    s.push(c);
}

/// The characters of `s`, in order.
pub fn chars_of(s: &str) -> (v: Vec<char>)
    ensures
        v@ == s@,
{
    let mut v: Vec<char> = Vec::new();
    for c in it: s.chars()
        invariant
            it.seq() == s@,
            v@ == it.seq().take(it.index()),
    {
        v.push(c);
    }
    v
}

/// A `String` holding exactly the characters of `v`.
pub fn string_from_chars(v: &Vec<char>) -> (s: String)
    ensures
        s@ == v@,
{
    let mut s = String::new();
    let mut i: usize = 0;
    while i < v.len()
        invariant
            0 <= i <= v.len(),
            s@ == v@.take(i as int),
        decreases v.len() - i,
    {
        push_char(&mut s, v[i]);
        assert(v@.take(i + 1) =~= v@.take(i as int).push(v@[i as int]));
        i = i + 1;
    }
    assert(v@.take(v.len() as int) =~= v@);
    s
}

/// Appends all of `src` to the end of `dst`.
pub fn append_chars(dst: &mut Vec<char>, src: &Vec<char>)
    ensures
        final(dst)@ == old(dst)@ + src@,
{
    let mut i: usize = 0;
    while i < src.len()
        invariant
            0 <= i <= src.len(),
            dst@ == old(dst)@ + src@.take(i as int),
        decreases src.len() - i,
    {
        dst.push(src[i]);
        assert(src@.take(i + 1) =~= src@.take(i as int).push(src@[i as int]));
        i = i + 1;
    }
    assert(src@.take(src.len() as int) =~= src@);
}

/// Appends the characters of `src` to the end of `dst`.
pub fn append_str(dst: &mut Vec<char>, src: &str)
    ensures
        final(dst)@ == old(dst)@ + src@,
{
    let cs = chars_of(src);
    append_chars(dst, &cs);
}

// ---------------------------------------------------------------------------
// Whitespace
// ---------------------------------------------------------------------------

/// Unicode `White_Space`, the property that `char::is_whitespace` tests.
pub open spec fn is_ws(c: char) -> bool {
    let u = c as u32;
    ||| 0x09 <= u <= 0x0D
    ||| u == 0x20
    ||| u == 0x85
    ||| u == 0xA0
    ||| u == 0x1680
    ||| 0x2000 <= u <= 0x200A
    ||| u == 0x2028
    ||| u == 0x2029
    ||| u == 0x202F
    ||| u == 0x205F
    ||| u == 0x3000
}

/// Whether `c` is Unicode whitespace.
pub fn is_whitespace(c: char) -> (b: bool)
    ensures
        b == is_ws(c),
{
    let u = c as u32;
    (0x09 <= u && u <= 0x0D) || u == 0x20 || u == 0x85 || u == 0xA0 || u == 0x1680 || (0x2000
        <= u && u <= 0x200A) || u == 0x2028 || u == 0x2029 || u == 0x202F || u == 0x205F || u
        == 0x3000
}

/// `s` holds nothing but whitespace (that is, `s.trim()` is empty).
pub open spec fn is_blank_seq(s: Seq<char>) -> bool {
    forall|i: int| 0 <= i < s.len() ==> is_ws(#[trigger] s[i])
}

/// Whether `s` holds nothing but whitespace.
pub fn is_blank(s: &Vec<char>) -> (b: bool)
    ensures
        b == is_blank_seq(s@),
{
    let mut i: usize = 0;
    while i < s.len()
        invariant
            0 <= i <= s.len(),
            forall|j: int| 0 <= j < i ==> is_ws(#[trigger] s@[j]),
        decreases s.len() - i,
    {
        if !is_whitespace(s[i]) {
            return false;
        }
        i = i + 1;
    }
    true
}

/// Whether the string `s` holds nothing but whitespace.
pub fn str_is_blank(s: &str) -> (b: bool)
    ensures
        b == is_blank_seq(s@),
{
    let cs = chars_of(s);
    is_blank(&cs)
}

/// Number of whitespace characters at the start of `s`.
pub open spec fn lead_ws(s: Seq<char>) -> nat
    decreases s.len(),
{
    if s.len() > 0 && is_ws(s[0]) {
        1 + lead_ws(s.drop_first())
    } else {
        0
    }
}

/// Number of whitespace characters at the end of `s`.
pub open spec fn trail_ws(s: Seq<char>) -> nat
    decreases s.len(),
{
    if s.len() > 0 && is_ws(s.last()) {
        1 + trail_ws(s.drop_last())
    } else {
        0
    }
}

/// `s` without leading whitespace (`str::trim_start`).
pub open spec fn trim_start_seq(s: Seq<char>) -> Seq<char> {
    s.skip(lead_ws(s) as int)
}

/// `s` without trailing whitespace (`str::trim_end`).
pub open spec fn trim_end_seq(s: Seq<char>) -> Seq<char> {
    s.take(s.len() - trail_ws(s))
}

/// `s` without leading and trailing whitespace (`str::trim`).
pub open spec fn trim_seq(s: Seq<char>) -> Seq<char> {
    trim_end_seq(trim_start_seq(s))
}

proof fn lemma_lead_ws_bound(s: Seq<char>)
    ensures
        lead_ws(s) <= s.len(),
        forall|j: int| 0 <= j < lead_ws(s) ==> is_ws(#[trigger] s[j]),
        lead_ws(s) < s.len() ==> !is_ws(s[lead_ws(s) as int]),
    decreases s.len(),
{
    if s.len() > 0 && is_ws(s[0]) {
        lemma_lead_ws_bound(s.drop_first());
        assert forall|j: int| 0 <= j < lead_ws(s) implies is_ws(#[trigger] s[j]) by {
            if j > 0 {
                assert(s[j] == s.drop_first()[j - 1]);
            }
        }
    }
}

proof fn lemma_lead_ws_of(s: Seq<char>, k: int)
    requires
        0 <= k <= s.len(),
        forall|j: int| 0 <= j < k ==> is_ws(#[trigger] s[j]),
        k < s.len() ==> !is_ws(s[k]),
    ensures
        lead_ws(s) == k,
    decreases s.len(),
{
    if k > 0 {
        assert(is_ws(s[0]));
        let t = s.drop_first();
        assert forall|j: int| 0 <= j < k - 1 implies is_ws(#[trigger] t[j]) by {
            assert(t[j] == s[j + 1]);
        }
        if k - 1 < t.len() {
            assert(t[k - 1] == s[k]);
        }
        lemma_lead_ws_of(t, k - 1);
    }
}

proof fn lemma_trail_ws_of(s: Seq<char>, k: int)
    requires
        0 <= k <= s.len(),
        forall|j: int| s.len() - k <= j < s.len() ==> is_ws(#[trigger] s[j]),
        k < s.len() ==> !is_ws(s[s.len() - k - 1]),
    ensures
        trail_ws(s) == k,
    decreases s.len(),
{
    if k > 0 {
        assert(is_ws(s[s.len() - 1]));
        let t = s.drop_last();
        assert forall|j: int| t.len() - (k - 1) <= j < t.len() implies is_ws(#[trigger] t[j]) by {
            assert(t[j] == s[j]);
        }
        if k - 1 < t.len() {
            assert(t[t.len() - (k - 1) - 1] == s[s.len() - k - 1]);
        }
        lemma_trail_ws_of(t, k - 1);
    }
}

/// The characters of `s` without leading and trailing whitespace.
pub fn trim(s: &Vec<char>) -> (t: Vec<char>)
    ensures
        t@ == trim_seq(s@),
{
    let n = s.len();
    let mut a: usize = 0;
    while a < n && is_whitespace(s[a])
        invariant
            0 <= a <= n,
            n == s.len(),
            forall|j: int| 0 <= j < a ==> is_ws(#[trigger] s@[j]),
        decreases n - a,
    {
        a = a + 1;
    }
    proof {
        lemma_lead_ws_of(s@, a as int);
    }
    let ghost u = s@.skip(a as int);
    let mut b: usize = n;
    while b > a && is_whitespace(s[b - 1])
        invariant
            a <= b <= n,
            n == s.len(),
            forall|j: int| b <= j < n ==> is_ws(#[trigger] s@[j]),
        decreases b - a,
    {
        b = b - 1;
    }
    proof {
        assert forall|j: int| u.len() - (n - b) <= j < u.len() implies is_ws(#[trigger] u[j]) by {
            assert(u[j] == s@[j + a]);
        }
        if (n - b) < u.len() {
            assert(u[u.len() - (n - b) - 1] == s@[b - 1]);
        }
        lemma_trail_ws_of(u, (n - b) as int);
    }
    let mut t: Vec<char> = Vec::new();
    let mut i: usize = a;
    while i < b
        invariant
            a <= i <= b,
            b <= n,
            n == s.len(),
            t@ == s@.subrange(a as int, i as int),
        decreases b - i,
    {
        t.push(s[i]);
        assert(s@.subrange(a as int, i + 1) =~= s@.subrange(a as int, i as int).push(s@[i as int]));
        i = i + 1;
    }
    assert(t@ =~= trim_seq(s@));
    t
}

// ---------------------------------------------------------------------------
// Substrings
// ---------------------------------------------------------------------------

/// `pat` occurs in `s` starting at index `i`.
pub open spec fn matches_at(s: Seq<char>, pat: Seq<char>, i: int) -> bool {
    0 <= i && i + pat.len() <= s.len() && s.subrange(i, i + pat.len()) == pat
}

/// `pat` occurs somewhere in `s` (`str::contains`).
pub open spec fn contains_seq(s: Seq<char>, pat: Seq<char>) -> bool {
    exists|i: int| matches_at(s, pat, i)
}

/// `s` begins with `pat` (`str::starts_with`).
pub open spec fn starts_with_seq(s: Seq<char>, pat: Seq<char>) -> bool {
    matches_at(s, pat, 0)
}

/// Whether `pat` occurs in `s` at index `i`.
pub fn match_at(s: &Vec<char>, pat: &Vec<char>, i: usize) -> (b: bool)
    ensures
        b == matches_at(s@, pat@, i as int),
{
    if i > s.len() || pat.len() > s.len() - i {
        return false;
    }
    let mut k: usize = 0;
    while k < pat.len()
        invariant
            0 <= k <= pat.len(),
            i + pat.len() <= s.len(),
            forall|j: int| 0 <= j < k ==> s@[i + j] == pat@[j],
        decreases pat.len() - k,
    {
        if s[i + k] != pat[k] {
            assert(s@.subrange(i as int, i + pat.len())[k as int] != pat@[k as int]);
            return false;
        }
        k = k + 1;
    }
    assert(s@.subrange(i as int, i + pat.len()) =~= pat@);
    true
}

/// Whether `pat` occurs anywhere in `s`.
pub fn contains(s: &Vec<char>, pat: &Vec<char>) -> (b: bool)
    ensures
        b == contains_seq(s@, pat@),
{
    match find_from(s, pat, 0) {
        Some(_) => true,
        None => {
            assert forall|i: int| !matches_at(s@, pat@, i) by {
                if 0 <= i {
                }
            }
            false
        },
    }
}

/// Whether `s` begins with `pat`.
pub fn starts_with(s: &Vec<char>, pat: &Vec<char>) -> (b: bool)
    ensures
        b == starts_with_seq(s@, pat@),
{
    match_at(s, pat, 0)
}

/// The first index at or after `from` where `pat` occurs in `s`.
pub open spec fn first_match_from(s: Seq<char>, pat: Seq<char>, from: int) -> Option<int>
    decreases s.len() + 1 - from,
{
    if from < 0 || from > s.len() {
        None
    } else if matches_at(s, pat, from) {
        Some(from)
    } else {
        first_match_from(s, pat, from + 1)
    }
}

pub proof fn lemma_first_match_from(s: Seq<char>, pat: Seq<char>, from: int)
    requires
        0 <= from,
    ensures
        first_match_from(s, pat, from) matches Some(i) ==> {
            &&& from <= i
            &&& matches_at(s, pat, i)
            &&& forall|j: int| from <= j < i ==> !matches_at(s, pat, j)
        },
        first_match_from(s, pat, from) is None ==> forall|j: int|
            from <= j ==> !matches_at(s, pat, j),
    decreases s.len() + 1 - from,
{
    if from > s.len() {
    } else if matches_at(s, pat, from) {
    } else {
        lemma_first_match_from(s, pat, from + 1);
    }
}

/// The first index at or after `from` where `pat` occurs in `s` (`str::find`).
pub fn find_from(s: &Vec<char>, pat: &Vec<char>, from: usize) -> (r: Option<usize>)
    ensures
        r matches Some(i) ==> first_match_from(s@, pat@, from as int) == Some(i as int),
        r is None ==> first_match_from(s@, pat@, from as int) is None,
        r matches Some(i) ==> from <= i && matches_at(s@, pat@, i as int),
        r is None ==> forall|j: int| from <= j ==> !matches_at(s@, pat@, j),
{
    proof {
        lemma_first_match_from(s@, pat@, from as int);
    }
    if from > s.len() {
        return None;
    }
    let mut i: usize = from;
    while i < s.len()
        invariant
            from <= i <= s.len(),
            first_match_from(s@, pat@, from as int) == first_match_from(s@, pat@, i as int),
        decreases s.len() - i,
    {
        if match_at(s, pat, i) {
            return Some(i);
        }
        i = i + 1;
    }
    if match_at(s, pat, i) {
        return Some(i);
    }
    assert(first_match_from(s@, pat@, i + 1) is None);
    None
}

/// The last index where `pat` occurs in `s` (`str::rfind`).
pub open spec fn last_match(s: Seq<char>, pat: Seq<char>) -> Option<int> {
    if exists|i: int| matches_at(s, pat, i) {
        Some(choose|i: int| matches_at(s, pat, i) && forall|j: int| i < j ==> !matches_at(s, pat, j))
    } else {
        None
    }
}

/// The last index where `pat` occurs in `s` (`str::rfind`).
pub fn rfind(s: &Vec<char>, pat: &Vec<char>) -> (r: Option<usize>)
    ensures
        r matches Some(i) ==> matches_at(s@, pat@, i as int) && forall|j: int|
            i < j ==> !matches_at(s@, pat@, j),
        r is None ==> forall|j: int| !matches_at(s@, pat@, j),
        r matches Some(i) ==> last_match(s@, pat@) == Some(i as int),
        r is None ==> last_match(s@, pat@) is None,
{
    let mut i: usize = s.len();
    let mut found = match_at(s, pat, i);
    while !found && i > 0
        invariant
            0 <= i <= s.len(),
            found == matches_at(s@, pat@, i as int),
            forall|j: int| i < j ==> !matches_at(s@, pat@, j),
        decreases i,
    {
        i = i - 1;
        found = match_at(s, pat, i);
    }
    if found {
        proof {
            let w = choose|k: int| matches_at(s@, pat@, k) && forall|j: int| k < j ==> !matches_at(s@, pat@, j);
            assert(matches_at(s@, pat@, i as int) && forall|j: int| i < j ==> !matches_at(s@, pat@, j));
            if w < i {
            } else if w > i {
            }
        }
        return Some(i);
    }
    assert forall|j: int| !matches_at(s@, pat@, j) by {
        if j < 0 {
        }
    }
    None
}

// ---------------------------------------------------------------------------
// Replacement
// ---------------------------------------------------------------------------

/// The result of scanning `s` from index `i`, replacing every leftmost
/// non-overlapping occurrence of `pat` by `rep`.
pub open spec fn replace_from(s: Seq<char>, pat: Seq<char>, rep: Seq<char>, i: int) -> Seq<char>
    decreases s.len() - i,
{
    if i < 0 || i >= s.len() {
        Seq::empty()
    } else if pat.len() > 0 && matches_at(s, pat, i) {
        rep + replace_from(s, pat, rep, i + pat.len())
    } else {
        seq![s[i]] + replace_from(s, pat, rep, i + 1)
    }
}

/// `s` with every non-overlapping occurrence of `pat` replaced by `rep`,
/// scanning left to right (`str::replace`, for a non-empty `pat`).
pub open spec fn replace_all_seq(s: Seq<char>, pat: Seq<char>, rep: Seq<char>) -> Seq<char> {
    replace_from(s, pat, rep, 0)
}

/// `s` with at most the first `n` occurrences of `pat` replaced by `rep`
/// (`str::replacen`), scanning from index `i`.
pub open spec fn replacen_from(s: Seq<char>, pat: Seq<char>, rep: Seq<char>, n: nat, i: int) -> Seq<char>
    decreases s.len() - i,
{
    if i < 0 || i >= s.len() {
        Seq::empty()
    } else if n > 0 && pat.len() > 0 && matches_at(s, pat, i) {
        rep + replacen_from(s, pat, rep, (n - 1) as nat, i + pat.len())
    } else {
        seq![s[i]] + replacen_from(s, pat, rep, n, i + 1)
    }
}

/// `s` with at most the first `n` occurrences of `pat` replaced by `rep`.
pub open spec fn replacen_seq(s: Seq<char>, pat: Seq<char>, rep: Seq<char>, n: nat) -> Seq<char> {
    replacen_from(s, pat, rep, n, 0)
}

/// Replacing a pattern that does not occur changes nothing.
pub proof fn lemma_replace_absent(s: Seq<char>, pat: Seq<char>, rep: Seq<char>, i: int)
    requires
        !contains_seq(s, pat),
        0 <= i <= s.len(),
    ensures
        replace_from(s, pat, rep, i) == s.skip(i),
    decreases s.len() - i,
{
    if i < s.len() {
        assert(!matches_at(s, pat, i));
        lemma_replace_absent(s, pat, rep, i + 1);
        assert(seq![s[i]] + s.skip(i + 1) =~= s.skip(i));
    } else {
        assert(s.skip(i) =~= Seq::<char>::empty());
    }
}

/// Replaces at most `n` leftmost non-overlapping occurrences of `pat` in `s`
/// by `rep`; `n == None` replaces all of them.
pub fn replace_chars(s: &Vec<char>, pat: &Vec<char>, rep: &Vec<char>, n: Option<usize>) -> (r: Vec<char>)
    requires
        pat@.len() > 0,
    ensures
        n is None ==> r@ == replace_all_seq(s@, pat@, rep@),
        n matches Some(k) ==> r@ == replacen_seq(s@, pat@, rep@, k as nat),
{
    let mut out: Vec<char> = Vec::new();
    let mut i: usize = 0;
    let mut left: usize = match n {
        Some(k) => k,
        None => 0,
    };
    while i < s.len()
        invariant
            0 <= i <= s.len(),
            pat@.len() > 0,
            n is None ==> replace_all_seq(s@, pat@, rep@) == out@ + replace_from(s@, pat@, rep@, i as int),
            n is Some ==> replacen_seq(s@, pat@, rep@, n->0 as nat) == out@ + replacen_from(s@, pat@, rep@, left as nat, i as int),
        decreases s.len() - i,
    {
        let do_replace = match n {
            Some(_) => left > 0,
            None => true,
        };
        if do_replace && match_at(s, pat, i) {
            append_chars(&mut out, rep);
            i = i + pat.len();
            if n.is_some() {
                left = left - 1;
            }
        } else {
            out.push(s[i]);
            i = i + 1;
        }
    }
    out
}

} // verus!

verus! {

// ---------------------------------------------------------------------------
// Filtering and truncation
// ---------------------------------------------------------------------------

/// `s` with every NUL character removed.
pub open spec fn remove_nul_seq(s: Seq<char>) -> Seq<char>
    decreases s.len(),
{
    if s.len() == 0 {
        Seq::empty()
    } else if s.last() == '\0' {
        remove_nul_seq(s.drop_last())
    } else {
        remove_nul_seq(s.drop_last()).push(s.last())
    }
}

/// Dropping NUL characters leaves none, never lengthens the text, and
/// keeps a text without NUL characters as it is.
pub proof fn lemma_remove_nul(s: Seq<char>)
    ensures
        forall|k: int| 0 <= k < remove_nul_seq(s).len() ==> #[trigger] remove_nul_seq(s)[k] != '\0',
        remove_nul_seq(s).len() <= s.len(),
        (forall|k: int| 0 <= k < s.len() ==> #[trigger] s[k] != '\0') ==> remove_nul_seq(s) == s,
    decreases s.len(),
{
    if s.len() > 0 {
        lemma_remove_nul(s.drop_last());
        if forall|k: int| 0 <= k < s.len() ==> #[trigger] s[k] != '\0' {
            assert forall|k: int| 0 <= k < s.drop_last().len() implies #[trigger] s.drop_last()[k] != '\0' by {
                assert(s.drop_last()[k] == s[k]);
            }
            assert(s[s.len() - 1] != '\0');
            assert(s.drop_last().push(s.last()) =~= s);
        }
    }
}

/// The first `n` elements of `s`, or all of `s` when it is shorter
/// (`Iterator::take`).
pub open spec fn take_at_most<A>(s: Seq<A>, n: nat) -> Seq<A> {
    if s.len() <= n {
        s
    } else {
        s.take(n as int)
    }
}

/// The characters of `s` without NUL characters, cut to at most `limit`
/// characters (`s.chars().filter(|c| *c != '\0').take(limit)`).
pub fn remove_nul_take(s: &Vec<char>, limit: usize) -> (r: Vec<char>)
    ensures
        r@ == take_at_most(remove_nul_seq(s@), limit as nat),
{
    let mut out: Vec<char> = Vec::new();
    let mut i: usize = 0;
    while i < s.len()
        invariant
            0 <= i <= s.len(),
            out@ == take_at_most(remove_nul_seq(s@.take(i as int)), limit as nat),
        decreases s.len() - i,
    {
        let c = s[i];
        let ghost x = remove_nul_seq(s@.take(i as int));
        assert(s@.take(i + 1).drop_last() =~= s@.take(i as int));
        assert(s@.take(i + 1).last() == c);
        if c != '\0' && out.len() < limit {
            out.push(c);
        } else if c != '\0' {
            assert(take_at_most(x.push(c), limit as nat) =~= take_at_most(x, limit as nat));
        }
        i = i + 1;
    }
    assert(s@.take(s.len() as int) =~= s@);
    out
}

// ---------------------------------------------------------------------------
// Numbers
// ---------------------------------------------------------------------------

/// The decimal digit character for `d` (`0 <= d < 10`).
pub open spec fn digit_char(d: nat) -> char {
    if d == 0 {
        '0'
    } else if d == 1 {
        '1'
    } else if d == 2 {
        '2'
    } else if d == 3 {
        '3'
    } else if d == 4 {
        '4'
    } else if d == 5 {
        '5'
    } else if d == 6 {
        '6'
    } else if d == 7 {
        '7'
    } else if d == 8 {
        '8'
    } else {
        '9'
    }
}

/// The decimal representation of `n`, without leading zeros
/// (`u64::to_string`).
pub open spec fn dec_seq(n: nat) -> Seq<char>
    decreases n,
{
    if n < 10 {
        seq![digit_char(n)]
    } else {
        dec_seq(n / 10).push(digit_char(n % 10))
    }
}

fn digit(d: u64) -> (c: char)
    requires
        d < 10,
    ensures
        c == digit_char(d as nat),
{
    if d == 0 {
        '0'
    } else if d == 1 {
        '1'
    } else if d == 2 {
        '2'
    } else if d == 3 {
        '3'
    } else if d == 4 {
        '4'
    } else if d == 5 {
        '5'
    } else if d == 6 {
        '6'
    } else if d == 7 {
        '7'
    } else if d == 8 {
        '8'
    } else {
        '9'
    }
}

/// The decimal digits of `n`.
pub fn decimal(n: u64) -> (r: Vec<char>)
    ensures
        r@ == dec_seq(n as nat),
    decreases n,
{
    if n < 10 {
        let mut v: Vec<char> = Vec::new();
        v.push(digit(n));
        v
    } else {
        let mut v = decimal(n / 10);
        v.push(digit(n % 10));
        v
    }
}

/// `s` left-padded with `'0'` to at least `width` characters (`{:0width$}`).
pub open spec fn pad_zeros_seq(s: Seq<char>, width: nat) -> Seq<char> {
    if s.len() >= width {
        s
    } else {
        Seq::new((width - s.len()) as nat, |_i: int| '0') + s
    }
}

/// The decimal digits of `n`, left-padded with zeros to `width` characters.
pub fn decimal_padded(n: u64, width: usize) -> (r: Vec<char>)
    ensures
        r@ == pad_zeros_seq(dec_seq(n as nat), width as nat),
{
    let d = decimal(n);
    if d.len() >= width {
        return d;
    }
    let mut r: Vec<char> = Vec::new();
    let k = width - d.len();
    let mut i: usize = 0;
    while i < k
        invariant
            0 <= i <= k,
            r@ == Seq::new(i as nat, |_i: int| '0'),
        decreases k - i,
    {
        r.push('0');
        assert(r@ =~= Seq::new((i + 1) as nat, |_i: int| '0'));
        i = i + 1;
    }
    append_chars(&mut r, &d);
    r
}

/// The lowercase hexadecimal digit for `d` (`0 <= d < 16`).
pub open spec fn hex_digit_char(d: nat) -> char {
    if d < 10 {
        digit_char(d)
    } else if d == 10 {
        'a'
    } else if d == 11 {
        'b'
    } else if d == 12 {
        'c'
    } else if d == 13 {
        'd'
    } else if d == 14 {
        'e'
    } else {
        'f'
    }
}

/// Two lowercase hex digits for one byte (`{:02x}`).
pub open spec fn hex_byte_seq(b: u8) -> Seq<char> {
    seq![hex_digit_char((b / 16) as nat), hex_digit_char((b % 16) as nat)]
}

/// Lowercase hex encoding of `bytes`, two digits per byte (`hex::encode`).
pub open spec fn hex_seq(bytes: Seq<u8>) -> Seq<char>
    decreases bytes.len(),
{
    if bytes.len() == 0 {
        Seq::empty()
    } else {
        hex_seq(bytes.drop_last()) + hex_byte_seq(bytes.last())
    }
}

fn hex_digit(d: u8) -> (c: char)
    requires
        d < 16,
    ensures
        c == hex_digit_char(d as nat),
{
    if d < 10 {
        digit(d as u64)
    } else if d == 10 {
        'a'
    } else if d == 11 {
        'b'
    } else if d == 12 {
        'c'
    } else if d == 13 {
        'd'
    } else if d == 14 {
        'e'
    } else {
        'f'
    }
}

/// Lowercase hex encoding of `bytes`, two digits per byte.
pub fn hex_lower(bytes: &[u8]) -> (r: Vec<char>)
    ensures
        r@ == hex_seq(bytes@),
        r@.len() == 2 * bytes@.len(),
{
    let mut out: Vec<char> = Vec::new();
    let mut i: usize = 0;
    while i < bytes.len()
        invariant
            0 <= i <= bytes.len(),
            out@ == hex_seq(bytes@.take(i as int)),
            out@.len() == 2 * i,
        decreases bytes.len() - i,
    {
        let b = bytes[i];
        out.push(hex_digit(b / 16));
        out.push(hex_digit(b % 16));
        assert(bytes@.take(i + 1).drop_last() =~= bytes@.take(i as int));
        assert(out@ =~= hex_seq(bytes@.take(i as int)) + hex_byte_seq(b));
        i = i + 1;
    }
    assert(bytes@.take(bytes.len() as int) =~= bytes@);
    out
}

// ---------------------------------------------------------------------------
// Joining
// ---------------------------------------------------------------------------

/// The elements of `parts` separated by `sep` (`[String]::join`).
pub open spec fn join_seq(parts: Seq<Seq<char>>, sep: Seq<char>) -> Seq<char>
    decreases parts.len(),
{
    if parts.len() == 0 {
        Seq::empty()
    } else if parts.len() == 1 {
        parts[0]
    } else {
        join_seq(parts.drop_last(), sep) + sep + parts.last()
    }
}

/// Joining keeps at least the first part.
pub proof fn lemma_join_len(parts: Seq<Seq<char>>, sep: Seq<char>)
    requires
        parts.len() > 0,
    ensures
        join_seq(parts, sep).len() >= parts[0].len(),
    decreases parts.len(),
{
    if parts.len() > 1 {
        lemma_join_len(parts.drop_last(), sep);
    }
}

/// Joins `parts` with `sep` between consecutive elements.
pub fn join(parts: &Vec<Vec<char>>, sep: &Vec<char>) -> (r: Vec<char>)
    ensures
        r@ == join_seq(parts@.map_values(|p: Vec<char>| p@), sep@),
{
    let ghost ps = parts@.map_values(|p: Vec<char>| p@);
    let mut out: Vec<char> = Vec::new();
    let mut i: usize = 0;
    while i < parts.len()
        invariant
            0 <= i <= parts.len(),
            ps == parts@.map_values(|p: Vec<char>| p@),
            out@ == join_seq(ps.take(i as int), sep@),
        decreases parts.len() - i,
    {
        assert(ps.take(i + 1).drop_last() =~= ps.take(i as int));
        if i > 0 {
            append_chars(&mut out, sep);
        }
        append_chars(&mut out, &parts[i]);
        i = i + 1;
    }
    assert(ps.take(parts.len() as int) =~= ps);
    out
}

} // verus!

verus! {

/// Whether two strings hold the same characters.
pub fn str_eq(a: &str, b: &str) -> (r: bool)
    ensures
        r == (a@ == b@),
{
    let x = chars_of(a);
    let y = chars_of(b);
    chars_eq(&x, &y)
}

/// Whether two character vectors are equal.
pub fn chars_eq(x: &Vec<char>, y: &Vec<char>) -> (r: bool)
    ensures
        r == (x@ == y@),
{
    if x.len() != y.len() {
        return false;
    }
    let mut i: usize = 0;
    while i < x.len()
        invariant
            0 <= i <= x.len(),
            x.len() == y.len(),
            forall|j: int| 0 <= j < i ==> x@[j] == y@[j],
        decreases x.len() - i,
    {
        if x[i] != y[i] {
            return false;
        }
        i = i + 1;
    }
    assert(x@ =~= y@);
    true
}

} // verus!
