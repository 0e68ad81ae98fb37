//! Getting text into the focused application: the injection plan for each
//! mode, the focused field's context, and which application has focus.

use vstd::prelude::*;
use crate::text::{chars_of, str_eq, string_from_chars, take_at_most, trim, trim_seq};

verus! {

broadcast use vstd::string::group_string_axioms;

/// How dictated text reaches the target application.
#[derive(Debug, Clone, Copy, PartialEq, Eq)]
pub enum InjectMode {
    /// Synthesised key strokes, character by character.
    Direct,
    /// Through the clipboard and a synthesised paste shortcut.
    Clipboard,
}

/// One step of injecting text; the app performs them in order.
#[derive(Debug, Clone)]
pub enum InjectAction {
    /// Type the text with synthesised key strokes.
    TypeText(String),
    /// Put the text on the system clipboard.
    SetClipboard(String),
    /// Press the platform paste shortcut (Cmd+V on macOS, Ctrl+V elsewhere).
    SynthPaste,
}

/// Injects text into whatever application has focus.
pub struct TextInjector;

impl TextInjector {
    /// The steps that inject `text` in `mode`: typing it directly, or
    /// copying it to the clipboard and then pasting.
    pub fn inject(text: &str, mode: InjectMode) -> (r: Vec<InjectAction>)
        ensures
            mode == InjectMode::Direct ==> r@.len() == 1 && (r@[0] matches InjectAction::TypeText(t)
                && t@ == text@),
            mode == InjectMode::Clipboard ==> r@.len() == 2 && (r@[0] matches InjectAction::SetClipboard(t)
                && t@ == text@) && (r@[1] matches InjectAction::SynthPaste),
    {
        match mode {
            InjectMode::Direct => vec![InjectAction::TypeText(text.to_string())],
            InjectMode::Clipboard => Self::inject_clipboard(text),
        }
    }

    fn inject_clipboard(text: &str) -> (r: Vec<InjectAction>)
        ensures
            r@.len() == 2,
            r@[0] matches InjectAction::SetClipboard(t) && t@ == text@,
            r@[1] matches InjectAction::SynthPaste,
    {
        vec![InjectAction::SetClipboard(text.to_string()), InjectAction::SynthPaste]
    }
}

/// The mode a command's optional `mode` argument selects: `"direct"` types
/// the text, anything else (or nothing) goes through the clipboard.
pub fn inject_mode_from(mode: Option<&str>) -> (r: InjectMode)
    ensures
        r == (if mode matches Some(m) && m@ == "direct"@ {
            InjectMode::Direct
        } else {
            InjectMode::Clipboard
        }),
{
    match mode {
        Some(m) => if str_eq(m, "direct") {
            InjectMode::Direct
        } else {
            InjectMode::Clipboard
        },
        None => InjectMode::Clipboard,
    }
}

// ---------------------------------------------------------------------------
// Focused field context
// ---------------------------------------------------------------------------

/// The text of the focused input field, possibly cut short.
#[derive(Debug, Clone)]
pub struct FocusedFieldContext {
    pub text: String,
    pub truncated: bool,
}

impl Default for FocusedFieldContext {
    fn default() -> (r: Self)
        ensures
            r.text@ == Seq::<char>::empty(),
            !r.truncated,
    {
        FocusedFieldContext { text: String::new(), truncated: false }
    }
}

/// Most characters of a focused field that are kept as context.
pub const MAX_CONTEXT_CHARS: usize = 4096;

/// The context for a focused field whose value is `value`: its first
/// [`MAX_CONTEXT_CHARS`] characters, marked truncated when there were more;
/// none for an empty value.
pub fn context_from_value(value: &str) -> (r: Option<FocusedFieldContext>)
    ensures
        value@.len() == 0 <==> r is None,
        r matches Some(c) ==> c.text@ == take_at_most(value@, MAX_CONTEXT_CHARS as nat)
            && c.truncated == (value@.len() > MAX_CONTEXT_CHARS),
{
    let cs = chars_of(value);
    if cs.len() == 0 {
        return None;
    }
    if cs.len() > MAX_CONTEXT_CHARS {
        let mut t: Vec<char> = Vec::new();
        let mut i: usize = 0;
        while i < MAX_CONTEXT_CHARS
            invariant
                0 <= i <= MAX_CONTEXT_CHARS,
                cs.len() > MAX_CONTEXT_CHARS,
                t@ == cs@.take(i as int),
            decreases MAX_CONTEXT_CHARS - i,
        {
            t.push(cs[i]);
            assert(cs@.take(i + 1) =~= cs@.take(i as int).push(cs@[i as int]));
            i = i + 1;
        }
        Some(FocusedFieldContext { text: string_from_chars(&t), truncated: true })
    } else {
        Some(FocusedFieldContext { text: value.to_string(), truncated: false })
    }
}

/// The focused field's context where the platform offers no accessibility
/// API: there is none.
pub fn get_focused_field_context() -> (r: Option<FocusedFieldContext>)
    ensures
        r is None,
{
    None
}

/// Whether the app holds accessibility permission, where the platform asks
/// for none: it does.
pub fn is_ax_trusted() -> (r: bool)
    ensures
        r,
{
    true
}

/// Asks for accessibility permission, where the platform asks for none: it
/// is held.
pub fn ensure_ax_trusted() -> (r: bool)
    ensures
        r,
{
    true
}

// ---------------------------------------------------------------------------
// Focus tracking
// ---------------------------------------------------------------------------

/// The code point of `c` after ASCII-only lowercasing.
pub open spec fn ascii_lower(c: char) -> u32 {
    if 'A' <= c && c <= 'Z' {
        ((c as u32) + 32) as u32
    } else {
        c as u32
    }
}

/// `a` and `b` are equal up to ASCII case (`str::eq_ignore_ascii_case`).
pub open spec fn eq_ignore_ascii_case(a: Seq<char>, b: Seq<char>) -> bool {
    a.len() == b.len() && forall|i: int| 0 <= i < a.len() ==> ascii_lower(#[trigger] a[i]) == ascii_lower(b[i])
}

fn lower(c: char) -> (r: u32)
    ensures
        r == ascii_lower(c),
{
    if 'A' <= c && c <= 'Z' {
        (c as u32) + 32
    } else {
        c as u32
    }
}

/// Whether a frontmost-application name is this app (`dictation` in a
/// development run, `Dictation` when packaged).
pub fn is_self(name: &str) -> (r: bool)
    ensures
        r == eq_ignore_ascii_case(name@, "dictation"@),
{
    let a = chars_of(name);
    let b = chars_of("dictation");
    if a.len() != b.len() {
        return false;
    }
    let mut i: usize = 0;
    while i < a.len()
        invariant
            0 <= i <= a.len(),
            a.len() == b.len(),
            a@ == name@,
            b@ == "dictation"@,
            forall|j: int| 0 <= j < i ==> ascii_lower(#[trigger] a@[j]) == ascii_lower(b@[j]),
        decreases a.len() - i,
    {
        if lower(a[i]) != lower(b[i]) {
            return false;
        }
        i = i + 1;
    }
    true
}

/// The frontmost application's name from the output of the query that asks
/// for it: the trimmed output of a successful query, none when the query
/// failed or the name is empty.
pub fn frontmost_from_output(success: bool, stdout: &str) -> (r: Option<String>)
    ensures
        match r {
            Some(n) => success && n@ == trim_seq(stdout@) && n@.len() > 0,
            None => !success || trim_seq(stdout@).len() == 0,
        },
{
    if !success {
        return None;
    }
    let t = trim(&chars_of(stdout));
    if t.len() == 0 {
        None
    } else {
        Some(string_from_chars(&t))
    }
}

/// What one poll of the frontmost application decides.
#[derive(Debug, Clone, Copy, PartialEq, Eq)]
pub struct FocusUpdate {
    /// The cached "another application has focus" flag.
    pub external_focused: bool,
    /// Focus just moved from this app to another one: tell the UI.
    pub moved_to_external: bool,
    /// What the next poll compares against.
    pub last_was_self: Option<bool>,
}

/// Folds one poll of the frontmost application's name into the tracker's
/// state: focus counts as moved out only when the previous poll saw this
/// app and this one sees another.
pub fn focus_update(last_was_self: Option<bool>, frontmost: &str) -> (r: FocusUpdate)
    ensures
        r.external_focused == !eq_ignore_ascii_case(frontmost@, "dictation"@),
        r.moved_to_external == (last_was_self == Some(true) && !eq_ignore_ascii_case(
            frontmost@,
            "dictation"@,
        )),
        r.last_was_self == Some(eq_ignore_ascii_case(frontmost@, "dictation"@)),
{
    let now_self = is_self(frontmost);
    let moved = match last_was_self {
        Some(true) => !now_self,
        _ => false,
    };
    FocusUpdate { external_focused: !now_self, moved_to_external: moved, last_was_self: Some(now_self) }
}

/// Whether another application has focus, where no tracker runs: no.
pub fn is_external_focused() -> (r: bool)
    ensures
        !r,
{
    false
}

} // verus!
