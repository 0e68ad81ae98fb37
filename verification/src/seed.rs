//! The prompt templates that ship with the app. Each body holds `{input}`;
//! `{context}` and `{dictionary}` are optional and stay empty when there is
//! nothing to put in them.

use vstd::prelude::*;

verus! {

/// A shipped prompt template: slug name, display label, body, language.
#[derive(Debug, Clone, Copy)]
pub struct BuiltinPrompt {
    pub name: &'static str,
    pub label: &'static str,
    pub body: &'static str,
    pub language: &'static str,
}

/// The views of a shipped template's fields.
pub open spec fn builtin_view(p: BuiltinPrompt) -> (Seq<char>, Seq<char>, Seq<char>, Seq<char>) {
    (p.name@, p.label@, p.body@, p.language@)
}

/// Body of the `ja_keigo` template.
pub const JA_KEIGO_BODY: &'static str = "あなたは音声口述を清書するアシスタントです。入力は日本語の話し言葉。以下の規則で書き直してください:\n- **必ず日本語で出力**(英訳・要約禁止)\n- 敬体(です・ます調)の書き言葉に統一\n- フィラー(えー、あの、まあ 等)を削除\n- 誤字・脱字・誤変換を正しい表記に修正(例: 「いじょう」→「以上」、「おねがいしまう」→「お願いします」)\n- 音声認識の誤認識を文脈から推測して修正\n- 参考(現在の入力欄)があれば、それと整合する語彙・固有名詞・トーンに合わせる\n- 辞書がある場合は表記を必ず尊重する\n- 意味を保ち、固有名詞・技術用語は原文の表記を維持\n{context}{dictionary}\n入力:\n{input}\n\n清書:\n";

/// Body of the `en_business` template.
pub const EN_BUSINESS_BODY: &'static str = "You rewrite spoken dictation into polished business English.\n- Output **English only** (do not translate to other languages).\n- Use a formal-email register; remove fillers (um, uh, like, you know).\n- Fix typos, misspellings, and ASR misrecognitions (infer correct words from context).\n- If a 'context' block is provided, align vocabulary, names, and tone with it.\n- If a dictionary block is provided, respect the listed spellings exactly.\n- Preserve meaning and any technical terms verbatim.\n- Complete sentence fragments.\n{context}{dictionary}\nINPUT:\n{input}\n\nREWRITE:\n";

/// Body of the `ja_agent_task` template.
pub const JA_AGENT_TASK_BODY: &'static str = "あなたは口頭指示をAIエージェント向けのタスク指示書に変換するアシスタントです。\n入力は意味不明・断片的・口語的な音声メモです。以下の規則で整理してください:\n- **必ず日本語で出力**\n- フィラー・言い淀み・繰り返しを除去\n- 誤字・脱字・誤変換・音声認識ミスを文脈から推測して修正\n- 曖昧な指示を具体的なタスクに分解\n- 各タスクは「何を」「どうする」が明確な1文にする\n- 依存関係があれば順序を付ける\n- 不明確な部分は [要確認: ...] で明示\n\n出力フォーマット:\n## タスク一覧\n1. タスク内容\n2. タスク内容\n...\n\n## 補足・前提条件\n- 補足事項\n{context}{dictionary}\n入力:\n{input}\n\n整理結果:\n";

/// Body of the `en_agent_task` template.
pub const EN_AGENT_TASK_BODY: &'static str = "You convert messy spoken notes into clear task instructions for an AI agent.\nInput is informal, fragmented, possibly incoherent voice memo.\nRules:\n- Remove fillers, false starts, repetitions\n- Fix typos, misspellings, and ASR misrecognitions (infer correct words from context)\n- Break down into discrete, actionable tasks\n- Each task: one clear sentence with specific action and target\n- Order by dependency if applicable\n- Flag unclear parts as [NEEDS CLARIFICATION: ...]\n\nOutput format:\n## Tasks\n1. Task description\n2. Task description\n...\n\n## Notes & Assumptions\n- Note\n{context}{dictionary}\nINPUT:\n{input}\n\nORGANIZED TASKS:\n";

/// The shipped templates, in display order (name, label, body, language).
pub open spec fn builtin_table() -> Seq<(Seq<char>, Seq<char>, Seq<char>, Seq<char>)> {
    seq![
        ("ja_keigo"@, "日本語(敬体)"@, JA_KEIGO_BODY@, "ja"@),
        ("en_business"@, "English (business)"@, EN_BUSINESS_BODY@, "en"@),
        ("ja_agent_task"@, "日本語(エージェント指示)"@, JA_AGENT_TASK_BODY@, "ja"@),
        ("en_agent_task"@, "English (agent task)"@, EN_AGENT_TASK_BODY@, "en"@),
    ]
}

/// The shipped templates, in display order.
pub fn builtin_prompts() -> (r: Vec<BuiltinPrompt>)
    ensures
        r@.map_values(|p: BuiltinPrompt| builtin_view(p)) == builtin_table(),
{
    let r: Vec<BuiltinPrompt> = vec![
        BuiltinPrompt { name: "ja_keigo", label: "日本語(敬体)", body: JA_KEIGO_BODY, language: "ja" },
        BuiltinPrompt { name: "en_business", label: "English (business)", body: EN_BUSINESS_BODY, language: "en" },
        BuiltinPrompt { name: "ja_agent_task", label: "日本語(エージェント指示)", body: JA_AGENT_TASK_BODY, language: "ja" },
        BuiltinPrompt { name: "en_agent_task", label: "English (agent task)", body: EN_AGENT_TASK_BODY, language: "en" },
    ];
    assert(r@.map_values(|p: BuiltinPrompt| builtin_view(p)) =~= builtin_table());
    r
}

/// The shipped template named `name`: the first in display order with that
/// name, or none.
pub fn builtin_named(name: &str) -> (r: Option<BuiltinPrompt>)
    ensures
        match r {
            Some(p) => exists|k: int|
                0 <= k < builtin_table().len() && builtin_view(p) == builtin_table()[k] && p.name@
                    == name@ && forall|j: int| 0 <= j < k ==> (#[trigger] builtin_table()[j]).0 != name@,
            None => forall|k: int| 0 <= k < builtin_table().len() ==> (#[trigger] builtin_table()[k]).0 != name@,
        },
{
    let table = builtin_prompts();
    let ghost tv = table@.map_values(|p: BuiltinPrompt| builtin_view(p));
    let mut i: usize = 0;
    while i < table.len()
        invariant
            0 <= i <= table.len(),
            tv == table@.map_values(|p: BuiltinPrompt| builtin_view(p)),
            tv == builtin_table(),
            forall|j: int| 0 <= j < i ==> (#[trigger] builtin_table()[j]).0 != name@,
        decreases table.len() - i,
    {
        assert(tv[i as int] == builtin_view(table@[i as int]));
        if crate::text::str_eq(table[i].name, name) {
            return Some(table[i]);
        }
        i = i + 1;
    }
    None
}

} // verus!
