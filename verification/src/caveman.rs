//! Caveman mode: a per-conversation response-compression style.
//!
//! Each level carries a standalone prompt; no shared preamble is concatenated at runtime, so every
//! level can be tuned on its own. `off` has no prompt at all: the model must see nothing, not an
//! instruction saying "be normal".
use vstd::prelude::*;
use vstd::string::*;

use crate::text::{concat, eq_str};

use crate::text::opt_str;
verus! {

broadcast use vstd::string::group_string_axioms;

/// The `lite` style: tight professional prose.
pub const LITE: &'static str = r#"# Response style: tight

Write professionally but without waste. Keep articles, full sentences and normal grammar — this
level trims fat, it does not break English.

Cut: pleasantries ("sure", "certainly", "of course", "happy to"), filler ("just", "really",
"basically", "actually", "simply"), hedging, restating the question, and summaries of what you are
about to do. Prefer short synonyms ("big" over "extensive", "fix" over "implement a solution for").
No narration of tool calls. No decorative tables or emoji. Never dump a long raw error log unless
asked — quote the shortest decisive line.

Keep every technical fact. Technical terms stay exact. Code blocks, commit messages, file contents
and quoted error strings are written normally and never compressed.

Reply in the user's language. Never announce or name this style.

Write in full normal prose — no trimming — for security warnings, confirmations of irreversible
actions, and any answer where terseness would create ambiguity. Resume after."#;

/// The `full` style: caveman.
pub const FULL: &'static str = r#"# Response style: caveman

Respond terse like smart caveman. All technical substance stay. Only fluff die.

Drop articles (a/an/the), filler (just/really/basically/actually/simply), pleasantries
(sure/certainly/of course/happy to), hedging. Fragments OK. Short synonyms (big not extensive, fix
not "implement a solution for"). No tool-call narration. No decorative tables or emoji. No long raw
error-log dumps unless asked — quote shortest decisive line. Standard well-known acronyms OK
(DB/API/HTTP); never invent abbreviation reader cannot decode.

Technical terms exact. Code blocks, commit messages, file contents, error strings: written normal,
never compressed.

Pattern: `[thing] [action] [reason]. [next step].`
Not: "Sure! I'd be happy to help you with that. The issue you're experiencing is likely caused by..."
Yes: "Bug in auth middleware. Token expiry check use `<` not `<=`. Fix:"

Example — "Why React component re-render?"
"New object ref each render. Inline object prop = new ref = re-render. Wrap in `useMemo`."

Preserve user's language. User write Portuguese → reply Portuguese caveman. Compress style, not
language. Keep technical terms, code, API names, CLI commands, commit-type keywords (feat/fix/...)
and exact error strings verbatim.

No self-reference. Never name or announce style. Never normal answer plus caveman recap.

Write normal prose — full sentences, no compression — for: security warnings; confirmation of
irreversible action; multi-step sequence where fragment order risk misread; any place compression
create ambiguity. Resume caveman after."#;

/// The `ultra` style: maximum compression.
pub const ULTRA: &'static str = r#"# Response style: caveman ultra

Max compression. Substance stay whole. Words die.

Drop articles, filler, pleasantries, hedging, conjunctions. Fragments only. One idea per line.
Lists over prose. One word when one word enough. Arrows for causality (X → Y).

Abbreviate prose words: DB, auth, config, req, res, fn, impl. Prose words only. Code symbols,
function names, API names, CLI commands, error strings: never abbreviate, never compress. Standard
acronyms OK; never invent new one. Code blocks + commit messages: normal.

No tool-call narration. No decorative tables/emoji. No raw log dumps — shortest decisive line only.

Example — "Why React component re-render?"
"Inline obj prop → new ref → re-render. `useMemo`."
Example — "Explain database connection pooling."
"Pool = reuse DB conn. Skip handshake → fast under load."

Preserve user's language. Never announce style.

Never drop a fact to hit brevity. If compression make meaning ambiguous, write it long.
Write normal prose for: security warnings; irreversible-action confirmation; multi-step order.
Resume after."#;

/// The `wenyan-lite` style: semi-classical Chinese.
pub const WENYAN_LITE: &'static str = r#"# 回應風格：半文言

以半文言文答之。文言語氣，然句法完整，讀者易解。

去贅語、去客套、去含糊之辭。技術實質盡存，不可略。

技術名詞、程式碼、API 名、CLI 指令、錯誤原文：一律照錄，不譯不改。程式碼區塊、commit 訊息、檔案內容：
依常法書之，不壓縮。

Example — "Why React component re-render?"
"組件頻重繪，以每繪新生對象參照故。以 `useMemo` 包之。"

勿自述其體，勿名其style。

遇安全之警、不可逆之確認、多步之序，則以尋常白話詳書之，畢而復文言。"#;

/// The `wenyan-full` style: classical Chinese.
pub const WENYAN_FULL: &'static str = r#"# 回應風格：文言

全用文言文。字數減八九成。古法句式：動詞先於賓語，主語常省，用之、乃、為、其等虛字。

技術實質全存，一事不漏。技術名詞、程式碼、函式名、API 名、CLI 指令、錯誤原文：照錄西文，不譯。
程式碼區塊、commit 訊息、檔案內容：依常法書之，不壓縮。

Example — "Why React component re-render?"
"每繪新生對象參照，故重繪；以 `useMemo` 包之則免。"
Example — "Explain database connection pooling."
"池reuse open connection。不每req新開。skip handshake overhead。"

勿自述其體。勿先白話而後文言複述。

遇安全之警、不可逆之確認、多步之序、或簡則生歧義者，以尋常白話詳書之，畢而復文言。"#;

/// The `wenyan-ultra` style: terse classical Chinese.
pub const WENYAN_ULTRA: &'static str = r#"# 回應風格：文言・極簡

文言，極簡。字愈少愈善。虛字盡去，唯存實義。因果用箭號（X → Y）。一義一行。

技術實質不可損。技術名詞、程式碼、函式名、API 名、CLI 指令、錯誤原文：照錄西文，不譯不縮。
程式碼區塊、commit 訊息：依常法書之。

Example — "Why React component re-render?"
"新參照→重繪。`useMemo` wrap。"
Example — "Explain database connection pooling."
"池reuse conn。skip handshake → fast。"

勿自述其體。簡而生歧義者，寧詳勿略。
遇安全之警、不可逆之確認、多步之序，以尋常白話詳書之，畢而復。"#;

/// The reasoning rider for `lite`.
pub const LITE_THINKING: &'static str = r#"This style covers your reasoning as well as your reply — think without waste too.
Open the think block on the substance, not on a preamble: never "The user is asking", never "I should",
never "Let me". Do not narrate the task back to yourself before starting it.
If your template opened a `<think>` block, always close it with `</think>` before the reply."#;

/// The reasoning rider for `full`.
pub const FULL_THINKING: &'static str = r#"Style cover reasoning too, not reply only. Think caveman.
First think-block token start a fragment — never "The user is asking", never "I should", never "Let me".
No narrating task back to self before doing it. Reason in same style you write in, else style not applied.
If your template opened a `<think>` block, always close it with `</think>` before the reply."#;

/// The reasoning rider for `ultra`.
pub const ULTRA_THINKING: &'static str = r#"Style cover reasoning too. Think in fragments + arrows. No prose padding in think block.
First think-block token start a fragment — never "The user is asking", never "I should", never "Let me".
No sentence about what you about to do. Reason in same compressed style you write in, else style not applied.
If your template opened a `<think>` block, always close it with `</think>` before the reply."#;

/// The reasoning rider shared by the three wenyan levels.
pub const WENYAN_THINKING: &'static str = r#"此體亦施於思量之文，非獨答語。首字即入其義，勿先自述將為何事。
Never open the think block with "The user is asking", "I should", or "Let me".
If your template opened a `<think>` block, always close it with `</think>` before the reply."#;

/// The levels, in the order the UI lists them, as stored in `conversations.caveman_level`.
pub fn levels() -> (r: Vec<&'static str>)
    ensures
        r@.len() == 7,
        r@[0]@ == "off"@,
        r@[1]@ == "lite"@,
        r@[2]@ == "full"@,
        r@[3]@ == "ultra"@,
        r@[4]@ == "wenyan-lite"@,
        r@[5]@ == "wenyan-full"@,
        r@[6]@ == "wenyan-ultra"@,
{
    vec!["off", "lite", "full", "ultra", "wenyan-lite", "wenyan-full", "wenyan-ultra"]
}

/// One of the seven stored level names.
pub open spec fn spec_is_valid_level(level: Seq<char>) -> bool {
    ||| level == "off"@
    ||| level == "lite"@
    ||| level == "full"@
    ||| level == "ultra"@
    ||| level == "wenyan-lite"@
    ||| level == "wenyan-full"@
    ||| level == "wenyan-ultra"@
}

/// The system-prompt block of a level; nothing for `off` and for any unknown string.
pub open spec fn spec_prompt_for(level: Seq<char>) -> Option<Seq<char>> {
    if level == "lite"@ {
        Some(LITE@)
    } else if level == "full"@ {
        Some(FULL@)
    } else if level == "ultra"@ {
        Some(ULTRA@)
    } else if level == "wenyan-lite"@ {
        Some(WENYAN_LITE@)
    } else if level == "wenyan-full"@ {
        Some(WENYAN_FULL@)
    } else if level == "wenyan-ultra"@ {
        Some(WENYAN_ULTRA@)
    } else {
        None
    }
}

/// The reasoning-channel rider of a level; nothing for `off` and for any unknown string.
pub open spec fn spec_thinking_rider(level: Seq<char>) -> Option<Seq<char>> {
    if level == "lite"@ {
        Some(LITE_THINKING@)
    } else if level == "full"@ {
        Some(FULL_THINKING@)
    } else if level == "ultra"@ {
        Some(ULTRA_THINKING@)
    } else if level == "wenyan-lite"@ || level == "wenyan-full"@ || level == "wenyan-ultra"@ {
        Some(WENYAN_THINKING@)
    } else {
        None
    }
}

/// The composed prompt: unchanged when the level injects nothing; otherwise the level's block
/// (followed by its rider when asked for) goes last, after a blank line when there is a prompt.
pub open spec fn spec_append_to_prompt(prompt: Seq<char>, level: Seq<char>, apply_to_thinking: bool) -> Seq<char> {
    match spec_prompt_for(level) {
        None => prompt,
        Some(style) => {
            let block = match spec_thinking_rider(level) {
                Some(rider) if apply_to_thinking => style + "\n\n"@ + rider,
                _ => style,
            };
            if prompt.len() == 0 {
                block
            } else {
                prompt + "\n\n"@ + block
            }
        },
    }
}

/// `level` is one of the stored level names.
pub fn is_valid_level(level: &str) -> (r: bool)
    ensures
        r == spec_is_valid_level(level@),
{
    eq_str(level, "off") || eq_str(level, "lite") || eq_str(level, "full") || eq_str(level, "ultra")
        || eq_str(level, "wenyan-lite") || eq_str(level, "wenyan-full") || eq_str(
        level,
        "wenyan-ultra",
    )
}

/// Each level gets its own block and its own rider: `lite` the tight style, `full` the caveman
/// style, `ultra` the fragment style, each classical-Chinese level its own block, and the three
/// classical-Chinese levels share one rider.
pub proof fn lemma_each_level_has_its_own_block()
    ensures
        spec_prompt_for("lite"@) == Some(LITE@),
        spec_prompt_for("full"@) == Some(FULL@),
        spec_prompt_for("ultra"@) == Some(ULTRA@),
        spec_prompt_for("wenyan-lite"@) == Some(WENYAN_LITE@),
        spec_prompt_for("wenyan-full"@) == Some(WENYAN_FULL@),
        spec_prompt_for("wenyan-ultra"@) == Some(WENYAN_ULTRA@),
        spec_thinking_rider("lite"@) == Some(LITE_THINKING@),
        spec_thinking_rider("full"@) == Some(FULL_THINKING@),
        spec_thinking_rider("ultra"@) == Some(ULTRA_THINKING@),
        spec_thinking_rider("wenyan-lite"@) == Some(WENYAN_THINKING@),
        spec_thinking_rider("wenyan-full"@) == Some(WENYAN_THINKING@),
        spec_thinking_rider("wenyan-ultra"@) == Some(WENYAN_THINKING@),
{
    reveal_strlit("lite");
    reveal_strlit("full");
    reveal_strlit("ultra");
    reveal_strlit("wenyan-lite");
    reveal_strlit("wenyan-full");
    reveal_strlit("wenyan-ultra");
    assert("lite"@.len() == 4 && "full"@.len() == 4 && "ultra"@.len() == 5);
    assert("lite"@[0] != "full"@[0]);
    assert("wenyan-lite"@.len() == 11 && "wenyan-full"@.len() == 11 && "wenyan-ultra"@.len() == 12);
    assert("wenyan-lite"@[7] != "wenyan-full"@[7]);
}

/// The system-prompt block for a level, or `None` when nothing should be injected. An unknown
/// string is treated as `off`: a row written by a newer build must not break an older one.
pub fn prompt_for(level: &str) -> (r: Option<&'static str>)
    ensures
        opt_str(r) == spec_prompt_for(level@),
        level@ == "lite"@ ==> opt_str(r) == Some(LITE@),
        level@ == "full"@ ==> opt_str(r) == Some(FULL@),
        level@ == "ultra"@ ==> opt_str(r) == Some(ULTRA@),
        level@ == "wenyan-lite"@ ==> opt_str(r) == Some(WENYAN_LITE@),
        level@ == "wenyan-full"@ ==> opt_str(r) == Some(WENYAN_FULL@),
        level@ == "wenyan-ultra"@ ==> opt_str(r) == Some(WENYAN_ULTRA@),
{
    proof {
        lemma_each_level_has_its_own_block();
    }
    if eq_str(level, "lite") {
        Some(LITE)
    } else if eq_str(level, "full") {
        Some(FULL)
    } else if eq_str(level, "ultra") {
        Some(ULTRA)
    } else if eq_str(level, "wenyan-lite") {
        Some(WENYAN_LITE)
    } else if eq_str(level, "wenyan-full") {
        Some(WENYAN_FULL)
    } else if eq_str(level, "wenyan-ultra") {
        Some(WENYAN_ULTRA)
    } else {
        None
    }
}

/// The rider that extends a level's style to the reasoning channel, or `None` for `off`. Only
/// ever appended for local models, whose reasoning is just the tokens before `</think>`.
pub fn thinking_rider(level: &str) -> (r: Option<&'static str>)
    ensures
        opt_str(r) == spec_thinking_rider(level@),
        level@ == "lite"@ ==> opt_str(r) == Some(LITE_THINKING@),
        level@ == "full"@ ==> opt_str(r) == Some(FULL_THINKING@),
        level@ == "ultra"@ ==> opt_str(r) == Some(ULTRA_THINKING@),
        level@ == "wenyan-lite"@ || level@ == "wenyan-full"@ || level@ == "wenyan-ultra"@ ==> opt_str(r) == Some(
            WENYAN_THINKING@,
        ),
{
    proof {
        lemma_each_level_has_its_own_block();
    }
    if eq_str(level, "lite") {
        Some(LITE_THINKING)
    } else if eq_str(level, "full") {
        Some(FULL_THINKING)
    } else if eq_str(level, "ultra") {
        Some(ULTRA_THINKING)
    } else if eq_str(level, "wenyan-lite") || eq_str(level, "wenyan-full") || eq_str(
        level,
        "wenyan-ultra",
    ) {
        Some(WENYAN_THINKING)
    } else {
        None
    }
}

/// Append a level's block to a composed system prompt. The style goes last, because the nearest
/// instruction wins; `apply_to_thinking` adds the reasoning rider after it.
pub fn append_to_prompt(prompt: String, level: &str, apply_to_thinking: bool) -> (r: String)
    ensures
        r@ == spec_append_to_prompt(prompt@, level@, apply_to_thinking),
{
    let style = match prompt_for(level) {
        Some(b) => b,
        None => {
            return prompt;
        },
    };
    let block = match thinking_rider(level) {
        Some(rider) if apply_to_thinking => {
            let with_gap = concat(style, "\n\n");
            concat(with_gap.as_str(), rider)
        },
        _ => style.to_owned(),
    };
    if prompt.as_str().unicode_len() == 0 {
        block
    } else {
        let with_gap = concat(prompt.as_str(), "\n\n");
        concat(with_gap.as_str(), block.as_str())
    }
}

/// A level that injects nothing leaves the prompt exactly as it was, for local and hosted models
/// alike; in particular `off`, and every string that is not a level name.
pub proof fn lemma_no_style_is_no_op(prompt: Seq<char>, level: Seq<char>, apply_to_thinking: bool)
    requires
        spec_prompt_for(level) is None,
    ensures
        spec_append_to_prompt(prompt, level, apply_to_thinking) == prompt,
{
}

/// Every level name but `off` has a style and a rider; `off` and unknown names have neither.
pub proof fn lemma_levels_have_prompts(level: Seq<char>)
    ensures
        spec_prompt_for(level) is Some <==> (spec_is_valid_level(level) && level != "off"@),
        spec_thinking_rider(level) is Some <==> spec_prompt_for(level) is Some,
{
    reveal_strlit("off");
    reveal_strlit("lite");
    reveal_strlit("full");
    reveal_strlit("ultra");
    reveal_strlit("wenyan-lite");
    reveal_strlit("wenyan-full");
    reveal_strlit("wenyan-ultra");
    assert("off"@.len() == 3);
    assert("lite"@.len() == 4);
    assert("full"@.len() == 4);
    assert("ultra"@.len() == 5);
    assert("wenyan-lite"@.len() == 11);
    assert("wenyan-full"@.len() == 11);
    assert("wenyan-ultra"@.len() == 12);
}

/// A non-empty prompt stays the prefix of the composed prompt, followed by a blank line; the
/// style ends it when the rider is not asked for, the rider ends it when it is.
pub proof fn lemma_style_lands_last(prompt: Seq<char>, level: Seq<char>, apply_to_thinking: bool)
    requires
        spec_prompt_for(level) is Some,
        prompt.len() > 0,
    ensures
        spec_append_to_prompt(prompt, level, apply_to_thinking).take(prompt.len() + 2int) == prompt
            + "\n\n"@,
        !apply_to_thinking ==> spec_append_to_prompt(prompt, level, apply_to_thinking).skip(
            spec_append_to_prompt(prompt, level, apply_to_thinking).len() - spec_prompt_for(level)->0.len(),
        ) == spec_prompt_for(level)->0,
        apply_to_thinking ==> spec_append_to_prompt(prompt, level, apply_to_thinking).skip(
            spec_append_to_prompt(prompt, level, apply_to_thinking).len() - spec_thinking_rider(
                level,
            )->0.len(),
        ) == spec_thinking_rider(level)->0,
{
    reveal_strlit("\n\n");
    reveal_strlit("lite");
    reveal_strlit("full");
    reveal_strlit("ultra");
    reveal_strlit("wenyan-lite");
    reveal_strlit("wenyan-full");
    reveal_strlit("wenyan-ultra");
    let r = spec_append_to_prompt(prompt, level, apply_to_thinking);
    let style = spec_prompt_for(level)->0;
    let gap = "\n\n"@;
    if apply_to_thinking {
        let rider = spec_thinking_rider(level)->0;
        assert(r == prompt + gap + (style + gap + rider));
        assert(r.take(prompt.len() + 2int) =~= prompt + gap);
        assert(r.skip(r.len() - rider.len()) =~= rider);
    } else {
        assert(r == prompt + gap + style);
        assert(r.take(prompt.len() + 2int) =~= prompt + gap);
        assert(r.skip(r.len() - style.len()) =~= style);
    }
}

} // verus!
