//! Prompt-refinement chat: the conversation types, the system prompt that
//! carries the generation settings, and the reading of the assistant's reply
//! (its text and the prompt it suggests in a "```prompt" block).
use vstd::prelude::*;
use crate::text::{
    chars_of, concat, decimal, decimal_string, find_chars, find_from, find_non_white,
    first_non_white, join, join_strings, opt_view, replace_all, replace_chars, string_of, string_of_range,
    trim, trim_bounds, views, is_white_space,
};

verus! {

/// Who wrote a chat message.
#[derive(Debug, Clone, Copy, PartialEq, Eq, Structural)]
pub enum MessageRole {
    User,
    Assistant,
}

/// A single chat message.
#[derive(Debug, Clone)]
pub struct ChatMessage {
    pub role: MessageRole,
    pub content: String,
    pub timestamp: i64,
}

/// The assistant's reply: its text, and the prompt it suggests, if any.
#[derive(Debug, Clone)]
pub struct ChatResponse {
    pub message: String,
    pub suggested_prompt: Option<String>,
}

/// Why a reply could not be read.
#[derive(Debug, Clone, Copy, PartialEq, Eq, Structural)]
pub enum ChatError {
    /// The reply held no text.
    EmptyResponse,
}

/// The instructions given to the assistant; the placeholders in braces are
/// filled with the current generation settings.
pub const SYSTEM_PROMPT: &'static str = r#"You are a helpful AI assistant specialized in crafting prompts for FLUX image generation. Your role is to help users refine and improve their image generation prompts through conversation.

## Your Capabilities
- Help users articulate their creative vision
- Suggest specific details: lighting, style, mood, composition, camera angles
- Recommend artistic styles that match their intent (photorealistic, anime, oil painting, digital art, etc.)
- Improve prompt structure and clarity
- Warn about common issues: conflicting styles, too many subjects, unclear focus

## Current Generation Settings
- Canvas size: {width}x{height}
- Model: {model}
- Steps: {steps}
- CFG Scale: {cfg_scale}
- Active style LoRAs: {loras}

## How to Help
1. If the user's prompt is vague, ask clarifying questions about their vision
2. Suggest specific improvements one at a time, explaining why each helps
3. Consider the aspect ratio when suggesting compositions
4. When you have a refined prompt ready, include it in a special format

## Prompt Format
When suggesting a refined prompt, format it like this:
```prompt
your refined prompt here
```

This allows the user to easily copy and apply it.

## Response Formatting
Your conversational response is rendered as markdown, so use it naturally:
- Use **bold** to highlight key terms or important points
- Use bullet or numbered lists when offering multiple suggestions
- Use *italic* for style names or subtle emphasis
- Everything outside the ```prompt block is rendered as markdown, so structure your response accordingly

## Guidelines
- Keep responses concise and actionable
- Focus on visual elements that FLUX can render well
- Be encouraging but honest about limitations
- Don't overwhelm with too many suggestions at once
- Remember previous context in the conversation"#;

/// The role name the chat service expects for a message author.
pub open spec fn role_name(role: MessageRole) -> Seq<char> {
    match role {
        MessageRole::User => "user"@,
        MessageRole::Assistant => "assistant"@,
    }
}

/// The role name the chat service expects for a message author.
pub fn role_str(role: MessageRole) -> (s: &'static str)
    ensures
        s@ == role_name(role),
{
    match role {
        MessageRole::User => "user",
        MessageRole::Assistant => "assistant",
    }
}

/// The summary of the active style LoRAs: "None", or their names joined by ", ".
pub open spec fn loras_summary(loras: Seq<Seq<char>>) -> Seq<char> {
    if loras.len() == 0 {
        "None"@
    } else {
        join(loras, ", "@)
    }
}

/// The summary of the active style LoRAs: "None", or their names joined by ", ".
pub fn summarize_loras(loras: &[String]) -> (s: String)
    ensures
        s@ == loras_summary(views(loras@)),
{
    if loras.len() == 0 {
        "None".to_owned()
    } else {
        join_strings(loras, ", ")
    }
}

/// The system prompt with its placeholders filled, in the order width,
/// height, model, steps, CFG scale, LoRAs.
pub open spec fn system_prompt_for(
    width: nat,
    height: nat,
    model: Seq<char>,
    steps: nat,
    cfg_scale: Seq<char>,
    loras: Seq<Seq<char>>,
) -> Seq<char> {
    let s0 = SYSTEM_PROMPT@;
    let s1 = replace_all(s0, "{width}"@, decimal(width));
    let s2 = replace_all(s1, "{height}"@, decimal(height));
    let s3 = replace_all(s2, "{model}"@, model);
    let s4 = replace_all(s3, "{steps}"@, decimal(steps));
    let s5 = replace_all(s4, "{cfg_scale}"@, cfg_scale);
    replace_all(s5, "{loras}"@, loras_summary(loras))
}

/// Builds the system prompt for the current generation settings.
/// `cfg_scale` is the guidance scale already written with one decimal.
pub fn build_system_prompt(
    width: u32,
    height: u32,
    model: &str,
    steps: u32,
    cfg_scale: &str,
    style_loras: &[String],
) -> (s: String)
    ensures
        s@ == system_prompt_for(
            width as nat,
            height as nat,
            model@,
            steps as nat,
            cfg_scale@,
            views(style_loras@),
        ),
{
    proof {
        reveal_strlit("{width}");
        reveal_strlit("{height}");
        reveal_strlit("{model}");
        reveal_strlit("{steps}");
        reveal_strlit("{cfg_scale}");
        reveal_strlit("{loras}");
    }
    let loras = summarize_loras(style_loras);
    let t0 = chars_of(SYSTEM_PROMPT);
    let t1 = replace_chars(&t0, &chars_of("{width}"), &chars_of(decimal_string(width as u64).as_str()));
    let t2 = replace_chars(&t1, &chars_of("{height}"), &chars_of(decimal_string(height as u64).as_str()));
    let t3 = replace_chars(&t2, &chars_of("{model}"), &chars_of(model));
    let t4 = replace_chars(&t3, &chars_of("{steps}"), &chars_of(decimal_string(steps as u64).as_str()));
    let t5 = replace_chars(&t4, &chars_of("{cfg_scale}"), &chars_of(cfg_scale));
    let t6 = replace_chars(&t5, &chars_of("{loras}"), &chars_of(loras.as_str()));
    string_of(&t6)
}

/// The text sent as the user's turn: the message alone, or, when a current
/// prompt is set, the prompt quoted first.
pub open spec fn user_turn_text(current_prompt: Seq<char>, user_message: Seq<char>) -> Seq<char> {
    if current_prompt.len() == 0 {
        user_message
    } else {
        "My current prompt is: \""@ + current_prompt + "\"\n\n"@ + user_message
    }
}

/// The text sent as the user's turn.
pub fn user_turn(current_prompt: &str, user_message: &str) -> (s: String)
    ensures
        s@ == user_turn_text(current_prompt@, user_message@),
{
    if current_prompt.is_empty() {
        user_message.to_owned()
    } else {
        let a = concat("My current prompt is: \"", current_prompt);
        let b = concat(a.as_str(), "\"\n\n");
        concat(b.as_str(), user_message)
    }
}

/// The fence that opens a suggested prompt.
pub open spec fn prompt_fence() -> Seq<char> {
    "```prompt"@
}

/// The fence that closes a suggested prompt.
pub open spec fn closing_fence() -> Seq<char> {
    "```"@
}

/// The prompt suggested in `text`: the content of the first "```prompt" block,
/// starting at its first non-white-space character (or right after the fence
/// when there is none), up to the next "```", trimmed; none when the block
/// is missing or unterminated.
pub open spec fn suggested_prompt(text: Seq<char>) -> Option<Seq<char>> {
    match find_from(text, prompt_fence(), 0) {
        None => None,
        Some(start) => {
            let rest = text.skip(start + prompt_fence().len());
            let content = match first_non_white(rest, 0) {
                Some(k) => k,
                None => 0,
            };
            match find_from(rest, closing_fence(), content) {
                None => None,
                Some(end) => Some(trim(rest.subrange(content, end))),
            }
        }
    }
}

/// Extracts the prompt suggested in a "```prompt" block of the reply.
pub fn extract_suggested_prompt(text: &str) -> (r: Option<String>)
    ensures
        opt_view(r) == suggested_prompt(text@),
{
    proof {
        reveal_strlit("```prompt");
        reveal_strlit("```");
    }
    let t = chars_of(text);
    let open = chars_of("```prompt");
    let close = chars_of("```");
    match find_chars(&t, &open, 0) {
        None => None,
        Some(start) => {
            let tl = t.len();
            assert(start + open@.len() <= tl);
            let after = start + open.len();
            let ghost rest = t@.skip(after as int);
            let rv = slice_from(&t, after);
            assert(rv@ == rest);
            let content: usize = match find_non_white(&rv, 0) {
                Some(k) => k,
                None => 0,
            };
            match find_chars(&rv, &close, content) {
                None => None,
                Some(end) => {
                    let (a, b) = trim_bounds(&rv, content, end);
                    Some(string_of_range(&rv, a, b))
                },
            }
        },
    }
}

/// The characters `v[from..]`.
fn slice_from(v: &Vec<char>, from: usize) -> (r: Vec<char>)
    requires
        from <= v@.len(),
    ensures
        r@ == v@.skip(from as int),
{
    let mut r: Vec<char> = Vec::new();
    let mut i = from;
    while i < v.len()
        invariant
            from <= i <= v@.len(),
            r@ == v@.subrange(from as int, i as int),
        decreases v@.len() - i,
    {
        r.push(v[i]);
        i = i + 1;
        assert(r@ =~= v@.subrange(from as int, i as int));
    }
    assert(v@.subrange(from as int, i as int) =~= v@.skip(from as int));
    r
}

/// The turns sent to the chat service: each message of the history (role
/// name and text), then the user's turn.
pub fn conversation(history: &Vec<ChatMessage>, current_prompt: &str, user_message: &str) -> (r: Vec<
    (String, String),
>)
    ensures
        r@.len() == history@.len() + 1,
        forall|i: int|
            0 <= i < history@.len() ==> (#[trigger] r@[i]).0@ == role_name(history@[i].role) && r@[i].1@
                == history@[i].content@,
        r@[history@.len() as int].0@ == "user"@,
        r@[history@.len() as int].1@ == user_turn_text(current_prompt@, user_message@),
{
    let mut turns: Vec<(String, String)> = Vec::new();
    let mut i: usize = 0;
    while i < history.len()
        invariant
            i <= history@.len(),
            turns@.len() == i,
            forall|k: int|
                0 <= k < i ==> (#[trigger] turns@[k]).0@ == role_name(history@[k].role) && turns@[k].1@
                    == history@[k].content@,
        decreases history@.len() - i,
    {
        let role = role_str(history[i].role).to_string();
        turns.push((role, history[i].content.clone()));
        i = i + 1;
    }
    proof {
        reveal_strlit("user");
    }
    turns.push(("user".to_string(), user_turn(current_prompt, user_message)));
    turns
}

/// The text of a reply made of content blocks: the texts of the blocks that
/// carry one, concatenated in order.
pub open spec fn reply_text(blocks: Seq<Option<String>>) -> Seq<char>
    decreases blocks.len(),
{
    if blocks.len() == 0 {
        Seq::empty()
    } else {
        reply_text(blocks.drop_last()) + match blocks.last() {
            Some(s) => s@,
            None => Seq::empty(),
        }
    }
}

/// The concatenated text of a reply's content blocks.
pub fn reply_concat(blocks: &[Option<String>]) -> (text: String)
    ensures
        text@ == reply_text(blocks@),
{
    let mut text = String::new();
    let mut i: usize = 0;
    while i < blocks.len()
        invariant
            i <= blocks@.len(),
            text@ == reply_text(blocks@.take(i as int)),
        decreases blocks@.len() - i,
    {
        proof {
            assert(blocks@.take(i + 1).drop_last() =~= blocks@.take(i as int));
        }
        match &blocks[i] {
            Some(s) => {
                text.append(s.as_str());
            },
            None => {
                assert(text@ + Seq::<char>::empty() =~= text@);
            },
        }
        i = i + 1;
    }
    assert(blocks@.take(i as int) =~= blocks@);
    text
}

/// Reads the assistant's reply from its content blocks: the reply is the
/// concatenated text, trimmed, with the prompt it suggests; a reply without
/// text is an error.
pub fn read_reply(blocks: &[Option<String>]) -> (r: Result<ChatResponse, ChatError>)
    ensures
        r is Err <==> reply_text(blocks@).len() == 0,
        r matches Ok(resp) ==> resp.message@ == trim(reply_text(blocks@)) && opt_view(
            resp.suggested_prompt,
        ) == suggested_prompt(reply_text(blocks@)),
        r matches Err(e) ==> e == ChatError::EmptyResponse,
{
    let text = reply_concat(blocks);
    if text.as_str().is_empty() {
        return Err(ChatError::EmptyResponse);
    }
    let suggested = extract_suggested_prompt(text.as_str());
    let t = chars_of(text.as_str());
    let (a, b) = trim_bounds(&t, 0, t.len());
    assert(t@.subrange(0, t@.len() as int) =~= t@);
    Ok(ChatResponse { message: string_of_range(&t, a, b), suggested_prompt: suggested })
}

/// The search for `p` from `i` finds `m`, where `p` occurs at `m` and at no
/// position from `i` before it.
proof fn lemma_find_from_at(t: Seq<char>, p: Seq<char>, i: int, m: int)
    requires
        0 <= i <= m,
        m + p.len() <= t.len(),
        t.subrange(m, m + p.len()) == p,
        forall|j: int| i <= j < m ==> #[trigger] t.subrange(j, j + p.len()) != p,
    ensures
        find_from(t, p, i) == Some(m),
    decreases m - i,
{
    if i < m {
        assert(t.subrange(i, i + p.len()) != p);
        lemma_find_from_at(t, p, i + 1, m);
    }
}

/// The first character from `i` that is not white space lies at or before
/// `m`, where `s[m]` is not white space, and all before it from `i` are.
proof fn lemma_first_non_white_by(s: Seq<char>, i: int, m: int)
    requires
        0 <= i <= m < s.len(),
        !is_white_space(s[m]),
    ensures
        first_non_white(s, i) matches Some(k) && i <= k <= m && forall|j: int|
            i <= j < k ==> is_white_space(#[trigger] s[j]),
    decreases m - i,
{
    if is_white_space(s[i]) {
        lemma_first_non_white_by(s, i + 1, m);
    }
}

/// A reply suggests the text between its "```prompt" fence and the next
/// "```", trimmed: for any text before the fence that holds no backtick
/// (so that the fence is the first one), any block content that holds no
/// "```" and does not end in a backtick (so that the closing fence is the
/// first "```" after the opening one), and whatever follows the block.
pub proof fn lemma_prompt_block_content(before: Seq<char>, content: Seq<char>, after: Seq<char>)
    requires
        forall|i: int| 0 <= i < before.len() ==> #[trigger] before[i] != '`',
        forall|i: int| 0 <= i && i + 3 <= content.len() ==> #[trigger] content.subrange(i, i + 3) != "```"@,
        content.len() > 0 ==> content.last() != '`',
    ensures
        suggested_prompt(before + "```prompt"@ + content + "```"@ + after) == Some(trim(content)),
{
    reveal_strlit("```prompt");
    reveal_strlit("```");
    let fence = "```prompt"@;
    let close = "```"@;
    let text = before + fence + content + close + after;
    let b = before.len() as int;
    assert(text.subrange(b, b + fence.len()) =~= fence);
    assert forall|j: int| 0 <= j < b implies #[trigger] text.subrange(j, j + fence.len()) != fence by {
        assert(text.subrange(j, j + fence.len())[0] == before[j]);
    }
    lemma_find_from_at(text, fence, 0, b);
    let rest = text.skip(b + fence.len());
    assert(rest =~= content + close + after);
    let n = content.len() as int;
    assert(rest[n] == '`');
    assert(!is_white_space('`'));
    lemma_first_non_white_by(rest, 0, n);
    let start = first_non_white(rest, 0)->0;
    assert(rest.subrange(n, n + 3) =~= close);
    assert forall|j: int| start <= j < n implies #[trigger] rest.subrange(j, j + close.len()) != close by {
        if j + 3 <= n {
            assert(rest.subrange(j, j + 3) =~= content.subrange(j, j + 3));
        } else {
            assert(rest.subrange(j, j + 3)[n - 1 - j] == content.last());
        }
    }
    lemma_find_from_at(rest, close, start, n);
    assert(rest.subrange(start, n) =~= content.skip(start));
    assert forall|k: int| 0 <= k < start implies is_white_space(#[trigger] content[k]) by {
        assert(rest[k] == content[k]);
    }
    crate::text::lemma_trim_start_skip(content, start);
}

/// The search for `p` from `i` finds nothing where `p` occurs at no
/// position from `i`.
proof fn lemma_find_from_absent(t: Seq<char>, p: Seq<char>, i: int)
    requires
        0 <= i,
        forall|j: int| i <= j && j + p.len() <= t.len() ==> #[trigger] t.subrange(j, j + p.len()) != p,
    ensures
        find_from(t, p, i) is None,
    decreases t.len() + 1 - i,
{
    if i + p.len() <= t.len() {
        lemma_find_from_absent(t, p, i + 1);
    }
}

/// A reply without a "```prompt" fence suggests no prompt.
pub proof fn lemma_no_fence_no_prompt(text: Seq<char>)
    requires
        forall|j: int| 0 <= j && j + 9 <= text.len() ==> #[trigger] text.subrange(j, j + 9) != "```prompt"@,
    ensures
        suggested_prompt(text) is None,
{
    reveal_strlit("```prompt");
    assert("```prompt"@.len() == 9);
    lemma_find_from_absent(text, "```prompt"@, 0);
}

} // verus!
