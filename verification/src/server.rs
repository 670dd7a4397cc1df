//! Request and response shapes of the OpenAI-compatible chat API, and the prompt that
//! a conversation becomes.

use vstd::prelude::*;
use crate::error::owned;

verus! {

#[derive(Debug, Clone, PartialEq, Eq)]
pub struct ChatMessage {
    pub role: String,
    pub content: String,
}

#[derive(Debug, Clone, PartialEq, Eq)]
pub struct ChatMessageOutput {
    pub role: String,
    pub content: String,
}

#[derive(Debug, Clone, PartialEq, Eq)]
pub struct ChatChoice {
    pub index: usize,
    pub message: ChatMessageOutput,
    pub finish_reason: String,
}

#[derive(Debug, Clone, PartialEq, Eq)]
pub struct ChatCompletionResponse {
    pub id: String,
    pub object: String,
    pub created: u64,
    pub model: String,
    pub choices: Vec<ChatChoice>,
}

/// Default generation budget of a request.
pub fn default_max_tokens() -> (r: usize)
    ensures
        r == 128,
{
    128
}

/// One conversation turn in the prompt: `<|role|>`, a newline, the content, a newline.
pub open spec fn turn_text(m: ChatMessage) -> Seq<char> {
    "<|"@ + m.role@ + "|>\n"@ + m.content@ + "\n"@
}

/// All turns of a conversation, in order.
pub open spec fn turns_text(ms: Seq<ChatMessage>) -> Seq<char>
    decreases ms.len(),
{
    if ms.len() == 0 {
        Seq::empty()
    } else {
        turns_text(ms.drop_last()) + turn_text(ms.last())
    }
}

/// The prompt of a conversation: its turns, then the assistant's opening tag.
pub open spec fn chat_prompt(ms: Seq<ChatMessage>) -> Seq<char> {
    turns_text(ms) + "<|assistant|>\n"@
}

/// Builds the generation prompt of a conversation.
pub fn build_chat_prompt(messages: &[ChatMessage]) -> (r: String)
    ensures
        r@ == chat_prompt(messages@),
{
    let mut prompt = String::new();
    let mut i: usize = 0;
    while i < messages.len()
        invariant
            0 <= i <= messages@.len(),
            prompt@ == turns_text(messages@.subrange(0, i as int)),
        decreases messages@.len() - i,
    {
        let m = &messages[i];
        prompt.append("<|");
        prompt.append(m.role.as_str());
        prompt.append("|>\n");
        prompt.append(m.content.as_str());
        prompt.append("\n");
        assert(messages@.subrange(0, i + 1).drop_last() =~= messages@.subrange(0, i as int));
        i = i + 1;
        assert(prompt@ =~= turns_text(messages@.subrange(0, i as int)));
    }
    assert(messages@.subrange(0, messages@.len() as int) =~= messages@);
    prompt.append("<|assistant|>\n");
    prompt
}

impl ChatCompletionResponse {
    /// The non-streaming reply: one assistant choice holding the generated text.
    pub fn completed(model: String, content: String) -> (r: Self)
        ensures
            r.id@ == "chatcmpl-pox"@,
            r.object@ == "chat.completion"@,
            r.created == 1700000000,
            r.model@ == model@,
            r.choices@.len() == 1,
            r.choices@[0].index == 0,
            r.choices@[0].message.role@ == "assistant"@,
            r.choices@[0].message.content@ == content@,
            r.choices@[0].finish_reason@ == "stop"@,
    {
        let mut choices: Vec<ChatChoice> = Vec::new();
        choices.push(
            ChatChoice {
                index: 0,
                message: ChatMessageOutput { role: owned("assistant"), content },
                finish_reason: owned("stop"),
            },
        );
        ChatCompletionResponse {
            id: owned("chatcmpl-pox"),
            object: owned("chat.completion"),
            created: 1700000000,
            model,
            choices,
        }
    }
}

} // verus!
