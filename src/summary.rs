use vstd::prelude::*;
use crate::text::{
    count_words, first_words, join_words, lemma_first_words_bound, push_str, string_of, take_words,
    words,
};

verus! {

/// Texts of more words than this are condensed; shorter ones are shown as
/// they are.
pub const SUMMARY_THRESHOLD: usize = 100;

/// At most this many words of a page go to the language model.
pub const MAX_INPUT_WORDS: usize = 10000;

/// The answer budget of one summary, in tokens.
pub const MAX_OUTPUT_TOKENS: u16 = 128;

/// How often the language model client retries a failed request.
pub const RETRY_TIMES: u8 = 3;

/// Put before a short page text that is shown instead of a summary.
pub open spec fn verbatim_prefix() -> Seq<char> {
    "Bot found minimal info on webpage to warrant a summary, please see the text on the page the Bot grabbed below if there are any, or use the link above to see the news at its source:\n"@
}

/// The instruction that sets the language model's role.
pub open spec fn system_prompt() -> Seq<char> {
    "You're an AI assistant."@
}

/// The request for a summary of `body`.
pub open spec fn question_text(body: Seq<char>) -> Seq<char> {
    "summarize this within 100 words: "@ + body
}

/// The conversation key of the summary of story `id`.
pub open spec fn session_text(id: Seq<char>) -> Seq<char> {
    "summary#"@ + id
}

/// The words of `text` that go to the language model.
pub open spec fn model_input(text: Seq<char>) -> Seq<char> {
    join_words(first_words(text, MAX_INPUT_WORDS as nat))
}

/// Shown where the language model gave no summary.
pub open spec fn failed_summary_text() -> Seq<char> {
    "unexpected summary generated"@
}

/// One call of the language model.
pub struct SummaryRequest {
    /// The conversation key; the conversation is restarted on every call.
    pub session: String,
    pub system: String,
    pub question: String,
    pub max_tokens: u16,
    pub retries: u8,
}

/// What to show below a story's headline.
pub enum SummaryPlan {
    /// Show this text as it is.
    Verbatim(String),
    /// Ask the language model, and show its answer.
    Ask(SummaryRequest),
}

/// Decides how to present the page text of story `id`: too short texts are
/// shown as they are, longer ones are condensed from their first words.
pub fn plan_summary(id: &str, text: &str) -> (r: SummaryPlan)
    ensures
        (r is Verbatim) <==> words(text@).len() <= SUMMARY_THRESHOLD,
        match r {
            SummaryPlan::Verbatim(v) => v@ == verbatim_prefix() + text@,
            SummaryPlan::Ask(q) => {
                &&& q.question@ == question_text(model_input(text@))
                &&& q.session@ == session_text(id@)
                &&& q.system@ == system_prompt()
                &&& q.max_tokens == MAX_OUTPUT_TOKENS
                &&& q.retries == RETRY_TIMES
                &&& words(model_input(text@)).len() <= MAX_INPUT_WORDS
            },
        },
{
    let n = count_words(text);
    if n <= SUMMARY_THRESHOLD {
        let mut out: Vec<char> = Vec::new();
        push_str(&mut out, "Bot found minimal info on webpage to warrant a summary, please see the text on the page the Bot grabbed below if there are any, or use the link above to see the news at its source:\n");
        push_str(&mut out, text);
        SummaryPlan::Verbatim(string_of(&out))
    } else {
        let body = take_words(text, MAX_INPUT_WORDS);
        proof {
            lemma_first_words_bound(text@, MAX_INPUT_WORDS as nat);
        }
        let mut q: Vec<char> = Vec::new();
        push_str(&mut q, "summarize this within 100 words: ");
        push_str(&mut q, body.as_str());
        let mut s: Vec<char> = Vec::new();
        push_str(&mut s, "summary#");
        push_str(&mut s, id);
        SummaryPlan::Ask(SummaryRequest {
            session: string_of(&s),
            system: String::from_str("You're an AI assistant."),
            question: string_of(&q),
            max_tokens: MAX_OUTPUT_TOKENS,
            retries: RETRY_TIMES,
        })
    }
}

/// The summary to show: the model's answer, or a placeholder where it gave
/// none.
pub fn summary_or_placeholder(answer: Option<String>) -> (r: String)
    ensures
        match answer {
            Some(a) => r@ == a@,
            None => r@ == failed_summary_text(),
        },
{
    match answer {
        Some(a) => a,
        None => String::from_str("unexpected summary generated"),
    }
}

} // verus!
