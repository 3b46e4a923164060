use vstd::prelude::*;
use crate::text::{push_signed_decimal, push_str, signed_decimal, string_of};

verus! {

/// `serde_json::Error`, the failure of a JSON encoding; carried through
/// without looking inside.
#[verifier::external_type_specification]
#[verifier::external_body]
pub struct ExJsonError(serde_json::Error);

/// A lower-case hexadecimal digit.
pub open spec fn hex_char(d: nat) -> char {
    if d < 10 { crate::text::digit_char(d) }
    else if d == 10 { 'a' }
    else if d == 11 { 'b' }
    else if d == 12 { 'c' }
    else if d == 13 { 'd' }
    else if d == 14 { 'e' }
    else { 'f' }
}

/// How one character is written inside a JSON string.
pub open spec fn json_escape(c: char) -> Seq<char> {
    let u = c as u32;
    if c == '"' { seq!['\\', '"'] }
    else if c == '\\' { seq!['\\', '\\'] }
    else if u == 0x08 { seq!['\\', 'b'] }
    else if u == 0x09 { seq!['\\', 't'] }
    else if u == 0x0a { seq!['\\', 'n'] }
    else if u == 0x0c { seq!['\\', 'f'] }
    else if u == 0x0d { seq!['\\', 'r'] }
    else if u < 0x20 { seq!['\\', 'u', '0', '0', hex_char((u / 16) as nat), hex_char((u % 16) as nat)] }
    else { seq![c] }
}

/// The characters of `s`, each escaped for a JSON string.
pub open spec fn json_escaped(s: Seq<char>) -> Seq<char>
    decreases s.len(),
{
    if s.len() == 0 {
        Seq::empty()
    } else {
        json_escaped(s.drop_last()) + json_escape(s.last())
    }
}

/// `s` as a JSON string literal.
pub open spec fn json_string(s: Seq<char>) -> Seq<char> {
    seq!['"'] + json_escaped(s) + seq!['"']
}

/// Relies on `serde_json::to_string` applied to a `str`: the text between
/// double quotes, with `"` and `\` escaped by a backslash, the control
/// characters with a short escape where JSON has one and as `\u00xx`
/// otherwise, and every other character as it is. Encoding a `str` into
/// memory does not fail: its only errors come from the writer, here a `Vec`.
#[verifier::external_body]
fn json_quote(s: &str) -> (r: Result<String, serde_json::Error>)
    ensures
        r is Ok,
        r matches Ok(t) ==> t@ == json_string(s@),
{
    serde_json::to_string(s)
}

/// Why no request body could be built.
#[derive(PartialEq, Eq, Structural, Clone, Copy, Debug)]
pub enum BodyError {
    /// The message text could not be encoded as JSON.
    Encoding,
}

/// The JSON body that sends `text` to chat `chat_id`, with the message text
/// already written as a JSON string.
pub open spec fn body_text(chat_id: int, quoted: Seq<char>) -> Seq<char> {
    "{\"chat_id\":"@ + signed_decimal(chat_id) + ",\"text\":"@ + quoted
        + ",\"parse_mode\":\"Markdown\"}"@
}

/// The JSON body of a send request, from the message text as a JSON string.
pub fn body_with_quoted(chat_id: i64, quoted: &str) -> (r: String)
    ensures
        r@ == body_text(chat_id as int, quoted@),
{
    let mut out: Vec<char> = Vec::new();
    push_str(&mut out, "{\"chat_id\":");
    push_signed_decimal(chat_id, &mut out);
    push_str(&mut out, ",\"text\":");
    push_str(&mut out, quoted);
    push_str(&mut out, ",\"parse_mode\":\"Markdown\"}");
    let r = string_of(&out);
    assert(r@ =~= body_text(chat_id as int, quoted@));
    r
}

/// The JSON body that sends `text` to chat `chat_id` in Markdown.
pub fn send_body(chat_id: i64, text: &str) -> (r: Result<String, BodyError>)
    ensures
        r is Ok,
        r matches Ok(b) ==> b@ == body_text(chat_id as int, json_string(text@)),
{
    match json_quote(text) {
        Ok(q) => Ok(body_with_quoted(chat_id, q.as_str())),
        Err(_) => Err(BodyError::Encoding),
    }
}

/// The endpoint that a bot with `token` posts messages to.
pub open spec fn send_uri_text(token: Seq<char>) -> Seq<char> {
    "https://api.telegram.org/bot"@ + token + "/sendMessage"@
}

/// Builds the endpoint that a bot with `token` posts messages to.
pub fn send_uri(token: &str) -> (r: String)
    ensures
        r@ == send_uri_text(token@),
{
    let mut out: Vec<char> = Vec::new();
    push_str(&mut out, "https://api.telegram.org/bot");
    push_str(&mut out, token);
    push_str(&mut out, "/sendMessage");
    string_of(&out)
}

/// The messages of a delivery round and the outcome of each attempt so far.
pub struct DispatchState {
    pub messages: Seq<Seq<char>>,
    pub outcomes: Seq<bool>,
}

/// A round that has attempted nothing yet.
pub open spec fn start(messages: Seq<Seq<char>>) -> DispatchState {
    DispatchState { messages, outcomes: Seq::empty() }
}

/// The round after one more attempt, whose delivery succeeded or not.
pub open spec fn step(s: DispatchState, delivered: bool) -> DispatchState {
    DispatchState { messages: s.messages, outcomes: s.outcomes.push(delivered) }
}

/// The round after the attempts with the given outcomes, in order.
pub open spec fn replay(s: DispatchState, outcomes: Seq<bool>) -> DispatchState
    decreases outcomes.len(),
{
    if outcomes.len() == 0 {
        s
    } else {
        step(replay(s, outcomes.drop_last()), outcomes.last())
    }
}

/// The message to attempt next, if any is left.
pub open spec fn offered(s: DispatchState) -> Option<Seq<char>> {
    if s.outcomes.len() < s.messages.len() {
        Some(s.messages[s.outcomes.len() as int])
    } else {
        None
    }
}

/// Every message is attempted once, in order, whatever became of the
/// attempts before it: after any run of successes and failures, the next
/// message offered is the one that follows them.
pub proof fn lemma_failure_isolated(messages: Seq<Seq<char>>, outcomes: Seq<bool>)
    requires
        outcomes.len() <= messages.len(),
    ensures
        replay(start(messages), outcomes).messages == messages,
        replay(start(messages), outcomes).outcomes == outcomes,
        outcomes.len() < messages.len() ==> offered(replay(start(messages), outcomes))
            == Some(messages[outcomes.len() as int]),
        outcomes.len() == messages.len() ==> offered(replay(start(messages), outcomes)) is None,
    decreases outcomes.len(),
{
    if outcomes.len() > 0 {
        lemma_failure_isolated(messages, outcomes.drop_last());
        assert(outcomes.drop_last().push(outcomes.last()) =~= outcomes);
    } else {
        assert(outcomes =~= Seq::<bool>::empty());
    }
}

/// Sends a round of messages one by one; a failed delivery is recorded and
/// the round goes on with the next message.
pub struct Dispatcher {
    messages: Vec<String>,
    outcomes: Vec<bool>,
}

impl View for Dispatcher {
    type V = DispatchState;

    closed spec fn view(&self) -> DispatchState {
        DispatchState {
            messages: Seq::new(self.messages@.len(), |k: int| self.messages@[k]@),
            outcomes: self.outcomes@,
        }
    }
}

impl Dispatcher {
    /// No more outcomes than messages.
    pub closed spec fn wf(&self) -> bool {
        self.outcomes@.len() <= self.messages@.len()
    }

    /// A round over `messages`, in the given order.
    pub fn new(messages: Vec<String>) -> (r: Dispatcher)
        ensures
            r.wf(),
            r@ == start(Seq::new(messages@.len(), |k: int| messages@[k]@)),
    {
        let r = Dispatcher { messages, outcomes: Vec::new() };
        assert(r@.outcomes =~= Seq::<bool>::empty());
        r
    }

    /// The message to attempt next, or `None` once every message was attempted.
    pub fn next_message(&self) -> (r: Option<String>)
        requires
            self.wf(),
        ensures
            match r {
                Some(m) => offered(self@) == Some(m@),
                None => offered(self@) is None,
            },
    {
        if self.outcomes.len() < self.messages.len() {
            Some(self.messages[self.outcomes.len()].clone())
        } else {
            None
        }
    }

    /// Records the outcome of the attempt on the offered message.
    pub fn record(&mut self, delivered: bool)
        requires
            old(self).wf(),
            offered(old(self)@) is Some,
        ensures
            final(self).wf(),
            final(self)@ == step(old(self)@, delivered),
    {
        self.outcomes.push(delivered);
        assert(self@.outcomes =~= old(self)@.outcomes.push(delivered));
        assert(self@.messages =~= old(self)@.messages);
    }

    /// Whether every message has been attempted.
    pub fn is_done(&self) -> (r: bool)
        requires
            self.wf(),
        ensures
            r == (offered(self@) is None),
    {
        self.outcomes.len() >= self.messages.len()
    }

    /// How many attempts were made so far.
    pub fn attempted(&self) -> (r: usize)
        ensures
            r == self@.outcomes.len(),
    {
        self.outcomes.len()
    }

    /// How many of the attempts so far were delivered.
    pub fn delivered(&self) -> (r: usize)
        ensures
            r == self@.outcomes.filter(|b: bool| b).len(),
    {
        let mut n: usize = 0;
        let mut i: usize = 0;
        while i < self.outcomes.len()
            invariant
                0 <= i <= self.outcomes@.len(),
                n == self.outcomes@.take(i as int).filter(|b: bool| b).len(),
                n <= i,
            decreases self.outcomes@.len() - i,
        {
            let ghost t = self.outcomes@.take(i as int + 1);
            assert(t.drop_last() =~= self.outcomes@.take(i as int));
            reveal_with_fuel(Seq::filter, 1);
            if self.outcomes[i] {
                n = n + 1;
            }
            i = i + 1;
        }
        assert(self.outcomes@.take(self.outcomes@.len() as int) =~= self.outcomes@);
        n
    }
}

} // verus!
