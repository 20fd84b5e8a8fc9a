//! The chat completion protocol of an OpenAI-compatible server: request URLs
//! and bodies, and the reading of replies, whole or streamed. Sending and
//! receiving is left to the caller.

use vstd::prelude::*;
use vstd::string::*;
use crate::config::ApiConfig;
use crate::json::{choice_content, json_choice_content, json_quote, parse_json, spec_json_quote, spec_parse_json, Json};
use crate::text::{
    contains_seq, decimal, has_prefix, has_suffix, occurs_at, push_decimal, str_eq, string_from_range,
    to_chars,
};

verus! {

/// Where and with which model to ask for completions.
pub struct CopilotClient {
    pub endpoint: String,
    pub api_path: String,
    pub model: String,
}

/// The body of a chat completion request: a JSON object whose members stand
/// in key order, with no spaces, and whose strings are quoted by `serde_json`.
pub open spec fn spec_request_body(
    model: Seq<char>,
    system: Seq<char>,
    user: Seq<char>,
    max_tokens: nat,
    stream: bool,
) -> Seq<char> {
    "{\"max_tokens\":"@ + decimal(max_tokens) + ",\"messages\":[{\"content\":"@ + spec_json_quote(
        system,
    ) + ",\"role\":\"system\"},{\"content\":"@ + spec_json_quote(user)
        + ",\"role\":\"user\"}],\"model\":"@ + spec_json_quote(model) + if stream {
        ",\"stream\":true"@
    } else {
        Seq::<char>::empty()
    } + ",\"temperature\":0.3}"@
}

/// In every request body, whether streamed or not, the messages hold the
/// system text with role `system` and then the user text with role `user`,
/// followed by the model; the body starts with the token limit and ends with
/// the temperature.
pub proof fn lemma_request_body_holds_messages(
    model: Seq<char>,
    system: Seq<char>,
    user: Seq<char>,
    max_tokens: nat,
    stream: bool,
)
    ensures
        contains_seq(
            spec_request_body(model, system, user, max_tokens, stream),
            ",\"messages\":[{\"content\":"@ + spec_json_quote(system)
                + ",\"role\":\"system\"},{\"content\":"@ + spec_json_quote(user)
                + ",\"role\":\"user\"}],\"model\":"@ + spec_json_quote(model),
        ),
        has_prefix(
            spec_request_body(model, system, user, max_tokens, stream),
            "{\"max_tokens\":"@ + decimal(max_tokens),
        ),
        has_suffix(
            spec_request_body(model, system, user, max_tokens, stream),
            ",\"temperature\":0.3}"@,
        ),
{
    let head = "{\"max_tokens\":"@ + decimal(max_tokens);
    let mid = ",\"messages\":[{\"content\":"@ + spec_json_quote(system)
        + ",\"role\":\"system\"},{\"content\":"@ + spec_json_quote(user)
        + ",\"role\":\"user\"}],\"model\":"@ + spec_json_quote(model);
    let flag = if stream {
        ",\"stream\":true"@
    } else {
        Seq::<char>::empty()
    };
    let tail = ",\"temperature\":0.3}"@;
    let b = spec_request_body(model, system, user, max_tokens, stream);
    assert(b =~= head + mid + flag + tail);
    assert(b.subrange(head.len() as int, head.len() + mid.len() as int) =~= mid);
    assert(occurs_at(b, mid, head.len() as int));
    assert(b.subrange(0, head.len() as int) =~= head);
    assert(b.subrange(b.len() - tail.len(), b.len() as int) =~= tail);
}

/// Streaming only adds `"stream":true` before the temperature: everything
/// else in the body is the same.
pub proof fn lemma_stream_only_adds_flag(
    model: Seq<char>,
    system: Seq<char>,
    user: Seq<char>,
    max_tokens: nat,
)
    ensures
        ({
            let plain = spec_request_body(model, system, user, max_tokens, false);
            let tail = ",\"temperature\":0.3}"@;
            &&& has_suffix(plain, tail)
            &&& spec_request_body(model, system, user, max_tokens, true) == plain.take(
                plain.len() - tail.len(),
            ) + ",\"stream\":true"@ + tail
        }),
{
    let plain = spec_request_body(model, system, user, max_tokens, false);
    let tail = ",\"temperature\":0.3}"@;
    lemma_request_body_holds_messages(model, system, user, max_tokens, false);
    let pre = "{\"max_tokens\":"@ + decimal(max_tokens) + ",\"messages\":[{\"content\":"@
        + spec_json_quote(system) + ",\"role\":\"system\"},{\"content\":"@ + spec_json_quote(
        user,
    ) + ",\"role\":\"user\"}],\"model\":"@ + spec_json_quote(model);
    assert(plain =~= pre + tail);
    assert(plain.take(plain.len() - tail.len()) =~= pre);
    assert(spec_request_body(model, system, user, max_tokens, true) =~= pre + ",\"stream\":true"@
        + tail);
}

impl CopilotClient {
    /// A client for the server and model of `config`.
    pub fn new(config: &ApiConfig) -> (r: Self)
        ensures
            r.endpoint@ == config.endpoint@,
            r.api_path@ == config.api_path@,
            r.model@ == config.model@,
    {
        CopilotClient {
            endpoint: config.endpoint.clone(),
            api_path: config.api_path.clone(),
            model: config.model.clone(),
        }
    }

    /// The URL of the chat completions endpoint.
    pub fn chat_completions_url(&self) -> (r: String)
        ensures
            r@ == self.endpoint@ + self.api_path@ + "/chat/completions"@,
    {
        let mut r = self.endpoint.clone();
        r.append(self.api_path.as_str());
        r.append("/chat/completions");
        r
    }

    /// The URL of the model list, used to check that the server answers.
    pub fn models_url(&self) -> (r: String)
        ensures
            r@ == self.endpoint@ + self.api_path@ + "/models"@,
    {
        let mut r = self.endpoint.clone();
        r.append(self.api_path.as_str());
        r.append("/models");
        r
    }

    /// The JSON body of a chat completion request with a system and a user
    /// message, temperature 0.3 and at most `max_tokens` tokens; with
    /// `stream`, the reply is asked for as a stream of events.
    pub fn chat_request_body(&self, system: &str, user: &str, max_tokens: u32, stream: bool) -> (r: String)
        ensures
            r@ == spec_request_body(self.model@, system@, user@, max_tokens as nat, stream),
    {
        let mut r = String::new();
        r.append("{\"max_tokens\":");
        push_decimal(&mut r, max_tokens as u64);
        r.append(",\"messages\":[{\"content\":");
        let qs = json_quote(system);
        r.append(qs.as_str());
        r.append(",\"role\":\"system\"},{\"content\":");
        let qu = json_quote(user);
        r.append(qu.as_str());
        r.append(",\"role\":\"user\"}],\"model\":");
        let qm = json_quote(self.model.as_str());
        r.append(qm.as_str());
        if stream {
            r.append(",\"stream\":true");
        }
        r.append(",\"temperature\":0.3}");
        r
    }
}

/// `StatusCode::is_success`: the status is in 200..=299.
pub fn status_is_success(status: u16) -> (r: bool)
    ensures
        r == (200 <= status < 300),
{
    200 <= status && status < 300
}

/// Why a completion request gave no text.
#[derive(Debug)]
pub enum CompletionError {
    /// The server answered with a status that is not a success, and this body.
    Status { code: u16, body: String },
    /// The reply body is not JSON.
    InvalidJson,
    /// The reply has no string at `choices[0].message.content`.
    MissingContent,
}

/// `r` is what a parsed reply `data` gives: the text at
/// `choices[0].message.content`, or the error for a reply that is not JSON or
/// lacks that text.
pub open spec fn completion_outcome(data: Option<Json>, r: Result<String, CompletionError>) -> bool {
    match data {
        None => r matches Err(CompletionError::InvalidJson),
        Some(d) => match choice_content(d, "message"@) {
            Some(c) => r matches Ok(s) && s@ == c,
            None => r matches Err(CompletionError::MissingContent),
        },
    }
}

/// The text of a completion from the parsed reply body (`None` when the body
/// was not JSON).
pub fn completion_from_json(data: Option<Json>) -> (r: Result<String, CompletionError>)
    ensures
        completion_outcome(data, r),
{
    match data {
        None => Err(CompletionError::InvalidJson),
        Some(d) => match json_choice_content(&d, "message") {
            Some(s) => Ok(s),
            None => Err(CompletionError::MissingContent),
        },
    }
}

/// The outcome of a completion request from the reply's status and body:
/// a failure status gives the status and body back; otherwise the body is
/// parsed and its `choices[0].message.content` is the completion.
pub fn completion_result(status: u16, body: &str) -> (r: Result<String, CompletionError>)
    ensures
        !(200 <= status < 300) ==> (r matches Err(CompletionError::Status { code, body: b })
            && code == status && b@ == body@),
        200 <= status < 300 ==> completion_outcome(spec_parse_json(body@), r),
{
    if !status_is_success(status) {
        return Err(CompletionError::Status { code: status, body: body.to_owned() });
    }
    let data = parse_json(body);
    completion_from_json(data)
}

/// The outcome of the reachability check: success statuses pass, any other
/// status is returned as the error.
pub fn health_result(status: u16) -> (r: Result<(), u16>)
    ensures
        200 <= status < 300 ==> r is Ok,
        !(200 <= status < 300) ==> r == Err::<(), u16>(status),
{
    if status_is_success(status) {
        Ok(())
    } else {
        Err(status)
    }
}

/// What one line of a streamed reply means.
pub enum StreamLine {
    /// Not an event line, or an event without text.
    Ignore,
    /// The end-of-stream marker.
    Done,
    /// A piece of the completion.
    Token(String),
}

/// The meaning of a line of a streamed reply, as a value.
pub enum LineEvent {
    Ignore,
    Done,
    Token(Seq<char>),
}

impl View for StreamLine {
    type V = LineEvent;

    open spec fn view(&self) -> LineEvent {
        match self {
            StreamLine::Ignore => LineEvent::Ignore,
            StreamLine::Done => LineEvent::Done,
            StreamLine::Token(s) => LineEvent::Token(s@),
        }
    }
}

/// The prefix of an event line.
pub open spec fn data_prefix() -> Seq<char> {
    "data: "@
}

/// What the event whose parsed payload is `chunk` carries: the text at
/// `choices[0].delta.content`, when there is one.
pub open spec fn spec_chunk_event(chunk: Option<Json>) -> LineEvent {
    match chunk {
        Some(c) => match choice_content(c, "delta"@) {
            Some(t) => LineEvent::Token(t),
            None => LineEvent::Ignore,
        },
        None => LineEvent::Ignore,
    }
}

/// What a line of a streamed reply means: lines that do not start with
/// `"data: "` are ignored, `"data: [DONE]"` ends the stream, and any other
/// event carries the text of its JSON payload, if it has one.
pub open spec fn spec_stream_line(line: Seq<char>) -> LineEvent {
    if !has_prefix(line, data_prefix()) {
        LineEvent::Ignore
    } else {
        let payload = line.skip(data_prefix().len() as int);
        if payload == "[DONE]"@ {
            LineEvent::Done
        } else {
            spec_chunk_event(spec_parse_json(payload))
        }
    }
}

/// The meaning of an event from its parsed payload (`None` when the payload
/// was not JSON).
pub fn chunk_event(chunk: Option<Json>) -> (r: StreamLine)
    ensures
        r@ == spec_chunk_event(chunk),
        chunk matches Some(c) ==> (choice_content(c, "delta"@) matches Some(t) ==> (r matches StreamLine::Token(s)
            && s@ == t)),
        chunk matches Some(c) ==> (choice_content(c, "delta"@) is None ==> r is Ignore),
        chunk is None ==> r is Ignore,
{
    match chunk {
        Some(c) => match json_choice_content(&c, "delta") {
            Some(t) => StreamLine::Token(t),
            None => StreamLine::Ignore,
        },
        None => StreamLine::Ignore,
    }
}

/// The token of an event line is exactly the string at
/// `choices[0].delta.content` of its JSON payload, unchanged.
pub proof fn lemma_stream_token_is_delta_content(payload: Seq<char>, c: Json, t: Seq<char>)
    requires
        payload != "[DONE]"@,
        spec_parse_json(payload) == Some(c),
        choice_content(c, "delta"@) == Some(t),
    ensures
        spec_stream_line("data: "@ + payload) == LineEvent::Token(t),
{
    let line = "data: "@ + payload;
    let k = "data: "@.len() as int;
    assert(line.subrange(0, k) =~= "data: "@);
    assert(line.skip(k) =~= payload);
}

/// The end marker ends the stream, and a line that is not an event line is
/// skipped.
pub proof fn lemma_stream_done_and_other_lines(line: Seq<char>)
    ensures
        spec_stream_line("data: "@ + "[DONE]"@) == LineEvent::Done,
        !has_prefix(line, "data: "@) ==> spec_stream_line(line) == LineEvent::Ignore,
{
    let d = "data: "@ + "[DONE]"@;
    let k = "data: "@.len() as int;
    assert(d.subrange(0, k) =~= "data: "@);
    assert(d.skip(k) =~= "[DONE]"@);
}

/// The meaning of one line of a streamed reply.
pub fn parse_stream_line(line: &str) -> (r: StreamLine)
    ensures
        r@ == spec_stream_line(line@),
{
    let v = to_chars(line);
    let prefix = to_chars("data: ");
    if !crate::text::matches_at(&v, &prefix, 0) {
        return StreamLine::Ignore;
    }
    let payload = string_from_range(&v, prefix.len(), v.len());
    assert(payload@ == line@.skip(data_prefix().len() as int));
    if str_eq(payload.as_str(), "[DONE]") {
        return StreamLine::Done;
    }
    let chunk = parse_json(payload.as_str());
    chunk_event(chunk)
}

/// What the caller does after a line of a streamed reply.
pub enum StreamStep {
    /// Nothing; read the next line.
    Skip,
    /// The stream is over.
    Finish,
    /// Print `token`; `first` tells that it is the first one, so the
    /// waiting indicator is to be stopped before.
    Print { token: String, first: bool },
}

/// The state of a streamed completion: the text received so far, and whether
/// any text has arrived.
pub struct StreamCollector {
    pub response: String,
    pub started: bool,
}

impl StreamCollector {
    /// Nothing received yet.
    pub fn new() -> (r: Self)
        ensures
            r.response@ == Seq::<char>::empty(),
            !r.started,
    {
        StreamCollector { response: String::new(), started: false }
    }

    /// Takes one line of the stream: a piece of text is added to the
    /// response and is to be printed, the end marker finishes the stream,
    /// and every other line is skipped and changes nothing.
    pub fn step(&mut self, line: &str) -> (r: StreamStep)
        ensures
            spec_stream_line(line@) matches LineEvent::Token(t) ==> {
                &&& r matches StreamStep::Print { token, first } && token@ == t && first
                    == !old(self).started
                &&& final(self).response@ == old(self).response@ + t
                &&& final(self).started
            },
            spec_stream_line(line@) matches LineEvent::Done ==> {
                &&& r matches StreamStep::Finish
                &&& final(self).response@ == old(self).response@
                &&& final(self).started == old(self).started
            },
            spec_stream_line(line@) matches LineEvent::Ignore ==> {
                &&& r matches StreamStep::Skip
                &&& final(self).response@ == old(self).response@
                &&& final(self).started == old(self).started
            },
    {
        match parse_stream_line(line) {
            StreamLine::Ignore => StreamStep::Skip,
            StreamLine::Done => StreamStep::Finish,
            StreamLine::Token(t) => {
                let first = !self.started;
                self.started = true;
                self.response.append(t.as_str());
                StreamStep::Print { token: t, first }
            },
        }
    }
}

} // verus!
