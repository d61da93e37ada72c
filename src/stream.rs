use vstd::prelude::*;
use crate::json::{
    as_count, as_flag, as_text, count_of, field, flag_of, get, json_of, opt, parse_json, text_field,
    JsonValue,
};
use crate::text::{contains_text, has_infix, lower_of, lowercase, text_copy, text_is, trim_of, trimmed};

verus! {

/// One event of an assistant turn, as subscribers receive it.
pub struct ClaudeResponse {
    pub content: String,
    pub is_complete: bool,
    pub thinking: Option<String>,
    pub tokens_used: Option<u64>,
}

/// What an event says, over mathematical texts.
pub struct ResponseModel {
    pub content: Seq<char>,
    pub is_complete: bool,
    pub thinking: Option<Seq<char>>,
    pub tokens_used: Option<u64>,
}

pub open spec fn opt_text(s: Option<String>) -> Option<Seq<char>> {
    match s {
        Some(t) => Some(t@),
        None => None,
    }
}

impl View for ClaudeResponse {
    type V = ResponseModel;

    open spec fn view(&self) -> ResponseModel {
        ResponseModel {
            content: self.content@,
            is_complete: self.is_complete,
            thinking: opt_text(self.thinking),
            tokens_used: self.tokens_used,
        }
    }
}

/// What a turn has gathered from the stream so far.
pub struct StreamState {
    /// The text of the assistant's answer.
    pub response: String,
    pub total_tokens: u64,
    pub session_id: Option<String>,
    /// The last error the stream reported.
    pub error_message: Option<String>,
}

pub struct StreamModel {
    pub response: Seq<char>,
    pub total_tokens: u64,
    pub session_id: Option<Seq<char>>,
    pub error_message: Option<Seq<char>>,
}

impl View for StreamState {
    type V = StreamModel;

    open spec fn view(&self) -> StreamModel {
        StreamModel {
            response: self.response@,
            total_tokens: self.total_tokens,
            session_id: opt_text(self.session_id),
            error_message: opt_text(self.error_message),
        }
    }
}

pub open spec fn events_view(events: Seq<ClaudeResponse>) -> Seq<ResponseModel> {
    events.map_values(|e: ClaudeResponse| e@)
}

/// The state of a turn before its first frame.
pub open spec fn initial_model() -> StreamModel {
    StreamModel {
        response: Seq::empty(),
        total_tokens: 0,
        session_id: None,
        error_message: None,
    }
}

/// A piece of the answer's text.
pub open spec fn text_delta(t: Seq<char>) -> ResponseModel {
    ResponseModel { content: t, is_complete: false, thinking: None, tokens_used: None }
}

/// A piece of the assistant's reasoning, shown apart from the answer.
pub open spec fn thought(t: Seq<char>) -> ResponseModel {
    ResponseModel { content: Seq::empty(), is_complete: false, thinking: Some(t), tokens_used: None }
}

/// The `type` of a frame or item, empty where it has none.
pub open spec fn type_of(v: JsonValue) -> Seq<char> {
    match text_field(v, "type"@) {
        Some(t) => t,
        None => Seq::empty(),
    }
}

/// The name of the tool that a `tool_use` item calls.
pub open spec fn tool_name(item: JsonValue) -> Seq<char> {
    match text_field(item, "name"@) {
        Some(n) => n,
        None => "tool"@,
    }
}

/// The event that one content item of an assistant frame gives, if any.
pub open spec fn item_event(item: JsonValue) -> Option<ResponseModel> {
    match text_field(item, "type"@) {
        Some(t) => if t == "text"@ {
            match text_field(item, "text"@) {
                Some(x) => Some(text_delta(x)),
                None => None,
            }
        } else if t == "thinking"@ {
            match text_field(item, "thinking"@) {
                Some(x) => Some(thought(x)),
                None => None,
            }
        } else if t == "tool_use"@ {
            Some(thought("Using "@ + tool_name(item) + "..."@))
        } else {
            None
        },
        None => None,
    }
}

/// The answer text that one content item adds.
pub open spec fn item_text(item: JsonValue) -> Seq<char> {
    if text_field(item, "type"@) == Some("text"@) {
        match text_field(item, "text"@) {
            Some(x) => x,
            None => Seq::empty(),
        }
    } else {
        Seq::empty()
    }
}

pub open spec fn option_seq<T>(o: Option<T>) -> Seq<T> {
    match o {
        Some(x) => seq![x],
        None => Seq::empty(),
    }
}

pub open spec fn items_events(items: Seq<JsonValue>) -> Seq<ResponseModel>
    decreases items.len(),
{
    if items.len() == 0 {
        Seq::empty()
    } else {
        items_events(items.drop_last()) + option_seq(item_event(items.last()))
    }
}

pub open spec fn items_text(items: Seq<JsonValue>) -> Seq<char>
    decreases items.len(),
{
    if items.len() == 0 {
        Seq::empty()
    } else {
        items_text(items.drop_last()) + item_text(items.last())
    }
}

/// The content items of an assistant frame: `message.content`, where it is an array.
pub open spec fn content_items(frame: JsonValue) -> Seq<JsonValue> {
    match field(frame, "message"@) {
        Some(m) => match field(m, "content"@) {
            Some(JsonValue::Array(a)) => a@,
            _ => Seq::empty(),
        },
        None => Seq::empty(),
    }
}

/// The events that a frame gives, in order.
pub open spec fn frame_events(frame: JsonValue) -> Seq<ResponseModel> {
    if type_of(frame) == "assistant"@ {
        items_events(content_items(frame))
    } else {
        Seq::empty()
    }
}

/// The answer text that a frame adds to the aggregate.
pub open spec fn frame_text(frame: JsonValue) -> Seq<char> {
    if type_of(frame) == "assistant"@ {
        items_text(content_items(frame))
    } else {
        Seq::empty()
    }
}

/// The message of an `error` frame: the nested error object's message, else the
/// frame's own message, else a placeholder.
pub open spec fn error_frame_message(frame: JsonValue) -> Seq<char> {
    let nested = match field(frame, "error"@) {
        Some(e) => text_field(e, "message"@),
        None => None,
    };
    match nested {
        Some(m) => m,
        None => match text_field(frame, "message"@) {
            Some(m) => m,
            None => "Unknown error"@,
        },
    }
}

/// `a + b`, held at `u64::MAX`.
pub open spec fn capped_sum(a: u64, b: u64) -> u64 {
    if a + b > u64::MAX {
        u64::MAX
    } else {
        (a + b) as u64
    }
}

pub open spec fn count_or_zero(v: Option<JsonValue>, key: Seq<char>) -> u64 {
    match v {
        Some(x) => match count_of(field(x, key)) {
            Some(n) => n,
            None => 0,
        },
        None => 0,
    }
}

/// The sum of the `input_tokens` and `output_tokens` counts of an object.
pub open spec fn io_tokens(v: Option<JsonValue>) -> u64 {
    capped_sum(count_or_zero(v, "input_tokens"@), count_or_zero(v, "output_tokens"@))
}

/// The token count after a `result` frame: `usage.total_tokens`, else the sum of
/// `usage`'s input and output; where that leaves zero, the sum of `stats`'.
pub open spec fn result_tokens(frame: JsonValue, prior: u64) -> u64 {
    let first = match field(frame, "usage"@) {
        Some(u) => match count_of(field(u, "total_tokens"@)) {
            Some(t) => t,
            None => io_tokens(Some(u)),
        },
        None => prior,
    };
    if first == 0 && field(frame, "stats"@) is Some {
        io_tokens(field(frame, "stats"@))
    } else {
        first
    }
}

pub open spec fn result_step(s: StreamModel, frame: JsonValue) -> StreamModel {
    let is_error = flag_of(field(frame, "is_error"@)) == Some(true);
    let text = text_field(frame, "result"@);
    StreamModel {
        response: if text is Some && !is_error && s.response.len() == 0 {
            text->0
        } else {
            s.response
        },
        error_message: if text is Some && is_error {
            text
        } else {
            s.error_message
        },
        session_id: match text_field(frame, "session_id"@) {
            Some(sid) => Some(sid),
            None => s.session_id,
        },
        total_tokens: result_tokens(frame, s.total_tokens),
    }
}

/// Whether a `system` message reports an error: its lower-case form mentions one.
pub open spec fn system_reports_error(message: Seq<char>) -> bool {
    has_infix(lower_of(message), "error"@)
}

/// The state after one frame.
pub open spec fn step(s: StreamModel, frame: JsonValue) -> StreamModel {
    let t = type_of(frame);
    if t == "error"@ {
        StreamModel { error_message: Some(error_frame_message(frame)), ..s }
    } else if t == "system"@ {
        match text_field(frame, "message"@) {
            Some(m) => if system_reports_error(m) {
                StreamModel { error_message: Some(m), ..s }
            } else {
                s
            },
            None => s,
        }
    } else if t == "assistant"@ {
        StreamModel { response: s.response + frame_text(frame), ..s }
    } else if t == "result"@ {
        result_step(s, frame)
    } else {
        s
    }
}

/// The state after one line of output; a line that is not JSON changes nothing.
pub open spec fn line_step(s: StreamModel, line: Seq<char>) -> StreamModel {
    match json_of(line) {
        Some(f) => step(s, f),
        None => s,
    }
}

/// The events that one line of output gives.
pub open spec fn line_events(line: Seq<char>) -> Seq<ResponseModel> {
    match json_of(line) {
        Some(f) => frame_events(f),
        None => Seq::empty(),
    }
}

/// The state after a run of lines, from the initial state.
pub open spec fn lines_state(lines: Seq<Seq<char>>) -> StreamModel
    decreases lines.len(),
{
    if lines.len() == 0 {
        initial_model()
    } else {
        line_step(lines_state(lines.drop_last()), lines.last())
    }
}

/// The events of a run of lines: each line's events, in the order of the lines.
pub open spec fn lines_events(lines: Seq<Seq<char>>) -> Seq<ResponseModel>
    decreases lines.len(),
{
    if lines.len() == 0 {
        Seq::empty()
    } else {
        lines_events(lines.drop_last()) + line_events(lines.last())
    }
}

pub open spec fn event_option_view(e: Option<ClaudeResponse>) -> Option<ResponseModel> {
    match e {
        Some(x) => Some(x@),
        None => None,
    }
}

fn type_text(v: &JsonValue) -> (r: String)
    ensures
        r@ == type_of(*v),
{
    match as_text(get(v, "type")) {
        Some(t) => t.clone(),
        None => String::new(),
    }
}

/// `a + b`, held at `u64::MAX`.
pub fn capped_add(a: u64, b: u64) -> (r: u64)
    ensures
        r == capped_sum(a, b),
{
    if a <= u64::MAX - b {
        a + b
    } else {
        u64::MAX
    }
}

fn count_field(v: Option<&JsonValue>, key: &str) -> (r: u64)
    ensures
        r == count_or_zero(opt(v), key@),
{
    match v {
        Some(x) => match as_count(get(x, key)) {
            Some(n) => n,
            None => 0,
        },
        None => 0,
    }
}

fn io_token_sum(v: Option<&JsonValue>) -> (r: u64)
    ensures
        r == io_tokens(opt(v)),
{
    capped_add(count_field(v, "input_tokens"), count_field(v, "output_tokens"))
}

/// The event that one content item of an assistant frame gives, if any.
pub fn content_item_event(item: &JsonValue) -> (r: Option<ClaudeResponse>)
    ensures
        event_option_view(r) == item_event(*item),
{
    match as_text(get(item, "type")) {
        Some(t) => {
            if text_is(t, "text") {
                match as_text(get(item, "text")) {
                    Some(x) => Some(
                        ClaudeResponse {
                            content: x.clone(),
                            is_complete: false,
                            thinking: None,
                            tokens_used: None,
                        },
                    ),
                    None => None,
                }
            } else if text_is(t, "thinking") {
                match as_text(get(item, "thinking")) {
                    Some(x) => Some(
                        ClaudeResponse {
                            content: String::new(),
                            is_complete: false,
                            thinking: Some(x.clone()),
                            tokens_used: None,
                        },
                    ),
                    None => None,
                }
            } else if text_is(t, "tool_use") {
                let mut note = text_copy("Using ");
                match as_text(get(item, "name")) {
                    Some(n) => note.append(n.as_str()),
                    None => note.append("tool"),
                }
                note.append("...");
                Some(
                    ClaudeResponse {
                        content: String::new(),
                        is_complete: false,
                        thinking: Some(note),
                        tokens_used: None,
                    },
                )
            } else {
                None
            }
        },
        None => None,
    }
}

/// The frame kinds are four different texts.
proof fn lemma_frame_kinds_differ()
    ensures
        "error"@ != "system"@,
        "error"@ != "assistant"@,
        "error"@ != "result"@,
        "system"@ != "assistant"@,
        "system"@ != "result"@,
        "assistant"@ != "result"@,
{
    reveal_strlit("error");
    reveal_strlit("system");
    reveal_strlit("assistant");
    reveal_strlit("result");
    assert("error"@[0] != "system"@[0]);
    assert("error"@[0] != "assistant"@[0]);
    assert("error"@[0] != "result"@[0]);
    assert("system"@[0] != "assistant"@[0]);
    assert("system"@[0] != "result"@[0]);
    assert("assistant"@[0] != "result"@[0]);
}

impl StreamState {
    /// The state of a turn before its first frame.
    pub fn new() -> (r: StreamState)
        ensures
            r@ == initial_model(),
    {
        StreamState {
            response: String::new(),
            total_tokens: 0,
            session_id: None,
            error_message: None,
        }
    }

    fn apply_assistant(&mut self, frame: &JsonValue) -> (events: Vec<ClaudeResponse>)
        requires
            type_of(*frame) == "assistant"@,
        ensures
            final(self)@ == step(old(self)@, *frame),
            events_view(events@) == frame_events(*frame),
    {
        proof {
            lemma_frame_kinds_differ();
        }
        let mut events: Vec<ClaudeResponse> = Vec::new();
        let ghost start = self.response@;
        if let Some(m) = get(frame, "message") {
            if let Some(JsonValue::Array(items)) = get(m, "content") {
                assert(content_items(*frame) == items@);
                let mut i: usize = 0;
                while i < items.len()
                    invariant
                        0 <= i <= items@.len(),
                        content_items(*frame) == items@,
                        self.response@ == start + items_text(items@.take(i as int)),
                        self.total_tokens == old(self).total_tokens,
                        self.session_id == old(self).session_id,
                        self.error_message == old(self).error_message,
                        events_view(events@) == items_events(items@.take(i as int)),
                    decreases items@.len() - i,
                {
                    let item = &items[i];
                    assert(items@.take(i + 1).drop_last() == items@.take(i as int));
                    let e = content_item_event(item);
                    match as_text(get(item, "type")) {
                        Some(t) => {
                            if text_is(t, "text") {
                                if let Some(x) = as_text(get(item, "text")) {
                                    self.response.append(x.as_str());
                                }
                            }
                        },
                        None => {},
                    }
                    let ghost before = events_view(events@);
                    match e {
                        Some(ev) => {
                            events.push(ev);
                        },
                        None => {},
                    }
                    assert(events_view(events@) =~= before + option_seq(item_event(items@[i as int])));
                    assert(self.response@ =~= start + items_text(items@.take(i as int)) + item_text(items@[i as int]));
                    i = i + 1;
                }
                assert(items@.take(items@.len() as int) == items@);
                return events;
            }
        }
        assert(self.response@ =~= start + frame_text(*frame));
        events
    }

    fn apply_result(&mut self, frame: &JsonValue)
        requires
            type_of(*frame) == "result"@,
        ensures
            final(self)@ == step(old(self)@, *frame),
    {
        proof {
            lemma_frame_kinds_differ();
        }
        let is_error = match as_flag(get(frame, "is_error")) {
            Some(b) => b,
            None => false,
        };
        if let Some(r) = as_text(get(frame, "result")) {
            if is_error {
                self.error_message = Some(r.clone());
            } else if self.response.unicode_len() == 0 {
                self.response = r.clone();
            }
        }
        if let Some(sid) = as_text(get(frame, "session_id")) {
            self.session_id = Some(sid.clone());
        }
        if let Some(u) = get(frame, "usage") {
            match as_count(get(u, "total_tokens")) {
                Some(t) => {
                    self.total_tokens = t;
                },
                None => {
                    self.total_tokens = io_token_sum(Some(u));
                },
            }
        }
        if self.total_tokens == 0 {
            let stats = get(frame, "stats");
            if stats.is_some() {
                self.total_tokens = io_token_sum(stats);
            }
        }
    }

    /// Takes in one frame of the assistant's stream and gives the events it produces.
    pub fn apply_frame(&mut self, frame: &JsonValue) -> (events: Vec<ClaudeResponse>)
        ensures
            final(self)@ == step(old(self)@, *frame),
            events_view(events@) == frame_events(*frame),
    {
        proof {
            lemma_frame_kinds_differ();
        }
        let t = type_text(frame);
        if text_is(&t, "error") {
            let nested = match get(frame, "error") {
                Some(e) => as_text(get(e, "message")),
                None => None,
            };
            let m = match nested {
                Some(m) => m.clone(),
                None => match as_text(get(frame, "message")) {
                    Some(m) => m.clone(),
                    None => text_copy("Unknown error"),
                },
            };
            self.error_message = Some(m);
            Vec::new()
        } else if text_is(&t, "system") {
            if let Some(m) = as_text(get(frame, "message")) {
                let lowered = lowercase(m.as_str());
                if mentions_error(lowered.as_str()) {
                    self.error_message = Some(m.clone());
                }
            }
            Vec::new()
        } else if text_is(&t, "assistant") {
            self.apply_assistant(frame)
        } else if text_is(&t, "result") {
            self.apply_result(frame);
            Vec::new()
        } else {
            Vec::new()
        }
    }

    /// Takes in one line of the assistant's output; a line that is not JSON is skipped.
    pub fn apply_line(&mut self, line: &str) -> (events: Vec<ClaudeResponse>)
        ensures
            final(self)@ == line_step(old(self)@, line@),
            events_view(events@) == line_events(line@),
    {
        match parse_json(line) {
            Some(f) => self.apply_frame(&f),
            None => Vec::new(),
        }
    }
}

/// Whether a message, already in lower case, mentions an error.
pub fn mentions_error(lowered: &str) -> (r: bool)
    ensures
        r == has_infix(lowered@, "error"@),
{
    contains_text(lowered, "error")
}

pub open spec fn lines_view(lines: Seq<String>) -> Seq<Seq<char>> {
    lines.map_values(|l: String| l@)
}

/// Takes in a run of output lines, in order, from the initial state.
pub fn interpret_lines(lines: &Vec<String>) -> (r: (StreamState, Vec<ClaudeResponse>))
    ensures
        r.0@ == lines_state(lines_view(lines@)),
        events_view(r.1@) == lines_events(lines_view(lines@)),
{
    let mut state = StreamState::new();
    let mut events: Vec<ClaudeResponse> = Vec::new();
    let mut i: usize = 0;
    while i < lines.len()
        invariant
            0 <= i <= lines@.len(),
            state@ == lines_state(lines_view(lines@.take(i as int))),
            events_view(events@) == lines_events(lines_view(lines@.take(i as int))),
        decreases lines@.len() - i,
    {
        let ghost prefix = lines_view(lines@.take(i + 1));
        assert(prefix.drop_last() =~= lines_view(lines@.take(i as int)));
        assert(prefix.last() == lines@[i as int]@);
        let mut more = state.apply_line(lines[i].as_str());
        let ghost before = events_view(events@);
        events.append(&mut more);
        assert(events_view(events@) =~= before + line_events(lines@[i as int]@));
        i = i + 1;
    }
    assert(lines@.take(lines@.len() as int) =~= lines@);
    (state, events)
}

/// The final result of a successful turn.
pub struct ClaudeResult {
    pub response: String,
    pub session_id: Option<String>,
}

/// The message a turn fails with where the assistant, called `assistant`, exited
/// with failure: the stream's error, else what it wrote to stderr, else its exit status.
pub open spec fn failure_message(
    s: StreamModel,
    assistant: Seq<char>,
    stderr: Seq<char>,
    status: Seq<char>,
) -> Seq<char> {
    match s.error_message {
        Some(e) => e,
        None => if stderr.len() > 0 {
            assistant + " error: "@ + stderr
        } else {
            assistant + " exited with status: "@ + status
        },
    }
}

/// The event that closes a successful turn, with the token count where it is not zero.
pub open spec fn completion(tokens: u64) -> ResponseModel {
    ResponseModel {
        content: Seq::empty(),
        is_complete: true,
        thinking: None,
        tokens_used: if tokens > 0 {
            Some(tokens)
        } else {
            None
        },
    }
}

/// How a turn ends: its text, session id and closing event, or its error message.
pub open spec fn turn_outcome(
    s: StreamModel,
    assistant: Seq<char>,
    exited_ok: bool,
    stderr: Seq<char>,
    status: Seq<char>,
) -> Result<
    (Seq<char>, Option<Seq<char>>, ResponseModel),
    Seq<char>,
> {
    if !exited_ok {
        Err(failure_message(s, assistant, stderr, status))
    } else if s.error_message is Some {
        Err(s.error_message->0)
    } else {
        Ok((trim_of(s.response), s.session_id, completion(s.total_tokens)))
    }
}

pub open spec fn finished_view(r: Result<(ClaudeResult, ClaudeResponse), String>) -> Result<
    (Seq<char>, Option<Seq<char>>, ResponseModel),
    Seq<char>,
> {
    match r {
        Ok((res, ev)) => Ok((res.response@, opt_text(res.session_id), ev@)),
        Err(e) => Err(e@),
    }
}

/// Ends a turn once the assistant, called `assistant` in messages, has exited:
/// `exited_ok` is its exit status's success, `stderr` what it wrote there, `status`
/// its exit status as text.
pub fn finish_turn(
    state: StreamState,
    assistant: &str,
    exited_ok: bool,
    stderr: &str,
    status: &str,
) -> (r: Result<
    (ClaudeResult, ClaudeResponse),
    String,
>)
    ensures
        finished_view(r) == turn_outcome(state@, assistant@, exited_ok, stderr@, status@),
{
    if !exited_ok {
        let msg = match state.error_message {
            Some(e) => e,
            None => {
                if stderr.unicode_len() > 0 {
                    let mut m = text_copy(assistant);
                    m.append(" error: ");
                    m.append(stderr);
                    m
                } else {
                    let mut m = text_copy(assistant);
                    m.append(" exited with status: ");
                    m.append(status);
                    m
                }
            },
        };
        return Err(msg);
    }
    if let Some(e) = state.error_message {
        return Err(e);
    }
    let closing = ClaudeResponse {
        content: String::new(),
        is_complete: true,
        thinking: None,
        tokens_used: if state.total_tokens > 0 {
            Some(state.total_tokens)
        } else {
            None
        },
    };
    let result = ClaudeResult { response: trimmed(state.response.as_str()), session_id: state.session_id };
    Ok((result, closing))
}

/// The answer text that one line of output streams.
pub open spec fn line_text(line: Seq<char>) -> Seq<char> {
    match json_of(line) {
        Some(f) => frame_text(f),
        None => Seq::empty(),
    }
}

/// The answer text that a run of lines streams: the `text` items of its assistant
/// frames, in order.
pub open spec fn streamed_text(lines: Seq<Seq<char>>) -> Seq<char>
    decreases lines.len(),
{
    if lines.len() == 0 {
        Seq::empty()
    } else {
        streamed_text(lines.drop_last()) + line_text(lines.last())
    }
}

/// A line is a `result` frame, not flagged as an error, whose non-empty `result`
/// text would become the answer if nothing had been streamed before it.
pub open spec fn offers_result_text(line: Seq<char>) -> bool {
    match json_of(line) {
        Some(f) => type_of(f) == "result"@ && flag_of(field(f, "is_error"@)) != Some(true)
            && text_field(f, "result"@) is Some && text_field(f, "result"@)->0.len() > 0,
        None => false,
    }
}

/// Every line that offers a result text comes after some streamed text.
pub open spec fn results_follow_text(lines: Seq<Seq<char>>) -> bool {
    forall|i: int|
        0 <= i < lines.len() && offers_result_text(#[trigger] lines[i]) ==> streamed_text(
            lines.take(i),
        ).len() > 0
}

/// The events of a run of lines are those of each line in the order of the lines,
/// and the aggregated answer is the concatenation of the `text` items of the
/// assistant frames, wherever no result text is adopted before any text streamed.
pub proof fn lemma_aggregate_is_streamed_text(lines: Seq<Seq<char>>)
    requires
        results_follow_text(lines),
    ensures
        lines_state(lines).response == streamed_text(lines),
        lines.len() > 0 ==> lines_events(lines) == lines_events(lines.drop_last()) + line_events(
            lines.last(),
        ),
    decreases lines.len(),
{
    if lines.len() > 0 {
        let prefix = lines.drop_last();
        assert forall|i: int|
            0 <= i < prefix.len() && offers_result_text(#[trigger] prefix[i]) implies streamed_text(
            prefix.take(i),
        ).len() > 0 by {
            assert(prefix.take(i) =~= lines.take(i));
            assert(prefix[i] == lines[i]);
        }
        lemma_aggregate_is_streamed_text(prefix);
        lemma_frame_kinds_differ();
        let last = lines.last();
        assert(lines.take(lines.len() - 1) =~= prefix);
        if offers_result_text(last) {
            assert(offers_result_text(lines[lines.len() - 1]));
        }
    }
}

/// A `result` frame flagged as an error makes the turn fail with its text, whatever
/// the exit status.
pub proof fn lemma_error_result_fails(
    s: StreamModel,
    frame: JsonValue,
    assistant: Seq<char>,
    exited_ok: bool,
    stderr: Seq<char>,
    status: Seq<char>,
)
    requires
        type_of(frame) == "result"@,
        flag_of(field(frame, "is_error"@)) == Some(true),
        text_field(frame, "result"@) is Some,
    ensures
        turn_outcome(step(s, frame), assistant, exited_ok, stderr, status) == Err::<
            (Seq<char>, Option<Seq<char>>, ResponseModel),
            Seq<char>,
        >(text_field(frame, "result"@)->0),
{
    lemma_frame_kinds_differ();
}

/// A frame that records an error in the turn's state.
pub open spec fn reports_error(frame: JsonValue) -> bool {
    let t = type_of(frame);
    if t == "error"@ {
        true
    } else if t == "system"@ {
        text_field(frame, "message"@) is Some && system_reports_error(text_field(frame, "message"@)->0)
    } else if t == "result"@ {
        flag_of(field(frame, "is_error"@)) == Some(true) && text_field(frame, "result"@) is Some
    } else {
        false
    }
}

pub open spec fn line_reports_error(line: Seq<char>) -> bool {
    match json_of(line) {
        Some(f) => reports_error(f),
        None => false,
    }
}

/// A stream without error frames, from an assistant that exits with success, gives
/// a successful turn whose text is the trimmed aggregate: the streamed text where
/// some was streamed and no result text came before it.
pub proof fn lemma_clean_turn_succeeds(
    lines: Seq<Seq<char>>,
    assistant: Seq<char>,
    stderr: Seq<char>,
    status: Seq<char>,
)
    requires
        forall|i: int| 0 <= i < lines.len() ==> !line_reports_error(#[trigger] lines[i]),
    ensures
        lines_state(lines).error_message is None,
        turn_outcome(lines_state(lines), assistant, true, stderr, status) == Ok::<
            (Seq<char>, Option<Seq<char>>, ResponseModel),
            Seq<char>,
        >(
            (
                trim_of(lines_state(lines).response),
                lines_state(lines).session_id,
                completion(lines_state(lines).total_tokens),
            ),
        ),
        results_follow_text(lines) ==> turn_outcome(lines_state(lines), assistant, true, stderr, status)
            is Ok && turn_outcome(lines_state(lines), assistant, true, stderr, status)->Ok_0.0 == trim_of(
            streamed_text(lines),
        ),
    decreases lines.len(),
{
    if lines.len() > 0 {
        let prefix = lines.drop_last();
        assert forall|i: int| 0 <= i < prefix.len() implies !line_reports_error(
            #[trigger] prefix[i],
        ) by {
            assert(prefix[i] == lines[i]);
        }
        lemma_clean_turn_succeeds(prefix, assistant, stderr, status);
        lemma_frame_kinds_differ();
        assert(!line_reports_error(lines[lines.len() - 1]));
    }
    if results_follow_text(lines) {
        lemma_aggregate_is_streamed_text(lines);
    }
}

/// The `result` text that a run of lines makes the answer where nothing else has
/// been: the first non-empty one of a frame not flagged as an error.
pub open spec fn adopted_text(lines: Seq<Seq<char>>) -> Seq<char>
    decreases lines.len(),
{
    if lines.len() == 0 {
        Seq::empty()
    } else {
        let prior = adopted_text(lines.drop_last());
        if prior.len() == 0 && offers_result_text(lines.last()) {
            text_field(json_of(lines.last())->0, "result"@)->0
        } else {
            prior
        }
    }
}

/// Where no text is streamed, the aggregated answer is the first `result` text.
pub proof fn lemma_unstreamed_answer_is_result(lines: Seq<Seq<char>>)
    requires
        streamed_text(lines).len() == 0,
    ensures
        lines_state(lines).response == adopted_text(lines),
    decreases lines.len(),
{
    if lines.len() > 0 {
        let prefix = lines.drop_last();
        assert(streamed_text(lines) == streamed_text(prefix) + line_text(lines.last()));
        assert(streamed_text(prefix).len() == 0);
        assert(line_text(lines.last()).len() == 0);
        lemma_unstreamed_answer_is_result(prefix);
        lemma_frame_kinds_differ();
        assert(line_text(lines.last()) =~= Seq::<char>::empty());
    }
}

/// A clean turn with no streamed text answers with the trimmed `result` text.
pub proof fn lemma_clean_unstreamed_turn(
    lines: Seq<Seq<char>>,
    assistant: Seq<char>,
    stderr: Seq<char>,
    status: Seq<char>,
)
    requires
        forall|i: int| 0 <= i < lines.len() ==> !line_reports_error(#[trigger] lines[i]),
        streamed_text(lines).len() == 0,
    ensures
        turn_outcome(lines_state(lines), assistant, true, stderr, status) is Ok,
        turn_outcome(lines_state(lines), assistant, true, stderr, status)->Ok_0.0 == trim_of(
            adopted_text(lines),
        ),
{
    lemma_clean_turn_succeeds(lines, assistant, stderr, status);
    lemma_unstreamed_answer_is_result(lines);
}

/// Fed only assistant frames, the interpreter's answer is the concatenation of
/// their `text` items, in the order of the lines.
pub proof fn lemma_assistant_lines_aggregate(lines: Seq<Seq<char>>)
    requires
        forall|i: int|
            0 <= i < lines.len() ==> json_of(#[trigger] lines[i]) is Some && type_of(
                json_of(lines[i])->0,
            ) == "assistant"@,
    ensures
        lines_state(lines).response == streamed_text(lines),
{
    lemma_frame_kinds_differ();
    assert forall|i: int| 0 <= i < lines.len() && offers_result_text(#[trigger] lines[i]) implies streamed_text(
        lines.take(i),
    ).len() > 0 by {
        assert(type_of(json_of(lines[i])->0) == "assistant"@);
    }
    lemma_aggregate_is_streamed_text(lines);
}

} // verus!
