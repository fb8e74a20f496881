//! Model configuration, messages, tool calls and the error taxonomy.
//!
//! A provider is reached through one of the wire formats of [`LlmWireFormat`].
//! [`LlmError`] keeps apart the failures that a failover layer treats differently.
use vstd::prelude::*;

use crate::json::{compact, is_plain, json_read, parse, Json, Tree, MAX_DEPTH};
use crate::text::{
    ascii_lowered, begins, concat2, concat3, concat4, copy_of, decimal, decimal_text, is_blank,
    is_digit, leading_digits, lemma_decimal_value, lemma_leading_digits, lemma_trimmed_blank,
    occurs, occurs_at, parse_unsigned, strip_prefix, take_digits, to_ascii_lower, trim, trimmed,
    unsigned_value,
};

verus! {

/// Timeout of a whole request, in milliseconds, where none is configured.
pub const DEFAULT_REQUEST_TIMEOUT_MS: u64 = 60_000;

/// Timeout of the connection phase, in milliseconds, where none is configured.
pub const DEFAULT_CONNECT_TIMEOUT_MS: u64 = 10_000;

/// Output tokens per completion, where none are configured.
pub const DEFAULT_MAX_TOKENS: u32 = 4096;

/// How often a completion that the token limit cut off is continued.
pub const DEFAULT_MAX_CONTINUATIONS: u32 = 3;

/// Bytes of text after which a completion is not continued any more, and to which
/// it is cut.
pub const MAX_CONTINUATION_OUTPUT_CHARS: usize = 64_000;

/// A span of time in whole milliseconds.
#[derive(Debug, Clone, Copy, PartialEq, Eq, Structural)]
pub struct TimeSpan {
    /// Whole seconds.
    pub secs: u64,
    /// Milliseconds beyond them, fewer than a thousand.
    pub millis: u32,
}

impl TimeSpan {
    /// The span of `ms` milliseconds.
    pub fn from_millis(ms: u64) -> (r: Self)
        ensures
            r.secs * 1000 + r.millis == ms,
            r.millis < 1000,
    {
        TimeSpan { secs: ms / 1000, millis: (ms % 1000) as u32 }
    }

    /// The span of `secs` seconds.
    pub fn from_secs(secs: u64) -> (r: Self)
        ensures
            r == (TimeSpan { secs, millis: 0 }),
    {
        TimeSpan { secs, millis: 0 }
    }
}

/// The number of continuation rounds that a setting asks for: the number it writes,
/// zero included, else [`DEFAULT_MAX_CONTINUATIONS`].
pub open spec fn continuations_setting(value: Option<Seq<char>>) -> nat {
    match value {
        Some(s) => match unsigned_value(trimmed(s), u32::MAX as nat) {
            Some(n) => n,
            None => DEFAULT_MAX_CONTINUATIONS as nat,
        },
        None => DEFAULT_MAX_CONTINUATIONS as nat,
    }
}

/// Reads the number of continuation rounds from the value of its setting.
pub fn max_continuations(value: Option<&str>) -> (r: u32)
    ensures
        r == continuations_setting(
            match value {
                Some(s) => Some(s@),
                None => None,
            },
        ),
{
    match value {
        Some(s) => match parse_unsigned(trim(s).as_str(), u32::MAX as u64) {
            Some(n) => n as u32,
            None => DEFAULT_MAX_CONTINUATIONS,
        },
        None => DEFAULT_MAX_CONTINUATIONS,
    }
}

// ---------------------------------------------------------------------------
// Finish reason
// ---------------------------------------------------------------------------

/// Why the model stopped generating.
#[derive(Debug, Clone, PartialEq, Eq)]
pub enum FinishReason {
    /// The response is complete.
    Stop,
    /// The token limit cut the response off.
    Length,
    /// The model chose to call tools.
    ToolCalls,
    /// A value of the provider's own, treated like [`FinishReason::Stop`].
    Other(String),
}

impl FinishReason {
    /// The reason that the chat-completions vocabulary names. An absent value means
    /// [`FinishReason::Stop`].
    pub fn from_wire(raw: Option<&str>) -> (r: Self)
        ensures
            match raw {
                None => r is Stop,
                Some(w) => {
                    &&& w@ == "stop"@ ==> r is Stop
                    &&& w@ == "length"@ ==> r is Length
                    &&& w@ == "tool_calls"@ ==> r is ToolCalls
                    &&& w@ != "stop"@ && w@ != "length"@ && w@ != "tool_calls"@ ==> r is Other
                        && r->Other_0@ == w@
                },
            },
    {
        proof {
            reveal_strlit("stop");
            reveal_strlit("length");
            reveal_strlit("tool_calls");
            assert("stop"@.len() != "length"@.len());
            assert("stop"@.len() != "tool_calls"@.len());
            assert("length"@.len() != "tool_calls"@.len());
        }
        match raw {
            None => FinishReason::Stop,
            Some(w) => if crate::text::same(w, "stop") {
                FinishReason::Stop
            } else if crate::text::same(w, "length") {
                FinishReason::Length
            } else if crate::text::same(w, "tool_calls") {
                FinishReason::ToolCalls
            } else {
                FinishReason::Other(copy_of(w))
            },
        }
    }

    /// The reason that Gemini's vocabulary names. An absent value means
    /// [`FinishReason::Stop`].
    pub fn from_gemini_wire(raw: Option<&str>) -> (r: Self)
        ensures
            match raw {
                None => r is Stop,
                Some(w) => {
                    &&& w@ == "STOP"@ ==> r is Stop
                    &&& w@ == "MAX_TOKENS"@ ==> r is Length
                    &&& w@ != "STOP"@ && w@ != "MAX_TOKENS"@ ==> r is Other && r->Other_0@ == w@
                },
            },
    {
        proof {
            reveal_strlit("STOP");
            reveal_strlit("MAX_TOKENS");
            assert("STOP"@.len() != "MAX_TOKENS"@.len());
        }
        match raw {
            None => FinishReason::Stop,
            Some(w) => if crate::text::same(w, "STOP") {
                FinishReason::Stop
            } else if crate::text::same(w, "MAX_TOKENS") {
                FinishReason::Length
            } else {
                FinishReason::Other(copy_of(w))
            },
        }
    }

    /// Did the token limit cut the response off? Nothing else asks for a continuation.
    pub fn is_length(&self) -> (r: bool)
        ensures
            r == (self is Length),
    {
        match self {
            FinishReason::Length => true,
            _ => false,
        }
    }
}

// ---------------------------------------------------------------------------
// Wire format and configuration
// ---------------------------------------------------------------------------

/// The request and response shape that a provider speaks.
#[derive(Debug, Clone, Copy, PartialEq, Eq, Structural)]
pub enum LlmWireFormat {
    /// OpenAI-compatible chat completions: text, streaming and tools.
    OpenAiChat,
    /// Google Gemini `generateContent`: text only.
    GeminiGenerate,
    /// Anthropic messages: not implemented.
    AnthropicMessages,
    /// AWS Bedrock: not implemented.
    Bedrock,
}

impl Default for LlmWireFormat {
    fn default() -> (r: Self)
        ensures
            r == LlmWireFormat::OpenAiChat,
    {
        LlmWireFormat::OpenAiChat
    }
}

impl LlmWireFormat {
    /// The stable one-word tag.
    pub open spec fn word(self) -> Seq<char> {
        match self {
            LlmWireFormat::OpenAiChat => "openai_chat"@,
            LlmWireFormat::GeminiGenerate => "gemini_generate"@,
            LlmWireFormat::AnthropicMessages => "anthropic_messages"@,
            LlmWireFormat::Bedrock => "bedrock"@,
        }
    }

    /// The stable one-word tag, for logs and errors.
    pub fn as_word(self) -> (r: &'static str)
        ensures
            r@ == self.word(),
    {
        match self {
            LlmWireFormat::OpenAiChat => "openai_chat",
            LlmWireFormat::GeminiGenerate => "gemini_generate",
            LlmWireFormat::AnthropicMessages => "anthropic_messages",
            LlmWireFormat::Bedrock => "bedrock",
        }
    }
}

/// How to reach one model.
#[derive(Debug, Clone)]
pub struct LlmConfig {
    /// Root of the provider's API.
    pub api_base: String,
    /// API key.
    pub api_key: String,
    /// Model name.
    pub model: String,
    /// Output tokens per completion.
    pub max_tokens: u32,
    /// Wire format spoken at `api_base`.
    pub wire_format: LlmWireFormat,
    /// Timeout of a whole request in milliseconds.
    pub request_timeout_ms: Option<u64>,
    /// Timeout of the connection phase in milliseconds.
    pub connect_timeout_ms: Option<u64>,
}

impl LlmConfig {
    /// A configuration with the default token limit, wire format and timeouts.
    pub fn new(api_base: &str, api_key: &str, model: &str) -> (r: Self)
        ensures
            r.api_base@ == api_base@,
            r.api_key@ == api_key@,
            r.model@ == model@,
            r.max_tokens == DEFAULT_MAX_TOKENS,
            r.wire_format == LlmWireFormat::OpenAiChat,
            r.request_timeout_ms is None,
            r.connect_timeout_ms is None,
    {
        LlmConfig {
            api_base: copy_of(api_base),
            api_key: copy_of(api_key),
            model: copy_of(model),
            max_tokens: DEFAULT_MAX_TOKENS,
            wire_format: LlmWireFormat::OpenAiChat,
            request_timeout_ms: None,
            connect_timeout_ms: None,
        }
    }

    /// Sets the token limit.
    pub fn with_max_tokens(self, max_tokens: u32) -> (r: Self)
        ensures
            r == (LlmConfig { max_tokens, ..self }),
    {
        LlmConfig { max_tokens, ..self }
    }

    /// Sets the wire format.
    pub fn with_wire_format(self, wire_format: LlmWireFormat) -> (r: Self)
        ensures
            r == (LlmConfig { wire_format, ..self }),
    {
        LlmConfig { wire_format, ..self }
    }

    /// Sets the timeout of a whole request.
    pub fn with_request_timeout_ms(self, ms: u64) -> (r: Self)
        ensures
            r == (LlmConfig { request_timeout_ms: Some(ms), ..self }),
    {
        LlmConfig { request_timeout_ms: Some(ms), ..self }
    }

    /// Sets the timeout of the connection phase.
    pub fn with_connect_timeout_ms(self, ms: u64) -> (r: Self)
        ensures
            r == (LlmConfig { connect_timeout_ms: Some(ms), ..self }),
    {
        LlmConfig { connect_timeout_ms: Some(ms), ..self }
    }

    /// The request timeout in force.
    pub fn request_timeout(&self) -> (r: TimeSpan)
        ensures
            r.millis < 1000,
            r.secs * 1000 + r.millis == match self.request_timeout_ms {
                Some(ms) => ms,
                None => DEFAULT_REQUEST_TIMEOUT_MS,
            },
    {
        TimeSpan::from_millis(
            match self.request_timeout_ms {
                Some(ms) => ms,
                None => DEFAULT_REQUEST_TIMEOUT_MS,
            },
        )
    }

    /// The connection timeout in force.
    pub fn connect_timeout(&self) -> (r: TimeSpan)
        ensures
            r.millis < 1000,
            r.secs * 1000 + r.millis == match self.connect_timeout_ms {
                Some(ms) => ms,
                None => DEFAULT_CONNECT_TIMEOUT_MS,
            },
    {
        TimeSpan::from_millis(
            match self.connect_timeout_ms {
                Some(ms) => ms,
                None => DEFAULT_CONNECT_TIMEOUT_MS,
            },
        )
    }
}

// ---------------------------------------------------------------------------
// Messages and tool calls
// ---------------------------------------------------------------------------

/// Who speaks in a message.
#[derive(Debug, Clone, Copy, PartialEq, Eq, Structural)]
pub enum LlmRole {
    /// Instruction to the model.
    System,
    /// The user.
    User,
    /// The model.
    Assistant,
    /// The result of a tool.
    Tool,
}

/// A tool call that the model asks for.
#[derive(Debug, PartialEq)]
pub struct ToolCall {
    /// Identifier that the result refers to.
    pub id: String,
    /// Name of the tool.
    pub name: String,
    /// Arguments of the call.
    pub arguments: Json,
}

/// The mathematical value of a [`ToolCall`].
pub struct CallView {
    pub id: Seq<char>,
    pub name: Seq<char>,
    pub arguments: Tree,
}

impl View for ToolCall {
    type V = CallView;

    open spec fn view(&self) -> CallView {
        CallView { id: self.id@, name: self.name@, arguments: self.arguments@ }
    }
}

impl ToolCall {
    /// A copy of the call.
    pub fn copy(&self) -> (r: ToolCall)
        ensures
            r@ == self@,
    {
        ToolCall {
            id: copy_of(self.id.as_str()),
            name: copy_of(self.name.as_str()),
            arguments: self.arguments.copy(),
        }
    }
}

/// The values of a list of calls.
pub open spec fn calls_view(calls: Seq<ToolCall>) -> Seq<CallView> {
    calls.map_values(|c: ToolCall| c@)
}

/// A copy of a list of calls.
pub fn copy_calls(calls: &Vec<ToolCall>) -> (r: Vec<ToolCall>)
    ensures
        calls_view(r@) == calls_view(calls@),
        r@.len() == calls@.len(),
{
    let mut out: Vec<ToolCall> = Vec::new();
    let mut i: usize = 0;
    while i < calls.len()
        invariant
            i <= calls@.len(),
            out@.len() == i,
            forall|k: int| 0 <= k < i ==> out@[k]@ == (#[trigger] calls@[k])@,
        decreases calls@.len() - i,
    {
        out.push(calls[i].copy());
        i += 1;
    }
    assert(calls_view(out@) =~= calls_view(calls@));
    out
}

/// One message of a conversation with the model.
#[derive(Debug, PartialEq)]
pub struct LlmMessage {
    /// Who speaks.
    pub role: LlmRole,
    /// What is said.
    pub content: String,
    /// The call that a tool result answers.
    pub tool_call_id: Option<String>,
    /// The calls that an assistant message asks for.
    pub tool_calls: Option<Vec<ToolCall>>,
}

/// The mathematical value of an [`LlmMessage`].
pub struct MessageView {
    pub role: LlmRole,
    pub content: Seq<char>,
    pub tool_call_id: Option<Seq<char>>,
    pub tool_calls: Option<Seq<CallView>>,
}

/// The text inside, where there is one.
pub open spec fn opt_view(s: Option<String>) -> Option<Seq<char>> {
    match s {
        Some(t) => Some(t@),
        None => None,
    }
}

/// The calls inside, where there are some.
pub open spec fn opt_calls_view(c: Option<Vec<ToolCall>>) -> Option<Seq<CallView>> {
    match c {
        Some(v) => Some(calls_view(v@)),
        None => None,
    }
}

impl View for LlmMessage {
    type V = MessageView;

    open spec fn view(&self) -> MessageView {
        MessageView {
            role: self.role,
            content: self.content@,
            tool_call_id: opt_view(self.tool_call_id),
            tool_calls: opt_calls_view(self.tool_calls),
        }
    }
}

/// A message that carries nothing but a text.
pub open spec fn plain_message(role: LlmRole, content: Seq<char>) -> MessageView {
    MessageView { role, content, tool_call_id: None, tool_calls: None }
}

/// A message that answers the call `id`.
pub open spec fn tool_message(id: Seq<char>, content: Seq<char>) -> MessageView {
    MessageView { role: LlmRole::Tool, content, tool_call_id: Some(id), tool_calls: None }
}

/// A copy of an optional text.
pub fn copy_opt(s: &Option<String>) -> (r: Option<String>)
    ensures
        opt_view(r) == opt_view(*s),
{
    match s {
        Some(t) => Some(copy_of(t.as_str())),
        None => None,
    }
}

/// A copy of an optional list of calls.
pub fn copy_opt_calls(c: &Option<Vec<ToolCall>>) -> (r: Option<Vec<ToolCall>>)
    ensures
        opt_calls_view(r) == opt_calls_view(*c),
{
    match c {
        Some(v) => Some(copy_calls(v)),
        None => None,
    }
}

impl LlmMessage {
    /// A system message.
    pub fn system(content: &str) -> (r: Self)
        ensures
            r@ == plain_message(LlmRole::System, content@),
    {
        LlmMessage {
            role: LlmRole::System,
            content: copy_of(content),
            tool_call_id: None,
            tool_calls: None,
        }
    }

    /// A user message.
    pub fn user(content: &str) -> (r: Self)
        ensures
            r@ == plain_message(LlmRole::User, content@),
    {
        LlmMessage {
            role: LlmRole::User,
            content: copy_of(content),
            tool_call_id: None,
            tool_calls: None,
        }
    }

    /// An assistant message.
    pub fn assistant(content: &str) -> (r: Self)
        ensures
            r@ == plain_message(LlmRole::Assistant, content@),
    {
        LlmMessage {
            role: LlmRole::Assistant,
            content: copy_of(content),
            tool_call_id: None,
            tool_calls: None,
        }
    }

    /// The result of the tool call `id`.
    pub fn tool_result(id: &str, content: &str) -> (r: Self)
        ensures
            r@ == tool_message(id@, content@),
    {
        LlmMessage {
            role: LlmRole::Tool,
            content: copy_of(content),
            tool_call_id: Some(copy_of(id)),
            tool_calls: None,
        }
    }

    /// The message with `calls` as its tool calls.
    pub fn with_tool_calls(self, calls: Vec<ToolCall>) -> (r: Self)
        ensures
            r == (LlmMessage { tool_calls: Some(calls), ..self }),
            r@ == (MessageView { tool_calls: Some(calls_view(calls@)), ..self@ }),
    {
        LlmMessage {
            role: self.role,
            content: self.content,
            tool_call_id: self.tool_call_id,
            tool_calls: Some(calls),
        }
    }

    /// Does the message ask for at least one tool call?
    pub fn has_tool_calls(&self) -> (r: bool)
        ensures
            r == (self.tool_calls is Some && self.tool_calls->Some_0@.len() > 0),
    {
        match &self.tool_calls {
            Some(c) => c.len() > 0,
            None => false,
        }
    }

    /// A copy of the message.
    pub fn copy(&self) -> (r: LlmMessage)
        ensures
            r@ == self@,
    {
        LlmMessage {
            role: self.role,
            content: copy_of(self.content.as_str()),
            tool_call_id: copy_opt(&self.tool_call_id),
            tool_calls: copy_opt_calls(&self.tool_calls),
        }
    }
}

/// The values of a list of messages.
pub open spec fn messages_view(ms: Seq<LlmMessage>) -> Seq<MessageView> {
    ms.map_values(|m: LlmMessage| m@)
}

/// A copy of a list of messages.
pub fn copy_messages(ms: &[LlmMessage]) -> (r: Vec<LlmMessage>)
    ensures
        messages_view(r@) == messages_view(ms@),
        r@.len() == ms@.len(),
{
    let mut out: Vec<LlmMessage> = Vec::new();
    let mut i: usize = 0;
    while i < ms.len()
        invariant
            i <= ms@.len(),
            out@.len() == i,
            forall|k: int| 0 <= k < i ==> out@[k]@ == (#[trigger] ms@[k])@,
        decreases ms@.len() - i,
    {
        out.push(ms[i].copy());
        i += 1;
    }
    assert(messages_view(out@) =~= messages_view(ms@));
    out
}

/// The arguments of a tool call as they stand on the wire: JSON text, or, from some
/// providers, a bare JSON value.
#[derive(Debug, PartialEq)]
pub enum ArgumentsWire {
    /// JSON text.
    Str(String),
    /// A bare value.
    Value(Json),
}

/// What wire arguments mean: blank text is an empty object, other text is read as
/// JSON, a bare value is itself.
pub open spec fn arguments_meaning(w: ArgumentsWire) -> Result<Tree, Seq<char>> {
    match w {
        ArgumentsWire::Str(s) => if is_blank(s@) {
            Ok(Tree::Object(Seq::empty()))
        } else {
            json_read(s@)
        },
        ArgumentsWire::Value(v) => Ok(v@),
    }
}

impl ArgumentsWire {
    /// The arguments as a value, or the text of the JSON error. Plain arguments come back as
    /// they were written.
    pub fn into_value(self) -> (r: Result<Json, String>)
        ensures
            match r {
                Ok(j) => arguments_meaning(self) == Ok::<Tree, Seq<char>>(j@),
                Err(e) => arguments_meaning(self) == Err::<Tree, Seq<char>>(e@),
            },
            forall|t: Tree|
                is_plain(t, MAX_DEPTH as nat) && self is Str && self->Str_0@ == #[trigger] compact(t)
                    ==> r is Ok && r->Ok_0@ == t,
    {
        match self {
            ArgumentsWire::Str(s) => match parse(s.as_str()) {
                Ok(j) => Ok(j),
                Err(e) => {
                    proof {
                        lemma_trimmed_blank(s@);
                    }
                    if trim(s.as_str()).as_str().is_empty() {
                        let r = Json::Object(Vec::new());
                        assert(r@->Object_0 =~= Seq::empty());
                        Ok(r)
                    } else {
                        Err(e)
                    }
                },
            },
            ArgumentsWire::Value(v) => Ok(v),
        }
    }
}

/// A tool call as it stands on the wire.
#[derive(Debug, PartialEq)]
pub struct ToolCallWire {
    /// Identifier that the result refers to.
    pub id: String,
    /// The kind of tool.
    pub kind: String,
    /// Name of the function.
    pub name: String,
    /// Arguments of the function.
    pub arguments: ArgumentsWire,
}

impl ToolCall {
    /// The call for the wire: a function, with its arguments as JSON text.
    pub fn to_wire(&self) -> (r: ToolCallWire)
        ensures
            r.id@ == self.id@,
            r.kind@ == "function"@,
            r.name@ == self.name@,
            r.arguments is Str,
            r.arguments->Str_0@ == compact(self.arguments@),
    {
        ToolCallWire {
            id: copy_of(self.id.as_str()),
            kind: copy_of("function"),
            name: copy_of(self.name.as_str()),
            arguments: ArgumentsWire::Str(self.arguments.to_text()),
        }
    }

    /// The call that stands on the wire, whatever its kind, or the text of the JSON error of
    /// its arguments. A call with plain arguments comes back from the wire as it went out.
    pub fn from_wire(wire: ToolCallWire) -> (r: Result<ToolCall, String>)
        ensures
            match r {
                Ok(c) => c.id@ == wire.id@ && c.name@ == wire.name@ && arguments_meaning(
                    wire.arguments,
                ) == Ok::<Tree, Seq<char>>(c.arguments@),
                Err(e) => arguments_meaning(wire.arguments) == Err::<Tree, Seq<char>>(e@),
            },
            forall|t: Tree|
                is_plain(t, MAX_DEPTH as nat) && wire.arguments is Str && wire.arguments->Str_0@
                    == #[trigger] compact(t) ==> r is Ok && r->Ok_0.arguments@ == t,
    {
        match wire.arguments.into_value() {
            Ok(arguments) => Ok(ToolCall { id: wire.id, name: wire.name, arguments }),
            Err(e) => Err(e),
        }
    }
}

/// A tool that the model may call.
#[derive(Debug, PartialEq)]
pub struct ToolDefinition {
    /// Name by which the model calls the tool.
    pub name: String,
    /// What the tool does.
    pub description: String,
    /// JSON Schema of the arguments.
    pub input_schema: Json,
}

/// A character that a tool name may hold.
pub open spec fn is_name_char(c: char) -> bool {
    ||| 'a' <= c <= 'z'
    ||| 'A' <= c <= 'Z'
    ||| '0' <= c <= '9'
    ||| c == '_'
    ||| c == '-'
}

/// `^[A-Za-z0-9_-]{1,64}$`
pub open spec fn is_tool_name(s: Seq<char>) -> bool {
    &&& 1 <= s.len() <= 64
    &&& forall|i: int| 0 <= i < s.len() ==> is_name_char(#[trigger] s[i])
}

/// Does the text match `^[A-Za-z0-9_-]{1,64}$`?
pub fn valid_tool_name(name: &str) -> (r: bool)
    ensures
        r == is_tool_name(name@),
{
    let cs = crate::text::chars_of(name);
    if cs.len() == 0 || cs.len() > 64 {
        return false;
    }
    let mut i: usize = 0;
    while i < cs.len()
        invariant
            cs@ == name@,
            i <= cs@.len(),
            forall|k: int| 0 <= k < i ==> is_name_char(#[trigger] name@[k]),
        decreases cs@.len() - i,
    {
        let c = cs[i];
        if !(('a' <= c && c <= 'z') || ('A' <= c && c <= 'Z') || ('0' <= c && c <= '9') || c == '_'
            || c == '-') {
            assert(!is_name_char(name@[i as int]));
            return false;
        }
        i += 1;
    }
    true
}

/// How Rust's debug format writes a string: in quotation marks, with escapes.
pub uninterp spec fn debug_text(s: Seq<char>) -> Seq<char>;

/// `format!` with `{:?}` on a string writes it in quotation marks, with escapes. The
/// result depends on the string alone.
#[verifier::external_body]
fn debug_of(s: &str) -> (r: String)
    ensures
        r@ == debug_text(s@),
{
    format!("{:?}", s)
}

/// What is wrong with a definition: its name does not match `^[A-Za-z0-9_-]{1,64}$`,
/// or its schema is no object.
pub open spec fn tool_fault(d: ToolDefinition) -> Option<Seq<char>> {
    if !is_tool_name(d.name@) {
        Some("tool name "@ + debug_text(d.name@) + " must match ^[A-Za-z0-9_-]{1,64}$"@)
    } else if !(d.input_schema@ is Object) {
        Some("tool "@ + debug_text(d.name@) + " input_schema root must be a JSON object"@)
    } else {
        None
    }
}

impl ToolDefinition {
    /// Is the definition fit to be offered to a model? Its name has to match
    /// `^[A-Za-z0-9_-]{1,64}$` and its schema has to be a JSON object.
    pub fn validate(&self) -> (r: Result<(), LlmError>)
        ensures
            match r {
                Ok(_) => tool_fault(*self) is None,
                Err(e) => e is InvalidTool && tool_fault(*self) == Some(e->InvalidTool_0@),
            },
    {
        if !valid_tool_name(self.name.as_str()) {
            return Err(
                LlmError::InvalidTool(
                    concat3(
                        "tool name ",
                        debug_of(self.name.as_str()).as_str(),
                        " must match ^[A-Za-z0-9_-]{1,64}$",
                    ),
                ),
            );
        }
        if !self.input_schema.is_object() {
            return Err(
                LlmError::InvalidTool(
                    concat3(
                        "tool ",
                        debug_of(self.name.as_str()).as_str(),
                        " input_schema root must be a JSON object",
                    ),
                ),
            );
        }
        Ok(())
    }
}

/// What the model answered.
#[derive(Debug, PartialEq)]
pub struct CompletionResult {
    /// Text, if any.
    pub content: Option<String>,
    /// Tool calls, if any.
    pub tool_calls: Option<Vec<ToolCall>>,
}

impl CompletionResult {
    /// Did the model ask for at least one tool call?
    pub fn has_tool_calls(&self) -> (r: bool)
        ensures
            r == (self.tool_calls is Some && self.tool_calls->Some_0@.len() > 0),
    {
        match &self.tool_calls {
            Some(c) => c.len() > 0,
            None => false,
        }
    }

    /// The text, or an empty one.
    pub fn text(&self) -> (r: &str)
        ensures
            r@ == match self.content {
                Some(s) => s@,
                None => Seq::empty(),
            },
    {
        match &self.content {
            Some(s) => s.as_str(),
            None => {
                proof {
                    reveal_strlit("");
                    assert(""@ =~= Seq::empty());
                }
                ""
            },
        }
    }
}

// ---------------------------------------------------------------------------
// Errors
// ---------------------------------------------------------------------------

/// What went wrong with a request.
#[derive(Debug, Clone)]
pub enum LlmError {
    /// The request failed, or a status without a class of its own came back.
    Http(String),
    /// The request or the connection timed out.
    Timeout(String),
    /// The provider limits the rate.
    RateLimited {
        /// Context for logs.
        message: String,
        /// Seconds that the provider asks to wait.
        retry_after: Option<u64>,
    },
    /// The key is invalid or out of credit.
    AuthFailed(String),
    /// The provider is overloaded.
    Overloaded(String),
    /// The model or the endpoint does not exist any more.
    NotFound(String),
    /// The response could not be read.
    Parse(String),
    /// The response held nothing.
    NoContent,
    /// A tool definition is malformed.
    InvalidTool(String),
}

/// The class of an [`LlmError`], which carries nothing that a provider sent.
#[derive(Debug, Clone, Copy, PartialEq, Eq, Structural)]
pub enum LlmFailureClass {
    RateLimited,
    AuthFailed,
    Overloaded,
    ProviderNotFound,
    Timeout,
    Http,
    NoContent,
    Parse,
    InvalidTool,
}

impl LlmFailureClass {
    /// The stable one-word tag.
    pub open spec fn word(self) -> Seq<char> {
        match self {
            LlmFailureClass::RateLimited => "rate_limited"@,
            LlmFailureClass::AuthFailed => "auth_failed"@,
            LlmFailureClass::Overloaded => "overloaded"@,
            LlmFailureClass::ProviderNotFound => "provider_not_found"@,
            LlmFailureClass::Timeout => "timeout"@,
            LlmFailureClass::Http => "http_error"@,
            LlmFailureClass::NoContent => "no_content"@,
            LlmFailureClass::Parse => "parse_error"@,
            LlmFailureClass::InvalidTool => "invalid_tool"@,
        }
    }

    /// The stable one-word tag.
    pub fn as_word(self) -> (r: &'static str)
        ensures
            r@ == self.word(),
    {
        match self {
            LlmFailureClass::RateLimited => "rate_limited",
            LlmFailureClass::AuthFailed => "auth_failed",
            LlmFailureClass::Overloaded => "overloaded",
            LlmFailureClass::ProviderNotFound => "provider_not_found",
            LlmFailureClass::Timeout => "timeout",
            LlmFailureClass::Http => "http_error",
            LlmFailureClass::NoContent => "no_content",
            LlmFailureClass::Parse => "parse_error",
            LlmFailureClass::InvalidTool => "invalid_tool",
        }
    }
}

/// A message that says that the model does not exist: it names a model or a function
/// and says that something is missing.
pub open spec fn tells_of_missing_model(detail: Seq<char>) -> bool {
    let lower = ascii_lowered(detail);
    &&& occurs("model"@, lower) || occurs("function id"@, lower)
    &&& occurs("not found"@, lower) || occurs("not_found"@, lower) || occurs(
        "does not exist"@,
        lower,
    ) || occurs("unknown model"@, lower)
}

/// The message of an error that a status code gave.
pub open spec fn status_message(status: u16, detail: Seq<char>) -> Seq<char> {
    "HTTP "@ + decimal(status as nat) + ": "@ + detail
}

/// The status code at the beginning of a message that [`status_message`] wrote.
pub open spec fn status_in(message: Seq<char>) -> Option<nat> {
    if begins("HTTP "@, message) {
        unsigned_value(leading_digits(message.skip(5)), u16::MAX as nat)
    } else {
        None
    }
}

impl LlmError {
    /// Seconds to wait after a rate limit without a `Retry-After`.
    pub const DEFAULT_RATE_LIMIT_COOLDOWN: u64 = 5;

    /// Seconds to wait after an overload.
    pub const DEFAULT_OVERLOAD_COOLDOWN: u64 = 2;

    /// The class of the error.
    pub open spec fn class(self) -> LlmFailureClass {
        match self {
            LlmError::RateLimited { .. } => LlmFailureClass::RateLimited,
            LlmError::AuthFailed(_) => LlmFailureClass::AuthFailed,
            LlmError::Overloaded(_) => LlmFailureClass::Overloaded,
            LlmError::NotFound(_) => LlmFailureClass::ProviderNotFound,
            LlmError::Timeout(_) => LlmFailureClass::Timeout,
            LlmError::Http(_) => LlmFailureClass::Http,
            LlmError::NoContent => LlmFailureClass::NoContent,
            LlmError::Parse(_) => LlmFailureClass::Parse,
            LlmError::InvalidTool(_) => LlmFailureClass::InvalidTool,
        }
    }

    /// The status code that the error carries.
    pub open spec fn status(self) -> Option<nat> {
        match self {
            LlmError::NotFound(m) => status_in(m@),
            LlmError::AuthFailed(m) => status_in(m@),
            LlmError::Overloaded(m) => status_in(m@),
            LlmError::Http(m) => status_in(m@),
            LlmError::RateLimited { message, retry_after } => status_in(message@),
            _ => None,
        }
    }

    /// The only form of the error that a user may see.
    pub open spec fn redacted(self) -> Seq<char> {
        match self.status() {
            Some(code) => "HTTP "@ + decimal(code),
            None => self.class().word(),
        }
    }

    /// May another model of the chain be tried? A response that cannot be read and a
    /// malformed tool would fail the same way again; everything else may be retried.
    pub fn is_retryable(&self) -> (r: bool)
        ensures
            r == !(self is Parse || self is InvalidTool),
    {
        match self {
            LlmError::Parse(_) => false,
            LlmError::InvalidTool(_) => false,
            _ => true,
        }
    }

    /// How long to wait before the same provider is asked again.
    pub fn cooldown_hint(&self) -> (r: Option<TimeSpan>)
        ensures
            r == match *self {
                LlmError::RateLimited { message, retry_after: Some(s) } => Some(
                    TimeSpan { secs: s, millis: 0 },
                ),
                LlmError::RateLimited { message, retry_after: None } => Some(
                    TimeSpan { secs: Self::DEFAULT_RATE_LIMIT_COOLDOWN, millis: 0 },
                ),
                LlmError::Overloaded(_) => Some(
                    TimeSpan { secs: Self::DEFAULT_OVERLOAD_COOLDOWN, millis: 0 },
                ),
                _ => None,
            },
    {
        match self {
            LlmError::RateLimited { message: _, retry_after } => match retry_after {
                Some(s) => Some(TimeSpan::from_secs(*s)),
                None => Some(TimeSpan::from_secs(Self::DEFAULT_RATE_LIMIT_COOLDOWN)),
            },
            LlmError::Overloaded(_) => Some(TimeSpan::from_secs(Self::DEFAULT_OVERLOAD_COOLDOWN)),
            _ => None,
        }
    }

    /// The error that an unsuccessful status code stands for.
    pub fn from_status(status: u16, detail: &str, retry_after: Option<u64>) -> (r: Self)
        ensures
            match r {
                LlmError::RateLimited { message, retry_after: after } => status == 429 && after
                    == retry_after && message@ == status_message(status, detail@),
                LlmError::AuthFailed(m) => (status == 401 || status == 403) && m@
                    == status_message(status, detail@),
                LlmError::Overloaded(m) => (status == 503 || status == 529) && m@
                    == status_message(status, detail@),
                LlmError::NotFound(m) => (status == 404 || (status == 400
                    && tells_of_missing_model(detail@))) && m@ == status_message(status, detail@),
                LlmError::Http(m) => m@ == status_message(status, detail@) && status != 429
                    && status != 401 && status != 403 && status != 503 && status != 529 && status
                    != 404 && !(status == 400 && tells_of_missing_model(detail@)),
                _ => false,
            },
    {
        let message = concat4("HTTP ", decimal_text(status as u64).as_str(), ": ", detail);
        if status == 429 {
            LlmError::RateLimited { message, retry_after }
        } else if status == 401 || status == 403 {
            LlmError::AuthFailed(message)
        } else if status == 503 || status == 529 {
            LlmError::Overloaded(message)
        } else if status == 404 {
            LlmError::NotFound(message)
        } else if status == 400 && Self::looks_like_model_not_found(detail) {
            LlmError::NotFound(message)
        } else {
            LlmError::Http(message)
        }
    }

    /// Does the message say that the model does not exist?
    pub fn looks_like_model_not_found(detail: &str) -> (r: bool)
        ensures
            r == tells_of_missing_model(detail@),
    {
        let lower = to_ascii_lower(detail);
        let mentions_model = crate::text::contains(lower.as_str(), "model")
            || crate::text::contains(lower.as_str(), "function id");
        let mentions_missing = crate::text::contains(lower.as_str(), "not found")
            || crate::text::contains(lower.as_str(), "not_found") || crate::text::contains(
            lower.as_str(),
            "does not exist",
        ) || crate::text::contains(lower.as_str(), "unknown model");
        mentions_model && mentions_missing
    }

    /// The status code that the error carries.
    pub fn http_status_code(&self) -> (r: Option<u16>)
        ensures
            match r {
                Some(code) => self.status() == Some(code as nat),
                None => self.status() is None,
            },
    {
        let message: &str = match self {
            LlmError::NotFound(m) => m.as_str(),
            LlmError::AuthFailed(m) => m.as_str(),
            LlmError::Overloaded(m) => m.as_str(),
            LlmError::Http(m) => m.as_str(),
            LlmError::RateLimited { message, retry_after: _ } => message.as_str(),
            _ => {
                return None;
            },
        };
        proof {
            reveal_strlit("HTTP ");
        }
        match strip_prefix(message, "HTTP ") {
            Some(rest) => {
                match parse_unsigned(take_digits(rest.as_str()).as_str(), u16::MAX as u64) {
                    Some(code) => Some(code as u16),
                    None => None,
                }
            },
            None => None,
        }
    }

    /// The class of the error.
    pub fn failure_class(&self) -> (r: LlmFailureClass)
        ensures
            r == self.class(),
    {
        match self {
            LlmError::RateLimited { .. } => LlmFailureClass::RateLimited,
            LlmError::AuthFailed(_) => LlmFailureClass::AuthFailed,
            LlmError::Overloaded(_) => LlmFailureClass::Overloaded,
            LlmError::NotFound(_) => LlmFailureClass::ProviderNotFound,
            LlmError::Timeout(_) => LlmFailureClass::Timeout,
            LlmError::Http(_) => LlmFailureClass::Http,
            LlmError::NoContent => LlmFailureClass::NoContent,
            LlmError::Parse(_) => LlmFailureClass::Parse,
            LlmError::InvalidTool(_) => LlmFailureClass::InvalidTool,
        }
    }

    /// `HTTP` and the status code where the error carries one, else the word of its
    /// class. Nothing else of the error reaches a user.
    pub fn redacted_status_line(&self) -> (r: String)
        ensures
            r@ == self.redacted(),
    {
        match self.http_status_code() {
            Some(code) => concat2("HTTP ", decimal_text(code as u64).as_str()),
            None => copy_of(self.failure_class().as_word()),
        }
    }

    /// Reads a `Retry-After` header in whole seconds.
    pub fn parse_retry_after(value: Option<&str>) -> (r: Option<u64>)
        ensures
            match value {
                Some(s) => match r {
                    Some(n) => unsigned_value(trimmed(s@), u64::MAX as nat) == Some(n as nat),
                    None => unsigned_value(trimmed(s@), u64::MAX as nat) is None,
                },
                None => r is None,
            },
    {
        match value {
            Some(s) => parse_unsigned(trim(s).as_str(), u64::MAX),
            None => None,
        }
    }

    /// The error as text, for logs.
    pub open spec fn text(self) -> Seq<char> {
        match self {
            LlmError::Http(m) => "HTTP error: "@ + m@,
            LlmError::Timeout(m) => "Timeout error: "@ + m@,
            LlmError::RateLimited { message, retry_after } => match retry_after {
                Some(s) => "Rate limited (retry after "@ + decimal(s as nat) + "s): "@ + message@,
                None => "Rate limited: "@ + message@,
            },
            LlmError::AuthFailed(m) => "Auth failed: "@ + m@,
            LlmError::Overloaded(m) => "Provider overloaded: "@ + m@,
            LlmError::NotFound(m) => "Model/provider not found: "@ + m@,
            LlmError::Parse(m) => "Parse error: "@ + m@,
            LlmError::NoContent => "No content in response"@,
            LlmError::InvalidTool(m) => "Invalid tool definition: "@ + m@,
        }
    }

    /// The error as text, for logs.
    pub fn to_text(&self) -> (r: String)
        ensures
            r@ == self.text(),
    {
        match self {
            LlmError::Http(m) => concat2("HTTP error: ", m.as_str()),
            LlmError::Timeout(m) => concat2("Timeout error: ", m.as_str()),
            LlmError::RateLimited { message, retry_after } => match retry_after {
                Some(s) => concat4(
                    "Rate limited (retry after ",
                    decimal_text(*s).as_str(),
                    "s): ",
                    message.as_str(),
                ),
                None => concat2("Rate limited: ", message.as_str()),
            },
            LlmError::AuthFailed(m) => concat2("Auth failed: ", m.as_str()),
            LlmError::Overloaded(m) => concat2("Provider overloaded: ", m.as_str()),
            LlmError::NotFound(m) => concat2("Model/provider not found: ", m.as_str()),
            LlmError::Parse(m) => concat2("Parse error: ", m.as_str()),
            LlmError::NoContent => copy_of("No content in response"),
            LlmError::InvalidTool(m) => concat2("Invalid tool definition: ", m.as_str()),
        }
    }

    /// The error of a transport that failed: a timeout, or anything else.
    pub fn from_transport(context: &str, error: &str, is_timeout: bool) -> (r: Self)
        ensures
            is_timeout ==> r is Timeout && r->Timeout_0@ == context@ + ": "@ + error@,
            !is_timeout ==> r is Http && r->Http_0@ == context@ + ": "@ + error@,
    {
        let message = concat3(context, ": ", error);
        if is_timeout {
            LlmError::Timeout(message)
        } else {
            LlmError::Http(message)
        }
    }

    /// The error of a response body that could not be read: the time was up, or the
    /// body does not have the expected shape.
    pub fn from_body(error: &str, is_timeout: bool) -> (r: Self)
        ensures
            is_timeout ==> r is Timeout && r->Timeout_0@ == "response read timed out: "@ + error@,
            !is_timeout ==> r is Parse && r->Parse_0@ == "response parse error: "@ + error@,
    {
        if is_timeout {
            LlmError::Timeout(concat2("response read timed out: ", error))
        } else {
            LlmError::Parse(concat2("response parse error: ", error))
        }
    }
}

// ---------------------------------------------------------------------------
// Laws
// ---------------------------------------------------------------------------

/// A status code is read back from the message that was made for it, whatever the
/// provider's text behind it.
pub proof fn lemma_status_round_trip(status: u16, detail: Seq<char>)
    ensures
        status_in(status_message(status, detail)) == Some(status as nat),
{
    reveal_strlit("HTTP ");
    reveal_strlit(": ");
    let digits = decimal(status as nat);
    let tail = ": "@ + detail;
    let m = status_message(status, detail);
    lemma_decimal_value(status as nat);
    crate::text::lemma_decimal_len(status as nat);
    assert(m.subrange(0, 5) =~= "HTTP "@);
    assert(m.skip(5) =~= digits + tail);
    assert(tail[0] == ':');
    lemma_leading_digits(digits, tail);
    assert(is_digit(digits[0]));
    assert(crate::text::without_plus(digits) == digits);
}

/// What a user sees of an error that a status code gave is the status code, whatever
/// the provider sent with it.
pub proof fn law_redaction_hides_body(e: LlmError, status: u16, detail: Seq<char>)
    requires
        match e {
            LlmError::RateLimited { message, retry_after } => message@ == status_message(
                status,
                detail,
            ),
            LlmError::AuthFailed(m) => m@ == status_message(status, detail),
            LlmError::Overloaded(m) => m@ == status_message(status, detail),
            LlmError::NotFound(m) => m@ == status_message(status, detail),
            LlmError::Http(m) => m@ == status_message(status, detail),
            _ => false,
        },
    ensures
        e.status() == Some(status as nat),
        e.redacted() == "HTTP "@ + decimal(status as nat),
{
    lemma_status_round_trip(status, detail);
}

/// Two errors of the same class that carry the same status, or none, look the same to
/// a user.
pub proof fn law_redaction_depends_on_class_and_status(a: LlmError, b: LlmError)
    requires
        a.class() == b.class(),
        a.status() == b.status(),
    ensures
        a.redacted() == b.redacted(),
{
}

/// Arguments mean what they say: a blank text is an empty object, and a value is itself.
pub proof fn law_arguments_mean_what_they_say(w: ArgumentsWire)
    ensures
        w is Value ==> arguments_meaning(w) == Ok::<Tree, Seq<char>>(w->Value_0@),
        w is Str && is_blank(w->Str_0@) ==> arguments_meaning(w) == Ok::<Tree, Seq<char>>(
            Tree::Object(Seq::empty()),
        ),
        w is Str && !is_blank(w->Str_0@) ==> arguments_meaning(w) == json_read(w->Str_0@),
{
}

/// A tool is fit to be offered exactly where its name has one to sixty-four letters, digits,
/// underscores and hyphens and its schema is an object.
pub proof fn law_fit_tools_are_offered(d: ToolDefinition)
    ensures
        tool_fault(d) is None <==> 1 <= d.name@.len() <= 64 && (forall|i: int|
            0 <= i < d.name@.len() ==> ('a' <= (#[trigger] d.name@[i]) <= 'z' || 'A' <= d.name@[i]
                <= 'Z' || '0' <= d.name@[i] <= '9' || d.name@[i] == '_' || d.name@[i] == '-'))
            && d.input_schema@ is Object,
        tool_fault(d) is Some ==> occurs(debug_text(d.name@), tool_fault(d)->Some_0),
{
    if is_tool_name(d.name@) {
        assert forall|i: int| 0 <= i < d.name@.len() implies ('a' <= (#[trigger] d.name@[i]) <= 'z'
            || 'A' <= d.name@[i] <= 'Z' || '0' <= d.name@[i] <= '9' || d.name@[i] == '_'
            || d.name@[i] == '-') by {
            assert(is_name_char(d.name@[i]));
        }
    }
    if tool_fault(d) is Some {
        let m = tool_fault(d)->Some_0;
        let n = debug_text(d.name@);
        let at = if is_tool_name(d.name@) {
            "tool "@.len() as int
        } else {
            "tool name "@.len() as int
        };
        assert(m.subrange(at, at + n.len()) =~= n);
        assert(occurs_at(n, m, at));
    }
}

/// The log says all that an error carries.
pub proof fn law_error_text_keeps_the_message(e: LlmError)
    ensures
        match e {
            LlmError::Http(m) => m@.is_suffix_of(e.text()),
            LlmError::Timeout(m) => m@.is_suffix_of(e.text()),
            LlmError::RateLimited { message, retry_after } => message@.is_suffix_of(e.text()) && (
            retry_after is Some ==> occurs(decimal(retry_after->Some_0 as nat), e.text())),
            LlmError::AuthFailed(m) => m@.is_suffix_of(e.text()),
            LlmError::Overloaded(m) => m@.is_suffix_of(e.text()),
            LlmError::NotFound(m) => m@.is_suffix_of(e.text()),
            LlmError::Parse(m) => m@.is_suffix_of(e.text()),
            LlmError::InvalidTool(m) => m@.is_suffix_of(e.text()),
            LlmError::NoContent => true,
        },
{
    let t = e.text();
    match e {
        LlmError::Http(m) => assert(t.subrange(t.len() - m@.len(), t.len() as int) =~= m@),
        LlmError::Timeout(m) => assert(t.subrange(t.len() - m@.len(), t.len() as int) =~= m@),
        LlmError::RateLimited { message, retry_after } => {
            assert(t.subrange(t.len() - message@.len(), t.len() as int) =~= message@);
            if retry_after is Some {
                let n = decimal(retry_after->Some_0 as nat);
                let at = "Rate limited (retry after "@.len() as int;
                assert(t.subrange(at, at + n.len()) =~= n);
                assert(occurs_at(n, t, at));
            }
        },
        LlmError::AuthFailed(m) => assert(t.subrange(t.len() - m@.len(), t.len() as int) =~= m@),
        LlmError::Overloaded(m) => assert(t.subrange(t.len() - m@.len(), t.len() as int) =~= m@),
        LlmError::NotFound(m) => assert(t.subrange(t.len() - m@.len(), t.len() as int) =~= m@),
        LlmError::Parse(m) => assert(t.subrange(t.len() - m@.len(), t.len() as int) =~= m@),
        LlmError::InvalidTool(m) => assert(t.subrange(t.len() - m@.len(), t.len() as int) =~= m@),
        LlmError::NoContent => {},
    }
}

/// A setting that writes a number of continuations is followed, zero included.
pub proof fn law_continuations_can_be_set(n: u32)
    ensures
        continuations_setting(Some(decimal(n as nat))) == n,
        continuations_setting(None) == DEFAULT_MAX_CONTINUATIONS,
{
    let s = decimal(n as nat);
    lemma_decimal_value(n as nat);
    crate::text::lemma_decimal_len(n as nat);
    assert(is_digit(s[0]) && is_digit(s[s.len() - 1]));
    assert(trimmed(s) == s);
    crate::text::law_numeral_is_read_back(n as nat, u32::MAX as nat);
}

/// A provider that says that a model is unknown, not found or does not exist is understood, in
/// any case.
pub proof fn law_missing_model_is_understood(detail: Seq<char>)
    ensures
        occurs("model"@, ascii_lowered(detail)) && (occurs("not found"@, ascii_lowered(detail))
            || occurs("does not exist"@, ascii_lowered(detail)) || occurs(
            "not_found"@,
            ascii_lowered(detail),
        )) ==> tells_of_missing_model(detail),
        tells_of_missing_model(detail) ==> occurs("model"@, ascii_lowered(detail)) || occurs(
            "function id"@,
            ascii_lowered(detail),
        ),
{
}

/// Errors of different kinds have different classes, and different classes different words.
pub proof fn law_kinds_of_errors_are_told_apart(a: LlmError, b: LlmError)
    ensures
        a.class() == b.class() <==> ((a is Http && b is Http) || (a is Timeout && b is Timeout) || (
        a is RateLimited && b is RateLimited) || (a is AuthFailed && b is AuthFailed) || (
        a is Overloaded && b is Overloaded) || (a is NotFound && b is NotFound) || (a is Parse
            && b is Parse) || (a is NoContent && b is NoContent) || (a is InvalidTool
            && b is InvalidTool)),
        a.class() != b.class() ==> a.class().word() != b.class().word(),
{
    reveal_strlit("rate_limited");
    reveal_strlit("auth_failed");
    reveal_strlit("overloaded");
    reveal_strlit("provider_not_found");
    reveal_strlit("timeout");
    reveal_strlit("http_error");
    reveal_strlit("no_content");
    reveal_strlit("parse_error");
    reveal_strlit("invalid_tool");
    assert("rate_limited"@.len() == 12 && "auth_failed"@.len() == 11);
    assert("overloaded"@.len() == 10 && "provider_not_found"@.len() == 18);
    assert("timeout"@.len() == 7 && "http_error"@.len() == 10);
    assert("no_content"@.len() == 10 && "parse_error"@.len() == 11);
    assert("invalid_tool"@.len() == 12);
    assert("rate_limited"@[0] == 'r' && "invalid_tool"@[0] == 'i');
    assert("auth_failed"@[0] == 'a' && "parse_error"@[0] == 'p');
    assert("overloaded"@[0] == 'o' && "http_error"@[0] == 'h' && "no_content"@[0] == 'n');
}

} // verus!
