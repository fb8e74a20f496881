//! Requests and replies of the wire formats.
//!
//! [`LlmClient`] decides what is sent where. The bytes travel elsewhere: a caller
//! sends the [`HttpRequest`] it is given and hands the decoded reply back.
use vstd::prelude::*;

use crate::json::Json;
use crate::llm::{
    copy_messages, copy_opt_calls, messages_view, opt_calls_view, opt_view, status_message,
    tool_fault, CallView, CompletionResult, FinishReason, LlmConfig, LlmError, LlmMessage, LlmRole,
    LlmWireFormat, MessageView, ToolCall, ToolDefinition,
};
use crate::text::{
    concat2, concat3, copy_of, decimal, is_white_space, join, joined, lemma_joined_holds, occurs,
    occurs_at, same, trimmed, views,
};

verus! {

// ---------------------------------------------------------------------------
// Endpoints
// ---------------------------------------------------------------------------

/// `s` without its white space.
pub open spec fn without_white_space(s: Seq<char>) -> Seq<char> {
    s.filter(|c: char| !is_white_space(c))
}

/// `s` without the slashes at its end.
pub open spec fn without_end_slashes(s: Seq<char>) -> Seq<char>
    decreases s.len(),
{
    if s.len() > 0 && s.last() == '/' {
        without_end_slashes(s.drop_last())
    } else {
        s
    }
}

/// Cuts the slashes at the end off.
fn cut_end_slashes(cs: &Vec<char>) -> (r: String)
    ensures
        r@ == without_end_slashes(cs@),
{
    let mut n: usize = cs.len();
    assert(cs@.take(n as int) =~= cs@);
    while n > 0 && cs[n - 1] == '/'
        invariant
            n <= cs@.len(),
            without_end_slashes(cs@) == without_end_slashes(cs@.take(n as int)),
        decreases n,
    {
        assert(cs@.take(n as int).drop_last() =~= cs@.take(n - 1));
        n -= 1;
    }
    let r = crate::text::string_of(cs, 0, n);
    assert(r@ =~= cs@.take(n as int));
    r
}

/// The root of a chat-completions API in the form in which its endpoint extends it.
pub open spec fn api_root(base: Seq<char>) -> Seq<char> {
    without_end_slashes(without_white_space(base))
}

/// The root of a chat-completions API in the form in which its endpoint extends it.
fn root_of(base: &str) -> (r: String)
    ensures
        r@ == api_root(base@),
{
    let cs = crate::text::chars_of(base);
    let mut kept: Vec<char> = Vec::new();
    let mut i: usize = 0;
    let ghost keep = |c: char| !is_white_space(c);
    proof {
        reveal(Seq::filter);
        assert(base@.take(0).filter(keep) =~= Seq::<char>::empty());
    }
    while i < cs.len()
        invariant
            cs@ == base@,
            i <= cs@.len(),
            keep == (|c: char| !is_white_space(c)),
            kept@ == base@.take(i as int).filter(keep),
        decreases cs@.len() - i,
    {
        proof {
            reveal(Seq::filter);
            assert(base@.take(i + 1).drop_last() =~= base@.take(i as int));
        }
        if !crate::text::is_space(cs[i]) {
            kept.push(cs[i]);
        }
        i += 1;
    }
    assert(base@.take(i as int) =~= base@);
    assert(kept@ == without_white_space(base@));
    cut_end_slashes(&kept)
}

// ---------------------------------------------------------------------------
// Requests
// ---------------------------------------------------------------------------

/// How a request proves who sends it.
#[derive(Debug, Clone, PartialEq, Eq)]
pub enum Auth {
    /// An `Authorization` header with this value.
    Header(String),
    /// A query parameter `key` with this value.
    QueryKey(String),
}

/// A tool in the form in which the chat-completions API takes it: kind `function`,
/// with the schema as the parameters of the function.
#[derive(Debug, PartialEq)]
pub struct ToolEnvelope {
    pub name: String,
    pub description: String,
    pub parameters: Json,
}

impl ToolEnvelope {
    /// The envelope of a definition.
    pub fn of(def: &ToolDefinition) -> (r: Self)
        ensures
            r.name@ == def.name@,
            r.description@ == def.description@,
            r.parameters@ == def.input_schema@,
    {
        ToolEnvelope {
            name: copy_of(def.name.as_str()),
            description: copy_of(def.description.as_str()),
            parameters: def.input_schema.copy(),
        }
    }
}

/// Envelope `e` offers the tool of definition `d`.
pub open spec fn offers(e: ToolEnvelope, d: ToolDefinition) -> bool {
    e.name@ == d.name@ && e.description@ == d.description@ && e.parameters@ == d.input_schema@
}

/// Body of a chat-completions request.
#[derive(Debug, PartialEq)]
pub struct ChatRequest {
    pub model: String,
    pub messages: Vec<LlmMessage>,
    pub max_tokens: u32,
    /// Is the reply to be streamed? The key is left out where it is not.
    pub stream: bool,
    /// Left out where it is empty.
    pub tools: Vec<ToolEnvelope>,
    /// Left out where it is absent.
    pub tool_choice: Option<String>,
}

/// One part of a Gemini content.
#[derive(Debug, Clone, PartialEq)]
pub struct GeminiPart {
    pub text: Option<String>,
}

/// One content of a Gemini request or reply.
#[derive(Debug, Clone, PartialEq)]
pub struct GeminiContent {
    pub role: String,
    pub parts: Vec<GeminiPart>,
}

/// The system instruction of a Gemini request.
#[derive(Debug, Clone, PartialEq)]
pub struct GeminiSystemInstruction {
    pub parts: Vec<GeminiPart>,
}

/// The generation settings of a Gemini request.
#[derive(Debug, Clone, PartialEq)]
pub struct GeminiGenerationConfig {
    pub max_output_tokens: u32,
}

/// Body of a Gemini `generateContent` request.
#[derive(Debug, Clone, PartialEq)]
pub struct GeminiGenerateContentRequest {
    pub contents: Vec<GeminiContent>,
    pub system_instruction: Option<GeminiSystemInstruction>,
    pub generation_config: GeminiGenerationConfig,
}

/// The one text that a list of parts holds.
pub open spec fn is_single_text(parts: Seq<GeminiPart>, s: Seq<char>) -> bool {
    parts.len() == 1 && opt_view(parts[0].text) == Some(s)
}

/// Gemini's name for a role: the model for the assistant, the user for the rest.
pub open spec fn gemini_role(role: LlmRole) -> Seq<char> {
    if role is Assistant {
        "model"@
    } else {
        "user"@
    }
}

/// The messages that are not system messages.
pub open spec fn spoken(ms: Seq<MessageView>) -> Seq<MessageView>
    decreases ms.len(),
{
    if ms.len() == 0 {
        Seq::empty()
    } else if ms.last().role is System {
        spoken(ms.drop_last())
    } else {
        spoken(ms.drop_last()).push(ms.last())
    }
}

/// The texts of the system messages, empty ones left out.
pub open spec fn instructions(ms: Seq<MessageView>) -> Seq<Seq<char>>
    decreases ms.len(),
{
    if ms.len() == 0 {
        Seq::empty()
    } else if ms.last().role is System && ms.last().content.len() > 0 {
        instructions(ms.drop_last()).push(ms.last().content)
    } else {
        instructions(ms.drop_last())
    }
}

/// `c` carries message `m` to Gemini.
pub open spec fn carries(c: GeminiContent, m: MessageView) -> bool {
    c.role@ == gemini_role(m.role) && is_single_text(c.parts@, m.content)
}

impl GeminiGenerateContentRequest {
    /// The request for a conversation: system messages become the system instruction,
    /// joined by blank lines; every other message becomes a content of its own.
    pub fn from_messages(messages: &[LlmMessage], max_tokens: u32) -> (r: Self)
        ensures
            r.generation_config.max_output_tokens == max_tokens,
            r.contents@.len() == spoken(messages_view(messages@)).len(),
            forall|i: int|
                0 <= i < r.contents@.len() ==> carries(
                    #[trigger] r.contents@[i],
                    spoken(messages_view(messages@))[i],
                ),
            match r.system_instruction {
                None => instructions(messages_view(messages@)).len() == 0,
                Some(s) => instructions(messages_view(messages@)).len() > 0 && is_single_text(
                    s.parts@,
                    joined(instructions(messages_view(messages@)), "\n\n"@),
                ),
            },
    {
        let ghost all = messages_view(messages@);
        let mut system_parts: Vec<String> = Vec::new();
        let mut contents: Vec<GeminiContent> = Vec::new();
        let mut i: usize = 0;
        assert(all.take(0) =~= Seq::empty());
        assert(views(system_parts@) =~= Seq::empty());
        while i < messages.len()
            invariant
                i <= messages@.len(),
                all == messages_view(messages@),
                views(system_parts@) == instructions(all.take(i as int)),
                contents@.len() == spoken(all.take(i as int)).len(),
                forall|k: int|
                    0 <= k < contents@.len() ==> carries(
                        #[trigger] contents@[k],
                        spoken(all.take(i as int))[k],
                    ),
            decreases messages@.len() - i,
        {
            let m = &messages[i];
            let ghost before = contents@;
            let ghost system_before = system_parts@;
            proof {
                assert(all.take(i + 1).drop_last() =~= all.take(i as int));
                assert(all.take(i + 1).last() == m@);
            }
            match m.role {
                LlmRole::System => {
                    if !m.content.as_str().is_empty() {
                        system_parts.push(copy_of(m.content.as_str()));
                        assert(views(system_parts@) =~= views(system_before).push(m.content@));
                    }
                },
                LlmRole::Assistant => {
                    let parts = vec![GeminiPart { text: Some(copy_of(m.content.as_str())) }];
                    contents.push(GeminiContent { role: copy_of("model"), parts });
                },
                _ => {
                    let parts = vec![GeminiPart { text: Some(copy_of(m.content.as_str())) }];
                    contents.push(GeminiContent { role: copy_of("user"), parts });
                },
            }
            i += 1;
        }
        assert(all.take(i as int) =~= all);
        let system_instruction = if system_parts.len() == 0 {
            None
        } else {
            let text = join(&system_parts, "\n\n");
            Some(GeminiSystemInstruction { parts: vec![GeminiPart { text: Some(text) }] })
        };
        GeminiGenerateContentRequest {
            contents,
            system_instruction,
            generation_config: GeminiGenerationConfig { max_output_tokens: max_tokens },
        }
    }
}

/// Body of a request.
#[derive(Debug, PartialEq)]
pub enum RequestBody {
    Chat(ChatRequest),
    Gemini(GeminiGenerateContentRequest),
}

/// A request to be sent with `POST`.
#[derive(Debug, PartialEq)]
pub struct HttpRequest {
    pub endpoint: String,
    pub auth: Auth,
    pub body: RequestBody,
}

/// `r` asks the OpenAI-compatible endpoint of `c` to go on from `messages`.
pub open spec fn is_chat_request(
    r: HttpRequest,
    c: LlmConfig,
    messages: Seq<LlmMessage>,
    stream: bool,
    tools: Seq<ToolDefinition>,
    choice: Option<Seq<char>>,
) -> bool {
    &&& r.endpoint@ == api_root(c.api_base@) + "/chat/completions"@
    &&& r.auth is Header
    &&& r.auth->Header_0@ == "Bearer "@ + c.api_key@
    &&& r.body is Chat
    &&& r.body->Chat_0.model@ == c.model@
    &&& messages_view(r.body->Chat_0.messages@) == messages_view(messages)
    &&& r.body->Chat_0.max_tokens == c.max_tokens
    &&& r.body->Chat_0.stream == stream
    &&& r.body->Chat_0.tools@.len() == tools.len()
    &&& forall|i: int|
        0 <= i < tools.len() ==> offers(#[trigger] r.body->Chat_0.tools@[i], tools[i])
    &&& opt_view(r.body->Chat_0.tool_choice) == choice
}

/// `r` asks the Gemini endpoint of `c` to go on from `messages`.
pub open spec fn is_gemini_request(
    r: HttpRequest,
    c: LlmConfig,
    messages: Seq<LlmMessage>,
) -> bool {
    let ms = messages_view(messages);
    let body = r.body->Gemini_0;
    &&& r.endpoint@ == without_end_slashes(c.api_base@) + "/models/"@ + c.model@
        + ":generateContent"@
    &&& r.auth is QueryKey
    &&& r.auth->QueryKey_0@ == c.api_key@
    &&& r.body is Gemini
    &&& body.generation_config.max_output_tokens == c.max_tokens
    &&& body.contents@.len() == spoken(ms).len()
    &&& forall|i: int|
        0 <= i < body.contents@.len() ==> carries(#[trigger] body.contents@[i], spoken(ms)[i])
    &&& match body.system_instruction {
        None => instructions(ms).len() == 0,
        Some(s) => instructions(ms).len() > 0 && is_single_text(
            s.parts@,
            joined(instructions(ms), "\n\n"@),
        ),
    }
}

/// `e` says that `format` is not implemented.
pub open spec fn is_unimplemented(e: LlmError, format: LlmWireFormat) -> bool {
    e is Http && e->Http_0@ == "wire format '"@ + format.word()
        + "' is not implemented yet — see docs/design/multi-provider-wire-formats.md"@
}

/// The `tool_choice` of a request: none without tools, else `required` where it was
/// asked for and `auto` where it was not.
pub open spec fn chosen(tools: Seq<ToolDefinition>, choice: Option<Seq<char>>) -> Option<
    Seq<char>,
> {
    if tools.len() == 0 {
        None
    } else if choice == Some("required"@) {
        Some("required"@)
    } else {
        Some("auto"@)
    }
}

/// Tool `i` is the first malformed one, and `message` says what is wrong with it.
pub open spec fn first_fault(tools: Seq<ToolDefinition>, i: int, message: Seq<char>) -> bool {
    &&& 0 <= i < tools.len()
    &&& tool_fault(tools[i]) == Some(message)
    &&& forall|k: int| 0 <= k < i ==> tool_fault(#[trigger] tools[k]) is None
}

/// A model at a provider.
#[derive(Debug, Clone)]
pub struct LlmClient {
    config: LlmConfig,
}

impl LlmClient {
    /// The configuration.
    pub closed spec fn configuration(self) -> LlmConfig {
        self.config
    }

    /// A client for the given configuration.
    pub fn new(config: LlmConfig) -> (r: Self)
        ensures
            r.configuration() == config,
    {
        LlmClient { config }
    }

    /// The configuration.
    pub fn config(&self) -> (r: &LlmConfig)
        ensures
            *r == self.configuration(),
    {
        &self.config
    }

    /// The chat-completions endpoint below an API root. It holds no white space, and
    /// no slash of the root is doubled.
    pub fn build_endpoint(api_base: &str) -> (r: String)
        ensures
            r@ == api_root(api_base@) + "/chat/completions"@,
            forall|i: int| 0 <= i < r@.len() ==> !is_white_space(#[trigger] r@[i]),
    {
        let r = concat2(root_of(api_base).as_str(), "/chat/completions");
        proof {
            lemma_root_has_no_white_space(api_base@);
            reveal_strlit("/chat/completions");
            assert forall|i: int| 0 <= i < r@.len() implies !is_white_space(#[trigger] r@[i]) by {
                let root = api_root(api_base@);
                if i < root.len() {
                    assert(r@[i] == root[i]);
                } else {
                    assert(r@[i] == "/chat/completions"@[i - root.len()]);
                }
            }
        }
        r
    }

    /// The Gemini endpoint of a model below an API root. No slash of the root is doubled.
    pub fn gemini_endpoint(api_base: &str, model: &str) -> (r: String)
        ensures
            r@ == without_end_slashes(api_base@) + "/models/"@ + model@ + ":generateContent"@,
    {
        let root = cut_end_slashes(&crate::text::chars_of(api_base));
        crate::text::concat4(root.as_str(), "/models/", model, ":generateContent")
    }

    /// The error for a wire format that has no implementation.
    pub fn unimplemented_wire_format_error(format: LlmWireFormat) -> (r: LlmError)
        ensures
            is_unimplemented(r, format),
    {
        LlmError::Http(
            concat3(
                "wire format '",
                format.as_word(),
                "' is not implemented yet — see docs/design/multi-provider-wire-formats.md",
            ),
        )
    }

    fn chat_request(
        &self,
        messages: &[LlmMessage],
        stream: bool,
        tools: &[ToolDefinition],
        tool_choice: Option<&str>,
    ) -> (r: HttpRequest)
        ensures
            is_chat_request(
                r,
                self.configuration(),
                messages@,
                stream,
                tools@,
                chosen(
                    tools@,
                    match tool_choice {
                        Some(c) => Some(c@),
                        None => None,
                    },
                ),
            ),
    {
        let mut envelopes: Vec<ToolEnvelope> = Vec::new();
        let mut i: usize = 0;
        while i < tools.len()
            invariant
                i <= tools@.len(),
                envelopes@.len() == i,
                forall|k: int| 0 <= k < i ==> offers(#[trigger] envelopes@[k], tools@[k]),
            decreases tools@.len() - i,
        {
            envelopes.push(ToolEnvelope::of(&tools[i]));
            i += 1;
        }
        let choice = if tools.len() == 0 {
            None
        } else {
            match tool_choice {
                Some(c) => if same(c, "required") {
                    Some(copy_of("required"))
                } else {
                    Some(copy_of("auto"))
                },
                None => Some(copy_of("auto")),
            }
        };
        HttpRequest {
            endpoint: Self::build_endpoint(self.config.api_base.as_str()),
            auth: Auth::Header(concat2("Bearer ", self.config.api_key.as_str())),
            body: RequestBody::Chat(
                ChatRequest {
                    model: copy_of(self.config.model.as_str()),
                    messages: copy_messages(messages),
                    max_tokens: self.config.max_tokens,
                    stream,
                    tools: envelopes,
                    tool_choice: choice,
                },
            ),
        }
    }

    fn gemini_request(&self, messages: &[LlmMessage]) -> (r: HttpRequest)
        ensures
            is_gemini_request(r, self.configuration(), messages@),
    {
        HttpRequest {
            endpoint: Self::gemini_endpoint(
                self.config.api_base.as_str(),
                self.config.model.as_str(),
            ),
            auth: Auth::QueryKey(copy_of(self.config.api_key.as_str())),
            body: RequestBody::Gemini(
                GeminiGenerateContentRequest::from_messages(messages, self.config.max_tokens),
            ),
        }
    }

    /// The request of one text completion, or the error of a wire format that is not
    /// implemented.
    pub fn complete_once(&self, messages: &[LlmMessage]) -> (r: Result<HttpRequest, LlmError>)
        ensures
            match self.configuration().wire_format {
                LlmWireFormat::OpenAiChat => r is Ok && is_chat_request(
                    r->Ok_0,
                    self.configuration(),
                    messages@,
                    false,
                    Seq::empty(),
                    None,
                ),
                LlmWireFormat::GeminiGenerate => r is Ok && is_gemini_request(
                    r->Ok_0,
                    self.configuration(),
                    messages@,
                ),
                f => r is Err && is_unimplemented(r->Err_0, f),
            },
    {
        match self.config.wire_format {
            LlmWireFormat::OpenAiChat => {
                let none: [ToolDefinition; 0] = [];
                assert(none@ =~= Seq::<ToolDefinition>::empty());
                Ok(self.chat_request(messages, false, &none, None))
            },
            LlmWireFormat::GeminiGenerate => Ok(self.gemini_request(messages)),
            f => Err(Self::unimplemented_wire_format_error(f)),
        }
    }

    /// The request of a streamed completion. Only the OpenAI-compatible format streams.
    pub fn complete_stream(&self, messages: &[LlmMessage]) -> (r: Result<HttpRequest, LlmError>)
        ensures
            match self.configuration().wire_format {
                LlmWireFormat::OpenAiChat => r is Ok && is_chat_request(
                    r->Ok_0,
                    self.configuration(),
                    messages@,
                    true,
                    Seq::empty(),
                    None,
                ),
                f => r is Err && is_unimplemented(r->Err_0, f),
            },
    {
        match self.config.wire_format {
            LlmWireFormat::OpenAiChat => {
                let none: [ToolDefinition; 0] = [];
                assert(none@ =~= Seq::<ToolDefinition>::empty());
                Ok(self.chat_request(messages, true, &none, None))
            },
            f => Err(Self::unimplemented_wire_format_error(f)),
        }
    }

    /// The request of a completion that offers `tools`, with `tool_choice` `auto`.
    pub fn complete_with_tools(&self, messages: &[LlmMessage], tools: &[ToolDefinition]) -> (r:
        Result<HttpRequest, LlmError>)
        ensures
            self.answers_tools(messages@, tools@, None, r),
    {
        self.complete_with_tools_choice(messages, tools, None)
    }

    /// What a completion with tools answers. A malformed tool is an error before
    /// anything is sent: that of the first one. The OpenAI-compatible format takes
    /// tools, Gemini only an empty list of them.
    pub open spec fn answers_tools(
        self,
        messages: Seq<LlmMessage>,
        tools: Seq<ToolDefinition>,
        choice: Option<Seq<char>>,
        r: Result<HttpRequest, LlmError>,
    ) -> bool {
        if exists|i: int| 0 <= i < tools.len() && tool_fault(#[trigger] tools[i]) is Some {
            r is Err && r->Err_0 is InvalidTool && exists|i: int|
                #[trigger] first_fault(tools, i, r->Err_0->InvalidTool_0@)
        } else {
            match self.configuration().wire_format {
                LlmWireFormat::OpenAiChat => r is Ok && is_chat_request(
                    r->Ok_0,
                    self.configuration(),
                    messages,
                    false,
                    tools,
                    chosen(tools, choice),
                ),
                LlmWireFormat::GeminiGenerate => if tools.len() == 0 {
                    r is Ok && is_gemini_request(r->Ok_0, self.configuration(), messages)
                } else {
                    r is Err && is_unimplemented(r->Err_0, LlmWireFormat::GeminiGenerate)
                },
                f => r is Err && is_unimplemented(r->Err_0, f),
            }
        }
    }

    /// The request of a completion that offers `tools`.
    pub fn complete_with_tools_choice(
        &self,
        messages: &[LlmMessage],
        tools: &[ToolDefinition],
        tool_choice: Option<&str>,
    ) -> (r: Result<HttpRequest, LlmError>)
        ensures
            self.answers_tools(
                messages@,
                tools@,
                match tool_choice {
                    Some(c) => Some(c@),
                    None => None,
                },
                r,
            ),
    {
        let mut i: usize = 0;
        while i < tools.len()
            invariant
                i <= tools@.len(),
                forall|k: int| 0 <= k < i ==> tool_fault(#[trigger] tools@[k]) is None,
            decreases tools@.len() - i,
        {
            match tools[i].validate() {
                Ok(()) => {},
                Err(e) => {
                    assert(first_fault(tools@, i as int, e->InvalidTool_0@));
                    return Err(e);
                },
            }
            i += 1;
        }
        match self.config.wire_format {
            LlmWireFormat::OpenAiChat => Ok(
                self.chat_request(messages, false, tools, tool_choice),
            ),
            LlmWireFormat::GeminiGenerate => if tools.len() == 0 {
                Ok(self.gemini_request(messages))
            } else {
                Err(Self::unimplemented_wire_format_error(LlmWireFormat::GeminiGenerate))
            },
            f => Err(Self::unimplemented_wire_format_error(f)),
        }
    }

    /// May the body of a response with this status be read at all? Bodies of rejected
    /// keys and of retired models hold keys and account names.
    pub fn body_is_sensitive(status: u16) -> (r: bool)
        ensures
            r == is_sensitive(status),
    {
        status == 401 || status == 403 || status == 404
    }

    /// The error of an unsuccessful response. Of a sensitive body nothing is kept.
    pub fn error_from_response(status: u16, retry_after: Option<&str>, body: &str) -> (r: LlmError)
        ensures
            r.status() == Some(status as nat),
            r is RateLimited <==> status == 429,
            r is AuthFailed <==> status == 401 || status == 403,
            r is Overloaded <==> status == 503 || status == 529,
            r is NotFound <==> status == 404 || status == 400
                && crate::llm::tells_of_missing_model(body@),
            r is Http <==> !(r is RateLimited || r is AuthFailed || r is Overloaded
                || r is NotFound),
            status == 429 ==> match retry_after {
                Some(s) => match r->retry_after {
                    Some(n) => crate::text::unsigned_value(trimmed(s@), u64::MAX as nat) == Some(
                        n as nat,
                    ),
                    None => crate::text::unsigned_value(trimmed(s@), u64::MAX as nat) is None,
                },
                None => r->retry_after is None,
            },
            error_message(r) == crate::llm::status_message(status, kept_detail(status, body@)),
    {
        let after = LlmError::parse_retry_after(retry_after);
        let detail: &str = if Self::body_is_sensitive(status) {
            "[redacted]"
        } else {
            body
        };
        proof {
            crate::llm::lemma_status_round_trip(status, detail@);
        }
        LlmError::from_status(status, detail, after)
    }
}

/// Status codes whose bodies are not read.
pub open spec fn is_sensitive(status: u16) -> bool {
    status == 401 || status == 403 || status == 404
}

/// What is kept of the body of an unsuccessful response.
pub open spec fn kept_detail(status: u16, body: Seq<char>) -> Seq<char> {
    if is_sensitive(status) {
        "[redacted]"@
    } else {
        body
    }
}

/// The message that an error of a status code carries.
pub open spec fn error_message(e: LlmError) -> Seq<char> {
    match e {
        LlmError::Http(m) => m@,
        LlmError::AuthFailed(m) => m@,
        LlmError::Overloaded(m) => m@,
        LlmError::NotFound(m) => m@,
        LlmError::RateLimited { message, retry_after } => message@,
        _ => Seq::empty(),
    }
}

// ---------------------------------------------------------------------------
// Replies
// ---------------------------------------------------------------------------

/// One choice of a chat-completions reply.
#[derive(Debug, PartialEq)]
pub struct ChatChoice {
    pub content: Option<String>,
    pub tool_calls: Option<Vec<ToolCall>>,
    pub finish_reason: Option<String>,
}

/// The mathematical value of a [`ChatChoice`].
pub struct ChoiceView {
    pub content: Option<Seq<char>>,
    pub tool_calls: Option<Seq<CallView>>,
    pub finish_reason: Option<Seq<char>>,
}

impl View for ChatChoice {
    type V = ChoiceView;

    open spec fn view(&self) -> ChoiceView {
        ChoiceView {
            content: opt_view(self.content),
            tool_calls: opt_calls_view(self.tool_calls),
            finish_reason: opt_view(self.finish_reason),
        }
    }
}

/// The values of a list of choices.
pub open spec fn choices_view(v: Seq<ChatChoice>) -> Seq<ChoiceView> {
    v.map_values(|c: ChatChoice| c@)
}

/// Which reason an optional chat-completions word names.
pub open spec fn names_reason(raw: Option<Seq<char>>, r: FinishReason) -> bool {
    match raw {
        None => r is Stop,
        Some(w) => {
            &&& w == "stop"@ ==> r is Stop
            &&& w == "length"@ ==> r is Length
            &&& w == "tool_calls"@ ==> r is ToolCalls
            &&& w != "stop"@ && w != "length"@ && w != "tool_calls"@ ==> r is Other
                && r->Other_0@ == w
        },
    }
}

/// `r` is the text of the first choice with its finish reason. No choice, or a first choice
/// without content, is [`LlmError::NoContent`].
pub open spec fn is_text_reply(
    r: Result<(String, FinishReason), LlmError>,
    choices: Seq<ChoiceView>,
) -> bool {
    match r {
        Ok((text, reason)) => choices.len() > 0 && choices[0].content == Some(text@)
            && names_reason(choices[0].finish_reason, reason),
        Err(e) => e is NoContent && (choices.len() == 0 || choices[0].content is None),
    }
}

/// Does the choice call a tool?
pub open spec fn calls_a_tool(c: ChoiceView) -> bool {
    c.tool_calls is Some && c.tool_calls->Some_0.len() > 0
}

/// `r` is the text and the tool calls of the first choice. No choice, or a first choice with
/// neither, is [`LlmError::NoContent`].
pub open spec fn is_tool_reply(
    r: Result<CompletionResult, LlmError>,
    choices: Seq<ChoiceView>,
) -> bool {
    match r {
        Ok(c) => choices.len() > 0 && opt_view(c.content) == choices[0].content
            && opt_calls_view(c.tool_calls) == choices[0].tool_calls && (choices[0].content is Some
            || calls_a_tool(choices[0])),
        Err(e) => e is NoContent && (choices.len() == 0 || (choices[0].content is None
            && !calls_a_tool(choices[0]))),
    }
}

/// The text of a chat-completions reply with its finish reason: those of the first
/// choice. No choice, or a first choice without content, is
/// [`LlmError::NoContent`].
pub fn text_reply(choices: &Vec<ChatChoice>) -> (r: Result<(String, FinishReason), LlmError>)
    ensures
        is_text_reply(r, choices_view(choices@)),
{
    if choices.len() == 0 {
        return Err(LlmError::NoContent);
    }
    let reason = match &choices[0].finish_reason {
        Some(w) => FinishReason::from_wire(Some(w.as_str())),
        None => FinishReason::from_wire(None),
    };
    match &choices[0].content {
        Some(text) => Ok((copy_of(text.as_str()), reason)),
        None => Err(LlmError::NoContent),
    }
}

/// The text and the tool calls of a chat-completions reply: those of the first choice.
/// A reply with neither is [`LlmError::NoContent`].
pub fn tool_reply(choices: &Vec<ChatChoice>) -> (r: Result<CompletionResult, LlmError>)
    ensures
        is_tool_reply(r, choices_view(choices@)),
{
    if choices.len() == 0 {
        return Err(LlmError::NoContent);
    }
    let has_calls = match &choices[0].tool_calls {
        Some(c) => c.len() > 0,
        None => false,
    };
    if choices[0].content.is_none() && !has_calls {
        return Err(LlmError::NoContent);
    }
    Ok(
        CompletionResult {
            content: crate::llm::copy_opt(&choices[0].content),
            tool_calls: copy_opt_calls(&choices[0].tool_calls),
        },
    )
}

/// One candidate of a Gemini reply.
#[derive(Debug, Clone, PartialEq)]
pub struct GeminiCandidate {
    pub content: Option<GeminiContent>,
    pub finish_reason: Option<String>,
}

/// The mathematical value of a [`GeminiContent`].
pub struct ContentView {
    pub role: Seq<char>,
    pub parts: Seq<Option<Seq<char>>>,
}

/// The texts of a list of parts.
pub open spec fn parts_view(v: Seq<GeminiPart>) -> Seq<Option<Seq<char>>> {
    v.map_values(|p: GeminiPart| opt_view(p.text))
}

impl View for GeminiContent {
    type V = ContentView;

    open spec fn view(&self) -> ContentView {
        ContentView { role: self.role@, parts: parts_view(self.parts@) }
    }
}

/// The mathematical value of a [`GeminiCandidate`].
pub struct CandidateView {
    pub content: Option<ContentView>,
    pub finish_reason: Option<Seq<char>>,
}

/// The content inside, where there is one.
pub open spec fn opt_content_view(c: Option<GeminiContent>) -> Option<ContentView> {
    match c {
        Some(x) => Some(x@),
        None => None,
    }
}

impl View for GeminiCandidate {
    type V = CandidateView;

    open spec fn view(&self) -> CandidateView {
        CandidateView {
            content: opt_content_view(self.content),
            finish_reason: opt_view(self.finish_reason),
        }
    }
}

/// The values of a list of candidates.
pub open spec fn candidates_view(v: Seq<GeminiCandidate>) -> Seq<CandidateView> {
    v.map_values(|c: GeminiCandidate| c@)
}

/// The texts of a list of parts, one behind the other.
pub open spec fn parts_text(parts: Seq<Option<Seq<char>>>) -> Seq<char>
    decreases parts.len(),
{
    if parts.len() == 0 {
        Seq::empty()
    } else {
        parts_text(parts.drop_last()) + match parts.last() {
            Some(t) => t,
            None => Seq::empty(),
        }
    }
}

/// The text of a candidate.
pub open spec fn candidate_text(c: CandidateView) -> Seq<char> {
    match c.content {
        Some(content) => parts_text(content.parts),
        None => Seq::empty(),
    }
}

/// Which reason an optional Gemini word names.
pub open spec fn names_gemini_reason(raw: Option<Seq<char>>, r: FinishReason) -> bool {
    match raw {
        None => r is Stop,
        Some(w) => {
            &&& w == "STOP"@ ==> r is Stop
            &&& w == "MAX_TOKENS"@ ==> r is Length
            &&& w != "STOP"@ && w != "MAX_TOKENS"@ ==> r is Other && r->Other_0@ == w
        },
    }
}

/// `r` is the text of the first candidate with its finish reason. No candidate, or one
/// without text, is [`LlmError::NoContent`].
pub open spec fn is_gemini_reply(
    r: Result<(String, FinishReason), LlmError>,
    candidates: Seq<CandidateView>,
) -> bool {
    match r {
        Ok((text, reason)) => candidates.len() > 0 && text@ == candidate_text(candidates[0])
            && text@.len() > 0 && names_gemini_reason(candidates[0].finish_reason, reason),
        Err(e) => e is NoContent && (candidates.len() == 0 || candidate_text(candidates[0]).len()
            == 0),
    }
}

/// The text of a Gemini reply with its finish reason: those of the first candidate. No
/// candidate, or one without text, is [`LlmError::NoContent`].
pub fn gemini_reply(candidates: &Vec<GeminiCandidate>) -> (r: Result<
    (String, FinishReason),
    LlmError,
>)
    ensures
        is_gemini_reply(r, candidates_view(candidates@)),
{
    if candidates.len() == 0 {
        return Err(LlmError::NoContent);
    }
    let reason = match &candidates[0].finish_reason {
        Some(w) => FinishReason::from_gemini_wire(Some(w.as_str())),
        None => FinishReason::from_gemini_wire(None),
    };
    match &candidates[0].content {
        Some(content) => {
            let parts = &content.parts;
            let mut text = String::new();
            let mut i: usize = 0;
            let ghost texts = parts_view(parts@);
            assert(texts.take(0) =~= Seq::empty());
            while i < parts.len()
                invariant
                    i <= parts@.len(),
                    texts == parts_view(parts@),
                    text@ == parts_text(texts.take(i as int)),
                decreases parts@.len() - i,
            {
                assert(texts.take(i + 1).drop_last() =~= texts.take(i as int));
                assert(texts[i as int] == opt_view(parts@[i as int].text));
                match &parts[i].text {
                    Some(t) => {
                        text.append(t.as_str());
                    },
                    None => {
                        assert(text@ + Seq::empty() =~= text@);
                    },
                }
                i += 1;
            }
            assert(texts.take(i as int) =~= texts);
            if text.as_str().is_empty() {
                Err(LlmError::NoContent)
            } else {
                Ok((text, reason))
            }
        },
        None => Err(LlmError::NoContent),
    }
}

/// A reply, as far as it is read.
#[derive(Debug, PartialEq)]
pub enum ReplyBody {
    /// The choices of a chat-completions reply.
    Chat(Vec<ChatChoice>),
    /// The candidates of a Gemini reply.
    Gemini(Vec<GeminiCandidate>),
}

impl ReplyBody {
    /// The text of the reply with its finish reason.
    pub fn text_reply(&self) -> (r: Result<(String, FinishReason), LlmError>)
        ensures
            match *self {
                ReplyBody::Chat(choices) => is_text_reply(r, choices_view(choices@)),
                ReplyBody::Gemini(candidates) => is_gemini_reply(r, candidates_view(candidates@)),
            },
    {
        match self {
            ReplyBody::Chat(choices) => text_reply(choices),
            ReplyBody::Gemini(candidates) => gemini_reply(candidates),
        }
    }

    /// The text and the tool calls of the reply. A Gemini reply calls no tool.
    pub fn tool_reply(&self) -> (r: Result<CompletionResult, LlmError>)
        ensures
            match *self {
                ReplyBody::Chat(choices) => is_tool_reply(r, choices_view(choices@)),
                ReplyBody::Gemini(candidates) => {
                    let all = candidates_view(candidates@);
                    match r {
                        Ok(c) => all.len() > 0 && candidate_text(all[0]).len() > 0 && opt_view(
                            c.content,
                        ) == Some(candidate_text(all[0])) && c.tool_calls is None,
                        Err(e) => e is NoContent && (all.len() == 0 || candidate_text(all[0]).len()
                            == 0),
                    }
                },
            },
    {
        match self {
            ReplyBody::Chat(choices) => tool_reply(choices),
            ReplyBody::Gemini(candidates) => match gemini_reply(candidates) {
                Ok((text, _)) => Ok(CompletionResult { content: Some(text), tool_calls: None }),
                Err(e) => Err(e),
            },
        }
    }
}

// ---------------------------------------------------------------------------
// Laws
// ---------------------------------------------------------------------------

/// The root of an API holds no white space.
pub proof fn lemma_root_has_no_white_space(base: Seq<char>)
    ensures
        forall|i: int|
            0 <= i < api_root(base).len() ==> !is_white_space(#[trigger] api_root(base)[i]),
{
    let keep = |c: char| !is_white_space(c);
    let s = without_white_space(base);
    base.filter_lemma(keep);
    assert forall|i: int| 0 <= i < s.len() implies !is_white_space(#[trigger] s[i]) by {
        assert(keep(s[i]));
    }
    lemma_end_slashes_prefix(s);
}

proof fn lemma_end_slashes_prefix(s: Seq<char>)
    ensures
        without_end_slashes(s).len() <= s.len(),
        forall|i: int|
            0 <= i < without_end_slashes(s).len() ==> #[trigger] without_end_slashes(s)[i] == s[i],
    decreases s.len(),
{
    if s.len() > 0 && s.last() == '/' {
        lemma_end_slashes_prefix(s.drop_last());
    }
}

/// Slashes at the end of an API root make no difference to its endpoints.
pub proof fn law_end_slash_is_ignored(base: Seq<char>)
    ensures
        api_root(base.push('/')) == api_root(base),
        without_end_slashes(base.push('/')) == without_end_slashes(base),
{
    let keep = |c: char| !is_white_space(c);
    reveal(Seq::filter);
    assert(base.push('/').drop_last() =~= base);
    let s = without_white_space(base);
    assert(without_white_space(base.push('/')) == s.push('/'));
    assert(s.push('/').drop_last() =~= s);
}

/// Of the body that comes with a rejected key or a retired model nothing is kept: any
/// two bodies leave the same.
pub proof fn law_sensitive_body_leaves_no_trace(status: u16, a: Seq<char>, b: Seq<char>)
    requires
        is_sensitive(status),
    ensures
        kept_detail(status, a) == kept_detail(status, b),
{
}

// ---------------------------------------------------------------------------
// What a request and a reply are for
// ---------------------------------------------------------------------------

/// A root without white space and without a slash at its end is taken as it is.
pub proof fn law_plain_root_is_kept(base: Seq<char>)
    requires
        forall|i: int| 0 <= i < base.len() ==> !is_white_space(#[trigger] base[i]),
        base.len() > 0 ==> base.last() != '/',
    ensures
        api_root(base) == base,
        without_end_slashes(base) == base,
{
    lemma_no_white_space(base);
}

proof fn lemma_no_white_space(s: Seq<char>)
    requires
        forall|i: int| 0 <= i < s.len() ==> !is_white_space(#[trigger] s[i]),
    ensures
        without_white_space(s) == s,
    decreases s.len(),
{
    reveal(Seq::filter);
    if s.len() > 0 {
        let rest = s.drop_last();
        assert forall|i: int| 0 <= i < rest.len() implies !is_white_space(#[trigger] rest[i]) by {
            assert(rest[i] == s[i]);
        }
        lemma_no_white_space(rest);
        assert(!is_white_space(s[s.len() - 1]));
        assert(rest.push(s.last()) =~= s);
    }
}

/// A chat-completions request carries the whole conversation, in its order, to the configured
/// model at the configured provider, with the configured key and limit, and offers every tool
/// that it is given.
pub proof fn law_chat_request_carries_the_conversation(
    r: HttpRequest,
    c: LlmConfig,
    messages: Seq<LlmMessage>,
    stream: bool,
    tools: Seq<ToolDefinition>,
    choice: Option<Seq<char>>,
    i: int,
)
    requires
        is_chat_request(r, c, messages, stream, tools, choice),
    ensures
        ({
            let b = r.body->Chat_0;
            &&& r.body is Chat
            &&& api_root(c.api_base@).is_prefix_of(r.endpoint@)
            &&& "/chat/completions"@.is_suffix_of(r.endpoint@)
            &&& r.auth is Header && c.api_key@.is_suffix_of(r.auth->Header_0@)
            &&& "Bearer "@.is_prefix_of(r.auth->Header_0@)
            &&& b.model@ == c.model@
            &&& b.max_tokens == c.max_tokens
            &&& b.stream == stream
            &&& b.messages@.len() == messages.len()
            &&& 0 <= i < messages.len() ==> b.messages@[i].role == messages[i].role
                && b.messages@[i].content@ == messages[i].content@ && opt_view(
                b.messages@[i].tool_call_id,
            ) == opt_view(messages[i].tool_call_id) && opt_calls_view(b.messages@[i].tool_calls)
                == opt_calls_view(messages[i].tool_calls)
            &&& b.tools@.len() == tools.len()
            &&& 0 <= i < tools.len() ==> b.tools@[i].name@ == tools[i].name@
                && b.tools@[i].description@ == tools[i].description@ && b.tools@[i].parameters@
                == tools[i].input_schema@
        }),
{
    let b = r.body->Chat_0;
    let root = api_root(c.api_base@);
    let path = "/chat/completions"@;
    assert(r.endpoint@.subrange(0, root.len() as int) =~= root);
    assert(r.endpoint@.subrange(r.endpoint@.len() - path.len(), r.endpoint@.len() as int)
        =~= path);
    let h = r.auth->Header_0@;
    assert(h.subrange(h.len() - c.api_key@.len(), h.len() as int) =~= c.api_key@);
    assert(h.subrange(0, "Bearer "@.len() as int) =~= "Bearer "@);
    assert(messages_view(b.messages@).len() == b.messages@.len());
    assert(messages_view(messages).len() == messages.len());
    if 0 <= i < messages.len() {
        assert(messages_view(b.messages@)[i] == b.messages@[i]@);
        assert(messages_view(messages)[i] == messages[i]@);
    }
    if 0 <= i < tools.len() {
        assert(offers(b.tools@[i], tools[i]));
    }
}

/// A request that offers tools lets the model choose, or makes it call one where that was asked
/// for; a request without tools says nothing of a choice.
pub proof fn law_tools_are_optional_unless_required(
    client: LlmClient,
    messages: Seq<LlmMessage>,
    tools: Seq<ToolDefinition>,
    choice: Option<Seq<char>>,
    r: Result<HttpRequest, LlmError>,
)
    requires
        client.answers_tools(messages, tools, choice, r),
        client.configuration().wire_format is OpenAiChat,
        forall|i: int| 0 <= i < tools.len() ==> tool_fault(#[trigger] tools[i]) is None,
    ensures
        r is Ok,
        is_chat_request(
            r->Ok_0,
            client.configuration(),
            messages,
            false,
            tools,
            opt_view(r->Ok_0.body->Chat_0.tool_choice),
        ),
        tools.len() == 0 ==> r->Ok_0.body->Chat_0.tool_choice is None,
        tools.len() > 0 && choice == Some("required"@) ==> opt_view(
            r->Ok_0.body->Chat_0.tool_choice,
        ) == Some("required"@),
        tools.len() > 0 && choice is None ==> opt_view(r->Ok_0.body->Chat_0.tool_choice) == Some(
            "auto"@,
        ),
{
}

/// The messages that are not system messages keep their order, and none is lost.
pub proof fn law_spoken_messages_keep_their_order(ms: Seq<MessageView>) -> (from: Seq<int>)
    ensures
        from.len() == spoken(ms).len(),
        forall|i: int|
            0 <= i < from.len() ==> 0 <= #[trigger] from[i] < ms.len() && ms[from[i]]
                == spoken(ms)[i] && !(ms[from[i]].role is System),
        forall|i: int, j: int| 0 <= i < j < from.len() ==> #[trigger] from[i] < #[trigger] from[j],
        forall|k: int|
            0 <= k < ms.len() && !((#[trigger] ms[k]).role is System) ==> from.contains(k),
    decreases ms.len(),
{
    if ms.len() == 0 {
        Seq::empty()
    } else {
        let rest = ms.drop_last();
        let before = law_spoken_messages_keep_their_order(rest);
        let last = ms.len() - 1;
        if ms.last().role is System {
            assert forall|k: int|
                0 <= k < ms.len() && !((#[trigger] ms[k]).role is System) implies before.contains(
                k,
            ) by {
                assert(rest[k] == ms[k]);
            }
            before
        } else {
            let from = before.push(last);
            assert(from[before.len() as int] == last);
            assert forall|k: int|
                0 <= k < ms.len() && !((#[trigger] ms[k]).role is System) implies from.contains(
                k,
            ) by {
                if k < last {
                    assert(rest[k] == ms[k]);
                    let i = choose|i: int| 0 <= i < before.len() && before[i] == k;
                    assert(from[i] == k);
                }
            }
            from
        }
    }
}

/// Every system message that says something is among the instructions.
pub proof fn law_every_instruction_is_kept(ms: Seq<MessageView>, k: int) -> (at: int)
    requires
        0 <= k < ms.len(),
        ms[k].role is System,
        ms[k].content.len() > 0,
    ensures
        0 <= at < instructions(ms).len(),
        instructions(ms)[at] == ms[k].content,
    decreases ms.len(),
{
    if k == ms.len() - 1 {
        instructions(ms).len() - 1
    } else {
        let rest = ms.drop_last();
        assert(rest[k] == ms[k]);
        let at = law_every_instruction_is_kept(rest, k);
        assert(instructions(ms)[at] == instructions(rest)[at]);
        at
    }
}

/// A Gemini request carries the whole conversation, in its order: what was said as contents, of
/// the model where the assistant said it and of the user where another did, and what the system
/// says as its instruction.
pub proof fn law_gemini_request_carries_the_conversation(
    r: HttpRequest,
    c: LlmConfig,
    messages: Seq<LlmMessage>,
) -> (from: Seq<int>)
    requires
        is_gemini_request(r, c, messages),
    ensures
        ({
            let b = r.body->Gemini_0;
            &&& r.body is Gemini
            &&& r.auth is QueryKey && r.auth->QueryKey_0@ == c.api_key@
            &&& occurs(c.model@, r.endpoint@)
            &&& b.generation_config.max_output_tokens == c.max_tokens
            &&& from.len() == b.contents@.len()
            &&& forall|i: int|
                0 <= i < from.len() ==> {
                    let m = messages[#[trigger] from[i]];
                    &&& 0 <= from[i] < messages.len()
                    &&& !(m.role is System)
                    &&& b.contents@[i].role@ == if m.role is Assistant {
                        "model"@
                    } else {
                        "user"@
                    }
                    &&& b.contents@[i].parts@.len() == 1
                    &&& opt_view(b.contents@[i].parts@[0].text) == Some(m.content@)
                }
            &&& forall|i: int, j: int|
                0 <= i < j < from.len() ==> #[trigger] from[i] < #[trigger] from[j]
            &&& forall|k: int|
                0 <= k < messages.len() && !((#[trigger] messages[k]).role is System)
                    ==> from.contains(k)
            &&& forall|k: int|
                0 <= k < messages.len() && (#[trigger] messages[k]).role is System
                    && messages[k].content@.len() > 0 ==> b.system_instruction is Some
                    && b.system_instruction->Some_0.parts@.len() == 1
                    && b.system_instruction->Some_0.parts@[0].text is Some && occurs(
                    messages[k].content@,
                    b.system_instruction->Some_0.parts@[0].text->Some_0@,
                )
        }),
{
    let b = r.body->Gemini_0;
    let ms = messages_view(messages);
    let from = law_spoken_messages_keep_their_order(ms);
    let at = (without_end_slashes(c.api_base@) + "/models/"@).len() as int;
    assert(r.endpoint@.subrange(at, at + c.model@.len()) =~= c.model@);
    assert(occurs_at(c.model@, r.endpoint@, at));
    assert forall|i: int| 0 <= i < from.len() implies {
        let m = messages[#[trigger] from[i]];
        &&& 0 <= from[i] < messages.len()
        &&& !(m.role is System)
        &&& b.contents@[i].role@ == if m.role is Assistant {
            "model"@
        } else {
            "user"@
        }
        &&& b.contents@[i].parts@.len() == 1
        &&& opt_view(b.contents@[i].parts@[0].text) == Some(m.content@)
    } by {
        assert(carries(b.contents@[i], spoken(ms)[i]));
        assert(ms[from[i]] == messages[from[i]]@);
    }
    assert forall|k: int|
        0 <= k < messages.len() && !((#[trigger] messages[k]).role is System) implies from.contains(
        k,
    ) by {
        assert(ms[k] == messages[k]@);
    }
    assert forall|k: int|
        0 <= k < messages.len() && (#[trigger] messages[k]).role is System
            && messages[k].content@.len() > 0 implies b.system_instruction is Some
        && b.system_instruction->Some_0.parts@.len() == 1
        && b.system_instruction->Some_0.parts@[0].text is Some && occurs(
        messages[k].content@,
        b.system_instruction->Some_0.parts@[0].text->Some_0@,
    ) by {
        assert(ms[k] == messages[k]@);
        let j = law_every_instruction_is_kept(ms, k);
        let told = b.system_instruction->Some_0;
        assert(is_single_text(told.parts@, joined(instructions(ms), "\n\n"@)));
        let at = lemma_joined_holds(instructions(ms), "\n\n"@, j);
        assert(occurs_at(
            messages[k].content@,
            told.parts@[0].text->Some_0@,
            at,
        ));
    }
    from
}

/// What a reply says is what its first choice says, as it says it.
pub proof fn law_first_choice_is_the_reply(
    r: Result<(String, FinishReason), LlmError>,
    choices: Seq<ChoiceView>,
)
    requires
        is_text_reply(r, choices),
        choices.len() > 0,
        choices[0].content is Some,
    ensures
        r is Ok,
        r->Ok_0.0@ == choices[0].content->Some_0,
        choices[0].finish_reason == Some("length"@) <==> r->Ok_0.1 is Length,
        choices[0].finish_reason is None ==> r->Ok_0.1 is Stop,
{
    reveal_strlit("length");
    reveal_strlit("stop");
    reveal_strlit("tool_calls");
    assert("length"@.len() == 6 && "stop"@.len() == 4 && "tool_calls"@.len() == 10);
}

/// The calls of a reply are those that its first choice makes, in their order, and its text is
/// that of the first choice.
pub proof fn law_first_choice_makes_the_calls(
    r: Result<CompletionResult, LlmError>,
    choices: Seq<ChoiceView>,
    i: int,
)
    requires
        is_tool_reply(r, choices),
        choices.len() > 0,
        choices[0].tool_calls is Some,
        0 <= i < choices[0].tool_calls->Some_0.len(),
    ensures
        r is Ok,
        r->Ok_0.tool_calls is Some,
        r->Ok_0.tool_calls->Some_0@.len() == choices[0].tool_calls->Some_0.len(),
        r->Ok_0.tool_calls->Some_0@[i].id@ == choices[0].tool_calls->Some_0[i].id,
        r->Ok_0.tool_calls->Some_0@[i].name@ == choices[0].tool_calls->Some_0[i].name,
        r->Ok_0.tool_calls->Some_0@[i].arguments@ == choices[0].tool_calls->Some_0[i].arguments,
        opt_view(r->Ok_0.content) == choices[0].content,
{
    let calls = r->Ok_0.tool_calls->Some_0@;
    assert(crate::llm::calls_view(calls).len() == calls.len());
    assert(crate::llm::calls_view(calls)[i] == calls[i]@);
}

/// The text of a Gemini reply begins with what any number of its first parts say, and no part
/// is left out.
pub proof fn law_every_part_is_read(parts: Seq<Option<Seq<char>>>, k: int)
    requires
        0 <= k < parts.len(),
        parts[k] is Some,
    ensures
        (parts_text(parts.take(k)) + parts[k]->Some_0).is_prefix_of(parts_text(parts)),
        occurs(parts[k]->Some_0, parts_text(parts)),
        parts.len() == 1 ==> parts_text(parts) == parts[k]->Some_0,
{
    let t = parts[k]->Some_0;
    assert(parts.take(k + 1).drop_last() =~= parts.take(k));
    assert(parts_text(parts.take(k + 1)) == parts_text(parts.take(k)) + t);
    lemma_parts_grow(parts, k + 1);
    let all = parts_text(parts);
    let n = parts_text(parts.take(k)).len() as int;
    let head = parts_text(parts.take(k)) + t;
    assert(all.subrange(0, head.len() as int) == head);
    assert(all.subrange(n, n + t.len()) =~= head.subrange(n, n + t.len()));
    assert(head.subrange(n, n + t.len()) =~= t);
    assert(occurs_at(t, all, n));
    if parts.len() == 1 {
        assert(parts.take(0) =~= Seq::<Option<Seq<char>>>::empty());
        assert(parts.take(1) =~= parts);
        assert(parts_text(parts) =~= t);
    }
}

proof fn lemma_parts_grow(parts: Seq<Option<Seq<char>>>, k: int)
    requires
        0 <= k <= parts.len(),
    ensures
        parts_text(parts.take(k)).is_prefix_of(parts_text(parts)),
    decreases parts.len() - k,
{
    if k < parts.len() {
        lemma_parts_grow(parts, k + 1);
        assert(parts.take(k + 1).drop_last() =~= parts.take(k));
        let a = parts_text(parts.take(k));
        let b = parts_text(parts.take(k + 1));
        let c = parts_text(parts);
        assert(b.subrange(0, a.len() as int) =~= a);
        assert(c.subrange(0, b.len() as int) == b);
        assert(c.subrange(0, a.len() as int) =~= b.subrange(0, a.len() as int));
    } else {
        assert(parts.take(k) =~= parts);
        assert(parts_text(parts).subrange(0, parts_text(parts).len() as int) =~= parts_text(parts));
    }
}

/// A Gemini reply says all that its first candidate says.
pub proof fn law_first_candidate_is_the_reply(
    r: Result<(String, FinishReason), LlmError>,
    candidates: Seq<CandidateView>,
    k: int,
)
    requires
        is_gemini_reply(r, candidates),
        candidates.len() > 0,
        candidates[0].content is Some,
        0 <= k < candidates[0].content->Some_0.parts.len(),
        candidates[0].content->Some_0.parts[k] is Some,
        candidates[0].content->Some_0.parts[k]->Some_0.len() > 0,
    ensures
        r is Ok,
        occurs(candidates[0].content->Some_0.parts[k]->Some_0, r->Ok_0.0@),
        candidates[0].finish_reason == Some("MAX_TOKENS"@) <==> r->Ok_0.1 is Length,
{
    let parts = candidates[0].content->Some_0.parts;
    law_every_part_is_read(parts, k);
    reveal_strlit("MAX_TOKENS");
    reveal_strlit("STOP");
    assert("MAX_TOKENS"@.len() == 10 && "STOP"@.len() == 4);
}

/// An error of a response says its status and, unless the body is sensitive, what the body says.
pub proof fn law_error_says_what_came(status: u16, body: Seq<char>)
    ensures
        status != 401 && status != 403 && status != 404 ==> body.is_suffix_of(
            status_message(status, kept_detail(status, body)),
        ),
        occurs(decimal(status as nat), status_message(status, kept_detail(status, body))),
{
    let detail = kept_detail(status, body);
    let t = status_message(status, detail);
    let n = decimal(status as nat);
    assert(t.subrange(t.len() - detail.len(), t.len() as int) =~= detail);
    let at = "HTTP "@.len() as int;
    assert(t.subrange(at, at + n.len()) =~= n);
    assert(occurs_at(n, t, at));
}

/// Of the body that comes with a rejected key, a forbidden one or a missing model nothing is kept.
pub proof fn law_secret_bodies_are_dropped(status: u16, a: Seq<char>, b: Seq<char>)
    requires
        status == 401 || status == 403 || status == 404,
    ensures
        status_message(status, kept_detail(status, a)) == status_message(
            status,
            kept_detail(status, b),
        ),
{
}

} // verus!
