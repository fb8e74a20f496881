//! Requests as JSON.
use vstd::prelude::*;

use crate::json::{compact, member, Json, Tree};
use crate::llm::{calls_view, messages_view, CallView, LlmMessage, LlmRole, MessageView, ToolCall};
use crate::text::{copy_of, decimal, decimal_text};
use crate::wire::{
    ChatRequest, GeminiContent, GeminiGenerateContentRequest, GeminiPart, RequestBody, ToolEnvelope,
};

verus! {

// ---------------------------------------------------------------------------
// Building objects
// ---------------------------------------------------------------------------

/// The values of a list of members.
pub open spec fn members_view(ms: Seq<(String, Json)>) -> Seq<(Seq<char>, Tree)> {
    ms.map_values(|m: (String, Json)| (m.0@, m.1@))
}

/// The values of a list of items.
pub open spec fn items_view(items: Seq<Json>) -> Seq<Tree> {
    items.map_values(|j: Json| j@)
}

/// An object with these members.
pub(crate) fn object(members: Vec<(String, Json)>) -> (r: Json)
    ensures
        r@ == Tree::Object(members_view(members@)),
{
    let r = Json::Object(members);
    assert(r@->Object_0 =~= members_view(members@));
    r
}

/// A list of these items.
pub(crate) fn list(items: Vec<Json>) -> (r: Json)
    ensures
        r@ == Tree::List(items_view(items@)),
{
    let r = Json::List(items);
    assert(r@->List_0 =~= items_view(items@));
    r
}

/// A string.
pub(crate) fn text(s: &str) -> (r: Json)
    ensures
        r@ == Tree::Text(s@),
{
    Json::Text(copy_of(s))
}

/// Adds a member.
pub(crate) fn put(members: &mut Vec<(String, Json)>, name: &str, value: Json)
    ensures
        members_view(final(members)@) == members_view(old(members)@).push((name@, value@)),
{
    let ghost before = members_view(members@);
    let ghost v = (name@, value@);
    members.push((copy_of(name), value));
    assert(members_view(members@) =~= before.push(v));
}

pub(crate) fn nothing() -> (r: Vec<(String, Json)>)
    ensures
        members_view(r@) == Seq::<(Seq<char>, Tree)>::empty(),
{
    let r: Vec<(String, Json)> = Vec::new();
    assert(members_view(r@) =~= Seq::<(Seq<char>, Tree)>::empty());
    r
}

// ---------------------------------------------------------------------------
// Messages
// ---------------------------------------------------------------------------

/// The name of a role on the wire.
pub open spec fn role_word(role: LlmRole) -> Seq<char> {
    match role {
        LlmRole::System => "system"@,
        LlmRole::User => "user"@,
        LlmRole::Assistant => "assistant"@,
        LlmRole::Tool => "tool"@,
    }
}

/// A tool call on the wire: the arguments are a string that holds JSON text.
pub open spec fn call_tree(c: CallView) -> Tree {
    Tree::Object(
        seq![
            ("id"@, Tree::Text(c.id)),
            ("type"@, Tree::Text("function"@)),
            (
                "function"@,
                Tree::Object(
                    seq![
                        ("name"@, Tree::Text(c.name)),
                        ("arguments"@, Tree::Text(compact(c.arguments))),
                    ],
                ),
            ),
        ],
    )
}

/// A message on the wire. What a message does not have is left out.
pub open spec fn message_tree(m: MessageView) -> Tree {
    let base = seq![
        ("role"@, Tree::Text(role_word(m.role))),
        ("content"@, Tree::Text(m.content)),
    ];
    let with_id = match m.tool_call_id {
        Some(id) => base.push(("tool_call_id"@, Tree::Text(id))),
        None => base,
    };
    let with_calls = match m.tool_calls {
        Some(calls) => with_id.push(
            ("tool_calls"@, Tree::List(calls.map_values(|c: CallView| call_tree(c)))),
        ),
        None => with_id,
    };
    Tree::Object(with_calls)
}

/// The call for the wire.
pub fn call_json(c: &ToolCall) -> (r: Json)
    ensures
        r@ == call_tree(c@),
{
    let wire = c.to_wire();
    let arguments = c.arguments.to_text();
    let mut function = nothing();
    put(&mut function, "name", text(wire.name.as_str()));
    put(&mut function, "arguments", text(arguments.as_str()));
    assert(members_view(function@) =~= seq![
        ("name"@, Tree::Text(c.name@)),
        ("arguments"@, Tree::Text(compact(c.arguments@))),
    ]);
    let mut out = nothing();
    put(&mut out, "id", text(wire.id.as_str()));
    put(&mut out, "type", text(wire.kind.as_str()));
    put(&mut out, "function", object(function));
    let r = object(out);
    assert(r@->Object_0 =~= call_tree(c@)->Object_0);
    r
}

/// The message for the wire.
pub fn message_json(m: &LlmMessage) -> (r: Json)
    ensures
        r@ == message_tree(m@),
{
    let role = match m.role {
        LlmRole::System => "system",
        LlmRole::User => "user",
        LlmRole::Assistant => "assistant",
        LlmRole::Tool => "tool",
    };
    let mut out = nothing();
    put(&mut out, "role", text(role));
    put(&mut out, "content", text(m.content.as_str()));
    assert(members_view(out@) =~= seq![
        ("role"@, Tree::Text(role_word(m.role))),
        ("content"@, Tree::Text(m.content@)),
    ]);
    match &m.tool_call_id {
        Some(id) => put(&mut out, "tool_call_id", text(id.as_str())),
        None => {},
    }
    match &m.tool_calls {
        Some(calls) => {
            let mut items: Vec<Json> = Vec::new();
            let mut i: usize = 0;
            while i < calls.len()
                invariant
                    i <= calls@.len(),
                    items@.len() == i,
                    forall|k: int| 0 <= k < i ==> (#[trigger] items@[k])@ == call_tree(calls@[k]@),
                decreases calls@.len() - i,
            {
                items.push(call_json(&calls[i]));
                i += 1;
            }
            assert(items_view(items@) =~= calls_view(calls@).map_values(
                |c: CallView| call_tree(c),
            ));
            put(&mut out, "tool_calls", list(items));
        },
        None => {},
    }
    object(out)
}

/// The messages on the wire.
pub open spec fn message_trees(ms: Seq<MessageView>) -> Seq<Tree> {
    ms.map_values(|m: MessageView| message_tree(m))
}

// ---------------------------------------------------------------------------
// Chat completions
// ---------------------------------------------------------------------------

/// A tool on the wire.
pub open spec fn envelope_tree(e: ToolEnvelope) -> Tree {
    Tree::Object(
        seq![
            ("type"@, Tree::Text("function"@)),
            (
                "function"@,
                Tree::Object(
                    seq![
                        ("name"@, Tree::Text(e.name@)),
                        ("description"@, Tree::Text(e.description@)),
                        ("parameters"@, e.parameters@),
                    ],
                ),
            ),
        ],
    )
}

/// A chat-completions request on the wire. Tools, a tool choice and streaming are left out
/// where there are none.
pub open spec fn chat_tree(r: ChatRequest) -> Tree {
    let base = seq![
        ("model"@, Tree::Text(r.model@)),
        ("messages"@, Tree::List(message_trees(messages_view(r.messages@)))),
        ("max_tokens"@, Tree::Number(decimal(r.max_tokens as nat))),
    ];
    let streamed = if r.stream {
        base.push(("stream"@, Tree::Bool(true)))
    } else {
        base
    };
    let tooled = if r.tools@.len() > 0 {
        streamed.push(
            ("tools"@, Tree::List(r.tools@.map_values(|e: ToolEnvelope| envelope_tree(e)))),
        )
    } else {
        streamed
    };
    Tree::Object(
        match r.tool_choice {
            Some(c) => tooled.push(("tool_choice"@, Tree::Text(c@))),
            None => tooled,
        },
    )
}

/// The tool for the wire.
pub fn envelope_json(e: &ToolEnvelope) -> (r: Json)
    ensures
        r@ == envelope_tree(*e),
{
    let mut function = nothing();
    put(&mut function, "name", text(e.name.as_str()));
    put(&mut function, "description", text(e.description.as_str()));
    put(&mut function, "parameters", e.parameters.copy());
    assert(members_view(function@) =~= seq![
        ("name"@, Tree::Text(e.name@)),
        ("description"@, Tree::Text(e.description@)),
        ("parameters"@, e.parameters@),
    ]);
    let mut out = nothing();
    put(&mut out, "type", text("function"));
    put(&mut out, "function", object(function));
    let r = object(out);
    assert(r@->Object_0 =~= envelope_tree(*e)->Object_0);
    r
}

fn messages_json(ms: &Vec<LlmMessage>) -> (r: Json)
    ensures
        r@ == Tree::List(message_trees(messages_view(ms@))),
{
    let mut items: Vec<Json> = Vec::new();
    let mut i: usize = 0;
    while i < ms.len()
        invariant
            i <= ms@.len(),
            items@.len() == i,
            forall|k: int| 0 <= k < i ==> (#[trigger] items@[k])@ == message_tree(ms@[k]@),
        decreases ms@.len() - i,
    {
        items.push(message_json(&ms[i]));
        i += 1;
    }
    assert(items_view(items@) =~= message_trees(messages_view(ms@)));
    list(items)
}

/// The chat-completions request for the wire.
pub fn chat_json(request: &ChatRequest) -> (r: Json)
    ensures
        r@ == chat_tree(*request),
{
    let mut out = nothing();
    put(&mut out, "model", text(request.model.as_str()));
    put(&mut out, "messages", messages_json(&request.messages));
    put(&mut out, "max_tokens", Json::Number(decimal_text(request.max_tokens as u64)));
    assert(members_view(out@) =~= seq![
        ("model"@, Tree::Text(request.model@)),
        ("messages"@, Tree::List(message_trees(messages_view(request.messages@)))),
        ("max_tokens"@, Tree::Number(decimal(request.max_tokens as nat))),
    ]);
    if request.stream {
        put(&mut out, "stream", Json::Bool(true));
    }
    if request.tools.len() > 0 {
        let mut items: Vec<Json> = Vec::new();
        let mut i: usize = 0;
        while i < request.tools.len()
            invariant
                i <= request.tools@.len(),
                items@.len() == i,
                forall|k: int|
                    0 <= k < i ==> (#[trigger] items@[k])@ == envelope_tree(request.tools@[k]),
            decreases request.tools@.len() - i,
        {
            items.push(envelope_json(&request.tools[i]));
            i += 1;
        }
        assert(items_view(items@) =~= request.tools@.map_values(
            |e: ToolEnvelope| envelope_tree(e),
        ));
        put(&mut out, "tools", list(items));
    }
    match &request.tool_choice {
        Some(c) => put(&mut out, "tool_choice", text(c.as_str())),
        None => {},
    }
    object(out)
}

// ---------------------------------------------------------------------------
// Gemini
// ---------------------------------------------------------------------------

/// A part on the wire.
pub open spec fn part_tree(p: GeminiPart) -> Tree {
    Tree::Object(
        match p.text {
            Some(t) => seq![("text"@, Tree::Text(t@))],
            None => Seq::empty(),
        },
    )
}

/// A list of parts on the wire.
pub open spec fn parts_tree(parts: Seq<GeminiPart>) -> Tree {
    Tree::List(parts.map_values(|p: GeminiPart| part_tree(p)))
}

/// A content on the wire.
pub open spec fn content_tree(c: GeminiContent) -> Tree {
    Tree::Object(seq![("role"@, Tree::Text(c.role@)), ("parts"@, parts_tree(c.parts@))])
}

/// A Gemini request on the wire.
pub open spec fn gemini_tree(r: GeminiGenerateContentRequest) -> Tree {
    let contents = (
        "contents"@,
        Tree::List(r.contents@.map_values(|c: GeminiContent| content_tree(c))),
    );
    let settings = (
        "generationConfig"@,
        Tree::Object(
            seq![
                (
                    "maxOutputTokens"@,
                    Tree::Number(decimal(r.generation_config.max_output_tokens as nat)),
                ),
            ],
        ),
    );
    Tree::Object(
        match r.system_instruction {
            Some(s) => seq![
                contents,
                ("systemInstruction"@, Tree::Object(seq![("parts"@, parts_tree(s.parts@))])),
                settings,
            ],
            None => seq![contents, settings],
        },
    )
}

fn parts_json(parts: &Vec<GeminiPart>) -> (r: Json)
    ensures
        r@ == parts_tree(parts@),
{
    let mut items: Vec<Json> = Vec::new();
    let mut i: usize = 0;
    while i < parts.len()
        invariant
            i <= parts@.len(),
            items@.len() == i,
            forall|k: int| 0 <= k < i ==> (#[trigger] items@[k])@ == part_tree(parts@[k]),
        decreases parts@.len() - i,
    {
        let mut out = nothing();
        match &parts[i].text {
            Some(t) => {
                put(&mut out, "text", text(t.as_str()));
                assert(members_view(out@) =~= seq![("text"@, Tree::Text(t@))]);
            },
            None => {},
        }
        items.push(object(out));
        i += 1;
    }
    assert(items_view(items@) =~= parts@.map_values(|p: GeminiPart| part_tree(p)));
    list(items)
}

/// The Gemini request for the wire.
pub fn gemini_json(request: &GeminiGenerateContentRequest) -> (r: Json)
    ensures
        r@ == gemini_tree(*request),
{
    let mut items: Vec<Json> = Vec::new();
    let mut i: usize = 0;
    while i < request.contents.len()
        invariant
            i <= request.contents@.len(),
            items@.len() == i,
            forall|k: int|
                0 <= k < i ==> (#[trigger] items@[k])@ == content_tree(request.contents@[k]),
        decreases request.contents@.len() - i,
    {
        let mut content = nothing();
        put(&mut content, "role", text(request.contents[i].role.as_str()));
        put(&mut content, "parts", parts_json(&request.contents[i].parts));
        assert(members_view(content@) =~= content_tree(request.contents@[i as int])->Object_0);
        items.push(object(content));
        i += 1;
    }
    assert(items_view(items@) =~= request.contents@.map_values(
        |c: GeminiContent| content_tree(c),
    ));
    let mut out = nothing();
    put(&mut out, "contents", list(items));
    match &request.system_instruction {
        Some(s) => {
            let mut system = nothing();
            put(&mut system, "parts", parts_json(&s.parts));
            assert(members_view(system@) =~= seq![("parts"@, parts_tree(s.parts@))]);
            put(&mut out, "systemInstruction", object(system));
        },
        None => {},
    }
    let mut settings = nothing();
    put(
        &mut settings,
        "maxOutputTokens",
        Json::Number(decimal_text(request.generation_config.max_output_tokens as u64)),
    );
    assert(members_view(settings@) =~= seq![
        (
            "maxOutputTokens"@,
            Tree::Number(decimal(request.generation_config.max_output_tokens as nat)),
        ),
    ]);
    put(&mut out, "generationConfig", object(settings));
    let r = object(out);
    assert(r@->Object_0 =~= gemini_tree(*request)->Object_0);
    r
}

/// The text of a request.
pub fn body_text(body: &RequestBody) -> (r: String)
    ensures
        r@ == match *body {
            RequestBody::Chat(c) => compact(chat_tree(c)),
            RequestBody::Gemini(g) => compact(gemini_tree(g)),
        },
{
    match body {
        RequestBody::Chat(c) => chat_json(c).to_text(),
        RequestBody::Gemini(g) => gemini_json(g).to_text(),
    }
}

// ---------------------------------------------------------------------------
// Laws
// ---------------------------------------------------------------------------

/// A request that offers no tools says nothing of tools: neither of tools nor of a choice.
pub proof fn law_request_without_tools_says_nothing_of_tools(r: ChatRequest)
    requires
        r.tools@.len() == 0,
        r.tool_choice is None,
    ensures
        member(chat_tree(r)->Object_0, "tools"@) is None,
        member(chat_tree(r)->Object_0, "tool_choice"@) is None,
{
    reveal_strlit("model");
    reveal_strlit("messages");
    reveal_strlit("max_tokens");
    reveal_strlit("stream");
    reveal_strlit("tools");
    reveal_strlit("tool_choice");
    let m = chat_tree(r)->Object_0;
    assert(m[0].0 == "model"@ && m[1].0 == "messages"@ && m[2].0 == "max_tokens"@);
    assert("model"@[0] == 'm' && "tools"@[0] == 't' && "tool_choice"@[0] == 't');
    assert("messages"@[0] == 'm' && "max_tokens"@[0] == 'm' && "stream"@[0] == 's');
    let key = "tools"@;
    let other = "tool_choice"@;
    assert(key != "model"@ && key != "messages"@ && key != "max_tokens"@ && key != "stream"@);
    assert(other != "model"@ && other != "messages"@ && other != "max_tokens"@ && other
        != "stream"@);
    lemma_absent(m, key);
    lemma_absent(m, other);
}

proof fn lemma_absent(m: Seq<(Seq<char>, Tree)>, key: Seq<char>)
    requires
        forall|i: int| 0 <= i < m.len() ==> (#[trigger] m[i]).0 != key,
    ensures
        member(m, key) is None,
    decreases m.len(),
{
    if m.len() > 0 {
        let rest = m.drop_first();
        assert(m[0].0 != key);
        assert forall|i: int| 0 <= i < rest.len() implies (#[trigger] rest[i]).0 != key by {
            assert(rest[i] == m[i + 1]);
        }
        lemma_absent(rest, key);
    }
}

// ---------------------------------------------------------------------------
// What is on the wire
// ---------------------------------------------------------------------------

/// The member at `i` is found under its name where no other stands before it under this name.
proof fn lemma_found(m: Seq<(Seq<char>, Tree)>, i: int)
    requires
        0 <= i < m.len(),
        forall|k: int| 0 <= k < i ==> (#[trigger] m[k]).0 != m[i].0,
    ensures
        member(m, m[i].0) == Some(m[i].1),
    decreases m.len(),
{
    if i > 0 {
        let rest = m.drop_first();
        assert(m[0].0 != m[i].0);
        assert(rest[i - 1] == m[i]);
        assert forall|k: int| 0 <= k < i - 1 implies (#[trigger] rest[k]).0 != rest[i - 1].0 by {
            assert(rest[k] == m[k + 1]);
        }
        lemma_found(rest, i - 1);
    }
}

/// The call that a model made is on the wire as it made it: with its identifier, its name and
/// its arguments.
pub proof fn law_call_is_on_the_wire(c: CallView)
    ensures
        call_tree(c) is Object,
        ({
            let m = call_tree(c)->Object_0;
            &&& member(m, "id"@) == Some(Tree::Text(c.id))
            &&& member(m, "type"@) == Some(Tree::Text("function"@))
            &&& member(m, "function"@) is Some
            &&& member(m, "function"@)->Some_0 is Object
            &&& member(member(m, "function"@)->Some_0->Object_0, "name"@) == Some(
                Tree::Text(c.name),
            )
            &&& member(member(m, "function"@)->Some_0->Object_0, "arguments"@) == Some(
                Tree::Text(compact(c.arguments)),
            )
        }),
{
    reveal_strlit("id");
    reveal_strlit("type");
    reveal_strlit("function");
    reveal_strlit("name");
    reveal_strlit("arguments");
    assert("id"@.len() == 2 && "type"@.len() == 4 && "function"@.len() == 8);
    assert("name"@.len() == 4 && "arguments"@.len() == 9);
    let m = call_tree(c)->Object_0;
    lemma_found(m, 0);
    lemma_found(m, 1);
    lemma_found(m, 2);
    let f = m[2].1->Object_0;
    lemma_found(f, 0);
    lemma_found(f, 1);
}

/// A message is on the wire with who says it and what is said, and with the call that it answers
/// and the calls that it makes where it does; what it does not have is not there.
pub proof fn law_message_is_on_the_wire(m: MessageView)
    ensures
        message_tree(m) is Object,
        ({
            let o = message_tree(m)->Object_0;
            &&& m.role is System ==> member(o, "role"@) == Some(Tree::Text("system"@))
            &&& m.role is User ==> member(o, "role"@) == Some(Tree::Text("user"@))
            &&& m.role is Assistant ==> member(o, "role"@) == Some(Tree::Text("assistant"@))
            &&& m.role is Tool ==> member(o, "role"@) == Some(Tree::Text("tool"@))
            &&& member(o, "content"@) == Some(Tree::Text(m.content))
            &&& match m.tool_call_id {
                Some(id) => member(o, "tool_call_id"@) == Some(Tree::Text(id)),
                None => member(o, "tool_call_id"@) is None,
            }
            &&& match m.tool_calls {
                Some(calls) => {
                    let sent = member(o, "tool_calls"@);
                    &&& sent is Some && sent->Some_0 is List
                    &&& sent->Some_0->List_0.len() == calls.len()
                    &&& forall|i: int|
                        0 <= i < calls.len() ==> sent->Some_0->List_0[i] == call_tree(
                            #[trigger] calls[i],
                        )
                },
                None => member(o, "tool_calls"@) is None,
            }
        }),
{
    reveal_strlit("role");
    reveal_strlit("content");
    reveal_strlit("tool_call_id");
    reveal_strlit("tool_calls");
    let o = message_tree(m)->Object_0;
    assert("role"@.len() == 4 && "content"@.len() == 7);
    assert("tool_call_id"@.len() == 12 && "tool_calls"@.len() == 10);
    lemma_found(o, 0);
    lemma_found(o, 1);
    if m.tool_call_id is Some {
        lemma_found(o, 2);
        if m.tool_calls is Some {
            lemma_found(o, 3);
        }
    } else {
        if m.tool_calls is Some {
            lemma_found(o, 2);
        }
        lemma_absent(o, "tool_call_id"@);
    }
    if m.tool_calls is None {
        lemma_absent(o, "tool_calls"@);
    }
}

/// A chat-completions request is on the wire with its model, all its messages in their order,
/// its limit, and its tools and its choice where it has them.
pub proof fn law_chat_request_is_on_the_wire(r: ChatRequest)
    ensures
        chat_tree(r) is Object,
        ({
            let o = chat_tree(r)->Object_0;
            let sent = member(o, "messages"@);
            let offered = member(o, "tools"@);
            &&& member(o, "model"@) == Some(Tree::Text(r.model@))
            &&& member(o, "max_tokens"@) == Some(Tree::Number(decimal(r.max_tokens as nat)))
            &&& sent is Some && sent->Some_0 is List
            &&& sent->Some_0->List_0.len() == r.messages@.len()
            &&& forall|i: int|
                0 <= i < r.messages@.len() ==> sent->Some_0->List_0[i] == message_tree(
                    (#[trigger] r.messages@[i])@,
                )
            &&& member(o, "stream"@) == Some(Tree::Bool(true)) <==> r.stream
            &&& offered is Some <==> r.tools@.len() > 0
            &&& r.tools@.len() > 0 ==> offered->Some_0 is List && offered->Some_0->List_0.len()
                == r.tools@.len() && forall|i: int|
                0 <= i < r.tools@.len() ==> offered->Some_0->List_0[i] == envelope_tree(
                    #[trigger] r.tools@[i],
                )
            &&& match r.tool_choice {
                Some(c) => member(o, "tool_choice"@) == Some(Tree::Text(c@)),
                None => member(o, "tool_choice"@) is None,
            }
        }),
{
    reveal_strlit("model");
    reveal_strlit("messages");
    reveal_strlit("max_tokens");
    reveal_strlit("stream");
    reveal_strlit("tools");
    reveal_strlit("tool_choice");
    let o = chat_tree(r)->Object_0;
    assert("model"@[0] == 'm' && "messages"@[0] == 'm' && "max_tokens"@[0] == 'm');
    assert("stream"@[0] == 's' && "tools"@[0] == 't' && "tool_choice"@[0] == 't');
    assert("model"@.len() == 5 && "messages"@.len() == 8 && "max_tokens"@.len() == 10);
    assert("tools"@.len() == 5 && "tool_choice"@.len() == 11);
    lemma_found(o, 0);
    lemma_found(o, 1);
    lemma_found(o, 2);
    let s: int = if r.stream {
        1
    } else {
        0
    };
    let t: int = if r.tools@.len() > 0 {
        1
    } else {
        0
    };
    if r.stream {
        lemma_found(o, 3);
    } else {
        lemma_absent(o, "stream"@);
    }
    if r.tools@.len() > 0 {
        assert(o[3 + s].0 == "tools"@);
        lemma_found(o, 3 + s);
    } else {
        lemma_absent(o, "tools"@);
    }
    if r.tool_choice is Some {
        assert(o[3 + s + t].0 == "tool_choice"@);
        lemma_found(o, 3 + s + t);
    } else {
        lemma_absent(o, "tool_choice"@);
    }
    let sent = message_trees(messages_view(r.messages@));
    assert forall|i: int| 0 <= i < r.messages@.len() implies sent[i] == message_tree(
        (#[trigger] r.messages@[i])@,
    ) by {
        assert(messages_view(r.messages@)[i] == r.messages@[i]@);
    }
}

/// A tool is on the wire with its name, its description and its schema.
pub proof fn law_tool_is_on_the_wire(e: ToolEnvelope)
    ensures
        envelope_tree(e) is Object,
        ({
            let m = envelope_tree(e)->Object_0;
            let f = member(m, "function"@);
            &&& member(m, "type"@) == Some(Tree::Text("function"@))
            &&& f is Some && f->Some_0 is Object
            &&& member(f->Some_0->Object_0, "name"@) == Some(Tree::Text(e.name@))
            &&& member(f->Some_0->Object_0, "description"@) == Some(Tree::Text(e.description@))
            &&& member(f->Some_0->Object_0, "parameters"@) == Some(e.parameters@)
        }),
{
    reveal_strlit("type");
    reveal_strlit("function");
    reveal_strlit("name");
    reveal_strlit("description");
    reveal_strlit("parameters");
    assert("type"@.len() == 4 && "function"@.len() == 8 && "name"@.len() == 4);
    assert("description"@.len() == 11 && "parameters"@.len() == 10);
    let m = envelope_tree(e)->Object_0;
    lemma_found(m, 0);
    lemma_found(m, 1);
    let f = m[1].1->Object_0;
    lemma_found(f, 0);
    lemma_found(f, 1);
    lemma_found(f, 2);
}

/// A content is on the wire with its role and its text.
pub proof fn law_content_is_on_the_wire(c: GeminiContent, text: Seq<char>)
    requires
        crate::wire::is_single_text(c.parts@, text),
    ensures
        content_tree(c) is Object,
        member(content_tree(c)->Object_0, "role"@) == Some(Tree::Text(c.role@)),
        ({
            let parts = member(content_tree(c)->Object_0, "parts"@);
            &&& parts is Some && parts->Some_0 is List
            &&& parts->Some_0->List_0.len() == 1
            &&& parts->Some_0->List_0[0] is Object
            &&& member(parts->Some_0->List_0[0]->Object_0, "text"@) == Some(Tree::Text(text))
        }),
{
    reveal_strlit("role");
    reveal_strlit("parts");
    assert("role"@.len() == 4 && "parts"@.len() == 5);
    let m = content_tree(c)->Object_0;
    lemma_found(m, 0);
    lemma_found(m, 1);
    let p = parts_tree(c.parts@)->List_0[0];
    assert(p == part_tree(c.parts@[0]));
    lemma_found(p->Object_0, 0);
}

/// A Gemini request is on the wire with all its contents in their order, its limit, and its
/// system instruction where it has one.
pub proof fn law_gemini_request_is_on_the_wire(r: GeminiGenerateContentRequest)
    ensures
        gemini_tree(r) is Object,
        ({
            let o = gemini_tree(r)->Object_0;
            let sent = member(o, "contents"@);
            let settings = member(o, "generationConfig"@);
            let told = member(o, "systemInstruction"@);
            &&& sent is Some && sent->Some_0 is List
            &&& sent->Some_0->List_0.len() == r.contents@.len()
            &&& forall|i: int|
                0 <= i < r.contents@.len() ==> sent->Some_0->List_0[i] == content_tree(
                    #[trigger] r.contents@[i],
                )
            &&& settings is Some && settings->Some_0 is Object
            &&& member(settings->Some_0->Object_0, "maxOutputTokens"@) == Some(
                Tree::Number(decimal(r.generation_config.max_output_tokens as nat)),
            )
            &&& told is Some <==> r.system_instruction is Some
            &&& r.system_instruction is Some ==> told->Some_0 is Object && member(
                told->Some_0->Object_0,
                "parts"@,
            ) == Some(parts_tree(r.system_instruction->Some_0.parts@))
        }),
{
    reveal_strlit("contents");
    reveal_strlit("systemInstruction");
    reveal_strlit("generationConfig");
    assert("contents"@.len() == 8 && "systemInstruction"@.len() == 17);
    assert("generationConfig"@.len() == 16);
    let o = gemini_tree(r)->Object_0;
    lemma_found(o, 0);
    lemma_found(o, 1);
    if r.system_instruction is Some {
        lemma_found(o, 2);
        lemma_found(o[1].1->Object_0, 0);
        lemma_found(o[2].1->Object_0, 0);
    } else {
        lemma_found(o[1].1->Object_0, 0);
        lemma_absent(o, "systemInstruction"@);
    }
}

} // verus!
