//! Carrying out an orchestrated task with a model.
//!
//! The prompt is made from the task, and the answer becomes the payload of a deliverable,
//! which is always a JSON object. No clock is read: the time of the deliverable is that of
//! the task.
use vstd::prelude::*;

use crate::error::FamilyClawError;
use crate::json::{json_read, member, parse, pretty, Json, Tree};
use crate::llm::{messages_view, plain_message, LlmConfig, LlmError, LlmMessage, LlmRole};
use crate::text::{concat2, copy_of, occurs, occurs_at};

verus! {

/// A chain of models: the first one, and those that stand in for it.
#[derive(Debug)]
pub struct LlmFailover {
    chain: Vec<LlmConfig>,
}

impl LlmFailover {
    /// The models, in the order in which they are tried.
    pub closed spec fn models(self) -> Seq<LlmConfig> {
        self.chain@
    }

    /// A chain is never empty.
    #[verifier::type_invariant]
    spec fn never_empty(self) -> bool {
        self.chain@.len() > 0
    }

    /// A chain.
    pub fn new(primary: LlmConfig, fallbacks: Vec<LlmConfig>) -> (r: Self)
        ensures
            r.models() == seq![primary] + fallbacks@,
    {
        let mut chain: Vec<LlmConfig> = Vec::new();
        let mut rest = fallbacks;
        chain.push(primary);
        chain.append(&mut rest);
        assert(chain@ =~= seq![primary] + fallbacks@);
        LlmFailover { chain }
    }

    /// How many models the chain has: at least one.
    pub fn len(&self) -> (r: usize)
        ensures
            r == self.models().len(),
            r >= 1,
    {
        proof {
            use_type_invariant(self);
        }
        self.chain.len()
    }

    /// The name of the first model.
    pub fn primary_model(&self) -> (r: &str)
        ensures
            self.models().len() > 0,
            r@ == self.models()[0].model@,
    {
        proof {
            use_type_invariant(self);
        }
        self.chain[0].model.as_str()
    }
}

/// Carries out tasks with a chain of models.
#[derive(Debug)]
pub struct LiveTurnExecutor {
    chain: LlmFailover,
}

impl LiveTurnExecutor {
    /// The chain.
    pub closed spec fn models(self) -> Seq<LlmConfig> {
        self.chain.models()
    }

    /// An executor with the given chain.
    pub fn new(chain: LlmFailover) -> (r: Self)
        ensures
            r.models() == chain.models(),
    {
        LiveTurnExecutor { chain }
    }

    /// The name of the first model.
    pub fn primary_model(&self) -> (r: &str)
        ensures
            self.models().len() > 0,
            r@ == self.models()[0].model@,
    {
        self.chain.primary_model()
    }
}

/// A task for an agent.
#[derive(Debug)]
pub struct OrchestratedTurn {
    /// Who carries it out.
    pub assignee: String,
    /// Its title.
    pub title: String,
    /// Its description.
    pub description: String,
    /// Its input.
    pub input: Json,
    /// When it is carried out.
    pub now: i64,
}

/// What an agent delivers.
#[derive(Debug)]
pub struct Deliverable {
    /// Who delivers it.
    pub from: String,
    /// What is delivered.
    pub payload: Json,
    /// When.
    pub at: i64,
}

/// What the model is told it is.
pub const EXECUTOR_PROMPT: &'static str =
    "You are a task executor. Complete the assigned task using the provided input. If the task expects a structured result, respond with a single valid JSON object and nothing else.";

/// The prompt of a task.
pub open spec fn task_prompt(turn: OrchestratedTurn) -> Seq<char> {
    "# Task: "@ + turn.title@ + "\n\n"@ + turn.description@ + "\n\n## Input\n```json\n"@ + pretty(
        turn.input@,
        Seq::empty(),
    ) + "\n```"@
}

/// The messages for the model: what it is, and the task with its input.
pub fn build_messages(turn: &OrchestratedTurn) -> (r: Vec<LlmMessage>)
    ensures
        messages_view(r@) == seq![
            plain_message(LlmRole::System, EXECUTOR_PROMPT@),
            plain_message(LlmRole::User, task_prompt(*turn)),
        ],
{
    let mut user = concat2("# Task: ", turn.title.as_str());
    user.append("\n\n");
    user.append(turn.description.as_str());
    user.append("\n\n## Input\n```json\n");
    user.append(turn.input.to_pretty_text().as_str());
    user.append("\n```");
    let mut out: Vec<LlmMessage> = Vec::new();
    out.push(LlmMessage::system(EXECUTOR_PROMPT));
    out.push(LlmMessage::user(user.as_str()));
    assert(messages_view(out@) =~= seq![
        plain_message(LlmRole::System, EXECUTOR_PROMPT@),
        plain_message(LlmRole::User, task_prompt(*turn)),
    ]);
    out
}

/// The payload for an answer that was read as JSON, or could not be: an object is itself;
/// anything else is the text of the answer under `result`.
pub open spec fn payload_of(text: Seq<char>, read: Result<Tree, Seq<char>>) -> Tree {
    match read {
        Ok(Tree::Object(members)) => Tree::Object(members),
        _ => Tree::Object(seq![("result"@, Tree::Text(text))]),
    }
}

/// The payload for an answer, given what reading it as JSON gave.
pub fn payload_from(text: &str, read: Result<Json, String>) -> (r: Json)
    ensures
        r@ == payload_of(
            text@,
            match read {
                Ok(j) => Ok(j@),
                Err(e) => Err(e@),
            },
        ),
        r@ is Object,
{
    match read {
        Ok(j) => if j.is_object() {
            return j;
        },
        Err(_) => {},
    }
    let mut members: Vec<(String, Json)> = Vec::new();
    members.push((copy_of("result"), Json::Text(copy_of(text))));
    let r = Json::Object(members);
    proof {
        reveal_with_fuel(Json::tree, 2);
        assert(r@->Object_0 =~= seq![("result"@, Tree::Text(text@))]);
    }
    r
}

/// The payload for an answer: always an object.
pub fn wrap_payload(text: &str) -> (r: Json)
    ensures
        r@ == payload_of(text@, json_read(text@)),
        r@ is Object,
{
    payload_from(text, parse(text))
}

/// What comes of a task: the answer of the chain as a deliverable of the assignee at the time
/// of the task, or the error of the chain.
pub fn deliver(turn: &OrchestratedTurn, answer: Result<String, LlmError>) -> (r: Result<
    Deliverable,
    FamilyClawError,
>)
    ensures
        match r {
            Ok(d) => answer is Ok && d.from@ == turn.assignee@ && d.at == turn.now && d.payload@
                == payload_of(answer->Ok_0@, json_read(answer->Ok_0@)),
            Err(e) => answer is Err && e is Llm && e->Llm_0@ == answer->Err_0.text(),
        },
{
    match answer {
        Ok(text) => Ok(
            Deliverable {
                from: copy_of(turn.assignee.as_str()),
                payload: wrap_payload(text.as_str()),
                at: turn.now,
            },
        ),
        Err(e) => Err(FamilyClawError::Llm(e.to_text())),
    }
}

// ---------------------------------------------------------------------------
// Laws
// ---------------------------------------------------------------------------

/// A payload is an object, whatever the model says and however it is read.
pub proof fn law_payload_is_an_object(text: Seq<char>, read: Result<Tree, Seq<char>>)
    ensures
        payload_of(text, read) is Object,
{
}

/// An answer that is no object is kept whole under `result`.
pub proof fn law_other_answers_are_kept(text: Seq<char>, read: Result<Tree, Seq<char>>)
    requires
        !(read is Ok && read->Ok_0 is Object),
    ensures
        member(payload_of(text, read)->Object_0, "result"@) == Some(Tree::Text(text)),
{
}

/// The model is told the whole task: its title, its description and its input as JSON.
pub proof fn law_prompt_holds_the_task(turn: OrchestratedTurn)
    ensures
        occurs(turn.title@, task_prompt(turn)),
        occurs(turn.description@, task_prompt(turn)),
        occurs(pretty(turn.input@, Seq::empty()), task_prompt(turn)),
{
    let t = task_prompt(turn);
    let input = pretty(turn.input@, Seq::empty());
    let a = "# Task: "@.len() as int;
    let b = a + turn.title@.len() + "\n\n"@.len();
    let c = b + turn.description@.len() + "\n\n## Input\n```json\n"@.len();
    assert(t.subrange(a, a + turn.title@.len()) =~= turn.title@);
    assert(occurs_at(turn.title@, t, a));
    assert(t.subrange(b, b + turn.description@.len()) =~= turn.description@);
    assert(occurs_at(turn.description@, t, b));
    assert(t.subrange(c, c + input.len()) =~= input);
    assert(occurs_at(input, t, c));
}

/// An answer that is an object is delivered as it is.
pub proof fn law_object_is_delivered_as_it_is(text: Seq<char>, members: Seq<(Seq<char>, Tree)>)
    ensures
        payload_of(text, Ok(Tree::Object(members))) == Tree::Object(members),
{
}

} // verus!
