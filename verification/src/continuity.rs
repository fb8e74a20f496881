//! Tasks that survive a crash.
//!
//! A task is a number of steps. Each step has a stable name in the journal and leaves one
//! memory under a stable key, so that a run which crashed anywhere can be resumed: what the
//! journal holds is taken from there, and the rest is done. For trials a run can be made to
//! crash at chosen points.
use vstd::prelude::*;

use crate::error::FamilyClawError;
use crate::text::{
    concat2, concat3, concat4, concat5, copy_of, decimal, decimal_text, occurs, occurs_at, same,
    views,
};

verus! {

/// The exit code of a run that was made to crash.
pub const CRASH_EXIT_CODE: i32 = 137;

/// The name of a step in the journal.
pub open spec fn step_name_text(task: Seq<char>, index: nat) -> Seq<char> {
    task + "-step-"@ + decimal(index)
}

/// The name of a step in the journal.
pub fn step_name(task: &str, index: usize) -> (r: String)
    ensures
        r@ == step_name_text(task@, index as nat),
{
    concat3(task, "-step-", decimal_text(index as u64).as_str())
}

/// What a step gives: the same on every run.
pub open spec fn step_payload_text(task: Seq<char>, index: nat) -> Seq<char> {
    task + " completed step "@ + decimal(index)
}

/// What a step gives.
pub fn step_payload(task: &str, index: usize) -> (r: String)
    ensures
        r@ == step_payload_text(task@, index as nat),
{
    concat3(task, " completed step ", decimal_text(index as u64).as_str())
}

/// The key under which a step is remembered once.
pub open spec fn memory_key_text(task: Seq<char>, index: nat) -> Seq<char> {
    task + ":step-"@ + decimal(index)
}

/// The key under which a step is remembered once.
pub fn memory_key(task: &str, index: usize) -> (r: String)
    ensures
        r@ == memory_key_text(task@, index as nat),
{
    concat3(task, ":step-", decimal_text(index as u64).as_str())
}

/// The tag of a task's memories.
pub fn task_tag(task: &str) -> (r: String)
    ensures
        r@ == "task:"@ + task@,
{
    concat2("task:", task)
}

/// A line of the journal that was torn off while it was written: it has neither its end nor
/// a line feed.
pub fn torn_line(step: &str) -> (r: String)
    ensures
        r@ == "{\"step_id\":999,\"timestamp\":\"2026\",\"kind\":\"step_completed\",\"name\":\""@
            + step@ + "\",\"out"@,
{
    concat3(
        "{\"step_id\":999,\"timestamp\":\"2026\",\"kind\":\"step_completed\",\"name\":\"",
        step,
        "\",\"out",
    )
}

// ---------------------------------------------------------------------------
// Running a task
// ---------------------------------------------------------------------------

/// Where a run is made to crash.
#[derive(Debug, Clone, Copy, PartialEq, Eq, Structural)]
pub enum CrashAt {
    /// Before anything is written.
    BeforeWrite,
    /// While the last step is written.
    MidWrite,
    /// While the journal is replayed.
    MidReplay,
    /// Nowhere.
    Clean,
}

/// The mathematical value of a [`StartRequest`].
pub enum StartView {
    Step { name: Seq<char>, payload: Seq<char>, remember: Option<Seq<char>> },
    Tear { line: Seq<char>, notice: Seq<char> },
    Crash { notice: Seq<char> },
    Done { notice: Seq<char> },
}

/// What a run does at `index`, when all steps before it are done; `logged` steps are in the
/// journal from before.
pub open spec fn start_at(
    task: Seq<char>,
    steps: nat,
    crash_at: CrashAt,
    logged: nat,
    index: nat,
) -> StartView {
    match crash_at {
        CrashAt::BeforeWrite => StartView::Crash {
            notice: "crash injected: before_write (nothing persisted)"@,
        },
        CrashAt::MidReplay => if index < logged / 2 {
            StartView::Step {
                name: step_name_text(task, index),
                payload: step_payload_text(task, index),
                remember: None,
            }
        } else {
            StartView::Crash {
                notice: "crash injected: mid_replay (exited after replaying "@ + decimal(logged / 2)
                    + "/"@ + decimal(logged) + " step(s))"@,
            }
        },
        _ => if index >= steps {
            StartView::Done {
                notice: "start complete: "@ + decimal(steps) + " step(s) for task "@ + task,
            }
        } else if crash_at == CrashAt::MidWrite && index + 1 == steps {
            StartView::Tear {
                line: "{\"step_id\":999,\"timestamp\":\"2026\",\"kind\":\"step_completed\",\"name\":\""@
                    + step_name_text(task, index) + "\",\"out"@,
                notice: "crash injected: mid_write (torn last line at step "@ + decimal(index)
                    + ")"@,
            }
        } else {
            StartView::Step {
                name: step_name_text(task, index),
                payload: step_payload_text(task, index),
                remember: Some(memory_key_text(task, index)),
            }
        },
    }
}

/// What the caller has to do next.
#[derive(Debug)]
pub enum StartRequest {
    /// Do a step in the journal, and remember what it gives.
    Step {
        /// Its name.
        name: String,
        /// What it gives.
        payload: String,
        /// The key under which it is remembered, where it is.
        remember: Option<String>,
    },
    /// Close the journal, write a torn line to it and exit with
    /// [`CRASH_EXIT_CODE`].
    Tear {
        /// The line.
        line: String,
        /// What to say.
        notice: String,
    },
    /// Exit with [`CRASH_EXIT_CODE`].
    Crash {
        /// What to say.
        notice: String,
    },
    /// The task is done.
    Done {
        /// What to say.
        notice: String,
    },
}

impl View for StartRequest {
    type V = StartView;

    open spec fn view(&self) -> StartView {
        match self {
            StartRequest::Step { name, payload, remember } => StartView::Step {
                name: name@,
                payload: payload@,
                remember: crate::llm::opt_view(*remember),
            },
            StartRequest::Tear { line, notice } => StartView::Tear {
                line: line@,
                notice: notice@,
            },
            StartRequest::Crash { notice } => StartView::Crash { notice: notice@ },
            StartRequest::Done { notice } => StartView::Done { notice: notice@ },
        }
    }
}

/// Decides what a run does at `index`, when all steps before it are done.
pub fn run_start(task: &str, steps: usize, crash_at: CrashAt, logged: usize, index: usize) -> (r:
    StartRequest)
    ensures
        r@ == start_at(task@, steps as nat, crash_at, logged as nat, index as nat),
{
    match crash_at {
        CrashAt::BeforeWrite => {
            return StartRequest::Crash {
                notice: copy_of("crash injected: before_write (nothing persisted)"),
            };
        },
        CrashAt::MidReplay => {
            if index < logged / 2 {
                return StartRequest::Step {
                    name: step_name(task, index),
                    payload: step_payload(task, index),
                    remember: None,
                };
            }
            return StartRequest::Crash {
                notice: concat5(
                    "crash injected: mid_replay (exited after replaying ",
                    decimal_text((logged / 2) as u64).as_str(),
                    "/",
                    decimal_text(logged as u64).as_str(),
                    " step(s))",
                ),
            };
        },
        _ => {},
    }
    if index >= steps {
        return StartRequest::Done {
            notice: concat4(
                "start complete: ",
                decimal_text(steps as u64).as_str(),
                " step(s) for task ",
                task,
            ),
        };
    }
    let tears = match crash_at {
        CrashAt::MidWrite => index == steps - 1,
        _ => false,
    };
    if tears {
        StartRequest::Tear {
            line: torn_line(step_name(task, index).as_str()),
            notice: concat3(
                "crash injected: mid_write (torn last line at step ",
                decimal_text(index as u64).as_str(),
                ")",
            ),
        }
    } else {
        StartRequest::Step {
            name: step_name(task, index),
            payload: step_payload(task, index),
            remember: Some(memory_key(task, index)),
        }
    }
}

// ---------------------------------------------------------------------------
// Resuming a task
// ---------------------------------------------------------------------------

/// What a resumed task reports.
#[derive(Debug, Clone, Copy, PartialEq, Eq, Structural)]
pub struct ResumeOutput {
    /// How many steps came from the journal.
    pub steps_replayed: usize,
    /// Did the journal hold any when the run began?
    pub was_replaying: bool,
    /// How many steps were done anew.
    pub fresh_steps: usize,
    /// Is the end state that of a run without a crash?
    pub resumed_clean: bool,
}

/// The report of a resumed task. `fresh` tells of each step whether it was done anew;
/// `steps_in_log` steps were in the journal before; `steps_taken` steps are in it now, and
/// `task_memories` memories of the task exist.
pub fn run_resume(
    steps: usize,
    steps_in_log: usize,
    was_replaying: bool,
    fresh: &Vec<bool>,
    steps_taken: usize,
    task_memories: usize,
) -> (r: ResumeOutput)
    ensures
        r.steps_replayed == if steps_in_log < steps {
            steps_in_log
        } else {
            steps
        },
        r.was_replaying == was_replaying,
        r.fresh_steps == true_among(fresh@, fresh@.len()),
        r.resumed_clean == (steps_taken == steps && task_memories == steps),
{
    ResumeOutput {
        steps_replayed: if steps_in_log < steps {
            steps_in_log
        } else {
            steps
        },
        was_replaying,
        fresh_steps: count_true(fresh),
        resumed_clean: steps_taken == steps && task_memories == steps,
    }
}

/// How many of the first `n` lists of tags hold `tag`.
pub open spec fn tagged_among(memories: Seq<Vec<String>>, tag: Seq<char>, n: nat) -> nat
    decreases n,
{
    if n == 0 {
        0
    } else {
        tagged_among(memories, tag, (n - 1) as nat) + if views(memories[n - 1]@).contains(tag) {
            1nat
        } else {
            0nat
        }
    }
}

/// Counts the memories of a task, given the tags of all memories.
pub fn count_task_memories(memories: &Vec<Vec<String>>, task: &str) -> (r: usize)
    ensures
        r == tagged_among(memories@, "task:"@ + task@, memories@.len()),
{
    let tag = task_tag(task);
    let mut count: usize = 0;
    let mut i: usize = 0;
    while i < memories.len()
        invariant
            i <= memories@.len(),
            count <= i,
            tag@ == "task:"@ + task@,
            count == tagged_among(memories@, tag@, i as nat),
        decreases memories@.len() - i,
    {
        let tags = &memories[i];
        let mut found = false;
        let mut k: usize = 0;
        while k < tags.len() && !found
            invariant
                k <= tags@.len(),
                found ==> views(tags@).contains(tag@),
                !found ==> forall|j: int| 0 <= j < k ==> #[trigger] views(tags@)[j] != tag@,
            decreases tags@.len() - k, if found { 0int } else { 1int },
        {
            assert(views(tags@)[k as int] == tags@[k as int]@);
            if same(tags[k].as_str(), tag.as_str()) {
                found = true;
            } else {
                k += 1;
            }
        }
        if found {
            count += 1;
        }
        i += 1;
    }
    count
}

/// How many of the first `n` flags are set.
pub open spec fn true_among(flags: Seq<bool>, n: nat) -> nat
    decreases n,
{
    if n == 0 {
        0
    } else {
        true_among(flags, (n - 1) as nat) + if flags[n - 1] {
            1nat
        } else {
            0nat
        }
    }
}

/// Counts the entries of a journal that are steps, or the memories that are protected and in
/// use, given of each whether it is.
pub fn count_true(flags: &Vec<bool>) -> (r: usize)
    ensures
        r == true_among(flags@, flags@.len()),
{
    let mut count: usize = 0;
    let mut i: usize = 0;
    while i < flags.len()
        invariant
            i <= flags@.len(),
            count <= i,
            count == true_among(flags@, i as nat),
        decreases flags@.len() - i,
    {
        if flags[i] {
            count += 1;
        }
        i += 1;
    }
    count
}

/// The line that a command prints: its result as JSON behind a fixed word.
pub fn result_line(json: &str) -> (r: String)
    ensures
        r@ == "RESULT "@ + json@,
{
    concat2("RESULT ", json)
}

/// Is the core of protected memories intact after a sleep? It is where as many are in use as
/// before.
pub fn protected_core_intact(before: &Vec<bool>, after: &Vec<bool>) -> (r: bool)
    ensures
        r == (true_among(before@, before@.len()) == true_among(after@, after@.len())),
{
    count_true(before) == count_true(after)
}

// ---------------------------------------------------------------------------
// The demonstration
// ---------------------------------------------------------------------------

/// What the program is asked to do.
#[derive(Debug, Clone, PartialEq, Eq)]
pub enum Subcommand {
    /// Look at a journal, with these arguments.
    Replay(Vec<String>),
    /// Import an export, with these arguments.
    Import(Vec<String>),
    /// Show the demonstration.
    Demo,
}

/// Decides what the program is asked to do, by its first argument.
pub fn subcommand(args: &Vec<String>) -> (r: Subcommand)
    ensures
        match r {
            Subcommand::Replay(rest) => args@.len() > 0 && args@[0]@ == "replay"@ && views(rest@)
                == views(args@).skip(1),
            Subcommand::Import(rest) => args@.len() > 0 && args@[0]@ == "import"@ && views(rest@)
                == views(args@).skip(1),
            Subcommand::Demo => args@.len() == 0 || (args@[0]@ != "replay"@ && args@[0]@
                != "import"@),
        },
{
    if args.len() == 0 {
        return Subcommand::Demo;
    }
    let replay = same(args[0].as_str(), "replay");
    let import = same(args[0].as_str(), "import");
    if !replay && !import {
        return Subcommand::Demo;
    }
    let mut rest: Vec<String> = Vec::new();
    let mut i: usize = 1;
    while i < args.len()
        invariant
            1 <= i <= args@.len(),
            rest@.len() == i - 1,
            forall|k: int| 0 <= k < rest@.len() ==> (#[trigger] rest@[k])@ == args@[k + 1]@,
        decreases args@.len() - i,
    {
        rest.push(copy_of(args[i].as_str()));
        i += 1;
    }
    assert(views(rest@) =~= views(args@).skip(1));
    if replay {
        Subcommand::Replay(rest)
    } else {
        Subcommand::Import(rest)
    }
}

/// What is shown of the memories that a query found: the first, if there is one.
pub fn top_memory(hits: &Vec<String>) -> (r: String)
    ensures
        r@ == if hits@.len() > 0 {
            hits@[0]@
        } else {
            "(no matches)"@
        },
{
    if hits.len() > 0 {
        copy_of(hits[0].as_str())
    } else {
        copy_of("(no matches)")
    }
}

/// Can the demonstration be checked? Both of its files have to exist.
pub fn check_demo_files(journal_exists: bool, store_exists: bool) -> (r: Result<(), FamilyClawError>)
    ensures
        match r {
            Ok(_) => journal_exists && store_exists,
            Err(e) => !(journal_exists && store_exists) && e is Memory && e->Memory_0@
                == "Demo files not found"@,
        },
{
    if journal_exists && store_exists {
        Ok(())
    } else {
        Err(FamilyClawError::Memory(copy_of("Demo files not found")))
    }
}

/// Did the memory survive? It did where it is found.
pub fn check_recall(hits: usize) -> (r: Result<(), FamilyClawError>)
    ensures
        match r {
            Ok(_) => hits > 0,
            Err(e) => hits == 0 && e is Memory && e->Memory_0@
                == "Memory not found after restart"@,
        },
{
    if hits > 0 {
        Ok(())
    } else {
        Err(FamilyClawError::Memory(copy_of("Memory not found after restart")))
    }
}

// ---------------------------------------------------------------------------
// Laws
// ---------------------------------------------------------------------------

/// The steps of a task have different names and are remembered under different keys.
pub proof fn law_steps_are_kept_apart(task: Seq<char>, a: nat, b: nat)
    requires
        a != b,
    ensures
        step_name_text(task, a) != step_name_text(task, b),
        memory_key_text(task, a) != memory_key_text(task, b),
{
    let name = task + "-step-"@;
    let key = task + ":step-"@;
    if step_name_text(task, a) == step_name_text(task, b) {
        assert(decimal(a) =~= step_name_text(task, a).skip(name.len() as int));
        assert(decimal(b) =~= step_name_text(task, b).skip(name.len() as int));
        crate::text::lemma_decimal_injective(a, b);
    }
    if memory_key_text(task, a) == memory_key_text(task, b) {
        assert(decimal(a) =~= memory_key_text(task, a).skip(key.len() as int));
        assert(decimal(b) =~= memory_key_text(task, b).skip(key.len() as int));
        crate::text::lemma_decimal_injective(a, b);
    }
}

/// What a run does at a step does not depend on where another run crashes: two runs of a task
/// that both do a step do the same.
pub proof fn law_steps_are_reproducible(
    task: Seq<char>,
    steps: nat,
    a: CrashAt,
    b: CrashAt,
    logged_a: nat,
    logged_b: nat,
    index: nat,
)
    requires
        start_at(task, steps, a, logged_a, index) is Step,
        start_at(task, steps, b, logged_b, index) is Step,
    ensures
        start_at(task, steps, a, logged_a, index)->name == start_at(
            task,
            steps,
            b,
            logged_b,
            index,
        )->name,
        start_at(task, steps, a, logged_a, index)->payload == start_at(
            task,
            steps,
            b,
            logged_b,
            index,
        )->payload,
{
}

/// A run that is made to crash before it writes does nothing.
pub proof fn law_crash_before_write_does_nothing(
    task: Seq<char>,
    steps: nat,
    logged: nat,
    index: nat,
)
    ensures
        start_at(task, steps, CrashAt::BeforeWrite, logged, index) is Crash,
{
}

/// A run that crashes while it writes its last step has done all steps before it.
pub proof fn law_torn_step_is_the_last(task: Seq<char>, steps: nat, logged: nat, index: nat)
    requires
        index < steps,
    ensures
        start_at(task, steps, CrashAt::MidWrite, logged, index) is Tear <==> index == steps - 1,
        start_at(task, steps, CrashAt::MidWrite, logged, index) is Step <==> index < steps - 1,
{
}

/// A run without a crash does every step, from the first to the last: it writes it to the
/// journal under a name that tells its task and its number, and remembers it; then it is done.
pub proof fn law_clean_run_does_every_step(task: Seq<char>, steps: nat, logged: nat, index: nat)
    ensures
        index < steps ==> {
            let r = start_at(task, steps, CrashAt::Clean, logged, index);
            &&& r is Step
            &&& task.is_prefix_of(r->name) && decimal(index).is_suffix_of(r->name)
            &&& task.is_prefix_of(r->payload) && decimal(index).is_suffix_of(r->payload)
            &&& r->remember is Some
            &&& task.is_prefix_of(r->remember->Some_0) && decimal(index).is_suffix_of(
                r->remember->Some_0,
            )
        },
        index >= steps ==> start_at(task, steps, CrashAt::Clean, logged, index) is Done,
{
    if index < steps {
        let r = start_at(task, steps, CrashAt::Clean, logged, index);
        let n = decimal(index);
        lemma_ends(task, "-step-"@, n);
        lemma_ends(task, " completed step "@, n);
        lemma_ends(task, ":step-"@, n);
    }
}

proof fn lemma_ends(a: Seq<char>, b: Seq<char>, c: Seq<char>)
    ensures
        a.is_prefix_of(a + b + c),
        c.is_suffix_of(a + b + c),
{
    let s = a + b + c;
    assert(s.subrange(0, a.len() as int) =~= a);
    assert(s.subrange(s.len() - c.len(), s.len() as int) =~= c);
}

/// A run that crashes while it replays has replayed half of the journal, and remembers nothing
/// anew.
pub proof fn law_crash_in_replay_comes_half_way(task: Seq<char>, steps: nat, logged: nat, index: nat)
    ensures
        start_at(task, steps, CrashAt::MidReplay, logged, index) is Step <==> index < logged / 2,
        start_at(task, steps, CrashAt::MidReplay, logged, index) is Crash <==> index >= logged / 2,
        index < logged / 2 ==> start_at(
            task,
            steps,
            CrashAt::MidReplay,
            logged,
            index,
        )->remember is None,
{
}

/// A run that is done says how many steps it took and for which task; a torn line names the step
/// that was being written.
pub proof fn law_run_says_what_it_did(task: Seq<char>, steps: nat, logged: nat)
    ensures
        ({
            let end = start_at(task, steps, CrashAt::Clean, logged, steps);
            &&& end is Done
            &&& occurs(decimal(steps), end->Done_notice)
            &&& task.is_suffix_of(end->Done_notice)
        }),
        steps > 0 ==> {
            let torn = start_at(task, steps, CrashAt::MidWrite, logged, (steps - 1) as nat);
            &&& torn is Tear
            &&& occurs(step_name_text(task, (steps - 1) as nat), torn->line)
        },
{
    let end = start_at(task, steps, CrashAt::Clean, logged, steps);
    let m = end->Done_notice;
    let n = decimal(steps);
    let at = "start complete: "@.len() as int;
    assert(m.subrange(at, at + n.len()) =~= n);
    assert(occurs_at(n, m, at));
    assert(m.subrange(m.len() - task.len(), m.len() as int) =~= task);
    if steps > 0 {
        let torn = start_at(task, steps, CrashAt::MidWrite, logged, (steps - 1) as nat);
        let name = step_name_text(task, (steps - 1) as nat);
        let line = torn->line;
        let at = line.len() - "\",\"out"@.len() - name.len();
        assert(line.subrange(at, at + name.len()) =~= name);
        assert(occurs_at(name, line, at));
    }
}

/// The memories of a task are those that bear its tag, and each counts once; so do flags that are
/// set.
pub proof fn law_memories_are_counted_by_tag(
    memories: Seq<Vec<String>>,
    tag: Seq<char>,
    flags: Seq<bool>,
    n: nat,
)
    requires
        n < memories.len(),
        n < flags.len(),
    ensures
        tagged_among(memories, tag, 0) == 0,
        views(memories[n as int]@).contains(tag) ==> tagged_among(memories, tag, n + 1)
            == tagged_among(memories, tag, n) + 1,
        !views(memories[n as int]@).contains(tag) ==> tagged_among(memories, tag, n + 1)
            == tagged_among(memories, tag, n),
        true_among(flags, 0) == 0,
        flags[n as int] ==> true_among(flags, n + 1) == true_among(flags, n) + 1,
        !flags[n as int] ==> true_among(flags, n + 1) == true_among(flags, n),
{
}

} // verus!
