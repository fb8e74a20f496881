# familyclaw_agent

The logic of a FamilyClaw agent as a Verus library: what an agent says to a model, how it reads
the answer, how it loops over tools, when it waits for a human, what it remembers, what it
imports and whom it obeys. Every function of `src/` has a contract. Verus proves it, except for
the few functions that only make an outside call: their contracts are believed.

| Modules | What they decide |
| --- | --- |
| `text`, `json`, `weight` | text, JSON values, decimal weights in the unit interval |
| `llm`, `wire`, `encode`, `completion`, `stream` | requests, replies, errors, continued and streamed texts |
| `grounding`, `identity`, `message`, `channel_bridge`, `error` | claims without evidence, the operator, origins, what a user is told |
| `tool_loop`, `think`, `resume`, `turn`, `operator_tasks`, `progress` | a turn, its tool loop, suspension and resumption |
| `history` | short-term memory and its compaction |
| `live_executor`, `continuity` | orchestrated tasks, tasks that survive a crash |
| `import_bundle`, `import_plan`, `import_cli` | imports from other runtimes, and their quarantine |

A step that needs the outside world is a request: a state machine of the library says what to do
next, and takes what came of it. `app/` carries the requests out over HTTP, files and the
platform's bus, journal and memory store, which it reaches through the traits in `app/ports.rs`.

`serde_json` reads JSON text and quotes strings; the functions that call it, and the few of the
standard library that Verus does not specify, are marked in `text.rs`, `json.rs` and `llm.rs`.
