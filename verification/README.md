# ri_core

The core of an interactive coding agent, verified with Verus. Everything that is decided or computed
stands in `src/`, under contracts that Verus proves: what a model is asked and what is made of its
answer, how a turn with its tools runs, when a conversation is compacted, what the transcript shows,
how settings and models are read, and how plugins are spoken to. Reading, sending and waiting is done
in `app/`, ordinary Rust around the library.

## Layout

| Module | What it holds |
| --- | --- |
| `agent` | turns (`turn`), commands (`runtime`), compaction, steering messages, what is passed on |
| `app` | the state behind the screen: transcript, input, tool output, and the laws that it keeps |
| `config` | the catalog of models, settings, recent models, thinking levels, variables in values |
| `context` | files of instructions, the project, the system prompt, token accounting |
| `conversation` | the history of a conversation, its summary and its segments |
| `json` | JSON values, read and printed by `serde_json` |
| `model` | messages, requests, server-sent events, payloads, responses, diagnostics, the mock |
| `plugin` | manifests, the protocol, processes, tools, the host |
| `session`, `tools`, `text` | what a session and a tool are to the agent; work on text |

Each type has a view of mathematical values, and contracts speak of the views. Public functions whose
name begins with `lemma_` state what holds of several functions together, such as that a stream of
events reads the same however its bytes are cut, or that no call of a tool is left without a result.

What outside crates compute is called through small functions marked `external_body`, or given a
contract by `assume_specification`; each says above it what it takes from the crate. `tests/` runs the
library with the real crates.

## The loops in `app/`

`Turn` and `AgentRuntime` do nothing by themselves. They say what is to be done next, and are told what
came of it:

```text
turn.step(input) -> reports, action      app performs the action, and answers with the next input
runtime.command(command) -> actions      app performs them, and hands commands and outcomes back
```

The same holds of plugins: `Dispatch` decides whom an answer is for, and `shutdown_next` what follows
while a process is ended.
