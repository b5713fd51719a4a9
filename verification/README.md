# Ralph

Ralph is a looping harness for hands-off agent workflows. It keeps a graph of
tasks, hands one ready task at a time to a coding agent, reads the agent's
answer, and goes on until every task is resolved, the iteration limit is
reached, or the agent gives up.

The logic is a library that Verus verifies; a small program around it does the
input and output.

## Layout

- `src/` is the verified library. Every function states what it returns or
  changes, and Verus proves it.
  - `dag/`: tasks in a hierarchy, dependencies without cycles, status
    transitions and what follows from them, claims, ids; `dag/laws.rs` holds
    what spans several operations.
  - `feature.rs`, `journal.rs`, `knowledge/`: features, the journal of a run,
    and the tagged, linked notes that outlive it.
  - `run_loop/`: what an iteration works on, what the agent is told, and what
    follows from its answer.
  - `acp/`: prompts, sigils, permissions, and what is shown of a session.
  - `sandbox/`, and the directory named after the agent: the agent's own command
    line tool, its event stream and its sandbox profile.
  - `commands/`, `output/`: what the commands decide, and what is shown.
  - `config.rs`, `cli.rs`, `project.rs`, `init.rs`, `strategy.rs`, `review.rs`,
    `interrupt.rs`, `feature_prompts.rs`: settings, new projects, model
    strategies, document reviews, interrupts and prompts.
  - `text/`, `order.rs`, `seqs.rs`: text, sorting and sequences.
- `app/` is the program: the command line, the SQLite store, files, signals,
  terminals and the connection to the agent.
- `tests/` runs the library.

## What is trusted

Functions of other crates and of the standard library are called in a few small
wrappers, each with a contract that Verus takes as given and a comment that
says what it claims: SHA-256 digests, splitting a command line into words,
reading and writing JSON, terminal colours, lower case, alphanumeric
characters, and bytes as text.

The database is a value in memory. The program loads its rows, lets the library
change them, and writes them back, all in one transaction.
