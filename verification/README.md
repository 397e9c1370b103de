# mentalOS

A desktop assistant that routes what the user types to an AI agent
(OpenClaw, or Ollama), runs the shell commands the agent proposes inside a
sandbox once they are approved, keeps per-workspace conversation memory,
tracks tasks mentioned in conversations, and scaffolds projects.

## Layout

- `src/` — the library, verified with Verus. Every public function states
  its result in `ensures`; the `law_*` proof functions state properties that
  span several functions (the circuit breaker's state machine, the command
  whitelist, the task list, conversation memory and sync export, secret
  redaction, the shortcut bindings, the context snapshot sent to the agent).
  - `router.rs` — routing of input, parsing of the agent's reply, command
    batches and their approval, the context snapshot, project commands.
  - `circuit_breaker.rs`, `whitelist.rs`, `task_tracker.rs` — the breaker
    that guards the provider, the approved commands, the task list.
  - `memory.rs`, `sessions.rs`, `redaction.rs` — conversations, session
    files, sync export and the scrubbing of secrets.
  - `openclaw.rs`, `providers.rs`, `chat_format.rs` — providers, their
    requests and replies, and the gateway's health-check schedule.
  - `config.rs`, `agent_manager.rs`, `project_handler.rs`, `workspace.rs`,
    `workspace_events.rs`, `logging.rs` — settings, agents, projects,
    workspace events and log files.
  - `shortcuts.rs`, `panels.rs`, `views.rs`, `launcher.rs`, `chat.rs`,
    `onboarding.rs`, `messages.rs` — what the desktop shows and how it reacts.
  - `text.rs`, `assoc.rs`, `pattern.rs`, `sys.rs`, `error.rs` — texts,
    association lists, regular expressions, the clock and errors.
- `tests/` — tests of the library on concrete values.
- `app/` — the program around the library: a terminal front end, file and
  network I/O, processes, the serialised forms of the library's types.
