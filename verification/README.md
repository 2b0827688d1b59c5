# codex-kit

Parts of a coding agent, as a verified library: each function states in its contract what it gives
back or changes, and Verus proves it.

- `src/js_repl/`: running JavaScript in kernels. Reading what the model sends, the sessions and the
  code that runs in them, output so far, tool calls, what is told when a kernel ends, and the
  version of the runtime.
- `src/approval/`: the overlay that asks the user to approve commands, changes of files and requests
  of tool servers.
- `src/user_input.rs`, `src/elicitation_form.rs`: questions to the user, and forms of tool servers as
  such questions.
- `src/sandbox_policy.rs`: sandbox policies and their merge.
- `src/terminal_title.rs`, `src/title_setup.rs`: the title of the terminal window and its setup.
- `src/sleep_inhibitor.rs`: keeping the machine awake.
- `src/text.rs`, `src/bytes.rs`, `src/numbers.rs`, `src/json.rs`, `src/string_map.rs`, `src/tools.rs`:
  what the other modules are made of.

The library computes on plain values. Time is counted in nanoseconds and handed in; kernels are known
by number; a number in floating point is known by its place in the order of doubles and by its
notation. `app/` holds the processes, the terminal, the clock and the formats of messages around it.

Laws that relate several functions are public proof functions named `lemma_..`, beside the functions
that they speak of. What is taken from std and other crates without proof stands in items marked
`#[verifier::external_body]` or written `assume_specification`, whose comments say what is claimed of
them.
