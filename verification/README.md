# ts3_ai_bot

A TeamSpeak 3 support bot whose decisions are verified with Verus.

- `src/` is the verified library: permission rules, reading model replies
  into bot actions, tickets, name history, profile learning, prompt
  assembly, the server snapshot shown to the model, chat commands, message
  splitting, audio decisions and text utilities. Each public function
  states its result in its contract; the `law_*` proof functions state what
  holds across calls.
- `app/` is the program around it: the TeamSpeak connection, HTTP calls to
  the model, files, processes and audio encoding. It hands plain values to
  the library and performs what the library decides.
- `tests/` runs the library on concrete values.
