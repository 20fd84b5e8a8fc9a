# npushell

A shell copilot that talks to a local OpenAI-compatible LLM server: it suggests
fixes for failed commands, explains commands, suggests commands and answers
questions.

- `src/` is the verified library (Verus): prompts, output text, markdown
  cleaning, edit distance and near-miss detection, history selection,
  configuration defaults and rendering, the chat-completion request and reply
  protocol, and the shell-hook helpers.
- `app/` is the command-line program around it: argument parsing, HTTP, files,
  environment and terminal.
- `tests/` exercises the library on concrete values.
