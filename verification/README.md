# demido_studio

The decision and text logic of Demido Studio, a desktop chat client for hosted and local
language models, written in Verus with its behaviour stated in contracts and proved.

- `src/` is the library: capability resolution (what each provider reports, the registry, the
  user's pins), the permission rule, the boot sequence, the command line, the chat turn's
  decisions, the messages each provider is sent, the tools the model is offered, how each provider's stream
  (server-sent chunks read with `serde_json`) folds into an answer, streamed-output splitting, tool-call recovery and argument typing, the Google and Hugging Face data shaping,
  the local runtime's choices, the database schema's versions and stored columns, the Markdown export, and the file explorer.
- `tests/` runs the library on concrete values.
- `app/` is the `demido-studio` command line around it: argument handling, the app-data folder,
  the skills folder and the MCP server table in the app's SQLite database.
