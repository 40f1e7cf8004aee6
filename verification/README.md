# faber

A multi-agent AI tool for the command line, with a verified core.

The library in `src/` holds the rules of the program: what a chat session does with a command, how
agents are claimed and released, when tasks run, how messages between agents are delivered, how a
conversation is summarized, how files are edited, how math is found in an answer and laid out, how
requests to a database server are read and answered. Each function states in its contract what it
returns, and Verus proves it. Properties that span several functions stand beside them as public
proof functions.

- `database`, `agent_data`, `conversations`, `notifications`, `task_store`, `collection`: the
  stored state and its operations, over the rows in `store` and at the time that `clock` gives;
  `dispatch` and `rpc` carry them to a client.
- `session`, `chat_loop`, `commands`, `summarize`, `progress`: the interactive session.
- `tools`, `file_tools`, `write_file`, `patch_file`, `agent_tools`, `tool_args`: the tools that a
  model may call.
- `status_bar`, `listing`, `latex_split`, `latex_doc`, `kitty`: what is shown in the terminal.
- `mcp`, `github`, `schedule`, `options`, `dummy_llm`, `history`: the surroundings.
- `text`, `words`, `numbers`, `order`, `rows`, `table`, `json`, `messages`: the basics.

Calls into other crates stand behind small wrappers whose contracts are believed; each says in its
comment which function it calls and what it claims of it.

The program around the library is in `app/`: the command line, files, the network, the SQLite file,
the line editor and the terminal.
