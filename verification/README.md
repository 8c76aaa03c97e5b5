# vida

The core of a desktop assistant that talks to several model providers
(Ollama, OpenAI, Anthropic, Google Gemini), runs teams of agents side by
side, lets models call tools offered by MCP servers, and guards what those
tools may touch.

`src/` is the library, written and proved with Verus. Each public function
states what it returns, or how it changes its arguments, in its `requires`
and `ensures`; the `law_*` proof functions state properties that hold across
calls (what a workspace mode allows, that a team keeps an owner, that a
sign-in with the stored password succeeds, that streamed text is cut into
the same lines however it arrives, and others).

- `access`, `permissions`, `tool_gate`, `tool_validator`: who may do what to
  which files, what each permission mode answers, how tool calls are checked.
- `agent_loop`: the loop in which a model asks for tools and gets their results.
- `chat`, `teams`, `accounts`, `auth`, `remote`, `telegram`, `headless`: the
  decisions behind conversations, teams, accounts, the remote API and the bot.
- `provider_formats`, `vision`, `replies`, `streaming`, `provider_setup`, `registry`:
  what is sent to each provider, how its replies and streams are read, and
  which providers are set up.
- `mcp`: the JSON-RPC messages of MCP servers and the book of running servers.
- `security`: encryption, password hashing and the keychain.
- `json`, `fspath`, `keyed`, `text`: documents, paths, keyed lists and text.

`tests/` exercises the library. `app/` is a small command-line front end:
it reads streamed replies, workspace settings and MCP servers through the
library and does the I/O around it.
