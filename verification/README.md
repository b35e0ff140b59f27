# openloom

The decision logic of the openLoom local-first assistant, written in Verus and proved
against its contracts.

- `src/` is the verified library. It holds the command-line grammar (`cli`), the slash
  commands and chat-screen state (`commands`, `chat_view`, `chat_loop`, `app_state`,
  `input`, `keys`, `overlays`), the text rendering (`markdown`, `wrap`, `render_text`,
  `message_layout`), and the agent loop and engine decisions (`agent_loop`, `engine`,
  `engine_ops`, `model_choice`, `models`, `tools`, `vision`). It also holds the chat
  bridges (`bridge_types`, `bridge_adapters`, `bridge_router`, `bridge_status`, `security`)
  and the stores kept on disk (`checkpoint`, `skill_bundles`, `skills`, `user_skills`,
  `plugin_fs`, `marketplace_sources`, `secrets`, `download`).
  Calls into serde_json, chrono, rand, unicode-width and the parts of std that vstd does
  not specify go through small trusted wrappers (`json`, `clock`, `text`, `wrap`), each
  with a doc comment saying what its contract claims.
- `tests/` runs the library on concrete values.
- `app/` is the program around the library: argument handling, reading and writing
  files, and the YAML and JSON formats of the files it keeps.
