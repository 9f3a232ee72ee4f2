# rusterm_panels

The logic behind the panels of the rusterm desktop client: dialogs, dock, chat, remote files,
OneKey credentials, settings and the HTTP API. The functions in `src/` carry contracts that Verus
proves; a few calls into other crates, named below, are taken on trust.

- `src/` is the library, one module per panel. Shared modules: `text`, `search`, `number`, `sort`,
  `json`, `shell`, `curl`, `clock`, `posix_path`, `i18n` and `model`.
- `tests/` runs the library on concrete values.
- `app/` holds the components, built with dioxus. They keep the state in signals, draw it, and do
  what needs the outside world through the trait `Services`.

Messages come from a `Catalog` that the caller supplies; so do the built-in models, the prompt
presets and the defaults of the settings.

Calls into other crates stand in small wrappers whose contracts are not proved; the doc comment of
each names the function and says what is claimed of it. They are in `clock` (chrono),
`json` (serde_json) and `onekey_manager` (regex, uuid). `text` does the same for a few functions of
the standard library.
