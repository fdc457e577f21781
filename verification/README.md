# codepop

The verified core of Codepop, a macOS helper that explains selected code
with the Gemini model. `src/` holds the logic with its contracts, checked by
Verus; `app/` holds the desktop shell (Tauri window, tray and shortcut,
clipboard capture, file and HTTP I/O) that performs what the library decides.

- `text`: character-sequence helpers (split, join, trim, decimal, lowercase).
- `i18n`: the Korean/English message choice and the language toggle.
- `json`: the JSON model that replies and settings are read and written through.
- `paths`, `config`: file locations, settings defaults, the settings file's content.
- `cache`: cache keys (SHA-256 of code, prompt version, language), entry
  paths and the least-recently-used pruning choice.
- `gemini`: line numbering, prompt, request, retry policy, reply interpretation.
- `shortcut`: reading shortcut text such as `cmd+shift+e`.
- `selection`: copy detection and the selection length rules.
- `analysis`: the steps of one analysis, from settings to shown answer.
