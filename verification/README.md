# otvetka

A desktop helper that drafts replies to chat messages with a local language
model (llama-server) and draws pictures with stable-diffusion.cpp.

- `src/` is the library, verified with Verus: prompt building, parsing of the
  model's answers into reply variants, decoding of server-sent event streams,
  the state machines of the text and image engines, the model catalogs,
  download progress, graphics card detection from the engine's device list,
  settings and their defaults.
- `tests/` runs the library on concrete values.
- `app/` is the Tauri application around it: windows, tray, hotkey,
  clipboard, processes, HTTP and files.
