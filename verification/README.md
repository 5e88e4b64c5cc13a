# daklak

The core of a Vietnamese input method, verified with Verus, and the program around it.

`src/` is the library. It decides; it touches nothing outside itself.

- `engine`, `keystrokes`, `words`: the syllable engine's state, and how text on screen turns
  back into keys.
- `composer`: one text input — keys in, edits out, and what surrounding text is believed.
- `edit`: how an edit reaches a client: surrounding text, forwarded keys, a virtual keyboard.
- `handler`: the daemon — settings, on and off, focus, and which key goes where.
- `evdev`, `ibus`, `wayland`: what each transport hears and answers.
- `supervisor`, `backend`, `control`, `ipc`, `tray`, `cli`: which backend runs, and who may say so.
- `config`, `settings_file`, `hooks`, `preflight`, `logging`: settings, scripts and checks.
- `strings`, `text`, `numbers`, `paths`, `json`, `clock`: the ground that the rest stands on.

Each module's contracts speak of texts as sequences of characters. Public proof functions
named `law_…` state what holds across several functions.

`app/` is the program: devices, buses, sockets, processes and files.
`tests/` runs the library on concrete values.
