# pinentry-zellij

A pinentry for [Zellij](https://zellij.dev): gpg-agent's passphrase prompts
(and `SSH_ASKPASS` / `SUDO_ASKPASS` prompts) open as a floating dialog in a
Zellij plugin pane, with a terminal fallback outside Zellij.

The library in `src/` holds the logic, each function with a contract that
Verus proves:

- `assuan`, `percent`, `state`, `decimal`: the Assuan protocol engine. A line
  from gpg-agent goes in, the reply bytes (or a request to ask the user) come
  out; setters accumulate into the request, percent escapes are decoded, data
  is sent in `D` lines of at most 1000 bytes.
- `tty`: the terminal dialog as steps (what to write, what to read, what a
  reply leads to), run against a `TtyIo` terminal.
- `handler`, `zellij`, `embed`, `cli`: the plugin's answer, the `zellij pipe`
  arguments and plugin URL, plugin installation decisions, the command line.
- `plugin`: the plugin's state machine (which requests it takes, how it sizes
  and places its pane, how keys edit the PIN, what it answers).
- `ui`, `backend`, `symbol`: the dialog's size and layout, what it paints
  (drawn with ratatui), and the grid of cells rendered as ANSI text.
- `text`, `convert`, `secret`: strings, UTF-8 and wiping secrets.

The `law_*` proof functions state what holds across calls: data sent in
`D` lines reads back as sent, a PIN typed into the plugin is what Enter
answers, the dialog never shows the PIN, and so on.

`app/` is the program around the library: standard input and output, the
environment, spawning `zellij pipe`, JSON, the file system, and the Zellij
plugin host. `tests/` runs the library on concrete cases.
