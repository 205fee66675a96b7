# ChatGPT 中文启动器 — verified launcher logic

A launcher for the official ChatGPT desktop app on Windows that starts the app
with a loopback-only debug port, attaches to its page over the DevTools
protocol, registers a page script that switches the app to its own Chinese
resources, and adds a button for Windows voice typing.

The decisions of the launcher are a Verus library (`src/`), proved against
their contracts:

- `text` — white-space trimming, ASCII case folding, prefix and substring tests.
- `target` — which DevTools targets are ChatGPT pages, their rank, and the one
  the launcher attaches to.
- `websocket` — only a `ws` address on a loopback host at the launcher's port
  is accepted.
- `http` — the GET request to the debug endpoint, when a reply is complete,
  the body it carries, and the message for each refused reply.
- `json` — JSON values and the lookups the protocol code makes.
- `cdp` — the protocol commands, how replies are told from events, how the
  page's reports are read; `script` holds the page script.
- `monitor` — the page monitor: re-attaching, following the locale setting,
  reloading the page at most once, and noticing that the app was closed.
- `report` — the lines of the diagnostic log and the voice-typing notice.
- `desktop` — message boxes, the Win+H key strokes, the app's command line,
  and how the system queries' answers are read.

`app/` is the program around it: sockets, the WebSocket connection, the
Windows API calls and the main loop, each step decided by the library.
`tests/` runs the library on concrete inputs.
