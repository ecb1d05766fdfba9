# kai_bridge

A WebSocket ↔ KAI bridge. Browsers send evaluation requests over a WebSocket;
the bridge forwards them, one line each, to a KAI process over TCP, routes each
answer back to the browser that asked, and broadcasts KAI's `SUP` state-update
lines to every browser.

- `src/` is the verified library: the frames (`protocol`), the `SUP` line
  grammar (`sup`), whitespace trimming (`text`), the KAI connection's state
  machine (`kai_conn`), the browser connection's decisions (`ws_handler`) and
  the reconnect delay (`backoff`).
- `app/` is the program around it: argument parsing, sockets, the async tasks
  and channels, and the JSON encoding of frames.
