# dolphine

A toolkit for desktop applications whose window is a web page: a local HTTP
server serves the page, a websocket lets the page call Rust functions, and a
browser is started on the page in an application window.

- `src/` is the verified core, checked by Verus:
  - `text` — numerals, splitting, trimming, taking characters out;
  - `address` — the text of IPv4 and IPv6 addresses and of `address:port`;
  - `browsers` — the browsers, their registry keys, the launch command;
  - `dolphine` — a window's settings, its addresses, its folder source and
    the server state;
  - `registry` — window ids and the embedded folders by window id;
  - `functions` — the functions the page may call, by name;
  - `protocol` — the websocket messages;
  - `serve` — the answers to HTTP requests;
  - `expand` — the code text the function attributes write.
- `app/` is the running part: the HTTP server (rocket), the websocket
  (tokio-tungstenite), the browser process, the Windows registry lookups,
  the process-wide state, serde's wire forms, and the attributes' token
  handling (syn, quote).
- `tests/` runs the core on concrete values.
