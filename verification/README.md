# interop_tests

A server node and a browser exchange one block of data over libp2p: the server announces the
address it listens on, a page with that address is opened in a headless browser, the browser names
the block that it holds, and the server fetches the block over bitswap and looks at it.

- `src/` is the verified library. It holds the identifiers and their binary form (`varint`, `hash`,
  `content`, `block`), the messages (`peer`), the addresses (`address`), the decisions of either
  side (`server`, `client`), and what the browser is given and how it is started (`text`, `page`,
  `browser`).
- `tests/` runs the library on concrete values.
- `app/` is the program around it: the swarm, the web server, the browser driver, and the WebAssembly
  entry point of the client.
  It also uses `beetswap` and `libp2p-webrtc` (in the browser `libp2p-webrtc-websys` and the
  `wasm-bindgen` crates), which `Cargo.toml` does not name: `beetswap` needs a release of `core2`
  that was withdrawn. Whoever builds the program adds them, and
  for the browser leaves out `process` and `rt-multi-thread` of `tokio`, which are not for it.
