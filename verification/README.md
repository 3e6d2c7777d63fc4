# blinky

A Discord bot that joins a voice channel on `/join` and talks through the
Gemini Live API. The crate is split in two:

- `src/` is the library, written in Verus and verified:
  - `frame`: WebSocket data frames (build, mask, read back), with the
    proof that reading a built frame gives its payload back;
  - `websocket`: the opening handshake (key, request, accept value, reply check);
  - `codec`: Base64 and SHA-1, called from the `base64` and `sha1` crates;
  - `gemini`: the Live API message model and the messages the bot sends;
  - `voice`: Discord voice gateway payloads;
  - `commands`: the `/join` command's decisions;
  - `bot`: how gateway events change the voice session and what the bot does;
  - `text`: byte search, string equality, decimal text.
- `app/` is the program: gateway, HTTP, voice and Gemini connections, JSON on
  the wire, and the songbird audio source.
