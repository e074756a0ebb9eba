# slmodem-asterisk-bridge

A bridge that connects the audio socket of `slmodemd` to Asterisk, over ARI and
External Media on a WebSocket. Its decisions are a library verified with Verus;
sockets, timers and HTTP requests are a thin program around it.

## Layout

- `src/bridge.rs`: the course of the bridge, from registration to shutdown
- `src/ari_setup.rs`: the setup of one call, with clean-up on failure
- `src/session.rs`: the states of one call
- `src/dial_wait.rs`, `src/dial_string.rs`: dial commands and numbers
- `src/setup_drain.rs`, `src/event_drain.rs`: what is read and thrown away
- `src/relay.rs`, `src/codec.rs`: audio in both directions, slin and mu-law
- `src/silence.rs`, `src/slmodem.rs`, `src/text.rs`: smaller parts
- `app/`: the program
- `tests/`: the tests of the library

Each module states its laws as public proof functions, for instance that every
call that was made is torn down exactly once, and that the audio sent does not
depend on how the stream was cut into reads.

## Environment

- `ARI_BASE_URL` (default `http://127.0.0.1:8088/ari`)
- `ARI_USERNAME` (default `slmodem`)
- `ARI_PASSWORD` (default `slmodem`)
- `ARI_APP` (default `slmodem`)
- `ARI_DIAL_ENDPOINT_TEMPLATE` (default `PJSIP/{dial}@telnyx-out`)
- `ARI_ORIGINATE_TIMEOUT_SECS` (default `60`)
- `ARI_EXTERNAL_HOST` (default `INCOMING`)
- `ARI_MEDIA_FORMAT` (default `ulaw`)
- `ARI_MEDIA_TRANSPORT` (default `websocket`)
- `ARI_MEDIA_ENCAPSULATION` (default `none`)
- `ARI_MEDIA_CONNECTION_TYPE` (default `server`)
- `ARI_MEDIA_TRANSPORT_DATA` (recommended `f(json)`)
- `BRIDGE_CONNECT_TIMEOUT_MS` (default `3000`)
