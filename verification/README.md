# Pieeg Local Bridge

A local gateway that connects a browser producer to services on the user's own
network. Frames come in over a direct WebRTC data channel, a generic router turns
them into protocol-neutral messages, and adapters speak those onto the wire. OSC over
UDP is the first adapter.

    browser (WebRTC) -> router (generic mapping) -> adapters (OSC, ...)

The rules of the bridge are a library written in Verus: what each function promises
stands in its contract and is proved. The program around it does the I/O.

## Layout

| Path                  | What it holds                                                    |
| --------------------- | ---------------------------------------------------------------- |
| `src/router.rs`       | JSON frames to messages: envelopes first, flattening otherwise   |
| `src/json.rs`         | JSON values, and the way from raw bytes to them                  |
| `src/message.rs`      | Messages and their arguments                                     |
| `src/float.rs`        | Floating-point numbers by their bits, and their rounding         |
| `src/adapters/`       | The form that messages take in OSC                               |
| `src/transport/`      | Sessions: set-up, consent, retries, frames                       |
| `src/control.rs`      | Pairing codes, and the answers of the control API                |
| `src/body.rs`         | The JSON bodies of its answers                                   |
| `src/report.rs`       | What the control API shows of the bridge                         |
| `src/bridge.rs`       | The bridge as a whole, from one event to the next                |
| `src/config.rs`       | Defaults, the place of the file, and what happens without it     |
| `src/discovery.rs`    | The list of OSC destinations on the network                      |
| `src/update.rs`       | Whether a release is newer                                       |
| `src/state.rs`        | The state of the connection                                      |
| `src/text.rs`         | Text operations over characters                                  |
| `app/`                | The program: HTTP, WebRTC, UDP, mDNS, the tray, the command line |
| `tests/`              | Tests of the library                                             |

Properties that span several functions are public proof functions whose names start
with `law_`, next to the functions that they speak of.

## Data mapping

1. A frame whose `osc` field is an envelope, or a list of envelopes, is forwarded
   verbatim:

   ```json
   { "osc": { "address": "/avatar/parameters/EEG_Alpha", "args": [0.42] } }
   { "osc": [ { "address": "/a", "args": [1] }, { "address": "/b", "args": [true] } ] }
   ```

2. Any other frame is flattened: every number, truth value and string becomes a
   message whose address is the path to it. Metadata names (`type`, `t`, `ts`, ...)
   are skipped.

   ```json
   { "channels": [0.1, 0.2, 0.3], "t": 123 }
   ```

   becomes `/pieeg/channels/0 0.1`, `/pieeg/channels/1 0.2`, `/pieeg/channels/2 0.3`.

## Configuration file

| System  | Path                                                              |
| ------- | ----------------------------------------------------------------- |
| Windows | `%APPDATA%\pieeg\LocalBridge\config.json`                         |
| macOS   | `~/Library/Application Support/com.pieeg.LocalBridge/config.json` |
| Linux   | `~/.config/pieeg-local-bridge/config.json`                        |
