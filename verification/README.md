# signal-call-tunnel

Handles one voice call per process. A parent process speaks to the tunnel over a Unix control
socket, one JSON record per line; the tunnel drives the call engine (`ringrtc`) and exchanges
audio through virtual devices, or as raw PCM over a second socket.

`src/` is the verified library: what a line means, who may speak, what the call engine is told,
which lines go back, and how PCM is buffered and paced. `app/` is the program around it: sockets,
threads, the clock and the call engine.

| Module | What it holds |
|--------|---------------|
| `text`, `payload` | text comparison, decimal numbers, base64 payloads |
| `json`, `document`, `escape` | JSON trees as they are read, JSON records as they are written |
| `message`, `message_doc` | control messages, and that their lines are understood as meant |
| `channel`, `control` | queues, the auth token, the control channel |
| `platform`, `line_text` | events of the call engine, and their lines letter by letter |
| `call` | what each message has the call engine do |
| `config` | the startup configuration |
| `pipe_audio`, `audio_clock` | PCM buffers, the pipe session, the 10 ms clock loop |
| `audio_peer` | that a peer is sent and heard in its own time only |

Functions whose names begin with `law_` state what holds of the library as a whole.

## Running

The tunnel reads one line of JSON from standard input:

| Field | Type | Description |
|-------|------|-------------|
| `call_id` | `u64` | call identifier |
| `is_outgoing` | `bool` | whether this side began the call |
| `control_socket_path` | `string` | path of the Unix control socket |
| `control_token` | `string` | token that the parent process must show first |
| `local_device_id` | `u32` | device number |
| `input_device_name`, `output_device_name` | `string?` | virtual devices; by default `signal_input` and `signal_output`, with the call id after them where devices are made per call |
| `audio_mode` | `string?` | `pipe` or `device` |

Messages to the tunnel: `auth`, `createOutgoingCall`, `proceed`, `receivedOffer`,
`receivedAnswer`, `receivedIce`, `accept`, `hangup`.

Messages from the tunnel: `ready`, `stateChange`, `sendOffer`, `sendAnswer`, `sendIce`,
`sendHangup`, `sendBusy`, `error`.

## What is trusted

The proofs rest on the contracts of a few calls that Verus does not look into: base64 encoding and
decoding, the JSON reader, the constant-time comparison, and `str::to_lowercase`. Each is a small
function marked `external_body`, with a comment that says what is claimed.
