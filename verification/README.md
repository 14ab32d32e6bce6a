# palmtop

A phone as a second screen and touchpad for a laptop: the host captures its screen, encodes it and
sends it over an encrypted channel; the phone sends back pointer, keys and modes.

`src/` is the host's logic, verified with Verus. `app/` is the program around it: files, sockets,
ffmpeg, the desktop portal, PipeWire and Wayland. `tests/` runs the library on concrete values.

| module | what it holds |
| --- | --- |
| `proto`, `bytes`, `text`, `hex` | the messages and their bytes, numbers and text |
| `noise` | the encrypted channel: handshake, frames, chunks |
| `session`, `stream` | letting a client in, taking over, the course of a session, the order of what is sent |
| `annexb`, `encode`, `capture`, `pixels` | H.264 units, the mailboxes around the encoder, raw pictures |
| `modes`, `backend`, `config`, `setting` | presets, the choice of an encoder, the configuration files |
| `diagnostics`, `doctor` | the report on a machine |
| `input`, `keymap` | what a message does to the pointer and the keyboard |
| `pairing`, `cli` | the QR code, the announcement, the command line |
| `client`, `latency`, `recording` | the test client, measuring the capture, recording frames |

## What is trusted

The items marked `external_body` or `assume_specification`, each with a comment that says what is
believed of the function it calls: the Noise protocol (`snow`), QR codes (`qrcode`), and three
functions of the standard library on strings. Of the handshake it is believed that its two sides
come to the same shared secrets where all keys in play are real public keys; that each side then
accepts what the other makes, and that both end up with the two ends of one channel, is proved from
that. What a message of the handshake holds is random, and whether a forged one is refused is a
matter of the cryptography: neither is stated.
