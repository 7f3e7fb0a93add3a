# Proto-Control

A Linux daemon for the Melbourne Instruments Roto-Control. Every PipeWire audio stream gets a knob
for its volume and a button for mute, with the stream's name, color and track title on the
displays; volumes are remembered for each application, and given back to a stream that starts
again. A settings window renames streams, picks colors and manages users of Discord and
TeamSpeak.

- `src/` is the library. It does no input or output: each module says what is to be sent and makes
  sense of what came in, and Verus proves that it does so as its contracts say.
  - `text`, `double`, `json`, `lines`: texts, doubles held as bits, JSON through `serde_json`,
    lines from sockets
  - `protocol`, `midi`, `ports`: the device's serial protocol, its MIDI messages, its port
  - `config`, `pipewire`, `surface`: what is set for streams, which streams there are, what the
    knobs and buttons show and do
  - `settings`, `tray`: the settings window and the tray icon
  - `discord`, `teamspeak`, `order`, `mpv`: the voice services, the order of their members, and
    the player
- `app/` is the program around it: processes, sockets, the serial port, MIDI, files, the window.
  Whatever is computed with floating-point numbers stays there too.
- `tests/` runs the library on concrete values.

## What is not proved

The library trusts what its trusted items say of `serde_json` (in `json`), of `png` (in `tray`) and
of `str::to_lowercase`, `String::from_utf8_lossy` and `String::push` (in `text`).
