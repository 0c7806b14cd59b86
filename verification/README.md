# agon_control

Remote control of an Agon emulator over HTTP, joypad input on its GPIO pins, and the rolling capture
of its sound, with contracts proved by Verus.

- `src/control_server.rs`: what a request asks for, what it does to the shared state, what it is
  answered
- `src/http.rs`, `src/query.rs`, `src/text.rs`: request lines, query strings, numbers, responses
- `src/link.rs`: the server's end of the channel to the eZ80 thread, with a log of what passed
- `src/debugger.rs`: questions to the eZ80 thread, the search for their answers, and the registers of
  the `ez80` crate
- `src/audio.rs`: the rolling capture
- `src/joypad.rs`: which pins joystick, hat, button and virtual pad input writes
- `src/laws.rs`: what holds of the control server as a whole
- `app/`: the listener, the SDL audio callback and the pins themselves

## Endpoints

| Request | Answer |
| --- | --- |
| `GET /status` | contract, emulator, platform, frame, paused, running (JSON) |
| `GET /screenshot` | the latest frame as a portable pixmap |
| `GET /audio` | the sound captured since the last read |
| `GET /mem?addr=&len=[&bank=]` | memory bytes; a bank is tolerated and ignored |
| `GET /regs` | the eZ80 registers (JSON) |
| `POST /step?frames=N` | runs N frames, halts, and answers the frame counter |
| `POST /pause`, `POST /resume` | halts, runs freely |
| `POST /key?text=c` or `?code=vk`, `[&down=0 or 1]` | injects a key; without `down`, a tap |
| `POST /reset` | soft reset |

A known path asked by another method is answered 405, any other path 404.

## What is trusted

Contracts that are not proved stand on `String::from_utf8_lossy`, on the two ends of a
`std::sync::mpsc` channel, and on the reads of `ez80::Registers`. Each says so in its doc comment.
