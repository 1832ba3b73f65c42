# playout

A playout server for a dashcam slow-TV stream: it loops a directory of clips
and publishes them as one continuous, gapless RTSP stream. Commands come in and
the playhead goes out over NATS, and a restarted instance resumes where the last
one left off.

What plays, what is published and when, what a command does and where playback
resumes is decided in a verified library. The program around it owns the
pipeline, the sockets and the clock; which streams of a clip are selected, in
what order elements are torn down, and how payloads are decoded is settled
there.

## The library (`src/`)

Written in Verus. Each function's contract says what it returns or changes, and
the proof functions named `law_*` state what holds across functions.

| module      | what it decides                                                        |
|-------------|------------------------------------------------------------------------|
| `playlist`  | which files are clips, their order, moving along it                    |
| `player`    | the live clips: boundaries, failures, redirects, the playhead          |
| `seek`      | where a playhead move lands, whether a clip is worth seeking           |
| `survey`    | which clip durations a move looks up, and the estimate for the rest    |
| `nats`      | wire names, commands, resuming, the last-value cache                   |
| `publish`   | the publish slot and when the relay's path is taken                    |
| `watchdog`  | reading the relay's answers, when the publish counts as dead           |
| `streak`    | counting failures in a row                                             |
| `elements`  | what the pipeline is built of                                          |
| `http`      | what the endpoints answer                                              |
| `telemetry` | what metric records carry, where they are exported to                  |
| `config`    | settings, and the output rules                                         |
| `runloop`   | frame gaps, operator commands, how the run ends                        |
| `json`      | JSON objects, by `serde_json`                                          |
| `text`      | operations on strings                                                  |

A decode bin is known to the library by a number. An operation answers with what
is to be done (bins to tear down, to bring up, to end), and the program does it.

## The program (`app/`)

GStreamer, NATS, HTTP, OTLP, Sentry and the file system, around the library.

## Tests (`tests/`)

Concrete cases, run against the compiled library.
