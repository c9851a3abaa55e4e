# now_playing

Track what Apple Music is playing on macOS and serve it over HTTP: a menu bar
agent polls the player and posts changes, and a small API keeps the latest
state and renders it as JSON or as an SVG "now playing" card.

The decisions and data handling are a Verus-verified library; the processes
around it are ordinary Rust.

## Layout

- `src/` — the verified library
  - `model.rs`: the playback record, the agent's update, the API's response,
    and position extrapolation (frozen while paused, clamped to the duration).
  - `api.rs`: the API's store — bearer-token check, artwork decoding and
    typing, what an update changes and what a read answers.
  - `svg.rs`: the card — layout arithmetic, escaping, truncation, time labels,
    and the full markup around the progress fill the server computes.
  - `colors.rs`: hex colors, the artwork palette (buckets ranked by
    frequency, distinct colors), the seeded layout generator and the
    background mesh; image decoding goes through the `image` crate.
  - `music.rs`: the AppleScript protocol — parsing the player's report and the
    artwork export.
  - `agent.rs`: configuration and its checks, the preferences form, change
    detection between polls, status labels and the update the agent sends.
  - `text.rs`, `encoding.rs`: decimal and whitespace helpers; base64 through
    the `base64` crate.
- `tests/` — tests of the library on concrete values.
- `app/` — the executables: the axum server, the agent loop and its HTTP
  client, the configuration file, the menu bar UI (macOS only), and the
  floating-point color science of the card's theme.

Run the executable with the argument `api` for the server; any other invocation starts the
agent (the menu bar app when launched from an app bundle).
