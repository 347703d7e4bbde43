# fun_cli

A terminal toolbox with two parts: *Thunder Fighter*, a small shooting game
played with the arrow keys and the space bar, and a music command that looks a
song up on a web service, shows its spectrum and plays it.

- `src/` is the library, verified with Verus: the game's rules (moving,
  shooting, collisions, damage, score, spawning and clearing enemies), the
  search address of the music command, its progress bar and playback
  decisions, and the screen geometry. `src/games/thunder_fighter/laws.rs`
  holds the properties proved of the game as a whole.
- `app/` is the program around it: command-line parsing, the terminal, the
  network, audio decoding and playback, and the spectrum's floating-point
  arithmetic.
- `tests/` runs the library on concrete cases.
