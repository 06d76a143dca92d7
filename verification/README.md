# Vinilo

The logic of a music player and of `aguja`, the terminal client that drives it,
written in Verus: every function of the library states what it does in a
contract, and Verus proves it.

- `src/` is the library. It works on plain values: it opens no socket, reads no
  file and asks no clock.
  - `aguja/` is the terminal client: what each key asks for, what each answer
    changes, and what is on the screen.
  - `player/` is the playback engine's side: its protocol, the mirror of what it
    is doing, and the rules by which it is found, fed and restarted.
  - `mpris/` is what the desktop sees of the player.
  - `music/` and `spotify/` read what the two services answer and say what is to
    be asked of them next.
  - The other modules are the catalogue, the queue, lyrics, listening history
    and statistics, settings, sorting, and the texts of the interface.
  - `text`, `json`, `natural`, `double`, `decimal`, `order`, `percent`, `paths` and
    `steps` are what the rest is written in.
- `tests/` runs the library.
- `app/` is the program around it: the terminal, the bus, HTTP, files, sound.

What is believed and not proved stands in four places: `String::push` and letter
case in `text`, reading and quoting JSON in `json`, the digest in `lastfm`, and
the quoted form of a text in `player::protocol`.
