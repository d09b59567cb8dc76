# rump

An Icecast streaming client: it captures what a PipeWire device plays, mixes a microphone in while
a key is held, turns the music down meanwhile, encodes the result as Ogg Vorbis or Ogg Opus and
sends it to an Icecast server.

- `src/` is the library: everything that the client decides or computes, with contracts that Verus
  proves. `streaming` is the course of a stream, `state` what runs, `timers` and `preferences` what
  the window shows and saves, `stream` the requests to the server, `opus` and `pages` the Opus
  stream, `samples`, `duck` and `mixer` the music, `pipewire` and `json` the devices, `ptt` push to
  talk, `config`, `audio`, `metadata` and `log` the rest. `text` and `bytes` serve them all.
- `tests/` runs the library.
- `app/` is the program around it: window, threads, files, sockets, encoders.

Numbers in floating point do not occur in the library. Settings carry them as bits
(`samples::FloatBits`); functions that work on samples leave the arithmetic to closures and say
which sample meets which.
