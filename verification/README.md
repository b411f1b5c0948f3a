# glap

GLAP (GameLord's Audio Player) is a terminal audio player. This crate holds
its logic as a library verified with Verus, and the terminal program around
it.

- `src/audio/audio_player.rs`: the playback cursor over decoded samples, the
  buffers handed to the sound device, skipping two seconds, restarting.
- `src/audio_player.rs`: the first form of the player, with a play switch.
- `src/audio/processing.rs`: gathering the samples of a track while a file is
  decoded.
- `src/app.rs`: the player's state and how it reacts to keys, to the decoding
  thread and to the end of a song (repeat off, repeat all, repeat one).
- `src/utils.rs`: theme colours from names, palette indices and hex codes.
- `src/config.rs`: the configuration's types, the folder the explorer opens
  in, and the theme's colours.
- `src/midi.rs`: the MIDI reader of the first version: header, chunks,
  variable length quantities, the walk through a track.
- `app/`: the program: configuration file, terminal, SDL2 sound device,
  Symphonia decoding, drawing.
