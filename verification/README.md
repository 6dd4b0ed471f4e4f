# guitar_pitch_detection

Polyphonic guitar pitch detection.  The library (`src/`) holds the integer
and byte-level logic of the detector, each function with a contract proved by
Verus:

| Module         | Contents                                                                 |
|----------------|--------------------------------------------------------------------------|
| `notes`        | pitch class, octave and note name of a MIDI note                         |
| `types`        | chord qualities and the recognised-chord description                     |
| `chord`        | chord recognition from pitch classes, with its laws (order independence, transposition, exact matches preferred) |
| `detector`     | harmonic (octave) suppression over energy-ordered candidate notes        |
| `modulation`   | per-note rolling pitch histories, the set of histories of sounding notes, transposition of MIDI notes |
| `audio_buffer` | bounded capture queue, zero-padded frames, frame-by-frame sample cursor   |
| `wav`          | RIFF/WAVE decoding to raw samples and mono 16-bit encoding, with the round-trip law |
| `ffi`          | chord quality codes and NUL-terminated name buffers for the C interface  |

`app/` is the host layer in ordinary Rust: the floating-point resonator bank
and detector, modulation classification, technique detection, the cycfi/q
bindings, the C interface, audio file decoding and live capture (rodio,
cpal), and the command-line front ends.

`tests/` exercises the library on concrete values.
