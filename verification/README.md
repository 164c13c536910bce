# TuneSmith

Deterministic, rule-based music composition, with its logic verified by Verus.

- `src/` is the verified library: the musical data model (`types`), the
  seeded composition engine (`composition`: harmony, melody, rhythm), the
  mood catalogue and presets (`mood`), the Standard MIDI File encoder and
  the export rules (`export`), the rules of the track library (`metadata`),
  text matching (`text`) and the seeded generator (`random`).
- `tests/` runs the library on concrete values.
- `app/` is the command-line program around the library: audio synthesis
  and mixing, voice-over processing, audio devices, WAV and GarageBand
  files, and the on-disk library index.

Every function of the library states what it returns in its contract;
the laws that span functions (replaying a seed gives the same tracks, a
VLQ reads back as the value written, sorting events by time is stable and
keeps every event, generated tracks are note pairs, names parse back to
what they name) are proof functions next to the code they speak of.
