# taller_film

Storyboards described as data, verified with Verus.

A storyboard spec (title, frame format, style and up to 24 scenes of puppets,
captions and camera moves) is checked against a closed schema before a frame is
drawn; the library proves that `Spec::validate` accepts exactly the specs inside
the schema and otherwise reports the first broken rule with the scene it came
from. The rest of `src/` is the frame bookkeeping of playing a film: which
scene shows each frame, the storyboard's key frames, contact sheet sampling and
layout, and the decisions of an MP4 export.

- `src/binary32.rs` – schema numbers as IEEE-754 bit patterns, compared exactly.
- `src/vocabulary.rs` – closed vocabularies, defaults, `one_of`, `drawable`.
- `src/storyboard.rs` – the spec types, `validate`, `size`, and their laws.
- `src/palette.rs`, `src/scene.rs` – palettes and scenes ready to play.
- `src/timeline.rs`, `src/contact_sheet.rs`, `src/export.rs` – frame bookkeeping.
- `app/` – YAML reading (serde), and the single-precision arithmetic of playback.
