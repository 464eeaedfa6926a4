# rm_pad

Building blocks for forwarding reMarkable tablet pen input to a desktop,
written in Verus with their behaviour stated as contracts and proved.

- `src/fit.rs` — fitting the pen area into a target rectangle (fill, contain,
  cover) and mapping pen points into it, with laws about containment,
  covering, aspect ratio, clamping and monotonicity.
- `src/screen.rs` — the whole-desktop mapping built from display rectangles.
- `src/display.rs` — aspect ratios and resolutions: parsing, formatting,
  reduction to lowest terms (Euclid's algorithm) and round-trip laws.
- `src/eraser.rs` — what the eraser end does, its names and mouse buttons.
- `src/pen.rs` — the per-frame decisions of pen forwarding as a state machine.
- `src/config.rs` — merging command-line options over the configuration file,
  and choosing the SSH target and authentication.
- `src/text.rs`, `src/arith.rs`, `src/keys.rs` — helpers: decimal text,
  truncating division, and key codes from `evdevil`.
- `app/` — unverified plumbing: argument parsing, the ssh config file,
  display enumeration, uinput devices and the forwarding loop.
