# frame_fighter

Input processing for fighting games, written in Verus.

Each frame, the library evaluates which actions a fighter holds (directions,
buttons, composite actions, charge counters, opposite-direction cleaning),
records the frame in an input history, and matches that history against a
move list with per-step input windows, lenient enders and charge moves.

Layout:

- `src/` holds the verified library. Every function there carries a
  `requires`/`ensures` contract proved by Verus. `src/properties.rs` states
  and proves the laws that span several functions. For example, opposite
  directions are never both pressed, charge counters stay bounded, and the
  history never grows past its size.
- `src/indexed.rs`, `src/move_order.rs` and `src/text.rs` hold the trusted
  boundary: the calls into `indexmap` and into `std` that Verus takes on
  their stated contracts.
- `app/` is the Godot extension (godot-rust). It reads the engine's input
  and resources, passes plain values to the library and turns the results
  back into engine objects.
- `tests/` runs the library on concrete inputs.
