//! Runs a shell-like command expression — external programs joined by the
//! operators `;` (sequence), `&&` (conditional-and) and `|` (pipe) — and
//! aggregates one unified result (exit status or signal, merged stdout and
//! stderr), from which a timestamped report is rendered.
//!
//! The crate holds the command-sequencing engine itself: the segmenter that
//! splits a raw expression into operator-annotated segments, the state
//! machine that walks those segments and folds each process outcome into the
//! running aggregate, and the renderer that turns the finished aggregate into
//! the report's bytes. Spawning real processes, reading clocks and parsing
//! command-line flags are left to the thin driver around the library.

pub mod aggregate;
pub mod numeral;
pub mod report;
pub mod segment;
pub mod sequencer;
pub mod text;
