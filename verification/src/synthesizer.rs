//! Synthesizer voices: a generator coupled with an envelope and a trigger
//! state machine.

pub mod basic_synthesizer;
