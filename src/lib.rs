//! Fan-out of independent units of work with a single-fire "first finisher"
//! gate: the decisions of a run (which completion wins, when the run is over,
//! what the summary holds) as verified state machines, plus the small pure
//! pieces around them (reading a command list, classifying a unit's output,
//! following audio playback status).
pub mod commands;
pub mod gate;
pub mod outcome;
pub mod playback;
pub mod run;
