//! Process-supervision and event-streaming core for a desktop bridge that
//! launches an external data-collection worker and relays its output,
//! line by line, to a listening user interface.
//!
//! The verified library covers the decision logic: resolving interpreter and
//! script paths, building the worker's argument list, constructing the launch
//! specification, turning stream lines into log events, and modelling the
//! event sequence of a whole run. The host shell performs the actual process
//! spawning, stream reading and event emission around these functions.

pub mod args;
pub mod events;
pub mod explorer;
pub mod interleave;
pub mod launch;
pub mod numeral;
pub mod paths;
pub mod relay;
pub mod run;
