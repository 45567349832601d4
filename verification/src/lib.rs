//! A conversational agent whose replies can schedule recurring messages,
//! save files and remember facts.
//!
//! The library holds the rules: how action blocks are read out of a reply
//! (`agent`), what the agent remembers and how its system instructions follow
//! from it (`agent`), when a schedule is valid and when it fires (`schedule`),
//! which timers are live and who is told when one fires (`scheduler`), and
//! what the two frontends say and show (`telegram`, `tui`). Whatever talks to
//! a file, a database, a network or a terminal is left to the program around
//! it, which hands the library plain values and acts on what it gets back.
pub mod agent;
pub mod config;
pub mod json;
pub mod memory;
pub mod pattern;
pub mod schedule;
pub mod scheduler;
pub mod telegram;
pub mod text;
pub mod tui;
pub mod workspace;
