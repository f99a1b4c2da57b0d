//! A deterministic benchmark-timing harness, and the two suites that run on
//! it.
//!
//! The harness: a reproducible pseudo-random generator (`rng`), running
//! statistics over timing samples (`stats`), the clock (`clock`), the
//! protocol of warmup and measured runs (`timing`), and the comparison of a
//! candidate with a baseline together with the lines of the report
//! (`report`, `text`).
//!
//! The hash-table suite compares a Swiss table (`swiss`) with the standard
//! library's map and set. Both stand behind one interface (`table`,
//! `members`), the units of work are written once for both (`workload`,
//! `checksum`), and the cases run them under the protocol (`map_cases`,
//! `set_cases`, `memory`). A case hands back its result together with the
//! samples of all its runs and with what its units computed.
//!
//! The parallel suite compares parallel primitives (`parallel`) with
//! sequential code (`sequence`) in the same way (`parallel_cases`).
//!
//! What the drivers of both suites need besides is in `suite`.

pub mod rng;
pub mod stats;
pub mod clock;
pub mod timing;
pub mod text;
pub mod report;
pub mod swiss;
pub mod checksum;
pub mod table;
pub mod members;
pub mod workload;
pub mod map_cases;
pub mod set_cases;
pub mod memory;
pub mod sequence;
mod parallel;
pub mod parallel_cases;
pub mod suite;
