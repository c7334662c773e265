//! Measurement arithmetic, verdicts and report text for a command-line
//! internet speed tester.
//!
//! Every quantity is held in fixed point: latencies are measured in
//! microseconds and reported in hundredths of a millisecond, throughputs in
//! hundredths of a megabit per second, loss rates in tenths of a percent and
//! data volumes in hundredths (or tenths) of a mebibyte.
pub mod bufferbloat;
pub mod info;
pub mod output;
pub mod regional;
pub mod stats;
pub mod tester;
pub mod text;
pub mod util;
pub mod verdict;
