//! Summary of one program execution trace.
//!
//! A [`summary::ProgramSummary`] holds the trace of one execution together
//! with the sequences derived from it. It answers two questions: how many
//! steps the execution took, and how often each opcode was executed. The
//! answer to the second is a histogram, whose model and laws are in
//! [`histogram`]; [`tally`] and [`order`] hold the steps that compute it.

pub mod histogram;
pub mod opcode;
pub mod order;
pub mod summary;
pub mod tally;
pub mod trace;
