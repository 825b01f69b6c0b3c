//! A rotation scheduler that turns a one-shot sampling profiler session into
//! a long-running capture service: every interval the accumulated report is
//! written to a uniquely named file and the session is reset.

pub mod naming;
pub mod builder;
pub mod worker;
pub mod laws;
