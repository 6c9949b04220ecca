//! Tails an ADIF log: finds where the complete records in a growing byte buffer end,
//! hands them out chunk by chunk, and decides what a watching process does next.

pub mod credential;
pub mod endpoint;
pub mod reader;
pub mod segment;
pub mod status;
pub mod upload;
pub mod watch;
