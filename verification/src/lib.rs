//! Parsing, bookkeeping and decision logic of a crawler that lists mailbox
//! locations from a directory site and has each address looked up by an
//! address-validation service. Network traffic is left to the caller: every
//! function here maps values to values.

pub mod atmb;
pub mod record;
pub mod seqs;
pub mod smarty;
pub mod text;
pub mod utils;
