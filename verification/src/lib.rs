//! A counter of command occurrences, kept in a key-value store.
//!
//! Each invocation names a command. The service looks the command's record
//! up in the store, adds one to the count found there (or starts at one),
//! writes the record back and answers with the new count.
//!
//! The library holds the decisions and leaves the two store operations to its
//! caller: `counter::log_command` says what to look up, the reply is handed
//! to `AwaitingLookup::on_reply`, which says what to write, and the reply to
//! that goes to `AwaitingWrite::on_reply`, which gives the count. `handler`
//! shapes the answer of one invocation, `table` states what a run of
//! invocations against the command table amounts to, and `decimal` reads and
//! writes the text in which a count is stored.

pub mod counter;
pub mod decimal;
pub mod handler;
pub mod record;
pub mod table;
