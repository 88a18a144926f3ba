//! The counter update: look the command's record up, add one, write it back.
//!
//! The store is reached by the caller, not from here. One update is three
//! steps, each a function of what the store answered:
//!
//! 1. `log_command` takes the command and gives the lookup to perform;
//! 2. `AwaitingLookup::on_reply` takes what the lookup found and gives the
//!    record to write;
//! 3. `AwaitingWrite::on_reply` takes the outcome of the write and gives the
//!    new count.
//!
//! A failed lookup or write ends the update with `StoreUnavailable`; nothing
//! is tried again. The lookup and the write are two separate operations, so
//! two updates of one command that overlap can both read the same count, and
//! one of the two additions is then lost.
//!
//! Every command is an identifier like any other, the empty one too: it is
//! counted under the key `""`. Whether the store takes such a key is the
//! store's matter; where it does not, its refusal is a failed lookup.

use crate::record::{lemma_counted_record_reads_back, CommandRecord, RecordView};
use vstd::prelude::*;
use vstd::string::*;

verus! {

/// The table that holds the command records.
pub const TABLE_NAME: &'static str = "my-table";

/// A request to read the record stored under `key`.
#[derive(Clone, Debug, PartialEq, Eq)]
pub struct LookupRequest {
    pub table_name: String,
    pub key: String,
}

/// A `LookupRequest` as contracts see it.
pub struct LookupRequestView {
    pub table_name: Seq<char>,
    pub key: Seq<char>,
}

impl View for LookupRequest {
    type V = LookupRequestView;

    open spec fn view(&self) -> LookupRequestView {
        LookupRequestView { table_name: self.table_name@, key: self.key@ }
    }
}

/// A request to store `record` under its identifier, in place of whatever is
/// stored there.
#[derive(Clone, Debug, PartialEq, Eq)]
pub struct WriteRequest {
    pub table_name: String,
    pub record: CommandRecord,
}

/// A `WriteRequest` as contracts see it.
pub struct WriteRequestView {
    pub table_name: Seq<char>,
    pub record: RecordView,
}

impl View for WriteRequest {
    type V = WriteRequestView;

    open spec fn view(&self) -> WriteRequestView {
        WriteRequestView { table_name: self.table_name@, record: self.record@ }
    }
}

/// Why an update gave no count.
#[derive(Clone, Debug, PartialEq, Eq)]
pub enum CounterError {
    /// The store failed to read or to write. The text is the store's own
    /// account of the failure.
    StoreUnavailable(String),
}

/// A `CounterError` as contracts see it.
pub enum CounterErrorView {
    StoreUnavailable(Seq<char>),
}

impl View for CounterError {
    type V = CounterErrorView;

    open spec fn view(&self) -> CounterErrorView {
        match self {
            CounterError::StoreUnavailable(description) => CounterErrorView::StoreUnavailable(
                description@,
            ),
        }
    }
}

impl CounterErrorView {
    /// The failure in words.
    pub open spec fn description(self) -> Seq<char> {
        match self {
            CounterErrorView::StoreUnavailable(description) => description,
        }
    }
}

impl CounterError {
    /// The failure in words: for `StoreUnavailable`, the store's own account.
    pub fn description(&self) -> (r: String)
        ensures
            r@ == self@.description(),
    {
        match self {
            CounterError::StoreUnavailable(description) => description.clone(),
        }
    }
}

/// The lookup that an update of `command` begins with.
pub open spec fn lookup_request(command: Seq<char>) -> LookupRequestView {
    LookupRequestView { table_name: TABLE_NAME@, key: command }
}

/// The count that the command had before the update, given what the lookup
/// found: the count of the record found, 0 where none was found.
pub open spec fn prior_count(found: Option<RecordView>) -> int {
    match found {
        Some(record) => record.count_value(),
        None => 0,
    }
}

/// The count that the command has after the update.
pub open spec fn next_count(found: Option<RecordView>) -> int {
    prior_count(found) + 1
}

/// The write that an update of `command` makes, given what the lookup found:
/// the command's record with the new count.
pub open spec fn write_request(command: Seq<char>, found: Option<RecordView>) -> WriteRequestView {
    WriteRequestView {
        table_name: TABLE_NAME@,
        record: RecordView::counted(command, next_count(found)),
    }
}

/// Whatever the lookup found, the count before the update is not negative
/// and the count after it is at least 1.
pub proof fn lemma_counts_are_positive(found: Option<RecordView>)
    ensures
        prior_count(found) >= 0,
        next_count(found) >= 1,
{
}

/// The count that the command had before the update, given what the lookup
/// found.
pub fn stored_count(found: &Option<CommandRecord>) -> (r: i64)
    ensures
        r == prior_count(found.deep_view()),
        0 <= r,
{
    match found {
        Some(record) => record.count_value(),
        None => 0,
    }
}

/// An update that waits for the reply to its lookup.
#[derive(Debug)]
pub struct AwaitingLookup {
    command: String,
}

/// An update that waits for the reply to its write. The count it holds is
/// at least 1.
#[derive(Debug)]
pub struct AwaitingWrite {
    count: i64,
}

/// Begins the update for one occurrence of `command`: gives the lookup to
/// perform, and the state that takes its reply.
///
/// Any text is a command, the empty one too.
pub fn log_command(command: String) -> (r: (AwaitingLookup, LookupRequest))
    ensures
        r.0.command() == command@,
        r.1@ == lookup_request(command@),
{
    let key = command.clone();
    (AwaitingLookup { command }, LookupRequest { table_name: String::from_str(TABLE_NAME), key })
}

impl AwaitingLookup {
    /// The command that is being counted.
    pub closed spec fn command(&self) -> Seq<char> {
        self.command@
    }

    /// Takes the reply to the lookup: `Ok` with the record found, if any, or
    /// `Err` with the store's account of its failure.
    ///
    /// After a lookup that succeeded the update goes on: the result is the
    /// write to perform, of the command's record with one more than the count
    /// found, and the state that takes the reply to it. After one that failed
    /// the update ends with `StoreUnavailable`.
    ///
    /// The count found must leave room for one more: it is less than
    /// `i64::MAX`. `stored_count` tells.
    pub fn on_reply(self, reply: Result<Option<CommandRecord>, String>) -> (r: Result<
        (AwaitingWrite, WriteRequest),
        CounterError,
    >)
        requires
            reply matches Ok(found) ==> prior_count(found.deep_view()) < i64::MAX,
        ensures
            match reply {
                Ok(found) => {
                    &&& r matches Ok((next, request))
                    &&& next.count() == next_count(found.deep_view())
                    &&& next.count() >= 1
                    &&& request@ == write_request(self.command(), found.deep_view())
                    &&& request@.record.count_value() == next.count()
                },
                Err(description) => {
                    &&& r matches Err(error)
                    &&& error@ == CounterErrorView::StoreUnavailable(description@)
                },
            },
    {
        match reply {
            Ok(found) => {
                let count: i64 = stored_count(&found) + 1;
                let request = WriteRequest {
                    table_name: String::from_str(TABLE_NAME),
                    record: CommandRecord::counted(self.command, count),
                };
                proof {
                    lemma_counted_record_reads_back(self.command@, count as int);
                }
                Ok((AwaitingWrite { count }, request))
            },
            Err(description) => Err(CounterError::StoreUnavailable(description)),
        }
    }
}

impl AwaitingWrite {
    #[verifier::type_invariant]
    spec fn counts_at_least_one(&self) -> bool {
        self.count >= 1
    }

    /// The count that the update answers with once the write has succeeded.
    pub closed spec fn count(&self) -> int {
        self.count as int
    }

    /// Takes the reply to the write: `Ok`, or `Err` with the store's account
    /// of its failure.
    ///
    /// After a write that succeeded the result is the new count, which is at
    /// least 1. After one that failed the update ends with
    /// `StoreUnavailable`, and no count is given.
    pub fn on_reply(self, reply: Result<(), String>) -> (r: Result<i64, CounterError>)
        ensures
            match reply {
                Ok(_) => {
                    &&& r matches Ok(count)
                    &&& count == self.count()
                    &&& count >= 1
                },
                Err(description) => {
                    &&& r matches Err(error)
                    &&& error@ == CounterErrorView::StoreUnavailable(description@)
                },
            },
    {
        proof {
            use_type_invariant(&self);
        }
        match reply {
            Ok(_) => Ok(self.count),
            Err(description) => Err(CounterError::StoreUnavailable(description)),
        }
    }
}

} // verus!
