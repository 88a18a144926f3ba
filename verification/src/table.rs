//! The command table as the updates see it, and what a run of updates
//! amounts to.
//!
//! The table is modelled as a map from command identifiers to records. An
//! invocation is one whole update against it: the lookup, then the write of
//! what `counter` makes of the lookup's reply. The proofs below say what
//! counts such invocations answer with, one after another and overlapping.

use crate::counter::{
    lookup_request, next_count, prior_count, write_request, LookupRequestView, WriteRequestView,
};
use crate::decimal::{decimal_text, lemma_decimal_round_trip};
use crate::record::{is_count, lemma_counted_record_reads_back, RecordView};
use vstd::prelude::*;

verus! {

/// The contents of the command table: the record stored under each
/// identifier that has one.
pub type Table = Map<Seq<char>, RecordView>;

/// What a lookup finds in `table`: the record under the key, if there is one.
pub open spec fn lookup(table: Table, request: LookupRequestView) -> Option<RecordView> {
    if table.dom().contains(request.key) {
        Some(table[request.key])
    } else {
        None
    }
}

/// The table after a write: the record stands under its identifier, in place
/// of what stood there, and every other record is as it was.
pub open spec fn write(table: Table, request: WriteRequestView) -> Table {
    table.insert(request.record.id, request.record)
}

/// What the lookup of an update of `command` finds in `table`.
pub open spec fn found(table: Table, command: Seq<char>) -> Option<RecordView> {
    lookup(table, lookup_request(command))
}

/// The count that one invocation for `command` answers with, when no other
/// update touches the table meanwhile.
pub open spec fn count_after_invocation(table: Table, command: Seq<char>) -> int {
    next_count(found(table, command))
}

/// The table that one invocation for `command` leaves, when no other update
/// touches the table meanwhile.
pub open spec fn table_after_invocation(table: Table, command: Seq<char>) -> Table {
    write(table, write_request(command, found(table, command)))
}

/// The table that the invocations for `commands` leave, made one after
/// another in that order.
pub open spec fn table_after_run(table: Table, commands: Seq<Seq<char>>) -> Table
    decreases commands.len(),
{
    if commands.len() == 0 {
        table
    } else {
        table_after_invocation(table_after_run(table, commands.drop_last()), commands.last())
    }
}

/// How many times `command` occurs in `commands`.
pub open spec fn occurrences(commands: Seq<Seq<char>>, command: Seq<char>) -> nat
    decreases commands.len(),
{
    if commands.len() == 0 {
        0
    } else if commands.last() == command {
        occurrences(commands.drop_last(), command) + 1
    } else {
        occurrences(commands.drop_last(), command)
    }
}

/// An invocation for a command that has no record answers with 1, and leaves
/// the command's record with the count 1.
pub proof fn lemma_first_invocation_counts_one(table: Table, command: Seq<char>)
    requires
        !table.dom().contains(command),
    ensures
        count_after_invocation(table, command) == 1,
        found(table_after_invocation(table, command), command) == Some(
            RecordView::counted(command, 1),
        ),
{
}

/// An invocation for a command whose record holds no count, or a text that
/// is no count, answers with 1: the stored value is taken as 0.
pub proof fn lemma_unreadable_count_restarts(table: Table, command: Seq<char>)
    requires
        table.dom().contains(command),
        table[command].count matches Some(text) ==> !is_count(text),
    ensures
        prior_count(found(table, command)) == 0,
        count_after_invocation(table, command) == 1,
        found(table_after_invocation(table, command), command) == Some(
            RecordView::counted(command, 1),
        ),
{
}

/// An invocation leaves every record in place and adds at most one, that of
/// its own command: no record is deleted, and no command has two.
pub proof fn lemma_invocation_keeps_the_records(table: Table, command: Seq<char>)
    ensures
        table_after_invocation(table, command).dom() == table.dom().insert(command),
{
    assert(table_after_invocation(table, command).dom() =~= table.dom().insert(command));
}

/// An invocation touches no record but that of its own command.
pub proof fn lemma_invocation_keeps_other_records(
    table: Table,
    command: Seq<char>,
    other: Seq<char>,
)
    requires
        other != command,
    ensures
        found(table_after_invocation(table, command), other) == found(table, other),
        count_after_invocation(table_after_invocation(table, command), other)
            == count_after_invocation(table, other),
{
}

/// The invocation that follows another for the same command answers with one
/// more, and leaves another record: an invocation is not idempotent.
///
/// The first of the two must have had room to count: a count of `i64::MAX`
/// cannot be added to.
pub proof fn lemma_next_invocation_counts_one_more(table: Table, command: Seq<char>)
    requires
        prior_count(found(table, command)) < i64::MAX,
    ensures
        count_after_invocation(table_after_invocation(table, command), command)
            == count_after_invocation(table, command) + 1,
        table_after_invocation(table_after_invocation(table, command), command)
            != table_after_invocation(table, command),
{
    let count = count_after_invocation(table, command);
    let once = table_after_invocation(table, command);
    let twice = table_after_invocation(once, command);
    lemma_counted_record_reads_back(command, count);
    assert(once[command] == RecordView::counted(command, count));
    assert(twice[command] == RecordView::counted(command, count + 1));
    lemma_decimal_round_trip(count);
    lemma_decimal_round_trip(count + 1);
    assert(decimal_text(count) != decimal_text(count + 1));
}

/// After a run of invocations that began when `command` had no record, the
/// command's record holds the number of times the command occurred in the
/// run, and there is no record where it did not occur.
proof fn lemma_run_counts_occurrences(table: Table, commands: Seq<Seq<char>>, command: Seq<char>)
    requires
        !table.dom().contains(command),
        occurrences(commands, command) <= i64::MAX,
    ensures
        found(table_after_run(table, commands), command) == if occurrences(commands, command)
            == 0 {
            None
        } else {
            Some(RecordView::counted(command, occurrences(commands, command) as int))
        },
    decreases commands.len(),
{
    if commands.len() > 0 {
        let earlier = commands.drop_last();
        lemma_run_counts_occurrences(table, earlier, command);
        if commands.last() == command {
            lemma_counted_record_reads_back(command, occurrences(earlier, command) as int);
        }
    }
}

/// The `n`-th invocation for a command answers with `n`.
///
/// `commands` are the invocations made so far, one after another, since a
/// time when `command` had no record; invocations for other commands may
/// stand among them. `command` occurs `n - 1` times in it, and the next
/// invocation for it is the `n`-th.
///
/// `n` is at most `i64::MAX`, the largest count that an update can give.
pub proof fn lemma_nth_invocation_counts_n(
    table: Table,
    commands: Seq<Seq<char>>,
    command: Seq<char>,
    n: nat,
)
    requires
        !table.dom().contains(command),
        occurrences(commands, command) + 1 == n,
        n <= i64::MAX,
    ensures
        count_after_invocation(table_after_run(table, commands), command) == n,
{
    lemma_run_counts_occurrences(table, commands, command);
    if n > 1 {
        lemma_counted_record_reads_back(command, n - 1);
    }
}

/// Two invocations for one command that overlap lose an update.
///
/// Both lookups are answered from `table` before either write is made. Then
/// both invocations answer with the same count, the table ends as one
/// invocation alone would have left it, and the invocation after them
/// answers with one more than they did, not two.
pub proof fn lemma_overlapping_invocations_lose_an_update(table: Table, command: Seq<char>)
    requires
        prior_count(found(table, command)) < i64::MAX,
    ensures
        ({
            let seen = lookup(table, lookup_request(command));
            let first = write_request(command, seen);
            let second = write_request(command, seen);
            let end = write(write(table, first), second);
            &&& end == table_after_invocation(table, command)
            &&& count_after_invocation(end, command) == next_count(seen) + 1
        }),
{
    let seen = lookup(table, lookup_request(command));
    let first = write_request(command, seen);
    let end = write(write(table, first), first);
    assert(end =~= table_after_invocation(table, command));
    lemma_next_invocation_counts_one_more(table, command);
}

} // verus!
