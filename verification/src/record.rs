//! The record that the store holds for one command.

use crate::decimal::{decimal_i64, decimal_text, parse_i64, render_i64};
use vstd::prelude::*;
use vstd::string::*;

verus! {

/// The attribute under which the store keeps a record's identifier. It is
/// the key of the table, and holds a string.
pub const ID_ATTRIBUTE: &'static str = "command";

/// The attribute under which the store keeps a record's count. It holds a
/// number, which the store hands over as text.
pub const COUNT_ATTRIBUTE: &'static str = "count";

/// The record of one command: its identifier and, as text, the number of
/// times it has been seen.
///
/// The count is text because that is how the store keeps a number. The text
/// may be missing or may not be a number at all: the store is shared, and
/// nothing keeps another writer from leaving such a record behind.
#[derive(Clone, Debug, PartialEq, Eq)]
pub struct CommandRecord {
    /// The command identifier, which is also the record's key.
    pub id: String,
    /// The stored count, absent where the record holds no number.
    pub count: Option<String>,
}

/// A `CommandRecord` as contracts see it.
pub struct RecordView {
    pub id: Seq<char>,
    pub count: Option<Seq<char>>,
}

impl View for CommandRecord {
    type V = RecordView;

    open spec fn view(&self) -> RecordView {
        RecordView { id: self.id@, count: self.count.deep_view() }
    }
}

impl DeepView for CommandRecord {
    type V = RecordView;

    open spec fn deep_view(&self) -> RecordView {
        self@
    }
}

/// `text` is a count: it denotes an integer that is not negative and that
/// fits an `i64`.
pub open spec fn is_count(text: Seq<char>) -> bool {
    decimal_i64(text) matches Some(v) && v >= 0
}

/// The count that a stored text stands for: the integer it denotes where it
/// is a count, and 0 where it is missing or is no count.
pub open spec fn count_of(text: Option<Seq<char>>) -> int {
    match text {
        Some(t) => if is_count(t) {
            decimal_i64(t).unwrap() as int
        } else {
            0
        },
        None => 0,
    }
}

impl RecordView {
    /// The record of `id` with the count `count`.
    pub open spec fn counted(id: Seq<char>, count: int) -> RecordView {
        RecordView { id, count: Some(decimal_text(count)) }
    }

    /// The count that the record stands for.
    pub open spec fn count_value(self) -> int {
        count_of(self.count)
    }
}

/// A record written with a count that fits an `i64` and is not negative
/// stands for that count.
pub proof fn lemma_counted_record_reads_back(id: Seq<char>, count: int)
    requires
        0 <= count <= i64::MAX,
    ensures
        RecordView::counted(id, count).count_value() == count,
{
    crate::decimal::lemma_decimal_i64_round_trip(count as i64);
}

impl CommandRecord {
    /// The record of `id` with the count `count`.
    pub fn counted(id: String, count: i64) -> (r: CommandRecord)
        ensures
            r@ == RecordView::counted(id@, count as int),
    {
        CommandRecord { id, count: Some(render_i64(count)) }
    }

    /// The count that the record stands for: the number its text denotes, or
    /// 0 where the text is missing or is no count.
    pub fn count_value(&self) -> (r: i64)
        ensures
            r == self@.count_value(),
            0 <= r,
    {
        match &self.count {
            Some(text) => match parse_i64(text.as_str()) {
                Some(v) => if v >= 0 {
                    v
                } else {
                    0
                },
                None => 0,
            },
            None => 0,
        }
    }
}

} // verus!
