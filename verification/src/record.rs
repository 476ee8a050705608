//! The one entity the service serves: a two-field record projected from a
//! database row.

use vstd::prelude::*;

verus! {

/// Mathematical image of a [`Record`]: the text field as a sequence of
/// characters and the integer field as an unbounded integer.
pub struct RecordView {
    pub field1: Seq<char>,
    pub field2: int,
}

/// A row of the `data` table as the endpoint returns it: a text column and
/// an integer column. Records are read-only projections; the service never
/// creates or mutates rows.
pub struct Record {
    pub field1: String,
    pub field2: i32,
}

impl View for Record {
    type V = RecordView;

    open spec fn view(&self) -> RecordView {
        RecordView { field1: self.field1@, field2: self.field2 as int }
    }
}

/// The views of a sequence of records, in order.
pub open spec fn table_view(rows: Seq<Record>) -> Seq<RecordView> {
    rows.map_values(|r: Record| r@)
}

impl Record {
    /// A field-for-field copy of the record.
    pub fn duplicate(&self) -> (r: Record)
        ensures
            r@ == self@,
    {
        Record { field1: self.field1.clone(), field2: self.field2 }
    }
}

} // verus!
