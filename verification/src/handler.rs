//! The one endpoint's behaviour: which rows the fixed query selects, and
//! how a query outcome becomes an HTTP response.
//!
//! The endpoint `GET /api/test1` runs
//! `SELECT field1, field2 FROM data WHERE field2 > 995` and answers with the
//! rows as a JSON array. A failed query is swallowed by design: the caller
//! gets an empty array with a success status either way, and only the log
//! tells the two apart.

use vstd::prelude::*;
use crate::json::json_of_records;
use crate::record::Record;
use crate::record::RecordView;
use crate::record::table_view;

verus! {

/// Rows are returned exactly when their integer field exceeds this bound.
pub const FIELD2_THRESHOLD: i32 = 995;

/// The status code of every response the endpoint produces.
pub const OK_STATUS: u16 = 200;

/// A database error carried to the handler: the driver's message, as text.
pub struct QueryError {
    pub message: String,
}

/// An HTTP response as the endpoint shapes it: a status code and a JSON
/// body.
pub struct ApiResponse {
    pub status: u16,
    pub body: String,
}

/// Whether the fixed query selects this row.
pub open spec fn row_selected(r: RecordView) -> bool {
    r.field2 > FIELD2_THRESHOLD as int
}

/// The rows the fixed query returns for a table: those whose integer field
/// exceeds the threshold, in table order.
pub open spec fn selected_rows(t: Seq<RecordView>) -> Seq<RecordView>
    decreases t.len(),
{
    if t.len() == 0 {
        Seq::<RecordView>::empty()
    } else if row_selected(t.last()) {
        selected_rows(t.drop_last()) + seq![t.last()]
    } else {
        selected_rows(t.drop_last())
    }
}

/// The selection of a prefix one row longer keeps the selection of the
/// prefix and appends the row exactly when the query selects it.
proof fn lemma_selected_rows_step(t: Seq<RecordView>, i: int)
    requires
        0 <= i < t.len(),
    ensures
        row_selected(t[i]) ==> selected_rows(t.take(i + 1)) == selected_rows(t.take(i)) + seq![
            t[i],
        ],
        !row_selected(t[i]) ==> selected_rows(t.take(i + 1)) == selected_rows(t.take(i)),
{
    let p = t.take(i + 1);
    assert(p.drop_last() =~= t.take(i));
    assert(p.last() == t[i]);
}

/// The rows the fixed query returns on the given table, in table order.
/// This is the query's contract run on an in-memory table, so the handler
/// can be exercised without a database.
pub fn select_matching(table: &Vec<Record>) -> (out: Vec<Record>)
    ensures
        table_view(out@) == selected_rows(table_view(table@)),
{
    let ghost all = table_view(table@);
    let mut out: Vec<Record> = Vec::new();
    let n = table.len();
    let mut i: usize = 0;
    proof {
        assert(table_view(out@) =~= selected_rows(all.take(0)));
    }
    while i < n
        invariant
            n == table@.len(),
            i <= n,
            all == table_view(table@),
            all.len() == n,
            table_view(out@) == selected_rows(all.take(i as int)),
        decreases n - i,
    {
        let row = &table[i];
        if row.field2 > FIELD2_THRESHOLD {
            let copy = row.duplicate();
            out.push(copy);
        }
        proof {
            assert(all[i as int] == table@[i as int]@);
            lemma_selected_rows_step(all, i as int);
            assert(table_view(out@) =~= selected_rows(all.take(i + 1 as int)));
        }
        i = i + 1;
    }
    proof {
        assert(all.take(n as int) =~= all);
    }
    out
}

/// Maps a query outcome to the response the endpoint sends. This is the
/// single seam where a database error is swallowed: the status is the
/// success status whatever happened, and an error leaves the body the
/// encoding of no rows at all.
pub fn respond(outcome: Result<Vec<Record>, QueryError>) -> (r: ApiResponse)
    ensures
        r.status == OK_STATUS,
        outcome matches Ok(rows) ==> r.body@ == json_of_records(table_view(rows@)),
        outcome is Err ==> r.body@ == json_of_records(Seq::<RecordView>::empty()),
{
    let rows = match outcome {
        Ok(rows) => rows,
        Err(_) => Vec::new(),
    };
    proof {
        assert(table_view(Seq::<Record>::empty()) =~= Seq::<RecordView>::empty());
    }
    let body = crate::json::encode_records(&rows);
    ApiResponse { status: OK_STATUS, body }
}

/// The line logged for a failed query, `None` when the query succeeded.
pub fn error_log_line(outcome: &Result<Vec<Record>, QueryError>) -> (l: Option<String>)
    ensures
        outcome is Ok ==> l is None,
        outcome matches Err(e) ==> (l matches Some(m) && m@ == "Database error: "@ + e.message@),
{
    match outcome {
        Ok(_) => None,
        Err(e) => {
            let mut m = String::from_str("Database error: ");
            m.append(e.message.as_str());
            Some(m)
        },
    }
}

/// The body the endpoint answers with for a table, when the query succeeds:
/// the selected rows, encoded as a JSON array.
pub open spec fn response_body_for_table(t: Seq<RecordView>) -> Seq<char> {
    json_of_records(selected_rows(t))
}

/// Repeated identical requests against an unchanged table return identical
/// results: the handler holds no state, so the body is a function of the
/// table contents alone.
pub proof fn lemma_identical_requests(t1: Seq<RecordView>, t2: Seq<RecordView>)
    requires
        t1 == t2,
    ensures
        response_body_for_table(t1) == response_body_for_table(t2),
{
}

/// Whatever rows the query returned — and so whatever the outcome, success
/// or swallowed failure — the body is bracketed as a JSON array: it opens
/// with `[` and closes with `]`.
pub proof fn lemma_body_is_json_array(rs: Seq<RecordView>)
    ensures
        json_of_records(rs).len() >= 2,
        json_of_records(rs).first() == '[',
        json_of_records(rs).last() == ']',
{
    reveal_strlit("[");
    reveal_strlit("]");
    let body = json_of_records(rs);
    assert(body[0] == '[');
    assert(body.last() == ']');
}

/// An empty table — and equally a swallowed database error — answers with
/// the empty JSON array.
pub proof fn lemma_empty_table_body()
    ensures
        response_body_for_table(Seq::<RecordView>::empty()) == "[]"@,
        json_of_records(Seq::<RecordView>::empty()) == "[]"@,
{
    reveal_strlit("[");
    reveal_strlit("]");
    reveal_strlit("[]");
    assert(selected_rows(Seq::<RecordView>::empty()) =~= Seq::<RecordView>::empty());
    assert(json_of_records(Seq::<RecordView>::empty()) =~= "[]"@);
}

} // verus!
