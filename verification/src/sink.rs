//! The computational half of the sink client: assembling the single wire
//! body and query of a bulk-insert request, and interpreting the liveness
//! probe's response. The HTTP transport itself lives outside the library.

use vstd::prelude::*;
use vstd::string::StringExecFns;

verus! {

/// Concatenation of a sequence of byte rows into one body.
pub open spec fn flatten_bytes(rows: Seq<Seq<u8>>) -> Seq<u8>
    decreases rows.len(),
{
    if rows.len() == 0 {
        Seq::empty()
    } else {
        flatten_bytes(rows.drop_last()) + rows.last()
    }
}

/// Concatenates row payloads, in order, into the single body of one
/// bulk-insert request; rows are never sent in separate requests.
pub fn concat_rows(rows: &Vec<Vec<u8>>) -> (body: Vec<u8>)
    ensures
        body@ == flatten_bytes(rows@.map_values(|r: Vec<u8>| r@)),
{
    let ghost views = rows@.map_values(|r: Vec<u8>| r@);
    let mut body: Vec<u8> = Vec::new();
    let n = rows.len();
    let mut i: usize = 0;
    proof {
        assert(views.take(0) =~= Seq::<Seq<u8>>::empty());
    }
    while i < n
        invariant
            n == rows@.len(),
            views == rows@.map_values(|r: Vec<u8>| r@),
            0 <= i <= n,
            body@ == flatten_bytes(views.take(i as int)),
        decreases n - i,
    {
        let m = rows[i].len();
        let mut j: usize = 0;
        while j < m
            invariant
                n == rows@.len(),
                views == rows@.map_values(|r: Vec<u8>| r@),
                0 <= i < n,
                m == rows@[i as int]@.len(),
                0 <= j <= m,
                body@ == flatten_bytes(views.take(i as int)) + views[i as int].take(j as int),
            decreases m - j,
        {
            let b = rows[i][j];
            body.push(b);
            proof {
                assert(views[i as int].take(j + 1) =~= views[i as int].take(j as int).push(b));
                assert(body@ =~= flatten_bytes(views.take(i as int)) + views[i as int].take(
                    j + 1,
                ));
            }
            j += 1;
        }
        proof {
            assert(views[i as int].take(m as int) =~= views[i as int]);
            assert(views.take(i + 1).drop_last() =~= views.take(i as int));
            assert(views.take(i + 1).last() == views[i as int]);
            assert(body@ =~= flatten_bytes(views.take(i + 1)));
        }
        i += 1;
    }
    proof {
        assert(views.take(n as int) =~= views);
    }
    body
}

/// The query of one bulk-insert request: destination database and table,
/// the fixed binary row format, and the row-schema identifier.
pub fn build_insert_query(db: &str, table: &str, format_schema: &str) -> (q: String)
    ensures
        q@ == "INSERT INTO "@ + db@ + "."@ + table@
            + " FORMAT Protobuf SETTINGS format_schema='"@ + format_schema@ + "'"@,
{
    let mut q = String::from_str("INSERT INTO ");
    q.append(db);
    q.append(".");
    q.append(table);
    q.append(" FORMAT Protobuf SETTINGS format_schema='");
    q.append(format_schema);
    q.append("'");
    proof {
        assert(q@ =~= "INSERT INTO "@ + db@ + "."@ + table@
            + " FORMAT Protobuf SETTINGS format_schema='"@ + format_schema@ + "'"@);
    }
    q
}

/// Whether the liveness probe succeeded: the transport reported success and
/// the response body (with surrounding whitespace already removed) is the
/// sink's fixed acknowledgment text.
pub fn ping_response_ok(status_success: bool, trimmed_body: &str) -> (r: bool)
    ensures
        r == (status_success && trimmed_body@ == "Ok."@),
{
    status_success && crate::route::str_eq(trimmed_body, "Ok.")
}

} // verus!
