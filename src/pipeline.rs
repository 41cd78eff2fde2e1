//! The worker step of the crawl, and what holds of a whole run.
//!
//! Workers take records from a shared queue, each record exactly once, and
//! emit one output row per record in whatever order they finish. A run is
//! described here by its records, the outcome of each record's lookup, and
//! either the order in which rows were emitted (a schedule) or the worker
//! that handled each record (a share).
use vstd::prelude::*;

use crate::lookup::LookupError;
use crate::matcher::{find_match, match_of};
use crate::types::{opt_view, APIResponse, ArtistTrack, SearchCsv, SearchHit};

verus! {

/// The outcome of one record's lookup: the response, or a transport failure.
pub type Lookup = Result<APIResponse<SearchHit>, LookupError>;

/// An output row as values: artist, track, matched path.
pub type Row = (Seq<char>, Seq<char>, Option<Seq<char>>);

/// The path found for `record` given its lookup: the first matching hit of
/// a response, none after a failure.
pub open spec fn path_for(record: ArtistTrack, lookup: Lookup) -> Option<Seq<char>> {
    match lookup {
        Ok(resp) => match_of(resp.response.hits@, record.artist@, record.track@),
        Err(_) => None,
    }
}

/// The row emitted for `record` given its lookup.
pub open spec fn row_of(record: ArtistTrack, lookup: Lookup) -> Row {
    (record.artist@, record.track@, path_for(record, lookup))
}

/// The values of an output row.
pub open spec fn row_view(row: SearchCsv) -> Row {
    (row.artist_name@, row.track_name@, opt_view(row.api_path))
}

/// Resolves one record from the outcome of its lookup: a response is matched
/// against the record, a failed lookup leaves the record unmatched.
pub fn crawl_record(artist_track: ArtistTrack, lookup: Lookup) -> (r: SearchCsv)
    ensures
        row_view(r) == row_of(artist_track, lookup),
        lookup is Err ==> r.api_path is None,
{
    match lookup {
        Ok(resp) => {
            let api_path = find_match(resp.response.hits, &artist_track);
            SearchCsv::from(artist_track, api_path)
        },
        Err(_) => SearchCsv::from(artist_track, None),
    }
}

/// Number of data rows in a table whose text has `n_lines` lines, the first
/// being the header.
pub fn rows_minus_header(n_lines: usize) -> (r: usize)
    requires
        n_lines >= 1,
    ensures
        r == n_lines - 1,
{
    n_lines - 1
}

/// Index `i` appears among the first `n` entries of `order`.
pub open spec fn emitted(order: Seq<int>, n: int, i: int) -> bool {
    exists|k: int| 0 <= k < n && #[trigger] order[k] == i
}

/// `order` lists each of the indices `0..n` exactly once.
pub open spec fn is_schedule(order: Seq<int>, n: int) -> bool {
    &&& order.len() == n
    &&& forall|k: int| 0 <= k < n ==> 0 <= #[trigger] order[k] < n
    &&& forall|k1: int, k2: int|
        0 <= k1 < n && 0 <= k2 < n && k1 != k2 ==> #[trigger] order[k1] != #[trigger] order[k2]
    &&& forall|i: int| 0 <= i < n ==> #[trigger] emitted(order, n, i)
}

/// The rows of a run that emitted the records in `order`.
pub open spec fn run_rows(records: Seq<ArtistTrack>, lookups: Seq<Lookup>, order: Seq<int>) -> Seq<Row> {
    Seq::new(order.len(), |k: int| row_of(records[order[k]], lookups[order[k]]))
}

/// Every record read gets exactly one row, with its own artist and track,
/// whatever order the workers emit them in.
pub proof fn lemma_one_row_per_record(
    records: Seq<ArtistTrack>,
    lookups: Seq<Lookup>,
    order: Seq<int>,
    i: int,
)
    requires
        lookups.len() == records.len(),
        is_schedule(order, records.len() as int),
        0 <= i < records.len(),
    ensures
        run_rows(records, lookups, order).len() == records.len(),
        exists|k: int|
            0 <= k < order.len() && order[k] == i && #[trigger] run_rows(records, lookups, order)[k]
                == row_of(records[i], lookups[i]),
        forall|k1: int, k2: int|
            0 <= k1 < order.len() && 0 <= k2 < order.len() && order[k1] == i && order[k2] == i
                ==> k1 == k2,
{
    let n = records.len() as int;
    assert(emitted(order, n, i));
    let k = choose|k: int| 0 <= k < n && #[trigger] order[k] == i;
    assert(run_rows(records, lookups, order)[k] == row_of(records[i], lookups[i]));
}

/// The set of rows of a run does not depend on the order in which the
/// workers emitted them: one worker and many give the same rows.
pub proof fn lemma_rows_independent_of_schedule(
    records: Seq<ArtistTrack>,
    lookups: Seq<Lookup>,
    order1: Seq<int>,
    order2: Seq<int>,
)
    requires
        lookups.len() == records.len(),
        is_schedule(order1, records.len() as int),
        is_schedule(order2, records.len() as int),
    ensures
        run_rows(records, lookups, order1).to_set() == run_rows(records, lookups, order2).to_set(),
{
    lemma_rows_are_all(records, lookups, order1);
    lemma_rows_are_all(records, lookups, order2);
}

proof fn lemma_rows_are_all(records: Seq<ArtistTrack>, lookups: Seq<Lookup>, order: Seq<int>)
    requires
        lookups.len() == records.len(),
        is_schedule(order, records.len() as int),
    ensures
        run_rows(records, lookups, order).to_set() == Set::new(
            |r: Row| exists|i: int| 0 <= i < records.len() && r == row_of(records[i], lookups[i]),
        ),
{
    let n = records.len() as int;
    let rows = run_rows(records, lookups, order);
    let all = Set::new(|r: Row| exists|i: int| 0 <= i < n && r == row_of(records[i], lookups[i]));
    assert forall|r: Row| rows.to_set().contains(r) implies all.contains(r) by {
        let k = choose|k: int| 0 <= k < rows.len() && rows[k] == r;
        assert(r == row_of(records[order[k]], lookups[order[k]]));
    }
    assert forall|r: Row| all.contains(r) implies rows.to_set().contains(r) by {
        let i = choose|i: int| 0 <= i < n && r == row_of(records[i], lookups[i]);
        assert(emitted(order, n, i));
        let k = choose|k: int| 0 <= k < n && #[trigger] order[k] == i;
        assert(rows[k] == r);
    }
    assert(rows.to_set() =~= all);
}

/// How many records of `share` the worker `w` handled.
pub open spec fn handled_by(share: Seq<nat>, w: nat) -> nat
    decreases share.len(),
{
    if share.len() == 0 {
        0
    } else {
        handled_by(share.drop_last(), w) + if share.last() == w {
            1nat
        } else {
            0nat
        }
    }
}

/// The progress counter after a run in which workers `0..k` handled the
/// records as `share` assigns them: each worker adds one per record.
pub open spec fn progress(share: Seq<nat>, k: nat) -> nat
    decreases k,
{
    if k == 0 {
        0
    } else {
        progress(share, (k - 1) as nat) + handled_by(share, (k - 1) as nat)
    }
}

proof fn lemma_progress_push(share: Seq<nat>, x: nat, k: nat)
    ensures
        progress(share.push(x), k) == progress(share, k) + if x < k {
            1nat
        } else {
            0nat
        },
    decreases k,
{
    assert(share.push(x).drop_last() == share);
    if k > 0 {
        lemma_progress_push(share, x, (k - 1) as nat);
    }
}

/// However the records were shared among `k` workers, the progress counter
/// ends at the number of records.
pub proof fn lemma_progress_counts_records(share: Seq<nat>, k: nat)
    requires
        forall|j: int| 0 <= j < share.len() ==> #[trigger] share[j] < k,
    ensures
        progress(share, k) == share.len(),
    decreases share.len(),
{
    if share.len() == 0 {
        lemma_progress_empty(k);
        assert(share =~= Seq::empty());
    } else {
        assert(share.last() == share[share.len() - 1]);
        let p = share.drop_last();
        assert forall|j: int| 0 <= j < p.len() implies #[trigger] p[j] < k by {
            assert(p[j] == share[j]);
        }
        lemma_progress_counts_records(p, k);
        lemma_progress_push(p, share.last(), k);
        assert(p.push(share.last()) == share);
    }
}

proof fn lemma_progress_empty(k: nat)
    ensures
        progress(Seq::empty(), k) == 0,
    decreases k,
{
    if k > 0 {
        lemma_progress_empty((k - 1) as nat);
    }
}

} // verus!
