//! What the lists of a source show of the resumed sessions.

use crate::key::{key_of, KeyView, SourceView};
use crate::laws::lemma_merged_keys;
use crate::model::{is_first_of_its_key, lists, ResumesView};
use crate::session::SessionView;
use vstd::prelude::*;

verus! {

/// A list shows a session exactly if one of its rows has the session's identity.
pub proof fn sessions_are_listed_by_their_rows(rows: Seq<SessionView>, key: KeyView)
    ensures
        lists(rows, key) <==> exists|i: int|
            0 <= i < rows.len() && key_of(#[trigger] rows[i]) == Some(key),
{
}

/// Of the rows of a recorded session whose pane has been answered for, the first shows
/// what became of the session: its status and its pane, and the later of the two times
/// of activity. All else in the row stays.
pub proof fn the_first_row_of_a_session_is_brought_up_to_date(
    resumes: ResumesView,
    rows: Seq<SessionView>,
    source: SourceView,
    key: KeyView,
    i: int,
)
    requires
        resumes.well_formed(),
        0 <= i < rows.len(),
        key_of(rows[i]) == Some(key),
        forall|j: int| 0 <= j < i ==> key_of(#[trigger] rows[j]) != Some(key),
        key.target.destination == source.target.destination,
        key.target.port == source.target.port,
        source.cli == Some(key.cli),
        resumes.bindings.contains_key(key),
        !(resumes.bindings[key].phase is Launching),
    ensures
        ({
            let row = resumes.merged_rows(rows, source)[i];
            let session = resumes.bindings[key].session;
            &&& row.status == session.status
            &&& row.pane_session_id == session.pane_session_id
            &&& row.last_activity_at >= rows[i].last_activity_at
            &&& row.last_activity_at >= session.last_activity_at
            &&& row.last_activity_at == rows[i].last_activity_at || row.last_activity_at
                == session.last_activity_at
            &&& row.key == rows[i].key
            &&& row.cli_source == rows[i].cli_source
            &&& row.location == rows[i].location
            &&& row.title == rows[i].title
            &&& row.cwd == rows[i].cwd
            &&& row.origin == rows[i].origin
        }),
{
    assert(key.target == source.target);
    assert(resumes.keys.contains(key));
    assert(is_first_of_its_key(rows, i));
}

/// A row stays as it is if its session is local, is not recorded, still waits for its
/// pane, is on another host or port or of another agent than the source lists, or has
/// a row above.
pub proof fn other_rows_stay_as_they_are(
    resumes: ResumesView,
    rows: Seq<SessionView>,
    source: SourceView,
    key: KeyView,
    i: int,
)
    requires
        resumes.well_formed(),
        0 <= i < rows.len(),
        !(rows[i].location is Ssh) || (key_of(rows[i]) == Some(key) && {
            ||| !resumes.bindings.contains_key(key)
            ||| resumes.bindings[key].phase is Launching
            ||| key.target.destination != source.target.destination
            ||| key.target.port != source.target.port
            ||| source.cli != Some(key.cli)
            ||| exists|j: int| 0 <= j < i && key_of(#[trigger] rows[j]) == Some(key)
        }),
    ensures
        resumes.merged_rows(rows, source)[i] == rows[i],
{
    if rows[i].location is Ssh {
        assert(resumes.keys.contains(key) == resumes.bindings.contains_key(key));
    }
}

/// Every row that is added below a source's list is a recorded session on the source's
/// host and port, of the source's agent, that is not over and has no row above.
pub proof fn added_rows_are_the_sources_own(
    resumes: ResumesView,
    rows: Seq<SessionView>,
    source: SourceView,
    i: int,
)
    requires
        resumes.well_formed(),
        rows.len() <= i < resumes.merged_rows(rows, source).len(),
    ensures
        ({
            let row = resumes.merged_rows(rows, source)[i];
            &&& row.location is Ssh
            &&& row.location->target.destination == source.target.destination
            &&& row.location->target.port == source.target.port
            &&& source.cli is Some
            &&& row.cli_source == source.cli.unwrap()
            &&& exists|key: KeyView|
                #![trigger resumes.bindings[key]]
                {
                    &&& resumes.bindings.contains_key(key)
                    &&& resumes.bindings[key].session == row
                    &&& !(resumes.bindings[key].phase is Ended)
                    &&& key_of(row) == Some(key)
                    &&& forall|j: int| 0 <= j < rows.len() ==> key_of(#[trigger] rows[j]) != Some(key)
                }
        }),
{
    lemma_merged_keys(resumes, rows, source);
    let row = resumes.merged_rows(rows, source)[i];
    let key = key_of(row).unwrap();
    assert(resumes.bindings[key].session == row);
}

/// Every recorded session on the source's host and port, of the source's agent, that is
/// not over and that the list leaves out is added below it, as recorded.
pub proof fn missing_sessions_are_added(
    resumes: ResumesView,
    rows: Seq<SessionView>,
    source: SourceView,
    key: KeyView,
)
    requires
        resumes.well_formed(),
        resumes.bindings.contains_key(key),
        !(resumes.bindings[key].phase is Ended),
        key.target.destination == source.target.destination,
        key.target.port == source.target.port,
        source.cli == Some(key.cli),
        forall|j: int| 0 <= j < rows.len() ==> key_of(#[trigger] rows[j]) != Some(key),
    ensures
        exists|i: int|
            rows.len() <= i < resumes.merged_rows(rows, source).len()
                && #[trigger] resumes.merged_rows(rows, source)[i] == resumes.bindings[key].session,
{
    assert(key.target == source.target);
    lemma_merged_keys(resumes, rows, source);
    assert(resumes.is_missing(rows, source, key));
}

/// The rows that are added stand in the order in which their sessions were first
/// resumed, so that none is added twice.
pub proof fn added_rows_keep_the_order_of_the_records(
    resumes: ResumesView,
    rows: Seq<SessionView>,
    source: SourceView,
    i: int,
    j: int,
    a: int,
    b: int,
)
    requires
        resumes.well_formed(),
        rows.len() <= i < j < resumes.merged_rows(rows, source).len(),
        0 <= a < resumes.keys.len(),
        0 <= b < resumes.keys.len(),
        key_of(resumes.merged_rows(rows, source)[i]) == Some(resumes.keys[a]),
        key_of(resumes.merged_rows(rows, source)[j]) == Some(resumes.keys[b]),
    ensures
        a < b,
{
    let wanted = resumes.missing_from(rows, source);
    let added = resumes.keys.filter(wanted);
    let merged = resumes.merged_rows(rows, source);
    let m = i - rows.len();
    let n = j - rows.len();
    assert forall|k: int| 0 <= k < added.len() implies key_of(
        resumes.bindings[#[trigger] added[k]].session,
    ) == Some(added[k]) by {
        assert(added.contains(added[k]));
        resumes.keys.lemma_filter_contains_rev(wanted, added[k]);
        assert(resumes.bindings.contains_key(added[k]));
    }
    assert(merged[i] == resumes.bindings[added[m]].session);
    assert(merged[j] == resumes.bindings[added[n]].session);
    lemma_filter_keeps_order(resumes.keys, wanted, m, n, a, b);
}

/// What a test selects of a sequence without repetitions stands in the same order.
proof fn lemma_filter_keeps_order<A>(
    s: Seq<A>,
    p: spec_fn(A) -> bool,
    m: int,
    n: int,
    a: int,
    b: int,
)
    requires
        s.no_duplicates(),
        0 <= m < n < s.filter(p).len(),
        0 <= a < s.len(),
        0 <= b < s.len(),
        s.filter(p)[m] == s[a],
        s.filter(p)[n] == s[b],
    ensures
        a < b,
    decreases s.len(),
{
    reveal(Seq::filter);
    let init = s.drop_last();
    let selected = init.filter(p);
    assert(selected.contains(selected[m]));
    init.lemma_filter_contains_rev(p, selected[m]);
    let at = init.index_of(selected[m]);
    assert(init[at] == s[at]);
    assert(a == at);
    if n < selected.len() {
        assert(selected.contains(selected[n]));
        init.lemma_filter_contains_rev(p, selected[n]);
        let place = init.index_of(selected[n]);
        assert(init[place] == s[place]);
        assert(b == place);
        assert(init.no_duplicates());
        lemma_filter_keeps_order(init, p, m, n, a, b);
    } else {
        assert(s.filter(p)[n] == s.last());
        assert(b == s.len() - 1);
    }
}

} // verus!
