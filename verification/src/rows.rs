//! Gathering the rows of a query: all of them, or the first error.
use vstd::prelude::*;
use vstd::string::StringExecFns;
use std::collections::HashMap;

verus! {

/// The outcome of reading `rows` in order: the values of all rows, or, at the
/// first row that failed, its error prefixed with `Row error: `.
pub open spec fn gathered<T>(rows: Seq<Result<T, String>>) -> Result<Seq<T>, Seq<char>>
    decreases rows.len(),
{
    if rows.len() == 0 {
        Ok(Seq::empty())
    } else {
        match gathered(rows.drop_last()) {
            Err(m) => Err(m),
            Ok(vs) => match rows.last() {
                Ok(v) => Ok(vs.push(v)),
                Err(e) => Err("Row error: "@ + e@),
            },
        }
    }
}

/// The view of a gathered result.
pub open spec fn gathered_view<T>(r: Result<Vec<T>, String>) -> Result<Seq<T>, Seq<char>> {
    match r {
        Ok(v) => Ok(v@),
        Err(e) => Err(e@),
    }
}

/// The loop that `get_word_definitions`, `get_related_words` and the
/// learning-state readers run over the rows of their query.
pub fn collect_rows<T>(rows: Vec<Result<T, String>>) -> (res: Result<Vec<T>, String>)
    ensures
        gathered_view(res) == gathered(rows@),
{
    let ghost all = rows@;
    let mut out: Vec<T> = Vec::new();
    assert(gathered(all.take(0)) == Ok::<Seq<T>, Seq<char>>(Seq::empty()));
    for r in it: rows
        invariant
            it.seq() == all,
            out@.len() == it.index(),
            gathered(all.take(it.index())) == Ok::<Seq<T>, Seq<char>>(out@),
    {
        let ghost i = it.index();
        proof {
            assert(all.take(i + 1).drop_last() =~= all.take(i));
            assert(all.take(i + 1).last() == r);
        }
        match r {
            Ok(v) => {
                out.push(v);
            },
            Err(e) => {
                proof {
                    lemma_gathered_stops(all, i + 1);
                }
                let mut msg = String::from_str("Row error: ");
                msg.append(e.as_str());
                return Err(msg);
            },
        }
    }
    assert(all.take(all.len() as int) =~= all);
    Ok(out)
}

/// Once reading stops at an error, the rows after it change nothing.
proof fn lemma_gathered_stops<T>(rows: Seq<Result<T, String>>, k: int)
    requires
        0 <= k <= rows.len(),
        gathered(rows.take(k)) is Err,
    ensures
        gathered(rows) == gathered(rows.take(k)),
    decreases rows.len() - k,
{
    if k < rows.len() {
        assert(rows.take(k + 1).drop_last() =~= rows.take(k));
        lemma_gathered_stops(rows, k + 1);
    } else {
        assert(rows.take(k) =~= rows);
    }
}


/// The outcome of reading the first row of a query, if there is one.
pub open spec fn first_gathered<T>(row: Option<Result<T, String>>) -> Result<Option<T>, Seq<char>> {
    match row {
        None => Ok(None),
        Some(Ok(v)) => Ok(Some(v)),
        Some(Err(e)) => Err("Row error: "@ + e@),
    }
}

/// The view of a first-row result.
pub open spec fn first_view<T>(r: Result<Option<T>, String>) -> Result<Option<T>, Seq<char>> {
    match r {
        Ok(v) => Ok(v),
        Err(e) => Err(e@),
    }
}

/// What `get_user_learning_state` makes of the first row of its query.
pub fn first_row<T>(row: Option<Result<T, String>>) -> (res: Result<Option<T>, String>)
    ensures
        first_view(res) == first_gathered(row),
{
    match row {
        None => Ok(None),
        Some(Ok(v)) => Ok(Some(v)),
        Some(Err(e)) => {
            let mut msg = String::from_str("Row error: ");
            msg.append(e.as_str());
            Err(msg)
        },
    }
}

/// The map of keyed rows, inserted in order: for a key met twice the later
/// row wins.
pub open spec fn keyed<T>(rows: Seq<(i64, T)>) -> Map<i64, T>
    decreases rows.len(),
{
    if rows.len() == 0 {
        Map::empty()
    } else {
        keyed(rows.drop_last()).insert(rows.last().0, rows.last().1)
    }
}

/// The map that `get_all_user_learning_states` builds from its rows, keyed by
/// word id.
pub fn index_by_key<T>(rows: Vec<(i64, T)>) -> (m: HashMap<i64, T>)
    ensures
        m@ == keyed(rows@),
{
    broadcast use vstd::std_specs::hash::group_hash_axioms;
    let ghost all = rows@;
    let mut m: HashMap<i64, T> = HashMap::new();
    for r in it: rows
        invariant
            it.seq() == all,
            m@ == keyed(all.take(it.index())),
    {
        proof {
            assert(all.take(it.index() + 1).drop_last() =~= all.take(it.index()));
        }
        let (k, v) = r;
        m.insert(k, v);
    }
    assert(all.take(all.len() as int) =~= all);
    m
}

/// A key is in the map exactly when some row has it, and it maps to the
/// value of the last such row.
pub proof fn lemma_keyed_last_row_wins<T>(rows: Seq<(i64, T)>, k: i64)
    ensures
        keyed(rows).contains_key(k) <==> exists|i: int| 0 <= i < rows.len() && #[trigger] rows[i].0 == k,
        keyed(rows).contains_key(k) ==> exists|i: int|
            0 <= i < rows.len() && #[trigger] rows[i].0 == k && keyed(rows)[k] == rows[i].1 && forall|j: int|
                i < j < rows.len() ==> #[trigger] rows[j].0 != k,
    decreases rows.len(),
{
    if rows.len() > 0 {
        let init = rows.drop_last();
        let n = rows.len() - 1;
        lemma_keyed_last_row_wins(init, k);
        if rows[n].0 == k {
            assert(rows[n].0 == k && keyed(rows)[k] == rows[n].1);
        } else {
            if exists|i: int| 0 <= i < init.len() && #[trigger] init[i].0 == k {
                let i = choose|i: int| 0 <= i < init.len() && #[trigger] init[i].0 == k;
                assert(rows[i] == init[i]);
            }
            if exists|i: int| 0 <= i < rows.len() && #[trigger] rows[i].0 == k {
                let i = choose|i: int| 0 <= i < rows.len() && #[trigger] rows[i].0 == k;
                assert(init[i] == rows[i]);
            }
            if keyed(rows).contains_key(k) {
                let i = choose|i: int|
                    0 <= i < init.len() && #[trigger] init[i].0 == k && keyed(init)[k] == init[i].1
                        && forall|j: int| i < j < init.len() ==> #[trigger] init[j].0 != k;
                assert(rows[i] == init[i]);
                assert forall|j: int| i < j < rows.len() implies #[trigger] rows[j].0 != k by {
                    if j < n {
                        assert(rows[j] == init[j]);
                    }
                }
            }
        }
    }
}


/// When every row is fine, gathering keeps them all: as many values as rows,
/// value `k` being the value of row `k`.
pub proof fn lemma_all_ok_rows_are_all_kept<T>(rows: Seq<Result<T, String>>)
    requires
        forall|k: int| 0 <= k < rows.len() ==> #[trigger] rows[k] is Ok,
    ensures
        gathered(rows) matches Ok(vs) && vs.len() == rows.len() && forall|k: int|
            0 <= k < rows.len() ==> rows[k] == Ok::<T, String>(#[trigger] vs[k]),
    decreases rows.len(),
{
    if rows.len() > 0 {
        let init = rows.drop_last();
        assert forall|k: int| 0 <= k < init.len() implies #[trigger] init[k] is Ok by {
            assert(init[k] == rows[k]);
        }
        lemma_all_ok_rows_are_all_kept(init);
        assert(rows[rows.len() - 1] is Ok);
        let vs = gathered(init)->Ok_0;
        let v = rows.last()->Ok_0;
        assert forall|k: int| 0 <= k < rows.len() implies rows[k] == Ok::<T, String>(
            #[trigger] vs.push(v)[k],
        ) by {
            if k < init.len() {
                assert(init[k] == rows[k]);
            }
        }
    }
}


/// When row `k` is the first row that failed, gathering fails with its
/// message after `Row error: `, whatever the rows after it hold.
pub proof fn lemma_first_failed_row_is_reported<T>(rows: Seq<Result<T, String>>, k: int)
    requires
        0 <= k < rows.len(),
        rows[k] is Err,
        forall|j: int| 0 <= j < k ==> #[trigger] rows[j] is Ok,
    ensures
        gathered(rows) == Err::<Seq<T>, Seq<char>>("Row error: "@ + (rows[k]->Err_0)@),
{
    let pre = rows.take(k);
    assert forall|j: int| 0 <= j < pre.len() implies #[trigger] pre[j] is Ok by {
        assert(pre[j] == rows[j]);
    }
    lemma_all_ok_rows_are_all_kept(pre);
    assert(rows.take(k + 1).drop_last() =~= pre);
    assert(rows.take(k + 1).last() == rows[k]);
    lemma_gathered_stops(rows, k + 1);
}

} // verus!
