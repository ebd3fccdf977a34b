//! The decisions of the fan-out aggregation. The caller performs the fetches
//! (concurrently, over whatever transport it holds) and hands the outcomes
//! back; what is fetched next and what the aggregate is are decided here.
use vstd::prelude::*;
use crate::item::{child_ids, has_body, has_title, Item};

verus! {

/// The phase in which an aggregation failed, with the underlying cause.
#[derive(Debug)]
pub enum AggregationError {
    /// The root item could not be fetched.
    RootFetchFailed(String),
    /// One of the child (or listed) items could not be fetched.
    ChildFetchFailed(String),
    /// The list of top ids could not be fetched.
    SourceUnavailable(String),
}

/// What the caller does next.
#[derive(Debug)]
pub enum Step {
    /// Nothing more to fetch: this is the outcome.
    Finished(Result<Vec<Item>, AggregationError>),
    /// Fetch these items, all of them, and hand the outcomes to the join.
    Fetch(Vec<u32>),
}

/// The cause of the first failed fetch, in the order the ids were given.
pub open spec fn first_failure(rs: Seq<Result<Item, String>>) -> Option<String>
    decreases rs.len(),
{
    if rs.len() == 0 {
        None
    } else {
        match rs[0] {
            Err(c) => Some(c),
            Ok(_) => first_failure(rs.drop_first()),
        }
    }
}

pub open spec fn ok_item(r: Result<Item, String>) -> Item
    recommends
        r is Ok,
{
    match r {
        Ok(i) => i,
        Err(_) => arbitrary(),
    }
}

/// The fetched items, in order.
pub open spec fn fetched(rs: Seq<Result<Item, String>>) -> Seq<Item> {
    rs.map_values(|r: Result<Item, String>| ok_item(r))
}

pub open spec fn body_filter() -> spec_fn(Item) -> bool {
    |i: Item| has_body(i)
}

pub open spec fn title_filter() -> spec_fn(Item) -> bool {
    |i: Item| has_title(i)
}

/// `r` is the all-or-nothing join of the outcomes `rs`: the first failure
/// fails the whole, else the fetched items that `keep` holds of, in order.
pub open spec fn is_join(
    rs: Seq<Result<Item, String>>,
    keep: spec_fn(Item) -> bool,
    r: Result<Vec<Item>, AggregationError>,
) -> bool {
    match first_failure(rs) {
        Some(c) => r == Err::<Vec<Item>, AggregationError>(AggregationError::ChildFetchFailed(c)),
        None => match r {
            Ok(v) => v@ == fetched(rs).filter(keep),
            Err(_) => false,
        },
    }
}

/// The ids of the top listing that are fetched: at most `limit` of them,
/// from the front.
pub open spec fn top_ids(ids: Seq<u32>, limit: nat) -> Seq<u32> {
    if limit <= ids.len() {
        ids.take(limit as int)
    } else {
        ids
    }
}

/// The listing cap used when the caller names none.
pub const DEFAULT_TOP_LIMIT: usize = 50;

fn join(results: Vec<Result<Item, String>>, by_title: bool) -> (r: Result<Vec<Item>, AggregationError>)
    ensures
        is_join(results@, if by_title { title_filter() } else { body_filter() }, r),
{
    let ghost rs = results@;
    let ghost keep = if by_title { title_filter() } else { body_filter() };
    let mut out: Vec<Item> = Vec::new();
    assert(rs.skip(0) =~= rs);
    assert(fetched(rs.take(0)) =~= Seq::<Item>::empty());
    for res in it: results.into_iter()
        invariant
            it.seq() == rs,
            keep == (if by_title { title_filter() } else { body_filter() }),
            first_failure(rs) == first_failure(rs.skip(it.index() as int)),
            out@ == fetched(rs.take(it.index() as int)).filter(keep),
    {
        let ghost i = it.index() as int;
        assert(rs.skip(i)[0] == rs[i]);
        assert(rs.skip(i).drop_first() =~= rs.skip(i + 1));
        match res {
            Ok(item) => {
                assert(fetched(rs.take(i + 1)) =~= fetched(rs.take(i)).push(item));
                let keep_it = if by_title { item.has_title() } else { item.has_text() };
                proof {
                    fetched(rs.take(i)).lemma_filter_push(item, keep);
                    assert(keep_it == keep(item));
                }
                if keep_it {
                    out.push(item);
                }
            },
            Err(c) => {
                return Err(AggregationError::ChildFetchFailed(c));
            },
        }
    }
    assert(rs.take(rs.len() as int) =~= rs);
    assert(rs.skip(rs.len() as int) =~= Seq::<Result<Item, String>>::empty());
    Ok(out)
}

/// Joins the outcomes of the child fetches: all or nothing, keeping the
/// children whose body is present and not empty, in their given order.
pub fn join_children(results: Vec<Result<Item, String>>) -> (r: Result<Vec<Item>, AggregationError>)
    ensures
        is_join(results@, body_filter(), r),
{
    join(results, false)
}

/// Joins the outcomes of the fetches of a top listing: all or nothing,
/// keeping the items whose title is present and not empty, in listing order.
pub fn join_top(results: Vec<Result<Item, String>>) -> (r: Result<Vec<Item>, AggregationError>)
    ensures
        is_join(results@, title_filter(), r),
{
    join(results, true)
}

/// Decides what follows the fetch of the root item: a failed fetch fails the
/// whole with `RootFetchFailed`; a root without children finishes at once
/// with no items, so that no child is fetched; else all its children are
/// fetched, in their listed order.
pub fn after_root(root: Result<Item, String>) -> (s: Step)
    ensures
        match root {
            Err(c) => s == Step::Finished(
                Err::<Vec<Item>, AggregationError>(AggregationError::RootFetchFailed(c)),
            ),
            Ok(i) => if child_ids(i).len() == 0 {
                match s {
                    Step::Finished(Ok(v)) => v@.len() == 0,
                    _ => false,
                }
            } else {
                match s {
                    Step::Fetch(ids) => ids@ == child_ids(i),
                    _ => false,
                }
            },
        },
{
    match root {
        Err(c) => Step::Finished(Err(AggregationError::RootFetchFailed(c))),
        Ok(item) => match item.kids {
            Some(kids) => {
                if kids.len() == 0 {
                    Step::Finished(Ok(Vec::new()))
                } else {
                    Step::Fetch(kids)
                }
            },
            None => Step::Finished(Ok(Vec::new())),
        },
    }
}

/// Decides what follows the fetch of the top id list: a failed fetch fails
/// the whole with `SourceUnavailable`; else the first `limit` ids (all of
/// them when fewer are listed) are fetched, and an empty selection finishes
/// at once with no items.
pub fn after_top_ids(ids: Result<Vec<u32>, String>, limit: usize) -> (s: Step)
    ensures
        match ids {
            Err(c) => s == Step::Finished(
                Err::<Vec<Item>, AggregationError>(AggregationError::SourceUnavailable(c)),
            ),
            Ok(v) => if top_ids(v@, limit as nat).len() == 0 {
                match s {
                    Step::Finished(Ok(w)) => w@.len() == 0,
                    _ => false,
                }
            } else {
                match s {
                    Step::Fetch(w) => w@ == top_ids(v@, limit as nat),
                    _ => false,
                }
            },
        },
{
    match ids {
        Err(c) => Step::Finished(Err(AggregationError::SourceUnavailable(c))),
        Ok(all) => {
            let mut chosen: Vec<u32> = Vec::new();
            let mut i: usize = 0;
            while i < all.len() && i < limit
                invariant
                    i <= all@.len(),
                    i <= limit,
                    chosen@ == all@.take(i as int),
                decreases all.len() - i,
            {
                chosen.push(all[i]);
                i = i + 1;
                assert(chosen@ =~= all@.take(i as int));
            }
            assert(chosen@ =~= top_ids(all@, limit as nat));
            if chosen.len() == 0 {
                Step::Finished(Ok(Vec::new()))
            } else {
                Step::Fetch(chosen)
            }
        },
    }
}

proof fn lemma_failure_found(rs: Seq<Result<Item, String>>, k: int)
    requires
        0 <= k < rs.len(),
        rs[k] is Err,
    ensures
        first_failure(rs) is Some,
    decreases k,
{
    if k > 0 && rs[0] is Ok {
        assert(rs.drop_first()[k - 1] == rs[k]);
        lemma_failure_found(rs.drop_first(), k - 1);
    }
}

/// All or nothing: when any one fetch among the outcomes failed, the join is
/// a `ChildFetchFailed`, however many of the others succeeded.
pub proof fn lemma_one_failure_fails_join(
    rs: Seq<Result<Item, String>>,
    k: int,
    keep: spec_fn(Item) -> bool,
    r: Result<Vec<Item>, AggregationError>,
)
    requires
        0 <= k < rs.len(),
        rs[k] is Err,
        is_join(rs, keep, r),
    ensures
        r matches Err(AggregationError::ChildFetchFailed(_)),
{
    lemma_failure_found(rs, k);
}

/// A top listing never holds more items than the source listed, nor more
/// than the limit; a short source list is no error.
pub proof fn lemma_top_at_most_available(
    ids: Seq<u32>,
    limit: nat,
    rs: Seq<Result<Item, String>>,
    r: Result<Vec<Item>, AggregationError>,
)
    requires
        rs.len() == top_ids(ids, limit).len(),
        is_join(rs, title_filter(), r),
    ensures
        top_ids(ids, limit).len() <= ids.len(),
        top_ids(ids, limit).len() <= limit,
        r matches Ok(v) ==> v@.len() <= ids.len() && v@.len() <= limit,
{
    fetched(rs).lemma_filter_len(title_filter());
}

} // verus!
