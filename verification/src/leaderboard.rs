//! The leaderboard of the most visited shortened addresses.

use vstd::prelude::*;

use crate::error::URLError;
use crate::models::{AggregationResult, LeaderboardItem};

verus! {

/// How many addresses the leaderboard lists at most.
pub const LEADERBOARD_SIZE: usize = 10;

/// Whether routes are ordered by visits, most visited first.
pub open spec fn is_ranked(s: Seq<AggregationResult>) -> bool {
    forall|i: int, j: int| 0 <= i <= j < s.len() ==> s[i].count >= s[j].count
}

/// Puts a route into a ranking, after every route visited at least as often.
pub open spec fn insert_ranked(ranked: Seq<AggregationResult>, x: AggregationResult) -> Seq<
    AggregationResult,
>
    decreases ranked.len(),
{
    if ranked.len() == 0 {
        seq![x]
    } else if ranked.last().count >= x.count {
        ranked.push(x)
    } else {
        insert_ranked(ranked.drop_last(), x).push(ranked.last())
    }
}

/// All routes ranked by visits, most visited first; routes visited equally
/// often keep the order in which they came.
pub open spec fn rank_all(s: Seq<AggregationResult>) -> Seq<AggregationResult>
    decreases s.len(),
{
    if s.len() == 0 {
        Seq::empty()
    } else {
        insert_ranked(rank_all(s.drop_last()), s.last())
    }
}

/// The first `k` entries of a sequence, or all of them where there are fewer.
pub open spec fn first_at_most(s: Seq<AggregationResult>, k: int) -> Seq<AggregationResult> {
    if s.len() <= k {
        s
    } else {
        s.take(k)
    }
}

/// The routes on the leaderboard: the most visited ones, at most
/// `LEADERBOARD_SIZE` of them, most visited first.
pub open spec fn top_routes(s: Seq<AggregationResult>) -> Seq<AggregationResult> {
    first_at_most(rank_all(s), LEADERBOARD_SIZE as int)
}

/// Inserting at the position found by scanning back over the less visited
/// routes is what `insert_ranked` does.
proof fn lemma_insert_at(s: Seq<AggregationResult>, x: AggregationResult, j: int)
    requires
        0 <= j <= s.len(),
        forall|k: int| j <= k < s.len() ==> s[k].count < x.count,
        j == 0 || s[j - 1].count >= x.count,
    ensures
        insert_ranked(s, x) == s.insert(j, x),
    decreases s.len(),
{
    if s.len() == 0 {
        assert(s.insert(j, x) =~= seq![x]);
    } else if j == s.len() {
        assert(s.insert(j, x) =~= s.push(x));
    } else {
        let t = s.drop_last();
        lemma_insert_at(t, x, j);
        assert(s.insert(j, x) =~= t.insert(j, x).push(s.last()));
    }
}

/// Inserting adds one route.
proof fn lemma_insert_len(s: Seq<AggregationResult>, x: AggregationResult)
    ensures
        insert_ranked(s, x).len() == s.len() + 1,
    decreases s.len(),
{
    if s.len() > 0 {
        lemma_insert_len(s.drop_last(), x);
    }
}

/// Ranking keeps the number of routes.
proof fn lemma_rank_len(s: Seq<AggregationResult>)
    ensures
        rank_all(s).len() == s.len(),
    decreases s.len(),
{
    if s.len() > 0 {
        lemma_rank_len(s.drop_last());
        lemma_insert_len(rank_all(s.drop_last()), s.last());
    }
}

/// Inserting keeps the routes that were there and adds the new one.
proof fn lemma_insert_multiset(s: Seq<AggregationResult>, x: AggregationResult)
    ensures
        insert_ranked(s, x).to_multiset() == s.to_multiset().insert(x),
    decreases s.len(),
{
    broadcast use vstd::seq_lib::group_to_multiset_ensures;

    if s.len() == 0 {
        assert(seq![x] =~= Seq::<AggregationResult>::empty().push(x));
    } else if s.last().count >= x.count {
    } else {
        let t = s.drop_last();
        lemma_insert_multiset(t, x);
        assert(t.push(s.last()) =~= s);
        assert(insert_ranked(t, x).push(s.last()).to_multiset() =~= s.to_multiset().insert(x));
    }
}

/// Inserting into a ranking gives a ranking.
proof fn lemma_insert_ranked(s: Seq<AggregationResult>, x: AggregationResult)
    requires
        is_ranked(s),
    ensures
        is_ranked(insert_ranked(s, x)),
    decreases s.len(),
{
    broadcast use vstd::seq_lib::group_to_multiset_ensures;

    if s.len() == 0 {
    } else if s.last().count >= x.count {
        let r = s.push(x);
        assert forall|i: int, j: int| 0 <= i <= j < r.len() implies r[i].count >= r[j].count by {
            if j == s.len() {
                assert(s[i].count >= s[s.len() - 1].count || i == s.len());
            }
        }
    } else {
        let t = s.drop_last();
        let last = s.last();
        assert(is_ranked(t));
        lemma_insert_ranked(t, x);
        lemma_insert_multiset(t, x);
        let u = insert_ranked(t, x);
        let r = u.push(last);
        assert forall|i: int, j: int| 0 <= i <= j < r.len() implies r[i].count >= r[j].count by {
            if j == u.len() && i < u.len() {
                let y = u[i];
                assert(u.contains(y));
                assert(u.to_multiset().count(y) > 0);
                if y != x {
                    assert(t.to_multiset().count(y) > 0);
                    assert(t.contains(y));
                    let k = choose|k: int| 0 <= k < t.len() && t[k] == y;
                    assert(s[k] == y);
                    assert(s[k].count >= s[s.len() - 1].count);
                }
            }
        }
    }
}

/// The ranking of routes is ordered by visits, most visited first.
pub proof fn lemma_rank_all_ranked(s: Seq<AggregationResult>)
    ensures
        is_ranked(rank_all(s)),
    decreases s.len(),
{
    if s.len() > 0 {
        lemma_rank_all_ranked(s.drop_last());
        lemma_insert_ranked(rank_all(s.drop_last()), s.last());
    }
}

/// Ranking neither loses nor invents routes: the ranking holds the same
/// routes, each as often, as the input.
pub proof fn lemma_rank_all_permutes(s: Seq<AggregationResult>)
    ensures
        rank_all(s).to_multiset() == s.to_multiset(),
    decreases s.len(),
{
    broadcast use vstd::seq_lib::group_to_multiset_ensures;

    if s.len() > 0 {
        let t = s.drop_last();
        lemma_rank_all_permutes(t);
        lemma_insert_multiset(rank_all(t), s.last());
        assert(t.push(s.last()) =~= s);
    }
}

/// In a ranking, the first `k` routes after inserting are the first `k`
/// after inserting into the first `k` alone.
proof fn lemma_insert_prefix(s: Seq<AggregationResult>, x: AggregationResult, k: int)
    requires
        is_ranked(s),
        0 <= k,
    ensures
        first_at_most(insert_ranked(s, x), k) == first_at_most(insert_ranked(first_at_most(s, k), x), k),
    decreases s.len(),
{
    lemma_insert_len(s, x);
    if s.len() <= k {
    } else {
        let t = s.take(k);
        lemma_insert_len(t, x);
        if s.last().count >= x.count {
            if k > 0 {
                assert(t.last() == s[k - 1]);
                assert(s[k - 1].count >= s[s.len() - 1].count);
                assert(insert_ranked(t, x) == t.push(x));
                assert(t.push(x).take(k) =~= t);
            } else {
                assert(insert_ranked(t, x).take(0) =~= t);
            }
            assert(s.push(x).take(k) =~= t);
        } else {
            let u = s.drop_last();
            assert(is_ranked(u));
            lemma_insert_prefix(u, x, k);
            lemma_insert_len(u, x);
            assert(u.take(k) =~= t);
            assert(insert_ranked(u, x).push(s.last()).take(k) =~= insert_ranked(u, x).take(k));
        }
    }
}

/// Ranks routes by visits, most visited first, keeping the order of routes
/// visited equally often, and keeps the first `LEADERBOARD_SIZE` of them.
pub fn rank_routes(groups: &Vec<AggregationResult>) -> (r: Vec<AggregationResult>)
    ensures
        r@ == top_routes(groups@),
        forall|i: int, j: int| 0 <= i <= j < r@.len() ==> r@[i].count >= r@[j].count,
        r@.len() == if groups@.len() <= LEADERBOARD_SIZE {
            groups@.len()
        } else {
            LEADERBOARD_SIZE as nat
        },
        r@.to_multiset().subset_of(groups@.to_multiset()),
        forall|y: AggregationResult, i: int|
            #[trigger] groups@.contains(y) && !r@.contains(y) && 0 <= i < r@.len() ==> y.count
                <= #[trigger] r@[i].count,
{
    let mut ranked: Vec<AggregationResult> = Vec::new();
    let n = groups.len();
    assert(groups@.take(0) =~= Seq::<AggregationResult>::empty());
    for i in 0..n
        invariant
            n == groups.len(),
            ranked@ == top_routes(groups@.take(i as int)),
            ranked.len() <= LEADERBOARD_SIZE,
    {
        let x = groups[i];
        let ghost prefix = groups@.take(i as int);
        let ghost all = rank_all(prefix);
        proof {
            lemma_rank_all_ranked(prefix);
            assert(groups@.take(i + 1).drop_last() =~= prefix);
            assert(rank_all(groups@.take(i + 1)) == insert_ranked(all, x));
            lemma_insert_prefix(all, x, LEADERBOARD_SIZE as int);
        }
        let mut j = ranked.len();
        while j > 0 && ranked[j - 1].count < x.count
            invariant
                j <= ranked.len(),
                forall|k: int| j <= k < ranked.len() ==> ranked@[k].count < x.count,
            decreases j,
        {
            j = j - 1;
        }
        proof {
            lemma_insert_at(ranked@, x, j as int);
            lemma_insert_len(ranked@, x);
        }
        if j < LEADERBOARD_SIZE {
            ranked.insert(j, x);
            ranked.truncate(LEADERBOARD_SIZE);
        } else {
            assert(ranked@.insert(j as int, x).take(LEADERBOARD_SIZE as int) =~= ranked@);
        }
    }
    assert(groups@.take(n as int) =~= groups@);
    proof {
        lemma_top_routes(groups@);
    }
    ranked
}


/// The first entries of a sequence hold no entry more often than the whole.
proof fn lemma_take_sub_multiset(s: Seq<AggregationResult>, k: int)
    requires
        0 <= k <= s.len(),
    ensures
        s.take(k).to_multiset().subset_of(s.to_multiset()),
{
    broadcast use vstd::multiset::group_multiset_axioms;

    vstd::seq_lib::lemma_multiset_commutative(s.take(k), s.skip(k));
    assert(s.take(k) + s.skip(k) =~= s);
}

/// The leaderboard's routes are ordered by visits, most visited first; there
/// are `LEADERBOARD_SIZE` of them or, with fewer routes, all of them; no
/// route is listed more often than the input holds it (so each comes from
/// the input, and a route visited once is listed at most once); and no route
/// left off was visited more often than any route listed.
pub proof fn lemma_top_routes(s: Seq<AggregationResult>)
    ensures
        is_ranked(top_routes(s)),
        top_routes(s).len() == if s.len() <= LEADERBOARD_SIZE {
            s.len()
        } else {
            LEADERBOARD_SIZE as nat
        },
        top_routes(s).to_multiset().subset_of(s.to_multiset()),
        forall|y: AggregationResult| #[trigger] top_routes(s).contains(y) ==> s.contains(y),
        forall|y: AggregationResult, i: int|
            #[trigger] s.contains(y) && !top_routes(s).contains(y) && 0 <= i < top_routes(s).len()
                ==> y.count <= #[trigger] top_routes(s)[i].count,
{
    broadcast use vstd::seq_lib::group_to_multiset_ensures;

    let r = rank_all(s);
    let top = top_routes(s);
    lemma_rank_all_ranked(s);
    lemma_rank_all_permutes(s);
    lemma_rank_len(s);
    if r.len() > LEADERBOARD_SIZE {
        lemma_take_sub_multiset(r, LEADERBOARD_SIZE as int);
    }
    assert(top.to_multiset().subset_of(s.to_multiset()));
    assert forall|y: AggregationResult| #[trigger] top.contains(y) implies s.contains(y) by {
        let k = choose|k: int| 0 <= k < top.len() && top[k] == y;
        assert(r[k] == y);
        assert(r.contains(y));
        assert(r.to_multiset().count(y) > 0);
    }
    assert forall|y: AggregationResult, i: int|
        #[trigger] s.contains(y) && !top.contains(y) && 0 <= i < top.len() implies y.count
        <= #[trigger] top[i].count by {
        assert(s.to_multiset().count(y) > 0);
        assert(r.contains(y));
        let j = choose|j: int| 0 <= j < r.len() && r[j] == y;
        if j < top.len() {
            assert(top[j] == y);
        }
        assert(top[i] == r[i]);
    }
}

/// The leaderboard lines for ranked routes and the addresses found for them:
/// a route whose address was not found is left out.
pub open spec fn leaderboard_lines(found: Seq<(AggregationResult, Option<String>)>) -> Seq<
    LeaderboardItem,
>
    decreases found.len(),
{
    if found.len() == 0 {
        Seq::empty()
    } else {
        let rest = leaderboard_lines(found.drop_last());
        match found.last().1 {
            Some(url) => rest.push(LeaderboardItem { url, count: found.last().0.count }),
            None => rest,
        }
    }
}

/// The routes whose address was found, in their order.
pub open spec fn found_with_address(found: Seq<(AggregationResult, Option<String>)>) -> Seq<
    (AggregationResult, Option<String>),
> {
    found.filter(|p: (AggregationResult, Option<String>)| p.1 is Some)
}

/// Every route whose address was found gets exactly one line, in order, and
/// no other route gets one: there are as many lines as routes with an
/// address, and the `k`-th line is the address and visit count of the
/// `k`-th such route.
pub proof fn lemma_lines_of_found_routes(found: Seq<(AggregationResult, Option<String>)>)
    ensures
        leaderboard_lines(found).len() == found_with_address(found).len(),
        forall|k: int|
            0 <= k < found_with_address(found).len() ==> {
                let p = #[trigger] found_with_address(found)[k];
                &&& p.1 is Some
                &&& leaderboard_lines(found)[k].url == p.1->0
                &&& leaderboard_lines(found)[k].count == p.0.count
            },
    decreases found.len(),
{
    reveal_with_fuel(Seq::filter, 1);
    let pred = |p: (AggregationResult, Option<String>)| p.1 is Some;
    if found.len() > 0 {
        let rest = found.drop_last();
        lemma_lines_of_found_routes(rest);
        assert(found_with_address(rest) == rest.filter(pred));
        assert(found_with_address(found) == found.filter(pred));
        if found.last().1 is Some {
            assert(found.filter(pred) == rest.filter(pred).push(found.last()));
        } else {
            assert(found.filter(pred) == rest.filter(pred));
        }
    } else {
        assert(found.filter(pred) =~= Seq::<(AggregationResult, Option<String>)>::empty());
    }
}

/// Builds the leaderboard from the ranked routes, each with the address
/// found for it (if any), keeping their order.
pub fn build_leaderboard(found: &Vec<(AggregationResult, Option<String>)>) -> (r: Vec<
    LeaderboardItem,
>)
    ensures
        r@ == leaderboard_lines(found@),
        r@.len() == found_with_address(found@).len(),
        forall|k: int|
            0 <= k < r@.len() ==> {
                let p = #[trigger] found_with_address(found@)[k];
                &&& p.1 is Some
                &&& r@[k].url == p.1->0
                &&& r@[k].count == p.0.count
            },
{
    let mut items: Vec<LeaderboardItem> = Vec::new();
    let n = found.len();
    assert(found@.take(0) =~= Seq::<(AggregationResult, Option<String>)>::empty());
    for i in 0..n
        invariant
            n == found.len(),
            items@ == leaderboard_lines(found@.take(i as int)),
    {
        assert(found@.take(i + 1).drop_last() =~= found@.take(i as int));
        let count = found[i].0.count;
        match &found[i].1 {
            Some(url) => {
                items.push(LeaderboardItem { url: url.clone(), count });
            },
            None => {},
        }
    }
    assert(found@.take(n as int) =~= found@);
    proof {
        lemma_lines_of_found_routes(found@);
    }
    items
}


/// Whether routes paired with their addresses are ordered by visits, most
/// visited first.
pub open spec fn found_ranked(found: Seq<(AggregationResult, Option<String>)>) -> bool {
    forall|i: int, j: int| 0 <= i <= j < found.len() ==> found[i].0.count >= found[j].0.count
}

/// Whether leaderboard lines are ordered by visits, most visited first.
pub open spec fn lines_ranked(lines: Seq<LeaderboardItem>) -> bool {
    forall|i: int, j: int| 0 <= i <= j < lines.len() ==> lines[i].count >= lines[j].count
}

/// Every line counts at least as many visits as the least visited route, and
/// there are no more lines than routes.
proof fn lemma_lines_bound(found: Seq<(AggregationResult, Option<String>)>, c: u32)
    requires
        forall|k: int| 0 <= k < found.len() ==> found[k].0.count >= c,
    ensures
        leaderboard_lines(found).len() <= found.len(),
        forall|i: int|
            0 <= i < leaderboard_lines(found).len() ==> leaderboard_lines(found)[i].count >= c,
    decreases found.len(),
{
    if found.len() > 0 {
        lemma_lines_bound(found.drop_last(), c);
    }
}

/// Lines built from ranked routes are ranked too, and there are no more
/// lines than routes.
pub proof fn lemma_lines_ranked(found: Seq<(AggregationResult, Option<String>)>)
    requires
        found_ranked(found),
    ensures
        lines_ranked(leaderboard_lines(found)),
        leaderboard_lines(found).len() <= found.len(),
    decreases found.len(),
{
    if found.len() > 0 {
        let rest = found.drop_last();
        let last = found.last();
        assert(found_ranked(rest));
        lemma_lines_ranked(rest);
        assert forall|k: int| 0 <= k < rest.len() implies rest[k].0.count >= last.0.count by {
            assert(found[k] == rest[k]);
        }
        lemma_lines_bound(rest, last.0.count);
    }
}

/// The leaderboard built from the top routes, each paired with the address
/// found for it, lists at most `LEADERBOARD_SIZE` lines, most visited first.
pub proof fn lemma_leaderboard_ranked(
    groups: Seq<AggregationResult>,
    found: Seq<(AggregationResult, Option<String>)>,
)
    requires
        found.len() == top_routes(groups).len(),
        forall|i: int| 0 <= i < found.len() ==> #[trigger] found[i].0 == top_routes(groups)[i],
    ensures
        lines_ranked(leaderboard_lines(found)),
        leaderboard_lines(found).len() <= LEADERBOARD_SIZE,
{
    lemma_top_routes(groups);
    let top = top_routes(groups);
    assert forall|i: int, j: int| 0 <= i <= j < found.len() implies found[i].0.count
        >= found[j].0.count by {
        assert(found[i].0 == top[i]);
        assert(found[j].0 == top[j]);
    }
    lemma_lines_ranked(found);
}

/// How often the leaderboard is rebuilt: every 60 seconds.
pub const LEADERBOARD_REFRESH_SECS: u64 = 60;

/// What the periodic rebuild does with the leaderboard it loaded.
#[derive(Debug)]
pub enum RefreshAction {
    /// Store the new leaderboard in the cache, then wait `secs` seconds.
    StoreThenWait { items: Vec<LeaderboardItem>, secs: u64 },
    /// Leave the cache as it is and wait `secs` seconds.
    WaitOnly { secs: u64 },
}

/// One round of the periodic rebuild: a leaderboard that was loaded replaces
/// the cached one; a failed load leaves the cache as it was; either way the
/// next round comes `LEADERBOARD_REFRESH_SECS` later.
pub fn refresh_step(loaded: Result<Vec<LeaderboardItem>, URLError>) -> (r: RefreshAction)
    ensures
        loaded matches Ok(items) ==> r == (RefreshAction::StoreThenWait {
            items,
            secs: LEADERBOARD_REFRESH_SECS,
        }),
        loaded is Err ==> r == (RefreshAction::WaitOnly { secs: LEADERBOARD_REFRESH_SECS }),
{
    match loaded {
        Ok(items) => RefreshAction::StoreThenWait { items, secs: LEADERBOARD_REFRESH_SECS },
        Err(_) => RefreshAction::WaitOnly { secs: LEADERBOARD_REFRESH_SECS },
    }
}

/// Where a leaderboard request is answered from.
#[derive(Debug)]
pub enum LeaderboardSource {
    /// The cached leaderboard, served as it is.
    Cached(Vec<LeaderboardItem>),
    /// Rebuild from the store, and cache the result.
    Rebuild,
}

/// A leaderboard request is answered from the cache when the cache held a
/// leaderboard that could be read, and is rebuilt otherwise.
pub fn leaderboard_source(cached: Option<Vec<LeaderboardItem>>) -> (r: LeaderboardSource)
    ensures
        cached matches Some(items) ==> r == LeaderboardSource::Cached(items),
        cached is None ==> r == LeaderboardSource::Rebuild,
{
    match cached {
        Some(items) => LeaderboardSource::Cached(items),
        None => LeaderboardSource::Rebuild,
    }
}

} // verus!
