//! The commit graph: which lane each commit's node sits in and which lines cross its row.

use vstd::prelude::*;

use crate::git::log::{Commit, CommitModel};
use crate::text::{find, find_is, models};

verus! {

/// One row of the commit graph: where the commit's node sits and which lane lines cross the row.
/// Lane `x` positions are up to the drawer; the numbers here are lane indices.
#[derive(Debug, PartialEq, Eq)]
pub struct GraphRow {
    /// Lane of this commit's node.
    pub lane: usize,
    /// Lanes whose line comes down from the row above into the node (children's lanes).
    pub into: Vec<usize>,
    /// Lanes passing straight through this row without touching the node.
    pub through: Vec<usize>,
    /// Lanes leaving the node towards the row below (one per parent).
    pub out: Vec<usize>,
    /// Number of lanes in use on this row (for the column width).
    pub width: usize,
}

/// The contents of a [`GraphRow`].
pub struct GraphRowModel {
    pub lane: int,
    pub into: Seq<int>,
    pub through: Seq<int>,
    pub out: Seq<int>,
    pub width: int,
}

/// Machine numbers as numbers.
pub open spec fn ints(v: Seq<usize>) -> Seq<int> {
    v.map_values(|x: usize| x as int)
}

impl View for GraphRow {
    type V = GraphRowModel;

    open spec fn view(&self) -> GraphRowModel {
        GraphRowModel {
            lane: self.lane as int,
            into: ints(self.into@),
            through: ints(self.through@),
            out: ints(self.out@),
            width: self.width as int,
        }
    }
}

impl Default for GraphRow {
    fn default() -> (r: GraphRow)
        ensures
            r@ == (GraphRowModel { lane: 0, into: seq![], through: seq![], out: seq![], width: 0 }),
    {
        let r = GraphRow {
            lane: 0,
            into: Vec::new(),
            through: Vec::new(),
            out: Vec::new(),
            width: 0,
        };
        assert(ints(r.into@) =~= seq![]);
        r
    }
}

impl Clone for GraphRow {
    fn clone(&self) -> (r: GraphRow)
        ensures
            r@ == self@,
    {
        GraphRow {
            lane: self.lane,
            into: self.into.clone(),
            through: self.through.clone(),
            out: self.out.clone(),
            width: self.width,
        }
    }
}

/// What each lane waits for: the hash of a commit that has not appeared yet, or nothing.
pub type Lanes = Seq<Option<Seq<char>>>;

/// The lanes that wait for `hash` (those that do, or those that wait for anything else),
/// in ascending order.
pub open spec fn waiting(lanes: Lanes, hash: Seq<char>, for_it: bool) -> Seq<int>
    decreases lanes.len(),
{
    if lanes.len() == 0 {
        Seq::empty()
    } else {
        let before = waiting(lanes.drop_last(), hash, for_it);
        if lanes.last() is Some && (lanes.last() == Some(hash)) == for_it {
            before.push(lanes.len() - 1)
        } else {
            before
        }
    }
}

/// `lanes` with lane `i`, possibly one behind the last, set to `v`.
pub open spec fn put(lanes: Lanes, i: int, v: Option<Seq<char>>) -> Lanes {
    if i == lanes.len() {
        lanes.push(v)
    } else {
        lanes.update(i, v)
    }
}

/// `lanes` after the commit `hash` has appeared: nothing waits for it any more.
pub open spec fn freed(lanes: Lanes, hash: Seq<char>) -> Lanes {
    lanes.map_values(
        |l: Option<Seq<char>>|
            if l == Some(hash) {
                None
            } else {
                l
            },
    )
}

/// The lane that the parent with number `k` takes: the first parent keeps the commit's lane,
/// a further one takes the lane already waiting for it, or else the first free one.
pub open spec fn lane_for(lanes: Lanes, lane: int, k: int, parent: Seq<char>) -> int {
    if k == 0 {
        lane
    } else if find(lanes, Some(parent)) < lanes.len() {
        find(lanes, Some(parent))
    } else {
        find(lanes, None)
    }
}

/// The lanes once the parents have taken theirs, and the lanes they took.
pub open spec fn place(lanes: Lanes, lane: int, parents: Seq<Seq<char>>) -> (Lanes, Seq<int>)
    decreases parents.len(),
{
    if parents.len() == 0 {
        (lanes, Seq::empty())
    } else {
        let (before, out) = place(lanes, lane, parents.drop_last());
        let target = lane_for(before, lane, parents.len() - 1, parents.last());
        (put(before, target, Some(parents.last())), out.push(target))
    }
}

/// `lanes` without the free lanes at the end.
pub open spec fn trimmed(lanes: Lanes) -> Lanes
    decreases lanes.len(),
{
    if lanes.len() > 0 && lanes.last() is None {
        trimmed(lanes.drop_last())
    } else {
        lanes
    }
}

/// The lane of a commit's node: the first that waits for it, or else the first free one.
pub open spec fn node_lane(lanes: Lanes, hash: Seq<char>) -> int {
    if find(lanes, Some(hash)) < lanes.len() {
        find(lanes, Some(hash))
    } else {
        find(lanes, None)
    }
}

/// The row of commit `c` below `lanes`, and the lanes below that row.
pub open spec fn step(lanes: Lanes, c: CommitModel) -> (GraphRowModel, Lanes) {
    let lane = node_lane(lanes, c.hash);
    let above = if lane == lanes.len() {
        lanes.push(None)
    } else {
        lanes
    };
    let (below, out) = place(freed(above, c.hash), lane, c.parents);
    (
        GraphRowModel {
            lane,
            into: waiting(lanes, c.hash, true),
            through: waiting(lanes, c.hash, false),
            out,
            width: below.len() as int,
        },
        trimmed(below),
    )
}

/// The lanes below the rows of `commits`.
pub open spec fn lanes_below(commits: Seq<CommitModel>) -> Lanes
    decreases commits.len(),
{
    if commits.len() == 0 {
        Seq::empty()
    } else {
        step(lanes_below(commits.drop_last()), commits.last()).1
    }
}

/// The rows of the commit graph.
pub open spec fn graph_rows(commits: Seq<CommitModel>) -> Seq<GraphRowModel> {
    Seq::new(commits.len(), |i: int| step(lanes_below(commits.take(i)), commits[i]).0)
}

/// The model of the lanes that [`graph`] keeps.
spec fn lanes_model(lanes: Seq<Option<&String>>) -> Lanes {
    lanes.map_values(
        |l: Option<&String>|
            match l {
                Some(s) => Some(s@),
                None => None::<Seq<char>>,
            },
    )
}

/// The first lane waiting for `hash`, or the number of lanes.
fn find_waiting(lanes: &Vec<Option<&String>>, hash: &String) -> (r: usize)
    ensures
        r == find(lanes_model(lanes@), Some(hash@)),
        r <= lanes@.len(),
{
    let mut i: usize = 0;
    while i < lanes.len()
        invariant
            i <= lanes@.len(),
            forall|j: int| 0 <= j < i ==> lanes_model(lanes@)[j] != Some(hash@),
        decreases lanes@.len() - i,
    {
        if let Some(h) = lanes[i] {
            if *h == *hash {
                proof {
                    find_is(lanes_model(lanes@), Some(hash@), i as int);
                }
                return i;
            }
        }
        i += 1;
    }
    proof {
        find_is(lanes_model(lanes@), Some(hash@), i as int);
    }
    i
}

/// The first free lane, or the number of lanes.
fn find_free(lanes: &Vec<Option<&String>>) -> (r: usize)
    ensures
        r == find(lanes_model(lanes@), None),
        r <= lanes@.len(),
{
    let mut i: usize = 0;
    while i < lanes.len() && lanes[i].is_some()
        invariant
            i <= lanes@.len(),
            forall|j: int| 0 <= j < i ==> lanes_model(lanes@)[j] !== None,
        decreases lanes@.len() - i,
    {
        i += 1;
    }
    proof {
        find_is(lanes_model(lanes@), None, i as int);
    }
    i
}

/// The lanes that wait for `hash`, or those that wait for another commit.
fn collect_waiting(lanes: &Vec<Option<&String>>, hash: &String, for_it: bool) -> (r: Vec<usize>)
    ensures
        ints(r@) == waiting(lanes_model(lanes@), hash@, for_it),
{
    let mut out: Vec<usize> = Vec::new();
    let mut i: usize = 0;
    let ghost m = lanes_model(lanes@);
    assert(ints(out@) =~= waiting(m.take(0), hash@, for_it));
    while i < lanes.len()
        invariant
            i <= lanes@.len(),
            m == lanes_model(lanes@),
            ints(out@) == waiting(m.take(i as int), hash@, for_it),
        decreases lanes@.len() - i,
    {
        assert(m.take(i + 1).drop_last() =~= m.take(i as int));
        let ghost old_out = out@;
        if let Some(h) = lanes[i] {
            if (*h == *hash) == for_it {
                out.push(i);
                assert(ints(out@) =~= ints(old_out).push(i as int));
            }
        }
        i += 1;
    }
    assert(m.take(m.len() as int) =~= m);
    out
}

/// Sets lane `i`, possibly one behind the last.
fn set_lane<'a>(lanes: &mut Vec<Option<&'a String>>, i: usize, v: Option<&'a String>)
    requires
        i <= old(lanes)@.len(),
    ensures
        lanes_model(final(lanes)@) == put(
            lanes_model(old(lanes)@),
            i as int,
            match v {
                Some(s) => Some(s@),
                None => None,
            },
        ),
        final(lanes)@.len() >= old(lanes)@.len(),
{
    if i == lanes.len() {
        lanes.push(v);
    } else {
        lanes[i] = v;
    }
    assert(lanes_model(lanes@) =~= put(
        lanes_model(old(lanes)@),
        i as int,
        match v {
            Some(s) => Some(s@),
            None => None,
        },
    ));
}

/// Nothing waits for `hash` any more.
fn free_lanes<'a>(lanes: &mut Vec<Option<&'a String>>, hash: &String)
    ensures
        lanes_model(final(lanes)@) == freed(lanes_model(old(lanes)@), hash@),
        final(lanes)@.len() == old(lanes)@.len(),
{
    let mut i: usize = 0;
    let ghost before = lanes@;
    while i < lanes.len()
        invariant
            i <= lanes@.len() == before.len(),
            forall|j: int| 0 <= j < i ==> lanes_model(lanes@)[j] == freed(
                lanes_model(before),
                hash@,
            )[j],
            forall|j: int| i <= j < before.len() ==> lanes@[j] == before[j],
        decreases lanes@.len() - i,
    {
        let ghost prev = lanes@;
        if let Some(h) = lanes[i] {
            if *h == *hash {
                lanes[i] = None;
            }
        }
        assert forall|j: int| 0 <= j < i + 1 implies lanes_model(lanes@)[j] == freed(
            lanes_model(before),
            hash@,
        )[j] by {
            if j < i {
                assert(lanes_model(prev)[j] == freed(lanes_model(before), hash@)[j]);
                assert(lanes@[j] == prev[j]);
            } else {
                assert(prev[j] == before[j]);
            }
        }
        i += 1;
    }
    assert(lanes_model(lanes@) =~= freed(lanes_model(before), hash@));
}

/// Gives each parent its lane.
fn place_parents<'a>(
    lanes: &mut Vec<Option<&'a String>>,
    lane: usize,
    parents: &'a Vec<String>,
) -> (out: Vec<usize>)
    requires
        lane < old(lanes)@.len(),
    ensures
        (lanes_model(final(lanes)@), ints(out@)) == place(
            lanes_model(old(lanes)@),
            lane as int,
            models(parents@),
        ),
        final(lanes)@.len() >= old(lanes)@.len(),
{
    let mut out: Vec<usize> = Vec::new();
    let mut k: usize = 0;
    let ghost start = lanes_model(lanes@);
    let ghost ps = models(parents@);
    assert(ints(out@) =~= place(start, lane as int, ps.take(0)).1);
    while k < parents.len()
        invariant
            k <= parents@.len(),
            ps == models(parents@),
            lane < start.len() <= lanes@.len(),
            lanes_model(lanes@) == place(start, lane as int, ps.take(k as int)).0,
            ints(out@) == place(start, lane as int, ps.take(k as int)).1,
        decreases parents@.len() - k,
    {
        let p: &'a String = &parents[k];
        assert(ps.take(k + 1).drop_last() =~= ps.take(k as int));
        let target: usize = if k == 0 {
            lane
        } else {
            let i: usize = find_waiting(lanes, p);
            if i < lanes.len() {
                i
            } else {
                find_free(lanes)
            }
        };
        let ghost old_out = out@;
        set_lane(lanes, target, Some(p));
        out.push(target);
        assert(ints(out@) =~= ints(old_out).push(target as int));
        k += 1;
    }
    assert(ps.take(ps.len() as int) =~= ps);
    out
}

/// Drops the free lanes at the end.
fn trim_lanes(lanes: &mut Vec<Option<&String>>)
    ensures
        lanes_model(final(lanes)@) == trimmed(lanes_model(old(lanes)@)),
{
    let ghost start = lanes_model(lanes@);
    while lanes.len() > 0 && lanes[lanes.len() - 1].is_none()
        invariant
            trimmed(lanes_model(lanes@)) == trimmed(start),
        decreases lanes@.len(),
    {
        let ghost m = lanes_model(lanes@);
        let last = lanes.pop();
        assert(lanes_model(lanes@) =~= m.drop_last());
    }
}

/// Assign lanes to commits in `--topo-order` (children before parents), newest first.
/// A lane "waits" for a hash: the first parent keeps the commit's lane, further parents take
/// the lane already waiting for them or a free one; a lane is freed when its commit appears.
pub fn graph(commits: &[Commit]) -> (rows: Vec<GraphRow>)
    ensures
        models(rows@) == graph_rows(models(commits@)),
{
    let mut lanes: Vec<Option<&String>> = Vec::new();
    let mut rows: Vec<GraphRow> = Vec::new();
    let mut i: usize = 0;
    let ghost cs = models(commits@);
    assert(lanes_model(lanes@) =~= lanes_below(cs.take(0)));
    while i < commits.len()
        invariant
            i <= commits@.len(),
            cs == models(commits@),
            rows@.len() == i,
            lanes_model(lanes@) == lanes_below(cs.take(i as int)),
            forall|j: int| 0 <= j < i ==> (#[trigger] rows@[j])@ == graph_rows(cs)[j],
        decreases commits@.len() - i,
    {
        let c = &commits[i];
        let ghost above = lanes_model(lanes@);
        let into: Vec<usize> = collect_waiting(&lanes, &c.hash, true);
        let through: Vec<usize> = collect_waiting(&lanes, &c.hash, false);
        let first: usize = find_waiting(&lanes, &c.hash);
        let lane: usize = if first < lanes.len() {
            first
        } else {
            find_free(&lanes)
        };
        if lane == lanes.len() {
            lanes.push(None);
            assert(lanes_model(lanes@) =~= above.push(None));
        }
        free_lanes(&mut lanes, &c.hash);
        let out: Vec<usize> = place_parents(&mut lanes, lane, &c.parents);
        let row = GraphRow { lane, into, through, out, width: lanes.len() };
        assert(cs[i as int] == c@);
        assert(row@ == graph_rows(cs)[i as int]);
        rows.push(row);
        trim_lanes(&mut lanes);
        assert(cs.take(i + 1).drop_last() =~= cs.take(i as int));
        i += 1;
    }
    assert(models(rows@) =~= graph_rows(cs));
    rows
}

} // verus!
