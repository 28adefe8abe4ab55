//! What holds of every commit graph.

use vstd::prelude::*;

use crate::git::graph::{
    freed, graph_rows, lane_for, lanes_below, node_lane, place, put, step, trimmed, waiting,
    GraphRowModel, Lanes,
};
use crate::git::log::CommitModel;
use crate::text::{find, find_facts};

verus! {

/// Lane `l` waits for commit `hash`.
pub open spec fn waits(lanes: Lanes, l: int, hash: Seq<char>) -> bool {
    0 <= l < lanes.len() && lanes[l] == Some(hash)
}

/// Lane `l` waits for some commit.
pub open spec fn in_use(lanes: Lanes, l: int) -> bool {
    0 <= l < lanes.len() && lanes[l] is Some
}

/// The last lane, where there is one, waits for some commit.
pub open spec fn ends_in_use(lanes: Lanes) -> bool {
    lanes.len() > 0 ==> lanes.last() is Some
}

proof fn waiting_facts(lanes: Lanes, hash: Seq<char>, for_it: bool)
    ensures
        forall|l: int| #[trigger]
            waiting(lanes, hash, for_it).contains(l) <==> in_use(lanes, l) && (lanes[l] == Some(
                hash,
            )) == for_it,
        forall|a: int, b: int|
            0 <= a < b < waiting(lanes, hash, for_it).len() ==> waiting(lanes, hash, for_it)[a]
                < waiting(lanes, hash, for_it)[b],
    decreases lanes.len(),
{
    let w = waiting(lanes, hash, for_it);
    if lanes.len() > 0 {
        let front = lanes.drop_last();
        let v = waiting(front, hash, for_it);
        waiting_facts(front, hash, for_it);
        assert forall|a: int| 0 <= a < v.len() implies 0 <= #[trigger] v[a] < front.len() by {
            assert(v.contains(v[a]));
        }
        assert forall|l: int| #[trigger]
            w.contains(l) <==> in_use(lanes, l) && (lanes[l] == Some(hash)) == for_it by {
            if v.contains(l) {
                let a = choose|a: int| 0 <= a < v.len() && v[a] == l;
                assert(w[a] == l);
                assert(w.contains(l));
            }
            if w.contains(l) {
                let a = choose|a: int| 0 <= a < w.len() && w[a] == l;
                if a < v.len() {
                    assert(v[a] == l);
                    assert(v.contains(l));
                }
            }
            if l == lanes.len() - 1 && in_use(lanes, l) && (lanes[l] == Some(hash)) == for_it {
                assert(w[w.len() - 1] == l);
            }
            if 0 <= l < front.len() {
                assert(front[l] == lanes[l]);
            }
        }
    }
}

proof fn trimmed_facts(lanes: Lanes)
    ensures
        trimmed(lanes).len() <= lanes.len(),
        forall|l: int| #[trigger] in_use(trimmed(lanes), l) == in_use(lanes, l),
        forall|l: int| 0 <= l < trimmed(lanes).len() ==> trimmed(lanes)[l] == lanes[l],
        ends_in_use(trimmed(lanes)),
    decreases lanes.len(),
{
    if lanes.len() > 0 && lanes.last() is None {
        let front = lanes.drop_last();
        trimmed_facts(front);
        assert forall|l: int| #[trigger] in_use(trimmed(lanes), l) == in_use(lanes, l) by {
            assert(in_use(trimmed(front), l) == in_use(front, l));
        }
        assert forall|l: int| 0 <= l < trimmed(lanes).len() implies trimmed(lanes)[l]
            == lanes[l] by {
            assert(trimmed(front)[l] == front[l]);
        }
    }
}

/// What giving the parents their lanes keeps and adds.
proof fn place_facts(lanes: Lanes, lane: int, parents: Seq<Seq<char>>)
    requires
        0 <= lane < lanes.len(),
        lanes[lane] is None,
    ensures
        ({
            let (below, out) = place(lanes, lane, parents);
            &&& below.len() >= lanes.len()
            &&& below.len() > lanes.len() ==> out.contains(below.len() - 1)
            &&& out.len() == parents.len()
            &&& parents.len() > 0 ==> out[0] == lane
            &&& forall|k: int| 0 <= k < out.len() ==> waits(below, #[trigger] out[k], parents[k])
            &&& forall|l: int, h: Seq<char>| waits(lanes, l, h) ==> #[trigger] waits(below, l, h)
            &&& forall|l: int, h: Seq<char>| #[trigger]
                waits(below, l, h) && !waits(lanes, l, h) ==> exists|k: int|
                    0 <= k < out.len() && #[trigger] out[k] == l && parents[k] == h
        }),
    decreases parents.len(),
{
    let (below, out) = place(lanes, lane, parents);
    if parents.len() > 0 {
        let front = parents.drop_last();
        let p = parents.last();
        place_facts(lanes, lane, front);
        let (mid, mout) = place(lanes, lane, front);
        let target = lane_for(mid, lane, parents.len() - 1, p);
        find_facts(mid, Some(p));
        find_facts(mid, None);
        assert(0 <= target <= mid.len());
        assert(target < mid.len() ==> mid[target] is None || mid[target] == Some(p));
        assert(below == put(mid, target, Some(p)));
        assert forall|l: int, h: Seq<char>| waits(mid, l, h) implies #[trigger] waits(
            below,
            l,
            h,
        ) by {}
        assert(waits(below, target, p));
        if target == mid.len() {
            assert(out[out.len() - 1] == below.len() - 1);
        } else if mid.len() > lanes.len() {
            let k = choose|k: int| 0 <= k < mout.len() && mout[k] == mid.len() - 1;
            assert(out[k] == below.len() - 1);
        }
        assert forall|k: int| 0 <= k < out.len() implies waits(
            below,
            #[trigger] out[k],
            parents[k],
        ) by {
            if k < mout.len() {
                assert(waits(mid, mout[k], front[k]));
                assert(waits(below, mout[k], front[k]));
            }
        }
        assert forall|l: int, h: Seq<char>| waits(lanes, l, h) implies #[trigger] waits(
            below,
            l,
            h,
        ) by {
            assert(waits(mid, l, h));
        }
        assert forall|l: int, h: Seq<char>| #[trigger]
            waits(below, l, h) && !waits(lanes, l, h) implies exists|k: int|
            0 <= k < out.len() && #[trigger] out[k] == l && parents[k] == h by {
            if l == target && !waits(mid, l, h) {
                assert(out[out.len() - 1] == l);
            } else {
                assert(waits(mid, l, h));
                let k = choose|k: int|
                    0 <= k < mout.len() && #[trigger] mout[k] == l && front[k] == h;
                assert(out[k] == l && parents[k] == h);
            }
        }
    }
}

/// Lane `l` is in use on a row: the node sits in it, or a line comes in, passes or leaves in it.
pub open spec fn touches(row: GraphRowModel, l: int) -> bool {
    l == row.lane || row.into.contains(l) || row.through.contains(l) || row.out.contains(l)
}

/// What one row does to the lanes.
proof fn step_facts(lanes: Lanes, c: CommitModel)
    ensures
        ({
            let (row, below) = step(lanes, c);
            &&& 0 <= row.lane < row.width
            &&& lanes.len() <= row.width
            &&& below.len() <= row.width
            &&& ends_in_use(below)
            &&& ends_in_use(lanes) ==> touches(row, row.width - 1)
            &&& row.out.len() == c.parents.len()
            &&& c.parents.len() > 0 ==> row.out[0] == row.lane
            &&& row.into.len() > 0 ==> row.into[0] == row.lane
            &&& row.into.len() == 0 ==> !in_use(lanes, row.lane)
            &&& forall|l: int| #[trigger] row.into.contains(l) <==> waits(lanes, l, c.hash)
            &&& forall|l: int| #[trigger]
                row.through.contains(l) <==> in_use(lanes, l) && !waits(lanes, l, c.hash)
            &&& forall|k: int|
                0 <= k < row.out.len() ==> waits(below, #[trigger] row.out[k], c.parents[k])
            &&& forall|l: int, h: Seq<char>|
                waits(lanes, l, h) && h != c.hash ==> #[trigger] waits(below, l, h)
            &&& forall|l: int, h: Seq<char>| #[trigger]
                waits(below, l, h) ==> (waits(lanes, l, h) && h != c.hash) || exists|k: int|
                    0 <= k < row.out.len() && #[trigger] row.out[k] == l && c.parents[k] == h
        }),
{
    let lane = node_lane(lanes, c.hash);
    let above = if lane == lanes.len() {
        lanes.push(None)
    } else {
        lanes
    };
    find_facts(lanes, Some(c.hash));
    find_facts(lanes, None);
    let clear = freed(above, c.hash);
    let (full, out) = place(clear, lane, c.parents);
    let (row, below) = step(lanes, c);
    assert(clear[lane] is None);
    place_facts(clear, lane, c.parents);
    trimmed_facts(full);
    waiting_facts(lanes, c.hash, true);
    waiting_facts(lanes, c.hash, false);
    assert forall|l: int, h: Seq<char>|
        waits(clear, l, h) == (waits(lanes, l, h) && h != c.hash) by {
        if 0 <= l < lanes.len() {
            assert(above[l] == lanes[l]);
        }
    }
    if ends_in_use(lanes) && full.len() == lanes.len() {
        assert(in_use(lanes, full.len() - 1));
        assert(row.into.contains(full.len() - 1) || row.through.contains(full.len() - 1));
    }
    assert forall|l: int, h: Seq<char>| waits(full, l, h) == waits(below, l, h) by {
        assert(in_use(trimmed(full), l) == in_use(full, l));
    }
    if row.into.len() > 0 {
        assert(row.into.contains(row.into[0]));
        assert(waits(lanes, row.into[0], c.hash));
        let f = find(lanes, Some(c.hash));
        assert(waits(lanes, f, c.hash));
        assert(row.into.contains(f));
        let a = choose|a: int| 0 <= a < row.into.len() && row.into[a] == f;
        if a > 0 {
            assert(row.into[0] < row.into[a]);
        }
    } else if in_use(lanes, row.lane) {
        let f = find(lanes, Some(c.hash));
        if f < lanes.len() {
            assert(waits(lanes, f, c.hash));
            assert(row.into.contains(f));
        }
    }
    assert forall|k: int| 0 <= k < row.out.len() implies waits(
        below,
        #[trigger] row.out[k],
        c.parents[k],
    ) by {
        assert(waits(full, out[k], c.parents[k]));
    }
    assert forall|l: int, h: Seq<char>|
        waits(lanes, l, h) && h != c.hash implies #[trigger] waits(below, l, h) by {
        assert(waits(clear, l, h));
        assert(waits(full, l, h));
    }
    assert forall|l: int, h: Seq<char>| #[trigger] waits(below, l, h) implies (waits(lanes, l, h)
        && h != c.hash) || exists|k: int|
        0 <= k < row.out.len() && #[trigger] row.out[k] == l && c.parents[k] == h by {
        assert(waits(full, l, h));
        if !waits(clear, l, h) {
            let k = choose|k: int|
                0 <= k < out.len() && #[trigger] out[k] == l && c.parents[k] == h;
            assert(row.out[k] == l);
        }
    }
}

/// The lanes below row `i` are the ones that row makes of the lanes above it.
proof fn lanes_step(commits: Seq<CommitModel>, i: int)
    requires
        0 <= i < commits.len(),
    ensures
        lanes_below(commits.take(i + 1)) == step(lanes_below(commits.take(i)), commits[i]).1,
        graph_rows(commits)[i] == step(lanes_below(commits.take(i)), commits[i]).0,
        ends_in_use(lanes_below(commits.take(i))),
{
    assert(commits.take(i + 1).drop_last() =~= commits.take(i));
    if i > 0 {
        step_facts(lanes_below(commits.take(i).drop_last()), commits.take(i).last());
    }
}

/// A row draws inside its width: the node, the lines that come in, pass and leave. The width is
/// no larger than that takes: it counts the lanes up to the last one in use. One line leaves for
/// each parent, the first in the node's own lane. Lines that come in and lines that pass are
/// different ones, none of the passing ones touches the node, and when lines come in, the node
/// sits in the leftmost of them.
pub proof fn rows_are_well_drawn(commits: Seq<CommitModel>, i: int)
    requires
        0 <= i < commits.len(),
    ensures
        graph_rows(commits).len() == commits.len(),
        ({
            let row = graph_rows(commits)[i];
            &&& 0 <= row.lane < row.width
            &&& touches(row, row.width - 1)
            &&& row.out.len() == commits[i].parents.len()
            &&& row.out.len() > 0 ==> row.out[0] == row.lane
            &&& row.into.len() > 0 ==> row.into[0] == row.lane
            &&& !row.through.contains(row.lane)
            &&& forall|l: int| #[trigger] row.into.contains(l) ==> 0 <= l < row.width
            &&& forall|l: int| #[trigger] row.through.contains(l) ==> 0 <= l < row.width
            &&& forall|l: int| #[trigger] row.out.contains(l) ==> 0 <= l < row.width
            &&& forall|l: int| !(#[trigger] row.into.contains(l) && row.through.contains(l))
            &&& forall|a: int, b: int|
                0 <= a < b < row.into.len() ==> row.into[a] < row.into[b]
            &&& forall|a: int, b: int|
                0 <= a < b < row.through.len() ==> row.through[a] < row.through[b]
        }),
{
    let lanes = lanes_below(commits.take(i));
    let c = commits[i];
    lanes_step(commits, i);
    step_facts(lanes, c);
    waiting_facts(lanes, c.hash, true);
    waiting_facts(lanes, c.hash, false);
    let (row, below) = step(lanes, c);
    if row.into.len() > 0 {
        assert(row.into.contains(row.into[0]));
    }
    assert forall|l: int| #[trigger] row.out.contains(l) implies 0 <= l < row.width by {
        let k = choose|k: int| 0 <= k < row.out.len() && row.out[k] == l;
        assert(waits(below, row.out[k], c.parents[k]));
    }
}

/// No line comes from above the first row.
pub proof fn nothing_above_the_first_row(commits: Seq<CommitModel>)
    requires
        commits.len() > 0,
    ensures
        graph_rows(commits)[0].into.len() == 0,
        graph_rows(commits)[0].through.len() == 0,
        graph_rows(commits)[0].lane == 0,
{
    assert(commits.take(0) =~= Seq::<CommitModel>::empty());
}

/// Lines do not start or stop between rows: a lane leaves a row (through it, or out of its
/// node) exactly when it enters the next one (into its node, or through it).
pub proof fn lines_continue(commits: Seq<CommitModel>, i: int, l: int)
    requires
        0 <= i,
        i + 1 < commits.len(),
    ensures
        (graph_rows(commits)[i].through.contains(l) || graph_rows(commits)[i].out.contains(l))
            <==> (graph_rows(commits)[i + 1].into.contains(l) || graph_rows(
            commits,
        )[i + 1].through.contains(l)),
{
    let lanes = lanes_below(commits.take(i));
    let c = commits[i];
    lanes_step(commits, i);
    lanes_step(commits, i + 1);
    step_facts(lanes, c);
    let (row, below) = step(lanes, c);
    step_facts(below, commits[i + 1]);
    let next = graph_rows(commits)[i + 1];
    if row.through.contains(l) {
        let h = lanes[l].unwrap();
        assert(waits(lanes, l, h));
        assert(waits(below, l, h));
    }
    if row.out.contains(l) {
        let k = choose|k: int| 0 <= k < row.out.len() && row.out[k] == l;
        assert(waits(below, row.out[k], c.parents[k]));
    }
    if in_use(below, l) {
        let h = below[l].unwrap();
        assert(waits(below, l, h));
        if !(waits(lanes, l, h) && h != c.hash) {
            let k = choose|k: int|
                0 <= k < row.out.len() && #[trigger] row.out[k] == l && c.parents[k] == h;
            assert(row.out.contains(l));
        }
    }
}

proof fn edge_persists(commits: Seq<CommitModel>, i: int, k: int, m: int)
    requires
        0 <= i < m <= commits.len(),
        0 <= k < commits[i].parents.len(),
        forall|q: int| i < q < m ==> commits[q].hash != commits[i].parents[k],
    ensures
        k < graph_rows(commits)[i].out.len(),
        waits(
            lanes_below(commits.take(m)),
            graph_rows(commits)[i].out[k],
            commits[i].parents[k],
        ),
    decreases m - i,
{
    lanes_step(commits, m - 1);
    step_facts(lanes_below(commits.take(m - 1)), commits[m - 1]);
    if m - 1 > i {
        edge_persists(commits, i, k, m - 1);
    }
}

/// Every line reaches its parent: the line that leaves commit `i` for its parent `k` passes
/// every row down to the parent's, and comes into the parent's node there.
pub proof fn lines_reach_parents(commits: Seq<CommitModel>, i: int, k: int, j: int)
    requires
        0 <= i < j < commits.len(),
        0 <= k < commits[i].parents.len(),
        commits[j].hash == commits[i].parents[k],
        forall|q: int| i < q < j ==> commits[q].hash != commits[i].parents[k],
    ensures
        graph_rows(commits)[j].into.contains(graph_rows(commits)[i].out[k]),
        forall|q: int|
            i < q < j ==> (#[trigger] graph_rows(commits)[q]).through.contains(
                graph_rows(commits)[i].out[k],
            ),
{
    let l = graph_rows(commits)[i].out[k];
    edge_persists(commits, i, k, j);
    lanes_step(commits, j);
    step_facts(lanes_below(commits.take(j)), commits[j]);
    assert forall|q: int| i < q < j implies (#[trigger] graph_rows(commits)[q]).through.contains(
        l,
    ) by {
        lines_run_on(commits, i, k, q);
    }
}

/// The line to a parent that is not in the list runs on: the line that leaves commit `i` for its
/// parent `k` passes every row down to which that parent has not appeared, and so all the rows
/// below where it is not in the list.
pub proof fn lines_run_on(commits: Seq<CommitModel>, i: int, k: int, j: int)
    requires
        0 <= i < j < commits.len(),
        0 <= k < commits[i].parents.len(),
        forall|q: int| i < q <= j ==> commits[q].hash != commits[i].parents[k],
    ensures
        graph_rows(commits)[j].through.contains(graph_rows(commits)[i].out[k]),
{
    edge_persists(commits, i, k, j);
    lanes_step(commits, j);
    step_facts(lanes_below(commits.take(j)), commits[j]);
}

/// Commit `i` sends a line for its parent `k` down lane `l`, and that parent has not appeared
/// before row `j`.
pub open spec fn line_from(commits: Seq<CommitModel>, i: int, k: int, j: int, l: int) -> bool {
    &&& 0 <= i < j
    &&& 0 <= k < commits[i].parents.len()
    &&& graph_rows(commits)[i].out[k] == l
    &&& forall|q: int| i < q < j ==> commits[q].hash != commits[i].parents[k]
}

proof fn line_has_a_start(commits: Seq<CommitModel>, m: int, l: int, h: Seq<char>)
    requires
        0 <= m <= commits.len(),
        waits(lanes_below(commits.take(m)), l, h),
    ensures
        exists|i: int, k: int| #[trigger]
            line_from(commits, i, k, m, l) && commits[i].parents[k] == h,
    decreases m,
{
    if m == 0 {
        assert(commits.take(0) =~= Seq::<CommitModel>::empty());
    } else {
        let lanes = lanes_below(commits.take(m - 1));
        let c = commits[m - 1];
        lanes_step(commits, m - 1);
        step_facts(lanes, c);
        let row = step(lanes, c).0;
        if waits(lanes, l, h) && h != c.hash {
            line_has_a_start(commits, m - 1, l, h);
            let (i, k) = choose|i: int, k: int| #[trigger]
                line_from(commits, i, k, m - 1, l) && commits[i].parents[k] == h;
            assert(line_from(commits, i, k, m, l));
        } else {
            let k = choose|k: int|
                0 <= k < row.out.len() && #[trigger] row.out[k] == l && c.parents[k] == h;
            assert(line_from(commits, m - 1, k, m, l));
        }
    }
}

/// Every line that comes into a node is a child's: some commit above has this commit as a
/// parent that did not appear in between, and sent the line down that lane.
pub proof fn lines_come_from_children(commits: Seq<CommitModel>, j: int, l: int)
    requires
        0 <= j < commits.len(),
        graph_rows(commits)[j].into.contains(l),
    ensures
        exists|i: int, k: int| #[trigger]
            line_from(commits, i, k, j, l) && commits[i].parents[k] == commits[j].hash,
{
    lanes_step(commits, j);
    step_facts(lanes_below(commits.take(j)), commits[j]);
    line_has_a_start(commits, j, l, commits[j].hash);
}

/// Above row `j`, the line in lane `l` leads to commit `hash`: some commit above sent it there for
/// a parent with that hash, which has not appeared since.
pub open spec fn leads_to(commits: Seq<CommitModel>, j: int, l: int, hash: Seq<char>) -> bool {
    exists|i: int, k: int| #[trigger]
        line_from(commits, i, k, j, l) && commits[i].parents[k] == hash
}

proof fn leading_is_waiting(commits: Seq<CommitModel>, j: int, l: int, hash: Seq<char>)
    requires
        0 <= j <= commits.len(),
    ensures
        leads_to(commits, j, l, hash) == waits(lanes_below(commits.take(j)), l, hash),
{
    if waits(lanes_below(commits.take(j)), l, hash) {
        line_has_a_start(commits, j, l, hash);
    }
    if leads_to(commits, j, l, hash) {
        let (i, k) = choose|i: int, k: int| #[trigger]
            line_from(commits, i, k, j, l) && commits[i].parents[k] == hash;
        edge_persists(commits, i, k, j);
    }
}

/// A commit that nothing leads to takes the first lane that is free: all the lanes before it are
/// passed by lines.
pub proof fn tips_take_the_first_free_lane(commits: Seq<CommitModel>, i: int, l: int)
    requires
        0 <= i < commits.len(),
        graph_rows(commits)[i].into.len() == 0,
    ensures
        !graph_rows(commits)[i].through.contains(graph_rows(commits)[i].lane),
        0 <= l < graph_rows(commits)[i].lane ==> graph_rows(commits)[i].through.contains(l),
{
    let lanes = lanes_below(commits.take(i));
    let c = commits[i];
    lanes_step(commits, i);
    step_facts(lanes, c);
    find_facts(lanes, Some(c.hash));
    find_facts(lanes, None);
    let f = find(lanes, Some(c.hash));
    let row = graph_rows(commits)[i];
    if f < lanes.len() {
        assert(waits(lanes, f, c.hash));
        assert(row.into.contains(f));
    }
    if 0 <= l < row.lane {
        assert(lanes[l] is Some);
        if waits(lanes, l, c.hash) {
            assert(row.into.contains(l));
        }
    }
}

/// On row `i` there is a lane for parent `k` already: a line passes in lane `l` that leads to it,
/// or the same parent came before and has that lane.
pub open spec fn has_a_lane(commits: Seq<CommitModel>, i: int, k: int, l: int) -> bool {
    let row = graph_rows(commits)[i];
    let p = commits[i].parents[k];
    ||| row.through.contains(l) && leads_to(commits, i, l, p)
    ||| exists|j: int| 0 <= j < k && #[trigger] row.out[j] == l && commits[i].parents[j] == p
}

/// Lane `l` is taken on row `i` before parent `k` gets one: a line passes in it, or an earlier
/// parent has it.
pub open spec fn is_taken(commits: Seq<CommitModel>, i: int, k: int, l: int) -> bool {
    let row = graph_rows(commits)[i];
    row.through.contains(l) || exists|j: int| 0 <= j < k && #[trigger] row.out[j] == l
}

proof fn place_by_steps(lanes: Lanes, lane: int, parents: Seq<Seq<char>>, k: int)
    requires
        0 <= k < parents.len(),
    ensures
        ({
            let out = place(lanes, lane, parents).1;
            let (mid, before) = place(lanes, lane, parents.take(k));
            &&& out.len() == parents.len()
            &&& before == out.take(k)
            &&& out[k] == lane_for(mid, lane, k, parents[k])
        }),
    decreases parents.len(),
{
    let front = parents.drop_last();
    let out = place(lanes, lane, parents).1;
    let fore = place(lanes, lane, front).1;
    if k < front.len() {
        place_by_steps(lanes, lane, front, k);
        assert(front.take(k) =~= parents.take(k));
        assert(out.take(k) =~= fore.take(k));
    } else {
        assert(front =~= parents.take(k));
        if front.len() > 0 {
            place_by_steps(lanes, lane, front, 0);
        }
        assert(out.take(k) =~= fore);
    }
}

/// The lanes of row `i` when parent `k` gets one.
proof fn lanes_at_a_parent(commits: Seq<CommitModel>, i: int, k: int) -> (mid: Lanes)
    requires
        0 <= i < commits.len(),
        0 < k < commits[i].parents.len(),
    ensures
        graph_rows(commits)[i].out.len() == commits[i].parents.len(),
        graph_rows(commits)[i].out[k] == lane_for(
            mid,
            graph_rows(commits)[i].lane,
            k,
            commits[i].parents[k],
        ),
        forall|l: int| #[trigger]
            waits(mid, l, commits[i].parents[k]) == has_a_lane(commits, i, k, l),
        forall|l: int| #[trigger] in_use(mid, l) == is_taken(commits, i, k, l),
{
    let lanes = lanes_below(commits.take(i));
    let c = commits[i];
    lanes_step(commits, i);
    step_facts(lanes, c);
    let (row, below) = step(lanes, c);
    let lane = node_lane(lanes, c.hash);
    let above = if lane == lanes.len() {
        lanes.push(None)
    } else {
        lanes
    };
    find_facts(lanes, Some(c.hash));
    find_facts(lanes, None);
    let clear = freed(above, c.hash);
    let ps = c.parents.take(k);
    let (mid, before) = place(clear, lane, ps);
    assert(clear[lane] is None);
    place_facts(clear, lane, ps);
    place_by_steps(clear, lane, c.parents, k);
    assert forall|l: int, h: Seq<char>|
        waits(clear, l, h) == (waits(lanes, l, h) && h != c.hash) by {
        if 0 <= l < lanes.len() {
            assert(above[l] == lanes[l]);
        }
    }
    let p = c.parents[k];
    assert forall|l: int| #[trigger] waits(mid, l, p) == has_a_lane(commits, i, k, l) by {
        leading_is_waiting(commits, i, l, p);
        if waits(mid, l, p) {
            if waits(clear, l, p) {
                assert(row.through.contains(l));
            } else {
                let j = choose|j: int|
                    0 <= j < before.len() && #[trigger] before[j] == l && ps[j] == p;
                assert(row.out[j] == l && c.parents[j] == p);
            }
        }
        if row.through.contains(l) && leads_to(commits, i, l, p) {
            assert(waits(clear, l, p));
        }
        if exists|j: int| 0 <= j < k && #[trigger] row.out[j] == l && c.parents[j] == p {
            let j = choose|j: int| 0 <= j < k && #[trigger] row.out[j] == l && c.parents[j] == p;
            assert(before[j] == l && ps[j] == p);
        }
    }
    assert forall|l: int| #[trigger] in_use(mid, l) == is_taken(commits, i, k, l) by {
        if in_use(mid, l) {
            let h = mid[l].unwrap();
            assert(waits(mid, l, h));
            if waits(clear, l, h) {
                assert(row.through.contains(l));
            } else {
                let j = choose|j: int|
                    0 <= j < before.len() && #[trigger] before[j] == l && ps[j] == h;
                assert(row.out[j] == l);
            }
        }
        if row.through.contains(l) {
            let h = lanes[l].unwrap();
            assert(waits(lanes, l, h));
            assert(waits(clear, l, h));
            assert(waits(mid, l, h));
        }
        if exists|j: int| 0 <= j < k && #[trigger] row.out[j] == l {
            let j = choose|j: int| 0 <= j < k && #[trigger] row.out[j] == l;
            assert(before[j] == l);
            assert(waits(mid, before[j], ps[j]));
        }
    }
    mid
}

/// A further parent that a line leads to already takes the lane of that line, the leftmost one
/// where there are several; no second line to it is opened.
pub proof fn further_parents_join_their_lines(commits: Seq<CommitModel>, i: int, k: int, l: int)
    requires
        0 <= i < commits.len(),
        0 < k < commits[i].parents.len(),
        has_a_lane(commits, i, k, l),
    ensures
        has_a_lane(commits, i, k, graph_rows(commits)[i].out[k]),
        graph_rows(commits)[i].out[k] <= l,
{
    let mid = lanes_at_a_parent(commits, i, k);
    let p = commits[i].parents[k];
    find_facts(mid, Some(p));
    assert(waits(mid, l, p));
    let f = find(mid, Some(p));
    assert(f <= l);
    assert(waits(mid, f, p));
}

/// A further parent that no line leads to takes the first lane that is free: one that no line
/// passes and no earlier parent has, with all the lanes before it taken.
pub proof fn further_parents_open_the_first_free_lane(
    commits: Seq<CommitModel>,
    i: int,
    k: int,
    l: int,
)
    requires
        0 <= i < commits.len(),
        0 < k < commits[i].parents.len(),
        forall|q: int| !has_a_lane(commits, i, k, q),
    ensures
        !is_taken(commits, i, k, graph_rows(commits)[i].out[k]),
        0 <= l < graph_rows(commits)[i].out[k] ==> is_taken(commits, i, k, l),
{
    let mid = lanes_at_a_parent(commits, i, k);
    let p = commits[i].parents[k];
    find_facts(mid, Some(p));
    find_facts(mid, None);
    let f = find(mid, Some(p));
    if f < mid.len() {
        assert(waits(mid, f, p));
        assert(has_a_lane(commits, i, k, f));
    }
    let free = find(mid, None);
    assert(!in_use(mid, free));
    if 0 <= l < free {
        assert(mid[l] is Some);
        assert(in_use(mid, l));
    }
}

/// What a line that passes a row leads to, and what a line that comes into a node leads to.
pub proof fn lines_lead_somewhere(commits: Seq<CommitModel>, j: int, l: int)
    requires
        0 <= j < commits.len(),
    ensures
        graph_rows(commits)[j].into.contains(l) <==> leads_to(commits, j, l, commits[j].hash),
        graph_rows(commits)[j].through.contains(l) <==> exists|h: Seq<char>| #[trigger]
            leads_to(commits, j, l, h) && h != commits[j].hash,
{
    let lanes = lanes_below(commits.take(j));
    let hash = commits[j].hash;
    let row = graph_rows(commits)[j];
    lanes_step(commits, j);
    step_facts(lanes, commits[j]);
    leading_is_waiting(commits, j, l, hash);
    if row.through.contains(l) {
        let h = lanes[l].unwrap();
        leading_is_waiting(commits, j, l, h);
        assert(leads_to(commits, j, l, h) && h != hash);
    }
    if exists|h: Seq<char>| #[trigger] leads_to(commits, j, l, h) && h != hash {
        let h = choose|h: Seq<char>| #[trigger] leads_to(commits, j, l, h) && h != hash;
        leading_is_waiting(commits, j, l, h);
    }
}

} // verus!
