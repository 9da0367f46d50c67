//! The listing of a container as the front ends draw it: each listed task
//! with its hierarchical index, top-level tasks first in task order, each
//! followed by the listing of its children while it is unfolded.

use vstd::prelude::*;
use crate::taskstore::{Task, position_of_id, lemma_position_of_id, find_task_by_id};
use crate::display_container::{DisplayContainerState, DisplayView, is_expanded, top_level_positions,
    top_level_positions_of, existing_positions, follow_path, task_id_at_path};
use crate::task_index::{TaskIndex, join_path, lemma_task_index_round_trip};

verus! {

broadcast use vstd::std_specs::hash::group_hash_axioms;

/// A listed task: its hierarchical index and its position in the task list.
pub struct TaskRow {
    pub path: Seq<usize>,
    pub pos: int,
}

/// The rows of the task at position `p` with index `path`: the task itself,
/// then, while it is unfolded and levels remain, the rows of its children.
pub open spec fn node_rows(tasks: Seq<Task>, folded: Set<u32>, p: int, path: Seq<usize>, fuel: nat) -> Seq<TaskRow>
    decreases fuel, 0nat, 0nat,
{
    seq![TaskRow { path, pos: p }] + if fuel > 0 && 0 <= p < tasks.len() && is_expanded(
        folded,
        tasks[p].id,
    ) {
        child_rows(tasks, folded, tasks[p].child_ids@, path, (fuel - 1) as nat)
    } else {
        Seq::empty()
    }
}

/// The rows of a list of child ids under the index `path`: the child named
/// at place `k` (counted from 1) gets index `path` followed by `k`; ids of no
/// task are skipped but keep their place.
pub open spec fn child_rows(tasks: Seq<Task>, folded: Set<u32>, ids: Seq<u32>, path: Seq<usize>, fuel: nat) -> Seq<TaskRow>
    decreases fuel, 1nat, ids.len(),
{
    if ids.len() == 0 {
        Seq::empty()
    } else {
        child_rows(tasks, folded, ids.drop_last(), path, fuel) + match position_of_id(
            tasks,
            ids.last(),
        ) {
            Some(q) => node_rows(tasks, folded, q, path.push(ids.len() as usize), fuel),
            None => Seq::empty(),
        }
    }
}

/// The rows of the top-level tasks at the given positions, numbered from 1.
pub open spec fn top_rows(tasks: Seq<Task>, folded: Set<u32>, tops: Seq<int>, fuel: nat) -> Seq<TaskRow>
    decreases tops.len(),
{
    if tops.len() == 0 {
        Seq::empty()
    } else {
        top_rows(tasks, folded, tops.drop_last(), fuel) + node_rows(
            tasks,
            folded,
            tops.last(),
            seq![tops.len() as usize],
            fuel,
        )
    }
}

/// The listing of a container.  A hierarchy in which a task is its own
/// descendant is listed down to as many levels as there are tasks.
pub open spec fn listed_rows(tasks: Seq<Task>, folded: Set<u32>, active: crate::taskstore::TaskContainer) -> Seq<TaskRow> {
    top_rows(tasks, folded, top_level_positions(tasks, active), tasks.len() as nat)
}

/// The rows that a list of (position, index) pairs stands for.
pub open spec fn row_views(rows: Seq<(usize, TaskIndex)>) -> Seq<TaskRow> {
    rows.map_values(|r: (usize, TaskIndex)| TaskRow { path: r.1@, pos: r.0 as int })
}

/// Every row names a task of the list and has an index.
pub open spec fn rows_in_range(rows: Seq<(usize, TaskIndex)>, n: nat) -> bool {
    forall|k: int| 0 <= k < rows.len() ==> #[trigger] rows[k].0 < n && rows[k].1@.len() >= 1
}

/// Appends the rows of the task at position `p` with index `path`.
fn add_node_rows(
    tasks: &[Task],
    state: &DisplayContainerState,
    p: usize,
    path: &mut Vec<usize>,
    rows: &mut Vec<(usize, TaskIndex)>,
    fuel: usize,
)
    requires
        p < tasks@.len(),
        old(path)@.len() >= 1,
        rows_in_range(old(rows)@, tasks@.len()),
    ensures
        final(path)@ == old(path)@,
        row_views(final(rows)@) == row_views(old(rows)@) + node_rows(
            tasks@,
            state@.folded,
            p as int,
            old(path)@,
            fuel as nat,
        ),
        rows_in_range(final(rows)@, tasks@.len()),
    decreases fuel,
{
    let ghost start = rows@;
    rows.push((p, TaskIndex::from_path(path.clone())));
    proof {
        assert(row_views(rows@) =~= row_views(start) + seq![TaskRow { path: path@, pos: p as int }]);
    }
    if fuel > 0 && state.is_task_expanded(tasks[p].id) {
        let ids = &tasks[p].child_ids;
        let ghost base = rows@;
        let mut j: usize = 0;
        proof {
            assert(ids@.take(0) =~= Seq::<u32>::empty());
            assert(row_views(rows@) =~= row_views(base) + child_rows(
                tasks@,
                state@.folded,
                ids@.take(0),
                path@,
                (fuel - 1) as nat,
            ));
        }
        while j < ids.len()
            invariant
                p < tasks@.len(),
                ids@ == tasks@[p as int].child_ids@,
                j <= ids@.len(),
                fuel > 0,
                path@ == old(path)@,
                path@.len() >= 1,
                rows_in_range(rows@, tasks@.len()),
                row_views(rows@) == row_views(base) + child_rows(
                    tasks@,
                    state@.folded,
                    ids@.take(j as int),
                    path@,
                    (fuel - 1) as nat,
                ),
            decreases ids@.len() - j,
        {
            let child_id = ids[j];
            let ghost before = rows@;
            proof {
                lemma_position_of_id(tasks@, child_id);
                assert(ids@.take(j + 1).drop_last() =~= ids@.take(j as int));
                assert(ids@.take(j + 1).last() == child_id);
            }
            if let Some(q) = find_task_by_id(tasks, child_id) {
                let ghost outer = path@;
                path.push(j + 1);
                add_node_rows(tasks, state, q, path, rows, fuel - 1);
                path.pop();
                proof {
                    assert(path@ =~= outer);
                }
            }
            proof {
                assert(row_views(rows@) =~= row_views(base) + child_rows(
                    tasks@,
                    state@.folded,
                    ids@.take(j + 1),
                    path@,
                    (fuel - 1) as nat,
                ));
            }
            j = j + 1;
        }
        proof {
            assert(ids@.take(ids@.len() as int) =~= ids@);
        }
    }
}

/// The listing of the display's container, each row with the position of
/// its task and its hierarchical index.
pub fn collect_rows(tasks: &[Task], state: &DisplayContainerState) -> (rows: Vec<(usize, TaskIndex)>)
    ensures
        row_views(rows@) == listed_rows(tasks@, state@.folded, state@.active_container),
        rows_in_range(rows@, tasks@.len()),
{
    let tops = top_level_positions_of(tasks, state.active_container);
    let ghost all = top_level_positions(tasks@, state@.active_container);
    let fuel = tasks.len();
    let mut rows: Vec<(usize, TaskIndex)> = Vec::new();
    let mut k: usize = 0;
    proof {
        assert(all.take(0) =~= Seq::<int>::empty());
    }
    while k < tops.len()
        invariant
            fuel == tasks@.len(),
            all == top_level_positions(tasks@, state@.active_container),
            tops@.len() == all.len(),
            forall|i: int| 0 <= i < tops@.len() ==> tops@[i] as int == #[trigger] all[i],
            forall|i: int| 0 <= i < tops@.len() ==> tops@[i] < tasks@.len(),
            k <= tops@.len(),
            rows_in_range(rows@, tasks@.len()),
            row_views(rows@) == top_rows(tasks@, state@.folded, all.take(k as int), fuel as nat),
        decreases tops@.len() - k,
    {
        let mut path: Vec<usize> = Vec::new();
        path.push(k + 1);
        proof {
            assert(path@ =~= seq![(k + 1) as usize]);
            assert(all.take(k + 1).drop_last() =~= all.take(k as int));
            assert(all.take(k + 1).last() == tops@[k as int] as int);
        }
        add_node_rows(tasks, state, tops[k], &mut path, &mut rows, fuel);
        k = k + 1;
    }
    proof {
        assert(all.take(all.len() as int) =~= all);
    }
    rows
}

/// Every child id of every task names a task.
pub open spec fn children_exist(tasks: Seq<Task>) -> bool {
    forall|i: int, j: int|
        0 <= i < tasks.len() && 0 <= j < tasks[i].child_ids@.len() ==> position_of_id(
            tasks,
            #[trigger] tasks[i].child_ids@[j],
        ) is Some
}

/// The list and every list of child ids have lengths that fit in a
/// `usize`, as lists held in memory do.
pub open spec fn lengths_fit(tasks: Seq<Task>) -> bool {
    &&& tasks.len() <= usize::MAX
    &&& forall|i: int| 0 <= i < tasks.len() ==> #[trigger] tasks[i].child_ids@.len() <= usize::MAX
}

/// Every number of a path is positive.
pub open spec fn positive(path: Seq<usize>) -> bool {
    forall|j: int| 0 <= j < path.len() ==> path[j] > 0
}

/// When every id names a task, the positions of the named tasks are the
/// first positions of the ids, one for one.
proof fn lemma_existing_positions_all(tasks: Seq<Task>, ids: Seq<u32>)
    requires
        forall|j: int| 0 <= j < ids.len() ==> position_of_id(tasks, #[trigger] ids[j]) is Some,
    ensures
        existing_positions(tasks, ids).len() == ids.len(),
        forall|j: int|
            0 <= j < ids.len() ==> existing_positions(tasks, ids)[j] == position_of_id(
                tasks,
                #[trigger] ids[j],
            )->0,
    decreases ids.len(),
{
    if ids.len() > 0 {
        let prev = ids.drop_last();
        assert forall|j: int| 0 <= j < prev.len() implies position_of_id(tasks, #[trigger] prev[j]) is Some by {
            assert(prev[j] == ids[j]);
        }
        lemma_existing_positions_all(tasks, prev);
        assert(position_of_id(tasks, ids[ids.len() - 1]) is Some);
        assert forall|j: int| 0 <= j < ids.len() implies existing_positions(tasks, ids)[j] == position_of_id(
            tasks,
            #[trigger] ids[j],
        )->0 by {
            if j < ids.len() - 1 {
                assert(prev[j] == ids[j]);
            }
        }
    }
}

/// Each row below the task at position `p` with index `path` extends the
/// index, with positive numbers, and following the rest of its index down
/// from `p` reaches the row's task.
proof fn lemma_node_rows_follow(
    tasks: Seq<Task>,
    folded: Set<u32>,
    p: int,
    path: Seq<usize>,
    fuel: nat,
    k: int,
)
    requires
        0 <= p < tasks.len(),
        children_exist(tasks),
        lengths_fit(tasks),
        positive(path),
        0 <= k < node_rows(tasks, folded, p, path, fuel).len(),
    ensures
        ({
            let r = node_rows(tasks, folded, p, path, fuel)[k];
            &&& r.path.len() >= path.len()
            &&& r.path.take(path.len() as int) == path
            &&& positive(r.path)
            &&& 0 <= r.pos < tasks.len()
            &&& follow_path(tasks, folded, p, r.path.skip(path.len() as int)) == Some(tasks[r.pos].id)
        }),
    decreases fuel, 0nat, 0nat,
{
    let rows = node_rows(tasks, folded, p, path, fuel);
    let r = rows[k];
    if k == 0 {
        assert(r.path.skip(path.len() as int) =~= Seq::<usize>::empty());
        assert(r.path.take(path.len() as int) =~= path);
    } else {
        let ids = tasks[p].child_ids@;
        let below = child_rows(tasks, folded, ids, path, (fuel - 1) as nat);
        assert(fuel > 0 && is_expanded(folded, tasks[p].id));
        assert(r == below[k - 1]);
        assert forall|j: int| 0 <= j < ids.len() implies position_of_id(tasks, #[trigger] ids[j]) is Some by {
            assert(tasks[p].child_ids@[j] == ids[j]);
        }
        assert(ids.len() <= usize::MAX);
        lemma_child_rows_follow(tasks, folded, ids, path, (fuel - 1) as nat, k - 1);
        lemma_existing_positions_all(tasks, ids);
        let i = r.path[path.len() as int] - 1;
        let rest = r.path.skip(path.len() as int);
        assert(rest[0] == i + 1);
        assert(rest.drop_first() =~= r.path.skip(path.len() + 1int));
    }
}

/// Each row of the children `ids` under the index `path` extends the index
/// by the child's place and then further, with positive numbers, and
/// following the rest of its index down from that child reaches the row's
/// task.
proof fn lemma_child_rows_follow(
    tasks: Seq<Task>,
    folded: Set<u32>,
    ids: Seq<u32>,
    path: Seq<usize>,
    fuel: nat,
    k: int,
)
    requires
        children_exist(tasks),
        lengths_fit(tasks),
        ids.len() <= usize::MAX,
        forall|j: int| 0 <= j < ids.len() ==> position_of_id(tasks, #[trigger] ids[j]) is Some,
        positive(path),
        0 <= k < child_rows(tasks, folded, ids, path, fuel).len(),
    ensures
        ({
            let r = child_rows(tasks, folded, ids, path, fuel)[k];
            let i = r.path[path.len() as int] - 1;
            &&& r.path.len() > path.len()
            &&& r.path.take(path.len() as int) == path
            &&& positive(r.path)
            &&& 0 <= r.pos < tasks.len()
            &&& 0 <= i < ids.len()
            &&& follow_path(
                tasks,
                folded,
                position_of_id(tasks, ids[i])->0,
                r.path.skip(path.len() + 1int),
            ) == Some(tasks[r.pos].id)
        }),
    decreases fuel, 1nat, ids.len(),
{
    let rows = child_rows(tasks, folded, ids, path, fuel);
    let prev_ids = ids.drop_last();
    let prev = child_rows(tasks, folded, prev_ids, path, fuel);
    assert forall|j: int| 0 <= j < prev_ids.len() implies position_of_id(tasks, #[trigger] prev_ids[j]) is Some by {
        assert(prev_ids[j] == ids[j]);
    }
    if k < prev.len() {
        lemma_child_rows_follow(tasks, folded, prev_ids, path, fuel, k);
        let r = prev[k];
        assert(rows[k] == r);
        let i = r.path[path.len() as int] - 1;
        assert(prev_ids[i] == ids[i]);
    } else {
        let last = ids[ids.len() - 1];
        assert(position_of_id(tasks, last) is Some);
        let q = position_of_id(tasks, last)->0;
        lemma_position_of_id(tasks, last);
        assert(ids.len() as usize == ids.len());
        let sub = path.push(ids.len() as usize);
        assert(positive(sub));
        lemma_node_rows_follow(tasks, folded, q, sub, fuel, k - prev.len());
        let r = rows[k];
        assert(r == node_rows(tasks, folded, q, sub, fuel)[k - prev.len()]);
        assert(r.path[path.len() as int] == r.path.take(sub.len() as int)[path.len() as int]);
        assert(r.path.take(path.len() as int) =~= sub.take(path.len() as int));
        assert(sub.take(path.len() as int) =~= path);
    }
}

/// Each row of the top-level tasks at the positions `tops` has a positive
/// index whose first number counts the top-level tasks, and following the
/// rest of its index down from that top-level task reaches the row's task.
proof fn lemma_top_rows_follow(tasks: Seq<Task>, folded: Set<u32>, tops: Seq<int>, fuel: nat, k: int)
    requires
        children_exist(tasks),
        lengths_fit(tasks),
        tops.len() <= usize::MAX,
        forall|j: int| 0 <= j < tops.len() ==> 0 <= #[trigger] tops[j] < tasks.len(),
        0 <= k < top_rows(tasks, folded, tops, fuel).len(),
    ensures
        ({
            let r = top_rows(tasks, folded, tops, fuel)[k];
            let i = r.path[0] - 1;
            &&& r.path.len() >= 1
            &&& positive(r.path)
            &&& 0 <= r.pos < tasks.len()
            &&& 0 <= i < tops.len()
            &&& follow_path(tasks, folded, tops[i], r.path.drop_first()) == Some(tasks[r.pos].id)
        }),
    decreases tops.len(),
{
    let prev_tops = tops.drop_last();
    let prev = top_rows(tasks, folded, prev_tops, fuel);
    if k < prev.len() {
        assert forall|j: int| 0 <= j < prev_tops.len() implies 0 <= #[trigger] prev_tops[j] < tasks.len() by {
            assert(prev_tops[j] == tops[j]);
        }
        lemma_top_rows_follow(tasks, folded, prev_tops, fuel, k);
        let r = prev[k];
        assert(top_rows(tasks, folded, tops, fuel)[k] == r);
        assert(prev_tops[r.path[0] - 1] == tops[r.path[0] - 1]);
    } else {
        let q = tops[tops.len() - 1];
        let start = seq![tops.len() as usize];
        assert(positive(start));
        lemma_node_rows_follow(tasks, folded, q, start, fuel, k - prev.len());
        let r = top_rows(tasks, folded, tops, fuel)[k];
        assert(r == node_rows(tasks, folded, q, start, fuel)[k - prev.len()]);
        assert(r.path[0] == r.path.take(1)[0]);
        assert(r.path.drop_first() =~= r.path.skip(1));
    }
}

/// The top-level positions of a container are positions of the list.
proof fn lemma_top_level_positions_valid(tasks: Seq<Task>, active: crate::taskstore::TaskContainer)
    ensures
        top_level_positions(tasks, active).len() <= tasks.len(),
        forall|j: int|
            0 <= j < top_level_positions(tasks, active).len() ==> 0 <= #[trigger] top_level_positions(
                tasks,
                active,
            )[j] < tasks.len(),
    decreases tasks.len(),
{
    if tasks.len() > 0 {
        let prev = tasks.drop_last();
        lemma_top_level_positions_valid(prev, active);
        let all = top_level_positions(tasks, active);
        let before = top_level_positions(prev, active);
        assert forall|j: int| 0 <= j < all.len() implies 0 <= #[trigger] all[j] < tasks.len() by {
            if j < before.len() {
                assert(all[j] == before[j]);
            }
        }
    }
}

/// The index shown for a listed task leads back to it: when every child id
/// names a task, looking up the text of a row's index in the display whose
/// folds and container made the listing gives the row's task.
pub proof fn lemma_listed_index_finds_task(v: DisplayView, tasks: Seq<Task>, k: int)
    requires
        children_exist(tasks),
        lengths_fit(tasks),
        0 <= k < listed_rows(tasks, v.folded, v.active_container).len(),
    ensures
        ({
            let r = listed_rows(tasks, v.folded, v.active_container)[k];
            task_id_at_path(v, join_path(r.path), tasks) == Some(tasks[r.pos].id)
        }),
{
    let tops = top_level_positions(tasks, v.active_container);
    lemma_top_level_positions_valid(tasks, v.active_container);
    lemma_top_rows_follow(tasks, v.folded, tops, tasks.len() as nat, k);
    let r = listed_rows(tasks, v.folded, v.active_container)[k];
    lemma_task_index_round_trip(r.path);
}

} // verus!
