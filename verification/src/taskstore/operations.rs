//! Low-level task operations that don't update display state

use vstd::prelude::*;
use crate::taskstore::{Task, same_task, position_of_id, id_position, find_task_by_id, position_in, lemma_id_position, lemma_position_of_id};

verus! {

/// Remove a task from the task list (does not update display)
pub fn remove_task(tasks: &mut Vec<Task>, index: usize)
    requires
        index < old(tasks)@.len(),
    ensures
        final(tasks)@ == old(tasks)@.remove(index as int),
{
    tasks.remove(index);
}

/// Add a task to the task list (does not update display)
pub fn add_task(tasks: &mut Vec<Task>, task: Task)
    ensures
        final(tasks)@ == old(tasks)@.push(task),
{
    tasks.push(task);
}

/// Update a task in the task list (does not update display): the task at
/// `index` is replaced by what `update_fn` makes of it.
pub fn update_task<F: FnOnce(Task) -> Task>(tasks: &mut Vec<Task>, index: usize, update_fn: F)
    requires
        index < old(tasks)@.len(),
        update_fn.requires((old(tasks)@[index as int],)),
    ensures
        final(tasks)@.len() == old(tasks)@.len(),
        update_fn.ensures((old(tasks)@[index as int],), final(tasks)@[index as int]),
        forall|j: int| 0 <= j < old(tasks)@.len() && j != index ==> final(tasks)@[j] == old(tasks)@[j],
{
    let t = tasks.remove(index);
    let updated = update_fn(t);
    tasks.insert(index, updated);
}

/// `ids` without the first occurrence of `x`.
pub open spec fn without_first(ids: Seq<u32>, x: u32) -> Seq<u32> {
    match id_position(ids, x) {
        Some(i) => ids.remove(i),
        None => ids,
    }
}

/// Remove a child from a parent task (does not update display)
pub fn remove_child_from_parent(tasks: &mut Vec<Task>, parent_index: usize, child_id: u32)
    requires
        parent_index < old(tasks)@.len(),
    ensures
        final(tasks)@.len() == old(tasks)@.len(),
        final(tasks)@[parent_index as int].child_ids@ == without_first(
            old(tasks)@[parent_index as int].child_ids@,
            child_id,
        ),
        same_task(
            final(tasks)@[parent_index as int],
            Task {
                child_ids: final(tasks)@[parent_index as int].child_ids,
                ..old(tasks)@[parent_index as int]
            },
        ),
        forall|j: int|
            0 <= j < old(tasks)@.len() && j != parent_index ==> final(tasks)@[j] == old(tasks)@[j],
{
    proof {
        lemma_id_position(old(tasks)@[parent_index as int].child_ids@, child_id);
    }
    if let Some(child_index) = position_in(&tasks[parent_index].child_ids, child_id) {
        tasks[parent_index].child_ids.remove(child_index);
    }
}

/// The sibling that `find_nearest_sibling` reports for a task: the child
/// listed just before it in its parent's children, or else the one just
/// after it.
pub open spec fn nearest_sibling(tasks: Seq<Task>, task_id: u32) -> Option<u32> {
    match position_of_id(tasks, task_id) {
        None => None,
        Some(ti) => match tasks[ti].parent_id {
            None => None,
            Some(pid) => match position_of_id(tasks, pid) {
                None => None,
                Some(pi) => {
                    let siblings = tasks[pi].child_ids@;
                    match id_position(siblings, task_id) {
                        None => None,
                        Some(ci) => if ci > 0 {
                            Some(siblings[ci - 1])
                        } else if ci + 1 < siblings.len() {
                            Some(siblings[ci + 1])
                        } else {
                            None
                        },
                    }
                },
            },
        },
    }
}

/// Find the nearest sibling of a task
///
/// Returns the ID of the nearest sibling task, preferring siblings above the current task
/// If no siblings are found, returns None
pub fn find_nearest_sibling(tasks: &[Task], task_id: u32) -> (r: Option<u32>)
    ensures
        r == nearest_sibling(tasks@, task_id),
{
    proof {
        lemma_position_of_id(tasks@, task_id);
    }
    let ti = match find_task_by_id(tasks, task_id) {
        Some(i) => i,
        None => return None,
    };
    let parent_id = match tasks[ti].parent_id {
        Some(p) => p,
        None => return None,
    };
    proof {
        lemma_position_of_id(tasks@, parent_id);
    }
    let pi = match find_task_by_id(tasks, parent_id) {
        Some(i) => i,
        None => return None,
    };
    proof {
        lemma_id_position(tasks@[pi as int].child_ids@, task_id);
    }
    let ci = match position_in(&tasks[pi].child_ids, task_id) {
        Some(i) => i,
        None => return None,
    };
    if ci > 0 {
        return Some(tasks[pi].child_ids[ci - 1]);
    }
    if ci + 1 < tasks[pi].child_ids.len() {
        return Some(tasks[pi].child_ids[ci + 1]);
    }
    None
}

} // verus!
