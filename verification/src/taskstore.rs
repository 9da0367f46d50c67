//! Tasks, the containers they live in, and lookups over task lists.

pub mod operations;

use vstd::prelude::*;
use vstd::utf8::encode_utf8;
use fuzzy_matcher::FuzzyMatcher;
use crate::text::{concat, usize_to_string, decimal};

verus! {

/// A point in time: whole seconds since the Unix epoch and the nanoseconds
/// within that second.
#[derive(Debug, Clone, Copy, PartialEq, Eq, Structural)]
pub struct Timestamp {
    /// Seconds since 1970-01-01T00:00:00Z
    pub secs: i64,
    /// Nanoseconds within the second (above 999 999 999 only on a leap second)
    pub nanos: u32,
}

/// Reads the system clock through `chrono::Utc::now`.  Nothing is promised
/// of the instant beyond its being at or after 1970 (chrono panics on a
/// clock set earlier, a state of the machine that no argument can exclude)
/// and the range of its nanosecond part, which chrono documents as at most
/// 1 999 999 999.
#[verifier::external_body]
fn current_timestamp() -> (t: Timestamp)
    ensures
        t.secs >= 0,
        t.nanos < 2_000_000_000,
{
    let now = chrono::Utc::now();
    Timestamp { secs: now.timestamp(), nanos: now.timestamp_subsec_nanos() }
}

/// Represents where the task is located in our system
#[derive(Debug, Clone, Copy, PartialEq, Eq, Structural)]
pub enum TaskContainer {
    /// Task is ready to be processed
    Taskpad,
    /// Task has been organized into a project/area
    Backburner,
    /// Task is in the someday/maybe list
    Shelved,
    /// Task is archived
    Archived,
}

/// The human-readable name of a container.
pub open spec fn container_name(c: TaskContainer) -> Seq<char> {
    match c {
        TaskContainer::Taskpad => seq!['t', 'a', 's', 'k', 'p', 'a', 'd'],
        TaskContainer::Backburner => seq!['b', 'a', 'c', 'k', 'b', 'u', 'r', 'n', 'e', 'r'],
        TaskContainer::Shelved => seq!['s', 'h', 'e', 'l', 'v', 'e', 'd'],
        TaskContainer::Archived => seq!['a', 'r', 'c', 'h', 'i', 'v', 'e', 'd'],
    }
}

impl TaskContainer {
    /// Returns a human-readable name for the container
    pub fn display_name(self) -> (name: &'static str)
        ensures
            name@ == container_name(self),
    {
        match self {
            TaskContainer::Taskpad => {
                proof {
                    reveal_strlit("taskpad");
                }
                "taskpad"
            },
            TaskContainer::Backburner => {
                proof {
                    reveal_strlit("backburner");
                }
                "backburner"
            },
            TaskContainer::Shelved => {
                proof {
                    reveal_strlit("shelved");
                }
                "shelved"
            },
            TaskContainer::Archived => {
                proof {
                    reveal_strlit("archived");
                }
                "archived"
            },
        }
    }
}

/// Represents the current state of a task
#[derive(Debug, Clone, Copy, PartialEq, Eq, Structural)]
pub enum TaskStatus {
    /// Task is new and needs attention
    Todo,
    /// Task is currently being worked on
    Doing,
    /// Task has been completed
    Done,
}

/// A single task in the cyberorganism system.
///
/// Each task has a unique identifier, content, creation timestamp,
/// and tracks both its container and status.
#[derive(Debug)]
pub struct Task {
    /// Unique identifier for the task
    pub id: u32,
    /// The actual task content
    pub content: String,
    /// When the task was created
    pub created_at: Timestamp,
    /// Current container of the task
    pub container: TaskContainer,
    /// Current status of the task
    pub status: TaskStatus,
    /// ID of the parent task if this is a subtask
    pub parent_id: Option<u32>,
    /// IDs of any subtasks of the task
    pub child_ids: Vec<u32>,
}

/// `t` is a fresh task as `Task::new` makes it, apart from its creation time.
pub open spec fn is_fresh_task(t: Task, id: u32, content: Seq<char>) -> bool {
    &&& t.id == id
    &&& t.content@ == content
    &&& t.container == TaskContainer::Taskpad
    &&& t.status == TaskStatus::Todo
    &&& t.parent_id is None
    &&& t.child_ids@ == Seq::<u32>::empty()
}

/// `b` holds the same values as `a`.
pub open spec fn same_task(a: Task, b: Task) -> bool {
    &&& a.id == b.id
    &&& a.content@ == b.content@
    &&& a.created_at == b.created_at
    &&& a.container == b.container
    &&& a.status == b.status
    &&& a.parent_id == b.parent_id
    &&& a.child_ids@ == b.child_ids@
}

impl Clone for Task {
    fn clone(&self) -> (r: Self)
        ensures
            same_task(r, *self),
    {
        Task {
            id: self.id,
            content: self.content.clone(),
            created_at: self.created_at,
            container: self.container,
            status: self.status,
            parent_id: self.parent_id,
            child_ids: self.child_ids.clone(),
        }
    }
}

impl Task {
    /// Creates a new task with the given content
    pub fn new(id: u32, content: String) -> (t: Self)
        ensures
            is_fresh_task(t, id, content@),
    {
        Task {
            id,
            content,
            created_at: current_timestamp(),
            container: TaskContainer::Taskpad,
            status: TaskStatus::Todo,
            parent_id: None,
            child_ids: Vec::new(),
        }
    }

    /// Updates the task's content
    pub fn update_content(&mut self, content: String)
        ensures
            *final(self) == (Task { content, ..*old(self) }),
    {
        self.content = content;
    }

    /// Marks the task as complete and moves it to the archived container
    pub fn complete(&mut self)
        ensures
            *final(self) == (Task {
                status: TaskStatus::Done,
                container: TaskContainer::Archived,
                ..*old(self)
            }),
    {
        self.status = TaskStatus::Done;
        self.container = TaskContainer::Archived;
    }

    /// Returns true if the task is in the taskpad container
    pub fn is_in_taskpad(&self) -> (b: bool)
        ensures
            b == (self.container == TaskContainer::Taskpad),
    {
        self.container == TaskContainer::Taskpad
    }

    /// Returns the container the task is in
    pub fn container(&self) -> (c: &TaskContainer)
        ensures
            *c == self.container,
    {
        &self.container
    }

    /// Adds a subtask to the task, setting up the parent-child relationship
    pub fn add_subtask(&mut self, subtask_id: u32)
        ensures
            final(self).child_ids@ == old(self).child_ids@.push(subtask_id),
            *final(self) == (Task { child_ids: final(self).child_ids, ..*old(self) }),
    {
        self.child_ids.push(subtask_id);
    }
}

/// The position of the first task with the given id.
pub open spec fn position_of_id(tasks: Seq<Task>, id: u32) -> Option<int>
    decreases tasks.len(),
{
    if tasks.len() == 0 {
        None
    } else {
        match position_of_id(tasks.drop_last(), id) {
            Some(i) => Some(i),
            None => if tasks.last().id == id {
                Some(tasks.len() - 1)
            } else {
                None
            },
        }
    }
}

/// An optional index as a mathematical integer.
pub open spec fn opt_int(o: Option<usize>) -> Option<int> {
    match o {
        Some(i) => Some(i as int),
        None => None,
    }
}

/// `position_of_id` is the first position holding the id.
pub proof fn lemma_position_of_id(tasks: Seq<Task>, id: u32)
    ensures
        position_of_id(tasks, id) matches Some(i) ==> 0 <= i < tasks.len() && tasks[i].id == id
            && forall|j: int| 0 <= j < i ==> tasks[j].id != id,
        position_of_id(tasks, id) is None ==> forall|j: int|
            0 <= j < tasks.len() ==> tasks[j].id != id,
    decreases tasks.len(),
{
    if tasks.len() > 0 {
        lemma_position_of_id(tasks.drop_last(), id);
        assert forall|j: int| 0 <= j < tasks.len() - 1 implies tasks[j] == tasks.drop_last()[j] by {}
    }
}

/// Scanning a prefix one task further extends `position_of_id` as expected.
pub proof fn lemma_position_of_id_step(tasks: Seq<Task>, id: u32, k: int)
    requires
        0 <= k < tasks.len(),
        position_of_id(tasks.take(k), id) is None,
    ensures
        tasks[k].id == id ==> position_of_id(tasks.take(k + 1), id) == Some(k),
        tasks[k].id != id ==> position_of_id(tasks.take(k + 1), id) is None,
        tasks[k].id == id ==> position_of_id(tasks, id) == Some(k),
{
    assert(tasks.take(k + 1).drop_last() =~= tasks.take(k));
    if tasks[k].id == id {
        lemma_position_of_id_prefix(tasks, id, k + 1);
    }
}

/// A position found in a prefix is the position in the whole list.
pub proof fn lemma_position_of_id_prefix(tasks: Seq<Task>, id: u32, k: int)
    requires
        0 <= k <= tasks.len(),
        position_of_id(tasks.take(k), id) is Some,
    ensures
        position_of_id(tasks, id) == position_of_id(tasks.take(k), id),
    decreases tasks.len() - k,
{
    if k < tasks.len() {
        let t = tasks.take(k + 1);
        assert(t.drop_last() =~= tasks.take(k));
        lemma_position_of_id_prefix(tasks, id, k + 1);
    } else {
        assert(tasks.take(k) =~= tasks);
    }
}

/// Finds a task in a slice of tasks by its ID
pub fn find_task_by_id(tasks: &[Task], id: u32) -> (r: Option<usize>)
    ensures
        opt_int(r) == position_of_id(tasks@, id),
{
    let mut i: usize = 0;
    while i < tasks.len()
        invariant
            i <= tasks@.len(),
            position_of_id(tasks@.take(i as int), id) is None,
        decreases tasks.len() - i,
    {
        proof {
            lemma_position_of_id_step(tasks@, id, i as int);
        }
        if tasks[i].id == id {
            return Some(i);
        }
        i = i + 1;
    }
    assert(tasks@.take(i as int) =~= tasks@);
    None
}


/// The position of the first occurrence of `x` in `s`.
pub open spec fn id_position(s: Seq<u32>, x: u32) -> Option<int>
    decreases s.len(),
{
    if s.len() == 0 {
        None
    } else {
        match id_position(s.drop_last(), x) {
            Some(i) => Some(i),
            None => if s.last() == x {
                Some(s.len() - 1)
            } else {
                None
            },
        }
    }
}

/// `id_position` is the first position holding the id.
pub proof fn lemma_id_position(s: Seq<u32>, x: u32)
    ensures
        id_position(s, x) matches Some(i) ==> 0 <= i < s.len() && s[i] == x && forall|j: int|
            0 <= j < i ==> s[j] != x,
        id_position(s, x) is None ==> forall|j: int| 0 <= j < s.len() ==> s[j] != x,
    decreases s.len(),
{
    if s.len() > 0 {
        lemma_id_position(s.drop_last(), x);
        assert forall|j: int| 0 <= j < s.len() - 1 implies s[j] == s.drop_last()[j] by {}
    }
}

/// A position found in a prefix is the position in the whole sequence.
proof fn lemma_id_position_prefix(s: Seq<u32>, x: u32, k: int)
    requires
        0 <= k <= s.len(),
        id_position(s.take(k), x) is Some,
    ensures
        id_position(s, x) == id_position(s.take(k), x),
    decreases s.len() - k,
{
    if k < s.len() {
        assert(s.take(k + 1).drop_last() =~= s.take(k));
        lemma_id_position_prefix(s, x, k + 1);
    } else {
        assert(s.take(k) =~= s);
    }
}

/// The position of the first occurrence of `x` in `v`.
pub fn position_in(v: &Vec<u32>, x: u32) -> (r: Option<usize>)
    ensures
        opt_int(r) == id_position(v@, x),
{
    let mut i: usize = 0;
    while i < v.len()
        invariant
            i <= v@.len(),
            id_position(v@.take(i as int), x) is None,
        decreases v.len() - i,
    {
        assert(v@.take(i + 1).drop_last() =~= v@.take(i as int));
        if v[i] == x {
            proof {
                lemma_id_position_prefix(v@, x, i + 1);
            }
            return Some(i);
        }
        i = i + 1;
    }
    assert(v@.take(i as int) =~= v@);
    None
}

/// The length in bytes that `str::len` reports for a string.
pub open spec fn byte_len(s: Seq<char>) -> int {
    (encode_utf8(s).len() as usize) as int
}

/// The score with which a task's content matches a query, given the raw
/// fuzzy score: none when the lengths differ by more than three bytes or the
/// raw score is below twice the query length less three.
pub open spec fn accepted_score(content: Seq<char>, query: Seq<char>, raw: Option<i64>) -> Option<i64> {
    let diff = byte_len(content) - byte_len(query);
    if -3 <= diff && diff <= 3 {
        match raw {
            Some(s) => if s >= 2 * byte_len(query) - 3 {
                Some(s)
            } else {
                None
            },
            None => None,
        }
    } else {
        None
    }
}

/// Task `i` is a candidate match within `scope` (one container, or all).
pub open spec fn is_candidate(
    tasks: Seq<Task>,
    query: Seq<char>,
    raws: Seq<Option<i64>>,
    scope: Option<TaskContainer>,
    i: int,
) -> bool {
    &&& 0 <= i < tasks.len()
    &&& (scope matches Some(c) ==> tasks[i].container == c)
    &&& accepted_score(tasks[i].content@, query, raws[i]) is Some
}

/// The accepted score of task `i`.
pub open spec fn candidate_score(
    tasks: Seq<Task>,
    query: Seq<char>,
    raws: Seq<Option<i64>>,
    i: int,
) -> i64 {
    accepted_score(tasks[i].content@, query, raws[i])->0
}

/// Task `i` has the highest score among the candidates in `scope`, and no
/// later candidate scores as high (the last of equal maxima wins).
pub open spec fn is_best_candidate(
    tasks: Seq<Task>,
    query: Seq<char>,
    raws: Seq<Option<i64>>,
    scope: Option<TaskContainer>,
    i: int,
) -> bool {
    &&& is_candidate(tasks, query, raws, scope, i)
    &&& forall|j: int|
        is_candidate(tasks, query, raws, scope, j) ==> candidate_score(tasks, query, raws, j)
            <= candidate_score(tasks, query, raws, i)
    &&& forall|j: int|
        i < j && is_candidate(tasks, query, raws, scope, j) ==> candidate_score(
            tasks,
            query,
            raws,
            j,
        ) < candidate_score(tasks, query, raws, i)
}

/// Some task is a candidate within `scope`.
pub open spec fn has_candidate(
    tasks: Seq<Task>,
    query: Seq<char>,
    raws: Seq<Option<i64>>,
    scope: Option<TaskContainer>,
) -> bool {
    exists|i: int| is_candidate(tasks, query, raws, scope, i)
}

/// `r` is the outcome of a content search: nothing for an empty query, else
/// the best candidate in the active container, else the best candidate
/// anywhere, else nothing.
pub open spec fn is_content_match(
    tasks: Seq<Task>,
    query: Seq<char>,
    raws: Seq<Option<i64>>,
    active: TaskContainer,
    r: Option<usize>,
) -> bool {
    if query.len() == 0 {
        r is None
    } else if has_candidate(tasks, query, raws, Some(active)) {
        r matches Some(i) && is_best_candidate(tasks, query, raws, Some(active), i as int)
    } else if has_candidate(tasks, query, raws, None) {
        r matches Some(i) && is_best_candidate(tasks, query, raws, None, i as int)
    } else {
        r is None
    }
}

/// The best candidate within `scope`, if there is a candidate.
pub open spec fn best_candidate_in(
    tasks: Seq<Task>,
    query: Seq<char>,
    raws: Seq<Option<i64>>,
    scope: Option<TaskContainer>,
) -> Option<int> {
    if has_candidate(tasks, query, raws, scope) {
        Some(choose|i: int| is_best_candidate(tasks, query, raws, scope, i))
    } else {
        None
    }
}

/// The position that a content search names: none for an empty query, else
/// the best candidate in the active container, else the best candidate
/// anywhere.
pub open spec fn content_match(
    tasks: Seq<Task>,
    query: Seq<char>,
    raws: Seq<Option<i64>>,
    active: TaskContainer,
) -> Option<int> {
    if query.len() == 0 {
        None
    } else if has_candidate(tasks, query, raws, Some(active)) {
        best_candidate_in(tasks, query, raws, Some(active))
    } else {
        best_candidate_in(tasks, query, raws, None)
    }
}

/// At most one candidate is best.
pub proof fn lemma_best_candidate_unique(
    tasks: Seq<Task>,
    query: Seq<char>,
    raws: Seq<Option<i64>>,
    scope: Option<TaskContainer>,
    i: int,
    j: int,
)
    requires
        is_best_candidate(tasks, query, raws, scope, i),
        is_best_candidate(tasks, query, raws, scope, j),
    ensures
        i == j,
{
    if i < j {
        assert(candidate_score(tasks, query, raws, j) < candidate_score(tasks, query, raws, i));
        assert(candidate_score(tasks, query, raws, i) <= candidate_score(tasks, query, raws, j));
    } else if j < i {
        assert(candidate_score(tasks, query, raws, i) < candidate_score(tasks, query, raws, j));
        assert(candidate_score(tasks, query, raws, j) <= candidate_score(tasks, query, raws, i));
    }
}

/// A search outcome is the position that `content_match` names.
pub proof fn lemma_content_match_determined(
    tasks: Seq<Task>,
    query: Seq<char>,
    raws: Seq<Option<i64>>,
    active: TaskContainer,
    r: Option<usize>,
)
    requires
        is_content_match(tasks, query, raws, active, r),
    ensures
        opt_int(r) == content_match(tasks, query, raws, active),
{
    if query.len() > 0 {
        let scope = if has_candidate(tasks, query, raws, Some(active)) {
            Some(active)
        } else {
            None
        };
        if has_candidate(tasks, query, raws, scope) {
            let i = r->0 as int;
            let c = choose|c: int| is_best_candidate(tasks, query, raws, scope, c);
            lemma_best_candidate_unique(tasks, query, raws, scope, i, c);
        }
    }
}

/// The raw fuzzy score that the skim matcher (ignoring case) gives a choice
/// for a pattern.
pub uninterp spec fn skim_score(choice: Seq<char>, pattern: Seq<char>) -> Option<i64>;

/// The raw fuzzy scores of all task contents for a query.
pub open spec fn raw_scores(tasks: Seq<Task>, query: Seq<char>) -> Seq<Option<i64>> {
    Seq::new(tasks.len(), |i: int| skim_score(tasks[i].content@, query))
}

/// The best candidate among the first `n` tasks, the last of equals.
spec fn best_upto(
    tasks: Seq<Task>,
    query: Seq<char>,
    raws: Seq<Option<i64>>,
    scope: Option<TaskContainer>,
    n: nat,
) -> Option<int>
    decreases n,
{
    if n == 0 {
        None
    } else {
        let b = best_upto(tasks, query, raws, scope, (n - 1) as nat);
        let k = n - 1;
        if is_candidate(tasks, query, raws, scope, k) && (b matches Some(bi) ==> candidate_score(
            tasks,
            query,
            raws,
            k,
        ) >= candidate_score(tasks, query, raws, bi)) {
            Some(k)
        } else {
            b
        }
    }
}

proof fn lemma_best_upto(
    tasks: Seq<Task>,
    query: Seq<char>,
    raws: Seq<Option<i64>>,
    scope: Option<TaskContainer>,
    n: nat,
)
    ensures
        best_upto(tasks, query, raws, scope, n) is None ==> forall|j: int|
            0 <= j < n ==> !is_candidate(tasks, query, raws, scope, j),
        best_upto(tasks, query, raws, scope, n) matches Some(b) ==> {
            &&& b < n
            &&& is_candidate(tasks, query, raws, scope, b)
            &&& forall|j: int|
                0 <= j < n && is_candidate(tasks, query, raws, scope, j) ==> candidate_score(
                    tasks,
                    query,
                    raws,
                    j,
                ) <= candidate_score(tasks, query, raws, b)
            &&& forall|j: int|
                b < j < n && is_candidate(tasks, query, raws, scope, j) ==> candidate_score(
                    tasks,
                    query,
                    raws,
                    j,
                ) < candidate_score(tasks, query, raws, b)
        },
    decreases n,
{
    if n > 0 {
        lemma_best_upto(tasks, query, raws, scope, (n - 1) as nat);
    }
}

/// Where some task is a candidate, one is best.
proof fn lemma_best_candidate_exists(
    tasks: Seq<Task>,
    query: Seq<char>,
    raws: Seq<Option<i64>>,
    scope: Option<TaskContainer>,
    w: int,
)
    requires
        is_candidate(tasks, query, raws, scope, w),
    ensures
        exists|i: int| is_best_candidate(tasks, query, raws, scope, i),
{
    lemma_best_upto(tasks, query, raws, scope, tasks.len());
    let b = best_upto(tasks, query, raws, scope, tasks.len())->0;
    assert(is_best_candidate(tasks, query, raws, scope, b));
}

/// The task a content search names is the best fuzzy match: for a
/// nonempty query, it has a skim score, its length is within three bytes
/// of the query's and its score reaches twice the query's length less
/// three; it lies in the active container whenever some task there passes
/// those tests; no task that passes them in its scope (the active
/// container, or all tasks when it has none) scores higher, and any later
/// one scores lower.  There is no answer exactly when no task passes, and
/// none for an empty query.
pub proof fn lemma_content_match_is_best_score(tasks: Seq<Task>, query: Seq<char>, active: TaskContainer)
    ensures
        query.len() == 0 ==> content_match(tasks, query, raw_scores(tasks, query), active) is None,
        query.len() > 0 ==> (content_match(tasks, query, raw_scores(tasks, query), active) is None
            <==> forall|j: int|
            0 <= j < tasks.len() ==> !(#[trigger] skim_score(tasks[j].content@, query) matches Some(
                s,
            ) && s >= 2 * byte_len(query) - 3 && -3 <= byte_len(tasks[j].content@) - byte_len(query)
                <= 3)),
        content_match(tasks, query, raw_scores(tasks, query), active) matches Some(i) ==> {
            &&& 0 <= i < tasks.len()
            &&& skim_score(tasks[i].content@, query) is Some
            &&& skim_score(tasks[i].content@, query)->0 >= 2 * byte_len(query) - 3
            &&& -3 <= byte_len(tasks[i].content@) - byte_len(query) <= 3
            &&& forall|j: int|
                0 <= j < tasks.len() && tasks[j].container == active && (
                #[trigger] skim_score(tasks[j].content@, query) matches Some(s) && s >= 2 * byte_len(
                    query,
                ) - 3) && -3 <= byte_len(tasks[j].content@) - byte_len(query) <= 3
                    ==> tasks[i].container == active
            &&& forall|j: int|
                0 <= j < tasks.len() && (tasks[i].container != active || tasks[j].container
                    == active) && (#[trigger] skim_score(tasks[j].content@, query) matches Some(s)
                    && s >= 2 * byte_len(query) - 3) && -3 <= byte_len(tasks[j].content@) - byte_len(
                    query,
                ) <= 3 ==> skim_score(tasks[j].content@, query)->0 <= skim_score(
                    tasks[i].content@,
                    query,
                )->0 && (i < j ==> skim_score(tasks[j].content@, query)->0 < skim_score(
                    tasks[i].content@,
                    query,
                )->0)
        },
{
    let raws = raw_scores(tasks, query);
    assert forall|j: int| 0 <= j < tasks.len() implies raws[j] == skim_score(tasks[j].content@, query) by {}
    if query.len() > 0 {
        if has_candidate(tasks, query, raws, Some(active)) {
            let i = choose|i: int| is_best_candidate(tasks, query, raws, Some(active), i);
            let w = choose|w: int| is_candidate(tasks, query, raws, Some(active), w);
            lemma_best_candidate_exists(tasks, query, raws, Some(active), w);
            assert(is_best_candidate(tasks, query, raws, Some(active), i));
            assert forall|j: int|
                0 <= j < tasks.len() && (tasks[i].container != active || tasks[j].container == active)
                    && (#[trigger] skim_score(tasks[j].content@, query) matches Some(s) && s >= 2
                    * byte_len(query) - 3) && -3 <= byte_len(tasks[j].content@) - byte_len(query) <= 3
                implies skim_score(tasks[j].content@, query)->0 <= skim_score(tasks[i].content@, query)->0
                && (i < j ==> skim_score(tasks[j].content@, query)->0 < skim_score(
                tasks[i].content@,
                query,
            )->0) by {
                assert(is_candidate(tasks, query, raws, Some(active), j));
            }
        } else if has_candidate(tasks, query, raws, None) {
            let i = choose|i: int| is_best_candidate(tasks, query, raws, None, i);
            let w = choose|w: int| is_candidate(tasks, query, raws, None, w);
            lemma_best_candidate_exists(tasks, query, raws, None, w);
            assert(is_best_candidate(tasks, query, raws, None, i));
            assert forall|j: int|
                0 <= j < tasks.len() && tasks[j].container == active && (
                #[trigger] skim_score(tasks[j].content@, query) matches Some(s) && s >= 2 * byte_len(
                    query,
                ) - 3) && -3 <= byte_len(tasks[j].content@) - byte_len(query) <= 3 implies false by {
                assert(is_candidate(tasks, query, raws, Some(active), j));
            }
            assert forall|j: int|
                0 <= j < tasks.len() && (tasks[i].container != active || tasks[j].container == active)
                    && (#[trigger] skim_score(tasks[j].content@, query) matches Some(s) && s >= 2
                    * byte_len(query) - 3) && -3 <= byte_len(tasks[j].content@) - byte_len(query) <= 3
                implies skim_score(tasks[j].content@, query)->0 <= skim_score(tasks[i].content@, query)->0
                && (i < j ==> skim_score(tasks[j].content@, query)->0 < skim_score(
                tasks[i].content@,
                query,
            )->0) by {
                assert(is_candidate(tasks, query, raws, None, j));
            }
        } else {
            assert forall|j: int|
                0 <= j < tasks.len() implies !(#[trigger] skim_score(tasks[j].content@, query) matches Some(
                s,
            ) && s >= 2 * byte_len(query) - 3 && -3 <= byte_len(tasks[j].content@) - byte_len(query)
                <= 3) by {
                if skim_score(tasks[j].content@, query) matches Some(s) && s >= 2 * byte_len(query) - 3
                    && -3 <= byte_len(tasks[j].content@) - byte_len(query) <= 3 {
                    assert(is_candidate(tasks, query, raws, None, j));
                }
            }
        }
    }
}

/// Calls `SkimMatcherV2::default().ignore_case().fuzzy_match`; its result
/// is taken to depend on the choice and the pattern alone.
#[verifier::external_body]
fn skim_fuzzy_match(choice: &str, pattern: &str) -> (r: Option<i64>)
    ensures
        r == skim_score(choice@, pattern@),
{
    fuzzy_matcher::skim::SkimMatcherV2::default().ignore_case().fuzzy_match(choice, pattern)
}

/// The accepted score for one task content, given its raw fuzzy score.
fn accept_score(content: &str, query: &str, raw: Option<i64>) -> (r: Option<i64>)
    ensures
        r == accepted_score(content@, query@, raw),
{
    let a = content.len() as i128;
    let b = query.len() as i128;
    let diff = a - b;
    if diff < -3 || diff > 3 {
        return None;
    }
    match raw {
        Some(s) => if (s as i128) >= 2 * b - 3 {
            Some(s)
        } else {
            None
        },
        None => None,
    }
}

/// The best candidate within `scope`, if any.
fn best_candidate(
    tasks: &[Task],
    query: &str,
    raws: &Vec<Option<i64>>,
    scope: Option<TaskContainer>,
) -> (r: Option<usize>)
    requires
        raws@.len() == tasks@.len(),
    ensures
        r is None <==> !has_candidate(tasks@, query@, raws@, scope),
        r matches Some(i) ==> is_best_candidate(tasks@, query@, raws@, scope, i as int),
{
    let ghost ts = tasks@;
    let ghost q = query@;
    let ghost rs = raws@;
    let mut best: Option<(usize, i64)> = None;
    let mut i: usize = 0;
    while i < tasks.len()
        invariant
            ts == tasks@,
            q == query@,
            rs == raws@,
            rs.len() == ts.len(),
            i <= ts.len(),
            best is None ==> forall|j: int| 0 <= j < i ==> !is_candidate(ts, q, rs, scope, j),
            best matches Some((b, bs)) ==> {
                &&& b < i
                &&& is_candidate(ts, q, rs, scope, b as int)
                &&& candidate_score(ts, q, rs, b as int) == bs
                &&& forall|j: int|
                    0 <= j < i && is_candidate(ts, q, rs, scope, j) ==> candidate_score(
                        ts,
                        q,
                        rs,
                        j,
                    ) <= bs
                &&& forall|j: int|
                    b < j < i && is_candidate(ts, q, rs, scope, j) ==> candidate_score(
                        ts,
                        q,
                        rs,
                        j,
                    ) < bs
            },
        decreases tasks.len() - i,
    {
        let in_scope = match scope {
            Some(c) => tasks[i].container == c,
            None => true,
        };
        if in_scope {
            let score = accept_score(tasks[i].content.as_str(), query, raws[i]);
            match score {
                Some(s) => {
                    let better = match best {
                        Some((_, bs)) => s >= bs,
                        None => true,
                    };
                    if better {
                        best = Some((i, s));
                    }
                },
                None => {},
            }
        }
        i = i + 1;
    }
    match best {
        Some((b, _)) => Some(b),
        None => None,
    }
}

/// Chooses the task that a content query names, given the raw fuzzy score
/// of every task: the best match among the tasks in the active container,
/// or else among all tasks.
pub fn choose_content_match(
    tasks: &[Task],
    query: &str,
    active: TaskContainer,
    raws: &Vec<Option<i64>>,
) -> (r: Option<usize>)
    requires
        raws@.len() == tasks@.len(),
    ensures
        is_content_match(tasks@, query@, raws@, active, r),
        opt_int(r) == content_match(tasks@, query@, raws@, active),
{
    let r = choose_content_match_inner(tasks, query, active, raws);
    proof {
        lemma_content_match_determined(tasks@, query@, raws@, active, r);
    }
    r
}

fn choose_content_match_inner(
    tasks: &[Task],
    query: &str,
    active: TaskContainer,
    raws: &Vec<Option<i64>>,
) -> (r: Option<usize>)
    requires
        raws@.len() == tasks@.len(),
    ensures
        is_content_match(tasks@, query@, raws@, active, r),
{
    if query.is_empty() {
        return None;
    }
    let in_active = best_candidate(tasks, query, raws, Some(active));
    if in_active.is_some() {
        return in_active;
    }
    best_candidate(tasks, query, raws, None)
}

/// Finds a task in a slice of tasks by matching its content.
/// Prioritizes tasks in the active container over other tasks.
///
/// The matching is intentionally strict:
/// - Returns None for empty queries
/// - A content matches only when every character of the query appears in
///   it in order, ignoring case, its length is within three bytes of the
///   query's, and the fuzzy score reaches twice the query's length less
///   three
/// - Among the matches, the highest fuzzy score wins (the last of equals)
///
/// Typos are tolerated only as letters left out of the query: a wrong
/// letter, as in "Buy grocerjes" for "Buy groceries", gives no match, short
/// of the fuller tolerance for typos that the task lookup was meant to have.
pub fn find_task_by_content(tasks: &[Task], query: &str, active_container: TaskContainer) -> (r:
    Option<usize>)
    ensures
        is_content_match(tasks@, query@, raw_scores(tasks@, query@), active_container, r),
        opt_int(r) == content_match(tasks@, query@, raw_scores(tasks@, query@), active_container),
        r matches Some(i) ==> i < tasks@.len(),
{
    if query.is_empty() {
        return None;
    }
    let mut raws: Vec<Option<i64>> = Vec::new();
    let mut i: usize = 0;
    while i < tasks.len()
        invariant
            i <= tasks@.len(),
            raws@ == raw_scores(tasks@, query@).take(i as int),
        decreases tasks.len() - i,
    {
        raws.push(skim_fuzzy_match(tasks[i].content.as_str(), query));
        assert(raws@ =~= raw_scores(tasks@, query@).take(i + 1));
        i = i + 1;
    }
    assert(raws@ =~= raw_scores(tasks@, query@));
    choose_content_match(tasks, query, active_container, &raws)
}

/// Builds tasks with chosen fields, starting from a fresh taskpad task whose
/// content is "Task {id}".
pub struct TaskBuilder {
    task: Task,
}

impl TaskBuilder {
    /// A task with the given id, content "Task {id}", in the taskpad.
    pub fn new(id: u32) -> (b: Self)
        ensures
            is_fresh_task(b.task_view(), id, seq!['T', 'a', 's', 'k', ' '] + decimal(id as nat)),
    {
        let prefix = "Task ";
        proof {
            reveal_strlit("Task ");
            assert(prefix@ =~= seq!['T', 'a', 's', 'k', ' ']);
        }
        let number = usize_to_string(id as usize);
        let content = concat(prefix, number.as_str());
        TaskBuilder { task: Task::new(id, content) }
    }

    /// The task built so far.
    pub closed spec fn task_view(&self) -> Task {
        self.task
    }

    /// Sets the content.
    pub fn content(self, content: &str) -> (b: Self)
        ensures
            same_task(b.task_view(), Task { content: b.task_view().content, ..self.task_view() }),
            b.task_view().content@ == content@,
    {
        let mut t = self.task;
        t.content = content.to_owned();
        TaskBuilder { task: t }
    }

    /// Sets the container.
    pub fn container(self, container: TaskContainer) -> (b: Self)
        ensures
            same_task(b.task_view(), Task { container, ..self.task_view() }),
    {
        let mut t = self.task;
        t.container = container;
        TaskBuilder { task: t }
    }

    /// Sets the parent.
    pub fn parent(self, parent_id: u32) -> (b: Self)
        ensures
            same_task(b.task_view(), Task { parent_id: Some(parent_id), ..self.task_view() }),
    {
        let mut t = self.task;
        t.parent_id = Some(parent_id);
        TaskBuilder { task: t }
    }

    /// Sets the children.
    pub fn children(self, child_ids: Vec<u32>) -> (b: Self)
        ensures
            same_task(b.task_view(), Task { child_ids, ..self.task_view() }),
    {
        let mut t = self.task;
        t.child_ids = child_ids;
        TaskBuilder { task: t }
    }

    /// The task.
    pub fn build(self) -> (t: Task)
        ensures
            t == self.task_view(),
    {
        self.task
    }
}

/// The largest id of the tasks, or zero when there are none.
pub open spec fn max_id(tasks: Seq<Task>) -> u32
    decreases tasks.len(),
{
    if tasks.len() == 0 {
        0
    } else {
        let rest = max_id(tasks.drop_last());
        if tasks.last().id > rest {
            tasks.last().id
        } else {
            rest
        }
    }
}

/// The id after the largest id of the tasks (1 when there are none), if
/// there is one.
pub fn next_task_id(tasks: &[Task]) -> (r: Option<u32>)
    ensures
        r == if max_id(tasks@) < u32::MAX {
            Some((max_id(tasks@) + 1) as u32)
        } else {
            None::<u32>
        },
{
    let mut largest: u32 = 0;
    let mut i: usize = 0;
    while i < tasks.len()
        invariant
            i <= tasks@.len(),
            largest == max_id(tasks@.take(i as int)),
        decreases tasks.len() - i,
    {
        proof {
            assert(tasks@.take(i + 1).drop_last() =~= tasks@.take(i as int));
        }
        if tasks[i].id > largest {
            largest = tasks[i].id;
        }
        i = i + 1;
    }
    proof {
        assert(tasks@.take(tasks@.len() as int) =~= tasks@);
    }
    if largest < u32::MAX {
        Some(largest + 1)
    } else {
        None
    }
}

} // verus!
