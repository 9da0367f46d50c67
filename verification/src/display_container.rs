//! The display state of the outliner: which tasks are listed and in what
//! order, which entry has focus, the input field, and the folded tasks.

use vstd::prelude::*;
use std::collections::HashSet;
use crate::taskstore::{Task, TaskContainer, position_of_id, lemma_position_of_id, find_task_by_id,
    id_position, position_in, lemma_id_position, opt_int};
use crate::task_index::{TaskIndex, parse_task_index};
use crate::text::owned;
use tui_input::InputRequest as R;

verus! {

broadcast use vstd::std_specs::hash::group_hash_axioms;

/// The text of an input field and the cursor position within it, counted in
/// characters.
#[derive(Debug)]
pub struct InputBuffer {
    value: String,
    cursor: usize,
}

impl View for InputBuffer {
    type V = (Seq<char>, nat);

    closed spec fn view(&self) -> (Seq<char>, nat) {
        (self.value@, self.cursor as nat)
    }
}

impl InputBuffer {
    /// An input holding `value`, with the cursor after its last character.
    pub fn new(value: String) -> (b: Self)
        ensures
            b@ == (value@, value@.len()),
    {
        let n = value.as_str().unicode_len();
        InputBuffer { value, cursor: n }
    }

    /// An input holding `value`, with the cursor at `cursor` or, if that is
    /// past the end, after the last character.
    pub fn with_cursor(value: String, cursor: usize) -> (b: Self)
        ensures
            b@.0 == value@,
            b@.1 == if cursor <= value@.len() {
                cursor as nat
            } else {
                value@.len()
            },
    {
        let n = value.as_str().unicode_len();
        let c = if cursor <= n {
            cursor
        } else {
            n
        };
        InputBuffer { value, cursor: c }
    }

    /// The text.
    pub fn value(&self) -> (s: &str)
        ensures
            s@ == self@.0,
    {
        self.value.as_str()
    }

    /// The cursor position.
    pub fn cursor(&self) -> (c: usize)
        ensures
            c == self@.1,
    {
        self.cursor
    }

    /// Clears the text and moves the cursor to the start.
    pub fn reset(&mut self)
        ensures
            final(self)@ == (Seq::<char>::empty(), 0nat),
    {
        self.value = String::new();
        self.cursor = 0;
    }
}

/// An editing request on an input field, as a key press makes it.
#[derive(Clone, Copy, Debug, PartialEq, Eq, Structural)]
pub enum EditRequest {
    InsertChar(char),
    GoToPrevChar,
    GoToNextChar,
    GoToPrevWord,
    GoToNextWord,
    GoToStart,
    GoToEnd,
    DeletePrevChar,
    DeleteNextChar,
    DeletePrevWord,
    DeleteNextWord,
    DeleteLine,
    DeleteTillEnd,
}

/// The text and cursor that `tui_input` leaves after handling `request` on
/// the text `value` with the cursor at `cursor`.
pub uninterp spec fn input_after_request(value: Seq<char>, cursor: nat, request: EditRequest) -> (Seq<char>, nat);

/// What `tui_input`'s source shows of a request on a field whose cursor is
/// within its text: characters are inserted and deleted at the cursor, the
/// cursor moves by one character or to either end, word moves keep the text
/// and word deletions keep what follows the cursor, and the cursor stays
/// within the text.
pub open spec fn edit_facts(v: Seq<char>, c: nat, request: EditRequest, r: (Seq<char>, nat)) -> bool {
    let n = v.len();
    &&& r.1 <= r.0.len()
    &&& match request {
        EditRequest::InsertChar(ch) => r == (v.take(c as int).push(ch) + v.skip(c as int), c + 1),
        EditRequest::GoToPrevChar => r == (v, if c == 0 { 0 } else { (c - 1) as nat }),
        EditRequest::GoToNextChar => r == (v, if c == n { c } else { c + 1 }),
        EditRequest::GoToPrevWord => r.0 == v && r.1 <= c,
        EditRequest::GoToNextWord => r.0 == v && (c == n ==> r.1 == c) && (c < n ==> c < r.1),
        EditRequest::GoToStart => r == (v, 0nat),
        EditRequest::GoToEnd => r == (v, n),
        EditRequest::DeletePrevChar => r == if c == 0 {
            (v, c)
        } else {
            (v.remove(c - 1), (c - 1) as nat)
        },
        EditRequest::DeleteNextChar => r == if c == n {
            (v, c)
        } else {
            (v.remove(c as int), c)
        },
        EditRequest::DeletePrevWord => r.1 <= c && r.0 == v.take(r.1 as int) + v.skip(c as int),
        EditRequest::DeleteNextWord => r.1 == c && r.0.take(c as int) == v.take(c as int),
        EditRequest::DeleteLine => r == if n == 0 {
            (v, c)
        } else {
            (Seq::<char>::empty(), 0nat)
        },
        EditRequest::DeleteTillEnd => r == (v.take(c as int), c),
    }
}

/// `tui_input::Input::handle` on an input made by `Input::new` and
/// `with_cursor`: the result is named by `input_after_request`, and when the
/// cursor is within the text it also meets `edit_facts`.
#[verifier::external_body]
fn tui_input_handle(value: &str, cursor: usize, request: EditRequest) -> (r: (String, usize))
    ensures
        (r.0@, r.1 as nat) == input_after_request(value@, cursor as nat, request),
        cursor <= value@.len() ==> edit_facts(value@, cursor as nat, request, (r.0@, r.1 as nat)),
{
    let mut input = tui_input::Input::new(value.to_string()).with_cursor(cursor);
    input.handle(match request {
        EditRequest::InsertChar(c) => R::InsertChar(c),
        EditRequest::GoToPrevChar => R::GoToPrevChar, EditRequest::GoToNextChar => R::GoToNextChar,
        EditRequest::GoToPrevWord => R::GoToPrevWord, EditRequest::GoToNextWord => R::GoToNextWord,
        EditRequest::GoToStart => R::GoToStart, EditRequest::GoToEnd => R::GoToEnd,
        EditRequest::DeletePrevChar => R::DeletePrevChar, EditRequest::DeleteNextChar => R::DeleteNextChar,
        EditRequest::DeletePrevWord => R::DeletePrevWord, EditRequest::DeleteNextWord => R::DeleteNextWord,
        EditRequest::DeleteLine => R::DeleteLine, EditRequest::DeleteTillEnd => R::DeleteTillEnd,
    });
    (input.value().to_string(), input.cursor())
}

impl InputBuffer {
    /// Handles an editing request as `tui_input` does.
    pub fn handle(&mut self, request: EditRequest)
        ensures
            final(self)@ == input_after_request(old(self)@.0, old(self)@.1, request),
            old(self)@.1 <= old(self)@.0.len() ==> edit_facts(old(self)@.0, old(self)@.1, request, final(self)@),
    {
        let (value, cursor) = tui_input_handle(self.value.as_str(), self.cursor, request);
        self.value = value;
        self.cursor = cursor;
    }
}

impl Default for InputBuffer {
    fn default() -> (b: Self)
        ensures
            b@ == (Seq::<char>::empty(), 0nat),
    {
        InputBuffer { value: String::new(), cursor: 0 }
    }
}

/// The abstract state of a display: the plain values of its fields.
pub struct DisplayView {
    pub display_to_id: Seq<u32>,
    pub focused_index: Option<usize>,
    pub input: Seq<char>,
    pub cursor: nat,
    pub active_container: TaskContainer,
    pub folded: Set<u32>,
    pub original_focus: Option<usize>,
    pub request_focus_next_frame: bool,
}

/// Manages the display state of tasks in the taskpad.
/// Tasks are displayed as a numbered list (1. Task A, 2. Task B, etc.)
/// with each task truncated to fit within a single line if necessary.
#[derive(Debug)]
pub struct DisplayContainerState {
    /// List of task IDs for the visible tasks in the current container, in
    /// display order (top-level tasks, each followed by its visible
    /// subtasks).
    pub display_to_id: Vec<u32>,
    /// Currently focused entry: 0 is the input line, i > 0 the i-th task
    pub focused_index: Option<usize>,
    /// Input field for entering commands
    pub input: InputBuffer,
    /// Currently active container being displayed
    pub active_container: TaskContainer,
    /// Set of task IDs that are folded (not showing their children)
    pub folded_tasks: HashSet<u32>,
    /// Focus to return to after a subtask created from it has been edited
    pub original_focus: Option<usize>,
    /// The input field should take keyboard focus on the next frame
    pub request_focus_next_frame: bool,
}

impl View for DisplayContainerState {
    type V = DisplayView;

    open spec fn view(&self) -> DisplayView {
        DisplayView {
            display_to_id: self.display_to_id@,
            focused_index: self.focused_index,
            input: self.input@.0,
            cursor: self.input@.1,
            active_container: self.active_container,
            folded: self.folded_tasks@,
            original_focus: self.original_focus,
            request_focus_next_frame: self.request_focus_next_frame,
        }
    }
}

/// A task shows its children unless it is folded.
pub open spec fn is_expanded(folded: Set<u32>, id: u32) -> bool {
    !folded.contains(id)
}

/// The ids listed below task `id` when it is expanded: each child of the
/// first task with that id, followed by its own listing if it is expanded,
/// down to `fuel` levels.
pub open spec fn subtree_ids(tasks: Seq<Task>, folded: Set<u32>, id: u32, fuel: nat) -> Seq<u32>
    decreases fuel, 0nat,
{
    if fuel == 0 {
        Seq::empty()
    } else {
        match position_of_id(tasks, id) {
            None => Seq::empty(),
            Some(p) => forest_ids(tasks, folded, tasks[p].child_ids@, (fuel - 1) as nat),
        }
    }
}

/// The listing of a sequence of sibling ids: each id followed by its
/// subtree listing when it is expanded.
pub open spec fn forest_ids(tasks: Seq<Task>, folded: Set<u32>, ids: Seq<u32>, fuel: nat) -> Seq<u32>
    decreases fuel, ids.len(),
{
    if ids.len() == 0 {
        Seq::empty()
    } else {
        forest_ids(tasks, folded, ids.drop_last(), fuel) + seq![ids.last()] + if is_expanded(
            folded,
            ids.last(),
        ) {
            subtree_ids(tasks, folded, ids.last(), fuel)
        } else {
            Seq::empty()
        }
    }
}

/// The ids of the top-level tasks of a container, in task order.
pub open spec fn root_ids(tasks: Seq<Task>, active: TaskContainer) -> Seq<u32>
    decreases tasks.len(),
{
    if tasks.len() == 0 {
        Seq::empty()
    } else {
        let prev = root_ids(tasks.drop_last(), active);
        if tasks.last().container == active && tasks.last().parent_id is None {
            prev.push(tasks.last().id)
        } else {
            prev
        }
    }
}

/// The display order of a container: its top-level tasks, each followed by
/// its visible subtasks.  A hierarchy in which a task is its own descendant
/// is listed down to as many levels as there are tasks.
pub open spec fn display_order(tasks: Seq<Task>, folded: Set<u32>, active: TaskContainer) -> Seq<
    u32,
> {
    forest_ids(tasks, folded, root_ids(tasks, active), tasks.len() as nat)
}

/// Some task is in the container.
pub open spec fn has_task_in(tasks: Seq<Task>, active: TaskContainer) -> bool {
    exists|i: int| 0 <= i < tasks.len() && tasks[i].container == active
}

/// The content of the focused task, if a task (not the input line) has focus
/// and exists.
pub open spec fn focused_content(v: DisplayView, tasks: Seq<Task>) -> Option<Seq<char>> {
    match v.focused_index {
        Some(idx) => if idx == 0 || idx > v.display_to_id.len() {
            None
        } else {
            match position_of_id(tasks, v.display_to_id[idx - 1]) {
                Some(p) => Some(tasks[p].content@),
                None => None,
            }
        },
        None => None,
    }
}

/// The display with the input line cleared and focused.
pub open spec fn focus_input_line(v: DisplayView) -> DisplayView {
    DisplayView { focused_index: Some(0), input: Seq::empty(), cursor: 0, ..v }
}

/// The display after the input field is brought in line with the focus:
/// the input line gets an empty input, a focused task puts its content in
/// the input, and a focus on nothing (or on a task that no longer exists, or
/// in an empty container) moves to the cleared input line.
pub open spec fn sync_input(v: DisplayView, tasks: Seq<Task>) -> DisplayView {
    if !has_task_in(tasks, v.active_container) {
        focus_input_line(v)
    } else if v.focused_index == Some(0usize) {
        DisplayView { input: Seq::empty(), cursor: 0, ..v }
    } else {
        match focused_content(v, tasks) {
            Some(c) => DisplayView { input: c, cursor: c.len(), ..v },
            None => focus_input_line(v),
        }
    }
}

/// The display after its order is recomputed from the tasks: a focus beyond
/// the new list moves to the input line, and the input follows the focus.
pub open spec fn refresh_display(v: DisplayView, tasks: Seq<Task>) -> DisplayView {
    let ordered = DisplayView {
        display_to_id: display_order(tasks, v.folded, v.active_container),
        ..v
    };
    let bounded = match ordered.focused_index {
        Some(c) => if c > ordered.display_to_id.len() {
            sync_input(DisplayView { focused_index: Some(0), ..ordered }, tasks)
        } else {
            ordered
        },
        None => ordered,
    };
    sync_input(bounded, tasks)
}

/// The positions of the top-level tasks of a container, in task order.
pub open spec fn top_level_positions(tasks: Seq<Task>, active: TaskContainer) -> Seq<int>
    decreases tasks.len(),
{
    if tasks.len() == 0 {
        Seq::empty()
    } else {
        let prev = top_level_positions(tasks.drop_last(), active);
        if tasks.last().container == active && tasks.last().parent_id is None {
            prev.push(tasks.len() - 1)
        } else {
            prev
        }
    }
}

/// The positions of the tasks that the ids name, skipping ids of no task.
pub open spec fn existing_positions(tasks: Seq<Task>, ids: Seq<u32>) -> Seq<int>
    decreases ids.len(),
{
    if ids.len() == 0 {
        Seq::empty()
    } else {
        let prev = existing_positions(tasks, ids.drop_last());
        match position_of_id(tasks, ids.last()) {
            Some(p) => prev.push(p),
            None => prev,
        }
    }
}

/// Follows a path of 1-based child positions down from the task at
/// position `current`, through expanded tasks only.
pub open spec fn follow_path(tasks: Seq<Task>, folded: Set<u32>, current: int, rest: Seq<usize>) -> Option<u32>
    decreases rest.len(),
{
    if rest.len() == 0 {
        Some(tasks[current].id)
    } else if !is_expanded(folded, tasks[current].id) {
        None
    } else {
        let kids = existing_positions(tasks, tasks[current].child_ids@);
        if rest[0] == 0 || rest[0] > kids.len() {
            None
        } else {
            follow_path(tasks, folded, kids[rest[0] - 1], rest.drop_first())
        }
    }
}

/// The id of the task at a hierarchical display path such as "1.2": the
/// first number counts top-level tasks of the container, each further number
/// counts the existing children of an expanded task.
pub open spec fn task_id_at_path(v: DisplayView, path_text: Seq<char>, tasks: Seq<Task>) -> Option<u32> {
    match parse_task_index(path_text) {
        Err(_) => None,
        Ok(path) => {
            let tops = top_level_positions(tasks, v.active_container);
            if path[0] == 0 || path[0] > tops.len() {
                None
            } else {
                follow_path(tasks, v.folded, tops[path[0] - 1], path.drop_first())
            }
        },
    }
}

/// The positions of the top-level tasks of a container.
pub(crate) fn top_level_positions_of(tasks: &[Task], active: TaskContainer) -> (r: Vec<usize>)
    ensures
        r@.len() == top_level_positions(tasks@, active).len(),
        forall|k: int| 0 <= k < r@.len() ==> r@[k] as int == #[trigger] top_level_positions(tasks@, active)[k],
        forall|k: int| 0 <= k < r@.len() ==> r@[k] < tasks@.len(),
{
    let mut r: Vec<usize> = Vec::new();
    let mut i: usize = 0;
    while i < tasks.len()
        invariant
            i <= tasks@.len(),
            r@.len() == top_level_positions(tasks@.take(i as int), active).len(),
            forall|k: int|
                0 <= k < r@.len() ==> r@[k] as int == #[trigger] top_level_positions(
                    tasks@.take(i as int),
                    active,
                )[k],
            forall|k: int| 0 <= k < r@.len() ==> r@[k] < i,
        decreases tasks.len() - i,
    {
        proof {
            assert(tasks@.take(i + 1).drop_last() =~= tasks@.take(i as int));
            assert(tasks@.take(i + 1).last() == tasks@[i as int]);
        }
        if tasks[i].container == active && tasks[i].parent_id.is_none() {
            r.push(i);
        }
        i = i + 1;
    }
    proof {
        assert(tasks@.take(tasks@.len() as int) =~= tasks@);
    }
    r
}

/// The positions of the tasks that the ids name, skipping ids of no task.
fn existing_positions_of(tasks: &[Task], ids: &Vec<u32>) -> (r: Vec<usize>)
    ensures
        r@.len() == existing_positions(tasks@, ids@).len(),
        forall|k: int| 0 <= k < r@.len() ==> r@[k] as int == #[trigger] existing_positions(tasks@, ids@)[k],
        forall|k: int| 0 <= k < r@.len() ==> r@[k] < tasks@.len(),
{
    let mut r: Vec<usize> = Vec::new();
    let mut i: usize = 0;
    while i < ids.len()
        invariant
            i <= ids@.len(),
            r@.len() == existing_positions(tasks@, ids@.take(i as int)).len(),
            forall|k: int|
                0 <= k < r@.len() ==> r@[k] as int == #[trigger] existing_positions(
                    tasks@,
                    ids@.take(i as int),
                )[k],
            forall|k: int| 0 <= k < r@.len() ==> r@[k] < tasks@.len(),
        decreases ids.len() - i,
    {
        proof {
            assert(ids@.take(i + 1).drop_last() =~= ids@.take(i as int));
            assert(ids@.take(i + 1).last() == ids@[i as int]);
            lemma_position_of_id(tasks@, ids@[i as int]);
        }
        match find_task_by_id(tasks, ids[i]) {
            Some(p) => {
                r.push(p);
            },
            None => {},
        }
        i = i + 1;
    }
    proof {
        assert(ids@.take(ids@.len() as int) =~= ids@);
    }
    r
}

/// The 1-based display position of a task id.
pub open spec fn display_index_of(v: DisplayView, task_id: u32) -> Option<int> {
    match id_position(v.display_to_id, task_id) {
        Some(i) => Some(i + 1),
        None => None,
    }
}

/// The display as `DisplayContainerState::new` makes it.
pub open spec fn initial_display() -> DisplayView {
    DisplayView {
        display_to_id: Seq::empty(),
        focused_index: Some(0),
        input: Seq::empty(),
        cursor: 0,
        active_container: TaskContainer::Taskpad,
        folded: Set::empty(),
        original_focus: None,
        request_focus_next_frame: false,
    }
}

/// Whether some task is in the container.
fn any_in_container(tasks: &[Task], container: TaskContainer) -> (b: bool)
    ensures
        b == has_task_in(tasks@, container),
{
    let mut i: usize = 0;
    while i < tasks.len()
        invariant
            i <= tasks@.len(),
            forall|j: int| 0 <= j < i ==> tasks@[j].container != container,
        decreases tasks.len() - i,
    {
        if tasks[i].container == container {
            return true;
        }
        i = i + 1;
    }
    false
}

impl Default for DisplayContainerState {
    fn default() -> (s: Self)
        ensures
            s@ == initial_display(),
    {
        Self::new()
    }
}

impl DisplayContainerState {
    pub fn new() -> (s: Self)
        ensures
            s@ == initial_display(),
    {
        DisplayContainerState {
            display_to_id: Vec::new(),
            focused_index: Some(0),
            input: InputBuffer::default(),
            active_container: TaskContainer::Taskpad,
            folded_tasks: HashSet::new(),
            original_focus: None,
            request_focus_next_frame: false,
        }
    }

    /// Check if a task is expanded
    pub fn is_task_expanded(&self, task_id: u32) -> (b: bool)
        ensures
            b == is_expanded(self@.folded, task_id),
    {
        !self.folded_tasks.contains(&task_id)
    }

    /// Appends the listing below task `parent_id` to `display_ids`.
    fn add_children_recursively(
        &self,
        parent_id: u32,
        tasks: &[Task],
        display_ids: &mut Vec<u32>,
        fuel: usize,
    )
        ensures
            final(display_ids)@ == old(display_ids)@ + subtree_ids(
                tasks@,
                self@.folded,
                parent_id,
                fuel as nat,
            ),
        decreases fuel,
    {
        if fuel == 0 {
            assert(old(display_ids)@ + Seq::<u32>::empty() =~= old(display_ids)@);
            return ;
        }
        proof {
            lemma_position_of_id(tasks@, parent_id);
        }
        let p = match find_task_by_id(tasks, parent_id) {
            Some(p) => p,
            None => {
                assert(old(display_ids)@ + Seq::<u32>::empty() =~= old(display_ids)@);
                return ;
            },
        };
        let children = &tasks[p].child_ids;
        let ghost start = display_ids@;
        let ghost folded = self@.folded;
        let mut k: usize = 0;
        while k < children.len()
            invariant
                fuel > 0,
                k <= children@.len(),
                folded == self@.folded,
                display_ids@ == start + forest_ids(
                    tasks@,
                    folded,
                    children@.take(k as int),
                    (fuel - 1) as nat,
                ),
            decreases children.len() - k,
        {
            let c = children[k];
            let ghost before = display_ids@;
            display_ids.push(c);
            if self.is_task_expanded(c) {
                self.add_children_recursively(c, tasks, display_ids, fuel - 1);
            }
            proof {
                let ids = children@.take(k + 1);
                assert(ids.drop_last() =~= children@.take(k as int));
                assert(ids.last() == c);
                let sub = if is_expanded(folded, c) {
                    subtree_ids(tasks@, folded, c, (fuel - 1) as nat)
                } else {
                    Seq::<u32>::empty()
                };
                assert(display_ids@ =~= before.push(c) + sub);
                assert(display_ids@ =~= start + forest_ids(tasks@, folded, ids, (fuel - 1) as nat));
            }
            k = k + 1;
        }
        proof {
            assert(children@.take(children@.len() as int) =~= children@);
        }
    }

    /// Updates the display order based on the current tasks.
    /// Only includes tasks in the active container.
    /// The display will show tasks as a numbered list starting from 1,
    /// with a special "Create new task" entry at index 0.
    /// For tasks with subtasks:
    /// - Subtasks are shown only when their parent is expanded
    pub fn update_display_order(&mut self, tasks: &[Task])
        ensures
            final(self)@ == refresh_display(old(self)@, tasks@),
    {
        let n = tasks.len();
        let mut display_ids: Vec<u32> = Vec::new();
        let mut i: usize = 0;
        while i < n
            invariant
                n == tasks@.len(),
                i <= n,
                display_ids@ == forest_ids(
                    tasks@,
                    self@.folded,
                    root_ids(tasks@.take(i as int), self.active_container),
                    n as nat,
                ),
            decreases n - i,
        {
            let ghost before = display_ids@;
            let ghost roots = root_ids(tasks@.take(i as int), self.active_container);
            proof {
                assert(tasks@.take(i + 1).drop_last() =~= tasks@.take(i as int));
                assert(tasks@.take(i + 1).last() == tasks@[i as int]);
            }
            let task = &tasks[i];
            if task.container == self.active_container && task.parent_id.is_none() {
                display_ids.push(task.id);
                if self.is_task_expanded(task.id) {
                    self.add_children_recursively(task.id, tasks, &mut display_ids, n);
                }
                proof {
                    let roots2 = roots.push(task.id);
                    assert(roots2.drop_last() =~= roots);
                    let sub = if is_expanded(self@.folded, task.id) {
                        subtree_ids(tasks@, self@.folded, task.id, n as nat)
                    } else {
                        Seq::<u32>::empty()
                    };
                    assert(display_ids@ =~= before.push(task.id) + sub);
                    assert(display_ids@ =~= forest_ids(tasks@, self@.folded, roots2, n as nat));
                }
            }
            i = i + 1;
        }
        proof {
            assert(tasks@.take(n as int) =~= tasks@);
        }
        self.display_to_id = display_ids;
        if let Some(current) = self.focused_index {
            if current > self.display_to_id.len() {
                self.focused_index = Some(0);
                self.update_input_for_focus(tasks);
            }
        }
        self.update_input_for_focus(tasks);
    }

    /// Gets a task ID from a hierarchical display index like "1.2.3"
    /// The display index represents the visual position in the UI, where:
    /// - "1" means the first top-level task
    /// - "1.2" means the second child of the first top-level task
    pub fn get_task_id_by_path(&self, display_path_str: &str, tasks: &[Task]) -> (r: Option<u32>)
        ensures
            r == task_id_at_path(self@, display_path_str@, tasks@),
    {
        let index = match TaskIndex::from_str(display_path_str) {
            Ok(ix) => ix,
            Err(_) => return None,
        };
        let path = index.path();
        let tops = top_level_positions_of(tasks, self.active_container);
        let first = path[0];
        if first == 0 || first > tops.len() {
            return None;
        }
        let mut current = tops[first - 1];
        let ghost folded = self@.folded;
        let ghost goal = task_id_at_path(self@, display_path_str@, tasks@);
        let mut k: usize = 1;
        proof {
            assert(path@.skip(1) =~= path@.drop_first());
        }
        while k < path.len()
            invariant
                1 <= k <= path@.len(),
                current < tasks@.len(),
                folded == self@.folded,
                goal == task_id_at_path(self@, display_path_str@, tasks@),
                goal == follow_path(tasks@, folded, current as int, path@.skip(k as int)),
            decreases path.len() - k,
        {
            let ghost rest = path@.skip(k as int);
            proof {
                assert(rest.len() > 0);
                assert(rest[0] == path@[k as int]);
                assert(rest.drop_first() =~= path@.skip(k + 1));
            }
            if !self.is_task_expanded(tasks[current].id) {
                return None;
            }
            let step = path[k];
            if step == 0 {
                return None;
            }
            let kids = existing_positions_of(tasks, &tasks[current].child_ids);
            if step > kids.len() {
                return None;
            }
            current = kids[step - 1];
            k = k + 1;
        }
        proof {
            assert(path@.skip(k as int) =~= Seq::<usize>::empty());
        }
        Some(tasks[current].id)
    }

    /// Gets the display index (1-based) for a task ID
    pub fn get_display_index(&self, task_id: u32) -> (r: Option<usize>)
        ensures
            opt_int(r) == display_index_of(self@, task_id),
    {
        proof {
            lemma_id_position(self.display_to_id@, task_id);
        }
        let n = self.display_to_id.len();
        match position_in(&self.display_to_id, task_id) {
            Some(i) => {
                assert(i < n);
                Some(i + 1)
            },
            None => None,
        }
    }

    /// The id of the task at a 1-based display index.
    pub fn get_task_id(&self, index: usize) -> (r: Option<u32>)
        ensures
            r == if 1 <= index <= self@.display_to_id.len() {
                Some(self@.display_to_id[index - 1])
            } else {
                None
            },
    {
        if index >= 1 && index <= self.display_to_id.len() {
            Some(self.display_to_id[index - 1])
        } else {
            None
        }
    }

    /// Returns the number of tasks in the display (excluding "Create new task" entry)
    pub fn len(&self) -> (n: usize)
        ensures
            n == self@.display_to_id.len(),
    {
        self.display_to_id.len()
    }

    /// Returns true if there are no tasks in the display (may still have "Create new task" entry)
    pub fn is_empty(&self) -> (b: bool)
        ensures
            b == (self@.display_to_id.len() == 0),
    {
        self.display_to_id.len() == 0
    }

    /// Focus the previous task (move up), with wrapping
    pub fn focus_previous(&mut self)
        ensures
            final(self)@ == (DisplayView {
                focused_index: Some(
                    match old(self)@.focused_index {
                        Some(0) => old(self)@.display_to_id.len() as usize,
                        Some(c) => (c - 1) as usize,
                        None => 0,
                    },
                ),
                ..old(self)@
            }),
    {
        let max_index = self.display_to_id.len();
        self.focused_index = Some(
            match self.focused_index {
                Some(0) => max_index,
                Some(current) => current - 1,
                None => 0,
            },
        );
    }

    /// Focus the next task (move down), with wrapping
    pub fn focus_next(&mut self)
        ensures
            final(self)@ == (DisplayView {
                focused_index: Some(
                    match old(self)@.focused_index {
                        Some(c) => if c >= old(self)@.display_to_id.len() {
                            0
                        } else {
                            (c + 1) as usize
                        },
                        None => 0,
                    },
                ),
                ..old(self)@
            }),
    {
        let max_index = self.display_to_id.len();
        self.focused_index = Some(
            match self.focused_index {
                Some(current) => if current >= max_index {
                    0
                } else {
                    current + 1
                },
                None => 0,
            },
        );
    }

    /// Clear the current focus
    pub fn clear_focus(&mut self)
        ensures
            final(self)@ == (DisplayView { focused_index: None, ..old(self)@ }),
    {
        self.focused_index = None;
    }

    /// Gets the content of the currently focused task.
    /// Returns None if no task is focused or if the focused item is the "Create new task" entry.
    pub fn get_focused_task_content<'a>(&self, tasks: &'a [Task]) -> (r: Option<&'a str>)
        ensures
            match focused_content(self@, tasks@) {
                Some(c) => r matches Some(s) && s@ == c,
                None => r is None,
            },
    {
        match self.focused_index {
            Some(idx) => {
                if idx == 0 || idx > self.display_to_id.len() {
                    None
                } else {
                    let task_id = self.display_to_id[idx - 1];
                    proof {
                        lemma_position_of_id(tasks@, task_id);
                    }
                    match find_task_by_id(tasks, task_id) {
                        Some(p) => Some(tasks[p].content.as_str()),
                        None => None,
                    }
                }
            },
            None => None,
        }
    }

    /// The text of the input field.
    pub fn input_value(&self) -> (s: &str)
        ensures
            s@ == self@.input,
    {
        self.input.value()
    }

    /// The cursor position in the input field.
    pub fn input_cursor(&self) -> (c: usize)
        ensures
            c == self@.cursor,
    {
        self.input.cursor()
    }

    /// Clears the input field.
    pub fn reset_input(&mut self)
        ensures
            final(self)@ == (DisplayView { input: Seq::empty(), cursor: 0, ..old(self)@ }),
    {
        self.input.reset();
    }

    /// Replaces the input with `content`, the cursor after its end.
    pub fn set_input(&mut self, content: &str)
        ensures
            final(self)@ == (DisplayView { input: content@, cursor: content@.len(), ..old(self)@ }),
    {
        self.input = InputBuffer::new(owned(content));
    }

    /// Brings the input field in line with the focus.
    pub fn update_input_for_focus(&mut self, tasks: &[Task])
        ensures
            final(self)@ == sync_input(old(self)@, tasks@),
    {
        let has_tasks_in_container = any_in_container(tasks, self.active_container);
        if !has_tasks_in_container {
            self.focused_index = Some(0);
            self.input.reset();
            return ;
        }
        match self.focused_index {
            Some(0) => self.input.reset(),
            _ => {
                match self.get_focused_task_content(tasks) {
                    Some(content) => {
                        self.input = InputBuffer::new(owned(content));
                    },
                    None => {
                        self.focused_index = Some(0);
                        self.input.reset();
                    },
                }
            },
        }
    }

    /// The input field, for editing by key events.
    pub fn get_input_mut(&mut self) -> (r: &mut InputBuffer)
        ensures
            r@ == (old(self)@.input, old(self)@.cursor),
            final(self)@ == (DisplayView {
                input: final(r)@.0,
                cursor: final(r)@.1,
                ..old(self)@
            }),
    {
        &mut self.input
    }

    /// Toggle the expansion state of a task, then refresh the display order
    pub fn toggle_task_expansion(&mut self, task_id: u32, tasks: &[Task])
        ensures
            final(self)@ == refresh_display(
                (DisplayView {
                    folded: if old(self)@.folded.contains(task_id) {
                        old(self)@.folded.remove(task_id)
                    } else {
                        old(self)@.folded.insert(task_id)
                    },
                    ..old(self)@
                }),
                tasks@,
            ),
    {
        if self.folded_tasks.contains(&task_id) {
            self.folded_tasks.remove(&task_id);
        } else {
            self.folded_tasks.insert(task_id);
        }
        self.update_display_order(tasks);
    }

    /// Collapse all tasks: every listed task becomes folded
    pub fn collapse_all(&mut self)
        ensures
            final(self)@ == (DisplayView {
                folded: old(self)@.display_to_id.to_set(),
                ..old(self)@
            }),
    {
        let mut folded: HashSet<u32> = HashSet::new();
        let mut i: usize = 0;
        while i < self.display_to_id.len()
            invariant
                i <= self.display_to_id@.len(),
                folded@ == self.display_to_id@.take(i as int).to_set(),
            decreases self.display_to_id.len() - i,
        {
            folded.insert(self.display_to_id[i]);
            proof {
                assert(self.display_to_id@.take(i + 1) =~= self.display_to_id@.take(i as int).push(
                    self.display_to_id@[i as int],
                ));
                Seq::lemma_push_to_set_commute(
                    self.display_to_id@.take(i as int),
                    self.display_to_id@[i as int],
                );
            }
            i = i + 1;
        }
        proof {
            assert(self.display_to_id@.take(self.display_to_id@.len() as int) =~= self.display_to_id@);
        }
        self.folded_tasks = folded;
    }

    /// Fold a specific task
    pub fn fold_task(&mut self, task_id: u32)
        ensures
            final(self)@ == (DisplayView { folded: old(self)@.folded.insert(task_id), ..old(self)@ }),
    {
        self.folded_tasks.insert(task_id);
    }

    /// Fold a list of tasks
    pub fn fold_tasks(&mut self, task_ids: &[u32])
        ensures
            final(self)@ == (DisplayView {
                folded: old(self)@.folded.union(task_ids@.to_set()),
                ..old(self)@
            }),
    {
        let ghost start = self@;
        let mut i: usize = 0;
        proof {
            assert(task_ids@.take(0) =~= Seq::<u32>::empty());
            assert(start.folded.union(Seq::<u32>::empty().to_set()) =~= start.folded);
        }
        while i < task_ids.len()
            invariant
                i <= task_ids@.len(),
                self@ == (DisplayView {
                    folded: start.folded.union(task_ids@.take(i as int).to_set()),
                    ..start
                }),
            decreases task_ids.len() - i,
        {
            self.folded_tasks.insert(task_ids[i]);
            proof {
                assert(task_ids@.take(i + 1) =~= task_ids@.take(i as int).push(task_ids@[i as int]));
                Seq::lemma_push_to_set_commute(task_ids@.take(i as int), task_ids@[i as int]);
                assert(self@.folded =~= start.folded.union(task_ids@.take(i + 1).to_set()));
            }
            i = i + 1;
        }
        proof {
            assert(task_ids@.take(task_ids@.len() as int) =~= task_ids@);
        }
    }
}

/// Maintains a log of user activities and commands
pub struct ActivityLog {
    /// List of activity messages, newest first
    messages: Vec<String>,
}

impl View for ActivityLog {
    type V = Seq<Seq<char>>;

    closed spec fn view(&self) -> Seq<Seq<char>> {
        self.messages@.map_values(|m: String| m@)
    }
}

/// The newest message of a log, if any.
pub open spec fn latest_of(log: Seq<Seq<char>>) -> Option<Seq<char>> {
    if log.len() > 0 {
        Some(log[0])
    } else {
        None
    }
}

impl Default for ActivityLog {
    fn default() -> (log: Self)
        ensures
            log@ == Seq::<Seq<char>>::empty(),
    {
        Self::new()
    }
}

impl ActivityLog {
    /// Creates a new empty activity log
    pub fn new() -> (log: Self)
        ensures
            log@ == Seq::<Seq<char>>::empty(),
    {
        let log = ActivityLog { messages: Vec::new() };
        assert(log@ =~= Seq::<Seq<char>>::empty());
        log
    }

    /// Adds a new activity message to the log
    pub fn add_message(&mut self, message: String)
        ensures
            final(self)@ == seq![message@] + old(self)@,
    {
        let ghost m = message@;
        self.messages.insert(0, message);
        assert(self@ =~= seq![m] + old(self)@);
    }

    /// Gets the most recent activity message
    pub fn latest_message(&self) -> (r: Option<&str>)
        ensures
            match latest_of(self@) {
                Some(m) => r matches Some(s) && s@ == m,
                None => r is None,
            },
    {
        if self.messages.len() > 0 {
            Some(self.messages[0].as_str())
        } else {
            None
        }
    }
}

/// The message just added to a log is its latest message.
pub proof fn lemma_latest_after_add(log: Seq<Seq<char>>, message: Seq<char>)
    ensures
        latest_of(seq![message] + log) == Some(message),
{
}

/// Bringing the input in line with the focus a second time changes nothing.
proof fn lemma_sync_input_idempotent(v: DisplayView, tasks: Seq<Task>)
    ensures
        sync_input(sync_input(v, tasks), tasks) == sync_input(v, tasks),
{
}

/// Refreshing the display twice from the same tasks is refreshing it once:
/// the order, the focus and the input all stay as the first refresh left
/// them.
pub proof fn lemma_refresh_idempotent(v: DisplayView, tasks: Seq<Task>)
    ensures
        refresh_display(refresh_display(v, tasks), tasks) == refresh_display(v, tasks),
{
    let once = refresh_display(v, tasks);
    let ordered = DisplayView {
        display_to_id: display_order(tasks, v.folded, v.active_container),
        ..v
    };
    let bounded = match ordered.focused_index {
        Some(c) => if c > ordered.display_to_id.len() {
            sync_input(DisplayView { focused_index: Some(0), ..ordered }, tasks)
        } else {
            ordered
        },
        None => ordered,
    };
    lemma_sync_input_idempotent(bounded, tasks);
    assert(once == sync_input(bounded, tasks));
    let again = DisplayView {
        display_to_id: display_order(tasks, once.folded, once.active_container),
        ..once
    };
    assert(again == once);
}

/// Folding a task and unfolding it again restores the folded set and the
/// listing.
pub proof fn lemma_fold_unfold_restores_listing(v: DisplayView, tasks: Seq<Task>, id: u32)
    ensures
        ({
            let flip = |f: Set<u32>| if f.contains(id) {
                f.remove(id)
            } else {
                f.insert(id)
            };
            let once = refresh_display(DisplayView { folded: flip(v.folded), ..v }, tasks);
            let twice = refresh_display(DisplayView { folded: flip(once.folded), ..once }, tasks);
            &&& twice.folded == v.folded
            &&& twice.display_to_id == display_order(tasks, v.folded, v.active_container)
        }),
{
    let flip = |f: Set<u32>| if f.contains(id) {
        f.remove(id)
    } else {
        f.insert(id)
    };
    assert(flip(flip(v.folded)) =~= v.folded);
}

/// Typing a character and deleting it again with Backspace restores the
/// text and the cursor.
pub proof fn lemma_insert_then_delete(v: Seq<char>, c: nat, ch: char, mid: (Seq<char>, nat), end: (Seq<char>, nat))
    requires
        c <= v.len(),
        edit_facts(v, c, EditRequest::InsertChar(ch), mid),
        edit_facts(mid.0, mid.1, EditRequest::DeletePrevChar, end),
    ensures
        end == (v, c),
{
    assert(mid.0.remove(c as int) =~= v);
}

} // verus!
