//! Layout and text of the terminal interface: the task lines with their
//! hierarchical indices, the wrapped input field and where its cursor goes,
//! and the vertical layout of the screen.  Drawing them is left to the
//! terminal backend.

use vstd::prelude::*;
use vstd::utf8::{encode_utf8, decode_utf8, is_char_boundary};
use crate::taskstore::{Task, TaskStatus, position_of_id, lemma_position_of_id, find_task_by_id};
use crate::display_container::{DisplayContainerState, is_expanded, top_level_positions};
use crate::task_index::{TaskIndex, join_path};
use crate::text::{owned, concat};
use crate::listing::{collect_rows, listed_rows, row_views, TaskRow};

verus! {

broadcast use vstd::std_specs::hash::group_hash_axioms;

/// How a piece of text is styled: as plain text, reversed (the focused
/// line), in the accent color, reversed in the accent color, or black on
/// the accent color (the focused entry line).
#[derive(Clone, Copy, Debug, PartialEq, Eq, Structural)]
pub enum SpanStyle {
    Plain,
    Reversed,
    Accent,
    ReversedAccent,
    Highlighted,
    AccentBold,
}

/// A piece of text with its style.
pub struct StyledSpan {
    pub text: String,
    pub style: SpanStyle,
}

/// A layout constraint on one region of the screen, top to bottom.
#[derive(Clone, Copy, Debug, PartialEq, Eq, Structural)]
pub enum LayoutConstraint {
    /// At least this many rows
    Min(u16),
    /// Exactly this many rows
    Length(u16),
}

/// The width of the input region when `ratatui` splits the area vertically
/// into a flexible region and a three-row input region: a vertical split
/// keeps the area's width.
#[verifier::external_body]
fn input_region_width(x: u16, y: u16, width: u16, height: u16) -> (w: u16)
    ensures
        w == width,
{
    let area = ratatui::layout::Rect { x, y, width, height };
    let chunks = ratatui::layout::Layout::default()
        .direction(ratatui::layout::Direction::Vertical)
        .constraints([ratatui::layout::Constraint::Min(1), ratatui::layout::Constraint::Length(3)])
        .split(area);
    chunks[1].width
}

/// Calculate the available width for content inside a frame area: the
/// input region's width less its two borders.
pub fn calculate_available_width(x: u16, y: u16, width: u16, height: u16) -> (w: usize)
    ensures
        w == if width >= 2 {
            width - 2
        } else {
            0
        },
{
    let region = input_region_width(x, y, width, height);
    region.saturating_sub(2) as usize
}

/// The characters of `s` cut into lines of `w` characters, the last one
/// possibly shorter.
pub open spec fn chunks(s: Seq<char>, w: nat) -> Seq<Seq<char>>
    recommends
        w > 0,
    decreases s.len(),
{
    if s.len() == 0 || w == 0 {
        Seq::empty()
    } else if s.len() <= w {
        seq![s]
    } else {
        seq![s.take(w as int)] + chunks(s.skip(w as int), w)
    }
}

/// The lines of the input field: its text cut into lines of the available
/// width, followed by empty lines up to the line the cursor (or the text's
/// byte length, if larger) falls on.
pub open spec fn input_lines(s: Seq<char>, byte_len: nat, cursor: nat, w: nat) -> Seq<Seq<char>> {
    let needed = (if cursor >= byte_len { cursor } else { byte_len }) / w + 1;
    let text_lines = chunks(s, w);
    if text_lines.len() >= needed {
        text_lines
    } else {
        text_lines + Seq::new((needed - text_lines.len()) as nat, |i: int| Seq::<char>::empty())
    }
}

/// The views of a list of strings.
pub open spec fn views(v: Seq<String>) -> Seq<Seq<char>> {
    v.map_values(|l: String| l@)
}

proof fn lemma_chunks_len(s: Seq<char>, w: nat)
    requires
        w > 0,
    ensures
        chunks(s, w).len() <= s.len(),
    decreases s.len(),
{
    if s.len() > w {
        lemma_chunks_len(s.skip(w as int), w);
    }
}

/// Cutting text into lines loses nothing and adds nothing: joined again the
/// lines are the text, every line holds between one and `w` characters,
/// and every line but the last holds exactly `w`.
pub proof fn lemma_chunks_rebuild_text(s: Seq<char>, w: nat)
    requires
        w > 0,
    ensures
        chunks(s, w).flatten() == s,
        forall|k: int| 0 <= k < chunks(s, w).len() ==> 0 < (#[trigger] chunks(s, w)[k]).len() <= w,
        forall|k: int| 0 <= k < chunks(s, w).len() - 1 ==> (#[trigger] chunks(s, w)[k]).len() == w,
    decreases s.len(),
{
    if s.len() == 0 {
    } else if s.len() <= w {
        seq![s].lemma_flatten_one_element();
    } else {
        let rest = chunks(s.skip(w as int), w);
        lemma_chunks_rebuild_text(s.skip(w as int), w);
        let all = seq![s.take(w as int)] + rest;
        assert(all.first() == s.take(w as int));
        assert(all.drop_first() =~= rest);
        assert(s.take(w as int) + s.skip(w as int) =~= s);
        assert forall|k: int| 0 < k < all.len() implies all[k] == rest[k - 1] by {}
    }
}

/// The input field shows its whole text: the first lines, joined, are the
/// text cut at the available width (each full but the last), the lines
/// after them are empty, and there are enough lines to reach the cursor's
/// (or the text's byte length's) line.
pub proof fn lemma_input_lines_hold_text(s: Seq<char>, byte_len: nat, cursor: nat, w: nat)
    requires
        w > 0,
    ensures
        exists|k: int|
            #![trigger input_lines(s, byte_len, cursor, w).take(k)]
            {
                let lines = input_lines(s, byte_len, cursor, w);
                &&& 0 <= k <= lines.len()
                &&& lines.take(k).flatten() == s
                &&& forall|i: int| 0 <= i < k ==> 0 < (#[trigger] lines[i]).len() <= w
                &&& forall|i: int| 0 <= i < k - 1 ==> (#[trigger] lines[i]).len() == w
                &&& forall|i: int| k <= i < lines.len() ==> (#[trigger] lines[i]).len() == 0
            },
        input_lines(s, byte_len, cursor, w).len() >= (if cursor >= byte_len {
            cursor
        } else {
            byte_len
        }) / w + 1,
{
    lemma_chunks_rebuild_text(s, w);
    let lines = input_lines(s, byte_len, cursor, w);
    let text_lines = chunks(s, w);
    let k = text_lines.len() as int;
    assert(lines.take(k) =~= text_lines);
}

/// Process input text into lines and calculate required height: the lines
/// of the input field and its height with two border rows.
pub fn calculate_input_dimensions(input_value: &str, cursor_position: usize, available_width: usize) -> (r: (Vec<String>, u16))
    requires
        available_width > 0,
        cursor_position < usize::MAX - 3,
        encode_utf8(input_value@).len() < usize::MAX - 3,
        input_value@.len() < usize::MAX - 3,
    ensures
        views(r.0@) == input_lines(
            input_value@,
            encode_utf8(input_value@).len(),
            cursor_position as nat,
            available_width as nat,
        ),
        r.1 == #[verifier::truncate] ((r.0@.len() + 2) as u16),
{
    let byte_len = input_value.len();
    let widest = if cursor_position >= byte_len {
        cursor_position
    } else {
        byte_len
    };
    let needed_lines = widest / available_width + 1;
    let chars = crate::text::chars_of(input_value);
    let n = chars.len();
    let mut lines: Vec<String> = Vec::new();
    let mut pos: usize = 0;
    proof {
        assert(chars@.skip(0) =~= chars@);
    }
    while pos < n
        invariant
            n == chars@.len(),
            chars@ == input_value@,
            available_width > 0,
            pos <= n,
            views(lines@) + chunks(chars@.skip(pos as int), available_width as nat) == chunks(
                chars@,
                available_width as nat,
            ),
        decreases n - pos,
    {
        let rest = n - pos;
        let end = if rest <= available_width {
            n
        } else {
            pos + available_width
        };
        let line = crate::text::string_of(&chars, pos, end);
        let ghost prev = lines@;
        let ghost tail = chars@.skip(pos as int);
        proof {
            if rest > available_width {
                assert(tail.take(available_width as int) =~= chars@.subrange(pos as int, end as int));
                assert(tail.skip(available_width as int) =~= chars@.skip(end as int));
            } else {
                assert(tail =~= chars@.subrange(pos as int, end as int));
                assert(chars@.skip(end as int) =~= Seq::<char>::empty());
            }
        }
        lines.push(line);
        proof {
            assert(views(lines@) =~= views(prev).push(line@));
            assert(chunks(tail, available_width as nat) =~= seq![line@] + chunks(
                chars@.skip(end as int),
                available_width as nat,
            ));
            assert(views(lines@) + chunks(chars@.skip(end as int), available_width as nat) =~= views(
                prev,
            ) + chunks(tail, available_width as nat));
        }
        pos = end;
    }
    proof {
        assert(chars@.skip(n as int) =~= Seq::<char>::empty());
        assert(views(lines@) =~= chunks(chars@, available_width as nat));
        lemma_chunks_len(chars@, available_width as nat);
    }
    let ghost text_lines = chunks(chars@, available_width as nat);
    proof {
        assert(views(lines@) =~= text_lines + Seq::new(0, |i: int| Seq::<char>::empty()));
    }
    while lines.len() < needed_lines
        invariant
            text_lines.len() <= lines@.len(),
            views(lines@) == text_lines + Seq::new(
                (lines@.len() - text_lines.len()) as nat,
                |i: int| Seq::<char>::empty(),
            ),
            lines@.len() <= if needed_lines >= text_lines.len() {
                needed_lines as int
            } else {
                text_lines.len() as int
            },
        decreases needed_lines - lines.len(),
    {
        let ghost prev = lines@;
        lines.push(String::new());
        proof {
            assert(views(lines@) =~= views(prev).push(Seq::<char>::empty()));
            assert(views(lines@) =~= text_lines + Seq::new(
                (lines@.len() - text_lines.len()) as nat,
                |i: int| Seq::<char>::empty(),
            ));
        }
    }
    let total_height = #[verifier::truncate] ((lines.len() + 2) as u16);
    (lines, total_height)
}

/// Create layout constraints based on UI state: the task list takes the
/// remaining rows, the activity log one row, the help line one row when it
/// is shown, and the input field its height.
pub fn create_layout_constraints(input_height: u16, show_help: bool) -> (c: Vec<LayoutConstraint>)
    ensures
        c@ == if show_help {
            seq![
                LayoutConstraint::Min(1),
                LayoutConstraint::Length(1),
                LayoutConstraint::Length(1),
                LayoutConstraint::Length(input_height),
            ]
        } else {
            seq![
                LayoutConstraint::Min(1),
                LayoutConstraint::Length(1),
                LayoutConstraint::Length(input_height),
            ]
        },
{
    let mut constraints = vec![LayoutConstraint::Min(1), LayoutConstraint::Length(1)];
    if show_help {
        constraints.push(LayoutConstraint::Length(1));
    }
    constraints.push(LayoutConstraint::Length(input_height));
    constraints
}

/// Calculate cursor position within the input area: the column and row of
/// the cursor when the input wraps at the available width, each cut to 16
/// bits as the terminal takes them.
pub fn calculate_cursor_position(cursor_pos: usize, available_width: usize) -> (r: (u16, u16))
    requires
        available_width > 0,
        #[verifier::truncate] (available_width as u16) != 0,
    ensures
        r.0 == (#[verifier::truncate] (cursor_pos as u16)) % (#[verifier::truncate] (
        available_width as u16)),
        r.1 == #[verifier::truncate] ((cursor_pos / available_width) as u16),
{
    let cursor_x = (#[verifier::truncate] (cursor_pos as u16)) % (#[verifier::truncate] (
    available_width as u16));
    let cursor_y = #[verifier::truncate] ((cursor_pos / available_width) as u16);
    (cursor_x, cursor_y)
}

/// `n` levels of indentation, two spaces each.
pub open spec fn spaces(n: nat) -> Seq<char> {
    Seq::new(2 * n, |i: int| ' ')
}

/// The width taken before a task's content: its indentation, its index and
/// the separator after it, in bytes.
pub open spec fn prefix_width(path: Seq<usize>) -> int {
    2 * (path.len() - 1) + encode_utf8(join_path(path)).len() + 2
}

/// The width left for a task's content on a line of `width` bytes, after
/// its prefix, its check mark and its fold indicator.
pub open spec fn content_width(path: Seq<usize>, task: Task, width: nat) -> int {
    let used = prefix_width(path) + (if task.status == TaskStatus::Done {
        2int
    } else {
        0int
    }) + (if task.child_ids@.len() > 0 {
        2int
    } else {
        0int
    });
    if width >= used {
        width - used
    } else {
        0
    }
}

/// The content shown for a task: cut to `cw` bytes less three, followed by
/// an ellipsis, when it is longer than `cw` bytes.
pub open spec fn shown_content(content: Seq<char>, cw: int) -> Seq<char> {
    let bytes = encode_utf8(content);
    if bytes.len() > cw {
        decode_utf8(bytes.take(if cw >= 3 { cw - 3 } else { 0 })) + "..."@
    } else {
        content
    }
}

/// A task can be formatted on a line of `width` bytes: it has an index, the
/// widths fit in a `usize`, and a content that must be cut is cut between
/// two characters.
pub open spec fn fits_line(path: Seq<usize>, task: Task, width: nat) -> bool {
    let cw = content_width(path, task, width);
    &&& path.len() >= 1
    &&& prefix_width(path) + 4 <= usize::MAX
    &&& encode_utf8(task.content@).len() > cw ==> is_char_boundary(
        encode_utf8(task.content@),
        if cw >= 3 {
            cw - 3
        } else {
            0
        },
    )
}

/// The pieces of a task's line: its indented index, a separator (a period
/// after a top-level index), a check mark when it is done, a fold indicator
/// when it has children, and its content; all reversed when focused.
pub open spec fn task_line(path: Seq<usize>, task: Task, folded: Set<u32>, width: nat, focused: bool) -> Seq<(Seq<char>, SpanStyle)> {
    let depth = (path.len() - 1) as nat;
    let base = if focused {
        SpanStyle::Reversed
    } else {
        SpanStyle::Plain
    };
    let status = if task.status == TaskStatus::Done {
        seq![(
            "\u{2713} "@,
            if focused {
                SpanStyle::ReversedAccent
            } else {
                SpanStyle::Accent
            },
        )]
    } else {
        Seq::empty()
    };
    let indicator = if task.child_ids@.len() > 0 {
        seq![(
            if is_expanded(folded, task.id) {
                "\u{25bc} "@
            } else {
                "\u{25b6} "@
            },
            base,
        )]
    } else {
        Seq::empty()
    };
    seq![(spaces(depth) + join_path(path), base), (if depth == 0 {
        ". "@
    } else {
        " "@
    }, base)] + status + indicator + seq![
        (shown_content(task.content@, content_width(path, task, width)), base),
    ]
}

/// A task with children shows its fold state after its index (and its check
/// mark, when done): a down-pointing triangle when it is expanded, a
/// right-pointing one when it is folded, so the two never look alike; a
/// task without children shows neither.
pub proof fn lemma_fold_indicator(path: Seq<usize>, task: Task, folded: Set<u32>, width: nat, focused: bool)
    ensures
        ({
            let line = task_line(path, task, folded, width, focused);
            let k = if task.status == TaskStatus::Done {
                3int
            } else {
                2int
            };
            &&& task.child_ids@.len() > 0 ==> line.len() == k + 2
            &&& task.child_ids@.len() > 0 && !folded.contains(task.id) ==> line[k].0 == seq!['\u{25bc}', ' ']
            &&& task.child_ids@.len() > 0 && folded.contains(task.id) ==> line[k].0 == seq!['\u{25b6}', ' ']
            &&& task.child_ids@.len() == 0 ==> line.len() == k + 1
        }),
{
    reveal_strlit("\u{25bc} ");
    reveal_strlit("\u{25b6} ");
}

/// The text and style of each piece.
pub open spec fn span_views(spans: Seq<StyledSpan>) -> Seq<(Seq<char>, SpanStyle)> {
    spans.map_values(|sp: StyledSpan| (sp.text@, sp.style))
}

/// A span of text in a style.
fn span(text: String, style: SpanStyle) -> (sp: StyledSpan)
    ensures
        sp.text@ == text@,
        sp.style == style,
{
    StyledSpan { text, style }
}

/// `n` levels of indentation.
fn indentation(n: usize) -> (s: String)
    requires
        2 * n <= usize::MAX,
    ensures
        s@ == spaces(n as nat),
{
    let mut s = String::new();
    let mut i: usize = 0;
    while i < n
        invariant
            i <= n,
            s@ == spaces(i as nat),
        decreases n - i,
    {
        s.push_str("  ");
        proof {
            reveal_strlit("  ");
            assert(s@ =~= spaces((i + 1) as nat));
        }
        i = i + 1;
    }
    s
}

/// Format a single task line with index and truncation if needed
pub fn format_task_line(
    task_index: &TaskIndex,
    task: &Task,
    display_state: &DisplayContainerState,
    available_width: usize,
    is_focused: bool,
) -> (line: Vec<StyledSpan>)
    requires
        fits_line(task_index@, *task, available_width as nat),
    ensures
        span_views(line@) == task_line(
            task_index@,
            *task,
            display_state@.folded,
            available_width as nat,
            is_focused,
        ),
{
    let mut spans: Vec<StyledSpan> = Vec::new();
    let depth = task_index.path().len() - 1;
    let indent = indentation(depth);
    let index_text = task_index.to_string();
    let base = if is_focused {
        SpanStyle::Reversed
    } else {
        SpanStyle::Plain
    };
    spans.push(span(concat(indent.as_str(), index_text.as_str()), base));
    // Only add period after index for top-level tasks
    if depth == 0 {
        spans.push(span(owned(". "), base));
    } else {
        spans.push(span(owned(" "), base));
    }
    let done = task.status == TaskStatus::Done;
    if done {
        let style = if is_focused {
            SpanStyle::ReversedAccent
        } else {
            SpanStyle::Accent
        };
        spans.push(span(owned("\u{2713} "), style));
    }
    let has_children = task.child_ids.len() > 0;
    if has_children {
        let indicator = if display_state.is_task_expanded(task.id) {
            "\u{25bc} "
        } else {
            "\u{25b6} "
        };
        spans.push(span(owned(indicator), base));
    }
    // Calculate remaining width for task content
    let prefix = depth * 2 + index_text.as_str().as_bytes().len() + 2;
    let status_width: usize = if done {
        2
    } else {
        0
    };
    let indicator_width: usize = if has_children {
        2
    } else {
        0
    };
    let cw = available_width.saturating_sub(prefix + status_width + indicator_width);
    let content = task.content.as_str();
    let content_bytes = content.as_bytes().len();
    let shown = if content_bytes > cw {
        let cut = cw.saturating_sub(3);
        let (head, _) = content.split_at(cut);
        proof {
            broadcast use vstd::utf8::group_utf8_lib;
            assert(decode_utf8(encode_utf8(head@)) == head@);
        }
        concat(head, "...")
    } else {
        owned(content)
    };
    let ghost before = spans@;
    spans.push(span(shown, base));
    proof {
        assert(cw as int == content_width(task_index@, *task, available_width as nat));
        assert(shown@ == shown_content(task.content@, cw as int));
        assert(span_views(spans@) =~= span_views(before).push((shown@, base)));
        assert(span_views(spans@) =~= task_line(
            task_index@,
            *task,
            display_state@.folded,
            available_width as nat,
            is_focused,
        ));
    }
    spans
}

/// The entry line at the top of the list, where new tasks and commands are
/// typed.
pub open spec fn entry_line(focused: bool) -> Seq<(Seq<char>, SpanStyle)> {
    seq![
        (
            "<Create new task or enter commands>"@,
            if focused {
                SpanStyle::Highlighted
            } else {
                SpanStyle::Accent
            },
        ),
    ]
}

/// Every listed task can be formatted on a line of `width` bytes.
pub open spec fn all_fit(tasks: Seq<Task>, rows: Seq<TaskRow>, width: nat) -> bool {
    forall|k: int| 0 <= k < rows.len() ==> fits_line(#[trigger] rows[k].path, tasks[rows[k].pos], width)
}

/// Create task lines for display, including subtasks: the entry line, then
/// one line per listed task, the focused entry reversed.
pub fn create_task_lines(
    tasks: &[Task],
    display_state: &DisplayContainerState,
    available_width: usize,
    focused_index: Option<usize>,
) -> (lines: Vec<Vec<StyledSpan>>)
    requires
        all_fit(
            tasks@,
            listed_rows(tasks@, display_state@.folded, display_state@.active_container),
            available_width as nat,
        ),
    ensures
        ({
            let rows = listed_rows(tasks@, display_state@.folded, display_state@.active_container);
            &&& lines@.len() == rows.len() + 1
            &&& span_views(lines@[0]@) == entry_line(focused_index == Some(0usize))
            &&& forall|k: int|
                0 <= k < rows.len() ==> span_views(#[trigger] lines@[k + 1]@) == task_line(
                    rows[k].path,
                    tasks@[rows[k].pos],
                    display_state@.folded,
                    available_width as nat,
                    focused_index == Some((k + 1) as usize),
                )
        }),
{
    let ghost all = listed_rows(tasks@, display_state@.folded, display_state@.active_container);
    let rows = collect_rows(tasks, display_state);
    let mut lines: Vec<Vec<StyledSpan>> = Vec::new();
    let style = if focused_index == Some(0usize) {
        SpanStyle::Highlighted
    } else {
        SpanStyle::Accent
    };
    let mut first: Vec<StyledSpan> = Vec::new();
    first.push(span(owned("<Create new task or enter commands>"), style));
    proof {
        assert(span_views(first@) =~= entry_line(focused_index == Some(0usize)));
    }
    lines.push(first);
    let mut k: usize = 0;
    while k < rows.len()
        invariant
            row_views(rows@) == all,
            all == listed_rows(tasks@, display_state@.folded, display_state@.active_container),
            crate::listing::rows_in_range(rows@, tasks@.len()),
            all_fit(tasks@, all, available_width as nat),
            k <= rows@.len(),
            lines@.len() == k + 1,
            span_views(lines@[0]@) == entry_line(focused_index == Some(0usize)),
            forall|i: int|
                0 <= i < k ==> span_views(#[trigger] lines@[i + 1]@) == task_line(
                    all[i].path,
                    tasks@[all[i].pos],
                    display_state@.folded,
                    available_width as nat,
                    focused_index == Some((i + 1) as usize),
                ),
        decreases rows@.len() - k,
    {
        let p = rows[k].0;
        proof {
            assert(all[k as int] == TaskRow { path: rows@[k as int].1@, pos: p as int });
            assert(fits_line(all[k as int].path, tasks@[all[k as int].pos], available_width as nat));
        }
        let line = format_task_line(
            &rows[k].1,
            &tasks[p],
            display_state,
            available_width,
            focused_index == Some(k + 1),
        );
        lines.push(line);
        k = k + 1;
    }
    lines
}

/// The help line: how to leave the program, its keys in bold.
pub open spec fn help_spans() -> Seq<(Seq<char>, SpanStyle)> {
    seq![
        ("Press "@, SpanStyle::Accent),
        ("esc"@, SpanStyle::AccentBold),
        (" or "@, SpanStyle::Accent),
        ("ctrl-c"@, SpanStyle::AccentBold),
        (" to exit cyberorganism"@, SpanStyle::Accent),
    ]
}

/// Create the help line
pub fn create_help_line() -> (spans: Vec<StyledSpan>)
    ensures
        span_views(spans@) == help_spans(),
{
    let mut spans: Vec<StyledSpan> = Vec::new();
    spans.push(span(owned("Press "), SpanStyle::Accent));
    spans.push(span(owned("esc"), SpanStyle::AccentBold));
    spans.push(span(owned(" or "), SpanStyle::Accent));
    spans.push(span(owned("ctrl-c"), SpanStyle::AccentBold));
    spans.push(span(owned(" to exit cyberorganism"), SpanStyle::Accent));
    proof {
        assert(span_views(spans@) =~= help_spans());
    }
    spans
}

/// Whether a task can be formatted on a line of `available_width` bytes.
pub fn line_fits(task_index: &TaskIndex, task: &Task, available_width: usize) -> (b: bool)
    ensures
        b == fits_line(task_index@, *task, available_width as nat),
{
    let plen = task_index.path().len();
    if plen == 0 {
        return false;
    }
    let index_bytes = task_index.to_string().as_str().as_bytes().len();
    let prefix = match (plen - 1).checked_mul(2) {
        Some(indent) => match indent.checked_add(index_bytes) {
            Some(w) => w.checked_add(2),
            None => None,
        },
        None => None,
    };
    let prefix = match prefix {
        Some(w) => w,
        None => return false,
    };
    if prefix > usize::MAX - 4 {
        return false;
    }
    let status_width: usize = if task.status == TaskStatus::Done {
        2
    } else {
        0
    };
    let indicator_width: usize = if task.child_ids.len() > 0 {
        2
    } else {
        0
    };
    let cw = available_width.saturating_sub(prefix + status_width + indicator_width);
    let content = task.content.as_str();
    if content.as_bytes().len() > cw {
        content.is_char_boundary(cw.saturating_sub(3))
    } else {
        true
    }
}

/// Whether every task of the display's listing can be formatted on a line
/// of `available_width` bytes, as `create_task_lines` needs.
pub fn task_lines_fit(tasks: &[Task], display_state: &DisplayContainerState, available_width: usize) -> (b: bool)
    ensures
        b == all_fit(
            tasks@,
            listed_rows(tasks@, display_state@.folded, display_state@.active_container),
            available_width as nat,
        ),
{
    let ghost all = listed_rows(tasks@, display_state@.folded, display_state@.active_container);
    let rows = collect_rows(tasks, display_state);
    let mut k: usize = 0;
    while k < rows.len()
        invariant
            all == listed_rows(tasks@, display_state@.folded, display_state@.active_container),
            row_views(rows@) == all,
            crate::listing::rows_in_range(rows@, tasks@.len()),
            k <= rows@.len(),
            forall|i: int|
                0 <= i < k ==> fits_line(#[trigger] all[i].path, tasks@[all[i].pos], available_width as nat),
        decreases rows@.len() - k,
    {
        let p = rows[k].0;
        proof {
            assert(all[k as int] == TaskRow { path: rows@[k as int].1@, pos: p as int });
        }
        if !line_fits(&rows[k].1, &tasks[p], available_width) {
            assert(all.len() == rows@.len());
            assert(!fits_line(all[k as int].path, tasks@[all[k as int].pos], available_width as nat));
            return false;
        }
        k = k + 1;
    }
    true
}

/// The width a task's line uses besides its content: its prefix, its check
/// mark and its fold indicator, as the layout counts them.
pub open spec fn used_width(path: Seq<usize>, task: Task) -> int {
    prefix_width(path) + (if task.status == TaskStatus::Done {
        2int
    } else {
        0int
    }) + (if task.child_ids@.len() > 0 {
        2int
    } else {
        0int
    })
}

/// The encoding of two strings one after the other is their encodings one
/// after the other.
proof fn lemma_encode_concat(a: Seq<char>, b: Seq<char>)
    ensures
        encode_utf8(a + b) == encode_utf8(a) + encode_utf8(b),
    decreases a.len(),
{
    if a.len() > 0 {
        lemma_encode_concat(a.drop_first(), b);
        assert((a + b).drop_first() =~= a.drop_first() + b);
        assert((a + b)[0] == a[0]);
        assert(encode_utf8(a + b) =~= encode_utf8(a) + encode_utf8(b));
    } else {
        assert(a + b =~= b);
    }
}

/// A task's line stays within the available width: when the width leaves
/// room for at least an ellipsis after the prefix and marks, the content
/// shown (cut or not) fits in what is left.
pub proof fn lemma_line_within_width(path: Seq<usize>, task: Task, width: nat)
    requires
        fits_line(path, task, width),
        width >= used_width(path, task) + 3,
    ensures
        used_width(path, task) + encode_utf8(
            shown_content(task.content@, content_width(path, task, width)),
        ).len() <= width,
{
    broadcast use vstd::utf8::group_utf8_lib;

    let cw = content_width(path, task, width);
    let bytes = encode_utf8(task.content@);
    assert(cw == width - used_width(path, task));
    if bytes.len() > cw {
        let cut = cw - 3;
        let head = decode_utf8(bytes.take(cut));
        assert(vstd::utf8::valid_utf8(bytes));
        assert(is_char_boundary(bytes, cut));
        vstd::utf8::valid_utf8_split(bytes, cut);
        assert(bytes.take(cut) =~= bytes.subrange(0, cut));
        assert(encode_utf8(head) == bytes.take(cut));
        reveal_strlit("...");
        assert(vstd::utf8::is_ascii_chars("..."@));
        vstd::utf8::is_ascii_chars_encode_utf8("..."@);
        lemma_encode_concat(head, "..."@);
        assert(encode_utf8(shown_content(task.content@, cw)).len() == cut + 3);
    }
}

} // verus!
