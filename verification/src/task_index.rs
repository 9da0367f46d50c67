//! Hierarchical task indices such as "1.2.3" as shown in the outliner.

use vstd::prelude::*;
use crate::text::{chars_of, parse_usize, parse_usize_chars, usize_to_string, decimal, owned,
    all_digits, is_digit, decimal_value, lemma_decimal_digits};

verus! {

/// The text without its trailing dots.
pub open spec fn trim_end_dots(s: Seq<char>) -> Seq<char>
    decreases s.len(),
{
    if s.len() > 0 && s.last() == '.' {
        trim_end_dots(s.drop_last())
    } else {
        s
    }
}

/// The pieces of `s` between dots, as `str::split('.')` yields them.
pub open spec fn split_dots(s: Seq<char>) -> Seq<Seq<char>>
    decreases s.len(),
{
    if s.len() == 0 {
        seq![Seq::<char>::empty()]
    } else {
        let prev = split_dots(s.drop_last());
        if s.last() == '.' {
            prev.push(Seq::<char>::empty())
        } else {
            prev.update(prev.len() - 1, prev.last().push(s.last()))
        }
    }
}

/// The numbers of the pieces, when every piece parses as a `usize`.
pub open spec fn parse_pieces(pieces: Seq<Seq<char>>) -> Option<Seq<usize>> {
    if forall|k: int| 0 <= k < pieces.len() ==> #[trigger] parse_usize(pieces[k]) is Some {
        Some(Seq::new(pieces.len(), |k: int| parse_usize(pieces[k])->0))
    } else {
        None
    }
}

/// What `TaskIndex::from_str` gives for a text: the path of positive
/// numbers, or the message of the error.
pub open spec fn parse_task_index(s: Seq<char>) -> Result<Seq<usize>, Seq<char>> {
    match parse_pieces(split_dots(trim_end_dots(s))) {
        None => Err("Invalid task index format"@),
        Some(path) => if path.len() == 0 {
            Err("Empty task index"@)
        } else if exists|k: int| 0 <= k < path.len() && path[k] == 0 {
            Err("Task indices must be positive"@)
        } else {
            Ok(path)
        },
    }
}

/// The path written with dots between the numbers, e.g. "1.2.3".
pub open spec fn join_path(path: Seq<usize>) -> Seq<char>
    decreases path.len(),
{
    if path.len() == 0 {
        Seq::empty()
    } else if path.len() == 1 {
        decimal(path[0] as nat)
    } else {
        join_path(path.drop_last()) + seq!['.'] + decimal(path.last() as nat)
    }
}

/// Represents a hierarchical task index like "1.2.3"
#[derive(Debug)]
pub struct TaskIndex {
    /// Path to the task, e.g. [1, 2, 3] for "1.2.3"
    path: Vec<usize>,
}

impl View for TaskIndex {
    type V = Seq<usize>;

    closed spec fn view(&self) -> Seq<usize> {
        self.path@
    }
}

impl Clone for TaskIndex {
    fn clone(&self) -> (r: Self)
        ensures
            r@ == self@,
    {
        TaskIndex { path: self.path.clone() }
    }
}

/// `split_dots` always yields at least one piece.
proof fn lemma_split_dots_nonempty(s: Seq<char>)
    ensures
        split_dots(s).len() >= 1,
    decreases s.len(),
{
    if s.len() > 0 {
        lemma_split_dots_nonempty(s.drop_last());
    }
}

/// Dropping trailing dots one at a time reaches `trim_end_dots`.
proof fn lemma_trim_end_dots_step(s: Seq<char>, k: int)
    requires
        0 < k <= s.len(),
        s[k - 1] == '.',
    ensures
        trim_end_dots(s.take(k)) == trim_end_dots(s.take(k - 1)),
{
    assert(s.take(k).drop_last() =~= s.take(k - 1));
}


/// Appending text without dots extends the last piece.
proof fn lemma_split_dots_append_plain(x: Seq<char>, y: Seq<char>)
    requires
        forall|i: int| 0 <= i < y.len() ==> y[i] != '.',
    ensures
        split_dots(x + y) == split_dots(x).update(
            split_dots(x).len() - 1,
            split_dots(x).last() + y,
        ),
    decreases y.len(),
{
    lemma_split_dots_nonempty(x);
    if y.len() == 0 {
        assert(x + y =~= x);
        assert(split_dots(x).last() + y =~= split_dots(x).last());
        assert(split_dots(x).update(split_dots(x).len() - 1, split_dots(x).last()) =~= split_dots(x));
    } else {
        let y0 = y.drop_last();
        lemma_split_dots_append_plain(x, y0);
        assert((x + y).drop_last() =~= x + y0);
        assert((x + y).last() == y.last());
        assert(y.last() == y[y.len() - 1]);
        assert(y.last() != '.');
        let big_s = split_dots(x);
        let prev = split_dots(x + y0);
        assert(prev.len() == big_s.len());
        assert(prev.last() == big_s.last() + y0);
        assert(split_dots(x + y) == prev.update(prev.len() - 1, prev.last().push(y.last())));
        assert((big_s.last() + y0).push(y.last()) =~= big_s.last() + y);
        assert(split_dots(x + y) =~= split_dots(x).update(
            split_dots(x).len() - 1,
            split_dots(x).last() + y,
        ));
    }
}

/// The pieces of a joined path are the decimal forms of its numbers.
proof fn lemma_split_join(path: Seq<usize>)
    requires
        path.len() > 0,
    ensures
        split_dots(join_path(path)) == Seq::new(path.len(), |k: int| decimal(path[k] as nat)),
    decreases path.len(),
{
    let d = decimal(path.last() as nat);
    lemma_decimal_digits(path.last() as nat);
    assert forall|i: int| 0 <= i < d.len() implies d[i] != '.' by {
        assert(is_digit(d[i]));
    }
    if path.len() == 1 {
        lemma_split_dots_append_plain(Seq::<char>::empty(), d);
        assert(Seq::<char>::empty() + d =~= d);
        assert(split_dots(Seq::<char>::empty()) == seq![Seq::<char>::empty()]);
        assert(Seq::<char>::empty() + d =~= d);
        assert(split_dots(join_path(path)) =~= Seq::new(path.len(), |k: int| decimal(path[k] as nat)));
    } else {
        let front = path.drop_last();
        lemma_split_join(front);
        let j = join_path(front) + seq!['.'];
        assert(j.drop_last() =~= join_path(front));
        lemma_split_dots_nonempty(join_path(front));
        lemma_split_dots_append_plain(j, d);
        assert(join_path(path) == j + d);
        assert(split_dots(j) == split_dots(join_path(front)).push(Seq::<char>::empty()));
        assert(Seq::<char>::empty() + d =~= d);
        assert(split_dots(join_path(path)) =~= Seq::new(path.len(), |k: int| decimal(path[k] as nat)));
    }
}

/// A joined nonempty path ends with a digit.
proof fn lemma_join_ends_with_digit(path: Seq<usize>)
    requires
        path.len() > 0,
    ensures
        join_path(path).len() > 0,
        is_digit(join_path(path).last()),
{
    let d = decimal(path.last() as nat);
    lemma_decimal_digits(path.last() as nat);
    assert(is_digit(d[d.len() - 1]));
    if path.len() == 1 {
    } else {
        assert((join_path(path.drop_last()) + seq!['.'] + d).last() == d.last());
    }
}

/// Writing a task index and reading it back gives the same path: for every
/// nonempty path of positive numbers, `TaskIndex::from_str` of the text that
/// `TaskIndex::to_string` makes is that path.
pub proof fn lemma_task_index_round_trip(path: Seq<usize>)
    requires
        path.len() > 0,
        forall|k: int| 0 <= k < path.len() ==> path[k] > 0,
    ensures
        parse_task_index(join_path(path)) == Ok::<Seq<usize>, Seq<char>>(path),
{
    let j = join_path(path);
    lemma_join_ends_with_digit(path);
    assert(trim_end_dots(j) == j);
    lemma_split_join(path);
    let pieces = split_dots(j);
    assert forall|k: int| 0 <= k < pieces.len() implies #[trigger] parse_usize(pieces[k]) == Some(
        path[k],
    ) by {
        lemma_decimal_digits(path[k] as nat);
        assert(pieces[k] == decimal(path[k] as nat));
    }
    assert(Seq::new(pieces.len(), |k: int| parse_usize(pieces[k])->0) =~= path);
}

impl TaskIndex {
    /// The index with the given path.
    pub fn from_path(path: Vec<usize>) -> (r: Self)
        ensures
            r@ == path@,
    {
        TaskIndex { path }
    }

    /// Create a new TaskIndex from a string like "1.2.3"
    pub fn from_str(s: &str) -> (r: Result<Self, String>)
        ensures
            match parse_task_index(s@) {
                Ok(path) => r matches Ok(ix) && ix@ == path,
                Err(msg) => r matches Err(e) && e@ == msg,
            },
    {
        let v = chars_of(s);
        let mut end = v.len();
        assert(v@.take(v@.len() as int) =~= v@);
        while end > 0 && v[end - 1] == '.'
            invariant
                end <= v@.len(),
                v@ == s@,
                trim_end_dots(s@) == trim_end_dots(v@.take(end as int)),
            decreases end,
        {
            proof {
                lemma_trim_end_dots_step(v@, end as int);
            }
            end = end - 1;
        }
        let ghost t = v@.take(end as int);
        proof {
            if end > 0 {
                assert(t.last() != '.');
            }
            assert(trim_end_dots(t) == t);
            assert(trim_end_dots(s@) == t);
        }
        // Parse every piece, remembering failures.
        let mut parsed: Vec<Option<usize>> = Vec::new();
        let mut start: usize = 0;
        let mut i: usize = 0;
        while i < end
            invariant
                end <= v@.len(),
                t == v@.take(end as int),
                start <= i <= end,
                split_dots(t.take(i as int)).len() == parsed@.len() + 1,
                split_dots(t.take(i as int)).last() == v@.subrange(start as int, i as int),
                forall|k: int|
                    0 <= k < parsed@.len() ==> parsed@[k] == parse_usize(
                        #[trigger] split_dots(t.take(i as int))[k],
                    ),
            decreases end - i,
        {
            let ghost prev = split_dots(t.take(i as int));
            proof {
                assert(t.take(i + 1).drop_last() =~= t.take(i as int));
                assert(t.take(i + 1).last() == v@[i as int]);
            }
            if v[i] == '.' {
                let piece = parse_usize_chars(&v, start, i);
                parsed.push(piece);
                start = i + 1;
                proof {
                    let next = split_dots(t.take(i + 1));
                    assert(next == prev.push(Seq::<char>::empty()));
                    assert(v@.subrange(start as int, i + 1) =~= Seq::<char>::empty());
                    assert forall|k: int| 0 <= k < parsed@.len() implies parsed@[k] == parse_usize(
                        #[trigger] split_dots(t.take(i + 1))[k],
                    ) by {
                        if k < parsed@.len() - 1 {
                            assert(next[k] == prev[k]);
                        }
                    }
                }
            } else {
                proof {
                    let next = split_dots(t.take(i + 1));
                    assert(next == prev.update(prev.len() - 1, prev.last().push(v@[i as int])));
                    assert(v@.subrange(start as int, i + 1) =~= v@.subrange(
                        start as int,
                        i as int,
                    ).push(v@[i as int]));
                    assert forall|k: int| 0 <= k < parsed@.len() implies parsed@[k] == parse_usize(
                        #[trigger] split_dots(t.take(i + 1))[k],
                    ) by {
                        assert(next[k] == prev[k]);
                    }
                }
            }
            i = i + 1;
        }
        let last_piece = parse_usize_chars(&v, start, end);
        parsed.push(last_piece);
        let ghost pieces = split_dots(t);
        proof {
            assert(t.take(end as int) =~= t);
            assert forall|k: int| 0 <= k < pieces.len() implies parsed@[k] == parse_usize(
                #[trigger] pieces[k],
            ) by {}
        }
        // Collect the numbers, failing on the first piece that did not parse.
        let mut path: Vec<usize> = Vec::new();
        let mut k: usize = 0;
        while k < parsed.len()
            invariant
                k <= parsed@.len(),
                pieces == split_dots(trim_end_dots(s@)),
                parsed@.len() == pieces.len(),
                forall|j: int| 0 <= j < pieces.len() ==> parsed@[j] == parse_usize(#[trigger] pieces[j]),
                path@.len() == k,
                forall|j: int| 0 <= j < k ==> parse_usize(#[trigger] pieces[j]) == Some(path@[j]),
            decreases parsed.len() - k,
        {
            match parsed[k] {
                Some(n) => {
                    path.push(n);
                },
                None => {
                    proof {
                        assert(parse_usize(pieces[k as int]) is None);
                        assert(parse_pieces(pieces) is None);
                    }
                    let msg = "Invalid task index format";
                    proof {
                        reveal_strlit("Invalid task index format");
                    }
                    return Err(owned(msg));
                },
            }
            k = k + 1;
        }
        proof {
            assert(path@ =~= Seq::new(pieces.len(), |q: int| parse_usize(pieces[q])->0));
            assert(parse_pieces(pieces) == Some(path@));
        }
        if path.len() == 0 {
            proof {
                reveal_strlit("Empty task index");
            }
            return Err(owned("Empty task index"));
        }
        let mut j: usize = 0;
        while j < path.len()
            invariant
                j <= path@.len(),
                path@.len() > 0,
                parse_pieces(split_dots(trim_end_dots(s@))) == Some(path@),
                forall|q: int| 0 <= q < j ==> path@[q] != 0,
            decreases path.len() - j,
        {
            if path[j] == 0 {
                proof {
                    assert(path@[j as int] == 0);
                    reveal_strlit("Task indices must be positive");
                }
                return Err(owned("Task indices must be positive"));
            }
            j = j + 1;
        }
        Ok(TaskIndex { path })
    }

    /// Convert to string representation
    pub fn to_string(&self) -> (s: String)
        ensures
            s@ == join_path(self@),
    {
        let mut s = String::new();
        let mut i: usize = 0;
        while i < self.path.len()
            invariant
                i <= self.path@.len(),
                s@ == join_path(self.path@.take(i as int)),
            decreases self.path.len() - i,
        {
            let piece = usize_to_string(self.path[i]);
            proof {
                assert(self.path@.take(i + 1).drop_last() =~= self.path@.take(i as int));
            }
            if i > 0 {
                s.push('.');
            }
            s.push_str(piece.as_str());
            proof {
                if i == 0 {
                    assert(s@ =~= decimal(self.path@[0] as nat));
                } else {
                    assert(s@ =~= join_path(self.path@.take(i as int)) + seq!['.'] + decimal(
                        self.path@[i as int] as nat,
                    ));
                }
            }
            i = i + 1;
        }
        proof {
            assert(self.path@.take(self.path@.len() as int) =~= self.path@);
        }
        s
    }

    /// The numbers of the path.
    pub fn path(&self) -> (p: &[usize])
        ensures
            p@ == self@,
    {
        self.path.as_slice()
    }
}

} // verus!
