//! Slash-separated install paths, read component by component.
//!
//! Two spellings name the same path when they have the same components:
//! repeated separators, a trailing separator and `.` pieces past the start
//! make no difference, while `..` is kept as it is written.

use vstd::prelude::*;
use crate::text::chars_of;

verus! {

/// The first index at or after `from` that holds a separator, or the length
/// of `p` when there is none.
pub open spec fn piece_end(p: Seq<char>, from: int) -> int
    decreases p.len() - from,
{
    if from < 0 || from >= p.len() {
        p.len() as int
    } else if p[from] == '/' {
        from
    } else {
        piece_end(p, from + 1)
    }
}

/// A piece between separators counts as a component unless it is empty or `.`.
pub open spec fn is_name(piece: Seq<char>) -> bool {
    piece.len() > 0 && !(piece.len() == 1 && piece[0] == '.')
}

/// The components of `p` that start at or after `from`, as half-open index
/// ranges into `p`; `from` is the start of a piece.
pub open spec fn spans_from(p: Seq<char>, from: int) -> Seq<(int, int)>
    decreases p.len() - from,
    via spans_from_terminates
{
    if from < 0 || from >= p.len() {
        Seq::empty()
    } else {
        let end = piece_end(p, from);
        let rest = if end < p.len() {
            spans_from(p, end + 1)
        } else {
            Seq::empty()
        };
        if is_name(p.subrange(from, end)) {
            seq![(from, end)] + rest
        } else {
            rest
        }
    }
}

#[via_fn]
proof fn spans_from_terminates(p: Seq<char>, from: int) {
    if 0 <= from < p.len() {
        lemma_piece_end(p, from);
    }
}

/// The components of `p` as index ranges.
pub open spec fn spans(p: Seq<char>) -> Seq<(int, int)> {
    spans_from(p, 0)
}

/// The components of `p` as text.
pub open spec fn names(p: Seq<char>) -> Seq<Seq<char>> {
    Seq::new(spans(p).len(), |i: int| p.subrange(spans(p)[i].0, spans(p)[i].1))
}

/// `p` starts at the root.
pub open spec fn is_rooted(p: Seq<char>) -> bool {
    p.len() > 0 && p[0] == '/'
}

/// `p` is relative and its first piece is `.`.
pub open spec fn is_dotted(p: Seq<char>) -> bool {
    p.len() > 0 && p[0] == '.' && (p.len() == 1 || p[1] == '/')
}

/// What identifies a path: how it starts and which components follow.
pub struct PathKey {
    pub rooted: bool,
    pub dotted: bool,
    pub names: Seq<Seq<char>>,
}

/// The identity of the path spelled `p`.
pub open spec fn path_key(p: Seq<char>) -> PathKey {
    PathKey { rooted: is_rooted(p), dotted: is_dotted(p), names: names(p) }
}

/// `a` and `b` spell the same path.
pub open spec fn same_path(a: Seq<char>, b: Seq<char>) -> bool {
    path_key(a) == path_key(b)
}

/// `base` extended by `rel`: an absolute `rel` replaces `base`, otherwise one
/// separator is put between them unless `base` is empty or already ends in one.
pub open spec fn joined(base: Seq<char>, rel: Seq<char>) -> Seq<char> {
    if is_rooted(rel) {
        rel
    } else if base.len() == 0 || base.last() == '/' {
        base + rel
    } else {
        base + seq!['/'] + rel
    }
}

/// Length of the spelling of the directory that holds the last component of
/// `p`; zero when `p` has no component or nothing comes before its only one.
pub open spec fn parent_len(p: Seq<char>) -> int {
    let s = spans(p);
    if s.len() == 0 {
        0
    } else if s.len() >= 2 {
        s[s.len() - 2].1
    } else if is_rooted(p) || is_dotted(p) {
        1
    } else {
        0
    }
}

/// The directory that holds the last component of `p`, when it has a name of
/// its own.
pub open spec fn containing_dir(p: Seq<char>) -> Option<Seq<char>> {
    if parent_len(p) > 0 {
        Some(p.take(parent_len(p)))
    } else {
        None
    }
}

/// The last component of `p`, unless `p` has none or ends in `..`.
pub open spec fn base_name(p: Seq<char>) -> Option<Seq<char>> {
    let n = names(p);
    if n.len() > 0 && n.last() != seq!['.', '.'] {
        Some(n.last())
    } else {
        None
    }
}

/// A declared source that ends in a separator stands for a directory tree.
pub open spec fn is_directory_source(source: Seq<char>) -> bool {
    source.len() > 0 && source.last() == '/'
}

/// Where a piece ends: within bounds, on a separator or at the end, with no
/// separator before it.
pub proof fn lemma_piece_end(p: Seq<char>, from: int)
    requires
        0 <= from <= p.len(),
    ensures
        from <= piece_end(p, from) <= p.len(),
        piece_end(p, from) < p.len() ==> p[piece_end(p, from)] == '/',
        forall|k: int| from <= k < piece_end(p, from) ==> p[k] != '/',
    decreases p.len() - from,
{
    if from < p.len() && p[from] != '/' {
        lemma_piece_end(p, from + 1);
    }
}

/// Every component lies within `p`, is not empty and holds no separator, and
/// the components follow one another from `from` on.
pub proof fn lemma_spans_from(p: Seq<char>, from: int)
    requires
        0 <= from <= p.len(),
    ensures
        forall|i: int|
            0 <= i < spans_from(p, from).len() ==> {
                let s = #[trigger] spans_from(p, from)[i];
                &&& from <= s.0 < s.1 <= p.len()
                &&& is_name(p.subrange(s.0, s.1))
                &&& forall|k: int| s.0 <= k < s.1 ==> p[k] != '/'
            },
        forall|i: int, j: int|
            0 <= i < j < spans_from(p, from).len() ==> spans_from(p, from)[i].1 < spans_from(
                p,
                from,
            )[j].0,
    decreases p.len() - from,
{
    if from < p.len() {
        let end = piece_end(p, from);
        lemma_piece_end(p, from);
        if end < p.len() {
            lemma_spans_from(p, end + 1);
        }
        let rest = if end < p.len() {
            spans_from(p, end + 1)
        } else {
            Seq::empty()
        };
        let all = spans_from(p, from);
        if is_name(p.subrange(from, end)) {
            assert(all == seq![(from, end)] + rest);
            assert forall|i: int| 0 <= i < all.len() implies {
                let s = #[trigger] all[i];
                &&& from <= s.0 < s.1 <= p.len()
                &&& is_name(p.subrange(s.0, s.1))
                &&& forall|k: int| s.0 <= k < s.1 ==> p[k] != '/'
            } by {
                if i > 0 {
                    assert(all[i] == rest[i - 1]);
                }
            }
            assert forall|i: int, j: int| 0 <= i < j < all.len() implies all[i].1 < all[j].0 by {
                assert(all[j] == rest[j - 1]);
                if i > 0 {
                    assert(all[i] == rest[i - 1]);
                }
            }
        } else {
            assert(all == rest);
        }
    }
}

/// Spelling the same path is an equivalence.
pub proof fn lemma_same_path_is_equivalence(a: Seq<char>, b: Seq<char>, c: Seq<char>)
    ensures
        same_path(a, a),
        same_path(a, b) ==> same_path(b, a),
        same_path(a, b) && same_path(b, c) ==> same_path(a, c),
{
}

/// A separator at the end of a spelling ends the last piece where the
/// spelling itself would have ended it.
pub proof fn lemma_piece_end_before_trailing_separator(p: Seq<char>, from: int)
    requires
        0 <= from <= p.len(),
    ensures
        piece_end(p.push('/'), from) == piece_end(p, from),
    decreases p.len() - from,
{
    let q = p.push('/');
    if from < p.len() {
        assert(q[from] == p[from]);
        if p[from] != '/' {
            lemma_piece_end_before_trailing_separator(p, from + 1);
        }
    } else {
        assert(q[from] == '/');
    }
}

/// A separator at the end of a spelling adds no component.
pub proof fn lemma_spans_before_trailing_separator(p: Seq<char>, from: int)
    requires
        0 <= from <= p.len(),
    ensures
        spans_from(p.push('/'), from) == spans_from(p, from),
    decreases p.len() - from,
{
    let q = p.push('/');
    if from < p.len() {
        lemma_piece_end(p, from);
        lemma_piece_end_before_trailing_separator(p, from);
        let end = piece_end(p, from);
        assert(q.subrange(from, end) =~= p.subrange(from, end));
        if end < p.len() {
            lemma_spans_before_trailing_separator(p, end + 1);
        } else {
            assert(spans_from(q, end + 1) =~= Seq::<(int, int)>::empty());
        }
    } else {
        assert(piece_end(q, from) == from);
        assert(q.subrange(from, from).len() == 0);
        assert(spans_from(q, from + 1) =~= Seq::<(int, int)>::empty());
    }
}

/// Extending a path by nothing names the path itself: a directory met as
/// the first entry of its own walk is the directory that was walked.
pub proof fn lemma_joined_with_nothing(base: Seq<char>)
    ensures
        same_path(joined(base, Seq::<char>::empty()), base),
{
    let nothing = Seq::<char>::empty();
    if base.len() == 0 || base.last() == '/' {
        assert(joined(base, nothing) =~= base);
    } else {
        let q = base.push('/');
        assert(joined(base, nothing) =~= q);
        lemma_spans_before_trailing_separator(base, 0);
        assert(q[0] == base[0]);
        if base.len() > 1 {
            assert(q[1] == base[1]);
        } else {
            assert(q[1] == '/');
        }
        assert(names(q) =~= names(base)) by {
            lemma_spans_from(base, 0);
            assert forall|i: int| 0 <= i < spans(base).len() implies q.subrange(
                spans(base)[i].0,
                spans(base)[i].1,
            ) == base.subrange(spans(base)[i].0, spans(base)[i].1) by {
                assert(q.subrange(spans(base)[i].0, spans(base)[i].1) =~= base.subrange(
                    spans(base)[i].0,
                    spans(base)[i].1,
                ));
            }
        }
    }
}

/// Index ranges held as machine integers, read as mathematical ones.
pub open spec fn widened(marks: Seq<(usize, usize)>) -> Seq<(int, int)> {
    Seq::new(marks.len(), |i: int| (marks[i].0 as int, marks[i].1 as int))
}

/// A path spelling together with the index ranges of its components.
pub struct PathParts {
    chars: Vec<char>,
    marks: Vec<(usize, usize)>,
}

impl PathParts {
    /// The spelling that was read.
    pub closed spec fn text(&self) -> Seq<char> {
        self.chars@
    }

    /// The recorded ranges are the components of the spelling.
    pub closed spec fn wf(&self) -> bool {
        widened(self.marks@) == spans(self.chars@)
    }

    /// Reads the components of `p`.
    pub fn read(p: &str) -> (r: PathParts)
        ensures
            r.wf(),
            r.text() == p@,
    {
        let chars = chars_of(p);
        let marks = component_marks(&chars);
        PathParts { chars, marks }
    }

    /// The number of components.
    pub fn count(&self) -> (r: usize)
        requires
            self.wf(),
        ensures
            r == names(self.text()).len(),
    {
        proof {
            assert(widened(self.marks@).len() == self.marks@.len());
        }
        self.marks.len()
    }

    /// Whether the spelling starts at the root.
    pub fn rooted(&self) -> (r: bool)
        ensures
            r == is_rooted(self.text()),
    {
        self.chars.len() > 0 && self.chars[0] == '/'
    }

    /// Whether the spelling is relative and starts with a `.` piece.
    pub fn dotted(&self) -> (r: bool)
        ensures
            r == is_dotted(self.text()),
    {
        self.chars.len() > 0 && self.chars[0] == '.' && (self.chars.len() == 1 || self.chars[1]
            == '/')
    }

    /// Whether both spellings name the same path.
    pub fn same(&self, other: &PathParts) -> (r: bool)
        requires
            self.wf(),
            other.wf(),
        ensures
            r == same_path(self.text(), other.text()),
    {
        if self.rooted() != other.rooted() || self.dotted() != other.dotted() {
            return false;
        }
        proof {
            assert(widened(self.marks@).len() == self.marks@.len());
            assert(widened(other.marks@).len() == other.marks@.len());
            lemma_spans_from(self.chars@, 0);
            lemma_spans_from(other.chars@, 0);
            assert(names(self.chars@).len() == self.marks@.len());
            assert(names(other.chars@).len() == other.marks@.len());
        }
        if self.marks.len() != other.marks.len() {
            return false;
        }
        let ghost a = self.chars@;
        let ghost b = other.chars@;
        let mut i: usize = 0;
        while i < self.marks.len()
            invariant
                i <= self.marks.len(),
                self.marks.len() == other.marks.len(),
                a == self.chars@,
                b == other.chars@,
                widened(self.marks@) == spans(a),
                widened(other.marks@) == spans(b),
                names(a).len() == self.marks.len(),
                names(b).len() == self.marks.len(),
                forall|j: int| 0 <= j < i ==> names(a)[j] == names(b)[j],
                forall|j: int|
                    0 <= j < spans(a).len() ==> 0 <= (#[trigger] spans(a)[j]).0 <= spans(a)[j].1
                        <= a.len(),
                forall|j: int|
                    0 <= j < spans(b).len() ==> 0 <= (#[trigger] spans(b)[j]).0 <= spans(b)[j].1
                        <= b.len(),
            decreases self.marks.len() - i,
        {
            let m = self.marks[i];
            let n = other.marks[i];
            proof {
                assert(widened(self.marks@)[i as int] == (m.0 as int, m.1 as int));
                assert(widened(other.marks@)[i as int] == (n.0 as int, n.1 as int));
                assert(spans(a)[i as int] == (m.0 as int, m.1 as int));
                assert(spans(b)[i as int] == (n.0 as int, n.1 as int));
            }
            if !ranges_equal(&self.chars, m.0, m.1, &other.chars, n.0, n.1) {
                assert(names(a)[i as int] != names(b)[i as int]);
                return false;
            }
            i += 1;
        }
        assert(names(a) =~= names(b));
        true
    }
}

/// Whether `a` and `b` spell the same path.
pub fn paths_equal(a: &str, b: &str) -> (r: bool)
    ensures
        r == same_path(a@, b@),
{
    let x = PathParts::read(a);
    let y = PathParts::read(b);
    x.same(&y)
}

/// Whether a declared source stands for a directory tree.
pub fn names_directory(source: &str) -> (r: bool)
    ensures
        r == is_directory_source(source@),
{
    let chars = chars_of(source);
    chars.len() > 0 && chars[chars.len() - 1] == '/'
}

/// Extends `base` by `rel`.
pub fn join(base: &str, rel: &str) -> (r: String)
    ensures
        r@ == joined(base@, rel@),
{
    let head = chars_of(base);
    let tail = chars_of(rel);
    if tail.len() > 0 && tail[0] == '/' {
        return rel.to_owned();
    }
    let mut out = base.to_owned();
    if head.len() > 0 && head[head.len() - 1] != '/' {
        proof {
            reveal_strlit("/");
            assert("/"@ =~= seq!['/']);
        }
        out.append("/");
    }
    out.append(rel);
    out
}

/// The directory that holds the last component of `p`, when it has a name of
/// its own.
pub fn parent_dir(p: &str) -> (r: Option<String>)
    ensures
        r.deep_view() == containing_dir(p@),
{
    let parts = PathParts::read(p);
    let n = parts.marks.len();
    proof {
        assert(widened(parts.marks@).len() == n);
        lemma_spans_from(p@, 0);
        if n >= 2 {
            assert(widened(parts.marks@)[n - 2] == spans(p@)[n - 2]);
        }
    }
    let len: usize = if n == 0 {
        0
    } else if n >= 2 {
        parts.marks[n - 2].1
    } else if parts.rooted() || parts.dotted() {
        1
    } else {
        0
    };
    if len > 0 {
        let dir = p.substring_char(0, len).to_owned();
        assert(dir@ =~= p@.take(len as int));
        Some(dir)
    } else {
        None
    }
}

/// The last component of `p`, unless `p` has none or ends in `..`.
pub fn file_name(p: &str) -> (r: Option<String>)
    ensures
        r.deep_view() == base_name(p@),
{
    let parts = PathParts::read(p);
    let n = parts.marks.len();
    proof {
        assert(widened(parts.marks@).len() == n);
        lemma_spans_from(p@, 0);
    }
    if n == 0 {
        return None;
    }
    let last = parts.marks[n - 1];
    proof {
        assert(widened(parts.marks@)[n - 1] == spans(p@)[n - 1]);
        assert(names(p@).last() == p@.subrange(last.0 as int, last.1 as int));
    }
    let ghost name = p@.subrange(last.0 as int, last.1 as int);
    let up = last.1 - last.0 == 2 && parts.chars[last.0] == '.' && parts.chars[last.0 + 1] == '.';
    proof {
        if up {
            assert(name =~= seq!['.', '.']);
        } else if name.len() == 2 {
            assert(name[0] == p@[last.0 as int] && name[1] == p@[last.0 + 1]);
        }
    }
    if up {
        None
    } else {
        Some(p.substring_char(last.0, last.1).to_owned())
    }
}

/// Whether `a[a_from..a_to]` and `b[b_from..b_to]` hold the same characters.
fn ranges_equal(
    a: &Vec<char>,
    a_from: usize,
    a_to: usize,
    b: &Vec<char>,
    b_from: usize,
    b_to: usize,
) -> (r: bool)
    requires
        a_from <= a_to <= a.len(),
        b_from <= b_to <= b.len(),
    ensures
        r == (a@.subrange(a_from as int, a_to as int) == b@.subrange(b_from as int, b_to as int)),
{
    let ghost x = a@.subrange(a_from as int, a_to as int);
    let ghost y = b@.subrange(b_from as int, b_to as int);
    if a_to - a_from != b_to - b_from {
        assert(x.len() != y.len());
        return false;
    }
    let len = a_to - a_from;
    let mut i: usize = 0;
    while i < len
        invariant
            i <= len,
            len == a_to - a_from,
            len == b_to - b_from,
            a_to <= a.len(),
            b_to <= b.len(),
            x == a@.subrange(a_from as int, a_to as int),
            y == b@.subrange(b_from as int, b_to as int),
            forall|j: int| 0 <= j < i ==> x[j] == y[j],
        decreases len - i,
    {
        if a[a_from + i] != b[b_from + i] {
            assert(x[i as int] != y[i as int]);
            return false;
        }
        i += 1;
    }
    assert(x =~= y);
    true
}

/// The index ranges of the components of `p`.
fn component_marks(p: &Vec<char>) -> (marks: Vec<(usize, usize)>)
    ensures
        widened(marks@) == spans(p@),
{
    let mut marks: Vec<(usize, usize)> = Vec::new();
    let mut from: usize = 0;
    assert(widened(marks@) + spans_from(p@, 0) =~= spans(p@));
    while from < p.len()
        invariant
            from <= p.len(),
            spans(p@) == widened(marks@) + spans_from(p@, from as int),
        decreases p.len() - from,
    {
        let mut end: usize = from;
        while end < p.len() && p[end] != '/'
            invariant
                from <= end <= p.len(),
                piece_end(p@, from as int) == piece_end(p@, end as int),
            decreases p.len() - end,
        {
            end += 1;
        }
        let named = end > from && !(end - from == 1 && p[from] == '.');
        let ghost before = widened(marks@);
        proof {
            let piece = p@.subrange(from as int, end as int);
            if piece.len() > 0 {
                assert(piece[0] == p@[from as int]);
            }
            assert(named == is_name(piece));
        }
        if named {
            marks.push((from, end));
            assert(widened(marks@) =~= before + seq![(from as int, end as int)]);
        }
        let next = if end < p.len() {
            end + 1
        } else {
            end
        };
        proof {
            let rest = if end < p.len() {
                spans_from(p@, end + 1)
            } else {
                Seq::empty()
            };
            assert(rest == spans_from(p@, next as int));
            if named {
                assert(spans(p@) =~= widened(marks@) + rest);
            }
        }
        from = next;
    }
    assert(spans(p@) =~= widened(marks@));
    marks
}

} // verus!
