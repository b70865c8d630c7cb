//! Unix paths in text form, compared and taken apart component by component.
//!
//! Two spellings name one path when their components agree: repeated slashes, a
//! trailing slash and `.` in the middle do not count, while a leading `.` and every
//! `..` do.

use crate::text::chars_of;
use vstd::prelude::*;
use vstd::string::{StrSliceExecFns, StringExecFns};

verus! {

/// The components of a path.
pub struct PathKey {
    /// The path starts at the root.
    pub absolute: bool,
    /// The path starts with the component `.`.
    pub dot_first: bool,
    /// The components behind that, in order.
    pub parts: Seq<Seq<char>>,
}

/// Index of the last slash in `p`, or -1.
pub open spec fn last_slash(p: Seq<char>) -> int
    decreases p.len(),
{
    if p.len() == 0 {
        -1
    } else if p.last() == '/' {
        p.len() - 1
    } else {
        last_slash(p.drop_last())
    }
}

/// Whether the text between two slashes adds no component.
pub open spec fn is_void(segment: Seq<char>) -> bool {
    segment.len() == 0 || segment == seq!['.']
}

/// The texts between the slashes of `p`, without those that add no component.
pub open spec fn parts(p: Seq<char>) -> Seq<Seq<char>>
    decreases p.len(),
{
    if p.len() == 0 {
        Seq::empty()
    } else {
        let i = last_slash(p);
        let segment = p.skip(i + 1);
        let before = if 0 <= i < p.len() {
            parts(p.take(i))
        } else {
            Seq::empty()
        };
        if is_void(segment) {
            before
        } else {
            before.push(segment)
        }
    }
}

pub open spec fn is_absolute(p: Seq<char>) -> bool {
    p.len() > 0 && p[0] == '/'
}

pub open spec fn is_dot_first(p: Seq<char>) -> bool {
    p.len() > 0 && p[0] == '.' && (p.len() == 1 || p[1] == '/')
}

/// The components of the path written `p`.
pub open spec fn path_key(p: Seq<char>) -> PathKey {
    PathKey { absolute: is_absolute(p), dot_first: is_dot_first(p), parts: parts(p) }
}

/// Characters that the root or a leading `.` takes up.
pub open spec fn head_len(p: Seq<char>) -> nat {
    if is_absolute(p) || is_dot_first(p) {
        1
    } else {
        0
    }
}

/// Where the last text between slashes starts, in a path that is longer than `head`.
pub open spec fn last_start(p: Seq<char>, head: nat) -> int {
    head + last_slash(p.skip(head as int)) + 1
}

/// `p` up to the slash in front of its last text, or up to the head.
pub open spec fn without_last(p: Seq<char>, head: nat) -> Seq<char> {
    let start = last_start(p, head);
    if start > head {
        p.take(start - 1)
    } else {
        p.take(start)
    }
}

proof fn lemma_last_slash(p: Seq<char>)
    ensures
        -1 <= last_slash(p) < p.len(),
        last_slash(p) >= 0 ==> p[last_slash(p)] == '/',
        forall|j: int| last_slash(p) < j < p.len() ==> #[trigger] p[j] != '/',
    decreases p.len(),
{
    if p.len() > 0 && p.last() != '/' {
        let q = p.drop_last();
        lemma_last_slash(q);
        assert forall|j: int| last_slash(p) < j < p.len() implies #[trigger] p[j] != '/' by {
            if j < q.len() {
                assert(q[j] == p[j]);
            }
        }
    }
}

/// The last slash is the one that no slash follows.
proof fn lemma_last_slash_is(p: Seq<char>, i: int)
    requires
        -1 <= i < p.len(),
        i >= 0 ==> p[i] == '/',
        forall|j: int| i < j < p.len() ==> #[trigger] p[j] != '/',
    ensures
        last_slash(p) == i,
{
    lemma_last_slash(p);
    let k = last_slash(p);
    if k > i {
        assert(p[k] != '/');
    } else if i > k {
        assert(p[i] != '/');
    }
}

/// `p` without what adds no component at its end.
pub open spec fn trimmed(p: Seq<char>, head: nat) -> Seq<char>
    decreases p.len(),
{
    if p.len() <= head || !is_void(p.skip(last_start(p, head))) {
        p
    } else {
        let q = without_last(p, head);
        if q.len() < p.len() {
            trimmed(q, head)
        } else {
            p
        }
    }
}

/// The last component, where it is a name and not `..`.
pub open spec fn file_name(p: Seq<char>) -> Option<Seq<char>> {
    let head = head_len(p);
    let t = trimmed(p, head);
    if t.len() <= head {
        None
    } else {
        let name = t.skip(last_start(t, head));
        if name == seq!['.', '.'] {
            None
        } else {
            Some(name)
        }
    }
}

/// The path without its last component, if there is one to leave out.
pub open spec fn parent(p: Seq<char>) -> Option<Seq<char>> {
    let head = head_len(p);
    let t = trimmed(p, head);
    if t.len() > head {
        Some(trimmed(without_last(t, head), head))
    } else if is_dot_first(p) {
        Some(Seq::empty())
    } else {
        None
    }
}

/// `name` as a further component behind the path `dir`.
pub open spec fn joined(dir: Seq<char>, name: Seq<char>) -> Seq<char> {
    if dir.len() > 0 && dir.last() != '/' {
        dir.push('/') + name
    } else {
        dir + name
    }
}

/// Where the last text between slashes of the first `end` characters starts.
fn segment_start(chars: &Vec<char>, end: usize, head: usize) -> (start: usize)
    requires
        head <= end <= chars@.len(),
    ensures
        head <= start <= end,
        start == last_start(chars@.take(end as int), head as nat),
{
    let mut start: usize = end;
    while start > head && chars[start - 1] != '/'
        invariant
            head <= start <= end <= chars@.len(),
            forall|j: int| start <= j < end ==> #[trigger] chars@[j] != '/',
        decreases start,
    {
        start -= 1;
    }
    proof {
        let q = chars@.take(end as int).skip(head as int);
        assert forall|j: int| start - head - 1 < j < q.len() implies #[trigger] q[j] != '/' by {
            assert(q[j] == chars@[head + j]);
        }
        lemma_last_slash_is(q, start - head - 1);
    }
    start
}

/// Whether the characters from `start` to `end` are none or a single dot.
fn void_at(chars: &Vec<char>, start: usize, end: usize) -> (r: bool)
    requires
        start <= end <= chars@.len(),
    ensures
        r == is_void(chars@.subrange(start as int, end as int)),
{
    let ghost segment = chars@.subrange(start as int, end as int);
    if start == end {
        return true;
    }
    let r = end - start == 1 && chars[start] == '.';
    assert(segment[0] == chars@[start as int]);
    assert(r ==> segment == seq!['.']);
    r
}

/// Length of the first `end` characters without what adds no component.
fn trimmed_len(chars: &Vec<char>, end: usize, head: usize) -> (len: usize)
    requires
        head <= end <= chars@.len(),
    ensures
        head <= len <= end,
        chars@.take(len as int) == trimmed(chars@.take(end as int), head as nat),
    decreases end,
{
    let ghost p = chars@.take(end as int);
    if end <= head {
        return end;
    }
    let start = segment_start(chars, end, head);
    assert(p.skip(start as int) == chars@.subrange(start as int, end as int));
    if !void_at(chars, start, end) {
        return end;
    }
    let cut = if start > head {
        start - 1
    } else {
        start
    };
    assert(without_last(p, head as nat) == chars@.take(cut as int));
    assert(cut < end) by {
        if cut == end {
            assert(start == end && start <= head);
        }
    }
    trimmed_len(chars, cut, head)
}

/// Characters that the root or a leading `.` takes up.
fn head_of(chars: &Vec<char>) -> (head: usize)
    ensures
        head == head_len(chars@),
        head <= chars@.len(),
{
    if chars.len() > 0 && (chars[0] == '/' || (chars[0] == '.' && (chars.len() == 1 || chars[1]
        == '/'))) {
        1
    } else {
        0
    }
}

/// The last component of `p`, where it is a name and not `..`.
pub fn file_name_of(p: &str) -> (r: Option<String>)
    ensures
        match r {
            Some(name) => file_name(p@) == Some(name@),
            None => file_name(p@) is None,
        },
{
    let chars = chars_of(p);
    let head = head_of(&chars);
    let end = trimmed_len(&chars, chars.len(), head);
    assert(chars@.take(chars@.len() as int) == p@);
    if end <= head {
        return None;
    }
    let start = segment_start(&chars, end, head);
    let ghost name = p@.take(end as int).skip(start as int);
    assert(name == p@.subrange(start as int, end as int));
    let is_up = end - start == 2 && chars[start] == '.' && chars[start + 1] == '.';
    assert(is_up == (name == seq!['.', '.'])) by {
        if is_up {
            assert(name == seq!['.', '.']);
        }
        if name == seq!['.', '.'] {
            assert(name[0] == '.' && name[1] == '.');
        }
    }
    if is_up {
        None
    } else {
        Some(p.substring_char(start, end).to_owned())
    }
}

/// The path `p` without its last component, if there is one to leave out.
pub fn parent_of(p: &str) -> (r: Option<String>)
    ensures
        match r {
            Some(dir) => parent(p@) == Some(dir@),
            None => parent(p@) is None,
        },
{
    let chars = chars_of(p);
    let head = head_of(&chars);
    let end = trimmed_len(&chars, chars.len(), head);
    assert(chars@.take(chars@.len() as int) == p@);
    if end > head {
        let start = segment_start(&chars, end, head);
        let cut = if start > head {
            start - 1
        } else {
            start
        };
        assert(without_last(p@.take(end as int), head as nat) == p@.take(cut as int));
        let keep = trimmed_len(&chars, cut, head);
        Some(p.substring_char(0, keep).to_owned())
    } else if head == 1 && chars[0] == '.' {
        Some(String::new())
    } else {
        None
    }
}

/// `name` as a further component behind the path `dir`.
pub(crate) fn join(dir: &str, name: &str) -> (r: String)
    ensures
        r@ == joined(dir@, name@),
{
    proof {
        reveal_strlit("/");
    }
    let mut r = dir.to_owned();
    let chars = chars_of(dir);
    if chars.len() > 0 && chars[chars.len() - 1] != '/' {
        r.append("/");
        assert(r@ == dir@.push('/'));
    }
    r.append(name);
    r
}

/// The texts in `v`.
pub open spec fn texts(v: Seq<Vec<char>>) -> Seq<Seq<char>> {
    v.map_values(|t: Vec<char>| t@)
}

/// One step of taking a path apart at the slash at `i`, or at its end.
proof fn lemma_parts_step(p: Seq<char>, start: int, i: int)
    requires
        0 <= start <= i <= p.len(),
        start > 0 ==> p[start - 1] == '/',
        forall|j: int| start <= j < i ==> #[trigger] p[j] != '/',
    ensures
        ({
            let before = if start > 0 {
                parts(p.take(start - 1))
            } else {
                Seq::empty()
            };
            let segment = p.subrange(start, i);
            parts(p.take(i)) == (if is_void(segment) {
                before
            } else {
                before.push(segment)
            })
        }),
{
    let q = p.take(i);
    if i > 0 {
        assert forall|j: int| start - 1 < j < q.len() implies #[trigger] q[j] != '/' by {
            assert(q[j] == p[j]);
        }
        lemma_last_slash_is(q, start - 1);
        assert(q.skip(start) == p.subrange(start, i));
        if start > 0 {
            assert(q.take(start - 1) == p.take(start - 1));
        }
    }
}

/// Takes a path apart.
fn parts_of(chars: &Vec<char>) -> (r: Vec<Vec<char>>)
    ensures
        texts(r@) == parts(chars@),
{
    let mut r: Vec<Vec<char>> = Vec::new();
    let mut segment: Vec<char> = Vec::new();
    let mut i: usize = 0;
    let ghost mut start: int = 0;
    assert(segment@ == chars@.subrange(0, 0));
    while i < chars.len()
        invariant
            0 <= start <= i <= chars@.len(),
            start > 0 ==> chars@[start - 1] == '/',
            forall|j: int| start <= j < i ==> #[trigger] chars@[j] != '/',
            segment@ == chars@.subrange(start, i as int),
            texts(r@) == (if start > 0 {
                parts(chars@.take(start - 1))
            } else {
                Seq::empty()
            }),
        decreases chars@.len() - i,
    {
        if chars[i] == '/' {
            let ghost old_r = r@;
            proof {
                lemma_parts_step(chars@, start, i as int);
            }
            let len = segment.len();
            if !void_at(&segment, 0, len) {
                assert(segment@.subrange(0, len as int) == segment@);
                r.push(segment);
                assert(texts(r@) == texts(old_r).push(segment@));
            } else {
                assert(segment@.subrange(0, len as int) == segment@);
            }
            segment = Vec::new();
            proof {
                start = i + 1;
            }
        } else {
            segment.push(chars[i]);
        }
        i += 1;
        assert(segment@ == chars@.subrange(start, i as int));
    }
    proof {
        lemma_parts_step(chars@, start, i as int);
        assert(chars@.take(i as int) == chars@);
    }
    let ghost old_r = r@;
    let len = segment.len();
    assert(segment@.subrange(0, len as int) == segment@);
    if !void_at(&segment, 0, len) {
        r.push(segment);
        assert(texts(r@) == texts(old_r).push(segment@));
    }
    r
}

/// Whether two texts are equal.
fn same_text(a: &Vec<char>, b: &Vec<char>) -> (r: bool)
    ensures
        r == (a@ == b@),
{
    if a.len() != b.len() {
        return false;
    }
    let mut i: usize = 0;
    while i < a.len()
        invariant
            a@.len() == b@.len(),
            i <= a@.len(),
            forall|j: int| 0 <= j < i ==> #[trigger] a@[j] == b@[j],
        decreases a@.len() - i,
    {
        if a[i] != b[i] {
            return false;
        }
        i += 1;
    }
    assert(a@ == b@);
    true
}

/// Whether `a` and `b` are spellings of one path.
pub fn same_path(a: &str, b: &str) -> (r: bool)
    ensures
        r == (path_key(a@) == path_key(b@)),
{
    let ca = chars_of(a);
    let cb = chars_of(b);
    let a_abs = ca.len() > 0 && ca[0] == '/';
    let b_abs = cb.len() > 0 && cb[0] == '/';
    let a_dot = ca.len() > 0 && ca[0] == '.' && (ca.len() == 1 || ca[1] == '/');
    let b_dot = cb.len() > 0 && cb[0] == '.' && (cb.len() == 1 || cb[1] == '/');
    if a_abs != b_abs || a_dot != b_dot {
        return false;
    }
    let pa = parts_of(&ca);
    let pb = parts_of(&cb);
    assert(parts(a@) == texts(pa@) && parts(b@) == texts(pb@));
    assert(path_key(a@).parts.len() == pa@.len() && path_key(b@).parts.len() == pb@.len());
    if pa.len() != pb.len() {
        return false;
    }
    let mut i: usize = 0;
    while i < pa.len()
        invariant
            pa@.len() == pb@.len(),
            i <= pa@.len(),
            parts(a@) == texts(pa@),
            parts(b@) == texts(pb@),
            forall|j: int| 0 <= j < i ==> #[trigger] pa@[j]@ == pb@[j]@,
        decreases pa@.len() - i,
    {
        if !same_text(&pa[i], &pb[i]) {
            assert(texts(pa@)[i as int] != texts(pb@)[i as int]);
            return false;
        }
        i += 1;
    }
    assert(texts(pa@) == texts(pb@));
    true
}

/// Cutting off the last text of a path cuts off its component, if it adds one.
proof fn lemma_without_last(p: Seq<char>, head: nat)
    requires
        head == head_len(p),
        p.len() > head,
    ensures
        ({
            let segment = p.skip(last_start(p, head));
            let w = without_last(p, head);
            &&& head <= last_start(p, head) <= p.len()
            &&& head <= w.len() < p.len()
            &&& w == p.take(w.len() as int)
            &&& is_absolute(w) == is_absolute(p)
            &&& is_dot_first(w) == is_dot_first(p)
            &&& !segment.contains('/')
            &&& parts(p) == (if is_void(segment) {
                parts(w)
            } else {
                parts(w).push(segment)
            })
        }),
{
    let q = p.skip(head as int);
    lemma_last_slash(q);
    let j = last_slash(q);
    let start = last_start(p, head);
    let segment = p.skip(start);
    let w = without_last(p, head);
    assert forall|k: int| 0 <= k < segment.len() implies #[trigger] segment[k] != '/' by {
        assert(segment[k] == q[j + 1 + k]);
    }
    if j >= 0 {
        assert(p[head + j] == '/');
        assert forall|k: int| head + j < k < p.len() implies #[trigger] p[k] != '/' by {
            assert(p[k] == q[k - head]);
        }
        lemma_last_slash_is(p, head + j);
        assert(start == head + j + 1);
        if is_dot_first(p) && w.len() > 1 {
            assert(w[1] == p[1]);
        }
    } else {
        assert(start == head as int);
        if is_dot_first(p) {
            assert(q[0] == p[1]);
            assert(q[0] != '/');
        }
        if head == 1 {
            assert forall|k: int| 0 < k < p.len() implies #[trigger] p[k] != '/' by {
                assert(p[k] == q[k - 1]);
            }
            lemma_last_slash_is(p, 0);
            assert(p.take(0) == Seq::<char>::empty());
            assert(w == seq!['/']);
            assert(last_slash(w) == 0);
            assert(w.skip(1) == Seq::<char>::empty());
            assert(w.take(0) == Seq::<char>::empty());
            assert(parts(Seq::<char>::empty()) == Seq::<Seq<char>>::empty());
            assert(parts(w) == Seq::<Seq<char>>::empty());
        } else {
            assert(q == p);
            assert(w == Seq::<char>::empty());
        }
    }
}

/// Trimming keeps the components.
proof fn lemma_trimmed(p: Seq<char>, head: nat)
    requires
        head == head_len(p),
        p.len() >= head,
    ensures
        ({
            let t = trimmed(p, head);
            &&& head <= t.len() <= p.len()
            &&& t == p.take(t.len() as int)
            &&& path_key(t) == path_key(p)
            &&& t.len() > head ==> !is_void(t.skip(last_start(t, head)))
        }),
    decreases p.len(),
{
    if p.len() > head && is_void(p.skip(last_start(p, head))) {
        lemma_without_last(p, head);
        lemma_trimmed(without_last(p, head), head);
    } else {
        assert(p.take(p.len() as int) == p);
    }
}

/// No component is empty or a single dot.
pub proof fn lemma_parts_not_void(p: Seq<char>)
    ensures
        forall|i: int| 0 <= i < parts(p).len() ==> !is_void(#[trigger] parts(p)[i]),
    decreases p.len(),
{
    if p.len() > 0 {
        lemma_last_slash(p);
        let i = last_slash(p);
        let segment = p.skip(i + 1);
        let before = if 0 <= i < p.len() {
            parts(p.take(i))
        } else {
            Seq::empty()
        };
        if 0 <= i < p.len() {
            lemma_parts_not_void(p.take(i));
        }
        assert forall|k: int| 0 <= k < parts(p).len() implies !is_void(
            #[trigger] parts(p)[k],
        ) by {
            if k < before.len() {
                assert(parts(p)[k] == before[k]);
            }
        }
    }
}

/// The last component is the file name, unless it is `..`; there is none without components.
pub proof fn lemma_file_name(p: Seq<char>)
    ensures
        parts(p).len() == 0 || parts(p).last() == seq!['.', '.'] ==> file_name(p) is None,
        parts(p).len() > 0 && parts(p).last() != seq!['.', '.'] ==> file_name(p) == Some(
            parts(p).last(),
        ),
        file_name(p) matches Some(name) ==> !is_void(name) && !name.contains('/'),
{
    let head = head_len(p);
    lemma_trimmed(p, head);
    let t = trimmed(p, head);
    if t.len() > head {
        lemma_without_last(t, head);
    } else {
        lemma_head_has_no_parts(t);
    }
}

proof fn lemma_head_has_no_parts(p: Seq<char>)
    requires
        p.len() <= head_len(p),
    ensures
        parts(p).len() == 0,
{
    if p.len() > 0 {
        if p[0] == '/' {
            assert(p == seq!['/']);
            assert(last_slash(p) == 0);
            assert(p.skip(1) == Seq::<char>::empty());
            assert(p.take(0) == Seq::<char>::empty());
            assert(parts(Seq::<char>::empty()) == Seq::<Seq<char>>::empty());
        } else {
            assert(p == seq!['.']);
            lemma_last_slash_is(p, -1);
            assert(p.skip(0) == p);
        }
    }
}

/// Leaving out the last component leaves the others.
pub proof fn lemma_parent(p: Seq<char>)
    requires
        parts(p).len() > 0,
    ensures
        parent(p) is Some,
        path_key(parent(p)->0) == (PathKey {
            absolute: is_absolute(p),
            dot_first: is_dot_first(p),
            parts: parts(p).drop_last(),
        }),
{
    let head = head_len(p);
    lemma_trimmed(p, head);
    let t = trimmed(p, head);
    if t.len() > head {
        lemma_without_last(t, head);
        lemma_trimmed(without_last(t, head), head);
        assert(parts(p).drop_last() == parts(without_last(t, head)));
    } else {
        lemma_head_has_no_parts(t);
    }
}

/// A name behind a path is one component more.
pub proof fn lemma_joined(dir: Seq<char>, name: Seq<char>)
    requires
        !is_void(name),
        !name.contains('/'),
    ensures
        path_key(joined(dir, name)) == (PathKey {
            absolute: is_absolute(dir),
            dot_first: is_dot_first(dir),
            parts: parts(dir).push(name),
        }),
{
    let r = joined(dir, name);
    assert(name.len() > 0);
    assert forall|k: int| 0 <= k < name.len() implies #[trigger] name[k] != '/' by {
        assert(name.contains(name[k]));
    }
    if name.len() == 1 {
        assert(name == seq![name[0]]);
    }
    if dir.len() == 0 {
        assert(r == name);
        lemma_last_slash_is(r, -1);
        assert(r.skip(0) == name);
    } else {
        let slash: int = if dir.last() != '/' {
            dir.len() as int
        } else {
            dir.len() - 1
        };
        assert(r[slash] == '/');
        assert(r.len() == slash + 1 + name.len());
        assert forall|k: int| slash < k < r.len() implies #[trigger] r[k] != '/' by {
            assert(r[k] == name[k - slash - 1]);
        }
        lemma_last_slash_is(r, slash);
        assert(r.skip(slash + 1) == name);
        assert(r.take(slash) == dir.take(slash));
        if dir.last() != '/' {
            assert(dir.take(slash) == dir);
        } else {
            lemma_last_slash_is(dir, slash);
            assert(dir.skip(slash + 1) == Seq::<char>::empty());
        }
        assert(r[0] == dir[0]);
        if dir.len() > 1 {
            assert(r[1] == dir[1]);
        }
    }
}

/// What a path is made of follows from how it is put together: a name without a slash is one
/// component, a name behind a slash is one more, and an empty one or a dot behind a slash is
/// none. A path is absolute exactly where it starts with a slash.
pub proof fn law_components(dir: Seq<char>, name: Seq<char>)
    requires
        !name.contains('/'),
    ensures
        parts(Seq::empty()) == Seq::<Seq<char>>::empty(),
        name.len() == 0 || name == seq!['.'] ==> parts(name) == Seq::<Seq<char>>::empty(),
        name.len() > 0 && name != seq!['.'] ==> parts(name) == seq![name],
        name.len() == 0 || name == seq!['.'] ==> parts(dir.push('/') + name) == parts(dir),
        name.len() > 0 && name != seq!['.'] ==> parts(dir.push('/') + name) == parts(dir).push(name),
        path_key(dir).parts == parts(dir),
        path_key(dir).absolute <==> dir.len() > 0 && dir[0] == '/',
        path_key(dir).dot_first <==> dir == seq!['.'] || (dir.len() > 1 && dir[0] == '.' && dir[1]
            == '/'),
{
    assert forall|k: int| 0 <= k < name.len() implies #[trigger] name[k] != '/' by {
        assert(name.contains(name[k]));
    }
    if name.len() > 0 {
        lemma_last_slash_is(name, -1);
        assert(name.skip(0) =~= name);
        assert(Seq::<Seq<char>>::empty().push(name) =~= seq![name]);
    }
    let p = dir.push('/') + name;
    let slash = dir.len() as int;
    assert forall|k: int| slash < k < p.len() implies #[trigger] p[k] != '/' by {
        assert(p[k] == name[k - slash - 1]);
    }
    lemma_last_slash_is(p, slash);
    assert(p.skip(slash + 1) =~= name);
    assert(p.take(slash) =~= dir);
    if dir.len() == 1 && dir[0] == '.' {
        assert(dir =~= seq!['.']);
    }
}

/// The file name and the directory of a path that was put together from them are these again,
/// up to how they are spelt.
pub proof fn law_taken_apart_again(dir: Seq<char>, name: Seq<char>)
    requires
        !name.contains('/'),
        name.len() > 0,
        name != seq!['.'],
        name != seq!['.', '.'],
    ensures
        file_name(joined(dir, name)) == Some(name),
        parent(joined(dir, name)) is Some,
        path_key(parent(joined(dir, name))->0) == path_key(dir),
        dir.len() > 0 && dir.last() != '/' ==> joined(dir, name) == dir + seq!['/'] + name,
        dir.len() == 0 || dir.last() == '/' ==> joined(dir, name) == dir + name,
{
    lemma_joined(dir, name);
    let p = joined(dir, name);
    assert(parts(p).last() == name);
    assert(parts(p).drop_last() =~= parts(dir));
    lemma_file_name(p);
    lemma_parent(p);
    assert(dir.push('/') =~= dir + seq!['/']);
}

} // verus!
