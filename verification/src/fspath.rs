//! File-system paths as Unix byte strings.
//!
//! A path is any sequence of bytes. `/` separates segments; empty segments and
//! `.` segments name nothing, so they are skipped when the last name or the
//! parent is asked for.

use crate::text::utf8_lossy;
use crate::text;
use vstd::prelude::*;
use vstd::slice::*;
use vstd::string::*;

verus! {

/// The separator between segments.
pub const SLASH: u8 = 0x2F;

/// The byte `.`.
pub const DOT: u8 = 0x2E;

/// Whether a path starts at the root.
pub open spec fn absolute(p: Seq<u8>) -> bool {
    p.len() > 0 && p[0] == SLASH
}

/// Whether the first segment of a path is `.`.
pub open spec fn starts_in_current_dir(p: Seq<u8>) -> bool {
    p.len() > 0 && p[0] == DOT && (p.len() == 1 || p[1] == SLASH)
}

/// `part` placed under `base`: an absolute part replaces the base, any other
/// is appended after exactly one separator (none when the base is empty).
pub open spec fn joined(base: Seq<u8>, part: Seq<u8>) -> Seq<u8> {
    if absolute(part) {
        part
    } else if base.len() == 0 || base.last() == SLASH {
        base + part
    } else {
        base.push(SLASH) + part
    }
}

/// `parts` placed under `base` one after the other.
pub open spec fn joined_all(base: Seq<u8>, parts: Seq<Seq<u8>>) -> Seq<u8>
    decreases parts.len(),
{
    if parts.len() == 0 {
        base
    } else {
        joined(joined_all(base, parts.drop_last()), parts.last())
    }
}

/// Where the segment that ends before `end` begins.
pub open spec fn segment_start(p: Seq<u8>, end: int) -> int
    decreases end,
{
    if end <= 0 {
        0
    } else if p[end - 1] == SLASH {
        end
    } else {
        segment_start(p, end - 1)
    }
}

/// The range of the last segment that is neither empty nor `.`.
pub open spec fn last_segment(p: Seq<u8>) -> Option<(int, int)>
    decreases p.len(),
    via last_segment_shrinks
{
    if p.len() == 0 {
        None
    } else if p.last() == SLASH {
        last_segment(p.drop_last())
    } else {
        let start = segment_start(p, p.len() as int);
        if p.skip(start) == seq![DOT] {
            last_segment(p.take(start))
        } else {
            Some((start, p.len() as int))
        }
    }
}

#[via_fn]
proof fn last_segment_shrinks(p: Seq<u8>) {
    if p.len() > 0 && p.last() != SLASH {
        lemma_segment_start(p, p.len() as int);
        lemma_segment_start_before_end(p, p.len() as int);
    }
}

proof fn lemma_segment_start(p: Seq<u8>, end: int)
    requires
        0 <= end <= p.len(),
    ensures
        0 <= segment_start(p, end) <= end,
    decreases end,
{
    if end > 0 && p[end - 1] != SLASH {
        lemma_segment_start(p, end - 1);
    }
}

proof fn lemma_segment_start_before_end(p: Seq<u8>, end: int)
    requires
        0 < end <= p.len(),
        p[end - 1] != SLASH,
    ensures
        segment_start(p, end) < end,
{
    lemma_segment_start(p, end - 1);
}

proof fn lemma_segment_start_prefix(p: Seq<u8>, end: int, len: int)
    requires
        0 <= end <= len <= p.len(),
    ensures
        segment_start(p.take(len), end) == segment_start(p, end),
    decreases end,
{
    if end > 0 && p[end - 1] != SLASH {
        lemma_segment_start_prefix(p, end - 1, len);
    }
}

/// The last name of a path; `..` is no name.
pub open spec fn file_name_of(p: Seq<u8>) -> Option<Seq<u8>> {
    match last_segment(p) {
        Some((i, j)) => {
            let name = p.subrange(i, j);
            if name == seq![DOT, DOT] {
                None
            } else {
                Some(name)
            }
        },
        None => None,
    }
}

/// What is left of a path without segments: the root, the current directory,
/// or nothing.
pub open spec fn root_prefix(p: Seq<u8>) -> Seq<u8> {
    if absolute(p) {
        seq![SLASH]
    } else if starts_in_current_dir(p) {
        seq![DOT]
    } else {
        Seq::empty()
    }
}

/// A path without its last segment. The root and the empty path have no parent.
pub open spec fn parent_of(p: Seq<u8>) -> Option<Seq<u8>> {
    match last_segment(p) {
        Some((i, _)) => match last_segment(p.take(i)) {
            Some((_, j)) => Some(p.take(j)),
            None => Some(root_prefix(p.take(i))),
        },
        None => if starts_in_current_dir(p) {
            Some(Seq::empty())
        } else {
            None
        },
    }
}

/// The position of the last `.` of a name.
pub open spec fn last_dot(name: Seq<u8>) -> Option<int>
    decreases name.len(),
{
    if name.len() == 0 {
        None
    } else if name.last() == DOT {
        Some(name.len() - 1)
    } else {
        last_dot(name.drop_last())
    }
}

/// What follows the last `.` of a name, unless that `.` is its first byte.
pub open spec fn name_extension(name: Seq<u8>) -> Option<Seq<u8>> {
    match last_dot(name) {
        Some(k) => if k > 0 {
            Some(name.skip(k + 1))
        } else {
            None
        },
        None => None,
    }
}

/// The extension of the last name of a path.
pub open spec fn extension_of(p: Seq<u8>) -> Option<Seq<u8>> {
    match file_name_of(p) {
        Some(name) => name_extension(name),
        None => None,
    }
}

fn find_segment(p: &[u8], upto: usize) -> (r: Option<(usize, usize)>)
    requires
        upto <= p@.len(),
    ensures
        match r {
            Some((i, j)) => i < j <= upto && last_segment(p@.take(upto as int)) == Some(
                (i as int, j as int),
            ),
            None => last_segment(p@.take(upto as int)) is None,
        },
{
    let mut end: usize = upto;
    while end > 0
        invariant
            end <= upto <= p@.len(),
            last_segment(p@.take(end as int)) == last_segment(p@.take(upto as int)),
        decreases end,
    {
        let ghost here = p@.take(end as int);
        if p[end - 1] == SLASH {
            assert(here.drop_last() =~= p@.take(end - 1));
            end -= 1;
        } else {
            let mut start: usize = end;
            while start > 0 && p[start - 1] != SLASH
                invariant
                    start <= end <= p@.len(),
                    segment_start(p@, start as int) == segment_start(p@, end as int),
                decreases start,
            {
                start -= 1;
            }
            proof {
                lemma_segment_start_prefix(p@, end as int, end as int);
                lemma_segment_start_before_end(p@, end as int);
                assert(segment_start(here, end as int) == start);
            }
            if end - start == 1 && p[start] == DOT {
                assert(here.skip(start as int) =~= seq![DOT]);
                assert(here.take(start as int) =~= p@.take(start as int));
                end = start;
            } else {
                assert(here.skip(start as int).len() == end - start);
                assert(here.skip(start as int)[0] == p@[start as int]);
                return Some((start, end));
            }
        }
    }
    assert(p@.take(0).len() == 0);
    None
}

/// An owned file-system path.
#[derive(Debug, PartialEq, Eq)]
pub struct FsPath {
    bytes: Vec<u8>,
}

impl View for FsPath {
    type V = Seq<u8>;

    closed spec fn view(&self) -> Seq<u8> {
        self.bytes@
    }
}

impl Clone for FsPath {
    fn clone(&self) -> (r: Self)
        ensures
            r@ == self@,
    {
        FsPath { bytes: slice_to_vec(self.bytes.as_slice()) }
    }
}

impl FsPath {
    /// The path spelled by `text`.
    pub fn new(text: &str) -> (r: Self)
        ensures
            r@ == text.spec_bytes(),
    {
        FsPath { bytes: text.as_bytes_vec() }
    }

    /// The path made of `bytes`.
    pub fn from_bytes(bytes: &[u8]) -> (r: Self)
        ensures
            r@ == bytes@,
    {
        FsPath { bytes: slice_to_vec(bytes) }
    }

    /// The bytes of the path.
    pub fn as_bytes(&self) -> (r: &[u8])
        ensures
            r@ == self@,
    {
        self.bytes.as_slice()
    }

    /// Whether the path has no bytes.
    pub fn is_empty(&self) -> (r: bool)
        ensures
            r == (self@.len() == 0),
    {
        self.bytes.len() == 0
    }

    /// Whether the path starts at the root.
    pub fn is_absolute(&self) -> (r: bool)
        ensures
            r == absolute(self@),
    {
        self.bytes.len() > 0 && self.bytes[0] == SLASH
    }

    /// Places `part` under this path.
    pub fn push(&mut self, part: &[u8])
        ensures
            final(self)@ == joined(old(self)@, part@),
    {
        let n: usize = self.bytes.len();
        if part.len() > 0 && part[0] == SLASH {
            self.bytes = slice_to_vec(part);
        } else {
            if n > 0 && self.bytes[n - 1] != SLASH {
                self.bytes.push(SLASH);
            }
            let mut tail = slice_to_vec(part);
            self.bytes.append(&mut tail);
        }
        assert(self@ =~= joined(old(self)@, part@));
    }

    /// `part` placed under this path, as a new path.
    pub fn join(&self, part: &[u8]) -> (r: Self)
        ensures
            r@ == joined(self@, part@),
    {
        let mut out = self.clone();
        out.push(part);
        out
    }

    /// The last name of the path.
    pub fn file_name(&self) -> (r: Option<&[u8]>)
        ensures
            match r {
                Some(name) => file_name_of(self@) == Some(name@),
                None => file_name_of(self@) is None,
            },
    {
        let n: usize = self.bytes.len();
        assert(self@.take(n as int) =~= self@);
        match find_segment(self.bytes.as_slice(), n) {
            Some((i, j)) => {
                let name = slice_subrange(self.bytes.as_slice(), i, j);
                if name.len() == 2 && name[0] == DOT && name[1] == DOT {
                    assert(name@ =~= seq![DOT, DOT]);
                    None
                } else {
                    Some(name)
                }
            },
            None => None,
        }
    }

    /// The extension of the last name.
    pub fn extension(&self) -> (r: Option<&[u8]>)
        ensures
            match r {
                Some(ext) => extension_of(self@) == Some(ext@),
                None => extension_of(self@) is None,
            },
    {
        match self.file_name() {
            Some(name) => {
                let n: usize = name.len();
                let mut i: usize = n;
                assert(name@.take(n as int) =~= name@);
                while i > 0 && name[i - 1] != DOT
                    invariant
                        i <= n == name@.len(),
                        last_dot(name@.take(i as int)) == last_dot(name@),
                    decreases i,
                {
                    assert(name@.take(i as int).drop_last() =~= name@.take(i - 1));
                    i -= 1;
                }
                if i > 1 {
                    assert(last_dot(name@) == Some(i - 1));
                    let ext = slice_subrange(name, i, n);
                    assert(ext@ =~= name@.skip(i as int));
                    Some(ext)
                } else {
                    None
                }
            },
            None => None,
        }
    }

    /// The path without its last segment.
    pub fn parent(&self) -> (r: Option<FsPath>)
        ensures
            match r {
                Some(p) => parent_of(self@) == Some(p@),
                None => parent_of(self@) is None,
            },
    {
        let n: usize = self.bytes.len();
        let p = self.bytes.as_slice();
        assert(self@.take(n as int) =~= self@);
        match find_segment(p, n) {
            Some((i, _)) => match find_segment(p, i) {
                Some((_, j)) => {
                    let head = slice_subrange(p, 0, j);
                    assert(head@ =~= self@.take(j as int));
                    Some(FsPath::from_bytes(head))
                },
                None => {
                    let mut bytes: Vec<u8> = Vec::new();
                    let ghost head = self@.take(i as int);
                    if i > 0 && p[0] == SLASH {
                        bytes.push(SLASH);
                        assert(bytes@ =~= seq![SLASH]);
                    } else if i > 0 && p[0] == DOT && (i == 1 || p[1] == SLASH) {
                        bytes.push(DOT);
                        assert(bytes@ =~= seq![DOT]);
                    }
                    assert(bytes@ =~= root_prefix(head));
                    Some(FsPath { bytes })
                },
            },
            None => {
                if n > 0 && p[0] == DOT && (n == 1 || p[1] == SLASH) {
                    Some(FsPath { bytes: Vec::new() })
                } else {
                    None
                }
            },
        }
    }

    /// The path as text, for messages.
    pub fn display(&self) -> (r: String)
        ensures
            r@ == text::lossy_text(self@),
    {
        utf8_lossy(self.bytes.as_slice())
    }
}

/// A relative part is appended: what was there stays, the part comes last, and
/// between them stands one separator, or none where the base is empty or already
/// ends with one. An absolute part is taken by itself.
pub proof fn lemma_joined_keeps_both(base: Seq<u8>, part: Seq<u8>)
    ensures
        part.len() > 0 && part[0] == '/' as u8 ==> joined(base, part) == part,
        !(part.len() > 0 && part[0] == '/' as u8) ==> {
            let path = joined(base, part);
            let slash: int = if base.len() == 0 || base.last() == '/' as u8 {
                0
            } else {
                1
            };
            &&& path.len() == base.len() + slash + part.len()
            &&& path.take(base.len() as int) == base
            &&& path.skip(base.len() + slash) == part
            &&& slash == 1 ==> path[base.len() as int] == '/' as u8
        },
{
    let path = joined(base, part);
    if !absolute(part) {
        assert(path.take(base.len() as int) =~= base);
        if base.len() == 0 || base.last() == SLASH {
            assert(path.skip(base.len() as int) =~= part);
        } else {
            assert(path.skip(base.len() + 1int) =~= part);
        }
    }
}

/// It does not matter which of two joins is made first, and joining none changes
/// nothing.
pub proof fn lemma_joined_associates(a: Seq<u8>, b: Seq<u8>, c: Seq<u8>)
    ensures
        joined(joined(a, b), c) == joined(a, joined(b, c)),
        joined(Seq::empty(), b) == b,
        joined_all(a, seq![b, c]) == joined(joined(a, b), c),
        joined_all(a, Seq::empty()) == a,
{
    assert(joined(Seq::empty(), b) =~= b);
    let bc = seq![b, c];
    assert(bc.drop_last() =~= seq![b]);
    assert(seq![b].drop_last() =~= Seq::<Seq<u8>>::empty());
    assert(joined_all(a, seq![b]) == joined(joined_all(a, Seq::empty()), b));
    assert(joined_all(a, bc) == joined(joined_all(a, bc.drop_last()), bc.last()));
    assert(joined(joined(a, b), c) =~= joined(a, joined(b, c)));
}

/// Parts can be joined in two goes.
pub proof fn lemma_joined_all_goes_on(base: Seq<u8>, first: Seq<Seq<u8>>, more: Seq<Seq<u8>>)
    ensures
        joined_all(base, first + more) == joined_all(joined_all(base, first), more),
    decreases more.len(),
{
    if more.len() == 0 {
        assert(first + more =~= first);
    } else {
        lemma_joined_all_goes_on(base, first, more.drop_last());
        assert((first + more).drop_last() =~= first + more.drop_last());
    }
}

/// Whether what follows position `from` of a path names nothing: separators, and
/// segments that are a single `.`.
pub open spec fn names_nothing(p: Seq<u8>, from: int) -> bool {
    forall|k: int|
        from <= k < p.len() ==> {
            ||| #[trigger] p[k] == '/' as u8
            ||| p[k] == '.' as u8 && (k == 0 || p[k - 1] == '/' as u8) && (k + 1 == p.len() || p[k
                + 1] == '/' as u8)
        }
}

/// The last segment of a path is the last run of bytes without a separator that
/// is not a single `.`: it begins at the start or after a separator, and nothing
/// is named after it. A path without one names nothing at all.
pub proof fn lemma_last_segment_is_last(p: Seq<u8>)
    ensures
        match last_segment(p) {
            Some((i, j)) => {
                &&& 0 <= i < j <= p.len()
                &&& i == 0 || p[i - 1] == '/' as u8
                &&& forall|k: int| i <= k < j ==> #[trigger] p[k] != '/' as u8
                &&& p.subrange(i, j) != seq!['.' as u8]
                &&& j < p.len() ==> p[j] == '/' as u8
                &&& names_nothing(p, j)
            },
            None => names_nothing(p, 0),
        },
    decreases p.len(),
{
    if p.len() == 0 {
    } else if p.last() == SLASH {
        let head = p.drop_last();
        lemma_last_segment_is_last(head);
        lemma_names_nothing_grows(p, head);
        if let Some((i, j)) = last_segment(head) {
            assert(p.subrange(i, j) =~= head.subrange(i, j));
            assert(forall|k: int| i <= k < j ==> #[trigger] p[k] == head[k]);
        }
    } else {
        let n = p.len() as int;
        let start = segment_start(p, n);
        lemma_segment_start(p, n);
        lemma_segment_start_before_end(p, n);
        lemma_segment_start_bounds(p, n);
        if p.skip(start) == seq![DOT] {
            let head = p.take(start);
            assert(p.skip(start).len() == 1);
            assert(p[start] == p.skip(start)[0]);
            lemma_last_segment_is_last(head);
            lemma_names_nothing_grows(p, head);
            if let Some((i, j)) = last_segment(head) {
                assert(p.subrange(i, j) =~= head.subrange(i, j));
                assert(forall|k: int| i <= k < j ==> #[trigger] p[k] == head[k]);
            }
        } else {
            assert(p.subrange(start, n) =~= p.skip(start));
        }
    }
}

proof fn lemma_segment_start_bounds(p: Seq<u8>, end: int)
    requires
        0 <= end <= p.len(),
    ensures
        0 <= segment_start(p, end) <= end,
        segment_start(p, end) > 0 ==> p[segment_start(p, end) - 1] == SLASH,
        forall|k: int| segment_start(p, end) <= k < end ==> #[trigger] p[k] != SLASH,
    decreases end,
{
    if end > 0 && p[end - 1] != SLASH {
        lemma_segment_start_bounds(p, end - 1);
    }
}

proof fn lemma_names_nothing_grows(p: Seq<u8>, head: Seq<u8>)
    requires
        head.len() + 1 == p.len(),
        head == p.take(head.len() as int),
        p.last() == SLASH || (p.last() == DOT && (head.len() == 0 || head.last() == SLASH)),
    ensures
        forall|from: int| 0 <= from && names_nothing(head, from) ==> names_nothing(p, from),
{
    assert forall|from: int| 0 <= from && names_nothing(head, from) implies names_nothing(
        p,
        from,
    ) by {
        assert forall|k: int| from <= k < p.len() implies {
            ||| #[trigger] p[k] == '/' as u8
            ||| p[k] == '.' as u8 && (k == 0 || p[k - 1] == '/' as u8) && (k + 1 == p.len() || p[k
                + 1] == '/' as u8)
        } by {
            if k < head.len() {
                assert(p[k] == head[k]);
                if k + 1 < head.len() {
                    assert(p[k + 1] == head[k + 1]);
                } else if p.last() != SLASH {
                    assert(head.last() == SLASH);
                }
                if k > 0 {
                    assert(p[k - 1] == head[k - 1]);
                }
            } else if head.len() > 0 {
                assert(p[k - 1] == head[k - 1]);
            }
        }
    }
}

/// Only one run of bytes can be the last segment.
proof fn lemma_last_segment_is_found(p: Seq<u8>, i: int, j: int)
    requires
        0 <= i < j <= p.len(),
        i == 0 || p[i - 1] == SLASH,
        forall|k: int| i <= k < j ==> #[trigger] p[k] != SLASH,
        p.subrange(i, j) != seq![DOT],
        j < p.len() ==> p[j] == SLASH,
        names_nothing(p, j),
    ensures
        last_segment(p) == Some((i, j)),
{
    lemma_last_segment_is_last(p);
    match last_segment(p) {
        None => {
            lemma_named_run_is_something(p, 0, i, j);
        },
        Some((a, b)) => {
            if b < j {
                if b <= i {
                    lemma_named_run_is_something(p, b, i, j);
                } else {
                    assert(p[b] == SLASH);
                }
            } else if j < b {
                if j <= a {
                    lemma_named_run_is_something(p, j, a, b);
                } else {
                    assert(p[j] == SLASH);
                }
            } else if a < i {
                assert(p[i - 1] == SLASH);
            } else if i < a {
                assert(p[a - 1] == SLASH);
            }
        },
    }
}

proof fn lemma_named_run_is_something(p: Seq<u8>, from: int, i: int, j: int)
    requires
        0 <= from <= i < j <= p.len(),
        forall|k: int| i <= k < j ==> #[trigger] p[k] != SLASH,
        p.subrange(i, j) != seq![DOT],
    ensures
        !names_nothing(p, from),
{
    assert(p[i] != SLASH);
    if j == i + 1 {
        if p[i] == DOT {
            assert(p.subrange(i, j) =~= seq![DOT]);
        }
    } else {
        assert(p[i + 1] != SLASH);
    }
}

/// Whether `name` can be the name of one file: it is not empty, holds no
/// separator, and is neither `.` nor `..`.
pub open spec fn plain_name(name: Seq<u8>) -> bool {
    &&& name.len() > 0
    &&& forall|k: int| 0 <= k < name.len() ==> #[trigger] name[k] != '/' as u8
    &&& name != seq!['.' as u8]
    &&& name != seq!['.' as u8, '.' as u8]
}

/// A file in a directory has the name it was given there, and the extension of
/// that name. Trailing separators do not change that.
pub proof fn lemma_name_of_joined(dir: Seq<u8>, name: Seq<u8>)
    requires
        plain_name(name),
    ensures
        file_name_of(joined(dir, name)) == Some(name),
        file_name_of(joined(dir, name).push('/' as u8)) == Some(name),
        extension_of(joined(dir, name)) == name_extension(name),
{
    let p = joined(dir, name);
    assert(name[0] != SLASH);
    lemma_joined_keeps_both(dir, name);
    let i = p.len() - name.len();
    let n = p.len() as int;
    assert(p.subrange(i, n) =~= name);
    assert forall|k: int| i <= k < n implies #[trigger] p[k] != SLASH by {
        assert(p[k] == name[k - i]);
    }
    if dir.len() > 0 {
        assert(p[i - 1] == SLASH) by {
            if dir.last() == SLASH {
                assert(p[i - 1] == p.take(dir.len() as int)[i - 1]);
            }
        }
    }
    lemma_last_segment_is_found(p, i, n);
    let q = p.push(SLASH);
    assert(q.drop_last() =~= p);
    assert(q.subrange(i, n) =~= name);
}

/// What the last name of a path is: a name that one file can have, found in the
/// path between separators, with nothing named after it.
pub proof fn lemma_file_name_is_last_name(p: Seq<u8>)
    ensures
        file_name_of(p) matches Some(name) ==> plain_name(name) && exists|i: int|
            0 <= i && i + name.len() <= p.len() && #[trigger] p.subrange(i, i + name.len()) == name
                && (i == 0 || p[i - 1] == '/' as u8) && names_nothing(p, i + name.len()),
        file_name_of(p) is None ==> names_nothing(p, 0) || exists|i: int|
            0 <= i && i + 2 <= p.len() && #[trigger] p.subrange(i, i + 2) == seq![
                '.' as u8,
                '.' as u8,
            ] && (i == 0 || p[i - 1] == '/' as u8) && names_nothing(p, i + 2),
{
    lemma_last_segment_is_last(p);
    if let Some((i, j)) = last_segment(p) {
        let name = p.subrange(i, j);
        assert(forall|k: int| 0 <= k < name.len() ==> #[trigger] name[k] == p[i + k]);
        if name == seq![DOT, DOT] {
            assert(name.len() == 2);
            assert(p.subrange(i, i + 2) == name);
        } else {
            assert(p.subrange(i, i + name.len()) == name);
        }
    }
}

/// The parent of a file in a directory is that directory, where the directory is
/// itself named by its last bytes; a name by itself has the empty parent, and a
/// name at the root the root.
pub proof fn lemma_parent_of_joined(dir: Seq<u8>, inner: Seq<u8>, name: Seq<u8>)
    requires
        plain_name(inner),
        plain_name(name),
    ensures
        parent_of(joined(joined(dir, inner), name)) == Some(joined(dir, inner)),
        parent_of(name) == Some(Seq::<u8>::empty()),
        parent_of(seq!['/' as u8] + name) == Some(seq!['/' as u8]),
{
    let base = joined(dir, inner);
    lemma_joined_keeps_both(dir, inner);
    lemma_name_of_joined(dir, inner);
    lemma_last_segment_is_last(base);
    assert(inner[0] != SLASH && name[0] != SLASH);
    assert(base.last() == inner.last()) by {
        assert(base.skip(base.len() - inner.len()).last() == inner.last());
    }
    assert(inner.last() != SLASH);
    let p = joined(base, name);
    lemma_joined_keeps_both(base, name);
    let i = base.len() as int + 1;
    let n = p.len() as int;
    assert(p.subrange(i, n) =~= name);
    assert forall|k: int| i <= k < n implies #[trigger] p[k] != SLASH by {
        assert(p[k] == name[k - i]);
    }
    lemma_last_segment_is_found(p, i, n);
    let head = p.take(i);
    assert(head.drop_last() =~= base);
    assert(head.last() == SLASH);
    assert(last_segment(head) == last_segment(base));
    let (a, b) = last_segment(base)->0;
    assert(b == base.len()) by {
        if b < base.len() {
            assert(base[b] == SLASH);
            assert(base[base.len() - 1] == '/' as u8 || base[base.len() - 1] == '.' as u8 && base[
                base.len() - 2] == '/' as u8);
            let m = base.len() - inner.len();
            assert(base.skip(m) == inner);
            if inner.len() == 1 {
                assert(inner =~= seq!['.' as u8]);
            } else {
                assert(base[base.len() - 2] == inner[inner.len() - 2]);
            }
        }
    }
    assert(p.take(b) =~= base);
    assert(name.subrange(0, name.len() as int) =~= name);
    lemma_last_segment_is_found(name, 0, name.len() as int);
    assert(name.take(0) =~= Seq::<u8>::empty());
    let r = seq!['/' as u8] + name;
    assert(r.subrange(1, r.len() as int) =~= name);
    assert forall|k: int| 1 <= k < r.len() implies #[trigger] r[k] != SLASH by {
        assert(r[k] == name[k - 1]);
    }
    lemma_last_segment_is_found(r, 1, r.len() as int);
    let top = r.take(1);
    assert(top =~= seq![SLASH]);
    assert(top.drop_last() =~= Seq::<u8>::empty());
}

/// A parent is a shorter beginning of its path that leaves out the last segment
/// and the separators before it, and nothing else; what starts at the root stays
/// there. It ends with a segment, unless it is the root or the current directory.
/// Only the root and the empty path have none.
pub proof fn lemma_parent_is_shorter_beginning(p: Seq<u8>)
    ensures
        parent_of(p) matches Some(parent) ==> {
            &&& parent.len() < p.len()
            &&& parent.is_prefix_of(p)
            &&& absolute(p) == absolute(parent)
            &&& parent.len() > 1 ==> parent.last() != '/' as u8
            &&& parent.len() > 1 ==> (last_segment(parent) matches Some((_, end)) && end
                == parent.len())
            &&& match last_segment(p) {
                Some((i, j)) => parent.len() <= i && forall|k: int|
                    parent.len() <= k < i ==> {
                        ||| #[trigger] p[k] == '/' as u8
                        ||| p[k] == '.' as u8 && p[k + 1] == '/' as u8
                    },
                None => parent.len() == 0,
            }
        },
        parent_of(p) is None ==> names_nothing(p, 0) && (p.len() == 0 || p[0] == '/' as u8),
{
    lemma_last_segment_is_last(p);
    match last_segment(p) {
        Some((i, j)) => {
            let head = p.take(i);
            lemma_last_segment_is_last(head);
            assert(forall|k: int| 0 <= k < i ==> #[trigger] head[k] == p[k]);
            match last_segment(head) {
                Some((a, b)) => {
                    let parent = p.take(b);
                    assert(parent_of(p) == Some(parent));
                    assert(parent.last() == p[b - 1]);
                    assert(p[b - 1] != SLASH);
                    assert(parent.subrange(a, b) =~= head.subrange(a, b));
                    assert(forall|k: int| a <= k < b ==> #[trigger] parent[k] == head[k]);
                    lemma_last_segment_is_found(parent, a, b);
                    assert forall|k: int| parent.len() <= k < i implies {
                        ||| #[trigger] p[k] == '/' as u8
                        ||| p[k] == '.' as u8 && p[k + 1] == '/' as u8
                    } by {
                        assert(head[k] == p[k]);
                        if k + 1 < i {
                            assert(head[k + 1] == p[k + 1]);
                        } else {
                            assert(p[i - 1] == '/' as u8);
                        }
                    }
                },
                None => {
                    let parent = root_prefix(head);
                    assert(parent_of(p) == Some(parent));
                    assert(parent =~= p.take(parent.len() as int));
                    assert forall|k: int| parent.len() <= k < i implies {
                        ||| #[trigger] p[k] == '/' as u8
                        ||| p[k] == '.' as u8 && p[k + 1] == '/' as u8
                    } by {
                        assert(head[k] == p[k]);
                        if k + 1 < i {
                            assert(head[k + 1] == p[k + 1]);
                        } else {
                            assert(p[i - 1] == '/' as u8);
                        }
                    }
                },
            }
        },
        None => {
            if p.len() > 0 && p[0] != SLASH {
                assert(p[0] == DOT);
                assert(starts_in_current_dir(p));
            }
        },
    }
}

/// An extension is what follows the last dot of a name, where something stands
/// before that dot.
pub proof fn lemma_extension_follows_last_dot(name: Seq<u8>, stem: Seq<u8>, ext: Seq<u8>)
    requires
        forall|k: int| 0 <= k < ext.len() ==> #[trigger] ext[k] != '.' as u8,
    ensures
        stem.len() > 0 ==> name_extension(stem.push('.' as u8) + ext) == Some(ext),
        name_extension(seq!['.' as u8] + ext) is None,
        name_extension(ext) is None,
        name_extension(name) matches Some(found) ==> {
            &&& found.len() + 1 < name.len()
            &&& name == name.take(name.len() - found.len() - 1).push('.' as u8) + found
            &&& forall|k: int| 0 <= k < found.len() ==> #[trigger] found[k] != '.' as u8
        },
        name_extension(name) is None ==> forall|k: int|
            0 < k < name.len() ==> #[trigger] name[k] != '.' as u8,
{
    lemma_last_dot(stem.push(DOT) + ext);
    lemma_last_dot(seq![DOT] + ext);
    lemma_last_dot(ext);
    lemma_last_dot(name);
    let full = stem.push(DOT) + ext;
    assert(full[stem.len() as int] == DOT);
    assert(forall|k: int| stem.len() < k < full.len() ==> full[k] == ext[k - stem.len() - 1]);
    let k = last_dot(full)->0;
    assert(k == stem.len()) by {
        if k < stem.len() {
            assert(full[stem.len() as int] != DOT);
        }
    }
    assert(full.skip(k + 1) =~= ext);
    let hidden = seq![DOT] + ext;
    assert(hidden[0] == DOT);
    assert(forall|k: int| 0 < k < hidden.len() ==> hidden[k] == ext[k - 1]);
    if let Some(found) = name_extension(name) {
        let d = last_dot(name)->0;
        assert(found == name.skip(d + 1));
        assert(name =~= name.take(d).push(DOT) + found);
        assert(forall|k: int| 0 <= k < found.len() ==> #[trigger] found[k] == name[d + 1 + k]);
    }
}

proof fn lemma_last_dot(name: Seq<u8>)
    ensures
        match last_dot(name) {
            Some(d) => 0 <= d < name.len() && name[d] == DOT && forall|k: int|
                d < k < name.len() ==> #[trigger] name[k] != DOT,
            None => forall|k: int| 0 <= k < name.len() ==> #[trigger] name[k] != DOT,
        },
    decreases name.len(),
{
    if name.len() > 0 && name.last() != DOT {
        let head = name.drop_last();
        lemma_last_dot(head);
        assert(forall|k: int| 0 <= k < head.len() ==> #[trigger] name[k] == head[k]);
    }
}

} // verus!
