//! The path algebra: root-relative virtual paths and the operations that
//! derive one path from another. Nothing here touches a file system.

use vstd::prelude::*;
use vstd::string::StringExecFns;

verus! {

/// The separator between the segments of a virtual path.
pub const SEPARATOR: char = '/';

/// The character that starts a file extension.
pub const DOT: char = '.';

/// The segment that resets a path to the root.
pub const HOME: char = '~';

/// The position of the last occurrence of `c` in `s`, if there is one.
pub open spec fn last_index_of(s: Seq<char>, c: char) -> Option<int>
    decreases s.len(),
{
    if s.len() == 0 {
        None
    } else if s.last() == c {
        Some(s.len() - 1)
    } else {
        last_index_of(s.drop_last(), c)
    }
}

/// The position of the first occurrence of `c` in `s`, if there is one.
pub open spec fn first_index_of(s: Seq<char>, c: char) -> Option<int>
    decreases s.len(),
{
    if s.len() == 0 {
        None
    } else if s.first() == c {
        Some(0)
    } else {
        match first_index_of(s.drop_first(), c) {
            Some(i) => Some(i + 1),
            None => None,
        }
    }
}

/// `i` is a position of `c` in `s` and `c` does not occur after it.
pub open spec fn is_last_index(s: Seq<char>, c: char, i: int) -> bool {
    &&& 0 <= i < s.len()
    &&& s[i] == c
    &&& forall|j: int| i < j < s.len() ==> s[j] != c
}

/// `i` is a position of `c` in `s` and `c` does not occur before it.
pub open spec fn is_first_index(s: Seq<char>, c: char, i: int) -> bool {
    &&& 0 <= i < s.len()
    &&& s[i] == c
    &&& forall|j: int| 0 <= j < i ==> s[j] != c
}

/// `c` occurs nowhere in `s`.
pub open spec fn absent(s: Seq<char>, c: char) -> bool {
    forall|j: int| 0 <= j < s.len() ==> s[j] != c
}

/// What `last_index_of` finds is the last occurrence, and it finds nothing
/// only where there is none.
pub proof fn lemma_last_index_of(s: Seq<char>, c: char)
    ensures
        match last_index_of(s, c) {
            Some(i) => is_last_index(s, c, i),
            None => absent(s, c),
        },
    decreases s.len(),
{
    if s.len() > 0 && s.last() != c {
        let t = s.drop_last();
        lemma_last_index_of(t, c);
        assert(forall|j: int| 0 <= j < t.len() ==> t[j] == s[j]);
    }
}

/// What `first_index_of` finds is the first occurrence, and it finds nothing
/// only where there is none.
pub proof fn lemma_first_index_of(s: Seq<char>, c: char)
    ensures
        match first_index_of(s, c) {
            Some(i) => is_first_index(s, c, i),
            None => absent(s, c),
        },
    decreases s.len(),
{
    if s.len() > 0 && s.first() != c {
        let t = s.drop_first();
        lemma_first_index_of(t, c);
        assert(forall|j: int| 0 <= j < t.len() ==> t[j] == s[j + 1]);
        match first_index_of(t, c) {
            Some(i) => {
                assert forall|j: int| 0 <= j < i + 1 implies s[j] != c by {
                    if j > 0 {
                        assert(t[j - 1] == s[j]);
                    }
                }
            },
            None => {
                assert forall|j: int| 0 <= j < s.len() implies s[j] != c by {
                    if j > 0 {
                        assert(t[j - 1] == s[j]);
                    }
                }
            },
        }
    }
}

/// A last occurrence is the one that `last_index_of` finds.
pub proof fn lemma_last_index_is(s: Seq<char>, c: char, i: int)
    requires
        is_last_index(s, c, i),
    ensures
        last_index_of(s, c) == Some(i),
{
    lemma_last_index_of(s, c);
}

/// A first occurrence is the one that `first_index_of` finds.
pub proof fn lemma_first_index_is(s: Seq<char>, c: char, i: int)
    requires
        is_first_index(s, c, i),
    ensures
        first_index_of(s, c) == Some(i),
{
    lemma_first_index_of(s, c);
}

/// Where a character is absent, neither search finds it.
pub proof fn lemma_index_of_absent(s: Seq<char>, c: char)
    requires
        absent(s, c),
    ensures
        last_index_of(s, c) is None,
        first_index_of(s, c) is None,
{
    lemma_last_index_of(s, c);
    lemma_first_index_of(s, c);
}

/// The path one level up: what stands before the last separator, or the
/// root where there is no separator.
pub open spec fn truncate_last(p: Seq<char>) -> Seq<char> {
    match last_index_of(p, SEPARATOR) {
        Some(i) => p.take(i),
        None => Seq::empty(),
    }
}

/// The parent of a path: none for the root, else the path one level up.
pub open spec fn parent_of(p: Seq<char>) -> Option<Seq<char>> {
    if p.len() == 0 {
        None
    } else {
        Some(truncate_last(p))
    }
}

/// The extension of a path: what follows the last dot anywhere in the path
/// text, separators of parent directories not excepted.
pub open spec fn extension_of(p: Seq<char>) -> Option<Seq<char>> {
    match last_index_of(p, DOT) {
        Some(i) => Some(p.skip(i + 1)),
        None => None,
    }
}

/// The segment `.`, which leaves a path as it is.
pub open spec fn is_current(seg: Seq<char>) -> bool {
    seg.len() == 1 && seg[0] == DOT
}

/// The segment `..`, which goes one level up.
pub open spec fn is_up(seg: Seq<char>) -> bool {
    seg.len() == 2 && seg[0] == DOT && seg[1] == DOT
}

/// The segment `~`, which goes back to the root.
pub open spec fn is_home(seg: Seq<char>) -> bool {
    seg.len() == 1 && seg[0] == HOME
}

/// A segment that names a path component.
pub open spec fn is_name(seg: Seq<char>) -> bool {
    !is_current(seg) && !is_up(seg) && !is_home(seg)
}

/// The path that results from applying one segment to the path so far.
pub open spec fn apply_segment(acc: Seq<char>, seg: Seq<char>) -> Seq<char> {
    if is_current(seg) {
        acc
    } else if is_up(seg) {
        truncate_last(acc)
    } else if is_home(seg) {
        Seq::empty()
    } else if acc.len() == 0 {
        seg
    } else {
        acc.push(SEPARATOR) + seg
    }
}

/// The segments of a relative path: the pieces between its separators.
/// There is always at least one, and a piece may be empty.
pub open spec fn segments(path: Seq<char>) -> Seq<Seq<char>>
    decreases path.len(),
    via segments_decreases
{
    match first_index_of(path, SEPARATOR) {
        Some(i) => seq![path.take(i)] + segments(path.skip(i + 1)),
        None => seq![path],
    }
}

#[via_fn]
proof fn segments_decreases(path: Seq<char>) {
    lemma_first_index_of(path, SEPARATOR);
}

/// The path that results from applying segments one after another, the
/// first one first.
pub open spec fn apply_segments(acc: Seq<char>, segs: Seq<Seq<char>>) -> Seq<char>
    decreases segs.len(),
{
    if segs.len() == 0 {
        acc
    } else {
        apply_segments(apply_segment(acc, segs.first()), segs.drop_first())
    }
}

/// The path that the relative path `path` denotes when it is resolved
/// against `base`.
pub open spec fn resolve(base: Seq<char>, path: Seq<char>) -> Seq<char> {
    apply_segments(base, segments(path))
}

/// A relative path without a separator is one segment.
pub proof fn lemma_segments_single(seg: Seq<char>)
    requires
        absent(seg, SEPARATOR),
    ensures
        segments(seg) == seq![seg],
{
    lemma_index_of_absent(seg, SEPARATOR);
}

/// A relative path splits at its first separator.
pub proof fn lemma_segments_cons(head: Seq<char>, rest: Seq<char>)
    requires
        absent(head, SEPARATOR),
    ensures
        segments(head.push(SEPARATOR) + rest) == seq![head] + segments(rest),
{
    let s = head.push(SEPARATOR) + rest;
    let i = head.len() as int;
    assert(is_first_index(s, SEPARATOR, i)) by {
        assert(s[i] == SEPARATOR);
        assert forall|j: int| 0 <= j < i implies s[j] != SEPARATOR by {
            assert(s[j] == head[j]);
        }
    }
    lemma_first_index_is(s, SEPARATOR, i);
    assert(s.take(i) =~= head);
    assert(s.skip(i + 1) =~= rest);
}

/// Applying one segment is applying a list of that segment alone.
pub proof fn lemma_apply_single(acc: Seq<char>, seg: Seq<char>)
    ensures
        apply_segments(acc, seq![seg]) == apply_segment(acc, seg),
{
    let segs = seq![seg];
    assert(segs.first() == seg);
    assert(segs.drop_first() =~= Seq::<Seq<char>>::empty());
    assert(apply_segments(apply_segment(acc, seg), segs.drop_first()) == apply_segment(acc, seg));
}

/// Applying a list of segments is applying its first and then the others.
pub proof fn lemma_apply_cons(acc: Seq<char>, seg: Seq<char>, rest: Seq<Seq<char>>)
    ensures
        apply_segments(acc, seq![seg] + rest) == apply_segments(apply_segment(acc, seg), rest),
{
    let segs = seq![seg] + rest;
    assert(segs.first() == seg);
    assert(segs.drop_first() =~= rest);
}

/// Resolving `head/rest` is applying `head` and resolving `rest` from there.
pub proof fn lemma_resolve_cons(base: Seq<char>, head: Seq<char>, rest: Seq<char>)
    requires
        absent(head, SEPARATOR),
    ensures
        resolve(base, head.push(SEPARATOR) + rest) == resolve(apply_segment(base, head), rest),
{
    lemma_segments_cons(head, rest);
    lemma_apply_cons(base, head, segments(rest));
}

/// Resolving a single segment is applying it.
pub proof fn lemma_resolve_single(base: Seq<char>, seg: Seq<char>)
    requires
        absent(seg, SEPARATOR),
    ensures
        resolve(base, seg) == apply_segment(base, seg),
{
    lemma_segments_single(seg);
    lemma_apply_single(base, seg);
}

/// The path component of an asset path: the text of a root-relative virtual
/// path. The root is the empty text; segments are divided by `/`.
#[derive(Debug, Hash)]
pub struct AssetInnerPath {
    text: String,
}

impl Clone for AssetInnerPath {
    fn clone(&self) -> (copy: Self)
        ensures
            copy == *self,
    {
        AssetInnerPath { text: self.text.clone() }
    }
}

impl View for AssetInnerPath {
    type V = Seq<char>;

    closed spec fn view(&self) -> Seq<char> {
        self.text@
    }
}

/// Whether two texts are the same.
pub fn same_text(a: &str, b: &str) -> (same: bool)
    ensures
        same == (a@ == b@),
{
    a.to_owned() == b.to_owned()
}

/// Finds the last occurrence of `c` in the text, counted in characters.
fn find_last(text: &str, c: char) -> (found: Option<usize>)
    ensures
        match found {
            Some(i) => last_index_of(text@, c) == Some(i as int),
            None => last_index_of(text@, c) is None,
        },
{
    let len = text.unicode_len();
    let mut found: Option<usize> = None;
    let mut n: usize = 0;
    for x in it: text.chars()
        invariant
            n == it.index(),
            it.seq() == text@,
            len == text@.len(),
            match found {
                Some(i) => is_last_index(text@.take(n as int), c, i as int),
                None => absent(text@.take(n as int), c),
            },
    {
        if x == c {
            found = Some(n);
        }
        n = n + 1;
    }
    proof {
        assert(text@.take(n as int) =~= text@);
        match found {
            Some(i) => lemma_last_index_is(text@, c, i as int),
            None => lemma_index_of_absent(text@, c),
        }
    }
    found
}

/// Goes one level up: cuts the path before its last separator, or empties
/// it where it has none.
fn truncate_to_parent(acc: &mut String)
    ensures
        final(acc)@ == truncate_last(old(acc)@),
{
    match find_last(acc.as_str(), SEPARATOR) {
        Some(pos) => {
            proof {
                lemma_last_index_of(acc@, SEPARATOR);
            }
            let cut = acc.as_str().substring_char(0, pos).to_owned();
            assert(cut@ =~= old(acc)@.take(pos as int));
            *acc = cut;
        },
        None => {
            *acc = String::new();
        },
    }
}

/// Applies one segment to the path so far.
fn apply_segment_to(acc: &mut String, seg: &str)
    ensures
        final(acc)@ == apply_segment(old(acc)@, seg@),
{
    proof {
        reveal_strlit(".");
        reveal_strlit("..");
        reveal_strlit("~");
        reveal_strlit("/");
        assert(is_current(seg@) <==> seg@ =~= "."@);
        assert(is_up(seg@) <==> seg@ =~= ".."@);
        assert(is_home(seg@) <==> seg@ =~= "~"@);
    }
    if same_text(seg, ".") {
    } else if same_text(seg, "..") {
        truncate_to_parent(acc);
    } else if same_text(seg, "~") {
        *acc = String::new();
    } else {
        if !acc.as_str().is_empty() {
            acc.append("/");
            assert(acc@ =~= old(acc)@.push(SEPARATOR));
        }
        acc.append(seg);
        assert(Seq::<char>::empty() + seg@ =~= seg@);
    }
}

impl AssetInnerPath {
    /// The path of the root directory: the empty path.
    pub fn root() -> (path: Self)
        ensures
            path@ == Seq::<char>::empty(),
    {
        AssetInnerPath { text: String::new() }
    }

    /// The text of this path.
    pub fn as_str(&self) -> (text: &str)
        ensures
            text@ == self@,
    {
        self.text.as_str()
    }

    /// Whether this is the path of the root directory.
    pub fn is_root(&self) -> (root: bool)
        ensures
            root == (self@.len() == 0),
    {
        self.text.as_str().is_empty()
    }

    /// The path of the directory that this path is in, or `None` for the
    /// root.
    pub fn parent(&self) -> (parent: Option<Self>)
        ensures
            match parent {
                Some(p) => parent_of(self@) == Some(p@),
                None => parent_of(self@) is None,
            },
    {
        if self.is_root() {
            None
        } else {
            let mut text = self.text.clone();
            truncate_to_parent(&mut text);
            Some(AssetInnerPath { text })
        }
    }

    /// Taking this path for a directory, the path that `path` denotes
    /// relative to it. The segments of `path` are applied from left to
    /// right: `.` changes nothing, `..` goes one level up and stays at the
    /// root, `~` goes back to the root, and any other segment, an empty one
    /// too, is appended as it stands.
    pub fn relative(&self, path: &str) -> (resolved: Self)
        ensures
            resolved@ == resolve(self@, path@),
    {
        let len = path.unicode_len();
        let mut acc = self.text.clone();
        let mut start: usize = 0;
        let mut n: usize = 0;
        assert(path@.skip(0) =~= path@);
        for x in it: path.chars()
            invariant
                n == it.index(),
                it.seq() == path@,
                len == path@.len(),
                start <= n,
                absent(path@.subrange(start as int, n as int), SEPARATOR),
                resolve(self@, path@) == resolve(acc@, path@.skip(start as int)),
        {
            if x == SEPARATOR {
                let seg = path.substring_char(start, n);
                proof {
                    let rest = path@.skip(n + 1);
                    assert(path@.skip(start as int) =~= seg@.push(SEPARATOR) + rest);
                    lemma_resolve_cons(acc@, seg@, rest);
                }
                apply_segment_to(&mut acc, seg);
                start = n + 1;
                assert(path@.subrange(start as int, start as int) =~= Seq::<char>::empty());
            } else {
                assert(path@.subrange(start as int, n + 1) =~= path@.subrange(
                    start as int,
                    n as int,
                ).push(x));
            }
            n = n + 1;
        }
        let seg = path.substring_char(start, len);
        proof {
            assert(path@.skip(start as int) =~= seg@);
            lemma_resolve_single(acc@, seg@);
        }
        apply_segment_to(&mut acc, seg);
        AssetInnerPath { text: acc }
    }

    /// The file extension of this path: what follows its last dot, or
    /// `None` where the path holds no dot. The dot is looked for in the
    /// whole path, so a dot in a directory's name counts where the file's
    /// name has none: the extension of `a.b/c` is `b/c`.
    pub fn extension(&self) -> (ext: Option<&str>)
        ensures
            match ext {
                Some(e) => extension_of(self@) == Some(e@),
                None => extension_of(self@) is None,
            },
    {
        let text = self.text.as_str();
        match find_last(text, DOT) {
            Some(pos) => {
                proof {
                    lemma_last_index_of(self@, DOT);
                }
                let len = text.unicode_len();
                let ext = text.substring_char(pos + 1, len);
                assert(ext@ =~= self@.skip(pos + 1));
                Some(ext)
            },
            None => None,
        }
    }
}

impl From<String> for AssetInnerPath {
    /// The path with the text `value`, taken as it stands.
    fn from(value: String) -> (path: Self)
        ensures
            path@ == value@,
    {
        AssetInnerPath { text: value }
    }
}

impl vstd::std_specs::convert::FromSpecImpl<String> for AssetInnerPath {
    open spec fn obeys_from_spec() -> bool {
        true
    }

    closed spec fn from_spec(value: String) -> Self {
        AssetInnerPath { text: value }
    }
}

impl PartialEq for AssetInnerPath {
    fn eq(&self, other: &Self) -> (equal: bool) {
        self.text == other.text
    }
}

impl Eq for AssetInnerPath {}

impl vstd::std_specs::cmp::PartialEqSpecImpl for AssetInnerPath {
    open spec fn obeys_eq_spec() -> bool {
        true
    }

    open spec fn eq_spec(&self, other: &Self) -> bool {
        self@ == other@
    }
}

} // verus!
