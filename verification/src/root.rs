//! The root of an asset namespace: one real directory and, where the
//! directory is watched, the conditions of the paths below it.

use vstd::prelude::*;
use vstd::string::StringExecFns;
use std::sync::Arc;
use crate::cache::SharedCache;
use crate::path::{
    absent, first_index_of, is_current, lemma_first_index_of, lemma_segments_cons,
    lemma_segments_single, same_text, segments, SEPARATOR,
};
use renege::Condition;
use crate::token::{always_valid, minted};
use crate::tracker::Tracker;

verus! {

/// `notify::RecommendedWatcher`: the handle of a running directory watcher.
/// It is only kept, so that the watcher lives as long as the root.
#[verifier::external_type_specification]
#[verifier::external_body]
pub struct ExRecommendedWatcher(notify::RecommendedWatcher);

/// The real path so far with one more segment: an empty segment and the
/// segment `.` name nothing and leave the path as it is, and any other
/// segment follows after one separator.
pub open spec fn join_segment(acc: Seq<char>, seg: Seq<char>) -> Seq<char> {
    if seg.len() == 0 || is_current(seg) {
        acc
    } else if acc.len() == 0 || acc.last() == SEPARATOR {
        acc + seg
    } else {
        acc.push(SEPARATOR) + seg
    }
}

/// The real path so far with more segments, the first one first.
pub open spec fn join_segments(acc: Seq<char>, segs: Seq<Seq<char>>) -> Seq<char>
    decreases segs.len(),
{
    if segs.len() == 0 {
        acc
    } else {
        join_segments(join_segment(acc, segs.first()), segs.drop_first())
    }
}

/// The real path of what `relative` names below the directory `dir`: the
/// directory followed by the segments of `relative` that name something.
/// Two relative paths that the file system reads alike, such as `a/b`,
/// `a//b` and `a/b/`, have one real path.
pub open spec fn join(dir: Seq<char>, relative: Seq<char>) -> Seq<char> {
    join_segments(dir, segments(relative))
}

/// Joining `head/rest` is joining `head` and then `rest`.
pub proof fn lemma_join_cons(dir: Seq<char>, head: Seq<char>, rest: Seq<char>)
    requires
        absent(head, SEPARATOR),
    ensures
        join(dir, head.push(SEPARATOR) + rest) == join(join_segment(dir, head), rest),
{
    lemma_segments_cons(head, rest);
    let segs = seq![head] + segments(rest);
    assert(segs.first() == head);
    assert(segs.drop_first() =~= segments(rest));
}

/// Joining a single segment is adding it.
pub proof fn lemma_join_single(dir: Seq<char>, seg: Seq<char>)
    requires
        absent(seg, SEPARATOR),
    ensures
        join(dir, seg) == join_segment(dir, seg),
{
    lemma_segments_single(seg);
    let segs = seq![seg];
    assert(segs.first() == seg);
    assert(segs.drop_first() =~= Seq::<Seq<char>>::empty());
    assert(join_segments(join_segment(dir, seg), segs.drop_first()) == join_segment(dir, seg));
}

/// A doubled separator joins as a single one: `a//b` has the real path of
/// `a/b`, wherever in the relative path the separator is doubled.
pub proof fn lemma_join_doubled_separator(dir: Seq<char>, before: Seq<char>, after: Seq<char>)
    ensures
        join(dir, before.push(SEPARATOR).push(SEPARATOR) + after) == join(
            dir,
            before.push(SEPARATOR) + after,
        ),
    decreases before.len(),
{
    let doubled = before.push(SEPARATOR).push(SEPARATOR) + after;
    let single = before.push(SEPARATOR) + after;
    lemma_first_index_of(before, SEPARATOR);
    match first_index_of(before, SEPARATOR) {
        None => {
            let empty = Seq::<char>::empty();
            let next = join_segment(dir, before);
            assert(doubled =~= before.push(SEPARATOR) + (empty.push(SEPARATOR) + after));
            lemma_join_cons(dir, before, empty.push(SEPARATOR) + after);
            lemma_join_cons(next, empty, after);
            lemma_join_cons(dir, before, after);
        },
        Some(i) => {
            let head = before.take(i);
            let tail = before.skip(i + 1);
            assert(absent(head, SEPARATOR)) by {
                assert forall|j: int| 0 <= j < head.len() implies head[j] != SEPARATOR by {
                    assert(head[j] == before[j]);
                }
            }
            assert(doubled =~= head.push(SEPARATOR) + (tail.push(SEPARATOR).push(SEPARATOR)
                + after));
            assert(single =~= head.push(SEPARATOR) + (tail.push(SEPARATOR) + after));
            lemma_join_cons(dir, head, tail.push(SEPARATOR).push(SEPARATOR) + after);
            lemma_join_cons(dir, head, tail.push(SEPARATOR) + after);
            lemma_join_doubled_separator(join_segment(dir, head), tail, after);
        },
    }
}

/// A separator at the end joins as none: `a/b/` has the real path of
/// `a/b`.
pub proof fn lemma_join_trailing_separator(dir: Seq<char>, path: Seq<char>)
    ensures
        join(dir, path.push(SEPARATOR)) == join(dir, path),
    decreases path.len(),
{
    let empty = Seq::<char>::empty();
    lemma_first_index_of(path, SEPARATOR);
    match first_index_of(path, SEPARATOR) {
        None => {
            assert(path.push(SEPARATOR) =~= path.push(SEPARATOR) + empty);
            lemma_join_cons(dir, path, empty);
            lemma_join_single(join_segment(dir, path), empty);
            lemma_join_single(dir, path);
        },
        Some(i) => {
            let head = path.take(i);
            let tail = path.skip(i + 1);
            assert(absent(head, SEPARATOR)) by {
                assert forall|j: int| 0 <= j < head.len() implies head[j] != SEPARATOR by {
                    assert(head[j] == path[j]);
                }
            }
            assert(path =~= head.push(SEPARATOR) + tail);
            assert(path.push(SEPARATOR) =~= head.push(SEPARATOR) + tail.push(SEPARATOR));
            lemma_join_cons(dir, head, tail);
            lemma_join_cons(dir, head, tail.push(SEPARATOR));
            lemma_join_trailing_separator(join_segment(dir, head), tail);
        },
    }
}

/// Adds one segment to the real path so far.
fn join_segment_to(acc: &mut String, seg: &str)
    ensures
        final(acc)@ == join_segment(old(acc)@, seg@),
{
    proof {
        reveal_strlit(".");
        reveal_strlit("/");
        assert(is_current(seg@) <==> seg@ =~= "."@);
    }
    if seg.is_empty() || same_text(seg, ".") {
        return;
    }
    let len = acc.as_str().unicode_len();
    if len > 0 && acc.as_str().get_char(len - 1) != SEPARATOR {
        acc.append("/");
        assert(acc@ =~= old(acc)@.push(SEPARATOR));
    }
    acc.append(seg);
}

/// The watcher of a root's directory: the running watcher and the cache
/// of conditions that it shares with the loads of the root.
pub struct AssetRootWatcher {
    source: notify::RecommendedWatcher,
    paths: Arc<SharedCache>,
}

impl AssetRootWatcher {
    /// The cache of the conditions of the watched paths.
    pub closed spec fn cache(&self) -> Arc<SharedCache> {
        self.paths
    }

    /// Puts a running watcher together with the cache whose conditions it
    /// invalidates.
    pub fn new(source: notify::RecommendedWatcher, paths: Arc<SharedCache>) -> (watcher: Self)
        ensures
            watcher.cache() == paths,
    {
        AssetRootWatcher { source, paths }
    }

    /// The cache of the conditions of the watched paths.
    pub fn paths(&self) -> (paths: &Arc<SharedCache>)
        ensures
            *paths == self.cache(),
    {
        &self.paths
    }
}

/// A directory of the file system in which assets are stored, with the
/// watcher that reports changes in it.
pub struct AssetRoot {
    path: String,
    watcher: Option<AssetRootWatcher>,
}

impl AssetRoot {
    /// A root for the canonical directory `path`. Without a watcher hot
    /// reload is off for the root: everything read through it counts as
    /// valid for ever.
    pub fn new(path: String, watcher: Option<AssetRootWatcher>) -> (root: Self)
        ensures
            root.dir() == path@,
            root.is_watched() == watcher.is_some(),
    {
        AssetRoot { path, watcher }
    }

    /// The canonical directory of the root.
    pub closed spec fn dir(&self) -> Seq<char> {
        self.path@
    }

    /// Whether the directory of the root is watched.
    pub closed spec fn is_watched(&self) -> bool {
        self.watcher.is_some()
    }

    /// The canonical directory of the root.
    pub fn path(&self) -> (path: &str)
        ensures
            path@ == self.dir(),
    {
        self.path.as_str()
    }

    /// Whether the directory of the root is watched.
    pub fn watched(&self) -> (watched: bool)
        ensures
            watched == self.is_watched(),
    {
        self.watcher.is_some()
    }

    /// The real path of what `relative_path` names in this root.
    pub fn full_path(&self, relative_path: &str) -> (full: String)
        ensures
            full@ == join(self.dir(), relative_path@),
    {
        let len = relative_path.unicode_len();
        let mut full = self.path.clone();
        let mut start: usize = 0;
        let mut n: usize = 0;
        assert(relative_path@.skip(0) =~= relative_path@);
        for x in it: relative_path.chars()
            invariant
                n == it.index(),
                it.seq() == relative_path@,
                len == relative_path@.len(),
                start <= n,
                absent(relative_path@.subrange(start as int, n as int), SEPARATOR),
                join(self.path@, relative_path@) == join(full@, relative_path@.skip(start as int)),
        {
            if x == SEPARATOR {
                let seg = relative_path.substring_char(start, n);
                proof {
                    let rest = relative_path@.skip(n + 1);
                    assert(relative_path@.skip(start as int) =~= seg@.push(SEPARATOR) + rest);
                    lemma_join_cons(full@, seg@, rest);
                }
                join_segment_to(&mut full, seg);
                start = n + 1;
                assert(relative_path@.subrange(start as int, start as int) =~= Seq::<
                    char,
                >::empty());
            } else {
                assert(relative_path@.subrange(start as int, n + 1)
                    =~= relative_path@.subrange(start as int, n as int).push(x));
            }
            n = n + 1;
        }
        let seg = relative_path.substring_char(start, len);
        proof {
            assert(relative_path@.skip(start as int) =~= seg@);
            lemma_join_single(full@, seg@);
        }
        join_segment_to(&mut full, seg);
        full
    }

    /// Makes sure that `tracker` becomes invalid when the file at
    /// `relative_path` changes, without touching the file. In a watched
    /// root the real path of the file is registered in the cache of the
    /// watcher: the token of its condition is composed into the tracker,
    /// which from then on is not valid for ever, and a tracker without
    /// dependencies holds just a token that a condition minted. In a root
    /// without a watcher the tracker stays as it is: one that was valid for
    /// ever is so still.
    pub fn track_file(&self, tracker: &mut Tracker, relative_path: &str)
        ensures
            !self.is_watched() ==> final(tracker)@ == old(tracker)@,
            !self.is_watched() && always_valid(old(tracker)@) ==> always_valid(final(tracker)@),
            self.is_watched() ==> !always_valid(final(tracker)@),
            self.is_watched() && always_valid(old(tracker)@) ==> exists|c: Condition|
                final(tracker)@ == #[trigger] minted(c),
    {
        match &self.watcher {
            Some(watcher) => {
                let full = self.full_path(relative_path);
                watcher.paths.track(full.as_str(), tracker);
            },
            None => {},
        }
    }
}

} // verus!
