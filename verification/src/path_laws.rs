//! Laws of the path algebra, stated over the texts of paths.

use vstd::prelude::*;
use crate::path::{
    absent, apply_segment, extension_of, first_index_of, is_last_index, is_name,
    last_index_of, lemma_first_index_of, lemma_index_of_absent, lemma_last_index_is,
    lemma_last_index_of, lemma_resolve_cons, lemma_resolve_single, parent_of, resolve,
    truncate_last, DOT, HOME, SEPARATOR,
};

verus! {

/// Appending a name to a path and going one level up gives the path back.
pub proof fn lemma_truncate_after_append(p: Seq<char>, name: Seq<char>)
    requires
        absent(name, SEPARATOR),
        is_name(name),
    ensures
        truncate_last(apply_segment(p, name)) == p,
{
    if p.len() == 0 {
        lemma_index_of_absent(name, SEPARATOR);
    } else {
        let q = p.push(SEPARATOR) + name;
        let i = p.len() as int;
        assert(is_last_index(q, SEPARATOR, i)) by {
            assert(q[i] == SEPARATOR);
            assert forall|j: int| i < j < q.len() implies q[j] != SEPARATOR by {
                assert(q[j] == name[j - i - 1]);
            }
        }
        lemma_last_index_is(q, SEPARATOR, i);
        assert(q.take(i) =~= p);
    }
}

/// Resolving `.` against a path gives the path itself.
pub proof fn lemma_relative_current(p: Seq<char>)
    ensures
        resolve(p, seq![DOT]) == p,
{
    lemma_resolve_single(p, seq![DOT]);
}

/// Resolving a name against a path, and `..` against the result, gives the
/// path back: `p.relative("a").relative("..")` is `p`.
pub proof fn lemma_relative_then_up(p: Seq<char>, name: Seq<char>)
    requires
        absent(name, SEPARATOR),
        is_name(name),
    ensures
        resolve(resolve(p, name), seq![DOT, DOT]) == p,
{
    lemma_resolve_single(p, name);
    lemma_resolve_single(apply_segment(p, name), seq![DOT, DOT]);
    lemma_truncate_after_append(p, name);
}

/// A relative path that starts with `~/` forgets the path it is resolved
/// against: `p.relative("~/x")` is `root().relative("x")`, whatever `p` is.
pub proof fn lemma_relative_home(p: Seq<char>, rest: Seq<char>)
    ensures
        resolve(p, seq![HOME, SEPARATOR] + rest) == resolve(Seq::empty(), rest),
{
    let home = seq![HOME];
    assert(home.push(SEPARATOR) + rest =~= seq![HOME, SEPARATOR] + rest);
    lemma_resolve_cons(p, home, rest);
}

/// The root has no parent.
pub proof fn lemma_root_has_no_parent()
    ensures
        parent_of(Seq::empty()) is None,
{
}

/// The parent of a name resolved against a path is that path:
/// `p.relative("x").parent()` is `p`. This holds of every path but for the
/// empty name resolved against the root, which is the root again.
pub proof fn lemma_parent_of_relative(p: Seq<char>, name: Seq<char>)
    requires
        absent(name, SEPARATOR),
        is_name(name),
        p.len() > 0 || name.len() > 0,
    ensures
        parent_of(resolve(p, name)) == Some(p),
{
    lemma_resolve_single(p, name);
    lemma_truncate_after_append(p, name);
}

/// A path has an extension if and only if it holds a dot.
pub proof fn lemma_extension_needs_dot(p: Seq<char>)
    ensures
        extension_of(p) is None <==> absent(p, DOT),
{
    lemma_last_index_of(p, DOT);
}

/// The extension is all that follows the last dot of the whole path: where
/// no dot follows it, whatever stands behind a dot is the extension, a
/// separator too. So the extension of `a.b/c` is `b/c`.
pub proof fn lemma_extension_after_last_dot(before: Seq<char>, after: Seq<char>)
    requires
        absent(after, DOT),
    ensures
        extension_of(before.push(DOT) + after) == Some(after),
{
    let p = before.push(DOT) + after;
    let i = before.len() as int;
    assert(is_last_index(p, DOT, i)) by {
        assert(p[i] == DOT);
        assert forall|j: int| i < j < p.len() implies p[j] != DOT by {
            assert(p[j] == after[j - i - 1]);
        }
    }
    lemma_last_index_is(p, DOT, i);
    assert(p.skip(i + 1) =~= after);
}

/// A path text in normal form: it neither starts nor ends with a separator
/// and holds no two separators in a row. The root, the empty text, is in
/// normal form.
pub open spec fn is_normal(p: Seq<char>) -> bool {
    p.len() > 0 ==> {
        &&& p.first() != SEPARATOR
        &&& p.last() != SEPARATOR
        &&& forall|i: int|
            0 <= i < p.len() - 1 ==> !(#[trigger] p[i] == SEPARATOR && p[i + 1] == SEPARATOR)
    }
}

/// Going one level up keeps a path in normal form.
pub proof fn lemma_truncate_normal(p: Seq<char>)
    requires
        is_normal(p),
    ensures
        is_normal(truncate_last(p)),
{
    lemma_last_index_of(p, SEPARATOR);
    match last_index_of(p, SEPARATOR) {
        Some(i) => {
            let q = p.take(i);
            if q.len() > 0 {
                assert(q.first() == p[0]);
                assert(q.last() == p[i - 1]);
                assert(!(p[i - 1] == SEPARATOR && p[i] == SEPARATOR));
                assert forall|j: int| 0 <= j < q.len() - 1 implies !(#[trigger] q[j]
                    == SEPARATOR && q[j + 1] == SEPARATOR) by {
                    assert(q[j] == p[j] && q[j + 1] == p[j + 1]);
                }
            }
        },
        None => {},
    }
}

/// Applying a segment that is not empty keeps a path in normal form.
pub proof fn lemma_apply_segment_normal(acc: Seq<char>, seg: Seq<char>)
    requires
        is_normal(acc),
        absent(seg, SEPARATOR),
        seg.len() > 0,
    ensures
        is_normal(apply_segment(acc, seg)),
{
    lemma_truncate_normal(acc);
    if is_name(seg) && acc.len() > 0 {
        let q = acc.push(SEPARATOR) + seg;
        let n = acc.len() as int;
        assert(q.first() == acc[0]);
        assert(q.last() == seg.last());
        assert forall|j: int| 0 <= j < q.len() - 1 implies !(#[trigger] q[j] == SEPARATOR
            && q[j + 1] == SEPARATOR) by {
            if j + 1 < n {
                assert(q[j] == acc[j] && q[j + 1] == acc[j + 1]);
            } else if j + 1 == n {
                assert(q[j] == acc.last());
            } else if j == n {
                assert(q[j + 1] == seg[0]);
            } else {
                assert(q[j] == seg[j - n - 1]);
            }
        }
    }
}

/// Paths stay in normal form: a relative path that is itself in normal form
/// and not empty, resolved against a path in normal form, gives a path in
/// normal form. The empty relative path and one with an empty segment are
/// appended as they stand, and so lead out of the normal form.
pub proof fn lemma_resolve_normal(base: Seq<char>, path: Seq<char>)
    requires
        is_normal(base),
        is_normal(path),
        path.len() > 0,
    ensures
        is_normal(resolve(base, path)),
    decreases path.len(),
{
    lemma_first_index_of(path, SEPARATOR);
    match first_index_of(path, SEPARATOR) {
        None => {
            lemma_resolve_single(base, path);
            lemma_apply_segment_normal(base, path);
        },
        Some(i) => {
            let head = path.take(i);
            let rest = path.skip(i + 1);
            assert(path =~= head.push(SEPARATOR) + rest);
            assert(absent(head, SEPARATOR)) by {
                assert forall|j: int| 0 <= j < head.len() implies head[j] != SEPARATOR by {
                    assert(head[j] == path[j]);
                }
            }
            assert(rest.len() > 0);
            assert(is_normal(rest)) by {
                assert(!(path[i] == SEPARATOR && path[i + 1] == SEPARATOR));
                assert(rest.first() == path[i + 1]);
                assert(rest.last() == path.last());
                assert forall|j: int| 0 <= j < rest.len() - 1 implies !(#[trigger] rest[j]
                    == SEPARATOR && rest[j + 1] == SEPARATOR) by {
                    assert(rest[j] == path[i + 1 + j] && rest[j + 1] == path[i + 2 + j]);
                }
            }
            lemma_resolve_cons(base, head, rest);
            lemma_apply_segment_normal(base, head);
            lemma_resolve_normal(apply_segment(base, head), rest);
        },
    }
}

} // verus!
