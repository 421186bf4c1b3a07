//! Logical paths and the places they stand for.
//!
//! A logical path is a string of segments separated by `/`. It names a place
//! below one of the configured roots, and resolving it is plain joining: no
//! segment is interpreted, shortened or refused. The one filter there is
//! cleans the name at the end of a rename's target.

use vstd::prelude::*;
use crate::text::{from_chars, to_chars};

verus! {

/// The separator between the segments of a path.
pub open spec fn separator() -> char {
    '/'
}

/// The path that `logical` names below `root`.
pub open spec fn joined(root: Seq<char>, logical: Seq<char>) -> Seq<char> {
    root.push(separator()) + logical
}

/// Whether a file name must not hold `c`.
pub open spec fn illegal_in_name(c: char) -> bool {
    c == '<' || c == '>' || c == ':' || c == '"' || c == '/' || c == '\\' || c == '|' || c == '?'
        || c == '*'
}

/// The position right behind the last `mark` in `text`, or 0 where `text`
/// holds none.
pub open spec fn after_last(text: Seq<char>, mark: char) -> int
    decreases text.len(),
{
    if text.len() == 0 {
        0
    } else if text.last() == mark {
        text.len() as int
    } else {
        after_last(text.drop_last(), mark)
    }
}

/// Where the last segment of `path` begins: behind the last separator, or at
/// the front where there is none.
pub open spec fn name_start(path: Seq<char>) -> int {
    after_last(path, separator())
}

/// `path` with every illegal character of its last segment turned into a
/// space. What stands before the last segment is kept as it is.
pub open spec fn sanitized(path: Seq<char>) -> Seq<char> {
    Seq::new(
        path.len(),
        |i: int|
            if i >= name_start(path) && illegal_in_name(path[i]) {
                ' '
            } else {
                path[i]
            },
    )
}

/// `at` is the position behind the last `mark` if a `mark` stands right
/// before `at`, or `at` is the front, and none stands behind it.
pub proof fn lemma_after_last_is(text: Seq<char>, mark: char, at: int)
    requires
        0 <= at <= text.len(),
        at == 0 || text[at - 1] == mark,
        forall|i: int| at <= i < text.len() ==> text[i] != mark,
    ensures
        after_last(text, mark) == at,
    decreases text.len(),
{
    if text.len() > 0 && text.last() != mark {
        lemma_after_last_is(text.drop_last(), mark, at);
    }
}

/// The position behind the last `mark` lies within the text, right behind a
/// `mark` or at the front, and no `mark` follows it.
pub proof fn lemma_after_last_bounds(text: Seq<char>, mark: char)
    ensures
        0 <= after_last(text, mark) <= text.len(),
        after_last(text, mark) == 0 || text[after_last(text, mark) - 1] == mark,
        forall|i: int| after_last(text, mark) <= i < text.len() ==> text[i] != mark,
    decreases text.len(),
{
    if text.len() > 0 && text.last() != mark {
        let front = text.drop_last();
        lemma_after_last_bounds(front, mark);
        assert forall|i: int| after_last(text, mark) <= i < text.len() implies text[i]
            != mark by {
            if i < front.len() {
                assert(front[i] == text[i]);
            }
        }
    }
}

/// Cleaning keeps every separator where it is and adds none, so the cleaned
/// path has the segments of the uncleaned one, and its last segment begins at the
/// same place.
pub proof fn lemma_sanitized_keeps_separators(path: Seq<char>)
    ensures
        sanitized(path).len() == path.len(),
        forall|i: int|
            0 <= i < path.len() ==> (sanitized(path)[i] == separator() <==> path[i]
                == separator()),
        forall|i: int| 0 <= i < name_start(path) ==> sanitized(path)[i] == path[i],
        name_start(sanitized(path)) == name_start(path),
{
    lemma_after_last_bounds(path, separator());
    lemma_after_last_is(sanitized(path), separator(), name_start(path));
}

/// The last segment of a cleaned path holds no illegal character.
pub proof fn lemma_sanitized_name_is_legal(path: Seq<char>)
    ensures
        forall|i: int|
            name_start(sanitized(path)) <= i < sanitized(path).len() ==> !illegal_in_name(
                sanitized(path)[i],
            ),
{
    lemma_after_last_bounds(path, separator());
    lemma_sanitized_keeps_separators(path);
}

/// Cleaning a cleaned path changes nothing, and neither does cleaning a path
/// whose last segment holds no illegal character.
pub proof fn lemma_sanitized_is_stable(path: Seq<char>)
    ensures
        sanitized(sanitized(path)) == sanitized(path),
        (forall|i: int| name_start(path) <= i < path.len() ==> !illegal_in_name(path[i]))
            ==> sanitized(path) == path,
{
    lemma_sanitized_keeps_separators(path);
    assert(sanitized(sanitized(path)) =~= sanitized(path));
    if forall|i: int| name_start(path) <= i < path.len() ==> !illegal_in_name(path[i]) {
        assert(sanitized(path) =~= path);
    }
}

/// Two places below one root are the same only if their logical paths are.
pub proof fn lemma_joined_is_injective(root: Seq<char>, a: Seq<char>, b: Seq<char>)
    ensures
        joined(root, a) == joined(root, b) <==> a == b,
{
    if joined(root, a) == joined(root, b) {
        let skip: int = (root.len() + 1) as int;
        assert(a =~= joined(root, a).subrange(skip, joined(root, a).len() as int));
        assert(b =~= joined(root, b).subrange(skip, joined(root, b).len() as int));
    }
}

/// The path that `logical` names below `root`: the two joined by one
/// separator.
pub fn resolve(root: &str, logical: &str) -> (path: String)
    ensures
        path@ == joined(root@, logical@),
{
    let mut path = root.to_owned();
    path.push('/');
    path.append(logical);
    path
}

/// Whether a file name must not hold `c`.
pub fn is_illegal_in_name(c: char) -> (answer: bool)
    ensures
        answer == illegal_in_name(c),
{
    c == '<' || c == '>' || c == ':' || c == '"' || c == '/' || c == '\\' || c == '|' || c == '?'
        || c == '*'
}

/// The position right behind the last `mark` in `chars`, or 0 where there
/// is none.
pub fn position_after_last(chars: &Vec<char>, mark: char) -> (at: usize)
    ensures
        at == after_last(chars@, mark),
        at <= chars.len(),
{
    let mut at: usize = chars.len();
    while at > 0 && chars[at - 1] != mark
        invariant
            at <= chars.len(),
            forall|i: int| at <= i < chars.len() ==> chars@[i] != mark,
        decreases at,
    {
        at -= 1;
    }
    proof {
        lemma_after_last_is(chars@, mark, at as int);
    }
    at
}

/// `path` made safe as the target of a rename: every illegal character of
/// its last segment is replaced by a space.
pub fn sanitize(path: &str) -> (clean: String)
    ensures
        clean@ == sanitized(path@),
{
    let chars = to_chars(path);
    let start: usize = position_after_last(&chars, '/');
    let mut clean = from_chars(&chars, 0, start);
    let mut i: usize = start;
    while i < chars.len()
        invariant
            start <= i <= chars.len(),
            start == name_start(chars@),
            clean@ == sanitized(chars@).subrange(0, i as int),
        decreases chars.len() - i,
    {
        let c = chars[i];
        if is_illegal_in_name(c) {
            clean.push(' ');
        } else {
            clean.push(c);
        }
        i += 1;
    }
    clean
}

} // verus!
