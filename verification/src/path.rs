//! Turning an untrusted request path into a path below a base directory.
//!
//! A request path is a sequence of segments separated by `/`. No other
//! character is a separator, and nothing is decoded: a segment such as
//! `cats%2F` is one literal file name.

use vstd::prelude::*;
use vstd::string::*;
use crate::text::{chars_of, push_char};

verus! {

/// The segments of `path`: the pieces between its `/` characters. A path of
/// `n` slashes has `n + 1` segments, some of which may be empty.
pub open spec fn split_segments(path: Seq<char>) -> Seq<Seq<char>>
    decreases path.len(),
{
    if path.len() == 0 {
        seq![Seq::empty()]
    } else {
        let earlier = split_segments(path.drop_last());
        if path.last() == '/' {
            earlier.push(Seq::empty())
        } else {
            earlier.drop_last().push(earlier.last().push(path.last()))
        }
    }
}

/// The segment `.`, which names the directory it stands in.
pub open spec fn is_dot(segment: Seq<char>) -> bool {
    segment.len() == 1 && segment[0] == '.'
}

/// The segment `..`, which names the parent directory.
pub open spec fn is_dot_dot(segment: Seq<char>) -> bool {
    segment.len() == 2 && segment[0] == '.' && segment[1] == '.'
}

/// One step of the resolution. An empty segment (from a doubled, leading or
/// trailing slash) and `.` leave the components as they are; `..` removes the
/// last component, and fails where there is none; any other segment is
/// appended as it stands.
pub open spec fn apply_segment(components: Seq<Seq<char>>, segment: Seq<char>) -> Option<
    Seq<Seq<char>>,
> {
    if segment.len() == 0 || is_dot(segment) {
        Some(components)
    } else if is_dot_dot(segment) {
        if components.len() > 0 {
            Some(components.drop_last())
        } else {
            None
        }
    } else {
        Some(components.push(segment))
    }
}

/// The components that `segments` resolve to, taken in order from an empty
/// start, or `None` if one of them steps above the start.
pub open spec fn accumulate(segments: Seq<Seq<char>>) -> Option<Seq<Seq<char>>>
    decreases segments.len(),
{
    if segments.len() == 0 {
        Some(Seq::empty())
    } else {
        match accumulate(segments.drop_last()) {
            Some(components) => apply_segment(components, segments.last()),
            None => None,
        }
    }
}

/// `path` with `component` appended, separated by one `/` unless `path` is
/// empty or already ends in one.
pub open spec fn push_component(path: Seq<char>, component: Seq<char>) -> Seq<char> {
    if path.len() == 0 || path.last() == '/' {
        path + component
    } else {
        path.push('/') + component
    }
}

/// `base` with each of `components` appended in turn.
pub open spec fn join_path(base: Seq<char>, components: Seq<Seq<char>>) -> Seq<char>
    decreases components.len(),
{
    if components.len() == 0 {
        base
    } else {
        push_component(join_path(base, components.drop_last()), components.last())
    }
}

/// What walking `path` from `base` gives when nothing is forbidden: the base
/// joined with the components of the path, or nothing if the path steps above
/// the base.
pub open spec fn walk_path_spec(base: Seq<char>, path: Seq<char>) -> Option<Seq<char>> {
    match accumulate(split_segments(path)) {
        Some(components) => Some(join_path(base, components)),
        None => None,
    }
}

/// The character sequences of a list of strings.
pub open spec fn texts(strings: Seq<String>) -> Seq<Seq<char>> {
    Seq::new(strings.len(), |i: int| strings[i]@)
}

/// The character sequence of an optional string.
pub open spec fn text_of(value: Option<String>) -> Option<Seq<char>> {
    match value {
        Some(s) => Some(s@),
        None => None,
    }
}

/// A path always has at least one segment.
pub proof fn lemma_split_is_not_empty(path: Seq<char>)
    ensures
        split_segments(path).len() >= 1,
    decreases path.len(),
{
    if path.len() > 0 {
        lemma_split_is_not_empty(path.drop_last());
    }
}

/// Split `path` at each `/`.
pub fn segments(path: &str) -> (parts: Vec<String>)
    ensures
        texts(parts@) == split_segments(path@),
{
    let chars = chars_of(path);
    let mut parts: Vec<String> = Vec::new();
    let mut current = String::new();
    let mut at: usize = 0;
    assert(chars@.take(0) =~= Seq::<char>::empty());
    assert(texts(parts@).push(current@) =~= split_segments(chars@.take(0)));
    while at < chars.len()
        invariant
            chars@ == path@,
            at <= chars.len(),
            texts(parts@).push(current@) == split_segments(chars@.take(at as int)),
        decreases chars.len() - at,
    {
        let c = chars[at];
        proof {
            let longer = chars@.take(at + 1);
            assert(longer.drop_last() =~= chars@.take(at as int));
            assert(longer.last() == c);
        }
        let ghost before = texts(parts@);
        let ghost name = current@;
        if c == '/' {
            parts.push(current);
            current = String::new();
            assert(texts(parts@) =~= before.push(name));
        } else {
            push_char(&mut current, c);
            assert(before.push(name).drop_last() =~= before);
        }
        at = at + 1;
    }
    let ghost before = texts(parts@);
    parts.push(current);
    assert(chars@.take(at as int) =~= path@);
    assert(texts(parts@) =~= before.push(current@));
    parts
}

/// Once a prefix of the segments has stepped above the start, no later
/// segment brings the resolution back.
pub proof fn lemma_rejection_is_final(segments: Seq<Seq<char>>, k: int)
    requires
        0 <= k <= segments.len(),
        accumulate(segments.take(k)) is None,
    ensures
        accumulate(segments) is None,
    decreases segments.len(),
{
    if k == segments.len() {
        assert(segments.take(k) =~= segments);
    } else {
        assert(segments.drop_last().take(k) =~= segments.take(k));
        lemma_rejection_is_final(segments.drop_last(), k);
    }
}

fn is_dot_segment(segment: &Vec<char>) -> (dot: bool)
    ensures
        dot == is_dot(segment@),
{
    segment.len() == 1 && segment[0] == '.'
}

fn is_dot_dot_segment(segment: &Vec<char>) -> (dot_dot: bool)
    ensures
        dot_dot == is_dot_dot(segment@),
{
    segment.len() == 2 && segment[0] == '.' && segment[1] == '.'
}

fn last_char(text: &str) -> (last: Option<char>)
    ensures
        last == if text@.len() == 0 {
            None
        } else {
            Some(text@.last())
        },
{
    let chars = chars_of(text);
    if chars.len() == 0 {
        None
    } else {
        Some(chars[chars.len() - 1])
    }
}

/// Resolve the segments of a path, in order, into the components that remain.
/// `None` where a `..` has no component left to remove.
pub fn components(parts: &Vec<String>) -> (kept: Option<Vec<String>>)
    ensures
        match kept {
            Some(k) => accumulate(texts(parts@)) == Some(texts(k@)),
            None => accumulate(texts(parts@)) is None,
        },
{
    let mut kept: Vec<String> = Vec::new();
    let mut at: usize = 0;
    assert(texts(kept@) =~= Seq::<Seq<char>>::empty());
    assert(texts(parts@).take(0) =~= Seq::<Seq<char>>::empty());
    while at < parts.len()
        invariant
            at <= parts.len(),
            accumulate(texts(parts@).take(at as int)) == Some(texts(kept@)),
        decreases parts.len() - at,
    {
        let segment = chars_of(parts[at].as_str());
        let ghost before = texts(kept@);
        proof {
            let longer = texts(parts@).take(at + 1);
            assert(longer.drop_last() =~= texts(parts@).take(at as int));
            assert(longer.last() == segment@);
        }
        if segment.len() == 0 || is_dot_segment(&segment) {
        } else if is_dot_dot_segment(&segment) {
            match kept.pop() {
                Some(_) => {
                    assert(texts(kept@) =~= before.drop_last());
                },
                None => {
                    proof {
                        lemma_rejection_is_final(texts(parts@), at + 1);
                    }
                    return None;
                },
            }
        } else {
            kept.push(parts[at].clone());
            assert(texts(kept@) =~= before.push(segment@));
        }
        at = at + 1;
    }
    assert(texts(parts@).take(at as int) =~= texts(parts@));
    Some(kept)
}

/// Append each of `components` to `base`, with one `/` between neighbours.
pub fn join(base: &str, components: &Vec<String>) -> (joined: String)
    ensures
        joined@ == join_path(base@, texts(components@)),
{
    let mut joined = base.to_owned();
    let mut last = last_char(base);
    let mut at: usize = 0;
    assert(texts(components@).take(0) =~= Seq::<Seq<char>>::empty());
    while at < components.len()
        invariant
            at <= components.len(),
            joined@ == join_path(base@, texts(components@).take(at as int)),
            last == if joined@.len() == 0 {
                None
            } else {
                Some(joined@.last())
            },
        decreases components.len() - at,
    {
        let component = components[at].as_str();
        proof {
            let longer = texts(components@).take(at + 1);
            assert(longer.drop_last() =~= texts(components@).take(at as int));
            assert(longer.last() == component@);
            reveal_strlit("/");
        }
        let ghost before = joined@;
        let separate = match last {
            Some(c) => c != '/',
            None => false,
        };
        if separate {
            joined.append("/");
            assert(joined@ =~= before.push('/'));
            last = Some('/');
        }
        joined.append(component);
        if let Some(c) = last_char(component) {
            last = Some(c);
        }
        assert(joined@ =~= push_component(before, component@));
        at = at + 1;
    }
    assert(texts(components@).take(at as int) =~= texts(components@));
    joined
}

/// Walk the request path `url_path` from the directory `base`, segment by
/// segment, with no segment forbidden: `.` is skipped, `..` removes the
/// component before it, every other segment is appended as it stands. `None`
/// where the path would step above `base`.
pub fn walk_path(base: &str, url_path: &str) -> (resolved: Option<String>)
    ensures
        text_of(resolved) == walk_path_spec(base@, url_path@),
{
    let parts = segments(url_path);
    match components(&parts) {
        Some(kept) => Some(join(base, &kept)),
        None => None,
    }
}

/// A segment that no request may hold: one that begins with a dot and is not
/// `.` itself (a hidden file, or `..`), or one with a `*` or a backslash in it.
pub open spec fn forbidden_segment(segment: Seq<char>) -> bool {
    ||| segment.len() > 0 && segment[0] == '.' && !is_dot(segment)
    ||| segment.contains('*')
    ||| segment.contains('\\')
}

/// Some of `segments` is forbidden.
pub open spec fn any_forbidden(segments: Seq<Seq<char>>) -> bool {
    exists|i: int| 0 <= i < segments.len() && forbidden_segment(#[trigger] segments[i])
}

/// The path holds a forbidden segment.
pub open spec fn forbidden(path: Seq<char>) -> bool {
    any_forbidden(split_segments(path))
}

/// A segment that names something: neither empty nor `.`.
pub open spec fn is_name(segment: Seq<char>) -> bool {
    segment.len() > 0 && !is_dot(segment)
}

/// Those of `segments` that name something, in order.
pub open spec fn names(segments: Seq<Seq<char>>) -> Seq<Seq<char>> {
    segments.filter(|segment: Seq<char>| is_name(segment))
}

/// What resolving `path` against `base` gives: nothing for a path with a forbidden
/// segment, else the base joined with the names in the path.
pub open spec fn resolve_spec(base: Seq<char>, path: Seq<char>) -> Option<Seq<char>> {
    if forbidden(path) {
        None
    } else {
        Some(join_path(base, names(split_segments(path))))
    }
}

fn segment_is_forbidden(segment: &str) -> (bad: bool)
    ensures
        bad == forbidden_segment(segment@),
{
    let chars = chars_of(segment);
    if chars.len() == 0 {
        return false;
    }
    if chars[0] == '.' && chars.len() != 1 {
        return true;
    }
    let mut at: usize = 0;
    while at < chars.len()
        invariant
            chars@ == segment@,
            at <= chars.len(),
            forall|j: int| 0 <= j < at ==> chars@[j] != '*' && chars@[j] != '\\',
        decreases chars.len() - at,
    {
        let c = chars[at];
        if c == '*' || c == '\\' {
            assert(segment@.contains(c));
            return true;
        }
        at = at + 1;
    }
    false
}

fn holds_forbidden(parts: &Vec<String>) -> (bad: bool)
    ensures
        bad == any_forbidden(texts(parts@)),
{
    let mut at: usize = 0;
    while at < parts.len()
        invariant
            at <= parts.len(),
            forall|j: int| 0 <= j < at ==> !forbidden_segment(#[trigger] texts(parts@)[j]),
        decreases parts.len() - at,
    {
        if segment_is_forbidden(parts[at].as_str()) {
            assert(forbidden_segment(texts(parts@)[at as int]));
            return true;
        }
        at = at + 1;
    }
    false
}

/// Whether the request path holds a segment that is never served: a hidden
/// file, `..`, or anything with `*` or a backslash in it. The path is taken as
/// it was sent, before any resolution.
pub fn is_forbidden(path: &str) -> (bad: bool)
    ensures
        bad == forbidden(path@),
{
    let parts = segments(path);
    holds_forbidden(&parts)
}

/// Where no segment is `..`, the components that remain are the names among
/// the segments.
pub proof fn lemma_accumulate_without_parents(segments: Seq<Seq<char>>)
    requires
        forall|i: int| 0 <= i < segments.len() ==> !is_dot_dot(#[trigger] segments[i]),
    ensures
        accumulate(segments) == Some(names(segments)),
    decreases segments.len(),
{
    reveal(Seq::filter);
    if segments.len() > 0 {
        let earlier = segments.drop_last();
        assert forall|i: int| 0 <= i < earlier.len() implies !is_dot_dot(#[trigger] earlier[i]) by {
            assert(earlier[i] == segments[i]);
        }
        lemma_accumulate_without_parents(earlier);
        assert(!is_dot_dot(segments[segments.len() - 1]));
    }
}

/// Resolve the request path `url_path` against the directory `base`. A path
/// that holds a forbidden segment is rejected: a hidden file, anything with a
/// `*` or a backslash in it, and `..` wherever it stands, also where it would
/// stay below `base`. Of any other path the `.` and empty segments fall away
/// and the rest is joined to `base`.
pub fn resolve_path(base: &str, url_path: &str) -> (resolved: Option<String>)
    ensures
        text_of(resolved) == resolve_spec(base@, url_path@),
        resolved is None <==> forbidden(url_path@),
{
    let parts = segments(url_path);
    if holds_forbidden(&parts) {
        return None;
    }
    proof {
        let all = texts(parts@);
        assert forall|i: int| 0 <= i < all.len() implies !is_dot_dot(#[trigger] all[i]) by {
            assert(!forbidden_segment(all[i]));
        }
        lemma_accumulate_without_parents(all);
    }
    match components(&parts) {
        Some(kept) => Some(join(base, &kept)),
        None => None,
    }
}

} // verus!
