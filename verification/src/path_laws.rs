//! What holds of path resolution for every base and every request path.

use vstd::prelude::*;
use crate::path::{
    accumulate, forbidden, forbidden_segment, is_dot, is_dot_dot, is_name, join_path,
    lemma_accumulate_without_parents, lemma_rejection_is_final, lemma_split_is_not_empty, names,
    walk_path_spec, resolve_spec, split_segments, text_of,
};

verus! {

/// Some `..` among `segments` stands where no component is left to remove.
pub open spec fn escapes(segments: Seq<Seq<char>>) -> bool {
    exists|k: int|
        0 <= k < segments.len() && is_dot_dot(segments[k]) && #[trigger] accumulate(
            segments.take(k),
        ) == Some(Seq::<Seq<char>>::empty())
}

/// A path is rejected by the segment-wise resolution exactly when one of its
/// `..` segments would step above the base: never otherwise, and always then,
/// whatever follows.
pub proof fn lemma_rejected_iff_escapes(segments: Seq<Seq<char>>)
    ensures
        accumulate(segments) is None <==> escapes(segments),
    decreases segments.len(),
{
    if segments.len() > 0 {
        let earlier = segments.drop_last();
        let last = segments.len() - 1;
        lemma_rejected_iff_escapes(earlier);
        assert(segments.take(last) =~= earlier);
        if escapes(segments) {
            let k = choose|k: int|
                0 <= k < segments.len() && is_dot_dot(segments[k]) && #[trigger] accumulate(
                    segments.take(k),
                ) == Some(Seq::<Seq<char>>::empty());
            let upto = segments.take(k + 1);
            assert(upto.drop_last() =~= segments.take(k));
            assert(upto.last() == segments[k]);
            assert(accumulate(upto) is None);
            lemma_rejection_is_final(segments, k + 1);
        }
        if accumulate(segments) is None {
            if accumulate(earlier) is None {
                let k = choose|k: int|
                    0 <= k < earlier.len() && is_dot_dot(earlier[k]) && #[trigger] accumulate(
                        earlier.take(k),
                    ) == Some(Seq::<Seq<char>>::empty());
                assert(segments.take(k) =~= earlier.take(k));
                assert(segments[k] == earlier[k]);
            } else {
                assert(is_dot_dot(segments[last]));
                assert(accumulate(segments.take(last)) == Some(Seq::<Seq<char>>::empty()));
            }
        }
    }
}

/// A request path that steps above the base is rejected, by the resolution
/// and by the bare walk alike.
pub proof fn lemma_escape_is_rejected(base: Seq<char>, path: Seq<char>)
    requires
        escapes(split_segments(path)),
    ensures
        walk_path_spec(base, path) is None,
        resolve_spec(base, path) is None,
{
    let segments = split_segments(path);
    lemma_rejected_iff_escapes(segments);
    let k = choose|k: int|
        0 <= k < segments.len() && is_dot_dot(segments[k]) && #[trigger] accumulate(
            segments.take(k),
        ) == Some(Seq::<Seq<char>>::empty());
    assert(forbidden_segment(segments[k]));
}

/// A path made of `.`, empty and other segments, none of them `..`, walks to
/// the base joined with its names: the `.` and empty segments fall away and
/// nothing else changes. Where none of its segments is forbidden, it resolves
/// to the same.
pub proof fn lemma_plain_path_is_joined(base: Seq<char>, path: Seq<char>)
    requires
        forall|i: int|
            0 <= i < split_segments(path).len() ==> !is_dot_dot(#[trigger] split_segments(path)[i]),
    ensures
        walk_path_spec(base, path) == Some(join_path(base, names(split_segments(path)))),
        !forbidden(path) ==> resolve_spec(base, path) == walk_path_spec(base, path),
{
    lemma_accumulate_without_parents(split_segments(path));
}

/// No segment of a path holds a `/`.
pub proof fn lemma_segments_hold_no_slash(path: Seq<char>)
    ensures
        forall|i: int|
            0 <= i < split_segments(path).len() ==> !(#[trigger] split_segments(path)[i]).contains(
                '/',
            ),
    decreases path.len(),
{
    let segments = split_segments(path);
    if path.len() == 0 {
        assert(segments[0] =~= Seq::<char>::empty());
    } else {
        let earlier = split_segments(path.drop_last());
        lemma_segments_hold_no_slash(path.drop_last());
        lemma_split_is_not_empty(path.drop_last());
        assert forall|i: int| 0 <= i < segments.len() implies !(#[trigger] segments[i]).contains(
            '/',
        ) by {
            if path.last() == '/' {
                if i < earlier.len() {
                    assert(segments[i] == earlier[i]);
                }
            } else {
                if i < earlier.len() - 1 {
                    assert(segments[i] == earlier[i]);
                } else {
                    let grown = earlier.last().push(path.last());
                    assert(segments[i] == grown);
                    assert(!earlier[earlier.len() - 1].contains('/'));
                    if grown.contains('/') {
                        let j = choose|j: int| 0 <= j < grown.len() && grown[j] == '/';
                        assert(earlier.last()[j] == '/');
                        assert(earlier.last().contains('/'));
                    }
                }
            }
        }
    }
}

/// Every character of a path other than `/` stands in one of its segments.
pub proof fn lemma_character_stands_in_segment(path: Seq<char>, c: char)
    requires
        c != '/',
        path.contains(c),
    ensures
        exists|i: int|
            0 <= i < split_segments(path).len() && (#[trigger] split_segments(path)[i]).contains(c),
    decreases path.len(),
{
    let segments = split_segments(path);
    let earlier = split_segments(path.drop_last());
    lemma_split_is_not_empty(path.drop_last());
    let at = choose|at: int| 0 <= at < path.len() && path[at] == c;
    if at == path.len() - 1 {
        let grown = earlier.last().push(c);
        assert(grown[grown.len() - 1] == c);
        assert(segments[segments.len() - 1] == grown);
        assert(segments[segments.len() - 1].contains(c));
    } else {
        assert(path.drop_last()[at] == c);
        lemma_character_stands_in_segment(path.drop_last(), c);
        let i = choose|i: int| 0 <= i < earlier.len() && (#[trigger] earlier[i]).contains(c);
        let j = choose|j: int| 0 <= j < earlier[i].len() && earlier[i][j] == c;
        if path.last() == '/' || i < earlier.len() - 1 {
            assert(segments[i] == earlier[i]);
        } else {
            let grown = earlier.last().push(path.last());
            assert(segments[i] == grown);
            assert(grown[j] == c);
        }
        assert(segments[i].contains(c));
    }
}

/// A path with a `*` or a backslash anywhere in it, or with a segment that
/// begins with a dot and is not `.`, is rejected.
pub proof fn lemma_forbidden_is_rejected(base: Seq<char>, path: Seq<char>)
    requires
        path.contains('*') || path.contains('\\') || (exists|i: int|
            0 <= i < split_segments(path).len() && (#[trigger] split_segments(path)[i]).len() > 0
                && split_segments(path)[i][0] == '.' && !is_dot(split_segments(path)[i])),
    ensures
        forbidden(path),
        resolve_spec(base, path) is None,
{
    if path.contains('*') {
        lemma_character_stands_in_segment(path, '*');
    } else if path.contains('\\') {
        lemma_character_stands_in_segment(path, '\\');
    }
}

/// Resolving the same base and path twice gives the same answer.
pub proof fn lemma_resolve_path_is_repeatable(
    base: Seq<char>,
    path: Seq<char>,
    first: Option<String>,
    second: Option<String>,
)
    requires
        text_of(first) == resolve_spec(base, path),
        text_of(second) == resolve_spec(base, path),
    ensures
        text_of(first) == text_of(second),
        first is None <==> second is None,
{
}

/// Walking the same path from the same base twice gives the same answer.
pub proof fn lemma_walk_path_is_repeatable(
    base: Seq<char>,
    path: Seq<char>,
    first: Option<String>,
    second: Option<String>,
)
    requires
        text_of(first) == walk_path_spec(base, path),
        text_of(second) == walk_path_spec(base, path),
    ensures
        text_of(first) == text_of(second),
        first is None <==> second is None,
{
}

/// A component that can stand below a directory: a non-empty name that is
/// neither `.` nor `..`.
pub open spec fn is_child_name(component: Seq<char>) -> bool {
    is_name(component) && !is_dot_dot(component)
}

/// The components that a resolution keeps are all child names taken from the
/// segments: none is empty, `.` or `..`.
pub proof fn lemma_components_are_child_names(segments: Seq<Seq<char>>)
    requires
        accumulate(segments) is Some,
    ensures
        forall|i: int|
            0 <= i < accumulate(segments)->0.len() ==> is_child_name(
                #[trigger] accumulate(segments)->0[i],
            ) && segments.contains(accumulate(segments)->0[i]),
    decreases segments.len(),
{
    if segments.len() > 0 {
        let earlier = segments.drop_last();
        lemma_components_are_child_names(earlier);
        let before = accumulate(earlier)->0;
        let after = accumulate(segments)->0;
        assert forall|i: int| 0 <= i < after.len() implies is_child_name(#[trigger] after[i])
            && segments.contains(after[i]) by {
            if i < before.len() {
                assert(after[i] == before[i]);
                let j = choose|j: int| 0 <= j < earlier.len() && earlier[j] == before[i];
                assert(segments[j] == before[i]);
            } else {
                assert(after[i] == segments[segments.len() - 1]);
            }
        }
    }
}

/// Joining components to a base only appends to it.
pub proof fn lemma_join_extends_base(base: Seq<char>, components: Seq<Seq<char>>)
    ensures
        base.is_prefix_of(join_path(base, components)),
    decreases components.len(),
{
    if components.len() > 0 {
        lemma_join_extends_base(base, components.drop_last());
        let shorter = join_path(base, components.drop_last());
        let longer = join_path(base, components);
        assert(shorter =~= longer.subrange(0, shorter.len() as int));
        assert(base =~= longer.subrange(0, base.len() as int));
    }
}

/// A walked path never leaves its base: it is the base followed by child
/// names only, each a segment of the request and none with a `/` in it.
pub proof fn lemma_walked_path_is_below_base(base: Seq<char>, path: Seq<char>)
    requires
        walk_path_spec(base, path) is Some,
    ensures
        walk_path_spec(base, path)->0 == join_path(base, accumulate(split_segments(path))->0),
        base.is_prefix_of(walk_path_spec(base, path)->0),
        forall|i: int|
            0 <= i < accumulate(split_segments(path))->0.len() ==> {
                let component = #[trigger] accumulate(split_segments(path))->0[i];
                is_child_name(component) && !component.contains('/')
            },
{
    let segments = split_segments(path);
    let kept = accumulate(segments)->0;
    lemma_components_are_child_names(segments);
    lemma_segments_hold_no_slash(path);
    lemma_join_extends_base(base, kept);
    assert forall|i: int| 0 <= i < kept.len() implies is_child_name(#[trigger] kept[i])
        && !kept[i].contains('/') by {
        let j = choose|j: int| 0 <= j < segments.len() && segments[j] == kept[i];
        assert(!segments[j].contains('/'));
    }
}

/// A resolved path never leaves its base: it is the base followed by the
/// names in the request, in order, and none of them is `..`, hidden, or holds
/// a `/`, a `*` or a backslash.
pub proof fn lemma_resolved_path_is_below_base(base: Seq<char>, path: Seq<char>)
    requires
        resolve_spec(base, path) is Some,
    ensures
        resolve_spec(base, path) == walk_path_spec(base, path),
        resolve_spec(base, path)->0 == join_path(base, names(split_segments(path))),
        base.is_prefix_of(resolve_spec(base, path)->0),
        forall|i: int|
            0 <= i < names(split_segments(path)).len() ==> {
                let component = #[trigger] names(split_segments(path))[i];
                is_child_name(component) && !forbidden_segment(component) && !component.contains(
                    '/',
                )
            },
{
    let segments = split_segments(path);
    assert forall|i: int| 0 <= i < segments.len() implies !is_dot_dot(#[trigger] segments[i]) by {
        assert(!forbidden_segment(segments[i]));
    }
    lemma_accumulate_without_parents(segments);
    lemma_walked_path_is_below_base(base, path);
    lemma_components_are_child_names(segments);
    let kept = names(segments);
    assert forall|i: int| 0 <= i < kept.len() implies !forbidden_segment(#[trigger] kept[i]) by {
        let j = choose|j: int| 0 <= j < segments.len() && segments[j] == kept[i];
        assert(!forbidden_segment(segments[j]));
    }
}

} // verus!
