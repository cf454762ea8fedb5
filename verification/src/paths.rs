//! Paths as the asset API hands them over: strings of bytes whose components
//! are separated by `/`. Two paths are the same where their components are,
//! however many separators stand between them.
use vstd::prelude::*;
use crate::bytes::bytes_eq;

verus! {

/// A piece between two separators is a component unless it is empty or `.`.
pub open spec fn is_component(piece: Seq<u8>) -> bool {
    piece.len() > 0 && piece != seq![46u8]
}

/// Whether the path begins with a component of one byte that is no
/// piece between separators: the root `/`, or a `.` of its own at the very
/// start.
pub open spec fn has_marker(path: Seq<u8>) -> bool {
    path.len() > 0 && (path[0] == 47 || (path[0] == 46 && (path.len() == 1 || path[1] == 47)))
}

/// The places of the components that end at or after index `at`, where the
/// piece that `at` lies in began at index `start`: for each the index of its
/// first byte and the index after its last.
pub open spec fn ranges_from(path: Seq<u8>, start: int, at: int) -> Seq<(int, int)>
    decreases path.len() - at,
{
    if at < 0 || at >= path.len() {
        if 0 <= start <= path.len() && is_component(path.subrange(start, path.len() as int)) {
            seq![(start, path.len() as int)]
        } else {
            Seq::empty()
        }
    } else if path[at] == 47 {
        (if is_component(path.subrange(start, at)) {
            seq![(start, at)]
        } else {
            Seq::empty()
        }) + ranges_from(path, at + 1, at + 1)
    } else {
        ranges_from(path, start, at + 1)
    }
}

/// The places of the path's components, in order. A root or a leading `.`
/// comes first; after it the pieces between separators that are components.
pub open spec fn ranges(path: Seq<u8>) -> Seq<(int, int)> {
    (if has_marker(path) {
        seq![(0int, 1int)]
    } else {
        Seq::empty()
    }) + ranges_from(path, 0, 0)
}

/// The path's components.
pub open spec fn components(path: Seq<u8>) -> Seq<Seq<u8>> {
    ranges(path).map_values(|place: (int, int)| path.subrange(place.0, place.1))
}

/// Two paths are the same where their components are.
pub open spec fn same_path(one: Seq<u8>, other: Seq<u8>) -> bool {
    components(one) == components(other)
}

/// The components of `base` are the first components of `path`.
pub open spec fn begins_with(path: Seq<u8>, base: Seq<u8>) -> bool {
    components(base).len() <= components(path).len() && components(path).take(
        components(base).len() as int,
    ) == components(base)
}

/// What `path` holds below its first `count` components, as it is written:
/// from the first byte of the next component to the last byte of the last
/// one. Empty where no component is left.
pub open spec fn below(path: Seq<u8>, count: int) -> Seq<u8> {
    if 0 <= count < ranges(path).len() {
        path.subrange(ranges(path)[count].0, ranges(path).last().1)
    } else {
        Seq::empty()
    }
}

/// What `path` holds below `base`, where it begins with `base`.
pub open spec fn stripped(path: Seq<u8>, base: Seq<u8>) -> Option<Seq<u8>> {
    if begins_with(path, base) {
        Some(below(path, components(base).len() as int))
    } else {
        None
    }
}

/// The places as mathematical integers.
pub open spec fn places(found: Seq<(usize, usize)>) -> Seq<(int, int)> {
    found.map_values(|place: (usize, usize)| (place.0 as int, place.1 as int))
}

/// The places lie in a text of `len` bytes, one after another.
pub open spec fn in_order(found: Seq<(usize, usize)>, len: int) -> bool {
    &&& forall|i: int| 0 <= i < found.len() ==> (#[trigger] found[i]).0 <= found[i].1 <= len
    &&& forall|i: int, j: int|
        0 <= i < j < found.len() ==> (#[trigger] found[i]).1 <= (#[trigger] found[j]).0
}

fn component(piece: &[u8]) -> (yes: bool)
    ensures
        yes == is_component(piece@),
{
    if piece.len() == 0 {
        return false;
    }
    if piece.len() == 1 && piece[0] == 46 {
        assert(piece@ =~= seq![46u8]);
        return false;
    }
    proof {
        if piece@ == seq![46u8] {
            assert(piece@.len() == 1);
            assert(piece@[0] == 46u8);
        }
    }
    true
}

/// Finds the components of `path`.
pub fn split(path: &[u8]) -> (found: Vec<(usize, usize)>)
    ensures
        places(found@) == ranges(path@),
        in_order(found@, path@.len() as int),
{
    let mut found: Vec<(usize, usize)> = Vec::new();
    let marked = path.len() > 0 && (path[0] == 47 || (path[0] == 46 && (path.len() == 1 || path[1]
        == 47)));
    if marked {
        found.push((0, 1));
        assert(places(found@) =~= seq![(0int, 1int)]);
    } else {
        assert(places(found@) =~= Seq::<(int, int)>::empty());
    }
    let mut start: usize = 0;
    let mut at: usize = 0;
    while at < path.len()
        invariant
            start <= at <= path.len(),
            marked == has_marker(path@),
            marked ==> found.len() >= 1 && found@[0] == (0usize, 1usize),
            ranges(path@) == places(found@) + ranges_from(path@, start as int, at as int),
            forall|k: int| start <= k < at ==> path@[k] != 47,
            forall|i: int|
                0 <= i < found.len() ==> (#[trigger] found@[i]).0 <= found@[i].1 <= path.len(),
            forall|i: int, j: int|
                0 <= i < j < found.len() ==> (#[trigger] found@[i]).1 <= (#[trigger] found@[j]).0,
            forall|i: int|
                0 <= i < found.len() ==> (#[trigger] found@[i]).1 <= start || (start == 0 && marked
                    && found.len() == 1),
        decreases path.len() - at,
    {
        if path[at] == 47 {
            let piece = vstd::slice::slice_subrange(path, start, at);
            if component(piece) {
                proof {
                    if start == 0 && marked {
                        if path@[0] == 47 {
                            assert(at == 0);
                            assert(piece@.len() == 0);
                        } else {
                            assert(at <= 1) by {
                                if at > 1 {
                                    assert(path@[1] != 47);
                                }
                            }
                            assert(at == 1);
                            assert(piece@ =~= seq![46u8]);
                        }
                        assert(false);
                    }
                    let before = found@;
                    assert(places(before.push((start, at))) =~= places(before) + seq![
                        (start as int, at as int),
                    ]);
                    assert(places(before) + (seq![(start as int, at as int)] + ranges_from(
                        path@,
                        at + 1,
                        at + 1,
                    )) =~= places(before) + seq![(start as int, at as int)] + ranges_from(
                        path@,
                        at + 1,
                        at + 1,
                    ));
                }
                found.push((start, at));
            } else {
                proof {
                    assert(Seq::<(int, int)>::empty() + ranges_from(path@, at + 1, at + 1)
                        =~= ranges_from(path@, at + 1, at + 1));
                }
            }
            proof {
                if start == 0 && marked && found.len() == 1 && path@[0] != 47 {
                    assert(at >= 1);
                }
            }
            start = at + 1;
        }
        at += 1;
    }
    let piece = vstd::slice::slice_subrange(path, start, path.len());
    if component(piece) {
        proof {
            if start == 0 && marked {
                if path@[0] == 47 {
                    assert(false);
                } else {
                    assert(path@.len() <= 1) by {
                        if path@.len() > 1 {
                            assert(path@[1] != 47);
                        }
                    }
                    assert(piece@ =~= seq![46u8]);
                }
                assert(false);
            }
            let before = found@;
            assert(places(before.push((start, path.len()))) =~= places(before) + seq![
                (start as int, path.len() as int),
            ]);
        }
        found.push((start, path.len()));
    } else {
        proof {
            assert(places(found@) + Seq::<(int, int)>::empty() =~= places(found@));
        }
    }
    found
}

/// The component of `path` at the place `place`.
fn piece_at(path: &[u8], place: (usize, usize)) -> (piece: &[u8])
    requires
        place.0 <= place.1 <= path.len(),
    ensures
        piece@ == path@.subrange(place.0 as int, place.1 as int),
{
    vstd::slice::slice_subrange(path, place.0, place.1)
}

/// Whether two paths are the same, component by component.
pub fn same(one: &[u8], other: &[u8]) -> (yes: bool)
    ensures
        yes == same_path(one@, other@),
{
    let a = split(one);
    let b = split(other);
    if a.len() != b.len() {
        assert(components(one@).len() != components(other@).len());
        return false;
    }
    let mut i: usize = 0;
    while i < a.len()
        invariant
            i <= a.len(),
            a.len() == b.len(),
            places(a@) == ranges(one@),
            places(b@) == ranges(other@),
            in_order(a@, one@.len() as int),
            in_order(b@, other@.len() as int),
            forall|k: int| 0 <= k < i ==> components(one@)[k] == components(other@)[k],
        decreases a.len() - i,
    {
        proof {
            assert(places(a@)[i as int] == ranges(one@)[i as int]);
            assert(places(b@)[i as int] == ranges(other@)[i as int]);
        }
        if !bytes_eq(piece_at(one, a[i]), piece_at(other, b[i])) {
            assert(components(one@)[i as int] != components(other@)[i as int]);
            return false;
        }
        i += 1;
    }
    assert(components(one@) =~= components(other@));
    true
}

/// What `path` holds below `base`, as it is written, where the components of
/// `base` are the first of `path`.
pub fn strip_prefix<'a>(path: &'a [u8], base: &[u8]) -> (rest: Option<&'a [u8]>)
    ensures
        match rest {
            Some(left) => stripped(path@, base@) == Some(left@),
            None => stripped(path@, base@) is None,
        },
{
    let p = split(path);
    let b = split(base);
    if b.len() > p.len() {
        return None;
    }
    let mut i: usize = 0;
    while i < b.len()
        invariant
            i <= b.len() <= p.len(),
            places(p@) == ranges(path@),
            places(b@) == ranges(base@),
            in_order(p@, path@.len() as int),
            in_order(b@, base@.len() as int),
            forall|k: int| 0 <= k < i ==> components(path@)[k] == components(base@)[k],
        decreases b.len() - i,
    {
        proof {
            assert(places(p@)[i as int] == ranges(path@)[i as int]);
            assert(places(b@)[i as int] == ranges(base@)[i as int]);
        }
        if !bytes_eq(piece_at(path, p[i]), piece_at(base, b[i])) {
            proof {
                assert(components(path@)[i as int] != components(base@)[i as int]);
                assert(components(path@).take(components(base@).len() as int)[i as int]
                    == components(path@)[i as int]);
            }
            return None;
        }
        i += 1;
    }
    proof {
        assert(components(path@).take(components(base@).len() as int) =~= components(base@));
    }
    if b.len() < p.len() {
        proof {
            assert(places(p@)[b.len() as int] == ranges(path@)[b.len() as int]);
            assert(places(p@)[p.len() - 1] == ranges(path@)[p.len() - 1]);
        }
        let from = p[b.len()].0;
        let to = p[p.len() - 1].1;
        Some(vstd::slice::slice_subrange(path, from, to))
    } else {
        let left = vstd::slice::slice_subrange(path, 0, 0);
        assert(left@ =~= Seq::<u8>::empty());
        Some(left)
    }
}

} // verus!
