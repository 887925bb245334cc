//! The textual convention that stands in for header compression: a request
//! is the bytes `GET `, a path and a line end; a response starts with its
//! status code. The path of a request is resolved under a root directory,
//! and nothing in it can lead out of that directory.

use vstd::prelude::*;

verus! {

/// The byte `/`, which separates the components of a path.
pub const SEPARATOR: u8 = 0x2f;

/// The byte `.`.
pub const DOT: u8 = 0x2e;

/// The line feed.
pub const LINE_FEED: u8 = 0x0a;

/// The carriage return.
pub const CARRIAGE_RETURN: u8 = 0x0d;

/// The bytes `GET `, with which a request starts.
pub open spec fn get_prefix() -> Seq<u8> {
    seq![0x47u8, 0x45u8, 0x54u8, 0x20u8]
}

/// The bytes `404 `, with which the response to a failed request starts.
pub open spec fn not_found_prefix() -> Seq<u8> {
    seq![0x34u8, 0x30u8, 0x34u8, 0x20u8]
}

/// How many bytes of `s` stand before the first `byte`: all of them when
/// there is none.
pub open spec fn find_byte(s: Seq<u8>, byte: u8) -> nat
    decreases s.len(),
{
    if s.len() == 0 || s[0] == byte {
        0
    } else {
        1 + find_byte(s.skip(1), byte)
    }
}

/// The first line of `s`: what stands before the first line feed, without
/// the carriage return that may precede it; all of `s` when it holds no line
/// feed.
pub open spec fn first_line(s: Seq<u8>) -> Seq<u8> {
    let end = find_byte(s, LINE_FEED);
    if 0 < end < s.len() && s[end - 1] == CARRIAGE_RETURN {
        s.subrange(0, end - 1)
    } else {
        s.subrange(0, end as int)
    }
}

/// Whether a component names something below the directory it stands in: it
/// is not empty, and is neither `.` nor `..`.
pub open spec fn is_normal(component: Seq<u8>) -> bool {
    &&& component.len() > 0
    &&& component != seq![DOT]
    &&& component != seq![DOT, DOT]
}

/// The normal components of a path, in order: the path is cut at every
/// separator, and the pieces that are empty, `.` or `..` are dropped.
pub open spec fn normal_components(path: Seq<u8>) -> Seq<Seq<u8>>
    decreases path.len(),
{
    if path.len() == 0 {
        Seq::empty()
    } else {
        let end = find_byte(path, SEPARATOR);
        let head = path.subrange(0, end as int);
        let rest = if end < path.len() {
            path.skip((end + 1) as int)
        } else {
            Seq::empty()
        };
        if is_normal(head) {
            seq![head] + normal_components(rest)
        } else {
            normal_components(rest)
        }
    }
}

/// `base` with one more component: a separator stands between them unless
/// `base` is empty or ends with one.
pub open spec fn push_component(base: Seq<u8>, component: Seq<u8>) -> Seq<u8> {
    if base.len() > 0 && base.last() != SEPARATOR {
        base + seq![SEPARATOR] + component
    } else {
        base + component
    }
}

/// `base` with all of `components`, one after another.
pub open spec fn push_components(base: Seq<u8>, components: Seq<Seq<u8>>) -> Seq<u8>
    decreases components.len(),
{
    if components.len() == 0 {
        base
    } else {
        push_components(push_component(base, components[0]), components.skip(1))
    }
}

/// The file that a request names: the normal components of the first line
/// of `target`, resolved under `root`.
pub open spec fn request_path(root: Seq<u8>, target: Seq<u8>) -> Seq<u8> {
    push_components(root, normal_components(first_line(target)))
}

/// `find_byte` stays within the sequence, no byte before the place it gives
/// is `byte`, and the byte at that place is.
pub proof fn lemma_find_byte(s: Seq<u8>, byte: u8)
    ensures
        find_byte(s, byte) <= s.len(),
        forall|j: int| 0 <= j < find_byte(s, byte) ==> s[j] != byte,
        find_byte(s, byte) < s.len() ==> s[find_byte(s, byte) as int] == byte,
    decreases s.len(),
{
    if s.len() > 0 && s[0] != byte {
        lemma_find_byte(s.skip(1), byte);
        assert forall|j: int| 0 <= j < find_byte(s, byte) implies s[j] != byte by {
            if j > 0 {
                assert(s[j] == s.skip(1)[j - 1]);
            }
        }
    }
}

/// The place that `find_byte` gives is the only one before which no byte is
/// `byte` and at which the sequence ends or holds `byte`.
pub proof fn lemma_find_byte_is(s: Seq<u8>, byte: u8, i: nat)
    requires
        i <= s.len(),
        forall|j: int| 0 <= j < i ==> s[j] != byte,
        i < s.len() ==> s[i as int] == byte,
    ensures
        find_byte(s, byte) == i,
{
    lemma_find_byte(s, byte);
}

/// Components are only ever added: the path that a request resolves to
/// starts with the root.
pub proof fn lemma_push_components_prefix(base: Seq<u8>, components: Seq<Seq<u8>>)
    ensures
        base.is_prefix_of(push_components(base, components)),
    decreases components.len(),
{
    if components.len() > 0 {
        let next = push_component(base, components[0]);
        lemma_push_components_prefix(next, components.skip(1));
        let all = push_components(next, components.skip(1));
        assert(base.is_prefix_of(next));
        assert(all.subrange(0, base.len() as int) =~= next.subrange(0, next.len() as int).subrange(
            0,
            base.len() as int,
        ));
    }
}

/// No component that is kept is empty, `.` or `..`, and none holds a
/// separator.
pub proof fn lemma_normal_components(path: Seq<u8>, i: int)
    requires
        0 <= i < normal_components(path).len(),
    ensures
        is_normal(normal_components(path)[i]),
        forall|j: int|
            0 <= j < normal_components(path)[i].len() ==> normal_components(path)[i][j]
                != SEPARATOR,
    decreases path.len(),
{
    if path.len() > 0 {
        let end = find_byte(path, SEPARATOR);
        let head = path.subrange(0, end as int);
        let rest = if end < path.len() {
            path.skip((end + 1) as int)
        } else {
            Seq::empty()
        };
        lemma_find_byte(path, SEPARATOR);
        if is_normal(head) {
            if i > 0 {
                lemma_normal_components(rest, i - 1);
            }
        } else {
            lemma_normal_components(rest, i);
        }
    }
}

/// A request never leaves the root directory: whatever the target holds,
/// the path it resolves to starts with the root, and what was added to the
/// root is made of components that are not empty, not `.`, not `..`, and
/// hold no separator.
pub proof fn lemma_request_path_under_root(root: Seq<u8>, target: Seq<u8>)
    ensures
        root.is_prefix_of(request_path(root, target)),
        forall|i: int|
            0 <= i < normal_components(first_line(target)).len() ==> is_normal(
                #[trigger] normal_components(first_line(target))[i],
            ),
{
    let line = first_line(target);
    lemma_push_components_prefix(root, normal_components(line));
    assert forall|i: int| 0 <= i < normal_components(line).len() implies is_normal(
        #[trigger] normal_components(line)[i],
    ) by {
        lemma_normal_components(line, i);
    }
}

/// Returns the place of the first `byte` in `s` between `from` and `to`, or
/// `to` when there is none.
fn find_in(s: &[u8], from: usize, to: usize, byte: u8) -> (at: usize)
    requires
        from <= to <= s@.len(),
    ensures
        from <= at <= to,
        at - from == find_byte(s@.subrange(from as int, to as int), byte),
{
    let ghost part = s@.subrange(from as int, to as int);
    let mut at: usize = from;
    while at < to && s[at] != byte
        invariant
            from <= at <= to <= s@.len(),
            part == s@.subrange(from as int, to as int),
            forall|j: int| 0 <= j < at - from ==> part[j] != byte,
        decreases to - at,
    {
        at = at + 1;
    }
    proof {
        lemma_find_byte_is(part, byte, (at - from) as nat);
    }
    at
}

/// Returns the length of the first line of `s`.
fn first_line_len(s: &[u8]) -> (n: usize)
    ensures
        n <= s@.len(),
        first_line(s@) == s@.subrange(0, n as int),
{
    let end: usize = find_in(s, 0, s.len(), LINE_FEED);
    assert(s@.subrange(0, s@.len() as int) =~= s@);
    if 0 < end && end < s.len() && s[end - 1] == CARRIAGE_RETURN {
        end - 1
    } else {
        end
    }
}

/// Returns whether the bytes of `s` between `from` and `to` are a normal
/// component.
fn is_normal_part(s: &[u8], from: usize, to: usize) -> (normal: bool)
    requires
        from <= to <= s@.len(),
    ensures
        normal == is_normal(s@.subrange(from as int, to as int)),
{
    let ghost part = s@.subrange(from as int, to as int);
    let n: usize = to - from;
    if n == 0 {
        false
    } else if n == 1 {
        proof {
            if part[0] == DOT {
                assert(part =~= seq![DOT]);
            }
        }
        s[from] != DOT
    } else if n == 2 {
        proof {
            if part[0] == DOT && part[1] == DOT {
                assert(part =~= seq![DOT, DOT]);
            }
        }
        !(s[from] == DOT && s[from + 1] == DOT)
    } else {
        true
    }
}

/// Adds the bytes of `s` between `from` and `to` to `path` as one more
/// component.
fn push_part(path: &mut Vec<u8>, s: &[u8], from: usize, to: usize)
    requires
        from <= to <= s@.len(),
    ensures
        final(path)@ == push_component(old(path)@, s@.subrange(from as int, to as int)),
{
    let ghost part = s@.subrange(from as int, to as int);
    if path.len() > 0 && path[path.len() - 1] != SEPARATOR {
        path.push(SEPARATOR);
    }
    let ghost base = path@;
    let mut i: usize = from;
    while i < to
        invariant
            from <= i <= to <= s@.len(),
            part == s@.subrange(from as int, to as int),
            path@ == base + part.subrange(0, i - from),
        decreases to - i,
    {
        path.push(s[i]);
        i = i + 1;
    }
}

/// Returns the file that a request for `target` names under `root`: the
/// first line of `target` is cut at every separator, and each piece that is
/// not empty, `.` or `..` is added to `root`, after a separator where `root`
/// does not already end with one.
pub fn resolve_path(root: &[u8], target: &[u8]) -> (path: Vec<u8>)
    ensures
        path@ == request_path(root@, target@),
{
    let end: usize = first_line_len(target);
    let ghost line = target@.subrange(0, end as int);
    let mut path: Vec<u8> = vstd::slice::slice_to_vec(root);
    let mut pos: usize = 0;
    assert(line.skip(0) =~= line);
    while pos < end
        invariant
            pos <= end <= target@.len(),
            line == target@.subrange(0, end as int),
            request_path(root@, target@) == push_components(
                path@,
                normal_components(line.skip(pos as int)),
            ),
        decreases end - pos,
    {
        let ghost here = line.skip(pos as int);
        let stop: usize = find_in(target, pos, end, SEPARATOR);
        let normal: bool = is_normal_part(target, pos, stop);
        proof {
            assert(target@.subrange(pos as int, end as int) =~= here);
            assert(here.subrange(0, stop - pos) =~= target@.subrange(pos as int, stop as int));
            if stop < end {
                assert(here.skip(stop - pos + 1) =~= line.skip(stop + 1));
            } else {
                assert(line.skip(end as int) =~= Seq::<u8>::empty());
            }
        }
        if normal {
            push_part(&mut path, target, pos, stop);
            proof {
                let rest = normal_components(here).skip(1);
                assert(rest =~= normal_components(
                    if stop < end {
                        line.skip(stop + 1)
                    } else {
                        Seq::<u8>::empty()
                    },
                ));
            }
        }
        pos = if stop < end {
            stop + 1
        } else {
            stop
        };
    }
    path
}

/// Returns whether `s` starts with the bytes `GET `.
pub fn is_get_request(s: &[u8]) -> (get: bool)
    ensures
        get == get_prefix().is_prefix_of(s@),
{
    s.len() >= 4 && s[0] == 0x47 && s[1] == 0x45 && s[2] == 0x54 && s[3] == 0x20
}

/// Returns whether `s` starts with the bytes `404 `.
pub fn is_not_found_response(s: &[u8]) -> (not_found: bool)
    ensures
        not_found == not_found_prefix().is_prefix_of(s@),
{
    s.len() >= 4 && s[0] == 0x34 && s[1] == 0x30 && s[2] == 0x34 && s[3] == 0x20
}

} // verus!
