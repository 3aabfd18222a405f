//! Unix paths as text.
//!
//! A path is read as a list of components: a leading `/` is a component of its own, a leading `.`
//! is one where the path is relative, and each segment between slashes that is neither empty nor
//! `.` is one. Two paths with the same components name the same place, whatever their spelling.

use vstd::prelude::*;
use vstd::string::*;

use crate::text::{
    chars_of, concat2, concat3, find_from, index_from, join, joined, lemma_index_from,
    lemma_index_from_is, lemma_texts_push, same_text, text_of, texts,
};

verus! {

// ---------------------------------------------------------------- model

/// A segment that is no component: an empty one, or `.`.
pub open spec fn skipped(seg: Seq<char>) -> bool {
    seg.len() == 0 || seg == seq!['.']
}

/// Whether the path begins at the root.
pub open spec fn is_absolute(s: Seq<char>) -> bool {
    s.len() > 0 && s[0] == '/'
}

/// Whether the path is relative and its first segment is `.`.
pub open spec fn leading_dot(s: Seq<char>) -> bool {
    s.len() > 0 && s[0] == '.' && (s.len() == 1 || s[1] == '/')
}

/// The positions of the segments of `s` from `i` on that are not skipped.
pub open spec fn ranges_from(s: Seq<char>, i: int) -> Seq<(int, int)>
    decreases s.len() - i + 1,
{
    let k = index_from(s, '/', i);
    if i < 0 || i >= s.len() || k < i || k > s.len() {
        Seq::empty()
    } else if skipped(s.subrange(i, k)) {
        ranges_from(s, k + 1)
    } else {
        seq![(i, k)] + ranges_from(s, k + 1)
    }
}

/// The segments of `s` from `i` on that are not skipped.
pub open spec fn segments_from(s: Seq<char>, i: int) -> Seq<Seq<char>>
    decreases s.len() - i + 1,
{
    let k = index_from(s, '/', i);
    if i < 0 || i >= s.len() || k < i || k > s.len() {
        Seq::empty()
    } else if skipped(s.subrange(i, k)) {
        segments_from(s, k + 1)
    } else {
        seq![s.subrange(i, k)] + segments_from(s, k + 1)
    }
}

/// The component that stands before all segments, where there is one.
pub open spec fn lead(s: Seq<char>) -> Seq<Seq<char>> {
    if is_absolute(s) {
        seq![seq!['/']]
    } else if leading_dot(s) {
        seq![seq!['.']]
    } else {
        Seq::empty()
    }
}

/// The components of a path.
pub open spec fn components(s: Seq<char>) -> Seq<Seq<char>> {
    lead(s) + segments_from(s, 0)
}

/// The path `rel` taken from `base`: `rel` itself where it is absolute, else `rel` behind `base`,
/// with a slash between the two where `base` is not empty and does not end in one.
pub open spec fn pushed(base: Seq<char>, rel: Seq<char>) -> Seq<char> {
    if is_absolute(rel) {
        rel
    } else if base.len() == 0 || base.last() == '/' {
        base + rel
    } else {
        base + seq!['/'] + rel
    }
}

/// The path without its root: from its first segment that counts to its last. A relative path is
/// left as it is.
pub open spec fn rootless(s: Seq<char>) -> Seq<char> {
    let r = ranges_from(s, 0);
    if !is_absolute(s) {
        s
    } else if r.len() == 0 {
        Seq::empty()
    } else {
        s.subrange(r[0].0, r.last().1)
    }
}

/// The path without its last component, where that is not the root.
pub open spec fn parent_of(s: Seq<char>) -> Option<Seq<char>> {
    let r = ranges_from(s, 0);
    if r.len() >= 2 {
        Some(s.take(r[r.len() - 2].1))
    } else if r.len() == 1 {
        Some(s.take(lead(s).len() as int))
    } else if leading_dot(s) {
        Some(Seq::empty())
    } else {
        None
    }
}

/// Whether `base` is `s` or stands above it.
pub open spec fn is_under(s: Seq<char>, base: Seq<char>) -> bool {
    components(base).is_prefix_of(components(s))
}

/// How many places down a way leads, where every `..` leads one up.
pub open spec fn descent(cs: Seq<Seq<char>>) -> int
    decreases cs.len(),
{
    if cs.len() == 0 {
        0
    } else if cs.last() == ".."@ {
        descent(cs.drop_last()) - 1
    } else {
        descent(cs.drop_last()) + 1
    }
}

/// The way never leads above the place where it begins.
pub open spec fn never_climbs_out(cs: Seq<Seq<char>>) -> bool {
    forall|k: int| 0 <= k <= cs.len() ==> #[trigger] descent(cs.take(k)) >= 0
}

/// Whether `base` is `s` or stands above it, and `s` does not lead out of `base` again.
pub open spec fn stays_under(s: Seq<char>, base: Seq<char>) -> bool {
    is_under(s, base) && never_climbs_out(components(s).skip(components(base).len() as int))
}

/// The one spelling that stands for every path with these components.
pub open spec fn spelled(cs: Seq<Seq<char>>) -> Seq<char> {
    if cs.len() > 0 && cs[0] == seq!['/'] {
        seq!['/'] + joined(cs.drop_first(), seq!['/'])
    } else {
        joined(cs, seq!['/'])
    }
}

/// The canonical spelling of a path.
pub open spec fn canonical(s: Seq<char>) -> Seq<char> {
    spelled(components(s))
}

// ---------------------------------------------------------------- lemmas

/// Where the kept segments lie.
pub proof fn lemma_ranges(s: Seq<char>, i: int)
    requires
        0 <= i,
    ensures
        forall|j: int|
            0 <= j < ranges_from(s, i).len() ==> {
                let r = #[trigger] ranges_from(s, i)[j];
                i <= r.0 < r.1 <= s.len() && !skipped(s.subrange(r.0, r.1))
                    && index_from(s, '/', r.0) == r.1
            },
        forall|j: int, k: int|
            0 <= j < k < ranges_from(s, i).len() ==> (#[trigger] ranges_from(s, i)[j]).1 < (
            #[trigger] ranges_from(s, i)[k]).0,
        segments_from(s, i) == Seq::new(
            ranges_from(s, i).len(),
            |j: int| s.subrange(ranges_from(s, i)[j].0, ranges_from(s, i)[j].1),
        ),
    decreases s.len() - i + 1,
{
    let k = index_from(s, '/', i);
    if i < s.len() {
        lemma_index_from(s, '/', i);
        lemma_ranges(s, k + 1);
        let rest = ranges_from(s, k + 1);
        if !skipped(s.subrange(i, k)) {
            assert(ranges_from(s, i) =~= seq![(i, k)] + rest);
            assert(i < k);
            assert forall|j: int| 0 <= j < ranges_from(s, i).len() implies {
                let r = #[trigger] ranges_from(s, i)[j];
                i <= r.0 < r.1 <= s.len() && !skipped(s.subrange(r.0, r.1)) && index_from(
                    s,
                    '/',
                    r.0,
                ) == r.1
            } by {
                if j > 0 {
                    assert(ranges_from(s, i)[j] == rest[j - 1]);
                }
            }
            assert forall|j: int, l: int| 0 <= j < l < ranges_from(s, i).len() implies (
            #[trigger] ranges_from(s, i)[j]).1 < (#[trigger] ranges_from(s, i)[l]).0 by {
                assert(ranges_from(s, i)[l] == rest[l - 1]);
                if j > 0 {
                    assert(ranges_from(s, i)[j] == rest[j - 1]);
                }
            }
        }
        assert(segments_from(s, i) =~= Seq::new(
            ranges_from(s, i).len(),
            |j: int| s.subrange(ranges_from(s, i)[j].0, ranges_from(s, i)[j].1),
        ));
    } else {
        assert(segments_from(s, i) =~= Seq::new(
            ranges_from(s, i).len(),
            |j: int| s.subrange(ranges_from(s, i)[j].0, ranges_from(s, i)[j].1),
        ));
    }
}

/// The segments of a text do not depend on what stands before the place where reading starts.
proof fn lemma_segments_suffix(pre: Seq<char>, b: Seq<char>, j: int)
    requires
        0 <= j,
    ensures
        segments_from(pre + b, pre.len() + j) == segments_from(b, j),
    decreases b.len() - j + 1,
{
    let s = pre + b;
    let n = pre.len() as int;
    if j < b.len() {
        let k = index_from(b, '/', j);
        lemma_index_from(b, '/', j);
        assert forall|i: int| n + j <= i < n + k implies s[i] != '/' by {
            assert(s[i] == b[i - n]);
        }
        lemma_index_from_is(s, '/', n + j, n + k);
        assert(s.subrange(n + j, n + k) =~= b.subrange(j, k));
        lemma_segments_suffix(pre, b, k + 1);
    }
}

/// Reading `a`, a slash and `b` gives the segments of `a`, then those of `b`.
proof fn lemma_segments_concat(a: Seq<char>, b: Seq<char>, i: int)
    requires
        0 <= i <= a.len(),
    ensures
        segments_from(a + seq!['/'] + b, i) == segments_from(a, i) + segments_from(b, 0),
    decreases a.len() - i + 1,
{
    let s = a + seq!['/'] + b;
    let pre = a + seq!['/'];
    let k = index_from(a, '/', i);
    lemma_index_from(a, '/', i);
    assert forall|x: int| i <= x < k implies s[x] != '/' by {
        assert(s[x] == a[x]);
    }
    lemma_index_from_is(s, '/', i, k);
    assert(s.subrange(i, k) =~= a.subrange(i, k));
    if k < a.len() {
        lemma_segments_concat(a, b, k + 1);
        assert(segments_from(s, i) =~= segments_from(a, i) + segments_from(b, 0));
    } else {
        lemma_segments_suffix(pre, b, 0);
        assert(segments_from(s, k + 1) == segments_from(b, 0));
        assert(segments_from(a, k + 1) =~= Seq::<Seq<char>>::empty());
        assert(segments_from(s, i) =~= segments_from(a, i) + segments_from(b, 0));
    }
}

/// Cutting a text right behind its kept segment `j` keeps the segments up to that one.
proof fn lemma_ranges_take(s: Seq<char>, i: int, j: int)
    requires
        0 <= i,
        0 <= j < ranges_from(s, i).len(),
    ensures
        ranges_from(s.take(ranges_from(s, i)[j].1), i) == ranges_from(s, i).take(j + 1),
    decreases s.len() - i + 1,
{
    let r = ranges_from(s, i);
    let e = r[j].1;
    let t = s.take(e);
    let k = index_from(s, '/', i);
    lemma_ranges(s, i);
    lemma_index_from(s, '/', i);
    assert(i < s.len());
    assert(e <= s.len());
    let rest = ranges_from(s, k + 1);
    if skipped(s.subrange(i, k)) {
        assert(r == rest);
        lemma_ranges(s, k + 1);
        assert(k + 1 <= r[j].0);
        assert forall|x: int| i <= x < k implies t[x] != '/' by {
            assert(t[x] == s[x]);
        }
        lemma_index_from_is(t, '/', i, k);
        assert(t.subrange(i, k) =~= s.subrange(i, k));
        lemma_ranges_take(s, k + 1, j);
    } else {
        assert(r =~= seq![(i, k)] + rest);
        if j == 0 {
            assert(e == k);
            lemma_index_from_is(t, '/', i, k);
            assert(t.subrange(i, k) =~= s.subrange(i, k));
            assert(ranges_from(t, k + 1) =~= Seq::<(int, int)>::empty());
            assert(ranges_from(t, i) =~= r.take(1));
        } else {
            assert(r[j] == rest[j - 1]);
            lemma_ranges(s, k + 1);
            assert(k + 1 <= rest[j - 1].0);
            assert forall|x: int| i <= x < k implies t[x] != '/' by {
                assert(t[x] == s[x]);
            }
            lemma_index_from_is(t, '/', i, k);
            assert(t.subrange(i, k) =~= s.subrange(i, k));
            lemma_ranges_take(s, k + 1, j - 1);
            assert(r.take(j + 1) =~= seq![(i, k)] + rest.take(j));
            assert(ranges_from(t, i) =~= r.take(j + 1));
        }
    }
}

/// Segments are not skipped and hold no slash.
pub open spec fn plain(seg: Seq<char>) -> bool {
    !skipped(seg) && !seg.contains('/')
}

/// The segments of a text are plain.
pub proof fn lemma_segments_plain(s: Seq<char>, i: int)
    requires
        0 <= i,
    ensures
        forall|j: int|
            0 <= j < segments_from(s, i).len() ==> plain(#[trigger] segments_from(s, i)[j]),
    decreases s.len() - i + 1,
{
    if i < s.len() {
        let k = index_from(s, '/', i);
        lemma_index_from(s, '/', i);
        lemma_segments_plain(s, k + 1);
        let seg = s.subrange(i, k);
        assert(!seg.contains('/')) by {
            if seg.contains('/') {
                let x = choose|x: int| 0 <= x < seg.len() && seg[x] == '/';
                assert(seg[x] == s[i + x]);
            }
        }
        if !skipped(seg) {
            let rest = segments_from(s, k + 1);
            assert(segments_from(s, i) =~= seq![seg] + rest);
            assert forall|j: int| 0 <= j < segments_from(s, i).len() implies plain(
                #[trigger] segments_from(s, i)[j],
            ) by {
                if j > 0 {
                    assert(segments_from(s, i)[j] == rest[j - 1]);
                }
            }
        } else {
            assert(segments_from(s, i) == segments_from(s, k + 1));
        }
    }
}

/// A plain segment is its own only segment.
proof fn lemma_segments_of_plain(seg: Seq<char>)
    requires
        plain(seg),
    ensures
        segments_from(seg, 0) == seq![seg],
{
    assert forall|i: int| 0 <= i < seg.len() implies seg[i] != '/' by {
        if seg[i] == '/' {
            assert(seg.contains('/'));
        }
    }
    lemma_index_from_is(seg, '/', 0, seg.len() as int);
    assert(seg.subrange(0, seg.len() as int) =~= seg);
    assert(segments_from(seg, seg.len() as int + 1) =~= Seq::<Seq<char>>::empty());
    assert(segments_from(seg, 0) =~= seq![seg]);
}

/// Joining plain segments with slashes and reading the text gives the segments back.
proof fn lemma_segments_of_joined(segs: Seq<Seq<char>>)
    requires
        forall|j: int| 0 <= j < segs.len() ==> plain(#[trigger] segs[j]),
    ensures
        segments_from(joined(segs, seq!['/']), 0) == segs,
        segs.len() > 0 ==> joined(segs, seq!['/']).len() > 0 && joined(segs, seq!['/'])[0]
            == segs[0][0] && segs[0].is_prefix_of(joined(segs, seq!['/'])) && (joined(
            segs,
            seq!['/'],
        ).len() > segs[0].len() ==> joined(segs, seq!['/'])[segs[0].len() as int] == '/'),
    decreases segs.len(),
{
    let t = joined(segs, seq!['/']);
    if segs.len() == 0 {
        assert(segments_from(t, 0) =~= segs);
    } else if segs.len() == 1 {
        lemma_segments_of_plain(segs[0]);
        assert(seq![segs[0]] =~= segs);
        assert(plain(segs[0]));
    } else {
        let front = segs.drop_last();
        assert forall|j: int| 0 <= j < front.len() implies plain(#[trigger] front[j]) by {
            assert(front[j] == segs[j]);
        }
        lemma_segments_of_joined(front);
        let a = joined(front, seq!['/']);
        assert(plain(segs[segs.len() - 1]));
        lemma_segments_of_plain(segs.last());
        lemma_segments_concat(a, segs.last(), 0);
        assert(t == a + seq!['/'] + segs.last());
        assert(front + seq![segs.last()] =~= segs);
        assert(front[0] == segs[0]);
        assert(segs[0].is_prefix_of(t)) by {
            assert(segs[0] =~= a.take(segs[0].len() as int));
            assert(t.take(segs[0].len() as int) =~= segs[0]);
        }
    }
}

/// The canonical spelling of a path has the components of the path.
pub proof fn canonical_keeps_components(s: Seq<char>)
    ensures
        components(canonical(s)) == components(s),
{
    let segs = segments_from(s, 0);
    let cs = components(s);
    let slash = seq!['/'];
    lemma_segments_plain(s, 0);
    lemma_segments_of_joined(segs);
    if is_absolute(s) {
        assert(cs.drop_first() =~= segs);
        let t = slash + joined(segs, slash);
        assert(canonical(s) == t);
        let empty = Seq::<char>::empty();
        assert(empty + slash + joined(segs, slash) =~= t);
        lemma_segments_concat(empty, joined(segs, slash), 0);
        assert(segments_from(empty, 0) =~= Seq::<Seq<char>>::empty());
        assert(segments_from(t, 0) =~= segs);
    } else if leading_dot(s) {
        let dot = seq!['.'];
        assert(cs[0] == dot);
        assert(cs[0][0] == '.');
        assert(slash[0] == '/');
        assert(cs[0] != slash);
        assert(canonical(s) == joined(cs, slash));
        lemma_joined_first(cs, slash);
        assert(cs.drop_first() =~= segs);
        if segs.len() == 0 {
            let t = joined(cs, slash);
            assert(t == dot);
            lemma_index_from_is(t, '/', 0, 1);
            assert(t.subrange(0, 1) =~= dot);
            assert(segments_from(t, 2) =~= Seq::<Seq<char>>::empty());
            assert(segments_from(t, 0) =~= segs);
        } else {
            let t = dot + slash + joined(segs, slash);
            assert(joined(cs, slash) == t);
            lemma_segments_concat(dot, joined(segs, slash), 0);
            lemma_index_from_is(dot, '/', 0, 1);
            assert(dot.subrange(0, 1) =~= dot);
            assert(segments_from(dot, 2) =~= Seq::<Seq<char>>::empty());
            assert(segments_from(dot, 0) =~= Seq::<Seq<char>>::empty());
            assert(segments_from(t, 0) =~= segs);
            assert(t[0] == '.' && t[1] == '/');
        }
    } else {
        assert(cs =~= segs);
        let t = joined(segs, slash);
        if segs.len() > 0 {
            assert(plain(segs[0]));
            assert(segs[0] != slash) by {
                if segs[0] == slash {
                    assert(segs[0][0] == '/');
                    assert(segs[0].contains('/'));
                }
            }
            assert(!is_absolute(t)) by {
                if t[0] == '/' {
                    assert(segs[0][0] == '/');
                    assert(segs[0].contains('/'));
                }
            }
            if leading_dot(t) {
                assert(segs[0][0] == '.');
                if t.len() == 1 {
                    assert(segs[0].len() == 1);
                } else if segs[0].len() > 1 {
                    assert(segs[0] =~= t.take(segs[0].len() as int));
                    assert(segs[0][1] == '/');
                    assert(segs[0].contains('/'));
                }
                assert(segs[0] =~= seq!['.']);
            }
        }
        assert(canonical(s) == t);
    }
    assert(components(canonical(s)) =~= components(s));
}

/// Joining from the front: the first text, the separator, then the rest.
proof fn lemma_joined_first(parts: Seq<Seq<char>>, sep: Seq<char>)
    requires
        parts.len() > 0,
    ensures
        parts.len() == 1 ==> joined(parts, sep) == parts[0],
        parts.len() > 1 ==> joined(parts, sep) == parts[0] + sep + joined(parts.drop_first(), sep),
    decreases parts.len(),
{
    if parts.len() > 1 {
        let rest = parts.drop_first();
        if parts.len() == 2 {
            assert(parts.drop_last()[0] == parts[0]);
            assert(joined(parts.drop_last(), sep) == parts[0]);
            assert(joined(rest, sep) == parts[1]);
        } else {
            lemma_joined_first(parts.drop_last(), sep);
            assert(parts.drop_last().drop_first() =~= rest.drop_last());
            assert(joined(parts, sep) =~= parts[0] + sep + joined(rest, sep));
        }
    }
}

/// Two paths have the same canonical spelling exactly where they have the same components.
pub proof fn same_spelling_is_same_path(a: Seq<char>, b: Seq<char>)
    ensures
        canonical(a) == canonical(b) <==> components(a) == components(b),
{
    canonical_keeps_components(a);
    canonical_keeps_components(b);
}

/// Taking a plain name from a path adds that name as the last component.
pub proof fn pushed_name_is_last_component(base: Seq<char>, name: Seq<char>)
    requires
        plain(name),
    ensures
        components(pushed(base, name)) == components(base).push(name),
{
    lemma_segments_of_plain(name);
    assert(!is_absolute(name)) by {
        if is_absolute(name) {
            assert(name.contains('/'));
        }
    }
    assert(!leading_dot(name)) by {
        if leading_dot(name) {
            if name.len() == 1 {
                assert(name =~= seq!['.']);
            } else {
                assert(name.contains('/'));
            }
        }
    }
    let t = pushed(base, name);
    if base.len() == 0 {
        assert(t =~= name);
        assert(components(t) =~= components(base).push(name));
    } else if base.last() == '/' {
        let front = base.drop_last();
        let empty = Seq::<char>::empty();
        assert(front + seq!['/'] + name =~= t);
        assert(front + seq!['/'] + empty =~= base);
        lemma_segments_concat(front, name, 0);
        lemma_segments_concat(front, empty, 0);
        assert(segments_from(empty, 0) =~= Seq::<Seq<char>>::empty());
        assert(segments_from(base, 0) =~= segments_from(front, 0));
        assert(lead(t) =~= lead(base));
        assert(components(t) =~= components(base).push(name));
    } else {
        lemma_segments_concat(base, name, 0);
        assert(lead(t) =~= lead(base));
        assert(components(t) =~= components(base).push(name));
    }
}

/// Taking a relative path from a path that is not empty adds its segments as components.
pub proof fn pushed_adds_segments(base: Seq<char>, rel: Seq<char>)
    requires
        base.len() > 0,
        !is_absolute(rel),
    ensures
        components(pushed(base, rel)) == components(base) + segments_from(rel, 0),
{
    let t = pushed(base, rel);
    if base.last() == '/' {
        let front = base.drop_last();
        let empty = Seq::<char>::empty();
        assert(front + seq!['/'] + rel =~= t);
        assert(front + seq!['/'] + empty =~= base);
        lemma_segments_concat(front, rel, 0);
        lemma_segments_concat(front, empty, 0);
        assert(segments_from(empty, 0) =~= Seq::<Seq<char>>::empty());
        assert(segments_from(base, 0) =~= segments_from(front, 0));
        if base.len() == 1 {
            assert(t[0] == '/');
        } else {
            assert(t[0] == base[0] && t[1] == base[1]);
        }
    } else {
        lemma_segments_concat(base, rel, 0);
        assert(t[0] == base[0]);
        if base.len() == 1 {
            assert(t[1] == '/');
        } else {
            assert(t[1] == base[1]);
        }
    }
    assert(lead(t) =~= lead(base));
    assert(components(t) =~= components(base) + segments_from(rel, 0));
}

/// A path has a parent exactly where it has a component besides the root, and the parent's
/// components are the path's without the last.
pub proof fn parent_drops_last_component(s: Seq<char>)
    ensures
        parent_of(s) is Some <==> components(s).len() > 0 && components(s).last() != seq!['/'],
        parent_of(s) is Some ==> components(parent_of(s)->0) == components(s).drop_last(),
        parent_of(s) is Some ==> parent_of(s)->0.is_prefix_of(s),
{
    let r = ranges_from(s, 0);
    lemma_ranges(s, 0);
    lemma_segments_plain(s, 0);
    let segs = segments_from(s, 0);
    assert(segs.len() == r.len());
    if r.len() >= 1 {
        assert(components(s).last() == segs[segs.len() - 1]);
        assert(plain(segs[segs.len() - 1]));
        if components(s).last() == seq!['/'] {
            assert(components(s).last()[0] == '/');
            assert(components(s).last().contains('/'));
        }
    }
    if r.len() >= 2 {
        let e = r[r.len() - 2].1;
        let t = s.take(e);
        assert(0 < e < s.len()) by {
            assert(r[r.len() - 2].1 < r[r.len() - 1].0);
        }
        lemma_ranges_take(s, 0, r.len() - 2);
        lemma_ranges(t, 0);
        assert(ranges_from(t, 0) =~= r.drop_last());
        assert(segments_from(t, 0) =~= segs.drop_last()) by {
            assert forall|j: int| 0 <= j < r.len() - 1 implies segments_from(t, 0)[j]
                == segs[j] by {
                assert(ranges_from(t, 0)[j] == r[j]);
                assert(r[j].1 <= e) by {
                    if j < r.len() - 2 {
                        assert(r[j].1 < r[r.len() - 2].0);
                    }
                }
                assert(t.subrange(r[j].0, r[j].1) =~= s.subrange(r[j].0, r[j].1));
            }
        }
        assert(lead(t) =~= lead(s)) by {
            if e == 1 {
                assert(r[r.len() - 2].0 == 0);
                assert(index_from(s, '/', 0) == 1);
                lemma_index_from(s, '/', 0);
                assert(s.subrange(0, 1) =~= seq![s[0]]);
                assert(r.len() - 2 == 0) by {
                    if r.len() - 2 > 0 {
                        assert(r[0].1 < r[r.len() - 2].0);
                    }
                }
                assert(!skipped(s.subrange(r[0].0, r[0].1)));
                assert(s[0] != '.');
            } else {
                assert(t[0] == s[0] && t[1] == s[1]);
            }
        }
        assert(components(t) =~= components(s).drop_last());
    } else if r.len() == 1 {
        let n = lead(s).len() as int;
        let t = s.take(n);
        assert(r[0].1 <= s.len());
        assert(segments_from(t, 0) =~= Seq::<Seq<char>>::empty()) by {
            if n == 1 {
                if is_absolute(s) {
                    lemma_index_from_is(t, '/', 0, 0);
                    assert(t.subrange(0, 0) =~= Seq::<char>::empty());
                    assert(segments_from(t, 1) =~= Seq::<Seq<char>>::empty());
                } else {
                    lemma_index_from_is(t, '/', 0, 1);
                    assert(t.subrange(0, 1) =~= seq!['.']);
                    assert(segments_from(t, 2) =~= Seq::<Seq<char>>::empty());
                }
            }
        }
        assert(lead(t) =~= lead(s));
        assert(components(t) =~= components(s).drop_last());
    } else if leading_dot(s) {
        assert(components(s) =~= seq![seq!['.']]);
        assert(components(s).last() != seq!['/']) by {
            assert(seq!['.'][0] == '.');
            assert(seq!['/'][0] == '/');
        }
        assert(components(Seq::<char>::empty()) =~= components(s).drop_last());
        assert(Seq::<char>::empty().is_prefix_of(s));
    } else if is_absolute(s) {
        assert(components(s) =~= seq![seq!['/']]);
    } else {
        assert(components(s) =~= Seq::<Seq<char>>::empty());
    }
}

/// A way that never climbs out still does not with one more name behind it, nor with its last
/// component taken off.
pub proof fn lemma_never_climbs_out(cs: Seq<Seq<char>>, c: Seq<char>)
    ensures
        never_climbs_out(cs.push(c)) ==> never_climbs_out(cs),
        never_climbs_out(cs) && c != ".."@ ==> never_climbs_out(cs.push(c)),
{
    let more = cs.push(c);
    assert forall|k: int| 0 <= k <= cs.len() implies #[trigger] cs.take(k) == more.take(k) by {
        assert(cs.take(k) =~= more.take(k));
    }
    if never_climbs_out(more) {
        assert forall|k: int| 0 <= k <= cs.len() implies #[trigger] descent(cs.take(k)) >= 0 by {
            assert(descent(more.take(k)) >= 0);
        }
    }
    if never_climbs_out(cs) && c != ".."@ {
        assert forall|k: int| 0 <= k <= more.len() implies #[trigger] descent(
            more.take(k),
        ) >= 0 by {
            if k <= cs.len() {
                assert(descent(cs.take(k)) >= 0);
            } else {
                assert(more.take(k) =~= more);
                assert(more.drop_last() =~= cs);
                assert(cs.take(cs.len() as int) =~= cs);
                assert(descent(cs.take(cs.len() as int)) >= 0);
            }
        }
    }
}

/// Every path stays under itself.
pub proof fn path_stays_under_itself(s: Seq<char>)
    ensures
        stays_under(s, s),
{
    let cs = components(s);
    let rest = cs.skip(cs.len() as int);
    assert(cs =~= cs.subrange(0, cs.len() as int));
    assert(rest =~= Seq::<Seq<char>>::empty());
    assert forall|k: int| 0 <= k <= rest.len() implies #[trigger] descent(rest.take(k)) >= 0 by {
        assert(rest.take(k) =~= rest);
    }
}

/// An absolute path without its root has no component before its segments.
pub proof fn lemma_rootless_relative(s: Seq<char>)
    requires
        is_absolute(s),
    ensures
        lead(rootless(s)).len() == 0,
        !is_absolute(rootless(s)),
{
    let r = ranges_from(s, 0);
    lemma_ranges(s, 0);
    if r.len() > 0 {
        let t = rootless(s);
        let e = r.last().1;
        assert(r[0].1 <= e) by {
            if r.len() > 1 {
                assert(r[0].1 < r[r.len() - 1].0);
            }
        }
        lemma_segments_plain(s, 0);
        let first = segments_from(s, 0)[0];
        assert(plain(first));
        assert(first == s.subrange(r[0].0, r[0].1));
        assert(t[0] == first[0]);
        if t[0] == '/' {
            assert(first.contains('/'));
        }
        if leading_dot(t) {
            if first.len() == 1 {
                assert(first =~= seq!['.']);
            } else {
                assert(first[1] == t[1]);
                assert(first.contains('/'));
            }
        }
    }
}

/// Taking the root from an absolute path leaves its other components.
pub proof fn rootless_keeps_other_components(s: Seq<char>)
    requires
        is_absolute(s),
    ensures
        components(rootless(s)) == components(s).drop_first(),
{
    let r = ranges_from(s, 0);
    lemma_ranges(s, 0);
    let t = rootless(s);
    assert(components(s).drop_first() =~= segments_from(s, 0));
    if r.len() == 0 {
        assert(components(t) =~= Seq::<Seq<char>>::empty());
        assert(segments_from(s, 0) =~= Seq::<Seq<char>>::empty());
    } else {
        let e = r.last().1;
        let b = r[0].0;
        let u = s.take(e);
        assert(b < e) by {
            if r.len() > 1 {
                assert(r[0].1 < r[r.len() - 1].0);
            }
        }
        lemma_ranges_take(s, 0, r.len() - 1);
        assert(r.take(r.len() as int) =~= r);
        lemma_ranges(u, 0);
        assert(segments_from(u, 0) =~= segments_from(s, 0)) by {
            assert forall|j: int| 0 <= j < r.len() implies u.subrange(r[j].0, r[j].1) == s.subrange(
                r[j].0,
                r[j].1,
            ) by {
                if j < r.len() - 1 {
                    assert(r[j].1 < r[r.len() - 1].0);
                }
                assert(u.subrange(r[j].0, r[j].1) =~= s.subrange(r[j].0, r[j].1));
            }
        }
        lemma_segments_skip_front(u, 0);
        assert(u.take(b) + t =~= u);
        lemma_segments_suffix(u.take(b), t, 0);
        assert(segments_from(t, 0) == segments_from(s, 0));
        lemma_rootless_relative(s);
        assert(components(t) =~= segments_from(s, 0));
    }
}

/// Reading may start at the first kept segment.
proof fn lemma_segments_skip_front(s: Seq<char>, i: int)
    requires
        0 <= i,
        ranges_from(s, i).len() > 0,
    ensures
        segments_from(s, ranges_from(s, i)[0].0) == segments_from(s, i),
    decreases s.len() - i + 1,
{
    let k = index_from(s, '/', i);
    lemma_index_from(s, '/', i);
    if skipped(s.subrange(i, k)) {
        lemma_segments_skip_front(s, k + 1);
    }
}

// ---------------------------------------------------------------- operations

/// Whether two position lists agree.
spec fn same_ranges(v: Seq<(usize, usize)>, r: Seq<(int, int)>) -> bool {
    v.len() == r.len() && forall|j: int|
        0 <= j < r.len() ==> (#[trigger] v[j]).0 == r[j].0 && v[j].1 == r[j].1
}

/// Finds the segments that are not skipped.
fn find_ranges(chars: &Vec<char>) -> (r: Vec<(usize, usize)>)
    ensures
        same_ranges(r@, ranges_from(chars@, 0)),
{
    let n: usize = chars.len();
    let mut r: Vec<(usize, usize)> = Vec::new();
    let mut i: usize = 0;
    let ghost all = ranges_from(chars@, 0);
    let ghost mut at: int = 0;
    while i < n
        invariant_except_break
            at == i,
            i <= n,
        invariant
            n == chars@.len(),
            all == ranges_from(chars@, 0),
            r@.len() <= all.len(),
            all.skip(r@.len() as int) == ranges_from(chars@, at),
            same_ranges(r@, all.take(r@.len() as int)),
        ensures
            r@.len() == all.len(),
        decreases n - i,
    {
        let k: usize = find_from(chars, '/', i);
        let one_dot = k - i == 1 && chars[i] == '.';
        let ghost len = r@.len() as int;
        let ghost before = r@;
        proof {
            let seg = chars@.subrange(i as int, k as int);
            if one_dot {
                assert(seg =~= seq!['.']);
            } else if seg == seq!['.'] {
                assert(seg.len() == 1 && seg[0] == '.');
            }
        }
        if k > i && !one_dot {
            proof {
                assert(!skipped(chars@.subrange(i as int, k as int)));
                assert(ranges_from(chars@, at)[0] == (i as int, k as int));
                assert(all.skip(len)[0] == all[len]);
                assert(all.skip(len + 1) =~= all.skip(len).drop_first());
                assert(all.skip(len).drop_first() =~= ranges_from(chars@, k + 1));
            }
            r.push((i, k));
            assert forall|j: int| 0 <= j < len + 1 implies (#[trigger] r@[j]).0 == all.take(
                len + 1,
            )[j].0 && r@[j].1 == all.take(len + 1)[j].1 by {
                if j < len {
                    assert(r@[j] == before[j]);
                    assert(all.take(len)[j] == all[j]);
                }
            }
        }
        proof {
            at = k + 1;
        }
        if k == n {
            assert(ranges_from(chars@, at) =~= Seq::<(int, int)>::empty());
            assert(all.skip(r@.len() as int).len() == 0);
            break ;
        }
        i = k + 1;
    }
    assert(all.take(r@.len() as int) =~= all);
    r
}

/// Splits a path into its components.
pub fn components_of(p: &str) -> (r: Vec<String>)
    ensures
        texts(r@) == components(p@),
{
    let chars = chars_of(p);
    let ranges = find_ranges(&chars);
    let mut r: Vec<String> = Vec::new();
    if chars.len() > 0 && chars[0] == '/' {
        r.push(text_of(&chars, 0, 1));
        assert(chars@.subrange(0, 1) =~= seq!['/']);
    } else if chars.len() > 0 && chars[0] == '.' && (chars.len() == 1 || chars[1] == '/') {
        r.push(text_of(&chars, 0, 1));
        assert(chars@.subrange(0, 1) =~= seq!['.']);
    }
    proof {
        lemma_ranges(chars@, 0);
        assert(texts(r@) =~= lead(chars@));
    }
    let mut i: usize = 0;
    let ghost segs = segments_from(chars@, 0);
    assert(segs.take(0) =~= Seq::<Seq<char>>::empty());
    assert(texts(r@) =~= lead(chars@) + segs.take(0));
    while i < ranges.len()
        invariant
            i <= ranges@.len(),
            same_ranges(ranges@, ranges_from(chars@, 0)),
            segs == segments_from(chars@, 0),
            segs.len() == ranges@.len(),
            texts(r@) == lead(chars@) + segs.take(i as int),
        decreases ranges@.len() - i,
    {
        proof {
            lemma_ranges(chars@, 0);
            assert(ranges@[i as int].0 == ranges_from(chars@, 0)[i as int].0);
        }
        let seg = text_of(&chars, ranges[i].0, ranges[i].1);
        proof {
            assert(seg@ == segs[i as int]);
            lemma_texts_push(r@, seg);
            assert(segs.take(i + 1) =~= segs.take(i as int).push(segs[i as int]));
        }
        r.push(seg);
        i += 1;
        assert(texts(r@) =~= lead(chars@) + segs.take(i as int));
    }
    assert(segs.take(segs.len() as int) =~= segs);
    r
}

/// The path `rel` taken from `base`.
pub fn join_path(base: &str, rel: &str) -> (r: String)
    ensures
        r@ == pushed(base@, rel@),
{
    let n: usize = base.unicode_len();
    if rel.unicode_len() > 0 && rel.get_char(0) == '/' {
        rel.to_owned()
    } else if n == 0 || base.get_char(n - 1) == '/' {
        concat2(base, rel)
    } else {
        let r = concat3(base, "/", rel);
        proof {
            reveal_strlit("/");
            assert("/"@ =~= seq!['/']);
        }
        r
    }
}

/// The path without its root.
pub fn strip_root(p: &str) -> (r: String)
    ensures
        r@ == rootless(p@),
{
    let chars = chars_of(p);
    if chars.len() == 0 || chars[0] != '/' {
        return p.to_owned();
    }
    let ranges = find_ranges(&chars);
    let n: usize = ranges.len();
    if n == 0 {
        return String::new();
    }
    proof {
        lemma_ranges(chars@, 0);
        assert(ranges@[0].0 == ranges_from(chars@, 0)[0].0);
        assert(ranges@[n - 1].1 == ranges_from(chars@, 0)[n - 1].1);
        if n > 1 {
            assert(ranges_from(chars@, 0)[0].1 < ranges_from(chars@, 0)[n - 1].0);
        }
    }
    text_of(&chars, ranges[0].0, ranges[n - 1].1)
}

/// The path without its last component.
pub fn parent(p: &str) -> (r: Option<String>)
    ensures
        crate::text::opt_text(r) == parent_of(p@),
{
    let chars = chars_of(p);
    let ranges = find_ranges(&chars);
    let n: usize = ranges.len();
    let dot = chars.len() > 0 && chars[0] == '.' && (chars.len() == 1 || chars[1] == '/');
    let absolute = chars.len() > 0 && chars[0] == '/';
    proof {
        lemma_ranges(chars@, 0);
    }
    if n >= 2 {
        let end: usize = ranges[n - 2].1;
        assert(end == ranges_from(chars@, 0)[n - 2].1);
        assert(chars@.subrange(0, end as int) =~= chars@.take(end as int));
        Some(text_of(&chars, 0, end))
    } else if n == 1 {
        let end: usize = if dot || absolute {
            1
        } else {
            0
        };
        assert(chars@.subrange(0, end as int) =~= chars@.take(end as int));
        Some(text_of(&chars, 0, end))
    } else if dot {
        Some(String::new())
    } else {
        None
    }
}

/// Whether `base` is `p` or stands above it.
pub fn starts_with(p: &str, base: &str) -> (r: bool)
    ensures
        r == is_under(p@, base@),
{
    let a = components_of(p);
    let b = components_of(base);
    if b.len() > a.len() {
        return false;
    }
    let mut i: usize = 0;
    while i < b.len()
        invariant
            texts(a@) == components(p@),
            texts(b@) == components(base@),
            i <= b@.len() <= a@.len(),
            forall|j: int|
                0 <= j < i ==> components(base@)[j] == #[trigger] components(p@)[j],
        decreases b@.len() - i,
    {
        if !same_text(a[i].as_str(), b[i].as_str()) {
            proof {
                assert(components(p@)[i as int] == a@[i as int]@);
                assert(components(base@)[i as int] == b@[i as int]@);
                assert(components(base@)[i as int] != components(p@).take(b@.len() as int)[i as int]);
            }
            return false;
        }
        assert(components(p@)[i as int] == a@[i as int]@);
        assert(components(base@)[i as int] == b@[i as int]@);
        i += 1;
    }
    assert(components(base@) =~= components(p@).subrange(0, b@.len() as int));
    true
}

/// Whether `base` is `p` or stands above it, and `p` does not lead out of `base` again.
pub fn stays_in(p: &str, base: &str) -> (r: bool)
    ensures
        r == stays_under(p@, base@),
{
    if !starts_with(p, base) {
        return false;
    }
    let a = components_of(p);
    let n: usize = components_of(base).len();
    let ghost rest = components(p@).skip(n as int);
    let mut down: usize = 0;
    let mut i: usize = n;
    assert(rest.take(0) =~= Seq::<Seq<char>>::empty());
    while i < a.len()
        invariant
            texts(a@) == components(p@),
            n == components(base@).len(),
            n <= i <= a@.len(),
            rest == components(p@).skip(n as int),
            down == descent(rest.take(i - n)),
            down <= i - n,
            forall|k: int| 0 <= k <= i - n ==> #[trigger] descent(rest.take(k)) >= 0,
        decreases a@.len() - i,
    {
        proof {
            let t = rest.take(i - n + 1);
            assert(components(p@)[i as int] == a@[i as int]@);
            assert(t.last() == a@[i as int]@);
            assert(t.drop_last() =~= rest.take(i - n));
        }
        if same_text(a[i].as_str(), "..") {
            if down == 0 {
                assert(descent(rest.take(i - n + 1)) < 0);
                return false;
            }
            down = down - 1;
        } else {
            down = down + 1;
        }
        i += 1;
    }
    true
}

/// The canonical spelling of a path.
pub fn canonical_text(p: &str) -> (r: String)
    ensures
        r@ == canonical(p@),
{
    let chars = chars_of(p);
    let mut parts = components_of(p);
    proof {
        reveal_strlit("/");
        assert("/"@ =~= seq!['/']);
    }
    if chars.len() > 0 && chars[0] == '/' {
        proof {
            assert(is_absolute(p@));
            assert(lead(p@).len() == 1);
            assert(texts(parts@).len() == components(p@).len());
        }
        parts.remove(0);
        proof {
            assert(texts(parts@) =~= components(p@).drop_first());
            assert(components(p@)[0] == seq!['/']);
        }
        concat2("/", join(&parts, "/").as_str())
    } else {
        proof {
            if components(p@).len() > 0 {
                lemma_segments_plain(p@, 0);
                let c = components(p@)[0];
                if leading_dot(p@) {
                    assert(c[0] == '.');
                } else {
                    assert(c == segments_from(p@, 0)[0]);
                    if c == seq!['/'] {
                        assert(c[0] == '/');
                        assert(c.contains('/'));
                    }
                }
                assert(seq!['/'][0] == '/');
                assert(c != seq!['/']);
            }
        }
        join(&parts, "/")
    }
}

// ---------------------------------------------------------------- laws of the functions

/// The empty path has no component and the root one; a path begins with the root exactly where it
/// begins with a slash.
pub proof fn paths_begin_at_the_root_or_not(s: Seq<char>)
    ensures
        components(Seq::<char>::empty()).len() == 0,
        components(seq!['/']) == seq![seq!['/']],
        (s.len() > 0 && s[0] == '/') <==> (components(s).len() > 0 && components(s)[0] == seq![
            '/',
        ]),
{
    let root = seq!['/'];
    lemma_index_from_is(root, '/', 0, 0);
    assert(root.subrange(0, 0) =~= Seq::<char>::empty());
    assert(segments_from(root, 1) =~= Seq::<Seq<char>>::empty());
    assert(components(root) =~= seq![root]);
    assert(components(Seq::<char>::empty()) =~= Seq::<Seq<char>>::empty());
    lemma_segments_plain(s, 0);
    assert(seq!['.'][0] == '.');
    assert(root[0] == '/');
    if !is_absolute(s) && !leading_dot(s) && segments_from(s, 0).len() > 0 {
        let c = components(s)[0];
        assert(c == segments_from(s, 0)[0]);
        if c == root {
            assert(c.contains('/'));
        }
    }
}

/// Doubled slashes, a slash at the end, and dots between slashes do not matter: the components are
/// the same without them.
pub proof fn doubled_slashes_and_dots_do_not_count(base: Seq<char>, rel: Seq<char>)
    requires
        base.len() > 0,
    ensures
        components(base + seq!['/', '/'] + rel) == components(base + seq!['/'] + rel),
        components(base + seq!['/', '.', '/'] + rel) == components(base + seq!['/'] + rel),
        components(base + seq!['/']) == components(base),
{
    let slash = seq!['/'];
    let none = Seq::<char>::empty();
    let one = base + slash + rel;
    let two = base + seq!['/', '/'] + rel;
    let dot = base + seq!['/', '.', '/'] + rel;
    assert(segments_from(none, 0) =~= Seq::<Seq<char>>::empty());
    lemma_segments_concat(base, rel, 0);
    assert(two =~= base + slash + (none + slash + rel));
    lemma_segments_concat(base, none + slash + rel, 0);
    lemma_segments_concat(none, rel, 0);
    assert(segments_from(two, 0) =~= segments_from(one, 0));
    let d = seq!['.'];
    lemma_index_from_is(d, '/', 0, 1);
    assert(d.subrange(0, 1) =~= d);
    assert(segments_from(d, 2) =~= Seq::<Seq<char>>::empty());
    assert(segments_from(d, 0) =~= Seq::<Seq<char>>::empty());
    assert(dot =~= base + slash + (d + slash + rel));
    lemma_segments_concat(base, d + slash + rel, 0);
    lemma_segments_concat(d, rel, 0);
    assert(segments_from(dot, 0) =~= segments_from(one, 0));
    lemma_segments_concat(base, none, 0);
    assert(base + slash + none =~= base + slash);
    assert(segments_from(base + slash, 0) =~= segments_from(base, 0));
    assert(one[0] == base[0] && two[0] == base[0] && dot[0] == base[0]);
    if base.len() > 1 {
        assert(one[1] == base[1] && two[1] == base[1] && dot[1] == base[1]);
        assert((base + slash)[1] == base[1]);
    } else {
        assert(one[1] == '/' && two[1] == '/' && dot[1] == '/');
        assert((base + slash)[1] == '/');
    }
    assert(lead(one) =~= lead(base));
    assert(lead(two) =~= lead(base));
    assert(lead(dot) =~= lead(base));
    assert(lead(base + slash) =~= lead(base));
    assert(components(two) =~= components(one));
    assert(components(dot) =~= components(one));
    assert(components(base + slash) =~= components(base));
}

/// A path that begins at the root is taken as it is; any other stands behind the path that it is
/// taken from, with at most a slash between the two.
pub proof fn joined_path_holds_both(base: &str, rel: &str, r: String)
    requires
        call_ensures(join_path, (base, rel), r),
    ensures
        rel@.len() > 0 && rel@[0] == '/' ==> r@ == rel@,
        !(rel@.len() > 0 && rel@[0] == '/') ==> {
            &&& base@.is_prefix_of(r@)
            &&& r@.len() <= base@.len() + 1 + rel@.len()
            &&& rel@ == r@.skip(r@.len() - rel@.len())
            &&& base@.len() > 0 ==> r@ == base@ + rel@ && base@.last() == '/' || r@ == base@
                + seq!['/'] + rel@
        },
{
    if !is_absolute(rel@) {
        assert(base@ =~= r@.subrange(0, base@.len() as int));
        assert(rel@ =~= r@.skip(r@.len() - rel@.len()));
    }
}

/// What is joined to a directory under a plain name lies in it under that name: its parent has the
/// components of the directory, and the directory is above it.
pub proof fn joined_name_lies_in_the_directory(
    base: &str,
    name: &str,
    r: String,
    s: &str,
    up: Option<String>,
    under: bool,
)
    requires
        plain(name@),
        call_ensures(join_path, (base, name), r),
        s@ == r@,
        call_ensures(parent, (s,), up),
        call_ensures(starts_with, (s, base), under),
    ensures
        components(r@) == components(base@).push(name@),
        up matches Some(p) && components(p@) == components(base@),
        under,
{
    pushed_name_is_last_component(base@, name@);
    parent_drops_last_component(r@);
    let cs = components(r@);
    assert(cs.last() == name@);
    if name@ == seq!['/'] {
        assert(name@[0] == '/');
        assert(name@.contains('/'));
    }
    assert(cs.drop_last() =~= components(base@));
    assert(components(base@) =~= cs.subrange(0, components(base@).len() as int));
}

/// One path is above another exactly where the other's components begin with its own. So a path is
/// above itself, what is above something above is above, and neither of two different names in one
/// directory is above the other.
pub proof fn being_above_is_an_order(
    a: &str,
    b: &str,
    c: &str,
    ab: bool,
    bc: bool,
    ac: bool,
    aa: bool,
)
    requires
        call_ensures(starts_with, (b, a), ab),
        call_ensures(starts_with, (c, b), bc),
        call_ensures(starts_with, (c, a), ac),
        call_ensures(starts_with, (a, a), aa),
    ensures
        aa,
        ab && bc ==> ac,
        ab ==> components(a@).len() <= components(b@).len(),
        ab <==> components(a@).len() <= components(b@).len() && (forall|i: int|
            0 <= i < components(a@).len() ==> #[trigger] components(a@)[i] == components(b@)[i]),
        components(a@).len() == components(b@).len() && components(a@) != components(b@) ==> !ab,
{
    let x = components(a@);
    let y = components(b@);
    let z = components(c@);
    assert(x =~= x.subrange(0, x.len() as int));
    if x.len() <= y.len() && (forall|i: int| 0 <= i < x.len() ==> #[trigger] x[i] == y[i]) {
        assert(x =~= y.subrange(0, x.len() as int));
    }
    if ab {
        assert forall|i: int| 0 <= i < x.len() implies #[trigger] x[i] == y[i] by {
            assert(y.subrange(0, x.len() as int)[i] == y[i]);
        }
        if x.len() == y.len() {
            assert(x =~= y);
        }
    }
    if ab && bc {
        assert forall|i: int| 0 <= i < y.len() implies #[trigger] y[i] == z[i] by {
            assert(z.subrange(0, y.len() as int)[i] == z[i]);
        }
        assert(x =~= z.subrange(0, x.len() as int));
    }
}

/// A way goes one place down with a name and one up with `..`; it climbs out where it goes up from
/// the place where it began.
pub proof fn ways_go_down_and_up(cs: Seq<Seq<char>>, c: Seq<char>)
    ensures
        descent(Seq::<Seq<char>>::empty()) == 0,
        never_climbs_out(Seq::<Seq<char>>::empty()),
        descent(cs.push(".."@)) == descent(cs) - 1,
        c != ".."@ ==> descent(cs.push(c)) == descent(cs) + 1,
        never_climbs_out(cs) ==> descent(cs) >= 0,
        never_climbs_out(cs.push(c)) <==> never_climbs_out(cs) && (c == ".."@ ==> descent(cs) > 0),
{
    let none = Seq::<Seq<char>>::empty();
    assert forall|k: int| 0 <= k <= none.len() implies #[trigger] descent(none.take(k)) >= 0 by {
        assert(none.take(k) =~= none);
    }
    assert(cs.push(".."@).drop_last() =~= cs);
    assert(cs.push(c).drop_last() =~= cs);
    assert(cs.take(cs.len() as int) =~= cs);
    let more = cs.push(c);
    assert(more.take(more.len() as int) =~= more);
    lemma_never_climbs_out(cs, c);
    if never_climbs_out(cs) {
        assert(descent(cs.take(cs.len() as int)) >= 0);
    }
    if never_climbs_out(more) {
        assert(descent(more.take(more.len() as int)) >= 0);
    }
    if never_climbs_out(cs) && c == ".."@ && descent(cs) > 0 {
        assert forall|k: int| 0 <= k <= more.len() implies #[trigger] descent(
            more.take(k),
        ) >= 0 by {
            if k <= cs.len() {
                assert(more.take(k) =~= cs.take(k));
                assert(descent(cs.take(k)) >= 0);
            } else {
                assert(more.take(k) =~= more);
            }
        }
    }
}

/// A path that goes up from a directory does not stay in it, and one that goes to a name does.
pub proof fn going_up_does_not_stay(base: &str, up: &str, down: &str, u: bool, d: bool)
    requires
        components(up@) == components(base@).push(".."@),
        components(down@).len() == components(base@).len() + 1,
        components(down@).drop_last() == components(base@),
        components(down@).last() != ".."@,
        call_ensures(stays_in, (up, base), u),
        call_ensures(stays_in, (down, base), d),
    ensures
        !u,
        d,
{
    let b = components(base@);
    let n = b.len() as int;
    let none = Seq::<Seq<char>>::empty();
    let x = components(up@).skip(n);
    let y = components(down@).skip(n);
    ways_go_down_and_up(none, ".."@);
    ways_go_down_and_up(none, components(down@).last());
    assert(x =~= none.push(".."@));
    assert(y =~= none.push(components(down@).last()));
    assert(b =~= components(down@).subrange(0, n));
}

/// Splitting, stripping and respelling a path keep its components.
pub proof fn respelling_keeps_components(
    p: &str,
    parts: Vec<String>,
    rel: String,
    spelled_as: String,
    q: &str,
    q_spelled_as: String,
)
    requires
        call_ensures(components_of, (p,), parts),
        call_ensures(strip_root, (p,), rel),
        call_ensures(canonical_text, (p,), spelled_as),
        call_ensures(canonical_text, (q,), q_spelled_as),
    ensures
        parts@.len() == components(p@).len(),
        forall|i: int| 0 <= i < parts@.len() ==> (#[trigger] parts@[i])@ == components(p@)[i],
        p@.len() > 0 && p@[0] == '/' ==> components(rel@) == components(p@).drop_first(),
        !(p@.len() > 0 && p@[0] == '/') ==> rel@ == p@,
        components(spelled_as@) == components(p@),
        spelled_as@ == q_spelled_as@ <==> components(p@) == components(q@),
{
    assert(texts(parts@).len() == parts@.len());
    assert forall|i: int| 0 <= i < parts@.len() implies (#[trigger] parts@[i])@ == components(
        p@,
    )[i] by {
        assert(texts(parts@)[i] == parts@[i]@);
    }
    if is_absolute(p@) {
        rootless_keeps_other_components(p@);
    }
    canonical_keeps_components(p@);
    canonical_keeps_components(q@);
}

} // verus!
