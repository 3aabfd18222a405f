//! How the host joins paths.
//!
//! The backend is made for Windows, where a path may begin with a drive or another prefix, both
//! kinds of slashes part names, and a backslash is put between the parts that are joined. On other
//! hosts paths are those of Unix.

use vstd::prelude::*;

use crate::path::{join_path, pushed};
use crate::text::{
    chars_of, concat2, concat3, join, joined, joined_grows_by_parts, lemma_texts_push, same_text,
    text_of, texts,
};

verus! {

/// The kind of paths that a host has.
#[derive(Debug, Clone, Copy, PartialEq, Eq, Structural)]
pub enum PathStyle {
    Unix,
    Windows,
}

/// The character parts names. In a verbatim path only a backslash does.
pub open spec fn parts_names(c: char, verbatim: bool) -> bool {
    c == '\\' || (!verbatim && c == '/')
}

/// Where the name that begins at `from` ends.
pub open spec fn name_end(s: Seq<char>, from: int, verbatim: bool) -> int
    decreases s.len() - from,
{
    if from < 0 || from >= s.len() {
        s.len() as int
    } else if parts_names(s[from], verbatim) {
        from
    } else {
        name_end(s, from + 1, verbatim)
    }
}

/// The names in the text from an index on.
pub open spec fn names_from(s: Seq<char>, from: int, verbatim: bool) -> Seq<Seq<char>>
    decreases s.len() - from + 1,
{
    if from < 0 || from >= s.len() {
        Seq::empty()
    } else {
        let k = name_end(s, from, verbatim);
        proof {
            lemma_name_end(s, from, verbatim);
        }
        if k == from {
            names_from(s, k + 1, verbatim)
        } else {
            seq![s.subrange(from, k)] + names_from(s, k + 1, verbatim)
        }
    }
}

/// A letter and a colon stand at the index.
pub open spec fn is_drive_at(s: Seq<char>, i: int) -> bool {
    &&& i + 2 <= s.len()
    &&& ('a' <= s[i] <= 'z') || ('A' <= s[i] <= 'Z')
    &&& s[i + 1] == ':'
}

/// The path is verbatim: it begins with `\\?\`.
pub open spec fn is_verbatim(s: Seq<char>) -> bool {
    s.len() >= 4 && s[0] == '\\' && s[1] == '\\' && s[2] == '?' && s[3] == '\\'
}

/// Where the prefix of a path ends: a drive, a device, a share of a server, or a verbatim one of
/// these. It is the beginning where there is none.
pub open spec fn prefix_end(s: Seq<char>) -> int {
    if is_verbatim(s) {
        if s.len() >= 8 && s[4] == 'U' && s[5] == 'N' && s[6] == 'C' && s[7] == '\\' {
            let server = name_end(s, 8, true);
            let share = name_end(s, server + 1, true);
            if share > server + 1 {
                share
            } else {
                server
            }
        } else if is_drive_at(s, 4) && (s.len() == 6 || parts_names(s[6], false)) {
            6
        } else {
            name_end(s, 4, true)
        }
    } else if s.len() >= 2 && parts_names(s[0], false) && parts_names(s[1], false) {
        if s.len() >= 4 && s[2] == '.' && parts_names(s[3], false) {
            name_end(s, 4, false)
        } else {
            let server = name_end(s, 2, false);
            let share = name_end(s, server + 1, false);
            if server > 2 && share > server + 1 {
                share
            } else {
                0
            }
        }
    } else if is_drive_at(s, 0) {
        2
    } else {
        0
    }
}

/// The names that are reached from some names by a step: `.` stays, `..` takes the last name off,
/// and anything else goes to that name.
pub open spec fn stepped(names: Seq<Seq<char>>, step: Seq<char>) -> Seq<Seq<char>> {
    if step == "."@ {
        names
    } else if step == ".."@ {
        if names.len() > 0 && names.last() != "."@ && names.last() != ".."@ {
            names.drop_last()
        } else {
            names
        }
    } else {
        names.push(step)
    }
}

/// The names that are reached from some names by steps.
pub open spec fn walked(names: Seq<Seq<char>>, steps: Seq<Seq<char>>) -> Seq<Seq<char>>
    decreases steps.len(),
{
    if steps.len() == 0 {
        names
    } else {
        stepped(walked(names, steps.drop_last()), steps.last())
    }
}

/// The path `rel`, which is not empty and has no prefix, taken from a verbatim path: the steps of
/// `rel` are gone, since a verbatim path is not read for them later.
pub open spec fn verbatim_pushed(base: Seq<char>, rel: Seq<char>) -> Seq<char> {
    let e = prefix_end(base);
    let absolute = parts_names(rel[0], false);
    let rooted = absolute || (e < base.len() && parts_names(base[e], false));
    let start = if absolute {
        Seq::empty()
    } else {
        names_from(base, e + 1, true)
    };
    let all = walked(start, names_from(rel, 0, false));
    base.take(e) + (if rooted || all.len() > 0 {
        "\\"@
    } else {
        Seq::empty()
    }) + joined(all, "\\"@)
}

/// The path `rel` taken from `base` on Windows. One with a prefix is taken as it is; one that begins
/// with a slash keeps the prefix of `base`; any other stands behind `base`, with a backslash between
/// the two where `base` is not empty, does not end in a slash and is not a mere drive.
pub open spec fn windows_pushed(base: Seq<char>, rel: Seq<char>) -> Seq<char> {
    if prefix_end(rel) > 0 {
        rel
    } else if is_verbatim(base) && rel.len() > 0 {
        verbatim_pushed(base, rel)
    } else if rel.len() > 0 && parts_names(rel[0], false) {
        base.take(prefix_end(base)) + rel
    } else if base.len() == 0 || parts_names(base.last(), false) || (base.len() == 2
        && is_drive_at(base, 0)) {
        base + rel
    } else {
        base + "\\"@ + rel
    }
}

/// The path `rel` taken from `base` on a host with such paths.
pub open spec fn host_pushed(style: PathStyle, base: Seq<char>, rel: Seq<char>) -> Seq<char> {
    match style {
        PathStyle::Unix => pushed(base, rel),
        PathStyle::Windows => windows_pushed(base, rel),
    }
}

// ---------------------------------------------------------------- lemmas

/// Where the end of a name lies.
pub proof fn lemma_name_end(s: Seq<char>, from: int, verbatim: bool)
    requires
        0 <= from,
    ensures
        from <= s.len() ==> from <= name_end(s, from, verbatim) <= s.len(),
        from >= s.len() ==> name_end(s, from, verbatim) == s.len(),
    decreases s.len() - from,
{
    if from < s.len() {
        lemma_name_end(s, from + 1, verbatim);
    }
}

// ---------------------------------------------------------------- executable

/// Whether the character parts names.
fn parts(c: char, verbatim: bool) -> (r: bool)
    ensures
        r == parts_names(c, verbatim),
{
    c == '\\' || (!verbatim && c == '/')
}

/// Finds where the name that begins at `from` ends.
fn find_name_end(s: &Vec<char>, from: usize, verbatim: bool) -> (r: usize)
    requires
        from <= s@.len(),
    ensures
        r == name_end(s@, from as int, verbatim),
        from <= r <= s@.len(),
{
    let mut i: usize = from;
    while i < s.len() && !parts(s[i], verbatim)
        invariant
            from <= i <= s@.len(),
            name_end(s@, from as int, verbatim) == name_end(s@, i as int, verbatim),
        decreases s@.len() - i,
    {
        i += 1;
    }
    i
}

/// Where the name behind the one that ends at `end` ends; the end of the text where none follows.
fn find_next_end(s: &Vec<char>, end: usize, verbatim: bool) -> (r: usize)
    requires
        end <= s@.len(),
    ensures
        r == name_end(s@, end + 1, verbatim),
        r <= s@.len(),
{
    if end < s.len() {
        find_name_end(s, end + 1, verbatim)
    } else {
        s.len()
    }
}

/// Whether a letter and a colon stand at the index.
fn drive_at(s: &Vec<char>, i: usize) -> (r: bool)
    requires
        i <= s@.len(),
    ensures
        r == is_drive_at(s@, i as int),
{
    if s.len() - i < 2 {
        return false;
    }
    let c = s[i];
    (('a' <= c && c <= 'z') || ('A' <= c && c <= 'Z')) && s[i + 1] == ':'
}

/// Whether the path is verbatim.
fn verbatim(s: &Vec<char>) -> (r: bool)
    ensures
        r == is_verbatim(s@),
{
    s.len() >= 4 && s[0] == '\\' && s[1] == '\\' && s[2] == '?' && s[3] == '\\'
}

/// Finds where the prefix of a path ends.
fn find_prefix_end(s: &Vec<char>) -> (r: usize)
    ensures
        r == prefix_end(s@),
        r <= s@.len(),
{
    let n: usize = s.len();
    if verbatim(s) {
        if n >= 8 && s[4] == 'U' && s[5] == 'N' && s[6] == 'C' && s[7] == '\\' {
            let server = find_name_end(s, 8, true);
            let share = find_next_end(s, server, true);
            if share > server && share - server > 1 {
                share
            } else {
                server
            }
        } else if drive_at(s, 4) && (n == 6 || parts(s[6], false)) {
            6
        } else {
            find_name_end(s, 4, true)
        }
    } else if n >= 2 && parts(s[0], false) && parts(s[1], false) {
        if n >= 4 && s[2] == '.' && parts(s[3], false) {
            find_name_end(s, 4, false)
        } else {
            let server = find_name_end(s, 2, false);
            let share = find_next_end(s, server, false);
            if server > 2 && share > server && share - server > 1 {
                share
            } else {
                0
            }
        }
    } else if drive_at(s, 0) {
        2
    } else {
        0
    }
}

/// Lists the names in the text from an index on.
fn list_names(s: &Vec<char>, from: usize, verbatim: bool) -> (r: Vec<String>)
    requires
        from <= s@.len(),
    ensures
        texts(r@) == names_from(s@, from as int, verbatim),
{
    let mut r: Vec<String> = Vec::new();
    let mut i: usize = from;
    let ghost all = names_from(s@, from as int, verbatim);
    assert(texts(r@) + all =~= all);
    while i < s.len()
        invariant
            i <= s@.len(),
            all == texts(r@) + names_from(s@, i as int, verbatim),
        decreases s@.len() - i,
    {
        let k = find_name_end(s, i, verbatim);
        if k > i {
            let name = text_of(s, i, k);
            proof {
                lemma_texts_push(r@, name);
                assert(texts(r@) + (seq![name@] + names_from(s@, k + 1, verbatim)) =~= texts(
                    r@,
                ).push(name@) + names_from(s@, k + 1, verbatim));
            }
            r.push(name);
        }
        if k < s.len() {
            i = k + 1;
        } else {
            i = k;
            assert(names_from(s@, k + 1, verbatim) =~= names_from(s@, k as int, verbatim));
        }
    }
    assert(texts(r@) + Seq::<Seq<char>>::empty() =~= texts(r@));
    r
}

/// Takes steps from some names.
fn walk(names: Vec<String>, steps: &Vec<String>) -> (r: Vec<String>)
    ensures
        texts(r@) == walked(texts(names@), texts(steps@)),
{
    let mut r = names;
    let mut i: usize = 0;
    let ghost start = texts(names@);
    let ghost all = texts(steps@);
    assert(all.take(0) =~= Seq::<Seq<char>>::empty());
    while i < steps.len()
        invariant
            i <= steps@.len(),
            all == texts(steps@),
            texts(r@) == walked(start, all.take(i as int)),
        decreases steps@.len() - i,
    {
        proof {
            assert(all.take(i + 1).drop_last() =~= all.take(i as int));
            assert(all.take(i + 1).last() == steps@[i as int]@);
        }
        let step = steps[i].as_str();
        let ghost before = texts(r@);
        if same_text(step, ".") {
        } else if same_text(step, "..") {
            let n: usize = r.len();
            if n > 0 {
                assert(before.last() == r@[n - 1]@);
                let last = r[n - 1].as_str();
                if !same_text(last, ".") && !same_text(last, "..") {
                    let _ = r.pop();
                    assert(texts(r@) =~= before.drop_last());
                }
            }
        } else {
            let s = steps[i].clone();
            proof {
                lemma_texts_push(r@, s);
            }
            r.push(s);
        }
        assert(texts(r@) == stepped(before, all.take(i + 1).last()));
        i += 1;
    }
    assert(all.take(steps@.len() as int) =~= all);
    r
}

/// The path `rel` taken from a verbatim path.
fn join_verbatim(base: &Vec<char>, rel: &Vec<char>) -> (r: String)
    requires
        rel@.len() > 0,
    ensures
        r@ == verbatim_pushed(base@, rel@),
{
    let e = find_prefix_end(base);
    let absolute = parts(rel[0], false);
    let rooted = absolute || (e < base.len() && parts(base[e], false));
    let start = if absolute || e >= base.len() {
        let none: Vec<String> = Vec::new();
        assert(texts(none@) =~= Seq::<Seq<char>>::empty());
        none
    } else {
        list_names(base, e + 1, true)
    };
    let all = walk(start, &list_names(rel, 0, false));
    let head = text_of(base, 0, e);
    assert(base@.subrange(0, e as int) =~= base@.take(e as int));
    let rest = join(&all, "\\");
    assert(texts(all@).len() == all@.len());
    if rooted || all.len() > 0 {
        concat3(head.as_str(), "\\", rest.as_str())
    } else {
        assert(head@ + Seq::<char>::empty() =~= head@);
        concat2(head.as_str(), rest.as_str())
    }
}

/// The path `rel` taken from `base` on Windows.
fn join_windows(base: &str, rel: &str) -> (r: String)
    ensures
        r@ == windows_pushed(base@, rel@),
{
    let b = chars_of(base);
    let c = chars_of(rel);
    let n: usize = b.len();
    if find_prefix_end(&c) > 0 {
        rel.to_owned()
    } else if verbatim(&b) && c.len() > 0 {
        join_verbatim(&b, &c)
    } else if c.len() > 0 && parts(c[0], false) {
        let e = find_prefix_end(&b);
        assert(b@.subrange(0, e as int) =~= b@.take(e as int));
        concat2(text_of(&b, 0, e).as_str(), rel)
    } else if n == 0 || parts(b[n - 1], false) || (n == 2 && drive_at(&b, 0)) {
        concat2(base, rel)
    } else {
        concat3(base, "\\", rel)
    }
}

/// The path `rel` taken from `base` on a host with such paths.
pub fn join_host(style: PathStyle, base: &str, rel: &str) -> (r: String)
    ensures
        r@ == host_pushed(style, base@, rel@),
{
    match style {
        PathStyle::Unix => join_path(base, rel),
        PathStyle::Windows => join_windows(base, rel),
    }
}

// ---------------------------------------------------------------- laws

/// The text names one file in a directory of Windows: it holds no slash of either kind, and no
/// colon that would make it a drive.
pub open spec fn is_windows_name(s: Seq<char>) -> bool {
    &&& s.len() > 0
    &&& forall|i: int| 0 <= i < s.len() ==> !parts_names(#[trigger] s[i], false)
    &&& !is_drive_at(s, 0)
}

/// On Windows a name is put behind a directory with a backslash between the two, unless the
/// directory ends in a slash already, is a mere drive or is verbatim.
pub proof fn name_stands_behind_a_backslash(base: Seq<char>, name: Seq<char>)
    requires
        is_windows_name(name),
        base.len() > 0,
        !parts_names(base.last(), false),
        !(base.len() == 2 && is_drive_at(base, 0)),
        !is_verbatim(base),
    ensures
        host_pushed(PathStyle::Windows, base, name) == base + "\\"@ + name,
{
    assert(!parts_names(name[0], false));
}

/// On a host like Unix paths are joined as those of Unix are.
pub proof fn unix_paths_are_joined_as_such(base: &str, rel: &str, r: String, u: String)
    requires
        call_ensures(join_host, (PathStyle::Unix, base, rel), r),
        call_ensures(join_path, (base, rel), u),
    ensures
        r@ == u@,
{
}

/// The character is a letter of a drive.
pub open spec fn is_drive_letter(c: char) -> bool {
    ('a' <= c <= 'z') || ('A' <= c <= 'Z')
}

/// The character is a slash of either kind.
pub open spec fn is_either_slash(c: char) -> bool {
    c == '/' || c == '\\'
}

/// On Windows a path on a drive is taken as it is; one from the root is taken from the root of the
/// drive that the directory is on; and any other stands last, behind the directory, with at most a
/// backslash between the two: there is one unless the directory ends in a slash or is a mere drive.
pub proof fn windows_paths_are_joined(base: &str, rel: &str, r: String)
    requires
        call_ensures(join_host, (PathStyle::Windows, base, rel), r),
    ensures
        rel@.len() >= 2 && is_drive_letter(rel@[0]) && rel@[1] == ':' ==> r@ == rel@,
        base@.len() >= 2 && is_drive_letter(base@[0]) && base@[1] == ':' && rel@.len() > 0
            && is_either_slash(rel@[0]) && (rel@.len() == 1 || !is_either_slash(rel@[1])) ==> r@
            == seq![base@[0], ':'] + rel@,
        rel@.len() > 0 && !is_either_slash(rel@[0]) && !(rel@.len() >= 2 && is_drive_letter(rel@[0])
            && rel@[1] == ':') && !(base@.len() >= 4 && base@.take(4) == seq!['\\', '\\', '?', '\\']) ==> {
            &&& base@.is_prefix_of(r@)
            &&& rel@ == r@.skip(r@.len() - rel@.len())
            &&& base@.len() > 2 && !is_either_slash(base@.last()) ==> r@ == base@ + seq!['\\'] + rel@
            &&& base@.len() > 0 && is_either_slash(base@.last()) ==> r@ == base@ + rel@
            &&& base@.len() == 0 ==> r@ == rel@
        },
{
    reveal_strlit("\\");
    assert("\\"@ =~= seq!['\\']);
    if base@.len() >= 2 {
        assert(base@.take(2) =~= seq![base@[0], base@[1]]);
    }
    let w = windows_pushed(base@, rel@);
    if is_verbatim(base@) {
        assert(base@.take(4) =~= seq!['\\', '\\', '?', '\\']);
    }
    if prefix_end(rel@) <= 0 && !is_verbatim(base@) && rel@.len() > 0 && !parts_names(rel@[0], false) {
        assert(w.skip(w.len() - rel@.len()) =~= rel@);
        assert(w.subrange(0, base@.len() as int) =~= base@);
    }
    if base@.len() == 0 {
        assert(base@ + rel@ =~= rel@);
    }
}

/// A name ends at the slash behind it.
proof fn lemma_name_ends_at_slash(s: Seq<char>, from: int, k: int)
    requires
        0 <= from <= k <= s.len(),
        forall|i: int| from <= i < k ==> !is_either_slash(#[trigger] s[i]),
        k < s.len() ==> is_either_slash(s[k]),
    ensures
        name_end(s, from, false) == k,
    decreases k - from,
{
    if from < k {
        assert(!is_either_slash(s[from]));
        lemma_name_ends_at_slash(s, from + 1, k);
    }
}

/// On Windows a path from the root that is taken from a directory on a share of a server is taken from
/// the root of that share.
pub proof fn shares_have_their_own_root(
    base: &str,
    server: Seq<char>,
    share: Seq<char>,
    rest: Seq<char>,
    rel: &str,
    r: String,
)
    requires
        call_ensures(join_host, (PathStyle::Windows, base, rel), r),
        base@ == seq!['\\', '\\'] + server + seq!['\\'] + share + rest,
        server.len() > 0 && server != seq!['.'] && server != seq!['?'],
        share.len() > 0,
        forall|i: int| 0 <= i < server.len() ==> !is_either_slash(#[trigger] server[i]),
        forall|i: int| 0 <= i < share.len() ==> !is_either_slash(#[trigger] share[i]),
        rest.len() > 0 ==> is_either_slash(rest[0]),
        rel@.len() > 0 && is_either_slash(rel@[0]) && (rel@.len() == 1 || !is_either_slash(rel@[1])),
    ensures
        r@ == seq!['\\', '\\'] + server + seq!['\\'] + share + rel@,
{
    let b = base@;
    let m = 2 + server.len() as int;
    let e = m + 1 + share.len() as int;
    assert forall|i: int| 2 <= i < m implies !is_either_slash(#[trigger] b[i]) by {
        assert(b[i] == server[i - 2]);
    }
    assert forall|i: int| m + 1 <= i < e implies !is_either_slash(#[trigger] b[i]) by {
        assert(b[i] == share[i - m - 1]);
    }
    assert(b[m] == '\\');
    if rest.len() > 0 {
        assert(b[e] == rest[0]);
    }
    lemma_name_ends_at_slash(b, 2, m);
    lemma_name_ends_at_slash(b, m + 1, e);
    assert(b[0] == '\\' && b[1] == '\\');
    if server.len() == 1 {
        if b[2] == '.' {
            assert(server =~= seq!['.']);
        }
        if b[2] == '?' {
            assert(server =~= seq!['?']);
        }
    } else {
        assert(!is_either_slash(b[3]));
    }
    assert(!is_verbatim(b));
    assert(prefix_end(b) == e);
    assert(b.take(e) =~= seq!['\\', '\\'] + server + seq!['\\'] + share);
    assert(prefix_end(rel@) == 0);
}

/// A step to a name puts it last; a step up takes it off again, and one that stays changes nothing.
pub proof fn steps_go_down_and_up(names: Seq<Seq<char>>, name: Seq<char>)
    requires
        name != "."@,
        name != ".."@,
    ensures
        stepped(names, name) == names.push(name),
        stepped(names.push(name), ".."@) == names,
        stepped(names, "."@) == names,
        walked(names, seq![name, ".."@]) == names,
{
    reveal_strlit(".");
    reveal_strlit("..");
    assert("."@.len() == 1 && ".."@.len() == 2);
    assert(names.push(name).drop_last() =~= names);
    let steps = seq![name, ".."@];
    assert(steps.drop_last() =~= seq![name]);
    assert(seq![name].drop_last() =~= Seq::<Seq<char>>::empty());
    reveal_with_fuel(walked, 3);
    assert(seq![name].last() == name);
    assert(steps.last() == ".."@);
}

/// What is taken from a verbatim path keeps its prefix, and a name stands last in it, behind a
/// backslash.
pub proof fn verbatim_paths_end_with_the_name(base: &str, name: &str, r: String)
    requires
        call_ensures(join_host, (PathStyle::Windows, base, name), r),
        base@.len() >= 4,
        base@[0] == '\\' && base@[1] == '\\' && base@[2] == '?' && base@[3] == '\\',
        name@.len() > 0,
        forall|i: int| 0 <= i < name@.len() ==> !is_either_slash(#[trigger] name@[i]),
        !(name@.len() >= 2 && is_drive_letter(name@[0]) && name@[1] == ':'),
        name@ != "."@,
        name@ != ".."@,
    ensures
        r@.len() > name@.len(),
        r@.skip(r@.len() - name@.len()) == name@,
        r@[r@.len() - name@.len() - 1] == '\\',
        r@.take(4) == base@.take(4),
{
    reveal_strlit("\\");
    let b = base@;
    let s = name@;
    let e = prefix_end(b);
    lemma_name_end(b, 4, true);
    if b.len() >= 8 {
        lemma_name_end(b, 8, true);
        let server = name_end(b, 8, true);
        lemma_name_end(b, server + 1, true);
    }
    assert(4 <= e <= b.len());
    assert(!parts_names(s[0], false));
    lemma_name_ends_last(s, 0);
    let start = names_from(b, e + 1, true);
    let steps = names_from(s, 0, false);
    assert(s.subrange(0, s.len() as int) =~= s);
    assert(names_from(s, s.len() as int + 1, false) =~= Seq::<Seq<char>>::empty());
    assert(steps =~= seq![s]);
    assert(steps.drop_last() =~= Seq::<Seq<char>>::empty());
    reveal_with_fuel(walked, 2);
    assert(steps.last() == s);
    let all = walked(start, steps);
    assert(all == start.push(s));
    let j = joined(all, "\\"@);
    joined_grows_by_parts(start, s, "\\"@);
    let head = b.take(e) + "\\"@;
    assert(r@ == head + j);
    if start.len() == 0 {
        assert(j =~= s);
    }
    assert(r@.skip(r@.len() - s.len()) =~= s);
    assert(r@.take(4) =~= b.take(4));
}

/// The first part stands first.
proof fn lemma_joined_begins(a: Seq<char>, rest: Seq<Seq<char>>, sep: Seq<char>)
    requires
        rest.len() > 0,
    ensures
        joined(seq![a] + rest, sep) == a + sep + joined(rest, sep),
    decreases rest.len(),
{
    let all = seq![a] + rest;
    let front = rest.drop_last();
    let none = Seq::<Seq<char>>::empty();
    assert(all.drop_last() =~= seq![a] + front);
    assert(seq![a] + front.push(rest.last()) =~= all);
    joined_grows_by_parts(seq![a] + front, rest.last(), sep);
    assert((seq![a] + front).push(rest.last()) =~= all);
    assert(front.push(rest.last()) =~= rest);
    if front.len() == 0 {
        assert(seq![a] + front =~= seq![a]);
        assert(rest =~= seq![rest.last()]);
        joined_grows_by_parts(none, a, sep);
        joined_grows_by_parts(none, rest.last(), sep);
    } else {
        lemma_joined_begins(a, front, sep);
        joined_grows_by_parts(front, rest.last(), sep);
        assert(a + sep + joined(front, sep) + sep + rest.last() =~= a + sep + joined(rest, sep));
    }
}

/// Names that single backslashes part make up the text again when they are joined.
proof fn lemma_names_make_up_the_text(s: Seq<char>, from: int)
    requires
        0 <= from < s.len(),
        s[from] != '\\',
        s.last() != '\\',
        forall|i: int| from <= i < s.len() - 1 && #[trigger] s[i] == '\\' ==> s[i + 1] != '\\',
    ensures
        names_from(s, from, true).len() > 0,
        joined(names_from(s, from, true), "\\"@) == s.skip(from),
    decreases s.len() - from,
{
    reveal_strlit("\\");
    let k = name_end(s, from, true);
    lemma_name_end(s, from, true);
    lemma_ends_at_backslash(s, from);
    let sub = s.subrange(from, k);
    let none = Seq::<Seq<char>>::empty();
    if k == s.len() {
        assert(names_from(s, k + 1, true) =~= none);
        assert(seq![sub] + none =~= seq![sub]);
        joined_grows_by_parts(none, sub, "\\"@);
        assert(sub =~= s.skip(from));
    } else {
        assert(k < s.len() - 1);
        assert(s[k + 1] != '\\');
        lemma_names_make_up_the_text(s, k + 1);
        let rest = names_from(s, k + 1, true);
        lemma_joined_begins(sub, rest, "\\"@);
        assert(sub + "\\"@ + s.skip(k + 1) =~= s.skip(from));
    }
}

/// In a verbatim path a name ends at a backslash.
proof fn lemma_ends_at_backslash(s: Seq<char>, from: int)
    requires
        0 <= from <= s.len(),
    ensures
        from <= name_end(s, from, true) <= s.len(),
        name_end(s, from, true) < s.len() ==> s[name_end(s, from, true)] == '\\',
        from < s.len() && s[from] != '\\' ==> name_end(s, from, true) > from,
    decreases s.len() - from,
{
    if from < s.len() && s[from] != '\\' {
        lemma_ends_at_backslash(s, from + 1);
    }
}

/// A name is put behind a verbatim path on a drive with a backslash between the two, and all of the
/// path is kept.
pub proof fn verbatim_directories_are_kept(base: &str, name: &str, r: String)
    requires
        call_ensures(join_host, (PathStyle::Windows, base, name), r),
        base@.len() > 7,
        base@.take(4) == seq!['\\', '\\', '?', '\\'],
        is_drive_letter(base@[4]) && base@[5] == ':' && base@[6] == '\\',
        base@[7] != '\\',
        base@.last() != '\\',
        forall|i: int|
            7 <= i < base@.len() - 1 && #[trigger] base@[i] == '\\' ==> base@[i + 1] != '\\',
        name@.len() > 0,
        forall|i: int| 0 <= i < name@.len() ==> !is_either_slash(#[trigger] name@[i]),
        !(name@.len() >= 2 && is_drive_letter(name@[0]) && name@[1] == ':'),
        name@ != "."@,
        name@ != ".."@,
    ensures
        r@ == base@ + "\\"@ + name@,
{
    reveal_strlit("\\");
    let b = base@;
    let s = name@;
    assert(b.take(4)[0] == b[0] && b.take(4)[1] == b[1] && b.take(4)[2] == b[2] && b.take(4)[3]
        == b[3]);
    assert(b[5] == ':');
    assert(prefix_end(b) == 6);
    assert(!parts_names(s[0], false));
    lemma_name_ends_last(s, 0);
    lemma_names_make_up_the_text(b, 7);
    let start = names_from(b, 7, true);
    let steps = names_from(s, 0, false);
    assert(s.subrange(0, s.len() as int) =~= s);
    assert(names_from(s, s.len() as int + 1, false) =~= Seq::<Seq<char>>::empty());
    assert(steps =~= seq![s]);
    assert(steps.drop_last() =~= Seq::<Seq<char>>::empty());
    reveal_with_fuel(walked, 2);
    assert(steps.last() == s);
    assert(walked(start, steps) == start.push(s));
    joined_grows_by_parts(start, s, "\\"@);
    assert(r@ == b.take(6) + "\\"@ + (b.skip(7) + "\\"@ + s));
    assert(r@ =~= b + "\\"@ + s);
}

/// A name without a slash goes to the end of its text.
proof fn lemma_name_ends_last(s: Seq<char>, from: int)
    requires
        0 <= from <= s.len(),
        forall|i: int| 0 <= i < s.len() ==> !is_either_slash(#[trigger] s[i]),
    ensures
        name_end(s, from, false) == s.len(),
    decreases s.len() - from,
{
    if from < s.len() {
        assert(!is_either_slash(s[from]));
        lemma_name_ends_last(s, from + 1);
    }
}

} // verus!
