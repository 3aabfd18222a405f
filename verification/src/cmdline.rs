//! The kernel command line of the guest.

use vstd::prelude::*;

use crate::text::{
    concat2, concat3, has_prefix, join, joined, joined_grows_by_parts, joined_holds_every_part,
    lemma_texts_push, texts,
};

verus! {

/// What the parameter that holds a script begins with.
pub open spec fn script_prefix() -> Seq<char> {
    "tokimo.script="@
}

/// The parameter holds a script.
pub open spec fn is_script(p: Seq<char>) -> bool {
    script_prefix().is_prefix_of(p)
}

/// The parameters that hold a script, or those that do not, in their order.
pub open spec fn kept(params: Seq<Seq<char>>, scripts: bool) -> Seq<Seq<char>>
    decreases params.len(),
{
    if params.len() == 0 {
        Seq::empty()
    } else {
        let front = kept(params.drop_last(), scripts);
        if is_script(params.last()) == scripts {
            front.push(params.last())
        } else {
            front
        }
    }
}

/// The texts of pairs of strings.
pub open spec fn pair_texts(v: Seq<(String, String)>) -> Seq<(Seq<char>, Seq<char>)> {
    Seq::new(v.len(), |i: int| (v[i].0@, v[i].1@))
}

/// A mount as the guest is told of it: its tag and where it goes.
pub open spec fn mount_text(m: (Seq<char>, Seq<char>)) -> Seq<char> {
    m.0 + ":"@ + m.1
}

/// The mounts as the guest is told of them.
pub open spec fn mount_texts(mounts: Seq<(Seq<char>, Seq<char>)>) -> Seq<Seq<char>> {
    Seq::new(mounts.len(), |i: int| mount_text(mounts[i]))
}

/// The parameters that do not depend on what the caller adds.
pub open spec fn base_params(
    console: Seq<char>,
    mounts: Seq<(Seq<char>, Seq<char>)>,
    has_rootfs: bool,
) -> Seq<Seq<char>> {
    seq!["console="@ + console, "panic=-1"@, "quiet"@, "loglevel=3"@] + (if has_rootfs {
        seq!["root=/dev/vda"@, "rootfstype=squashfs"@, "ro"@]
    } else {
        Seq::empty()
    }) + (if mounts.len() > 0 {
        seq!["tokimo.mounts="@ + joined(mount_texts(mounts), ","@)]
    } else {
        Seq::empty()
    })
}

/// All parameters: those of the caller stand behind the others, scripts behind everything else.
pub open spec fn all_params(
    console: Seq<char>,
    extra: Seq<Seq<char>>,
    mounts: Seq<(Seq<char>, Seq<char>)>,
    has_rootfs: bool,
) -> Seq<Seq<char>> {
    base_params(console, mounts, has_rootfs) + kept(extra, false) + kept(extra, true)
}

/// The command line.
pub open spec fn command_line(
    console: Seq<char>,
    extra: Seq<Seq<char>>,
    mounts: Seq<(Seq<char>, Seq<char>)>,
    has_rootfs: bool,
) -> Seq<char> {
    joined(all_params(console, extra, mounts, has_rootfs), " "@)
}

/// Appends the parameters that hold a script, or those that do not.
fn append_kept(parts: &mut Vec<String>, params: &Vec<String>, scripts: bool)
    ensures
        texts(final(parts)@) == texts(old(parts)@) + kept(texts(params@), scripts),
{
    let ghost before = texts(parts@);
    let ghost all = texts(params@);
    let mut i: usize = 0;
    assert(all.take(0) =~= Seq::<Seq<char>>::empty());
    assert(before + kept(all.take(0), scripts) =~= before);
    while i < params.len()
        invariant
            i <= params@.len(),
            all == texts(params@),
            texts(parts@) == before + kept(all.take(i as int), scripts),
        decreases params@.len() - i,
    {
        proof {
            let t = all.take(i + 1);
            assert(t.drop_last() =~= all.take(i as int));
            assert(t.last() == params@[i as int]@);
            let front = kept(all.take(i as int), scripts);
            assert((before + front).push(t.last()) =~= before + front.push(t.last()));
        }
        if has_prefix(params[i].as_str(), "tokimo.script=") == scripts {
            let p = params[i].clone();
            proof {
                lemma_texts_push(parts@, p);
            }
            parts.push(p);
        }
        i += 1;
    }
    assert(all.take(params@.len() as int) =~= all);
}

/// The mounts as the guest is told of them, separated by commas.
fn mounts_text(mounts: &Vec<(String, String)>) -> (r: String)
    ensures
        r@ == joined(mount_texts(pair_texts(mounts@)), ","@),
{
    let mut parts: Vec<String> = Vec::new();
    let mut i: usize = 0;
    assert(texts(parts@) =~= mount_texts(pair_texts(mounts@)).take(0));
    while i < mounts.len()
        invariant
            i <= mounts@.len(),
            texts(parts@) == mount_texts(pair_texts(mounts@)).take(i as int),
        decreases mounts@.len() - i,
    {
        let p = concat3(mounts[i].0.as_str(), ":", mounts[i].1.as_str());
        proof {
            lemma_texts_push(parts@, p);
            assert(mount_texts(pair_texts(mounts@)).take(i + 1) =~= mount_texts(pair_texts(mounts@)).take(i as int).push(
                p@,
            ));
        }
        parts.push(p);
        i += 1;
    }
    assert(mount_texts(pair_texts(mounts@)).take(mounts@.len() as int) =~= mount_texts(pair_texts(mounts@)));
    join(&parts, ",")
}

/// Builds the kernel command line for a guest whose console is `console`.
pub fn build_cmdline(
    console: &str,
    extra: &Vec<String>,
    mounts: &Vec<(String, String)>,
    has_rootfs: bool,
) -> (r: String)
    ensures
        r@ == command_line(console@, texts(extra@), pair_texts(mounts@), has_rootfs),
{
    let mut parts: Vec<String> = Vec::new();
    parts.push(concat2("console=", console));
    parts.push("panic=-1".to_owned());
    parts.push("quiet".to_owned());
    parts.push("loglevel=3".to_owned());
    if has_rootfs {
        parts.push("root=/dev/vda".to_owned());
        parts.push("rootfstype=squashfs".to_owned());
        parts.push("ro".to_owned());
    }
    if mounts.len() > 0 {
        parts.push(concat2("tokimo.mounts=", mounts_text(mounts).as_str()));
    }
    assert(texts(parts@) =~= base_params(console@, pair_texts(mounts@), has_rootfs));
    append_kept(&mut parts, extra, false);
    append_kept(&mut parts, extra, true);
    join(&parts, " ")
}

/// What is kept are scripts, or none is, as asked.
proof fn lemma_kept(params: Seq<Seq<char>>, scripts: bool)
    ensures
        forall|i: int|
            0 <= i < kept(params, scripts).len() ==> is_script(#[trigger] kept(params, scripts)[i])
                == scripts,
    decreases params.len(),
{
    if params.len() > 0 {
        lemma_kept(params.drop_last(), scripts);
        let front = kept(params.drop_last(), scripts);
        let k = kept(params, scripts);
        assert forall|i: int| 0 <= i < k.len() implies is_script(#[trigger] k[i]) == scripts by {
            if i < front.len() {
                assert(k[i] == front[i]);
            }
        }
    }
}

/// The parameters of the library hold no script.
proof fn lemma_base_holds_no_script(
    console: Seq<char>,
    mounts: Seq<(Seq<char>, Seq<char>)>,
    has_rootfs: bool,
)
    ensures
        forall|i: int|
            0 <= i < base_params(console, mounts, has_rootfs).len() ==> !is_script(
                #[trigger] base_params(console, mounts, has_rootfs)[i],
            ),
{
    reveal_strlit("tokimo.script=");
    reveal_strlit("console=");
    reveal_strlit("panic=-1");
    reveal_strlit("quiet");
    reveal_strlit("loglevel=3");
    reveal_strlit("root=/dev/vda");
    reveal_strlit("rootfstype=squashfs");
    reveal_strlit("ro");
    reveal_strlit("tokimo.mounts=");
    let b = base_params(console, mounts, has_rootfs);
    assert forall|i: int| 0 <= i < b.len() implies !is_script(#[trigger] b[i]) by {
        if is_script(b[i]) {
            assert(b[i][0] == script_prefix()[0]);
            assert(b[i][7] == script_prefix()[7]);
        }
    }
}

/// Scripts come last: behind the first script there are only scripts, so that what follows the
/// last of them to the end of the line is its own text.
pub proof fn scripts_come_last(
    console: Seq<char>,
    extra: Seq<Seq<char>>,
    mounts: Seq<(Seq<char>, Seq<char>)>,
    has_rootfs: bool,
    i: int,
    j: int,
)
    requires
        0 <= i < j < all_params(console, extra, mounts, has_rootfs).len(),
        is_script(all_params(console, extra, mounts, has_rootfs)[i]),
    ensures
        is_script(all_params(console, extra, mounts, has_rootfs)[j]),
{
    lemma_kept(extra, false);
    lemma_kept(extra, true);
    lemma_base_holds_no_script(console, mounts, has_rootfs);
    let base = base_params(console, mounts, has_rootfs);
    let rest = kept(extra, false);
    let p = all_params(console, extra, mounts, has_rootfs);
    if i < base.len() {
        assert(p[i] == base[i]);
    } else if i < base.len() + rest.len() {
        assert(p[i] == rest[i - base.len()]);
    }
    assert(p[j] == kept(extra, true)[j - base.len() - rest.len()]);
}

/// Where the caller adds a script, the command line ends with it; of several the last one counts.
pub proof fn line_ends_with_script(
    console: Seq<char>,
    extra: Seq<Seq<char>>,
    mounts: Seq<(Seq<char>, Seq<char>)>,
    has_rootfs: bool,
)
    requires
        kept(extra, true).len() > 0,
    ensures
        command_line(console, extra, mounts, has_rootfs) == joined(
            base_params(console, mounts, has_rootfs) + kept(extra, false) + kept(
                extra,
                true,
            ).drop_last(),
            " "@,
        ) + " "@ + kept(extra, true).last(),
{
    let p = all_params(console, extra, mounts, has_rootfs);
    assert(p.drop_last() =~= base_params(console, mounts, has_rootfs) + kept(extra, false) + kept(
        extra,
        true,
    ).drop_last());
    assert(p.last() == kept(extra, true).last());
}

/// Nothing that the caller adds is lost or doubled.
pub proof fn every_extra_is_kept_once(extra: Seq<Seq<char>>)
    ensures
        (kept(extra, false) + kept(extra, true)).to_multiset() == extra.to_multiset(),
    decreases extra.len(),
{
    broadcast use vstd::seq_lib::group_to_multiset_ensures;

    let a = kept(extra, false);
    let b = kept(extra, true);
    vstd::seq_lib::lemma_multiset_commutative(a, b);
    if extra.len() > 0 {
        let front = extra.drop_last();
        let fa = kept(front, false);
        let fb = kept(front, true);
        every_extra_is_kept_once(front);
        vstd::seq_lib::lemma_multiset_commutative(fa, fb);
        assert(front.push(extra.last()) =~= extra);
        assert(a.to_multiset().add(b.to_multiset()) =~= extra.to_multiset());
    } else {
        assert(a + b =~= extra);
    }
}

/// A parameter holds a script exactly where something follows the marker of scripts in it.
pub proof fn a_script_follows_its_marker(p: Seq<char>)
    ensures
        is_script(p) <==> exists|text: Seq<char>| p == #[trigger] ("tokimo.script="@ + text),
{
    let m = "tokimo.script="@;
    if is_script(p) {
        assert(p =~= m + p.skip(m.len() as int));
    }
    if exists|text: Seq<char>| p == #[trigger] ("tokimo.script="@ + text) {
        let text = choose|text: Seq<char>| p == #[trigger] ("tokimo.script="@ + text);
        assert(m =~= p.subrange(0, m.len() as int));
    }
}

/// What is kept of parameters is a part of them in their order: each kept one stands at a place of
/// its own, further on than the one before it.
pub proof fn kept_parameters_keep_their_order(
    params: Seq<Seq<char>>,
    scripts: bool,
    i: int,
    j: int,
)
    requires
        0 <= i < j < kept(params, scripts).len(),
    ensures
        exists|a: int, b: int|
            0 <= a < b < params.len() && #[trigger] params[a] == kept(params, scripts)[i]
                && #[trigger] params[b] == kept(params, scripts)[j],
    decreases params.len(),
{
    let front = params.drop_last();
    let k = kept(front, scripts);
    let all = kept(params, scripts);
    if j < k.len() {
        kept_parameters_keep_their_order(front, scripts, i, j);
        let (a, b) = choose|a: int, b: int|
            0 <= a < b < front.len() && #[trigger] front[a] == k[i] && #[trigger] front[b] == k[j];
        assert(params[a] == all[i] && params[b] == all[j]);
    } else {
        lemma_kept_stands_in(front, scripts, i);
        let a = choose|a: int| 0 <= a < front.len() && #[trigger] front[a] == k[i];
        assert(params[a] == all[i]);
        assert(params[params.len() - 1] == all[j]);
    }
}

/// What is kept was there.
proof fn lemma_kept_stands_in(params: Seq<Seq<char>>, scripts: bool, i: int)
    requires
        0 <= i < kept(params, scripts).len(),
    ensures
        exists|a: int| 0 <= a < params.len() && #[trigger] params[a] == kept(params, scripts)[i],
    decreases params.len(),
{
    let front = params.drop_last();
    let k = kept(front, scripts);
    if i < k.len() {
        lemma_kept_stands_in(front, scripts, i);
        let a = choose|a: int| 0 <= a < front.len() && #[trigger] front[a] == k[i];
        assert(params[a] == kept(params, scripts)[i]);
    } else {
        assert(params[params.len() - 1] == kept(params, scripts)[i]);
    }
}

/// A parameter of the caller is kept among the scripts or among the others.
proof fn lemma_extra_is_kept(params: Seq<Seq<char>>, i: int)
    requires
        0 <= i < params.len(),
    ensures
        exists|k: int|
            0 <= k < kept(params, is_script(params[i])).len() && #[trigger] kept(
                params,
                is_script(params[i]),
            )[k] == params[i],
    decreases params.len(),
{
    let s = is_script(params[i]);
    let front = params.drop_last();
    let f = kept(front, s);
    let all = kept(params, s);
    if i < params.len() - 1 {
        lemma_extra_is_kept(front, i);
        let k = choose|k: int| 0 <= k < f.len() && #[trigger] f[k] == front[i];
        assert(all[k] == params[i]);
    } else {
        assert(all[f.len() as int] == params[i]);
    }
}

/// The guest is told of its console first.
pub proof fn the_line_begins_with_the_console(
    console: &str,
    extra: &Vec<String>,
    mounts: &Vec<(String, String)>,
    has_rootfs: bool,
    r: String,
)
    requires
        call_ensures(build_cmdline, (console, extra, mounts, has_rootfs), r),
    ensures
        ("console="@ + console@).is_prefix_of(r@),
{
    let p = all_params(console@, texts(extra@), pair_texts(mounts@), has_rootfs);
    joined_holds_every_part(p, " "@, 0);
    assert(p[0] == "console="@ + console@);
}

/// The line names every mount: the tag, a colon, and where it goes; and the next one behind it, with a
/// comma between the two.
pub proof fn command_line_names_every_mount(
    console: Seq<char>,
    extra: Seq<Seq<char>>,
    mounts: Seq<(Seq<char>, Seq<char>)>,
    has_rootfs: bool,
    i: int,
)
    requires
        0 <= i < mounts.len(),
    ensures
        exists|a: Seq<char>, b: Seq<char>|
            command_line(console, extra, mounts, has_rootfs) == #[trigger] (a + (mounts[i].0 + ":"@
                + mounts[i].1) + b),
        i + 1 < mounts.len() ==> exists|a: Seq<char>, b: Seq<char>|
            command_line(console, extra, mounts, has_rootfs) == #[trigger] (a + (mounts[i].0 + ":"@
                + mounts[i].1 + ","@ + (mounts[i + 1].0 + ":"@ + mounts[i + 1].1)) + b),
{
    let told = mount_texts(mounts);
    let base = base_params(console, mounts, has_rootfs);
    let p = all_params(console, extra, mounts, has_rootfs);
    let k = base.len() - 1;
    let list = joined(told, ","@);
    let m = "tokimo.mounts="@;
    assert(base[k] == m + list);
    assert(p[k] == base[k]);
    joined_holds_every_part(p, " "@, k);
    let (a, b) = choose|a: Seq<char>, b: Seq<char>| joined(p, " "@) == #[trigger] (a + p[k] + b);
    joined_holds_every_part(told, ","@, i);
    let one = mounts[i].0 + ":"@ + mounts[i].1;
    assert(told[i] == one);
    let (c, d) = choose|c: Seq<char>, d: Seq<char>| list == #[trigger] (c + told[i] + d);
    lemma_stands_inside(a, m, c, one, d, b);
    if i + 1 < mounts.len() {
        let two = mounts[i + 1].0 + ":"@ + mounts[i + 1].1;
        assert(told[i + 1] == two);
        let (e, f) = choose|e: Seq<char>, f: Seq<char>|
            list == #[trigger] (e + (told[i] + ","@ + told[i + 1]) + f);
        lemma_stands_inside(a, m, e, one + ","@ + two, f, b);
    }
}

/// The guest is told of every mount: the tag, a colon, and where it goes; and of the next one behind
/// it, with a comma between the two.
pub proof fn the_line_names_every_mount(
    console: &str,
    extra: &Vec<String>,
    mounts: &Vec<(String, String)>,
    has_rootfs: bool,
    r: String,
    i: int,
)
    requires
        call_ensures(build_cmdline, (console, extra, mounts, has_rootfs), r),
        0 <= i < mounts@.len(),
    ensures
        exists|a: Seq<char>, b: Seq<char>|
            r@ == #[trigger] (a + (mounts@[i].0@ + ":"@ + mounts@[i].1@) + b),
        i + 1 < mounts@.len() ==> exists|a: Seq<char>, b: Seq<char>|
            r@ == #[trigger] (a + (mounts@[i].0@ + ":"@ + mounts@[i].1@ + ","@ + (
            mounts@[i + 1].0@ + ":"@ + mounts@[i + 1].1@)) + b),
{
    command_line_names_every_mount(console@, texts(extra@), pair_texts(mounts@), has_rootfs, i);
}

/// What stands inside a part stands inside the whole.
proof fn lemma_stands_inside(
    a: Seq<char>,
    m: Seq<char>,
    c: Seq<char>,
    x: Seq<char>,
    d: Seq<char>,
    b: Seq<char>,
)
    ensures
        a + (m + (c + x + d)) + b == (a + m + c) + x + (d + b),
{
    assert(a + (m + (c + x + d)) + b =~= (a + m + c) + x + (d + b));
}

/// The line holds every parameter that the caller adds, as it is.
pub proof fn command_line_holds_every_extra(
    console: Seq<char>,
    extra: Seq<Seq<char>>,
    mounts: Seq<(Seq<char>, Seq<char>)>,
    has_rootfs: bool,
    i: int,
)
    requires
        0 <= i < extra.len(),
    ensures
        exists|a: Seq<char>, b: Seq<char>|
            command_line(console, extra, mounts, has_rootfs) == #[trigger] (a + extra[i] + b),
{
    let base = base_params(console, mounts, has_rootfs);
    let p = all_params(console, extra, mounts, has_rootfs);
    lemma_extra_is_kept(extra, i);
    let s = is_script(extra[i]);
    let k = choose|k: int|
        0 <= k < kept(extra, s).len() && #[trigger] kept(extra, s)[k] == extra[i];
    let at = if s {
        base.len() + kept(extra, false).len() + k
    } else {
        base.len() + k
    };
    assert(p[at] == extra[i]);
    joined_holds_every_part(p, " "@, at);
}

/// What the caller adds stands on the line, each parameter as it is.
pub proof fn the_line_holds_every_extra(
    console: &str,
    extra: &Vec<String>,
    mounts: &Vec<(String, String)>,
    has_rootfs: bool,
    r: String,
    i: int,
)
    requires
        call_ensures(build_cmdline, (console, extra, mounts, has_rootfs), r),
        0 <= i < extra@.len(),
    ensures
        exists|a: Seq<char>, b: Seq<char>| r@ == #[trigger] (a + extra@[i]@ + b),
{
    command_line_holds_every_extra(console@, texts(extra@), pair_texts(mounts@), has_rootfs, i);
    assert(texts(extra@)[i] == extra@[i]@);
}

/// Where the last parameter that the caller adds is a script, the line ends with it.
pub proof fn the_line_ends_with_the_script(
    console: &str,
    extra: &Vec<String>,
    mounts: &Vec<(String, String)>,
    has_rootfs: bool,
    r: String,
    i: int,
    text: Seq<char>,
)
    requires
        call_ensures(build_cmdline, (console, extra, mounts, has_rootfs), r),
        0 <= i < extra@.len(),
        extra@[i]@ == "tokimo.script="@ + text,
        forall|j: int| i < j < extra@.len() ==> !("tokimo.script="@.is_prefix_of(
            #[trigger] extra@[j]@,
        )),
    ensures
        exists|a: Seq<char>| r@ == #[trigger] (a + ("tokimo.script="@ + text)),
{
    let all = texts(extra@);
    a_script_follows_its_marker(all[i]);
    assert forall|j: int| i < j < all.len() implies !is_script(#[trigger] all[j]) by {
        assert(all[j] == extra@[j]@);
    }
    lemma_last_script(all, i);
    line_ends_with_script(console@, all, pair_texts(mounts@), has_rootfs);
    let front = joined(
        base_params(console@, pair_texts(mounts@), has_rootfs) + kept(all, false) + kept(
            all,
            true,
        ).drop_last(),
        " "@,
    ) + " "@;
    assert(r@ == front + ("tokimo.script="@ + text));
}

/// The last script among parameters is the last of the scripts.
proof fn lemma_last_script(params: Seq<Seq<char>>, i: int)
    requires
        0 <= i < params.len(),
        is_script(params[i]),
        forall|j: int| i < j < params.len() ==> !is_script(#[trigger] params[j]),
    ensures
        kept(params, true).len() > 0,
        kept(params, true).last() == params[i],
    decreases params.len(),
{
    if i < params.len() - 1 {
        let front = params.drop_last();
        assert forall|j: int| i < j < front.len() implies !is_script(#[trigger] front[j]) by {
            assert(front[j] == params[j]);
        }
        lemma_last_script(front, i);
        assert(!is_script(params[params.len() - 1]));
    }
}

/// Without mounts and without anything that the caller adds the line tells of the console, of what is
/// done when the kernel fails, and that it is to be quiet; and of the root file system where there is
/// one.
pub proof fn the_shortest_line(
    console: &str,
    extra: &Vec<String>,
    mounts: &Vec<(String, String)>,
    has_rootfs: bool,
    r: String,
)
    requires
        call_ensures(build_cmdline, (console, extra, mounts, has_rootfs), r),
        extra@.len() == 0,
        mounts@.len() == 0,
    ensures
        !has_rootfs ==> r@ == "console="@ + console@ + " "@ + "panic=-1"@ + " "@ + "quiet"@ + " "@
            + "loglevel=3"@,
        has_rootfs ==> r@ == "console="@ + console@ + " "@ + "panic=-1"@ + " "@ + "quiet"@ + " "@
            + "loglevel=3"@ + " "@ + "root=/dev/vda"@ + " "@ + "rootfstype=squashfs"@ + " "@
            + "ro"@,
{
    let none = Seq::<Seq<char>>::empty();
    let c = "console="@ + console@;
    let p1 = seq![c];
    let p2 = p1.push("panic=-1"@);
    let p3 = p2.push("quiet"@);
    let p4 = p3.push("loglevel=3"@);
    let p5 = p4.push("root=/dev/vda"@);
    let p6 = p5.push("rootfstype=squashfs"@);
    let p7 = p6.push("ro"@);
    joined_grows_by_parts(none, c, " "@);
    joined_grows_by_parts(p1, "panic=-1"@, " "@);
    joined_grows_by_parts(p2, "quiet"@, " "@);
    joined_grows_by_parts(p3, "loglevel=3"@, " "@);
    joined_grows_by_parts(p4, "root=/dev/vda"@, " "@);
    joined_grows_by_parts(p5, "rootfstype=squashfs"@, " "@);
    joined_grows_by_parts(p6, "ro"@, " "@);
    assert(texts(extra@) =~= none);
    let all = all_params(console@, texts(extra@), pair_texts(mounts@), has_rootfs);
    if has_rootfs {
        assert(all =~= p7);
    } else {
        assert(all =~= p4);
    }
}

/// A parameter that the caller adds behind the others is added to the end of the line, behind a space,
/// where it is a script or no script was there.
pub proof fn the_line_grows_by_what_is_added(
    console: &str,
    extra: &Vec<String>,
    more: &Vec<String>,
    p: String,
    mounts: &Vec<(String, String)>,
    has_rootfs: bool,
    r: String,
    s: String,
)
    requires
        call_ensures(build_cmdline, (console, extra, mounts, has_rootfs), r),
        more@ == extra@.push(p),
        call_ensures(build_cmdline, (console, more, mounts, has_rootfs), s),
        "tokimo.script="@.is_prefix_of(p@) || (forall|j: int|
            0 <= j < extra@.len() ==> !("tokimo.script="@.is_prefix_of(#[trigger] extra@[j]@))),
    ensures
        s@ == r@ + " "@ + p@,
{
    let few = texts(extra@);
    let many = texts(more@);
    assert(many =~= few.push(p@));
    assert(many.drop_last() =~= few);
    let all = all_params(console@, few, pair_texts(mounts@), has_rootfs);
    if !is_script(p@) {
        assert forall|j: int| 0 <= j < few.len() implies !is_script(#[trigger] few[j]) by {
            assert(few[j] == extra@[j]@);
        }
        lemma_no_script_is_kept(few);
    }
    assert(all_params(console@, many, pair_texts(mounts@), has_rootfs) =~= all.push(p@));
    assert(all.len() > 0);
    joined_grows_by_parts(all, p@, " "@);
}

/// Where there is no script none is kept.
proof fn lemma_no_script_is_kept(params: Seq<Seq<char>>)
    requires
        forall|j: int| 0 <= j < params.len() ==> !is_script(#[trigger] params[j]),
    ensures
        kept(params, true).len() == 0,
    decreases params.len(),
{
    if params.len() > 0 {
        let front = params.drop_last();
        assert forall|j: int| 0 <= j < front.len() implies !is_script(#[trigger] front[j]) by {
            assert(front[j] == params[j]);
        }
        lemma_no_script_is_kept(front);
        assert(!is_script(params[params.len() - 1]));
    }
}

/// A mount that is added behind the others is added to what the guest is told of them: behind a comma,
/// or, where it is the only one, behind the name of the parameter.
pub proof fn the_line_grows_by_mounts(
    console: &str,
    extra: &Vec<String>,
    mounts: &Vec<(String, String)>,
    more: &Vec<(String, String)>,
    m: (String, String),
    has_rootfs: bool,
    r: String,
    s: String,
)
    requires
        extra@.len() == 0,
        call_ensures(build_cmdline, (console, extra, mounts, has_rootfs), r),
        more@ == mounts@.push(m),
        call_ensures(build_cmdline, (console, extra, more, has_rootfs), s),
    ensures
        mounts@.len() == 0 ==> s@ == r@ + " "@ + ("tokimo.mounts="@ + (m.0@ + ":"@ + m.1@)),
        mounts@.len() > 0 ==> s@ == r@ + ","@ + (m.0@ + ":"@ + m.1@),
{
    let few = mount_texts(pair_texts(mounts@));
    let many = mount_texts(pair_texts(more@));
    let one = m.0@ + ":"@ + m.1@;
    assert(many =~= few.push(one));
    assert(texts(extra@) =~= Seq::<Seq<char>>::empty());
    let nothing = Seq::<(Seq<char>, Seq<char>)>::empty();
    let bare = base_params(console@, nothing, has_rootfs);
    assert(bare.len() > 0);
    let told = "tokimo.mounts="@ + joined(many, ","@);
    assert(all_params(console@, texts(extra@), pair_texts(more@), has_rootfs) =~= bare.push(told));
    joined_grows_by_parts(bare, told, " "@);
    joined_grows_by_parts(few, one, ","@);
    if mounts@.len() == 0 {
        assert(few =~= Seq::<Seq<char>>::empty());
        assert(many =~= seq![one]);
        assert(pair_texts(mounts@) =~= nothing);
        assert(all_params(console@, texts(extra@), pair_texts(mounts@), has_rootfs) =~= bare);
    } else {
        let before = "tokimo.mounts="@ + joined(few, ","@);
        assert(all_params(console@, texts(extra@), pair_texts(mounts@), has_rootfs)
            =~= bare.push(before));
        joined_grows_by_parts(bare, before, " "@);
        assert(s@ =~= r@ + ","@ + one);
    }
}

} // verus!
