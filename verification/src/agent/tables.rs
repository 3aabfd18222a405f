//! The two tables of the agent: which number stands for which path, and which handle for which
//! path.
//!
//! Number one is the root. Any other path gets a number when it is first met and keeps it; paths
//! with the same components are one path, however they are spelled.

use std::collections::HashMap;
use vstd::hash_map::StringHashMap;
use vstd::prelude::*;

use crate::path::{
    canonical, canonical_text, components, same_spelling_is_same_path,
};
use crate::text::{opt_text, same_text};

verus! {

broadcast use vstd::std_specs::hash::group_hash_axioms;

/// The number of the root.
pub const ROOT_INO: u64 = 1;

/// What the tables hold.
#[verifier::ext_equal]
pub struct TablesView {
    /// Number to path, as the path was spelled when it was first met. The root is not in it.
    pub paths: Map<u64, Seq<char>>,
    /// Canonical spelling to number.
    pub numbers: Map<Seq<char>, u64>,
    /// The number that the next new path gets.
    pub next_ino: u64,
    /// Handle to path.
    pub handles: Map<u64, Seq<char>>,
    /// The handle that is given out next.
    pub next_fh: u64,
}

/// The path is the root.
pub open spec fn is_root(p: Seq<char>) -> bool {
    components(p) == components("/"@)
}

impl TablesView {
    /// Nothing but the root.
    pub open spec fn initial() -> TablesView {
        TablesView {
            paths: Map::empty(),
            numbers: Map::empty(),
            next_ino: 2,
            handles: Map::empty(),
            next_fh: 1,
        }
    }

    /// The two directions of the number table agree, numbers and handles are not given out before
    /// their time, and the root is not in the table.
    pub open spec fn wf(self) -> bool {
        &&& self.next_ino >= 2
        &&& self.next_fh >= 1
        &&& forall|ino: u64| #[trigger]
            self.paths.contains_key(ino) ==> {
                &&& 2 <= ino < self.next_ino
                &&& self.numbers.contains_key(canonical(self.paths[ino]))
                &&& self.numbers[canonical(self.paths[ino])] == ino
            }
        &&& forall|k: Seq<char>| #[trigger]
            self.numbers.contains_key(k) ==> {
                &&& self.paths.contains_key(self.numbers[k])
                &&& canonical(self.paths[self.numbers[k]]) == k
                &&& k != canonical("/"@)
            }
        &&& forall|fh: u64| #[trigger]
            self.handles.contains_key(fh) ==> 1 <= fh < self.next_fh
    }

    /// There are a number and a handle left to give out.
    pub open spec fn has_room(self) -> bool {
        self.next_ino < u64::MAX && self.next_fh < u64::MAX
    }

    /// The path that a number stands for.
    pub open spec fn path_of(self, ino: u64) -> Option<Seq<char>> {
        if ino == ROOT_INO {
            Some("/"@)
        } else if self.paths.contains_key(ino) {
            Some(self.paths[ino])
        } else {
            None
        }
    }

    /// The path is known.
    pub open spec fn knows(self, p: Seq<char>) -> bool {
        is_root(p) || self.numbers.contains_key(canonical(p))
    }

    /// The number that a path has, or gets when it is met now.
    pub open spec fn number(self, p: Seq<char>) -> u64 {
        if is_root(p) {
            ROOT_INO
        } else if self.numbers.contains_key(canonical(p)) {
            self.numbers[canonical(p)]
        } else {
            self.next_ino
        }
    }

    /// The tables once the path has been met.
    pub open spec fn interned(self, p: Seq<char>) -> TablesView {
        if self.knows(p) {
            self
        } else {
            TablesView {
                paths: self.paths.insert(self.next_ino, p),
                numbers: self.numbers.insert(canonical(p), self.next_ino),
                next_ino: (self.next_ino + 1) as u64,
                ..self
            }
        }
    }

    /// The path that a handle stands for.
    pub open spec fn handle_path(self, fh: u64) -> Option<Seq<char>> {
        if self.handles.contains_key(fh) {
            Some(self.handles[fh])
        } else {
            None
        }
    }

    /// The tables once a handle for the path has been given out.
    pub open spec fn opened(self, p: Seq<char>) -> TablesView {
        TablesView {
            handles: self.handles.insert(self.next_fh, p),
            next_fh: (self.next_fh + 1) as u64,
            ..self
        }
    }

    /// The tables once the handle has been given back.
    pub open spec fn released(self, fh: u64) -> TablesView {
        TablesView { handles: self.handles.remove(fh), ..self }
    }
}

/// The tables.
pub struct Tables {
    inodes: HashMap<u64, String>,
    rev: StringHashMap<u64>,
    next_ino: u64,
    fhs: HashMap<u64, String>,
    next_fh: u64,
}

impl View for Tables {
    type V = TablesView;

    closed spec fn view(&self) -> TablesView {
        TablesView {
            paths: self.inodes@.map_values(|s: String| s@),
            numbers: self.rev@,
            next_ino: self.next_ino,
            handles: self.fhs@.map_values(|s: String| s@),
            next_fh: self.next_fh,
        }
    }
}

impl Tables {
    /// Tables that know the root only.
    pub fn new() -> (r: Self)
        ensures
            r@ == TablesView::initial(),
            r@.wf(),
    {
        let r = Tables {
            inodes: HashMap::new(),
            rev: StringHashMap::new(),
            next_ino: 2,
            fhs: HashMap::new(),
            next_fh: 1,
        };
        assert(r@ =~= TablesView::initial());
        r
    }

    /// Whether there are a number and a handle left to give out.
    pub fn has_room(&self) -> (r: bool)
        ensures
            r == self@.has_room(),
    {
        self.next_ino < u64::MAX && self.next_fh < u64::MAX
    }

    /// The path that a number stands for.
    pub fn path_for(&self, ino: u64) -> (r: Option<String>)
        ensures
            opt_text(r) == self@.path_of(ino),
    {
        if ino == ROOT_INO {
            Some("/".to_owned())
        } else {
            match self.inodes.get(&ino) {
                Some(p) => Some(p.clone()),
                None => None,
            }
        }
    }

    /// The number of a path. A path that is not known yet gets the next number.
    pub fn intern(&mut self, path: String) -> (r: u64)
        requires
            old(self)@.wf(),
            old(self)@.next_ino < u64::MAX,
        ensures
            final(self)@.wf(),
            r == old(self)@.number(path@),
            final(self)@ == old(self)@.interned(path@),
    {
        let key = canonical_text(path.as_str());
        proof {
            same_spelling_is_same_path(path@, "/"@);
        }
        if same_text(key.as_str(), canonical_text("/").as_str()) {
            return ROOT_INO;
        }
        if let Some(ino) = self.rev.get(key.as_str()) {
            return *ino;
        }
        let ino: u64 = self.next_ino;
        let ghost text = path@;
        self.next_ino = self.next_ino + 1;
        self.inodes.insert(ino, path);
        self.rev.insert(key, ino);
        proof {
            lemma_interned_wf(old(self)@, text);
            assert(self@ =~= old(self)@.interned(text));
        }
        ino
    }

    /// Gives out a handle for a path.
    pub fn alloc_fh(&mut self, path: String) -> (r: u64)
        requires
            old(self)@.wf(),
            old(self)@.next_fh < u64::MAX,
        ensures
            final(self)@.wf(),
            r == old(self)@.next_fh,
            final(self)@ == old(self)@.opened(path@),
    {
        let fh: u64 = self.next_fh;
        let ghost text = path@;
        self.next_fh = self.next_fh + 1;
        self.fhs.insert(fh, path);
        assert(self@ =~= old(self)@.opened(text));
        fh
    }

    /// Takes back a handle.
    pub fn release_fh(&mut self, fh: u64)
        requires
            old(self)@.wf(),
        ensures
            final(self)@.wf(),
            final(self)@ == old(self)@.released(fh),
    {
        self.fhs.remove(&fh);
        assert(self@ =~= old(self)@.released(fh));
    }

    /// The path that a handle stands for.
    pub fn handle_path(&self, fh: u64) -> (r: Option<String>)
        ensures
            opt_text(r) == self@.handle_path(fh),
    {
        match self.fhs.get(&fh) {
            Some(p) => Some(p.clone()),
            None => None,
        }
    }
}

/// Meeting a path keeps the tables sound.
proof fn lemma_interned_wf(t: TablesView, p: Seq<char>)
    requires
        t.wf(),
        t.next_ino < u64::MAX,
    ensures
        t.interned(p).wf(),
{
    let u = t.interned(p);
    if !t.knows(p) {
        same_spelling_is_same_path(p, "/"@);
        assert forall|ino: u64| #[trigger] u.paths.contains_key(ino) implies {
            &&& 2 <= ino < u.next_ino
            &&& u.numbers.contains_key(canonical(u.paths[ino]))
            &&& u.numbers[canonical(u.paths[ino])] == ino
        } by {
            if ino != t.next_ino {
                assert(t.paths.contains_key(ino));
            }
        }
        assert forall|k: Seq<char>| #[trigger] u.numbers.contains_key(k) implies {
            &&& u.paths.contains_key(u.numbers[k])
            &&& canonical(u.paths[u.numbers[k]]) == k
            &&& k != canonical("/"@)
        } by {
            if k != canonical(p) {
                assert(t.numbers.contains_key(k));
                assert(t.paths.contains_key(t.numbers[k]));
            }
        }
    }
}

/// The number that a path has once it has been met leads back to it.
pub proof fn number_leads_back(t: TablesView, p: Seq<char>)
    requires
        t.wf(),
        t.next_ino < u64::MAX,
    ensures
        t.interned(p).path_of(t.number(p)) matches Some(q) && components(q) == components(p),
{
    lemma_interned_wf(t, p);
    if !is_root(p) {
        let u = t.interned(p);
        assert(u.numbers.contains_key(canonical(p)));
        assert(u.paths.contains_key(u.numbers[canonical(p)]));
        same_spelling_is_same_path(u.paths[u.numbers[canonical(p)]], p);
    }
}

/// A path that has been met keeps its number, and its number keeps its path, whatever else is met
/// afterwards.
pub proof fn numbers_are_stable(t: TablesView, p: Seq<char>, ino: u64)
    requires
        t.wf(),
        t.next_ino < u64::MAX,
        t.path_of(ino) is Some,
    ensures
        t.interned(p).path_of(ino) == t.path_of(ino),
        forall|q: Seq<char>| #[trigger]
            t.knows(q) ==> t.interned(p).number(q) == t.number(q) && t.interned(p).knows(q),
{
    assert forall|q: Seq<char>| #[trigger] t.knows(q) implies t.interned(p).number(q) == t.number(q)
        && t.interned(p).knows(q) by {}
}

/// Two paths have the same number exactly where they have the same components.
pub proof fn numbers_tell_paths_apart(t: TablesView, p: Seq<char>, q: Seq<char>)
    requires
        t.wf(),
        t.next_ino < u64::MAX,
    ensures
        t.interned(p).number(q) == t.number(p) <==> components(p) == components(q),
{
    let u = t.interned(p);
    lemma_interned_wf(t, p);
    same_spelling_is_same_path(p, q);
    same_spelling_is_same_path(p, "/"@);
    same_spelling_is_same_path(q, "/"@);
    if !is_root(p) {
        assert(u.numbers.contains_key(canonical(p)));
        assert(u.numbers[canonical(p)] == t.number(p));
        assert(u.paths.contains_key(t.number(p)));
    }
    if !is_root(q) && u.numbers.contains_key(canonical(q)) {
        assert(u.paths.contains_key(u.numbers[canonical(q)]));
    }
}

/// A handle stands for its path until it is given back, whatever other handles come and go.
pub proof fn handles_last_until_released(t: TablesView, p: Seq<char>, other: u64, q: Seq<char>)
    requires
        t.wf(),
        t.next_fh < u64::MAX - 1,
    ensures
        t.handle_path(t.next_fh) is None,
        t.opened(p).handle_path(t.next_fh) == Some(p),
        t.opened(p).opened(q).handle_path(t.next_fh) == Some(p),
        other != t.next_fh ==> t.opened(p).released(other).handle_path(t.next_fh) == Some(p),
        t.opened(p).released(t.next_fh).handle_path(t.next_fh) is None,
        other != t.next_fh ==> t.opened(p).handle_path(other) == t.handle_path(other),
{
}

/// A new table knows the root, under number one, and nothing else; it has given out no handle.
pub proof fn new_tables_know_the_root(
    t: Tables,
    ino: u64,
    path: Option<String>,
    fh: u64,
    handle: Option<String>,
    room: bool,
)
    requires
        call_ensures(Tables::new, (), t),
        call_ensures(Tables::path_for, (&t, ino), path),
        call_ensures(Tables::handle_path, (&t, fh), handle),
        call_ensures(Tables::has_room, (&t,), room),
    ensures
        ino == 1 ==> opt_text(path) == Some("/"@),
        ino != 1 ==> path is None,
        handle is None,
        room,
        t@.wf(),
{
}

/// A path that has been met can be found under its number, with the same components. Met again it has
/// the same number, and so has no path with other components; the paths that had numbers before keep
/// them.
pub proof fn met_paths_are_found_again(
    t: &mut Tables,
    path: String,
    ino: u64,
    after: &Tables,
    found: Option<String>,
    again: &mut Tables,
    other: String,
    other_ino: u64,
    n: u64,
    at_first: Option<String>,
    before: &Tables,
    at_last: Option<String>,
)
    requires
        old(t)@.wf(),
        old(t)@.next_ino < u64::MAX - 1,
        call_ensures(Tables::intern, (t, path), ino),
        after@ == final(t)@,
        call_ensures(Tables::path_for, (after, ino), found),
        old(again)@ == final(t)@,
        call_ensures(Tables::intern, (again, other), other_ino),
        before@ == old(t)@,
        call_ensures(Tables::path_for, (before, n), at_first),
        call_ensures(Tables::path_for, (after, n), at_last),
    ensures
        found matches Some(q) && components(q@) == components(path@),
        ino == other_ino <==> components(path@) == components(other@),
        ino == 1 <==> components(path@) == components("/"@),
        at_first is Some ==> opt_text(at_last) == opt_text(at_first),
        final(t)@.wf(),
        final(t)@.handles == old(t)@.handles,
{
    number_leads_back(old(t)@, path@);
    numbers_tell_paths_apart(old(t)@, path@, other@);
    numbers_tell_paths_apart(old(t)@, path@, "/"@);
    if at_first is Some {
        numbers_are_stable(old(t)@, path@, n);
    }
}

/// A handle that is given out was not in use; it stands for its path, and every other handle for
/// what it stood for.
pub proof fn handles_stand_for_their_paths(
    t: &mut Tables,
    path: String,
    fh: u64,
    n: u64,
    before: &Tables,
    at_first: Option<String>,
    own: Option<String>,
    after: &Tables,
    at_last: Option<String>,
    given: Option<String>,
)
    requires
        old(t)@.wf(),
        old(t)@.next_fh < u64::MAX,
        call_ensures(Tables::alloc_fh, (t, path), fh),
        before@ == old(t)@,
        call_ensures(Tables::handle_path, (before, fh), own),
        call_ensures(Tables::handle_path, (before, n), at_first),
        after@ == final(t)@,
        call_ensures(Tables::handle_path, (after, fh), given),
        call_ensures(Tables::handle_path, (after, n), at_last),
    ensures
        own is None,
        opt_text(given) == Some(path@),
        n != fh ==> opt_text(at_last) == opt_text(at_first),
        final(t)@.wf(),
{
}

/// A handle that is given back stands for nothing any more, and every other handle for what it stood
/// for.
pub proof fn given_back_handles_are_gone(
    t: &mut Tables,
    fh: u64,
    n: u64,
    before: &Tables,
    at_first: Option<String>,
    after: &Tables,
    at_last: Option<String>,
    gone: Option<String>,
)
    requires
        old(t)@.wf(),
        call_ensures(Tables::release_fh, (t, fh), ()),
        before@ == old(t)@,
        call_ensures(Tables::handle_path, (before, n), at_first),
        after@ == final(t)@,
        call_ensures(Tables::handle_path, (after, fh), gone),
        call_ensures(Tables::handle_path, (after, n), at_last),
    ensures
        gone is None,
        n != fh ==> opt_text(at_last) == opt_text(at_first),
        final(t)@.wf(),
{
}

} // verus!
