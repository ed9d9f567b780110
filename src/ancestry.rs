//! The walk along the first-parent ancestry of a jujutsu working-copy commit.
//!
//! Loading a commit reads the repository, so the walk is a state machine:
//! the caller asks which commit comes next, looks it up, and reports the
//! local bookmarks that point at it and its first parent.

use crate::text::{join_names, joined};
use indexmap::IndexSet;
use vstd::prelude::*;

verus! {

/// How many commits a walk visits at most.
pub const MAX_COMMITS: usize = 10;

#[verifier::external_type_specification]
#[verifier::external_body]
#[verifier::reject_recursive_types(T)]
#[verifier::reject_recursive_types(S)]
pub struct ExIndexSet<T, S>(IndexSet<T, S>);

/// The names held by a set, in the order in which they were first inserted.
pub uninterp spec fn name_set_items(s: IndexSet<String>) -> Seq<Seq<char>>;

/// Relies on `IndexSet::new`: a new set holds nothing.
#[verifier::external_body]
fn new_name_set() -> (r: IndexSet<String>)
    ensures
        name_set_items(r) == Seq::<Seq<char>>::empty(),
{
    IndexSet::new()
}

/// Relies on `IndexSet::insert`: a name already present leaves the set and its
/// order as they were; any other name is placed after those present.
#[verifier::external_body]
fn insert_name(set: &mut IndexSet<String>, name: String) -> (added: bool)
    ensures
        added == !name_set_items(*old(set)).contains(name@),
        name_set_items(*final(set)) == if name_set_items(*old(set)).contains(name@) {
            name_set_items(*old(set))
        } else {
            name_set_items(*old(set)).push(name@)
        },
{
    set.insert(name)
}

/// Relies on `IndexSet`'s `IntoIterator`: the names come out in the set's order.
#[verifier::external_body]
fn name_set_into_vec(set: IndexSet<String>) -> (r: Vec<String>)
    ensures
        r.deep_view() == name_set_items(set),
{
    set.into_iter().collect()
}

/// The bytes of a commit id, if there is one.
pub open spec fn opt_id(o: Option<Vec<u8>>) -> Option<Seq<u8>> {
    match o {
        Some(v) => Some(v@),
        None => None,
    }
}

/// The bytes of each commit id.
pub open spec fn ids_view(ids: Seq<Vec<u8>>) -> Seq<Seq<u8>> {
    ids.map_values(|v: Vec<u8>| v@)
}

/// `acc` followed by those of `names` that are not yet in it, each once, in
/// the order of their first occurrence.
pub open spec fn add_names(acc: Seq<Seq<char>>, names: Seq<Seq<char>>) -> Seq<Seq<char>>
    decreases names.len(),
{
    if names.len() == 0 {
        acc
    } else {
        let a = add_names(acc, names.drop_last());
        if a.contains(names.last()) {
            a
        } else {
            a.push(names.last())
        }
    }
}

/// The bookmark names of a walk: the lists of the visited commits, nearest
/// commit first, with every name kept at its first occurrence only.
pub open spec fn collected(lists: Seq<Seq<Seq<char>>>) -> Seq<Seq<char>>
    decreases lists.len(),
{
    if lists.len() == 0 {
        Seq::empty()
    } else {
        add_names(collected(lists.drop_last()), lists.last())
    }
}

/// What a finished walk reports: no label when no bookmark was seen, else the
/// names joined with a comma and a space.
pub open spec fn label_of(names: Seq<Seq<char>>) -> Option<Seq<char>> {
    if names.len() == 0 {
        None
    } else {
        Some(joined(names, seq![',', ' ']))
    }
}

/// A walk along first parents, from a starting commit, over at most
/// `MAX_COMMITS` distinct commits.
pub struct AncestryWalk {
    start: Vec<u8>,
    visited: Vec<Vec<u8>>,
    names: IndexSet<String>,
    next: Option<Vec<u8>>,
    /// The bookmark names reported for each visited commit.
    lists: Ghost<Seq<Seq<Seq<char>>>>,
    /// The first parent reported for each visited commit.
    parents: Ghost<Seq<Option<Seq<u8>>>>,
}

impl AncestryWalk {
    /// The commit that the walk started from.
    pub closed spec fn start_id(&self) -> Seq<u8> {
        self.start@
    }

    /// The commits visited so far, the starting commit first.
    pub closed spec fn visited_ids(&self) -> Seq<Seq<u8>> {
        ids_view(self.visited@)
    }

    /// The bookmark names reported for each visited commit.
    pub closed spec fn bookmark_lists(&self) -> Seq<Seq<Seq<char>>> {
        self.lists@
    }

    /// The first parent reported for each visited commit.
    pub closed spec fn parent_ids(&self) -> Seq<Option<Seq<u8>>> {
        self.parents@
    }

    /// The commit that the walk would go to next, before the bound and the
    /// guard against revisits are applied.
    pub closed spec fn following(&self) -> Option<Seq<u8>> {
        opt_id(self.next)
    }

    /// The names gathered so far, in the order of first occurrence.
    pub closed spec fn names_seen(&self) -> Seq<Seq<char>> {
        name_set_items(self.names)
    }

    pub closed spec fn wf(&self) -> bool {
        let v = ids_view(self.visited@);
        &&& v.len() <= MAX_COMMITS
        &&& self.lists@.len() == v.len()
        &&& self.parents@.len() == v.len()
        &&& forall|i: int, j: int| 0 <= i < j < v.len() ==> v[i] != v[j]
        &&& v.len() > 0 ==> v[0] == self.start@
        &&& forall|i: int| 0 <= i < v.len() - 1 ==> self.parents@[i] == Some(#[trigger] v[i + 1])
        &&& self.following() == if v.len() == 0 {
            Some(self.start@)
        } else {
            self.parents@.last()
        }
        &&& name_set_items(self.names) == collected(self.lists@)
    }

    /// The commit to visit next: none once `MAX_COMMITS` commits were
    /// visited, once the last one had no parent, or when its parent was
    /// visited already.
    pub open spec fn pending_spec(&self) -> Option<Seq<u8>> {
        match self.following() {
            Some(id) => if self.visited_ids().len() < MAX_COMMITS && !self.visited_ids().contains(
                id,
            ) {
                Some(id)
            } else {
                None
            },
            None => None,
        }
    }

    /// A walk that has visited nothing yet and starts at `start`.
    pub fn new(start: Vec<u8>) -> (r: Self)
        ensures
            r.wf(),
            r.start_id() == start@,
            r.visited_ids() == Seq::<Seq<u8>>::empty(),
            r.following() == Some(start@),
            r.names_seen() == Seq::<Seq<char>>::empty(),
    {
        let next = Some(start.clone());
        let r = AncestryWalk {
            start,
            visited: Vec::new(),
            names: new_name_set(),
            next,
            lists: Ghost(Seq::empty()),
            parents: Ghost(Seq::empty()),
        };
        assert(ids_view(r.visited@) =~= Seq::<Seq<u8>>::empty());
        r
    }

    /// The commit to visit next, if any.
    pub fn pending(&self) -> (r: Option<Vec<u8>>)
        requires
            self.wf(),
        ensures
            match r {
                Some(v) => self.pending_spec() == Some(v@),
                None => self.pending_spec() is None,
            },
    {
        if self.visited.len() >= MAX_COMMITS {
            return None;
        }
        match &self.next {
            None => None,
            Some(id) => {
                if contains_id(&self.visited, id) {
                    None
                } else {
                    Some(id.clone())
                }
            },
        }
    }

    /// Records the visit of the pending commit: the local bookmarks that
    /// point at it, and its first parent, absent at a root or where the
    /// commit could not be read.
    pub fn visit(&mut self, bookmarks: Vec<String>, first_parent: Option<Vec<u8>>)
        requires
            old(self).wf(),
            old(self).pending_spec() is Some,
        ensures
            final(self).wf(),
            final(self).start_id() == old(self).start_id(),
            final(self).visited_ids() == old(self).visited_ids().push(
                old(self).pending_spec().unwrap(),
            ),
            final(self).bookmark_lists() == old(self).bookmark_lists().push(bookmarks.deep_view()),
            final(self).parent_ids() == old(self).parent_ids().push(opt_id(first_parent)),
            final(self).following() == opt_id(first_parent),
    {
        let ghost list = bookmarks.deep_view();
        let ghost parent = opt_id(first_parent);
        let ghost old_visited = ids_view(self.visited@);
        let id = match self.next.take() {
            Some(id) => id,
            None => Vec::new(),
        };
        self.visited.push(id);
        assert(ids_view(self.visited@) =~= old_visited.push(old(self).pending_spec().unwrap()));
        add_all_names(&mut self.names, &bookmarks);
        self.lists = Ghost(self.lists@.push(list));
        self.parents = Ghost(self.parents@.push(parent));
        self.next = first_parent;
        assert(self.lists@.drop_last() =~= old(self).lists@);
        assert forall|i: int| 0 <= i < ids_view(self.visited@).len() - 1 implies self.parents@[i]
            == Some(#[trigger] ids_view(self.visited@)[i + 1]) by {
            if i < old_visited.len() - 1 {
                assert(old(self).parents@[i] == Some(old_visited[i + 1]));
            }
        }
    }

    /// What the walk found: the names of the bookmarks seen, each once,
    /// nearest commit first, joined with a comma and a space; none when no
    /// bookmark was seen.
    pub fn label(self) -> (r: Option<String>)
        requires
            self.wf(),
        ensures
            match r {
                Some(s) => label_of(self.names_seen()) == Some(s@),
                None => label_of(self.names_seen()) is None,
            },
    {
        let names = name_set_into_vec(self.names);
        proof {
            reveal_strlit(", ");
        }
        assert(", "@ =~= seq![',', ' ']);
        if names.len() == 0 {
            None
        } else {
            Some(join_names(&names, ", "))
        }
    }
}

proof fn lemma_add_names(acc: Seq<Seq<char>>, names: Seq<Seq<char>>)
    ensures
        acc.no_duplicates() ==> add_names(acc, names).no_duplicates(),
        forall|x: Seq<char>| #[trigger]
            add_names(acc, names).contains(x) <==> acc.contains(x) || names.contains(x),
    decreases names.len(),
{
    if names.len() > 0 {
        let init = names.drop_last();
        lemma_add_names(acc, init);
        assert forall|x: Seq<char>| #[trigger]
            add_names(acc, names).contains(x) <==> acc.contains(x) || names.contains(x) by {
            if names.contains(x) {
                let k = choose|k: int| 0 <= k < names.len() && names[k] == x;
                if k < names.len() - 1 {
                    assert(init[k] == x);
                }
            }
            if init.contains(x) {
                let k = choose|k: int| 0 <= k < init.len() && init[k] == x;
                assert(names[k] == x);
            }
            if x == names.last() {
                assert(names[names.len() - 1] == x);
            }
            let a = add_names(acc, init);
            let p = a.push(names.last());
            if p.contains(x) {
                let k = choose|k: int| 0 <= k < p.len() && p[k] == x;
                if k < a.len() {
                    assert(a[k] == x);
                }
            }
            if a.contains(x) {
                let k = choose|k: int| 0 <= k < a.len() && a[k] == x;
                assert(p[k] == x);
            }
            assert(p[a.len() as int] == names.last());
        }
        let a = add_names(acc, init);
        if acc.no_duplicates() && !a.contains(names.last()) {
            assert forall|i: int, j: int| 0 <= i < j < a.push(names.last()).len() implies a.push(
                names.last(),
            )[i] != a.push(names.last())[j] by {
                if j == a.len() {
                    assert(a[i] == a.push(names.last())[i]);
                }
            }
        }
    }
}

proof fn lemma_collected(lists: Seq<Seq<Seq<char>>>)
    ensures
        collected(lists).no_duplicates(),
        forall|x: Seq<char>| #[trigger]
            collected(lists).contains(x) <==> exists|k: int|
                0 <= k < lists.len() && #[trigger] lists[k].contains(x),
    decreases lists.len(),
{
    if lists.len() > 0 {
        let init = lists.drop_last();
        lemma_collected(init);
        lemma_add_names(collected(init), lists.last());
        assert forall|x: Seq<char>| #[trigger]
            collected(lists).contains(x) <==> exists|k: int|
                0 <= k < lists.len() && #[trigger] lists[k].contains(x) by {
            if exists|k: int| 0 <= k < lists.len() && #[trigger] lists[k].contains(x) {
                let k = choose|k: int| 0 <= k < lists.len() && #[trigger] lists[k].contains(x);
                if k < lists.len() - 1 {
                    assert(init[k].contains(x));
                }
            }
            if collected(init).contains(x) {
                let k = choose|k: int| 0 <= k < init.len() && #[trigger] init[k].contains(x);
                assert(lists[k].contains(x));
            }
        }
    } else {
        assert(Seq::<Seq<char>>::empty().no_duplicates());
    }
}

/// The bookmark names that a walk reports come from the commits it visited:
/// at most `MAX_COMMITS` distinct commits, the first being the starting
/// commit and each next one the first parent of the one before. Each name
/// stands once, at the place of its first occurrence, nearest commit first,
/// and every name seen at a visited commit is among them.
pub proof fn lemma_walk_names(w: &AncestryWalk)
    requires
        w.wf(),
    ensures
        w.visited_ids().len() <= MAX_COMMITS,
        forall|i: int, j: int|
            0 <= i < j < w.visited_ids().len() ==> w.visited_ids()[i] != w.visited_ids()[j],
        w.visited_ids().len() > 0 ==> w.visited_ids()[0] == w.start_id(),
        forall|i: int|
            0 <= i < w.visited_ids().len() - 1 ==> w.parent_ids()[i] == Some(
                #[trigger] w.visited_ids()[i + 1],
            ),
        w.bookmark_lists().len() == w.visited_ids().len(),
        w.names_seen() == collected(w.bookmark_lists()),
        w.names_seen().no_duplicates(),
        forall|x: Seq<char>| #[trigger]
            w.names_seen().contains(x) <==> exists|k: int|
                0 <= k < w.bookmark_lists().len() && #[trigger] w.bookmark_lists()[k].contains(x),
{
    lemma_collected(w.bookmark_lists());
}

proof fn lemma_add_names_prefix(acc: Seq<Seq<char>>, names: Seq<Seq<char>>)
    ensures
        acc.len() <= add_names(acc, names).len(),
        add_names(acc, names).subrange(0, acc.len() as int) == acc,
    decreases names.len(),
{
    if names.len() > 0 {
        lemma_add_names_prefix(acc, names.drop_last());
        let a = add_names(acc, names.drop_last());
        assert(a.push(names.last()).subrange(0, acc.len() as int) =~= a.subrange(0, acc.len() as int));
    }
}

proof fn lemma_collected_prefix(lists: Seq<Seq<Seq<char>>>, i: int)
    requires
        0 <= i <= lists.len(),
    ensures
        collected(lists.subrange(0, i)).len() <= collected(lists).len(),
        collected(lists).subrange(0, collected(lists.subrange(0, i)).len() as int) == collected(
            lists.subrange(0, i),
        ),
    decreases lists.len(),
{
    if i == lists.len() {
        assert(lists.subrange(0, i) =~= lists);
        assert(collected(lists).subrange(0, collected(lists).len() as int) =~= collected(lists));
    } else {
        let init = lists.drop_last();
        assert(init.subrange(0, i) =~= lists.subrange(0, i));
        lemma_collected_prefix(init, i);
        lemma_add_names_prefix(collected(init), lists.last());
        let p = collected(lists.subrange(0, i));
        let c = collected(lists);
        let ci = collected(init);
        assert(c.subrange(0, p.len() as int) =~= ci.subrange(0, p.len() as int)) by {
            assert(c.subrange(0, ci.len() as int) == ci);
            assert forall|k: int| 0 <= k < p.len() implies c[k] == ci[k] by {
                assert(c.subrange(0, ci.len() as int)[k] == c[k]);
            }
        }
    }
}

/// Whether `x` is among the names of one of the first `i` lists.
pub open spec fn seen_within(lists: Seq<Seq<Seq<char>>>, i: int, x: Seq<char>) -> bool {
    exists|k: int| 0 <= k < i && #[trigger] lists[k].contains(x)
}

/// The names come nearest commit first: for any number `i` of visited
/// commits, the names seen at the first `i` of them are exactly the first
/// entries of the result, and every name seen only further on comes after
/// them all.
pub proof fn lemma_walk_nearest_first(w: &AncestryWalk, i: int)
    requires
        w.wf(),
        0 <= i <= w.bookmark_lists().len(),
    ensures
        collected(w.bookmark_lists().subrange(0, i)).len() <= w.names_seen().len(),
        w.names_seen().subrange(0, collected(w.bookmark_lists().subrange(0, i)).len() as int)
            == collected(w.bookmark_lists().subrange(0, i)),
        forall|j: int|
            #![trigger w.names_seen()[j]]
            0 <= j < w.names_seen().len() ==> (j < collected(
                w.bookmark_lists().subrange(0, i),
            ).len() <==> seen_within(w.bookmark_lists(), i, w.names_seen()[j])),
{
    let lists = w.bookmark_lists();
    let front = lists.subrange(0, i);
    let c = w.names_seen();
    let p = collected(front);
    lemma_collected_prefix(lists, i);
    lemma_collected(lists);
    lemma_collected(front);
    assert forall|j: int| #![trigger c[j]] 0 <= j < c.len() implies (j < p.len() <==> seen_within(
        lists,
        i,
        c[j],
    )) by {
        if j < p.len() {
            assert(c.subrange(0, p.len() as int)[j] == c[j]);
            assert(p.contains(c[j]));
            let k = choose|k: int| 0 <= k < front.len() && #[trigger] front[k].contains(c[j]);
            assert(lists[k] == front[k]);
        }
        if exists|k: int| 0 <= k < i && #[trigger] lists[k].contains(c[j]) {
            let k = choose|k: int| 0 <= k < i && #[trigger] lists[k].contains(c[j]);
            assert(front[k] == lists[k]);
            assert(p.contains(c[j]));
            let m = choose|m: int| 0 <= m < p.len() && p[m] == c[j];
            assert(c.subrange(0, p.len() as int)[m] == c[m]);
            assert(c[m] == c[j]);
            assert(c.no_duplicates());
            assert(m == j);
        }
    }
}

/// Inserts the names into the set, one after the other.
fn add_all_names(set: &mut IndexSet<String>, names: &Vec<String>)
    ensures
        name_set_items(*final(set)) == add_names(name_set_items(*old(set)), names.deep_view()),
{
    let ghost list = names.deep_view();
    let ghost before = name_set_items(*set);
    let n = names.len();
    let mut i: usize = 0;
    assert(list.subrange(0, 0) =~= Seq::<Seq<char>>::empty());
    while i < n
        invariant
            n == list.len(),
            list == names.deep_view(),
            i <= n,
            name_set_items(*set) == add_names(before, list.subrange(0, i as int)),
        decreases n - i,
    {
        let name = names[i].clone();
        assert(list.subrange(0, i + 1).drop_last() =~= list.subrange(0, i as int));
        insert_name(set, name);
        i = i + 1;
    }
    assert(list.subrange(0, n as int) =~= list);
}

/// Whether two commit ids are the same bytes.
fn same_id(a: &Vec<u8>, b: &Vec<u8>) -> (r: bool)
    ensures
        r == (a@ == b@),
{
    if a.len() != b.len() {
        return false;
    }
    let mut i: usize = 0;
    while i < a.len()
        invariant
            a.len() == b.len(),
            i <= a.len(),
            forall|k: int| 0 <= k < i ==> a@[k] == b@[k],
        decreases a.len() - i,
    {
        if a[i] != b[i] {
            return false;
        }
        i = i + 1;
    }
    assert(a@ =~= b@);
    true
}

/// Whether `id` is among `ids`.
fn contains_id(ids: &Vec<Vec<u8>>, id: &Vec<u8>) -> (r: bool)
    ensures
        r == ids_view(ids@).contains(id@),
{
    let mut i: usize = 0;
    while i < ids.len()
        invariant
            i <= ids.len(),
            forall|k: int| 0 <= k < i ==> ids_view(ids@)[k] != id@,
        decreases ids.len() - i,
    {
        if same_id(&ids[i], id) {
            assert(ids_view(ids@)[i as int] == id@);
            return true;
        }
        i = i + 1;
    }
    false
}

} // verus!
