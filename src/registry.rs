use vstd::prelude::*;

verus! {

/// An engine-owned browser view, named by the number the engine context gave it
/// when it asked the engine to build the view.
#[derive(Clone, Copy, Debug, PartialEq, Eq, Structural)]
pub struct BrowserViewHandle {
    pub id: u64,
}

/// What the engine last reported about a view's browser object: whether its main
/// frame can be had, and in which directions its history can move.
#[derive(Clone, Copy, Debug, PartialEq, Eq, Structural)]
pub struct ViewStatus {
    pub main_frame: bool,
    pub can_go_back: bool,
    pub can_go_forward: bool,
}

impl ViewStatus {
    pub open spec fn spec_fresh() -> ViewStatus {
        ViewStatus { main_frame: true, can_go_back: false, can_go_forward: false }
    }

    /// A view that was just built: its main frame is there and it has no history.
    #[verifier::when_used_as_spec(spec_fresh)]
    pub fn fresh() -> (r: ViewStatus)
        ensures
            r == ViewStatus::spec_fresh(),
    {
        ViewStatus { main_frame: true, can_go_back: false, can_go_forward: false }
    }
}

/// A live browser view: its handle and the engine's last report on it.
#[derive(Clone, Copy, Debug, PartialEq, Eq, Structural)]
pub struct BrowserView {
    pub handle: BrowserViewHandle,
    pub status: ViewStatus,
}

pub open spec fn fresh_view(handle: BrowserViewHandle) -> BrowserView {
    BrowserView { handle, status: ViewStatus::spec_fresh() }
}

/// The handle that an insert under `id` takes out of the registry, which the
/// caller is then to release.
pub open spec fn displaced(views: Map<Seq<char>, BrowserView>, id: Seq<char>) -> Option<
    BrowserViewHandle,
> {
    if views.contains_key(id) {
        Some(views[id].handle)
    } else {
        None
    }
}

/// The views after the engine reported `status` for the view with `handle`.
pub open spec fn with_status(
    views: Map<Seq<char>, BrowserView>,
    handle: BrowserViewHandle,
    status: ViewStatus,
) -> Map<Seq<char>, BrowserView> {
    Map::new(
        |k: Seq<char>| views.contains_key(k),
        |k: Seq<char>|
            if views[k].handle == handle {
                BrowserView { handle, status }
            } else {
                views[k]
            },
    )
}

/// Registering `h1` and then `h2` under one identifier leaves `h2` there, and
/// the second registration hands `h1` back, once, to be released.
pub proof fn lemma_insert_replaces(
    views: Map<Seq<char>, BrowserView>,
    id: Seq<char>,
    h1: BrowserViewHandle,
    h2: BrowserViewHandle,
)
    ensures
        displaced(views.insert(id, fresh_view(h1)).insert(id, fresh_view(h2)), id) == Some(h2),
        displaced(views.insert(id, fresh_view(h1)), id) == Some(h1),
{
}

/// No two identifiers are registered with the same handle.
pub open spec fn distinct_handles(views: Map<Seq<char>, BrowserView>) -> bool {
    forall|k1: Seq<char>, k2: Seq<char>|
        #![trigger views[k1], views[k2]]
        views.contains_key(k1) && views.contains_key(k2) && k1 != k2 ==> views[k1].handle
            != views[k2].handle
}

/// Some identifier is registered with `handle`.
pub open spec fn holds_handle(views: Map<Seq<char>, BrowserView>, handle: BrowserViewHandle) -> bool {
    exists|k: Seq<char>| views.contains_key(k) && views[k].handle == handle
}

struct RegistryEntry {
    id: String,
    view: BrowserView,
}

/// The live browser views, at most one under each identifier.
pub struct BrowserViewRegistry {
    entries: Vec<RegistryEntry>,
}

impl View for BrowserViewRegistry {
    type V = Map<Seq<char>, BrowserView>;

    closed spec fn view(&self) -> Map<Seq<char>, BrowserView> {
        Map::new(
            |k: Seq<char>| exists|i: int| 0 <= i < self.entries.len() && self.entries[i].id@ == k,
            |k: Seq<char>|
                self.entries[choose|i: int|
                    0 <= i < self.entries.len() && self.entries[i].id@ == k].view,
        )
    }
}

impl BrowserViewRegistry {
    /// No identifier stands in two entries.
    pub closed spec fn wf(&self) -> bool {
        forall|i: int, j: int|
            0 <= i < self.entries.len() && 0 <= j < self.entries.len() && i != j
                ==> self.entries[i].id@ != self.entries[j].id@
    }

    proof fn lemma_at(&self, i: int)
        requires
            self.wf(),
            0 <= i < self.entries.len(),
        ensures
            self@.contains_key(self.entries[i].id@),
            self@[self.entries[i].id@] == self.entries[i].view,
    {
        let k = self.entries[i].id@;
        assert(exists|j: int| 0 <= j < self.entries.len() && self.entries[j].id@ == k);
        let j = choose|j: int| 0 <= j < self.entries.len() && self.entries[j].id@ == k;
        assert(j == i);
    }

    /// Finds the entry under `id`.
    fn find(&self, id: &String) -> (r: Option<usize>)
        requires
            self.wf(),
        ensures
            r matches Some(i) ==> i < self.entries.len() && self.entries[i as int].id@ == id@,
            r is None ==> !self@.contains_key(id@),
    {
        let mut i: usize = 0;
        while i < self.entries.len()
            invariant
                i <= self.entries.len(),
                forall|j: int| 0 <= j < i ==> self.entries[j].id@ != id@,
            decreases self.entries.len() - i,
        {
            if self.entries[i].id == *id {
                return Some(i);
            }
            i = i + 1;
        }
        None
    }

    /// The handle registered under `id`, if any.
    pub fn get(&self, id: &str) -> (r: Option<BrowserViewHandle>)
        requires
            self.wf(),
        ensures
            r == displaced(self@, id@),
    {
        match self.lookup(id) {
            Some(v) => Some(v.handle),
            None => None,
        }
    }

    /// The view registered under `id`, with the engine's last report on it.
    pub fn lookup(&self, id: &str) -> (r: Option<BrowserView>)
        requires
            self.wf(),
        ensures
            r == (if self@.contains_key(id@) {
                Some(self@[id@])
            } else {
                None
            }),
    {
        let key = id.to_owned();
        match self.find(&key) {
            Some(i) => {
                proof {
                    self.lemma_at(i as int);
                }
                Some(self.entries[i].view)
            },
            None => None,
        }
    }

    /// Registers `handle` under `id` as a fresh view, replacing what was there.
    /// The replaced handle is returned: it is out of the registry, and the
    /// caller releases it.
    pub fn insert(&mut self, id: &str, handle: BrowserViewHandle) -> (r: Option<BrowserViewHandle>)
        requires
            old(self).wf(),
        ensures
            final(self).wf(),
            final(self)@ == old(self)@.insert(id@, fresh_view(handle)),
            r == displaced(old(self)@, id@),
    {
        let key = id.to_owned();
        let view = BrowserView { handle, status: ViewStatus::fresh() };
        let ghost pre = *self;
        match self.find(&key) {
            Some(i) => {
                proof {
                    pre.lemma_at(i as int);
                }
                let prior = self.entries[i].view.handle;
                self.entries.set(i, RegistryEntry { id: key, view });
                proof {
                    assert forall|k: Seq<char>|
                        #![auto]
                        self@.contains_key(k) == pre@.insert(id@, view).contains_key(k) by {
                        if k != id@ && pre@.contains_key(k) {
                            let j = choose|j: int|
                                0 <= j < pre.entries.len() && pre.entries[j].id@ == k;
                            assert(self.entries[j].id@ == k);
                        }
                        if self@.contains_key(k) && k != id@ {
                            let j = choose|j: int|
                                0 <= j < self.entries.len() && self.entries[j].id@ == k;
                            assert(pre.entries[j].id@ == k);
                        }
                        if k == id@ {
                            assert(self.entries[i as int].id@ == k);
                        }
                    }
                    assert forall|k: Seq<char>| #[trigger]
                        self@.contains_key(k) implies self@[k] == pre@.insert(id@, view)[k] by {
                        let j = choose|j: int|
                            0 <= j < self.entries.len() && self.entries[j].id@ == k;
                        self.lemma_at(j);
                        if j != i {
                            pre.lemma_at(j);
                        }
                    }
                    assert(self@ =~= pre@.insert(id@, view));
                }
                Some(prior)
            },
            None => {
                self.entries.push(RegistryEntry { id: key, view });
                proof {
                    let n = pre.entries.len() as int;
                    assert forall|k: Seq<char>|
                        #![auto]
                        self@.contains_key(k) == pre@.insert(id@, view).contains_key(k) by {
                        if k != id@ && pre@.contains_key(k) {
                            let j = choose|j: int|
                                0 <= j < pre.entries.len() && pre.entries[j].id@ == k;
                            assert(self.entries[j].id@ == k);
                        }
                        if self@.contains_key(k) && k != id@ {
                            let j = choose|j: int|
                                0 <= j < self.entries.len() && self.entries[j].id@ == k;
                            assert(pre.entries[j].id@ == k);
                        }
                        if k == id@ {
                            assert(self.entries[n].id@ == k);
                        }
                    }
                    assert forall|k: Seq<char>| #[trigger]
                        self@.contains_key(k) implies self@[k] == pre@.insert(id@, view)[k] by {
                        let j = choose|j: int|
                            0 <= j < self.entries.len() && self.entries[j].id@ == k;
                        self.lemma_at(j);
                        if j != n {
                            pre.lemma_at(j);
                        }
                    }
                    assert(self@ =~= pre@.insert(id@, view));
                }
                None
            },
        }
    }

    /// Takes the entry under `id` out of the registry and hands its handle to the
    /// caller to release.
    pub fn remove(&mut self, id: &str) -> (r: Option<BrowserViewHandle>)
        requires
            old(self).wf(),
        ensures
            final(self).wf(),
            final(self)@ == old(self)@.remove(id@),
            r == displaced(old(self)@, id@),
    {
        let key = id.to_owned();
        let ghost pre = *self;
        match self.find(&key) {
            Some(i) => {
                proof {
                    pre.lemma_at(i as int);
                }
                let entry = self.entries.remove(i);
                proof {
                    assert forall|k: Seq<char>|
                        #![auto]
                        self@.contains_key(k) == pre@.remove(id@).contains_key(k) by {
                        if k != id@ && pre@.contains_key(k) {
                            let j = choose|j: int|
                                0 <= j < pre.entries.len() && pre.entries[j].id@ == k;
                            assert(j != i);
                            if j < i {
                                assert(self.entries[j].id@ == k);
                            } else {
                                assert(self.entries[j - 1].id@ == k);
                            }
                        }
                        if self@.contains_key(k) {
                            let j = choose|j: int|
                                0 <= j < self.entries.len() && self.entries[j].id@ == k;
                            if j < i {
                                assert(pre.entries[j].id@ == k);
                            } else {
                                assert(pre.entries[j + 1].id@ == k);
                            }
                        }
                    }
                    assert forall|k: Seq<char>| #[trigger]
                        self@.contains_key(k) implies self@[k] == pre@.remove(id@)[k] by {
                        let j = choose|j: int|
                            0 <= j < self.entries.len() && self.entries[j].id@ == k;
                        self.lemma_at(j);
                        if j < i {
                            pre.lemma_at(j);
                        } else {
                            pre.lemma_at(j + 1);
                        }
                    }
                    assert(self@ =~= pre@.remove(id@));
                }
                Some(entry.view.handle)
            },
            None => {
                assert(self@ =~= pre@.remove(id@));
                None
            },
        }
    }

    /// Empties the registry. Every handle it held is handed back, once, for the
    /// caller to release.
    pub fn clear(&mut self) -> (r: Vec<BrowserViewHandle>)
        requires
            old(self).wf(),
        ensures
            final(self).wf(),
            final(self)@ == Map::<Seq<char>, BrowserView>::empty(),
            forall|k: Seq<char>| #[trigger]
                old(self)@.contains_key(k) ==> r@.contains(old(self)@[k].handle),
            forall|i: int| 0 <= i < r@.len() ==> holds_handle(old(self)@, #[trigger] r@[i]),
            distinct_handles(old(self)@) ==> r@.no_duplicates(),
    {
        let ghost pre = *self;
        let mut r: Vec<BrowserViewHandle> = Vec::new();
        let mut i: usize = 0;
        while i < self.entries.len()
            invariant
                *self == pre,
                pre.wf(),
                i <= self.entries.len(),
                r@.len() == i,
                forall|j: int| 0 <= j < i ==> r@[j] == self.entries[j].view.handle,
            decreases self.entries.len() - i,
        {
            r.push(self.entries[i].view.handle);
            i = i + 1;
        }
        proof {
            assert forall|k: Seq<char>| #[trigger]
                pre@.contains_key(k) implies r@.contains(pre@[k].handle) by {
                let j = choose|j: int| 0 <= j < pre.entries.len() && pre.entries[j].id@ == k;
                pre.lemma_at(j);
                assert(r@[j] == pre@[k].handle);
            }
            assert forall|j: int| 0 <= j < r@.len() implies holds_handle(pre@, #[trigger] r@[j]) by {
                pre.lemma_at(j);
                let k = pre.entries[j].id@;
                assert(pre@.contains_key(k) && pre@[k].handle == r@[j]);
            }
        }
        proof {
            if distinct_handles(pre@) {
                assert forall|a: int, b: int|
                    0 <= a < r@.len() && 0 <= b < r@.len() && a != b implies r@[a] != r@[b] by {
                    pre.lemma_at(a);
                    pre.lemma_at(b);
                    let ka = pre.entries[a].id@;
                    let kb = pre.entries[b].id@;
                    assert(pre@[ka].handle != pre@[kb].handle);
                }
            }
        }
        self.entries = Vec::new();
        assert(self@ =~= Map::<Seq<char>, BrowserView>::empty());
        r
    }

    /// Records the engine's report on the view with `handle`.
    pub fn set_status(&mut self, handle: BrowserViewHandle, status: ViewStatus)
        requires
            old(self).wf(),
        ensures
            final(self).wf(),
            final(self)@ == with_status(old(self)@, handle, status),
    {
        let ghost pre = *self;
        let mut i: usize = 0;
        while i < self.entries.len()
            invariant
                self.entries.len() == pre.entries.len(),
                i <= self.entries.len(),
                pre.wf(),
                forall|j: int|
                    0 <= j < self.entries.len() ==> #[trigger] self.entries[j].id == pre.entries[j].id,
                forall|j: int|
                    0 <= j < self.entries.len() ==> #[trigger] self.entries[j].view == if j < i
                        && pre.entries[j].view.handle == handle {
                        BrowserView { handle, status }
                    } else {
                        pre.entries[j].view
                    },
            decreases self.entries.len() - i,
        {
            if self.entries[i].view.handle == handle {
                let id = self.entries[i].id.clone();
                self.entries.set(i, RegistryEntry { id, view: BrowserView { handle, status } });
            }
            i = i + 1;
        }
        proof {
            assert(self.wf()) by {
                assert forall|a: int, b: int|
                    0 <= a < self.entries.len() && 0 <= b < self.entries.len() && a != b
                        implies self.entries[a].id@ != self.entries[b].id@ by {
                    assert(self.entries[a].id == pre.entries[a].id);
                    assert(self.entries[b].id == pre.entries[b].id);
                }
            }
            let target = with_status(pre@, handle, status);
            assert forall|k: Seq<char>| #![auto] self@.contains_key(k) == target.contains_key(k) by {
                if pre@.contains_key(k) {
                    let j = choose|j: int| 0 <= j < pre.entries.len() && pre.entries[j].id@ == k;
                    assert(self.entries[j].id == pre.entries[j].id);
                }
                if self@.contains_key(k) {
                    let j = choose|j: int| 0 <= j < self.entries.len() && self.entries[j].id@ == k;
                    assert(self.entries[j].id == pre.entries[j].id);
                }
            }
            assert forall|k: Seq<char>| #[trigger]
                self@.contains_key(k) implies self@[k] == target[k] by {
                let j = choose|j: int| 0 <= j < self.entries.len() && self.entries[j].id@ == k;
                self.lemma_at(j);
                assert(self.entries[j].id == pre.entries[j].id);
                pre.lemma_at(j);
            }
            assert(self@ =~= target);
        }
    }

    pub fn new() -> (r: BrowserViewRegistry)
        ensures
            r.wf(),
            r@ == Map::<Seq<char>, BrowserView>::empty(),
    {
        let r = BrowserViewRegistry { entries: Vec::new() };
        assert(r@ =~= Map::<Seq<char>, BrowserView>::empty());
        r
    }
}

} // verus!
