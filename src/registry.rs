use vstd::prelude::*;

verus! {

/// Running processes by caller-chosen id; each id stands at most once.
pub struct ProcessTable<H> {
    entries: Vec<(String, H)>,
}

pub open spec fn ids_of<H>(s: Seq<(Seq<char>, H)>) -> Seq<Seq<char>> {
    s.map_values(|p: (Seq<char>, H)| p.0)
}

impl<H> View for ProcessTable<H> {
    type V = Seq<(Seq<char>, H)>;

    closed spec fn view(&self) -> Seq<(Seq<char>, H)> {
        self.entries@.map_values(|p: (String, H)| (p.0@, p.1))
    }
}

pub open spec fn names_view(v: Seq<String>) -> Seq<Seq<char>> {
    v.map_values(|s: String| s@)
}

/// The entry of `id` stands at position `i`.
pub open spec fn entry_at<H>(s: Seq<(Seq<char>, H)>, id: Seq<char>, i: int) -> bool {
    0 <= i < s.len() && s[i].0 == id
}

impl<H> ProcessTable<H> {
    /// The ids of the running processes.
    pub open spec fn ids(&self) -> Seq<Seq<char>> {
        ids_of(self@)
    }

    pub open spec fn wf(&self) -> bool {
        self.ids().no_duplicates()
    }

    pub fn new() -> (r: Self)
        ensures
            r.wf(),
            r@ == Seq::<(Seq<char>, H)>::empty(),
    {
        let r = ProcessTable { entries: Vec::new() };
        assert(r@ =~= Seq::<(Seq<char>, H)>::empty());
        r
    }

    fn position(&self, id: &str) -> (r: Option<usize>)
        requires
            self.wf(),
        ensures
            r is Some <==> self.ids().contains(id@),
            r is Some ==> entry_at(self@, id@, r->0 as int),
    {
        let key = id.to_owned();
        let mut i: usize = 0;
        while i < self.entries.len()
            invariant
                0 <= i <= self.entries@.len(),
                key@ == id@,
                self@.len() == self.entries@.len(),
                forall|k: int| 0 <= k < i ==> self.ids()[k] != id@,
            decreases self.entries@.len() - i,
        {
            if self.entries[i].0 == key {
                assert(self.ids()[i as int] == id@);
                return Some(i);
            }
            i = i + 1;
        }
        proof {
            if self.ids().contains(id@) {
                let k = choose|k: int| 0 <= k < self.ids().len() && self.ids()[k] == id@;
                assert(self.ids()[k] != id@);
            }
        }
        None
    }

    /// Whether a process runs under `id`.
    pub fn contains(&self, id: &str) -> (r: bool)
        requires
            self.wf(),
        ensures
            r == self.ids().contains(id@),
    {
        self.position(id).is_some()
    }

    /// Removes the process of `id` and hands it back; nothing happens where there is none.
    pub fn take(&mut self, id: &str) -> (r: Option<H>)
        requires
            old(self).wf(),
        ensures
            final(self).wf(),
            r is Some <==> old(self).ids().contains(id@),
            r is None ==> final(self)@ == old(self)@,
            r is Some ==> exists|i: int|
                entry_at(old(self)@, id@, i) && r->0 == old(self)@[i].1 && final(self)@ == old(
                    self,
                )@.remove(i),
            !final(self).ids().contains(id@),
    {
        match self.position(id) {
            Some(i) => {
                let ghost before = self@;
                let (_, h) = self.entries.remove(i);
                assert(self@ =~= before.remove(i as int));
                assert(self.ids() =~= ids_of(before).remove(i as int));
                proof {
                    assert forall|a: int, b: int|
                        0 <= a < b < self.ids().len() implies self.ids()[a] != self.ids()[b] by {
                        let a2 = if a < i { a } else { a + 1 };
                        let b2 = if b < i { b } else { b + 1 };
                        assert(ids_of(before)[a2] != ids_of(before)[b2]);
                    }
                    if self.ids().contains(id@) {
                        let k = choose|k: int| 0 <= k < self.ids().len() && self.ids()[k] == id@;
                        let k2 = if k < i { k } else { k + 1 };
                        assert(ids_of(before)[k2] == ids_of(before)[i as int]);
                    }
                }
                Some(h)
            },
            None => None,
        }
    }

    /// Registers a process under `id`, in place of one already there.
    pub fn register(&mut self, id: String, h: H)
        requires
            old(self).wf(),
        ensures
            final(self).wf(),
            old(self).ids().contains(id@) ==> exists|i: int|
                entry_at(old(self)@, id@, i) && final(self)@ == old(self)@.update(i, (id@, h)),
            !old(self).ids().contains(id@) ==> final(self)@ == old(self)@.push((id@, h)),
    {
        match self.position(id.as_str()) {
            Some(i) => {
                let ghost before = self@;
                self.entries.remove(i);
                let ghost v = id@;
                self.entries.insert(i, (id, h));
                assert(self@ =~= before.update(i as int, (v, h)));
                assert(self.ids() =~= ids_of(before));
            },
            None => {
                let ghost before = self@;
                let ghost v = id@;
                self.entries.push((id, h));
                assert(self@ =~= before.push((v, h)));
                assert(self.ids() =~= ids_of(before).push(v));
                assert forall|a: int, b: int|
                    0 <= a < b < self.ids().len() implies self.ids()[a] != self.ids()[b] by {
                    if b == self.ids().len() - 1 {
                        assert(ids_of(before)[a] != v);
                    }
                }
            },
        }
    }

    /// Registers a process under an id that is not taken; hands it back otherwise.
    pub fn insert_new(&mut self, id: String, h: H) -> (r: Result<(), H>)
        requires
            old(self).wf(),
        ensures
            final(self).wf(),
            r is Err <==> old(self).ids().contains(id@),
            r is Err ==> final(self)@ == old(self)@ && r->Err_0 == h,
            r is Ok ==> final(self)@ == old(self)@.push((id@, h)),
    {
        if self.contains(id.as_str()) {
            Err(h)
        } else {
            self.register(id, h);
            Ok(())
        }
    }

    /// The ids of the running processes.
    pub fn ids_list(&self) -> (r: Vec<String>)
        ensures
            names_view(r@) == self.ids(),
    {
        let mut r: Vec<String> = Vec::new();
        let mut i: usize = 0;
        while i < self.entries.len()
            invariant
                0 <= i <= self.entries@.len(),
                self@.len() == self.entries@.len(),
                names_view(r@) == self.ids().take(i as int),
            decreases self.entries@.len() - i,
        {
            let ghost prev = r@;
            let name = self.entries[i].0.clone();
            r.push(name);
            assert(self@[i as int].0 == self.entries@[i as int].0@);
            assert(r@ == prev.push(name));
            assert(names_view(r@) =~= names_view(prev).push(name@));
            assert(self.ids()[i as int] == name@);
            assert(names_view(r@) =~= self.ids().take(i + 1));
            i = i + 1;
        }
        assert(self.ids().take(i as int) =~= self.ids());
        r
    }
}

/// Ids of shell jobs that are to be killed.
pub struct KillRequests {
    ids: Vec<String>,
}

impl View for KillRequests {
    type V = Set<Seq<char>>;

    closed spec fn view(&self) -> Set<Seq<char>> {
        self.ids@.map_values(|s: String| s@).to_set()
    }
}

impl KillRequests {
    pub closed spec fn wf(&self) -> bool {
        self.ids@.map_values(|s: String| s@).no_duplicates()
    }

    pub fn new() -> (r: Self)
        ensures
            r.wf(),
            r@ == Set::<Seq<char>>::empty(),
    {
        let r = KillRequests { ids: Vec::new() };
        assert(r.ids@.map_values(|s: String| s@) =~= Seq::<Seq<char>>::empty());
        assert(r@ =~= Set::<Seq<char>>::empty());
        r
    }

    fn position(&self, id: &str) -> (r: Option<usize>)
        ensures
            r is Some <==> self@.contains(id@),
            r is Some ==> r->0 < self.ids@.len() && self.ids@[r->0 as int]@ == id@,
    {
        let key = id.to_owned();
        let ghost s = self.ids@.map_values(|s: String| s@);
        let mut i: usize = 0;
        while i < self.ids.len()
            invariant
                0 <= i <= self.ids@.len(),
                key@ == id@,
                s == self.ids@.map_values(|s: String| s@),
                forall|k: int| 0 <= k < i ==> s[k] != id@,
            decreases self.ids@.len() - i,
        {
            if self.ids[i] == key {
                assert(s[i as int] == id@);
                return Some(i);
            }
            i = i + 1;
        }
        proof {
            if s.to_set().contains(id@) {
                let k = choose|k: int| 0 <= k < s.len() && s[k] == id@;
                assert(s[k] != id@);
            }
        }
        None
    }

    /// Records that the job of `id` is to be killed.
    pub fn request(&mut self, id: &str)
        requires
            old(self).wf(),
        ensures
            final(self).wf(),
            final(self)@ == old(self)@.insert(id@),
    {
        if self.position(id).is_none() {
            let ghost s = self.ids@.map_values(|s: String| s@);
            self.ids.push(id.to_owned());
            let ghost t = self.ids@.map_values(|s: String| s@);
            assert(t =~= s.push(id@));
            assert forall|a: int, b: int| 0 <= a < b < t.len() implies t[a] != t[b] by {
                if b == t.len() - 1 {
                    assert(s[a] != id@);
                }
            }
            assert forall|x: Seq<char>| #[trigger] t.contains(x) <==> s.contains(x) || x == id@ by {
                if t.contains(x) {
                    let k = choose|k: int| 0 <= k < t.len() && t[k] == x;
                    if k < s.len() {
                        assert(s[k] == x);
                    }
                }
                if s.contains(x) {
                    let k = choose|k: int| 0 <= k < s.len() && s[k] == x;
                    assert(t[k] == x);
                }
                if x == id@ {
                    assert(t[s.len() as int] == x);
                }
            }
            assert(self@ =~= old(self)@.insert(id@));
        } else {
            assert(self@ =~= old(self)@.insert(id@));
        }
    }

    /// Takes the request to kill the job of `id`, where there is one.
    pub fn consume(&mut self, id: &str) -> (r: bool)
        requires
            old(self).wf(),
        ensures
            final(self).wf(),
            r == old(self)@.contains(id@),
            final(self)@ == old(self)@.remove(id@),
    {
        match self.position(id) {
            Some(i) => {
                let ghost s = self.ids@.map_values(|s: String| s@);
                self.ids.remove(i);
                let ghost t = self.ids@.map_values(|s: String| s@);
                assert(t =~= s.remove(i as int));
                proof {
                    assert forall|a: int, b: int| 0 <= a < b < t.len() implies t[a] != t[b] by {
                        let a2 = if a < i { a } else { a + 1 };
                        let b2 = if b < i { b } else { b + 1 };
                        assert(s[a2] != s[b2]);
                    }
                    assert(s[i as int] == id@);
                    assert forall|x: Seq<char>| #[trigger] t.contains(x) <==> (s.contains(x) && x != id@) by {
                        if t.contains(x) {
                            let k = choose|k: int| 0 <= k < t.len() && t[k] == x;
                            let k2 = if k < i { k } else { k + 1 };
                            assert(s[k2] == x);
                            assert(k2 != i);
                            assert(s[k2] != s[i as int]);
                        }
                        if s.contains(x) && x != id@ {
                            let k = choose|k: int| 0 <= k < s.len() && s[k] == x;
                            assert(k != i);
                            let k2 = if k < i { k } else { k - 1 };
                            assert(t[k2] == x);
                        }
                    }
                    assert(self@ =~= old(self)@.remove(id@));
                }
                true
            },
            None => {
                assert(self@ =~= old(self)@.remove(id@));
                false
            },
        }
    }
}

} // verus!
