//! The session registry: at most one channel per session identifier, kept in
//! the order the sessions were opened.

use vstd::prelude::*;

verus! {

/// Why a registry operation failed.
#[derive(Debug, Clone, Copy, PartialEq, Eq, Structural)]
pub enum RegistryError {
    /// A session with this identifier is already open.
    SessionConflict,
    /// No session with this identifier is open.
    SessionNotFound,
}

/// The identifiers of a registry's entries, in order.
pub open spec fn ids_of<C>(es: Seq<(Seq<char>, C)>) -> Seq<Seq<char>> {
    es.map_values(|e: (Seq<char>, C)| e.0)
}

/// No identifier occurs twice.
pub open spec fn ids_unique<C>(es: Seq<(Seq<char>, C)>) -> bool {
    forall|i: int, j: int|
        0 <= i < es.len() && 0 <= j < es.len() && i != j ==> (#[trigger] es[i]).0 != (#[trigger] es[j]).0
}

/// The channel registered under `id`, if any.
pub open spec fn lookup_spec<C>(es: Seq<(Seq<char>, C)>, id: Seq<char>) -> Option<C> {
    if exists|i: int| 0 <= i < es.len() && (#[trigger] es[i]).0 == id {
        let i = choose|i: int| 0 <= i < es.len() && (#[trigger] es[i]).0 == id;
        Some(es[i].1)
    } else {
        None
    }
}

/// Registering `c` under `id`: refused where `id` is taken, else appended.
pub open spec fn insert_spec<C>(es: Seq<(Seq<char>, C)>, id: Seq<char>, c: C) -> Option<
    Seq<(Seq<char>, C)>,
> {
    if ids_of(es).contains(id) {
        None
    } else {
        Some(es.push((id, c)))
    }
}

/// Removing the entry of `id`: refused where there is none, else the others
/// stay in their order.
pub open spec fn remove_spec<C>(es: Seq<(Seq<char>, C)>, id: Seq<char>) -> Option<
    (C, Seq<(Seq<char>, C)>),
> {
    if exists|i: int| 0 <= i < es.len() && (#[trigger] es[i]).0 == id {
        let i = choose|i: int| 0 <= i < es.len() && (#[trigger] es[i]).0 == id;
        Some((es[i].1, es.remove(i)))
    } else {
        None
    }
}

proof fn lemma_ids_contains<C>(es: Seq<(Seq<char>, C)>, id: Seq<char>)
    ensures
        ids_of(es).contains(id) <==> exists|i: int| 0 <= i < es.len() && (#[trigger] es[i]).0 == id,
{
    if ids_of(es).contains(id) {
        let k = choose|k: int| 0 <= k < ids_of(es).len() && ids_of(es)[k] == id;
        assert(es[k].0 == id);
    }
    if exists|i: int| 0 <= i < es.len() && (#[trigger] es[i]).0 == id {
        let i = choose|i: int| 0 <= i < es.len() && (#[trigger] es[i]).0 == id;
        assert(ids_of(es)[i] == id);
    }
}

/// Registering an identifier that is already taken fails, and the entry
/// that holds it stays as it was.
pub proof fn lemma_insert_twice_conflicts<C>(es: Seq<(Seq<char>, C)>, id: Seq<char>, a: C, b: C)
    requires
        ids_unique(es),
        insert_spec(es, id, a) is Some,
    ensures
        insert_spec(insert_spec(es, id, a)->0, id, b) is None,
        lookup_spec(insert_spec(es, id, a)->0, id) == Some(a),
        ids_unique(insert_spec(es, id, a)->0),
{
    let es2 = insert_spec(es, id, a)->0;
    let n = es.len() as int;
    assert(es2[n].0 == id);
    assert(ids_of(es2)[n] == id);
    lemma_ids_contains(es, id);
    assert forall|i: int, j: int|
        0 <= i < es2.len() && 0 <= j < es2.len() && i != j implies (#[trigger] es2[i]).0 != (
        #[trigger] es2[j]).0 by {
        if i < n && j < n {
            assert(es2[i] == es[i] && es2[j] == es[j]);
        } else if i < n {
            assert(es2[i] == es[i]);
        } else if j < n {
            assert(es2[j] == es[j]);
        }
    }
    let k = choose|k: int| 0 <= k < es2.len() && (#[trigger] es2[k]).0 == id;
    assert(k == n);
}

/// Removing an identifier that is not registered fails; removing one that is
/// hands back its channel, and the identifier is no longer listed.
pub proof fn lemma_remove_detaches<C>(es: Seq<(Seq<char>, C)>, id: Seq<char>)
    requires
        ids_unique(es),
    ensures
        !ids_of(es).contains(id) ==> remove_spec(es, id) is None,
        ids_of(es).contains(id) ==> match remove_spec(es, id) {
            Some((c, rest)) => {
                &&& Some(c) == lookup_spec(es, id)
                &&& !ids_of(rest).contains(id)
                &&& ids_unique(rest)
            },
            None => false,
        },
{
    lemma_ids_contains(es, id);
    if ids_of(es).contains(id) {
        let i = choose|i: int| 0 <= i < es.len() && (#[trigger] es[i]).0 == id;
        let es2 = es.remove(i);
        lemma_ids_contains(es2, id);
        if ids_of(es2).contains(id) {
            let j = choose|j: int| 0 <= j < es2.len() && (#[trigger] es2[j]).0 == id;
            if j < i {
                assert(es2[j] == es[j]);
            } else {
                assert(es2[j] == es[j + 1]);
            }
        }
        assert forall|a: int, b: int|
            0 <= a < es2.len() && 0 <= b < es2.len() && a != b implies (#[trigger] es2[a]).0 != (
            #[trigger] es2[b]).0 by {
            let a1 = if a < i { a } else { a + 1 };
            let b1 = if b < i { b } else { b + 1 };
            assert(es2[a] == es[a1] && es2[b] == es[b1]);
        }
    }
}

/// Live sessions by identifier. Each channel is owned by the registry until
/// it is removed.
pub struct SessionRegistry<C> {
    ids: Vec<String>,
    channels: Vec<C>,
}

impl<C> View for SessionRegistry<C> {
    type V = Seq<(Seq<char>, C)>;

    closed spec fn view(&self) -> Seq<(Seq<char>, C)> {
        Seq::new(self.ids@.len(), |i: int| (self.ids@[i]@, self.channels@[i]))
    }
}

impl<C> SessionRegistry<C> {
    /// Identifiers are unique.
    pub closed spec fn wf(&self) -> bool {
        &&& self.ids@.len() == self.channels@.len()
        &&& ids_unique(self@)
    }

    /// A well-formed registry holds each identifier at most once.
    pub proof fn lemma_wf_ids_unique(&self)
        requires
            self.wf(),
        ensures
            ids_unique(self@),
            ids_of(self@).no_duplicates(),
    {
        assert forall|i: int, j: int|
            0 <= i < ids_of(self@).len() && 0 <= j < ids_of(self@).len() && i != j implies ids_of(
            self@,
        )[i] != ids_of(self@)[j] by {
            assert(ids_of(self@)[i] == self@[i].0 && ids_of(self@)[j] == self@[j].0);
        }
    }

    pub fn new() -> (r: Self)
        ensures
            r.wf(),
            r@ == Seq::<(Seq<char>, C)>::empty(),
    {
        let r = SessionRegistry { ids: Vec::new(), channels: Vec::new() };
        assert(r@ =~= Seq::<(Seq<char>, C)>::empty());
        r
    }

    /// The number of open sessions.
    pub fn len(&self) -> (r: usize)
        requires
            self.wf(),
        ensures
            r == self@.len(),
    {
        self.ids.len()
    }

    /// The position of `id`'s entry.
    pub fn position(&self, id: &str) -> (r: Option<usize>)
        requires
            self.wf(),
        ensures
            r is None <==> !ids_of(self@).contains(id@),
            r matches Some(i) ==> i < self@.len() && self@[i as int].0 == id@,
    {
        proof {
            lemma_ids_contains(self@, id@);
        }
        let mut i: usize = 0;
        while i < self.ids.len()
            invariant
                self.wf(),
                i <= self.ids@.len(),
                forall|k: int| 0 <= k < i ==> (#[trigger] self@[k]).0 != id@,
            decreases self.ids@.len() - i,
        {
            if self.ids[i].as_str().unicode_len() == id.unicode_len() {
                let same = crate::decode::matches_at(self.ids[i].as_str(), id, 0);
                if same {
                    assert(self.ids@[i as int]@.subrange(0, id@.len() as int) == self.ids@[i as int]@);
                    assert(self@[i as int].0 == id@);
                    assert(ids_of(self@)[i as int] == id@);
                    return Some(i);
                }
                assert(self.ids@[i as int]@.subrange(0, id@.len() as int) == self.ids@[i as int]@);
            }
            assert(self@[i as int].0 == self.ids@[i as int]@);
            i = i + 1;
        }
        None
    }

    /// Whether a session with this identifier is open.
    pub fn contains(&self, id: &str) -> (r: bool)
        requires
            self.wf(),
        ensures
            r == ids_of(self@).contains(id@),
    {
        self.position(id).is_some()
    }

    /// The channel of session `id`.
    pub fn get(&self, id: &str) -> (r: Result<&C, RegistryError>)
        requires
            self.wf(),
        ensures
            match lookup_spec(self@, id@) {
                Some(c) => r == Ok::<&C, RegistryError>(&c),
                None => r == Err::<&C, RegistryError>(RegistryError::SessionNotFound),
            },
    {
        proof {
            lemma_ids_contains(self@, id@);
        }
        match self.position(id) {
            Some(i) => {
                proof {
                    let k = choose|k: int| 0 <= k < self@.len() && (#[trigger] self@[k]).0 == id@;
                    assert(k == i);
                }
                Ok(&self.channels[i])
            },
            None => Err(RegistryError::SessionNotFound),
        }
    }

    /// Registers `channel` under `id`. Where `id` is taken the registry is
    /// left as it was and the channel is handed back with the conflict.
    pub fn insert(&mut self, id: String, channel: C) -> (r: Result<(), (RegistryError, C)>)
        requires
            old(self).wf(),
        ensures
            final(self).wf(),
            ids_unique(final(self)@),
            match insert_spec(old(self)@, id@, channel) {
                Some(es) => r is Ok && final(self)@ == es,
                None => r == Err::<(), (RegistryError, C)>((RegistryError::SessionConflict, channel))
                    && final(self)@ == old(self)@,
            },
    {
        if self.contains(id.as_str()) {
            return Err((RegistryError::SessionConflict, channel));
        }
        proof {
            lemma_ids_contains(self@, id@);
        }
        let ghost prev = self@;
        self.ids.push(id);
        self.channels.push(channel);
        proof {
            assert(self@ =~= prev.push((id@, channel)));
            let es = self@;
            let n = prev.len() as int;
            assert forall|i: int, j: int|
                0 <= i < es.len() && 0 <= j < es.len() && i != j implies (#[trigger] es[i]).0 != (
                #[trigger] es[j]).0 by {
                if i < n && j < n {
                    assert(es[i] == prev[i] && es[j] == prev[j]);
                } else if i < n {
                    assert(es[i] == prev[i]);
                } else if j < n {
                    assert(es[j] == prev[j]);
                }
            }
        }
        Ok(())
    }

    /// Detaches the session `id` and hands its channel to the caller.
    pub fn remove(&mut self, id: &str) -> (r: Result<C, RegistryError>)
        requires
            old(self).wf(),
        ensures
            final(self).wf(),
            ids_unique(final(self)@),
            match remove_spec(old(self)@, id@) {
                Some((c, es)) => r == Ok::<C, RegistryError>(c) && final(self)@ == es,
                None => r == Err::<C, RegistryError>(RegistryError::SessionNotFound) && final(self)@
                    == old(self)@,
            },
    {
        proof {
            lemma_ids_contains(self@, id@);
            lemma_remove_detaches(self@, id@);
        }
        match self.position(id) {
            Some(i) => {
                let ghost prev = self@;
                proof {
                    let k = choose|k: int| 0 <= k < prev.len() && (#[trigger] prev[k]).0 == id@;
                    assert(k == i);
                }
                self.ids.remove(i);
                let c = self.channels.remove(i);
                proof {
                    assert(self@ =~= prev.remove(i as int));
                }
                Ok(c)
            },
            None => Err(RegistryError::SessionNotFound),
        }
    }

    /// A snapshot of the open identifiers, in the order they were opened.
    pub fn list(&self) -> (r: Vec<String>)
        requires
            self.wf(),
        ensures
            crate::decode::views_of(r@) == ids_of(self@),
            crate::decode::views_of(r@).no_duplicates(),
    {
        let mut out: Vec<String> = Vec::new();
        let mut i: usize = 0;
        while i < self.ids.len()
            invariant
                self.wf(),
                i <= self.ids@.len(),
                crate::decode::views_of(out@) == ids_of(self@).take(i as int),
            decreases self.ids@.len() - i,
        {
            let s = self.ids[i].clone();
            let ghost prev = out@;
            out.push(s);
            proof {
                assert(out@ == prev.push(s));
                assert(ids_of(self@)[i as int] == self.ids@[i as int]@);
                assert(crate::decode::views_of(out@) =~= crate::decode::views_of(prev).push(s@));
                assert(crate::decode::views_of(out@) =~= ids_of(self@).take(i + 1));
            }
            i = i + 1;
        }
        assert(ids_of(self@).take(i as int) =~= ids_of(self@));
        proof {
            self.lemma_wf_ids_unique();
        }
        out
    }
}

} // verus!
