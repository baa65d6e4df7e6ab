//! The ownership registry: data types, abstract transitions, and the
//! verified operations `register`, `transfer` and `owner`.

use vstd::prelude::*;

verus! {

/// A principal: an opaque, comparable identity standing for an owner or a
/// caller.  Two principals are the same exactly when their keys are equal.
#[derive(Clone, Copy, Debug, PartialEq, Eq, Structural)]
pub struct Principal(pub u64);

/// The registry's record for one identifier: the owning principal.
#[derive(Clone, Copy, Debug, PartialEq, Eq, Structural)]
pub struct Asset {
    pub owner: Principal,
}

/// The ways an operation of the registry can fail.
#[derive(Clone, Copy, Debug, PartialEq, Eq, Structural)]
pub enum RegistryError {
    /// `register` named an identifier that already has an asset.
    AlreadyRegistered,
    /// `transfer` or `owner` named an identifier that was never registered.
    NotFound,
    /// `transfer` was requested by a principal that is not the recorded owner.
    NotAuthorized,
}

/// One stored record: an identifier together with its asset.
struct Entry {
    id: String,
    asset: Asset,
}

/// The ownership registry.  Its abstract value (the view) is a map from
/// identifier to the owning principal.
pub struct Registry {
    entries: Vec<Entry>,
}

/// The owner recorded under `key` in `s`, if any: the owner of the first
/// entry whose identifier reads `key`.
spec fn spec_find(s: Seq<Entry>, key: Seq<char>) -> Option<Principal>
    decreases s.len(),
{
    if s.len() == 0 {
        None
    } else if s[0].id@ == key {
        Some(s[0].asset.owner)
    } else {
        spec_find(s.skip(1), key)
    }
}

impl View for Registry {
    type V = Map<Seq<char>, Principal>;

    closed spec fn view(&self) -> Map<Seq<char>, Principal> {
        Map::new(
            |key: Seq<char>| spec_find(self.entries@, key) is Some,
            |key: Seq<char>| spec_find(self.entries@, key)->Some_0,
        )
    }
}

/// The registration step on the abstract state: when `id` is already
/// present the state is unchanged and the step fails with
/// `AlreadyRegistered`; otherwise `owner` is recorded under `id`.
pub open spec fn spec_register(
    m: Map<Seq<char>, Principal>,
    id: Seq<char>,
    owner: Principal,
) -> (Map<Seq<char>, Principal>, Result<(), RegistryError>) {
    if m.contains_key(id) {
        (m, Err(RegistryError::AlreadyRegistered))
    } else {
        (m.insert(id, owner), Ok(()))
    }
}

/// The transfer step on the abstract state: it fails with `NotFound` when
/// `id` is absent and with `NotAuthorized` when `from` is not the recorded
/// owner, leaving the state unchanged either way; otherwise it records `to`
/// as the owner of `id`.
pub open spec fn spec_transfer(
    m: Map<Seq<char>, Principal>,
    id: Seq<char>,
    from: Principal,
    to: Principal,
) -> (Map<Seq<char>, Principal>, Result<(), RegistryError>) {
    if !m.contains_key(id) {
        (m, Err(RegistryError::NotFound))
    } else if m[id] != from {
        (m, Err(RegistryError::NotAuthorized))
    } else {
        (m.insert(id, to), Ok(()))
    }
}

/// The owner lookup on the abstract state: the recorded owner of `id`, or
/// `NotFound` when `id` is absent.
pub open spec fn spec_owner(
    m: Map<Seq<char>, Principal>,
    id: Seq<char>,
) -> Result<Principal, RegistryError> {
    if m.contains_key(id) {
        Ok(m[id])
    } else {
        Err(RegistryError::NotFound)
    }
}

/// Appending an entry leaves every recorded owner in place and records the
/// new entry's owner under its identifier where that identifier was absent.
proof fn lemma_find_push(s: Seq<Entry>, e: Entry, key: Seq<char>)
    ensures
        spec_find(s.push(e), key) == (if spec_find(s, key) is Some {
            spec_find(s, key)
        } else if e.id@ == key {
            Some(e.asset.owner)
        } else {
            None::<Principal>
        }),
    decreases s.len(),
{
    if s.len() == 0 {
        assert(s.push(e)[0] == e);
        assert(s.push(e).skip(1) =~= Seq::<Entry>::empty());
        assert(spec_find(Seq::<Entry>::empty(), key) is None);
    } else {
        assert(s.push(e)[0] == s[0]);
        assert(s.push(e).skip(1) =~= s.skip(1).push(e));
        lemma_find_push(s.skip(1), e, key);
        assert(spec_find(s.skip(1).push(e), key) == spec_find(s.push(e).skip(1), key));
    }
}

/// Replacing the one entry that holds an identifier changes the owner
/// recorded under that identifier and no other.
proof fn lemma_find_update(s: Seq<Entry>, i: int, e: Entry, key: Seq<char>)
    requires
        0 <= i < s.len(),
        e.id@ == s[i].id@,
        forall|j: int| 0 <= j < s.len() && j != i ==> s[j].id@ != s[i].id@,
    ensures
        spec_find(s.update(i, e), key) == (if key == e.id@ {
            Some(e.asset.owner)
        } else {
            spec_find(s, key)
        }),
    decreases s.len(),
{
    let t = s.update(i, e);
    if i == 0 {
        assert(t[0] == e);
        assert(t.skip(1) =~= s.skip(1));
    } else {
        assert(t[0] == s[0]);
        assert(t.skip(1) =~= s.skip(1).update(i - 1, e));
        assert(s[0].id@ != s[i].id@);
        assert forall|j: int|
            0 <= j < s.skip(1).len() && j != i - 1 implies (#[trigger] s.skip(1)[j]).id@
            != s.skip(1)[i - 1].id@ by {
            assert(s.skip(1)[j] == s[j + 1]);
            assert(s.skip(1)[i - 1] == s[i]);
        }
        lemma_find_update(s.skip(1), i - 1, e, key);
    }
}

impl Registry {
    /// Well-formedness: no identifier occurs in two entries.
    #[verifier::type_invariant]
    spec fn wf(self) -> bool {
        forall|i: int, j: int|
            0 <= i < j < self.entries@.len() ==> self.entries@[i].id@ != self.entries@[j].id@
    }

    /// An empty registry: no identifier is registered.
    pub fn new() -> (r: Registry)
        ensures
            r@ == Map::<Seq<char>, Principal>::empty(),
    {
        let r = Registry { entries: Vec::new() };
        proof {
            assert(r@ =~= Map::<Seq<char>, Principal>::empty());
        }
        r
    }

    /// Linear search for `key` among the stored entries.
    fn find(&self, key: &String) -> (r: Option<usize>)
        ensures
            match r {
                Some(i) => {
                    &&& i < self.entries@.len()
                    &&& self.entries@[i as int].id@ == key@
                    &&& spec_find(self.entries@, key@)
                        == Some(self.entries@[i as int].asset.owner)
                },
                None => {
                    &&& spec_find(self.entries@, key@) is None
                    &&& forall|j: int|
                        0 <= j < self.entries@.len() ==> self.entries@[j].id@ != key@
                },
            },
    {
        let ghost s = self.entries@;
        let mut i: usize = 0;
        proof {
            assert(s.skip(0) =~= s);
        }
        while i < self.entries.len()
            invariant
                i <= s.len(),
                s == self.entries@,
                forall|j: int| 0 <= j < i ==> s[j].id@ != key@,
                spec_find(s, key@) == spec_find(s.skip(i as int), key@),
            decreases s.len() - i,
        {
            if self.entries[i].id == *key {
                proof {
                    assert(s.skip(i as int)[0] == s[i as int]);
                }
                return Some(i);
            }
            proof {
                assert(s.skip(i as int)[0] == s[i as int]);
                assert(s.skip(i as int).skip(1) =~= s.skip(i as int + 1));
            }
            i = i + 1;
        }
        proof {
            assert(s.skip(s.len() as int) =~= Seq::<Entry>::empty());
        }
        None
    }

    /// Registers `id` with `owner` as the initial owner.  When `id` already
    /// has an asset the call fails with `AlreadyRegistered` and the registry
    /// is unchanged; otherwise the asset is recorded and the call succeeds.
    pub fn register(&mut self, id: &str, owner: Principal) -> (r: Result<(), RegistryError>)
        ensures
            final(self)@ == spec_register(old(self)@, id@, owner).0,
            r == spec_register(old(self)@, id@, owner).1,
    {
        proof {
            use_type_invariant(&*self);
        }
        let key = id.to_owned();
        match self.find(&key) {
            Some(_) => Err(RegistryError::AlreadyRegistered),
            None => {
                let ghost s0 = self.entries@;
                let mut entries: Vec<Entry> = Vec::new();
                core::mem::swap(&mut entries, &mut self.entries);
                let e = Entry { id: key, asset: Asset { owner } };
                let ghost ge = e;
                entries.push(e);
                proof {
                    let s1 = entries@;
                    assert(s1 == s0.push(ge));
                    assert forall|a: int, b: int|
                        0 <= a < b < s1.len() implies s1[a].id@ != s1[b].id@ by {
                        if b < s0.len() {
                            assert(s1[a] == s0[a]);
                            assert(s1[b] == s0[b]);
                        } else {
                            assert(s1[a] == s0[a]);
                            assert(s1[b] == ge);
                        }
                    }
                }
                self.entries = entries;
                proof {
                    let s1 = self.entries@;
                    assert forall|k: Seq<char>|
                        spec_find(s1, k) == (if k == id@ {
                            Some(owner)
                        } else {
                            spec_find(s0, k)
                        }) by {
                        lemma_find_push(s0, ge, k);
                    }
                    assert(self@ =~= old(self)@.insert(id@, owner));
                }
                Ok(())
            },
        }
    }

    /// Transfers the asset under `id` from its current owner to `to`.  The
    /// call fails with `NotFound` when `id` was never registered and with
    /// `NotAuthorized` when `from` is not the recorded owner, in both cases
    /// leaving the registry unchanged; otherwise `to` becomes the recorded
    /// owner and the call succeeds.
    pub fn transfer(&mut self, id: &str, from: Principal, to: Principal) -> (r: Result<
        (),
        RegistryError,
    >)
        ensures
            final(self)@ == spec_transfer(old(self)@, id@, from, to).0,
            r == spec_transfer(old(self)@, id@, from, to).1,
    {
        proof {
            use_type_invariant(&*self);
        }
        let key = id.to_owned();
        match self.find(&key) {
            None => Err(RegistryError::NotFound),
            Some(i) => {
                if self.entries[i].asset.owner != from {
                    Err(RegistryError::NotAuthorized)
                } else {
                    let ghost s0 = self.entries@;
                    let mut entries: Vec<Entry> = Vec::new();
                    core::mem::swap(&mut entries, &mut self.entries);
                    let e = Entry { id: key, asset: Asset { owner: to } };
                    let ghost ge = e;
                    proof {
                        assert forall|j: int|
                            0 <= j < s0.len() && j != i implies (#[trigger] s0[j].id@)
                            != s0[i as int].id@ by {}
                    }
                    entries[i] = e;
                    proof {
                        let s1 = entries@;
                        assert(s1 == s0.update(i as int, ge));
                        assert forall|a: int, b: int|
                            0 <= a < b < s1.len() implies s1[a].id@ != s1[b].id@ by {
                            assert(s0[a].id@ != s0[b].id@);
                            if a == i {
                                assert(s1[a] == ge);
                                assert(s1[b] == s0[b]);
                            } else if b == i {
                                assert(s1[a] == s0[a]);
                                assert(s1[b] == ge);
                            } else {
                                assert(s1[a] == s0[a]);
                                assert(s1[b] == s0[b]);
                            }
                        }
                    }
                    self.entries = entries;
                    proof {
                        let s1 = self.entries@;
                        assert forall|k: Seq<char>|
                            spec_find(s1, k) == (if k == id@ {
                                Some(to)
                            } else {
                                spec_find(s0, k)
                            }) by {
                            lemma_find_update(s0, i as int, ge, k);
                        }
                        assert(self@ =~= old(self)@.insert(id@, to));
                    }
                    Ok(())
                }
            },
        }
    }

    /// The recorded owner of `id`, or `NotFound` when `id` was never
    /// registered.  A pure read: the registry is not changed.
    pub fn owner(&self, id: &str) -> (r: Result<Principal, RegistryError>)
        ensures
            r == spec_owner(self@, id@),
    {
        let key = id.to_owned();
        match self.find(&key) {
            Some(i) => Ok(self.entries[i].asset.owner),
            None => Err(RegistryError::NotFound),
        }
    }
}

} // verus!
