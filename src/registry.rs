use vstd::prelude::*;
use vstd::string::StringExecFns;

verus! {

/// An opaque reference handed out by the host: to a storage cell, to an
/// installed logic unit, or to a package of such units. The number is an
/// index into the host's arena of that kind; it is never derived from a name.
#[derive(Clone, Copy, Debug, PartialEq, Eq, Structural)]
pub enum Key {
    URef(usize),
    Contract(usize),
    Package(usize),
}

/// What a registry binds `name` to, reading its bindings from the latest
/// back.
pub open spec fn lookup(bindings: Seq<(Seq<char>, Key)>, name: Seq<char>) -> Option<Key>
    decreases bindings.len(),
{
    if bindings.len() == 0 {
        None
    } else if bindings.last().0 == name {
        Some(bindings.last().1)
    } else {
        lookup(bindings.drop_last(), name)
    }
}

/// No two bindings share a name.
pub open spec fn names_unique(bindings: Seq<(Seq<char>, Key)>) -> bool {
    forall|i: int, j: int|
        0 <= i < bindings.len() && 0 <= j < bindings.len() && i != j ==> (#[trigger] bindings[i]).0
            != (#[trigger] bindings[j]).0
}

/// With unique names, a name bound at position `i` resolves to that binding.
pub proof fn lemma_lookup_found(bindings: Seq<(Seq<char>, Key)>, name: Seq<char>, i: int)
    requires
        names_unique(bindings),
        0 <= i < bindings.len(),
        bindings[i].0 == name,
    ensures
        lookup(bindings, name) == Some(bindings[i].1),
    decreases bindings.len(),
{
    if i != bindings.len() - 1 {
        let rest = bindings.drop_last();
        assert(bindings[bindings.len() - 1].0 != bindings[i].0);
        assert(rest[i] == bindings[i]);
        lemma_lookup_found(rest, name, i);
    }
}

/// A name bound nowhere resolves to nothing.
pub proof fn lemma_lookup_absent(bindings: Seq<(Seq<char>, Key)>, name: Seq<char>)
    requires
        forall|i: int| 0 <= i < bindings.len() ==> (#[trigger] bindings[i]).0 != name,
    ensures
        lookup(bindings, name) is None,
    decreases bindings.len(),
{
    if bindings.len() > 0 {
        let rest = bindings.drop_last();
        assert forall|i: int| 0 <= i < rest.len() implies (#[trigger] rest[i]).0 != name by {
            assert(rest[i] == bindings[i]);
        }
        lemma_lookup_absent(rest, name);
    }
}

/// A registry of named references, owned by an account or by an installed
/// logic unit. Within one registry each name is bound at most once.
#[derive(Clone, Debug)]
pub struct NamedKeys {
    pub entries: Vec<(String, Key)>,
}

impl NamedKeys {
    pub open spec fn bindings(&self) -> Seq<(Seq<char>, Key)> {
        self.entries@.map_values(|e: (String, Key)| (e.0@, e.1))
    }

    pub open spec fn wf(&self) -> bool {
        names_unique(self.bindings())
    }

    pub open spec fn spec_get(&self, name: Seq<char>) -> Option<Key> {
        lookup(self.bindings(), name)
    }

    pub fn new() -> (r: NamedKeys)
        ensures
            r.wf(),
            r.bindings() == Seq::<(Seq<char>, Key)>::empty(),
    {
        let r = NamedKeys { entries: Vec::new() };
        assert(r.bindings() =~= Seq::<(Seq<char>, Key)>::empty());
        r
    }

    fn position(&self, name: &String) -> (r: Option<usize>)
        ensures
            match r {
                Some(i) => i < self.entries@.len() && self.bindings()[i as int].0 == name@,
                None => forall|j: int|
                    0 <= j < self.bindings().len() ==> (#[trigger] self.bindings()[j]).0 != name@,
            },
    {
        let mut i: usize = 0;
        while i < self.entries.len()
            invariant
                i <= self.entries.len(),
                forall|j: int| 0 <= j < i ==> (#[trigger] self.bindings()[j]).0 != name@,
            decreases self.entries.len() - i,
        {
            if self.entries[i].0 == *name {
                return Some(i);
            }
            i = i + 1;
        }
        None
    }

    /// Binds `name` to `key`, replacing the binding of that name if there is
    /// one; a new name is added after the others.
    pub fn put(&mut self, name: &str, key: Key)
        requires
            old(self).wf(),
        ensures
            final(self).wf(),
            final(self).spec_get(name@) == Some(key),
            forall|n: Seq<char>| n != name@ ==> final(self).spec_get(n) == old(self).spec_get(n),
            old(self).spec_get(name@) is None ==> final(self).bindings() == old(self).bindings().push(
                (name@, key),
            ),
    {
        let ghost b0 = self.bindings();
        let s = String::from_str(name);
        match self.position(&s) {
            Some(i) => {
                self.entries.set(i, (s, key));
                let ghost b1 = self.bindings();
                assert(b1 =~= b0.update(i as int, (name@, key)));
                assert(names_unique(b1)) by {
                    assert forall|p: int, q: int|
                        0 <= p < b1.len() && 0 <= q < b1.len() && p != q implies (
                        #[trigger] b1[p]).0 != (#[trigger] b1[q]).0 by {
                        assert(b1[p].0 == b0[p].0);
                        assert(b1[q].0 == b0[q].0);
                    }
                }
                proof {
                    lemma_lookup_found(b0, name@, i as int);
                    lemma_lookup_found(b1, name@, i as int);
                }
                assert forall|n: Seq<char>| n != name@ implies lookup(b1, n) == lookup(b0, n) by {
                    if exists|j: int| 0 <= j < b0.len() && (#[trigger] b0[j]).0 == n {
                        let j = choose|j: int| 0 <= j < b0.len() && (#[trigger] b0[j]).0 == n;
                        lemma_lookup_found(b0, n, j);
                        lemma_lookup_found(b1, n, j);
                    } else {
                        assert forall|j: int| 0 <= j < b1.len() implies (#[trigger] b1[j]).0
                            != n by {
                            assert(b1[j].0 == b0[j].0);
                        }
                        lemma_lookup_absent(b0, n);
                        lemma_lookup_absent(b1, n);
                    }
                }
            },
            None => {
                self.entries.push((s, key));
                let ghost b1 = self.bindings();
                assert(b1 =~= b0.push((name@, key)));
                assert(b1.drop_last() =~= b0);
                assert(names_unique(b1)) by {
                    assert forall|p: int, q: int|
                        0 <= p < b1.len() && 0 <= q < b1.len() && p != q implies (
                        #[trigger] b1[p]).0 != (#[trigger] b1[q]).0 by {
                        if p < b0.len() {
                            assert(b1[p] == b0[p]);
                        }
                        if q < b0.len() {
                            assert(b1[q] == b0[q]);
                        }
                    }
                }
                proof {
                    lemma_lookup_absent(b0, name@);
                }
            },
        }
    }

    /// The reference that `name` is bound to, if any.
    pub fn get(&self, name: &str) -> (r: Option<Key>)
        ensures
            r == self.spec_get(name@),
    {
        let n = String::from_str(name);
        let mut i: usize = self.entries.len();
        assert(self.bindings().subrange(0, i as int) =~= self.bindings());
        while i > 0
            invariant
                i <= self.entries.len(),
                n@ == name@,
                self.spec_get(name@) == lookup(self.bindings().subrange(0, i as int), name@),
            decreases i,
        {
            let ghost sub = self.bindings().subrange(0, i as int);
            assert(sub.last() == self.bindings()[i - 1]);
            if self.entries[i - 1].0 == n {
                return Some(self.entries[i - 1].1);
            }
            assert(sub.drop_last() =~= self.bindings().subrange(0, i - 1));
            i = i - 1;
        }
        None
    }
}

} // verus!
