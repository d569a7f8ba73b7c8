//! Contexts: the owners of functions and of tagged data.
use vstd::prelude::*;

verus! {

/// Holds all of the functions you have built and compiled. There can be
/// multiple, but normally there is only one.
///
/// The type parameter `T` represents the type of the data tagged on the
/// context under integer keys. If you do not want to tag the context with
/// data, instantiate it with a unit (`()`) for `T`.
pub struct Context<T> {
    functions: u64,
    meta: Vec<(i32, T)>,
}

/// Iterates through the functions of a context, by their identities.
pub struct Functions {
    next: u64,
    count: u64,
}

/// The data that `meta` records under `key`, the last one recorded.
pub open spec fn meta_lookup<T>(meta: Seq<(i32, T)>, key: i32) -> Option<T>
    decreases meta.len(),
{
    if meta.len() == 0 {
        None
    } else if meta.last().0 == key {
        Some(meta.last().1)
    } else {
        meta_lookup(meta.drop_last(), key)
    }
}

impl<T> Context<T> {
    /// The number of functions created in this context.
    pub closed spec fn function_count(&self) -> u64 {
        self.functions
    }

    /// The tagged data, as pairs of key and data in the order recorded.
    pub closed spec fn meta(&self) -> Seq<(i32, T)> {
        self.meta@
    }

    /// Create a new JIT Context
    pub fn new() -> (r: Context<T>)
        ensures
            r.function_count() == 0,
            r.meta().len() == 0,
    {
        Context { functions: 0, meta: Vec::new() }
    }

    /// Give the next function its identity.
    pub(crate) fn add_function(&mut self) -> (r: u64)
        requires
            old(self).function_count() < u64::MAX,
        ensures
            r == old(self).function_count(),
            final(self).function_count() == old(self).function_count() + 1,
            final(self).meta() == old(self).meta(),
    {
        let id = self.functions;
        self.functions = self.functions + 1;
        id
    }

    /// Iterate through the functions contained inside this context
    pub fn functions(&self) -> (r: Functions)
        ensures
            r.position() == 0,
            r.count() == self.function_count(),
    {
        Functions { next: 0, count: self.functions }
    }

    /// The data tagged on this context under `index`, if any.
    pub fn get_meta(&self, index: i32) -> (r: Option<&T>)
        ensures
            match r {
                Some(t) => meta_lookup(self.meta(), index) == Some(*t),
                None => meta_lookup(self.meta(), index) is None,
            },
    {
        let mut i = self.meta.len();
        proof {
            assert(self.meta@.take(i as int) == self.meta@);
        }
        while i > 0
            invariant
                i <= self.meta@.len(),
                meta_lookup(self.meta@, index) == meta_lookup(self.meta@.take(i as int), index),
            decreases i,
        {
            proof {
                assert(self.meta@.take(i as int).drop_last() == self.meta@.take(i as int - 1));
            }
            if self.meta[i - 1].0 == index {
                return Some(&self.meta[i - 1].1);
            }
            i = i - 1;
        }
        None
    }

    /// The data tagged on this context under `index`, which must be there.
    pub fn index(&self, index: i32) -> (r: &T)
        requires
            meta_lookup(self.meta(), index) is Some,
        ensures
            meta_lookup(self.meta(), index) == Some(*r),
    {
        let mut i = self.meta.len();
        proof {
            assert(self.meta@.take(i as int) == self.meta@);
        }
        while i > 0
            invariant
                i <= self.meta@.len(),
                meta_lookup(self.meta@, index) == meta_lookup(self.meta@.take(i as int), index),
            decreases i,
        {
            proof {
                assert(self.meta@.take(i as int).drop_last() == self.meta@.take(i as int - 1));
            }
            if self.meta[i - 1].0 == index {
                return &self.meta[i - 1].1;
            }
            i = i - 1;
        }
        proof {
            assert(self.meta@.take(0) =~= Seq::<(i32, T)>::empty());
            assert(false);
        }
        &self.meta[0].1
    }

    /// Tag this context with `data` under `index`: the slot of that key is
    /// reused when there is one, else a new slot is added.
    pub fn set_meta(&mut self, index: i32, data: T)
        ensures
            final(self).function_count() == old(self).function_count(),
            meta_lookup(old(self).meta(), index) is Some ==> exists|j: int|
                0 <= j < old(self).meta().len() && old(self).meta()[j].0 == index
                    && final(self).meta() == old(self).meta().update(j, (index, data)),
            meta_lookup(old(self).meta(), index) is None ==> final(self).meta() == old(
                self,
            ).meta().push((index, data)),
            forall|k: i32| #[trigger] meta_lookup(final(self).meta(), k) == if k == index {
                Some(data)
            } else {
                meta_lookup(old(self).meta(), k)
            },
    {
        let mut i = self.meta.len();
        let mut found = false;
        while i > 0
            invariant_except_break
                !found,
            invariant
                i <= self.meta@.len(),
                self.meta@ == old(self).meta@,
                self.functions == old(self).functions,
                forall|m: int| i <= m < self.meta@.len() ==> (#[trigger] self.meta@[m]).0 != index,
            ensures
                i <= self.meta@.len(),
                self.meta@ == old(self).meta@,
                self.functions == old(self).functions,
                forall|m: int| i <= m < self.meta@.len() ==> (#[trigger] self.meta@[m]).0 != index,
                found ==> 0 < i && self.meta@[i - 1].0 == index,
                !found ==> i == 0,
            decreases i,
        {
            if self.meta[i - 1].0 == index {
                found = true;
                break;
            }
            i = i - 1;
        }
        if found {
            let ghost before = self.meta@;
            let j = i - 1;
            self.meta.set(j, (index, data));
            proof {
                lemma_lookup_update_last(before, j as int, index, data);
                assert forall|k: i32| #[trigger] meta_lookup(self.meta@, k) == if k == index {
                    Some(data)
                } else {
                    meta_lookup(before, k)
                } by {
                    if k != index {
                        lemma_lookup_update_other(before, j as int, index, data, k);
                    }
                }
                lemma_lookup_found(before, j as int, index);
            }
        } else {
            proof {
                lemma_lookup_absent(self.meta@, index);
            }
            self.meta.push((index, data));
            proof {
                assert forall|k: i32| #[trigger] meta_lookup(self.meta@, k) == if k == index {
                    Some(data)
                } else {
                    meta_lookup(old(self).meta@, k)
                } by {
                    assert(self.meta@.drop_last() == old(self).meta@);
                }
            }
        }
    }
}

/// Updating the data of a slot leaves what other keys read unchanged.
proof fn lemma_lookup_update_other<T>(s: Seq<(i32, T)>, j: int, key: i32, data: T, k: i32)
    requires
        0 <= j < s.len(),
        s[j].0 == key,
        k != key,
    ensures
        meta_lookup(s.update(j, (key, data)), k) == meta_lookup(s, k),
    decreases s.len(),
{
    let u = s.update(j, (key, data));
    if j == s.len() - 1 {
        assert(u.drop_last() =~= s.drop_last());
    } else {
        assert(u.drop_last() =~= s.drop_last().update(j, (key, data)));
        lemma_lookup_update_other(s.drop_last(), j, key, data, k);
    }
}

/// Updating the last slot of a key makes the key read the new data.
proof fn lemma_lookup_update_last<T>(s: Seq<(i32, T)>, j: int, key: i32, data: T)
    requires
        0 <= j < s.len(),
        forall|m: int| j < m < s.len() ==> (#[trigger] s[m]).0 != key,
    ensures
        meta_lookup(s.update(j, (key, data)), key) == Some(data),
    decreases s.len(),
{
    let u = s.update(j, (key, data));
    if j < s.len() - 1 {
        assert(u.drop_last() =~= s.drop_last().update(j, (key, data)));
        lemma_lookup_update_last(s.drop_last(), j, key, data);
    }
}

/// A key found in a slot reads some data.
proof fn lemma_lookup_found<T>(s: Seq<(i32, T)>, j: int, key: i32)
    requires
        0 <= j < s.len(),
        s[j].0 == key,
    ensures
        meta_lookup(s, key) is Some,
    decreases s.len(),
{
    if s.last().0 != key {
        lemma_lookup_found(s.drop_last(), j, key);
    }
}

/// A key in no slot reads nothing.
proof fn lemma_lookup_absent<T>(s: Seq<(i32, T)>, key: i32)
    requires
        forall|m: int| 0 <= m < s.len() ==> (#[trigger] s[m]).0 != key,
    ensures
        meta_lookup(s, key) is None,
    decreases s.len(),
{
    if s.len() > 0 {
        lemma_lookup_absent(s.drop_last(), key);
    }
}

impl Functions {
    /// The identity of the next function.
    pub closed spec fn position(&self) -> u64 {
        self.next
    }

    /// The number of functions iterated over.
    pub closed spec fn count(&self) -> u64 {
        self.count
    }

    /// The identity of the next function, in the order they were created.
    pub fn next(&mut self) -> (r: Option<u64>)
        ensures
            final(self).count() == old(self).count(),
            old(self).position() < old(self).count() ==> r == Some(old(self).position())
                && final(self).position() == old(self).position() + 1,
            old(self).position() >= old(self).count() ==> r is None && final(self).position()
                == old(self).position(),
    {
        if self.next < self.count {
            let id = self.next;
            self.next = self.next + 1;
            Some(id)
        } else {
            None
        }
    }

    /// The number of functions left, as both bounds.
    pub fn size_hint(&self) -> (r: (u64, Option<u64>))
        ensures
            r.0 == if self.position() < self.count() {
                self.count() - self.position()
            } else {
                0
            },
            r.1 == Some(r.0),
    {
        if self.next < self.count {
            (self.count - self.next, Some(self.count - self.next))
        } else {
            (0, Some(0))
        }
    }
}

/// What is tagged under a key is read back under that key, and tagging
/// under one key leaves what the others read unchanged.
pub proof fn lemma_meta_read_after_write<T>(meta: Seq<(i32, T)>, key: i32, data: T, other: i32)
    ensures
        meta_lookup(meta.push((key, data)), key) == Some(data),
        other != key ==> meta_lookup(meta.push((key, data)), other) == meta_lookup(meta, other),
{
    assert(meta.push((key, data)).drop_last() == meta);
}

} // verus!
