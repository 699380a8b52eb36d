//! The shared object-availability queue and its selection policies.
//!
//! The queue is a bounded registry of identifiers for objects known to exist
//! on the target. Writers register freshly written keys, readers sample keys
//! without removing them, and deleters take keys out. When the queue is at
//! capacity an insertion evicts the longest-resident entry (or a random one
//! under the random policy) so the registry stays a rolling window.

use vstd::prelude::*;

use crate::utils::streq;

verus! {

/// Operating modes that the queue supports.
///
/// - `Lru`: sampling and taking target the longest-resident entry.
/// - `Mru`: sampling and taking target the most recently inserted entry,
///   while eviction still removes the longest-resident one, preserving a
///   rolling window.
/// - `Rand`: eviction, sampling and taking each draw an index uniformly.
#[derive(Clone, Copy, Debug, PartialEq, Eq, Structural)]
pub enum QueueMode {
    Lru,
    Mru,
    Rand,
}

/// The error returned when a queue-mode token is not recognized.
#[derive(Debug, PartialEq, Eq, Structural)]
pub struct QueueModeError;

impl QueueMode {
    /// Selects a queue mode from its lowercase command-line token.
    pub fn from_str(s: &str) -> (r: Result<QueueMode, QueueModeError>)
        ensures
            s@ == "lru"@ ==> r == Ok::<QueueMode, QueueModeError>(QueueMode::Lru),
            s@ == "mru"@ ==> r == Ok::<QueueMode, QueueModeError>(QueueMode::Mru),
            s@ == "rand"@ ==> r == Ok::<QueueMode, QueueModeError>(QueueMode::Rand),
            s@ != "lru"@ && s@ != "mru"@ && s@ != "rand"@ ==> r == Err::<QueueMode, QueueModeError>(QueueModeError),
    {
        proof {
            reveal_strlit("lru");
            reveal_strlit("mru");
            reveal_strlit("rand");
            assert("lru"@[0] == 'l');
            assert("mru"@[0] == 'm');
            assert("rand"@.len() == 4);
            assert("lru"@ != "mru"@);
            assert("lru"@ != "rand"@);
            assert("mru"@ != "rand"@);
        }
        if streq(s, "lru") {
            Ok(QueueMode::Lru)
        } else if streq(s, "mru") {
            Ok(QueueMode::Mru)
        } else if streq(s, "rand") {
            Ok(QueueMode::Rand)
        } else {
            Err(QueueModeError)
        }
    }

    /// The lowercase token of this mode, the inverse of `from_str`.
    pub fn label(&self) -> (s: &'static str)
        ensures
            *self == QueueMode::Lru ==> s@ == "lru"@,
            *self == QueueMode::Mru ==> s@ == "mru"@,
            *self == QueueMode::Rand ==> s@ == "rand"@,
    {
        match self {
            QueueMode::Lru => "lru",
            QueueMode::Mru => "mru",
            QueueMode::Rand => "rand",
        }
    }
}

/// One queue entry: the opaque key of a stored object.
#[derive(Debug)]
pub struct QueueItem {
    pub obj: String,
}

/// The queue's insert rule, as a relation between the registry before and
/// after one key arrives: appended below capacity; past it, the policy's
/// eviction (the longest-resident entry, or any one entry under the random
/// policy) happens first; with a capacity of zero the key is dropped.
pub open spec fn insert_step(
    pre: Seq<Seq<char>>,
    post: Seq<Seq<char>>,
    k: Seq<char>,
    cap: usize,
    policy: QueueMode,
) -> bool {
    if pre.len() < cap {
        post == pre.push(k)
    } else if cap == 0 {
        post == pre
    } else if policy == QueueMode::Lru || policy == QueueMode::Mru {
        post == pre.subrange(1, pre.len() as int).push(k)
    } else {
        exists|i: int| 0 <= i < pre.len() && post == pre.remove(i).push(k)
    }
}

/// The composition of the insert rule over a whole key list: `post` is what
/// some run of `insert_step` per key, in order, can turn `pre` into.
pub open spec fn populated(
    pre: Seq<Seq<char>>,
    post: Seq<Seq<char>>,
    keys: Seq<Seq<char>>,
    cap: usize,
    policy: QueueMode,
) -> bool
    decreases keys.len(),
{
    if keys.len() == 0 {
        post == pre
    } else {
        exists|mid: Seq<Seq<char>>|
            insert_step(pre, mid, keys[0], cap, policy) && populated(
                mid,
                post,
                keys.skip(1),
                cap,
                policy,
            )
    }
}

/// Extending a run of inserts by one more key.
pub proof fn lemma_populated_snoc(
    pre: Seq<Seq<char>>,
    mid: Seq<Seq<char>>,
    post: Seq<Seq<char>>,
    keys: Seq<Seq<char>>,
    k: Seq<char>,
    cap: usize,
    policy: QueueMode,
)
    requires
        populated(pre, mid, keys, cap, policy),
        insert_step(mid, post, k, cap, policy),
    ensures
        populated(pre, post, keys.push(k), cap, policy),
    decreases keys.len(),
{
    if keys.len() == 0 {
        assert(mid == pre);
        assert(keys.push(k)[0] == k);
        assert(keys.push(k).skip(1) =~~= Seq::<Seq<char>>::empty());
        assert(populated(post, post, keys.push(k).skip(1), cap, policy));
        assert(insert_step(pre, post, k, cap, policy));
        assert(populated(pre, post, keys.push(k), cap, policy));
    } else {
        let m0 = choose|m0: Seq<Seq<char>>|
            insert_step(pre, m0, keys[0], cap, policy) && populated(
                m0,
                mid,
                keys.skip(1),
                cap,
                policy,
            );
        lemma_populated_snoc(m0, mid, post, keys.skip(1), k, cap, policy);
        assert(keys.push(k)[0] == keys[0]);
        assert(keys.push(k).skip(1) =~~= keys.skip(1).push(k));
        assert(insert_step(pre, m0, keys.push(k)[0], cap, policy));
        assert(populated(m0, post, keys.push(k).skip(1), cap, policy));
        assert(populated(pre, post, keys.push(k), cap, policy));
    }
}

/// A bounded registry of object keys with a selection policy.
///
/// The abstract value of a queue is the sequence of its keys in insertion
/// order, oldest first; `wf()` states the capacity invariant that every
/// mutation preserves.
pub struct Queue {
    items: Vec<QueueItem>,
    cap: usize,
    mode: QueueMode,
}

impl View for Queue {
    type V = Seq<Seq<char>>;

    closed spec fn view(&self) -> Seq<Seq<char>> {
        self.items@.map_values(|qi: QueueItem| qi.obj@)
    }
}

impl Queue {
    /// The configured capacity bound.
    pub closed spec fn capacity(&self) -> usize {
        self.cap
    }

    /// The configured selection policy.
    pub closed spec fn policy(&self) -> QueueMode {
        self.mode
    }

    /// The capacity invariant: the queue never holds more keys than its bound.
    pub open spec fn wf(&self) -> bool {
        self@.len() <= self.capacity()
    }

    pub fn new(mode: QueueMode, cap: usize) -> (q: Queue)
        ensures
            q@ == Seq::<Seq<char>>::empty(),
            q.capacity() == cap,
            q.policy() == mode,
            q.wf(),
    {
        let q = Queue { items: Vec::with_capacity(cap), cap, mode };
        proof {
            assert(q@ =~= Seq::<Seq<char>>::empty());
        }
        q
    }

    /// The number of keys currently registered.
    pub fn len(&self) -> (n: usize)
        ensures
            n == self@.len(),
    {
        self.items.len()
    }

    /// Inserts an item into the queue, evicting one entry first if the queue
    /// has hit its capacity. With a capacity of zero the key is dropped, so
    /// the capacity invariant holds for every configuration.
    pub fn insert(&mut self, qi: QueueItem)
        requires
            old(self).wf(),
        ensures
            final(self).wf(),
            final(self).capacity() == old(self).capacity(),
            final(self).policy() == old(self).policy(),
            old(self)@.len() < old(self).capacity() ==> final(self)@ == old(self)@.push(qi.obj@),
            old(self)@.len() >= old(self).capacity() && old(self).capacity() > 0 ==> {
                &&& (old(self).policy() == QueueMode::Lru || old(self).policy() == QueueMode::Mru)
                    ==> final(self)@ == old(self)@.subrange(1, old(self)@.len() as int).push(qi.obj@)
                &&& old(self).policy() == QueueMode::Rand ==> exists|i: int|
                    0 <= i < old(self)@.len() && final(self)@ == old(self)@.remove(i).push(qi.obj@)
            },
            old(self).capacity() == 0 ==> final(self)@ == old(self)@,
            insert_step(old(self)@, final(self)@, qi.obj@, old(self).capacity(), old(self).policy()),
    {
        let ghost pre = self@;
        if self.items.len() < self.cap {
            self.items.push(qi);
            proof {
                assert(self@ =~= pre.push(qi.obj@));
            }
            return;
        }
        if self.cap == 0 {
            return;
        }
        self.evict();
        let ghost mid = self@;
        self.items.push(qi);
        proof {
            assert(self@ =~= mid.push(qi.obj@));
        }
    }

    /// Removes the entry the policy chooses for eviction: the longest-resident
    /// one, or a random one under the random policy.
    fn evict(&mut self)
        requires
            old(self)@.len() > 0,
        ensures
            final(self).capacity() == old(self).capacity(),
            final(self).policy() == old(self).policy(),
            final(self)@.len() == old(self)@.len() - 1,
            (old(self).policy() == QueueMode::Lru || old(self).policy() == QueueMode::Mru)
                ==> final(self)@ == old(self)@.subrange(1, old(self)@.len() as int),
            old(self).policy() == QueueMode::Rand ==> exists|i: int|
                0 <= i < old(self)@.len() && final(self)@ == old(self)@.remove(i),
    {
        let ghost pre = self@;
        match self.mode {
            QueueMode::Lru | QueueMode::Mru => {
                self.items.remove(0);
                proof {
                    assert(self@ =~= pre.subrange(1, pre.len() as int));
                }
            },
            QueueMode::Rand => {
                let i = rand_index(self.items.len());
                self.items.remove(i);
                proof {
                    assert(self@ =~= pre.remove(i as int));
                }
            },
        }
    }

    /// Returns a copy of an entry without removing it, or `None` when the
    /// queue is empty. Under `Lru` the longest-resident entry is sampled,
    /// under `Mru` the most recently inserted one, under `Rand` a uniformly
    /// random one. The queue itself is never changed.
    pub fn get(&mut self) -> (r: Option<QueueItem>)
        requires
            old(self).wf(),
        ensures
            *final(self) == *old(self),
            r is Some <==> old(self)@.len() > 0,
            r matches Some(qi) ==> {
                &&& old(self).policy() == QueueMode::Lru ==> qi.obj@ == old(self)@[0]
                &&& old(self).policy() == QueueMode::Mru ==> qi.obj@ == old(self)@.last()
                &&& old(self)@.contains(qi.obj@)
            },
    {
        if self.items.is_empty() {
            return None;
        }
        let i: usize = match self.mode {
            QueueMode::Lru => 0,
            QueueMode::Mru => self.items.len() - 1,
            QueueMode::Rand => rand_index(self.items.len()),
        };
        let obj = self.items[i].obj.clone();
        let ghost v = obj@;
        proof {
            assert(self@[i as int] == v);
            assert(self@.contains(v));
        }
        Some(QueueItem { obj })
    }

    /// Removes and returns the entry the policy chooses, or `None` when the
    /// queue is empty. Under `Lru` the longest-resident entry is taken, under
    /// `Mru` the most recently inserted one, under `Rand` a uniformly random
    /// one.
    pub fn remove(&mut self) -> (r: Option<QueueItem>)
        requires
            old(self).wf(),
        ensures
            final(self).wf(),
            final(self).capacity() == old(self).capacity(),
            final(self).policy() == old(self).policy(),
            r is Some <==> old(self)@.len() > 0,
            r is None ==> *final(self) == *old(self),
            r matches Some(qi) ==> {
                &&& old(self).policy() == QueueMode::Lru ==> qi.obj@ == old(self)@[0]
                    && final(self)@ == old(self)@.subrange(1, old(self)@.len() as int)
                &&& old(self).policy() == QueueMode::Mru ==> qi.obj@ == old(self)@.last()
                    && final(self)@ == old(self)@.drop_last()
                &&& exists|i: int|
                    0 <= i < old(self)@.len() && qi.obj@ == old(self)@[i]
                        && final(self)@ == old(self)@.remove(i)
            },
    {
        if self.items.is_empty() {
            return None;
        }
        let ghost pre = self@;
        let i: usize = match self.mode {
            QueueMode::Lru => 0,
            QueueMode::Mru => self.items.len() - 1,
            QueueMode::Rand => rand_index(self.items.len()),
        };
        let qi = self.items.remove(i);
        proof {
            assert(self@ =~= pre.remove(i as int));
            assert(qi.obj@ == pre[i as int]);
            if self.policy() == QueueMode::Lru {
                assert(self@ =~= pre.subrange(1, pre.len() as int));
            }
            if self.policy() == QueueMode::Mru {
                assert(self@ =~= pre.drop_last());
            }
        }
        Some(qi)
    }
}

/// Relies on `rand::Rng::gen_range` over `0..n`: the drawn index is always
/// strictly below `n`.
#[verifier::external_body]
pub(crate) fn rand_index(n: usize) -> (i: usize)
    requires
        n > 0,
    ensures
        i < n,
{
    rand::Rng::gen_range(&mut rand::thread_rng(), 0..n)
}

} // verus!
