//! The topic registry owned by the node's event loop: a mapping from topic
//! name to the subscriber binding for that topic. Registering a second
//! binding for the same topic silently replaces the first ("last
//! registration wins"), and no entry is ever removed, since the transport
//! core has no unregister primitive.

use vstd::prelude::*;

verus! {

/// What the event loop hands a message to: the subscriber's opaque handle
/// and its callback, both as plain tokens whose meaning belongs to the
/// caller that registered them.
#[derive(Clone, Copy, Debug, PartialEq, Eq, Structural)]
pub struct SubscriberBinding {
    pub handle: usize,
    pub callback: usize,
}

/// The mathematical content of a list of registry entries: later entries
/// overwrite earlier ones with the same key.
spec fn map_of(es: Seq<(String, SubscriberBinding)>) -> Map<Seq<char>, SubscriberBinding>
    decreases es.len(),
{
    if es.len() == 0 {
        Map::empty()
    } else {
        map_of(es.drop_last()).insert(es.last().0@, es.last().1)
    }
}

proof fn lemma_map_of_contains(es: Seq<(String, SubscriberBinding)>, k: Seq<char>)
    ensures
        map_of(es).contains_key(k) <==> exists|i: int| 0 <= i < es.len() && es[i].0@ == k,
    decreases es.len(),
{
    if es.len() > 0 {
        lemma_map_of_contains(es.drop_last(), k);
        if map_of(es).contains_key(k) {
            if es.last().0@ == k {
                assert(es[es.len() - 1].0@ == k);
            }
        }
        if exists|i: int| 0 <= i < es.len() && es[i].0@ == k {
            let i = choose|i: int| 0 <= i < es.len() && es[i].0@ == k;
            if i < es.len() - 1 {
                assert(es.drop_last()[i].0@ == k);
            }
        }
    }
}

proof fn lemma_map_of_get(es: Seq<(String, SubscriberBinding)>, i: int)
    requires
        0 <= i < es.len(),
        forall|j: int| i < j < es.len() ==> es[j].0@ != es[i].0@,
    ensures
        map_of(es).contains_key(es[i].0@),
        map_of(es)[es[i].0@] == es[i].1,
    decreases es.len(),
{
    if i == es.len() - 1 {
    } else {
        assert(forall|j: int|
            i < j < es.drop_last().len() ==> es.drop_last()[j].0@ != es.drop_last()[i].0@);
        lemma_map_of_get(es.drop_last(), i);
    }
}

proof fn lemma_map_of_update(
    es: Seq<(String, SubscriberBinding)>,
    i: int,
    e: (String, SubscriberBinding),
)
    requires
        0 <= i < es.len(),
        es[i].0@ == e.0@,
        forall|j: int| i < j < es.len() ==> es[j].0@ != es[i].0@,
    ensures
        map_of(es.update(i, e)) == map_of(es).insert(e.0@, e.1),
    decreases es.len(),
{
    let up = es.update(i, e);
    if i == es.len() - 1 {
        assert(up.drop_last() =~= es.drop_last());
        assert(map_of(up) =~= map_of(es).insert(e.0@, e.1));
    } else {
        assert(up.drop_last() =~= es.drop_last().update(i, e));
        assert(forall|j: int|
            i < j < es.drop_last().len() ==> es.drop_last()[j].0@ != es.drop_last()[i].0@);
        lemma_map_of_update(es.drop_last(), i, e);
        assert(up.last() == es.last());
        assert(es.last().0@ != e.0@);
        assert(map_of(up) =~= map_of(es).insert(e.0@, e.1));
    }
}

/// The registry: topic name to subscriber binding, last registration wins.
pub struct TopicRegistry {
    entries: Vec<(String, SubscriberBinding)>,
}

impl TopicRegistry {
    /// The mapping the registry represents.
    pub closed spec fn as_map(&self) -> Map<Seq<char>, SubscriberBinding> {
        map_of(self.entries@)
    }

    /// Entries hold pairwise-distinct topic names.
    pub closed spec fn wf(&self) -> bool {
        forall|i: int, j: int|
            0 <= i < j < self.entries@.len() ==> self.entries@[i].0@ != self.entries@[j].0@
    }

    /// Creates an empty registry.
    pub fn new() -> (r: TopicRegistry)
        ensures
            r.wf(),
            r.as_map() == Map::<Seq<char>, SubscriberBinding>::empty(),
    {
        TopicRegistry { entries: Vec::new() }
    }

    /// Number of topics with a binding.
    pub fn len(&self) -> (n: usize)
        requires
            self.wf(),
        ensures
            n == self.as_map().dom().len(),
    {
        proof {
            Self::lemma_unique_card(self.entries@);
        }
        self.entries.len()
    }

    proof fn lemma_unique_card(es: Seq<(String, SubscriberBinding)>)
        requires
            forall|i: int, j: int| 0 <= i < j < es.len() ==> es[i].0@ != es[j].0@,
        ensures
            map_of(es).dom().finite(),
            map_of(es).dom().len() == es.len(),
        decreases es.len(),
    {
        if es.len() > 0 {
            Self::lemma_unique_card(es.drop_last());
            lemma_map_of_contains(es.drop_last(), es.last().0@);
            assert(!map_of(es.drop_last()).contains_key(es.last().0@));
            assert(map_of(es).dom() =~= map_of(es.drop_last()).dom().insert(es.last().0@));
            vstd::set::axiom_set_insert_len(map_of(es.drop_last()).dom(), es.last().0@);
        }
    }

    /// Looks a topic up, yielding its current binding if one was registered.
    pub fn lookup(&self, topic: &String) -> (r: Option<SubscriberBinding>)
        requires
            self.wf(),
        ensures
            match r {
                Some(b) => self.as_map().contains_key(topic@) && self.as_map()[topic@] == b,
                None => !self.as_map().contains_key(topic@),
            },
    {
        let n = self.entries.len();
        let mut i: usize = 0;
        while i < n
            invariant
                i <= n,
                n == self.entries@.len(),
                self.wf(),
                forall|j: int| 0 <= j < i ==> self.entries@[j].0@ != topic@,
            decreases n - i,
        {
            if self.entries[i].0 == *topic {
                proof {
                    lemma_map_of_get(self.entries@, i as int);
                }
                return Some(self.entries[i].1);
            }
            i = i + 1;
        }
        proof {
            lemma_map_of_contains(self.entries@, topic@);
        }
        None
    }

    /// Registers `binding` for `topic`, replacing any earlier binding for
    /// the same topic.
    pub fn insert(&mut self, topic: String, binding: SubscriberBinding)
        requires
            old(self).wf(),
        ensures
            final(self).wf(),
            final(self).as_map() == old(self).as_map().insert(topic@, binding),
    {
        let n = self.entries.len();
        let mut i: usize = 0;
        while i < n
            invariant
                i <= n,
                n == self.entries@.len(),
                self.wf(),
                self.entries@ == old(self).entries@,
                forall|j: int| 0 <= j < i ==> self.entries@[j].0@ != topic@,
            decreases n - i,
        {
            if self.entries[i].0 == *&topic {
                proof {
                    lemma_map_of_update(self.entries@, i as int, (topic, binding));
                }
                self.entries.set(i, (topic, binding));
                return ;
            }
            i = i + 1;
        }
        proof {
            lemma_map_of_contains(self.entries@, topic@);
            assert(self.entries@.push((topic, binding)).drop_last() =~= self.entries@);
        }
        self.entries.push((topic, binding));
    }
}

} // verus!
