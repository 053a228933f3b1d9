//! Which agents are connected right now.

use std::collections::HashMap;
use vstd::prelude::*;

verus! {

/// The identity under which a connected agent is known.
pub type ServerId = u64;

/// The agents that are connected at this moment, each with the live link over
/// which commands reach it. `L` is whatever the transport hands out for one
/// open connection; the registry stores it and gives it back, nothing more.
///
/// Its view is the map from agent identity to link.
pub struct Registry<L> {
    links: HashMap<ServerId, L>,
}

impl<L> View for Registry<L> {
    type V = Map<ServerId, L>;

    closed spec fn view(&self) -> Map<ServerId, L> {
        self.links@
    }
}

impl<L> Registry<L> {
    /// A registry with no agent connected.
    pub fn new() -> (registry: Self)
        ensures
            registry@ == Map::<ServerId, L>::empty(),
    {
        Registry { links: HashMap::new() }
    }

    /// Records `link` as the live connection of `agent_id`. A link that was
    /// there before is replaced: the last connection wins.
    pub fn register(&mut self, agent_id: ServerId, link: L)
        ensures
            final(self)@ == old(self)@.insert(agent_id, link),
    {
        self.links.insert(agent_id, link);
    }

    /// Forgets the connection of `agent_id`. Nothing happens where there is none.
    pub fn unregister(&mut self, agent_id: ServerId)
        ensures
            final(self)@ == old(self)@.remove(agent_id),
    {
        self.links.remove(&agent_id);
    }

    /// Whether `agent_id` is connected.
    pub fn is_online(&self, agent_id: ServerId) -> (online: bool)
        ensures
            online == self@.contains_key(agent_id),
    {
        self.links.contains_key(&agent_id)
    }

    /// The link of `agent_id` if it is connected. Presence and link come from
    /// one look at the registry, so no disconnect can fall between the two.
    pub fn get(&self, agent_id: ServerId) -> (link: Option<&L>)
        ensures
            link.is_some() == self@.contains_key(agent_id),
            link matches Some(l) ==> *l == self@[agent_id],
    {
        self.links.get(&agent_id)
    }

    /// How many agents are connected.
    pub fn len(&self) -> (n: usize)
        ensures
            n == self@.len(),
    {
        self.links.len()
    }
}

/// Unregistering twice is the same as unregistering once.
pub proof fn lemma_unregister_idempotent<L>(links: Map<ServerId, L>, agent_id: ServerId)
    ensures
        links.remove(agent_id).remove(agent_id) == links.remove(agent_id),
        !links.remove(agent_id).contains_key(agent_id),
{
    assert(links.remove(agent_id).remove(agent_id) =~= links.remove(agent_id));
}

/// After `register`, a lookup of the same agent finds the link that was given,
/// and every other agent is as it was.
pub proof fn lemma_register_then_get<L>(links: Map<ServerId, L>, agent_id: ServerId, link: L)
    ensures
        links.insert(agent_id, link).contains_key(agent_id),
        links.insert(agent_id, link)[agent_id] == link,
        forall|other: ServerId|
            other != agent_id ==> {
                &&& #[trigger] links.insert(agent_id, link).contains_key(other)
                    == links.contains_key(other)
                &&& links.contains_key(other) ==> links.insert(agent_id, link)[other]
                    == links[other]
            },
{
}

} // verus!
