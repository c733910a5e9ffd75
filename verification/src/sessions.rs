use std::collections::HashMap;
use vstd::prelude::*;
use vstd::string::StringExecFns;

verus! {

broadcast use vstd::std_specs::hash::group_hash_axioms;

/// The table of live task subscriptions: for each agent UUID, the
/// registration id of its current connection and that connection's sender.
pub struct SessionTable<S> {
    peers: HashMap<u128, (u128, S)>,
}

/// The table after a connection of `agent` with registration `reg_id`
/// ends: its entry goes only when it still belongs to that registration.
pub open spec fn after_removal<S>(m: Map<u128, (u128, S)>, agent: u128, reg_id: u128) -> Map<u128, (u128, S)> {
    if m.contains_key(agent) && m[agent].0 == reg_id {
        m.remove(agent)
    } else {
        m
    }
}

/// The message of the error for an agent without a live connection.
pub open spec fn uuid_not_found_message() -> Seq<char> {
    "Uuid not found"@
}

impl<S> View for SessionTable<S> {
    type V = Map<u128, (u128, S)>;

    closed spec fn view(&self) -> Map<u128, (u128, S)> {
        self.peers@
    }
}

impl<S> SessionTable<S> {
    /// An empty table.
    pub fn new() -> (r: Self)
        ensures
            r@ == Map::<u128, (u128, S)>::empty(),
    {
        SessionTable { peers: HashMap::new() }
    }

    /// Registers the connection `reg_id` of `agent`, replacing any earlier one.
    pub fn add_session(&mut self, agent: u128, reg_id: u128, sender: S)
        ensures
            final(self)@ == old(self)@.insert(agent, (reg_id, sender)),
    {
        self.peers.insert(agent, (reg_id, sender));
    }

    /// Forgets the connection `reg_id` of `agent`, unless a newer connection
    /// has replaced it since.
    pub fn remove_session(&mut self, agent: u128, reg_id: u128)
        ensures
            final(self)@ == after_removal(old(self)@, agent, reg_id),
    {
        let current = match self.peers.get(&agent) {
            Some(entry) => Some(entry.0),
            None => None,
        };
        if let Some(current_reg_id) = current {
            if current_reg_id == reg_id {
                self.peers.remove(&agent);
            }
        }
    }

    /// The sender of `agent`'s live connection, or the error code 103 with
    /// its message when the agent has none.
    pub fn sender_for(&self, agent: u128) -> (r: Result<&S, (u32, String)>)
        ensures
            match r {
                Ok(s) => self@.contains_key(agent) && *s == self@[agent].1,
                Err((code, msg)) => !self@.contains_key(agent) && code == 103 && msg@ == uuid_not_found_message(),
            },
    {
        match self.peers.get(&agent) {
            Some(entry) => Ok(&entry.1),
            None => Err((103, String::from_str("Uuid not found"))),
        }
    }
}

/// When a connection ends after a newer one of the same agent has
/// registered, the newer one stays in the table.
pub proof fn lemma_stale_removal_keeps_newer<S>(m: Map<u128, (u128, S)>, agent: u128, newer: u128, stale: u128, sender: S)
    requires
        newer != stale,
    ensures
        after_removal(m.insert(agent, (newer, sender)), agent, stale) == m.insert(agent, (newer, sender)),
{
}

/// When the current connection of an agent ends, the agent leaves the table
/// and every other agent keeps its entry.
pub proof fn lemma_current_removal_forgets_agent<S>(m: Map<u128, (u128, S)>, agent: u128, reg_id: u128, sender: S)
    ensures
        after_removal(m.insert(agent, (reg_id, sender)), agent, reg_id) == m.remove(agent),
{
    assert(m.insert(agent, (reg_id, sender)).remove(agent) =~= m.remove(agent));
}

/// After an agent registers, its sender is the one it registered with,
/// whatever was registered for it before.
pub proof fn lemma_lookup_after_add<S>(m: Map<u128, (u128, S)>, agent: u128, reg_id: u128, sender: S)
    ensures
        m.insert(agent, (reg_id, sender)).contains_key(agent),
        m.insert(agent, (reg_id, sender))[agent].1 == sender,
{
}

} // verus!
