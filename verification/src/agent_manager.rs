//! The set of configured agents and which of them is active.
use crate::assoc::{
    assoc_find, assoc_get, assoc_insert, assoc_keys, assoc_map, assoc_remove, distinct_keys,
    lemma_assoc_dom, lemma_assoc_push, lemma_assoc_value, lemma_assoc_update, sorted_keys, strictly_sorted,
};
use crate::config::AgentConfig;
use crate::error::MentalOSError;
use crate::text::{contains_text, 
    chars_of, eq_ignore_case, has_prefix, opt_text, str_eq, str_eq_ignore_case, string_of,
};
use std::path::PathBuf;
use vstd::prelude::*;
use vstd::string::*;

verus! {

/// Status of one agent.
#[derive(Debug, Clone, Copy, PartialEq, Eq, Structural)]
pub enum AgentStatus {
    Active,
    Available,
    Unavailable,
    NotFound,
}

/// Whether the agent names an executable and that executable's name contains
/// "default".
pub open spec fn marks_default(c: AgentConfig) -> bool {
    c.executable matches Some(e) && contains_text(e@, "default"@)
}

/// The active agent after scanning `entries` in order from `cur`: an agent with
/// an executable takes over when its executable contains "default" or when
/// no agent is active.
pub open spec fn scan_active(entries: Seq<(String, AgentConfig)>, cur: Seq<char>) -> Seq<char>
    decreases entries.len(),
{
    if entries.len() == 0 {
        cur
    } else {
        let prev = scan_active(entries.drop_last(), cur);
        let e = entries.last();
        if e.1.executable is Some && (marks_default(e.1) || prev.len() == 0) {
            e.0@
        } else {
            prev
        }
    }
}

/// The agent that a scan makes active, when some agent with an executable
/// marks itself "default": one such agent.
proof fn lemma_scan_picks_default(e: Seq<(String, AgentConfig)>, cur: Seq<char>)
    requires
        forall|i: int| 0 <= i < e.len() ==> (#[trigger] e[i]).0@.len() > 0,
    ensures
        (exists|i: int| 0 <= i < e.len() && #[trigger] marks_default(e[i].1)) ==> exists|j: int|
            0 <= j < e.len() && scan_active(e, cur) == e[j].0@ && #[trigger] marks_default(e[j].1),
        (forall|i: int| 0 <= i < e.len() ==> !#[trigger] marks_default(e[i].1)) && cur.len() > 0 ==> scan_active(
            e,
            cur,
        ) == cur,
    decreases e.len(),
{
    if e.len() > 0 {
        let init = e.drop_last();
        assert forall|i: int| 0 <= i < init.len() implies (#[trigger] init[i]).0@.len() > 0 by {
            assert(init[i] == e[i]);
        }
        lemma_scan_picks_default(init, cur);
        let last = e.len() - 1;
        assert(e.last() == e[last]);
        if marks_default(e[last].1) {
            assert(scan_active(e, cur) == e[last].0@);
        }
        if exists|i: int| 0 <= i < e.len() && #[trigger] marks_default(e[i].1) {
            if !marks_default(e[last].1) {
                let i = choose|i: int| 0 <= i < e.len() && #[trigger] marks_default(e[i].1);
                assert(i < last);
                assert(init[i] == e[i]);
                assert(exists|i: int| 0 <= i < init.len() && #[trigger] marks_default(init[i].1));
                let j = choose|j: int| 0 <= j < init.len() && scan_active(init, cur) == init[j].0@ && #[trigger] marks_default(init[j].1);
                assert(init[j] == e[j]);
            }
        }
        if (forall|i: int| 0 <= i < e.len() ==> !#[trigger] marks_default(e[i].1)) && cur.len() > 0 {
            assert forall|i: int| 0 <= i < init.len() implies !#[trigger] marks_default(init[i].1) by {
                assert(init[i] == e[i]);
            }
            assert(!marks_default(e[last].1));
        }
    }
}

/// Loading agents keeps exactly the names given (a later pair with a name
/// replaces an earlier one, and agents loaded before are dropped); the
/// active agent is then one whose executable says "default" when some agent
/// says so, and otherwise the agent active before (when one was). No name
/// may be empty: an agent named "" would count as no agent active.
pub proof fn law_loading_agents(input: Seq<(String, AgentConfig)>, before: Seq<char>)
    requires
        forall|i: int| 0 <= i < input.len() ==> (#[trigger] input[i]).0@.len() > 0,
    ensures
        forall|x: Seq<char>|
            #[trigger] assoc_map(input).dom().contains(x) <==> exists|i: int| 0 <= i < input.len() && input[i].0@ == x,
        (exists|i: int| 0 <= i < loaded(input).len() && #[trigger] marks_default(loaded(input)[i].1)) ==> exists|j: int|
            0 <= j < loaded(input).len() && scan_active(loaded(input), before) == loaded(input)[j].0@
                && #[trigger] marks_default(loaded(input)[j].1),
        (forall|i: int| 0 <= i < loaded(input).len() ==> !#[trigger] marks_default(loaded(input)[i].1)) && before.len()
            > 0 ==> scan_active(loaded(input), before) == before,
        (exists|k: Seq<char>| assoc_map(input).dom().contains(k) && #[trigger] marks_default(assoc_map(input)[k])) ==> {
            let active = scan_active(loaded(input), before);
            &&& assoc_map(input).dom().contains(active)
            &&& marks_default(assoc_map(input)[active])
        },
{
    assert forall|x: Seq<char>|
        #[trigger] assoc_map(input).dom().contains(x) <==> exists|i: int| 0 <= i < input.len() && input[i].0@ == x by {
        lemma_assoc_dom(input, x);
    }
    lemma_loaded_from_input(input);
    lemma_scan_picks_default(loaded(input), before);
    lemma_loaded_map(input);
    let e = loaded(input);
    if exists|k: Seq<char>| assoc_map(input).dom().contains(k) && #[trigger] marks_default(assoc_map(input)[k]) {
        let k = choose|k: Seq<char>| assoc_map(input).dom().contains(k) && #[trigger] marks_default(assoc_map(input)[k]);
        lemma_assoc_dom(e, k);
        let m = choose|m: int| 0 <= m < e.len() && e[m].0@ == k;
        lemma_assoc_value(e, m);
        assert(marks_default(e[m].1));
        let j = choose|j: int| 0 <= j < e.len() && scan_active(e, before) == e[j].0@ && #[trigger] marks_default(e[j].1);
        lemma_assoc_value(e, j);
    }
}

/// The loaded pairs have distinct names and describe the same agents as the
/// pairs given.
proof fn lemma_loaded_map(input: Seq<(String, AgentConfig)>)
    ensures
        distinct_keys(loaded(input)),
        assoc_map(loaded(input)) == assoc_map(input),
    decreases input.len(),
{
    if input.len() > 0 {
        let init = input.drop_last();
        lemma_loaded_map(init);
        let prev = loaded(init);
        let e = input.last();
        match first_key(prev, e.0@) {
            Some(i) => {
                lemma_assoc_update(prev, i, e);
            },
            None => {
                lemma_assoc_dom(prev, e.0@);
                lemma_assoc_push(prev, e);
            },
        }
    }
}

/// Every loaded pair is one of the pairs given.
proof fn lemma_loaded_from_input(input: Seq<(String, AgentConfig)>)
    ensures
        forall|i: int| 0 <= i < loaded(input).len() ==> exists|k: int| 0 <= k < input.len() && #[trigger] loaded(input)[i] == input[k],
    decreases input.len(),
{
    if input.len() > 0 {
        let init = input.drop_last();
        lemma_loaded_from_input(init);
        let prev = loaded(init);
        assert forall|i: int| 0 <= i < loaded(input).len() implies exists|k: int|
            0 <= k < input.len() && #[trigger] loaded(input)[i] == input[k] by {
            if loaded(input)[i] == input.last() {
                assert(loaded(input)[i] == input[input.len() - 1]);
            } else {
                assert(i < prev.len() && loaded(input)[i] == prev[i]);
                let k = choose|k: int| 0 <= k < init.len() && prev[i] == init[k];
                assert(input[k] == init[k]);
            }
        }
    }
}

/// The first key, in order, equal to `name` up to ASCII case.
pub open spec fn first_match(keys: Seq<Seq<char>>, name: Seq<char>) -> Option<int>
    decreases keys.len(),
{
    if keys.len() == 0 {
        None
    } else {
        match first_match(keys.drop_last(), name) {
            Some(i) => Some(i),
            None => if eq_ignore_case(keys.last(), name) {
                Some(keys.len() - 1)
            } else {
                None
            },
        }
    }
}

/// The pairs that a list of (name, agent) pairs loads into: one pair per name,
/// the last value given for a name winning, names in order of first mention.
pub open spec fn loaded(input: Seq<(String, AgentConfig)>) -> Seq<(String, AgentConfig)>
    decreases input.len(),
{
    if input.len() == 0 {
        Seq::empty()
    } else {
        let prev = loaded(input.drop_last());
        let e = input.last();
        match first_key(prev, e.0@) {
            Some(i) => prev.update(i, e),
            None => prev.push(e),
        }
    }
}

/// Index of the pair whose key is `k`.
pub open spec fn first_key(v: Seq<(String, AgentConfig)>, k: Seq<char>) -> Option<int> {
    if exists|i: int| 0 <= i < v.len() && v[i].0@ == k {
        Some(choose|i: int| 0 <= i < v.len() && v[i].0@ == k)
    } else {
        None
    }
}

/// Whether an agent can be used, given the executables that were found on
/// the search path: a local agent needs its executable found; any other agent
/// is usable with an endpoint or one of the built-in providers.
pub open spec fn available(c: AgentConfig, found: Seq<Seq<char>>) -> bool {
    match c.executable {
        Some(e) => found.contains(e@),
        None => c.endpoint is Some || c.provider@ == "openclaw"@ || c.provider@ == "ollama"@
            || c.provider@ == "deepseek"@ || c.provider@ == "zen"@,
    }
}

/// The text of a list of strings.
pub open spec fn texts(v: Seq<String>) -> Seq<Seq<char>> {
    v.map_values(|s: String| s@)
}

/// The configured agents and the name of the active one.
pub struct AgentManager {
    agents: Vec<(String, AgentConfig)>,
    active_agent: String,
    _config_dir: PathBuf,
}

impl AgentManager {
    /// Agents by name.
    pub closed spec fn agents(&self) -> Map<Seq<char>, AgentConfig> {
        assoc_map(self.agents@)
    }

    /// The pairs in the order in which they are kept: the order of the
    /// configuration's agent table.
    pub closed spec fn entries(&self) -> Seq<(String, AgentConfig)> {
        self.agents@
    }

    /// The name of the active agent.
    pub closed spec fn active(&self) -> Seq<char> {
        self.active_agent@
    }

    /// No name occurs twice among the entries.
    pub closed spec fn wf(&self) -> bool {
        distinct_keys(self.agents@)
    }

    pub proof fn lemma_entries_map(&self)
        requires
            self.wf(),
        ensures
            self.agents() == assoc_map(self.entries()),
            distinct_keys(self.entries()),
    {
    }

    /// No agents; "openclaw" is active.
    pub fn new(config_dir: PathBuf) -> (m: Self)
        ensures
            m.wf(),
            m.agents() == Map::<Seq<char>, AgentConfig>::empty(),
            m.entries() == Seq::<(String, AgentConfig)>::empty(),
            m.active() == "openclaw"@,
    {
        AgentManager {
            agents: Vec::new(),
            active_agent: String::from_str("openclaw"),
            _config_dir: config_dir,
        }
    }

    /// Replaces the agents, then picks the active one: scanning the agents in
    /// order, one with an executable becomes active when its executable
    /// contains "default" or when no agent is active; "openclaw" if none is.
    pub fn load_agents(&mut self, agents: Vec<(String, AgentConfig)>)
        requires
            old(self).wf(),
        ensures
            final(self).wf(),
            final(self).entries() == loaded(agents@),
            final(self).agents() == assoc_map(agents@),
            final(self).active() == (if scan_active(loaded(agents@), old(self).active()).len()
                == 0 {
                "openclaw"@
            } else {
                scan_active(loaded(agents@), old(self).active())
            }),
    {
        let mut table: Vec<(String, AgentConfig)> = Vec::new();
        let mut input = agents;
        let ghost all = input@;
        let ghost n = all.len();
        let mut rev: Vec<(String, AgentConfig)> = Vec::new();
        // take the pairs out, last first
        while input.len() > 0
            invariant
                n == all.len(),
                input@ == all.subrange(0, input.len() as int),
                rev.len() + input.len() == n,
                forall|j: int| 0 <= j < rev.len() ==> #[trigger] rev@[j] == all[n - 1 - j],
            decreases input.len(),
        {
            let ghost before = input@;
            let e = input.pop().unwrap();
            proof {
                assert(e == all[n - 1 - rev.len()]);
                assert(input@ =~= all.subrange(0, input.len() as int));
            }
            rev.push(e);
        }
        let mut taken: usize = 0;
        while rev.len() > 0
            invariant
                n == all.len(),
                n <= usize::MAX,
                distinct_keys(table@),
                taken + rev.len() == n,
                forall|j: int| 0 <= j < rev.len() ==> #[trigger] rev@[j] == all[n - 1 - j],
                table@ == loaded(all.subrange(0, taken as int)),
                assoc_map(table@) == assoc_map(all.subrange(0, taken as int)),
            decreases rev.len(),
        {
            let e = rev.pop().unwrap();
            proof {
                assert(e == all[taken as int]);
            }
            let ghost prev = table@;
            let ghost key = e.0@;
            let found = assoc_find(&table, e.0.as_str());
            proof {
                lemma_loaded_step(all, taken as int, prev);
            }
            match found {
                Some(i) => {
                    proof {
                        lemma_assoc_update(table@, i as int, e);
                        let j = choose|j: int| 0 <= j < prev.len() && prev[j].0@ == key;
                        assert(j == i);
                    }
                    table.set(i, e);
                },
                None => {
                    proof {
                        lemma_assoc_push(table@, e);
                    }
                    table.push(e);
                },
            }
            taken += 1;
            proof {
                let s = all.subrange(0, taken as int);
                assert(s.drop_last() =~= all.subrange(0, taken - 1));
                assert(s.last() == e);
            }
        }
        proof {
            assert(all.subrange(0, n as int) =~= all);
        }
        self.agents = table;
        let mut i: usize = 0;
        while i < self.agents.len()
            invariant
                0 <= i <= self.agents.len(),
                self.agents@ == loaded(agents@),
                distinct_keys(self.agents@),
                assoc_map(self.agents@) == assoc_map(agents@),
                self.active_agent@ == scan_active(self.agents@.subrange(0, i as int), old(self).active()),
            decreases self.agents.len() - i,
        {
            let ghost before = self.active_agent@;
            if self.agents[i].1.executable.is_some() {
                let is_default = match &self.agents[i].1.executable {
                    Some(e) => contains_default(e.as_str()),
                    None => false,
                };
                if is_default || self.active_agent.as_str().is_empty() {
                    self.active_agent = self.agents[i].0.clone();
                }
            }
            proof {
                let s = self.agents@.subrange(0, i + 1);
                assert(s.drop_last() =~= self.agents@.subrange(0, i as int));
                assert(s.last() == self.agents@[i as int]);
            }
            i += 1;
        }
        proof {
            assert(self.agents@.subrange(0, i as int) =~= self.agents@);
        }
        if self.active_agent.as_str().is_empty() {
            self.active_agent = String::from_str("openclaw");
        }
    }

    /// The names of all agents, sorted.
    pub fn list_agents(&self) -> (names: Vec<String>)
        requires
            self.wf(),
        ensures
            names.len() == self.agents().dom().len(),
            strictly_sorted(texts(names@)),
            forall|x: Seq<char>|
                #[trigger] self.agents().dom().contains(x) <==> texts(names@).contains(x),
    {
        let names = sorted_keys(&self.agents);
        proof {
            assert forall|x: Seq<char>|
                #[trigger] self.agents().dom().contains(x) <==> texts(names@).contains(x) by {
                if self.agents().dom().contains(x) {
                    let i = choose|i: int| 0 <= i < names.len() && names@[i]@ == x;
                    assert(texts(names@)[i] == x);
                }
                if texts(names@).contains(x) {
                    let i = choose|i: int| 0 <= i < texts(names@).len() && texts(names@)[i] == x;
                    assert(names@[i]@ == x);
                }
            }
            lemma_dom_len(self.agents@);
        }
        names
    }

    /// The agent of that name.
    pub fn get_agent(&self, name: &str) -> (r: Option<&AgentConfig>)
        requires
            self.wf(),
        ensures
            r is Some <==> self.agents().dom().contains(name@),
            r matches Some(c) ==> *c == self.agents()[name@],
    {
        assoc_get(&self.agents, name)
    }

    /// The active agent, when it is configured.
    pub fn get_active_agent(&self) -> (r: Option<&AgentConfig>)
        requires
            self.wf(),
        ensures
            r is Some <==> self.agents().dom().contains(self.active()),
            r matches Some(c) ==> *c == self.agents()[self.active()],
    {
        assoc_get(&self.agents, self.active_agent.as_str())
    }

    /// The name of the active agent.
    pub fn get_active_agent_name(&self) -> (r: &str)
        ensures
            r@ == self.active(),
    {
        self.active_agent.as_str()
    }

    /// Makes the first agent whose name equals `name` up to ASCII case the
    /// active one, and says so; an error when there is none.
    pub fn switch_agent(&mut self, name: &str) -> (r: Result<String, MentalOSError>)
        requires
            old(self).wf(),
        ensures
            final(self).wf(),
            final(self).entries() == old(self).entries(),
            match first_match(assoc_keys(old(self).entries()), name@) {
                None => final(self).active() == old(self).active() && (r matches Err(
                    MentalOSError::Other(m),
                ) && m@ == "Agent '"@ + name@ + "' not found"@),
                Some(i) => final(self).active() == old(self).entries()[i].0@ && (r matches Ok(m)
                    && m@ == "Switched to agent: "@ + old(self).entries()[i].1.name@),
            },
    {
        let mut i: usize = 0;
        while i < self.agents.len()
            invariant
                i <= self.agents.len(),
                self.agents@ == old(self).agents@,
                self.active_agent == old(self).active_agent,
                distinct_keys(self.agents@),
                first_match(assoc_keys(self.agents@).subrange(0, i as int), name@) is None,
            decreases self.agents.len() - i,
        {
            let hit = str_eq_ignore_case(self.agents[i].0.as_str(), name);
            proof {
                let ks = assoc_keys(self.agents@).subrange(0, i + 1);
                assert(ks.drop_last() =~= assoc_keys(self.agents@).subrange(0, i as int));
            }
            if hit {
                self.active_agent = self.agents[i].0.clone();
                proof {
                    lemma_first_match_prefix(assoc_keys(self.agents@), name@, i + 1);
                }
                let mut msg = String::from_str("Switched to agent: ");
                msg.append(self.agents[i].1.name.as_str());
                return Ok(msg);
            }
            i += 1;
        }
        proof {
            assert(assoc_keys(self.agents@).subrange(0, i as int) =~= assoc_keys(self.agents@));
        }
        let mut msg = String::from_str("Agent '");
        msg.append(name);
        msg.append("' not found");
        Err(MentalOSError::Other(msg))
    }

    /// Whether the agent can be used; `found` lists the executables that the
    /// search path holds.
    pub fn is_agent_available(&self, name: &str, found: &Vec<String>) -> (b: bool)
        requires
            self.wf(),
        ensures
            b == (self.agents().dom().contains(name@) && available(
                self.agents()[name@],
                texts(found@),
            )),
    {
        match assoc_get(&self.agents, name) {
            None => false,
            Some(config) => {
                match &config.executable {
                    Some(e) => contains_string(found, e.as_str()),
                    None => {
                        config.endpoint.is_some() || str_eq(config.provider.as_str(), "openclaw")
                            || str_eq(config.provider.as_str(), "ollama") || str_eq(
                            config.provider.as_str(),
                            "deepseek",
                        ) || str_eq(config.provider.as_str(), "zen")
                    },
                }
            },
        }
    }

    /// Adds an agent, or replaces the one of that name.
    pub fn add_agent(&mut self, name: String, config: AgentConfig)
        requires
            old(self).wf(),
        ensures
            final(self).wf(),
            final(self).agents() == old(self).agents().insert(name@, config),
            final(self).active() == old(self).active(),
    {
        assoc_insert(&mut self.agents, name, config);
    }

    /// Removes an agent unless it is the active one; says whether one was
    /// removed.
    pub fn remove_agent(&mut self, name: &str) -> (removed: bool)
        requires
            old(self).wf(),
        ensures
            final(self).wf(),
            final(self).active() == old(self).active(),
            name@ == old(self).active() ==> !removed && final(self).agents() == old(self).agents(),
            name@ != old(self).active() ==> removed == old(self).agents().dom().contains(name@)
                && final(self).agents() == old(self).agents().remove(name@),
    {
        if str_eq(name, self.active_agent.as_str()) {
            return false;
        }
        assoc_remove(&mut self.agents, name)
    }

    /// NotFound for an unknown name; Unavailable when it cannot be used
    /// (`found` lists the executables that the search path holds); otherwise
    /// Active for the active agent and Available for the others.
    pub fn get_agent_status(&self, name: &str, found: &Vec<String>) -> (s: AgentStatus)
        requires
            self.wf(),
        ensures
            s == status_of(self.agents(), self.active(), name@, texts(found@)),
    {
        if assoc_find(&self.agents, name).is_none() {
            return AgentStatus::NotFound;
        }
        if !self.is_agent_available(name, found) {
            return AgentStatus::Unavailable;
        }
        if str_eq(name, self.active_agent.as_str()) {
            AgentStatus::Active
        } else {
            AgentStatus::Available
        }
    }

    /// Row `j` of the status table: the `j`-th agent's name and status.
    pub open spec fn status_row(&self, found: Seq<Seq<char>>, j: int, row: (String, AgentStatus)) -> bool {
        &&& row.0@ == self.entries()[j].0@
        &&& row.1 == status_of(self.agents(), self.active(), self.entries()[j].0@, found)
    }

    /// The status of every agent, in the order in which they are kept.
    pub fn get_all_statuses(&self, found: &Vec<String>) -> (r: Vec<(String, AgentStatus)>)
        requires
            self.wf(),
        ensures
            r.len() == self.entries().len(),
            forall|j: int| 0 <= j < r.len() ==> self.status_row(texts(found@), j, #[trigger] r@[j]),
    {
        let mut r: Vec<(String, AgentStatus)> = Vec::new();
        let mut i: usize = 0;
        while i < self.agents.len()
            invariant
                self.wf(),
                i <= self.agents.len(),
                r.len() == i,
                forall|j: int| 0 <= j < i ==> self.status_row(texts(found@), j, #[trigger] r@[j]),
            decreases self.agents.len() - i,
        {
            let name = self.agents[i].0.clone();
            let s = self.get_agent_status(name.as_str(), found);
            let ghost old_r = r@;
            let ghost row = (name, s);
            r.push((name, s));
            proof {
                assert(self.status_row(texts(found@), i as int, row));
                assert forall|j: int| 0 <= j < i + 1 implies self.status_row(texts(found@), j, #[trigger] r@[j]) by {
                    if j < i {
                        assert(r@[j] == old_r[j]);
                    } else {
                        assert(r@[j] == row);
                    }
                }
            }
            i += 1;
        }
        r
    }

    /// Whether the agent names an executable of its own.
    pub fn is_local_agent(&self, name: &str) -> (b: bool)
        requires
            self.wf(),
        ensures
            b == (self.agents().dom().contains(name@) && self.agents()[name@].executable is Some),
    {
        match assoc_get(&self.agents, name) {
            Some(c) => c.executable.is_some(),
            None => false,
        }
    }

    /// The executable of the agent.
    pub fn get_executable_path(&self, name: &str) -> (r: Option<String>)
        requires
            self.wf(),
        ensures
            opt_text(r) == (if self.agents().dom().contains(name@) {
                opt_text(self.agents()[name@].executable)
            } else {
                None
            }),
    {
        match assoc_get(&self.agents, name) {
            Some(c) => match &c.executable {
                Some(e) => Some(e.clone()),
                None => None,
            },
            None => None,
        }
    }

    /// The command-line arguments of the agent.
    pub fn get_cli_args(&self, name: &str) -> (r: Option<Vec<String>>)
        requires
            self.wf(),
        ensures
            r is Some <==> self.agents().dom().contains(name@)
                && self.agents()[name@].arguments is Some,
            r matches Some(a) ==> texts(a@) == texts(self.agents()[name@].arguments.unwrap()@),
    {
        match assoc_get(&self.agents, name) {
            Some(c) => match &c.arguments {
                Some(a) => Some(clone_strings(a)),
                None => None,
            },
            None => None,
        }
    }
}

/// The status that `get_agent_status` reports.
pub open spec fn status_of(
    agents: Map<Seq<char>, AgentConfig>,
    active: Seq<char>,
    name: Seq<char>,
    found: Seq<Seq<char>>,
) -> AgentStatus {
    if !agents.dom().contains(name) {
        AgentStatus::NotFound
    } else if !available(agents[name], found) {
        AgentStatus::Unavailable
    } else if name == active {
        AgentStatus::Active
    } else {
        AgentStatus::Available
    }
}

fn clone_strings(a: &Vec<String>) -> (r: Vec<String>)
    ensures
        texts(r@) == texts(a@),
{
    let mut r: Vec<String> = Vec::new();
    let mut i: usize = 0;
    while i < a.len()
        invariant
            i <= a.len(),
            r.len() == i,
            texts(r@) == texts(a@).subrange(0, i as int),
        decreases a.len() - i,
    {
        let c = a[i].clone();
        let ghost old_r = r@;
        r.push(c);
        i += 1;
        proof {

            assert forall|j: int| 0 <= j < i implies #[trigger] texts(r@)[j] == texts(a@)[j] by {
                if j < i - 1 {
                    assert(r@[j] == old_r[j]);
                    assert(texts(old_r)[j] == texts(a@).subrange(0, i - 1)[j]);
                }
            }
            assert(texts(r@) =~= texts(a@).subrange(0, i as int));
        }
    }
    proof {
        assert(texts(a@).subrange(0, a.len() as int) =~= texts(a@));
    }
    r
}

fn contains_string(v: &Vec<String>, x: &str) -> (b: bool)
    ensures
        b == texts(v@).contains(x@),
{
    let mut i: usize = 0;
    while i < v.len()
        invariant
            i <= v.len(),
            forall|j: int| 0 <= j < i ==> v@[j]@ != x@,
        decreases v.len() - i,
    {
        if str_eq(v[i].as_str(), x) {
            proof {
                assert(texts(v@)[i as int] == x@);
            }
            return true;
        }
        i += 1;
    }
    proof {
        if texts(v@).contains(x@) {
            let j = choose|j: int| 0 <= j < texts(v@).len() && texts(v@)[j] == x@;
            assert(v@[j]@ == x@);
        }
    }
    false
}

/// Whether the text contains "default".
fn contains_default(s: &str) -> (b: bool)
    ensures
        b == contains_text(s@, "default"@),
{
    let hay = chars_of(s);
    let needle = chars_of("default");
    proof {
        reveal_strlit("default");
    }
    let r = crate::text::contains_chars(&hay, &needle);
    proof {
        if r {
            let i = choose|i: int|
                0 <= i <= hay@.len() - needle@.len() && #[trigger] hay@.subrange(i, i + needle@.len())
                    == needle@;
            assert(hay@.subrange(i, i + needle@.len()) == needle@);
        }
    }
    r
}

proof fn lemma_first_match_prefix(keys: Seq<Seq<char>>, name: Seq<char>, n: int)
    requires
        0 < n <= keys.len(),
        first_match(keys.subrange(0, n - 1), name) is None,
        eq_ignore_case(keys[n - 1], name),
    ensures
        first_match(keys, name) == Some(n - 1),
    decreases keys.len(),
{
    if n < keys.len() {
        assert(keys.drop_last().subrange(0, n - 1) =~= keys.subrange(0, n - 1));
        lemma_first_match_prefix(keys.drop_last(), name, n);
    } else {
        assert(keys.subrange(0, n - 1) =~= keys.drop_last());
    }
}

proof fn lemma_dom_len(v: Seq<(String, AgentConfig)>)
    requires
        distinct_keys(v),
    ensures
        assoc_map(v).dom().len() == v.len(),
        assoc_map(v).dom().finite(),
    decreases v.len(),
{
    if v.len() > 0 {
        let w = v.drop_last();
        lemma_dom_len(w);
        lemma_assoc_dom(w, v.last().0@);
        if assoc_map(w).dom().contains(v.last().0@) {
            let i = choose|i: int| 0 <= i < w.len() && w[i].0@ == v.last().0@;
            assert(v[i].0@ == v[v.len() - 1].0@);
        }
    }
}

proof fn lemma_loaded_step(all: Seq<(String, AgentConfig)>, taken: int, prev: Seq<(String, AgentConfig)>)
    requires
        0 <= taken < all.len(),
        prev == loaded(all.subrange(0, taken)),
        distinct_keys(prev),
    ensures
        loaded(all.subrange(0, taken + 1)) == match first_key(prev, all[taken].0@) {
            Some(i) => prev.update(i, all[taken]),
            None => prev.push(all[taken]),
        },
{
    let s = all.subrange(0, taken + 1);
    assert(s.drop_last() =~= all.subrange(0, taken));
    assert(s.last() == all[taken]);
}

} // verus!
