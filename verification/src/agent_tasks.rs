//! The agent tasks an agent identity has registered: one task for the
//! process and one per external thread reference, each registered at most
//! once and kept for the life of the identity.
use crate::text::str_eq;
use vstd::prelude::*;

verus! {

/// The backend used when no ChatGPT base URL is configured.
pub open spec fn default_chatgpt_backend_base_url() -> Seq<char> {
    "https://chatgpt.com/backend-api"@
}

/// The configured ChatGPT base URL, or the default backend.
pub fn chatgpt_base_url_or_default(chatgpt_base_url: Option<String>) -> (r: String)
    ensures
        r@ == match chatgpt_base_url {
            Some(u) => u@,
            None => default_chatgpt_backend_base_url(),
        },
{
    match chatgpt_base_url {
        Some(u) => u,
        None => "https://chatgpt.com/backend-api".to_owned(),
    }
}

/// A reference to an external thread that a task is registered for.
#[derive(Debug, PartialEq, Eq)]
pub struct AgentTaskExternalRef {
    pub value: String,
}

impl AgentTaskExternalRef {
    /// A reference with the given text.
    pub fn new(value: &str) -> (r: Self)
        ensures
            r.value@ == value@,
    {
        AgentTaskExternalRef { value: value.to_owned() }
    }
}

/// Which task a cache slot is for: the process, or one external thread.
#[derive(Debug, PartialEq, Eq)]
pub enum AgentTaskCacheKey {
    Process,
    Thread(AgentTaskExternalRef),
}

/// A cache key as a value: `None` for the process, the reference's text for a
/// thread.
pub open spec fn key_view(k: AgentTaskCacheKey) -> Option<Seq<char>> {
    match k {
        AgentTaskCacheKey::Process => None,
        AgentTaskCacheKey::Thread(r) => Some(r.value@),
    }
}

/// Whether two keys are for the same task.
fn key_eq(a: &AgentTaskCacheKey, b: &AgentTaskCacheKey) -> (r: bool)
    ensures
        r == (key_view(*a) == key_view(*b)),
{
    match (a, b) {
        (AgentTaskCacheKey::Process, AgentTaskCacheKey::Process) => true,
        (AgentTaskCacheKey::Thread(x), AgentTaskCacheKey::Thread(y)) => str_eq(x.value.as_str(), y.value.as_str()),
        _ => false,
    }
}

/// The kind of task registered.
#[derive(Debug, Clone, Copy, PartialEq, Eq, Structural)]
pub enum AgentTaskKind {
    Process,
    Thread,
}

/// A registered task of an agent runtime.
#[derive(Debug, PartialEq, Eq)]
pub struct RegisteredAgentTask {
    pub agent_runtime_id: String,
    pub task_id: String,
    pub kind: AgentTaskKind,
}

/// The plan of the account an agent identity belongs to.
#[derive(Debug, Clone, Copy, PartialEq, Eq, Structural)]
pub enum PlanType {
    Free,
    Go,
    Plus,
    Pro,
    Team,
    Business,
    Enterprise,
    Edu,
    Unknown,
}

/// The stored record of an agent identity.
#[derive(Debug, PartialEq, Eq)]
pub struct AgentIdentityAuthRecord {
    pub agent_runtime_id: String,
    pub agent_private_key: String,
    pub account_id: String,
    pub chatgpt_user_id: String,
    pub email: String,
    pub plan_type: PlanType,
    pub chatgpt_account_is_fedramp: bool,
    pub registered_at: Option<String>,
}

/// The task registered with the given id for the identity's runtime.
pub fn registered_task(record: &AgentIdentityAuthRecord, task_id: String, kind: AgentTaskKind) -> (r: RegisteredAgentTask)
    ensures
        r.agent_runtime_id@ == record.agent_runtime_id@,
        r.task_id == task_id,
        r.kind == kind,
{
    RegisteredAgentTask { agent_runtime_id: record.agent_runtime_id.clone(), task_id, kind }
}

/// The task ids registered so far, one per key.
#[derive(Debug)]
pub struct AgentTaskCache {
    entries: Vec<(AgentTaskCacheKey, String)>,
}

/// The keys of `entries` are distinct.
pub open spec fn distinct_keys(entries: Seq<(AgentTaskCacheKey, String)>) -> bool {
    forall|i: int, j: int|
        0 <= i < j < entries.len() ==> key_view(#[trigger] entries[i].0) != key_view(#[trigger] entries[j].0)
}

/// The task id registered under each key.
pub open spec fn entries_map(entries: Seq<(AgentTaskCacheKey, String)>) -> Map<Option<Seq<char>>, Seq<char>>
    decreases entries.len(),
{
    if entries.len() == 0 {
        Map::empty()
    } else {
        entries_map(entries.drop_last()).insert(key_view(entries.last().0), entries.last().1@)
    }
}

impl AgentTaskCache {
    /// The task id registered under each key.
    pub closed spec fn task_ids(&self) -> Map<Option<Seq<char>>, Seq<char>> {
        entries_map(self.entries@)
    }

    /// Each key appears once.
    #[verifier::type_invariant]
    spec fn keys_distinct(&self) -> bool {
        distinct_keys(self.entries@)
    }

    /// An empty cache.
    pub fn new() -> (r: Self)
        ensures
            r.task_ids() == Map::<Option<Seq<char>>, Seq<char>>::empty(),
    {
        AgentTaskCache { entries: Vec::new() }
    }

    /// The position of `key`'s entry.
    fn position(&self, key: &AgentTaskCacheKey) -> (r: Option<usize>)
        ensures
            match r {
                Some(i) => i < self.entries@.len() && key_view(self.entries@[i as int].0) == key_view(*key),
                None => forall|i: int| 0 <= i < self.entries@.len() ==> key_view(#[trigger] self.entries@[i].0) != key_view(*key),
            },
    {
        let mut i: usize = 0;
        while i < self.entries.len()
            invariant
                i <= self.entries@.len(),
                forall|j: int| 0 <= j < i ==> key_view(#[trigger] self.entries@[j].0) != key_view(*key),
            decreases self.entries@.len() - i,
        {
            if key_eq(&self.entries[i].0, key) {
                return Some(i);
            }
            i = i + 1;
        }
        None
    }

    /// The task id registered under `key`, if any.
    pub fn task_id_for_initialized_key(&self, key: &AgentTaskCacheKey) -> (r: Option<String>)
        ensures
            match r {
                Some(id) => self.task_ids().contains_key(key_view(*key)) && self.task_ids()[key_view(*key)] == id@,
                None => !self.task_ids().contains_key(key_view(*key)),
            },
    {
        proof {
            use_type_invariant(self);
            lemma_entries_map(self.entries@);
        }
        match self.position(key) {
            Some(i) => Some(self.entries[i].1.clone()),
            None => None,
        }
    }

    /// Keeps a freshly registered task id under `key`, unless one is there
    /// already, and gives back the id that stands under `key` afterwards: a
    /// slot, once set, keeps its first id.
    pub fn initialize(&mut self, key: AgentTaskCacheKey, task_id: String) -> (r: String)
        ensures
            old(self).task_ids().contains_key(key_view(key)) ==> final(self).task_ids() == old(self).task_ids()
                && r@ == old(self).task_ids()[key_view(key)],
            !old(self).task_ids().contains_key(key_view(key)) ==> final(self).task_ids() == old(self).task_ids().insert(
                key_view(key),
                task_id@,
            ) && r@ == task_id@,
    {
        proof {
            use_type_invariant(&*self);
            lemma_entries_map(self.entries@);
        }
        match self.position(&key) {
            Some(i) => self.entries[i].1.clone(),
            None => {
                let ghost old_entries = self.entries@;
                let kept = task_id.clone();
                let entry = (key, task_id);
                let ghost grown = old_entries.push(entry);
                assert(grown.drop_last() == old_entries);
                assert(distinct_keys(grown)) by {
                    assert forall|i: int, j: int| 0 <= i < j < grown.len() implies key_view(
                        #[trigger] grown[i].0,
                    ) != key_view(#[trigger] grown[j].0) by {
                        if j < old_entries.len() {
                            assert(grown[i] == old_entries[i]);
                            assert(grown[j] == old_entries[j]);
                        } else {
                            assert(grown[i] == old_entries[i]);
                        }
                    }
                }
                let mut entries: Vec<(AgentTaskCacheKey, String)> = Vec::new();
                std::mem::swap(&mut entries, &mut self.entries);
                entries.push(entry);
                assert(entries@ == grown);
                self.entries = entries;
                kept
            },
        }
    }

    /// Takes the outcome of a registration for `key` (see `register_step`); a
    /// success gives the id that stands under `key` afterwards, a failure is
    /// handed back.
    pub fn complete_registration<E>(&mut self, key: AgentTaskCacheKey, result: Result<String, E>) -> (r: Result<String, E>)
        ensures
            final(self).task_ids() == register_step(
                old(self).task_ids(),
                key_view(key),
                match result {
                    Ok(id) => Some(id@),
                    Err(_) => None,
                },
            ),
            match result {
                Err(e) => r == Err::<String, E>(e),
                Ok(_) => r is Ok && r->Ok_0@ == final(self).task_ids()[key_view(key)],
            },
    {
        match result {
            Ok(id) => Ok(self.initialize(key, id)),
            Err(e) => Err(e),
        }
    }
}

/// The registered task ids after a registration for key `k` that gave the id
/// `outcome` (`None` for a failed one): a success fills an empty slot and
/// leaves a filled one as it is; a failure changes nothing.
pub open spec fn register_step(
    m: Map<Option<Seq<char>>, Seq<char>>,
    k: Option<Seq<char>>,
    outcome: Option<Seq<char>>,
) -> Map<Option<Seq<char>>, Seq<char>> {
    match outcome {
        Some(id) => if m.contains_key(k) {
            m
        } else {
            m.insert(k, id)
        },
        None => m,
    }
}

/// A key registers once: after a successful registration, later outcomes for
/// the same key leave its id as the first success set it.
pub proof fn lemma_registers_once(
    m: Map<Option<Seq<char>>, Seq<char>>,
    k: Option<Seq<char>>,
    first: Seq<char>,
    later: Option<Seq<char>>,
)
    ensures
        register_step(m, k, Some(first)).contains_key(k),
        register_step(register_step(m, k, Some(first)), k, later) == register_step(m, k, Some(first)),
{
}

/// Registrations for different keys do not affect each other.
pub proof fn lemma_keys_independent(
    m: Map<Option<Seq<char>>, Seq<char>>,
    k1: Option<Seq<char>>,
    k2: Option<Seq<char>>,
    outcome: Option<Seq<char>>,
)
    requires
        k1 != k2,
    ensures
        register_step(m, k1, outcome).contains_key(k2) == m.contains_key(k2),
        m.contains_key(k2) ==> register_step(m, k1, outcome)[k2] == m[k2],
{
}

/// A failed registration leaves its slot empty, so the next attempt registers
/// again and its success is kept.
pub proof fn lemma_failed_registration_can_retry(
    m: Map<Option<Seq<char>>, Seq<char>>,
    k: Option<Seq<char>>,
    id: Seq<char>,
)
    requires
        !m.contains_key(k),
    ensures
        !register_step(m, k, None).contains_key(k),
        register_step(register_step(m, k, None), k, Some(id))[k] == id,
{
}

/// With distinct keys, the map holds exactly the entries' ids.
proof fn lemma_entries_map(entries: Seq<(AgentTaskCacheKey, String)>)
    requires
        distinct_keys(entries),
    ensures
        forall|k: Option<Seq<char>>|
            #[trigger] entries_map(entries).contains_key(k) <==> exists|i: int| 0 <= i < entries.len() && key_view(#[trigger] entries[i].0) == k,
        forall|i: int| 0 <= i < entries.len() ==> #[trigger] entries_map(entries)[key_view(entries[i].0)] == entries[i].1@,
    decreases entries.len(),
{
    if entries.len() > 0 {
        let prev = entries.drop_last();
        assert(distinct_keys(prev)) by {
            assert forall|i: int, j: int| 0 <= i < j < prev.len() implies key_view(#[trigger] prev[i].0) != key_view(#[trigger] prev[j].0) by {
                assert(prev[i] == entries[i] && prev[j] == entries[j]);
            }
        }
        lemma_entries_map(prev);
        let n = entries.len() - 1;
        assert forall|k: Option<Seq<char>>|
            #[trigger] entries_map(entries).contains_key(k) <==> exists|i: int| 0 <= i < entries.len() && key_view(#[trigger] entries[i].0) == k by {
            if entries_map(entries).contains_key(k) && k != key_view(entries[n].0) {
                assert(entries_map(prev).contains_key(k));
                let i = choose|i: int| 0 <= i < prev.len() && key_view(#[trigger] prev[i].0) == k;
                assert(entries[i] == prev[i]);
            }
            if exists|i: int| 0 <= i < entries.len() && key_view(#[trigger] entries[i].0) == k {
                let i = choose|i: int| 0 <= i < entries.len() && key_view(#[trigger] entries[i].0) == k;
                if i < n {
                    assert(entries[i] == prev[i]);
                    assert(entries_map(prev).contains_key(k));
                }
            }
        }
        assert forall|i: int| 0 <= i < entries.len() implies #[trigger] entries_map(entries)[key_view(entries[i].0)] == entries[i].1@ by {
            if i < n {
                assert(entries[i] == prev[i]);
                assert(key_view(entries[i].0) != key_view(entries[n].0));
                assert(entries_map(prev)[key_view(prev[i].0)] == prev[i].1@);
            } else {
                assert(entries.last() == entries[n]);
            }
        }
    }
}

/// An agent identity: its stored record and the tasks registered for it.
#[derive(Debug)]
pub struct AgentIdentityAuth {
    record: AgentIdentityAuthRecord,
    task_ids: AgentTaskCache,
}

impl AgentIdentityAuth {
    /// The stored record.
    pub closed spec fn record_spec(&self) -> AgentIdentityAuthRecord {
        self.record
    }

    /// The task ids registered so far.
    pub closed spec fn task_ids_spec(&self) -> Map<Option<Seq<char>>, Seq<char>> {
        self.task_ids.task_ids()
    }

    /// An identity from its record, with no tasks registered yet.
    pub fn new(record: AgentIdentityAuthRecord) -> (r: Self)
        ensures
            r.record_spec() == record,
            r.task_ids_spec() == Map::<Option<Seq<char>>, Seq<char>>::empty(),
    {
        AgentIdentityAuth { record, task_ids: AgentTaskCache::new() }
    }

    /// The stored record.
    pub fn record(&self) -> (r: &AgentIdentityAuthRecord)
        ensures
            *r == self.record_spec(),
    {
        &self.record
    }

    /// The account id.
    pub fn account_id(&self) -> (r: &str)
        ensures
            r@ == self.record_spec().account_id@,
    {
        self.record.account_id.as_str()
    }

    /// The ChatGPT user id.
    pub fn chatgpt_user_id(&self) -> (r: &str)
        ensures
            r@ == self.record_spec().chatgpt_user_id@,
    {
        self.record.chatgpt_user_id.as_str()
    }

    /// The account's email address.
    pub fn email(&self) -> (r: &str)
        ensures
            r@ == self.record_spec().email@,
    {
        self.record.email.as_str()
    }

    /// The account's plan.
    pub fn plan_type(&self) -> (r: PlanType)
        ensures
            r == self.record_spec().plan_type,
    {
        self.record.plan_type
    }

    /// Whether the account is a FedRAMP account.
    pub fn is_fedramp_account(&self) -> (r: bool)
        ensures
            r == self.record_spec().chatgpt_account_is_fedramp,
    {
        self.record.chatgpt_account_is_fedramp
    }

    /// The task registered for the process, if it is.
    pub fn process_task_id(&self) -> (r: Option<String>)
        ensures
            match r {
                Some(id) => self.task_ids_spec().contains_key(None) && self.task_ids_spec()[None] == id@,
                None => !self.task_ids_spec().contains_key(None),
            },
    {
        self.task_ids.task_id_for_initialized_key(&AgentTaskCacheKey::Process)
    }

    /// The task registered under `key`, if it is.
    pub fn task_id_for_initialized_key(&self, key: &AgentTaskCacheKey) -> (r: Option<String>)
        ensures
            match r {
                Some(id) => self.task_ids_spec().contains_key(key_view(*key)) && self.task_ids_spec()[key_view(*key)] == id@,
                None => !self.task_ids_spec().contains_key(key_view(*key)),
            },
    {
        self.task_ids.task_id_for_initialized_key(key)
    }

    /// Takes the outcome of a registration for `key` (see `register_step`).
    pub fn complete_task_registration<E>(&mut self, key: AgentTaskCacheKey, result: Result<String, E>) -> (r: Result<String, E>)
        ensures
            final(self).record_spec() == old(self).record_spec(),
            final(self).task_ids_spec() == register_step(
                old(self).task_ids_spec(),
                key_view(key),
                match result {
                    Ok(id) => Some(id@),
                    Err(_) => None,
                },
            ),
            match result {
                Err(e) => r == Err::<String, E>(e),
                Ok(_) => r is Ok && r->Ok_0@ == final(self).task_ids_spec()[key_view(key)],
            },
    {
        self.task_ids.complete_registration(key, result)
    }

    /// The registered task of this identity's runtime with the given id.
    pub fn registered_task(&self, task_id: String, kind: AgentTaskKind) -> (r: RegisteredAgentTask)
        ensures
            r.agent_runtime_id@ == self.record_spec().agent_runtime_id@,
            r.task_id == task_id,
            r.kind == kind,
    {
        registered_task(&self.record, task_id, kind)
    }
}

} // verus!
