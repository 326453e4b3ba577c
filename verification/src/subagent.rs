//! Sub-agent sessions: independent agent tasks created by a parent session,
//! later completed with a result.
use vstd::prelude::*;
use crate::chat::{bearer, completions_url, find_tool, first_tool};
use crate::clock::unix_time_secs;
use crate::json::{json_reply_content, spec_reply_content};
use crate::models::ToolConfig;
use crate::text::{append_chars, chars_of, decimal, owned, push_decimal, push_str, str_eq, string_from_chars, take_chars};

verus! {

/// One sub-agent task and its outcome.
#[derive(Debug)]
pub struct SubAgentSession {
    pub id: String,
    pub parent_id: String,
    pub tool_id: String,
    pub task: String,
    pub status: String,
    pub result: String,
    pub created_at: String,
    pub completed_at: String,
}

impl Clone for SubAgentSession {
    fn clone(&self) -> (r: Self)
        ensures
            r == *self,
    {
        SubAgentSession {
            id: self.id.clone(),
            parent_id: self.parent_id.clone(),
            tool_id: self.tool_id.clone(),
            task: self.task.clone(),
            status: self.status.clone(),
            result: self.result.clone(),
            created_at: self.created_at.clone(),
            completed_at: self.completed_at.clone(),
        }
    }
}

/// The id given to a sub-agent created at second `now` by `parent`:
/// `sub_<now>_<first four characters of parent>`.
pub open spec fn subagent_id(now: u64, parent: Seq<char>) -> Seq<char> {
    "sub_"@ + decimal(now as nat) + "_"@ + parent.take(if parent.len() < 4 { parent.len() as int } else { 4 })
}

/// `k` underscores.
pub open spec fn underscores(k: nat) -> Seq<char> {
    Seq::new(k, |i: int| '_')
}

/// Whether some session has id `id`.
pub open spec fn id_taken(s: Seq<SubAgentSession>, id: Seq<char>) -> bool {
    index_of(s, id) is Some
}

/// `id` is `base` followed by the fewest underscores that make it an id no
/// session in `s` has.
pub open spec fn first_free_id(s: Seq<SubAgentSession>, base: Seq<char>, id: Seq<char>) -> bool {
    &&& !id_taken(s, id)
    &&& exists|k: nat| id == base + underscores(k)
        && forall|j: nat| j < k ==> #[trigger] id_taken(s, base + underscores(j))
}

/// The session a creation at second `now` records under id `id`.
pub open spec fn created_session(s: SubAgentSession, id: Seq<char>, now: u64, parent: Seq<char>, tool: Seq<char>, task: Seq<char>) -> bool {
    &&& s.id@ == id
    &&& s.parent_id@ == parent
    &&& s.tool_id@ == tool
    &&& s.task@ == task
    &&& s.status@ == "running"@
    &&& s.result@ == Seq::<char>::empty()
    &&& s.created_at@ == decimal(now as nat)
    &&& s.completed_at@ == Seq::<char>::empty()
}

/// Position of the session with id `id`, if any.
pub open spec fn index_of(s: Seq<SubAgentSession>, id: Seq<char>) -> Option<int> {
    if exists|i: int| 0 <= i < s.len() && (#[trigger] s[i]).id@ == id {
        Some(choose|i: int| 0 <= i < s.len() && (#[trigger] s[i]).id@ == id)
    } else {
        None
    }
}

/// The session with id `id`, if any.
pub open spec fn lookup(s: Seq<SubAgentSession>, id: Seq<char>) -> Option<SubAgentSession> {
    match index_of(s, id) {
        Some(i) => Some(s[i]),
        None => None,
    }
}

/// No two sessions share an id.
pub open spec fn ids_distinct(s: Seq<SubAgentSession>) -> bool {
    forall|i: int, j: int| 0 <= i < s.len() && 0 <= j < s.len() && i != j ==> (#[trigger] s[i]).id@ != (#[trigger] s[j]).id@
}

/// The sessions created by `parent`, in storage order.
pub open spec fn by_parent(s: Seq<SubAgentSession>, parent: Seq<char>) -> Seq<SubAgentSession> {
    s.filter(has_parent(parent))
}

/// The test that a session was created by `parent`.
pub open spec fn has_parent(parent: Seq<char>) -> spec_fn(SubAgentSession) -> bool {
    |x: SubAgentSession| x.parent_id@ == parent
}

/// `new` is `old` completed with the given result, status and completion time.
pub open spec fn completed_from(new: SubAgentSession, old: SubAgentSession, result: Seq<char>, status: Seq<char>, at: Seq<char>) -> bool {
    &&& new.id == old.id
    &&& new.parent_id == old.parent_id
    &&& new.tool_id == old.tool_id
    &&& new.task == old.task
    &&& new.created_at == old.created_at
    &&& new.result@ == result
    &&& new.status@ == status
    &&& new.completed_at@ == at
}

/// The completion time recorded for a clock reading (empty when the clock
/// reads before the epoch).
pub open spec fn completion_time(now: Option<u64>) -> Seq<char> {
    match now {
        Some(n) => decimal(n as nat),
        None => Seq::<char>::empty(),
    }
}

/// `new` is `old` after completing session `id` with `result` and `status`
/// at time `at`: that session completed, every other one as it was; no
/// change when no session has that id.
pub open spec fn completed_in(
    old: Seq<SubAgentSession>,
    new: Seq<SubAgentSession>,
    id: Seq<char>,
    result: Seq<char>,
    status: Seq<char>,
    at: Seq<char>,
) -> bool {
    match index_of(old, id) {
        Some(i) => {
            &&& new.len() == old.len()
            &&& forall|j: int| 0 <= j < old.len() && j != i ==> new[j] == old[j]
            &&& completed_from(new[i], old[i], result, status, at)
        },
        None => new == old,
    }
}

/// Keeps sub-agent sessions by id.
pub struct SubAgentManager {
    sessions: Vec<SubAgentSession>,
}

impl SubAgentManager {
    /// The sessions, in the order they were first stored.
    pub closed spec fn sessions(&self) -> Seq<SubAgentSession> {
        self.sessions@
    }

    /// Well-formedness: ids are distinct.
    pub open spec fn wf(&self) -> bool {
        ids_distinct(self.sessions())
    }

    /// An empty manager.
    pub fn new() -> (m: Self)
        ensures
            m.wf(),
            m.sessions() == Seq::<SubAgentSession>::empty(),
    {
        SubAgentManager { sessions: Vec::new() }
    }

    /// Position of the session with id `id`.
    fn find(&self, id: &str) -> (r: Option<usize>)
        requires
            self.wf(),
        ensures
            match r {
                Some(i) => index_of(self.sessions@, id@) == Some(i as int) && i < self.sessions@.len(),
                None => index_of(self.sessions@, id@) is None,
            },
    {
        let n = self.sessions.len();
        let mut i: usize = 0;
        while i < n
            invariant
                n == self.sessions@.len(),
                i <= n,
                ids_distinct(self.sessions@),
                forall|k: int| 0 <= k < i ==> (#[trigger] self.sessions@[k]).id@ != id@,
            decreases n - i,
        {
            if crate::text::str_eq(self.sessions[i].id.as_str(), id) {
                proof {
                    assert((self.sessions@[i as int]).id@ == id@);
                    let j = choose|j: int| 0 <= j < self.sessions@.len() && (#[trigger] self.sessions@[j]).id@ == id@;
                    assert(j == i);
                }
                return Some(i);
            }
            i = i + 1;
        }
        None
    }

    /// The length of the longest id, and at least `least`.
    fn longest_id(&self, least: usize) -> (r: usize)
        ensures
            least <= r,
            forall|i: int| 0 <= i < self.sessions@.len() ==> (#[trigger] self.sessions@[i]).id@.len() <= r,
    {
        let mut m = least;
        let n = self.sessions.len();
        let mut i: usize = 0;
        while i < n
            invariant
                n == self.sessions@.len(),
                i <= n,
                least <= m,
                forall|k: int| 0 <= k < i ==> (#[trigger] self.sessions@[k]).id@.len() <= m,
            decreases n - i,
        {
            let len = chars_of(self.sessions[i].id.as_str()).len();
            if len > m {
                m = len;
            }
            i = i + 1;
        }
        m
    }

    /// Records a new running session created at second `now` and returns its
    /// id: `sub_<now>_<first four characters of parent_id>`, followed by the
    /// fewest underscores that make it an id no session has yet.
    pub fn create_at(&mut self, now: u64, parent_id: &str, tool_id: &str, task: &str) -> (id: String)
        requires
            old(self).wf(),
        ensures
            final(self).wf(),
            first_free_id(old(self).sessions(), subagent_id(now, parent_id@), id@),
            exists|x: SubAgentSession| created_session(x, id@, now, parent_id@, tool_id@, task@)
                && final(self).sessions() == old(self).sessions().push(x),
    {
        let mut idc: Vec<char> = Vec::new();
        push_str(&mut idc, "sub_");
        push_decimal(now, &mut idc);
        push_str(&mut idc, "_");
        let pc = chars_of(parent_id);
        let head = take_chars(pc.as_slice(), 4);
        append_chars(&mut idc, head.as_slice());
        let ghost base = subagent_id(now, parent_id@);
        assert(idc@ =~= base);
        let longest = self.longest_id(idc.len());
        let mut id = string_from_chars(idc.as_slice());
        let ghost mut k: nat = 0;
        assert(base + underscores(0) =~= base);
        loop
            invariant
                ids_distinct(self.sessions@),
                self.sessions@ == old(self).sessions@,
                forall|i: int| 0 <= i < self.sessions@.len() ==> (#[trigger] self.sessions@[i]).id@.len() <= longest,
                idc@ == id@,
                id@ == base + underscores(k),
                id@.len() <= longest + 1,
                forall|j: nat| j < k ==> #[trigger] id_taken(self.sessions@, base + underscores(j)),
            ensures
                ids_distinct(self.sessions@),
                self.sessions@ == old(self).sessions@,
                id@ == base + underscores(k),
                !id_taken(self.sessions@, id@),
                forall|j: nat| j < k ==> #[trigger] id_taken(self.sessions@, base + underscores(j)),
            decreases longest + 1 - id@.len(),
        {
            match self.find(id.as_str()) {
                None => break,
                Some(i) => {
                    assert(self.sessions@[i as int].id@ == id@) by {
                        let j = choose|j: int| 0 <= j < self.sessions@.len() && (#[trigger] self.sessions@[j]).id@ == id@;
                        assert(j == i);
                    }
                    idc.push('_');
                    id = string_from_chars(idc.as_slice());
                    proof {
                        assert(id_taken(self.sessions@, base + underscores(k)));
                        assert(base + underscores(k + 1) =~= (base + underscores(k)).push('_'));
                        k = k + 1;
                    }
                },
            }
        }
        let mut created: Vec<char> = Vec::new();
        push_decimal(now, &mut created);
        assert(created@ =~= decimal(now as nat));
        let session = SubAgentSession {
            id: id.clone(),
            parent_id: crate::text::owned(parent_id),
            tool_id: crate::text::owned(tool_id),
            task: crate::text::owned(task),
            status: crate::text::owned("running"),
            result: String::new(),
            created_at: string_from_chars(created.as_slice()),
            completed_at: String::new(),
        };
        let ghost before = self.sessions@;
        let ghost sg = session;
        assert(created_session(sg, id@, now, parent_id@, tool_id@, task@));
        self.sessions.push(session);
        proof {
            assert forall|i: int| 0 <= i < before.len() implies (#[trigger] before[i]).id@ != id@ by {
                if before[i].id@ == id@ {
                    assert(index_of(before, id@) is Some);
                }
            }
            assert forall|a: int, b: int| 0 <= a < self.sessions@.len() && 0 <= b < self.sessions@.len() && a != b
                implies (#[trigger] self.sessions@[a]).id@ != (#[trigger] self.sessions@[b]).id@ by {
                if a < before.len() && b < before.len() {
                    assert(before[a] == self.sessions@[a]);
                    assert(before[b] == self.sessions@[b]);
                } else if a == before.len() {
                    assert(self.sessions@[b] == before[b]);
                } else {
                    assert(self.sessions@[a] == before[a]);
                }
            }
            assert(first_free_id(before, base, id@));
        }
        id
    }

    /// Records a new running session, stamped with the current time, and
    /// returns its id, which no earlier session has.
    pub fn create(&mut self, parent_id: &str, tool_id: &str, task: &str) -> (id: String)
        requires
            old(self).wf(),
        ensures
            final(self).wf(),
            exists|now: u64| {
                &&& first_free_id(old(self).sessions(), subagent_id(now, parent_id@), id@)
                &&& exists|x: SubAgentSession| created_session(x, id@, now, parent_id@, tool_id@, task@)
                    && final(self).sessions() == old(self).sessions().push(x)
            },
    {
        let now = match unix_time_secs() {
            Some(n) => n,
            None => 0,
        };
        self.create_at(now, parent_id, tool_id, task)
    }

    /// Sets the result, status and completion time (`at`) of session `id`;
    /// does nothing when there is no such session.
    pub fn complete_with_time(&mut self, id: &str, result: &str, status: &str, at: String)
        requires
            old(self).wf(),
        ensures
            final(self).wf(),
            completed_in(old(self).sessions(), final(self).sessions(), id@, result@, status@, at@),
    {
        if let Some(i) = self.find(id) {
            let ghost before = self.sessions@;
            let old_s = &self.sessions[i];
            let updated = SubAgentSession {
                id: old_s.id.clone(),
                parent_id: old_s.parent_id.clone(),
                tool_id: old_s.tool_id.clone(),
                task: old_s.task.clone(),
                status: crate::text::owned(status),
                result: crate::text::owned(result),
                created_at: old_s.created_at.clone(),
                completed_at: at,
            };
            self.sessions.set(i, updated);
            proof {
                assert forall|a: int, b: int| 0 <= a < self.sessions@.len() && 0 <= b < self.sessions@.len() && a != b
                    implies (#[trigger] self.sessions@[a]).id@ != (#[trigger] self.sessions@[b]).id@ by {
                    assert(self.sessions@[a].id == before[a].id);
                    assert(self.sessions@[b].id == before[b].id);
                }
            }
        }
    }

    /// Completes session `id` with the given result and status, stamped with
    /// the current time.
    pub fn complete(&mut self, id: &str, result: &str, status: &str)
        requires
            old(self).wf(),
        ensures
            final(self).wf(),
            exists|now: Option<u64>|
                #![trigger completion_time(now)]
                completed_in(old(self).sessions(), final(self).sessions(), id@, result@, status@, completion_time(now)),
    {
        let now = unix_time_secs();
        let at = match now {
            Some(n) => crate::text::u64_to_string(n),
            None => String::new(),
        };
        assert(at@ == completion_time(now));
        self.complete_with_time(id, result, status, at);
    }

    /// The session with id `id`, if any.
    pub fn get_result(&self, id: &str) -> (r: Option<SubAgentSession>)
        requires
            self.wf(),
        ensures
            r == lookup(self.sessions(), id@),
    {
        match self.find(id) {
            Some(i) => Some(self.sessions[i].clone()),
            None => None,
        }
    }

    /// The sessions created by `parent_id`, in storage order.
    pub fn list_by_parent(&self, parent_id: &str) -> (r: Vec<SubAgentSession>)
        requires
            self.wf(),
        ensures
            r@ == by_parent(self.sessions(), parent_id@),
    {
        let mut out: Vec<SubAgentSession> = Vec::new();
        let n = self.sessions.len();
        let mut i: usize = 0;
        while i < n
            invariant
                n == self.sessions@.len(),
                i <= n,
                out@ == by_parent(self.sessions@.take(i as int), parent_id@),
            decreases n - i,
        {
            let s = &self.sessions[i];
            proof {
                assert(self.sessions@.take(i + 1).drop_last() =~= self.sessions@.take(i as int));
                reveal_with_fuel(Seq::<_>::filter, 1);
            }
            if crate::text::str_eq(s.parent_id.as_str(), parent_id) {
                out.push(s.clone());
            }
            i = i + 1;
        }
        assert(self.sessions@.take(n as int) =~= self.sessions@);
        out
    }
}


/// With distinct ids, the position holding an id is where `index_of` points.
pub proof fn lemma_index_of_at(s: Seq<SubAgentSession>, id: Seq<char>, i: int)
    requires
        ids_distinct(s),
        0 <= i < s.len(),
        s[i].id@ == id,
    ensures
        index_of(s, id) == Some(i),
{
    let j = choose|j: int| 0 <= j < s.len() && (#[trigger] s[j]).id@ == id;
    assert(j == i);
}

/// Completing a session keeps ids distinct; the session is then found under
/// its id with the given result and status and its task unchanged, and every
/// other id finds what it found before.
pub proof fn law_complete_then_lookup(
    old: Seq<SubAgentSession>,
    new: Seq<SubAgentSession>,
    id: Seq<char>,
    result: Seq<char>,
    status: Seq<char>,
    at: Seq<char>,
    other: Seq<char>,
)
    requires
        ids_distinct(old),
        completed_in(old, new, id, result, status, at),
    ensures
        ids_distinct(new),
        lookup(old, id) matches Some(o) ==> (lookup(new, id) matches Some(n) && completed_from(n, o, result, status, at)),
        lookup(old, id) is None ==> lookup(new, id) is None,
        other != id ==> lookup(new, other) == lookup(old, other),
{
    match index_of(old, id) {
        Some(i) => {
            assert(old[i].id@ == id);
            assert forall|a: int, b: int| 0 <= a < new.len() && 0 <= b < new.len() && a != b
                implies (#[trigger] new[a]).id@ != (#[trigger] new[b]).id@ by {
                assert(new[a].id == old[a].id);
                assert(new[b].id == old[b].id);
            }
            lemma_index_of_at(new, id, i);
            if other != id {
                match index_of(old, other) {
                    Some(k) => {
                        assert(old[k].id@ == other);
                        assert(k != i);
                        lemma_index_of_at(new, other, k);
                    },
                    None => {
                        if exists|k: int| 0 <= k < new.len() && (#[trigger] new[k]).id@ == other {
                            let k = choose|k: int| 0 <= k < new.len() && (#[trigger] new[k]).id@ == other;
                            assert(new[k].id == old[k].id);
                            assert(false);
                        }
                    },
                }
            }
        },
        None => {},
    }
}

/// Two creations in a row keep both sessions, whatever the time and the
/// parents: each new session gets an id no earlier session has, so the two
/// ids differ and each session is found under its own id.
pub proof fn law_two_creations_both_found(s: Seq<SubAgentSession>, x1: SubAgentSession, x2: SubAgentSession)
    requires
        ids_distinct(s),
        !id_taken(s, x1.id@),
        !id_taken(s.push(x1), x2.id@),
    ensures
        x1.id@ != x2.id@,
        ids_distinct(s.push(x1).push(x2)),
        lookup(s.push(x1).push(x2), x1.id@) == Some(x1),
        lookup(s.push(x1).push(x2), x2.id@) == Some(x2),
{
    law_add_then_lookup(s, x1, x2.id@);
    if x1.id@ == x2.id@ {
        assert(s.push(x1)[s.len() as int].id@ == x1.id@);
        assert(id_taken(s.push(x1), x2.id@));
    }
    law_add_then_lookup(s.push(x1), x2, x1.id@);
}

/// Adding a session under an id no session has keeps ids distinct; the new
/// session is then found under its id, and every other id finds what it
/// found before.
pub proof fn law_add_then_lookup(s: Seq<SubAgentSession>, x: SubAgentSession, other: Seq<char>)
    requires
        ids_distinct(s),
        !id_taken(s, x.id@),
    ensures
        ids_distinct(s.push(x)),
        lookup(s.push(x), x.id@) == Some(x),
        other != x.id@ ==> lookup(s.push(x), other) == lookup(s, other),
{
    let t = s.push(x);
    assert forall|i: int| 0 <= i < s.len() implies (#[trigger] s[i]).id@ != x.id@ by {
        if s[i].id@ == x.id@ {
            assert(index_of(s, x.id@) is Some);
        }
    }
    assert forall|a: int, b: int| 0 <= a < t.len() && 0 <= b < t.len() && a != b
        implies (#[trigger] t[a]).id@ != (#[trigger] t[b]).id@ by {
        if a == s.len() {
            assert(t[b] == s[b]);
        } else if b == s.len() {
            assert(t[a] == s[a]);
        } else {
            assert(t[a] == s[a]);
            assert(t[b] == s[b]);
        }
    }
    lemma_index_of_at(t, x.id@, s.len() as int);
    if other != x.id@ {
        match index_of(s, other) {
            Some(k) => {
                assert(s[k].id@ == other);
                assert(t[k] == s[k]);
                lemma_index_of_at(t, other, k);
            },
            None => {
                if exists|k: int| 0 <= k < t.len() && (#[trigger] t[k]).id@ == other {
                    let k = choose|k: int| 0 <= k < t.len() && (#[trigger] t[k]).id@ == other;
                    assert(t[k] == s[k]);
                }
            },
        }
    }
}

/// A session created by `create_at` is found under the returned id, running,
/// with the parent, tool and task it was created with.
pub proof fn law_created_session_found(
    s: Seq<SubAgentSession>,
    x: SubAgentSession,
    id: Seq<char>,
    now: u64,
    parent: Seq<char>,
    tool: Seq<char>,
    task: Seq<char>,
)
    requires
        ids_distinct(s),
        first_free_id(s, subagent_id(now, parent), id),
        created_session(x, id, now, parent, tool, task),
    ensures
        lookup(s.push(x), id) == Some(x),
        x.status@ == "running"@,
{
    law_add_then_lookup(s, x, x.id@);
}

/// Listing by parent returns exactly the stored sessions of that parent.
pub proof fn law_list_by_parent_exact(s: Seq<SubAgentSession>, parent: Seq<char>)
    ensures
        forall|i: int| 0 <= i < by_parent(s, parent).len() ==> (#[trigger] by_parent(s, parent)[i]).parent_id@ == parent,
        forall|i: int| 0 <= i < s.len() && (#[trigger] s[i]).parent_id@ == parent ==> by_parent(s, parent).contains(s[i]),
{
    let pred = has_parent(parent);
    assert forall|i: int| 0 <= i < by_parent(s, parent).len() implies (#[trigger] by_parent(s, parent)[i]).parent_id@ == parent by {
        s.lemma_filter_pred(pred, i);
    }
    assert forall|i: int| 0 <= i < s.len() && (#[trigger] s[i]).parent_id@ == parent implies by_parent(s, parent).contains(s[i]) by {
        s.lemma_filter_contains(pred, i);
    }
}


// ───────────────────────── running a sub-agent ─────────────────────────

/// The system prompt a sub-agent works under.
pub open spec fn subagent_prompt(task: Seq<char>) -> Seq<char> {
    "You are a focused sub-agent. "@ + "Complete this "@ + "task concisely:\n\n"@ + task
}

/// How a sub-agent's task is carried out: refused at once with a message,
/// or sent to an API model.
#[derive(Debug)]
pub enum SubAgentRoute {
    /// The task ends at once with this error message.
    Refused(String),
    /// The request to make: endpoint, authorization header, model, system
    /// prompt and the task as the user message.
    Call { url: String, authorization: String, model: String, system_prompt: String, task: String },
}

/// Decides how the task `task` of a sub-agent on tool `tool_id` is run: the
/// first tool with that id must exist and be an API tool with a key.
pub fn subagent_route(tools: &Vec<ToolConfig>, tool_id: &str, task: &str) -> (r: SubAgentRoute)
    ensures
        match first_tool(tools@, tool_id@) {
            None => r matches SubAgentRoute::Refused(m) && m@ == "Tool not found"@,
            Some(i) => {
                let t = tools@[i];
                if t.tool_type@ != "api"@ || t.api_key@.len() == 0 {
                    r matches SubAgentRoute::Refused(m) && m@ == "Only API tools are supported for sub-agents"@
                } else {
                    r matches SubAgentRoute::Call { url, authorization, model, system_prompt, task: tk } && url@
                        == t.api_base@ + "/v1/chat/completions"@ && authorization@ == "Bearer "@ + t.api_key@
                        && model == t.model_name && system_prompt@ == subagent_prompt(task@) && tk@ == task@
                }
            },
        },
{
    let i = match find_tool(tools, tool_id) {
        Some(i) => i,
        None => {
            return SubAgentRoute::Refused(owned("Tool not found"));
        },
    };
    let t = &tools[i];
    if !str_eq(t.tool_type.as_str(), "api") || t.api_key.as_str().is_empty() {
        return SubAgentRoute::Refused(owned("Only API tools are supported for sub-agents"));
    }
    let mut sp: Vec<char> = Vec::new();
    push_str(&mut sp, "You are a focused sub-agent. ");
    push_str(&mut sp, "Complete this ");
    push_str(&mut sp, "task concisely:\n\n");
    push_str(&mut sp, task);
    assert(sp@ =~= subagent_prompt(task@));
    SubAgentRoute::Call {
        url: completions_url(t.api_base.as_str()),
        authorization: bearer(t.api_key.as_str()),
        model: t.model_name.clone(),
        system_prompt: string_from_chars(sp.as_slice()),
        task: owned(task),
    }
}

/// What came back from a request to an API model.
#[derive(Debug)]
pub enum ApiReply {
    /// The request failed; the error's text.
    Failed(String),
    /// A reply came whose body is not JSON.
    Unreadable,
    /// The reply's JSON body.
    Body(serde_json::Value),
}

/// The result and status a sub-agent is completed with, given what its
/// request brought back.
pub open spec fn subagent_outcome_spec(reply: ApiReply) -> (Seq<char>, Seq<char>) {
    match reply {
        ApiReply::Failed(e) => ("API error: "@ + e@, "error"@),
        ApiReply::Unreadable => ("Failed to parse API response"@, "error"@),
        ApiReply::Body(b) => match spec_reply_content(b) {
            Some(c) => (c, "done"@),
            None => ("(no response)"@, "done"@),
        },
    }
}

/// The result and status a sub-agent is completed with: the reply's text
/// (or `(no response)`) when a reply came, else an error.
pub fn subagent_outcome(reply: &ApiReply) -> (r: (String, String))
    ensures
        (r.0@, r.1@) == subagent_outcome_spec(*reply),
{
    match reply {
        ApiReply::Failed(e) => {
            let mut m: Vec<char> = Vec::new();
            push_str(&mut m, "API error: ");
            push_str(&mut m, e.as_str());
            assert(m@ =~= "API error: "@ + e@);
            (string_from_chars(m.as_slice()), owned("error"))
        },
        ApiReply::Unreadable => (owned("Failed to parse API response"), owned("error")),
        ApiReply::Body(b) => match json_reply_content(b) {
            Some(c) => (c, owned("done")),
            None => (owned("(no response)"), owned("done")),
        },
    }
}

/// Completes the sub-agent `id` with the outcome of its request.
pub fn finish_subagent(manager: &mut SubAgentManager, id: &str, reply: &ApiReply)
    requires
        old(manager).wf(),
    ensures
        final(manager).wf(),
        exists|now: Option<u64>|
            #![trigger completion_time(now)]
            completed_in(
                old(manager).sessions(),
                final(manager).sessions(),
                id@,
                subagent_outcome_spec(*reply).0,
                subagent_outcome_spec(*reply).1,
                completion_time(now),
            ),
{
    let (res, status) = subagent_outcome(reply);
    assert(res@ == subagent_outcome_spec(*reply).0 && status@ == subagent_outcome_spec(*reply).1);
    manager.complete(id, res.as_str(), status.as_str());
}

} // verus!
