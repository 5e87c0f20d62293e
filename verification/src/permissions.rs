//! Tool permissions: what may run without asking, and what the user's answers
//! change.
use crate::llm::ToolCall;
use crate::text::{
    is_word, join, join_all, join_from, joined_words_are_read_back, joining_keeps_the_words,
    opt_text, owned, same, split_words, texts, words, words_are_words,
};
use std::collections::HashMap;
use vstd::prelude::*;

verus! {

/// Whether a tool call may run.
#[derive(Debug, Clone, Copy, PartialEq, Eq, Structural)]
pub enum Permission {
    Allowed,
    Denied,
}

/// Lets every tool call run.
pub struct AllowAllPermissionManager;

impl AllowAllPermissionManager {
    /// Whether a call may run: always.
    pub fn authorize(&self, _call: &ToolCall) -> (out: Permission)
        ensures
            out == Permission::Allowed,
    {
        Permission::Allowed
    }
}

/// Which grants are looked at.
#[derive(Debug, Clone, Copy, PartialEq, Eq, Structural)]
pub enum Policy {
    /// Every call may run.
    Free,
    /// A call may run whose command was approved with any arguments.
    Slip,
    /// Only the calls that were approved themselves may run.
    Strict,
}

impl Policy {
    /// The name of the policy.
    pub fn name(self) -> (out: &'static str)
        ensures
            out@ == match self {
                Policy::Free => "free"@,
                Policy::Slip => "slip"@,
                Policy::Strict => "strict"@,
            },
    {
        match self {
            Policy::Free => "free",
            Policy::Slip => "slip",
            Policy::Strict => "strict",
        }
    }
}

/// An approved call. Without arguments it is the whole family: the command with
/// any arguments.
#[derive(Debug, Clone, PartialEq, Eq, Hash)]
pub struct Grant<S = String> {
    pub command: S,
    pub args: Option<S>,
}

impl View for Grant {
    type V = Grant<Seq<char>>;

    open spec fn view(&self) -> Grant<Seq<char>> {
        Grant { command: self.command@, args: opt_text(self.args) }
    }
}

/// The grant for a call. White space between the words of the arguments does
/// not matter. For the shell the command is the first word of the arguments;
/// for any other tool it is the tool's name.
pub open spec fn grant_for(name: Seq<char>, arguments: Seq<char>) -> Grant<Seq<char>> {
    let all = words(arguments);
    if name != "bash"@ {
        Grant { command: name, args: Some(join(all, " "@)) }
    } else if all.len() < 2 {
        Grant { command: join(all, " "@), args: None }
    } else {
        Grant { command: all[0], args: Some(join(all.skip(1), " "@)) }
    }
}

/// The family of a grant.
pub open spec fn family_of(grant: Grant<Seq<char>>) -> Grant<Seq<char>> {
    Grant { command: grant.command, args: None }
}

/// The grant for a call.
pub fn parse_command(name: &str, arguments: &str) -> (out: Grant)
    ensures
        out@ == grant_for(name@, arguments@),
{
    let all = split_words(arguments);
    assert(texts(all@).len() == all@.len());
    if !same(name, "bash") {
        Grant { command: owned(name), args: Some(join_all(&all, " ")) }
    } else if all.len() < 2 {
        Grant { command: join_all(&all, " "), args: None }
    } else {
        assert(texts(all@)[0] == all@[0]@);
        Grant { command: all[0].clone(), args: Some(join_from(&all, 1, " ")) }
    }
}

impl Grant {
    /// The grant for a call.
    pub fn of(call: &ToolCall) -> (out: Grant)
        ensures
            out@ == grant_for(call.name@, call.arguments@),
    {
        parse_command(call.name.as_str(), call.arguments.as_str())
    }

    /// The family of the grant.
    pub fn family(&self) -> (out: Grant)
        ensures
            out@ == family_of(self@),
    {
        Grant { command: self.command.clone(), args: None }
    }

    /// An equal grant.
    pub fn copy(&self) -> (out: Grant)
        ensures
            out == *self,
    {
        Grant {
            command: self.command.clone(),
            args: match &self.args {
                Some(args) => Some(args.clone()),
                None => None,
            },
        }
    }

    /// Whether two grants are the same.
    pub fn same_as(&self, other: &Grant) -> (out: bool)
        ensures
            out == (self@ == other@),
    {
        let same_args = match (&self.args, &other.args) {
            (Some(x), Some(y)) => same(x.as_str(), y.as_str()),
            (None, None) => true,
            _ => false,
        };
        same_args && same(self.command.as_str(), other.command.as_str())
    }
}

/// A set of grants, none of them twice.
#[derive(Debug)]
pub struct GrantSet {
    pub items: Vec<Grant>,
}

/// The views of a list of grants.
pub open spec fn grant_views(grants: Seq<Grant>) -> Seq<Grant<Seq<char>>> {
    grants.map_values(|g: Grant| g@)
}

impl View for GrantSet {
    type V = Set<Grant<Seq<char>>>;

    open spec fn view(&self) -> Set<Grant<Seq<char>>> {
        grant_views(self.items@).to_set()
    }
}

impl GrantSet {
    /// No grant is in the set twice.
    pub open spec fn well_formed(&self) -> bool {
        grant_views(self.items@).no_duplicates()
    }

    /// The empty set.
    pub fn new() -> (out: GrantSet)
        ensures
            out.well_formed(),
            out@ == Set::<Grant<Seq<char>>>::empty(),
    {
        let out = GrantSet { items: Vec::new() };
        assert(grant_views(out.items@) =~= Seq::empty());
        assert(out@ =~= Set::<Grant<Seq<char>>>::empty());
        out
    }

    fn position(&self, grant: &Grant) -> (out: Option<usize>)
        ensures
            match out {
                Some(i) => i < self.items@.len() && grant_views(self.items@)[i as int] == grant@
                    && self@.contains(grant@),
                None => !self@.contains(grant@),
            },
    {
        let ghost views = grant_views(self.items@);
        let mut i: usize = 0;
        while i < self.items.len()
            invariant
                i <= self.items@.len(),
                views == grant_views(self.items@),
                forall|k: int| 0 <= k < i ==> #[trigger] views[k] != grant@,
            decreases self.items@.len() - i,
        {
            if self.items[i].same_as(grant) {
                assert(views[i as int] == grant@);
                assert(views.contains(grant@));
                return Some(i);
            }
            assert(views[i as int] != grant@);
            i += 1;
        }
        None
    }

    /// Whether a grant is in the set.
    pub fn contains(&self, grant: &Grant) -> (out: bool)
        ensures
            out == self@.contains(grant@),
    {
        self.position(grant).is_some()
    }

    /// Put a grant into the set. The result is whether it was not in it before.
    pub fn insert(&mut self, grant: Grant) -> (out: bool)
        requires
            old(self).well_formed(),
        ensures
            final(self).well_formed(),
            final(self)@ == old(self)@.insert(grant@),
            out == !old(self)@.contains(grant@),
    {
        if self.contains(&grant) {
            assert(self@.insert(grant@) =~= self@);
            return false;
        }
        let ghost before = grant_views(self.items@);
        self.items.push(grant);
        proof {
            let after = grant_views(self.items@);
            assert(after =~= before.push(grant@));
            before.lemma_push_to_set_commute(grant@);
            assert forall|i: int, j: int| 0 <= i < after.len() && 0 <= j < after.len() && i
                != j implies after[i] != after[j] by {
                if i == before.len() {
                    assert(before.contains(before[j]));
                } else if j == before.len() {
                    assert(before.contains(before[i]));
                }
            }
        }
        true
    }

    /// Take a grant out of the set. The result is whether it was in it.
    pub fn remove(&mut self, grant: &Grant) -> (out: bool)
        requires
            old(self).well_formed(),
        ensures
            final(self).well_formed(),
            final(self)@ == old(self)@.remove(grant@),
            out == old(self)@.contains(grant@),
    {
        match self.position(grant) {
            None => {
                assert(self@.remove(grant@) =~= self@);
                false
            },
            Some(i) => {
                let ghost before = grant_views(self.items@);
                let _ = self.items.remove(i);
                proof {
                    let after = grant_views(self.items@);
                    assert(after =~= before.remove(i as int));
                    assert forall|g: Grant<Seq<char>>| #[trigger]
                        after.to_set().contains(g) == before.to_set().remove(grant@).contains(
                            g,
                        ) by {
                        if after.contains(g) {
                            let k = choose|k: int| 0 <= k < after.len() && after[k] == g;
                            if k < i {
                                assert(before[k] == g);
                                assert(before[i as int] != before[k]);
                            } else {
                                assert(before[k + 1] == g);
                                assert(before[i as int] != before[k + 1]);
                            }
                        }
                        if before.contains(g) && g != grant@ {
                            let k = choose|k: int| 0 <= k < before.len() && before[k] == g;
                            if k < i {
                                assert(after[k] == g);
                            } else {
                                assert(after[k - 1] == g);
                            }
                        }
                    }
                    assert(after.to_set() =~= before.to_set().remove(grant@));
                    assert forall|a: int, b: int| 0 <= a < after.len() && 0 <= b < after.len()
                        && a != b implies after[a] != after[b] by {
                        let x = if a < i {
                            a
                        } else {
                            a + 1
                        };
                        let y = if b < i {
                            b
                        } else {
                            b + 1
                        };
                        assert(after[a] == before[x]);
                        assert(after[b] == before[y]);
                    }
                }
                true
            },
        }
    }

    /// Put a list of grants into the set.
    pub fn extend(&mut self, grants: Vec<Grant>)
        requires
            old(self).well_formed(),
        ensures
            final(self).well_formed(),
            final(self)@ == old(self)@.union(grant_views(grants@).to_set()),
    {
        let ghost before = self@;
        let ghost views = grant_views(grants@);
        let mut i: usize = 0;
        assert(self@ =~= before.union(views.take(0).to_set()));
        while i < grants.len()
            invariant
                i <= grants@.len(),
                self.well_formed(),
                views == grant_views(grants@),
                self@ == before.union(views.take(i as int).to_set()),
            decreases grants@.len() - i,
        {
            let grant = grants[i].copy();
            proof {
                assert(views.take(i as int + 1) =~= views.take(i as int).push(views[i as int]));
                views.take(i as int).lemma_push_to_set_commute(views[i as int]);
            }
            let _ = self.insert(grant);
            assert(self@ =~= before.union(views.take(i as int + 1).to_set()));
            i += 1;
        }
        assert(views.take(i as int) =~= views);
    }
}

/// Whether a call may run without asking.
#[derive(Debug, Clone, Copy, PartialEq, Eq, Structural)]
pub enum Decision {
    Allow,
    Ask,
}

/// What the user answers to a request.
#[derive(Debug, Clone, Copy, PartialEq, Eq, Structural)]
pub enum Answer {
    /// This very call may run, now and again in this session.
    Allowed,
    /// This call may run, and its family for this session.
    AllowedSession,
    /// This call and its family may run, also in later sessions.
    AllowedAlways,
    /// This call may not run.
    Denied,
    /// This call may not run in this session.
    DeniedSession,
    /// The run is to stop.
    Stop,
}

/// Whether an answer lets the call run.
pub open spec fn allowing(answer: Answer) -> bool {
    answer == Answer::Allowed || answer == Answer::AllowedSession || answer
        == Answer::AllowedAlways
}

/// What an answer means for the call.
pub open spec fn permission_of(answer: Answer) -> Permission {
    if allowing(answer) {
        Permission::Allowed
    } else {
        Permission::Denied
    }
}

impl Answer {
    /// Whether the answer lets the call run.
    pub fn allows(self) -> (out: bool)
        ensures
            out == allowing(self),
    {
        matches!(self, Answer::Allowed | Answer::AllowedSession | Answer::AllowedAlways)
    }

    /// What the answer means for the call.
    pub fn permission(self) -> (out: Permission)
        ensures
            out == permission_of(self),
    {
        if self.allows() {
            Permission::Allowed
        } else {
            Permission::Denied
        }
    }
}

/// The policy and the grants of a session.
pub struct PolicyState {
    pub policy: Policy,
    pub grants: GrantSet,
}

/// Whether a call may run without asking.
pub open spec fn decided(
    policy: Policy,
    grants: Set<Grant<Seq<char>>>,
    grant: Grant<Seq<char>>,
) -> Decision {
    match policy {
        Policy::Free => Decision::Allow,
        Policy::Strict => if grants.contains(grant) {
            Decision::Allow
        } else {
            Decision::Ask
        },
        Policy::Slip => if grants.contains(grant) || grants.contains(family_of(grant)) {
            Decision::Allow
        } else {
            Decision::Ask
        },
    }
}

/// The grants with a grant and its family.
pub open spec fn promoted(
    grants: Set<Grant<Seq<char>>>,
    grant: Grant<Seq<char>>,
) -> Set<Grant<Seq<char>>> {
    grants.insert(family_of(grant)).insert(grant)
}

/// The grants after an answer. A call that is allowed is granted for itself; its
/// family is granted too where the answer is for the session or for always.
pub open spec fn answered_grants(
    grants: Set<Grant<Seq<char>>>,
    grant: Grant<Seq<char>>,
    answer: Answer,
) -> Set<Grant<Seq<char>>> {
    match answer {
        Answer::Allowed => grants.insert(grant),
        Answer::AllowedSession | Answer::AllowedAlways => promoted(grants, grant),
        Answer::Denied | Answer::DeniedSession | Answer::Stop => grants,
    }
}

impl PolicyState {
    /// No grant is there twice.
    pub open spec fn well_formed(&self) -> bool {
        self.grants.well_formed()
    }

    /// Whether a call may run without asking.
    pub fn decide(&self, call: &ToolCall) -> (out: Decision)
        ensures
            out == decided(self.policy, self.grants@, grant_for(call.name@, call.arguments@)),
    {
        match self.policy {
            Policy::Free => Decision::Allow,
            Policy::Strict => {
                if self.grants.contains(&Grant::of(call)) {
                    Decision::Allow
                } else {
                    Decision::Ask
                }
            },
            Policy::Slip => {
                let grant = Grant::of(call);
                if self.grants.contains(&grant) || self.grants.contains(&grant.family()) {
                    Decision::Allow
                } else {
                    Decision::Ask
                }
            },
        }
    }

    /// Grant a call and its family.
    pub fn promote(&mut self, grant: Grant)
        requires
            old(self).well_formed(),
        ensures
            final(self).well_formed(),
            final(self).policy == old(self).policy,
            final(self).grants@ == promoted(old(self).grants@, grant@),
    {
        let _ = self.grants.insert(grant.family());
        let _ = self.grants.insert(grant);
    }
}

/// The policy of a session.
pub struct ToolPolicy {
    pub state: PolicyState,
}

/// What an answer leads to.
pub struct Answered {
    pub permission: Permission,
    /// The grants that are to be kept for later sessions, in order.
    pub persist: Vec<Grant>,
}

/// The grants that an answer keeps for later sessions.
pub open spec fn persisted(grant: Grant<Seq<char>>, answer: Answer) -> Seq<Grant<Seq<char>>> {
    if answer != Answer::AllowedAlways {
        Seq::empty()
    } else if grant.args is Some {
        seq![grant, family_of(grant)]
    } else {
        seq![grant]
    }
}

impl ToolPolicy {
    /// No grant is there twice.
    pub open spec fn well_formed(&self) -> bool {
        self.state.well_formed()
    }

    /// The strict policy without grants.
    pub fn new() -> (out: ToolPolicy)
        ensures
            out.well_formed(),
            out.state.policy == Policy::Strict,
            out.state.grants@ == Set::<Grant<Seq<char>>>::empty(),
    {
        ToolPolicy { state: PolicyState { policy: Policy::Strict, grants: GrantSet::new() } }
    }

    /// Whether a call may run by the grants at hand. Only where this asks are
    /// the kept grants to be read.
    pub fn consult(&self, call: &ToolCall) -> (out: Decision)
        ensures
            out == decided(
                self.state.policy,
                self.state.grants@,
                grant_for(call.name@, call.arguments@),
            ),
    {
        self.state.decide(call)
    }

    /// Whether a call may run: by the grants at hand, or else with the kept
    /// grants added to them. Grants that could not be read add nothing, and the
    /// user is asked.
    pub fn check(&mut self, call: &ToolCall, kept: Result<Vec<Grant>, String>) -> (out: Decision)
        requires
            old(self).well_formed(),
        ensures
            final(self).well_formed(),
            final(self).state.policy == old(self).state.policy,
            ({
                let policy = old(self).state.policy;
                let grant = grant_for(call.name@, call.arguments@);
                if decided(policy, old(self).state.grants@, grant) == Decision::Allow {
                    *final(self) == *old(self) && out == Decision::Allow
                } else {
                    match kept {
                        Ok(grants) => {
                            let all = old(self).state.grants@.union(grant_views(grants@).to_set());
                            &&& final(self).state.grants@ == all
                            &&& out == decided(policy, all, grant)
                        },
                        Err(_) => *final(self) == *old(self) && out == Decision::Ask,
                    }
                }
            }),
    {
        if self.state.decide(call) == Decision::Allow {
            return Decision::Allow;
        }
        match kept {
            Ok(grants) => {
                self.state.grants.extend(grants);
                self.state.decide(call)
            },
            Err(_) => Decision::Ask,
        }
    }

    /// Take in an answer. One that lets the call run grants it, and its family
    /// where the answer is for the session or for always; any other changes
    /// nothing.
    pub fn answer(&mut self, grant: Grant, answer: Answer) -> (out: Answered)
        requires
            old(self).well_formed(),
        ensures
            final(self).well_formed(),
            final(self).state.policy == old(self).state.policy,
            final(self).state.grants@ == answered_grants(old(self).state.grants@, grant@, answer),
            out.permission == permission_of(answer),
            grant_views(out.persist@) == persisted(grant@, answer),
    {
        let mut persist: Vec<Grant> = Vec::new();
        assert(grant_views(persist@) =~= Seq::empty());
        if answer.allows() {
            if answer == Answer::Allowed {
                let _ = self.state.grants.insert(grant.copy());
            } else {
                self.state.promote(grant.copy());
            }
            if answer == Answer::AllowedAlways {
                let family = grant.family();
                let exact = grant.args.is_some();
                persist.push(grant);
                if exact {
                    persist.push(family);
                }
                assert(grant_views(persist@) =~= persisted(grant@, answer));
            }
        }
        Answered { permission: answer.permission(), persist }
    }

    /// Change the policy.
    pub fn set_policy(&mut self, policy: Policy)
        ensures
            final(self).state.policy == policy,
            final(self).state.grants == old(self).state.grants,
    {
        self.state.policy = policy;
    }
}

/// A request that the user is asked to answer.
#[derive(Debug, Clone, PartialEq, Eq)]
pub struct PermissionRequest {
    pub id: u64,
    pub name: String,
    pub arguments: String,
}

/// The requests that wait for an answer.
pub struct AlanPermissionManager {
    pub policy: ToolPolicy,
    pub pending: HashMap<u64, Grant>,
    /// The identifier of the next request.
    pub next_id: u64,
}

/// What is done about a call.
pub enum Authorization {
    /// It may run.
    Allowed,
    /// The user is to be asked.
    Ask(PermissionRequest),
}

impl AlanPermissionManager {
    /// No grant is there twice.
    pub open spec fn well_formed(&self) -> bool {
        self.policy.well_formed()
    }

    /// No request waits.
    pub fn init(policy: ToolPolicy) -> (out: AlanPermissionManager)
        requires
            policy.well_formed(),
        ensures
            out.well_formed(),
            out.policy == policy,
            out.pending@ == Map::<u64, Grant>::empty(),
            out.next_id == 1,
    {
        AlanPermissionManager { policy, pending: HashMap::new(), next_id: 1 }
    }

    /// What is done about a call: one that only reads may run, and one that the
    /// policy allows; of any other the user is asked, by a request of its own.
    pub fn authorize(&mut self, call: &ToolCall, reads_only: bool, decision: Decision) -> (out:
        Authorization)
        requires
            old(self).well_formed(),
        ensures
            final(self).well_formed(),
            final(self).policy == old(self).policy,
            final(self).pending == old(self).pending,
            if reads_only || decision == Decision::Allow {
                out is Allowed && final(self).next_id == old(self).next_id
            } else {
                &&& out is Ask
                &&& out->Ask_0.id == old(self).next_id
                &&& out->Ask_0.name == call.name
                &&& out->Ask_0.arguments == call.arguments
                &&& final(self).next_id == vstd::wrapping::u64_specs::wrapping_add(
                    old(self).next_id,
                    1,
                )
            },
    {
        if reads_only || decision == Decision::Allow {
            return Authorization::Allowed;
        }
        let id = self.next_id;
        self.next_id = self.next_id.wrapping_add(1);
        Authorization::Ask(
            PermissionRequest { id, name: call.name.clone(), arguments: call.arguments.clone() },
        )
    }

    /// Take in a request. One that reached nobody is dropped, and denied.
    pub fn request(&mut self, request: &PermissionRequest, delivered: bool) -> (out: Option<
        Permission,
    >)
        requires
            old(self).well_formed(),
        ensures
            final(self).well_formed(),
            final(self).policy == old(self).policy,
            final(self).next_id == old(self).next_id,
            if delivered {
                &&& out is None
                &&& final(self).pending@.dom() == old(self).pending@.dom().insert(request.id)
                &&& final(self).pending@[request.id]@ == grant_for(
                    request.name@,
                    request.arguments@,
                )
                &&& forall|id: u64|
                    id != request.id && old(self).pending@.contains_key(id) ==> final(
                        self).pending@[id] == #[trigger] old(self).pending@[id]
            } else {
                out == Some(Permission::Denied) && final(self).pending == old(self).pending
            },
    {
        broadcast use vstd::std_specs::hash::group_hash_axioms;

        if !delivered {
            return Some(Permission::Denied);
        }
        let grant = parse_command(request.name.as_str(), request.arguments.as_str());
        let _ = self.pending.insert(request.id, grant);
        assert(self.pending@.dom() =~= old(self).pending@.dom().insert(request.id));
        None
    }

    /// Take in an answer to a request. An answer to a request that does not wait
    /// is ignored.
    pub fn respond(&mut self, id: u64, answer: Answer) -> (out: Option<Answered>)
        requires
            old(self).well_formed(),
        ensures
            final(self).well_formed(),
            final(self).next_id == old(self).next_id,
            final(self).pending@ == old(self).pending@.remove(id),
            if old(self).pending@.contains_key(id) {
                let grant = old(self).pending@[id];
                &&& out is Some
                &&& out->0.permission == permission_of(answer)
                &&& grant_views(out->0.persist@) == persisted(grant@, answer)
                &&& final(self).policy.state.policy == old(self).policy.state.policy
                &&& final(self).policy.state.grants@ == answered_grants(
                    old(self).policy.state.grants@,
                    grant@,
                    answer,
                )
            } else {
                out is None && final(self).policy == old(self).policy
            },
    {
        broadcast use vstd::std_specs::hash::group_hash_axioms;

        match self.pending.remove(&id) {
            None => {
                assert(self.pending@ =~= old(self).pending@.remove(id));
                None
            },
            Some(grant) => Some(self.policy.answer(grant, answer)),
        }
    }
}

/// A call that was allowed once may run again without asking, by any policy.
pub proof fn an_allowed_call_is_not_asked_again(
    policy: Policy,
    grants: Set<Grant<Seq<char>>>,
    grant: Grant<Seq<char>>,
    answer: Answer,
)
    requires
        allowing(answer),
    ensures
        decided(policy, answered_grants(grants, grant, answer), grant) == Decision::Allow,
{
}

/// By the slip policy a call that is allowed for the session, or for always, lets
/// its whole family run.
pub proof fn slip_allows_the_family(
    grants: Set<Grant<Seq<char>>>,
    grant: Grant<Seq<char>>,
    other: Grant<Seq<char>>,
    answer: Answer,
)
    requires
        answer == Answer::AllowedSession || answer == Answer::AllowedAlways,
        other.command == grant.command,
    ensures
        decided(Policy::Slip, answered_grants(grants, grant, answer), other) == Decision::Allow,
{
    assert(family_of(other) == family_of(grant));
}

/// A call with arguments that is allowed for itself alone lets no other call run,
/// by any policy: neither one of its family, nor the bare command.
pub proof fn an_allowed_call_speaks_for_itself(
    policy: Policy,
    grants: Set<Grant<Seq<char>>>,
    grant: Grant<Seq<char>>,
    other: Grant<Seq<char>>,
)
    requires
        grant.args is Some,
        other != grant,
    ensures
        decided(policy, answered_grants(grants, grant, Answer::Allowed), other) == decided(
            policy,
            grants,
            other,
        ),
{
}

/// By the strict policy an allowed call lets no other call run. Where the answer
/// is for the session or for always, that is so of every call with arguments:
/// the bare command then has the grant of the family.
pub proof fn strict_allows_only_the_call_itself(
    grants: Set<Grant<Seq<char>>>,
    grant: Grant<Seq<char>>,
    other: Grant<Seq<char>>,
    answer: Answer,
)
    requires
        other != grant,
        answer == Answer::AllowedSession || answer == Answer::AllowedAlways ==> other.args is Some,
    ensures
        decided(Policy::Strict, answered_grants(grants, grant, answer), other) == decided(
            Policy::Strict,
            grants,
            other,
        ),
{
}

/// An answer that denies a call grants nothing.
pub proof fn denials_grant_nothing(
    grants: Set<Grant<Seq<char>>>,
    grant: Grant<Seq<char>>,
    answer: Answer,
)
    requires
        !allowing(answer),
    ensures
        answered_grants(grants, grant, answer) == grants,
        persisted(grant, answer) == Seq::<Grant<Seq<char>>>::empty(),
{
}

/// What may run without asking goes on to, however many grants are added.
pub proof fn grants_never_take_back(
    policy: Policy,
    grants: Set<Grant<Seq<char>>>,
    more: Set<Grant<Seq<char>>>,
    grant: Grant<Seq<char>>,
)
    requires
        decided(policy, grants, grant) == Decision::Allow,
    ensures
        decided(policy, grants.union(more), grant) == Decision::Allow,
{
}

/// A policy that asks less allows whatever a stricter one does.
pub proof fn policies_are_ordered(grants: Set<Grant<Seq<char>>>, grant: Grant<Seq<char>>)
    ensures
        decided(Policy::Strict, grants, grant) == Decision::Allow ==> decided(
            Policy::Slip,
            grants,
            grant,
        ) == Decision::Allow,
        decided(Policy::Free, grants, grant) == Decision::Allow,
{
}

/// White space between the words of a shell command does not matter: commands
/// with the same words have the same grant.
pub proof fn spacing_does_not_matter(name: Seq<char>, a: Seq<char>, b: Seq<char>)
    requires
        words(a) == words(b),
    ensures
        grant_for(name, a) == grant_for(name, b),
{
}

proof fn lemma_joined_words_differ(a: Seq<char>, b: Seq<char>)
    requires
        join(words(a), " "@) == join(words(b), " "@),
    ensures
        words(a) == words(b),
{
    joining_keeps_the_words(a);
    joining_keeps_the_words(b);
}

proof fn lemma_shell_words(all: Seq<Seq<char>>)
    requires
        forall|i: int| 0 <= i < all.len() ==> is_word(#[trigger] all[i]),
        all.len() >= 2,
    ensures
        words(join(all.skip(1), " "@)) == all.skip(1),
{
    let rest = all.skip(1);
    assert forall|i: int| 0 <= i < rest.len() implies is_word(#[trigger] rest[i]) by {
        assert(rest[i] == all[i + 1]);
    }
    joined_words_are_read_back(rest);
}

/// Two calls have the same grant only where they are calls of the same tool with
/// the same words in the same order: no grant of a call lets another call run. (The
/// shell and another tool are not compared: the shell may run a command that has
/// the name of a tool.)
pub proof fn grants_tell_calls_apart(
    name: Seq<char>,
    arguments: Seq<char>,
    other_name: Seq<char>,
    other_arguments: Seq<char>,
)
    requires
        name == "bash"@ <==> other_name == "bash"@,
        grant_for(name, arguments) == grant_for(other_name, other_arguments),
    ensures
        name == other_name,
        words(arguments) == words(other_arguments),
{
    let all = words(arguments);
    let others = words(other_arguments);
    words_are_words(arguments);
    words_are_words(other_arguments);
    if name != "bash"@ {
        lemma_joined_words_differ(arguments, other_arguments);
    } else if all.len() < 2 {
        lemma_joined_words_differ(arguments, other_arguments);
    } else {
        lemma_shell_words(all);
        lemma_shell_words(others);
        assert(all =~= seq![all[0]] + all.skip(1));
        assert(others =~= seq![others[0]] + others.skip(1));
    }
}

/// By the strict policy a call runs unasked, after another was allowed for itself,
/// only where it is the same call: the same tool with the same words.
pub proof fn strict_asks_about_every_other_call(
    name: Seq<char>,
    approved: Seq<char>,
    arguments: Seq<char>,
)
    ensures
        decided(
            Policy::Strict,
            answered_grants(Set::empty(), grant_for(name, approved), Answer::Allowed),
            grant_for(name, arguments),
        ) == Decision::Allow <==> words(approved) == words(arguments),
{
    if grant_for(name, approved) == grant_for(name, arguments) {
        grants_tell_calls_apart(name, approved, name, arguments);
    }
}

/// By the slip policy a shell command runs unasked, after another was allowed for
/// the session, exactly where both run the same program, which is the first word of
/// each.
pub proof fn slip_goes_by_the_program(approved: Seq<char>, arguments: Seq<char>)
    requires
        words(approved).len() > 0,
        words(arguments).len() > 0,
    ensures
        decided(
            Policy::Slip,
            answered_grants(Set::empty(), grant_for("bash"@, approved), Answer::AllowedSession),
            grant_for("bash"@, arguments),
        ) == Decision::Allow <==> words(approved)[0] == words(arguments)[0],
{
    lemma_shell_command(approved);
    lemma_shell_command(arguments);
    let approved_grant = grant_for("bash"@, approved);
    let grant = grant_for("bash"@, arguments);
    if approved_grant.command == grant.command {
        assert(family_of(approved_grant) == family_of(grant));
    }
}

proof fn lemma_shell_command(arguments: Seq<char>)
    requires
        words(arguments).len() > 0,
    ensures
        grant_for("bash"@, arguments).command == words(arguments)[0],
{
    let all = words(arguments);
    if all.len() == 1 {
        assert(all =~= seq![all[0]]);
    }
}

/// By the slip policy a tool runs unasked, after it was allowed for the session,
/// whatever its arguments; another tool does not.
pub proof fn slip_goes_by_the_tool(
    name: Seq<char>,
    approved: Seq<char>,
    other: Seq<char>,
    arguments: Seq<char>,
)
    requires
        name != "bash"@,
        other != "bash"@,
    ensures
        decided(
            Policy::Slip,
            answered_grants(Set::empty(), grant_for(name, approved), Answer::AllowedSession),
            grant_for(other, arguments),
        ) == Decision::Allow <==> name == other,
{
    let approved_grant = grant_for(name, approved);
    let grant = grant_for(other, arguments);
    if name == other {
        assert(family_of(approved_grant) == family_of(grant));
    }
}

/// Without grants the strict and the slip policy ask about every call, and the free
/// policy about none.
pub proof fn nothing_is_granted_at_first(grant: Grant<Seq<char>>)
    ensures
        decided(Policy::Strict, Set::empty(), grant) == Decision::Ask,
        decided(Policy::Slip, Set::empty(), grant) == Decision::Ask,
        decided(Policy::Free, Set::empty(), grant) == Decision::Allow,
{
}

/// An answer lets the call run now exactly where the call is granted from then on.
pub proof fn answers_hold_now_and_later(grant: Grant<Seq<char>>, answer: Answer)
    ensures
        permission_of(answer) == Permission::Allowed <==> decided(
            Policy::Strict,
            answered_grants(Set::empty(), grant, answer),
            grant,
        ) == Decision::Allow,
        permission_of(answer) == Permission::Denied <==> answer == Answer::Denied || answer
            == Answer::DeniedSession || answer == Answer::Stop,
{
}

/// What is kept for later sessions lets the same call run again there, by any policy,
/// and its family by the slip policy. Only an answer for always keeps anything.
pub proof fn kept_grants_allow_the_call_later(
    policy: Policy,
    grant: Grant<Seq<char>>,
    other: Grant<Seq<char>>,
    answer: Answer,
)
    ensures
        answer == Answer::AllowedAlways ==> decided(
            policy,
            persisted(grant, answer).to_set(),
            grant,
        ) == Decision::Allow,
        answer == Answer::AllowedAlways && other.command == grant.command ==> decided(
            Policy::Slip,
            persisted(grant, answer).to_set(),
            other,
        ) == Decision::Allow,
        answer == Answer::AllowedAlways && other.args is Some && other != grant ==> decided(
            Policy::Strict,
            persisted(grant, answer).to_set(),
            other,
        ) == Decision::Ask,
        answer != Answer::AllowedAlways ==> persisted(grant, answer).len() == 0,
{
    let kept = persisted(grant, answer);
    if answer == Answer::AllowedAlways {
        assert(kept[0] == grant);
        assert(kept.to_set().contains(grant));
        if grant.args is Some {
            assert(kept[1] == family_of(grant));
        } else {
            assert(family_of(grant) == grant);
        }
        assert(kept.to_set().contains(family_of(grant)));
        assert(family_of(other).command == other.command);
        if other.command == grant.command {
            assert(family_of(other) == family_of(grant));
        }
        if kept.contains(other) {
            let i = choose|i: int| 0 <= i < kept.len() && kept[i] == other;
            assert(i == 0 || other == family_of(grant));
        }
    }
}

/// The shell and another tool share a grant only where the shell runs a program of the
/// tool's name, with the words that the tool is called with.
pub proof fn the_shell_shares_grants_by_name_only(
    arguments: Seq<char>,
    name: Seq<char>,
    other_arguments: Seq<char>,
)
    requires
        name != "bash"@,
        grant_for("bash"@, arguments) == grant_for(name, other_arguments),
    ensures
        words(arguments) == seq![name] + words(other_arguments),
        words(other_arguments).len() > 0,
{
    let all = words(arguments);
    words_are_words(arguments);
    words_are_words(other_arguments);
    let rest = all.skip(1);
    assert forall|i: int| 0 <= i < rest.len() implies is_word(#[trigger] rest[i]) by {
        assert(rest[i] == all[i + 1]);
    }
    joined_words_are_read_back(rest);
    joined_words_are_read_back(words(other_arguments));
    assert(all =~= seq![name] + words(other_arguments));
}

} // verus!
