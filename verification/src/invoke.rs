//! One-shot invocation of an assistant: creating it with its exact input,
//! claiming it under one fenced attempt, and completing it once.
//!
//! A worker writes under an attempt binding: the attempt at its current fence
//! epoch, both the attempt and its invocation running. Whatever ends either,
//! or advances the fence, refuses everything the worker presents afterwards.

use vstd::prelude::*;

use crate::assistant_ops::{Deployment, DeploymentStatus};
use crate::digests::{digested, digests_all};
use crate::documents::{creation_authority_document, creation_authority_subject,
    effective_config_document, effective_config_subject, effective_policy_document,
    effective_policy_subject, input_manifest_document, input_manifest_subject,
    manual_trigger_document, manual_trigger_subject, secret_bindings_document,
    secret_bindings_subject};
use crate::journal::{Actor, ActorView, EventKind, EventView, Journal, JournalView, NewEvent};
use crate::problem::{internal, internal_view, not_found, not_found_view, problem, refusal,
    refusal_with, stale_revision, stale_revision_view, Problem, ProblemKind, ProblemView};
use crate::json::{members, nullable, nullable_text, number_member, object, put, put_number,
    put_text, text_member, Json, JsonView};
use crate::records::{announced, append_command_payload, carrying, command_event, command_name, given_or,
    or_else, scope_digest, visible, visible_space, Meta, Participant, ParticipantKind,
    ParticipantRole, Session, Workspace};
use crate::table::{key1, Key, Row, Table};
use crate::text::{cat2, cat4, opt_view, same};

use vstd::string::*;

verus! {

// -------------------------------------------------------------- records ----

#[derive(Debug, Clone, Copy, PartialEq, Eq, Structural)]
pub enum InvocationState {
    Queued,
    Claimed,
    Running,
    Succeeded,
    Failed,
    Canceled,
}

impl InvocationState {
    pub open spec fn name(self) -> Seq<char> {
        match self {
            InvocationState::Queued => "queued"@,
            InvocationState::Claimed => "claimed"@,
            InvocationState::Running => "running"@,
            InvocationState::Succeeded => "succeeded"@,
            InvocationState::Failed => "failed"@,
            InvocationState::Canceled => "canceled"@,
        }
    }

    pub fn as_str(self) -> (r: &'static str)
        ensures
            r@ == self.name(),
    {
        match self {
            InvocationState::Queued => "queued",
            InvocationState::Claimed => "claimed",
            InvocationState::Running => "running",
            InvocationState::Succeeded => "succeeded",
            InvocationState::Failed => "failed",
            InvocationState::Canceled => "canceled",
        }
    }

    pub open spec fn terminal(self) -> bool {
        self is Succeeded || self is Failed || self is Canceled
    }

    pub fn is_terminal(self) -> (r: bool)
        ensures
            r == self.terminal(),
    {
        match self {
            InvocationState::Succeeded | InvocationState::Failed | InvocationState::Canceled => {
                true
            },
            _ => false,
        }
    }
}

/// One input of an invocation, pinned by its digest.
#[derive(Debug)]
pub struct ItemRef {
    pub object_ref: String,
    pub digest: String,
}

impl ItemRef {
    fn copy(&self) -> (r: ItemRef)
        ensures
            r.object_ref@ == self.object_ref@,
            r.digest@ == self.digest@,
    {
        ItemRef { object_ref: self.object_ref.clone(), digest: self.digest.clone() }
    }
}

/// Whether two lists of inputs name the same objects by the same digests.
pub open spec fn same_items(a: Seq<ItemRef>, b: Seq<ItemRef>) -> bool {
    &&& a.len() == b.len()
    &&& forall|i: int|
        0 <= i < a.len() ==> (#[trigger] a[i]).object_ref@ == b[i].object_ref@ && a[i].digest@
            == b[i].digest@
}

fn copy_items(items: &Vec<ItemRef>) -> (r: Vec<ItemRef>)
    ensures
        same_items(r@, items@),
{
    let mut out: Vec<ItemRef> = Vec::new();
    let mut i: usize = 0;
    while i < items.len()
        invariant
            i <= items.len(),
            out.len() == i,
            forall|j: int|
                0 <= j < i ==> (#[trigger] out@[j]).object_ref@ == items@[j].object_ref@
                    && out@[j].digest@ == items@[j].digest@,
        decreases items.len() - i,
    {
        out.push(items[i].copy());
        i = i + 1;
    }
    out
}

/// An immutable selection of inputs from one space.
#[derive(Debug)]
pub struct Assembly {
    pub assembly_id: String,
    pub project_id: String,
    pub space_id: String,
    pub digest: String,
    pub frontier_ref: String,
    pub frontier_digest: String,
    pub items: Vec<ItemRef>,
}

impl Row for Assembly {
    open spec fn key(&self) -> Key {
        key1(self.assembly_id@)
    }

    fn has_key(&self, a: &str, b: &str) -> (r: bool) {
        proof {
            crate::text::empty_is(b@);
        }
        same(self.assembly_id.as_str(), a) && b.is_empty()
    }
}

/// A pinned frontier of a space.
#[derive(Debug)]
pub struct Frontier {
    pub frontier_id: String,
    pub space_id: String,
    pub branch_id: String,
    pub branch_head_digest: String,
}

impl Row for Frontier {
    open spec fn key(&self) -> Key {
        key1(self.frontier_id@)
    }

    fn has_key(&self, a: &str, b: &str) -> (r: bool) {
        proof {
            crate::text::empty_is(b@);
        }
        same(self.frontier_id.as_str(), a) && b.is_empty()
    }
}

/// The contexts that invocations are given.
pub struct Contexts {
    pub assemblies: Table<Assembly>,
    pub frontiers: Table<Frontier>,
}

impl Contexts {
    pub open spec fn wf(&self) -> bool {
        self.assemblies.wf() && self.frontiers.wf()
    }

    pub fn new() -> (r: Contexts)
        ensures
            r.wf(),
            r.assemblies.rows@.len() == 0,
            r.frontiers.rows@.len() == 0,
    {
        Contexts { assemblies: Table::new(), frontiers: Table::new() }
    }
}

/// The exact input an invocation is created with.
#[derive(Debug)]
pub struct InputManifest {
    pub input_manifest_id: String,
    pub invocation_id: String,
    pub trigger_ref: String,
    pub trigger_digest: String,
    pub space_id: Option<String>,
    pub branch_id: Option<String>,
    pub frontier_ref: Option<String>,
    pub frontier_digest: Option<String>,
    pub context_assembly_ref: Option<String>,
    pub context_assembly_digest: Option<String>,
    pub ordered_input_refs: Vec<ItemRef>,
    pub assistant_revision_id: String,
    pub deployment_revision: u64,
    pub config_digest: String,
    pub secret_binding_set_digest: String,
    pub policy_digest: String,
    pub disclosure_rules_digest: Option<String>,
    pub deadline: Option<String>,
    pub budget_reservation_set_ref: Option<String>,
    pub authority_digest: String,
    pub digest: String,
    pub created_at: String,
}

impl Row for InputManifest {
    open spec fn key(&self) -> Key {
        key1(self.input_manifest_id@)
    }

    fn has_key(&self, a: &str, b: &str) -> (r: bool) {
        proof {
            crate::text::empty_is(b@);
        }
        same(self.input_manifest_id.as_str(), a) && b.is_empty()
    }
}

#[derive(Debug)]
pub struct Invocation {
    pub invocation_id: String,
    pub realm_id: String,
    pub project_id: String,
    pub space_id: Option<String>,
    pub branch_id: Option<String>,
    pub assistant_deployment_id: String,
    pub assistant_deployment_revision: u64,
    pub assistant_revision_id: String,
    pub effective_config_ref: String,
    pub effective_config_digest: String,
    pub secret_binding_set_ref: String,
    pub secret_binding_set_digest: String,
    pub effective_policy_digest: String,
    pub effective_security_profile: String,
    pub rollout_decision_ref: String,
    pub trigger_ref: String,
    pub trigger_digest: String,
    pub context_assembly_ref: Option<String>,
    pub context_assembly_digest: Option<String>,
    pub input_manifest_ref: String,
    pub input_digest: String,
    pub correlation_ref: String,
    pub causation_ref: Option<String>,
    pub state: InvocationState,
    pub revision: u64,
    pub priority: i64,
    pub not_before: String,
    pub deadline: Option<String>,
    pub max_attempts: u64,
    pub budget_reservation_set_ref: Option<String>,
    pub created_at: String,
    pub terminal_at: Option<String>,
}

impl Row for Invocation {
    open spec fn key(&self) -> Key {
        key1(self.invocation_id@)
    }

    fn has_key(&self, a: &str, b: &str) -> (r: bool) {
        proof {
            crate::text::empty_is(b@);
        }
        same(self.invocation_id.as_str(), a) && b.is_empty()
    }
}

#[derive(Debug, Clone, Copy, PartialEq, Eq, Structural)]
pub enum AttemptState {
    Running,
    Succeeded,
    Canceled,
}

/// One fenced attempt at an invocation.
#[derive(Debug)]
pub struct AttemptRow {
    pub attempt_id: String,
    pub invocation_id: String,
    pub ordinal: u64,
    pub worker_instance_id: String,
    pub fence_epoch: u64,
    pub state: AttemptState,
    pub started_at: String,
    pub ended_at: Option<String>,
    pub result_ref: Option<String>,
}

impl Row for AttemptRow {
    open spec fn key(&self) -> Key {
        key1(self.attempt_id@)
    }

    fn has_key(&self, a: &str, b: &str) -> (r: bool) {
        proof {
            crate::text::empty_is(b@);
        }
        same(self.attempt_id.as_str(), a) && b.is_empty()
    }
}

/// The invocations of a realm, their inputs and their attempts.
pub struct Invocations {
    pub invocations: Table<Invocation>,
    pub manifests: Table<InputManifest>,
    pub attempts: Table<AttemptRow>,
}

/// An invocation has an end exactly when it is over.
pub open spec fn ends_when_over(rows: Seq<Invocation>) -> bool {
    forall|i: int|
        0 <= i < rows.len() ==> ((#[trigger] rows[i]).state.terminal() <==> rows[i].terminal_at
            is Some)
}

/// The identifier of an invocation's one attempt.
pub open spec fn attempt_of(invocation: Seq<char>) -> Seq<char> {
    "att-"@ + invocation
}

/// Two invocations' attempts have one name only where the invocations have.
pub proof fn attempt_names(a: Seq<char>, b: Seq<char>)
    requires
        attempt_of(a) == attempt_of(b),
    ensures
        a == b,
{
    let n = "att-"@.len() as int;
    assert(a =~= attempt_of(a).skip(n));
    assert(b =~= attempt_of(b).skip(n));
}

/// Only a claimed invocation has an attempt: none that still waits in the queue
/// has one, and an attempt under an invocation's name is that invocation's.
pub open spec fn attempts_claimed(
    invocations: Map<Key, Invocation>,
    attempts: Seq<AttemptRow>,
) -> bool {
    &&& forall|i: int|
        0 <= i < attempts.len() ==> {
            let k = key1((#[trigger] attempts[i]).invocation_id@);
            invocations.contains_key(k) && invocations[k].state !is Queued
        }
    &&& forall|i: int, id: Seq<char>|
        0 <= i < attempts.len() && (#[trigger] attempts[i]).attempt_id@ == #[trigger] attempt_of(id)
            ==> attempts[i].invocation_id@ == id
}

impl Invocations {
    pub open spec fn wf(&self) -> bool {
        &&& self.invocations.wf()
        &&& self.manifests.wf()
        &&& self.attempts.wf()
        &&& ends_when_over(self.invocations.rows@)
        &&& attempts_claimed(self.invocations@, self.attempts.rows@)
    }

    pub fn new() -> (r: Invocations)
        ensures
            r.wf(),
            r.invocations.rows@.len() == 0,
            r.manifests.rows@.len() == 0,
            r.attempts.rows@.len() == 0,
    {
        Invocations { invocations: Table::new(), manifests: Table::new(), attempts: Table::new() }
    }
}

/// An invocation that is over stays exactly as it is.
pub open spec fn keeps_terminals(before: Invocations, after: Invocations) -> bool {
    forall|k: Key|
        before.invocations@.contains_key(k) && (
        #[trigger] before.invocations@[k]).state.terminal() ==> after.invocations@.contains_key(k)
            && after.invocations@[k] == before.invocations@[k]
}

/// The actor that a deployment's attempts write as.
pub open spec fn deployment_actor(deployment_id: Seq<char>) -> Seq<char> {
    "asstdep-"@ + deployment_id
}

/// The actor that a deployment's attempts write as.
pub fn deployment_actor_ref(deployment_id: &str) -> (r: String)
    ensures
        r@ == deployment_actor(deployment_id@),
{
    cat2("asstdep-", deployment_id)
}

/// The event of a worker's command.
pub open spec fn worker_event(
    kind: EventKind,
    stream: Seq<char>,
    project: Seq<char>,
    actor: Seq<char>,
    schema: Seq<char>,
    resource: Seq<char>,
    revision: Option<u64>,
    meta: Meta,
    payload: JsonView,
) -> EventView {
    EventView {
        kind,
        stream_id: stream,
        project_id: Some(project),
        actor: ActorView::Named(actor),
        schema_ref: schema,
        resource_ref: resource,
        resource_revision: revision,
        causation_ref: opt_view(meta.causation_event_ref),
        correlation_ref: meta.request_id@,
        classification_ref: None,
        payload: Some(payload),
        once: false,
        named: None,
    }
}

pub(crate) fn append_worker_event(
    journal: &mut Journal,
    kind: EventKind,
    stream: &str,
    project: &str,
    actor: &str,
    schema: &str,
    resource: &str,
    revision: Option<u64>,
    meta: &Meta,
    payload: Json,
)
    ensures
        final(journal)@ == old(journal)@.with_event(
            worker_event(
                kind,
                stream@,
                project@,
                actor@,
                schema@,
                resource@,
                revision,
                *meta,
                payload@,
            ),
        ),
{
    journal.event(
        NewEvent {
            kind,
            stream_id: stream.to_owned(),
            project_id: Some(project.to_owned()),
            actor: Actor::Named(actor.to_owned()),
            schema_ref: schema.to_owned(),
            resource_ref: resource.to_owned(),
            resource_revision: revision,
            causation_ref: meta.causation_event_ref.clone(),
            correlation_ref: meta.request_id.clone(),
            classification_ref: None,
            payload: Some(payload),
            once: false,
            named: None,
        },
    );
}

/// What is announced of a new invocation.
pub open spec fn queued_document(invocation: Invocation) -> JsonView {
    JsonView::Object(
        seq![
            text_member("assistant_deployment_id"@, invocation.assistant_deployment_id@),
            ("context_assembly_ref"@, nullable(opt_view(invocation.context_assembly_ref))),
            text_member("invocation_id"@, invocation.invocation_id@),
            text_member("state"@, "queued"@),
        ],
    )
}

/// What is announced of a new invocation.
pub fn queued_payload(invocation: &Invocation) -> (r: Json)
    ensures
        r@ == queued_document(*invocation),
{
    let mut v: Vec<(String, Json)> = Vec::new();
    put_text(&mut v, "assistant_deployment_id", invocation.assistant_deployment_id.as_str());
    put(&mut v, "context_assembly_ref", nullable_text(&invocation.context_assembly_ref));
    put_text(&mut v, "invocation_id", invocation.invocation_id.as_str());
    put_text(&mut v, "state", "queued");
    proof {
        assert(members(v@) =~= queued_document(*invocation)->Object_0);
    }
    object(v)
}

/// What is announced of an invocation that an attempt starts.
pub open spec fn running_document(
    invocation_id: Seq<char>,
    attempt_id: Seq<char>,
    fence_epoch: u64,
) -> JsonView {
    JsonView::Object(
        seq![
            text_member("attempt_id"@, attempt_id),
            number_member("fence_epoch"@, fence_epoch),
            text_member("invocation_id"@, invocation_id),
            text_member("state"@, "running"@),
        ],
    )
}

/// What is announced of an invocation that an attempt starts.
pub fn running_payload(invocation_id: &str, attempt_id: &str, fence_epoch: u64) -> (r: Json)
    ensures
        r@ == running_document(invocation_id@, attempt_id@, fence_epoch),
{
    let mut v: Vec<(String, Json)> = Vec::new();
    put_text(&mut v, "attempt_id", attempt_id);
    put_number(&mut v, "fence_epoch", fence_epoch);
    put_text(&mut v, "invocation_id", invocation_id);
    put_text(&mut v, "state", "running");
    proof {
        assert(members(v@) =~= running_document(
            invocation_id@,
            attempt_id@,
            fence_epoch,
        )->Object_0);
    }
    object(v)
}

/// What is announced of an invocation that is complete.
pub open spec fn succeeded_document(
    invocation_id: Seq<char>,
    result_ref: Option<Seq<char>>,
) -> JsonView {
    JsonView::Object(
        seq![
            text_member("invocation_id"@, invocation_id),
            ("result_ref"@, nullable(result_ref)),
            text_member("state"@, "succeeded"@),
        ],
    )
}

/// What is announced of an invocation that is complete.
pub fn succeeded_payload(invocation_id: &str, result_ref: &Option<String>) -> (r: Json)
    ensures
        r@ == succeeded_document(invocation_id@, opt_view(*result_ref)),
{
    let mut v: Vec<(String, Json)> = Vec::new();
    put_text(&mut v, "invocation_id", invocation_id);
    put(&mut v, "result_ref", nullable_text(result_ref));
    put_text(&mut v, "state", "succeeded");
    proof {
        assert(members(v@) =~= succeeded_document(invocation_id@, opt_view(*result_ref))->Object_0);
    }
    object(v)
}

// -------------------------------------------------------------- binding ----

pub open spec fn stale_lease_view(detail: Seq<char>) -> ProblemView {
    refusal_with(ProblemKind::StaleLease, "attempt binding is not current"@, detail)
}

pub(crate) fn stale_lease(detail: &str) -> (r: Problem)
    ensures
        r@ == stale_lease_view(detail@),
{
    problem(ProblemKind::StaleLease, "attempt binding is not current", detail)
}

/// Why an attempt binding does not hold, or `None` where the worker that
/// presents it may write.
pub open spec fn binding_refusal(inv: Invocations, attempt: Seq<char>, fence: u64) -> Option<
    ProblemView,
> {
    if !inv.attempts@.contains_key(key1(attempt)) {
        Some(not_found_view())
    } else {
        let a = inv.attempts@[key1(attempt)];
        let k = key1(a.invocation_id@);
        if a.fence_epoch != fence {
            Some(stale_lease_view("fence epoch is not current"@))
        } else if a.state !is Running {
            Some(stale_lease_view("attempt is not running"@))
        } else if !inv.invocations@.contains_key(k) {
            Some(not_found_view())
        } else if inv.invocations@[k].state !is Running {
            Some(stale_lease_view("invocation is not running"@))
        } else {
            None
        }
    }
}

/// Whether two positions are those of an attempt and of its invocation.
pub open spec fn bound_rows(inv: Invocations, attempt: Seq<char>, at: (usize, usize)) -> bool {
    &&& at.0 < inv.attempts.rows.len()
    &&& at.1 < inv.invocations.rows.len()
    &&& inv.attempts.rows@[at.0 as int] == inv.attempts@[key1(attempt)]
    &&& inv.attempts.rows@[at.0 as int].attempt_id@ == attempt
    &&& inv.invocations.rows@[at.1 as int] == inv.invocations@[key1(
        inv.attempts.rows@[at.0 as int].invocation_id@,
    )]
    &&& inv.invocations.rows@[at.1 as int].invocation_id@
        == inv.attempts.rows@[at.0 as int].invocation_id@
}

/// Checks an attempt binding against what stands now, and answers where the
/// attempt and its invocation stand. A stored receipt is released only to a
/// binding that still holds.
pub fn check_binding(inv: &Invocations, attempt_id: &str, fence_epoch: u64) -> (r: Result<
    (usize, usize),
    Problem,
>)
    requires
        inv.wf(),
    ensures
        match binding_refusal(*inv, attempt_id@, fence_epoch) {
            Some(p) => r is Err && r->Err_0@ == p,
            None => r is Ok && bound_rows(*inv, attempt_id@, r->Ok_0),
        },
{
    proof {
        reveal_strlit("");
        crate::text::empty_is(""@);
    }
    let i = match inv.attempts.position(attempt_id, "") {
        None => {
            return Err(not_found());
        },
        Some(i) => i,
    };
    if inv.attempts.rows[i].fence_epoch != fence_epoch {
        return Err(stale_lease("fence epoch is not current"));
    }
    if inv.attempts.rows[i].state != AttemptState::Running {
        return Err(stale_lease("attempt is not running"));
    }
    let j = match inv.invocations.position(inv.attempts.rows[i].invocation_id.as_str(), "") {
        None => {
            return Err(not_found());
        },
        Some(j) => j,
    };
    if inv.invocations.rows[j].state != InvocationState::Running {
        return Err(stale_lease("invocation is not running"));
    }
    Ok((i, j))
}

/// The invocation that an attempt belongs to.
pub fn attempt_invocation_id(inv: &Invocations, attempt_id: &str) -> (r: Result<String, Problem>)
    requires
        inv.wf(),
    ensures
        match r {
            Ok(s) => inv.attempts@.contains_key(key1(attempt_id@)) && s@ == inv.attempts@[key1(
                attempt_id@,
            )].invocation_id@,
            Err(p) => !inv.attempts@.contains_key(key1(attempt_id@)) && p@ == not_found_view(),
        },
{
    proof {
        reveal_strlit("");
        crate::text::empty_is(""@);
    }
    match inv.attempts.find(attempt_id, "") {
        None => Err(not_found()),
        Some(a) => Ok(a.invocation_id.clone()),
    }
}

/// Whether there is an invocation under an identifier.
pub fn invocation_exists(inv: &Invocations, invocation_id: &str) -> (r: bool)
    requires
        inv.wf(),
    ensures
        r == inv.invocations@.contains_key(key1(invocation_id@)),
{
    proof {
        reveal_strlit("");
        crate::text::empty_is(""@);
    }
    inv.invocations.position(invocation_id, "").is_some()
}

/// The scope of a worker's idempotency keys: one per invocation, so that a
/// second attempt replays what the first one did.
pub fn worker_scope(
    surface: &str,
    invocation_id: &str,
    realm_id: &str,
    operation: &str,
    meta: &Option<Meta>,
    request_digest: Option<String>,
) -> (r: Result<crate::handlers::CommandScope, Problem>)
    ensures
        match (meta, request_digest) {
            (Some(m), Some(d)) => r is Ok && crate::handlers::scoped(
                r->Ok_0,
                surface@,
                invocation_id@,
                realm_id@,
                operation@,
                m.idempotency_key@,
                d@,
            ),
            _ => r is Err && r->Err_0@ == internal_view(),
        },
{
    match (meta, request_digest) {
        (Some(m), Some(d)) => Ok(
            crate::handlers::CommandScope {
                actor_scope: crate::text::cat5(surface, "/", invocation_id, "/", realm_id),
                operation: operation.to_owned(),
                idempotency_key: m.idempotency_key.clone(),
                request_digest: d,
            },
        ),
        _ => Err(internal()),
    }
}

/// What advancing the fence of an attempt does and answers.
pub open spec fn advance_outcome(
    inv: Invocations,
    inv_after: Invocations,
    attempt_id: Seq<char>,
    r: Result<u64, Problem>,
) -> bool {
    &&& inv_after.invocations == inv.invocations
    &&& inv_after.manifests == inv.manifests
    &&& if inv.attempts@.contains_key(key1(attempt_id)) {
        let a = inv.attempts@[key1(attempt_id)];
        &&& r == Ok::<u64, Problem>((a.fence_epoch + 1) as u64)
        &&& inv_after.attempts@ == inv.attempts@.insert(
            key1(attempt_id),
            AttemptRow { fence_epoch: (a.fence_epoch + 1) as u64, ..a },
        )
    } else {
        r is Err && r->Err_0@ == internal_view() && inv_after == inv
    }
}

/// Advances the fence of an attempt, so that the fence presented so far is
/// stale. The answer is the new fence.
pub fn advance_attempt_fence(inv: &mut Invocations, attempt_id: &str) -> (r: Result<u64, Problem>)
    requires
        old(inv).wf(),
        old(inv).attempts@.contains_key(key1(attempt_id@)) ==> old(inv).attempts@[key1(
            attempt_id@,
        )].fence_epoch < u64::MAX,
    ensures
        final(inv).wf(),
        advance_outcome(
            *old(inv),
            *final(inv),
            attempt_id@,
            r,
        ),
{
    proof {
        reveal_strlit("");
        crate::text::empty_is(""@);
    }
    match inv.attempts.position(attempt_id, "") {
        None => Err(internal()),
        Some(i) => {
            let next: u64 = inv.attempts.rows[i].fence_epoch + 1;
            inv.attempts.rows[i].fence_epoch = next;
            proof {
                crate::table::table_updated(
                    old(inv).attempts,
                    inv.attempts,
                    i as int,
                    inv.attempts.rows@[i as int],
                );
            }
            Ok(next)
        },
    }
}

/// The invocation and attempt that stand in for a claimed one: running, at
/// the first fence.
pub open spec fn fixture_rows(
    v: Invocation,
    a: AttemptRow,
    realm: Seq<char>,
    project: Seq<char>,
    space: Option<String>,
    assembly: Option<String>,
    invocation: Seq<char>,
    attempt: Seq<char>,
    at: Seq<char>,
) -> bool {
    &&& v.invocation_id@ == invocation
    &&& v.realm_id@ == realm
    &&& v.project_id@ == project
    &&& opt_view(v.space_id) == opt_view(space)
    &&& opt_view(v.context_assembly_ref) == opt_view(assembly)
    &&& v.state is Running
    &&& v.revision == 1
    &&& v.created_at@ == at
    &&& v.terminal_at is None
    &&& running_attempt(a, invocation, attempt, at)
}

/// An attempt as it is made: the first, under the first fence, running.
pub open spec fn running_attempt(
    a: AttemptRow,
    invocation: Seq<char>,
    attempt: Seq<char>,
    at: Seq<char>,
) -> bool {
    &&& a.attempt_id@ == attempt
    &&& a.invocation_id@ == invocation
    &&& a.ordinal == 1
    &&& a.worker_instance_id@ == "worker-local"@
    &&& a.fence_epoch == 1
    &&& a.state is Running
    &&& a.started_at@ == at
    &&& a.ended_at is None
    &&& a.result_ref is None
}

fn new_attempt(attempt_id: &str, invocation_id: &str, at: &str) -> (r: AttemptRow)
    ensures
        running_attempt(r, invocation_id@, attempt_id@, at@),
{
    AttemptRow {
        attempt_id: attempt_id.to_owned(),
        invocation_id: invocation_id.to_owned(),
        ordinal: 1,
        worker_instance_id: "worker-local".to_owned(),
        fence_epoch: 1,
        state: AttemptState::Running,
        started_at: at.to_owned(),
        ended_at: None,
        result_ref: None,
    }
}

/// What a fixture attempt does and answers.
pub open spec fn fixture_outcome(
    inv: Invocations,
    inv_after: Invocations,
    realm_id: Seq<char>,
    project_id: Seq<char>,
    space_id: Option<String>,
    context_assembly_ref: Option<String>,
    invocation_id: Seq<char>,
    attempt_id: Seq<char>,
    at: Seq<char>,
    r: Result<u64, Problem>,
) -> bool {
    &&& if inv.invocations@.contains_key(key1(invocation_id)) || inv.attempts@.contains_key(key1(attempt_id)) {
        r is Err && r->Err_0@ == internal_view() && inv_after == inv
    } else {
        let v = inv_after.invocations.rows@.last();
        let a = inv_after.attempts.rows@.last();
        &&& r == Ok::<u64, Problem>(1)
        &&& inv_after.invocations.rows@ == inv.invocations.rows@.push(v)
        &&& inv_after.attempts.rows@ == inv.attempts.rows@.push(a)
        &&& inv_after.manifests == inv.manifests
        &&& fixture_rows(
            v,
            a,
            realm_id,
            project_id,
            space_id,
            context_assembly_ref,
            invocation_id,
            attempt_id,
            at,
        )
        &&& binding_refusal(inv_after, attempt_id, 1) is None
    }
}

/// Puts a running invocation and its claimed attempt in place, for what needs
/// one to be there before it can be called. The attempt has a name of its own,
/// not one that a claim gives. The answer is the attempt's fence.
pub fn attempt_fixture(
    inv: &mut Invocations,
    realm_id: &str,
    project_id: &str,
    space_id: &Option<String>,
    context_assembly_ref: &Option<String>,
    invocation_id: &str,
    attempt_id: &str,
    at: &str,
) -> (r: Result<u64, Problem>)
    requires
        old(inv).wf(),
        forall|id: Seq<char>| attempt_id@ != #[trigger] attempt_of(id),
    ensures
        final(inv).wf(),
        fixture_outcome(
            *old(inv),
            *final(inv),
            realm_id@,
            project_id@,
            *space_id,
            *context_assembly_ref,
            invocation_id@,
            attempt_id@,
            at@,
            r,
        ),
{
    proof {
        reveal_strlit("");
        crate::text::empty_is(""@);
    }
    if inv.invocations.position(invocation_id, "").is_some() || inv.attempts.position(
        attempt_id,
        "",
    ).is_some() {
        return Err(internal());
    }
    let row = Invocation {
        invocation_id: invocation_id.to_owned(),
        realm_id: realm_id.to_owned(),
        project_id: project_id.to_owned(),
        space_id: space_id.clone(),
        branch_id: None,
        assistant_deployment_id: String::new(),
        assistant_deployment_revision: 0,
        assistant_revision_id: String::new(),
        effective_config_ref: String::new(),
        effective_config_digest: String::new(),
        secret_binding_set_ref: String::new(),
        secret_binding_set_digest: String::new(),
        effective_policy_digest: String::new(),
        effective_security_profile: String::new(),
        rollout_decision_ref: String::new(),
        trigger_ref: String::new(),
        trigger_digest: String::new(),
        context_assembly_ref: context_assembly_ref.clone(),
        context_assembly_digest: None,
        input_manifest_ref: String::new(),
        input_digest: String::new(),
        correlation_ref: String::new(),
        causation_ref: None,
        state: InvocationState::Running,
        revision: 1,
        priority: 0,
        not_before: String::new(),
        deadline: None,
        max_attempts: 1,
        budget_reservation_set_ref: None,
        created_at: at.to_owned(),
        terminal_at: None,
    };
    let attempt = new_attempt(attempt_id, invocation_id, at);
    inv.invocations.insert(row);
    inv.attempts.insert(attempt);
    Ok(1)
}

// ---------------------------------------------------- invocation_create ----

#[derive(Debug)]
pub struct InvocationCreateArgs {
    pub assistant_deployment_id: String,
    pub assistant_deployment_revision: u64,
    pub context_assembly_ref: Option<String>,
    pub context_assembly_digest: Option<String>,
    pub space_id: Option<String>,
    pub branch_id: Option<String>,
    pub priority: Option<i64>,
    pub not_before: Option<String>,
    pub deadline: Option<String>,
    pub max_attempts: Option<u64>,
    pub disclosure_rules_digest: Option<String>,
    pub budget_reservation_set_ref: Option<String>,
}

/// What a new invocation is minted with: its identifiers, and the dependency
/// set that its authority rests on.
#[derive(Debug)]
pub struct InvocationIds {
    pub invocation_id: String,
    pub manifest_id: String,
    pub dependency_set_ref: String,
}

/// The identifiers of a new invocation, and the digests of what it runs under.
#[derive(Debug)]
pub struct InvocationMint {
    pub invocation_id: String,
    pub manifest_id: String,
    pub config_digest: String,
    pub secrets_digest: String,
    pub policy_digest: String,
    /// The digest of the trigger where no assembly is one.
    pub manual_trigger_digest: String,
    pub authority_digest: String,
}

/// Whether a mint has the given identifiers, and its digests are made of what
/// a local invocation runs under.
pub open spec fn minted<D: Fn(&str, &str, &Json) -> String>(
    mint: InvocationMint,
    ids: InvocationIds,
    owner: Seq<char>,
    digest: D,
) -> bool {
    let schema = "schema:invocation-v1"@;
    &&& mint.invocation_id@ == ids.invocation_id@
    &&& mint.manifest_id@ == ids.manifest_id@
    &&& digested(
        digest,
        "kovee-effective-config"@,
        schema,
        effective_config_document(),
        mint.config_digest@,
    )
    &&& digested(
        digest,
        "kovee-secret-bindings"@,
        schema,
        secret_bindings_document(),
        mint.secrets_digest@,
    )
    &&& digested(
        digest,
        "kovee-effective-policy"@,
        schema,
        effective_policy_document(),
        mint.policy_digest@,
    )
    &&& digested(
        digest,
        "kovee-manual-trigger"@,
        schema,
        manual_trigger_document(ids.invocation_id@),
        mint.manual_trigger_digest@,
    )
    &&& digested(
        digest,
        "kovee-authority"@,
        schema,
        creation_authority_document(owner, ids.dependency_set_ref@),
        mint.authority_digest@,
    )
}

/// Why an assembly cannot be bound, where one is named.
pub open spec fn assembly_refusal(
    ctx: Contexts,
    project: Seq<char>,
    args: InvocationCreateArgs,
) -> Option<ProblemView> {
    match args.context_assembly_ref {
        None => None,
        Some(id) => {
            let a = ctx.assemblies@[key1(id@)];
            if !ctx.assemblies@.contains_key(key1(id@)) || a.project_id@ != project {
                Some(not_found_view())
            } else if args.context_assembly_digest is Some && args.context_assembly_digest->0@
                != a.digest@ {
                Some(
                    (ProblemView {
                        detail: Some("context_assembly_digest does not match the assembly"@),
                        ..stale_revision_view(1)
                    }),
                )
            } else if args.space_id is Some && args.space_id->0@ != a.space_id@ {
                Some(not_found_view())
            } else {
                None
            }
        },
    }
}

/// Why no invocation is created.
pub open spec fn create_refusal(
    inv: Invocations,
    ws: Workspace,
    ctx: Contexts,
    deployments: Table<Deployment>,
    project: Seq<char>,
    args: InvocationCreateArgs,
    mint: InvocationMint,
) -> Option<ProblemView> {
    let dk = key1(args.assistant_deployment_id@);
    if !ws.projects@.contains_key(key1(project)) {
        Some(not_found_view())
    } else if !deployments@.contains_key(dk) || deployments@[dk].status !is Active {
        Some(not_found_view())
    } else if args.assistant_deployment_revision != deployments@[dk].revision {
        Some(stale_revision_view(deployments@[dk].revision))
    } else if assembly_refusal(ctx, project, args) is Some {
        assembly_refusal(ctx, project, args)
    } else if args.space_id is Some && !visible(ws.spaces, project, args.space_id->0@) {
        Some(not_found_view())
    } else if inv.invocations@.contains_key(key1(mint.invocation_id@)) || inv.manifests@.contains_key(
        key1(mint.manifest_id@),
    ) {
        Some(internal_view())
    } else {
        None
    }
}

/// What triggers an invocation: its assembly, or its own creation.
pub open spec fn trigger_of(
    ctx: Contexts,
    args: InvocationCreateArgs,
    mint: InvocationMint,
    reference: Seq<char>,
    digest: Seq<char>,
) -> bool {
    match args.context_assembly_ref {
        Some(id) => reference == ctx.assemblies@[key1(id@)].assembly_id@ && digest
            == ctx.assemblies@[key1(id@)].digest@,
        None => reference == "manual-"@ + mint.invocation_id@ && digest
            == mint.manual_trigger_digest@,
    }
}

/// The assembly that an invocation binds, if it names one.
pub open spec fn bound_assembly(ctx: Contexts, args: InvocationCreateArgs) -> Option<Assembly> {
    match args.context_assembly_ref {
        Some(id) => Some(ctx.assemblies@[key1(id@)]),
        None => None,
    }
}

/// The input manifest of a new invocation.
pub open spec fn manifest_row(
    m: InputManifest,
    ctx: Contexts,
    deployment: Deployment,
    args: InvocationCreateArgs,
    mint: InvocationMint,
    at: Seq<char>,
) -> bool {
    &&& m.input_manifest_id@ == mint.manifest_id@
    &&& m.invocation_id@ == mint.invocation_id@
    &&& trigger_of(ctx, args, mint, m.trigger_ref@, m.trigger_digest@)
    &&& opt_view(m.space_id) == opt_view(args.space_id)
    &&& opt_view(m.branch_id) == opt_view(args.branch_id)
    &&& opt_view(m.context_assembly_ref) == opt_view(args.context_assembly_ref)
    &&& match bound_assembly(ctx, args) {
        Some(a) => {
            &&& opt_view(m.frontier_ref) == Some(a.frontier_ref@)
            &&& opt_view(m.frontier_digest) == Some(a.frontier_digest@)
            &&& opt_view(m.context_assembly_digest) == Some(a.digest@)
            &&& same_items(m.ordered_input_refs@, a.items@)
        },
        None => {
            &&& m.frontier_ref is None
            &&& m.frontier_digest is None
            &&& m.context_assembly_digest is None
            &&& m.ordered_input_refs@.len() == 0
        },
    }
    &&& m.assistant_revision_id@ == deployment.assistant_revision_id@
    &&& m.deployment_revision == deployment.revision
    &&& m.config_digest@ == mint.config_digest@
    &&& m.secret_binding_set_digest@ == mint.secrets_digest@
    &&& m.policy_digest@ == mint.policy_digest@
    &&& opt_view(m.disclosure_rules_digest) == opt_view(args.disclosure_rules_digest)
    &&& opt_view(m.deadline) == opt_view(args.deadline)
    &&& opt_view(m.budget_reservation_set_ref) == opt_view(args.budget_reservation_set_ref)
    &&& m.authority_digest@ == mint.authority_digest@
    &&& m.created_at@ == at
}

/// The invocation that is created: queued, at revision one, with its exact
/// input bound.
pub open spec fn invocation_row(
    v: Invocation,
    m: InputManifest,
    deployment: Deployment,
    project: Seq<char>,
    session: Session,
    args: InvocationCreateArgs,
    meta: Meta,
    mint: InvocationMint,
) -> bool {
    &&& v.invocation_id@ == mint.invocation_id@
    &&& v.realm_id@ == session.realm_id@
    &&& v.project_id@ == project
    &&& opt_view(v.space_id) == opt_view(args.space_id)
    &&& opt_view(v.branch_id) == opt_view(args.branch_id)
    &&& v.assistant_deployment_id@ == deployment.deployment_id@
    &&& v.assistant_deployment_revision == deployment.revision
    &&& v.assistant_revision_id@ == deployment.assistant_revision_id@
    &&& v.effective_config_ref@ == "cfg-local-dev"@
    &&& v.effective_config_digest@ == mint.config_digest@
    &&& v.secret_binding_set_ref@ == "secrets-none"@
    &&& v.secret_binding_set_digest@ == mint.secrets_digest@
    &&& v.effective_policy_digest@ == mint.policy_digest@
    &&& v.effective_security_profile@ == deployment.security_profile@
    &&& v.rollout_decision_ref@ == "rollout-local-dev"@
    &&& v.trigger_ref@ == m.trigger_ref@
    &&& v.trigger_digest@ == m.trigger_digest@
    &&& opt_view(v.context_assembly_ref) == opt_view(args.context_assembly_ref)
    &&& opt_view(v.context_assembly_digest) == opt_view(m.context_assembly_digest)
    &&& v.input_manifest_ref@ == mint.manifest_id@
    &&& v.input_digest@ == m.digest@
    &&& v.correlation_ref@ == meta.request_id@
    &&& opt_view(v.causation_ref) == opt_view(meta.causation_event_ref)
    &&& v.state is Queued
    &&& v.revision == 1
    &&& v.priority == (if args.priority is Some {
        args.priority->0
    } else {
        0
    })
    &&& v.not_before@ == or_else(args.not_before, session.now_ts@)
    &&& opt_view(v.deadline) == opt_view(args.deadline)
    &&& v.max_attempts == (if args.max_attempts is Some {
        args.max_attempts->0
    } else {
        1
    })
    &&& opt_view(v.budget_reservation_set_ref) == opt_view(args.budget_reservation_set_ref)
    &&& v.created_at@ == session.now_ts@
    &&& v.terminal_at is None
}

pub open spec fn created_journal(before: JournalView, v: Invocation, meta: Meta) -> JournalView {
    before.with_event(
        carrying(
            command_event(
                EventKind::InvocationCreated,
                v.invocation_id@,
                Some(v.project_id@),
                "schema:invocation-v1"@,
                v.invocation_id@,
                1,
                meta,
                None,
            ),
            queued_document(v),
        ),
    ).with_audit(
        "command.invocation_created"@,
        "invocation="@ + v.invocation_id@ + ";"@ + command_name(meta),
    )
}

/// Finds the assembly that an invocation binds.
fn find_assembly(ctx: &Contexts, project: &str, args: &InvocationCreateArgs) -> (r: Result<
    Option<usize>,
    Problem,
>)
    requires
        ctx.wf(),
    ensures
        match assembly_refusal(*ctx, project@, *args) {
            Some(p) => r is Err && r->Err_0@ == p,
            None => {
                &&& r is Ok
                &&& r->Ok_0 is Some <==> args.context_assembly_ref is Some
                &&& r->Ok_0 is Some ==> r->Ok_0->0 < ctx.assemblies.rows.len() && Some(
                    ctx.assemblies.rows@[r->Ok_0->0 as int],
                ) == bound_assembly(*ctx, *args)
            },
        },
{
    proof {
        reveal_strlit("");
        crate::text::empty_is(""@);
    }
    match &args.context_assembly_ref {
        None => Ok(None),
        Some(id) => {
            let i = match ctx.assemblies.position(id.as_str(), "") {
                None => {
                    return Err(not_found());
                },
                Some(i) => i,
            };
            let a = &ctx.assemblies.rows[i];
            if !same(a.project_id.as_str(), project) {
                return Err(not_found());
            }
            if let Some(digest) = &args.context_assembly_digest {
                if !same(digest.as_str(), a.digest.as_str()) {
                    return Err(
                        stale_revision(1).with_detail(
                            "context_assembly_digest does not match the assembly",
                        ),
                    );
                }
            }
            if let Some(space_id) = &args.space_id {
                if !same(space_id.as_str(), a.space_id.as_str()) {
                    return Err(not_found());
                }
            }
            Ok(Some(i))
        },
    }
}

/// Makes the input manifest of a new invocation.
fn make_manifest(
    ctx: &Contexts,
    assembly: Option<usize>,
    deployment: &Deployment,
    args: &InvocationCreateArgs,
    mint: &InvocationMint,
    at: &str,
) -> (m: InputManifest)
    requires
        assembly is Some <==> args.context_assembly_ref is Some,
        assembly is Some ==> assembly->0 < ctx.assemblies.rows.len() && Some(
            ctx.assemblies.rows@[assembly->0 as int],
        ) == bound_assembly(*ctx, *args),
    ensures
        manifest_row(m, *ctx, *deployment, *args, *mint, at@),
{
    let (trigger_ref, trigger_digest) = match assembly {
        Some(i) => (
            ctx.assemblies.rows[i].assembly_id.clone(),
            ctx.assemblies.rows[i].digest.clone(),
        ),
        None => (
            cat2("manual-", mint.invocation_id.as_str()),
            mint.manual_trigger_digest.clone(),
        ),
    };
    let (frontier_ref, frontier_digest, assembly_digest, items) = match assembly {
        Some(i) => (
            Some(ctx.assemblies.rows[i].frontier_ref.clone()),
            Some(ctx.assemblies.rows[i].frontier_digest.clone()),
            Some(ctx.assemblies.rows[i].digest.clone()),
            copy_items(&ctx.assemblies.rows[i].items),
        ),
        None => (None, None, None, Vec::new()),
    };
    InputManifest {
        input_manifest_id: mint.manifest_id.clone(),
        invocation_id: mint.invocation_id.clone(),
        trigger_ref,
        trigger_digest,
        space_id: args.space_id.clone(),
        branch_id: args.branch_id.clone(),
        frontier_ref,
        frontier_digest,
        context_assembly_ref: args.context_assembly_ref.clone(),
        context_assembly_digest: assembly_digest,
        ordered_input_refs: items,
        assistant_revision_id: deployment.assistant_revision_id.clone(),
        deployment_revision: deployment.revision,
        config_digest: mint.config_digest.clone(),
        secret_binding_set_digest: mint.secrets_digest.clone(),
        policy_digest: mint.policy_digest.clone(),
        disclosure_rules_digest: args.disclosure_rules_digest.clone(),
        deadline: args.deadline.clone(),
        budget_reservation_set_ref: args.budget_reservation_set_ref.clone(),
        authority_digest: mint.authority_digest.clone(),
        digest: String::new(),
        created_at: at.to_owned(),
    }
}

/// Makes the invocation of a manifest.
fn make_invocation(
    m: &InputManifest,
    deployment: &Deployment,
    project_id: &str,
    session: &Session,
    args: &InvocationCreateArgs,
    meta: &Meta,
    mint: &InvocationMint,
) -> (v: Invocation)
    ensures
        invocation_row(v, *m, *deployment, project_id@, *session, *args, *meta, *mint),
{
    Invocation {
        invocation_id: mint.invocation_id.clone(),
        realm_id: session.realm_id.clone(),
        project_id: project_id.to_owned(),
        space_id: args.space_id.clone(),
        branch_id: args.branch_id.clone(),
        assistant_deployment_id: deployment.deployment_id.clone(),
        assistant_deployment_revision: deployment.revision,
        assistant_revision_id: deployment.assistant_revision_id.clone(),
        effective_config_ref: "cfg-local-dev".to_owned(),
        effective_config_digest: mint.config_digest.clone(),
        secret_binding_set_ref: "secrets-none".to_owned(),
        secret_binding_set_digest: mint.secrets_digest.clone(),
        effective_policy_digest: mint.policy_digest.clone(),
        effective_security_profile: deployment.security_profile.clone(),
        rollout_decision_ref: "rollout-local-dev".to_owned(),
        trigger_ref: m.trigger_ref.clone(),
        trigger_digest: m.trigger_digest.clone(),
        context_assembly_ref: args.context_assembly_ref.clone(),
        context_assembly_digest: m.context_assembly_digest.clone(),
        input_manifest_ref: mint.manifest_id.clone(),
        input_digest: m.digest.clone(),
        correlation_ref: meta.request_id.clone(),
        causation_ref: meta.causation_event_ref.clone(),
        state: InvocationState::Queued,
        revision: 1,
        priority: match args.priority {
            Some(p) => p,
            None => 0,
        },
        not_before: given_or(&args.not_before, session.now_ts.as_str()),
        deadline: args.deadline.clone(),
        max_attempts: match args.max_attempts {
            Some(n) => n,
            None => 1,
        },
        budget_reservation_set_ref: args.budget_reservation_set_ref.clone(),
        created_at: session.now_ts.clone(),
        terminal_at: None,
    }
}

/// A manifest's digest is the one of its own content, its pinned items written
/// as they are.
pub open spec fn manifest_digested<
    D: Fn(&str, &str, &Json) -> String,
    W: Fn(&Vec<ItemRef>) -> Json,
>(digest: D, write: W, m: InputManifest, dependency_set: Seq<char>) -> bool {
    exists|items: Json|
        {
            &&& #[trigger] write.ensures((&m.ordered_input_refs,), items)
            &&& digested(
                digest,
                "kovee-input-manifest"@,
                "schema:invocation-v1"@,
                input_manifest_document(m, dependency_set, items@),
                m.digest@,
            )
        }
}

/// What creating an invocation does and answers.
pub open spec fn create_outcome<D: Fn(&str, &str, &Json) -> String, W: Fn(&Vec<ItemRef>) -> Json>(
    inv: Invocations,
    inv_after: Invocations,
    journal: JournalView,
    journal_after: JournalView,
    ws: Workspace,
    ctx: Contexts,
    deployments: Table<Deployment>,
    session: Session,
    project_id: Seq<char>,
    args: InvocationCreateArgs,
    meta: Meta,
    ids: InvocationIds,
    write: W,
    digest: D,
    r: Result<usize, Problem>,
) -> bool {
    &&& keeps_terminals(inv, inv_after)
    &&& r is Err ==> inv_after == inv && journal_after == journal
    &&& exists|mint: InvocationMint|
        {
            &&& #[trigger] minted(mint, ids, session.owner_actor_ref@, digest)
            &&& match create_refusal(inv, ws, ctx, deployments, project_id, args, mint) {
                Some(p) => r is Err && r->Err_0@ == p,
                None => {
                    let d = deployments@[key1(args.assistant_deployment_id@)];
                    let v = inv_after.invocations.rows@.last();
                    let m = inv_after.manifests.rows@.last();
                    &&& r is Ok
                    &&& r->Ok_0 == inv.invocations.rows@.len()
                    &&& inv_after.invocations.rows@ == inv.invocations.rows@.push(v)
                    &&& inv_after.manifests.rows@ == inv.manifests.rows@.push(m)
                    &&& inv_after.attempts == inv.attempts
                    &&& manifest_row(m, ctx, d, args, mint, session.now_ts@)
                    &&& invocation_row(v, m, d, project_id, session, args, meta, mint)
                    &&& manifest_digested(digest, write, m, ids.dependency_set_ref@)
                    &&& journal_after == created_journal(journal, v, meta)
                },
            }
        }
}

/// Creates an invocation of an active deployment at its current revision,
/// with its input pinned. `write` is how the pinned items are written in a
/// document. The answer is the invocation's position.
pub fn invocation_create<D: Fn(&str, &str, &Json) -> String, W: Fn(&Vec<ItemRef>) -> Json>(
    inv: &mut Invocations,
    journal: &mut Journal,
    ws: &Workspace,
    ctx: &Contexts,
    deployments: &Table<Deployment>,
    session: &Session,
    project_id: &str,
    args: &InvocationCreateArgs,
    meta: &Meta,
    ids: &InvocationIds,
    write: W,
    digest: D,
) -> (r: Result<usize, Problem>)
    requires
        old(inv).wf(),
        ws.wf(),
        ctx.wf(),
        deployments.wf(),
        digests_all(digest),
        forall|items: &Vec<ItemRef>| #[trigger] write.requires((items,)),
    ensures
        final(inv).wf(),
        create_outcome(
            *old(inv),
            *final(inv),
            old(journal)@,
            final(journal)@,
            *ws,
            *ctx,
            *deployments,
            *session,
            project_id@,
            *args,
            *meta,
            *ids,
            write,
            digest,
            r,
        ),
{
    proof {
        reveal_strlit("");
        crate::text::empty_is(""@);
    }
    let config = effective_config_subject();
    let secrets = secret_bindings_subject();
    let policy = effective_policy_subject();
    let trigger = manual_trigger_subject(ids.invocation_id.as_str());
    let authority = creation_authority_subject(
        session.owner_actor_ref.as_str(),
        ids.dependency_set_ref.as_str(),
    );
    let mint = InvocationMint {
        invocation_id: ids.invocation_id.clone(),
        manifest_id: ids.manifest_id.clone(),
        config_digest: digest("kovee-effective-config", "schema:invocation-v1", &config),
        secrets_digest: digest("kovee-secret-bindings", "schema:invocation-v1", &secrets),
        policy_digest: digest("kovee-effective-policy", "schema:invocation-v1", &policy),
        manual_trigger_digest: digest("kovee-manual-trigger", "schema:invocation-v1", &trigger),
        authority_digest: digest("kovee-authority", "schema:invocation-v1", &authority),
    };
    proof {
        assert(minted(mint, *ids, session.owner_actor_ref@, digest));
    }
    if ws.projects.position(project_id, "").is_none() {
        return Err(not_found());
    }
    let d = match deployments.position(args.assistant_deployment_id.as_str(), "") {
        None => {
            return Err(not_found());
        },
        Some(d) => d,
    };
    let deployment = &deployments.rows[d];
    if deployment.status != DeploymentStatus::Active {
        return Err(not_found());
    }
    if args.assistant_deployment_revision != deployment.revision {
        return Err(stale_revision(deployment.revision));
    }
    let assembly = find_assembly(ctx, project_id, args)?;
    if let Some(space_id) = &args.space_id {
        let at: usize = visible_space(&ws.spaces, project_id, space_id.as_str())?;
    }
    if inv.invocations.position(mint.invocation_id.as_str(), "").is_some()
        || inv.manifests.position(mint.manifest_id.as_str(), "").is_some() {
        return Err(internal());
    }
    let mut manifest = make_manifest(
        ctx,
        assembly,
        deployment,
        args,
        &mint,
        session.now_ts.as_str(),
    );
    let items = write(&manifest.ordered_input_refs);
    let ghost pinned = manifest.ordered_input_refs;
    let subject = input_manifest_subject(&manifest, ids.dependency_set_ref.as_str(), &items);
    let manifest_digest = digest("kovee-input-manifest", "schema:invocation-v1", &subject);
    manifest.digest = manifest_digest;
    proof {
        assert(manifest.ordered_input_refs == pinned);
        assert(write.ensures((&pinned,), items));
        assert(subject@ == input_manifest_document(manifest, ids.dependency_set_ref@, items@));
        assert(digested(
            digest,
            "kovee-input-manifest"@,
            "schema:invocation-v1"@,
            subject@,
            manifest.digest@,
        ));
        assert(manifest_digested(digest, write, manifest, ids.dependency_set_ref@));
    }
    let invocation = make_invocation(
        &manifest,
        deployment,
        project_id,
        session,
        args,
        meta,
        &mint,
    );
    let payload = queued_payload(&invocation);
    append_command_payload(
        journal,
        EventKind::InvocationCreated,
        mint.invocation_id.as_str(),
        Some(project_id),
        "schema:invocation-v1",
        mint.invocation_id.as_str(),
        1,
        meta,
        None,
        payload,
    );
    let key = scope_digest(meta);
    let detail = cat4("invocation=", mint.invocation_id.as_str(), ";", key.as_str());
    journal.audit("command.invocation_created", detail.as_str());
    let at: usize = inv.invocations.rows.len();
    inv.invocations.insert(invocation);
    inv.manifests.insert(manifest);
    Ok(at)
}

/// Whether an invocation is visible in a project.
pub open spec fn invocation_visible(inv: Invocations, project: Seq<char>, id: Seq<char>) -> bool {
    inv.invocations@.contains_key(key1(id)) && inv.invocations@[key1(id)].project_id@ == project
}

/// Shows an invocation of a project.
pub fn invocation_show<'a>(inv: &'a Invocations, project_id: &str, invocation_id: &str) -> (r:
    Result<&'a Invocation, Problem>)
    requires
        inv.wf(),
    ensures
        match r {
            Ok(v) => invocation_visible(*inv, project_id@, invocation_id@) && *v
                == inv.invocations@[key1(invocation_id@)],
            Err(p) => !invocation_visible(*inv, project_id@, invocation_id@) && p@
                == not_found_view(),
        },
{
    proof {
        reveal_strlit("");
        crate::text::empty_is(""@);
    }
    match inv.invocations.find(invocation_id, "") {
        None => Err(not_found()),
        Some(v) => if same(v.project_id.as_str(), project_id) {
            Ok(v)
        } else {
            Err(not_found())
        },
    }
}

// ----------------------------------------------------- invocation_claim ----

#[derive(Debug)]
pub struct InvocationClaimArgs {
    pub invocation_id: String,
}

/// Why an invocation cannot be claimed, whatever its context is. A stored
/// claim is replayed only where there is no such reason.
pub open spec fn claim_barred(inv: Invocations, id: Seq<char>) -> Option<ProblemView> {
    let k = key1(id);
    if !inv.invocations@.contains_key(k) {
        Some(not_found_view())
    } else if inv.invocations@[k].state.terminal() {
        Some(stale_lease_view("invocation is terminal"@))
    } else {
        None
    }
}

/// Decides whether a stored claim may be replayed, and answers where the
/// invocation stands.
pub fn claim_still_authorized(inv: &Invocations, invocation_id: &str) -> (r: Result<usize, Problem>)
    requires
        inv.wf(),
    ensures
        match claim_barred(*inv, invocation_id@) {
            Some(p) => r is Err && r->Err_0@ == p,
            None => {
                &&& r is Ok
                &&& r->Ok_0 < inv.invocations.rows.len()
                &&& inv.invocations.rows@[r->Ok_0 as int] == inv.invocations@[key1(invocation_id@)]
                &&& inv.invocations.rows@[r->Ok_0 as int].invocation_id@ == invocation_id@
            },
        },
{
    proof {
        reveal_strlit("");
        crate::text::empty_is(""@);
    }
    match inv.invocations.position(invocation_id, "") {
        None => Err(not_found()),
        Some(i) => {
            if inv.invocations.rows[i].state.is_terminal() {
                Err(stale_lease("invocation is terminal"))
            } else {
                Ok(i)
            }
        },
    }
}

pub open spec fn not_materializable() -> ProblemView {
    refusal(ProblemKind::Unavailable, "assembly is no longer materializable"@)
}

/// Whether an input still stands: in its space, under its pinned digest.
pub open spec fn item_stands(ws: Workspace, space: Seq<char>, item: ItemRef) -> bool {
    let k = key1(item.object_ref@);
    &&& ws.contributions@.contains_key(k)
    &&& ws.contributions@[k].space_id@ == space
    &&& ws.contributions@[k].content_digest@ == item.digest@
}

/// Whether every input of an assembly still stands.
pub open spec fn all_stand(ws: Workspace, a: Assembly) -> bool {
    forall|i: int| 0 <= i < a.items@.len() ==> item_stands(ws, a.space_id@, #[trigger] a.items@[i])
}

/// Why the context of an invocation is not handed out.
pub open spec fn context_refusal(ctx: Contexts, ws: Workspace, assembly: Option<Seq<char>>) -> Option<
    ProblemView,
> {
    match assembly {
        None => None,
        Some(id) => {
            let a = ctx.assemblies@[key1(id)];
            if !ctx.assemblies@.contains_key(key1(id)) || !ctx.frontiers@.contains_key(
                key1(a.frontier_ref@),
            ) {
                Some(not_found_view())
            } else if !all_stand(ws, a) {
                Some(not_materializable())
            } else {
                None
            }
        },
    }
}

/// The context that a claim hands out: the assembly, its frontier and its
/// inputs in order, each by its position.
#[derive(Debug)]
pub struct Materialized {
    pub assembly: usize,
    pub frontier: usize,
    pub items: Vec<usize>,
}

pub open spec fn materialized(m: Materialized, ctx: Contexts, ws: Workspace, id: Seq<char>) -> bool {
    let a = ctx.assemblies@[key1(id)];
    &&& m.assembly < ctx.assemblies.rows@.len()
    &&& ctx.assemblies.rows@[m.assembly as int] == a
    &&& m.frontier < ctx.frontiers.rows@.len()
    &&& ctx.frontiers.rows@[m.frontier as int] == ctx.frontiers@[key1(a.frontier_ref@)]
    &&& m.items@.len() == a.items@.len()
    &&& forall|i: int|
        0 <= i < m.items@.len() ==> (#[trigger] m.items@[i]) < ws.contributions.rows@.len()
            && ws.contributions.rows@[m.items@[i] as int] == ws.contributions@[key1(
            a.items@[i].object_ref@,
        )]
}

/// Finds the inputs of an assembly, or `None` where one no longer stands.
fn find_items(ws: &Workspace, a: &Assembly) -> (r: Option<Vec<usize>>)
    requires
        ws.wf(),
    ensures
        match r {
            None => !all_stand(*ws, *a),
            Some(items) => {
                &&& all_stand(*ws, *a)
                &&& items@.len() == a.items@.len()
                &&& forall|i: int|
                    0 <= i < items@.len() ==> (#[trigger] items@[i]) < ws.contributions.rows@.len()
                        && ws.contributions.rows@[items@[i] as int] == ws.contributions@[key1(
                        a.items@[i].object_ref@,
                    )]
            },
        },
{
    let mut items: Vec<usize> = Vec::new();
    let mut i: usize = 0;
    while i < a.items.len()
        invariant
            ws.wf(),
            i <= a.items.len(),
            items.len() == i,
            forall|j: int|
                0 <= j < i ==> item_stands(*ws, a.space_id@, #[trigger] a.items@[j]),
            forall|j: int|
                0 <= j < i ==> (#[trigger] items@[j]) < ws.contributions.rows@.len()
                    && ws.contributions.rows@[items@[j] as int] == ws.contributions@[key1(
                    a.items@[j].object_ref@,
                )],
        decreases a.items.len() - i,
    {
        proof {
            reveal_strlit("");
            crate::text::empty_is(""@);
        }
        let item = &a.items[i];
        match ws.contributions.position(item.object_ref.as_str(), "") {
            None => {
                assert(!item_stands(*ws, a.space_id@, a.items@[i as int]));
                return None;
            },
            Some(p) => {
                if !same(ws.contributions.rows[p].space_id.as_str(), a.space_id.as_str())
                    || !same(
                    ws.contributions.rows[p].content_digest.as_str(),
                    item.digest.as_str(),
                ) {
                    assert(!item_stands(*ws, a.space_id@, a.items@[i as int]));
                    return None;
                }
                items.push(p);
            },
        }
        i = i + 1;
    }
    Some(items)
}

/// Materializes the context of an invocation: nothing that an assembly names
/// is dropped or put in another's place.
fn materialize(ctx: &Contexts, ws: &Workspace, assembly_ref: &Option<String>) -> (r: Result<
    Option<Materialized>,
    Problem,
>)
    requires
        ctx.wf(),
        ws.wf(),
    ensures
        match context_refusal(*ctx, *ws, opt_view(*assembly_ref)) {
            Some(p) => r is Err && r->Err_0@ == p,
            None => {
                &&& r is Ok
                &&& match *assembly_ref {
                    None => r->Ok_0 is None,
                    Some(id) => r->Ok_0 is Some && materialized(r->Ok_0->0, *ctx, *ws, id@),
                }
            },
        },
{
    proof {
        reveal_strlit("");
        crate::text::empty_is(""@);
    }
    let id = match assembly_ref {
        None => {
            return Ok(None);
        },
        Some(id) => id,
    };
    let assembly = match ctx.assemblies.position(id.as_str(), "") {
        None => {
            return Err(not_found());
        },
        Some(i) => i,
    };
    let frontier = match ctx.frontiers.position(
        ctx.assemblies.rows[assembly].frontier_ref.as_str(),
        "",
    ) {
        None => {
            return Err(not_found());
        },
        Some(i) => i,
    };
    match find_items(ws, &ctx.assemblies.rows[assembly]) {
        None => Err(
            Problem::new(ProblemKind::Unavailable, "assembly is no longer materializable"),
        ),
        Some(items) => Ok(Some(Materialized { assembly, frontier, items })),
    }
}

/// What a claim answers: the invocation, the attempt and its fence, and the
/// context where one is bound.
#[derive(Debug)]
pub struct Claimed {
    pub invocation: usize,
    pub attempt: usize,
    pub fence_epoch: u64,
    pub context: Option<Materialized>,
}

/// Whether claiming an invocation starts it.
pub open spec fn starts(v: Invocation) -> bool {
    v.state is Queued || v.state is Claimed
}

/// What a claim makes of the invocations and attempts: one that waits is
/// running afterwards, and its one attempt is there.
pub open spec fn claimed_rows(
    before: Invocations,
    after: Invocations,
    id: Seq<char>,
    at: Seq<char>,
) -> bool {
    let k = key1(id);
    let ak = key1(attempt_of(id));
    let v = before.invocations@[k];
    &&& after.manifests == before.manifests
    &&& after.invocations@ == if starts(v) {
        before.invocations@.insert(
            k,
            Invocation { state: InvocationState::Running, revision: (v.revision + 1) as u64, ..v },
        )
    } else {
        before.invocations@
    }
    &&& if before.attempts@.contains_key(ak) {
        after.attempts == before.attempts
    } else {
        &&& after.attempts.rows@ == before.attempts.rows@.push(after.attempts.rows@.last())
        &&& after.attempts@ == before.attempts@.insert(ak, after.attempts.rows@.last())
        &&& running_attempt(after.attempts.rows@.last(), id, attempt_of(id), at)
    }
}

/// Where a participant is added by a claim: in the space of an invocation
/// that the claim starts, unless the deployment takes part already.
pub open spec fn joins(ws: Workspace, v: Invocation, actor: Seq<char>) -> bool {
    starts(v) && v.space_id is Some && !ws.participants@.contains_key((v.space_id->0@, actor))
}

pub open spec fn joined(
    p: Participant,
    v: Invocation,
    actor: Seq<char>,
    participant: Seq<char>,
) -> bool {
    &&& p.participant_id@ == participant
    &&& p.space_id@ == v.space_id->0@
    &&& p.subject_ref@ == actor
    &&& p.subject_revision == Some(1u64)
    &&& p.kind is AssistantDeployment
    &&& p.role is Contributor
    &&& p.authority_source_ref@ == "invocation:"@ + v.invocation_id@
}

/// What a claim makes of the workspace.
pub open spec fn claimed_workspace(
    before: Workspace,
    after: Workspace,
    v: Invocation,
    actor: Seq<char>,
    participant: Seq<char>,
) -> bool {
    &&& after.projects == before.projects
    &&& after.spaces == before.spaces
    &&& after.contributions == before.contributions
    &&& if joins(before, v, actor) {
        &&& after.participants.rows@ == before.participants.rows@.push(
            after.participants.rows@.last(),
        )
        &&& joined(after.participants.rows@.last(), v, actor, participant)
    } else {
        after.participants == before.participants
    }
}

pub open spec fn claimed_journal(
    before: JournalView,
    v: Invocation,
    fence_epoch: u64,
    actor: Seq<char>,
    meta: Meta,
) -> JournalView {
    let started = if starts(v) {
        before.with_event(
            worker_event(
                EventKind::InvocationClaimed,
                v.invocation_id@,
                v.project_id@,
                actor,
                "schema:invocation-v1"@,
                v.invocation_id@,
                Some((v.revision + 1) as u64),
                meta,
                running_document(v.invocation_id@, attempt_of(v.invocation_id@), fence_epoch),
            ),
        )
    } else {
        before
    };
    started.with_audit(
        "command.invocation_claimed"@,
        "invocation="@ + v.invocation_id@ + ";attempt="@ + attempt_of(v.invocation_id@) + ";"@
            + command_name(meta),
    )
}

/// Starts the invocation at a position and lets the deployment take part in
/// its space.
fn start_claimed(
    inv: &mut Invocations,
    ws: &mut Workspace,
    journal: &mut Journal,
    i: usize,
    attempt_id: &str,
    fence_epoch: u64,
    actor: &str,
    meta: &Meta,
    participant_id: &str,
)
    requires
        old(inv).wf(),
        old(ws).wf(),
        i < old(inv).invocations.rows.len(),
        starts(old(inv).invocations.rows@[i as int]),
        old(inv).invocations.rows@[i as int].revision < u64::MAX,
    ensures
        final(inv).wf(),
        final(ws).wf(),
        final(inv).attempts == old(inv).attempts,
        final(inv).manifests == old(inv).manifests,
        ({
            let v = old(inv).invocations.rows@[i as int];
            let w = Invocation {
                state: InvocationState::Running,
                revision: (v.revision + 1) as u64,
                ..v
            };
            &&& final(inv).invocations.rows@ == old(inv).invocations.rows@.update(i as int, w)
            &&& final(inv).invocations@ == old(inv).invocations@.insert(v.key(), w)
            &&& claimed_workspace(*old(ws), *final(ws), v, actor@, participant_id@)
            &&& final(journal)@ == old(journal)@.with_event(
                worker_event(
                    EventKind::InvocationClaimed,
                    v.invocation_id@,
                    v.project_id@,
                    actor@,
                    "schema:invocation-v1"@,
                    v.invocation_id@,
                    Some((v.revision + 1) as u64),
                    *meta,
                    running_document(v.invocation_id@, attempt_id@, fence_epoch),
                ),
            )
        }),
{
    let next: u64 = inv.invocations.rows[i].revision + 1;
    if let Some(space_id) = &inv.invocations.rows[i].space_id {
        if ws.participants.position(space_id.as_str(), actor).is_none() {
            let participant = Participant {
                participant_id: participant_id.to_owned(),
                space_id: space_id.clone(),
                subject_ref: actor.to_owned(),
                subject_revision: Some(1),
                kind: ParticipantKind::AssistantDeployment,
                role: ParticipantRole::Contributor,
                authority_source_ref: cat2(
                    "invocation:",
                    inv.invocations.rows[i].invocation_id.as_str(),
                ),
            };
            ws.participants.insert(participant);
        }
    }
    let payload = running_payload(
        inv.invocations.rows[i].invocation_id.as_str(),
        attempt_id,
        fence_epoch,
    );
    append_worker_event(
        journal,
        EventKind::InvocationClaimed,
        inv.invocations.rows[i].invocation_id.as_str(),
        inv.invocations.rows[i].project_id.as_str(),
        actor,
        "schema:invocation-v1",
        inv.invocations.rows[i].invocation_id.as_str(),
        Some(next),
        meta,
        payload,
    );
    inv.invocations.rows[i].state = InvocationState::Running;
    inv.invocations.rows[i].revision = next;
    proof {
        let v = old(inv).invocations.rows@[i as int];
        let w = Invocation { state: InvocationState::Running, revision: next, ..v };
        assert(inv.invocations.rows@ =~= old(inv).invocations.rows@.update(i as int, w));
        crate::table::table_updated(old(inv).invocations, inv.invocations, i as int, w);
    }
}

/// What claiming an invocation does and answers.
pub open spec fn claim_outcome(
    inv: Invocations,
    inv_after: Invocations,
    ws: Workspace,
    ws_after: Workspace,
    journal: JournalView,
    journal_after: JournalView,
    ctx: Contexts,
    session: Session,
    actor: Seq<char>,
    args: InvocationClaimArgs,
    meta: Meta,
    participant_id: Seq<char>,
    r: Result<Claimed, Problem>,
) -> bool {
    &&& keeps_terminals(inv, inv_after)
    &&& r is Err ==> {
        &&& inv_after == inv
        &&& ws_after == ws
        &&& journal_after == journal
    }
    &&& match claim_barred(inv, args.invocation_id@) {
        Some(p) => r is Err && r->Err_0@ == p,
        None => {
            let v = inv.invocations@[key1(args.invocation_id@)];
            match context_refusal(ctx, ws, opt_view(v.context_assembly_ref)) {
                Some(p) => r is Err && r->Err_0@ == p,
                None => {
                    let c = r->Ok_0;
                    &&& r is Ok
                    &&& claimed_rows(
                        inv,
                        inv_after,
                        args.invocation_id@,
                        session.now_ts@,
                    )
                    &&& claimed_workspace(ws, ws_after, v, actor, participant_id)
                    &&& journal_after == claimed_journal(
                        journal,
                        v,
                        c.fence_epoch,
                        actor,
                        meta,
                    )
                    &&& c.invocation < inv_after.invocations.rows@.len()
                    &&& inv_after.invocations.rows@[c.invocation as int] == inv_after.invocations@[key1(args.invocation_id@)]
                    &&& c.attempt < inv_after.attempts.rows@.len()
                    &&& inv_after.attempts.rows@[c.attempt as int] == inv_after.attempts@[key1(attempt_of(args.invocation_id@))]
                    &&& c.fence_epoch == inv_after.attempts.rows@[c.attempt as int].fence_epoch
                    &&& match v.context_assembly_ref {
                        None => c.context is None,
                        Some(id) => c.context is Some && materialized(
                            c.context->0,
                            ctx,
                            ws,
                            id@,
                        ),
                    }
                },
            }
        },
    }
}

/// Claims an invocation for a worker: its one attempt is bound, an invocation
/// that waits is started, and the exact context is handed out. Claiming again
/// answers the same attempt under its current fence.
pub fn invocation_claim(
    inv: &mut Invocations,
    ws: &mut Workspace,
    journal: &mut Journal,
    ctx: &Contexts,
    session: &Session,
    actor: &str,
    args: &InvocationClaimArgs,
    meta: &Meta,
    participant_id: &str,
) -> (r: Result<Claimed, Problem>)
    requires
        old(inv).wf(),
        old(ws).wf(),
        ctx.wf(),
        old(inv).invocations@.contains_key(key1(args.invocation_id@)) ==> old(
            inv,
        ).invocations@[key1(args.invocation_id@)].revision < u64::MAX,
    ensures
        final(inv).wf(),
        final(ws).wf(),
        claim_outcome(
            *old(inv),
            *final(inv),
            *old(ws),
            *final(ws),
            old(journal)@,
            final(journal)@,
            *ctx,
            *session,
            actor@,
            *args,
            *meta,
            participant_id@,
            r,
        ),
{
    proof {
        reveal_strlit("");
        crate::text::empty_is(""@);
    }
    let i = claim_still_authorized(inv, args.invocation_id.as_str())?;
    let context = materialize(ctx, ws, &inv.invocations.rows[i].context_assembly_ref)?;
    let attempt_id = cat2("att-", args.invocation_id.as_str());
    let ghost v = inv.invocations.rows@[i as int];
    let found = inv.attempts.position(attempt_id.as_str(), "");
    let fence_epoch: u64 = match found {
        Some(a) => inv.attempts.rows[a].fence_epoch,
        None => 1,
    };
    proof {
        crate::table::table_at(inv.invocations, i as int);
    }
    let state = inv.invocations.rows[i].state;
    if state == InvocationState::Queued || state == InvocationState::Claimed {
        start_claimed(
            inv,
            ws,
            journal,
            i,
            attempt_id.as_str(),
            fence_epoch,
            actor,
            meta,
            participant_id,
        );
        proof {
            crate::table::table_at(inv.invocations, i as int);
        }
    }
    let attempt = match found {
        Some(a) => a,
        None => {
            let row = new_attempt(
                attempt_id.as_str(),
                args.invocation_id.as_str(),
                session.now_ts.as_str(),
            );
            let at: usize = inv.attempts.rows.len();
            inv.attempts.insert(row);
            proof {
                assert forall|id: Seq<char>| attempt_id@ == #[trigger] attempt_of(id) implies id
                    == args.invocation_id@ by {
                    attempt_names(id, args.invocation_id@);
                }
            }
            at
        },
    };
    proof {
        crate::table::table_at(inv.attempts, attempt as int);
    }
    let key = scope_digest(meta);
    let mut detail = cat4(
        "invocation=",
        args.invocation_id.as_str(),
        ";attempt=",
        attempt_id.as_str(),
    );
    detail.append(";");
    detail.append(key.as_str());
    journal.audit("command.invocation_claimed", detail.as_str());
    Ok(Claimed { invocation: i, attempt, fence_epoch, context })
}

// -------------------------------------------------- invocation_complete ----

#[derive(Debug)]
pub struct InvocationCompleteArgs {
    pub invocation_id: String,
    pub attempt_id: String,
    pub fence_epoch: u64,
    pub result_ref: Option<String>,
}

/// Why an invocation cannot be completed. A stored completion is replayed only
/// where there is no such reason.
pub open spec fn complete_refusal(inv: Invocations, args: InvocationCompleteArgs) -> Option<
    ProblemView,
> {
    match binding_refusal(inv, args.attempt_id@, args.fence_epoch) {
        Some(p) => Some(p),
        None => if inv.attempts@[key1(args.attempt_id@)].invocation_id@ != args.invocation_id@ {
            Some(stale_lease_view("attempt does not bind this invocation"@))
        } else {
            None
        },
    }
}

/// Decides whether a stored completion may be replayed, and answers where the
/// attempt and the invocation stand.
pub fn complete_still_authorized(inv: &Invocations, args: &InvocationCompleteArgs) -> (r: Result<
    (usize, usize),
    Problem,
>)
    requires
        inv.wf(),
    ensures
        match complete_refusal(*inv, *args) {
            Some(p) => r is Err && r->Err_0@ == p,
            None => r is Ok && bound_rows(*inv, args.attempt_id@, r->Ok_0),
        },
{
    let at = check_binding(inv, args.attempt_id.as_str(), args.fence_epoch)?;
    if !same(
        inv.attempts.rows[at.0].invocation_id.as_str(),
        args.invocation_id.as_str(),
    ) || !same(inv.invocations.rows[at.1].invocation_id.as_str(), args.invocation_id.as_str()) {
        return Err(stale_lease("attempt does not bind this invocation"));
    }
    Ok(at)
}

/// What completing makes of the invocation and its attempt.
pub open spec fn completed_rows(
    before: Invocations,
    after: Invocations,
    args: InvocationCompleteArgs,
    at: Seq<char>,
) -> bool {
    let k = key1(args.invocation_id@);
    let ak = key1(args.attempt_id@);
    let v = before.invocations@[k];
    let w = after.invocations@[k];
    let a = before.attempts@[ak];
    let b = after.attempts@[ak];
    &&& after.manifests == before.manifests
    &&& after.invocations@ == before.invocations@.insert(k, w)
    &&& w == (Invocation {
        state: InvocationState::Succeeded,
        revision: (v.revision + 1) as u64,
        terminal_at: w.terminal_at,
        ..v
    })
    &&& opt_view(w.terminal_at) == Some(at)
    &&& after.attempts@ == before.attempts@.insert(ak, b)
    &&& b == (AttemptRow {
        state: AttemptState::Succeeded,
        ended_at: b.ended_at,
        result_ref: b.result_ref,
        ..a
    })
    &&& opt_view(b.ended_at) == Some(at)
    &&& opt_view(b.result_ref) == opt_view(args.result_ref)
}

pub open spec fn completed_journal(
    before: JournalView,
    v: Invocation,
    args: InvocationCompleteArgs,
    actor: Seq<char>,
    meta: Meta,
) -> JournalView {
    before.with_event(
        worker_event(
            EventKind::InvocationCompleted,
            v.invocation_id@,
            v.project_id@,
            actor,
            "schema:invocation-v1"@,
            v.invocation_id@,
            Some((v.revision + 1) as u64),
            meta,
            succeeded_document(v.invocation_id@, opt_view(args.result_ref)),
        ),
    ).with_audit(
        "command.invocation_succeeded"@,
        "invocation="@ + v.invocation_id@ + ";attempt="@ + args.attempt_id@ + ";"@ + command_name(
            meta,
        ),
    )
}

/// What completing an invocation does and answers.
pub open spec fn complete_outcome(
    inv: Invocations,
    inv_after: Invocations,
    journal: JournalView,
    journal_after: JournalView,
    session: Session,
    actor: Seq<char>,
    args: InvocationCompleteArgs,
    meta: Meta,
    r: Result<u64, Problem>,
) -> bool {
    &&& keeps_terminals(inv, inv_after)
    &&& r is Err ==> inv_after == inv && journal_after == journal
    &&& match complete_refusal(inv, args) {
        Some(p) => r is Err && r->Err_0@ == p,
        None => {
            let v = inv.invocations@[key1(args.invocation_id@)];
            &&& r == Ok::<u64, Problem>((v.revision + 1) as u64)
            &&& completed_rows(inv, inv_after, args, session.now_ts@)
            &&& journal_after == completed_journal(
                journal,
                v,
                args,
                actor,
                meta,
            )
        },
    }
}

/// Completes an invocation: its fenced attempt reports success, and it is over.
/// The answer is the revision that the invocation moves to.
pub fn invocation_complete(
    inv: &mut Invocations,
    journal: &mut Journal,
    session: &Session,
    actor: &str,
    args: &InvocationCompleteArgs,
    meta: &Meta,
) -> (r: Result<u64, Problem>)
    requires
        old(inv).wf(),
        old(inv).invocations@.contains_key(key1(args.invocation_id@)) ==> old(
            inv,
        ).invocations@[key1(args.invocation_id@)].revision < u64::MAX,
    ensures
        final(inv).wf(),
        complete_outcome(
            *old(inv),
            *final(inv),
            old(journal)@,
            final(journal)@,
            *session,
            actor@,
            *args,
            *meta,
            r,
        ),
{
    let at = complete_still_authorized(inv, args)?;
    let i = at.0;
    let j = at.1;
    let next: u64 = inv.invocations.rows[j].revision + 1;
    let payload = succeeded_payload(
        inv.invocations.rows[j].invocation_id.as_str(),
        &args.result_ref,
    );
    append_worker_event(
        journal,
        EventKind::InvocationCompleted,
        inv.invocations.rows[j].invocation_id.as_str(),
        inv.invocations.rows[j].project_id.as_str(),
        actor,
        "schema:invocation-v1",
        inv.invocations.rows[j].invocation_id.as_str(),
        Some(next),
        meta,
        payload,
    );
    let key = scope_digest(meta);
    let mut detail = cat4(
        "invocation=",
        inv.invocations.rows[j].invocation_id.as_str(),
        ";attempt=",
        inv.attempts.rows[i].attempt_id.as_str(),
    );
    detail.append(";");
    detail.append(key.as_str());
    journal.audit("command.invocation_succeeded", detail.as_str());
    inv.invocations.rows[j].state = InvocationState::Succeeded;
    inv.invocations.rows[j].revision = next;
    inv.invocations.rows[j].terminal_at = Some(session.now_ts.clone());
    inv.attempts.rows[i].state = AttemptState::Succeeded;
    inv.attempts.rows[i].ended_at = Some(session.now_ts.clone());
    inv.attempts.rows[i].result_ref = args.result_ref.clone();
    proof {
        crate::table::table_updated(
            old(inv).invocations,
            inv.invocations,
            j as int,
            inv.invocations.rows@[j as int],
        );
        crate::table::table_updated(
            old(inv).attempts,
            inv.attempts,
            i as int,
            inv.attempts.rows@[i as int],
        );
    }
    Ok(next)
}

// ----------------------------------------------------------------- laws ----

/// An attempt completes once: whatever it presents afterwards is refused.
pub proof fn an_attempt_completes_once(
    before: Invocations,
    after: Invocations,
    args: InvocationCompleteArgs,
    at: Seq<char>,
    fence: u64,
)
    requires
        complete_refusal(before, args) is None,
        completed_rows(before, after, args, at),
    ensures
        binding_refusal(after, args.attempt_id@, fence) is Some,
{
}

/// A worker whose fence was advanced is locked out: the fence it holds is no
/// longer the attempt's.
pub proof fn an_advanced_fence_locks_out(
    before: Invocations,
    after: Invocations,
    attempt: Seq<char>,
    fence: u64,
)
    requires
        binding_refusal(before, attempt, fence) is None,
        fence < u64::MAX,
        after.attempts@ == before.attempts@.insert(
            key1(attempt),
            AttemptRow { fence_epoch: (fence + 1) as u64, ..before.attempts@[key1(attempt)] },
        ),
    ensures
        binding_refusal(after, attempt, fence) == Some(
            stale_lease_view("fence epoch is not current"@),
        ),
{
}

/// An invocation that waits in the queue has no attempt: no claim of it stands.
pub proof fn a_queued_invocation_is_unclaimed(inv: Invocations, id: Seq<char>)
    requires
        inv.wf(),
        inv.invocations@.contains_key(key1(id)),
        inv.invocations@[key1(id)].state is Queued,
    ensures
        !inv.attempts@.contains_key(key1(attempt_of(id))),
        forall|i: int|
            0 <= i < inv.attempts.rows@.len() ==> (#[trigger] inv.attempts.rows@[i]).invocation_id@
                != id,
{
    if inv.attempts@.contains_key(key1(attempt_of(id))) {
        let i = crate::table::table_row(inv.attempts, key1(attempt_of(id)));
        assert(inv.attempts.rows@[i].attempt_id@ == attempt_of(id));
        assert(inv.attempts.rows@[i].invocation_id@ == id);
    }
}

/// Claiming again binds no second writer: the first claim of an invocation that
/// waits makes its one attempt, under the first fence, and starts it; the second
/// answers the same attempt under the same fence, and changes and announces
/// nothing but its own audit line.
pub proof fn a_claim_is_repeatable(
    first: Invocations,
    second: Invocations,
    third: Invocations,
    id: Seq<char>,
    at: Seq<char>,
    later: Seq<char>,
    journal: JournalView,
    fence: u64,
    actor: Seq<char>,
    meta: Meta,
)
    requires
        first.wf(),
        second.wf(),
        first.invocations@.contains_key(key1(id)),
        first.invocations@[key1(id)].state is Queued,
        first.invocations@[key1(id)].revision < u64::MAX,
        claimed_rows(first, second, id, at),
        claimed_rows(second, third, id, later),
    ensures
        second.attempts@.contains_key(key1(attempt_of(id))),
        second.attempts@[key1(attempt_of(id))].fence_epoch == 1,
        exists|i: int|
            {
                &&& 0 <= i < second.attempts.rows@.len()
                &&& (#[trigger] second.attempts.rows@[i]).invocation_id@ == id
                &&& second.attempts.rows@[i].attempt_id@ == attempt_of(id)
                &&& forall|j: int|
                    0 <= j < second.attempts.rows@.len() && (
                    #[trigger] second.attempts.rows@[j]).invocation_id@ == id ==> j == i
            },
        second.invocations@[key1(id)].state is Running,
        second.invocations@[key1(id)].revision == first.invocations@[key1(id)].revision + 1,
        third.attempts == second.attempts,
        third.invocations@ == second.invocations@,
        claimed_journal(journal, second.invocations@[key1(id)], fence, actor, meta).events
            == journal.events,
{
    a_queued_invocation_is_unclaimed(first, id);
    let n = first.attempts.rows@.len() as int;
    assert(second.attempts.rows@[n].invocation_id@ == id);
    assert forall|j: int|
        0 <= j < second.attempts.rows@.len() && (
        #[trigger] second.attempts.rows@[j]).invocation_id@ == id implies j == n by {
        if j < n {
            assert(second.attempts.rows@[j] == first.attempts.rows@[j]);
        }
    }
}

/// A terminal invocation is not claimed again, and no stored claim of it is
/// replayed.
pub proof fn a_terminal_invocation_is_not_claimed(inv: Invocations, id: Seq<char>)
    requires
        inv.invocations@.contains_key(key1(id)),
        inv.invocations@[key1(id)].state.terminal(),
    ensures
        claim_barred(inv, id) == Some(stale_lease_view("invocation is terminal"@)),
{
}

/// A claimed invocation is writable under what the claim answered: where it
/// waited, or runs, and its attempt is new, the binding holds.
pub proof fn a_claim_binds(before: Invocations, after: Invocations, id: Seq<char>, at: Seq<char>)
    requires
        before.wf(),
        before.invocations@.contains_key(key1(id)),
        starts(before.invocations@[key1(id)]) || before.invocations@[key1(id)].state is Running,
        !before.attempts@.contains_key(key1(attempt_of(id))),
        claimed_rows(before, after, id, at),
    ensures
        binding_refusal(after, attempt_of(id), 1) is None,
{
}

/// Nothing that a document of this kind (queued) is made of is lost: each part
/// stands under its own name, and two documents are the same only if all parts are.
pub proof fn queued_documents_are_told_apart(
    invocation: Invocation,
    invocation2: Invocation,
)
    requires
        queued_document(invocation)
            == queued_document(invocation2),
    ensures
        queued_document(invocation)->Object_0.contains(text_member("assistant_deployment_id"@, invocation.assistant_deployment_id@)),
        invocation.assistant_deployment_id@ == invocation2.assistant_deployment_id@,
        queued_document(invocation)->Object_0.contains(("context_assembly_ref"@, nullable(opt_view(invocation.context_assembly_ref)))),
        opt_view(invocation.context_assembly_ref) == opt_view(invocation2.context_assembly_ref),
        queued_document(invocation)->Object_0.contains(text_member("invocation_id"@, invocation.invocation_id@)),
        invocation.invocation_id@ == invocation2.invocation_id@,
        queued_document(invocation)->Object_0.contains(text_member("state"@, "queued"@)),
{
    let x = queued_document(invocation)->Object_0;
    let y = queued_document(invocation2)->Object_0;
    assert(x[0] == text_member("assistant_deployment_id"@, invocation.assistant_deployment_id@));
    assert(x[0] == y[0]);
    assert(x[1] == ("context_assembly_ref"@, nullable(opt_view(invocation.context_assembly_ref))));
    assert(x[1] == y[1]);
    assert(x[2] == text_member("invocation_id"@, invocation.invocation_id@));
    assert(x[2] == y[2]);
    assert(x[3] == text_member("state"@, "queued"@));
}

/// Nothing that a document of this kind (running) is made of is lost: each part
/// stands under its own name, and two documents are the same only if all parts are.
pub proof fn running_documents_are_told_apart(
    invocation_id: Seq<char>,
    attempt_id: Seq<char>,
    fence_epoch: u64,
    invocation_id2: Seq<char>,
    attempt_id2: Seq<char>,
    fence_epoch2: u64,
)
    requires
        running_document(invocation_id, attempt_id, fence_epoch)
            == running_document(invocation_id2, attempt_id2, fence_epoch2),
    ensures
        running_document(invocation_id, attempt_id, fence_epoch)->Object_0.contains(text_member("attempt_id"@, attempt_id)),
        attempt_id == attempt_id2,
        running_document(invocation_id, attempt_id, fence_epoch)->Object_0.contains(number_member("fence_epoch"@, fence_epoch)),
        crate::json::number_of(fence_epoch) == crate::json::number_of(fence_epoch2),
        running_document(invocation_id, attempt_id, fence_epoch)->Object_0.contains(text_member("invocation_id"@, invocation_id)),
        invocation_id == invocation_id2,
        running_document(invocation_id, attempt_id, fence_epoch)->Object_0.contains(text_member("state"@, "running"@)),
{
    let x = running_document(invocation_id, attempt_id, fence_epoch)->Object_0;
    let y = running_document(invocation_id2, attempt_id2, fence_epoch2)->Object_0;
    assert(x[0] == text_member("attempt_id"@, attempt_id));
    assert(x[0] == y[0]);
    assert(x[1] == number_member("fence_epoch"@, fence_epoch));
    assert(x[1] == y[1]);
    assert(x[2] == text_member("invocation_id"@, invocation_id));
    assert(x[2] == y[2]);
    assert(x[3] == text_member("state"@, "running"@));
}

/// Nothing that a document of this kind (succeeded) is made of is lost: each part
/// stands under its own name, and two documents are the same only if all parts are.
pub proof fn succeeded_documents_are_told_apart(
    invocation_id: Seq<char>,
    result_ref: Option<Seq<char>>,
    invocation_id2: Seq<char>,
    result_ref2: Option<Seq<char>>,
)
    requires
        succeeded_document(invocation_id, result_ref)
            == succeeded_document(invocation_id2, result_ref2),
    ensures
        succeeded_document(invocation_id, result_ref)->Object_0.contains(text_member("invocation_id"@, invocation_id)),
        invocation_id == invocation_id2,
        succeeded_document(invocation_id, result_ref)->Object_0.contains(("result_ref"@, nullable(result_ref))),
        result_ref == result_ref2,
        succeeded_document(invocation_id, result_ref)->Object_0.contains(text_member("state"@, "succeeded"@)),
{
    let x = succeeded_document(invocation_id, result_ref)->Object_0;
    let y = succeeded_document(invocation_id2, result_ref2)->Object_0;
    assert(x[0] == text_member("invocation_id"@, invocation_id));
    assert(x[0] == y[0]);
    assert(x[1] == ("result_ref"@, nullable(result_ref)));
    assert(x[1] == y[1]);
    assert(x[2] == text_member("state"@, "succeeded"@));
}

/// An invocation is owed for an active deployment at its revision, for an
/// assembly of the project at its digest and a space of the project, and refused
/// for each of these that fails; of a refused one nothing stays.
pub proof fn an_invocation_is_owed<
    D: Fn(&str, &str, &Json) -> String,
    W: Fn(&Vec<ItemRef>) -> Json,
>(
    before: Invocations,
    after: Invocations,
    journal: JournalView,
    after_journal: JournalView,
    ws: Workspace,
    ctx: Contexts,
    deployments: Table<Deployment>,
    session: Session,
    project: Seq<char>,
    args: InvocationCreateArgs,
    meta: Meta,
    ids: InvocationIds,
    write: W,
    digest: D,
    r: Result<usize, Problem>,
)
    requires
        create_outcome(
            before,
            after,
            journal,
            after_journal,
            ws,
            ctx,
            deployments,
            session,
            project,
            args,
            meta,
            ids,
            write,
            digest,
            r,
        ),
    ensures
        r is Err ==> after == before && after_journal == journal,
        r is Ok <==> {
            let dk = key1(args.assistant_deployment_id@);
            &&& ws.projects@.contains_key(key1(project))
            &&& deployments@.contains_key(dk)
            &&& deployments@[dk].status is Active
            &&& deployments@[dk].revision == args.assistant_deployment_revision
            &&& args.context_assembly_ref is Some ==> {
                let a = ctx.assemblies@[key1(args.context_assembly_ref->0@)];
                &&& ctx.assemblies@.contains_key(key1(args.context_assembly_ref->0@))
                &&& a.project_id@ == project
                &&& args.context_assembly_digest is Some ==> args.context_assembly_digest->0@
                    == a.digest@
                &&& args.space_id is Some ==> args.space_id->0@ == a.space_id@
            }
            &&& args.space_id is Some ==> visible(ws.spaces, project, args.space_id->0@)
            &&& !before.invocations@.contains_key(key1(ids.invocation_id@))
            &&& !before.manifests@.contains_key(key1(ids.manifest_id@))
        },
        !ws.projects@.contains_key(key1(project)) || !deployments@.contains_key(
            key1(args.assistant_deployment_id@),
        ) ==> r is Err && r->Err_0@ == not_found_view(),
        ws.projects@.contains_key(key1(project)) && deployments@.contains_key(
            key1(args.assistant_deployment_id@),
        ) && deployments@[key1(args.assistant_deployment_id@)].status is Active
            && deployments@[key1(args.assistant_deployment_id@)].revision
            != args.assistant_deployment_revision ==> r is Err && r->Err_0@
            == stale_revision_view(deployments@[key1(args.assistant_deployment_id@)].revision),
{
}

/// An invocation is made as it was asked for: queued, at revision one, of the
/// deployment as it stands; a priority, a time and a number of attempts that
/// were given are the ones it has, and only without one does the default stand
/// in. Its manifest holds the same, with the items of the assembly in order.
pub proof fn an_invocation_is_made_as_given<
    D: Fn(&str, &str, &Json) -> String,
    W: Fn(&Vec<ItemRef>) -> Json,
>(
    before: Invocations,
    after: Invocations,
    journal: JournalView,
    after_journal: JournalView,
    ws: Workspace,
    ctx: Contexts,
    deployments: Table<Deployment>,
    session: Session,
    project: Seq<char>,
    args: InvocationCreateArgs,
    meta: Meta,
    ids: InvocationIds,
    write: W,
    digest: D,
    r: Result<usize, Problem>,
)
    requires
        before.wf(),
        after.wf(),
        create_outcome(
            before,
            after,
            journal,
            after_journal,
            ws,
            ctx,
            deployments,
            session,
            project,
            args,
            meta,
            ids,
            write,
            digest,
            r,
        ),
        r is Ok,
    ensures
        ({
            let v = after.invocations@[key1(ids.invocation_id@)];
            let d = deployments@[key1(args.assistant_deployment_id@)];
            &&& after.invocations.rows@[r->Ok_0 as int] == v
            &&& after.invocations@ == before.invocations@.insert(key1(ids.invocation_id@), v)
            &&& after.attempts == before.attempts
            &&& v.invocation_id@ == ids.invocation_id@
            &&& v.input_manifest_ref@ == ids.manifest_id@
            &&& v.realm_id@ == session.realm_id@
            &&& v.project_id@ == project
            &&& opt_view(v.space_id) == opt_view(args.space_id)
            &&& opt_view(v.branch_id) == opt_view(args.branch_id)
            &&& opt_view(v.context_assembly_ref) == opt_view(args.context_assembly_ref)
            &&& v.assistant_deployment_id@ == d.deployment_id@
            &&& v.assistant_deployment_revision == d.revision
            &&& v.assistant_revision_id@ == d.assistant_revision_id@
            &&& v.effective_security_profile@ == d.security_profile@
            &&& v.effective_config_ref@ == "cfg-local-dev"@
            &&& v.secret_binding_set_ref@ == "secrets-none"@
            &&& v.rollout_decision_ref@ == "rollout-local-dev"@
            &&& v.correlation_ref@ == meta.request_id@
            &&& opt_view(v.causation_ref) == opt_view(meta.causation_event_ref)
            &&& v.state is Queued
            &&& v.revision == 1
            &&& args.priority is Some ==> v.priority == args.priority->0
            &&& args.priority is None ==> v.priority == 0
            &&& args.not_before is Some ==> v.not_before@ == args.not_before->0@
            &&& args.not_before is None ==> v.not_before@ == session.now_ts@
            &&& args.max_attempts is Some ==> v.max_attempts == args.max_attempts->0
            &&& args.max_attempts is None ==> v.max_attempts == 1
            &&& opt_view(v.deadline) == opt_view(args.deadline)
            &&& opt_view(v.budget_reservation_set_ref) == opt_view(args.budget_reservation_set_ref)
            &&& v.created_at@ == session.now_ts@
            &&& v.terminal_at is None
        }),
        ({
            let m = after.manifests@[key1(ids.manifest_id@)];
            let v = after.invocations@[key1(ids.invocation_id@)];
            let d = deployments@[key1(args.assistant_deployment_id@)];
            &&& after.manifests@ == before.manifests@.insert(key1(ids.manifest_id@), m)
            &&& m.input_manifest_id@ == ids.manifest_id@
            &&& m.invocation_id@ == ids.invocation_id@
            &&& v.input_digest@ == m.digest@
            &&& v.trigger_ref@ == m.trigger_ref@
            &&& v.trigger_digest@ == m.trigger_digest@
            &&& v.effective_config_digest@ == m.config_digest@
            &&& v.secret_binding_set_digest@ == m.secret_binding_set_digest@
            &&& v.effective_policy_digest@ == m.policy_digest@
            &&& opt_view(v.context_assembly_digest) == opt_view(m.context_assembly_digest)
            &&& opt_view(m.space_id) == opt_view(args.space_id)
            &&& opt_view(m.branch_id) == opt_view(args.branch_id)
            &&& opt_view(m.context_assembly_ref) == opt_view(args.context_assembly_ref)
            &&& opt_view(m.disclosure_rules_digest) == opt_view(args.disclosure_rules_digest)
            &&& opt_view(m.deadline) == opt_view(args.deadline)
            &&& opt_view(m.budget_reservation_set_ref) == opt_view(args.budget_reservation_set_ref)
            &&& m.assistant_revision_id@ == d.assistant_revision_id@
            &&& m.deployment_revision == d.revision
            &&& m.created_at@ == session.now_ts@
            &&& args.context_assembly_ref is None ==> {
                &&& m.trigger_ref@ == "manual-"@ + ids.invocation_id@
                &&& m.frontier_ref is None && m.frontier_digest is None
                &&& m.context_assembly_digest is None
                &&& m.ordered_input_refs@.len() == 0
            }
            &&& args.context_assembly_ref is Some ==> {
                let a = ctx.assemblies@[key1(args.context_assembly_ref->0@)];
                &&& m.trigger_ref@ == a.assembly_id@
                &&& m.trigger_digest@ == a.digest@
                &&& opt_view(m.frontier_ref) == Some(a.frontier_ref@)
                &&& opt_view(m.frontier_digest) == Some(a.frontier_digest@)
                &&& opt_view(m.context_assembly_digest) == Some(a.digest@)
                &&& m.ordered_input_refs@.len() == a.items@.len()
                &&& forall|i: int|
                    0 <= i < a.items@.len() ==> (
                    #[trigger] m.ordered_input_refs@[i]).object_ref@ == a.items@[i].object_ref@
                        && m.ordered_input_refs@[i].digest@ == a.items@[i].digest@
            }
        }),
        announced(
            journal,
            after_journal,
            EventKind::InvocationCreated,
            Some(project),
            ids.invocation_id@,
            Some(1u64),
            meta,
        ),
        after_journal.events.last().payload == Some(
            queued_document(after.invocations@[key1(ids.invocation_id@)]),
        ),
{
    let v = after.invocations.rows@.last();
    let m = after.manifests.rows@.last();
    assert(after.invocations.rows@ == before.invocations.rows@.push(v));
    assert(after.manifests.rows@ == before.manifests.rows@.push(m));
    crate::table::table_pushed(before.invocations, after.invocations, v);
    crate::table::table_pushed(before.manifests, after.manifests, m);
    assert(v.key() == key1(ids.invocation_id@));
    assert(m.key() == key1(ids.manifest_id@));
}

/// A claim is owed for an invocation that is not over and whose context stands:
/// every item of its assembly is still a contribution of the assembly's space
/// with the digest it had. A refused claim leaves nothing.
pub proof fn a_claim_is_owed(
    before: Invocations,
    after: Invocations,
    ws: Workspace,
    ws_after: Workspace,
    journal: JournalView,
    after_journal: JournalView,
    ctx: Contexts,
    session: Session,
    actor: Seq<char>,
    args: InvocationClaimArgs,
    meta: Meta,
    participant: Seq<char>,
    r: Result<Claimed, Problem>,
)
    requires
        claim_outcome(
            before,
            after,
            ws,
            ws_after,
            journal,
            after_journal,
            ctx,
            session,
            actor,
            args,
            meta,
            participant,
            r,
        ),
    ensures
        r is Err ==> after == before && ws_after == ws && after_journal == journal,
        r is Ok <==> {
            let v = before.invocations@[key1(args.invocation_id@)];
            let a = ctx.assemblies@[key1(v.context_assembly_ref->0@)];
            &&& before.invocations@.contains_key(key1(args.invocation_id@))
            &&& v.state !is Succeeded && v.state !is Failed && v.state !is Canceled
            &&& v.context_assembly_ref is Some ==> {
                &&& ctx.assemblies@.contains_key(key1(v.context_assembly_ref->0@))
                &&& ctx.frontiers@.contains_key(key1(a.frontier_ref@))
                &&& forall|i: int|
                    0 <= i < a.items@.len() ==> {
                        let k = key1((#[trigger] a.items@[i]).object_ref@);
                        &&& ws.contributions@.contains_key(k)
                        &&& ws.contributions@[k].space_id@ == a.space_id@
                        &&& ws.contributions@[k].content_digest@ == a.items@[i].digest@
                    }
            }
        },
        !before.invocations@.contains_key(key1(args.invocation_id@)) ==> r->Err_0@
            == not_found_view(),
        before.invocations@.contains_key(key1(args.invocation_id@))
            && before.invocations@[key1(args.invocation_id@)].state.terminal() ==> r is Err
            && r->Err_0@.kind == ProblemKind::StaleLease,
{
    let v = before.invocations@[key1(args.invocation_id@)];
    if v.context_assembly_ref is Some {
        let a = ctx.assemblies@[key1(v.context_assembly_ref->0@)];
        assert(opt_view(v.context_assembly_ref) == Some(v.context_assembly_ref->0@));
        assert(all_stand(ws, a) <==> forall|i: int|
            0 <= i < a.items@.len() ==> {
                let k = key1((#[trigger] a.items@[i]).object_ref@);
                &&& ws.contributions@.contains_key(k)
                &&& ws.contributions@[k].space_id@ == a.space_id@
                &&& ws.contributions@[k].content_digest@ == a.items@[i].digest@
            }) by {
            if all_stand(ws, a) {
                assert forall|i: int| 0 <= i < a.items@.len() implies {
                    let k = key1((#[trigger] a.items@[i]).object_ref@);
                    &&& ws.contributions@.contains_key(k)
                    &&& ws.contributions@[k].space_id@ == a.space_id@
                    &&& ws.contributions@[k].content_digest@ == a.items@[i].digest@
                } by {
                    assert(item_stands(ws, a.space_id@, a.items@[i]));
                }
            }
        }
    }
}

/// A claim starts an invocation that waits: it runs, one revision on, with one
/// attempt under fence one; its worker joins the space it works in, once; and
/// the claim names the rows it made and hands out the context in order. Another
/// invocation does not move.
pub proof fn a_claim_starts_the_work(
    before: Invocations,
    after: Invocations,
    ws: Workspace,
    ws_after: Workspace,
    journal: JournalView,
    after_journal: JournalView,
    ctx: Contexts,
    session: Session,
    actor: Seq<char>,
    args: InvocationClaimArgs,
    meta: Meta,
    participant: Seq<char>,
    r: Result<Claimed, Problem>,
    other: Seq<char>,
)
    requires
        before.wf(),
        after.wf(),
        ws.wf(),
        ws_after.wf(),
        claim_outcome(
            before,
            after,
            ws,
            ws_after,
            journal,
            after_journal,
            ctx,
            session,
            actor,
            args,
            meta,
            participant,
            r,
        ),
        r is Ok,
        before.invocations@[key1(args.invocation_id@)].state is Queued
            || before.invocations@[key1(args.invocation_id@)].state is Claimed,
        before.invocations@[key1(args.invocation_id@)].revision < u64::MAX,
        other != args.invocation_id@,
    ensures
        ({
            let v = before.invocations@[key1(args.invocation_id@)];
            let w = after.invocations@[key1(args.invocation_id@)];
            let c = r->Ok_0;
            &&& w.state is Running
            &&& w.revision == v.revision + 1
            &&& w.terminal_at is None
            &&& w.project_id == v.project_id
            &&& w.input_digest == v.input_digest
            &&& w.assistant_deployment_id == v.assistant_deployment_id
            &&& w.context_assembly_ref == v.context_assembly_ref
            &&& after.invocations.rows@[c.invocation as int] == w
            &&& after.attempts.rows@[c.attempt as int].attempt_id@ == "att-"@ + args.invocation_id@
            &&& after.attempts.rows@[c.attempt as int].fence_epoch == c.fence_epoch
            &&& after.manifests == before.manifests
            &&& before.invocations@.contains_key(key1(other)) ==> after.invocations@[key1(other)]
                == before.invocations@[key1(other)]
        }),
        before.invocations@[key1(args.invocation_id@)].state is Queued ==> {
            let a = after.attempts.rows@[r->Ok_0.attempt as int];
            &&& r->Ok_0.fence_epoch == 1
            &&& after.attempts.rows@.len() == before.attempts.rows@.len() + 1
            &&& a.invocation_id@ == args.invocation_id@
            &&& a.ordinal == 1
            &&& a.worker_instance_id@ == "worker-local"@
            &&& a.state is Running
            &&& a.started_at@ == session.now_ts@
            &&& a.ended_at is None
            &&& a.result_ref is None
        },
        before.invocations@[key1(args.invocation_id@)].context_assembly_ref is None
            <==> r->Ok_0.context is None,
        r->Ok_0.context is Some ==> {
            let m = r->Ok_0.context->0;
            let v = before.invocations@[key1(args.invocation_id@)];
            let a = ctx.assemblies@[key1(v.context_assembly_ref->0@)];
            &&& ctx.assemblies.rows@[m.assembly as int] == a
            &&& ctx.frontiers.rows@[m.frontier as int] == ctx.frontiers@[key1(a.frontier_ref@)]
            &&& m.items@.len() == a.items@.len()
            &&& forall|i: int|
                0 <= i < a.items@.len() ==> ws.contributions.rows@[(
                #[trigger] m.items@[i]) as int].contribution_id@ == a.items@[i].object_ref@
        },
        ({
            let v = before.invocations@[key1(args.invocation_id@)];
            let p = ws_after.participants.rows@.last();
            let k = (v.space_id->0@, actor);
            &&& v.space_id is Some ==> ws_after.participants@.contains_key(k)
            &&& v.space_id is Some && !ws.participants@.contains_key(k) ==> {
                &&& ws_after.participants.rows@ == ws.participants.rows@.push(p)
                &&& p.participant_id@ == participant
                &&& p.space_id@ == v.space_id->0@
                &&& p.subject_ref@ == actor
                &&& p.subject_revision == Some(1u64)
                &&& p.kind is AssistantDeployment
                &&& p.role is Contributor
                &&& p.authority_source_ref@ == "invocation:"@ + v.invocation_id@
            }
            &&& v.space_id is None || ws.participants@.contains_key(k) ==> ws_after.participants
                == ws.participants
            &&& ws_after.contributions == ws.contributions
            &&& ws_after.spaces == ws.spaces
            &&& ws_after.projects == ws.projects
        }),
        ({
            let v = before.invocations@[key1(args.invocation_id@)];
            let e = after_journal.events.last();
            &&& announced(
                journal,
                after_journal,
                EventKind::InvocationClaimed,
                Some(v.project_id@),
                v.invocation_id@,
                Some((v.revision + 1) as u64),
                meta,
            )
            &&& e.actor == ActorView::Named(actor)
            &&& e.payload == Some(
                running_document(
                    v.invocation_id@,
                    attempt_of(v.invocation_id@),
                    r->Ok_0.fence_epoch,
                ),
            )
        }),
{
    let id = args.invocation_id@;
    let v = before.invocations@[key1(id)];
    assert(key1(other).0 == other);
    assert(key1(id).0 == id);
    crate::table::table_row(before.invocations, key1(id));
    assert(v.invocation_id@ == id);
    assert(v.terminal_at is None);
    if v.state is Queued {
        a_queued_invocation_is_unclaimed(before, id);
    }
    let ak = key1(attempt_of(id));
    assert(after.attempts@.contains_key(ak));
    let i = crate::table::table_row(after.attempts, ak);
    assert(after.attempts.rows@[i].key().0 == ak.0);
    assert(after.attempts.rows@[i].attempt_id@ == attempt_of(id));
    if joins(ws, v, actor) {
        let p = ws_after.participants.rows@.last();
        crate::table::table_pushed(ws.participants, ws_after.participants, p);
    }
    if r->Ok_0.context is Some {
        let m = r->Ok_0.context->0;
        let a = ctx.assemblies@[key1(v.context_assembly_ref->0@)];
        assert(opt_view(v.context_assembly_ref) == Some(v.context_assembly_ref->0@));
        assert forall|j: int| 0 <= j < a.items@.len() implies ws.contributions.rows@[(
        #[trigger] m.items@[j]) as int].contribution_id@ == a.items@[j].object_ref@ by {
            assert(item_stands(ws, a.space_id@, a.items@[j]));
            let k = key1(a.items@[j].object_ref@);
            let n = crate::table::table_row(ws.contributions, k);
            assert(ws.contributions.rows@[n].key().0 == k.0);
        }
    }
}

/// A claim of an invocation that runs changes no invocation, no space and no
/// participant, announces nothing, and hands out the attempt that stands.
pub proof fn a_claim_of_running_work_hands_it_out(
    before: Invocations,
    after: Invocations,
    ws: Workspace,
    ws_after: Workspace,
    journal: JournalView,
    after_journal: JournalView,
    ctx: Contexts,
    session: Session,
    actor: Seq<char>,
    args: InvocationClaimArgs,
    meta: Meta,
    participant: Seq<char>,
    r: Result<Claimed, Problem>,
)
    requires
        claim_outcome(
            before,
            after,
            ws,
            ws_after,
            journal,
            after_journal,
            ctx,
            session,
            actor,
            args,
            meta,
            participant,
            r,
        ),
        r is Ok,
        before.invocations@[key1(args.invocation_id@)].state is Running,
    ensures
        after.invocations@ == before.invocations@,
        ws_after.participants == ws.participants,
        after_journal.events == journal.events,
        after_journal.audits.len() == journal.audits.len() + 1,
        before.attempts@.contains_key(key1(attempt_of(args.invocation_id@))) ==> {
            &&& after.attempts == before.attempts
            &&& r->Ok_0.fence_epoch == before.attempts@[key1(
                attempt_of(args.invocation_id@),
            )].fence_epoch
        },
{
}

/// An attempt completes what it was claimed for: while it runs, under its own
/// fence, and of its own invocation; the invocation has succeeded from then, one
/// revision on, and the attempt holds the result that was given. Nothing else
/// moves, and a refused completion leaves nothing.
pub proof fn a_completion_is_kept_as_given(
    before: Invocations,
    after: Invocations,
    journal: JournalView,
    after_journal: JournalView,
    session: Session,
    actor: Seq<char>,
    args: InvocationCompleteArgs,
    meta: Meta,
    r: Result<u64, Problem>,
    other: Seq<char>,
    attempt: Seq<char>,
)
    requires
        before.wf(),
        complete_outcome(before, after, journal, after_journal, session, actor, args, meta, r),
        before.invocations@.contains_key(key1(args.invocation_id@)) ==> before.invocations@[key1(
            args.invocation_id@,
        )].revision < u64::MAX,
        other != args.invocation_id@,
        attempt != args.attempt_id@,
    ensures
        r is Err ==> after == before && after_journal == journal,
        r is Ok <==> {
            let a = before.attempts@[key1(args.attempt_id@)];
            &&& before.attempts@.contains_key(key1(args.attempt_id@))
            &&& a.fence_epoch == args.fence_epoch
            &&& a.state is Running
            &&& a.invocation_id@ == args.invocation_id@
            &&& before.invocations@.contains_key(key1(args.invocation_id@))
            &&& before.invocations@[key1(args.invocation_id@)].state is Running
        },
        before.attempts@.contains_key(key1(args.attempt_id@)) && r is Err
            && before.invocations@.contains_key(
            key1(before.attempts@[key1(args.attempt_id@)].invocation_id@),
        ) ==> r->Err_0@.kind == ProblemKind::StaleLease,
        r is Ok ==> {
            let v = before.invocations@[key1(args.invocation_id@)];
            let w = after.invocations@[key1(args.invocation_id@)];
            let a = before.attempts@[key1(args.attempt_id@)];
            let b = after.attempts@[key1(args.attempt_id@)];
            &&& r->Ok_0 == v.revision + 1
            &&& w.revision == v.revision + 1
            &&& w.state is Succeeded
            &&& opt_view(w.terminal_at) == Some(session.now_ts@)
            &&& w.invocation_id == v.invocation_id && w.project_id == v.project_id
            &&& w.input_digest == v.input_digest
            &&& b.state is Succeeded
            &&& opt_view(b.ended_at) == Some(session.now_ts@)
            &&& opt_view(b.result_ref) == opt_view(args.result_ref)
            &&& b.fence_epoch == a.fence_epoch && b.ordinal == a.ordinal
            &&& b.invocation_id == a.invocation_id && b.started_at == a.started_at
            &&& b.worker_instance_id == a.worker_instance_id
            &&& after.manifests == before.manifests
            &&& before.invocations@.contains_key(key1(other)) ==> after.invocations@[key1(other)]
                == before.invocations@[key1(other)]
            &&& before.attempts@.contains_key(key1(attempt)) ==> after.attempts@[key1(attempt)]
                == before.attempts@[key1(attempt)]
            &&& announced(
                journal,
                after_journal,
                EventKind::InvocationCompleted,
                Some(v.project_id@),
                args.invocation_id@,
                Some(w.revision),
                meta,
            )
            &&& after_journal.events.last().actor == ActorView::Named(actor)
            &&& after_journal.events.last().payload == Some(
                succeeded_document(args.invocation_id@, opt_view(args.result_ref)),
            )
        },
{
    assert(key1(other).0 == other);
    assert(key1(args.invocation_id@).0 == args.invocation_id@);
    assert(key1(attempt).0 == attempt);
    assert(key1(args.attempt_id@).0 == args.attempt_id@);
    if r is Ok {
        let n = crate::table::table_row(before.invocations, key1(args.invocation_id@));
        assert(before.invocations.rows@[n].key().0 == args.invocation_id@);
    }
}

/// An attempt's fence moves by one, of that attempt alone, and the old fence is
/// then refused while the new one is taken.
pub proof fn a_fence_moves_by_one(
    before: Invocations,
    after: Invocations,
    attempt: Seq<char>,
    other: Seq<char>,
    r: Result<u64, Problem>,
)
    requires
        advance_outcome(before, after, attempt, r),
        other != attempt,
        before.attempts@.contains_key(key1(attempt)) ==> before.attempts@[key1(
            attempt,
        )].fence_epoch < u64::MAX,
    ensures
        r is Ok <==> before.attempts@.contains_key(key1(attempt)),
        r is Err ==> after == before,
        after.invocations == before.invocations,
        after.manifests == before.manifests,
        r is Ok ==> {
            let a = before.attempts@[key1(attempt)];
            let b = after.attempts@[key1(attempt)];
            &&& r->Ok_0 == a.fence_epoch + 1
            &&& b.fence_epoch == r->Ok_0
            &&& b.state == a.state && b.invocation_id == a.invocation_id
            &&& b.ordinal == a.ordinal && b.result_ref == a.result_ref
            &&& binding_refusal(after, attempt, a.fence_epoch) is Some
            &&& (binding_refusal(after, attempt, r->Ok_0) is None) == (binding_refusal(
                before,
                attempt,
                a.fence_epoch,
            ) is None)
        },
        before.attempts@.contains_key(key1(other)) ==> after.attempts@[key1(other)]
            == before.attempts@[key1(other)],
{
    assert(key1(other).0 == other);
    assert(key1(attempt).0 == attempt);
}

/// A bound attempt is the running one of a running invocation, under its own
/// fence, and is found with that invocation.
pub proof fn a_bound_attempt_runs(
    inv: Invocations,
    attempt: Seq<char>,
    fence: u64,
)
    ensures
        binding_refusal(inv, attempt, fence) is None <==> {
            let a = inv.attempts@[key1(attempt)];
            &&& inv.attempts@.contains_key(key1(attempt))
            &&& a.fence_epoch == fence
            &&& a.state is Running
            &&& inv.invocations@.contains_key(key1(a.invocation_id@))
            &&& inv.invocations@[key1(a.invocation_id@)].state is Running
        },
{
}

/// An invocation started at once runs under fence one, as it was given.
pub proof fn a_fixture_runs_as_given(
    before: Invocations,
    after: Invocations,
    realm: Seq<char>,
    project: Seq<char>,
    space: Option<String>,
    assembly: Option<String>,
    invocation: Seq<char>,
    attempt: Seq<char>,
    at: Seq<char>,
    r: Result<u64, Problem>,
)
    requires
        before.wf(),
        after.wf(),
        fixture_outcome(
            before,
            after,
            realm,
            project,
            space,
            assembly,
            invocation,
            attempt,
            at,
            r,
        ),
    ensures
        r is Ok <==> !before.invocations@.contains_key(key1(invocation))
            && !before.attempts@.contains_key(key1(attempt)),
        r is Err ==> after == before,
        r is Ok ==> {
            let v = after.invocations@[key1(invocation)];
            let a = after.attempts@[key1(attempt)];
            &&& r->Ok_0 == 1
            &&& after.invocations@ == before.invocations@.insert(key1(invocation), v)
            &&& after.attempts@ == before.attempts@.insert(key1(attempt), a)
            &&& after.manifests == before.manifests
            &&& v.realm_id@ == realm
            &&& v.project_id@ == project
            &&& opt_view(v.space_id) == opt_view(space)
            &&& opt_view(v.context_assembly_ref) == opt_view(assembly)
            &&& v.state is Running
            &&& v.revision == 1
            &&& v.created_at@ == at
            &&& a.invocation_id@ == invocation
            &&& a.fence_epoch == 1
            &&& a.ordinal == 1
            &&& a.state is Running
            &&& a.started_at@ == at
            &&& a.result_ref is None
        },
{
    if r is Ok {
        let v = after.invocations.rows@.last();
        let a = after.attempts.rows@.last();
        crate::table::table_pushed(before.invocations, after.invocations, v);
        crate::table::table_pushed(before.attempts, after.attempts, a);
        assert(v.key() == key1(invocation));
        assert(a.key() == key1(attempt));
    }
}

/// The states of an invocation have names of their own, and the three that end
/// it are the terminal ones.
pub proof fn invocation_states_have_their_own_names(a: InvocationState, b: InvocationState)
    ensures
        a.name() == b.name() ==> a == b,
        a.terminal() <==> a.name() == "succeeded"@ || a.name() == "failed"@ || a.name()
            == "canceled"@,
        InvocationState::Queued.name() == "queued"@,
        InvocationState::Claimed.name() == "claimed"@,
        InvocationState::Running.name() == "running"@,
{
    reveal_strlit("queued");
    reveal_strlit("claimed");
    reveal_strlit("running");
    reveal_strlit("succeeded");
    reveal_strlit("failed");
    reveal_strlit("canceled");
    assert("queued"@.len() == 6 && "queued"@[0] == 'q');
    assert("claimed"@.len() == 7 && "claimed"@[0] == 'c');
    assert("running"@.len() == 7 && "running"@[0] == 'r');
    assert("succeeded"@.len() == 9 && "succeeded"@[0] == 's');
    assert("failed"@.len() == 6 && "failed"@[0] == 'f');
    assert("canceled"@.len() == 8 && "canceled"@[0] == 'c');
}

/// The rows that a bound attempt is found by are its own and its invocation's.
pub proof fn a_bound_attempt_is_found_with_its_invocation(
    inv: Invocations,
    attempt: Seq<char>,
    at: (usize, usize),
)
    requires
        bound_rows(inv, attempt, at),
    ensures
        at.0 < inv.attempts.rows@.len(),
        at.1 < inv.invocations.rows@.len(),
        inv.attempts.rows@[at.0 as int].attempt_id@ == attempt,
        inv.invocations.rows@[at.1 as int].invocation_id@
            == inv.attempts.rows@[at.0 as int].invocation_id@,
{
}

/// What an invocation is digested from is digested as what it is: the
/// configuration, the secrets, the policy, the manual trigger of its own name,
/// and the authority of who created it over what it depends on.
pub proof fn an_invocation_is_digested_for_what_it_is<D: Fn(&str, &str, &Json) -> String>(
    mint: InvocationMint,
    ids: InvocationIds,
    owner: Seq<char>,
    digest: D,
    m: InputManifest,
    ctx: Contexts,
    deployment: Deployment,
    args: InvocationCreateArgs,
    at: Seq<char>,
)
    requires
        minted(mint, ids, owner, digest),
        manifest_row(m, ctx, deployment, args, mint, at),
    ensures
        digested(
            digest,
            "kovee-effective-config"@,
            "schema:invocation-v1"@,
            effective_config_document(),
            m.config_digest@,
        ),
        digested(
            digest,
            "kovee-secret-bindings"@,
            "schema:invocation-v1"@,
            secret_bindings_document(),
            m.secret_binding_set_digest@,
        ),
        digested(
            digest,
            "kovee-effective-policy"@,
            "schema:invocation-v1"@,
            effective_policy_document(),
            m.policy_digest@,
        ),
        digested(
            digest,
            "kovee-authority"@,
            "schema:invocation-v1"@,
            creation_authority_document(owner, ids.dependency_set_ref@),
            m.authority_digest@,
        ),
        args.context_assembly_ref is None ==> digested(
            digest,
            "kovee-manual-trigger"@,
            "schema:invocation-v1"@,
            manual_trigger_document(ids.invocation_id@),
            m.trigger_digest@,
        ),
{
}

/// An invocation's commands are audited with its name, its attempt where it has
/// one, and the command.
pub proof fn an_invocation_is_audited_with_its_name(
    before: JournalView,
    v: Invocation,
    args: InvocationCompleteArgs,
    fence: u64,
    actor: Seq<char>,
    meta: Meta,
)
    ensures
        created_journal(before, v, meta).audits == before.with_audit(
            "command.invocation_created"@,
            "invocation="@ + v.invocation_id@ + ";"@ + ("idem="@ + meta.idempotency_key@),
        ).audits,
        claimed_journal(before, v, fence, actor, meta).audits == before.with_audit(
            "command.invocation_claimed"@,
            "invocation="@ + v.invocation_id@ + ";attempt="@ + ("att-"@ + v.invocation_id@) + ";"@
                + ("idem="@ + meta.idempotency_key@),
        ).audits,
        completed_journal(before, v, args, actor, meta).audits == before.with_audit(
            "command.invocation_succeeded"@,
            "invocation="@ + v.invocation_id@ + ";attempt="@ + args.attempt_id@ + ";"@ + ("idem="@
                + meta.idempotency_key@),
        ).audits,
{
}

} // verus!
