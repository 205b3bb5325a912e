//! The records of shared work: projects, the spaces in them, and the
//! contributions that make up a space, with what every command brings along.

use vstd::prelude::*;

use crate::journal::{Actor, ActorView, EventKind, EventView, Journal, JournalView, NewEvent};
use crate::json::{well_formed, Json, JsonView};
use crate::problem::{not_found, not_found_view, Problem};
use crate::table::{key1, Key, Row, Table};
use crate::text::{cat2, opt_view, same};

verus! {

// ------------------------------------------------------------- commands ----

/// What a command carries beside its arguments.
#[derive(Debug)]
pub struct Meta {
    pub request_id: String,
    pub idempotency_key: String,
    pub expected_revision: Option<u64>,
    pub causation_event_ref: Option<String>,
}

/// Where and for whom a command runs, and the time it is stamped with.
#[derive(Debug)]
pub struct Session {
    pub realm_id: String,
    pub owner_actor_ref: String,
    pub now_ts: String,
}

/// How an audit line names a command without carrying any of its content.
pub open spec fn command_name(meta: Meta) -> Seq<char> {
    "idem="@ + meta.idempotency_key@
}

/// How an audit line names a command.
pub fn scope_digest(meta: &Meta) -> (r: String)
    ensures
        r@ == command_name(*meta),
{
    cat2("idem=", meta.idempotency_key.as_str())
}

/// The event of a command, attributed to nobody in particular, over the record
/// that it changed.
pub open spec fn command_event(
    kind: EventKind,
    stream: Seq<char>,
    project: Option<Seq<char>>,
    schema: Seq<char>,
    resource: Seq<char>,
    revision: u64,
    meta: Meta,
    classification: Option<Seq<char>>,
) -> EventView {
    EventView {
        kind,
        stream_id: stream,
        project_id: project,
        actor: ActorView::Nobody,
        schema_ref: schema,
        resource_ref: resource,
        resource_revision: Some(revision),
        causation_ref: opt_view(meta.causation_event_ref),
        correlation_ref: meta.request_id@,
        classification_ref: classification,
        payload: None,
        once: false,
        named: None,
    }
}

pub open spec fn opt_str(o: Option<&str>) -> Option<Seq<char>> {
    match o {
        Some(s) => Some(s@),
        None => None,
    }
}

fn owned(o: Option<&str>) -> (r: Option<String>)
    ensures
        opt_view(r) == opt_str(o),
{
    match o {
        Some(s) => Some(s.to_owned()),
        None => None,
    }
}

/// Appends the event of a command.
pub fn append_command_event(
    journal: &mut Journal,
    kind: EventKind,
    stream: &str,
    project: Option<&str>,
    schema: &str,
    resource: &str,
    revision: u64,
    meta: &Meta,
    classification: Option<&str>,
)
    ensures
        final(journal)@ == old(journal)@.with_event(
            command_event(
                kind,
                stream@,
                opt_str(project),
                schema@,
                resource@,
                revision,
                *meta,
                opt_str(classification),
            ),
        ),
{
    journal.event(
        NewEvent {
            kind,
            stream_id: stream.to_owned(),
            project_id: owned(project),
            actor: Actor::Nobody,
            schema_ref: schema.to_owned(),
            resource_ref: resource.to_owned(),
            resource_revision: Some(revision),
            causation_ref: meta.causation_event_ref.clone(),
            correlation_ref: meta.request_id.clone(),
            classification_ref: owned(classification),
            payload: None,
            once: false,
            named: None,
        },
    );
}

/// An event with a payload of its own.
pub open spec fn carrying(e: EventView, payload: JsonView) -> EventView {
    EventView { payload: Some(payload), ..e }
}

/// Appends the event of a command, with a payload of its own.
pub fn append_command_payload(
    journal: &mut Journal,
    kind: EventKind,
    stream: &str,
    project: Option<&str>,
    schema: &str,
    resource: &str,
    revision: u64,
    meta: &Meta,
    classification: Option<&str>,
    payload: Json,
)
    ensures
        final(journal)@ == old(journal)@.with_event(
            carrying(
                command_event(
                    kind,
                    stream@,
                    opt_str(project),
                    schema@,
                    resource@,
                    revision,
                    *meta,
                    opt_str(classification),
                ),
                payload@,
            ),
        ),
{
    journal.event(
        NewEvent {
            kind,
            stream_id: stream.to_owned(),
            project_id: owned(project),
            actor: Actor::Nobody,
            schema_ref: schema.to_owned(),
            resource_ref: resource.to_owned(),
            resource_revision: Some(revision),
            causation_ref: meta.causation_event_ref.clone(),
            correlation_ref: meta.request_id.clone(),
            classification_ref: owned(classification),
            payload: Some(payload),
            once: false,
            named: None,
        },
    );
}

/// A text that is given, or another in its place.
pub open spec fn or_else(given: Option<String>, otherwise: Seq<char>) -> Seq<char> {
    match given {
        Some(s) => s@,
        None => otherwise,
    }
}

/// Takes a text that is given, or another in its place.
pub fn given_or(given: &Option<String>, otherwise: &str) -> (r: String)
    ensures
        r@ == or_else(*given, otherwise@),
{
    match given {
        Some(s) => s.clone(),
        None => otherwise.to_owned(),
    }
}

// ------------------------------------------------------------- projects ----

#[derive(Debug, Clone, Copy, PartialEq, Eq, Structural)]
pub enum ProjectStatus {
    Active,
    Archived,
}

#[derive(Debug)]
pub struct Project {
    pub project_id: String,
    pub realm_id: String,
    pub revision: u64,
    pub name: String,
    pub status: ProjectStatus,
    pub default_classification_ref: String,
    pub policy_set_ref: String,
    pub created_by: String,
    pub created_at: String,
}

impl Row for Project {
    open spec fn key(&self) -> Key {
        key1(self.project_id@)
    }

    fn has_key(&self, a: &str, b: &str) -> (r: bool) {
        proof {
            crate::text::empty_is(b@);
        }
        same(self.project_id.as_str(), a) && b.is_empty()
    }
}

// --------------------------------------------------------------- spaces ----

#[derive(Debug, Clone, Copy, PartialEq, Eq, Structural)]
pub enum SpaceStatus {
    Open,
    Frozen,
    Archived,
}

impl SpaceStatus {
    pub open spec fn name(self) -> Seq<char> {
        match self {
            SpaceStatus::Open => "open"@,
            SpaceStatus::Frozen => "frozen"@,
            SpaceStatus::Archived => "archived"@,
        }
    }

    pub fn as_str(self) -> (r: &'static str)
        ensures
            r@ == self.name(),
    {
        match self {
            SpaceStatus::Open => "open",
            SpaceStatus::Frozen => "frozen",
            SpaceStatus::Archived => "archived",
        }
    }
}

/// A space and the head of its main branch. Both sequences name the number
/// that the next contribution gets.
#[derive(Debug)]
pub struct Space {
    pub space_id: String,
    pub realm_id: String,
    pub project_id: String,
    pub revision: u64,
    pub title: String,
    pub purpose_contribution_ref: Option<String>,
    pub visibility: String,
    pub status: SpaceStatus,
    pub main_branch_id: String,
    pub next_space_sequence: u64,
    pub head_digest: String,
    pub next_branch_sequence: u64,
    pub default_classification_ref: String,
    pub policy_set_ref: String,
    pub created_by: String,
    pub created_at: String,
}

impl Row for Space {
    open spec fn key(&self) -> Key {
        key1(self.space_id@)
    }

    fn has_key(&self, a: &str, b: &str) -> (r: bool) {
        proof {
            crate::text::empty_is(b@);
        }
        same(self.space_id.as_str(), a) && b.is_empty()
    }
}

#[derive(Debug, Clone, Copy, PartialEq, Eq, Structural)]
pub enum ParticipantKind {
    Principal,
    AssistantDeployment,
}

#[derive(Debug, Clone, Copy, PartialEq, Eq, Structural)]
pub enum ParticipantRole {
    Steward,
    Contributor,
}

/// Who takes part in a space. A subject takes part in a space once.
#[derive(Debug)]
pub struct Participant {
    pub participant_id: String,
    pub space_id: String,
    pub subject_ref: String,
    pub subject_revision: Option<u64>,
    pub kind: ParticipantKind,
    pub role: ParticipantRole,
    pub authority_source_ref: String,
}

impl Row for Participant {
    open spec fn key(&self) -> Key {
        (self.space_id@, self.subject_ref@)
    }

    fn has_key(&self, a: &str, b: &str) -> (r: bool) {
        same(self.space_id.as_str(), a) && same(self.subject_ref.as_str(), b)
    }
}

// -------------------------------------------------------- contributions ----

/// One part of a contribution's body.
#[derive(Debug)]
pub enum Part {
    Text { media_type: String, text: String, language: Option<String> },
    Data { value: Json, schema_ref: Option<String> },
    Artifact { artifact_ref: String },
}

/// Whether the documents among some parts are well formed.
pub open spec fn parts_well_formed(parts: Seq<Part>) -> bool {
    forall|i: int|
        0 <= i < parts.len() ==> match #[trigger] parts[i] {
            Part::Data { value, .. } => well_formed(value@),
            _ => true,
        }
}

/// Whether a document is how some parts are written.
pub open spec fn parts_written<P: Fn(&Vec<Part>) -> Json>(
    write: P,
    parts: Vec<Part>,
    doc: JsonView,
) -> bool {
    exists|out: Json| #[trigger] write.ensures((&parts,), out) && out@ == doc
}

/// Whether a head is the one of a branch that holds nothing yet.
pub open spec fn headed<N: Fn(&str) -> String>(
    genesis: N,
    branch: Seq<char>,
    head: Seq<char>,
) -> bool {
    exists|b: &str, o: String|
        #[trigger] genesis.ensures((b,), o) && b@ == branch && o@ == head
}

/// Every list of parts can be written.
pub open spec fn writes_all<P: Fn(&Vec<Part>) -> Json>(write: P) -> bool {
    forall|p: &Vec<Part>| #[trigger] write.requires((p,))
}

#[derive(Debug, Clone, Copy, PartialEq, Eq, Structural)]
pub enum ContentState {
    Live,
    Redacted,
}

#[derive(Debug)]
pub struct Contribution {
    pub contribution_id: String,
    pub revision: u64,
    pub realm_id: String,
    pub project_id: String,
    pub space_id: String,
    pub origin_branch_id: String,
    pub origin_branch_sequence: u64,
    pub space_sequence: u64,
    pub author_actor_ref: String,
    pub kind: String,
    pub schema_ref: String,
    pub body_parts: Vec<Part>,
    pub subject_refs: Vec<Json>,
    pub source_refs: Vec<Json>,
    pub epistemic_posture: Option<String>,
    pub invocation_ref: Option<String>,
    pub context_assembly_ref: Option<String>,
    pub causation_ref: Option<String>,
    pub classification_ref: String,
    pub retention_policy_ref: String,
    pub content_digest: String,
    pub created_at: String,
    pub content_state: ContentState,
    /// The wrapped secret that keys the content digest, where there is one.
    pub object_secret: Option<Vec<u8>>,
}

impl Row for Contribution {
    open spec fn key(&self) -> Key {
        key1(self.contribution_id@)
    }

    fn has_key(&self, a: &str, b: &str) -> (r: bool) {
        proof {
            crate::text::empty_is(b@);
        }
        same(self.contribution_id.as_str(), a) && b.is_empty()
    }
}

// ------------------------------------------------------------ workspace ----

/// The shared work of a realm.
pub struct Workspace {
    pub projects: Table<Project>,
    pub spaces: Table<Space>,
    pub participants: Table<Participant>,
    pub contributions: Table<Contribution>,
}

/// Whether a contribution is the one with a number in a space.
pub open spec fn numbered(c: Contribution, space: Seq<char>, n: int) -> bool {
    c.space_id@ == space && c.space_sequence == n
}

/// Whether some contribution has a number in a space.
pub open spec fn number_taken(rows: Seq<Contribution>, space: Seq<char>, n: int) -> bool {
    exists|i: int| 0 <= i < rows.len() && numbered(#[trigger] rows[i], space, n)
}

/// The numbers of a space's contributions are one, two, three and so on
/// without a gap, and none stands twice.
pub open spec fn dense(ws: Workspace, s: Space) -> bool {
    &&& s.next_space_sequence >= 1
    &&& s.next_branch_sequence == s.next_space_sequence
    &&& forall|n: int|
        #[trigger] number_taken(ws.contributions.rows@, s.space_id@, n) <==> 1 <= n
            < s.next_space_sequence
    &&& forall|i: int, j: int|
        0 <= i < j < ws.contributions.rows@.len() && (
        #[trigger] ws.contributions.rows@[i]).space_id@ == s.space_id@ && (
        #[trigger] ws.contributions.rows@[j]).space_id@ == s.space_id@
            ==> ws.contributions.rows@[i].space_sequence
            != ws.contributions.rows@[j].space_sequence
}

impl Workspace {
    /// Keys are unique, every contribution stands in a space of this workspace,
    /// and the documents in its body are well formed.
    pub open spec fn wf(&self) -> bool {
        &&& self.projects.wf()
        &&& self.spaces.wf()
        &&& self.participants.wf()
        &&& self.contributions.wf()
        &&& contained(self.contributions.rows@, self.spaces)
        &&& bodies_well_formed(self.contributions.rows@)
    }

    pub fn new() -> (r: Workspace)
        ensures
            r.wf(),
            r.projects.rows@.len() == 0,
            r.spaces.rows@.len() == 0,
            r.participants.rows@.len() == 0,
            r.contributions.rows@.len() == 0,
    {
        Workspace {
            projects: Table::new(),
            spaces: Table::new(),
            participants: Table::new(),
            contributions: Table::new(),
        }
    }
}

/// Every contribution stands in a space that there is.
pub open spec fn contained(rows: Seq<Contribution>, spaces: Table<Space>) -> bool {
    forall|i: int|
        0 <= i < rows.len() ==> spaces@.contains_key(key1((#[trigger] rows[i]).space_id@))
}

/// The documents in every body are well formed.
pub open spec fn bodies_well_formed(rows: Seq<Contribution>) -> bool {
    forall|i: int| 0 <= i < rows.len() ==> parts_well_formed((#[trigger] rows[i]).body_parts@)
}

/// Whether a space is visible in a project.
pub open spec fn visible(spaces: Table<Space>, project: Seq<char>, space: Seq<char>) -> bool {
    spaces@.contains_key(key1(space)) && spaces@[key1(space)].project_id@ == project
}

/// Finds a space that is visible in a project; what is absent and what
/// belongs to another project is answered alike.
pub fn visible_space(spaces: &Table<Space>, project_id: &str, space_id: &str) -> (r: Result<
    usize,
    Problem,
>)
    requires
        spaces.wf(),
    ensures
        match r {
            Ok(i) => {
                &&& visible(*spaces, project_id@, space_id@)
                &&& i < spaces.rows.len()
                &&& spaces.rows@[i as int] == spaces@[key1(space_id@)]
                &&& spaces.rows@[i as int].space_id@ == space_id@
            },
            Err(p) => !visible(*spaces, project_id@, space_id@) && p@ == not_found_view(),
        },
{
    proof {
        reveal_strlit("");
        crate::text::empty_is(""@);
    }
    match spaces.position(space_id, "") {
        None => Err(not_found()),
        Some(i) => if same(spaces.rows[i].project_id.as_str(), project_id) {
            Ok(i)
        } else {
            Err(not_found())
        },
    }
}

/// A space found under an identifier carries it.
pub proof fn space_named(spaces: Table<Space>, id: Seq<char>)
    requires
        spaces.wf(),
        spaces@.contains_key(key1(id)),
    ensures
        spaces@[key1(id)].space_id@ == id,
{
    let i = crate::table::table_row(spaces, key1(id));
}

/// What the audit calls a command that is announced as an event of a kind.
pub open spec fn audit_of(kind: EventKind) -> Option<Seq<char>> {
    match kind {
        EventKind::ProjectCreated => Some("command.project_created"@),
        EventKind::ProjectUpdated => Some("command.project_updated"@),
        EventKind::SpaceCreated => Some("command.space_created"@),
        EventKind::SpaceUpdated => Some("command.space_updated"@),
        EventKind::SpacePolicyNarrowed => Some("command.space_policy_narrowed"@),
        EventKind::SpaceFrozen => Some("command.space_frozen"@),
        EventKind::SpaceReopened => Some("command.space_reopened"@),
        EventKind::SpaceArchived => Some("command.space_archived"@),
        EventKind::SpaceRestricted => Some("command.space_restricted"@),
        EventKind::PolicyChangePrepared => Some("command.project_policy_change_prepared"@),
        EventKind::PolicyChangeConfirmed => Some("command.project_policy_change_confirmed"@),
        EventKind::PolicyChangeCanceled => Some("command.project_policy_change_canceled"@),
        EventKind::WideningPrepared => Some("command.space_access_widening_prepared"@),
        EventKind::WideningConfirmed => Some("command.space_access_widening_confirmed"@),
        EventKind::WideningCanceled => Some("command.space_access_widening_canceled"@),
        EventKind::ContributionAppended => Some("command.contribution_appended"@),
        EventKind::ContributionWithdrawn => Some("command.contribution_withdrawn"@),
        EventKind::ContributionSuperseded => Some("command.contribution_superseded"@),
        EventKind::ContributionRedacted => Some("command.contribution_redacted"@),
        EventKind::RelationRetracted => Some("command.relation_retracted"@),
        EventKind::InvocationCreated => Some("command.invocation_created"@),
        EventKind::InvocationClaimed => Some("command.invocation_claimed"@),
        EventKind::InvocationCompleted => Some("command.invocation_succeeded"@),
        EventKind::InvocationCanceled => Some("command.invocation_canceled"@),
        EventKind::AssistantCreated => Some("command.assistant_created"@),
        EventKind::RevisionRegistered => Some("command.assistant_revision_registered"@),
        EventKind::DeploymentCreated => Some("command.deployment_created"@),
        EventKind::DeploymentActivated => Some("command.deployment_activated"@),
        EventKind::DeploymentDrained => Some("command.deployment_drained"@),
        EventKind::AliasBound => Some("command.assistant_alias_bound"@),
        EventKind::AliasUpdated => Some("command.assistant_alias_updated"@),
        EventKind::AliasRevoked => Some("command.assistant_alias_revoked"@),
        EventKind::ApplicationEvent => Some("command.application_event_emitted"@),
        _ => None,
    }
}

/// Whether one event was added and no more: of a resource at a revision, in its
/// project, tied to the command that caused it; and one line of audit with it,
/// that calls the command by its own name.
pub open spec fn announced(
    before: JournalView,
    after: JournalView,
    kind: EventKind,
    project: Option<Seq<char>>,
    resource: Seq<char>,
    revision: Option<u64>,
    meta: Meta,
) -> bool {
    &&& after.events == before.events.push(after.events.last())
    &&& after.events.last().kind == kind
    &&& after.events.last().project_id == project
    &&& after.events.last().resource_ref == resource
    &&& after.events.last().resource_revision == revision
    &&& after.events.last().correlation_ref == meta.request_id@
    &&& after.events.last().causation_ref == opt_view(meta.causation_event_ref)
    &&& !after.events.last().once
    &&& after.audits == before.audits.push(after.audits.last())
    &&& audit_of(kind) is Some ==> after.audits.last().event == audit_of(kind)->0
}

/// A command event says of its command what the command says of itself, and
/// carries no payload and no name of its own.
pub proof fn a_command_event_names_its_command(
    kind: EventKind,
    stream: Seq<char>,
    project: Option<Seq<char>>,
    schema: Seq<char>,
    resource: Seq<char>,
    revision: u64,
    meta: Meta,
    classification: Option<Seq<char>>,
    payload: JsonView,
)
    ensures
        ({
            let e = command_event(
                kind,
                stream,
                project,
                schema,
                resource,
                revision,
                meta,
                classification,
            );
            &&& e.kind == kind
            &&& e.stream_id == stream
            &&& e.project_id == project
            &&& e.schema_ref == schema
            &&& e.resource_ref == resource
            &&& e.resource_revision == Some(revision)
            &&& e.correlation_ref == meta.request_id@
            &&& e.causation_ref == opt_view(meta.causation_event_ref)
            &&& e.classification_ref == classification
            &&& e.actor is Nobody
            &&& e.payload is None
            &&& e.named is None
            &&& !e.once
            &&& carrying(e, payload).payload == Some(payload)
            &&& carrying(e, payload).resource_ref == resource
            &&& carrying(e, payload).correlation_ref == meta.request_id@
        }),
{
}

/// What is given is taken; the other stands in only for what is not.
pub proof fn the_given_is_taken(given: Option<String>, otherwise: Seq<char>)
    ensures
        given is Some ==> or_else(given, otherwise) == given->0@,
        given is None ==> or_else(given, otherwise) == otherwise,
{
}

/// The states of a space have names of their own.
pub proof fn space_states_have_their_own_names(a: SpaceStatus, b: SpaceStatus)
    ensures
        a.name() == b.name() ==> a == b,
        SpaceStatus::Open.name() == "open"@,
        SpaceStatus::Frozen.name() == "frozen"@,
        SpaceStatus::Archived.name() == "archived"@,
{
    reveal_strlit("open");
    reveal_strlit("frozen");
    reveal_strlit("archived");
    assert("open"@.len() == 4);
    assert("frozen"@.len() == 6);
    assert("archived"@.len() == 8);
}

/// A space is visible in its own project and in no other.
pub proof fn a_space_is_visible_in_one_project(
    spaces: Table<Space>,
    space: Seq<char>,
    a: Seq<char>,
    b: Seq<char>,
)
    ensures
        visible(spaces, a, space) && visible(spaces, b, space) ==> a == b,
        spaces@.contains_key(key1(space)) ==> visible(
            spaces,
            spaces@[key1(space)].project_id@,
            space,
        ),
        !spaces@.contains_key(key1(space)) ==> !visible(spaces, a, space),
{
}

/// A command is named in the audit by its idempotency key, and two by one name
/// only where they have one key.
pub proof fn a_command_is_named_by_its_key(a: Meta, b: Meta)
    ensures
        command_name(a) == command_name(b) ==> a.idempotency_key@ == b.idempotency_key@,
        command_name(a) == "idem="@ + a.idempotency_key@,
{
    reveal_strlit("idem=");
    assert("idem="@.len() == 5);
    assert(command_name(a).skip(5) =~= a.idempotency_key@);
    assert(command_name(b).skip(5) =~= b.idempotency_key@);
}

} // verus!
