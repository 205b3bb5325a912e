//! Assistants: their definitions, registered revisions, deployments and the
//! aliases that a project calls them by; canceling what they were invoked for,
//! and the events that their workers emit.

use vstd::prelude::*;

use crate::invoke::{attempt_invocation_id, attempts_claimed, binding_refusal, check_binding,
    invocation_visible, keeps_terminals, worker_event, AttemptRow, AttemptState, Invocation, InvocationState,
    Invocations};
use crate::journal::{Actor, EventKind, EventView, Journal, JournalView, NewEvent};
use crate::json::{members, nullable, nullable_text, object, put, put_text, text_member, Json,
    JsonView};
use crate::problem::{check_expected_revision, internal, internal_view, not_found, not_found_view,
    problem, refusal, refusal_with, revision_agrees, stale_revision, stale_revision_view,
    Problem, ProblemKind, ProblemView};
use crate::records::{announced, append_command_event, append_command_payload, carrying, command_event,
    command_name, scope_digest, Meta, Session, Workspace};
use crate::table::{key1, Key, Row, Table};
use crate::text::{begins, blank, cat2, cat3, cat4, is_word, joined, joined_words_are_found,
    lowercase, lowercase_of, opt_view, same, split_words, starts_with, views, words,
    words_around_blank};

use vstd::string::*;

verus! {

// -------------------------------------------------------------- records ----

#[derive(Debug, Clone, Copy, PartialEq, Eq, Structural)]
pub enum DefinitionStatus {
    Active,
    Retired,
}

#[derive(Debug)]
pub struct Definition {
    pub definition_id: String,
    pub realm_id: String,
    pub owner_ref: String,
    pub revision: u64,
    pub name: String,
    pub description: String,
    pub status: DefinitionStatus,
    pub created_at: String,
}

impl Row for Definition {
    open spec fn key(&self) -> Key {
        key1(self.definition_id@)
    }

    fn has_key(&self, a: &str, b: &str) -> (r: bool) {
        proof {
            crate::text::empty_is(b@);
        }
        same(self.definition_id.as_str(), a) && b.is_empty()
    }
}

/// One registered revision of a definition. A registration never changes.
#[derive(Debug)]
pub struct AssistantRevision {
    pub assistant_revision_id: String,
    pub definition_id: String,
    pub version: String,
    pub manifest: Json,
    pub package_artifact_ref: String,
    pub package_digest: String,
    pub config_schema_digest: String,
    pub sdk_protocol_range: String,
    pub signature_refs: Vec<String>,
    pub created_by: String,
    pub created_at: String,
}

impl Row for AssistantRevision {
    open spec fn key(&self) -> Key {
        key1(self.assistant_revision_id@)
    }

    fn has_key(&self, a: &str, b: &str) -> (r: bool) {
        proof {
            crate::text::empty_is(b@);
        }
        same(self.assistant_revision_id.as_str(), a) && b.is_empty()
    }
}

#[derive(Debug, Clone, Copy, PartialEq, Eq, Structural)]
pub enum DeploymentStatus {
    Created,
    Active,
    Drained,
}

impl DeploymentStatus {
    pub open spec fn name(self) -> Seq<char> {
        match self {
            DeploymentStatus::Created => "created"@,
            DeploymentStatus::Active => "active"@,
            DeploymentStatus::Drained => "drained"@,
        }
    }

    pub fn as_str(self) -> (r: &'static str)
        ensures
            r@ == self.name(),
    {
        match self {
            DeploymentStatus::Created => "created",
            DeploymentStatus::Active => "active",
            DeploymentStatus::Drained => "drained",
        }
    }
}

/// What a deployment was created with.
#[derive(Debug)]
pub struct DeploymentRecord {
    pub config_ref: String,
    pub config_digest: String,
    pub secret_binding_set_ref: String,
    pub secret_binding_set_digest: String,
    pub policy_ref: String,
    pub pool_ref: String,
    pub concurrency_policy: Json,
    pub rollout_policy: Json,
    pub activated_at: Option<String>,
}

/// A deployment of a revision. One that the installation came with has no
/// record.
#[derive(Debug)]
pub struct Deployment {
    pub deployment_id: String,
    pub realm_id: String,
    pub revision: u64,
    pub assistant_revision_id: String,
    pub security_profile: String,
    pub status: DeploymentStatus,
    pub created_at: String,
    pub record: Option<DeploymentRecord>,
}

impl Row for Deployment {
    open spec fn key(&self) -> Key {
        key1(self.deployment_id@)
    }

    fn has_key(&self, a: &str, b: &str) -> (r: bool) {
        proof {
            crate::text::empty_is(b@);
        }
        same(self.deployment_id.as_str(), a) && b.is_empty()
    }
}

#[derive(Debug, Clone, Copy, PartialEq, Eq, Structural)]
pub enum AliasStatus {
    Active,
    Revoked,
}

impl AliasStatus {
    pub open spec fn name(self) -> Seq<char> {
        match self {
            AliasStatus::Active => "active"@,
            AliasStatus::Revoked => "revoked"@,
        }
    }

    pub fn as_str(self) -> (r: &'static str)
        ensures
            r@ == self.name(),
    {
        match self {
            AliasStatus::Active => "active",
            AliasStatus::Revoked => "revoked",
        }
    }
}

/// What a project calls a deployment, at a pinned revision of it.
#[derive(Debug)]
pub struct Alias {
    pub alias_binding_id: String,
    pub realm_id: String,
    pub project_id: String,
    pub revision: u64,
    pub normalized_alias: String,
    pub display_alias: String,
    pub assistant_deployment_id: String,
    pub deployment_revision: u64,
    pub status: AliasStatus,
    pub created_by: String,
    pub created_at: String,
}

impl Row for Alias {
    open spec fn key(&self) -> Key {
        key1(self.alias_binding_id@)
    }

    fn has_key(&self, a: &str, b: &str) -> (r: bool) {
        proof {
            crate::text::empty_is(b@);
        }
        same(self.alias_binding_id.as_str(), a) && b.is_empty()
    }
}

/// The assistants of a realm.
pub struct Registry {
    pub definitions: Table<Definition>,
    pub revisions: Table<AssistantRevision>,
    pub deployments: Table<Deployment>,
    pub aliases: Table<Alias>,
}

/// Whether a revision is the registered one of a definition's version.
pub open spec fn registers(r: AssistantRevision, definition: Seq<char>, version: Seq<char>) -> bool {
    r.definition_id@ == definition && r.version@ == version
}

/// No version of a definition is registered twice.
pub open spec fn versions_distinct(rows: Seq<AssistantRevision>) -> bool {
    forall|i: int, j: int|
        0 <= i < j < rows.len() ==> !registers(
            #[trigger] rows[i],
            (#[trigger] rows[j]).definition_id@,
            rows[j].version@,
        )
}

/// Whether a binding holds an alias in a project.
pub open spec fn holds(a: Alias, project: Seq<char>, alias: Seq<char>) -> bool {
    a.status is Active && a.project_id@ == project && a.normalized_alias@ == alias
}

/// An alias is held once in a project.
pub open spec fn aliases_distinct(rows: Seq<Alias>) -> bool {
    forall|i: int, j: int|
        0 <= i < j < rows.len() && (#[trigger] rows[j]).status is Active ==> !holds(
            #[trigger] rows[i],
            rows[j].project_id@,
            rows[j].normalized_alias@,
        )
}

impl Registry {
    pub open spec fn wf(&self) -> bool {
        &&& self.definitions.wf()
        &&& self.revisions.wf()
        &&& self.deployments.wf()
        &&& self.aliases.wf()
        &&& versions_distinct(self.revisions.rows@)
        &&& aliases_distinct(self.aliases.rows@)
    }

    pub fn new() -> (r: Registry)
        ensures
            r.wf(),
            r.definitions.rows@.len() == 0,
            r.revisions.rows@.len() == 0,
            r.deployments.rows@.len() == 0,
            r.aliases.rows@.len() == 0,
    {
        Registry {
            definitions: Table::new(),
            revisions: Table::new(),
            deployments: Table::new(),
            aliases: Table::new(),
        }
    }
}

pub open spec fn invalid_view(detail: Seq<char>) -> ProblemView {
    refusal_with(ProblemKind::Invalid, "invalid transition"@, detail)
}

fn invalid(detail: &str) -> (r: Problem)
    ensures
        r@ == invalid_view(detail@),
{
    problem(ProblemKind::Invalid, "invalid transition", detail)
}

/// What a command on a realm's registry writes down.
pub open spec fn realm_journal(
    before: JournalView,
    kind: EventKind,
    stream: Seq<char>,
    schema: Seq<char>,
    resource: Seq<char>,
    revision: u64,
    meta: Meta,
    audit: Seq<char>,
) -> JournalView {
    before.with_event(
        command_event(kind, stream, None, schema, resource, revision, meta, None),
    ).with_audit(audit, "resource="@ + resource + ";"@ + command_name(meta))
}

fn realm_event(
    journal: &mut Journal,
    kind: EventKind,
    stream: &str,
    schema: &str,
    resource: &str,
    revision: u64,
    meta: &Meta,
    audit: &str,
)
    ensures
        final(journal)@ == realm_journal(
            old(journal)@,
            kind,
            stream@,
            schema@,
            resource@,
            revision,
            *meta,
            audit@,
        ),
{
    append_command_event(journal, kind, stream, None, schema, resource, revision, meta, None);
    let key = scope_digest(meta);
    let detail = cat4("resource=", resource, ";", key.as_str());
    journal.audit(audit, detail.as_str());
}

// ----------------------------------------------------- assistant_create ----

#[derive(Debug)]
pub struct AssistantCreateArgs {
    pub name: String,
    pub description: String,
}

pub open spec fn created_definition(
    d: Definition,
    id: Seq<char>,
    session: Session,
    args: AssistantCreateArgs,
) -> bool {
    &&& d.definition_id@ == id
    &&& d.realm_id@ == session.realm_id@
    &&& d.owner_ref@ == session.owner_actor_ref@
    &&& d.revision == 1
    &&& d.name@ == args.name@
    &&& d.description@ == args.description@
    &&& d.status is Active
    &&& d.created_at@ == session.now_ts@
}

/// What creating a definition does and answers.
pub open spec fn assistant_create_outcome(
    reg: Registry,
    reg_after: Registry,
    journal: JournalView,
    journal_after: JournalView,
    session: Session,
    args: AssistantCreateArgs,
    meta: Meta,
    definition_id: Seq<char>,
    r: Result<usize, Problem>,
) -> bool {
    &&& if reg.definitions@.contains_key(key1(definition_id)) {
        &&& r is Err
        &&& r->Err_0@ == internal_view()
        &&& reg_after == reg
        &&& journal_after == journal
    } else {
        let d = reg_after.definitions.rows@.last();
        &&& r is Ok
        &&& r->Ok_0 == reg.definitions.rows@.len()
        &&& reg_after.definitions.rows@ == reg.definitions.rows@.push(d)
        &&& created_definition(d, definition_id, session, args)
        &&& reg_after.revisions == reg.revisions
        &&& reg_after.deployments == reg.deployments
        &&& reg_after.aliases == reg.aliases
        &&& journal_after == realm_journal(
            journal,
            EventKind::AssistantCreated,
            definition_id,
            "schema:assistant-definition-v1"@,
            definition_id,
            1,
            meta,
            "command.assistant_created"@,
        )
    }
}

/// Creates an assistant definition. The answer is its position.
pub fn assistant_create(
    reg: &mut Registry,
    journal: &mut Journal,
    session: &Session,
    args: &AssistantCreateArgs,
    meta: &Meta,
    definition_id: &str,
) -> (r: Result<usize, Problem>)
    requires
        old(reg).wf(),
    ensures
        final(reg).wf(),
        assistant_create_outcome(
            *old(reg),
            *final(reg),
            old(journal)@,
            final(journal)@,
            *session,
            *args,
            *meta,
            definition_id@,
            r,
        ),
{
    proof {
        reveal_strlit("");
        crate::text::empty_is(""@);
    }
    if reg.definitions.position(definition_id, "").is_some() {
        return Err(internal());
    }
    let definition = Definition {
        definition_id: definition_id.to_owned(),
        realm_id: session.realm_id.clone(),
        owner_ref: session.owner_actor_ref.clone(),
        revision: 1,
        name: args.name.clone(),
        description: args.description.clone(),
        status: DefinitionStatus::Active,
        created_at: session.now_ts.clone(),
    };
    realm_event(
        journal,
        EventKind::AssistantCreated,
        definition_id,
        "schema:assistant-definition-v1",
        definition_id,
        1,
        meta,
        "command.assistant_created",
    );
    let at: usize = reg.definitions.rows.len();
    reg.definitions.insert(definition);
    Ok(at)
}

/// Shows an assistant definition.
pub fn assistant_show<'a>(reg: &'a Registry, definition_id: &str) -> (r: Result<
    &'a Definition,
    Problem,
>)
    requires
        reg.wf(),
    ensures
        match r {
            Ok(d) => reg.definitions@.contains_key(key1(definition_id@)) && *d
                == reg.definitions@[key1(definition_id@)],
            Err(p) => !reg.definitions@.contains_key(key1(definition_id@)) && p@
                == not_found_view(),
        },
{
    proof {
        reveal_strlit("");
        crate::text::empty_is(""@);
    }
    match reg.definitions.find(definition_id, "") {
        Some(d) => Ok(d),
        None => Err(not_found()),
    }
}

// ------------------------------------------ assistant_revision_register ----

/// The limits that a revision asks for.
#[derive(Debug)]
pub struct ResourceLimits {
    pub cpu: Json,
    pub memory: Json,
    pub disk: Json,
    pub output_bytes: Json,
}

/// The manifest of a revision.
#[derive(Debug)]
pub struct RevisionManifest {
    pub schema_version: Json,
    pub definition_id: String,
    pub version: String,
    pub entrypoint: Json,
    pub package_digest: String,
    pub runtime: Json,
    pub supported_worker_protocols: Json,
    pub input_schema_ref: Json,
    pub output_schema_ref: Json,
    pub skills: Json,
    pub attention_proposals: Json,
    pub requested_capabilities: Json,
    pub model_profiles: Json,
    pub tool_profiles: Json,
    pub network_policy: Json,
    pub resource_limits: ResourceLimits,
    pub default_timeout: Json,
    pub max_concurrency: Json,
    pub causal_concurrency_policy: Json,
    pub checkpoint_support: Json,
    pub cancellation_support: Json,
    pub security_profiles: Json,
}

/// The document of some limits.
pub open spec fn limits_document(l: ResourceLimits) -> JsonView {
    JsonView::Object(
        seq![
            ("cpu"@, l.cpu@),
            ("disk"@, l.disk@),
            ("memory"@, l.memory@),
            ("output_bytes"@, l.output_bytes@),
        ],
    )
}

/// The document of a manifest: every member and no other, in key order.
pub open spec fn manifest_document(m: RevisionManifest) -> JsonView {
    JsonView::Object(
        seq![
            ("attention_proposals"@, m.attention_proposals@),
            ("cancellation_support"@, m.cancellation_support@),
            ("causal_concurrency_policy"@, m.causal_concurrency_policy@),
            ("checkpoint_support"@, m.checkpoint_support@),
            ("default_timeout"@, m.default_timeout@),
            ("definition_id"@, JsonView::Text(m.definition_id@)),
            ("entrypoint"@, m.entrypoint@),
            ("input_schema_ref"@, m.input_schema_ref@),
            ("max_concurrency"@, m.max_concurrency@),
            ("model_profiles"@, m.model_profiles@),
            ("network_policy"@, m.network_policy@),
            ("output_schema_ref"@, m.output_schema_ref@),
            ("package_digest"@, JsonView::Text(m.package_digest@)),
            ("requested_capabilities"@, m.requested_capabilities@),
            ("resource_limits"@, limits_document(m.resource_limits)),
            ("runtime"@, m.runtime@),
            ("schema_version"@, m.schema_version@),
            ("security_profiles"@, m.security_profiles@),
            ("skills"@, m.skills@),
            ("supported_worker_protocols"@, m.supported_worker_protocols@),
            ("tool_profiles"@, m.tool_profiles@),
            ("version"@, JsonView::Text(m.version@)),
        ],
    )
}

fn limits_value(l: &ResourceLimits) -> (r: Json)
    ensures
        r@ == limits_document(*l),
{
    let mut v: Vec<(String, Json)> = Vec::new();
    put(&mut v, "cpu", l.cpu.copy());
    put(&mut v, "disk", l.disk.copy());
    put(&mut v, "memory", l.memory.copy());
    put(&mut v, "output_bytes", l.output_bytes.copy());
    proof {
        assert(members(v@) =~= limits_document(*l)->Object_0);
    }
    object(v)
}

/// Writes a manifest as a document again.
pub fn manifest_value(m: &RevisionManifest) -> (r: Json)
    ensures
        r@ == manifest_document(*m),
{
    let mut v: Vec<(String, Json)> = Vec::new();
    put(&mut v, "attention_proposals", m.attention_proposals.copy());
    put(&mut v, "cancellation_support", m.cancellation_support.copy());
    put(&mut v, "causal_concurrency_policy", m.causal_concurrency_policy.copy());
    put(&mut v, "checkpoint_support", m.checkpoint_support.copy());
    put(&mut v, "default_timeout", m.default_timeout.copy());
    put(&mut v, "definition_id", Json::Text(m.definition_id.clone()));
    put(&mut v, "entrypoint", m.entrypoint.copy());
    put(&mut v, "input_schema_ref", m.input_schema_ref.copy());
    put(&mut v, "max_concurrency", m.max_concurrency.copy());
    put(&mut v, "model_profiles", m.model_profiles.copy());
    put(&mut v, "network_policy", m.network_policy.copy());
    put(&mut v, "output_schema_ref", m.output_schema_ref.copy());
    put(&mut v, "package_digest", Json::Text(m.package_digest.clone()));
    put(&mut v, "requested_capabilities", m.requested_capabilities.copy());
    put(&mut v, "resource_limits", limits_value(&m.resource_limits));
    put(&mut v, "runtime", m.runtime.copy());
    put(&mut v, "schema_version", m.schema_version.copy());
    put(&mut v, "security_profiles", m.security_profiles.copy());
    put(&mut v, "skills", m.skills.copy());
    put(&mut v, "supported_worker_protocols", m.supported_worker_protocols.copy());
    put(&mut v, "tool_profiles", m.tool_profiles.copy());
    put(&mut v, "version", Json::Text(m.version.clone()));
    proof {
        assert(members(v@) =~= manifest_document(*m)->Object_0);
    }
    object(v)
}

#[derive(Debug)]
pub struct RevisionRegisterArgs {
    pub definition_id: String,
    pub version: String,
    pub manifest: RevisionManifest,
    pub package_artifact_ref: String,
    pub package_digest: String,
    pub config_schema_digest: String,
    pub sdk_protocol_range: String,
    pub signature_refs: Option<Vec<String>>,
}

/// Whether a version of a definition is registered.
pub open spec fn registered(
    rows: Seq<AssistantRevision>,
    definition: Seq<char>,
    version: Seq<char>,
) -> bool {
    exists|i: int| 0 <= i < rows.len() && registers(#[trigger] rows[i], definition, version)
}

fn is_registered(rows: &Vec<AssistantRevision>, definition: &str, version: &str) -> (r: bool)
    ensures
        r == registered(rows@, definition@, version@),
{
    let mut i: usize = 0;
    while i < rows.len()
        invariant
            i <= rows.len(),
            forall|j: int|
                0 <= j < i ==> !registers(#[trigger] rows@[j], definition@, version@),
        decreases rows.len() - i,
    {
        if same(rows[i].definition_id.as_str(), definition) && same(
            rows[i].version.as_str(),
            version,
        ) {
            assert(registers(rows@[i as int], definition@, version@));
            return true;
        }
        i = i + 1;
    }
    false
}

/// Why a revision is not registered: the definition is not an active one, the
/// manifest does not bind exactly this definition, version and package, or
/// the version is taken.
pub open spec fn register_refusal(
    reg: Registry,
    args: RevisionRegisterArgs,
    id: Seq<char>,
) -> Option<ProblemView> {
    let k = key1(args.definition_id@);
    if !reg.definitions@.contains_key(k) || reg.definitions@[k].status !is Active {
        Some(not_found_view())
    } else if args.manifest.definition_id@ != args.definition_id@ {
        Some(invalid_view("manifest.definition_id does not match definition_id"@))
    } else if args.manifest.version@ != args.version@ {
        Some(invalid_view("manifest.version does not match version"@))
    } else if args.manifest.package_digest@ != args.package_digest@ {
        Some(invalid_view("manifest.package_digest does not match package_digest"@))
    } else if registered(reg.revisions.rows@, args.definition_id@, args.version@) {
        Some(invalid_view("this definition version is already registered"@))
    } else if reg.revisions@.contains_key(key1(id)) {
        Some(internal_view())
    } else {
        None
    }
}

pub open spec fn registered_revision(
    r: AssistantRevision,
    id: Seq<char>,
    session: Session,
    args: RevisionRegisterArgs,
) -> bool {
    &&& r.assistant_revision_id@ == id
    &&& r.definition_id@ == args.definition_id@
    &&& r.version@ == args.version@
    &&& r.manifest@ == manifest_document(args.manifest)
    &&& r.package_artifact_ref@ == args.package_artifact_ref@
    &&& r.package_digest@ == args.package_digest@
    &&& r.config_schema_digest@ == args.config_schema_digest@
    &&& r.sdk_protocol_range@ == args.sdk_protocol_range@
    &&& match args.signature_refs {
        Some(v) => r.signature_refs@ == v@,
        None => r.signature_refs@.len() == 0,
    }
    &&& r.created_by@ == session.owner_actor_ref@
    &&& r.created_at@ == session.now_ts@
}

/// What registering a revision does and answers.
pub open spec fn register_outcome(
    reg: Registry,
    reg_after: Registry,
    journal: JournalView,
    journal_after: JournalView,
    session: Session,
    args: RevisionRegisterArgs,
    meta: Meta,
    revision_id: Seq<char>,
    r: Result<usize, Problem>,
) -> bool {
    &&& r is Err ==> reg_after == reg && journal_after == journal
    &&& match register_refusal(reg, args, revision_id) {
        Some(p) => r is Err && r->Err_0@ == p,
        None => {
            let v = reg_after.revisions.rows@.last();
            &&& r is Ok
            &&& r->Ok_0 == reg.revisions.rows@.len()
            &&& reg_after.revisions.rows@ == reg.revisions.rows@.push(v)
            &&& registered_revision(v, revision_id, session, args)
            &&& reg_after.definitions == reg.definitions
            &&& reg_after.deployments == reg.deployments
            &&& reg_after.aliases == reg.aliases
            &&& journal_after == realm_journal(
                journal,
                EventKind::RevisionRegistered,
                args.definition_id@,
                "schema:assistant-revision-v1"@,
                revision_id,
                1,
                meta,
                "command.assistant_revision_registered"@,
            )
        },
    }
}

/// Registers a revision of an assistant. The answer is its position.
pub fn assistant_revision_register(
    reg: &mut Registry,
    journal: &mut Journal,
    session: &Session,
    args: &RevisionRegisterArgs,
    meta: &Meta,
    revision_id: &str,
) -> (r: Result<usize, Problem>)
    requires
        old(reg).wf(),
    ensures
        final(reg).wf(),
        register_outcome(
            *old(reg),
            *final(reg),
            old(journal)@,
            final(journal)@,
            *session,
            *args,
            *meta,
            revision_id@,
            r,
        ),
{
    proof {
        reveal_strlit("");
        crate::text::empty_is(""@);
    }
    match reg.definitions.find(args.definition_id.as_str(), "") {
        None => {
            return Err(not_found());
        },
        Some(d) => {
            if d.status != DefinitionStatus::Active {
                return Err(not_found());
            }
        },
    }
    if !same(args.manifest.definition_id.as_str(), args.definition_id.as_str()) {
        return Err(invalid("manifest.definition_id does not match definition_id"));
    }
    if !same(args.manifest.version.as_str(), args.version.as_str()) {
        return Err(invalid("manifest.version does not match version"));
    }
    if !same(args.manifest.package_digest.as_str(), args.package_digest.as_str()) {
        return Err(invalid("manifest.package_digest does not match package_digest"));
    }
    if is_registered(&reg.revisions.rows, args.definition_id.as_str(), args.version.as_str()) {
        return Err(invalid("this definition version is already registered"));
    }
    if reg.revisions.position(revision_id, "").is_some() {
        return Err(internal());
    }
    let revision = AssistantRevision {
        assistant_revision_id: revision_id.to_owned(),
        definition_id: args.definition_id.clone(),
        version: args.version.clone(),
        manifest: manifest_value(&args.manifest),
        package_artifact_ref: args.package_artifact_ref.clone(),
        package_digest: args.package_digest.clone(),
        config_schema_digest: args.config_schema_digest.clone(),
        sdk_protocol_range: args.sdk_protocol_range.clone(),
        signature_refs: match &args.signature_refs {
            Some(v) => v.clone(),
            None => Vec::new(),
        },
        created_by: session.owner_actor_ref.clone(),
        created_at: session.now_ts.clone(),
    };
    realm_event(
        journal,
        EventKind::RevisionRegistered,
        args.definition_id.as_str(),
        "schema:assistant-revision-v1",
        revision_id,
        1,
        meta,
        "command.assistant_revision_registered",
    );
    let at: usize = reg.revisions.rows.len();
    reg.revisions.insert(revision);
    proof {
        let b = old(reg).revisions.rows@;
        let a = reg.revisions.rows@;
        assert forall|i: int, j: int| 0 <= i < j < a.len() implies !registers(
            #[trigger] a[i],
            (#[trigger] a[j]).definition_id@,
            a[j].version@,
        ) by {
            assert(a[i] == b[i]);
            if j < b.len() {
                assert(a[j] == b[j]);
            } else {
                assert(!registers(b[i], args.definition_id@, args.version@));
            }
        }
    }
    Ok(at)
}

/// Shows a registered revision.
pub fn assistant_revision_show<'a>(reg: &'a Registry, revision_id: &str) -> (r: Result<
    &'a AssistantRevision,
    Problem,
>)
    requires
        reg.wf(),
    ensures
        match r {
            Ok(v) => reg.revisions@.contains_key(key1(revision_id@)) && *v
                == reg.revisions@[key1(revision_id@)],
            Err(p) => !reg.revisions@.contains_key(key1(revision_id@)) && p@ == not_found_view(),
        },
{
    proof {
        reveal_strlit("");
        crate::text::empty_is(""@);
    }
    match reg.revisions.find(revision_id, "") {
        Some(v) => Ok(v),
        None => Err(not_found()),
    }
}

// ---------------------------------------------------- deployment_create ----

#[derive(Debug)]
pub struct DeploymentCreateArgs {
    pub assistant_revision_id: String,
    pub config_ref: String,
    pub config_digest: String,
    pub secret_binding_set_ref: String,
    pub secret_binding_set_digest: String,
    pub policy_ref: String,
    pub pool_ref: String,
    pub security_profile: String,
    pub concurrency_policy: Json,
    pub rollout_policy: Json,
}

/// Why no deployment is created. Only the developer profile can be deployed:
/// this daemon confines nothing and claims no confinement.
pub open spec fn deploy_refusal(reg: Registry, args: DeploymentCreateArgs, id: Seq<char>) -> Option<
    ProblemView,
> {
    if !reg.revisions@.contains_key(key1(args.assistant_revision_id@)) {
        Some(not_found_view())
    } else if args.security_profile@ != "developer"@ {
        Some(
            refusal_with(
                ProblemKind::Forbidden,
                "only the developer security profile is deployable in the K1 personal profile"@,
                "confined/secure enforcement evidence would be unclaimed"@,
            ),
        )
    } else if reg.deployments@.contains_key(key1(id)) {
        Some(internal_view())
    } else {
        None
    }
}

pub open spec fn created_deployment(
    d: Deployment,
    id: Seq<char>,
    session: Session,
    args: DeploymentCreateArgs,
) -> bool {
    &&& d.deployment_id@ == id
    &&& d.realm_id@ == session.realm_id@
    &&& d.revision == 1
    &&& d.assistant_revision_id@ == args.assistant_revision_id@
    &&& d.security_profile@ == args.security_profile@
    &&& d.status is Created
    &&& d.created_at@ == session.now_ts@
    &&& d.record is Some
    &&& d.record->0.config_ref@ == args.config_ref@
    &&& d.record->0.config_digest@ == args.config_digest@
    &&& d.record->0.secret_binding_set_ref@ == args.secret_binding_set_ref@
    &&& d.record->0.secret_binding_set_digest@ == args.secret_binding_set_digest@
    &&& d.record->0.policy_ref@ == args.policy_ref@
    &&& d.record->0.pool_ref@ == args.pool_ref@
    &&& d.record->0.concurrency_policy@ == args.concurrency_policy@
    &&& d.record->0.rollout_policy@ == args.rollout_policy@
    &&& d.record->0.activated_at is None
}

/// What creating a deployment does and answers.
pub open spec fn deployment_create_outcome(
    reg: Registry,
    reg_after: Registry,
    journal: JournalView,
    journal_after: JournalView,
    session: Session,
    args: DeploymentCreateArgs,
    meta: Meta,
    deployment_id: Seq<char>,
    r: Result<usize, Problem>,
) -> bool {
    &&& r is Err ==> reg_after == reg && journal_after == journal
    &&& match deploy_refusal(reg, args, deployment_id) {
        Some(p) => r is Err && r->Err_0@ == p,
        None => {
            let d = reg_after.deployments.rows@.last();
            &&& r is Ok
            &&& r->Ok_0 == reg.deployments.rows@.len()
            &&& reg_after.deployments.rows@ == reg.deployments.rows@.push(d)
            &&& created_deployment(d, deployment_id, session, args)
            &&& reg_after.definitions == reg.definitions
            &&& reg_after.revisions == reg.revisions
            &&& reg_after.aliases == reg.aliases
            &&& journal_after == realm_journal(
                journal,
                EventKind::DeploymentCreated,
                deployment_id,
                "schema:assistant-deployment-v1"@,
                deployment_id,
                1,
                meta,
                "command.deployment_created"@,
            )
        },
    }
}

/// Creates a deployment of a registered revision, not yet active. The answer
/// is its position.
pub fn deployment_create(
    reg: &mut Registry,
    journal: &mut Journal,
    session: &Session,
    args: &DeploymentCreateArgs,
    meta: &Meta,
    deployment_id: &str,
) -> (r: Result<usize, Problem>)
    requires
        old(reg).wf(),
    ensures
        final(reg).wf(),
        deployment_create_outcome(
            *old(reg),
            *final(reg),
            old(journal)@,
            final(journal)@,
            *session,
            *args,
            *meta,
            deployment_id@,
            r,
        ),
{
    proof {
        reveal_strlit("");
        crate::text::empty_is(""@);
    }
    if reg.revisions.position(args.assistant_revision_id.as_str(), "").is_none() {
        return Err(not_found());
    }
    if !same(args.security_profile.as_str(), "developer") {
        return Err(
            problem(
                ProblemKind::Forbidden,
                "only the developer security profile is deployable in the K1 personal profile",
                "confined/secure enforcement evidence would be unclaimed",
            ),
        );
    }
    if reg.deployments.position(deployment_id, "").is_some() {
        return Err(internal());
    }
    let record = DeploymentRecord {
        config_ref: args.config_ref.clone(),
        config_digest: args.config_digest.clone(),
        secret_binding_set_ref: args.secret_binding_set_ref.clone(),
        secret_binding_set_digest: args.secret_binding_set_digest.clone(),
        policy_ref: args.policy_ref.clone(),
        pool_ref: args.pool_ref.clone(),
        concurrency_policy: args.concurrency_policy.copy(),
        rollout_policy: args.rollout_policy.copy(),
        activated_at: None,
    };
    let deployment = Deployment {
        deployment_id: deployment_id.to_owned(),
        realm_id: session.realm_id.clone(),
        revision: 1,
        assistant_revision_id: args.assistant_revision_id.clone(),
        security_profile: args.security_profile.clone(),
        status: DeploymentStatus::Created,
        created_at: session.now_ts.clone(),
        record: Some(record),
    };
    realm_event(
        journal,
        EventKind::DeploymentCreated,
        deployment_id,
        "schema:assistant-deployment-v1",
        deployment_id,
        1,
        meta,
        "command.deployment_created",
    );
    let at: usize = reg.deployments.rows.len();
    reg.deployments.insert(deployment);
    Ok(at)
}

/// What showing a deployment answers.
pub open spec fn deployment_shown(
    reg: Registry,
    deployment_id: Seq<char>,
    r: Result< &Deployment, Problem, >,
) -> bool {
    &&& ({
        let k = key1(deployment_id);
        if !reg.deployments@.contains_key(k) {
            r is Err && r->Err_0@ == not_found_view()
        } else if reg.deployments@[k].record is None {
            r is Err && r->Err_0@ == internal_view()
        } else {
            r is Ok && *r->Ok_0 == reg.deployments@[k]
        }
    })
}

/// Shows a deployment that has a record.
pub fn deployment_show<'a>(reg: &'a Registry, deployment_id: &str) -> (r: Result<
    &'a Deployment,
    Problem,
>)
    requires
        reg.wf(),
    ensures
        deployment_shown(
            *reg,
            deployment_id@,
            r,
        ),
{
    proof {
        reveal_strlit("");
        crate::text::empty_is(""@);
    }
    match reg.deployments.find(deployment_id, "") {
        None => Err(not_found()),
        Some(d) => if d.record.is_none() {
            Err(internal())
        } else {
            Ok(d)
        },
    }
}

// ------------------------------------------------ deployment_transition ----

/// Whether a deployment can be activated, or drained.
pub open spec fn may_move(status: DeploymentStatus, activate: bool) -> bool {
    if activate {
        status is Created || status is Drained
    } else {
        status is Active
    }
}

/// Why a deployment is not moved.
pub open spec fn transition_refusal(
    reg: Registry,
    id: Seq<char>,
    activate: bool,
    meta: Meta,
) -> Option<ProblemView> {
    let d = reg.deployments@[key1(id)];
    if !reg.deployments@.contains_key(key1(id)) {
        Some(not_found_view())
    } else if !revision_agrees(meta.expected_revision, d.revision) {
        Some(stale_revision_view(d.revision))
    } else if !may_move(d.status, activate) {
        Some(invalid_view("deployment is "@ + d.status.name()))
    } else if d.record is None {
        Some(internal_view())
    } else {
        None
    }
}

/// What a transition makes of a deployment.
pub open spec fn moved_deployment(
    before: Deployment,
    after: Deployment,
    activate: bool,
    at: Seq<char>,
) -> bool {
    &&& after == (Deployment {
        status: if activate {
            DeploymentStatus::Active
        } else {
            DeploymentStatus::Drained
        },
        revision: (before.revision + 1) as u64,
        record: after.record,
        ..before
    })
    &&& after.record is Some
    &&& after.record->0 == (DeploymentRecord {
        activated_at: after.record->0.activated_at,
        ..before.record->0
    })
    &&& if activate {
        opt_view(after.record->0.activated_at) == Some(at)
    } else {
        after.record->0.activated_at == before.record->0.activated_at
    }
}

/// What activating or draining a deployment does and answers.
pub open spec fn transition_outcome(
    reg: Registry,
    reg_after: Registry,
    journal: JournalView,
    journal_after: JournalView,
    session: Session,
    deployment_id: Seq<char>,
    activate: bool,
    meta: Meta,
    r: Result<u64, Problem>,
) -> bool {
    &&& r is Err ==> reg_after == reg && journal_after == journal
    &&& match transition_refusal(reg, deployment_id, activate, meta) {
        Some(p) => r is Err && r->Err_0@ == p,
        None => {
            let k = key1(deployment_id);
            let d = reg.deployments@[k];
            let e = reg_after.deployments@[k];
            &&& r == Ok::<u64, Problem>((d.revision + 1) as u64)
            &&& reg_after.deployments@ == reg.deployments@.insert(k, e)
            &&& moved_deployment(d, e, activate, session.now_ts@)
            &&& reg_after.definitions == reg.definitions
            &&& reg_after.revisions == reg.revisions
            &&& reg_after.aliases == reg.aliases
            &&& journal_after == realm_journal(
                journal,
                if activate {
                    EventKind::DeploymentActivated
                } else {
                    EventKind::DeploymentDrained
                },
                deployment_id,
                "schema:assistant-deployment-v1"@,
                deployment_id,
                (d.revision + 1) as u64,
                meta,
                if activate {
                    "command.deployment_activated"@
                } else {
                    "command.deployment_drained"@
                },
            )
        },
    }
}

/// Activates or drains a deployment. The answer is the revision it moves to.
pub fn deployment_transition(
    reg: &mut Registry,
    journal: &mut Journal,
    session: &Session,
    deployment_id: &str,
    activate: bool,
    meta: &Meta,
) -> (r: Result<u64, Problem>)
    requires
        old(reg).wf(),
        old(reg).deployments@.contains_key(key1(deployment_id@)) ==> old(reg).deployments@[key1(
            deployment_id@,
        )].revision < u64::MAX,
    ensures
        final(reg).wf(),
        transition_outcome(
            *old(reg),
            *final(reg),
            old(journal)@,
            final(journal)@,
            *session,
            deployment_id@,
            activate,
            *meta,
            r,
        ),
{
    proof {
        reveal_strlit("");
        crate::text::empty_is(""@);
    }
    let i = match reg.deployments.position(deployment_id, "") {
        None => {
            return Err(not_found());
        },
        Some(i) => i,
    };
    check_expected_revision(meta.expected_revision, reg.deployments.rows[i].revision)?;
    let status = reg.deployments.rows[i].status;
    let may = if activate {
        status == DeploymentStatus::Created || status == DeploymentStatus::Drained
    } else {
        status == DeploymentStatus::Active
    };
    if !may {
        let detail = cat2("deployment is ", status.as_str());
        return Err(invalid(detail.as_str()));
    }
    let next: u64 = reg.deployments.rows[i].revision + 1;
    if reg.deployments.rows[i].record.is_none() {
        return Err(internal());
    }
    let (kind, audit) = if activate {
        (EventKind::DeploymentActivated, "command.deployment_activated")
    } else {
        (EventKind::DeploymentDrained, "command.deployment_drained")
    };
    realm_event(
        journal,
        kind,
        deployment_id,
        "schema:assistant-deployment-v1",
        deployment_id,
        next,
        meta,
        audit,
    );
    reg.deployments.rows[i].status = if activate {
        DeploymentStatus::Active
    } else {
        DeploymentStatus::Drained
    };
    reg.deployments.rows[i].revision = next;
    if activate {
        if let Some(record) = &mut reg.deployments.rows[i].record {
            record.activated_at = Some(session.now_ts.clone());
        }
    }
    proof {
        crate::table::table_updated(
            old(reg).deployments,
            reg.deployments,
            i as int,
            reg.deployments.rows@[i as int],
        );
    }
    Ok(next)
}

// -------------------------------------------------------------- aliases ----

/// Each text in lower case.
pub open spec fn lowered(parts: Seq<Seq<char>>) -> Seq<Seq<char>> {
    Seq::new(parts.len(), |i: int| lowercase_of(parts[i]))
}

/// What an alias is compared by: its words in lower case, one space between
/// every two.
pub open spec fn normalized(display: Seq<char>) -> Seq<char> {
    joined(lowered(words(display)), " "@)
}

/// Normalizes an alias.
pub fn normalize_alias(display: &str) -> (r: String)
    ensures
        r@ == normalized(display@),
{
    let parts = split_words(display);
    let ghost low = lowered(words(display@));
    let mut out = String::new();
    let mut i: usize = 0;
    proof {
        assert(low.take(0).len() == 0);
        assert(out@ =~= joined(low.take(0), " "@));
    }
    while i < parts.len()
        invariant
            i <= parts.len(),
            views(parts@) == words(display@),
            low == lowered(words(display@)),
            out@ == joined(low.take(i as int), " "@),
        decreases parts.len() - i,
    {
        let word = lowercase(parts[i].as_str());
        proof {
            assert(views(parts@)[i as int] == parts@[i as int]@);
            assert(low[i as int] == word@);
            assert(low.take(i + 1).drop_last() =~= low.take(i as int));
            assert(low.take(i + 1).last() == word@);
        }
        if i > 0 {
            out.append(" ");
            out.append(word.as_str());
        } else {
            out = word;
        }
        i = i + 1;
    }
    proof {
        assert(low.take(i as int) =~= low);
    }
    out
}

/// How much white space stands between two words of an alias makes no
/// difference.
pub proof fn inner_white_space_makes_no_alias(
    a: Seq<char>,
    gap: Seq<char>,
    other: Seq<char>,
    b: Seq<char>,
)
    requires
        blank(gap),
        blank(other),
        gap.len() > 0,
        other.len() > 0,
    ensures
        normalized(a + gap + b) == normalized(a + other + b),
{
    words_around_blank(a, gap, b);
    words_around_blank(a, other, b);
}

/// White space around an alias makes no difference.
pub proof fn outer_white_space_makes_no_alias(left: Seq<char>, a: Seq<char>, right: Seq<char>)
    requires
        blank(left),
        blank(right),
    ensures
        normalized(left + a + right) == normalized(a),
{
    let none = Seq::<char>::empty();
    words_around_blank(none, left, a);
    assert(none + left + a =~= left + a);
    assert(words(none) + words(a) =~= words(a));
    words_around_blank(left + a, right, none);
    assert(left + a + right + none =~= left + a + right);
    assert(words(left + a) + words(none) =~= words(left + a));
}

/// Normalizing an alias twice is normalizing it once, where lower case is one
/// word again and stays as it is.
pub proof fn normalizing_twice_is_normalizing_once(a: Seq<char>)
    requires
        forall|i: int|
            0 <= i < words(a).len() ==> {
                &&& is_word(lowercase_of(#[trigger] words(a)[i]))
                &&& lowercase_of(lowercase_of(words(a)[i])) == lowercase_of(words(a)[i])
            },
    ensures
        normalized(normalized(a)) == normalized(a),
{
    let low = lowered(words(a));
    assert forall|i: int| 0 <= i < low.len() implies is_word(#[trigger] low[i]) by {
        assert(low[i] == lowercase_of(words(a)[i]));
    }
    joined_words_are_found(low);
    assert(lowered(low) =~= low);
}

/// Whether some binding holds an alias in a project.
pub open spec fn held(rows: Seq<Alias>, project: Seq<char>, alias: Seq<char>) -> bool {
    exists|i: int| 0 <= i < rows.len() && holds(#[trigger] rows[i], project, alias)
}

fn active_alias_exists(rows: &Vec<Alias>, project_id: &str, normalized_alias: &str) -> (r: bool)
    ensures
        r == held(rows@, project_id@, normalized_alias@),
{
    let mut i: usize = 0;
    while i < rows.len()
        invariant
            i <= rows.len(),
            forall|j: int|
                0 <= j < i ==> !holds(#[trigger] rows@[j], project_id@, normalized_alias@),
        decreases rows.len() - i,
    {
        if rows[i].status == AliasStatus::Active && same(
            rows[i].project_id.as_str(),
            project_id,
        ) && same(rows[i].normalized_alias.as_str(), normalized_alias) {
            assert(holds(rows@[i as int], project_id@, normalized_alias@));
            return true;
        }
        i = i + 1;
    }
    false
}

/// Why a pinned deployment does not do: it is not there, or not at the pinned
/// revision.
pub open spec fn pin_refusal(
    deployments: Table<Deployment>,
    id: Seq<char>,
    pinned: u64,
) -> Option<ProblemView> {
    let k = key1(id);
    if !deployments@.contains_key(k) {
        Some(not_found_view())
    } else if deployments@[k].revision != pinned {
        Some(
            (ProblemView {
                detail: Some("deployment_revision pins a stale deployment"@),
                ..stale_revision_view(deployments@[k].revision)
            }),
        )
    } else {
        None
    }
}

fn check_deployment_pin(deployments: &Table<Deployment>, deployment_id: &str, pinned: u64) -> (r:
    Result<(), Problem>)
    requires
        deployments.wf(),
    ensures
        match pin_refusal(*deployments, deployment_id@, pinned) {
            Some(p) => r is Err && r->Err_0@ == p,
            None => r is Ok,
        },
{
    proof {
        reveal_strlit("");
        crate::text::empty_is(""@);
    }
    match deployments.find(deployment_id, "") {
        None => Err(not_found()),
        Some(d) => if d.revision != pinned {
            Err(
                stale_revision(d.revision).with_detail(
                    "deployment_revision pins a stale deployment",
                ),
            )
        } else {
            Ok(())
        },
    }
}

/// What a command on an alias writes down.
pub open spec fn alias_journal(
    before: JournalView,
    kind: EventKind,
    a: Alias,
    meta: Meta,
    audit: Seq<char>,
) -> JournalView {
    before.with_event(
        command_event(
            kind,
            a.alias_binding_id@,
            Some(a.project_id@),
            "schema:assistant-alias-binding-v1"@,
            a.alias_binding_id@,
            a.revision,
            meta,
            None,
        ),
    ).with_audit(audit, "alias="@ + a.alias_binding_id@ + ";"@ + command_name(meta))
}

fn alias_event(journal: &mut Journal, kind: EventKind, a: &Alias, meta: &Meta, audit: &str)
    ensures
        final(journal)@ == alias_journal(old(journal)@, kind, *a, *meta, audit@),
{
    append_command_event(
        journal,
        kind,
        a.alias_binding_id.as_str(),
        Some(a.project_id.as_str()),
        "schema:assistant-alias-binding-v1",
        a.alias_binding_id.as_str(),
        a.revision,
        meta,
        None,
    );
    let key = scope_digest(meta);
    let detail = cat4("alias=", a.alias_binding_id.as_str(), ";", key.as_str());
    journal.audit(audit, detail.as_str());
}

#[derive(Debug)]
pub struct AliasBindArgs {
    pub display_alias: String,
    pub assistant_deployment_id: String,
    pub deployment_revision: u64,
}

/// Why no alias is bound.
pub open spec fn bind_refusal(
    reg: Registry,
    ws: Workspace,
    project: Seq<char>,
    args: AliasBindArgs,
    id: Seq<char>,
) -> Option<ProblemView> {
    if !ws.projects@.contains_key(key1(project)) {
        Some(not_found_view())
    } else {
        match pin_refusal(reg.deployments, args.assistant_deployment_id@, args.deployment_revision) {
            Some(p) => Some(p),
            None => if normalized(args.display_alias@).len() == 0 {
                Some(invalid_view("display_alias normalizes to the empty alias"@))
            } else if held(reg.aliases.rows@, project, normalized(args.display_alias@)) {
                Some(
                    invalid_view(
                        "an active binding already holds this normalized alias in the project"@,
                    ),
                )
            } else if reg.aliases@.contains_key(key1(id)) {
                Some(internal_view())
            } else {
                None
            },
        }
    }
}

pub open spec fn bound_alias(
    a: Alias,
    id: Seq<char>,
    project: Seq<char>,
    session: Session,
    args: AliasBindArgs,
) -> bool {
    &&& a.alias_binding_id@ == id
    &&& a.realm_id@ == session.realm_id@
    &&& a.project_id@ == project
    &&& a.revision == 1
    &&& a.normalized_alias@ == normalized(args.display_alias@)
    &&& a.display_alias@ == args.display_alias@
    &&& a.assistant_deployment_id@ == args.assistant_deployment_id@
    &&& a.deployment_revision == args.deployment_revision
    &&& a.status is Active
    &&& a.created_by@ == session.owner_actor_ref@
    &&& a.created_at@ == session.now_ts@
}

/// What binding an alias does and answers.
pub open spec fn alias_bind_outcome(
    reg: Registry,
    reg_after: Registry,
    journal: JournalView,
    journal_after: JournalView,
    ws: Workspace,
    session: Session,
    project_id: Seq<char>,
    args: AliasBindArgs,
    meta: Meta,
    alias_binding_id: Seq<char>,
    r: Result<usize, Problem>,
) -> bool {
    &&& r is Err ==> reg_after == reg && journal_after == journal
    &&& match bind_refusal(reg, ws, project_id, args, alias_binding_id) {
        Some(p) => r is Err && r->Err_0@ == p,
        None => {
            let a = reg_after.aliases.rows@.last();
            &&& r is Ok
            &&& r->Ok_0 == reg.aliases.rows@.len()
            &&& reg_after.aliases.rows@ == reg.aliases.rows@.push(a)
            &&& bound_alias(a, alias_binding_id, project_id, session, args)
            &&& reg_after.definitions == reg.definitions
            &&& reg_after.revisions == reg.revisions
            &&& reg_after.deployments == reg.deployments
            &&& journal_after == alias_journal(
                journal,
                EventKind::AliasBound,
                a,
                meta,
                "command.assistant_alias_bound"@,
            )
        },
    }
}

/// Binds an alias in a project to a deployment at its current revision. The
/// answer is the binding's position.
pub fn alias_bind(
    reg: &mut Registry,
    journal: &mut Journal,
    ws: &Workspace,
    session: &Session,
    project_id: &str,
    args: &AliasBindArgs,
    meta: &Meta,
    alias_binding_id: &str,
) -> (r: Result<usize, Problem>)
    requires
        old(reg).wf(),
        ws.wf(),
    ensures
        final(reg).wf(),
        alias_bind_outcome(
            *old(reg),
            *final(reg),
            old(journal)@,
            final(journal)@,
            *ws,
            *session,
            project_id@,
            *args,
            *meta,
            alias_binding_id@,
            r,
        ),
{
    proof {
        reveal_strlit("");
        crate::text::empty_is(""@);
    }
    if ws.projects.position(project_id, "").is_none() {
        return Err(not_found());
    }
    check_deployment_pin(
        &reg.deployments,
        args.assistant_deployment_id.as_str(),
        args.deployment_revision,
    )?;
    let normalized_alias = normalize_alias(args.display_alias.as_str());
    if normalized_alias.as_str().is_empty() {
        return Err(invalid("display_alias normalizes to the empty alias"));
    }
    if active_alias_exists(&reg.aliases.rows, project_id, normalized_alias.as_str()) {
        return Err(
            invalid("an active binding already holds this normalized alias in the project"),
        );
    }
    if reg.aliases.position(alias_binding_id, "").is_some() {
        return Err(internal());
    }
    let alias = Alias {
        alias_binding_id: alias_binding_id.to_owned(),
        realm_id: session.realm_id.clone(),
        project_id: project_id.to_owned(),
        revision: 1,
        normalized_alias,
        display_alias: args.display_alias.clone(),
        assistant_deployment_id: args.assistant_deployment_id.clone(),
        deployment_revision: args.deployment_revision,
        status: AliasStatus::Active,
        created_by: session.owner_actor_ref.clone(),
        created_at: session.now_ts.clone(),
    };
    alias_event(journal, EventKind::AliasBound, &alias, meta, "command.assistant_alias_bound");
    let at: usize = reg.aliases.rows.len();
    reg.aliases.insert(alias);
    proof {
        let b = old(reg).aliases.rows@;
        let a = reg.aliases.rows@;
        assert forall|i: int, j: int|
            0 <= i < j < a.len() && (#[trigger] a[j]).status is Active implies !holds(
            #[trigger] a[i],
            a[j].project_id@,
            a[j].normalized_alias@,
        ) by {
            assert(a[i] == b[i]);
            if j < b.len() {
                assert(a[j] == b[j]);
            } else {
                assert(!holds(b[i], project_id@, normalized(args.display_alias@)));
            }
        }
    }
    Ok(at)
}

/// Whether an alias binding is visible in a project.
pub open spec fn alias_visible(reg: Registry, project: Seq<char>, id: Seq<char>) -> bool {
    reg.aliases@.contains_key(key1(id)) && reg.aliases@[key1(id)].project_id@ == project
}

fn find_alias(reg: &Registry, project_id: &str, alias_binding_id: &str) -> (r: Result<
    usize,
    Problem,
>)
    requires
        reg.wf(),
    ensures
        match r {
            Ok(i) => {
                &&& alias_visible(*reg, project_id@, alias_binding_id@)
                &&& i < reg.aliases.rows.len()
                &&& reg.aliases.rows@[i as int] == reg.aliases@[key1(alias_binding_id@)]
                &&& reg.aliases.rows@[i as int].alias_binding_id@ == alias_binding_id@
            },
            Err(p) => !alias_visible(*reg, project_id@, alias_binding_id@) && p@
                == not_found_view(),
        },
{
    proof {
        reveal_strlit("");
        crate::text::empty_is(""@);
    }
    match reg.aliases.position(alias_binding_id, "") {
        None => Err(not_found()),
        Some(i) => if same(reg.aliases.rows[i].project_id.as_str(), project_id) {
            Ok(i)
        } else {
            Err(not_found())
        },
    }
}

/// What showing an alias answers.
pub open spec fn alias_shown(
    reg: Registry,
    project_id: Seq<char>,
    alias_binding_id: Seq<char>,
    r: Result< &Alias, Problem, >,
) -> bool {
    &&& match r {
        Ok(a) => alias_visible(reg, project_id, alias_binding_id) && *a
            == reg.aliases@[key1(alias_binding_id)],
        Err(p) => !alias_visible(reg, project_id, alias_binding_id) && p@
            == not_found_view(),
    }
}

/// Shows an alias binding of a project.
pub fn alias_show<'a>(reg: &'a Registry, project_id: &str, alias_binding_id: &str) -> (r: Result<
    &'a Alias,
    Problem,
>)
    requires
        reg.wf(),
    ensures
        alias_shown(
            *reg,
            project_id@,
            alias_binding_id@,
            r,
        ),
{
    let i = find_alias(reg, project_id, alias_binding_id)?;
    Ok(&reg.aliases.rows[i])
}

/// Why an alias binding cannot be changed.
pub open spec fn alias_refusal(
    reg: Registry,
    project: Seq<char>,
    id: Seq<char>,
    meta: Meta,
) -> Option<ProblemView> {
    let a = reg.aliases@[key1(id)];
    if !alias_visible(reg, project, id) {
        Some(not_found_view())
    } else if !revision_agrees(meta.expected_revision, a.revision) {
        Some(stale_revision_view(a.revision))
    } else if a.status !is Active {
        Some(invalid_view("alias binding is "@ + a.status.name()))
    } else {
        None
    }
}

fn changeable_alias(reg: &Registry, project_id: &str, alias_binding_id: &str, meta: &Meta) -> (r:
    Result<usize, Problem>)
    requires
        reg.wf(),
    ensures
        match alias_refusal(*reg, project_id@, alias_binding_id@, *meta) {
            Some(p) => r is Err && r->Err_0@ == p,
            None => {
                &&& r is Ok
                &&& r->Ok_0 < reg.aliases.rows.len()
                &&& reg.aliases.rows@[r->Ok_0 as int] == reg.aliases@[key1(alias_binding_id@)]
                &&& reg.aliases.rows@[r->Ok_0 as int].alias_binding_id@ == alias_binding_id@
            },
        },
{
    let i = find_alias(reg, project_id, alias_binding_id)?;
    check_expected_revision(meta.expected_revision, reg.aliases.rows[i].revision)?;
    let status = reg.aliases.rows[i].status;
    if status != AliasStatus::Active {
        let detail = cat2("alias binding is ", status.as_str());
        return Err(invalid(detail.as_str()));
    }
    Ok(i)
}

#[derive(Debug)]
pub struct AliasUpdateArgs {
    pub alias_binding_id: String,
    pub assistant_deployment_id: String,
    pub deployment_revision: u64,
}

/// Changing one binding without its project and alias, and without making one
/// active, leaves aliases held once.
proof fn aliases_stay_distinct(b: Seq<Alias>, a: Seq<Alias>)
    requires
        aliases_distinct(b),
        a.len() == b.len(),
        forall|i: int|
            0 <= i < b.len() ==> (#[trigger] a[i]).project_id == b[i].project_id
                && a[i].normalized_alias == b[i].normalized_alias && (a[i].status is Active
                ==> b[i].status is Active),
    ensures
        aliases_distinct(a),
{
    assert forall|i: int, j: int|
        0 <= i < j < a.len() && (#[trigger] a[j]).status is Active implies !holds(
        #[trigger] a[i],
        a[j].project_id@,
        a[j].normalized_alias@,
    ) by {
        assert(!holds(b[i], b[j].project_id@, b[j].normalized_alias@));
    }
}

/// What rebinding an alias does and answers.
pub open spec fn alias_update_outcome(
    reg: Registry,
    reg_after: Registry,
    journal: JournalView,
    journal_after: JournalView,
    project_id: Seq<char>,
    args: AliasUpdateArgs,
    meta: Meta,
    r: Result<u64, Problem>,
) -> bool {
    &&& r is Err ==> reg_after == reg && journal_after == journal
    &&& match alias_refusal(reg, project_id, args.alias_binding_id@, meta) {
        Some(p) => r is Err && r->Err_0@ == p,
        None => match pin_refusal(
            reg.deployments,
            args.assistant_deployment_id@,
            args.deployment_revision,
        ) {
            Some(p) => r is Err && r->Err_0@ == p,
            None => {
                let k = key1(args.alias_binding_id@);
                let a = reg.aliases@[k];
                let b = reg_after.aliases@[k];
                &&& r == Ok::<u64, Problem>((a.revision + 1) as u64)
                &&& reg_after.aliases@ == reg.aliases@.insert(k, b)
                &&& b == (Alias {
                    assistant_deployment_id: b.assistant_deployment_id,
                    deployment_revision: args.deployment_revision,
                    revision: (a.revision + 1) as u64,
                    ..a
                })
                &&& b.assistant_deployment_id@ == args.assistant_deployment_id@
                &&& reg_after.definitions == reg.definitions
                &&& reg_after.revisions == reg.revisions
                &&& reg_after.deployments == reg.deployments
                &&& journal_after == alias_journal(
                    journal,
                    EventKind::AliasUpdated,
                    b,
                    meta,
                    "command.assistant_alias_updated"@,
                )
            },
        },
    }
}

/// Points an alias at a deployment, at its current revision. The answer is the
/// revision that the binding moves to.
pub fn alias_update(
    reg: &mut Registry,
    journal: &mut Journal,
    project_id: &str,
    args: &AliasUpdateArgs,
    meta: &Meta,
) -> (r: Result<u64, Problem>)
    requires
        old(reg).wf(),
        old(reg).aliases@.contains_key(key1(args.alias_binding_id@)) ==> old(reg).aliases@[key1(
            args.alias_binding_id@,
        )].revision < u64::MAX,
    ensures
        final(reg).wf(),
        alias_update_outcome(
            *old(reg),
            *final(reg),
            old(journal)@,
            final(journal)@,
            project_id@,
            *args,
            *meta,
            r,
        ),
{
    let i = changeable_alias(reg, project_id, args.alias_binding_id.as_str(), meta)?;
    check_deployment_pin(
        &reg.deployments,
        args.assistant_deployment_id.as_str(),
        args.deployment_revision,
    )?;
    let next: u64 = reg.aliases.rows[i].revision + 1;
    reg.aliases.rows[i].assistant_deployment_id = args.assistant_deployment_id.clone();
    reg.aliases.rows[i].deployment_revision = args.deployment_revision;
    reg.aliases.rows[i].revision = next;
    proof {
        let b = old(reg).aliases.rows@;
        let a = reg.aliases.rows@;
        crate::table::table_updated(old(reg).aliases, reg.aliases, i as int, a[i as int]);
        aliases_stay_distinct(b, a);
    }
    alias_event(
        journal,
        EventKind::AliasUpdated,
        &reg.aliases.rows[i],
        meta,
        "command.assistant_alias_updated",
    );
    Ok(next)
}

/// What revoking an alias does and answers.
pub open spec fn alias_revoke_outcome(
    reg: Registry,
    reg_after: Registry,
    journal: JournalView,
    journal_after: JournalView,
    project_id: Seq<char>,
    alias_binding_id: Seq<char>,
    meta: Meta,
    r: Result<u64, Problem>,
) -> bool {
    &&& r is Err ==> reg_after == reg && journal_after == journal
    &&& match alias_refusal(reg, project_id, alias_binding_id, meta) {
        Some(p) => r is Err && r->Err_0@ == p,
        None => {
            let k = key1(alias_binding_id);
            let a = reg.aliases@[k];
            let b = Alias {
                status: AliasStatus::Revoked,
                revision: (a.revision + 1) as u64,
                ..a
            };
            &&& r == Ok::<u64, Problem>((a.revision + 1) as u64)
            &&& reg_after.aliases@ == reg.aliases@.insert(k, b)
            &&& reg_after.definitions == reg.definitions
            &&& reg_after.revisions == reg.revisions
            &&& reg_after.deployments == reg.deployments
            &&& !held(reg_after.aliases.rows@, project_id, a.normalized_alias@)
            &&& journal_after == alias_journal(
                journal,
                EventKind::AliasRevoked,
                b,
                meta,
                "command.assistant_alias_revoked"@,
            )
        },
    }
}

/// Revokes an alias: the project can bind it again. The answer is the revision
/// that the binding moves to.
pub fn alias_revoke(
    reg: &mut Registry,
    journal: &mut Journal,
    project_id: &str,
    alias_binding_id: &str,
    meta: &Meta,
) -> (r: Result<u64, Problem>)
    requires
        old(reg).wf(),
        old(reg).aliases@.contains_key(key1(alias_binding_id@)) ==> old(reg).aliases@[key1(
            alias_binding_id@,
        )].revision < u64::MAX,
    ensures
        final(reg).wf(),
        alias_revoke_outcome(
            *old(reg),
            *final(reg),
            old(journal)@,
            final(journal)@,
            project_id@,
            alias_binding_id@,
            *meta,
            r,
        ),
{
    let i = changeable_alias(reg, project_id, alias_binding_id, meta)?;
    let next: u64 = reg.aliases.rows[i].revision + 1;
    reg.aliases.rows[i].status = AliasStatus::Revoked;
    reg.aliases.rows[i].revision = next;
    proof {
        let b = old(reg).aliases.rows@;
        let a = reg.aliases.rows@;
        crate::table::table_updated(old(reg).aliases, reg.aliases, i as int, a[i as int]);
        aliases_stay_distinct(b, a);
        let alias = b[i as int].normalized_alias@;
        assert forall|j: int| 0 <= j < a.len() implies !holds(#[trigger] a[j], project_id@, alias) by {
            if j < i {
                assert(!holds(b[j], b[i as int].project_id@, alias));
            } else if j > i {
                assert(!holds(b[i as int], b[j].project_id@, b[j].normalized_alias@)
                    || b[j].status !is Active);
            }
        }
    }
    alias_event(
        journal,
        EventKind::AliasRevoked,
        &reg.aliases.rows[i],
        meta,
        "command.assistant_alias_revoked",
    );
    Ok(next)
}

/// A revoked alias stays revoked: nothing changes its binding again.
pub proof fn a_revoked_alias_stays(
    reg: Registry,
    project: Seq<char>,
    id: Seq<char>,
    meta: Meta,
)
    requires
        reg.aliases@.contains_key(key1(id)),
        reg.aliases@[key1(id)].status is Revoked,
    ensures
        alias_refusal(reg, project, id, meta) is Some,
{
}

// ---------------------------------------------------- invocation_cancel ----

#[derive(Debug)]
pub struct InvocationCancelArgs {
    pub invocation_id: String,
    pub cancellation_scope: Option<String>,
    pub reason: Option<String>,
    pub attempt_id: Option<String>,
    pub fence_epoch: Option<u64>,
}

/// Why an invocation is not canceled. One that is over stays as it ended.
pub open spec fn cancel_refusal(
    inv: Invocations,
    project: Seq<char>,
    id: Seq<char>,
    meta: Meta,
) -> Option<ProblemView> {
    let v = inv.invocations@[key1(id)];
    if !invocation_visible(inv, project, id) {
        Some(not_found_view())
    } else if !revision_agrees(meta.expected_revision, v.revision) {
        Some(stale_revision_view(v.revision))
    } else if v.state.terminal() {
        Some(
            (ProblemView {
                detail: Some("invocation is already terminal ("@ + v.state.name() + ")"@),
                ..stale_revision_view(v.revision)
            }),
        )
    } else {
        None
    }
}

/// What a cancel makes of an attempt: one of the invocation that runs loses
/// its lease, every other stays as it is.
pub open spec fn lease_ended(
    before: AttemptRow,
    after: AttemptRow,
    invocation: Seq<char>,
    at: Seq<char>,
) -> bool {
    if before.invocation_id@ == invocation && before.state is Running {
        &&& after == (AttemptRow {
            state: AttemptState::Canceled,
            ended_at: after.ended_at,
            ..before
        })
        &&& opt_view(after.ended_at) == Some(at)
    } else {
        after == before
    }
}

/// What a cancel makes of all attempts.
pub open spec fn leases_ended(
    before: Table<AttemptRow>,
    after: Table<AttemptRow>,
    invocation: Seq<char>,
    at: Seq<char>,
) -> bool {
    &&& after.rows@.len() == before.rows@.len()
    &&& forall|i: int|
        0 <= i < before.rows@.len() ==> lease_ended(
            #[trigger] before.rows@[i],
            after.rows@[i],
            invocation,
            at,
        )
}

fn end_leases(attempts: &mut Table<AttemptRow>, invocation_id: &str, at: &str)
    requires
        old(attempts).wf(),
    ensures
        final(attempts).wf(),
        leases_ended(*old(attempts), *final(attempts), invocation_id@, at@),
{
    let ghost before = attempts.rows@;
    let mut i: usize = 0;
    while i < attempts.rows.len()
        invariant
            attempts.rows@.len() == before.len(),
            i <= attempts.rows.len(),
            forall|j: int|
                0 <= j < i ==> lease_ended(
                    #[trigger] before[j],
                    attempts.rows@[j],
                    invocation_id@,
                    at@,
                ),
            forall|j: int| i <= j < before.len() ==> #[trigger] attempts.rows@[j] == before[j],
        decreases before.len() - i,
    {
        if attempts.rows[i].state == AttemptState::Running && same(
            attempts.rows[i].invocation_id.as_str(),
            invocation_id,
        ) {
            attempts.rows[i].state = AttemptState::Canceled;
            attempts.rows[i].ended_at = Some(at.to_owned());
        }
        i = i + 1;
    }
    proof {
        let a = attempts.rows@;
        assert forall|j: int| 0 <= j < a.len() implies #[trigger] a[j].key() == before[j].key() by {
            assert(lease_ended(before[j], a[j], invocation_id@, at@));
        }
        assert forall|j: int, k: int| 0 <= j < k < a.len() implies #[trigger] a[j].key()
            != #[trigger] a[k].key() by {
            assert(before[j].key() != before[k].key());
        }
    }
}

/// What canceling makes of an invocation and of the attempts at it.
pub open spec fn canceled_rows(
    before: Invocations,
    after: Invocations,
    id: Seq<char>,
    at: Seq<char>,
) -> bool {
    let k = key1(id);
    let v = before.invocations@[k];
    let w = after.invocations@[k];
    &&& after.manifests == before.manifests
    &&& after.invocations@ == before.invocations@.insert(k, w)
    &&& w == (Invocation {
        state: InvocationState::Canceled,
        revision: (v.revision + 1) as u64,
        terminal_at: w.terminal_at,
        ..v
    })
    &&& opt_view(w.terminal_at) == Some(at)
    &&& leases_ended(before.attempts, after.attempts, id, at)
}

/// What is announced of an invocation that is canceled.
pub open spec fn canceled_document(args: InvocationCancelArgs) -> JsonView {
    JsonView::Object(
        seq![
            ("cancellation_scope"@, nullable(opt_view(args.cancellation_scope))),
            text_member("invocation_id"@, args.invocation_id@),
            ("reason"@, nullable(opt_view(args.reason))),
            text_member("state"@, "canceled"@),
        ],
    )
}

/// What is announced of an invocation that is canceled.
pub fn canceled_payload(args: &InvocationCancelArgs) -> (r: Json)
    ensures
        r@ == canceled_document(*args),
{
    let mut v: Vec<(String, Json)> = Vec::new();
    put(&mut v, "cancellation_scope", nullable_text(&args.cancellation_scope));
    put_text(&mut v, "invocation_id", args.invocation_id.as_str());
    put(&mut v, "reason", nullable_text(&args.reason));
    put_text(&mut v, "state", "canceled");
    proof {
        assert(members(v@) =~= canceled_document(*args)->Object_0);
    }
    object(v)
}

pub open spec fn canceled_journal(
    before: JournalView,
    v: Invocation,
    args: InvocationCancelArgs,
    meta: Meta,
) -> JournalView {
    before.with_event(
        carrying(
            command_event(
                EventKind::InvocationCanceled,
                v.invocation_id@,
                Some(v.project_id@),
                "schema:invocation-v1"@,
                v.invocation_id@,
                (v.revision + 1) as u64,
                meta,
                None,
            ),
            canceled_document(args),
        ),
    ).with_audit(
        "command.invocation_canceled"@,
        "invocation="@ + v.invocation_id@ + ";scope="@ + crate::records::or_else(
            args.cancellation_scope,
            "default"@,
        ) + ";"@ + command_name(meta),
    )
}

/// What canceling an invocation does and answers.
pub open spec fn cancel_outcome(
    inv: Invocations,
    inv_after: Invocations,
    journal: JournalView,
    journal_after: JournalView,
    session: Session,
    project_id: Seq<char>,
    args: InvocationCancelArgs,
    meta: Meta,
    r: Result<u64, Problem>,
) -> bool {
    &&& keeps_terminals(inv, inv_after)
    &&& r is Err ==> inv_after == inv && journal_after == journal
    &&& match cancel_refusal(inv, project_id, args.invocation_id@, meta) {
        Some(p) => r is Err && r->Err_0@ == p,
        None => {
            let v = inv.invocations@[key1(args.invocation_id@)];
            &&& r == Ok::<u64, Problem>((v.revision + 1) as u64)
            &&& canceled_rows(inv, inv_after, args.invocation_id@, session.now_ts@)
            &&& journal_after == canceled_journal(
                journal,
                v,
                args,
                meta,
            )
        },
    }
}

/// Cancels an invocation that is not over; its running attempts lose their
/// leases. The answer is the revision that the invocation moves to.
pub fn invocation_cancel(
    inv: &mut Invocations,
    journal: &mut Journal,
    session: &Session,
    project_id: &str,
    args: &InvocationCancelArgs,
    meta: &Meta,
) -> (r: Result<u64, Problem>)
    requires
        old(inv).wf(),
        old(inv).invocations@.contains_key(key1(args.invocation_id@)) ==> old(
            inv,
        ).invocations@[key1(args.invocation_id@)].revision < u64::MAX,
    ensures
        final(inv).wf(),
        cancel_outcome(
            *old(inv),
            *final(inv),
            old(journal)@,
            final(journal)@,
            *session,
            project_id@,
            *args,
            *meta,
            r,
        ),
{
    proof {
        reveal_strlit("");
        crate::text::empty_is(""@);
    }
    let i = match inv.invocations.position(args.invocation_id.as_str(), "") {
        None => {
            return Err(not_found());
        },
        Some(i) => i,
    };
    if !same(inv.invocations.rows[i].project_id.as_str(), project_id) {
        return Err(not_found());
    }
    let revision: u64 = inv.invocations.rows[i].revision;
    check_expected_revision(meta.expected_revision, revision)?;
    let state = inv.invocations.rows[i].state;
    if state.is_terminal() {
        let detail = cat3("invocation is already terminal (", state.as_str(), ")");
        return Err(stale_revision(revision).with_detail(detail.as_str()));
    }
    let next: u64 = revision + 1;
    let payload = canceled_payload(args);
    append_command_payload(
        journal,
        EventKind::InvocationCanceled,
        args.invocation_id.as_str(),
        Some(project_id),
        "schema:invocation-v1",
        args.invocation_id.as_str(),
        next,
        meta,
        None,
        payload,
    );
    let scope = crate::records::given_or(&args.cancellation_scope, "default");
    let key = scope_digest(meta);
    let mut detail = cat4("invocation=", args.invocation_id.as_str(), ";scope=", scope.as_str());
    detail.append(";");
    detail.append(key.as_str());
    journal.audit("command.invocation_canceled", detail.as_str());
    inv.invocations.rows[i].state = InvocationState::Canceled;
    inv.invocations.rows[i].revision = next;
    inv.invocations.rows[i].terminal_at = Some(session.now_ts.clone());
    proof {
        crate::table::table_updated(
            old(inv).invocations,
            inv.invocations,
            i as int,
            inv.invocations.rows@[i as int],
        );
    }
    end_leases(&mut inv.attempts, args.invocation_id.as_str(), session.now_ts.as_str());
    proof {
        let b = old(inv).attempts.rows@;
        let a = inv.attempts.rows@;
        assert forall|j: int| 0 <= j < a.len() implies (#[trigger] a[j]).attempt_id == b[j].attempt_id
            && a[j].invocation_id == b[j].invocation_id by {
            assert(lease_ended(b[j], a[j], args.invocation_id@, session.now_ts@));
        }
        assert(attempts_claimed(inv.invocations@, a));
    }
    Ok(next)
}

/// After a cancel no worker writes for the invocation: every binding of an
/// attempt at it is refused, under whatever fence.
pub proof fn a_cancel_fences_every_attempt(
    before: Invocations,
    after: Invocations,
    id: Seq<char>,
    at: Seq<char>,
    attempt: Seq<char>,
    fence: u64,
)
    requires
        after.wf(),
        canceled_rows(before, after, id, at),
        after.attempts@.contains_key(key1(attempt)),
        after.attempts@[key1(attempt)].invocation_id@ == id,
    ensures
        binding_refusal(after, attempt, fence) is Some,
{
}

/// Of canceling and completing exactly one wins: what ended one way is neither
/// completed nor canceled afterwards.
pub proof fn one_terminal_state_wins(
    inv: Invocations,
    project: Seq<char>,
    id: Seq<char>,
    meta: Meta,
    args: crate::invoke::InvocationCompleteArgs,
)
    requires
        inv.invocations@.contains_key(key1(id)),
        inv.invocations@[key1(id)].state.terminal(),
        args.invocation_id@ == id,
    ensures
        cancel_refusal(inv, project, id, meta) is Some,
        crate::invoke::complete_refusal(inv, args) is Some,
{
}

pub open spec fn unbound_worker() -> ProblemView {
    refusal(
        ProblemKind::ForbiddenSurface,
        "worker operations require the attempt binding (§15.2)"@,
    )
}

/// A worker's cancel. The binding is checked like any other, and then there is
/// nothing to cancel: no invocation is the child of another.
pub fn worker_invocation_cancel(inv: &Invocations, args: &InvocationCancelArgs) -> (r: Result<
    (),
    Problem,
>)
    requires
        inv.wf(),
    ensures
        r is Err,
        r->Err_0@ == match (args.attempt_id, args.fence_epoch) {
            (Some(a), Some(f)) => match binding_refusal(*inv, a@, f) {
                Some(p) => p,
                None => not_found_view(),
            },
            _ => unbound_worker(),
        },
{
    match (&args.attempt_id, args.fence_epoch) {
        (Some(a), Some(f)) => {
            let at = check_binding(inv, a.as_str(), f)?;
            Err(not_found())
        },
        _ => Err(
            Problem::new(
                ProblemKind::ForbiddenSurface,
                "worker operations require the attempt binding (§15.2)",
            ),
        ),
    }
}

// ----------------------------------------------- application_event_emit ----

#[derive(Debug)]
pub struct ApplicationEventEmitArgs {
    pub attempt_id: String,
    pub fence_epoch: u64,
    pub event_type: String,
    pub payload: Json,
}

/// Why a worker's event is not appended. No worker writes under the reserved
/// namespace, whatever it presents.
pub open spec fn emit_refusal(
    inv: Invocations,
    project: Seq<char>,
    args: ApplicationEventEmitArgs,
    reserved: Seq<char>,
) -> Option<ProblemView> {
    if !inv.attempts@.contains_key(key1(args.attempt_id@)) {
        Some(not_found_view())
    } else if begins(args.event_type@, reserved) {
        Some(
            refusal(ProblemKind::Forbidden, "the dev.kovee namespace is reserved (§11.3)"@),
        )
    } else {
        emit_barred(inv, project, args.attempt_id@, args.fence_epoch)
    }
}

/// The stream that an invocation's events go to: its space's, or its own.
pub open spec fn stream_of(v: Invocation) -> Seq<char> {
    match v.space_id {
        Some(s) => s@,
        None => v.invocation_id@,
    }
}

pub open spec fn emitted_journal(
    before: JournalView,
    v: Invocation,
    args: ApplicationEventEmitArgs,
    actor: Seq<char>,
    event_id: Seq<char>,
    meta: Meta,
) -> JournalView {
    before.with_event(
        EventView {
            named: Some(args.event_type@),
            ..worker_event(
                EventKind::ApplicationEvent,
                stream_of(v),
                v.project_id@,
                actor,
                "schema:application-event-v1"@,
                v.invocation_id@,
                None,
                meta,
                args.payload@,
            )
        },
    ).with_audit(
        "command.application_event_emitted"@,
        "event="@ + event_id + ";invocation="@ + v.invocation_id@ + ";attempt="@
            + args.attempt_id@ + ";type="@ + args.event_type@ + ";"@ + command_name(meta),
    )
}

/// The refusal of a worker that emits for an attempt that is not bound, or in a
/// project that is not its invocation's.
pub open spec fn emit_barred(
    inv: Invocations,
    project_id: Seq<char>,
    attempt_id: Seq<char>,
    fence_epoch: u64,
) -> Option<ProblemView> {
    match binding_refusal(inv, attempt_id, fence_epoch) {
        Some(p) => Some(p),
        None => if inv.invocations@[key1(
            inv.attempts@[key1(attempt_id)].invocation_id@,
        )].project_id@ != project_id {
            Some(not_found_view())
        } else {
            None
        },
    }
}

/// Whether a worker may still emit: asked before an event is appended, and
/// again before an exact repeat is answered from what was stored.
pub fn emit_still_authorized(
    inv: &Invocations,
    project_id: &str,
    attempt_id: &str,
    fence_epoch: u64,
) -> (r: Result<(usize, usize), Problem>)
    requires
        inv.wf(),
    ensures
        match emit_barred(*inv, project_id@, attempt_id@, fence_epoch) {
            Some(p) => r is Err && r->Err_0@ == p,
            None => r is Ok && crate::invoke::bound_rows(*inv, attempt_id@, r->Ok_0),
        },
{
    let at = check_binding(inv, attempt_id, fence_epoch)?;
    if !same(inv.invocations.rows[at.1].project_id.as_str(), project_id) {
        return Err(not_found());
    }
    Ok(at)
}

/// What emitting an application event does and answers.
pub open spec fn emit_outcome(
    inv: Invocations,
    journal: JournalView,
    journal_after: JournalView,
    project_id: Seq<char>,
    args: ApplicationEventEmitArgs,
    reserved_namespace: Seq<char>,
    actor: Seq<char>,
    event_id: Seq<char>,
    meta: Meta,
    r: Result<String, Problem>,
) -> bool {
    &&& match emit_refusal(inv, project_id, args, reserved_namespace) {
        Some(p) => r is Err && r->Err_0@ == p && journal_after == journal,
        None => {
            let a = inv.attempts@[key1(args.attempt_id@)];
            let v = inv.invocations@[key1(a.invocation_id@)];
            &&& r is Ok
            &&& r->Ok_0@ == stream_of(v)
            &&& journal_after == emitted_journal(
                journal,
                v,
                args,
                actor,
                event_id,
                meta,
            )
        },
    }
}

/// Appends one event of a worker to the ledger of its invocation's project.
/// The answer is the stream it goes to.
pub fn application_event_emit(
    inv: &Invocations,
    journal: &mut Journal,
    project_id: &str,
    args: &ApplicationEventEmitArgs,
    reserved_namespace: &str,
    actor: &str,
    event_id: &str,
    meta: &Meta,
) -> (r: Result<String, Problem>)
    requires
        inv.wf(),
    ensures
        emit_outcome(
            *inv,
            old(journal)@,
            final(journal)@,
            project_id@,
            *args,
            reserved_namespace@,
            actor@,
            event_id@,
            *meta,
            r,
        ),
{
    let invocation_id = attempt_invocation_id(inv, args.attempt_id.as_str())?;
    if starts_with(args.event_type.as_str(), reserved_namespace) {
        return Err(
            Problem::new(ProblemKind::Forbidden, "the dev.kovee namespace is reserved (§11.3)"),
        );
    }
    let at = emit_still_authorized(
        inv,
        project_id,
        args.attempt_id.as_str(),
        args.fence_epoch,
    )?;
    let v = &inv.invocations.rows[at.1];
    let stream = match &v.space_id {
        Some(s) => s.clone(),
        None => v.invocation_id.clone(),
    };
    journal.event(
        NewEvent {
            kind: EventKind::ApplicationEvent,
            stream_id: stream.clone(),
            project_id: Some(project_id.to_owned()),
            actor: Actor::Named(actor.to_owned()),
            schema_ref: "schema:application-event-v1".to_owned(),
            resource_ref: v.invocation_id.clone(),
            resource_revision: None,
            causation_ref: meta.causation_event_ref.clone(),
            correlation_ref: meta.request_id.clone(),
            classification_ref: None,
            payload: Some(args.payload.copy()),
            once: false,
            named: Some(args.event_type.clone()),
        },
    );
    let key = scope_digest(meta);
    let mut detail = cat4("event=", event_id, ";invocation=", v.invocation_id.as_str());
    detail.append(";attempt=");
    detail.append(args.attempt_id.as_str());
    detail.append(";type=");
    detail.append(args.event_type.as_str());
    detail.append(";");
    detail.append(key.as_str());
    journal.audit("command.application_event_emitted", detail.as_str());
    Ok(stream)
}

/// A new definition holds what its owner gave, is announced, and leaves every
/// other definition as it was.
pub proof fn a_definition_is_made_as_given(
    reg: Registry,
    reg_after: Registry,
    journal: JournalView,
    journal_after: JournalView,
    session: Session,
    args: AssistantCreateArgs,
    meta: Meta,
    definition_id: Seq<char>,
    r: Result<usize, Problem>,
    other: Seq<char>,
)
    requires
        reg.wf(),
        reg_after.wf(),
        assistant_create_outcome(
            reg,
            reg_after,
            journal,
            journal_after,
            session,
            args,
            meta,
            definition_id,
            r,
        ),
    ensures
        r is Ok <==> !reg.definitions@.contains_key(key1(definition_id)),
        r is Err ==> reg_after == reg && journal_after == journal,
        r is Ok ==> {
            let d = reg_after.definitions@[key1(definition_id)];
            &&& reg_after.definitions@.contains_key(key1(definition_id))
            &&& reg_after.definitions.rows@[r->Ok_0 as int] == d
            &&& d.name@ == args.name@
            &&& d.description@ == args.description@
            &&& d.owner_ref@ == session.owner_actor_ref@
            &&& d.realm_id@ == session.realm_id@
            &&& d.created_at@ == session.now_ts@
            &&& d.status is Active
            &&& d.revision == 1
            &&& announced(
                journal,
                journal_after,
                EventKind::AssistantCreated,
                None,
                definition_id,
                Some(1u64),
                meta,
            )
        },
        other != definition_id ==> reg_after.definitions@.contains_key(key1(other))
            == reg.definitions@.contains_key(key1(other)),
        reg.definitions@.contains_key(key1(other)) ==> reg_after.definitions@[key1(other)]
            == reg.definitions@[key1(other)],
        reg_after.revisions == reg.revisions,
        reg_after.deployments == reg.deployments,
        reg_after.aliases == reg.aliases,
{
    if r is Ok {
        let d = reg_after.definitions.rows@.last();
        crate::table::table_pushed(reg.definitions, reg_after.definitions, d);
        assert(key1(other).0 == other);
        assert(key1(definition_id).0 == definition_id);
    }
}

/// Two manifests make the same document only if they agree in everything.
pub proof fn a_manifest_is_written_whole(a: RevisionManifest, b: RevisionManifest)
    requires
        manifest_document(a) == manifest_document(b),
    ensures
        a.schema_version@ == b.schema_version@,
        a.definition_id@ == b.definition_id@,
        a.version@ == b.version@,
        a.entrypoint@ == b.entrypoint@,
        a.package_digest@ == b.package_digest@,
        a.runtime@ == b.runtime@,
        a.supported_worker_protocols@ == b.supported_worker_protocols@,
        a.input_schema_ref@ == b.input_schema_ref@,
        a.output_schema_ref@ == b.output_schema_ref@,
        a.skills@ == b.skills@,
        a.attention_proposals@ == b.attention_proposals@,
        a.requested_capabilities@ == b.requested_capabilities@,
        a.model_profiles@ == b.model_profiles@,
        a.tool_profiles@ == b.tool_profiles@,
        a.network_policy@ == b.network_policy@,
        a.resource_limits.cpu@ == b.resource_limits.cpu@,
        a.resource_limits.memory@ == b.resource_limits.memory@,
        a.resource_limits.disk@ == b.resource_limits.disk@,
        a.resource_limits.output_bytes@ == b.resource_limits.output_bytes@,
        a.default_timeout@ == b.default_timeout@,
        a.max_concurrency@ == b.max_concurrency@,
        a.causal_concurrency_policy@ == b.causal_concurrency_policy@,
        a.checkpoint_support@ == b.checkpoint_support@,
        a.cancellation_support@ == b.cancellation_support@,
        a.security_profiles@ == b.security_profiles@,
{
    let x = manifest_document(a)->Object_0;
    let y = manifest_document(b)->Object_0;
    assert(x[0] == y[0] && x[1] == y[1] && x[2] == y[2] && x[3] == y[3] && x[4] == y[4]);
    assert(x[5] == y[5] && x[6] == y[6] && x[7] == y[7] && x[8] == y[8] && x[9] == y[9]);
    assert(x[10] == y[10] && x[11] == y[11] && x[12] == y[12] && x[13] == y[13]);
    assert(x[14] == y[14] && x[15] == y[15] && x[16] == y[16] && x[17] == y[17]);
    assert(x[18] == y[18] && x[19] == y[19] && x[20] == y[20] && x[21] == y[21]);
    let l = limits_document(a.resource_limits)->Object_0;
    let m = limits_document(b.resource_limits)->Object_0;
    assert(l[0] == m[0] && l[1] == m[1] && l[2] == m[2] && l[3] == m[3]);
}

/// A revision is registered as it was given, of a definition that is active,
/// where its manifest says the same of it and its version is new there; else
/// nothing changes.
pub proof fn a_revision_is_registered_as_given(
    reg: Registry,
    reg_after: Registry,
    journal: JournalView,
    journal_after: JournalView,
    session: Session,
    args: RevisionRegisterArgs,
    meta: Meta,
    revision_id: Seq<char>,
    r: Result<usize, Problem>,
    other: Seq<char>,
)
    requires
        reg.wf(),
        reg_after.wf(),
        register_outcome(
            reg,
            reg_after,
            journal,
            journal_after,
            session,
            args,
            meta,
            revision_id,
            r,
        ),
    ensures
        r is Ok <==> {
            &&& reg.definitions@.contains_key(key1(args.definition_id@))
            &&& reg.definitions@[key1(args.definition_id@)].status is Active
            &&& args.manifest.definition_id@ == args.definition_id@
            &&& args.manifest.version@ == args.version@
            &&& args.manifest.package_digest@ == args.package_digest@
            &&& forall|i: int|
                0 <= i < reg.revisions.rows@.len() ==> (#[trigger] reg.revisions.rows@[i]).definition_id@
                    != args.definition_id@ || reg.revisions.rows@[i].version@ != args.version@
            &&& !reg.revisions@.contains_key(key1(revision_id))
        },
        r is Err ==> reg_after == reg && journal_after == journal,
        r is Ok ==> {
            let v = reg_after.revisions@[key1(revision_id)];
            &&& reg_after.revisions@.contains_key(key1(revision_id))
            &&& reg_after.revisions.rows@[r->Ok_0 as int] == v
            &&& v.definition_id@ == args.definition_id@
            &&& v.version@ == args.version@
            &&& v.manifest@ == manifest_document(args.manifest)
            &&& v.package_artifact_ref@ == args.package_artifact_ref@
            &&& v.package_digest@ == args.package_digest@
            &&& v.config_schema_digest@ == args.config_schema_digest@
            &&& v.sdk_protocol_range@ == args.sdk_protocol_range@
            &&& args.signature_refs is Some ==> v.signature_refs@ == args.signature_refs->0@
            &&& args.signature_refs is None ==> v.signature_refs@.len() == 0
            &&& v.created_by@ == session.owner_actor_ref@
            &&& v.created_at@ == session.now_ts@
            &&& announced(
                journal,
                journal_after,
                EventKind::RevisionRegistered,
                None,
                revision_id,
                Some(1u64),
                meta,
            )
            &&& journal_after.events.last().stream_id == args.definition_id@
        },
        other != revision_id ==> reg_after.revisions@.contains_key(key1(other))
            == reg.revisions@.contains_key(key1(other)),
        reg.revisions@.contains_key(key1(other)) ==> reg_after.revisions@[key1(other)]
            == reg.revisions@[key1(other)],
        reg_after.definitions == reg.definitions,
        reg_after.deployments == reg.deployments,
        reg_after.aliases == reg.aliases,
{
    if r is Ok {
        let v = reg_after.revisions.rows@.last();
        crate::table::table_pushed(reg.revisions, reg_after.revisions, v);
        assert(key1(other).0 == other);
        assert(key1(revision_id).0 == revision_id);
    }
    if !registered(reg.revisions.rows@, args.definition_id@, args.version@) {
        assert forall|i: int| 0 <= i < reg.revisions.rows@.len() implies (
        #[trigger] reg.revisions.rows@[i]).definition_id@ != args.definition_id@
            || reg.revisions.rows@[i].version@ != args.version@ by {
            assert(!registers(reg.revisions.rows@[i], args.definition_id@, args.version@));
        }
    }
}

/// A deployment is created as it was given, of a revision that is registered and
/// in the developer profile; it is shown so, and has not been active yet.
pub proof fn a_deployment_is_created_as_given(
    reg: Registry,
    reg_after: Registry,
    journal: JournalView,
    journal_after: JournalView,
    session: Session,
    args: DeploymentCreateArgs,
    meta: Meta,
    deployment_id: Seq<char>,
    r: Result<usize, Problem>,
    shown: Result<&Deployment, Problem>,
    other: Seq<char>,
)
    requires
        reg.wf(),
        reg_after.wf(),
        deployment_create_outcome(
            reg,
            reg_after,
            journal,
            journal_after,
            session,
            args,
            meta,
            deployment_id,
            r,
        ),
        deployment_shown(reg_after, deployment_id, shown),
    ensures
        r is Ok <==> {
            &&& reg.revisions@.contains_key(key1(args.assistant_revision_id@))
            &&& args.security_profile@ == "developer"@
            &&& !reg.deployments@.contains_key(key1(deployment_id))
        },
        r is Err ==> reg_after == reg && journal_after == journal,
        r is Ok ==> {
            let d = *shown->Ok_0;
            &&& shown is Ok
            &&& reg_after.deployments.rows@[r->Ok_0 as int] == d
            &&& d.status is Created
            &&& d.revision == 1
            &&& d.deployment_id@ == deployment_id
            &&& d.realm_id@ == session.realm_id@
            &&& d.created_at@ == session.now_ts@
            &&& d.assistant_revision_id@ == args.assistant_revision_id@
            &&& d.security_profile@ == args.security_profile@
            &&& d.record->0.config_ref@ == args.config_ref@
            &&& d.record->0.config_digest@ == args.config_digest@
            &&& d.record->0.secret_binding_set_ref@ == args.secret_binding_set_ref@
            &&& d.record->0.secret_binding_set_digest@ == args.secret_binding_set_digest@
            &&& d.record->0.policy_ref@ == args.policy_ref@
            &&& d.record->0.pool_ref@ == args.pool_ref@
            &&& d.record->0.concurrency_policy@ == args.concurrency_policy@
            &&& d.record->0.rollout_policy@ == args.rollout_policy@
            &&& d.record->0.activated_at is None
            &&& announced(
                journal,
                journal_after,
                EventKind::DeploymentCreated,
                None,
                deployment_id,
                Some(1u64),
                meta,
            )
        },
        reg.deployments@.contains_key(key1(other)) ==> reg_after.deployments@[key1(other)]
            == reg.deployments@[key1(other)],
        reg_after.definitions == reg.definitions,
        reg_after.revisions == reg.revisions,
        reg_after.aliases == reg.aliases,
{
    if r is Ok {
        let d = reg_after.deployments.rows@.last();
        crate::table::table_pushed(reg.deployments, reg_after.deployments, d);
        assert(key1(other).0 == other);
        assert(key1(deployment_id).0 == deployment_id);
    }
}

/// A deployment that is not active can be activated, and one that is active can
/// be drained, by who expects its revision or expects none. It then is what was
/// asked for, at the next revision, with everything else of it kept; when it was
/// last activated is written down on activating and kept on draining.
pub proof fn a_deployment_moves_as_asked(
    reg: Registry,
    reg_after: Registry,
    journal: JournalView,
    journal_after: JournalView,
    session: Session,
    deployment_id: Seq<char>,
    activate: bool,
    meta: Meta,
    r: Result<u64, Problem>,
    other: Seq<char>,
)
    requires
        transition_outcome(
            reg,
            reg_after,
            journal,
            journal_after,
            session,
            deployment_id,
            activate,
            meta,
            r,
        ),
        reg.deployments@.contains_key(key1(deployment_id)) ==> reg.deployments@[key1(
            deployment_id,
        )].revision < u64::MAX,
    ensures
        r is Ok <==> {
            let d = reg.deployments@[key1(deployment_id)];
            &&& reg.deployments@.contains_key(key1(deployment_id))
            &&& meta.expected_revision is Some ==> meta.expected_revision->0 == d.revision
            &&& activate <==> d.status !is Active
            &&& d.record is Some
        },
        r is Err ==> reg_after == reg && journal_after == journal,
        r is Ok ==> {
            let d = reg.deployments@[key1(deployment_id)];
            let e = reg_after.deployments@[key1(deployment_id)];
            &&& reg_after.deployments@.contains_key(key1(deployment_id))
            &&& r->Ok_0 == d.revision + 1
            &&& e.revision == r->Ok_0
            &&& activate ==> e.status is Active
            &&& !activate ==> e.status is Drained
            &&& activate ==> opt_view(e.record->0.activated_at) == Some(session.now_ts@)
            &&& !activate ==> e.record->0.activated_at == d.record->0.activated_at
            &&& e.record is Some
            &&& e.assistant_revision_id == d.assistant_revision_id
            &&& e.security_profile == d.security_profile
            &&& e.deployment_id == d.deployment_id
            &&& e.created_at == d.created_at
            &&& e.record->0.config_ref == d.record->0.config_ref
            &&& e.record->0.policy_ref == d.record->0.policy_ref
            &&& e.record->0.pool_ref == d.record->0.pool_ref
            &&& announced(
                journal,
                journal_after,
                if activate {
                    EventKind::DeploymentActivated
                } else {
                    EventKind::DeploymentDrained
                },
                None,
                deployment_id,
                Some(r->Ok_0),
                meta,
            )
        },
        other != deployment_id ==> reg_after.deployments@.contains_key(key1(other))
            == reg.deployments@.contains_key(key1(other)),
        other != deployment_id && reg.deployments@.contains_key(key1(other))
            ==> reg_after.deployments@[key1(other)] == reg.deployments@[key1(other)],
        reg_after.definitions == reg.definitions,
        reg_after.revisions == reg.revisions,
        reg_after.aliases == reg.aliases,
{
    assert(key1(other).0 == other);
    assert(key1(deployment_id).0 == deployment_id);
}

/// Draining is undone by activating: an active deployment that was drained can be
/// activated by who expects the revision that the drain came to, and is active
/// again at the next revision.
pub proof fn activating_undoes_draining(
    reg: Registry,
    drained: Registry,
    active: Registry,
    journal: JournalView,
    between: JournalView,
    journal_after: JournalView,
    session: Session,
    again: Session,
    deployment_id: Seq<char>,
    meta: Meta,
    meta2: Meta,
    r: Result<u64, Problem>,
    r2: Result<u64, Problem>,
)
    requires
        reg.deployments@.contains_key(key1(deployment_id)),
        reg.deployments@[key1(deployment_id)].status is Active,
        reg.deployments@[key1(deployment_id)].record is Some,
        reg.deployments@[key1(deployment_id)].revision < u64::MAX - 1,
        meta.expected_revision is None,
        transition_outcome(
            reg,
            drained,
            journal,
            between,
            session,
            deployment_id,
            false,
            meta,
            r,
        ),
        meta2.expected_revision is None || meta2.expected_revision == Some(r->Ok_0),
        transition_outcome(
            drained,
            active,
            between,
            journal_after,
            again,
            deployment_id,
            true,
            meta2,
            r2,
        ),
    ensures
        r is Ok,
        drained.deployments@[key1(deployment_id)].status is Drained,
        r2 is Ok,
        active.deployments@[key1(deployment_id)].status is Active,
        active.deployments@[key1(deployment_id)].revision == reg.deployments@[key1(
            deployment_id,
        )].revision + 2,
        active.deployments@[key1(deployment_id)].assistant_revision_id == reg.deployments@[key1(
            deployment_id,
        )].assistant_revision_id,
        journal_after.events.len() == journal.events.len() + 2,
{
}

/// A new alias stands in its project for the deployment at the revision that was
/// named. It is taken where the project is there, the deployment is at that
/// revision, and no active binding of the project has the alias already.
pub proof fn an_alias_is_bound_as_given(
    reg: Registry,
    reg_after: Registry,
    journal: JournalView,
    journal_after: JournalView,
    ws: Workspace,
    session: Session,
    project_id: Seq<char>,
    args: AliasBindArgs,
    meta: Meta,
    alias_binding_id: Seq<char>,
    r: Result<usize, Problem>,
    shown: Result<&Alias, Problem>,
    other: Seq<char>,
)
    requires
        reg.wf(),
        reg_after.wf(),
        alias_bind_outcome(
            reg,
            reg_after,
            journal,
            journal_after,
            ws,
            session,
            project_id,
            args,
            meta,
            alias_binding_id,
            r,
        ),
        alias_shown(reg_after, project_id, alias_binding_id, shown),
    ensures
        r is Ok <==> {
            &&& ws.projects@.contains_key(key1(project_id))
            &&& reg.deployments@.contains_key(key1(args.assistant_deployment_id@))
            &&& reg.deployments@[key1(args.assistant_deployment_id@)].revision
                == args.deployment_revision
            &&& normalized(args.display_alias@).len() > 0
            &&& forall|i: int|
                0 <= i < reg.aliases.rows@.len() ==> !((#[trigger] reg.aliases.rows@[i]).status
                    is Active && reg.aliases.rows@[i].project_id@ == project_id
                    && reg.aliases.rows@[i].normalized_alias@ == normalized(args.display_alias@))
            &&& !reg.aliases@.contains_key(key1(alias_binding_id))
        },
        r is Err ==> reg_after == reg && journal_after == journal,
        r is Ok ==> {
            let a = *shown->Ok_0;
            &&& shown is Ok
            &&& reg_after.aliases.rows@[r->Ok_0 as int] == a
            &&& a.alias_binding_id@ == alias_binding_id
            &&& a.project_id@ == project_id
            &&& a.realm_id@ == session.realm_id@
            &&& a.created_by@ == session.owner_actor_ref@
            &&& a.created_at@ == session.now_ts@
            &&& a.status is Active
            &&& a.revision == 1
            &&& a.display_alias@ == args.display_alias@
            &&& a.normalized_alias@ == normalized(args.display_alias@)
            &&& a.assistant_deployment_id@ == args.assistant_deployment_id@
            &&& a.deployment_revision == args.deployment_revision
            &&& announced(
                journal,
                journal_after,
                EventKind::AliasBound,
                Some(project_id),
                alias_binding_id,
                Some(1u64),
                meta,
            )
        },
        reg.aliases@.contains_key(key1(other)) ==> reg_after.aliases@[key1(other)]
            == reg.aliases@[key1(other)],
        reg_after.definitions == reg.definitions,
        reg_after.revisions == reg.revisions,
        reg_after.deployments == reg.deployments,
{
    if r is Ok {
        let a = reg_after.aliases.rows@.last();
        crate::table::table_pushed(reg.aliases, reg_after.aliases, a);
        assert(key1(other).0 == other);
        assert(key1(alias_binding_id).0 == alias_binding_id);
    }
    let n = normalized(args.display_alias@);
    if !held(reg.aliases.rows@, project_id, n) {
        assert forall|i: int| 0 <= i < reg.aliases.rows@.len() implies !((
        #[trigger] reg.aliases.rows@[i]).status is Active && reg.aliases.rows@[i].project_id@
            == project_id && reg.aliases.rows@[i].normalized_alias@ == n) by {
            assert(!holds(reg.aliases.rows@[i], project_id, n));
        }
    }
}

/// An active alias of the project can be turned to another deployment at its
/// current revision; only where it leads, and its revision, then change.
pub proof fn an_alias_is_turned_as_given(
    reg: Registry,
    reg_after: Registry,
    journal: JournalView,
    journal_after: JournalView,
    project_id: Seq<char>,
    args: AliasUpdateArgs,
    meta: Meta,
    r: Result<u64, Problem>,
    other: Seq<char>,
)
    requires
        reg.wf(),
        alias_update_outcome(
            reg,
            reg_after,
            journal,
            journal_after,
            project_id,
            args,
            meta,
            r,
        ),
        reg.aliases@.contains_key(key1(args.alias_binding_id@)) ==> reg.aliases@[key1(
            args.alias_binding_id@,
        )].revision < u64::MAX,
    ensures
        r is Ok <==> {
            let a = reg.aliases@[key1(args.alias_binding_id@)];
            &&& reg.aliases@.contains_key(key1(args.alias_binding_id@))
            &&& a.project_id@ == project_id
            &&& meta.expected_revision is Some ==> meta.expected_revision->0 == a.revision
            &&& a.status is Active
            &&& reg.deployments@.contains_key(key1(args.assistant_deployment_id@))
            &&& reg.deployments@[key1(args.assistant_deployment_id@)].revision
                == args.deployment_revision
        },
        r is Err ==> reg_after == reg && journal_after == journal,
        r is Ok ==> {
            let a = reg.aliases@[key1(args.alias_binding_id@)];
            let b = reg_after.aliases@[key1(args.alias_binding_id@)];
            &&& r->Ok_0 == a.revision + 1
            &&& b.revision == r->Ok_0
            &&& b.assistant_deployment_id@ == args.assistant_deployment_id@
            &&& b.deployment_revision == args.deployment_revision
            &&& b.status is Active
            &&& b.normalized_alias == a.normalized_alias
            &&& b.display_alias == a.display_alias
            &&& b.project_id == a.project_id
            &&& b.created_by == a.created_by
            &&& announced(
                journal,
                journal_after,
                EventKind::AliasUpdated,
                Some(project_id),
                args.alias_binding_id@,
                Some(r->Ok_0),
                meta,
            )
        },
        other != args.alias_binding_id@ && reg.aliases@.contains_key(key1(other))
            ==> reg_after.aliases@[key1(other)] == reg.aliases@[key1(other)],
        reg_after.deployments == reg.deployments,
        reg_after.definitions == reg.definitions,
        reg_after.revisions == reg.revisions,
{
    assert(key1(other).0 == other);
    assert(key1(args.alias_binding_id@).0 == args.alias_binding_id@);
    if r is Ok {
        let i = crate::table::table_row(reg.aliases, key1(args.alias_binding_id@));
        assert(key1(args.alias_binding_id@).0 == reg.aliases.rows@[i].key().0);
    }
}

/// An active alias can be revoked, once; only its status and its revision change.
/// Its name is then free: the same alias can be bound again in the project to a
/// deployment at its current revision, under a new identity.
pub proof fn a_revoked_alias_can_be_bound_again(
    reg: Registry,
    revoked: Registry,
    journal: JournalView,
    between: JournalView,
    project_id: Seq<char>,
    alias_binding_id: Seq<char>,
    meta: Meta,
    r: Result<u64, Problem>,
    bound: Registry,
    journal_after: JournalView,
    ws: Workspace,
    session: Session,
    args: AliasBindArgs,
    meta2: Meta,
    new_id: Seq<char>,
    r2: Result<usize, Problem>,
    other: Seq<char>,
)
    requires
        reg.wf(),
        alias_revoke_outcome(
            reg,
            revoked,
            journal,
            between,
            project_id,
            alias_binding_id,
            meta,
            r,
        ),
        reg.aliases@.contains_key(key1(alias_binding_id)) ==> reg.aliases@[key1(
            alias_binding_id,
        )].revision < u64::MAX,
        alias_bind_outcome(
            revoked,
            bound,
            between,
            journal_after,
            ws,
            session,
            project_id,
            args,
            meta2,
            new_id,
            r2,
        ),
    ensures
        r is Ok <==> {
            let a = reg.aliases@[key1(alias_binding_id)];
            &&& reg.aliases@.contains_key(key1(alias_binding_id))
            &&& a.project_id@ == project_id
            &&& meta.expected_revision is Some ==> meta.expected_revision->0 == a.revision
            &&& a.status is Active
        },
        r is Err ==> revoked == reg && between == journal,
        r is Ok ==> {
            let a = reg.aliases@[key1(alias_binding_id)];
            let b = revoked.aliases@[key1(alias_binding_id)];
            &&& r->Ok_0 == a.revision + 1
            &&& b.revision == r->Ok_0
            &&& b.status is Revoked
            &&& b.normalized_alias == a.normalized_alias
            &&& b.assistant_deployment_id == a.assistant_deployment_id
            &&& b.deployment_revision == a.deployment_revision
            &&& b.project_id == a.project_id
            &&& announced(
                journal,
                between,
                EventKind::AliasRevoked,
                Some(project_id),
                alias_binding_id,
                Some(r->Ok_0),
                meta,
            )
        },
        other != alias_binding_id && reg.aliases@.contains_key(key1(other))
            ==> revoked.aliases@[key1(other)] == reg.aliases@[key1(other)],
        r is Ok && normalized(args.display_alias@) == reg.aliases@[key1(
            alias_binding_id,
        )].normalized_alias@ && normalized(args.display_alias@).len() > 0
            && ws.projects@.contains_key(key1(project_id)) && reg.deployments@.contains_key(
            key1(args.assistant_deployment_id@),
        ) && reg.deployments@[key1(args.assistant_deployment_id@)].revision
            == args.deployment_revision && !reg.aliases@.contains_key(key1(new_id)) ==> r2 is Ok,
{
    assert(key1(other).0 == other);
    assert(key1(alias_binding_id).0 == alias_binding_id);
    if r is Ok {
        let i = crate::table::table_row(reg.aliases, key1(alias_binding_id));
        assert(key1(alias_binding_id).0 == reg.aliases.rows@[i].key().0);
    }
}

/// A running invocation of the project can be canceled by who expects its
/// revision or none: it ends then, with what was asked of it kept, its running
/// attempts end with it at the same moment, and no other attempt is touched. The
/// announcement carries the scope and the reason that were given.
pub proof fn a_cancel_ends_the_invocation(
    inv: Invocations,
    inv_after: Invocations,
    journal: JournalView,
    journal_after: JournalView,
    session: Session,
    project_id: Seq<char>,
    args: InvocationCancelArgs,
    meta: Meta,
    r: Result<u64, Problem>,
    i: int,
    other: Seq<char>,
)
    requires
        inv.wf(),
        cancel_outcome(
            inv,
            inv_after,
            journal,
            journal_after,
            session,
            project_id,
            args,
            meta,
            r,
        ),
        inv.invocations@.contains_key(key1(args.invocation_id@)) ==> inv.invocations@[key1(
            args.invocation_id@,
        )].revision < u64::MAX,
        0 <= i < inv.attempts.rows@.len(),
    ensures
        r is Ok <==> {
            let v = inv.invocations@[key1(args.invocation_id@)];
            &&& inv.invocations@.contains_key(key1(args.invocation_id@))
            &&& v.project_id@ == project_id
            &&& meta.expected_revision is Some ==> meta.expected_revision->0 == v.revision
            &&& !v.state.terminal()
        },
        r is Err ==> inv_after == inv && journal_after == journal,
        r is Ok ==> {
            let v = inv.invocations@[key1(args.invocation_id@)];
            let w = inv_after.invocations@[key1(args.invocation_id@)];
            let before = inv.attempts.rows@[i];
            let after = inv_after.attempts.rows@[i];
            &&& r->Ok_0 == v.revision + 1
            &&& w.revision == r->Ok_0
            &&& w.state is Canceled
            &&& w.terminal_at is Some
            &&& w.terminal_at->0@ == session.now_ts@
            &&& w.project_id == v.project_id
            &&& w.invocation_id == v.invocation_id
            &&& before.invocation_id@ == args.invocation_id@ && before.state is Running ==> {
                &&& after.state is Canceled
                &&& after.ended_at is Some
                &&& after.ended_at->0@ == session.now_ts@
                &&& after.fence_epoch == before.fence_epoch
                &&& after.attempt_id == before.attempt_id
            }
            &&& before.invocation_id@ != args.invocation_id@ || before.state !is Running ==> after
                == before
            &&& announced(
                journal,
                journal_after,
                EventKind::InvocationCanceled,
                Some(project_id),
                args.invocation_id@,
                Some(r->Ok_0),
                meta,
            )
            &&& journal_after.events.last().payload == Some(canceled_document(args))
        },
        other != args.invocation_id@ && inv.invocations@.contains_key(key1(other))
            ==> inv_after.invocations@[key1(other)] == inv.invocations@[key1(other)],
        inv_after.manifests == inv.manifests,
{
    assert(key1(other).0 == other);
    assert(key1(args.invocation_id@).0 == args.invocation_id@);
    if r is Ok {
        let j = crate::table::table_row(inv.invocations, key1(args.invocation_id@));
        assert(key1(args.invocation_id@).0 == inv.invocations.rows@[j].key().0);
        assert(lease_ended(
            inv.attempts.rows@[i],
            inv_after.attempts.rows@[i],
            args.invocation_id@,
            session.now_ts@,
        ));
    }
}

/// The announcement of a cancel tells apart what was asked: two are the same only
/// if the invocation, the scope and the reason are.
pub proof fn a_cancel_says_what_was_asked(a: InvocationCancelArgs, b: InvocationCancelArgs)
    requires
        canceled_document(a) == canceled_document(b),
    ensures
        a.invocation_id@ == b.invocation_id@,
        opt_view(a.cancellation_scope) == opt_view(b.cancellation_scope),
        opt_view(a.reason) == opt_view(b.reason),
{
    let x = canceled_document(a)->Object_0;
    let y = canceled_document(b)->Object_0;
    assert(x[0] == y[0] && x[1] == y[1] && x[2] == y[2]);
}

/// An application event of a live attempt is written with the payload, the name
/// and the actor that were given, on the stream of the invocation's space or of
/// the invocation itself, and the caller is told that stream. A name in the
/// reserved namespace is refused.
pub proof fn an_application_event_is_written_as_given(
    inv: Invocations,
    journal: JournalView,
    journal_after: JournalView,
    project_id: Seq<char>,
    args: ApplicationEventEmitArgs,
    reserved_namespace: Seq<char>,
    actor: Seq<char>,
    event_id: Seq<char>,
    meta: Meta,
    r: Result<String, Problem>,
)
    requires
        inv.wf(),
        emit_outcome(
            inv,
            journal,
            journal_after,
            project_id,
            args,
            reserved_namespace,
            actor,
            event_id,
            meta,
            r,
        ),
    ensures
        r is Ok <==> {
            let a = inv.attempts@[key1(args.attempt_id@)];
            &&& inv.attempts@.contains_key(key1(args.attempt_id@))
            &&& !begins(args.event_type@, reserved_namespace)
            &&& binding_refusal(inv, args.attempt_id@, args.fence_epoch) is None
            &&& inv.invocations@[key1(a.invocation_id@)].project_id@ == project_id
        },
        r is Err ==> journal_after == journal,
        r is Ok ==> {
            let a = inv.attempts@[key1(args.attempt_id@)];
            let v = inv.invocations@[key1(a.invocation_id@)];
            let e = journal_after.events.last();
            &&& journal_after.events == journal.events.push(e)
            &&& e.kind is ApplicationEvent
            &&& e.named == Some(args.event_type@)
            &&& e.payload == Some(args.payload@)
            &&& e.actor == crate::journal::ActorView::Named(actor)
            &&& e.project_id == Some(project_id)
            &&& e.resource_ref == v.invocation_id@
            &&& e.resource_revision is None
            &&& e.correlation_ref == meta.request_id@
            &&& e.causation_ref == opt_view(meta.causation_event_ref)
            &&& e.stream_id == r->Ok_0@
            &&& match v.space_id {
                Some(space) => r->Ok_0@ == space@,
                None => r->Ok_0@ == v.invocation_id@,
            }
        },
{
}

/// A registered revision goes by the name it was given.
pub proof fn a_revision_goes_by_its_name(
    r: AssistantRevision,
    id: Seq<char>,
    session: Session,
    args: RevisionRegisterArgs,
)
    requires
        registered_revision(r, id, session, args),
    ensures
        r.assistant_revision_id@ == id,
        args.signature_refs is Some ==> r.signature_refs@ == args.signature_refs->0@,
        args.signature_refs is None ==> r.signature_refs@.len() == 0,
{
}

/// Ending the leases of an invocation takes no attempt away: those of the
/// invocation that run are canceled from then, and every other stays.
pub proof fn leases_end_without_a_loss(
    before: Table<AttemptRow>,
    after: Table<AttemptRow>,
    invocation: Seq<char>,
    at: Seq<char>,
    i: int,
)
    requires
        leases_ended(before, after, invocation, at),
        0 <= i < before.rows@.len(),
    ensures
        after.rows@.len() == before.rows@.len(),
        before.rows@[i].invocation_id@ != invocation ==> after.rows@[i] == before.rows@[i],
        before.rows@[i].state !is Running ==> after.rows@[i] == before.rows@[i],
        before.rows@[i].invocation_id@ == invocation && before.rows@[i].state is Running ==> {
            &&& after.rows@[i].state is Canceled
            &&& opt_view(after.rows@[i].ended_at) == Some(at)
            &&& after.rows@[i].fence_epoch == before.rows@[i].fence_epoch
            &&& after.rows@[i].attempt_id == before.rows@[i].attempt_id
            &&& after.rows@[i].result_ref == before.rows@[i].result_ref
        },
{
    assert(lease_ended(before.rows@[i], after.rows@[i], invocation, at));
}

/// The audit of a registry command names its resource and the command.
pub proof fn a_registry_command_is_audited_with_its_resource(
    before: JournalView,
    kind: EventKind,
    stream: Seq<char>,
    schema: Seq<char>,
    resource: Seq<char>,
    revision: u64,
    meta: Meta,
    audit: Seq<char>,
    a: Alias,
)
    ensures
        realm_journal(before, kind, stream, schema, resource, revision, meta, audit).audits
            == before.with_audit(
            audit,
            "resource="@ + resource + ";idem="@ + meta.idempotency_key@,
        ).audits,
        alias_journal(before, kind, a, meta, audit).audits == before.with_audit(
            audit,
            "alias="@ + a.alias_binding_id@ + ";idem="@ + meta.idempotency_key@,
        ).audits,
{
    reveal_strlit(";");
    reveal_strlit("idem=");
    reveal_strlit(";idem=");
    assert(";"@ + "idem="@ =~= ";idem="@);
    let k = meta.idempotency_key@;
    assert("resource="@ + resource + ";"@ + ("idem="@ + k) =~= "resource="@ + resource + ";idem="@
        + k);
    assert("alias="@ + a.alias_binding_id@ + ";"@ + ("idem="@ + k) =~= "alias="@
        + a.alias_binding_id@ + ";idem="@ + k);
}

} // verus!
