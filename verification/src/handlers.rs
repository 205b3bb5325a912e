//! The core commands of the external surface: the greeting, creating projects
//! and spaces, appending contributions, and reading them back.

use vstd::prelude::*;

use crate::journal::{EventKind, Journal, JournalView};
use crate::disposition_ops::{always_steps, content_keyed, mint_content_digest, ContentKey};
use crate::documents::{content_document, content_subject};
use crate::json::{list_of, listed, Json, JsonView};
use crate::problem::{check_expected_revision, internal, internal_view, not_found, not_found_view,
    refusal, revision_agrees, stale_revision, stale_revision_view, Problem, ProblemKind,
    ProblemView};
use crate::records::{append_command_event, command_event, command_name, dense, given_or,
    headed, number_taken, numbered, or_else, parts_well_formed, parts_written, scope_digest, visible, visible_space, writes_all,
    ContentState, Contribution, Meta, Part, Participant, ParticipantKind, ParticipantRole,
    Project, ProjectStatus, Session, Space, SpaceStatus, Workspace};
use crate::table::{key1, Key, Row, Table};
use crate::text::{cat4, cat5, list_holds, lists, opt_view, same};

use vstd::string::*;

verus! {

// ---------------------------------------------------------- idempotency ----

/// What an idempotency key is scoped by: the authenticated actor on its
/// surface in a realm, and the operation.
#[derive(Debug)]
pub struct CommandScope {
    pub actor_scope: String,
    pub operation: String,
    pub idempotency_key: String,
    pub request_digest: String,
}

pub open spec fn scoped(
    scope: CommandScope,
    surface: Seq<char>,
    actor: Seq<char>,
    realm: Seq<char>,
    operation: Seq<char>,
    key: Seq<char>,
    digest: Seq<char>,
) -> bool {
    &&& scope.actor_scope@ == surface + "/"@ + actor + "/"@ + realm
    &&& scope.operation@ == operation
    &&& scope.idempotency_key@ == key
    &&& scope.request_digest@ == digest
}

/// What the scope of a command is.
pub open spec fn scope_outcome(
    session: Session,
    operation: Seq<char>,
    meta: Option<Meta>,
    request_digest: Option<String>,
    r: Result<CommandScope, Problem>,
) -> bool {
    &&& match (meta, request_digest) {
        (Some(m), Some(d)) => r is Ok && scoped(
            r->Ok_0,
            "external_client"@,
            session.owner_actor_ref@,
            session.realm_id@,
            operation,
            m.idempotency_key@,
            d@,
        ),
        _ => r is Err && r->Err_0@ == internal_view(),
    }
}

/// The scope of a command on the external surface. A command without the
/// members that every mutation carries is a fault, as is one without a
/// request digest.
pub fn scope_for(
    session: &Session,
    operation: &str,
    meta: &Option<Meta>,
    request_digest: Option<String>,
) -> (r: Result<CommandScope, Problem>)
    ensures
        scope_outcome(
            *session,
            operation@,
            *meta,
            request_digest,
            r,
        ),
{
    match (meta, request_digest) {
        (Some(m), Some(d)) => Ok(
            CommandScope {
                actor_scope: cat5(
                    "external_client",
                    "/",
                    session.owner_actor_ref.as_str(),
                    "/",
                    session.realm_id.as_str(),
                ),
                operation: operation.to_owned(),
                idempotency_key: m.idempotency_key.clone(),
                request_digest: d,
            },
        ),
        _ => Err(internal()),
    }
}

/// How running a command can fail beside refusing it.
#[derive(Debug)]
pub enum CommandError {
    Refused(Problem),
    Store(String),
}

/// The reply of a command: its bytes, its refusal, or a fault of the store,
/// of which nothing is told.
pub open spec fn answered(
    outcome: Result<Vec<u8>, CommandError>,
    r: Result<Vec<u8>, Problem>,
) -> bool {
    match outcome {
        Ok(bytes) => r == Ok::<Vec<u8>, Problem>(bytes),
        Err(CommandError::Refused(p)) => r == Err::<Vec<u8>, Problem>(p),
        Err(CommandError::Store(_)) => r is Err && r->Err_0@ == internal_view(),
    }
}

/// Answers a command.
pub fn command_outcome_bytes(outcome: Result<Vec<u8>, CommandError>) -> (r: Result<Vec<u8>, Problem>)
    ensures
        answered(outcome, r),
{
    match outcome {
        Ok(bytes) => Ok(bytes),
        Err(CommandError::Refused(p)) => Err(p),
        Err(CommandError::Store(_)) => Err(internal()),
    }
}

// ---------------------------------------------------------------- hello ----

/// Who this daemon says it is, and the feature bundles that it serves whole.
#[derive(Debug)]
pub struct Hello {
    pub selected_version: String,
    pub implementation: String,
    pub implementation_version: String,
    pub features: Vec<String>,
    pub limits_digest: String,
    pub server_time: String,
    pub installation_id: String,
}

/// What a greeting is answered with beside the version.
#[derive(Debug)]
pub struct Installation {
    pub protocol_version: String,
    pub implementation_version: String,
    pub limits_digest: String,
    pub installation_id: String,
}

/// The feature bundles that are announced. A bundle is announced only where
/// each of its operations is served: the governed-work binding is not, though
/// most of its operations are.
pub open spec fn whole_bundles() -> Seq<Seq<char>> {
    seq!["core_v1"@, "shared_space_v1"@, "developer_assistant_v1"@]
}

fn announced_bundles() -> (r: Vec<String>)
    ensures
        crate::text::views(r@) == whole_bundles(),
{
    let mut v: Vec<String> = Vec::new();
    v.push("core_v1".to_owned());
    v.push("shared_space_v1".to_owned());
    v.push("developer_assistant_v1".to_owned());
    proof {
        assert(crate::text::views(v@) =~= whole_bundles());
    }
    v
}

/// What a greeting answers.
pub open spec fn hello_outcome(
    supported_versions: Vec<String>,
    installation: Installation,
    now_ts: Seq<char>,
    r: Result<Hello, Problem>,
) -> bool {
    &&& match r {
        Ok(h) => {
            &&& lists(supported_versions@, installation.protocol_version@)
            &&& h.selected_version@ == installation.protocol_version@
            &&& h.implementation@ == "koveed"@
            &&& h.implementation_version@ == installation.implementation_version@
            &&& crate::text::views(h.features@) == whole_bundles()
            &&& h.limits_digest@ == installation.limits_digest@
            &&& h.server_time@ == now_ts
            &&& h.installation_id@ == installation.installation_id@
        },
        Err(p) => {
            &&& !lists(supported_versions@, installation.protocol_version@)
            &&& p@ == refusal(
                ProblemKind::UnsupportedVersion,
                "no common protocol version"@,
            )
        },
    }
}

/// Agrees on the protocol version that this daemon speaks, where the client
/// supports it.
pub fn hello(supported_versions: &Vec<String>, installation: &Installation, now_ts: &str) -> (r:
    Result<Hello, Problem>)
    ensures
        hello_outcome(
            *supported_versions,
            *installation,
            now_ts@,
            r,
        ),
{
    if !list_holds(supported_versions, installation.protocol_version.as_str()) {
        return Err(Problem::new(ProblemKind::UnsupportedVersion, "no common protocol version"));
    }
    Ok(
        Hello {
            selected_version: installation.protocol_version.clone(),
            implementation: "koveed".to_owned(),
            implementation_version: installation.implementation_version.clone(),
            features: announced_bundles(),
            limits_digest: installation.limits_digest.clone(),
            server_time: now_ts.to_owned(),
            installation_id: installation.installation_id.clone(),
        },
    )
}

// ----------------------------------------------------------- realm_show ----

/// One realm.
#[derive(Debug)]
pub struct Realm {
    pub realm_id: String,
    pub revision: u64,
}

impl Row for Realm {
    open spec fn key(&self) -> Key {
        key1(self.realm_id@)
    }

    fn has_key(&self, a: &str, b: &str) -> (r: bool) {
        proof {
            crate::text::empty_is(b@);
        }
        same(self.realm_id.as_str(), a) && b.is_empty()
    }
}

/// Shows a realm.
pub fn realm_show<'a>(realms: &'a Table<Realm>, realm_id: &str) -> (r: Result<&'a Realm, Problem>)
    requires
        realms.wf(),
    ensures
        match r {
            Ok(realm) => realms@.contains_key(key1(realm_id@)) && *realm == realms@[key1(
                realm_id@,
            )],
            Err(p) => !realms@.contains_key(key1(realm_id@)) && p@ == not_found_view(),
        },
{
    proof {
        reveal_strlit("");
        crate::text::empty_is(""@);
    }
    match realms.find(realm_id, "") {
        Some(realm) => Ok(realm),
        None => Err(not_found()),
    }
}

// ------------------------------------------------------- project_create ----

#[derive(Debug)]
pub struct ProjectCreateArgs {
    pub name: String,
    pub default_classification_ref: Option<String>,
    pub policy_set_ref: Option<String>,
}

/// The project that is created.
pub open spec fn created_project(
    p: Project,
    id: Seq<char>,
    session: Session,
    args: ProjectCreateArgs,
) -> bool {
    &&& p.project_id@ == id
    &&& p.realm_id@ == session.realm_id@
    &&& p.revision == 1
    &&& p.name@ == args.name@
    &&& p.status is Active
    &&& p.default_classification_ref@ == or_else(
        args.default_classification_ref,
        "class-default"@,
    )
    &&& p.policy_set_ref@ == or_else(args.policy_set_ref, "policy-default"@)
    &&& p.created_by@ == session.owner_actor_ref@
    &&& p.created_at@ == session.now_ts@
}

/// What creating a project writes down.
pub open spec fn project_created_journal(before: JournalView, p: Project, meta: Meta) -> JournalView {
    before.with_event(
        command_event(
            EventKind::ProjectCreated,
            p.project_id@,
            Some(p.project_id@),
            "schema:project-v1"@,
            p.project_id@,
            1,
            meta,
            Some(p.default_classification_ref@),
        ),
    ).with_audit(
        "command.project_created"@,
        "project="@ + p.project_id@ + ";request_digest="@ + command_name(meta),
    )
}

/// What creating a project does and answers.
pub open spec fn project_create_outcome(
    ws: Workspace,
    ws_after: Workspace,
    journal: JournalView,
    journal_after: JournalView,
    session: Session,
    args: ProjectCreateArgs,
    meta: Meta,
    project_id: Seq<char>,
    r: Result<usize, Problem>,
) -> bool {
    &&& r is Err ==> ws_after == ws && journal_after == journal
    &&& if !revision_agrees(meta.expected_revision, 0) {
        r is Err && r->Err_0@ == stale_revision_view(0)
    } else if ws.projects@.contains_key(key1(project_id)) {
        r is Err && r->Err_0@ == internal_view()
    } else {
        let p = ws_after.projects.rows@.last();
        &&& r is Ok
        &&& r->Ok_0 == ws.projects.rows@.len()
        &&& ws_after.projects.rows@ == ws.projects.rows@.push(p)
        &&& created_project(p, project_id, session, args)
        &&& ws_after.spaces == ws.spaces
        &&& ws_after.participants == ws.participants
        &&& ws_after.contributions == ws.contributions
        &&& journal_after == project_created_journal(journal, p, meta)
    }
}

/// Creates a project. Nothing stands there yet, so only revision zero can be
/// expected. The answer is the project's position.
pub fn project_create(
    ws: &mut Workspace,
    journal: &mut Journal,
    session: &Session,
    args: &ProjectCreateArgs,
    meta: &Meta,
    project_id: &str,
) -> (r: Result<usize, Problem>)
    requires
        old(ws).wf(),
    ensures
        final(ws).wf(),
        project_create_outcome(
            *old(ws),
            *final(ws),
            old(journal)@,
            final(journal)@,
            *session,
            *args,
            *meta,
            project_id@,
            r,
        ),
{
    check_expected_revision(meta.expected_revision, 0)?;
    proof {
        reveal_strlit("");
        crate::text::empty_is(""@);
    }
    if ws.projects.position(project_id, "").is_some() {
        return Err(internal());
    }
    let project = Project {
        project_id: project_id.to_owned(),
        realm_id: session.realm_id.clone(),
        revision: 1,
        name: args.name.clone(),
        status: ProjectStatus::Active,
        default_classification_ref: given_or(&args.default_classification_ref, "class-default"),
        policy_set_ref: given_or(&args.policy_set_ref, "policy-default"),
        created_by: session.owner_actor_ref.clone(),
        created_at: session.now_ts.clone(),
    };
    append_command_event(
        journal,
        EventKind::ProjectCreated,
        project_id,
        Some(project_id),
        "schema:project-v1",
        project_id,
        1,
        meta,
        Some(project.default_classification_ref.as_str()),
    );
    let key = scope_digest(meta);
    let detail = cat4("project=", project_id, ";request_digest=", key.as_str());
    journal.audit("command.project_created", detail.as_str());
    let at: usize = ws.projects.rows.len();
    ws.projects.insert(project);
    Ok(at)
}

// --------------------------------------------------------- space_create ----

#[derive(Debug)]
pub struct SpaceCreateArgs {
    pub title: String,
    pub purpose_contribution_ref: Option<String>,
    pub visibility: String,
    pub default_classification_ref: Option<String>,
    pub policy_set_ref: Option<String>,
}

/// What a new space is minted with.
#[derive(Debug)]
pub struct SpaceMint {
    pub space_id: String,
    pub main_branch_id: String,
    pub participant_id: String,
}

/// The space that is created: open, empty, with the project's defaults where
/// none are given.
pub open spec fn created_space(
    s: Space,
    project: Project,
    session: Session,
    args: SpaceCreateArgs,
    mint: SpaceMint,
) -> bool {
    &&& s.space_id@ == mint.space_id@
    &&& s.realm_id@ == session.realm_id@
    &&& s.project_id@ == project.project_id@
    &&& s.revision == 1
    &&& s.title@ == args.title@
    &&& opt_view(s.purpose_contribution_ref) == opt_view(args.purpose_contribution_ref)
    &&& s.visibility@ == args.visibility@
    &&& s.status is Open
    &&& s.main_branch_id@ == mint.main_branch_id@
    &&& s.next_space_sequence == 1
    &&& s.next_branch_sequence == 1
    &&& s.default_classification_ref@ == or_else(
        args.default_classification_ref,
        project.default_classification_ref@,
    )
    &&& s.policy_set_ref@ == or_else(args.policy_set_ref, project.policy_set_ref@)
    &&& s.created_by@ == session.owner_actor_ref@
    &&& s.created_at@ == session.now_ts@
}

/// The first participant of a space is its creator, as its steward.
pub open spec fn first_participant(p: Participant, session: Session, mint: SpaceMint) -> bool {
    &&& p.participant_id@ == mint.participant_id@
    &&& p.space_id@ == mint.space_id@
    &&& p.subject_ref@ == session.owner_actor_ref@
    &&& p.subject_revision is None
    &&& p.kind is Principal
    &&& p.role is Steward
    &&& p.authority_source_ref@ == "auth-local-uds"@
}

pub open spec fn space_created_journal(before: JournalView, s: Space, meta: Meta) -> JournalView {
    before.with_event(
        command_event(
            EventKind::SpaceCreated,
            s.space_id@,
            Some(s.project_id@),
            "schema:space-v1"@,
            s.space_id@,
            1,
            meta,
            Some(s.default_classification_ref@),
        ),
    ).with_audit("command.space_created"@, "space="@ + s.space_id@ + ";"@ + command_name(meta))
}

/// Why no space is created.
pub open spec fn space_create_refusal(
    ws: Workspace,
    project: Seq<char>,
    owner: Seq<char>,
    meta: Meta,
    mint: SpaceMint,
) -> Option<ProblemView> {
    if !ws.projects@.contains_key(key1(project)) {
        Some(not_found_view())
    } else if !revision_agrees(meta.expected_revision, 0) {
        Some(stale_revision_view(0))
    } else if ws.spaces@.contains_key(key1(mint.space_id@)) || ws.participants@.contains_key(
        (mint.space_id@, owner),
    ) {
        Some(internal_view())
    } else {
        None
    }
}

/// What creating a space does and answers.
pub open spec fn space_create_outcome<N: Fn(&str) -> String>(
    ws: Workspace,
    ws_after: Workspace,
    journal: JournalView,
    journal_after: JournalView,
    session: Session,
    project_id: Seq<char>,
    args: SpaceCreateArgs,
    meta: Meta,
    mint: SpaceMint,
    genesis: N,
    r: Result<usize, Problem>,
) -> bool {
    &&& r is Err ==> ws_after == ws && journal_after == journal
    &&& match space_create_refusal(
        ws,
        project_id,
        session.owner_actor_ref@,
        meta,
        mint,
    ) {
        Some(p) => r is Err && r->Err_0@ == p,
        None => {
            let s = ws_after.spaces.rows@.last();
            let p = ws_after.participants.rows@.last();
            &&& r is Ok
            &&& r->Ok_0 == ws.spaces.rows@.len()
            &&& ws_after.spaces.rows@ == ws.spaces.rows@.push(s)
            &&& created_space(s, ws.projects@[key1(project_id)], session, args, mint)
            &&& headed(genesis, s.main_branch_id@, s.head_digest@)
            &&& ws_after.participants.rows@ == ws.participants.rows@.push(p)
            &&& first_participant(p, session, mint)
            &&& ws_after.projects == ws.projects
            &&& ws_after.contributions == ws.contributions
            &&& journal_after == space_created_journal(journal, s, meta)
        },
    }
}

/// Creates a space in a project, with its creator as first participant.
/// `genesis` is the head of a branch that holds nothing yet. The answer is the
/// space's position.
pub fn space_create<N: Fn(&str) -> String>(
    ws: &mut Workspace,
    journal: &mut Journal,
    session: &Session,
    project_id: &str,
    args: &SpaceCreateArgs,
    meta: &Meta,
    mint: &SpaceMint,
    genesis: N,
) -> (r: Result<usize, Problem>)
    requires
        old(ws).wf(),
        forall|b: &str| #[trigger] genesis.requires((b,)),
    ensures
        final(ws).wf(),
        space_create_outcome(
            *old(ws),
            *final(ws),
            old(journal)@,
            final(journal)@,
            *session,
            project_id@,
            *args,
            *meta,
            *mint,
            genesis,
            r,
        ),
{
    proof {
        reveal_strlit("");
        crate::text::empty_is(""@);
    }
    let at_project = match ws.projects.position(project_id, "") {
        None => {
            return Err(not_found());
        },
        Some(i) => i,
    };
    check_expected_revision(meta.expected_revision, 0)?;
    if ws.spaces.position(mint.space_id.as_str(), "").is_some() || ws.participants.position(
        mint.space_id.as_str(),
        session.owner_actor_ref.as_str(),
    ).is_some() {
        return Err(internal());
    }
    let branch = mint.main_branch_id.as_str();
    let head = genesis(branch);
    proof {
        assert(genesis.ensures((branch,), head));
    }
    let project = &ws.projects.rows[at_project];
    let space = Space {
        space_id: mint.space_id.clone(),
        realm_id: session.realm_id.clone(),
        project_id: project.project_id.clone(),
        revision: 1,
        title: args.title.clone(),
        purpose_contribution_ref: args.purpose_contribution_ref.clone(),
        visibility: args.visibility.clone(),
        status: SpaceStatus::Open,
        main_branch_id: mint.main_branch_id.clone(),
        next_space_sequence: 1,
        head_digest: head,
        next_branch_sequence: 1,
        default_classification_ref: given_or(
            &args.default_classification_ref,
            project.default_classification_ref.as_str(),
        ),
        policy_set_ref: given_or(&args.policy_set_ref, project.policy_set_ref.as_str()),
        created_by: session.owner_actor_ref.clone(),
        created_at: session.now_ts.clone(),
    };
    let participant = Participant {
        participant_id: mint.participant_id.clone(),
        space_id: mint.space_id.clone(),
        subject_ref: session.owner_actor_ref.clone(),
        subject_revision: None,
        kind: ParticipantKind::Principal,
        role: ParticipantRole::Steward,
        authority_source_ref: "auth-local-uds".to_owned(),
    };
    append_command_event(
        journal,
        EventKind::SpaceCreated,
        mint.space_id.as_str(),
        Some(project_id),
        "schema:space-v1",
        mint.space_id.as_str(),
        1,
        meta,
        Some(space.default_classification_ref.as_str()),
    );
    let key = scope_digest(meta);
    let detail = cat4("space=", mint.space_id.as_str(), ";", key.as_str());
    journal.audit("command.space_created", detail.as_str());
    let at: usize = ws.spaces.rows.len();
    ws.spaces.insert(space);
    ws.participants.insert(participant);
    Ok(at)
}

// ----------------------------------------------------- space_show et al ----

/// What showing a space answers.
pub open spec fn space_shown(
    ws: Workspace,
    project_id: Seq<char>,
    space_id: Seq<char>,
    r: Result< &Space, Problem, >,
) -> bool {
    &&& match r {
        Ok(s) => visible(ws.spaces, project_id, space_id) && *s == ws.spaces@[key1(
            space_id,
        )],
        Err(p) => !visible(ws.spaces, project_id, space_id) && p@ == not_found_view(),
    }
}

/// Shows a space of a project.
pub fn space_show<'a>(ws: &'a Workspace, project_id: &str, space_id: &str) -> (r: Result<
    &'a Space,
    Problem,
>)
    requires
        ws.wf(),
    ensures
        space_shown(
            *ws,
            project_id@,
            space_id@,
            r,
        ),
{
    let i = visible_space(&ws.spaces, project_id, space_id)?;
    Ok(&ws.spaces.rows[i])
}

/// Whether a contribution is visible in a project.
pub open spec fn contribution_visible(ws: Workspace, project: Seq<char>, id: Seq<char>) -> bool {
    ws.contributions@.contains_key(key1(id)) && ws.contributions@[key1(id)].project_id@ == project
}

/// What showing a contribution answers.
pub open spec fn contribution_shown(
    ws: Workspace,
    project_id: Seq<char>,
    contribution_id: Seq<char>,
    r: Result<&Contribution, Problem>,
) -> bool {
    &&& match r {
        Ok(c) => contribution_visible(ws, project_id, contribution_id) && *c
            == ws.contributions@[key1(contribution_id)],
        Err(p) => !contribution_visible(ws, project_id, contribution_id) && p@
            == not_found_view(),
    }
}

/// Shows a contribution of a project.
pub fn contribution_show<'a>(ws: &'a Workspace, project_id: &str, contribution_id: &str) -> (r:
    Result<&'a Contribution, Problem>)
    requires
        ws.wf(),
    ensures
        contribution_shown(
            *ws,
            project_id@,
            contribution_id@,
            r,
        ),
{
    proof {
        reveal_strlit("");
        crate::text::empty_is(""@);
    }
    match ws.contributions.find(contribution_id, "") {
        None => Err(not_found()),
        Some(c) => if same(c.project_id.as_str(), project_id) {
            Ok(c)
        } else {
            Err(not_found())
        },
    }
}

// -------------------------------------------------- contribution_append ----

pub struct ContributionAppendArgs {
    pub space_id: String,
    pub branch_id: String,
    pub expected_head_digest: String,
    pub kind: String,
    pub schema_ref: Option<String>,
    pub body_parts: Vec<Part>,
    pub subject_refs: Vec<Json>,
    pub source_refs: Vec<Json>,
    pub epistemic_posture: Option<String>,
    pub classification_ref: Option<String>,
    pub retention_policy_ref: Option<String>,
    pub attempt_id: Option<String>,
    pub fence_epoch: Option<u64>,
}

/// What a contribution is appended with: its identifier, the digest of its
/// content and what keys it, and the head that the branch moves to.
#[derive(Debug)]
pub struct ContributionMint {
    pub contribution_id: String,
    pub content_digest: String,
    pub object_secret: Vec<u8>,
    pub new_head: String,
}

/// What the digest of an appended contribution is made of: where it stands in
/// its branch, and all that it says.
pub open spec fn appended_content(
    args: ContributionAppendArgs,
    sequence: u64,
    parts: JsonView,
) -> JsonView {
    content_document(
        args.space_id@,
        args.branch_id@,
        sequence,
        args.kind@,
        parts,
        listed(args.subject_refs@),
        listed(args.source_refs@),
        opt_view(args.epistemic_posture),
    )
}

/// Whether a mint is what the content was keyed to, and its head what the
/// branch's step makes of it.
pub open spec fn content_minted<
    H: FnOnce(&str, &Json) -> String,
    W: FnOnce(&str) -> Vec<u8>,
    F: Fn(&str, u64, &str) -> String,
>(
    mint: ContributionMint,
    contribution_id: Seq<char>,
    s: Space,
    args: ContributionAppendArgs,
    parts: JsonView,
    keyed: H,
    wrap: W,
    next_head: F,
) -> bool {
    &&& mint.contribution_id@ == contribution_id
    &&& exists|made: ContentKey|
        {
            &&& #[trigger] content_keyed(
                keyed,
                wrap,
                contribution_id,
                appended_content(args, s.next_branch_sequence, parts),
                made,
            )
            &&& mint.content_digest@ == made.digest@
            &&& mint.object_secret == made.wrapped_secret
        }
    &&& exists|prior: &str, digest: &str, out: String|
        {
            &&& prior@ == s.head_digest@
            &&& digest@ == mint.content_digest@
            &&& #[trigger] next_head.ensures((prior, s.next_branch_sequence, digest), out)
            &&& mint.new_head@ == out@
        }
}

/// Why nothing is appended.
pub open spec fn append_refusal(
    ws: Workspace,
    project: Seq<char>,
    args: ContributionAppendArgs,
    meta: Meta,
    contribution_id: Seq<char>,
) -> Option<ProblemView> {
    let s = ws.spaces@[key1(args.space_id@)];
    if args.attempt_id is Some || args.fence_epoch is Some {
        Some(
            refusal(
                ProblemKind::ForbiddenSurface,
                "worker-surface binding on an external client channel"@,
            ),
        )
    } else if !visible(ws.spaces, project, args.space_id@) {
        Some(not_found_view())
    } else if args.branch_id@ != s.main_branch_id@ {
        Some(not_found_view())
    } else if !revision_agrees(meta.expected_revision, s.revision) {
        Some(stale_revision_view(s.revision))
    } else if args.expected_head_digest@ != s.head_digest@ {
        Some(
            (ProblemView {
                detail: Some("expected_head_digest does not match the current branch head"@),
                ..stale_revision_view(s.revision)
            }),
        )
    } else if ws.contributions@.contains_key(key1(contribution_id)) {
        Some(internal_view())
    } else {
        None
    }
}

/// The contribution that is appended: it takes the next number of its space
/// and of its branch.
pub open spec fn appended_contribution(
    c: Contribution,
    s: Space,
    session: Session,
    args: ContributionAppendArgs,
    meta: Meta,
    mint: ContributionMint,
) -> bool {
    &&& c.contribution_id@ == mint.contribution_id@
    &&& c.revision == 1
    &&& c.realm_id@ == session.realm_id@
    &&& c.project_id@ == s.project_id@
    &&& c.space_id@ == args.space_id@
    &&& c.origin_branch_id@ == args.branch_id@
    &&& c.origin_branch_sequence == s.next_branch_sequence
    &&& c.space_sequence == s.next_space_sequence
    &&& c.author_actor_ref@ == session.owner_actor_ref@
    &&& c.kind@ == args.kind@
    &&& c.schema_ref@ == or_else(args.schema_ref, "schema:contribution-body-v1"@)
    &&& c.body_parts == args.body_parts
    &&& c.subject_refs == args.subject_refs
    &&& c.source_refs == args.source_refs
    &&& opt_view(c.epistemic_posture) == opt_view(args.epistemic_posture)
    &&& c.invocation_ref is None
    &&& c.context_assembly_ref is None
    &&& opt_view(c.causation_ref) == opt_view(meta.causation_event_ref)
    &&& c.classification_ref@ == or_else(args.classification_ref, s.default_classification_ref@)
    &&& c.retention_policy_ref@ == or_else(args.retention_policy_ref, "ret-default"@)
    &&& c.content_digest@ == mint.content_digest@
    &&& c.created_at@ == session.now_ts@
    &&& c.content_state is Live
    &&& c.object_secret == Some(mint.object_secret)
}

/// What appending makes of the space: both sequences and the revision move by
/// one, and the head to the new one.
pub open spec fn advanced_space(before: Space, after: Space, new_head: Seq<char>) -> bool {
    &&& after == (Space {
        next_space_sequence: after.next_space_sequence,
        next_branch_sequence: after.next_branch_sequence,
        head_digest: after.head_digest,
        revision: after.revision,
        ..before
    })
    &&& after.next_space_sequence == before.next_space_sequence + 1
    &&& after.next_branch_sequence == before.next_branch_sequence + 1
    &&& after.head_digest@ == new_head
    &&& after.revision == before.revision + 1
}

pub open spec fn appended_journal(
    before: JournalView,
    c: Contribution,
    meta: Meta,
) -> JournalView {
    before.with_event(
        command_event(
            EventKind::ContributionAppended,
            c.space_id@,
            Some(c.project_id@),
            "schema:contribution-body-v1"@,
            c.contribution_id@,
            1,
            meta,
            Some(c.classification_ref@),
        ),
    ).with_audit(
        "command.contribution_appended"@,
        "contribution="@ + c.contribution_id@ + ";space="@ + c.space_id@ + ";digest="@
            + c.content_digest@ + ";"@ + command_name(meta),
    )
}

/// What an append that is not refused does.
pub open spec fn appended(
    before: Workspace,
    after: Workspace,
    session: Session,
    args: ContributionAppendArgs,
    meta: Meta,
    mint: ContributionMint,
) -> bool {
    let k = key1(args.space_id@);
    let c = after.contributions.rows@.last();
    &&& after.contributions.rows@ == before.contributions.rows@.push(c)
    &&& appended_contribution(c, before.spaces@[k], session, args, meta, mint)
    &&& advanced_space(before.spaces@[k], after.spaces@[k], mint.new_head@)
    &&& after.spaces@ == before.spaces@.insert(k, after.spaces@[k])
    &&& after.projects == before.projects
    &&& after.participants == before.participants
}

/// What appending a contribution does and answers.
pub open spec fn append_outcome<
    H: FnOnce(&str, &Json) -> String,
    W: FnOnce(&str) -> Vec<u8>,
    F: Fn(&str, u64, &str) -> String,
    P: Fn(&Vec<Part>) -> Json,
>(
    ws: Workspace,
    ws_after: Workspace,
    journal: JournalView,
    journal_after: JournalView,
    session: Session,
    project_id: Seq<char>,
    args: ContributionAppendArgs,
    meta: Meta,
    contribution_id: Seq<char>,
    write: P,
    keyed: H,
    wrap: W,
    next_head: F,
    r: Result<u64, Problem>,
) -> bool {
    &&& r is Err ==> ws_after == ws && journal_after == journal
    &&& match append_refusal(ws, project_id, args, meta, contribution_id) {
        Some(p) => r is Err && r->Err_0@ == p,
        None => {
            let s = ws.spaces@[key1(args.space_id@)];
            &&& r is Ok
            &&& r->Ok_0 == s.revision + 1
            &&& exists|mint: ContributionMint, parts: JsonView|
                {
                    &&& #[trigger] content_minted(
                        mint,
                        contribution_id,
                        s,
                        args,
                        parts,
                        keyed,
                        wrap,
                        next_head,
                    )
                    &&& parts_written(write, args.body_parts, parts)
                    &&& appended(ws, ws_after, session, args, meta, mint)
                }
            &&& journal_after == appended_journal(
                journal,
                ws_after.contributions.rows@.last(),
                meta,
            )
        },
    }
}

/// Appends a contribution to the main branch of a space, against the exact
/// head that the caller expects. `write` is how a body is written in a
/// document; `keyed` makes the digest of its content under a fresh secret, `wrap`
/// wraps that secret, and `next_head` makes the head behind it. The answer is
/// the revision that the space moves to.
pub fn contribution_append<
    H: FnOnce(&str, &Json) -> String,
    W: FnOnce(&str) -> Vec<u8>,
    F: Fn(&str, u64, &str) -> String,
    P: Fn(&Vec<Part>) -> Json,
>(
    ws: &mut Workspace,
    journal: &mut Journal,
    session: &Session,
    project_id: &str,
    args: ContributionAppendArgs,
    meta: &Meta,
    contribution_id: &str,
    write: P,
    keyed: H,
    wrap: W,
    next_head: F,
) -> (r: Result<u64, Problem>)
    requires
        old(ws).wf(),
        parts_well_formed(args.body_parts@),
        writes_all(write),
        forall|tag: &str, doc: &Json| #[trigger] keyed.requires((tag, doc)),
        forall|key_ref: &str| #[trigger] wrap.requires((key_ref,)),
        always_steps(next_head),
        old(ws).spaces@.contains_key(key1(args.space_id@)) ==> {
            let s = old(ws).spaces@[key1(args.space_id@)];
            s.next_space_sequence < u64::MAX && s.next_branch_sequence < u64::MAX && s.revision
                < u64::MAX
        },
    ensures
        final(ws).wf(),
        append_outcome(
            *old(ws),
            *final(ws),
            old(journal)@,
            final(journal)@,
            *session,
            project_id@,
            args,
            *meta,
            contribution_id@,
            write,
            keyed,
            wrap,
            next_head,
            r,
        ),
{
    if args.attempt_id.is_some() || args.fence_epoch.is_some() {
        return Err(
            Problem::new(
                ProblemKind::ForbiddenSurface,
                "worker-surface binding on an external client channel",
            ),
        );
    }
    proof {
        reveal_strlit("");
        crate::text::empty_is(""@);
    }
    let i = visible_space(&ws.spaces, project_id, args.space_id.as_str())?;
    if !same(args.branch_id.as_str(), ws.spaces.rows[i].main_branch_id.as_str()) {
        return Err(not_found());
    }
    let revision: u64 = ws.spaces.rows[i].revision;
    check_expected_revision(meta.expected_revision, revision)?;
    if !same(args.expected_head_digest.as_str(), ws.spaces.rows[i].head_digest.as_str()) {
        return Err(
            stale_revision(revision).with_detail(
                "expected_head_digest does not match the current branch head",
            ),
        );
    }
    if ws.contributions.position(contribution_id, "").is_some() {
        return Err(internal());
    }
    let sequence: u64 = ws.spaces.rows[i].next_branch_sequence;
    let subject_refs = list_of(&args.subject_refs);
    let source_refs = list_of(&args.source_refs);
    let parts = write(&args.body_parts);
    proof {
        assert(write.ensures((&args.body_parts,), parts));
    }
    let content = content_subject(
        args.space_id.as_str(),
        args.branch_id.as_str(),
        sequence,
        args.kind.as_str(),
        &parts,
        &subject_refs,
        &source_refs,
        &args.epistemic_posture,
    );
    let made = mint_content_digest(contribution_id, &content, keyed, wrap);
    let ghost the_made = made;
    let prior = ws.spaces.rows[i].head_digest.as_str();
    let behind = made.digest.as_str();
    let new_head = next_head(prior, sequence, behind);
    proof {
        assert(next_head.ensures((prior, sequence, behind), new_head));
    }
    let mint = ContributionMint {
        contribution_id: contribution_id.to_owned(),
        content_digest: made.digest,
        object_secret: made.wrapped_secret,
        new_head,
    };
    let ghost the_args = args;
    let ghost the_mint = mint;
    proof {
        let s = ws.spaces.rows@[i as int];
        assert(content_keyed(keyed, wrap, contribution_id@, content@, the_made));
        assert(content@ == appended_content(the_args, s.next_branch_sequence, parts@));
        assert(content_minted(
            mint,
            contribution_id@,
            s,
            the_args,
            parts@,
            keyed,
            wrap,
            next_head,
        ));
    }
    let contribution = Contribution {
        contribution_id: mint.contribution_id,
        revision: 1,
        realm_id: session.realm_id.clone(),
        project_id: ws.spaces.rows[i].project_id.clone(),
        space_id: args.space_id,
        origin_branch_id: args.branch_id,
        origin_branch_sequence: ws.spaces.rows[i].next_branch_sequence,
        space_sequence: ws.spaces.rows[i].next_space_sequence,
        author_actor_ref: session.owner_actor_ref.clone(),
        kind: args.kind,
        schema_ref: given_or(&args.schema_ref, "schema:contribution-body-v1"),
        body_parts: args.body_parts,
        subject_refs: args.subject_refs,
        source_refs: args.source_refs,
        epistemic_posture: args.epistemic_posture,
        invocation_ref: None,
        context_assembly_ref: None,
        causation_ref: meta.causation_event_ref.clone(),
        classification_ref: given_or(
            &args.classification_ref,
            ws.spaces.rows[i].default_classification_ref.as_str(),
        ),
        retention_policy_ref: given_or(&args.retention_policy_ref, "ret-default"),
        content_digest: mint.content_digest,
        created_at: session.now_ts.clone(),
        content_state: ContentState::Live,
        object_secret: Some(mint.object_secret),
    };
    append_command_event(
        journal,
        EventKind::ContributionAppended,
        contribution.space_id.as_str(),
        Some(project_id),
        "schema:contribution-body-v1",
        contribution.contribution_id.as_str(),
        1,
        meta,
        Some(contribution.classification_ref.as_str()),
    );
    let key = scope_digest(meta);
    let mut detail = cat4(
        "contribution=",
        contribution.contribution_id.as_str(),
        ";space=",
        contribution.space_id.as_str(),
    );
    detail.append(";digest=");
    detail.append(contribution.content_digest.as_str());
    detail.append(";");
    detail.append(key.as_str());
    journal.audit("command.contribution_appended", detail.as_str());
    ws.contributions.insert(contribution);
    ws.spaces.rows[i].next_space_sequence = ws.spaces.rows[i].next_space_sequence + 1;
    ws.spaces.rows[i].next_branch_sequence = ws.spaces.rows[i].next_branch_sequence + 1;
    ws.spaces.rows[i].head_digest = mint.new_head;
    ws.spaces.rows[i].revision = revision + 1;
    proof {
        let a = ws.spaces.rows@;
        crate::table::table_updated(old(ws).spaces, ws.spaces, i as int, a[i as int]);
    }
    Ok(revision + 1)
}

/// Numbers stay dense: an append takes exactly the next number of its space,
/// and the numbers of every other space are left as they are.
pub proof fn append_keeps_numbers_dense(
    before: Workspace,
    after: Workspace,
    session: Session,
    args: ContributionAppendArgs,
    meta: Meta,
    mint: ContributionMint,
    space: Seq<char>,
)
    requires
        before.wf(),
        before.spaces@.contains_key(key1(args.space_id@)),
        before.spaces@.contains_key(key1(space)),
        before.spaces@[key1(args.space_id@)].next_space_sequence < u64::MAX,
        dense(before, before.spaces@[key1(space)]),
        appended(before, after, session, args, meta, mint),
    ensures
        dense(after, after.spaces@[key1(space)]),
{
    crate::records::space_named(before.spaces, space);
    crate::records::space_named(before.spaces, args.space_id@);
    let s = before.spaces@[key1(space)];
    let t = after.spaces@[key1(space)];
    let b = before.contributions.rows@;
    let a = after.contributions.rows@;
    let c = a.last();
    assert(t.space_id@ == space);
    let last = b.len() as int;
    assert forall|n: int| #[trigger] number_taken(a, space, n) <==> 1 <= n < t.next_space_sequence by {
        if number_taken(a, space, n) {
            let i = choose|i: int| 0 <= i < a.len() && numbered(#[trigger] a[i], space, n);
            if i < last {
                assert(numbered(b[i], space, n));
                assert(number_taken(b, space, n));
            }
        }
        if number_taken(b, space, n) {
            let i = choose|i: int| 0 <= i < b.len() && numbered(#[trigger] b[i], space, n);
            assert(numbered(a[i], space, n));
        }
        if space == args.space_id@ && n == s.next_space_sequence {
            assert(numbered(a[last], space, n));
        }
    }
    assert forall|i: int, j: int|
        0 <= i < j < a.len() && (#[trigger] a[i]).space_id@ == space && (
        #[trigger] a[j]).space_id@ == space implies a[i].space_sequence != a[j].space_sequence by {
        assert(a[i] == b[i]);
        if j < last {
            assert(a[j] == b[j]);
        } else {
            assert(numbered(b[i], space, b[i].space_sequence as int));
            assert(number_taken(b, space, b[i].space_sequence as int));
        }
    }
}

/// A space starts out with no number taken.
pub proof fn a_new_space_is_dense(
    before: Workspace,
    after: Workspace,
    project: Project,
    session: Session,
    args: SpaceCreateArgs,
    mint: SpaceMint,
)
    requires
        before.wf(),
        !before.spaces@.contains_key(key1(mint.space_id@)),
        after.contributions == before.contributions,
        after.spaces.rows@ == before.spaces.rows@.push(after.spaces.rows@.last()),
        created_space(after.spaces.rows@.last(), project, session, args, mint),
    ensures
        dense(after, after.spaces.rows@.last()),
{
    let a = after.contributions.rows@;
    let s = after.spaces.rows@.last();
    assert forall|n: int| !#[trigger] number_taken(a, s.space_id@, n) by {
        if number_taken(a, s.space_id@, n) {
            let i = choose|i: int| 0 <= i < a.len() && numbered(#[trigger] a[i], s.space_id@, n);
            assert(before.spaces@.contains_key(key1(a[i].space_id@)));
        }
    }
    assert forall|i: int, j: int|
        0 <= i < j < a.len() && (#[trigger] a[i]).space_id@ == s.space_id@ && (
        #[trigger] a[j]).space_id@ == s.space_id@ implies a[i].space_sequence
        != a[j].space_sequence by {
        assert(before.spaces@.contains_key(key1(a[i].space_id@)));
    }
}

/// A head is good for one append: where the branch moved to another head, the
/// same expectation is refused.
pub proof fn a_head_is_used_once(
    before: Workspace,
    after: Workspace,
    session: Session,
    project: Seq<char>,
    args: ContributionAppendArgs,
    meta: Meta,
    mint: ContributionMint,
    again: ContributionAppendArgs,
    meta2: Meta,
    other_id: Seq<char>,
)
    requires
        before.wf(),
        append_refusal(before, project, args, meta, mint.contribution_id@) is None,
        appended(before, after, session, args, meta, mint),
        mint.new_head@ != args.expected_head_digest@,
        again.space_id@ == args.space_id@,
        again.expected_head_digest@ == args.expected_head_digest@,
    ensures
        append_refusal(after, project, again, meta2, other_id) is Some,
{
}

// ---------------------------------------------------------- events_read ----

/// Whether a read of a project's events is narrowed to another project.
pub open spec fn narrowed_away(narrowing: Option<&str>, project: Seq<char>) -> bool {
    narrowing is Some && narrowing->0@ != project
}

/// Whether a project's events can be read under two narrowings.
pub open spec fn events_readable(
    ws: Workspace,
    source: Seq<char>,
    envelope: Option<&str>,
    argument: Option<&str>,
) -> bool {
    &&& ws.projects@.contains_key(key1(source))
    &&& !narrowed_away(envelope, source)
    &&& !narrowed_away(argument, source)
}

/// Decides whether a project's events may be read. Narrowing to another
/// project reveals nothing.
pub fn events_source(
    ws: &Workspace,
    source: &str,
    envelope_project_id: Option<&str>,
    project_id: Option<&str>,
) -> (r: Result<(), Problem>)
    requires
        ws.wf(),
    ensures
        r is Ok <==> events_readable(*ws, source@, envelope_project_id, project_id),
        r is Err ==> r->Err_0@ == not_found_view(),
{
    proof {
        reveal_strlit("");
        crate::text::empty_is(""@);
    }
    if ws.projects.position(source, "").is_none() {
        return Err(not_found());
    }
    if let Some(n) = envelope_project_id {
        if !same(n, source) {
            return Err(not_found());
        }
    }
    if let Some(n) = project_id {
        if !same(n, source) {
            return Err(not_found());
        }
    }
    Ok(())
}

/// The greatest sequence that is given, if any is.
pub open spec fn greatest(sequences: Seq<Option<u64>>) -> Option<u64>
    decreases sequences.len(),
{
    if sequences.len() == 0 {
        None
    } else {
        match (greatest(sequences.drop_last()), sequences.last()) {
            (Some(a), Some(b)) => if a >= b {
                Some(a)
            } else {
                Some(b)
            },
            (Some(a), None) => Some(a),
            (None, b) => b,
        }
    }
}

/// Where reading goes on: behind the last event that was read, or where it
/// started if none was.
pub fn last_sequence(sequences: &Vec<Option<u64>>, after: u64) -> (r: u64)
    ensures
        r == match greatest(sequences@) {
            Some(n) => n,
            None => after,
        },
{
    let mut best: Option<u64> = None;
    let mut i: usize = 0;
    proof {
        assert(sequences@.take(0).len() == 0);
    }
    while i < sequences.len()
        invariant
            i <= sequences.len(),
            best == greatest(sequences@.take(i as int)),
        decreases sequences.len() - i,
    {
        proof {
            assert(sequences@.take(i + 1).drop_last() =~= sequences@.take(i as int));
        }
        best = match (best, sequences[i]) {
            (Some(a), Some(b)) => if a >= b {
                Some(a)
            } else {
                Some(b)
            },
            (Some(a), None) => Some(a),
            (None, b) => b,
        };
        i = i + 1;
    }
    proof {
        assert(sequences@.take(i as int) =~= sequences@);
    }
    match best {
        Some(n) => n,
        None => after,
    }
}

/// What reading events answers.
pub open spec fn events_read_outcome(
    ws: Workspace,
    source: Seq<char>,
    envelope_project_id: Option<&str>,
    project_id: Option<&str>,
    after: u64,
    sequences: Vec<Option<u64>>,
    r: Result<u64, Problem>,
) -> bool {
    &&& match r {
        Ok(n) => {
            &&& events_readable(ws, source, envelope_project_id, project_id)
            &&& n == match greatest(sequences@) {
                Some(m) => m,
                None => after,
            }
        },
        Err(p) => {
            &&& !events_readable(ws, source, envelope_project_id, project_id)
            &&& p@ == not_found_view()
        },
    }
}

/// Reads a project's events: `sequences` are the ones that the ledger answers
/// for the source behind `after`. The answer is where reading goes on.
pub fn events_read(
    ws: &Workspace,
    source: &str,
    envelope_project_id: Option<&str>,
    project_id: Option<&str>,
    after: u64,
    sequences: &Vec<Option<u64>>,
) -> (r: Result<u64, Problem>)
    requires
        ws.wf(),
    ensures
        events_read_outcome(
            *ws,
            source@,
            envelope_project_id,
            project_id,
            after,
            *sequences,
            r,
        ),
{
    events_source(ws, source, envelope_project_id, project_id)?;
    Ok(last_sequence(sequences, after))
}

/// No event is skipped or read twice: reading goes on behind every event that
/// was read, and at one of them.
pub proof fn reading_goes_on_behind(sequences: Seq<Option<u64>>, i: int)
    requires
        0 <= i < sequences.len(),
        sequences[i] is Some,
    ensures
        greatest(sequences) is Some,
        sequences[i]->0 <= greatest(sequences)->0,
        sequences.contains(greatest(sequences)),
    decreases sequences.len(),
{
    let rest = sequences.drop_last();
    if i < rest.len() {
        reading_goes_on_behind(rest, i);
        let j = choose|j: int| 0 <= j < rest.len() && rest[j] == greatest(rest);
        assert(sequences[j] == greatest(rest));
    } else {
        if greatest(rest) is Some {
            greatest_is_given(rest);
            let j = choose|j: int| 0 <= j < rest.len() && rest[j] == greatest(rest);
            assert(sequences[j] == greatest(rest));
        }
        assert(sequences[sequences.len() - 1] == sequences.last());
    }
    if greatest(sequences) == sequences.last() {
        assert(sequences[sequences.len() - 1] == greatest(sequences));
    }
}

proof fn greatest_is_given(sequences: Seq<Option<u64>>)
    requires
        greatest(sequences) is Some,
    ensures
        sequences.contains(greatest(sequences)),
    decreases sequences.len(),
{
    let rest = sequences.drop_last();
    if greatest(rest) is Some {
        greatest_is_given(rest);
        let j = choose|j: int| 0 <= j < rest.len() && rest[j] == greatest(rest);
        assert(sequences[j] == greatest(rest));
    }
    assert(sequences[sequences.len() - 1] == sequences.last());
}

/// What an author gives with a contribution is what is shown of it afterwards,
/// and what is announced of it: a default stands in only for what was not given.
pub proof fn an_append_is_shown_as_given<
    H: FnOnce(&str, &Json) -> String,
    W: FnOnce(&str) -> Vec<u8>,
    F: Fn(&str, u64, &str) -> String,
    P: Fn(&Vec<Part>) -> Json,
>(
    ws: Workspace,
    ws_after: Workspace,
    journal: JournalView,
    journal_after: JournalView,
    session: Session,
    project_id: Seq<char>,
    args: ContributionAppendArgs,
    meta: Meta,
    contribution_id: Seq<char>,
    write: P,
    keyed: H,
    wrap: W,
    next_head: F,
    r: Result<u64, Problem>,
    shown: Result<&Contribution, Problem>,
)
    requires
        ws.wf(),
        ws_after.wf(),
        append_outcome(
            ws,
            ws_after,
            journal,
            journal_after,
            session,
            project_id,
            args,
            meta,
            contribution_id,
            write,
            keyed,
            wrap,
            next_head,
            r,
        ),
        r is Ok,
        contribution_shown(ws_after, project_id, contribution_id, shown),
    ensures
        shown is Ok,
        shown->Ok_0.contribution_id@ == contribution_id,
        shown->Ok_0.project_id@ == project_id,
        shown->Ok_0.realm_id@ == session.realm_id@,
        shown->Ok_0.author_actor_ref@ == session.owner_actor_ref@,
        shown->Ok_0.created_at@ == session.now_ts@,
        shown->Ok_0.space_id@ == args.space_id@,
        shown->Ok_0.origin_branch_id@ == args.branch_id@,
        shown->Ok_0.space_sequence == ws.spaces@[key1(args.space_id@)].next_space_sequence,
        shown->Ok_0.origin_branch_sequence == ws.spaces@[key1(args.space_id@)].next_branch_sequence,
        shown->Ok_0.kind@ == args.kind@,
        shown->Ok_0.body_parts == args.body_parts,
        shown->Ok_0.subject_refs == args.subject_refs,
        shown->Ok_0.source_refs == args.source_refs,
        shown->Ok_0.content_state is Live,
        shown->Ok_0.invocation_ref is None,
        shown->Ok_0.context_assembly_ref is None,
        shown->Ok_0.revision == 1,
        match args.classification_ref {
            Some(given) => shown->Ok_0.classification_ref@ == given@,
            None => shown->Ok_0.classification_ref@ == ws.spaces@[key1(
                args.space_id@,
            )].default_classification_ref@,
        },
        match args.schema_ref {
            Some(given) => shown->Ok_0.schema_ref@ == given@,
            None => shown->Ok_0.schema_ref@ == "schema:contribution-body-v1"@,
        },
        match args.retention_policy_ref {
            Some(given) => shown->Ok_0.retention_policy_ref@ == given@,
            None => shown->Ok_0.retention_policy_ref@ == "ret-default"@,
        },
        match args.epistemic_posture {
            Some(given) => shown->Ok_0.epistemic_posture is Some
                && shown->Ok_0.epistemic_posture->0@ == given@,
            None => shown->Ok_0.epistemic_posture is None,
        },
        match meta.causation_event_ref {
            Some(given) => shown->Ok_0.causation_ref is Some && shown->Ok_0.causation_ref->0@
                == given@,
            None => shown->Ok_0.causation_ref is None,
        },
        journal_after.events.len() == journal.events.len() + 1,
        journal_after.events.last().kind is ContributionAppended,
        journal_after.events.last().stream_id == args.space_id@,
        journal_after.events.last().project_id == Some(project_id),
        journal_after.events.last().resource_ref == contribution_id,
        journal_after.events.last().resource_revision == Some(1u64),
        journal_after.events.last().correlation_ref == meta.request_id@,
        journal_after.events.last().causation_ref == opt_view(meta.causation_event_ref),
        journal_after.events.last().classification_ref == Some(
            shown->Ok_0.classification_ref@,
        ),
{
    let c = ws_after.contributions.rows@.last();
    crate::table::table_pushed(ws.contributions, ws_after.contributions, c);
    crate::records::space_named(ws.spaces, args.space_id@);
}

/// An append moves its own space one step on and answers with the revision that
/// it then has. Every other space, and every contribution that stood there
/// before, stays as it was.
pub proof fn an_append_moves_one_space<
    H: FnOnce(&str, &Json) -> String,
    W: FnOnce(&str) -> Vec<u8>,
    F: Fn(&str, u64, &str) -> String,
    P: Fn(&Vec<Part>) -> Json,
>(
    ws: Workspace,
    ws_after: Workspace,
    journal: JournalView,
    journal_after: JournalView,
    session: Session,
    project_id: Seq<char>,
    args: ContributionAppendArgs,
    meta: Meta,
    contribution_id: Seq<char>,
    write: P,
    keyed: H,
    wrap: W,
    next_head: F,
    r: Result<u64, Problem>,
    space: Seq<char>,
    contribution: Seq<char>,
)
    requires
        ws.wf(),
        ws_after.wf(),
        append_outcome(
            ws,
            ws_after,
            journal,
            journal_after,
            session,
            project_id,
            args,
            meta,
            contribution_id,
            write,
            keyed,
            wrap,
            next_head,
            r,
        ),
        r is Ok,
    ensures
        ws_after.spaces@[key1(args.space_id@)].revision == r->Ok_0,
        r->Ok_0 == ws.spaces@[key1(args.space_id@)].revision + 1,
        ws_after.spaces@[key1(args.space_id@)].next_space_sequence == ws.spaces@[key1(
            args.space_id@,
        )].next_space_sequence + 1,
        ws_after.spaces@[key1(args.space_id@)].status == ws.spaces@[key1(args.space_id@)].status,
        ws_after.spaces@[key1(args.space_id@)].title == ws.spaces@[key1(args.space_id@)].title,
        ws_after.spaces@[key1(args.space_id@)].main_branch_id == ws.spaces@[key1(
            args.space_id@,
        )].main_branch_id,
        ws_after.spaces@[key1(args.space_id@)].default_classification_ref == ws.spaces@[key1(
            args.space_id@,
        )].default_classification_ref,
        space != args.space_id@ ==> ws_after.spaces@.contains_key(key1(space))
            == ws.spaces@.contains_key(key1(space)),
        space != args.space_id@ && ws.spaces@.contains_key(key1(space)) ==> ws_after.spaces@[key1(
            space,
        )] == ws.spaces@[key1(space)],
        contribution != contribution_id ==> ws_after.contributions@.contains_key(key1(contribution))
            == ws.contributions@.contains_key(key1(contribution)),
        ws.contributions@.contains_key(key1(contribution)) ==> ws_after.contributions@[key1(
            contribution,
        )] == ws.contributions@[key1(contribution)],
{
    let c = ws_after.contributions.rows@.last();
    crate::table::table_pushed(ws.contributions, ws_after.contributions, c);
    assert(key1(space).0 == space);
    assert(key1(args.space_id@).0 == args.space_id@);
    assert(key1(contribution).0 == contribution);
    assert(key1(contribution_id).0 == contribution_id);
}

/// An append that meets its space as its author saw it is taken: on the main
/// branch, at the current head, at the revision that the author expected or
/// without such an expectation, and from no worker. Any other is refused, and a
/// refused one leaves everything as it was.
pub proof fn an_append_is_owed<
    H: FnOnce(&str, &Json) -> String,
    W: FnOnce(&str) -> Vec<u8>,
    F: Fn(&str, u64, &str) -> String,
    P: Fn(&Vec<Part>) -> Json,
>(
    ws: Workspace,
    ws_after: Workspace,
    journal: JournalView,
    journal_after: JournalView,
    session: Session,
    project_id: Seq<char>,
    args: ContributionAppendArgs,
    meta: Meta,
    contribution_id: Seq<char>,
    write: P,
    keyed: H,
    wrap: W,
    next_head: F,
    r: Result<u64, Problem>,
)
    requires
        append_outcome(
            ws,
            ws_after,
            journal,
            journal_after,
            session,
            project_id,
            args,
            meta,
            contribution_id,
            write,
            keyed,
            wrap,
            next_head,
            r,
        ),
    ensures
        r is Ok <==> {
            let s = ws.spaces@[key1(args.space_id@)];
            &&& args.attempt_id is None
            &&& args.fence_epoch is None
            &&& ws.spaces@.contains_key(key1(args.space_id@))
            &&& s.project_id@ == project_id
            &&& s.main_branch_id@ == args.branch_id@
            &&& s.head_digest@ == args.expected_head_digest@
            &&& meta.expected_revision is Some ==> meta.expected_revision->0 == s.revision
            &&& !ws.contributions@.contains_key(key1(contribution_id))
        },
        r is Err ==> ws_after == ws && journal_after == journal,
{
}

/// A new project holds what its creator gave and is announced with the
/// classification that it has. Every project that was there stays as it was.
pub proof fn a_project_is_made_as_given(
    ws: Workspace,
    ws_after: Workspace,
    journal: JournalView,
    journal_after: JournalView,
    session: Session,
    args: ProjectCreateArgs,
    meta: Meta,
    project_id: Seq<char>,
    r: Result<usize, Problem>,
    other: Seq<char>,
)
    requires
        ws.wf(),
        ws_after.wf(),
        project_create_outcome(
            ws,
            ws_after,
            journal,
            journal_after,
            session,
            args,
            meta,
            project_id,
            r,
        ),
    ensures
        r is Ok <==> {
            &&& meta.expected_revision is Some ==> meta.expected_revision->0 == 0
            &&& !ws.projects@.contains_key(key1(project_id))
        },
        r is Err ==> ws_after == ws && journal_after == journal,
        r is Ok ==> {
            let p = ws_after.projects@[key1(project_id)];
            &&& ws_after.projects@.contains_key(key1(project_id))
            &&& ws_after.projects.rows@[r->Ok_0 as int] == p
            &&& p.name@ == args.name@
            &&& p.status is Active
            &&& p.revision == 1
            &&& p.realm_id@ == session.realm_id@
            &&& p.created_by@ == session.owner_actor_ref@
            &&& p.created_at@ == session.now_ts@
            &&& match args.default_classification_ref {
                Some(given) => p.default_classification_ref@ == given@,
                None => p.default_classification_ref@ == "class-default"@,
            }
            &&& match args.policy_set_ref {
                Some(given) => p.policy_set_ref@ == given@,
                None => p.policy_set_ref@ == "policy-default"@,
            }
            &&& journal_after.events.len() == journal.events.len() + 1
            &&& journal_after.events.last().kind is ProjectCreated
            &&& journal_after.events.last().resource_ref == project_id
            &&& journal_after.events.last().project_id == Some(project_id)
            &&& journal_after.events.last().resource_revision == Some(p.revision)
            &&& journal_after.events.last().correlation_ref == meta.request_id@
            &&& journal_after.events.last().causation_ref == opt_view(meta.causation_event_ref)
            &&& journal_after.events.last().classification_ref == Some(
                p.default_classification_ref@,
            )
        },
        other != project_id ==> ws_after.projects@.contains_key(key1(other))
            == ws.projects@.contains_key(key1(other)),
        ws.projects@.contains_key(key1(other)) ==> ws_after.projects@[key1(other)]
            == ws.projects@[key1(other)],
        ws_after.spaces == ws.spaces,
        ws_after.contributions == ws.contributions,
        ws_after.participants == ws.participants,
{
    if r is Ok {
        let p = ws_after.projects.rows@.last();
        crate::table::table_pushed(ws.projects, ws_after.projects, p);
        assert(key1(other).0 == other);
        assert(key1(project_id).0 == project_id);
    }
}

/// A new space is shown as its creator gave it, opens with its owner as the one
/// steward, and takes from its project only what was not given.
pub proof fn a_space_is_made_as_given<N: Fn(&str) -> String>(
    ws: Workspace,
    ws_after: Workspace,
    journal: JournalView,
    journal_after: JournalView,
    session: Session,
    project_id: Seq<char>,
    args: SpaceCreateArgs,
    meta: Meta,
    mint: SpaceMint,
    genesis: N,
    r: Result<usize, Problem>,
    shown: Result<&Space, Problem>,
)
    requires
        ws.wf(),
        ws_after.wf(),
        space_create_outcome(
            ws,
            ws_after,
            journal,
            journal_after,
            session,
            project_id,
            args,
            meta,
            mint,
            genesis,
            r,
        ),
        r is Ok,
        space_shown(ws_after, project_id, mint.space_id@, shown),
    ensures
        shown is Ok,
        ws_after.spaces.rows@[r->Ok_0 as int] == *shown->Ok_0,
        shown->Ok_0.space_id@ == mint.space_id@,
        shown->Ok_0.main_branch_id@ == mint.main_branch_id@,
        shown->Ok_0.project_id@ == project_id,
        shown->Ok_0.realm_id@ == session.realm_id@,
        shown->Ok_0.created_by@ == session.owner_actor_ref@,
        shown->Ok_0.created_at@ == session.now_ts@,
        shown->Ok_0.title@ == args.title@,
        shown->Ok_0.visibility@ == args.visibility@,
        shown->Ok_0.status is Open,
        shown->Ok_0.revision == 1,
        shown->Ok_0.next_space_sequence == 1,
        shown->Ok_0.next_branch_sequence == 1,
        match args.purpose_contribution_ref {
            Some(given) => shown->Ok_0.purpose_contribution_ref is Some
                && shown->Ok_0.purpose_contribution_ref->0@ == given@,
            None => shown->Ok_0.purpose_contribution_ref is None,
        },
        match args.default_classification_ref {
            Some(given) => shown->Ok_0.default_classification_ref@ == given@,
            None => shown->Ok_0.default_classification_ref@ == ws.projects@[key1(
                project_id,
            )].default_classification_ref@,
        },
        match args.policy_set_ref {
            Some(given) => shown->Ok_0.policy_set_ref@ == given@,
            None => shown->Ok_0.policy_set_ref@ == ws.projects@[key1(project_id)].policy_set_ref@,
        },
        ws_after.participants@.contains_key((mint.space_id@, session.owner_actor_ref@)),
        ws_after.participants@[(mint.space_id@, session.owner_actor_ref@)].role is Steward,
        ws_after.participants@[(mint.space_id@, session.owner_actor_ref@)].kind is Principal,
        ws_after.participants@[(mint.space_id@, session.owner_actor_ref@)].participant_id@
            == mint.participant_id@,
        ws_after.participants@[(mint.space_id@, session.owner_actor_ref@)].subject_revision is None,
        journal_after.events.len() == journal.events.len() + 1,
        journal_after.events.last().kind is SpaceCreated,
        journal_after.events.last().stream_id == mint.space_id@,
        journal_after.events.last().resource_ref == mint.space_id@,
        journal_after.events.last().project_id == Some(project_id),
        journal_after.events.last().resource_revision == Some(1u64),
        journal_after.events.last().correlation_ref == meta.request_id@,
        journal_after.events.last().causation_ref == opt_view(meta.causation_event_ref),
        journal_after.events.last().classification_ref == Some(
            shown->Ok_0.default_classification_ref@,
        ),
{
    let s = ws_after.spaces.rows@.last();
    let p = ws_after.participants.rows@.last();
    crate::table::table_pushed(ws.spaces, ws_after.spaces, s);
    crate::table::table_pushed(ws.participants, ws_after.participants, p);
    let i = crate::table::table_row(ws.projects, key1(project_id));
    assert(key1(project_id).0 == project_id);
}

/// A space is made where its project is there, the caller expects none of that
/// name, and the names that it is given are free; else nothing changes.
pub proof fn a_space_is_owed<N: Fn(&str) -> String>(
    ws: Workspace,
    ws_after: Workspace,
    journal: JournalView,
    journal_after: JournalView,
    session: Session,
    project_id: Seq<char>,
    args: SpaceCreateArgs,
    meta: Meta,
    mint: SpaceMint,
    genesis: N,
    r: Result<usize, Problem>,
)
    requires
        space_create_outcome(
            ws,
            ws_after,
            journal,
            journal_after,
            session,
            project_id,
            args,
            meta,
            mint,
            genesis,
            r,
        ),
    ensures
        r is Ok <==> {
            &&& ws.projects@.contains_key(key1(project_id))
            &&& meta.expected_revision is Some ==> meta.expected_revision->0 == 0
            &&& !ws.spaces@.contains_key(key1(mint.space_id@))
            &&& !ws.participants@.contains_key((mint.space_id@, session.owner_actor_ref@))
        },
        r is Err ==> ws_after == ws && journal_after == journal,
        ws_after.projects == ws.projects,
        ws_after.contributions == ws.contributions,
{
}

/// Two commands share a scope only if they are the same operation under the
/// same key and digest, and of the same owner where the realm is the same.
pub proof fn a_scope_tells_commands_apart(
    session: Session,
    operation: Seq<char>,
    meta: Option<Meta>,
    digest: Option<String>,
    r: Result<CommandScope, Problem>,
    session2: Session,
    operation2: Seq<char>,
    meta2: Option<Meta>,
    digest2: Option<String>,
    r2: Result<CommandScope, Problem>,
)
    requires
        scope_outcome(session, operation, meta, digest, r),
        scope_outcome(session2, operation2, meta2, digest2, r2),
    ensures
        r is Ok <==> meta is Some && digest is Some,
        r is Ok && r2 is Ok && r->Ok_0.operation@ == r2->Ok_0.operation@
            && r->Ok_0.idempotency_key@ == r2->Ok_0.idempotency_key@ && r->Ok_0.request_digest@
            == r2->Ok_0.request_digest@ ==> operation == operation2 && meta->0.idempotency_key@
            == meta2->0.idempotency_key@ && digest->0@ == digest2->0@,
        r is Ok && r2 is Ok && r->Ok_0.actor_scope@ == r2->Ok_0.actor_scope@ && session.realm_id@
            == session2.realm_id@ ==> session.owner_actor_ref@ == session2.owner_actor_ref@,
        r is Ok && r2 is Ok && r->Ok_0.actor_scope@ == r2->Ok_0.actor_scope@
            && session.owner_actor_ref@ == session2.owner_actor_ref@ ==> session.realm_id@
            == session2.realm_id@,
{
    if r is Ok && r2 is Ok && r->Ok_0.actor_scope@ == r2->Ok_0.actor_scope@ {
        let head = "external_client"@ + "/"@;
        let a = r->Ok_0.actor_scope@;
        let o1 = session.owner_actor_ref@;
        let o2 = session2.owner_actor_ref@;
        let slash = "/"@;
        assert(a == head + o1 + slash + session.realm_id@);
        assert(a == head + o2 + slash + session2.realm_id@);
        if session.realm_id@ == session2.realm_id@ {
            assert(o1.len() == o2.len());
            assert(o1 == a.subrange(head.len() as int, (head.len() + o1.len()) as int));
            assert(o2 == a.subrange(head.len() as int, (head.len() + o1.len()) as int));
        }
        if o1 == o2 {
            let n = (head + o1 + slash).len() as int;
            assert(session.realm_id@ == a.subrange(n, a.len() as int));
            assert(session2.realm_id@ == a.subrange(n, a.len() as int));
        }
    }
}

/// A greeting is answered where the caller offers the version that is spoken
/// here, in whatever place of its list, and says of the installation what the
/// installation says of itself.
pub proof fn a_greeting_meets_on_one_version(
    supported_versions: Vec<String>,
    installation: Installation,
    now_ts: Seq<char>,
    r: Result<Hello, Problem>,
    i: int,
)
    requires
        hello_outcome(supported_versions, installation, now_ts, r),
    ensures
        0 <= i < supported_versions@.len() && supported_versions@[i]@
            == installation.protocol_version@ ==> r is Ok,
        r is Ok ==> exists|j: int|
            0 <= j < supported_versions@.len() && (#[trigger] supported_versions@[j])@
                == r->Ok_0.selected_version@,
        r is Ok ==> r->Ok_0.selected_version@ == installation.protocol_version@,
        r is Ok ==> r->Ok_0.implementation_version@ == installation.implementation_version@,
        r is Ok ==> r->Ok_0.limits_digest@ == installation.limits_digest@,
        r is Ok ==> r->Ok_0.installation_id@ == installation.installation_id@,
        r is Ok ==> r->Ok_0.server_time@ == now_ts,
        r is Err ==> r->Err_0@.kind is UnsupportedVersion,
{
}

/// A reader of events is told where to go on: behind everything that was read,
/// or where it stood if nothing was. It reads a project that is there and that
/// neither of its narrowings leaves out.
pub proof fn an_event_reader_goes_on(
    ws: Workspace,
    source: Seq<char>,
    envelope_project_id: Option<&str>,
    project_id: Option<&str>,
    after: u64,
    sequences: Vec<Option<u64>>,
    r: Result<u64, Problem>,
    i: int,
)
    requires
        events_read_outcome(
            ws,
            source,
            envelope_project_id,
            project_id,
            after,
            sequences,
            r,
        ),
        0 <= i < sequences@.len(),
    ensures
        r is Ok <==> {
            &&& ws.projects@.contains_key(key1(source))
            &&& envelope_project_id is Some ==> envelope_project_id->0@ == source
            &&& project_id is Some ==> project_id->0@ == source
        },
        r is Ok && sequences@[i] is Some ==> sequences@[i]->0 <= r->Ok_0,
        r is Ok && sequences@[i] is Some ==> sequences@.contains(Some(r->Ok_0)),
        r is Ok && (forall|j: int| 0 <= j < sequences@.len() ==> (#[trigger] sequences@[j]) is None)
            ==> r->Ok_0 == after,
{
    if sequences@[i] is Some {
        reading_goes_on_behind(sequences@, i);
    }
    if forall|j: int| 0 <= j < sequences@.len() ==> (#[trigger] sequences@[j]) is None {
        nothing_is_greatest(sequences@);
    }
}

/// Where no sequence is known none is the greatest.
proof fn nothing_is_greatest(sequences: Seq<Option<u64>>)
    requires
        forall|j: int| 0 <= j < sequences.len() ==> (#[trigger] sequences[j]) is None,
    ensures
        greatest(sequences) is None,
    decreases sequences.len(),
{
    if sequences.len() > 0 {
        assert forall|j: int| 0 <= j < sequences.drop_last().len() implies (
        #[trigger] sequences.drop_last()[j]) is None by {
            assert(sequences[j] is None);
        }
        nothing_is_greatest(sequences.drop_last());
        assert(sequences[sequences.len() - 1] is None);
    }
}

/// What is kept of an appended contribution's content is its keyed digest and
/// the wrapped secret that keys it, both made for that contribution; and an
/// append adds one row and leaves projects and participants.
pub proof fn what_is_appended_is_keyed<
    H: FnOnce(&str, &Json) -> String,
    W: FnOnce(&str) -> Vec<u8>,
    F: Fn(&str, u64, &str) -> String,
>(
    before: Workspace,
    after: Workspace,
    session: Session,
    args: ContributionAppendArgs,
    meta: Meta,
    mint: ContributionMint,
    contribution_id: Seq<char>,
    parts: JsonView,
    keyed: H,
    wrap: W,
    next_head: F,
)
    requires
        appended(before, after, session, args, meta, mint),
        content_minted(
            mint,
            contribution_id,
            before.spaces@[key1(args.space_id@)],
            args,
            parts,
            keyed,
            wrap,
            next_head,
        ),
    ensures
        after.contributions.rows@.len() == before.contributions.rows@.len() + 1,
        after.projects == before.projects,
        after.participants == before.participants,
        ({
            let c = after.contributions.rows@.last();
            let s = before.spaces@[key1(args.space_id@)];
            &&& c.contribution_id@ == contribution_id
            &&& c.object_secret is Some
            &&& exists|tag: &str, doc: &Json, out: String|
                {
                    &&& tag@ == "kovee-contribution-content"@
                    &&& doc@ == appended_content(args, s.next_branch_sequence, parts)
                    &&& out@ == c.content_digest@
                    &&& #[trigger] keyed.ensures((tag, doc), out)
                }
            &&& exists|key_ref: &str, out: Vec<u8>|
                {
                    &&& key_ref@ == "kovee-contribution-object:"@ + contribution_id
                    &&& out@ == c.object_secret->0@
                    &&& #[trigger] wrap.ensures((key_ref,), out)
                }
            &&& exists|prior: &str, digest: &str, out: String|
                {
                    &&& prior@ == s.head_digest@
                    &&& digest@ == c.content_digest@
                    &&& out@ == after.spaces@[key1(args.space_id@)].head_digest@
                    &&& #[trigger] next_head.ensures((prior, s.next_branch_sequence, digest), out)
                }
        }),
{
}

/// The first participant of a space is who made it, as its steward.
pub proof fn a_space_begins_with_its_steward(p: Participant, session: Session, mint: SpaceMint)
    requires
        first_participant(p, session, mint),
    ensures
        p.participant_id@ == mint.participant_id@,
        p.space_id@ == mint.space_id@,
        p.subject_ref@ == session.owner_actor_ref@,
        p.subject_revision is None,
        p.kind is Principal,
        p.role is Steward,
        p.authority_source_ref@ == "auth-local-uds"@,
{
}

/// A greeting tells who answers it.
pub proof fn a_greeting_tells_who_answers(
    versions: Vec<String>,
    installation: Installation,
    now: Seq<char>,
    r: Result<Hello, Problem>,
)
    requires
        hello_outcome(versions, installation, now, r),
        r is Ok,
    ensures
        r->Ok_0.implementation@ == "koveed"@,
        r->Ok_0.implementation_version@ == installation.implementation_version@,
        r->Ok_0.installation_id@ == installation.installation_id@,
        r->Ok_0.limits_digest@ == installation.limits_digest@,
        r->Ok_0.server_time@ == now,
        r->Ok_0.selected_version@ == installation.protocol_version@,
{
}

/// A space and a contribution are audited with their names and the command, the
/// contribution with its space and its digest too.
pub proof fn what_is_made_is_audited_with_its_name(
    before: JournalView,
    s: Space,
    c: Contribution,
    meta: Meta,
)
    ensures
        space_created_journal(before, s, meta).audits == before.with_audit(
            "command.space_created"@,
            "space="@ + s.space_id@ + ";"@ + ("idem="@ + meta.idempotency_key@),
        ).audits,
        appended_journal(before, c, meta).audits == before.with_audit(
            "command.contribution_appended"@,
            "contribution="@ + c.contribution_id@ + ";space="@ + c.space_id@ + ";digest="@
                + c.content_digest@ + ";"@ + ("idem="@ + meta.idempotency_key@),
        ).audits,
{
}

/// The events of a project are read while it is there and neither the request
/// nor its argument is narrowed to another project.
pub proof fn events_are_read_of_the_project_alone(
    ws: Workspace,
    source: Seq<char>,
    envelope: Option<&str>,
    argument: Option<&str>,
)
    ensures
        events_readable(ws, source, envelope, argument) <==> {
            &&& ws.projects@.contains_key(key1(source))
            &&& envelope is Some ==> envelope->0@ == source
            &&& argument is Some ==> argument->0@ == source
        },
{
}

} // verus!
