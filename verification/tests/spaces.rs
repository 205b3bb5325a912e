use koveed::dispatch::Route;
use koveed::disposition_ops::{recompute_branch_head, BranchEntry};
use koveed::documents::{
    bundle_subject, channel_subject, content_subject, creation_authority_subject,
    effective_policy_subject, frontier_subject, item_set_subject, limits_subject,
    manual_trigger_subject, policy_change_subject, project_audience_subject, proof_subject,
    space_audience_subject, widening_subject,
};
use koveed::handlers::{
    command_outcome_bytes, contribution_append, contribution_show, events_read, hello,
    last_sequence, project_create, scope_for, space_create, space_show, CommandError,
    ContributionAppendArgs, Installation, ProjectCreateArgs, SpaceCreateArgs,
    SpaceMint,
};
use koveed::invoke::{Contexts, Frontier};
use koveed::journal::{EventKind, Journal};
use koveed::lifecycle_ops::{
    frontier_refs, item_set, papc_cancel, papc_confirm, papc_prepare, papc_show,
    project_spaces, project_update_metadata, space_lifecycle, widen_cancel, widen_confirm,
    widen_prepare, widen_show, ChangeState, Changes, EffectiveChange, PapcPrepareArgs,
    SpaceLifecycle, WidenPrepareArgs,
};
use koveed::json::{parse, render, Json};
use koveed::problem::{Problem, ProblemKind};
use koveed::records::{
    ContentState, Meta, ParticipantKind, ParticipantRole, Part, ProjectStatus, Session,
    SpaceStatus, Workspace,
};

fn session() -> Session {
    Session {
        realm_id: "realm-personal".to_string(),
        owner_actor_ref: "prin-owner".to_string(),
        now_ts: "2026-01-01T00:00:00Z".to_string(),
    }
}

fn meta(expected: Option<u64>) -> Meta {
    Meta {
        request_id: "req-1".to_string(),
        idempotency_key: "key-1".to_string(),
        expected_revision: expected,
        causation_event_ref: None,
    }
}

fn text_of(j: Json) -> String {
    render(&j).unwrap()
}

fn with_project(ws: &mut Workspace, journal: &mut Journal, id: &str) {
    let args = ProjectCreateArgs {
        name: "Work".to_string(),
        default_classification_ref: None,
        policy_set_ref: Some("policy-x".to_string()),
    };
    project_create(ws, journal, &session(), &args, &meta(Some(0)), id).unwrap();
}

fn space_mint(id: &str) -> SpaceMint {
    SpaceMint {
        space_id: id.to_string(),
        main_branch_id: format!("branch-{}", id),
        participant_id: format!("part-{}", id),
    }
}

fn genesis(branch: &str) -> String {
    assert!(branch.starts_with("branch-"));
    "head-0".to_string()
}

fn with_space(ws: &mut Workspace, journal: &mut Journal, project: &str, id: &str) {
    let args = SpaceCreateArgs {
        title: "Ideas".to_string(),
        purpose_contribution_ref: None,
        visibility: "project".to_string(),
        default_classification_ref: None,
        policy_set_ref: None,
    };
    space_create(ws, journal, &session(), project, &args, &meta(None), &space_mint(id), genesis).unwrap();
}

fn append_args(space: &str, head: &str) -> ContributionAppendArgs {
    ContributionAppendArgs {
        space_id: space.to_string(),
        branch_id: format!("branch-{}", space),
        expected_head_digest: head.to_string(),
        kind: "utterance".to_string(),
        schema_ref: None,
        body_parts: vec![Part::Text {
            media_type: "text/plain".to_string(),
            text: "hello there".to_string(),
            language: None,
        }],
        subject_refs: vec![],
        source_refs: vec![],
        epistemic_posture: None,
        classification_ref: None,
        retention_policy_ref: None,
        attempt_id: None,
        fence_epoch: None,
    }
}

fn content_key(id: &str) -> impl FnOnce(&str, &Json) -> String {
    let digest = format!("digest-{}", id);
    move |tag: &str, content: &Json| {
        assert_eq!(tag, "kovee-contribution-content");
        assert!(render(content).unwrap().contains("\"body_parts\":[{\"text\":\"hello there\"}]"));
        digest
    }
}

fn wrapped(key_ref: &str) -> Vec<u8> {
    key_ref.as_bytes().to_vec()
}

fn written(parts: &Vec<Part>) -> Json {
    let list: Vec<String> = parts
        .iter()
        .map(|p| match p {
            Part::Text { text, .. } => format!("{{\"text\":\"{}\"}}", text),
            _ => "null".to_string(),
        })
        .collect();
    parse(&format!("[{}]", list.join(","))).unwrap()
}

fn try_append(
    ws: &mut Workspace,
    journal: &mut Journal,
    project: &str,
    args: ContributionAppendArgs,
    meta: &Meta,
    id: &str,
    to: &str,
) -> Result<u64, Problem> {
    let next = |_: &str, _: u64, _: &str| to.to_string();
    contribution_append(
        ws,
        journal,
        &session(),
        project,
        args,
        meta,
        id,
        written,
        content_key(id),
        wrapped,
        next,
    )
}

fn append(ws: &mut Workspace, journal: &mut Journal, space: &str, id: &str, from: &str, to: &str) -> u64 {
    try_append(ws, journal, "proj-1", append_args(space, from), &meta(None), id, to).unwrap()
}

fn filled() -> (Workspace, Journal) {
    let mut ws = Workspace::new();
    let mut journal = Journal::new();
    with_project(&mut ws, &mut journal, "proj-1");
    with_space(&mut ws, &mut journal, "proj-1", "space-1");
    append(&mut ws, &mut journal, "space-1", "contrib-1", "head-0", "head-1");
    append(&mut ws, &mut journal, "space-1", "contrib-2", "head-1", "head-2");
    (ws, journal)
}

#[test]
fn a_project_starts_active_at_revision_one() {
    let mut ws = Workspace::new();
    let mut journal = Journal::new();
    with_project(&mut ws, &mut journal, "proj-1");
    let p = &ws.projects.rows[0];
    assert_eq!(p.revision, 1);
    assert_eq!(p.status, ProjectStatus::Active);
    assert_eq!(p.default_classification_ref, "class-default");
    assert_eq!(p.policy_set_ref, "policy-x");
    assert_eq!(journal.events[0].kind, EventKind::ProjectCreated);
    assert_eq!(journal.audits[0].event, "command.project_created");
    assert_eq!(journal.audits[0].detail, "project=proj-1;request_digest=idem=key-1");
}

#[test]
fn a_project_that_is_not_there_has_revision_zero() {
    let mut ws = Workspace::new();
    let mut journal = Journal::new();
    let args = ProjectCreateArgs {
        name: "n".to_string(),
        default_classification_ref: None,
        policy_set_ref: None,
    };
    let e = project_create(&mut ws, &mut journal, &session(), &args, &meta(Some(1)), "p").unwrap_err();
    assert_eq!(e.kind, ProblemKind::StaleRevision);
    assert_eq!(e.detail.as_deref(), Some("current visible revision is 0"));
    assert!(ws.projects.rows.is_empty());
    assert!(journal.events.is_empty());
}

#[test]
fn an_identifier_that_is_taken_is_a_fault() {
    let mut ws = Workspace::new();
    let mut journal = Journal::new();
    with_project(&mut ws, &mut journal, "proj-1");
    let args = ProjectCreateArgs {
        name: "n".to_string(),
        default_classification_ref: None,
        policy_set_ref: None,
    };
    let e = project_create(&mut ws, &mut journal, &session(), &args, &meta(None), "proj-1").unwrap_err();
    assert_eq!(e.kind, ProblemKind::Internal);
}

#[test]
fn a_space_takes_its_defaults_from_the_project() {
    let mut ws = Workspace::new();
    let mut journal = Journal::new();
    with_project(&mut ws, &mut journal, "proj-1");
    with_space(&mut ws, &mut journal, "proj-1", "space-1");
    let s = &ws.spaces.rows[0];
    assert_eq!(s.status, SpaceStatus::Open);
    assert_eq!(s.policy_set_ref, "policy-x");
    assert_eq!(s.default_classification_ref, "class-default");
    assert_eq!((s.next_space_sequence, s.next_branch_sequence), (1, 1));
    let p = &ws.participants.rows[0];
    assert_eq!(p.subject_ref, "prin-owner");
    assert_eq!(p.kind, ParticipantKind::Principal);
    assert_eq!(p.role, ParticipantRole::Steward);
    assert_eq!(p.authority_source_ref, "auth-local-uds");
}

#[test]
fn a_space_needs_its_project() {
    let mut ws = Workspace::new();
    let mut journal = Journal::new();
    let args = SpaceCreateArgs {
        title: "t".to_string(),
        purpose_contribution_ref: None,
        visibility: "project".to_string(),
        default_classification_ref: None,
        policy_set_ref: None,
    };
    let e = space_create(&mut ws, &mut journal, &session(), "none", &args, &meta(None), &space_mint("s"), genesis)
        .unwrap_err();
    assert_eq!(e.kind, ProblemKind::NotFound);
}

#[test]
fn numbers_are_dense() {
    let (ws, journal) = filled();
    let rows = &ws.contributions.rows;
    assert_eq!((rows[0].space_sequence, rows[1].space_sequence), (1, 2));
    assert_eq!((rows[0].origin_branch_sequence, rows[1].origin_branch_sequence), (1, 2));
    let s = &ws.spaces.rows[0];
    assert_eq!((s.next_space_sequence, s.next_branch_sequence, s.revision), (3, 3, 3));
    assert_eq!(s.head_digest, "head-2");
    assert_eq!(rows[0].schema_ref, "schema:contribution-body-v1");
    assert_eq!(rows[0].retention_policy_ref, "ret-default");
    assert_eq!(rows[0].content_state, ContentState::Live);
    assert_eq!(
        journal.audits.last().unwrap().detail,
        "contribution=contrib-2;space=space-1;digest=digest-contrib-2;idem=key-1"
    );
}

#[test]
fn a_head_is_good_for_one_append() {
    let (mut ws, mut journal) = filled();
    let e = try_append(&mut ws, &mut journal, "proj-1",
        append_args("space-1", "head-1"),
        &meta(None),
        "contrib-3", "head-3",
    )
    .unwrap_err();
    assert_eq!(e.kind, ProblemKind::StaleRevision);
    assert_eq!(
        e.detail.as_deref(),
        Some("expected_head_digest does not match the current branch head")
    );
    assert_eq!(ws.contributions.rows.len(), 2);
}

#[test]
fn an_append_is_refused_where_it_does_not_belong() {
    let (mut ws, mut journal) = filled();
    let mut bound = append_args("space-1", "head-2");
    bound.attempt_id = Some("att-1".to_string());
    let e = try_append(&mut ws, &mut journal, "proj-1", bound, &meta(None), "c", "h")
        .unwrap_err();
    assert_eq!(e.kind, ProblemKind::ForbiddenSurface);
    let mut other = append_args("space-1", "head-2");
    other.branch_id = "branch-x".to_string();
    let e = try_append(&mut ws, &mut journal, "proj-1", other, &meta(None), "c", "h")
        .unwrap_err();
    assert_eq!(e.kind, ProblemKind::NotFound);
    let e = try_append(&mut ws, &mut journal, "proj-2",
        append_args("space-1", "head-2"),
        &meta(None),
        "c", "h",
    )
    .unwrap_err();
    assert_eq!(e.kind, ProblemKind::NotFound);
    let e = try_append(&mut ws, &mut journal, "proj-1",
        append_args("space-1", "head-2"),
        &meta(Some(1)),
        "c", "h",
    )
    .unwrap_err();
    assert_eq!(e.detail.as_deref(), Some("current visible revision is 3"));
}

#[test]
fn another_project_sees_nothing() {
    let (ws, _) = filled();
    assert_eq!(space_show(&ws, "proj-1", "space-1").unwrap().title, "Ideas");
    assert_eq!(space_show(&ws, "proj-2", "space-1").unwrap_err().kind, ProblemKind::NotFound);
    assert!(contribution_show(&ws, "proj-1", "contrib-1").is_ok());
    assert!(contribution_show(&ws, "proj-2", "contrib-1").is_err());
    assert!(contribution_show(&ws, "proj-1", "contrib-9").is_err());
}

#[test]
fn a_greeting_needs_a_common_version() {
    let installation = Installation {
        protocol_version: "0.1".to_string(),
        implementation_version: "0.1.0".to_string(),
        limits_digest: "d".to_string(),
        installation_id: "inst-1".to_string(),
    };
    let h = hello(&vec!["0.2".to_string(), "0.1".to_string()], &installation, "now").unwrap();
    assert_eq!(h.selected_version, "0.1");
    assert_eq!(h.implementation, "koveed");
    assert_eq!(h.features, vec!["core_v1", "shared_space_v1", "developer_assistant_v1"]);
    let e = hello(&vec!["0.2".to_string()], &installation, "now").unwrap_err();
    assert_eq!(e.kind, ProblemKind::UnsupportedVersion);
}

#[test]
fn an_idempotency_key_is_scoped() {
    let scope = scope_for(&session(), "space_create", &Some(meta(None)), Some("dd".to_string())).unwrap();
    assert_eq!(scope.actor_scope, "external_client/prin-owner/realm-personal");
    assert_eq!(scope.operation, "space_create");
    assert_eq!(scope.idempotency_key, "key-1");
    assert!(scope_for(&session(), "space_create", &None, Some("dd".to_string())).is_err());
    assert!(scope_for(&session(), "space_create", &Some(meta(None)), None).is_err());
}

#[test]
fn a_store_fault_tells_nothing() {
    assert_eq!(command_outcome_bytes(Ok(vec![1])).unwrap(), vec![1]);
    let e = command_outcome_bytes(Err(CommandError::Store("disk".to_string()))).unwrap_err();
    assert_eq!(e.kind, ProblemKind::Internal);
    assert!(e.detail.is_none());
}

#[test]
fn reading_goes_on_behind_the_last_event() {
    let (ws, _) = filled();
    assert_eq!(last_sequence(&vec![Some(3), None, Some(9), Some(4)], 1), 9);
    assert_eq!(last_sequence(&vec![None], 5), 5);
    assert_eq!(events_read(&ws, "proj-1", Some("proj-1"), None, 0, &vec![Some(2)]).unwrap(), 2);
    assert!(events_read(&ws, "proj-1", Some("proj-2"), None, 0, &vec![]).is_err());
    assert!(events_read(&ws, "proj-1", None, Some("proj-2"), 0, &vec![]).is_err());
    assert!(events_read(&ws, "proj-9", None, None, 0, &vec![]).is_err());
}

#[test]
fn a_project_is_renamed() {
    let (mut ws, mut journal) = filled();
    assert_eq!(project_update_metadata(&mut ws, &mut journal, "proj-1", "New", &meta(Some(1))).unwrap(), 2);
    assert_eq!(ws.projects.rows[0].name, "New");
    let e = project_update_metadata(&mut ws, &mut journal, "proj-1", "Newer", &meta(Some(1))).unwrap_err();
    assert_eq!(e.kind, ProblemKind::StaleRevision);
    ws.projects.rows[0].status = ProjectStatus::Archived;
    let e = project_update_metadata(&mut ws, &mut journal, "proj-1", "Newer", &meta(None)).unwrap_err();
    assert_eq!(e.detail.as_deref(), Some("project is archived"));
}

fn run(ws: &mut Workspace, journal: &mut Journal, l: SpaceLifecycle) -> Result<u64, String> {
    space_lifecycle(ws, journal, "proj-1", "space-1", &l, &meta(None))
        .map_err(|p| p.detail.unwrap_or(p.title))
}

#[test]
fn reopening_undoes_freezing() {
    let (mut ws, mut journal) = filled();
    assert_eq!(run(&mut ws, &mut journal, SpaceLifecycle::Freeze), Ok(4));
    assert_eq!(ws.spaces.rows[0].status, SpaceStatus::Frozen);
    assert_eq!(
        run(&mut ws, &mut journal, SpaceLifecycle::Freeze),
        Err("cannot freeze a frozen space".to_string())
    );
    assert_eq!(run(&mut ws, &mut journal, SpaceLifecycle::Reopen), Ok(5));
    assert_eq!(ws.spaces.rows[0].status, SpaceStatus::Open);
    assert_eq!(
        run(&mut ws, &mut journal, SpaceLifecycle::Reopen),
        Err("cannot reopen a open space".to_string())
    );
    assert_eq!(ws.contributions.rows.len(), 2);
}

#[test]
fn an_archived_space_stays_archived() {
    let (mut ws, mut journal) = filled();
    run(&mut ws, &mut journal, SpaceLifecycle::Archive).unwrap();
    assert_eq!(
        run(&mut ws, &mut journal, SpaceLifecycle::Archive),
        Err("space is already archived".to_string())
    );
    assert!(run(&mut ws, &mut journal, SpaceLifecycle::Reopen).is_err());
    assert!(run(&mut ws, &mut journal, SpaceLifecycle::Freeze).is_err());
    let narrow = SpaceLifecycle::PolicyNarrow { policy_set_ref: None, default_classification_ref: None };
    assert_eq!(run(&mut ws, &mut journal, narrow), Err("space is archived".to_string()));
    assert!(run(&mut ws, &mut journal, SpaceLifecycle::Restrict).is_ok());
    assert_eq!(ws.spaces.rows[0].status, SpaceStatus::Archived);
    assert_eq!(ws.spaces.rows[0].visibility, "restricted");
}

#[test]
fn a_direct_command_never_widens() {
    let (mut ws, mut journal) = filled();
    run(&mut ws, &mut journal, SpaceLifecycle::Restrict).unwrap();
    assert_eq!(
        run(&mut ws, &mut journal, SpaceLifecycle::Restrict),
        Err("space is already restricted".to_string())
    );
    let update = SpaceLifecycle::UpdateMetadata {
        title: Some("New".to_string()),
        purpose_contribution_ref: Some("contrib-1".to_string()),
    };
    run(&mut ws, &mut journal, update).unwrap();
    assert_eq!(ws.spaces.rows[0].title, "New");
    assert_eq!(ws.spaces.rows[0].purpose_contribution_ref.as_deref(), Some("contrib-1"));
    assert_eq!(ws.spaces.rows[0].visibility, "restricted");
    let away = SpaceLifecycle::UpdateMetadata {
        title: None,
        purpose_contribution_ref: Some("contrib-9".to_string()),
    };
    assert_eq!(run(&mut ws, &mut journal, away), Err("no visible resource".to_string()));
    let narrow = SpaceLifecycle::PolicyNarrow {
        policy_set_ref: Some("policy-n".to_string()),
        default_classification_ref: None,
    };
    run(&mut ws, &mut journal, narrow).unwrap();
    assert_eq!(ws.spaces.rows[0].policy_set_ref, "policy-n");
    assert_eq!(journal.audits.last().unwrap().event, "command.space_policy_narrowed");
}

#[test]
fn plain_operations_are_direct_commands() {
    assert!(matches!(
        koveed::dispatch::lifecycle_of(Route::SpaceFreeze),
        Some(SpaceLifecycle::Freeze)
    ));
    assert!(koveed::dispatch::lifecycle_of(Route::SpaceShow).is_none());
}

fn digest(kind: &str, _: &str, doc: &Json) -> String {
    format!("{}-{}", kind, render(doc).unwrap().len())
}

fn contexts() -> Contexts {
    let mut ctx = Contexts::new();
    for (f, s) in [("front-2", "space-1"), ("front-1", "space-1"), ("front-0", "space-0")] {
        ctx.frontiers.rows.push(Frontier {
            frontier_id: f.to_string(),
            space_id: s.to_string(),
            branch_id: "branch-1".to_string(),
            branch_head_digest: "head".to_string(),
        });
    }
    ctx
}

#[test]
fn a_change_concerns_what_its_spaces_hold() {
    let (mut ws, mut journal) = filled();
    with_space(&mut ws, &mut journal, "proj-1", "space-0");
    append(&mut ws, &mut journal, "space-0", "contrib-3", "head-0", "head-a");
    let spaces = project_spaces(&ws, "proj-1");
    assert_eq!(spaces, vec!["space-0".to_string(), "space-1".to_string()]);
    let refs = frontier_refs(&contexts(), &spaces);
    assert_eq!(refs, vec!["front-0".to_string(), "front-1".to_string(), "front-2".to_string()]);
    assert_eq!(item_set(&ws, &spaces), vec![2, 0, 1]);
    let digest = |i: usize| ws.contributions.rows[i].content_digest.clone();
    assert_eq!(
        text_of(item_set_subject(&ws, &spaces)),
        format!(
            "{{\"items\":[{{\"digest\":\"{}\",\"ref\":\"contrib-3\"}},\
{{\"digest\":\"{}\",\"ref\":\"contrib-1\"}},{{\"digest\":\"{}\",\"ref\":\"contrib-2\"}}]}}",
            digest(2),
            digest(0),
            digest(1)
        )
    );
    assert!(project_spaces(&ws, "proj-9").is_empty());
}

#[test]
fn a_policy_change_is_confirmed_against_what_was_prepared() {
    let (mut ws, mut journal) = filled();
    let mut ch = Changes::new();
    let ctx = contexts();
    let args = PapcPrepareArgs {
        proposed_policy_set_ref: Some("policy-y".to_string()),
        proposed_default_classification_ref: None,
    };
    papc_prepare(&mut ch, &mut journal, &ws, &ctx, &session(), "proj-1", &args, &meta(None), "papc-1", digest)
        .unwrap();
    assert_eq!(ch.policy_changes.rows[0].effective_change, EffectiveChange::Incomparable);
    assert_eq!(ch.policy_changes.rows[0].affected_space_frontier_refs.len(), 2);
    assert_eq!(
        text_of(policy_change_subject(&ch.policy_changes.rows[0])),
        format!(
            "{{\"affected_item_set_digest\":\"{}\",\
\"affected_space_frontier_refs\":[\"front-1\",\"front-2\"],\"expected_project_revision\":1,\
\"prior_default_classification_ref\":\"class-default\",\
\"prior_policy_set_ref\":\"policy-x\",\"project_id\":\"proj-1\",\
\"proposed_default_classification_ref\":\"class-default\",\
\"proposed_policy_set_ref\":\"policy-y\"}}",
            ch.policy_changes.rows[0].affected_item_set_digest
        )
    );
    let items = item_set_subject(&ws, &project_spaces(&ws, "proj-1"));
    assert!(ch.policy_changes.rows[0]
        .affected_item_set_digest
        .ends_with(&format!("-{}", render(&items).unwrap().len())));
    let e = papc_confirm(&mut ch, &mut ws, &mut journal, "proj-1", "papc-1", "rcpt", &meta(None), |_: &str, _: &str, _: &Json| {
        "other".to_string()
    })
    .unwrap_err();
    assert_eq!(e.detail.as_deref(), Some("the affected item set changed after preparation"));
    assert_eq!(
        papc_confirm(&mut ch, &mut ws, &mut journal, "proj-1", "papc-1", "rcpt", &meta(Some(1)), digest).unwrap(),
        2
    );
    assert_eq!(ws.projects.rows[0].policy_set_ref, "policy-y");
    assert_eq!(ws.projects.rows[0].revision, 2);
    let n = journal.audits.len();
    assert_eq!(journal.audits[n - 2].detail, "change=papc-1;receipt=rcpt");
    assert_eq!(journal.audits[n - 1].event, "command.project_policy_change_confirmed");
}

#[test]
fn a_policy_change_is_decided_once() {
    let (mut ws, mut journal) = filled();
    let mut ch = Changes::new();
    let args = PapcPrepareArgs {
        proposed_policy_set_ref: None,
        proposed_default_classification_ref: None,
    };
    papc_prepare(
        &mut ch,
        &mut journal,
        &ws,
        &contexts(),
        &session(),
        "proj-1",
        &args,
        &meta(None),
        "papc-1",
        digest,
    )
    .unwrap();
    assert_eq!(ch.policy_changes.rows[0].effective_change, EffectiveChange::Narrowing);
    assert!(papc_show(&ch, "proj-2", "papc-1").is_err());
    assert_eq!(papc_cancel(&mut ch, &mut journal, "proj-1", "papc-1", &meta(None)).unwrap(), 2);
    let e = papc_cancel(&mut ch, &mut journal, "proj-1", "papc-1", &meta(None)).unwrap_err();
    assert_eq!(e.detail.as_deref(), Some("change is canceled"));
    let e = papc_confirm(&mut ch, &mut ws, &mut journal, "proj-1", "papc-1", "r", &meta(None), digest).unwrap_err();
    assert_eq!(e.kind, ProblemKind::StaleRevision);
    assert_eq!(papc_show(&ch, "proj-1", "papc-1").unwrap().state, ChangeState::Canceled);
}

#[test]
fn a_moved_project_is_not_confirmed() {
    let (mut ws, mut journal) = filled();
    let mut ch = Changes::new();
    let args = PapcPrepareArgs {
        proposed_policy_set_ref: Some("policy-y".to_string()),
        proposed_default_classification_ref: None,
    };
    papc_prepare(
        &mut ch,
        &mut journal,
        &ws,
        &contexts(),
        &session(),
        "proj-1",
        &args,
        &meta(None),
        "papc-1",
        digest,
    )
    .unwrap();
    project_update_metadata(&mut ws, &mut journal, "proj-1", "New", &meta(None)).unwrap();
    let e = papc_confirm(&mut ch, &mut ws, &mut journal, "proj-1", "papc-1", "r", &meta(None), digest).unwrap_err();
    assert_eq!(
        e.detail.as_deref(),
        Some("the project moved after preparation; the intent is stale")
    );
}

fn widening(ws: &Workspace, ch: &mut Changes, journal: &mut Journal) {
    let args = WidenPrepareArgs {
        space_id: "space-1".to_string(),
        proposed_visibility: Some("realm".to_string()),
        proposed_policy_set_ref: None,
        proposed_default_classification_ref: None,
    };
    widen_prepare(
        ch,
        journal,
        ws,
        &contexts(),
        &session(),
        "proj-1",
        &args,
        &meta(None),
        "widen-1",
        digest,
    )
    .unwrap();
}

#[test]
fn a_widening_is_confirmed_exactly() {
    let (mut ws, mut journal) = filled();
    let mut ch = Changes::new();
    widening(&ws, &mut ch, &mut journal);
    assert_eq!(ch.widenings.rows[0].prior_visibility, "project");
    assert_eq!(ch.widenings.rows[0].affected_frontier_refs, vec!["front-1".to_string(), "front-2".to_string()]);
    let subject = text_of(widening_subject(&ch.widenings.rows[0]));
    assert!(subject.starts_with("{\"affected_frontier_refs\":[\"front-1\",\"front-2\"],"));
    assert!(subject.contains("\"prior_visibility\":\"project\",\"proposed_default"));
    assert!(subject.ends_with("\"proposed_visibility\":\"realm\",\"space_id\":\"space-1\"}"));
    assert!(widen_show(&ch, &ws, "proj-2", "widen-1").is_err());
    assert_eq!(
        widen_confirm(&mut ch, &mut ws, &mut journal, "proj-1", "widen-1", "r", &meta(None), digest).unwrap(),
        2
    );
    assert_eq!(ws.spaces.rows[0].visibility, "realm");
    assert_eq!(ws.spaces.rows[0].revision, 4);
    let e = widen_confirm(&mut ch, &mut ws, &mut journal, "proj-1", "widen-1", "r", &meta(None), digest).unwrap_err();
    assert_eq!(e.detail.as_deref(), Some("widening is confirmed"));
    assert!(widen_cancel(&mut ch, &mut journal, &ws, "proj-1", "widen-1", &meta(None)).is_err());
}

#[test]
fn a_direct_command_makes_a_widening_stale() {
    let (mut ws, mut journal) = filled();
    let mut ch = Changes::new();
    widening(&ws, &mut ch, &mut journal);
    run(&mut ws, &mut journal, SpaceLifecycle::Freeze).unwrap();
    let e = widen_confirm(&mut ch, &mut ws, &mut journal, "proj-1", "widen-1", "r", &meta(None), digest).unwrap_err();
    assert_eq!(
        e.detail.as_deref(),
        Some("the space moved after preparation; the intent is stale")
    );
}

#[test]
fn an_append_makes_a_widening_stale() {
    let (mut ws, mut journal) = filled();
    let mut ch = Changes::new();
    widening(&ws, &mut ch, &mut journal);
    append(&mut ws, &mut journal, "space-1", "contrib-3", "head-2", "head-3");
    assert!(widen_confirm(&mut ch, &mut ws, &mut journal, "proj-1", "widen-1", "r", &meta(None), digest).is_err());
    assert_eq!(widen_cancel(&mut ch, &mut journal, &ws, "proj-1", "widen-1", &meta(None)).unwrap(), 2);
}

#[test]
fn an_archived_space_is_not_widened() {
    let (mut ws, mut journal) = filled();
    let mut ch = Changes::new();
    run(&mut ws, &mut journal, SpaceLifecycle::Archive).unwrap();
    let args = WidenPrepareArgs {
        space_id: "space-1".to_string(),
        proposed_visibility: None,
        proposed_policy_set_ref: None,
        proposed_default_classification_ref: None,
    };
    let e = widen_prepare(
        &mut ch,
        &mut journal,
        &ws,
        &contexts(),
        &session(),
        "proj-1",
        &args,
        &meta(None),
        "widen-1",
        digest,
    )
    .unwrap_err();
    assert_eq!(e.detail.as_deref(), Some("space is archived"));
}

#[test]
fn what_is_digested_of_a_workspace() {
    assert_eq!(
        text_of(project_audience_subject("proj-1")),
        "{\"project_id\":\"proj-1\",\"scope\":\"project\"}"
    );
    assert_eq!(
        text_of(space_audience_subject("space-1", "project")),
        "{\"scope\":\"space\",\"space_id\":\"space-1\",\"visibility\":\"project\"}"
    );
    assert_eq!(text_of(manual_trigger_subject("inv-1")), "{\"invocation_id\":\"inv-1\"}");
    assert_eq!(
        text_of(effective_policy_subject()),
        "{\"confinement\":\"unclaimed\",\"policy\":\"developer-local\"}"
    );
    assert_eq!(
        text_of(creation_authority_subject("prin-owner", "deps")),
        "{\"actor\":\"prin-owner\",\"dependency_set\":\"deps\",\
\"operation\":\"invocation_create\"}"
    );
    assert_eq!(
        text_of(channel_subject("realm-personal")),
        "{\"channel\":\"kovee-owner-uds\",\"realm_ref\":\"realm-personal\"}"
    );
    let list = parse("[1]").unwrap();
    assert_eq!(text_of(proof_subject(&list)), "{\"proof\":[1]}");
    assert_eq!(
        text_of(content_subject("sp", "br", 3, "note", &list, &list, &list, &None)),
        "{\"body_parts\":[1],\"epistemic_posture\":null,\"kind\":\"note\",\
\"origin_branch_id\":\"br\",\"origin_branch_sequence\":3,\"source_refs\":[1],\
\"space_id\":\"sp\",\"subject_refs\":[1]}"
    );
    assert_eq!(
        text_of(limits_subject(1, 2, 3, 4, 5)),
        "{\"display_name_scalars\":256,\"identifier_bytes\":128,\
\"inline_content_scalars\":3,\"list_items\":4,\"page_limit\":5,\"reply_bytes\":2,\
\"request_bytes\":1}"
    );
    let assembly = parse("{\"digest\":\"d\"}").unwrap();
    assert_eq!(
        text_of(bundle_subject("ccb-1", &assembly)),
        "{\"context_bundle_ref\":\"ccb-1\",\"digest\":\"d\"}"
    );
    assert_eq!(
        text_of(bundle_subject("ccb-1", &list)),
        "{\"context_bundle_ref\":\"ccb-1\",\"digest\":null}"
    );
    assert_eq!(
        text_of(frontier_subject("fr-1", "br-1", "h")),
        "{\"branch_head_digest\":\"h\",\"branch_id\":\"br-1\",\"frontier_ref\":\"fr-1\"}"
    );
}

#[test]
fn the_ledger_accounts_for_the_head() {
    let mut ws = Workspace::new();
    let mut journal = Journal::new();
    with_project(&mut ws, &mut journal, "proj-1");
    with_space(&mut ws, &mut journal, "proj-1", "space-1");
    let next = |prior: &str, sequence: u64, digest: &str| format!("{}/{}:{}", prior, sequence, digest);
    for id in ["contrib-1", "contrib-2"] {
        let head = ws.spaces.rows[0].head_digest.clone();
        let args = append_args("space-1", &head);
        contribution_append(
            &mut ws,
            &mut journal,
            &session(),
            "proj-1",
            args,
            &meta(None),
            id,
            written,
            content_key(id),
            wrapped,
            next,
        )
        .unwrap();
    }
    let branch = ws.spaces.rows[0].main_branch_id.clone();
    let entries: Vec<BranchEntry> = ws
        .contributions
        .rows
        .iter()
        .map(|c| BranchEntry {
            branch_id: branch.clone(),
            branch_sequence: c.origin_branch_sequence,
            object_digest: c.content_digest.clone(),
        })
        .collect();
    let head = recompute_branch_head(&entries, &branch, "head-0", next);
    assert_eq!(head, "head-0/1:digest-contrib-1/2:digest-contrib-2");
    assert_eq!(ws.spaces.rows[0].head_digest, head);
}
