use koveed::assistant_ops::{
    alias_bind, alias_revoke, alias_show, alias_update, application_event_emit, assistant_create,
    emit_still_authorized,
    assistant_revision_register, assistant_revision_show, assistant_show, deployment_create,
    deployment_show, deployment_transition, invocation_cancel, manifest_value, normalize_alias,
    worker_invocation_cancel, AliasBindArgs, AliasStatus, AliasUpdateArgs,
    ApplicationEventEmitArgs, AssistantCreateArgs, Deployment, DeploymentCreateArgs,
    DeploymentStatus, InvocationCancelArgs, Registry, ResourceLimits, RevisionManifest,
    RevisionRegisterArgs,
};
use koveed::handlers::{project_create, ProjectCreateArgs};
use koveed::invoke::{
    advance_attempt_fence, attempt_fixture, attempt_invocation_id, check_binding,
    claim_still_authorized, complete_still_authorized, deployment_actor_ref, invocation_claim,
    invocation_complete, invocation_create, invocation_exists, invocation_show, worker_scope,
    Assembly, AttemptState, Contexts, Frontier, InvocationClaimArgs, InvocationCompleteArgs,
    InvocationCreateArgs, InvocationIds, InvocationState, Invocations, ItemRef,
};
use koveed::journal::{EventKind, Journal};
use koveed::json::{parse, render, Json};
use koveed::problem::ProblemKind;
use koveed::records::{Meta, Session, Workspace};

fn session() -> Session {
    Session {
        realm_id: "realm-personal".to_string(),
        owner_actor_ref: "prin-owner".to_string(),
        now_ts: "now".to_string(),
    }
}

fn meta(expected: Option<u64>) -> Meta {
    Meta {
        request_id: "req-1".to_string(),
        idempotency_key: "key-1".to_string(),
        expected_revision: expected,
        causation_event_ref: None,
    }
}

fn workspace() -> Workspace {
    let mut ws = Workspace::new();
    let mut journal = Journal::new();
    let args = ProjectCreateArgs {
        name: "Work".to_string(),
        default_classification_ref: None,
        policy_set_ref: None,
    };
    project_create(&mut ws, &mut journal, &session(), &args, &meta(None), "proj-1").unwrap();
    ws
}

fn manifest(definition: &str, version: &str, package: &str) -> RevisionManifest {
    let none = || Json::Null;
    RevisionManifest {
        schema_version: Json::Text("1".to_string()),
        definition_id: definition.to_string(),
        version: version.to_string(),
        entrypoint: Json::Text("main".to_string()),
        package_digest: package.to_string(),
        runtime: none(),
        supported_worker_protocols: Json::List(vec![]),
        input_schema_ref: none(),
        output_schema_ref: none(),
        skills: none(),
        attention_proposals: none(),
        requested_capabilities: none(),
        model_profiles: none(),
        tool_profiles: none(),
        network_policy: none(),
        resource_limits: ResourceLimits {
            cpu: parse("1").unwrap(),
            memory: none(),
            disk: none(),
            output_bytes: none(),
        },
        default_timeout: none(),
        max_concurrency: none(),
        causal_concurrency_policy: none(),
        checkpoint_support: none(),
        cancellation_support: none(),
        security_profiles: none(),
    }
}

fn register_args(definition: &str, m: RevisionManifest) -> RevisionRegisterArgs {
    RevisionRegisterArgs {
        definition_id: definition.to_string(),
        version: "1.0".to_string(),
        manifest: m,
        package_artifact_ref: "art-1".to_string(),
        package_digest: "pd".to_string(),
        config_schema_digest: "cs".to_string(),
        sdk_protocol_range: "0.1".to_string(),
        signature_refs: None,
    }
}

fn registry() -> (Registry, Journal) {
    let mut reg = Registry::new();
    let mut journal = Journal::new();
    let args = AssistantCreateArgs {
        name: "Ada".to_string(),
        description: "helps".to_string(),
    };
    assistant_create(&mut reg, &mut journal, &session(), &args, &meta(None), "asst-1").unwrap();
    let args = register_args("asst-1", manifest("asst-1", "1.0", "pd"));
    assistant_revision_register(&mut reg, &mut journal, &session(), &args, &meta(None), "rev-1").unwrap();
    (reg, journal)
}

fn deploy_args(profile: &str) -> DeploymentCreateArgs {
    DeploymentCreateArgs {
        assistant_revision_id: "rev-1".to_string(),
        config_ref: "cfg".to_string(),
        config_digest: "cd".to_string(),
        secret_binding_set_ref: "sec".to_string(),
        secret_binding_set_digest: "sd".to_string(),
        policy_ref: "pol".to_string(),
        pool_ref: "pool".to_string(),
        security_profile: profile.to_string(),
        concurrency_policy: Json::Null,
        rollout_policy: Json::Null,
    }
}

fn deployed() -> (Registry, Journal) {
    let (mut reg, mut journal) = registry();
    deployment_create(&mut reg, &mut journal, &session(), &deploy_args("developer"), &meta(None), "dep-1")
        .unwrap();
    deployment_transition(&mut reg, &mut journal, &session(), "dep-1", true, &meta(None)).unwrap();
    (reg, journal)
}

#[test]
fn a_manifest_binds_its_definition_version_and_package() {
    let (mut reg, mut journal) = registry();
    assert_eq!(assistant_show(&reg, "asst-1").unwrap().name, "Ada");
    for (m, detail) in [
        (manifest("asst-2", "2.0", "pd"), "manifest.definition_id does not match definition_id"),
        (manifest("asst-1", "2.0", "pd"), "manifest.version does not match version"),
        (manifest("asst-1", "1.0", "px"), "manifest.package_digest does not match package_digest"),
        (manifest("asst-1", "1.0", "pd"), "this definition version is already registered"),
    ] {
        let args = register_args("asst-1", m);
        let e = assistant_revision_register(&mut reg, &mut journal, &session(), &args, &meta(None), "rev-2")
            .unwrap_err();
        assert_eq!(e.kind, ProblemKind::Invalid);
        assert_eq!(e.detail.as_deref(), Some(detail));
    }
    let args = register_args("asst-9", manifest("asst-9", "1.0", "pd"));
    let e = assistant_revision_register(&mut reg, &mut journal, &session(), &args, &meta(None), "rev-2")
        .unwrap_err();
    assert_eq!(e.kind, ProblemKind::NotFound);
    assert_eq!(reg.revisions.rows.len(), 1);
    assert!(assistant_revision_show(&reg, "rev-2").is_err());
}

#[test]
fn a_manifest_is_written_whole() {
    let text = render(&manifest_value(&manifest("asst-1", "1.0", "pd"))).unwrap();
    assert!(text.starts_with("{\"attention_proposals\":null,\"cancellation_support\":null"));
    assert!(text.contains("\"resource_limits\":{\"cpu\":1,\"disk\":null,\"memory\":null,\"output_bytes\":null}"));
    assert!(text.ends_with("\"tool_profiles\":null,\"version\":\"1.0\"}"));
    assert_eq!(text.matches("\":").count(), 26);
}

#[test]
fn only_the_developer_profile_is_deployed() {
    let (mut reg, mut journal) = registry();
    let e = deployment_create(&mut reg, &mut journal, &session(), &deploy_args("confined"), &meta(None), "dep-1")
        .unwrap_err();
    assert_eq!(e.kind, ProblemKind::Forbidden);
    let mut away = deploy_args("developer");
    away.assistant_revision_id = "rev-9".to_string();
    let e = deployment_create(&mut reg, &mut journal, &session(), &away, &meta(None), "dep-1").unwrap_err();
    assert_eq!(e.kind, ProblemKind::NotFound);
    deployment_create(&mut reg, &mut journal, &session(), &deploy_args("developer"), &meta(None), "dep-1").unwrap();
    assert_eq!(deployment_show(&reg, "dep-1").unwrap().status, DeploymentStatus::Created);
}

#[test]
fn a_deployment_is_activated_and_drained() {
    let (mut reg, mut journal) = deployed();
    assert_eq!(reg.deployments.rows[0].revision, 2);
    assert_eq!(reg.deployments.rows[0].record.as_ref().unwrap().activated_at.as_deref(), Some("now"));
    let e = deployment_transition(&mut reg, &mut journal, &session(), "dep-1", true, &meta(None)).unwrap_err();
    assert_eq!(e.detail.as_deref(), Some("deployment is active"));
    let e = deployment_transition(&mut reg, &mut journal, &session(), "dep-1", false, &meta(Some(1))).unwrap_err();
    assert_eq!(e.kind, ProblemKind::StaleRevision);
    assert_eq!(
        deployment_transition(&mut reg, &mut journal, &session(), "dep-1", false, &meta(Some(2))).unwrap(),
        3
    );
    assert_eq!(reg.deployments.rows[0].status, DeploymentStatus::Drained);
    assert_eq!(journal.audits.last().unwrap().event, "command.deployment_drained");
    assert_eq!(journal.audits.last().unwrap().detail, "resource=dep-1;idem=key-1");
}

#[test]
fn a_deployment_without_a_record_is_a_fault() {
    let (mut reg, mut journal) = registry();
    reg.deployments.rows.push(Deployment {
        deployment_id: "dep-local".to_string(),
        realm_id: "realm-personal".to_string(),
        revision: 1,
        assistant_revision_id: "rev-local".to_string(),
        security_profile: "developer".to_string(),
        status: DeploymentStatus::Active,
        created_at: "then".to_string(),
        record: None,
    });
    assert_eq!(deployment_show(&reg, "dep-local").unwrap_err().kind, ProblemKind::Internal);
    let e = deployment_transition(&mut reg, &mut journal, &session(), "dep-local", false, &meta(None)).unwrap_err();
    assert_eq!(e.kind, ProblemKind::Internal);
}

#[test]
fn an_alias_is_its_words_in_lower_case() {
    assert_eq!(normalize_alias("  ADA \t Lovelace\n"), "ada lovelace");
    assert_eq!(normalize_alias("ada  lovelace"), normalize_alias("ada lovelace"));
    assert_eq!(normalize_alias("ÄÖ"), "äö");
    assert_eq!(normalize_alias(" \n "), "");
    for alias in ["  ADA \t Lovelace\n", "ÄÖ  ÜSS", "a", ""] {
        let once = normalize_alias(alias);
        assert_eq!(normalize_alias(&once), once);
    }
}

fn bind_args(alias: &str, revision: u64) -> AliasBindArgs {
    AliasBindArgs {
        display_alias: alias.to_string(),
        assistant_deployment_id: "dep-1".to_string(),
        deployment_revision: revision,
    }
}

#[test]
fn an_alias_is_held_once() {
    let (mut reg, mut journal) = deployed();
    let ws = workspace();
    alias_bind(&mut reg, &mut journal, &ws, &session(), "proj-1", &bind_args("Ada", 2), &meta(None), "alias-1")
        .unwrap();
    let e = alias_bind(&mut reg, &mut journal, &ws, &session(), "proj-1", &bind_args(" ADA ", 2), &meta(None), "alias-2")
        .unwrap_err();
    assert_eq!(
        e.detail.as_deref(),
        Some("an active binding already holds this normalized alias in the project")
    );
    let e = alias_bind(&mut reg, &mut journal, &ws, &session(), "proj-1", &bind_args(" ", 2), &meta(None), "alias-2")
        .unwrap_err();
    assert_eq!(e.detail.as_deref(), Some("display_alias normalizes to the empty alias"));
    let e = alias_bind(&mut reg, &mut journal, &ws, &session(), "proj-1", &bind_args("Bob", 1), &meta(None), "alias-2")
        .unwrap_err();
    assert_eq!(e.detail.as_deref(), Some("deployment_revision pins a stale deployment"));
    alias_revoke(&mut reg, &mut journal, "proj-1", "alias-1", &meta(Some(1))).unwrap();
    alias_bind(&mut reg, &mut journal, &ws, &session(), "proj-1", &bind_args("ada", 2), &meta(None), "alias-2")
        .unwrap();
}

#[test]
fn a_revoked_alias_stays_revoked() {
    let (mut reg, mut journal) = deployed();
    let ws = workspace();
    alias_bind(&mut reg, &mut journal, &ws, &session(), "proj-1", &bind_args("Ada", 2), &meta(None), "alias-1")
        .unwrap();
    let update = AliasUpdateArgs {
        alias_binding_id: "alias-1".to_string(),
        assistant_deployment_id: "dep-1".to_string(),
        deployment_revision: 2,
    };
    assert_eq!(alias_update(&mut reg, &mut journal, "proj-1", &update, &meta(None)).unwrap(), 2);
    assert!(alias_show(&reg, "proj-2", "alias-1").is_err());
    assert_eq!(alias_revoke(&mut reg, &mut journal, "proj-1", "alias-1", &meta(None)).unwrap(), 3);
    let e = alias_update(&mut reg, &mut journal, "proj-1", &update, &meta(None)).unwrap_err();
    assert_eq!(e.detail.as_deref(), Some("alias binding is revoked"));
    assert!(alias_revoke(&mut reg, &mut journal, "proj-1", "alias-1", &meta(None)).is_err());
    assert_eq!(alias_show(&reg, "proj-1", "alias-1").unwrap().status, AliasStatus::Revoked);
}

// ---------------------------------------------------------- invocations ----

fn create_args() -> InvocationCreateArgs {
    InvocationCreateArgs {
        assistant_deployment_id: "dep-1".to_string(),
        assistant_deployment_revision: 2,
        context_assembly_ref: None,
        context_assembly_digest: None,
        space_id: None,
        branch_id: None,
        priority: None,
        not_before: None,
        deadline: None,
        max_attempts: None,
        disclosure_rules_digest: None,
        budget_reservation_set_ref: None,
    }
}

fn ids(id: &str) -> InvocationIds {
    InvocationIds {
        invocation_id: id.to_string(),
        manifest_id: format!("inman-{}", id),
        dependency_set_ref: "ads-1".to_string(),
    }
}

fn digest(kind: &str, schema: &str, doc: &Json) -> String {
    format!("{} {} {}", kind, schema, render(doc).unwrap())
}

fn written(items: &Vec<ItemRef>) -> Json {
    let list: Vec<String> = items
        .iter()
        .map(|i| format!("{{\"digest\":\"{}\",\"ref\":\"{}\"}}", i.digest, i.object_ref))
        .collect();
    parse(&format!("[{}]", list.join(","))).unwrap()
}

fn created(ctx: &Contexts, args: &InvocationCreateArgs) -> (Invocations, Workspace, Registry, Journal) {
    let (reg, _) = deployed();
    let ws = workspace();
    let mut inv = Invocations::new();
    let mut journal = Journal::new();
    invocation_create(
        &mut inv,
        &mut journal,
        &ws,
        ctx,
        &reg.deployments,
        &session(),
        "proj-1",
        args,
        &meta(None),
        &ids("inv-1"),
        written,
        digest,
    )
    .unwrap();
    (inv, ws, reg, journal)
}

fn claim(inv: &mut Invocations, ws: &mut Workspace, journal: &mut Journal, ctx: &Contexts) -> u64 {
    let args = InvocationClaimArgs { invocation_id: "inv-1".to_string() };
    invocation_claim(inv, ws, journal, ctx, &session(), "asstdep-x", &args, &meta(None), "part-9")
        .unwrap()
        .fence_epoch
}

fn complete_args(fence: u64) -> InvocationCompleteArgs {
    InvocationCompleteArgs {
        invocation_id: "inv-1".to_string(),
        attempt_id: "att-inv-1".to_string(),
        fence_epoch: fence,
        result_ref: Some("res-1".to_string()),
    }
}

#[test]
fn an_invocation_is_created_queued() {
    let (inv, _, _, journal) = created(&Contexts::new(), &create_args());
    let v = &inv.invocations.rows[0];
    assert_eq!(v.state, InvocationState::Queued);
    assert_eq!(v.trigger_ref, "manual-inv-1");
    assert_eq!(
        v.trigger_digest,
        "kovee-manual-trigger schema:invocation-v1 {\"invocation_id\":\"inv-1\"}"
    );
    assert_eq!((v.priority, v.max_attempts), (0, 1));
    assert_eq!(v.not_before, "now");
    assert_eq!(v.effective_security_profile, "developer");
    assert_eq!(inv.manifests.rows[0].input_manifest_id, "inman-inv-1");
    assert_eq!(journal.audits[0].detail, "invocation=inv-1;idem=key-1");
    assert!(invocation_exists(&inv, "inv-1"));
    assert!(!invocation_exists(&inv, "inv-2"));
    assert!(invocation_show(&inv, "proj-1", "inv-1").is_ok());
    assert!(invocation_show(&inv, "proj-2", "inv-1").is_err());
}

#[test]
fn an_invocation_pins_its_deployment() {
    let (reg, _) = deployed();
    let ws = workspace();
    let ctx = Contexts::new();
    let mut inv = Invocations::new();
    let mut journal = Journal::new();
    let mut stale = create_args();
    stale.assistant_deployment_revision = 1;
    let mut unknown = create_args();
    unknown.assistant_deployment_id = "dep-9".to_string();
    let mut space = create_args();
    space.space_id = Some("space-9".to_string());
    let mut assembly = create_args();
    assembly.context_assembly_ref = Some("asm-9".to_string());
    for (args, kind) in [
        (stale, ProblemKind::StaleRevision),
        (unknown, ProblemKind::NotFound),
        (space, ProblemKind::NotFound),
        (assembly, ProblemKind::NotFound),
    ] {
        let e = invocation_create(
            &mut inv,
            &mut journal,
            &ws,
            &ctx,
            &reg.deployments,
            &session(),
            "proj-1",
            &args,
            &meta(None),
            &ids("inv-1"),
            written,
            digest,
        )
        .unwrap_err();
        assert_eq!(e.kind, kind);
    }
    assert!(inv.invocations.rows.is_empty());
}

fn assembled(items: Vec<ItemRef>) -> Contexts {
    let mut ctx = Contexts::new();
    ctx.frontiers.rows.push(Frontier {
        frontier_id: "front-1".to_string(),
        space_id: "space-1".to_string(),
        branch_id: "branch-1".to_string(),
        branch_head_digest: "head".to_string(),
    });
    ctx.assemblies.rows.push(Assembly {
        assembly_id: "asm-1".to_string(),
        project_id: "proj-1".to_string(),
        space_id: "space-1".to_string(),
        digest: "ad".to_string(),
        frontier_ref: "front-1".to_string(),
        frontier_digest: "fd".to_string(),
        items,
    });
    ctx
}

#[test]
fn an_assembly_triggers_what_it_is_bound_to() {
    let mut args = create_args();
    args.context_assembly_ref = Some("asm-1".to_string());
    let ctx = assembled(vec![]);
    let (inv, _, reg, _) = created(&ctx, &args);
    assert_eq!(inv.invocations.rows[0].trigger_ref, "asm-1");
    assert_eq!(inv.invocations.rows[0].trigger_digest, "ad");
    assert_eq!(inv.manifests.rows[0].frontier_ref.as_deref(), Some("front-1"));
    let pinned = assembled(vec![ItemRef { object_ref: "contrib-1".to_string(), digest: "d1".to_string() }]);
    let (with_items, _, _, _) = created(&pinned, &args);
    assert_eq!(with_items.manifests.rows[0].ordered_input_refs[0].digest, "d1");
    let made_of = &with_items.manifests.rows[0].digest;
    assert!(made_of.contains("[{\"digest\":\"d1\",\"ref\":\"contrib-1\"}]"));
    args.context_assembly_digest = Some("other".to_string());
    let mut more = Invocations::new();
    let mut journal = Journal::new();
    let e = invocation_create(
        &mut more,
        &mut journal,
        &workspace(),
        &ctx,
        &reg.deployments,
        &session(),
        "proj-1",
        &args,
        &meta(None),
        &ids("inv-2"),
        written,
        digest,
    )
    .unwrap_err();
    assert_eq!(e.detail.as_deref(), Some("context_assembly_digest does not match the assembly"));
}

#[test]
fn a_claim_starts_and_is_repeatable() {
    let ctx = Contexts::new();
    let (mut inv, mut ws, _, mut journal) = created(&ctx, &create_args());
    assert!(inv.attempts.rows.is_empty());
    assert_eq!(claim(&mut inv, &mut ws, &mut journal, &ctx), 1);
    assert_eq!(inv.invocations.rows[0].state, InvocationState::Running);
    assert_eq!(inv.invocations.rows[0].revision, 2);
    assert_eq!(inv.attempts.rows[0].attempt_id, "att-inv-1");
    assert_eq!(journal.events.last().unwrap().kind, EventKind::InvocationClaimed);
    let events = journal.events.len();
    assert_eq!(claim(&mut inv, &mut ws, &mut journal, &ctx), 1);
    assert_eq!(inv.attempts.rows.len(), 1);
    assert_eq!(inv.invocations.rows[0].revision, 2);
    assert_eq!(journal.events.len(), events);
    assert!(check_binding(&inv, "att-inv-1", 1).is_ok());
    assert_eq!(attempt_invocation_id(&inv, "att-inv-1").unwrap(), "inv-1");
}

#[test]
fn a_claim_hands_out_nothing_that_changed() {
    let mut args = create_args();
    args.context_assembly_ref = Some("asm-1".to_string());
    let ctx = assembled(vec![ItemRef { object_ref: "contrib-1".to_string(), digest: "d".to_string() }]);
    let (mut inv, mut ws, _, mut journal) = created(&ctx, &args);
    let claim_args = InvocationClaimArgs { invocation_id: "inv-1".to_string() };
    let e = invocation_claim(
        &mut inv,
        &mut ws,
        &mut journal,
        &ctx,
        &session(),
        "asstdep-x",
        &claim_args,
        &meta(None),
        "part-9",
    )
    .unwrap_err();
    assert_eq!(e.kind, ProblemKind::Unavailable);
    assert_eq!(inv.invocations.rows[0].state, InvocationState::Queued);
    assert!(inv.attempts.rows.is_empty());
}

#[test]
fn an_attempt_completes_once() {
    let ctx = Contexts::new();
    let (mut inv, mut ws, _, mut journal) = created(&ctx, &create_args());
    claim(&mut inv, &mut ws, &mut journal, &ctx);
    assert!(complete_still_authorized(&inv, &complete_args(1)).is_ok());
    assert_eq!(
        invocation_complete(&mut inv, &mut journal, &session(), "asstdep-x", &complete_args(1), &meta(None)).unwrap(),
        3
    );
    assert_eq!(inv.invocations.rows[0].state, InvocationState::Succeeded);
    assert_eq!(inv.invocations.rows[0].terminal_at.as_deref(), Some("now"));
    assert_eq!(inv.attempts.rows[0].result_ref.as_deref(), Some("res-1"));
    let e = invocation_complete(&mut inv, &mut journal, &session(), "asstdep-x", &complete_args(1), &meta(None))
        .unwrap_err();
    assert_eq!(e.kind, ProblemKind::StaleLease);
    assert_eq!(e.detail.as_deref(), Some("attempt is not running"));
}

#[test]
fn a_succeeded_invocation_is_not_claimed_again() {
    let ctx = Contexts::new();
    let (mut inv, mut ws, _, mut journal) = created(&ctx, &create_args());
    claim(&mut inv, &mut ws, &mut journal, &ctx);
    assert!(claim_still_authorized(&inv, "inv-1").is_ok());
    invocation_complete(&mut inv, &mut journal, &session(), "asstdep-x", &complete_args(1), &meta(None)).unwrap();
    let events = journal.events.len();
    let e = invocation_claim(
        &mut inv,
        &mut ws,
        &mut journal,
        &ctx,
        &session(),
        "asstdep-x",
        &InvocationClaimArgs { invocation_id: "inv-1".to_string() },
        &meta(None),
        "part-9",
    )
    .unwrap_err();
    assert_eq!(e.kind, ProblemKind::StaleLease);
    assert_eq!(e.detail.as_deref(), Some("invocation is terminal"));
    assert_eq!(inv.invocations.rows[0].state, InvocationState::Succeeded);
    assert_eq!((inv.attempts.rows.len(), journal.events.len()), (1, events));
    assert_eq!(claim_still_authorized(&inv, "inv-1").unwrap_err().kind, ProblemKind::StaleLease);
    assert!(complete_still_authorized(&inv, &complete_args(1)).is_err());
}

#[test]
fn a_completed_attempt_emits_nothing_more() {
    let ctx = Contexts::new();
    let (mut inv, mut ws, _, mut journal) = created(&ctx, &create_args());
    claim(&mut inv, &mut ws, &mut journal, &ctx);
    let project = inv.invocations.rows[0].project_id.clone();
    assert!(emit_still_authorized(&inv, &project, "att-inv-1", 1).is_ok());
    let e = emit_still_authorized(&inv, "proj-other", "att-inv-1", 1).unwrap_err();
    assert_eq!(e.kind, ProblemKind::NotFound);
    invocation_complete(&mut inv, &mut journal, &session(), "asstdep-x", &complete_args(1), &meta(None)).unwrap();
    let e = emit_still_authorized(&inv, &project, "att-inv-1", 1).unwrap_err();
    assert_eq!(e.kind, ProblemKind::StaleLease);
}

#[test]
fn an_advanced_fence_locks_the_worker_out() {
    let ctx = Contexts::new();
    let (mut inv, mut ws, _, mut journal) = created(&ctx, &create_args());
    claim(&mut inv, &mut ws, &mut journal, &ctx);
    assert_eq!(advance_attempt_fence(&mut inv, "att-inv-1").unwrap(), 2);
    let e = check_binding(&inv, "att-inv-1", 1).unwrap_err();
    assert_eq!(e.detail.as_deref(), Some("fence epoch is not current"));
    assert!(check_binding(&inv, "att-inv-1", 2).is_ok());
    assert!(advance_attempt_fence(&mut inv, "att-x").is_err());
    assert_eq!(check_binding(&inv, "att-x", 1).unwrap_err().kind, ProblemKind::NotFound);
}

#[test]
fn an_attempt_completes_only_its_own_invocation() {
    let ctx = Contexts::new();
    let (mut inv, mut ws, _, mut journal) = created(&ctx, &create_args());
    claim(&mut inv, &mut ws, &mut journal, &ctx);
    attempt_fixture(&mut inv, "realm-personal", "proj-1", &None, &None, "inv-2", "invatt-2", "now").unwrap();
    let mut args = complete_args(1);
    args.attempt_id = "invatt-2".to_string();
    let e = invocation_complete(&mut inv, &mut journal, &session(), "a", &args, &meta(None)).unwrap_err();
    assert_eq!(e.detail.as_deref(), Some("attempt does not bind this invocation"));
}

fn cancel_args() -> InvocationCancelArgs {
    InvocationCancelArgs {
        invocation_id: "inv-1".to_string(),
        cancellation_scope: None,
        reason: None,
        attempt_id: None,
        fence_epoch: None,
    }
}

#[test]
fn a_cancel_fences_the_attempt() {
    let ctx = Contexts::new();
    let (mut inv, mut ws, _, mut journal) = created(&ctx, &create_args());
    claim(&mut inv, &mut ws, &mut journal, &ctx);
    assert_eq!(
        invocation_cancel(&mut inv, &mut journal, &session(), "proj-1", &cancel_args(), &meta(None)).unwrap(),
        3
    );
    assert_eq!(inv.attempts.rows[0].state, AttemptState::Canceled);
    assert_eq!(check_binding(&inv, "att-inv-1", 1).unwrap_err().kind, ProblemKind::StaleLease);
    assert_eq!(
        journal.audits.last().unwrap().detail,
        "invocation=inv-1;scope=default;idem=key-1"
    );
    assert!(claim_still_authorized(&inv, "inv-1").is_err());
}

#[test]
fn one_terminal_state_wins() {
    let ctx = Contexts::new();
    let (mut inv, mut ws, _, mut journal) = created(&ctx, &create_args());
    claim(&mut inv, &mut ws, &mut journal, &ctx);
    invocation_complete(&mut inv, &mut journal, &session(), "a", &complete_args(1), &meta(None)).unwrap();
    let e = invocation_cancel(&mut inv, &mut journal, &session(), "proj-1", &cancel_args(), &meta(None)).unwrap_err();
    assert_eq!(e.detail.as_deref(), Some("invocation is already terminal (succeeded)"));
    assert_eq!(inv.invocations.rows[0].state, InvocationState::Succeeded);
    let e = invocation_cancel(&mut inv, &mut journal, &session(), "proj-2", &cancel_args(), &meta(None)).unwrap_err();
    assert_eq!(e.kind, ProblemKind::NotFound);
}

#[test]
fn a_worker_has_no_child_to_cancel() {
    let mut inv = Invocations::new();
    attempt_fixture(&mut inv, "realm-personal", "proj-1", &None, &None, "inv-1", "invatt-1", "now").unwrap();
    let mut args = cancel_args();
    assert_eq!(worker_invocation_cancel(&inv, &args).unwrap_err().kind, ProblemKind::ForbiddenSurface);
    args.attempt_id = Some("invatt-1".to_string());
    args.fence_epoch = Some(2);
    assert_eq!(worker_invocation_cancel(&inv, &args).unwrap_err().kind, ProblemKind::StaleLease);
    args.fence_epoch = Some(1);
    assert_eq!(worker_invocation_cancel(&inv, &args).unwrap_err().kind, ProblemKind::NotFound);
}

#[test]
fn a_worker_emits_into_its_own_project() {
    let mut inv = Invocations::new();
    let mut journal = Journal::new();
    let space = Some("space-1".to_string());
    attempt_fixture(&mut inv, "realm-personal", "proj-1", &space, &None, "inv-1", "invatt-1", "now").unwrap();
    let mut args = ApplicationEventEmitArgs {
        attempt_id: "invatt-1".to_string(),
        fence_epoch: 1,
        event_type: "dev.kovee.fake".to_string(),
        payload: parse("{\"n\":1}").unwrap(),
    };
    let emit = |journal: &mut Journal, inv: &Invocations, project: &str, args: &ApplicationEventEmitArgs| {
        application_event_emit(inv, journal, project, args, "dev.kovee.", "asstdep-x", "evt-1", &meta(None))
    };
    let e = emit(&mut journal, &inv, "proj-1", &args).unwrap_err();
    assert_eq!(e.kind, ProblemKind::Forbidden);
    assert!(journal.events.is_empty());
    args.event_type = "com.example.done".to_string();
    assert_eq!(emit(&mut journal, &inv, "proj-2", &args).unwrap_err().kind, ProblemKind::NotFound);
    assert_eq!(emit(&mut journal, &inv, "proj-1", &args).unwrap(), "space-1");
    assert_eq!(journal.events[0].named.as_deref(), Some("com.example.done"));
    assert_eq!(render(journal.events[0].payload.as_ref().unwrap()).unwrap(), "{\"n\":1}");
    assert_eq!(
        journal.audits[0].detail,
        "event=evt-1;invocation=inv-1;attempt=invatt-1;type=com.example.done;idem=key-1"
    );
    args.attempt_id = "invatt-9".to_string();
    assert_eq!(emit(&mut journal, &inv, "proj-1", &args).unwrap_err().kind, ProblemKind::NotFound);
}

#[test]
fn a_worker_key_is_scoped_by_its_invocation() {
    assert_eq!(deployment_actor_ref("dep-1"), "asstdep-dep-1");
    let scope = worker_scope(
        "worker",
        "inv-1",
        "realm-personal",
        "invocation_complete",
        &Some(meta(None)),
        Some("d".to_string()),
    )
    .unwrap();
    assert_eq!(scope.actor_scope, "worker/inv-1/realm-personal");
    assert!(worker_scope("worker", "inv-1", "r", "op", &None, None).is_err());
}
