use koveed::artifact_ops::{
    artifact_show, artifact_upload_abort, artifact_upload_begin, artifact_upload_credential,
    artifact_upload_finalize, artifact_upload_show,
    Artifact, FinalizeError, Upload,
};
use koveed::dispatch::{
    check_unbound, dispatch_external, dispatch_inner, dispatch_line, dispatch_worker,
    finalize_hooks, hooks, read_line_limited, route_of, worker_author, AbortSpec, Checks,
    Envelope, OpSpec, Route, Surface, WorkerRoute,
};
use koveed::handlers::{realm_show, CommandError, CommandScope, Realm};
use koveed::invoke::{attempt_fixture, Invocations};
use koveed::problem::{Problem, ProblemKind};
use koveed::records::{Meta, Session};
use koveed::table::Table;

fn fine() -> Checks {
    Checks { shape: Ok(()), placement: Ok(()), args: Ok(()) }
}

fn op(name: &str, mutation: bool) -> Option<OpSpec> {
    Some(OpSpec { name: name.to_string(), mutation, pre_auth: name == "hello" })
}

fn personal() -> Option<String> {
    Some("realm-personal".to_string())
}

#[test]
fn every_operation_has_its_route() {
    assert_eq!(route_of("hello", false), Some(Route::Hello));
    assert_eq!(route_of("space_create", true), Some(Route::SpaceCreate));
    assert_eq!(route_of("space_create", false), None);
    assert_eq!(route_of("space_show", true), Some(Route::SpaceShow));
    assert_eq!(route_of("byom_episode_binding_show", false), Some(Route::ByomEpisodeBindingShow));
    assert_eq!(route_of("model_complete", true), None);
}

#[test]
fn the_external_surface_lets_in_what_it_knows() {
    assert_eq!(
        dispatch_external(op("project_create", true), fine(), &personal()).unwrap(),
        Route::ProjectCreate
    );
    assert_eq!(dispatch_external(op("hello", false), fine(), &None).unwrap(), Route::Hello);
    let e = dispatch_external(None, fine(), &personal()).unwrap_err();
    assert_eq!(e.kind, ProblemKind::UnknownOp);
    assert_eq!(e.title, "operation absent at the negotiated version");
    let e = dispatch_external(op("application_event_emit", true), fine(), &personal()).unwrap_err();
    assert_eq!(e.kind, ProblemKind::UnknownOp);
    let e = dispatch_external(op("invocation_claim", true), fine(), &personal()).unwrap_err();
    assert_eq!(e.kind, ProblemKind::UnknownOp);
}

#[test]
fn checks_come_in_their_order() {
    let bad = |t: &str| Err(Problem::new(ProblemKind::Invalid, t));
    let all = Checks { shape: bad("shape"), placement: bad("placement"), args: bad("args") };
    assert_eq!(dispatch_external(op("space_show", false), all, &None).unwrap_err().title, "shape");
    let two = Checks { shape: Ok(()), placement: bad("placement"), args: bad("args") };
    assert_eq!(dispatch_external(op("space_show", false), two, &None).unwrap_err().title, "placement");
    let one = Checks { shape: Ok(()), placement: Ok(()), args: bad("args") };
    assert_eq!(dispatch_external(op("space_show", false), one, &None).unwrap_err().title, "args");
    let other = Some("realm-other".to_string());
    let e = dispatch_external(op("space_show", false), fine(), &other).unwrap_err();
    assert_eq!(e.kind, ProblemKind::NotFound);
}

#[test]
fn a_client_presents_no_binding() {
    let attempt = Some("invatt-1".to_string());
    let e = check_unbound(Route::ContributionAppend, &attempt, None).unwrap_err();
    assert_eq!(e.kind, ProblemKind::ForbiddenSurface);
    assert!(check_unbound(Route::InvocationCancel, &None, Some(1)).is_err());
    assert!(check_unbound(Route::ContributionAppend, &None, None).is_ok());
    assert!(check_unbound(Route::SpaceShow, &attempt, None).is_ok());
    assert_ne!(Surface::External, Surface::Worker);
}

#[test]
fn the_worker_surface_lets_in_what_is_a_workers() {
    let mut inv = Invocations::new();
    attempt_fixture(&mut inv, "realm-personal", "proj-1", &None, &None, "inv-1", "invatt-1", "now").unwrap();
    let worker = |op: &str, checks: Checks, realm: &Option<String>, id: &str| {
        dispatch_worker(op, checks, realm, &inv, id)
    };
    assert_eq!(worker("hello", fine(), &None, "").unwrap(), WorkerRoute::Hello);
    assert_eq!(
        worker("invocation_claim", fine(), &personal(), "inv-1").unwrap(),
        WorkerRoute::InvocationClaim
    );
    assert_eq!(
        worker("invocation_claim", fine(), &personal(), "inv-2").unwrap_err().kind,
        ProblemKind::NotFound
    );
    assert_eq!(
        worker("model_complete", fine(), &None, "").unwrap_err().kind,
        ProblemKind::NotFound
    );
    assert_eq!(
        worker("project_create", fine(), &personal(), "").unwrap_err().kind,
        ProblemKind::UnknownOp
    );
    let placed = Checks {
        shape: Ok(()),
        placement: Err(Problem::new(ProblemKind::Invalid, "placement")),
        args: Ok(()),
    };
    assert!(worker("invocation_complete", placed, &personal(), "inv-1").is_ok());
    let placed = Checks {
        shape: Ok(()),
        placement: Err(Problem::new(ProblemKind::Invalid, "placement")),
        args: Ok(()),
    };
    assert_eq!(
        worker("relation_assert", placed, &personal(), "").unwrap_err().title,
        "placement"
    );
}

#[test]
fn a_worker_writes_as_its_deployment() {
    let mut inv = Invocations::new();
    let bundle = Some("asm-1".to_string());
    attempt_fixture(&mut inv, "realm-personal", "proj-1", &None, &bundle, "inv-1", "invatt-1", "now").unwrap();
    let author = worker_author(&inv, "dep-1", &Some("invatt-1".to_string()), Some(4)).unwrap();
    assert_eq!(author.actor_ref, "asstdep-dep-1");
    assert_eq!(author.invocation_ref.as_deref(), Some("inv-1"));
    assert_eq!(author.context_assembly_ref.as_deref(), Some("asm-1"));
    let binding = author.binding.unwrap();
    assert_eq!((binding.attempt_id.as_str(), binding.fence_epoch), ("invatt-1", 4));
    let e = worker_author(&inv, "dep-1", &Some("invatt-1".to_string()), None).unwrap_err();
    assert_eq!(e.kind, ProblemKind::ForbiddenSurface);
    let e = worker_author(&inv, "dep-1", &Some("invatt-9".to_string()), Some(1)).unwrap_err();
    assert_eq!(e.kind, ProblemKind::NotFound);
}

#[test]
fn a_line_is_judged_before_what_it_asks() {
    let speaks = |v: &str| Envelope::Speaks(v.to_string());
    assert!(dispatch_inner(10, 10, speaks("0.1"), "0.1").is_ok());
    let e = dispatch_inner(11, 10, speaks("0.1"), "0.1").unwrap_err();
    assert_eq!(e.title, "request exceeds the §11.8 256 KiB cap");
    let e = dispatch_inner(1, 10, Envelope::NotJson("at 0".to_string()), "0.1").unwrap_err();
    assert_eq!(e.title, "not strict I-JSON");
    assert_eq!(e.detail.as_deref(), Some("at 0"));
    let inner = Envelope::NotCommand(Problem::new(ProblemKind::Invalid, "no op"));
    assert_eq!(dispatch_inner(1, 10, inner, "0.1").unwrap_err().title, "no op");
    let e = dispatch_inner(1, 10, speaks("0.2"), "0.1").unwrap_err();
    assert_eq!(e.kind, ProblemKind::UnsupportedVersion);
}

#[test]
fn a_reply_over_the_cap_is_not_sent() {
    assert_eq!(dispatch_line(Ok(vec![1, 2]), 2).unwrap(), vec![1, 2]);
    let e = dispatch_line(Ok(vec![1, 2, 3]), 2).unwrap_err();
    assert_eq!(e.kind, ProblemKind::Internal);
    assert_eq!(e.title, "reply exceeds the §11.8 cap");
    let e = dispatch_line(Err(Problem::new(ProblemKind::Invalid, "x")), 2).unwrap_err();
    assert_eq!(e.title, "x");
}

#[test]
fn one_newline_ends_a_line() {
    assert_eq!(read_line_limited("{}\n"), "{}");
    assert_eq!(read_line_limited("{}\n\n"), "{}\n");
    assert_eq!(read_line_limited("{}"), "{}");
    assert_eq!(read_line_limited(""), "");
}

#[test]
fn an_abort_names_one_point_of_one_operation() {
    let a = AbortSpec::from_env(Some("before_commit:space_create")).unwrap();
    assert_eq!((a.phase.as_str(), a.op.as_str()), ("before_commit", "space_create"));
    assert!(a.hooks_for("space_create").abort_before_commit);
    assert!(!a.hooks_for("space_create").abort_after_commit);
    assert!(!a.hooks_for("space_show").abort_before_commit);
    assert_eq!(AbortSpec::from_env(None), None);
    assert_eq!(AbortSpec::from_env(Some("before_commit")), None);
    let b = AbortSpec::from_env(Some("after_seal:a:b")).unwrap();
    assert_eq!(b.op, "a:b");
    assert!(b.finalize_hooks_for("a:b").abort_after_seal);
    assert!(!b.finalize_hooks_for("a:b").abort_after_sealing_txn);
    assert!(!hooks(&None, "x").abort_after_commit);
    assert!(finalize_hooks(&Some(b), "a:b").abort_after_seal);
}

#[test]
fn bytes_are_taken_before_the_seal() {
    let mut uploads: Table<Upload> = Table::new();
    for (id, state) in [("up-1", "prepared"), ("up-2", "uploading"), ("up-3", "sealed")] {
        uploads.rows.push(Upload {
            upload_id: id.to_string(),
            state: state.to_string(),
            revision: 2,
            max_bytes: 100,
        });
    }
    for id in ["up-1", "up-2"] {
        let c = artifact_upload_credential(&uploads, id, Ok(()), "/staging/x", "prin-owner", "later").unwrap();
        assert_eq!(c.kind, "local-staging-file");
        assert_eq!(c.write_mode, "truncate-then-write");
        assert_eq!((c.path.as_str(), c.max_bytes), ("/staging/x", 100));
    }
    let e = artifact_upload_credential(&uploads, "up-3", Ok(()), "p", "a", "l").unwrap_err();
    assert_eq!(e.detail.as_deref(), Some("upload state is sealed"));
    let e = artifact_upload_credential(&uploads, "up-9", Ok(()), "p", "a", "l").unwrap_err();
    assert_eq!(e.kind, ProblemKind::NotFound);
    let e = artifact_upload_credential(&uploads, "up-1", Err("io".to_string()), "p", "a", "l").unwrap_err();
    assert_eq!(e.kind, ProblemKind::Internal);
    assert_eq!(artifact_upload_show(&uploads, "up-1").unwrap().revision, 2);
    assert!(artifact_upload_show(&uploads, "up-9").is_err());
}

#[test]
fn a_seal_answers_its_bytes_or_its_refusal() {
    let session = Session {
        realm_id: "realm-personal".to_string(),
        owner_actor_ref: "prin-owner".to_string(),
        now_ts: "now".to_string(),
    };
    let meta = Some(Meta {
        request_id: "req-1".to_string(),
        idempotency_key: "key-1".to_string(),
        expected_revision: None,
        causation_event_ref: None,
    });
    let digest = || Some("rd".to_string());
    let finalize = |out| artifact_upload_finalize(&session, &meta, digest(), |_: &CommandScope, _: &str| out);
    assert_eq!(finalize(Ok(vec![7])).unwrap(), vec![7]);
    let refused = CommandError::Refused(Problem::new(ProblemKind::Invalid, "size"));
    assert_eq!(finalize(Err(FinalizeError::Command(refused))).unwrap_err().title, "size");
    assert_eq!(
        finalize(Err(FinalizeError::SimulatedCrash)).unwrap_err().kind,
        ProblemKind::Internal
    );
    let begun = artifact_upload_begin(&session, &meta, digest(), |scope: &CommandScope, id: &str| {
        assert_eq!(scope.actor_scope, "external_client/prin-owner/realm-personal");
        assert_eq!(scope.operation, "artifact_upload_begin");
        assert_eq!((scope.idempotency_key.as_str(), scope.request_digest.as_str()), ("key-1", "rd"));
        assert_eq!(id, "req-1");
        Ok(vec![1])
    });
    assert_eq!(begun.unwrap(), vec![1]);
    let aborted = artifact_upload_abort(&session, &meta, digest(), |_: &CommandScope, _: &str| {
        Err(CommandError::Store("disk".to_string()))
    });
    assert_eq!(aborted.unwrap_err().kind, ProblemKind::Internal);
    let e = artifact_upload_abort(&session, &None, digest(), |_: &CommandScope, _: &str| {
        panic!("nothing is asked")
    });
    assert_eq!(e.unwrap_err().kind, ProblemKind::Internal);
    let mut artifacts: Table<Artifact> = Table::new();
    artifacts.rows.push(Artifact { artifact_id: "art-1".to_string(), revision: 1 });
    assert_eq!(artifact_show(&artifacts, "art-1").unwrap().revision, 1);
    assert!(artifact_show(&artifacts, "art-2").is_err());
}

#[test]
fn only_a_recorded_realm_is_shown() {
    let mut realms: Table<Realm> = Table::new();
    realms.rows.push(Realm { realm_id: "realm-personal".to_string(), revision: 4 });
    assert_eq!(realm_show(&realms, "realm-personal").unwrap().revision, 4);
    assert_eq!(realm_show(&realms, "realm-other").unwrap_err().kind, ProblemKind::NotFound);
}
