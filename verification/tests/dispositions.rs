use koveed::disposition_ops::{
    contribution_redact, contribution_supersede, contribution_withdraw, recompute_branch_head,
    relation_retract, BranchEntry, ContributionDispositionArgs, ContributionSupersedeArgs,
    DispositionKind, Dispositions, Relation, RelationRetractArgs,
};
use koveed::handlers::{
    contribution_append, project_create, space_create, ContributionAppendArgs, ProjectCreateArgs,
    SpaceCreateArgs, SpaceMint,
};
use koveed::invoke::{attempt_fixture, Assembly, Contexts, Invocations, ItemRef};
use koveed::journal::{EventKind, Journal};
use koveed::json::{parse, render, Json};
use koveed::problem::ProblemKind;
use koveed::records::{ContentState, Meta, Part, Session, SpaceStatus, Workspace};
use koveed::redaction::{
    plaintext_needles, redact_projections, rewrite_json, scrub_retention_graph, sweep_literals,
    sweep_text, Retained,
};

fn session() -> Session {
    Session {
        realm_id: "realm-personal".to_string(),
        owner_actor_ref: "prin-owner".to_string(),
        now_ts: "now".to_string(),
    }
}

fn meta() -> Meta {
    Meta {
        request_id: "req-1".to_string(),
        idempotency_key: "key-1".to_string(),
        expected_revision: None,
        causation_event_ref: None,
    }
}

fn strings(list: &[&str]) -> Vec<String> {
    list.iter().map(|s| s.to_string()).collect()
}

fn text(t: &str) -> Part {
    Part::Text { media_type: "text/plain".to_string(), text: t.to_string(), language: None }
}

fn filled(secret: Option<Vec<u8>>) -> (Workspace, Journal) {
    let mut ws = Workspace::new();
    let mut journal = Journal::new();
    let project = ProjectCreateArgs {
        name: "Work".to_string(),
        default_classification_ref: None,
        policy_set_ref: None,
    };
    project_create(&mut ws, &mut journal, &session(), &project, &meta(), "proj-1").unwrap();
    let space = SpaceCreateArgs {
        title: "Ideas".to_string(),
        purpose_contribution_ref: None,
        visibility: "project".to_string(),
        default_classification_ref: None,
        policy_set_ref: None,
    };
    let mint = SpaceMint {
        space_id: "space-1".to_string(),
        main_branch_id: "branch-1".to_string(),
        participant_id: "part-1".to_string(),
    };
    space_create(&mut ws, &mut journal, &session(), "proj-1", &space, &meta(), &mint, genesis).unwrap();
    for (n, head) in [(1, "g"), (2, "h1")] {
        let args = ContributionAppendArgs {
            space_id: "space-1".to_string(),
            branch_id: "branch-1".to_string(),
            expected_head_digest: head.to_string(),
            kind: "note".to_string(),
            schema_ref: None,
            body_parts: vec![
                text("the secret plan"),
                Part::Artifact { artifact_ref: format!("art-{}", n) },
            ],
            subject_refs: vec![],
            source_refs: vec![],
            epistemic_posture: None,
            classification_ref: None,
            retention_policy_ref: None,
            attempt_id: None,
            fence_epoch: None,
        };
        contribution_append(
            &mut ws,
            &mut journal,
            &session(),
            "proj-1",
            args,
            &meta(),
            &format!("contrib-{}", n),
            written,
            |_: &str, _: &Json| format!("{}", n).repeat(64),
            |_: &str| vec![7],
            |_: &str, _: u64, _: &str| format!("h{}", n),
        )
        .unwrap();
    }
    for c in ws.contributions.rows.iter_mut() {
        c.object_secret = secret.clone();
    }
    (ws, journal)
}

fn genesis(branch: &str) -> String {
    assert_eq!(branch, "branch-1");
    "g".to_string()
}

fn written(parts: &Vec<Part>) -> Json {
    let list: Vec<String> = parts
        .iter()
        .map(|p| match p {
            Part::Text { text, .. } => format!("{{\"text\":\"{}\"}}", text),
            Part::Artifact { artifact_ref } => format!("{{\"artifact\":\"{}\"}}", artifact_ref),
            Part::Data { value, .. } => render(value).unwrap(),
        })
        .collect();
    parse(&format!("[{}]", list.join(","))).unwrap()
}

fn args(c: &str) -> ContributionDispositionArgs {
    ContributionDispositionArgs { contribution_ref: c.to_string(), reason_class: "author".to_string() }
}

#[test]
fn a_contribution_is_withdrawn_once() {
    let (mut ws, mut journal) = filled(None);
    let mut disp = Dispositions::new();
    let r = contribution_withdraw(&mut disp, &mut ws, &mut journal, &session(), "proj-1", &args("contrib-1"), &meta(), "d-1");
    assert_eq!(r.unwrap(), 4);
    assert_eq!(disp.dispositions.rows[0].kind, DispositionKind::Withdraw);
    assert_eq!(ws.contributions.rows.len(), 2);
    assert_eq!(ws.contributions.rows[0].content_state, ContentState::Live);
    assert_eq!(
        journal.audits.last().unwrap().detail,
        "disposition=d-1;contribution=contrib-1;idem=key-1"
    );
    let e = contribution_withdraw(&mut disp, &mut ws, &mut journal, &session(), "proj-1", &args("contrib-1"), &meta(), "d-2")
        .unwrap_err();
    assert_eq!(e.kind, ProblemKind::Invalid);
    assert_eq!(e.detail.as_deref(), Some("contribution is already withdrawn"));
    let e = contribution_withdraw(&mut disp, &mut ws, &mut journal, &session(), "proj-2", &args("contrib-1"), &meta(), "d-2")
        .unwrap_err();
    assert_eq!(e.kind, ProblemKind::NotFound);
}

#[test]
fn a_replacement_is_another_of_the_same_space() {
    let (mut ws, mut journal) = filled(None);
    let mut disp = Dispositions::new();
    let supersede = |disp: &mut Dispositions, ws: &mut Workspace, journal: &mut Journal, by: &str, id: &str| {
        let args = ContributionSupersedeArgs {
            contribution_ref: "contrib-1".to_string(),
            replacement_ref: by.to_string(),
            reason_class: "better".to_string(),
        };
        contribution_supersede(disp, ws, journal, &session(), "proj-1", &args, &meta(), id)
    };
    let e = supersede(&mut disp, &mut ws, &mut journal, "contrib-1", "d-1").unwrap_err();
    assert_eq!(e.detail.as_deref(), Some("a contribution cannot supersede itself"));
    let e = supersede(&mut disp, &mut ws, &mut journal, "contrib-9", "d-1").unwrap_err();
    assert_eq!(e.kind, ProblemKind::NotFound);
    assert_eq!(supersede(&mut disp, &mut ws, &mut journal, "contrib-2", "d-1").unwrap(), 4);
    assert_eq!(disp.dispositions.rows[0].replacement_ref.as_deref(), Some("contrib-2"));
    let e = supersede(&mut disp, &mut ws, &mut journal, "contrib-2", "d-2").unwrap_err();
    assert_eq!(e.detail.as_deref(), Some("contribution is already superseded"));
}

#[test]
fn a_closed_space_keeps_its_dispositions() {
    let (mut ws, mut journal) = filled(None);
    let mut disp = Dispositions::new();
    ws.spaces.rows[0].status = SpaceStatus::Frozen;
    let e = contribution_withdraw(&mut disp, &mut ws, &mut journal, &session(), "proj-1", &args("contrib-1"), &meta(), "d-1")
        .unwrap_err();
    assert_eq!(e.title, "space is not open for dispositions");
    assert_eq!(e.detail.as_deref(), Some("space status is frozen"));
}

#[test]
fn a_relation_is_retracted_once() {
    let (mut ws, mut journal) = filled(None);
    let mut disp = Dispositions::new();
    disp.relations.rows.push(Relation {
        relation_id: "rel-1".to_string(),
        space_id: "space-1".to_string(),
        from_ref: pin("contrib-1", "11"),
        to_ref: pin("contrib-2", "22"),
        classification_ref: "class-r".to_string(),
    });
    let retract = |disp: &mut Dispositions, ws: &mut Workspace, journal: &mut Journal, rel: &str, id: &str| {
        let args = RelationRetractArgs { relation_ref: rel.to_string(), reason_class: "wrong".to_string() };
        relation_retract(disp, ws, journal, &session(), "proj-1", &args, &meta(), id)
    };
    assert_eq!(retract(&mut disp, &mut ws, &mut journal, "rel-9", "d").unwrap_err().kind, ProblemKind::NotFound);
    assert_eq!(retract(&mut disp, &mut ws, &mut journal, "rel-1", "d").unwrap(), 4);
    assert_eq!(journal.events.last().unwrap().kind, EventKind::RelationRetracted);
    assert_eq!(journal.events.last().unwrap().classification_ref.as_deref(), Some("class-r"));
    let e = retract(&mut disp, &mut ws, &mut journal, "rel-1", "d2").unwrap_err();
    assert_eq!(e.detail.as_deref(), Some("relation is already retracted"));
    ws.spaces.rows[0].status = SpaceStatus::Archived;
    let e = retract(&mut disp, &mut ws, &mut journal, "rel-1", "d2").unwrap_err();
    assert_eq!(e.title, "space is not open for dispositions");
    assert!(e.detail.is_none());
}

// ------------------------------------------------------------ redaction ----

#[test]
fn needles_are_long_and_sorted() {
    let parts = vec![
        text("abc"),
        text("plan"),
        Part::Data { value: parse("{\"k\": [\"zebra\", \"ox\"], \"n\": 1}").unwrap(), schema_ref: None },
        text("plan"),
        text("äö"),
        Part::Artifact { artifact_ref: "art-long-name".to_string() },
    ];
    let needles = plaintext_needles(&parts, "old-digest", false);
    assert_eq!(
        needles,
        strings(&["{\"k\":[\"zebra\",\"ox\"],\"n\":1}", "zebra", "plan", "äö"])
    );
    let more = plaintext_needles(&parts, "old-digest", true);
    assert!(more.contains(&"old-digest".to_string()));
}

#[test]
fn a_sweep_leaves_no_needle() {
    let needles = strings(&["the secret plan", "plan"]);
    assert_eq!(
        sweep_text("x the secret plan, a plan", &needles, "dd"),
        "x [redacted], a [redacted]"
    );
    let digest = "0123456789abcdef".repeat(4);
    let other = "f".repeat(64);
    let swept = sweep_text(&format!("ref {}", digest), &vec![digest.clone()], &other);
    assert_eq!(swept, format!("ref {}", other));
    let upper = digest.to_uppercase();
    assert_eq!(sweep_text(&upper, &vec![upper.clone()], &other), "[redacted]");
    assert_eq!(sweep_text("nothing", &needles, "dd"), "nothing");
}

#[test]
fn a_needle_of_the_marker_survives_in_the_marker() {
    let needles = strings(&["acte"]);
    assert_eq!(sweep_text("xactex", &needles, "dd"), "x[redacted]x");
    assert!(sweep_text("xactex", &needles, "dd").contains("acte"));
}

#[test]
fn only_projections_are_redacted() {
    let mut doc = parse(
        "{\"items\":[{\"contribution_id\":\"c1\",\"body_parts\":[1],\"content_digest\":\"old\",\"x\":2},\
         {\"contribution_id\":\"c2\",\"body_parts\":[1]}],\"contribution\":{\"contribution_id\":\"c1\"}}",
    )
    .unwrap();
    let parts = parse("[{\"text\":\"\"}]").unwrap();
    redact_projections(&mut doc, "c1", &parts, "new");
    let once = render(&doc).unwrap();
    assert_eq!(
        once,
        "{\"contribution\":{\"contribution_id\":\"c1\"},\"items\":[{\"body_parts\":[{\"text\":\"\"}],\
         \"content_digest\":\"new\",\"contribution_id\":\"c1\",\"x\":2},\
         {\"body_parts\":[1],\"contribution_id\":\"c2\"}]}"
    );
    redact_projections(&mut doc, "c1", &parts, "new");
    assert_eq!(render(&doc).unwrap(), once);
}

#[test]
fn a_document_that_mentions_nothing_stays() {
    let parts = parse("[]").unwrap();
    let needles = strings(&["secret"]);
    assert_eq!(rewrite_json("{ \"a\": 1 }", "c1", &parts, "d", &needles).unwrap(), None);
    assert_eq!(
        rewrite_json("not json: secret", "c1", &parts, "d", &needles).unwrap().as_deref(),
        Some("not json: [redacted]")
    );
    assert_eq!(
        rewrite_json("{ \"note\": \"secret\" }", "c1", &parts, "d", &needles).unwrap().as_deref(),
        Some("{\"note\":\"[redacted]\"}")
    );
    assert_eq!(rewrite_json("{\"id\":\"c1\"}", "c1", &parts, "d", &needles).unwrap(), None);
}

#[test]
fn an_event_has_to_stay_json() {
    let parts = parse("[]").unwrap();
    let needles = strings(&["\"note\":"]);
    let event = Retained {
        events: strings(&["{\"note\":1}"]),
        results: vec![],
        literals: vec![],
        audits: vec![],
    };
    let e = scrub_retention_graph(&event, "c1", &parts, "d", &needles).unwrap_err();
    assert_eq!(e.kind, ProblemKind::Internal);
    let result = Retained {
        events: vec![],
        results: strings(&["{\"note\":1}"]),
        literals: strings(&["a \"note\": b", "c"]),
        audits: strings(&["d"]),
    };
    let out = scrub_retention_graph(&result, "c1", &parts, "d", &needles).unwrap();
    assert_eq!(out.results, vec![Some("{[redacted]1}".to_string())]);
    assert_eq!(out.literals, vec![Some("a [redacted] b".to_string()), None]);
    assert_eq!(out.audits, vec![None]);
    assert_eq!(sweep_literals(&strings(&["x"]), &vec![], "d"), vec![None]);
}

fn entries() -> Vec<BranchEntry> {
    [(2u64, "22"), (1u64, "11")]
        .iter()
        .map(|(n, d)| BranchEntry {
            branch_id: "branch-1".to_string(),
            branch_sequence: *n,
            object_digest: d.to_string(),
        })
        .collect()
}

#[test]
fn a_head_is_chained_in_branch_order() {
    let head = recompute_branch_head(&entries(), "branch-1", "g", |h: &str, n: u64, d: &str| {
        format!("{}/{}:{}", h, n, d)
    });
    assert_eq!(head, "g/1:11/2:22");
    let none = recompute_branch_head(&entries(), "branch-2", "g", |h: &str, n: u64, d: &str| {
        format!("{}/{}:{}", h, n, d)
    });
    assert_eq!(none, "g");
}

fn pin(object: &str, digest: &str) -> ItemRef {
    ItemRef { object_ref: object.to_string(), digest: digest.to_string() }
}

fn retained() -> Retained {
    Retained {
        events: strings(&["{\"contribution_id\":\"contrib-1\",\"body_parts\":[\"the secret plan\"]}"]),
        results: strings(&[
            "{\"x\":\"the secret plan\"}",
            "{\"result\":{\"contribution_id\":\"contrib-1\",\"body_parts\":[\"the secret plan\"]}}",
        ]),
        literals: strings(&["pins nothing"]),
        audits: strings(&["said the secret plan"]),
    }
}

#[test]
fn a_keyed_redaction_keeps_the_address() {
    let (mut ws, mut journal) = filled(Some(vec![9]));
    ws.spaces.rows[0].status = SpaceStatus::Frozen;
    let mut disp = Dispositions::new();
    let mut ctx = Contexts::new();
    let mut inv = Invocations::new();
    let mut branch = entries();
    let out = contribution_redact(
        &mut disp,
        &mut ws,
        &mut ctx,
        &mut inv,
        &mut branch,
        &mut journal,
        &session(),
        "proj-1",
        &args("contrib-1"),
        &meta(),
        "d-1",
        written,
        |_: &str, _: &Json| panic!("the content is keyed"),
        |_: &str| panic!("the content is keyed"),
        genesis,
        |h: &str, n: u64, d: &str| format!("{}/{}:{}", h, n, &d[..2]),
        &retained(),
    )
    .unwrap();
    let c = &ws.contributions.rows[0];
    assert_eq!(c.content_state, ContentState::Redacted);
    assert!(c.object_secret.is_none());
    assert_eq!(c.content_digest, "1".repeat(64));
    match &c.body_parts[0] {
        Part::Text { media_type, text, .. } => {
            assert_eq!(media_type, "application/x.kovee.redacted");
            assert!(text.is_empty());
        }
        _ => panic!("a placeholder was meant"),
    }
    assert_eq!(out.artifacts, strings(&["art-1"]));
    assert_eq!(out.digest_key_ref, "kovee-contribution-object:contrib-1");
    assert_eq!(out.needles, strings(&["the secret plan"]));
    assert_eq!(
        out.scrubbed.events[0].as_deref(),
        Some("{\"body_parts\":[{\"text\":\"\"}],\"contribution_id\":\"contrib-1\"}")
    );
    assert_eq!(out.scrubbed.results[0].as_deref(), Some("{\"x\":\"[redacted]\"}"));
    assert_eq!(
        out.scrubbed.results[1].as_deref(),
        Some("{\"result\":{\"body_parts\":[{\"text\":\"\"}],\"contribution_id\":\"contrib-1\"}}")
    );
    assert_eq!(out.scrubbed.audits[0].as_deref(), Some("said [redacted]"));
    assert_eq!(ws.spaces.rows[0].head_digest, "g/1:11/2:22");
    assert_eq!(disp.dispositions.rows[0].payload_removed_at.as_deref(), Some("now"));
    assert_eq!(journal.audits.last().unwrap().event, "command.contribution_redacted");
    let e = contribution_redact(
        &mut disp,
        &mut ws,
        &mut ctx,
        &mut inv,
        &mut branch,
        &mut journal,
        &session(),
        "proj-1",
        &args("contrib-1"),
        &meta(),
        "d-2",
        written,
        |_: &str, _: &Json| panic!("the content is keyed"),
        |_: &str| panic!("the content is keyed"),
        genesis,
        |h: &str, _: u64, _: &str| h.to_string(),
        &retained(),
    )
    .unwrap_err();
    assert_eq!(e.detail.as_deref(), Some("contribution is already redacted"));
}

#[test]
fn an_unkeyed_redaction_moves_the_digest() {
    let (mut ws, mut journal) = filled(None);
    let mut disp = Dispositions::new();
    let mut ctx = Contexts::new();
    let mut inv = Invocations::new();
    let mut branch = entries();
    let fresh = "e".repeat(64);
    let stale = "1".repeat(64);
    disp.relations.rows.push(Relation {
        relation_id: "rel-1".to_string(),
        space_id: "space-1".to_string(),
        from_ref: pin("contrib-1", &stale),
        to_ref: pin("contrib-2", "22"),
        classification_ref: "class-r".to_string(),
    });
    ctx.assemblies.rows.push(Assembly {
        assembly_id: "asm-1".to_string(),
        project_id: "proj-1".to_string(),
        space_id: "space-1".to_string(),
        digest: "ad".to_string(),
        frontier_ref: "front-1".to_string(),
        frontier_digest: "fd".to_string(),
        items: vec![pin("contrib-1", &stale), pin("contrib-2", "22")],
    });
    attempt_fixture(&mut inv, "realm", "proj-1", &None, &None, "inv-1", "invatt-1", "then").unwrap();
    inv.invocations.rows[0].input_digest = stale.clone();
    let mut kept = retained();
    kept.literals = vec![format!("pins {}", "1".repeat(64))];
    let out = contribution_redact(
        &mut disp,
        &mut ws,
        &mut ctx,
        &mut inv,
        &mut branch,
        &mut journal,
        &session(),
        "proj-1",
        &args("contrib-1"),
        &meta(),
        "d-1",
        written,
        |tag: &str, doc: &Json| {
            assert_eq!(tag, "kovee-contribution-content");
            assert!(render(doc).unwrap().contains(
                "\"body_parts\":[{\"text\":\"the secret plan\"},{\"artifact\":\"art-1\"}]"
            ));
            fresh.clone()
        },
        |key_ref: &str| {
            assert_eq!(key_ref, "kovee-contribution-object:contrib-1");
            vec![1]
        },
        genesis,
        |h: &str, n: u64, d: &str| format!("{}/{}:{}", h, n, &d[..2]),
        &kept,
    )
    .unwrap();
    assert_eq!(out.content_digest, fresh);
    assert_eq!(out.needles[0], "1".repeat(64));
    assert_eq!(out.scrubbed.literals[0], Some(format!("pins {}", fresh)));
    assert_eq!(branch[1].object_digest, fresh);
    assert_eq!(branch[0].object_digest, "22");
    assert_eq!(disp.relations.rows[0].from_ref.digest, fresh);
    assert_eq!(disp.relations.rows[0].to_ref.digest, "22");
    let pinned = &ctx.assemblies.rows[0].items;
    assert_eq!((pinned[0].digest.as_str(), pinned[1].digest.as_str()), (fresh.as_str(), "22"));
    assert_eq!(inv.invocations.rows[0].input_digest, fresh);
    assert_eq!(ws.spaces.rows[0].head_digest, "g/1:ee/2:22");
    assert_eq!(out.revision, 4);
}
