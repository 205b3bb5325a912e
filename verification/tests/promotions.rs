use koveed::credentials::{consume, Consumed, Credential, Ledger};
use koveed::digests::Keyed;
use koveed::documents::{
    command_subject, domain_subject, form_request, intent_subject, link_subject,
    result_query_request, slot_subject, terminalize_request, FreshCredential,
};
use koveed::formation::{
    all_intents, apply_fact, classify_failure, fact_answered, submit, command_key, current_pin, endeavor_promotion_cancel,
    endeavor_promotion_prepare, endeavor_promotion_reconcile, endeavor_promotion_sent,
    endeavor_promotion_show,
    endeavor_promotion_start, start_promotion, endeavor_promotion_terminalized, fact_name, promotion_view, query_fact,
    reconcile_fact, recovery_token_required, recovery_workload_token, sponsors_of, terminalize, terminalize_begin,
    terminalize_gate, AttemptMint, AttemptState, BindingPin, CredentialAsk, Crossing, Fact,
    Fresh, Minted, PortableTag, Formation, IntentState, PrepareArgs, PrepareMint, ResultEnvelope, SendError,
    SendFailure, Stamp, StartAction, Step, Via,
};
use koveed::governance::{
    enable_create, enable_finish, Asked, DependencySet, EnableArgs, EnableIds, EnableSubject,
    Governance, OwnerBinding, RealmBinding, Seals, SocietyAsked, SocietyMapping, SocietyView, Verdict,
};
use koveed::invoke::{Assembly, Contexts, Frontier};
use koveed::journal::{EventKind, Journal};
use koveed::json::{parse, render, Json};
use koveed::problem::{Problem, ProblemKind};

fn keyed(tag: &str, doc: &Json) -> Keyed {
    let c = match tag {
        "kovee-idempotency-domain-v1" => "d",
        "kovee-external-link-v1" => "e",
        _ => "f",
    };
    Keyed { text: format!("{{\"{}\":{}}}", tag, render(doc).unwrap()), hex: c.repeat(64) }
}

fn canonical(doc: &Json) -> String {
    format!("{{\"members\":{}}}", render(doc).unwrap().matches(':').count())
}

fn governed() -> Governance {
    let mut gov = Governance::new();
    let mut journal = Journal::new();
    let args = EnableArgs {
        society_ref: "soc-1".to_string(),
        byom_endpoint_ref: "local".to_string(),
        exact_scope_selector: "project:a".to_string(),
        allowed_project_and_space_selectors: vec!["project:a".to_string()],
        classification_binding_ref: "cb".to_string(),
        expected_binding_ref: None,
        expected_owner_revision: 0,
        confirmed_subject_digest: None,
    };
    let ids = EnableIds {
        enablement_id: "en-1".to_string(),
        binding_ref: "bind-1".to_string(),
        mapping_id: "map-1".to_string(),
    };
    let society =
        || SocietyView { state: "active".to_string(), active: true, recovery_epoch: 3 };
    let seals = Seals {
        keyed,
        dependencies: |_: &DependencySet| "dep".to_string(),
        binding: |b: &RealmBinding| format!("bd{}", b.binding_revision),
        owner: |o: &OwnerBinding| format!("od{}", o.revision),
        mapping: |m: &SocietyMapping| format!("md{}", m.revision),
    };
    enable_create(
        &mut gov,
        &mut journal,
        "realm-personal",
        &args,
        &vec![None, None],
        "project:a",
        "scope-a",
        &|_: &EnableSubject| "subject".to_string(),
        Ok("inc-1".to_string()),
        SocietyAsked::Shown(society()),
        Some(1),
        &|_: &str, _: &str| Verdict::Disjoint,
        &ids,
        seals,
    )
    .unwrap();
    enable_finish(
        &mut gov,
        &mut journal,
        "realm-personal",
        "scope-a",
        Asked::Answer("inc-1".to_string()),
        Asked::Answer(society()),
        &None,
        &|_: &str, _: &str| Verdict::Disjoint,
        seals,
    )
    .unwrap();
    gov
}

fn json(text: &str) -> Json {
    parse(text).unwrap()
}

fn prepare_args() -> PrepareArgs {
    PrepareArgs {
        society_ref: "soc-1".to_string(),
        byom_endpoint_ref: "local".to_string(),
        client_formation_key: "ck-1".to_string(),
        frontier_ref: "fr-1".to_string(),
        collaboration_context_bundle_ref: "ccb-1".to_string(),
        endeavor_proposal_ref: "ep-1".to_string(),
        endeavor_proposal: json(
            "{\"governance_rule_set_ref\":\"grs-1\",\"sponsor_participant_refs\":[\"p1\",2,\"p2\"]}",
        ),
        source_principal_position: json("{\"position\":\"for\"}"),
        bound_participant_ref: "part-1".to_string(),
        participant_binding_epoch: 1,
    }
}

fn pin() -> BindingPin {
    BindingPin {
        binding_ref: "bind-1".to_string(),
        binding_revision: 2,
        binding_epoch: 1,
        digest: "bd2".to_string(),
    }
}

fn prepare_mint(n: u64) -> PrepareMint {
    PrepareMint {
        formation_id: format!("kef-{}", n),
        slot_id: format!("slot-{}", n),
        dependency_set_ref: "ads".to_string(),
        created_at: format!("t{}", n),
    }
}

fn contexts() -> Contexts {
    let mut ctx = Contexts::new();
    for (id, branch) in [("fr-2", "br-2"), ("fr-1", "br-1")] {
        ctx.frontiers.rows.push(Frontier {
            frontier_id: id.to_string(),
            space_id: "sp-1".to_string(),
            branch_id: branch.to_string(),
            branch_head_digest: "head-1".to_string(),
        });
    }
    for (id, at) in [("ccb-2", "fr-2"), ("ccb-1", "fr-1")] {
        ctx.assemblies.rows.push(Assembly {
            assembly_id: id.to_string(),
            project_id: format!("prj of {}", id),
            space_id: "sp-1".to_string(),
            digest: format!("asd of {}", id),
            frontier_ref: at.to_string(),
            frontier_digest: "fd".to_string(),
            items: vec![],
        });
    }
    ctx
}

fn recorded(a: &Assembly) -> Json {
    json(&format!("{{\"digest\":\"{}\"}}", a.digest))
}

fn portable(tag: PortableTag, doc: &Json) -> String {
    format!("{{\"{:?}\":{}}}", tag, render(doc).unwrap())
}

fn snapshot(society: &str, epoch: u64, rule: &str, proposal: &str, sponsors: &Vec<String>) -> Json {
    assert!(proposal.starts_with("{\"Proposal\":{\"governance_rule_set_ref\""));
    json(&format!("\"{} {} {} {}\"", society, epoch, rule, sponsors.join("+")))
}

fn actor(_: &str, principal: &str, participant: &str, epoch: u64) -> String {
    format!("\"{}/{}/{}\"", principal, participant, epoch)
}

fn pin_binding(b: &RealmBinding) -> BindingPin {
    BindingPin {
        binding_ref: b.binding_ref.clone(),
        binding_revision: b.binding_revision,
        binding_epoch: b.binding_epoch,
        digest: b.digest.clone(),
    }
}

fn credential_of(nonce: &str, operation: &str) -> Credential {
    Credential {
        credential_id: format!("dpc-{}", nonce),
        issuer_ref: "iss".to_string(),
        nonce: nonce.to_string(),
        allowed_operations: vec![operation.to_string()],
        record: String::new(),
        digest_hex: String::new(),
        issued_at: 0,
        expires_at: 900,
    }
}

fn credential(n: u64) -> Credential {
    credential_of(&format!("nonce-{}", n), "kovee_endeavor_form")
}

fn issue(ask: &CredentialAsk, _: &RealmBinding) -> Result<Minted, String> {
    assert_eq!(
        ask.channel_digest,
        "{\"kovee-channel-exporter-v1\":{\"channel\":\"kovee-owner-uds\",\
\"realm_ref\":\"realm-personal\"}}"
    );
    assert_eq!((ask.assurance_level.as_str(), ask.lifetime_seconds), ("personal-uds-owner", 120));
    assert_eq!((ask.society_ref.as_str(), ask.society_recovery_epoch), ("soc-1", 3));
    Ok(Minted {
        credential: credential_of(&ask.nonce, &ask.allowed_operation),
        actor_binding_digest: actor(
            "",
            &ask.source_principal_ref,
            &ask.bound_participant_ref,
            ask.participant_binding_epoch,
        ),
        observation_digest: format!("seen {}", ask.authentication_observation_ref),
    })
}

fn prove(command: &str, _: &str, nonce: &str, pin: &str, _: &str) -> Json {
    assert!(command.starts_with("{\"members\":"));
    json(&format!("\"{} under {}\"", nonce, pin))
}

fn attempt_mint(n: u64) -> AttemptMint {
    AttemptMint {
        attempt_id: format!("kefa-{}", n),
        nonce: format!("nonce-{}", n),
        prepared_at: "now".to_string(),
        issued_at: 5,
    }
}

fn stamp(n: u64) -> Stamp<fn(&str, &Json) -> Keyed> {
    Stamp { at: format!("at-{}", n), keyed }
}

fn envelope() -> ResultEnvelope {
    ResultEnvelope {
        endeavor_ref: Some("endeavor-1".to_string()),
        endeavor_revision: None,
        endeavor_digest: None,
        digest: "envd".to_string(),
        source_cursor: Some("cur".to_string()),
        text: "{}".to_string(),
    }
}

struct World {
    form: Formation,
    ledger: Ledger,
    journal: Journal,
    gov: Governance,
}

impl World {
    fn prepared() -> World {
        let mut w = World {
            form: Formation::new(),
            ledger: Ledger::new(),
            journal: Journal::new(),
            gov: governed(),
        };
        let at = w.prepare(&prepare_args(), 1).unwrap();
        assert_eq!(at, 0);
        w
    }

    fn prepare(&mut self, args: &PrepareArgs, n: u64) -> Result<usize, Problem> {
        endeavor_promotion_prepare(
            &mut self.form,
            &mut self.journal,
            &self.gov,
            &contexts(),
            "realm-personal",
            "principal-1",
            args,
            recorded,
            &prepare_mint(n),
            keyed,
            Crossing { portable, snapshot, actor, pin: pin_binding, canonical },
        )
    }

    fn start(&mut self, observation: &str, n: u64) -> Result<StartAction, Problem> {
        start_promotion(
            &mut self.form,
            &mut self.ledger,
            &mut self.journal,
            &self.gov,
            "realm-personal",
            "kef-1",
            observation,
            "held",
            &attempt_mint(n),
            Fresh { pin: pin_binding, issue, prove },
            &stamp(n),
        )
    }

    fn sent(
        &mut self,
        sent: Result<Option<ResultEnvelope>, SendFailure>,
        row: Option<Step>,
    ) -> Result<StartAction, Problem> {
        endeavor_promotion_sent(
            &mut self.form,
            &mut self.ledger,
            &mut self.journal,
            "realm-personal",
            "kef-1",
            sent,
            "iss",
            |state: IntentState, fact: &Fact| {
                assert_eq!(state, IntentState::Submitting);
                assert!(matches!(fact, Fact::Committed(_)));
                row
            },
            7,
            "held",
            &stamp(20),
        )
    }

    fn state(&self) -> IntentState {
        self.form.intents.rows[0].state
    }

    fn cancel(&mut self) -> Result<u64, Problem> {
        endeavor_promotion_cancel(
            &mut self.form,
            &mut self.journal,
            "realm-personal",
            "kef-1",
            &Some("changed my mind".to_string()),
            &stamp(9),
        )
    }
}

fn last_payload(w: &World) -> String {
    render(w.journal.events.last().unwrap().payload.as_ref().unwrap()).unwrap()
}

fn committed() -> Option<Step> {
    Some(Step {
        to: IntentState::ByomCommitted,
        via: Via::KoveeEndeavorForm,
        releases_slot: false,
        slot_state: "held".to_string(),
    })
}

#[test]
fn a_pair_is_prepared_once_per_key() {
    let mut w = World::prepared();
    assert_eq!(w.state(), IntentState::Prepared);
    assert_eq!(w.prepare(&prepare_args(), 2).unwrap(), 0);
    assert_eq!(w.form.intents.rows.len(), 1);
    let t = &w.form.intents.rows[0];
    assert_eq!(t.command.byom_command_idempotency_key, format!("kef-{}", "d".repeat(32)));
    assert_eq!(t.command.expected_governance_rule_set_ref, "grs-1");
    assert_eq!(t.command.source_actor_binding_digest, "\"principal-1/part-1/1\"");
    assert_eq!(t.command.binding.digest, "bd2");
    assert_eq!(
        t.command.context_bundle_digest,
        "{\"Proposal\":{\"context_bundle_ref\":\"ccb-1\",\"digest\":\"asd of ccb-1\"}}"
    );
    assert_eq!(
        t.command.source_principal_position_digest,
        "{\"Position\":{\"position\":\"for\"}}"
    );
    assert_eq!(
        t.command.expected_slot_snapshot_digest,
        "{\"SlotSnapshot\":\"soc-1 3 grs-1 p1+p2\"}"
    );
    assert_eq!(sponsors_of(&t.command.endeavor_proposal), vec!["p1".to_string(), "p2".to_string()]);
    assert_eq!(
        t.frontier_digest,
        "{\"kovee-formation-frontier-v1\":{\"branch_head_digest\":\"head-1\",\
\"branch_id\":\"br-1\",\"frontier_ref\":\"fr-1\"}}"
    );
    assert_eq!(
        t.canonical_byom_command_digest,
        canonical(&command_subject(&t.command))
    );
    assert_eq!(
        t.digest,
        keyed(
            "kovee-endeavor-formation-intent-v1",
            &intent_subject("kef-1", 1, IntentState::Prepared, &t.canonical_byom_command_digest, 1)
        )
        .text
    );
    assert_eq!((t.project_id.as_str(), t.space_id.as_str(), t.branch_id.as_str()), ("prj of ccb-1", "sp-1", "br-1"));
    assert_eq!(w.form.slots.rows[0].state, "held");
    assert_eq!(command_key(&"a".repeat(40)), format!("kef-{}", "a".repeat(32)));
}

#[test]
fn what_does_not_match_is_not_prepared() {
    let mut w = World::prepared();
    let mut args = prepare_args();
    args.society_ref = "soc-2".to_string();
    let e = w.prepare(&args, 2).unwrap_err();
    assert_eq!(
        e.detail.as_deref(),
        Some("the mapping covers \"soc-1\"; a formation names exactly the mapped Society")
    );
    let mut args = prepare_args();
    args.byom_endpoint_ref = "remote".to_string();
    assert_eq!(w.prepare(&args, 2).unwrap_err().detail.as_deref(), Some("the binding names \"local\""));
    let mut args = prepare_args();
    args.client_formation_key = "ck-2".to_string();
    args.frontier_ref = "fr-2".to_string();
    let e = w.prepare(&args, 2).unwrap_err();
    assert_eq!(e.title, "the context bundle was assembled at another frontier");
    assert!(e.detail.unwrap().starts_with("the bundle pins \"fr-1\";"));
    args.frontier_ref = "fr-9".to_string();
    assert_eq!(w.prepare(&args, 2).unwrap_err().kind, ProblemKind::NotFound);
    let mut args = prepare_args();
    args.client_formation_key = "ck-2".to_string();
    args.collaboration_context_bundle_ref = "ccb-9".to_string();
    assert_eq!(w.prepare(&args, 2).unwrap_err().kind, ProblemKind::NotFound);
    let mut args = prepare_args();
    args.client_formation_key = "ck-2".to_string();
    args.endeavor_proposal = json("{}");
    assert_eq!(w.prepare(&args, 2).unwrap_err().title, "invalid operation arguments");
    w.gov = Governance::new();
    let e = w.prepare(&prepare_args(), 2).unwrap_err();
    assert_eq!(e.title, "this realm has no active governed-work binding");
    assert_eq!(w.form.intents.rows.len(), 1);
}

#[test]
fn a_canceled_pair_stays_canceled() {
    let mut w = World::prepared();
    assert_eq!(w.cancel().unwrap(), 2);
    assert_eq!(w.cancel().unwrap(), 2);
    assert_eq!(w.form.slots.rows[0].state, "released");
    assert_eq!(w.form.slots.rows[0].released_at.as_deref(), Some("at-9"));
    assert_eq!(
        last_payload(&w),
        "{\"formation_id\":\"kef-1\",\"reason\":\"changed my mind\",\
\"slot_state\":\"released\",\"state\":\"canceled\",\"via\":\"formation_cancel\"}"
    );
    let e = w.start("obs-1", 1).unwrap_err();
    assert_eq!(e.title, "this formation is terminal");
    assert!(w.form.attempts.rows.is_empty());
}

#[test]
fn a_committed_result_is_linked_and_never_sent_again() {
    let mut w = World::prepared();
    match w.start("obs-1", 1).unwrap() {
        StartAction::Submit { attempt_id } => assert_eq!(attempt_id, "kefa-1"),
        _ => panic!("a send was due"),
    }
    assert_eq!(w.state(), IntentState::Submitting);
    assert_eq!(
        last_payload(&w),
        "{\"attempt_id\":\"kefa-1\",\"attempt_ordinal\":1,\"formation_id\":\"kef-1\",\
\"slot_state\":\"held\",\"state\":\"submitting\",\"via\":\"kovee_endeavor_form\"}"
    );
    let e = w.cancel().unwrap_err();
    assert_eq!(e.kind, ProblemKind::Forbidden);
    match w.sent(Ok(Some(envelope())), committed()).unwrap() {
        StartAction::Linked(revision) => assert_eq!(revision, 5),
        _ => panic!("a link was due"),
    }
    assert_eq!(w.state(), IntentState::Linked);
    let link = &w.form.links.rows[0];
    assert_eq!(link.link_ref, format!("xlink-{}", "e".repeat(24)));
    assert_eq!((link.endeavor_ref.as_str(), link.endeavor_revision), ("endeavor-1", 1));
    assert_eq!((link.endeavor_digest.as_str(), link.source_cursor.as_str()), ("null", "cur"));
    assert_eq!(w.form.slots.rows[0].state, "released");
    assert!(matches!(w.start("obs-2", 2), Ok(StartAction::Report(5))));
    assert_eq!(w.form.attempts.rows.len(), 1);
    assert_eq!(w.form.attempts.rows[0].state, AttemptState::ReplyReceived);
    assert_eq!(w.form.attempts.rows[0].reply_digest.as_deref(), Some("envd"));
    assert_eq!(
        w.form.attempts.rows[0].authentication_proof_digest,
        "{\"kovee-attempt-proof-v1\":{\"proof\":\"nonce-1 under bd2\"}}"
    );
    assert!(w.form.attempts.rows[0]
        .digest
        .starts_with("{\"kovee-endeavor-formation-attempt-v1\":{\"attempt_id\":\"kefa-1\""));
    let again = consume(&mut w.ledger, &credential(1), "kovee_endeavor_form", 8, || {
        panic!("the credential is spent")
    })
    .unwrap();
    assert!(matches!(again, Consumed::Replayed(b) if b == b"{}".to_vec()));
    let kinds: Vec<EventKind> = w.journal.events.iter().map(|e| e.kind).collect();
    assert_eq!(
        kinds,
        vec![
            EventKind::FormationPrepared,
            EventKind::FormationSubmitting,
            EventKind::FormationByomCommitted,
            EventKind::FormationLinking,
            EventKind::FormationLinked,
        ]
    );
}

#[test]
fn silence_leaves_the_outcome_open() {
    let mut w = World::prepared();
    w.start("obs-1", 1).unwrap();
    let silent = SendFailure::Unknown(Problem::new(ProblemKind::Unavailable, "no answer"));
    assert_eq!(w.sent(Err(silent), None).unwrap_err().title, "no answer");
    assert_eq!(w.state(), IntentState::RemoteUnknown);
    assert_eq!(w.form.attempts.rows[0].state, AttemptState::TransportUnknown);
    let e = w.start("obs-2", 2).unwrap_err();
    assert_eq!(e.title, "no send is admissible from this state");
    assert!(e.detail.unwrap().starts_with("the intent is \"remote_unknown\";"));
    assert_eq!(w.form.slots.rows[0].released_at, None);
}

#[test]
fn a_tombstone_ends_the_pair() {
    let mut w = World::prepared();
    w.start("obs-1", 1).unwrap();
    let failure = classify_failure(SendError::Problem {
        tombstone_ref: Some("tomb-1".to_string()),
        tombstone_digest: "{\"d\":1}".to_string(),
        passed_on: Problem::new(ProblemKind::Forbidden, "x"),
    });
    let e = w.sent(Err(failure), None).unwrap_err();
    assert_eq!(e.title, "the computed formation needs another Participant's Position");
    assert_eq!(w.state(), IntentState::Canceled);
    assert_eq!(w.form.attempts.rows[0].reply_digest.as_deref(), Some("{\"d\":1}"));
    assert_eq!(
        last_payload(&w),
        "{\"formation_id\":\"kef-1\",\"reason_kind\":\"formation_requires_participation\",\
\"slot_state\":\"released\",\"state\":\"canceled\",\"tombstone_digest\":{\"d\":1},\
\"tombstone_ref\":\"tomb-1\",\"via\":\"tombstone_verified\"}"
    );
    assert_eq!(w.form.slots.rows[0].state, "released");
}

#[test]
fn a_refusal_is_ambiguous() {
    let mut w = World::prepared();
    w.start("obs-1", 1).unwrap();
    let failure = classify_failure(SendError::Definite(Problem::new(ProblemKind::Forbidden, "refused")));
    assert_eq!(w.sent(Err(failure), None).unwrap_err().title, "refused");
    assert_eq!(w.state(), IntentState::Ambiguous);
    assert!(matches!(
        classify_failure(SendError::Silent(Problem::new(ProblemKind::Unavailable, "x"))),
        SendFailure::Unknown(_)
    ));
    assert!(matches!(
        classify_failure(SendError::Problem {
            tombstone_ref: None,
            tombstone_digest: "null".to_string(),
            passed_on: Problem::new(ProblemKind::Forbidden, "x"),
        }),
        SendFailure::Refused(_)
    ));
}

fn awaiting() -> Option<Step> {
    Some(Step {
        to: IntentState::AwaitingPrincipal,
        via: Via::Resolved("absent".to_string()),
        releases_slot: false,
        slot_state: "held".to_string(),
    })
}

#[test]
fn a_resubmission_needs_a_fresh_authentication() {
    let mut w = World::prepared();
    w.start("obs-1", 1).unwrap();
    let silent = SendFailure::Unknown(Problem::new(ProblemKind::Unavailable, "no answer"));
    w.sent(Err(silent), None).unwrap_err();
    let due = apply_fact(
        &mut w.form,
        &mut w.journal,
        "realm-personal",
        "kef-1",
        &awaiting(),
        Fact::Absent,
        &stamp(3),
    )
    .unwrap();
    assert!(!due);
    assert_eq!(w.state(), IntentState::AwaitingPrincipal);
    assert_eq!(w.form.attempts.rows[0].state, AttemptState::Reconciled);
    let e = w.start("obs-1", 2).unwrap_err();
    assert_eq!(e.title, "resubmission requires a freshly authenticated principal");
    w.start("obs-2", 2).unwrap();
    assert_eq!(w.form.attempts.rows[1].attempt_ordinal, 2);
    assert_eq!(promotion_view(&w.form, "realm-personal", "kef-1").unwrap().attempts, vec![0, 1]);
}

#[test]
fn a_moved_binding_submits_nothing() {
    let mut w = World::prepared();
    let e = start_promotion(
        &mut w.form,
        &mut w.ledger,
        &mut w.journal,
        &w.gov,
        "realm-personal",
        "kef-1",
        "obs-1",
        "held",
        &attempt_mint(1),
        Fresh {
            pin: |b: &RealmBinding| BindingPin {
                binding_ref: "bind-2".to_string(),
                ..pin_binding(b)
            },
            issue: |_: &CredentialAsk, _: &RealmBinding| -> Result<Minted, String> {
                panic!("no credential is asked for")
            },
            prove,
        },
        &stamp(1),
    )
    .unwrap_err();
    assert_eq!(e.title, "the pinned binding, incarnation, or recovery epoch moved");
    let e = start_promotion(
        &mut w.form,
        &mut w.ledger,
        &mut w.journal,
        &w.gov,
        "realm-personal",
        "kef-1",
        "obs-1",
        "held",
        &attempt_mint(1),
        Fresh {
            pin: pin_binding,
            issue: |a: &CredentialAsk, b: &RealmBinding| {
                Ok(Minted { actor_binding_digest: "other".to_string(), ..issue(a, b)? })
            },
            prove,
        },
        &stamp(1),
    )
    .unwrap_err();
    assert_eq!(e.title, "the credential's actor binding is not the intent's");
    assert_eq!(w.state(), IntentState::Prepared);
    assert!(w.ledger.rows.is_empty());
}

#[test]
fn reconciling_links_a_committed_result() {
    let mut w = World::prepared();
    w.start("obs-1", 1).unwrap();
    let silent = SendFailure::Unknown(Problem::new(ProblemKind::Unavailable, "no answer"));
    w.sent(Err(silent), None).unwrap_err();
    let reconcile = |w: &mut World, row: Option<Step>, fact: Fact| {
        reconcile_fact(
            &mut w.form,
            &mut w.journal,
            "realm-personal",
            "kef-1",
            |state: IntentState, _: &Fact| {
                assert_eq!(state, IntentState::RemoteUnknown);
                row
            },
            fact,
            "held",
            &stamp(4),
        )
    };
    reconcile(&mut w, None, Fact::Unknown).unwrap();
    assert_eq!(w.state(), IntentState::RemoteUnknown);
    reconcile(&mut w, committed(), Fact::Committed(envelope())).unwrap();
    assert_eq!(w.state(), IntentState::Linked);
    let n = w.journal.events.len();
    reconcile(&mut w, committed(), Fact::Committed(envelope())).unwrap();
    assert_eq!(w.journal.events.len(), n);
    let shown = promotion_view(&w.form, "realm-personal", "kef-1").unwrap();
    assert_eq!((shown.intent, shown.link, shown.slot_state.as_str()), (0, Some(0), "released"));
    assert!(promotion_view(&w.form, "realm-other", "kef-1").is_err());
}

#[test]
fn denying_needs_an_open_outcome_and_a_principal() {
    let obs = Some("obs-1".to_string());
    let t = terminalize_gate(IntentState::Ambiguous, &obs, &None).unwrap();
    assert_eq!(t.reason, "the principal denies future execution of this formation");
    assert_eq!(t.observation, "obs-1");
    let e = terminalize_gate(IntentState::Ambiguous, &None, &None).unwrap_err();
    assert_eq!(e.title, "terminalization requires a freshly authenticated principal");
    let e = terminalize_gate(IntentState::Linked, &obs, &None).unwrap_err();
    assert!(e.detail.unwrap().starts_with("the intent is \"linked\":"));
}

#[test]
fn a_recovery_answer_is_a_fact_or_a_problem() {
    let p = || Problem::new(ProblemKind::Unavailable, "x");
    let w = World::prepared();
    let t = &w.form.intents.rows[0];
    let version = json("1");
    let query = |token: Option<&str>, answer| {
        let token = token.map(|s| s.to_string());
        query_fact(&version, t, &pin(), "inc-9", token, |given: &str, asked: &Json| {
            assert_eq!(given, "tok");
            assert!(render(asked).unwrap().contains("\"current_endpoint_incarnation\":\"inc-9\""));
            answer
        })
    };
    assert!(matches!(query(Some("tok"), Asked::Silent(p())), Ok(Fact::Unknown)));
    assert!(matches!(query(Some("tok"), Asked::Answer(Ok(Fact::Absent))), Ok(Fact::Absent)));
    assert_eq!(query(Some("tok"), Asked::Refused("gone".to_string(), p())).unwrap_err().title, "x");
    let e = query(Some("tok"), Asked::Answer(Err("odd".to_string()))).unwrap_err();
    assert_eq!(e.title, "the byom endpoint answered with an unusable recovery fact");
    let e = query(None, Asked::Silent(p())).unwrap_err();
    assert_eq!(e.title, "no byom recovery-workload token is available");
    let fresh = FreshCredential {
        nonce: "nonce-9".to_string(),
        source_actor_binding_digest: "{}".to_string(),
        authentication_observation_ref: "obs-9".to_string(),
        authentication_observation_digest: "{}".to_string(),
    };
    let e = terminalize(&version, t, &pin(), &fresh, "stop", prove, |asked: &Json| {
        let body = render(asked).unwrap();
        assert!(body.contains("\"authentication_proof\":\"nonce-9 under bd2\""));
        Asked::Answer(Err("odd".to_string()))
    })
    .unwrap_err();
    assert_eq!(e.title, "the byom endpoint answered with an unusable terminalization");
    assert!(matches!(fact_answered(Asked::Silent(p()), "t"), Ok(Fact::Unknown)));
    assert_eq!(fact_name(&Fact::Committed(envelope())), "committed");
    assert_eq!(fact_name(&Fact::Tombstone), "non_reexecuting_tombstone");
    assert_eq!(fact_name(&Fact::NotTerminalizable { reason: String::new() }), "not_terminalizable");
}

#[test]
fn the_recovery_token_is_the_first_that_is_not_blank() {
    let some = |s: &str| Some(s.to_string());
    assert_eq!(recovery_workload_token(&some(" a \n"), &some("b")), some("a"));
    assert_eq!(recovery_workload_token(&some("  "), &some("b\n")), some("b"));
    assert_eq!(recovery_workload_token(&None, &some(" ")), None);
}

#[test]
fn intents_are_listed_by_creation() {
    let mut w = World::prepared();
    let mut args = prepare_args();
    args.client_formation_key = "ck-0".to_string();
    w.prepare(&args, 0).unwrap();
    assert_eq!(all_intents(&w.form, "realm-personal"), vec![1, 0]);
    assert!(all_intents(&w.form, "realm-other").is_empty());
    let shown = endeavor_promotion_show(&w.form, "realm-personal", &None).unwrap();
    let listed: Vec<usize> = shown.iter().map(|v| v.intent).collect();
    assert_eq!(listed, vec![1, 0]);
    let one = endeavor_promotion_show(&w.form, "realm-personal", &Some("kef-1".to_string())).unwrap();
    assert_eq!((one.len(), one[0].intent, one[0].slot_state.as_str()), (1, 0, "held"));
    assert!(endeavor_promotion_show(&w.form, "realm-other", &Some("kef-1".to_string())).is_err());
}

#[test]
fn an_open_outcome_is_denied_by_a_principal() {
    let mut w = World::prepared();
    w.start("obs-1", 1).unwrap();
    let silent = SendFailure::Unknown(Problem::new(ProblemKind::Unavailable, "no answer"));
    w.sent(Err(silent), None).unwrap_err();
    let begin = |w: &mut World, observation: &Option<String>, n: u64, fails: Option<&str>| {
        terminalize_begin(
            &w.form,
            &mut w.ledger,
            &w.gov,
            "realm-personal",
            "kef-1",
            observation,
            &Some("stop".to_string()),
            &format!("nonce-{}", n),
            6,
            keyed,
            |ask: &CredentialAsk, b: &RealmBinding| {
                assert_eq!(ask.allowed_operation, "external_command_terminalize");
                assert_eq!((ask.issued_at, ask.source_principal_ref.as_str()), (6, "principal-1"));
                match fails {
                    Some(e) => Err(e.to_string()),
                    None => issue(ask, b),
                }
            },
        )
    };
    let obs = Some("obs-2".to_string());
    assert!(begin(&mut w, &None, 9, None).is_err());
    let e = begin(&mut w, &obs, 9, Some("expired")).unwrap_err();
    assert_eq!(e.detail.as_deref(), Some("expired"));
    let e = begin(&mut w, &obs, 1, None).unwrap_err();
    assert_eq!(e.kind, ProblemKind::IdempotencyMismatch);
    let ready = begin(&mut w, &obs, 9, None).unwrap();
    assert_eq!((ready.observation.as_str(), ready.reason.as_str()), ("obs-2", "stop"));
    assert_eq!(w.ledger.rows.len(), 2);
    let step = Some(Step {
        to: IntentState::Canceled,
        via: Via::TombstoneVerified,
        releases_slot: true,
        slot_state: "released".to_string(),
    });
    endeavor_promotion_terminalized(
        &mut w.form,
        &mut w.journal,
        "realm-personal",
        "kef-1",
        |_: IntentState, fact: &Fact| {
            assert!(matches!(fact, Fact::Tombstone));
            step
        },
        Fact::Tombstone,
        "held",
        &stamp(5),
    )
    .unwrap();
    assert_eq!(w.state(), IntentState::Canceled);
    assert_eq!(
        last_payload(&w),
        "{\"fact\":\"non_reexecuting_tombstone\",\"formation_id\":\"kef-1\",\
\"slot_state\":\"released\",\"state\":\"canceled\",\"via\":\"tombstone_verified\"}"
    );
    assert!(begin(&mut w, &obs, 10, None).is_err());
}

#[test]
fn asking_needs_a_token_and_a_binding() {
    assert_eq!(recovery_token_required(Some("t".to_string())).unwrap(), "t");
    let e = recovery_token_required(None).unwrap_err();
    assert_eq!(e.title, "no byom recovery-workload token is available");
    assert_eq!(current_pin(&governed(), "realm-personal").unwrap().binding_ref, "bind-1");
    let none = Governance::new();
    let e = current_pin(&none, "realm-personal").unwrap_err();
    assert_eq!(
        e.detail.as_deref(),
        Some("reconciliation authenticates through the CURRENT recovery binding")
    );
}

#[test]
fn what_is_digested_of_a_formation() {
    let text = |j: Json| render(&j).unwrap();
    assert_eq!(
        text(domain_subject("soc-1", "principal-1", "ck-1")),
        "{\"client_formation_key\":\"ck-1\",\"operation\":\"kovee_endeavor_form\",\
\"requested_by_principal\":\"principal-1\",\"society_ref\":\"soc-1\"}"
    );
    assert_eq!(
        text(intent_subject("kef-1", 1, IntentState::Prepared, "{}", 1)),
        "{\"canonical_byom_command_digest\":{},\"formation_id\":\"kef-1\",\
\"formation_slot_generation\":1,\"revision\":1,\"state\":\"prepared\"}"
    );
    assert_eq!(
        text(slot_subject("slot-1", 1, "held")),
        "{\"generation\":1,\"slot_id\":\"slot-1\",\"state\":\"held\"}"
    );
    assert_eq!(
        text(link_subject("kef-1", "endeavor-1", 1, "not json")),
        "{\"endeavor_ref\":\"endeavor-1\",\"endeavor_revision\":1,\
\"formation_id\":\"kef-1\",\"result_digest\":null}"
    );
    let w = World::prepared();
    let command = text(command_subject(&w.form.intents.rows[0].command));
    assert!(command.contains("\"endeavor_proposal\":{\"governance_rule_set_ref\":\"grs-1\","));
    assert!(command.contains(
        "\"idempotency_domain_digest\":{\"kovee-idempotency-domain-v1\":{\"client_formation_key\":\"ck-1\""
    ));
    assert!(command.starts_with("{\"byom_command_idempotency_key\":\"kef-dddd"));
}

#[test]
fn what_byom_is_asked_of_a_formation() {
    let mut w = World::prepared();
    w.start("obs-1", 1).unwrap();
    let t = &w.form.intents.rows[0];
    let version = parse("\"bpp-1\"").unwrap();
    let proof = parse("\"proof\"").unwrap();
    let text = |j: Json| render(&j).unwrap();
    let asked = text(form_request(&version, t, &w.form.attempts.rows[0], &proof));
    assert!(asked.starts_with("{\"attempt_id\":\"kefa-1\",\"attempt_nonce\":\"nonce-1\","));
    assert!(asked.contains("\"command\":{"));
    assert!(asked.contains("\"op\":\"kovee_endeavor_form\",\"version\":\"bpp-1\"}"));
    let query = text(result_query_request(&version, t, &pin(), "inc-9"));
    assert!(query.contains("\"current_endpoint_incarnation\":\"inc-9\""));
    assert!(query.contains("\"target_endpoint_incarnation\":\"inc-1\""));
    let fresh = FreshCredential {
        nonce: "nonce-9".to_string(),
        source_actor_binding_digest: "{}".to_string(),
        authentication_observation_ref: "obs-9".to_string(),
        authentication_observation_digest: "{}".to_string(),
    };
    let deny = text(terminalize_request(&version, t, &pin(), &fresh, "stop", &proof));
    assert!(deny.contains("\"reason\":\"stop\""));
    assert!(deny.contains("\"request_id\":\"nonce-9\""));
}

#[test]
fn an_attempt_carries_its_own_proof() {
    let mut w = World::prepared();
    w.start("obs-1", 1).unwrap();
    let t = &w.form.intents.rows[0];
    let a = &w.form.attempts.rows[0];
    let sent = submit(&json("1"), t, a, "abd", prove, |endpoint: &str, asked: &Json| {
        assert_eq!(endpoint, "local");
        let body = render(asked).unwrap();
        assert!(body.contains("\"authentication_proof\":\"nonce-1 under bd2\""));
        assert!(body.contains("\"attempt_id\":\"kefa-1\""));
        Ok(7)
    });
    assert!(matches!(sent, Ok(7)));
    let silent: Result<u8, SendFailure> = submit(&json("1"), t, a, "abd", prove, |_: &str, _: &Json| {
        Err(SendError::Silent(Problem::new(ProblemKind::Unavailable, "x")))
    });
    assert!(matches!(silent, Err(SendFailure::Unknown(_))));
}

/// One whole start, with what the endpoint answers, and how often it was called.
fn whole_start(
    w: &mut World,
    answer: Result<Option<ResultEnvelope>, SendError>,
    calls: &std::cell::Cell<u32>,
) -> Result<StartAction, Problem> {
    endeavor_promotion_start(
        &mut w.form,
        &mut w.ledger,
        &mut w.journal,
        &w.gov,
        "realm-personal",
        "kef-1",
        "obs-1",
        "held",
        &attempt_mint(1),
        Fresh { pin: pin_binding, issue, prove },
        &json("1"),
        |endpoint: &str, asked: &Json| {
            calls.set(calls.get() + 1);
            assert_eq!(endpoint, "local");
            assert!(render(asked).unwrap().contains("\"attempt_id\":\"kefa-1\""));
            answer
        },
        "iss",
        |state: IntentState, _: &Fact| {
            assert_eq!(state, IntentState::Submitting);
            committed()
        },
        7,
        &stamp(1),
        &stamp(20),
    )
}

#[test]
fn a_start_opens_sends_and_links() {
    let mut w = World::prepared();
    let calls = std::cell::Cell::new(0);
    let linked = whole_start(&mut w, Ok(Some(envelope())), &calls).unwrap();
    assert!(matches!(linked, StartAction::Linked(_)));
    assert_eq!((w.state(), calls.get()), (IntentState::Linked, 1));
    assert_eq!(w.form.attempts.rows[0].state, AttemptState::ReplyReceived);
    let spent = w.ledger.rows[0].spent.as_ref().unwrap();
    assert_eq!(spent.result.as_deref(), Some(envelope().text.as_bytes()));
    let again = whole_start(&mut w, Ok(None), &calls).unwrap();
    assert!(matches!(again, StartAction::Report(_)));
    assert_eq!(calls.get(), 1);
}

#[test]
fn a_start_without_an_answer_stays_open() {
    let mut w = World::prepared();
    let calls = std::cell::Cell::new(0);
    let silent = Err(SendError::Silent(Problem::new(ProblemKind::Unavailable, "no answer")));
    assert_eq!(whole_start(&mut w, silent, &calls).unwrap_err().title, "no answer");
    assert_eq!((w.state(), w.form.slots.rows[0].state.as_str()), (IntentState::RemoteUnknown, "held"));
    assert!(w.ledger.rows[0].spent.is_none());
    let mut w = World::prepared();
    w.start("obs-1", 1).unwrap();
    w.ledger.rows.clear();
    let e = w.sent(Ok(Some(envelope())), committed()).unwrap_err();
    assert_eq!((e.kind, w.state()), (ProblemKind::Internal, IntentState::Submitting));
}

#[test]
fn an_open_outcome_is_asked_about_and_decided() {
    let mut w = World::prepared();
    w.start("obs-1", 1).unwrap();
    let asked = std::cell::Cell::new(0);
    let reconcile = |w: &mut World, token: Option<String>, answer: Asked<Result<Fact, String>>| {
        endeavor_promotion_reconcile(
            &mut w.form,
            &mut w.journal,
            &w.gov,
            "realm-personal",
            "kef-1",
            &json("1"),
            |endpoint: &str| {
                assert_eq!(endpoint, "local");
                Ok("inc-9".to_string())
            },
            pin_binding,
            |binding: &str| {
                assert_eq!(binding, "bind-1");
                token
            },
            |given: &str, doc: &Json| {
                asked.set(asked.get() + 1);
                assert_eq!(given, "tok");
                assert!(render(doc).unwrap().contains("\"current_endpoint_incarnation\":\"inc-9\""));
                answer
            },
            |_: IntentState, fact: &Fact| match fact {
                Fact::Committed(_) => committed(),
                _ => None,
            },
            "held",
            &stamp(4),
        )
    };
    let token = || Some("tok".to_string());
    let silent = || Asked::Silent(Problem::new(ProblemKind::Unavailable, "x"));
    assert_eq!(
        reconcile(&mut w, None, silent()).unwrap_err().title,
        "no byom recovery-workload token is available"
    );
    assert_eq!(asked.get(), 0);
    reconcile(&mut w, token(), silent()).unwrap();
    assert_eq!((w.state(), asked.get()), (IntentState::Submitting, 1));
    let fact = Asked::Answer(Ok(Fact::Committed(envelope())));
    reconcile(&mut w, token(), fact).unwrap();
    assert_eq!((w.state(), asked.get()), (IntentState::Linked, 2));
    reconcile(&mut w, token(), silent()).unwrap();
    assert_eq!(asked.get(), 2);
}
