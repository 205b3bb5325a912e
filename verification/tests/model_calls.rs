use std::cell::Cell;

use koveed::budget::{Item, Meter, Reservation, ReservationState, Reservations};
use koveed::digests::Keyed;
use koveed::documents::{
    context_id_subject, disclosure_id_subject, host_effect_subject, permit_request, Expected, Wire,
};
use koveed::episode::{BindingState, EpisodeBinding, EpisodeState, Episodes, Fences};
use koveed::invoke::{attempt_fixture, Invocations};
use koveed::journal::{EventKind, Journal};
use koveed::json::{parse, render, Json};
use koveed::model_broker::{
    attempt_count, begin_dispatch, bounded, chain_segments, claim_single_use, completion,
    consume_permit, derive_id, disable_without_key, disclosed_items, dispatch_effect,
    commit_disclosure, commit_effect, effect_by_execution_key, model_profile_id, permit_problem,
    provider_binding_id,
    read_consumption, read_effect, read_profile, reconcile, recover_dispatching, register,
    report_usage, stage, wall, Disclosure, DisclosureAsk, DisclosureItem, Making, PlanAsk, Segment, ActAuthorization, BindingDraft, Broker, Claim,
    BindingAsk, Builders, CompleteRequest, CredentialAnswer, Drafted, Exchange, Origin, Prepared,
    ProfileAsk, ProviderClaims, RequestLimits, EffectState, Outcome, PermitError, PlanAnswer,
    Planned, ProfileDraft, ProviderKind, Providers, Receipt, ReceiptAnswer, SegmentKind,
    SourceFields, Usage, Permit, capped_charge, complete, ready_call, Completion, Consumption, Sending, Destination, Expectation, seed_default_bindings, seed_of, ReportAnswer,
    SeedDraft, read_disclosure, read_provider_context,
};
use koveed::problem::{Problem, ProblemKind};

fn request<'a>() -> CompleteRequest<'a> {
    CompleteRequest {
        realm: "realm-personal",
        project: Some("prj-1"),
        attempt_id: "invatt-1",
        fence_epoch: 1,
        model_profile_ref: "mp-1",
        purpose_ref: "purpose",
        classification_ref: "cls",
        system: Some("sys"),
        prompt: "hello",
        max_output_tokens: 10,
        stable_binding_key: None,
    }
}

fn act() -> ActAuthorization {
    ActAuthorization {
        act_intent_ref: "act-1".to_string(),
        act_intent_digest: "aid".to_string(),
        act_revision: 1,
        subject_digest: "sd".to_string(),
        stable_execution_key: "exec-1".to_string(),
        budget_reservation_set_ref: "brs-1".to_string(),
    }
}

fn planned() -> PlanAnswer<&'static str> {
    PlanAnswer::Planned(Planned {
        invocation_ref: "inv-1".to_string(),
        context_record: "{}".to_string(),
        context_digest_hex: "cd".to_string(),
        final_request_digest_hex: "fd".to_string(),
        final_request_digest: "{\"hex\":\"fd\"}".to_string(),
        wrapped_secret: vec![1],
        external_idempotency_key: "idem".to_string(),
        subject_digest: "sd".to_string(),
        host_effect_digest: "hd".to_string(),
        disclosure_manifest_ref: "dm-1".to_string(),
        disclosure_digest: "dd".to_string(),
        provider_context_digest: "pcd".to_string(),
    }, "the plan")
}

fn wire() -> Wire {
    Wire {
        version: parse("1").unwrap(),
        expected: Expected { endpoint_incarnation: "inc-1".to_string(), recovery_epoch: 3 },
        audience: "broker".to_string(),
        source: "meter".to_string(),
    }
}

fn keyed(tag: &str, _: &Json) -> Keyed {
    Keyed { text: tag.to_string(), hex: "d".repeat(64) }
}

fn of_reservation(r: &Reservation) -> Result<String, String> {
    Ok(format!("{} at {}", r.subordinate_reservation_ref, r.revision))
}

fn registered(tag: &str, fragment: &Json) -> Result<String, Problem> {
    assert_eq!(tag, "bpp-host-effect-registration-v0");
    assert_eq!(
        render(fragment).unwrap(),
        "{\"host_effect_digest\":null,\"host_effect_ref\":\"eff-1\",\
\"intent_ref\":\"act-1\",\"stable_execution_key\":\"exec-1\"}"
    );
    Ok("cred".to_string())
}

fn episode() -> EpisodeBinding {
    let text = |s: &str| s.to_string();
    EpisodeBinding {
        stable_binding_key: text("ebk-1"),
        realm_ref: text("realm-personal"),
        placement_id: text("place-1"),
        byom_endpoint_ref: text("local"),
        endpoint_incarnation: text("inc-1"),
        society_ref: text("soc-1"),
        recovery_epoch: 3,
        participant_ref: text("part-1"),
        participant_binding_epoch: 1,
        manifestation_ref: text("man-1"),
        activity_stream_ref: text("as-1"),
        episode_ref: text("ep-1"),
        generation: 1,
        byom_attempt_ref: text("ba-1"),
        fences: Fences { byom: 5, kovee: 2 },
        kovee_invocation_ref: text("inv-1"),
        mandate_use_refs: vec![],
        context_source_digest: String::new(),
        byom_budget_reservation_ref: text("bbr-1"),
        byom_budget_reservation_digest: String::new(),
        external_budget_bridge_ref: text("bridge-1"),
        kovee_subordinate_reservation_ref: text("ksr-1"),
        kovee_subordinate_reservation_digest: String::new(),
        dependency_digest: String::new(),
        context_manifest_ref: text("cm-1"),
        context_manifest_digest: String::new(),
        allowed_local_commitments: vec![],
        digest: String::new(),
        created_at: text("now"),
        state: BindingState::Bound,
        episode_state: EpisodeState::Running,
        fenced_reason: None,
    }
}

fn episodes() -> Episodes {
    let mut eps = Episodes::new();
    eps.bindings.rows.push(episode());
    eps
}

fn reservations(amount: u64) -> Reservations {
    let text = |s: &str| s.to_string();
    let mut res = Reservations::new();
    res.table.rows.push(Reservation {
        subordinate_reservation_ref: text("ksr-1"),
        revision: 1,
        realm_ref: text("realm-personal"),
        realm_byom_binding_ref: text("bind-1"),
        realm_byom_binding_epoch: 1,
        society_ref: text("soc-1"),
        society_recovery_epoch: 3,
        byom_reservation_set_ref: text("brs-1"),
        byom_reservation_set_revision: 1,
        byom_reservation_set_digest: String::new(),
        external_budget_bridge_ref: text("bridge-1"),
        stable_external_reservation_key: text("key-1"),
        items: vec![Item {
            kovee_account_ref: text("acct"),
            dimension: text("unit"),
            unit: text("unit"),
            amount,
            parent_account_ref: text("pacct"),
            parent_account_revision: 1,
            parent_dimension: text("unit"),
            parent_unit: text("unit"),
            parent_worst_case_amount: amount,
            parent_delegation_ref: None,
        }],
        state: ReservationState::Confirmed,
        usage_settlement_ref: None,
        usage_settlement_digest: None,
        created_at: text("now"),
        digest: String::new(),
        charged: 0,
        released_lifetime: 0,
    });
    res
}

fn split(row: &Reservation, dimension: &str, before: u64, charge: u64, by: Meter) -> Result<u64, String> {
    assert_eq!((dimension, by), ("unit", Meter::TrustedBroker));
    assert_eq!(before, row.charged);
    Ok(charge)
}

fn hash(text: &str) -> String {
    format!("hash of {}", text)
}

fn written_items(items: &Vec<DisclosureItem>) -> Json {
    let list: Vec<String> = items.iter().map(|i| format!("\"{}\"", i.digest)).collect();
    parse(&format!("[{}]", list.join(","))).unwrap()
}

fn written_segments(segments: &Vec<Segment>) -> Json {
    let list: Vec<String> = segments.iter().map(|s| format!("\"{}\"", s.ref_)).collect();
    parse(&format!("[{}]", list.join(","))).unwrap()
}

/// A digest that tells documents apart by what they hold.
fn portable(tag: &str, doc: &Json) -> String {
    let text = format!("{}{}", tag, render(doc).unwrap());
    let sum = text.bytes().fold(7u64, |a, b| a.wrapping_mul(31).wrapping_add(u64::from(b)));
    format!("{:016x}", sum).repeat(4)
}

type Made = Making<
    fn(&str) -> String,
    fn(&Vec<DisclosureItem>) -> Json,
    fn(&Vec<Segment>) -> Json,
    fn(&str, &Json) -> String,
>;

fn making() -> Made {
    Making { hash, items: written_items, segments: written_segments, digest: portable }
}

fn permit(record: &str) -> Permit {
    Permit {
        record: record.to_string(),
        owner_protocol: "byom".to_string(),
        phase: "pre_egress".to_string(),
        owner_receipt_ref: "rcpt-1".to_string(),
        mandate_use_ref: "mu-1".to_string(),
        max_uses: 1,
        consumption_ref: "con-1".to_string(),
    }
}

fn receipt(key: &str) -> ReceiptAnswer {
    ReceiptAnswer::Receipt(Receipt {
        owner_endpoint_ref: "local".to_string(),
        owner_intent_ref: "act-1".to_string(),
        execution_key: key.to_string(),
        owner_receipt_ref: "rcpt-1".to_string(),
        owner_receipt_digest: None,
        mandate_use_ref: "mu-1".to_string(),
        record: "{}".to_string(),
        replayed: false,
    })
}

fn outcome(state: EffectState) -> Outcome {
    Outcome {
        state,
        external_ref: Some("msg-1".to_string()),
        response_digest: Some("rd".to_string()),
        usage: Usage { input_tokens: 12, output_tokens: 34 },
        latency_ms: 56,
        observation: None,
        text: Some("hi".to_string()),
        model: Some("model-x".to_string()),
        stop_reason: None,
        transport_profile: "direct".to_string(),
    }
}

fn prepare_call(broker: &mut Broker, journal: &mut Journal, answer: PlanAnswer<&'static str>, id: &str) -> Result<Prepared<&'static str>, Problem> {
    commit_effect(
        broker,
        journal,
        &Episodes::new(),
        &request(),
        &act(),
        "mp-1",
        "mpb-1",
        ProviderKind::Anthropic,
        true,
        &SourceFields::Absent,
        id,
        "pc-1",
        answer,
        "now",
    )
}

fn served() -> Providers {
    let mut providers = Providers::new();
    register(
        &mut providers,
        "realm-personal",
        ProviderKind::Anthropic,
        &claims(),
        "env:KEY",
        "model-x",
        limits(),
        builders(),
        "now",
    )
    .unwrap();
    providers
}

fn claims() -> ProviderClaims {
    ProviderClaims {
        region: "eu".to_string(),
        retention: "none".to_string(),
        training_use: "prohibited".to_string(),
    }
}

fn limits() -> RequestLimits {
    RequestLimits { input_tokens: 1000, output_tokens: 100, calls: 1 }
}

fn origin_of(kind: ProviderKind) -> Origin {
    let host = match kind {
        ProviderKind::Anthropic => "api.example",
        ProviderKind::Openai => "api.other.example",
    };
    Origin { host: host.to_string(), port: 443 }
}

/// A binding whose claims are written from what it is built of.
fn binding_of(ask: &BindingAsk) -> Result<BindingDraft, String> {
    let written = format!(
        "{{\"region\":\"{}\",\"retention\":\"{}\"}}",
        ask.claims.region, ask.claims.retention
    );
    Ok(BindingDraft {
        revision: 1,
        provider_claims: parse(&written).unwrap(),
        disabled: false,
        record: format!("{} at {} by {}", ask.binding_id, ask.origin.host, ask.terms_ref),
        digest: "bd".to_string(),
    })
}

fn profile_of(ask: &ProfileAsk, binding: &BindingDraft) -> Result<ProfileDraft, String> {
    Ok(ProfileDraft {
        revision: 1,
        provider_binding_revision: binding.revision,
        adapter_version: "adapter-1".to_string(),
        record: format!("{} of {} in {}", ask.profile_id, ask.model_selector, ask.limits.calls),
        digest: "pd".to_string(),
    })
}

fn no_binding(_: &BindingAsk) -> Result<BindingDraft, String> {
    Err("b".to_string())
}

fn no_profile(_: &ProfileAsk, _: &BindingDraft) -> Result<ProfileDraft, String> {
    Err("p".to_string())
}

type Built = Builders<
    fn(ProviderKind) -> Origin,
    fn(&BindingAsk) -> Result<BindingDraft, String>,
    fn(&ProfileAsk, &BindingDraft) -> Result<ProfileDraft, String>,
>;

fn builders() -> Built {
    Builders { origin: origin_of, binding: binding_of, profile: profile_of }
}

fn to(providers: &Providers) -> Destination<'_> {
    Destination {
        providers,
        realm: "realm-personal",
        model_profile_ref: "mp-anthropic-realm-personal",
        fence_digest: None,
    }
}

fn consumed() -> (Broker, Journal) {
    let mut broker = Broker::new();
    let mut journal = Journal::new();
    prepare_call(&mut broker, &mut journal, planned(), "eff-1").unwrap();
    let at = consume_permit(
        &mut broker,
        &mut journal,
        &Episodes::new(),
        None,
        &act(),
        0,
        &wire(),
        &to(&served()),
        "con-1",
        "now",
        registered,
        |asked: &Json| {
            let body = render(asked).unwrap();
            assert!(body.contains("\"host_effect_credential\":\"cred\""));
            assert!(!body.contains("episode_ref"));
            receipt("exec-1")
        },
        |c: &Consumption, x: &Expectation| {
            assert_eq!(c.consumption_id, "con-1");
            assert!(!x.already_spent && x.episode.is_none());
            assert_eq!((x.execution_key.as_str(), x.subject_digest.as_str()), ("exec-1", "sd"));
            assert_eq!((x.disclosure_digest.as_str(), x.driver_audience.as_str()), ("dd", "broker"));
            assert_eq!((x.endpoint_incarnation.as_str(), x.recovery_epoch), ("inc-1", 3));
            assert_eq!((x.bound_host.as_str(), x.bound_port), ("api.example", 443));
            Ok(permit("permit"))
        },
    )
    .unwrap();
    assert_eq!((at.0, at.1.record.as_str()), (0, "permit"));
    (broker, journal)
}

fn dispatch(
    broker: &mut Broker,
    journal: &mut Journal,
    attempt: &str,
    expected: bool,
    state: EffectState,
) -> Result<koveed::model_broker::Completion, Problem> {
    dispatch_effect(
        broker,
        &mut Reservations::new(),
        journal,
        &Episodes::new(),
        None,
        "realm-personal",
        &wire(),
        "eff-1",
        "exec-1",
        "con-1",
        &to(&served()),
        |reference: &str| {
            assert_eq!(reference, "env:KEY");
            CredentialAnswer::Resolved("the secret")
        },
        "the plan",
        permit("permit"),
        attempt,
        "direct",
        "now",
        |on_record: &Broker, sent: Exchange<&str, &str>| {
            let row = on_record.attempts.rows.last().unwrap();
            assert_eq!((row.effect_attempt_id.as_str(), row.state), (attempt, EffectState::Dispatching));
            assert!(on_record.consumptions.rows[0].spent);
            assert_eq!(matches!(sent.claim, Claim::Claimed), expected);
            assert_eq!((sent.plan, sent.credential, sent.timeout_secs), ("the plan", "the secret", 120));
            assert_eq!(sent.permit.record, "permit");
            outcome(state)
        },
        |_: &Broker, _: &Json| panic!("there is no episode to meter against"),
        split,
        keyed,
        of_reservation,
    )
}

#[test]
fn a_call_is_prepared_once() {
    let mut broker = Broker::new();
    let mut journal = Journal::new();
    let first = prepare_call(&mut broker, &mut journal, planned(), "eff-1").unwrap();
    assert_eq!((first.effect, first.already_existed, first.plan), (0, false, "the plan"));
    let again = prepare_call(&mut broker, &mut journal, planned(), "eff-2").unwrap();
    assert_eq!((again.effect, again.already_existed), (0, true));
    assert_eq!(broker.effects.rows.len(), 1);
    assert_eq!(read_effect(&broker, "eff-1").unwrap().state, "prepared");
    assert_eq!(effect_by_execution_key(&broker, "exec-1").unwrap().effect_id, "eff-1");
    assert!(read_effect(&broker, "eff-2").is_none());
    assert!(effect_by_execution_key(&broker, "exec-2").is_none());
}

#[test]
fn what_cannot_be_planned_is_not_prepared() {
    let mut broker = Broker::new();
    let mut journal = Journal::new();
    let no_chain = PlanAnswer::NoChain("c".to_string());
    let e = prepare_call(&mut broker, &mut journal, no_chain, "eff-1").unwrap_err();
    assert_eq!((e.kind, e.title.as_str()), (ProblemKind::Invalid, "the provider context chain"));
    let no_plan = PlanAnswer::NoPlan("p".to_string());
    let e = prepare_call(&mut broker, &mut journal, no_plan, "eff-1").unwrap_err();
    assert_eq!(e.title, "the model call cannot be planned");
    let mut bound = request();
    bound.stable_binding_key = Some("ebk-1");
    let e = commit_effect(
        &mut broker,
        &mut journal,
        &Episodes::new(),
        &bound,
        &act(),
        "mp-1",
        "mpb-1",
        ProviderKind::Anthropic,
        true,
        &SourceFields::Given(parse("{}").unwrap()),
        "eff-1",
        "pc-1",
        planned(),
        "now",
    )
    .unwrap_err();
    assert_eq!(e.title, "this episode binding is not live");
    assert!(broker.effects.rows.is_empty());
    prepare_call(&mut broker, &mut journal, planned(), "eff-1").unwrap();
    broker.contexts.rows[0].object_secret = None;
    let e = prepare_call(&mut broker, &mut journal, planned(), "eff-2").unwrap_err();
    assert_eq!(e.title, "this record's erasure secret is destroyed");
}

#[test]
fn a_receipt_is_taken_once() {
    let (mut broker, mut journal) = consumed();
    assert_eq!(broker.consumptions.rows[0].permit, "permit");
    let again = consume_permit(
        &mut broker,
        &mut journal,
        &Episodes::new(),
        None,
        &act(),
        0,
        &wire(),
        &to(&served()),
        "con-2",
        "now",
        registered,
        |_: &Json| panic!("the receipt is stored"),
        |_: &Consumption, _: &Expectation| Ok(permit("permit-2")),
    )
    .unwrap();
    assert_eq!((again.0, again.1.record.as_str()), (0, "permit-2"));
    assert_eq!(read_consumption(&broker, "exec-1"), Some(0));
    assert_eq!(read_consumption(&broker, "exec-2"), None);
    assert_eq!(broker.consumptions.rows[0].owner_receipt_digest, "");
}

#[test]
fn a_malformed_receipt_stores_nothing() {
    let mut broker = Broker::new();
    let mut journal = Journal::new();
    prepare_call(&mut broker, &mut journal, planned(), "eff-1").unwrap();
    let e = consume_permit(
        &mut broker,
        &mut journal,
        &Episodes::new(),
        None,
        &act(),
        0,
        &wire(),
        &to(&served()),
        "con-1",
        "now",
        registered,
        |_: &Json| ReceiptAnswer::Malformed { error: "no ref".to_string(), reply: "x".repeat(2000) },
        |_: &Consumption, _: &Expectation| Ok(permit("permit")),
    )
    .unwrap_err();
    assert_eq!(e.detail.unwrap(), format!("no ref; reply was {}", "x".repeat(1024)));
    assert!(broker.consumptions.rows.is_empty());
    assert_eq!(bounded("short"), "short");
}

#[test]
fn a_refused_permit_keeps_the_receipt() {
    let mut broker = Broker::new();
    let mut journal = Journal::new();
    prepare_call(&mut broker, &mut journal, planned(), "eff-1").unwrap();
    let e = consume_permit(
        &mut broker,
        &mut journal,
        &Episodes::new(),
        None,
        &act(),
        0,
        &wire(),
        &to(&served()),
        "con-1",
        "now",
        registered,
        |_: &Json| receipt("exec-1"),
        |_: &Consumption, _: &Expectation| Err((PermitError::StaleFence, "moved".to_string())),
    )
    .unwrap_err();
    assert_eq!(e.kind, ProblemKind::StaleLease);
    assert_eq!(e.title, "the model call is not authorized to leave");
    assert_eq!(broker.consumptions.rows.len(), 1);
    assert_eq!(broker.consumptions.rows[0].permit, "");
}

#[test]
fn a_receipt_is_held_against_its_episode_and_destination() {
    let mut broker = Broker::new();
    let mut journal = Journal::new();
    prepare_call(&mut broker, &mut journal, planned(), "eff-1").unwrap();
    let eps = episodes();
    let providers = served();
    let mut get = |against: &Destination<'_>, fenced: bool| {
        consume_permit(
            &mut broker,
            &mut journal,
            &eps,
            Some("ebk-1"),
            &act(),
            0,
            &wire(),
            against,
            "con-1",
            "now",
            registered,
            |_: &Json| receipt("exec-1"),
            |_: &Consumption, x: &Expectation| {
                match &x.episode {
                    Some(f) => {
                        assert_eq!((f.episode_ref.as_str(), f.fence_digest.as_str()), ("ep-1", "fd"));
                        assert_eq!((f.byom_fence_epoch, f.kovee_invocation_fence), (5, 2));
                        assert!(fenced);
                    }
                    None => assert!(!fenced),
                }
                Ok(permit("permit"))
            },
        )
    };
    let mut against = to(&providers);
    against.model_profile_ref = "mp-other";
    assert_eq!(get(&against, false).unwrap_err().kind, ProblemKind::NotFound);
    let mut against = to(&providers);
    assert_eq!(get(&against, false).unwrap().0, 0);
    against.fence_digest = Some("fd");
    assert_eq!(get(&against, true).unwrap().0, 0);
}

#[test]
fn each_permit_error_has_its_kind() {
    let kind = |e| permit_problem(e, "d").kind;
    assert_eq!(kind(PermitError::NoPermit), ProblemKind::Forbidden);
    assert_eq!(kind(PermitError::SpentPermit), ProblemKind::Forbidden);
    assert_eq!(kind(PermitError::NotOneShot), ProblemKind::Forbidden);
    assert_eq!(kind(PermitError::Expired), ProblemKind::Forbidden);
    assert_eq!(kind(PermitError::UnreadableExpiry), ProblemKind::Forbidden);
    assert_eq!(kind(PermitError::Malformed), ProblemKind::Unavailable);
    assert_eq!(kind(PermitError::UnkeyedProvenance), ProblemKind::Internal);
    assert_eq!(kind(PermitError::Unattestable), ProblemKind::Internal);
    assert_eq!(kind(PermitError::WrongExecutionKey), ProblemKind::StaleRevision);
    assert_eq!(kind(PermitError::WrongAudience), ProblemKind::StaleRevision);
    assert_eq!(kind(PermitError::WrongEndpoint), ProblemKind::StaleRevision);
    assert_eq!(kind(PermitError::Unbound), ProblemKind::StaleRevision);
}

#[test]
fn one_consumption_is_one_use() {
    let (mut broker, mut journal) = consumed();
    let c = dispatch(&mut broker, &mut journal, "ea-1", true, EffectState::Completed).unwrap();
    assert_eq!((c.state, c.usage_reported, c.retry_frozen), (EffectState::Completed, false, false));
    assert!(broker.consumptions.rows[0].spent);
    dispatch(&mut broker, &mut journal, "ea-2", false, EffectState::Failed).unwrap();
    assert_eq!(broker.attempts.rows[1].attempt_ordinal, 2);
    assert_eq!(attempt_count(&broker, "eff-1"), 2);
    assert!(matches!(claim_single_use(&mut broker, "con-1", "exec-1"), Claim::AlreadySpent));
    assert_eq!(journal.events[1].kind, EventKind::ModelEffectAuthorized);
    assert_eq!(journal.events[2].kind, EventKind::ModelEffectDispatching);
    assert_eq!(journal.events[3].kind, EventKind::ModelEffectCompleted);
    let told = |i: usize| render(journal.events[i].payload.as_ref().unwrap()).unwrap();
    assert_eq!(
        told(0),
        "{\"act_intent_ref\":\"act-1\",\"disclosure_manifest_ref\":\"dm-1\",\
\"dispatched\":false,\"execution_key\":\"exec-1\",\
\"final_provider_request_digest\":{\"hex\":\"fd\"},\"model_profile_ref\":\"mp-1\",\
\"permit_consumed\":false,\"provider_context_manifest_ref\":\"pc-1\",\
\"provider_kind\":\"anthropic\",\"state\":\"prepared\"}"
    );
    assert_eq!(
        told(2),
        "{\"attempt_ordinal\":1,\"dispatched\":true,\"effect_attempt_id\":\"ea-1\",\
\"permit_consumed\":true,\"state\":\"dispatching\",\"transport_profile\":\"direct\"}"
    );
    assert_eq!(
        told(3),
        "{\"effect_attempt_id\":\"ea-1\",\"latency_ms\":56,\"observation\":null,\
\"provider_ref\":\"msg-1\",\"response_digest\":\"rd\",\"retry_frozen\":false,\
\"state\":\"completed\",\"transport_profile\":\"direct\",\
\"usage\":{\"input_tokens\":12,\"output_tokens\":34}}"
    );
}

#[test]
fn the_worker_sees_the_completion() {
    let (mut broker, mut journal) = consumed();
    let c = dispatch(&mut broker, &mut journal, "ea-1", true, EffectState::Completed).unwrap();
    assert_eq!(
        render(&c.worker_view()).unwrap(),
        "{\"disclosure_manifest_ref\":\"dm-1\",\"effect_attempt_id\":\"ea-1\",\
\"effect_id\":\"eff-1\",\"latency_ms\":56,\"model\":\"model-x\",\
\"provider_context_manifest_ref\":\"pc-1\",\"provider_ref\":\"msg-1\",\
\"retry_frozen\":false,\"state\":\"completed\",\"text\":\"hi\",\
\"usage\":{\"input_tokens\":12,\"output_tokens\":34},\"usage_reported\":false}"
    );
    let made = completion(&broker.effects.rows[0], "ea-9", outcome(EffectState::Ambiguous), true);
    assert!(made.retry_frozen && made.usage_reported);
}

#[test]
fn no_credential_no_dispatch() {
    let (mut broker, mut journal) = consumed();
    let begin = |broker: &mut Broker, journal: &mut Journal, c: &CredentialAnswer<()>| {
        begin_dispatch(broker, journal, "eff-1", "con-1", c, "ea-1", "direct", "now")
    };
    let e = begin(&mut broker, &mut journal, &CredentialAnswer::NoReference).unwrap_err();
    assert_eq!(e.title, "the provider binding has no usable credential reference");
    let missing = CredentialAnswer::NotConfigured("unset".to_string());
    let e = begin(&mut broker, &mut journal, &missing).unwrap_err();
    assert_eq!(e.detail.as_deref(), Some("unset"));
    assert!(broker.attempts.rows.is_empty());
    assert_eq!(begin(&mut broker, &mut journal, &CredentialAnswer::Resolved(())).unwrap(), 1);
}

#[test]
fn a_crash_in_flight_spends_the_use() {
    let (mut broker, mut journal) = consumed();
    begin_dispatch(
        &mut broker,
        &mut journal,
        "eff-1",
        "con-1",
        &CredentialAnswer::Resolved(()),
        "ea-1",
        "direct",
        "now",
    )
    .unwrap();
    assert_eq!(recover_dispatching(&mut broker, &mut journal, "later"), 1);
    assert_eq!(broker.attempts.rows[0].state, EffectState::Ambiguous);
    assert!(broker.attempts.rows[0].retry_frozen);
    assert!(matches!(claim_single_use(&mut broker, "con-1", "exec-1"), Claim::AlreadySpent));
    assert_eq!(recover_dispatching(&mut broker, &mut journal, "later"), 0);
    let e = reconcile(&mut broker, &mut journal, "ea-1", EffectState::Canceled, "seen").unwrap_err();
    assert_eq!(e.title, "an ambiguous attempt resolves to completed or failed");
    assert!(reconcile(&mut broker, &mut journal, "ea-9", EffectState::Failed, "seen").is_err());
    reconcile(&mut broker, &mut journal, "ea-1", EffectState::Failed, "seen").unwrap();
    assert_eq!(broker.effects.rows[0].state, EffectState::Failed);
    assert!(broker.consumptions.rows[0].spent);
    let e = reconcile(&mut broker, &mut journal, "ea-1", EffectState::Completed, "x").unwrap_err();
    assert_eq!(e.title, "only an ambiguous attempt is reconciled");
}

#[test]
fn nothing_measured_is_not_reported() {
    let (mut broker, mut journal) = consumed();
    let mut report = |key, usage| {
        report_usage(
            &mut broker,
            &mut Reservations::new(),
            &mut journal,
            &Episodes::new(),
            key,
            "realm-personal",
            &wire(),
            "eff-1",
            "ea-1",
            usage,
            |_: &Broker, _: &Json| panic!("nothing is due"),
            split,
            keyed,
            of_reservation,
            "now",
        )
    };
    let none = Usage { input_tokens: 0, output_tokens: 0 };
    let some = Usage { input_tokens: 1, output_tokens: 0 };
    assert!(!report(Some("ebk-1"), none).unwrap());
    assert!(!report(None, some).unwrap());
    assert!(report(Some("ebk-1"), some).is_err());
}

#[test]
fn a_disclosure_is_staged_once() {
    let mut broker = Broker::new();
    let manifest = || Drafted::Manifest {
        recipient_kind: "model_provider".to_string(),
        record: "{}".to_string(),
        digest: "{\"hex\":\"dd\"}".to_string(),
        digest_hex: "dd".to_string(),
        total_bytes: 8,
    };
    let mut put = |recorded, stale: Option<String>, drafted| {
        commit_disclosure(&mut broker, "realm-personal", recorded, "dm-1", &stale, drafted, "now")
    };
    assert!(put(false, None, manifest()).is_err());
    let e = put(true, None, Drafted::Incomplete("i".to_string())).unwrap_err();
    assert_eq!(e.title, "the disclosure manifest is incomplete");
    let e = put(true, None, Drafted::AssemblyRefused("a".to_string())).unwrap_err();
    assert_eq!(e.title, "the disclosure manifest");
    assert_eq!(put(true, None, manifest()).unwrap(), 0);
    assert_eq!(put(true, None, Drafted::Incomplete("i".to_string())).unwrap(), 0);
    let e = put(true, Some("changed".to_string()), manifest()).unwrap_err();
    assert_eq!(e.title, "the staged disclosure no longer verifies");
    assert_eq!(broker.disclosures.rows[0].total_bytes, 8);
    assert_eq!(read_disclosure(&broker, "dm-1").unwrap().total_bytes, 8);
    assert!(read_disclosure(&broker, "dm-9").is_none());
    assert!(read_provider_context(&broker, "pc-1").is_none());
}

#[test]
fn what_is_disclosed_is_listed() {
    let items = disclosed_items(&request(), hash);
    assert_eq!(items.len(), 2);
    assert_eq!((items[0].ref_.as_str(), items[0].size), ("invatt-1#system", 3));
    assert_eq!(
        (items[1].ref_.as_str(), items[1].digest.as_str(), items[1].size),
        ("invatt-1#prompt", "hash of hello", 5)
    );
    let segments = chain_segments(&request(), "adapter-1", hash);
    assert_eq!(segments.len(), 3);
    assert_eq!(segments[0].kind, SegmentKind::SystemInstruction);
    assert_eq!((segments[2].kind, segments[2].ref_.as_str()), (SegmentKind::AdapterWrapper, "adapter-1"));
    assert_eq!(segments[2].digest, "hash of adapter-1");
    let mut bare = request();
    bare.system = None;
    assert_eq!(disclosed_items(&bare, hash).len(), 1);
    assert_eq!(chain_segments(&bare, "adapter-1", hash).len(), 2);
    let doc = parse("{}").unwrap();
    let digest = |tag: &str, _: &Json| tag.repeat(40);
    assert_eq!(derive_id("dm", "a", &doc, digest), format!("dm-{}", "a".repeat(32)));
    assert_eq!((wall(0, 9), wall(5, 9)), (9, 5));
}

#[test]
fn providers_are_registered_by_kind_and_realm() {
    let mut providers = Providers::new();
    let kind = ProviderKind::Anthropic;
    let mut put = |built: Built, at: &str| {
        register(&mut providers, "r", kind, &claims(), "env:KEY", "model-x", limits(), built, at)
    };
    let mut built = builders();
    built.binding = no_binding;
    assert_eq!(put(built, "now").unwrap_err().title, "the provider binding is not usable");
    let mut built = builders();
    built.profile = no_profile;
    assert_eq!(put(built, "now").unwrap_err().title, "the model profile is not usable");
    put(builders(), "now").unwrap();
    put(builders(), "later").unwrap();
    let row = &providers.bindings.rows[0];
    assert_eq!((row.endpoint_host.as_str(), row.endpoint_port), ("api.example", 443));
    assert_eq!(row.credential_secret_ref, "env:KEY");
    assert_eq!(render(&row.provider_claims).unwrap(), "{\"region\":\"eu\",\"retention\":\"none\"}");
    assert_eq!(row.record, "mpb-anthropic-r at api.example by terms-anthropic");
    let row = &providers.profiles.rows[0];
    assert_eq!((row.model_selector.as_str(), row.adapter_version.as_str()), ("model-x", "adapter-1"));
    assert_eq!(row.record, "mp-anthropic-r of model-x in 1");
    assert_eq!(providers.bindings.rows.len(), 1);
    assert_eq!(providers.bindings.rows[0].created_at, "now");
    assert_eq!(providers.bindings.rows[0].updated_at, "later");
    assert_eq!(provider_binding_id(kind, "r"), "mpb-anthropic-r");
    assert_eq!(model_profile_id(ProviderKind::Openai, "r"), "mp-openai-r");
    assert_eq!(read_profile(&providers, "r", "mp-anthropic-r").unwrap(), (0, 0));
    assert!(read_profile(&providers, "other", "mp-anthropic-r").is_err());
    disable_without_key(&mut providers, kind, "r", true);
    assert!(!providers.bindings.rows[0].disabled);
    disable_without_key(&mut providers, kind, "r", false);
    assert!(providers.bindings.rows[0].disabled);
}

#[test]
fn a_charge_is_capped_by_what_is_reserved() {
    let used = |i, o| Usage { input_tokens: i, output_tokens: o };
    assert_eq!(capped_charge(used(10, 5), 100), 15);
    assert_eq!(capped_charge(used(10, 5), 12), 12);
    assert_eq!(capped_charge(used(20, 5), 12), 12);
    assert_eq!(capped_charge(used(u64::MAX, u64::MAX), 12), 12);
}

#[test]
fn a_use_is_reported_and_settled_once() {
    let (mut broker, mut journal) = consumed();
    let mut res = reservations(40);
    let eps = episodes();
    let usage = Usage { input_tokens: 12, output_tokens: 34 };
    let done = report_usage(
        &mut broker,
        &mut res,
        &mut journal,
        &eps,
        Some("ebk-1"),
        "realm-personal",
        &wire(),
        "eff-1",
        "ea-1",
        usage,
        |on_record: &Broker, asked: &Json| {
            assert_eq!(on_record.reports.rows[0].charge_cap, 40);
            assert!(on_record.reports.rows[0].answer.is_none());
            let body = render(asked).unwrap();
            assert!(body.contains(
                "\"charged_quantities\":[{\"amount\":40,\"dimension\":\"unit\",\"unit\":\"unit\"}]"
            ));
            assert!(body.contains("\"stable_report_key\":\"kovee-model-usage-eff-1\""));
            Ok(ReportAnswer { settled: true, charged: Some(30), result: "{}".to_string() })
        },
        split,
        keyed,
        of_reservation,
        "now",
    );
    assert!(done.unwrap());
    let row = &res.table.rows[0];
    assert_eq!(row.state, ReservationState::Settled);
    assert_eq!((row.charged, row.released_lifetime), (30, 10));
    assert_eq!(row.usage_settlement_ref.as_deref(), Some("kovee-model-settle-eff-1"));
    let n = journal.events.len();
    assert_eq!(journal.events[n - 2].kind, EventKind::ModelUsageReported);
    assert_eq!(journal.events[n - 1].kind, EventKind::SubordinateSettled);
    let again = report_usage(
        &mut broker,
        &mut res,
        &mut journal,
        &eps,
        Some("ebk-1"),
        "realm-personal",
        &wire(),
        "eff-1",
        "ea-2",
        usage,
        |_: &Broker, _: &Json| panic!("the report stands"),
        |_: &Reservation, _: &str, _: u64, _: u64, _: Meter| panic!("the report stands"),
        keyed,
        of_reservation,
        "now",
    );
    assert!(again.unwrap());
    assert_eq!(journal.events.len(), n);
    assert_eq!(res.table.rows[0].charged, 30);
}

#[test]
fn an_unanswered_report_settles_nothing() {
    let (mut broker, mut journal) = consumed();
    let mut res = reservations(40);
    let e = report_usage(
        &mut broker,
        &mut res,
        &mut journal,
        &episodes(),
        Some("ebk-1"),
        "realm-personal",
        &wire(),
        "eff-1",
        "ea-1",
        Usage { input_tokens: 1, output_tokens: 0 },
        |_: &Broker, _: &Json| Err(Problem::new(ProblemKind::Unavailable, "down")),
        split,
        keyed,
        of_reservation,
        "now",
    )
    .unwrap_err();
    assert_eq!(e.title, "down");
    assert_eq!(res.table.rows[0].state, ReservationState::Confirmed);
    let row = &broker.reports.rows[0];
    assert_eq!((row.charge_cap, row.applied, row.answer.is_none()), (1, false, true));
}

/// Reports the use of the consumed effect, with what byom and the local meter say.
fn report(
    broker: &mut Broker,
    res: &mut Reservations,
    journal: &mut Journal,
    answer: Result<ReportAnswer, Problem>,
    measured: Result<u64, String>,
) -> Result<bool, Problem> {
    report_usage(
        broker,
        res,
        journal,
        &episodes(),
        Some("ebk-1"),
        "realm-personal",
        &wire(),
        "eff-1",
        "ea-1",
        Usage { input_tokens: 12, output_tokens: 10 },
        |_: &Broker, _: &Json| answer,
        |_: &Reservation, _: &str, _: u64, _: u64, _: Meter| measured,
        keyed,
        of_reservation,
        "now",
    )
}

fn settled(charged: Option<u64>) -> Result<ReportAnswer, Problem> {
    Ok(ReportAnswer { settled: true, charged, result: "{}".to_string() })
}

#[test]
fn what_byom_did_not_settle_is_not_settled_here() {
    let (mut broker, mut journal) = consumed();
    let mut res = reservations(40);
    let open = Ok(ReportAnswer { settled: false, charged: None, result: "{}".to_string() });
    assert!(report(&mut broker, &mut res, &mut journal, open, Ok(22)).unwrap());
    assert_eq!(res.table.rows[0].state, ReservationState::Confirmed);
    assert_eq!(res.table.rows[0].charged, 0);
    assert_eq!(journal.events.last().unwrap().kind, EventKind::ModelUsageReported);
}

#[test]
fn a_number_that_was_not_applied_is_applied_next_time() {
    let (mut broker, mut journal) = consumed();
    let mut res = reservations(40);
    let refused = Err("no meter".to_string());
    assert!(report(&mut broker, &mut res, &mut journal, settled(None), refused).is_err());
    assert_eq!(res.table.rows[0].state, ReservationState::Confirmed);
    assert!(broker.reports.rows[0].answer.is_some() && !broker.reports.rows[0].applied);
    let down = Err(Problem::new(ProblemKind::Unavailable, "byom was asked again"));
    assert!(report(&mut broker, &mut res, &mut journal, down, Ok(22)).unwrap());
    assert_eq!(res.table.rows[0].state, ReservationState::Settled);
    assert_eq!((res.table.rows[0].charged, res.table.rows[0].released_lifetime), (22, 18));
    assert!(broker.reports.rows[0].applied);
    let told = |kind: EventKind| journal.events.iter().filter(|e| e.kind == kind).count();
    assert_eq!(told(EventKind::ModelUsageReported), 1);
    assert_eq!(told(EventKind::SubordinateSettled), 1);
}

#[test]
fn what_byom_is_asked_of_a_model_call() {
    let (broker, _) = consumed();
    let version = parse("1").unwrap();
    let expected = Expected { endpoint_incarnation: "inc-1".to_string(), recovery_epoch: 3 };
    let effect = &broker.effects.rows[0];
    assert_eq!(
        render(&permit_request(&version, effect, &act(), &expected, "cred", "broker", None)).unwrap(),
        "{\"budget_reservation_set_ref\":\"brs-1\",\"byom_fence_epoch\":0,\
\"disclosure_digest\":null,\"disclosure_manifest_ref\":\"dm-1\",\
\"driver_audience\":\"broker\",\"host_effect_credential\":\"cred\",\
\"host_effect_digest\":null,\"host_effect_ref\":\"eff-1\",\"host_fence_epoch\":0,\
\"intent_ref\":\"act-1\",\"meta\":{\"expected_endpoint_incarnation\":\"inc-1\",\
\"expected_recovery_epoch\":3,\"expected_revision\":1,\
\"idempotency_key\":\"kovee-perm-exec-1\",\"request_id\":\"kovee-perm-eff-1\"},\
\"op\":\"execution_permit_consume\",\"stable_execution_key\":\"exec-1\",\"version\":1}"
    );
    let bound = episode();
    let asked = permit_request(&version, effect, &act(), &expected, "cred", "broker", Some(&bound));
    assert!(render(&asked).unwrap().contains("\"byom_fence_epoch\":5"));
    assert!(render(&asked).unwrap().contains("\"episode_ref\":\"ep-1\""));
    assert_eq!(
        render(&host_effect_subject(effect, &act())).unwrap(),
        "{\"host_effect_digest\":null,\"host_effect_ref\":\"eff-1\",\
\"intent_ref\":\"act-1\",\"stable_execution_key\":\"exec-1\"}"
    );
    let list = parse("[]").unwrap();
    assert_eq!(
        render(&disclosure_id_subject(&request(), "mp-1", &version, &list, &list)).unwrap(),
        "{\"attempt_ref\":\"invatt-1\",\"items\":[],\"model_profile_digest\":1,\
\"model_profile_ref\":\"mp-1\",\"provider_claims\":[],\"purpose_ref\":\"purpose\"}"
    );
    assert_eq!(
        render(&context_id_subject("invatt-1", "dm-1", &version, &list, &version, &version, &act())).unwrap(),
        "{\"act_intent_ref\":\"act-1\",\"attempt_ref\":\"invatt-1\",\"disclosure_digest\":1,\
\"disclosure_id\":\"dm-1\",\"model_profile_digest\":1,\"provider_binding_digest\":1,\
\"segments\":[]}"
    );
}

fn seed_draft(key_present: bool) -> SeedDraft<'static> {
    SeedDraft { model: "model-x", key_present }
}

#[test]
fn both_providers_are_seeded() {
    let seed = seed_of(ProviderKind::Openai);
    assert_eq!(seed.key_variable, "OPENAI_API_KEY");
    assert_eq!(seed.credential_secret_ref, "env:OPENAI_API_KEY");
    assert_eq!((seed.claims.region.as_str(), seed.claims.retention.as_str()), ("us", "30-days"));
    assert_eq!(seed.claims.training_use, "prohibited");
    let l = seed.limits;
    assert_eq!((l.input_tokens, l.output_tokens, l.calls), (100_000, 8_192, 1));
    let mut providers = Providers::new();
    seed_default_bindings(&mut providers, "r", seed_draft(true), seed_draft(false), builders(), "now").unwrap();
    assert!(!providers.bindings.rows[0].disabled);
    assert!(providers.bindings.rows[1].disabled);
    assert_eq!(providers.profiles.rows[1].model_profile_id, "mp-openai-r");
    assert_eq!(providers.bindings.rows[0].credential_secret_ref, "env:ANTHROPIC_API_KEY");
    assert_eq!(providers.bindings.rows[1].credential_secret_ref, "env:OPENAI_API_KEY");
    let us = "{\"region\":\"us\",\"retention\":\"30-days\"}";
    assert_eq!(render(&providers.bindings.rows[1].provider_claims).unwrap(), us);
    let mut broken = builders();
    broken.binding = no_binding;
    let mut fresh = Providers::new();
    assert!(seed_default_bindings(&mut fresh, "r", seed_draft(true), seed_draft(true), broken, "now").is_err());
    assert!(fresh.bindings.rows.is_empty());
}

#[test]
fn a_call_goes_step_by_step() {
    let providers = served();
    let mut inv = Invocations::new();
    attempt_fixture(&mut inv, "realm-personal", "prj-1", &None, &None, "inv-1", "invatt-1", "then").unwrap();
    let mut broker = Broker::new();
    let mut journal = Journal::new();
    let mut call = |attempt: &str, fence: u64, profile: &str, drafted: Drafted, answer: PlanAnswer<&'static str>| {
        let mut r = request();
        r.attempt_id = attempt;
        r.fence_epoch = fence;
        r.model_profile_ref = profile;
        ready_call(
            &mut broker,
            &mut journal,
            &inv,
            &providers,
            &Episodes::new(),
            &r,
            &act(),
            &SourceFields::Absent,
            "eff-1",
            making(),
            |_: &Disclosure| None,
            |ask: &DisclosureAsk, items: &Json| {
                assert_eq!(ask.recipient_ref, format!("model-profile:{}", profile));
                assert_eq!(ask.created_at, "then");
                assert!(render(&ask.provider_claims).unwrap().contains("\"region\":\"eu\""));
                assert!(ask.context_assembly_ref.is_none() && ask.context_assembly_digest.is_none());
                assert_eq!(render(items).unwrap(), "[\"hash of sys\",\"hash of hello\"]");
                drafted
            },
            |ask: &PlanAsk, segments: &Vec<Segment>| {
                assert_eq!((ask.effect_id.as_str(), ask.invocation_id.as_str()), ("eff-1", "inv-1"));
                assert_eq!(ask.dependency_ref, "authdep-model-egress-invatt-1");
                assert_eq!((ask.prompt.as_str(), ask.created_at.as_str()), ("hello", "then"));
                assert!(ask.context_id.starts_with("pcm-") && ask.context_id.len() == 36);
                assert_eq!((ask.adapter_version.as_str(), segments.len()), ("adapter-1", 3));
                assert_eq!(ask.act_intent_ref_digest, "hash of act-1");
                assert!(ask.byom_source.is_none() && ask.standing_secret.is_none());
                answer
            },
            "now",
        )
        .map(|p| (broker.disclosures.rows.len(), p.effect))
    };
    let manifest = || Drafted::Manifest {
        recipient_kind: "model_provider".to_string(),
        record: "{}".to_string(),
        digest: "{\"hex\":\"dd\"}".to_string(),
        digest_hex: "dd".to_string(),
        total_bytes: 8,
    };
    let e = call("invatt-1", 2, "mp-anthropic-realm-personal", manifest(), planned()).unwrap_err();
    assert_eq!(e.kind, ProblemKind::StaleLease);
    let e = call("invatt-1", 1, "mp-other", manifest(), planned()).unwrap_err();
    assert_eq!(e.kind, ProblemKind::NotFound);
    let incomplete = Drafted::Incomplete("i".to_string());
    let e = call("invatt-1", 1, "mp-anthropic-realm-personal", incomplete, planned()).unwrap_err();
    assert_eq!(e.title, "the disclosure manifest is incomplete");
    let no_plan = PlanAnswer::NoPlan("p".to_string());
    let e = call("invatt-1", 1, "mp-anthropic-realm-personal", manifest(), no_plan).unwrap_err();
    assert_eq!(e.title, "the model call cannot be planned");
    let done = call("invatt-1", 1, "mp-anthropic-realm-personal", manifest(), planned()).unwrap();
    assert_eq!(done, (1, 0));
    assert_eq!(broker.effects.rows[0].provider_binding_ref, "mpb-anthropic-realm-personal");
}

/// One whole call, permitted or not, and what was sent by it.
fn whole_call(
    broker: &mut Broker,
    journal: &mut Journal,
    judged: Result<Permit, (PermitError, String)>,
    sent: &Cell<u32>,
) -> Result<Completion, Problem> {
    let providers = served();
    let mut inv = Invocations::new();
    attempt_fixture(&mut inv, "realm-personal", "prj-1", &None, &None, "inv-1", "invatt-1", "then").unwrap();
    let mut r = request();
    r.model_profile_ref = "mp-anthropic-realm-personal";
    complete(
        broker,
        &mut Reservations::new(),
        journal,
        &inv,
        &providers,
        &Episodes::new(),
        &r,
        &act(),
        &SourceFields::Absent,
        "eff-1",
        making(),
        |_: &Disclosure| None,
        |_: &DisclosureAsk, _: &Json| Drafted::Manifest {
            recipient_kind: "model_provider".to_string(),
            record: "{}".to_string(),
            digest: "{}".to_string(),
            digest_hex: "dd".to_string(),
            total_bytes: 8,
        },
        |_: &PlanAsk, _: &Vec<Segment>| planned(),
        &wire(),
        None,
        "con-1",
        |_: &str, _: &Json| Ok("cred".to_string()),
        |_: &Json| receipt("exec-1"),
        |_: &Consumption, _: &Expectation| judged,
        Sending {
            resolve: |reference: &str| {
                assert_eq!(reference, "env:KEY");
                CredentialAnswer::Resolved(7u8)
            },
            attempt_id: "ea-1",
            transport_profile: "direct",
            exchange: |on_record: &Broker, x: Exchange<&str, u8>| {
                sent.set(sent.get() + 1);
                assert_eq!(on_record.attempts.rows[0].state, EffectState::Dispatching);
                assert!(on_record.consumptions.rows[0].spent);
                assert!(matches!(x.claim, Claim::Claimed));
                assert_eq!((x.plan, x.credential, x.permit.record.as_str()), ("the plan", 7, "permit"));
                outcome(EffectState::Completed)
            },
            meter: |_: &Broker, _: &Json| panic!("there is no episode to meter against"),
            measure: split,
            keyed,
            seal: of_reservation,
        },
        "now",
    )
}

#[test]
fn a_whole_call_is_permitted_and_sent_once() {
    let mut broker = Broker::new();
    let mut journal = Journal::new();
    let sent = Cell::new(0);
    let c = whole_call(&mut broker, &mut journal, Ok(permit("permit")), &sent).unwrap();
    assert_eq!((c.effect_id.as_str(), c.effect_attempt_id.as_str()), ("eff-1", "ea-1"));
    assert_eq!((c.state, c.text.as_deref()), (EffectState::Completed, Some("hi")));
    assert_eq!(sent.get(), 1);
    assert_eq!(broker.consumptions.rows[0].permit, "permit");
    let kinds: Vec<EventKind> = journal.events.iter().map(|e| e.kind).collect();
    assert_eq!(
        kinds,
        vec![
            EventKind::ModelEffectPrepared,
            EventKind::ModelEffectAuthorized,
            EventKind::ModelEffectDispatching,
            EventKind::ModelEffectCompleted,
        ]
    );
}

#[test]
fn a_whole_call_without_a_permit_sends_nothing() {
    let mut broker = Broker::new();
    let mut journal = Journal::new();
    let sent = Cell::new(0);
    let refused = Err((PermitError::WrongExecutionKey, "d".to_string()));
    assert!(whole_call(&mut broker, &mut journal, refused, &sent).is_err());
    assert_eq!(sent.get(), 0);
    assert_eq!((broker.effects.rows.len(), broker.consumptions.rows.len()), (1, 1));
    assert!(broker.attempts.rows.is_empty());
    assert!(!broker.consumptions.rows[0].spent);
}

#[test]
fn an_exact_retry_finds_the_same_disclosure() {
    let mut inv = Invocations::new();
    attempt_fixture(&mut inv, "realm-personal", "prj-1", &None, &None, "inv-1", "invatt-1", "then").unwrap();
    let mut broker = Broker::new();
    let providers = served();
    let (profile, binding) = (&providers.profiles.rows[0], &providers.bindings.rows[0]);
    let mut put = |attempt: &str, prompt: &str| {
        let mut r = request();
        r.attempt_id = attempt;
        r.prompt = prompt;
        stage(
            &mut broker,
            &inv,
            &r,
            profile,
            binding,
            making(),
            |_: &Disclosure| None,
            |ask: &DisclosureAsk, _: &Json| {
                // The profile is the one that the call goes to, not the name asked for.
                assert_eq!(r.model_profile_ref, "mp-1");
                assert_eq!(ask.recipient_ref, "model-profile:mp-anthropic-realm-personal");
                Drafted::Manifest {
                    recipient_kind: "model_provider".to_string(),
                    record: "{}".to_string(),
                    digest: "{}".to_string(),
                    digest_hex: "dd".to_string(),
                    total_bytes: 8,
                }
            },
        )
    };
    assert_eq!(put("invatt-9", "hello").unwrap_err().kind, ProblemKind::NotFound);
    assert_eq!(put("invatt-1", "hello").unwrap(), 0);
    assert_eq!(put("invatt-1", "hello").unwrap(), 0);
    assert_eq!(put("invatt-1", "other").unwrap(), 1);
    assert_eq!(broker.disclosures.rows.len(), 2);
    let id = broker.disclosures.rows[0].disclosure_id.as_str();
    assert!(id.starts_with("disc-") && id.len() == 37);
    assert!(id[5..].bytes().all(|b| b.is_ascii_digit() || (b'a'..=b'f').contains(&b)));
    assert_eq!(broker.disclosures.rows[0].created_at, "then");
}
