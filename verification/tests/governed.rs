use koveed::budget::{
    deny, mark_uncertain, read, reconcile_uncertain, release, reservation_of_bridge, reserve,
    reserved, set_subject, settle, settlement_subject, Item, Meter, Parent, Reservation, ReservationState,
    Reservations, ReserveMint,
};
use koveed::credentials::{consume, issue, Credential, Ledger};
use koveed::episode::{
    admit_placement, attempt_subject, byom_episode_binding_show, checkpoint, complete,
    constraint_subject, dependency_subject, episode_claim_request, episode_request,
    episode_start_request, place, placement_admit_request, read_binding, read_placement,
    rebind, start, yield_episode, AdmissionReply,
    BindingState, ClaimReply, EpisodeBinding, EpisodeState, Episodes, Fences, Notice, PlacementMint,
    PlacementRow,
};
use koveed::governance::{
    active_seam, check_no_overlap, confirm_subject, current_slot, enable_finish, enable_resume,
    enable_create, governance_disable, governance_enable, governance_show, observe, reverify, rollback_bindings,
    slot_by_binding, Asked, DependencySet, DisableArgs, EnableArgs, EnableIds, EnableStep,
    EnableSubject, Endpoint, Governance, Grammar, Owner, OwnerBinding, RealmBinding, Seals, SlotState, SocietyAsked,
    SocietyMapping, SocietyView, Standing, Verdict, Verification,
};
use koveed::digests::Keyed;
use koveed::handlers::Realm;
use koveed::journal::{EventKind, Journal, NewEvent};
use koveed::json::{parse, render, Json};
use koveed::problem::{Problem, ProblemKind};
use koveed::table::Table;

fn enable_args() -> EnableArgs {
    EnableArgs {
        society_ref: "soc-1".to_string(),
        byom_endpoint_ref: "local".to_string(),
        exact_scope_selector: "project:a".to_string(),
        allowed_project_and_space_selectors: vec!["project:a".to_string()],
        classification_binding_ref: "cb".to_string(),
        expected_binding_ref: None,
        expected_owner_revision: 0,
        confirmed_subject_digest: None,
    }
}

fn ids(n: u64) -> EnableIds {
    EnableIds {
        enablement_id: format!("en-{}", n),
        binding_ref: format!("bind-{}", n),
        mapping_id: format!("map-{}", n),
    }
}

fn keyed(tag: &str, doc: &Json) -> Keyed {
    let body = render(doc).unwrap();
    let c = if body.contains("battempt-2") { "b" } else { "a" };
    Keyed { text: format!("{} {}", tag, body), hex: c.repeat(64) }
}

fn of_dependencies(d: &DependencySet) -> String {
    format!("dependencies of {} at {}", d.realm_ref, d.realm_revision)
}

fn of_binding(b: &RealmBinding) -> String {
    format!("binding {} at {}", b.binding_ref, b.binding_revision)
}

fn of_owner(o: &OwnerBinding) -> String {
    format!("owner of {} at {}", o.exact_scope_selector, o.revision)
}

fn of_mapping(m: &SocietyMapping) -> String {
    format!("mapping {} under {}", m.mapping_id, m.governance_owner_binding_digest)
}

fn of_subject(s: &EnableSubject) -> String {
    format!("{} {} {}", s.society_ref, s.exact_scope_selector, s.owner_binding_transition)
}

const SUBJECT: &str = "soc-1 project:a none->byom";

type Sealing = Seals<
    fn(&str, &Json) -> Keyed,
    fn(&DependencySet) -> String,
    fn(&RealmBinding) -> String,
    fn(&OwnerBinding) -> String,
    fn(&SocietyMapping) -> String,
>;

fn seals() -> Sealing {
    Seals {
        keyed,
        dependencies: of_dependencies,
        binding: of_binding,
        owner: of_owner,
        mapping: of_mapping,
    }
}

fn society() -> SocietyView {
    SocietyView { state: "active".to_string(), active: true, recovery_epoch: 3 }
}

fn apart(_: &str, _: &str) -> Verdict {
    Verdict::Disjoint
}

fn enable(gov: &mut Governance, journal: &mut Journal, args: &EnableArgs, n: u64) -> Result<EnableStep, Problem> {
    enable_create(
        gov,
        journal,
        "realm-personal",
        args,
        &vec![None, None],
        "project:a",
        "scope-a",
        &of_subject,
        Ok("inc-1".to_string()),
        SocietyAsked::Shown(society()),
        Some(7),
        &apart,
        &ids(n),
        seals(),
    )
}

fn finish(
    gov: &mut Governance,
    journal: &mut Journal,
    hello: Asked<String>,
    seen: Asked<SocietyView>,
) -> Result<koveed::governance::SagaReply, Problem> {
    enable_finish(
        gov,
        journal,
        "realm-personal",
        "scope-a",
        hello,
        seen,
        &None,
        &apart,
        seals(),
    )
}

fn payload(e: &NewEvent) -> String {
    render(e.payload.as_ref().unwrap()).unwrap()
}

fn answer<T>(t: T) -> Asked<T> {
    Asked::Answer(t)
}

fn active() -> (Governance, Journal) {
    let mut gov = Governance::new();
    let mut journal = Journal::new();
    enable(&mut gov, &mut journal, &enable_args(), 1).unwrap();
    finish(&mut gov, &mut journal, answer("inc-1".to_string()), answer(society())).unwrap();
    (gov, journal)
}

#[test]
fn what_is_created_is_inert() {
    let mut gov = Governance::new();
    let mut journal = Journal::new();
    assert!(matches!(enable(&mut gov, &mut journal, &enable_args(), 1), Ok(EnableStep::Proceed)));
    assert_eq!(gov.slots.rows[0].state, SlotState::BindingsCreated);
    assert_eq!(gov.slots.rows[0].binding_epoch, 1);
    assert_eq!(gov.bindings.rows[0].standing, Standing::Pending);
    assert_eq!(gov.owners.rows[0].governance_owner, Owner::Nobody);
    assert!(active_seam(&gov, "realm-personal").is_none());
    let binding = &gov.bindings.rows[0];
    assert_eq!(binding.digest, "binding bind-1 at 1");
    assert_eq!(binding.dependency_digest, "dependencies of realm-personal at 7");
    assert_eq!(
        binding.recovery_authorization_policy_digest,
        "kovee-recovery-policy-v1 {\"mode\":\"disabled\",\
\"policy_ref\":\"recovery-policy-personal-none\"}"
    );
    assert_eq!(gov.owners.rows[0].digest, "owner of project:a at 1");
    assert_eq!(gov.mappings.rows[0].digest, "mapping map-1 under owner of project:a at 1");
    assert_eq!(gov.slots.rows[0].subject_digest_hex, SUBJECT);
    assert_eq!(journal.events[0].kind, EventKind::GovernanceBindingsCreated);
    assert_eq!(
        payload(&journal.events[0]),
        "{\"binding_epoch\":1,\"binding_ref\":\"bind-1\",\"enablement_id\":\"en-1\",\
\"state\":\"bindings_created\"}"
    );
}

#[test]
fn an_activation_makes_a_seam_and_is_repeatable() {
    let (mut gov, mut journal) = active();
    assert_eq!(gov.slots.rows[0].state, SlotState::Active);
    assert_eq!(gov.owners.rows[0].governance_owner, Owner::Byom);
    assert_eq!(gov.owners.rows[0].revision, 2);
    let seam = active_seam(&gov, "realm-personal").unwrap();
    assert_eq!(seam.binding.binding_ref, "bind-1");
    assert_eq!(seam.mapping.society_ref, "soc-1");
    assert_eq!(seam.binding.digest, "binding bind-1 at 2");
    assert_eq!(seam.mapping.digest, "mapping map-1 under owner of project:a at 2");
    let n = journal.events.len();
    match enable(&mut gov, &mut journal, &enable_args(), 2).unwrap() {
        EnableStep::Reply(reply) => {
            assert_eq!((reply.enablement_id.as_str(), reply.revision), ("en-1", 2));
            assert_eq!((reply.state, reply.binding_ref.as_str()), (SlotState::Active, "bind-1"));
            assert_eq!((reply.binding_epoch, reply.mapping_id.as_str()), (1, "map-1"));
            assert_eq!(reply.subject_digest.as_deref(), Some(SUBJECT));
            let society = reply.society.unwrap();
            assert_eq!((society.society_ref.as_str(), society.state.as_str()), ("soc-1", "active"));
            assert_eq!((society.recovery_epoch, reply.reason), (3, None));
        }
        EnableStep::Proceed => panic!("the stored answer was meant"),
    }
    assert_eq!(journal.events.len(), n);
    assert_eq!(current_slot(&gov, "realm-personal", "scope-a"), Some(0));
}

#[test]
fn only_an_answer_rolls_back() {
    let mut gov = Governance::new();
    let mut journal = Journal::new();
    enable(&mut gov, &mut journal, &enable_args(), 1).unwrap();
    let silent = Asked::Silent(Problem::new(ProblemKind::Unavailable, "no answer"));
    let e = finish(&mut gov, &mut journal, silent, answer(society())).unwrap_err();
    assert_eq!(e.title, "no answer");
    assert_eq!(gov.slots.rows[0].state, SlotState::BindingsCreated);
    let e = finish(&mut gov, &mut journal, answer("inc-2".to_string()), answer(society())).unwrap_err();
    assert_eq!(e.title, "the enablement was rolled back before activation");
    assert_eq!(gov.slots.rows[0].state, SlotState::RolledBack);
    assert_eq!(
        gov.slots.rows[0].reason.as_deref(),
        Some("the byom endpoint re-incarnated (inc-1 → inc-2)")
    );
    assert_eq!(gov.owners.rows[0].governance_owner, Owner::Nobody);
    assert_eq!(gov.bindings.rows[0].standing, Standing::Void);
}

fn read_selector(text: &str) -> Result<String, String> {
    if text.contains('!') {
        Err(format!("{} is no selector", text))
    } else {
        Ok(text.to_lowercase())
    }
}

fn scope_of(selector: &str) -> String {
    format!("scope of {}", selector)
}

/// One whole enable command, with what byom says of itself the second time.
fn whole(
    gov: &mut Governance,
    journal: &mut Journal,
    args: &EnableArgs,
    again: Asked<String>,
    asked: &std::cell::Cell<u32>,
) -> Result<koveed::governance::SagaReply, Problem> {
    let mut realms = Table::new();
    realms.rows.push(Realm { realm_id: "realm-personal".to_string(), revision: 7 });
    governance_enable(
        gov,
        journal,
        &realms,
        "realm-personal",
        args,
        Grammar { parse: read_selector, scope: scope_of, overlap: apart },
        of_subject,
        Endpoint {
            hello: |endpoint: &str| {
                assert_eq!(endpoint, "local");
                asked.set(asked.get() + 1);
                Ok("inc-1".to_string())
            },
            society: |endpoint: &str, society_ref: &str| {
                assert_eq!((endpoint, society_ref), ("local", "soc-1"));
                SocietyAsked::Shown(society())
            },
            hello_again: |endpoint: &str| {
                assert_eq!(endpoint, "local");
                asked.set(asked.get() + 1);
                again
            },
            society_again: |endpoint: &str, society_ref: &str| {
                assert_eq!((endpoint, society_ref), ("local", "soc-1"));
                answer(society())
            },
        },
        &ids(1),
        seals(),
    )
}

#[test]
fn a_scope_is_enabled_in_one_go() {
    let (mut gov, mut journal) = (Governance::new(), Journal::new());
    let asked = std::cell::Cell::new(0);
    let same = || answer("inc-1".to_string());
    let mut args = enable_args();
    args.allowed_project_and_space_selectors = vec!["project:a".to_string(), "no!".to_string()];
    let e = whole(&mut gov, &mut journal, &args, same(), &asked).unwrap_err();
    assert_eq!((e.detail.as_deref(), asked.get()), (Some("no! is no selector"), 0));
    let reply = whole(&mut gov, &mut journal, &enable_args(), same(), &asked).unwrap();
    assert_eq!((reply.state, reply.revision, asked.get()), (SlotState::Active, 2, 2));
    assert_eq!(gov.slots.rows[0].exact_scope_digest_hex, "scope of project:a");
    assert_eq!(gov.bindings.rows[0].dependency_digest, "dependencies of realm-personal at 7");
    let n = journal.events.len();
    let again = whole(&mut gov, &mut journal, &enable_args(), same(), &asked).unwrap();
    assert_eq!((again.enablement_id.as_str(), asked.get()), ("en-1", 2));
    assert_eq!(journal.events.len(), n);
}

#[test]
fn an_unanswered_enable_is_taken_up_again() {
    let (mut gov, mut journal) = (Governance::new(), Journal::new());
    let asked = std::cell::Cell::new(0);
    let silent = Asked::Silent(Problem::new(ProblemKind::Unavailable, "no answer"));
    let e = whole(&mut gov, &mut journal, &enable_args(), silent, &asked).unwrap_err();
    assert_eq!(e.title, "no answer");
    assert_eq!(gov.slots.rows[0].state, SlotState::BindingsCreated);
    let reply = whole(&mut gov, &mut journal, &enable_args(), answer("inc-1".to_string()), &asked).unwrap();
    assert_eq!((reply.enablement_id.as_str(), reply.state), ("en-1", SlotState::Active));
    let (mut gov, mut journal) = (Governance::new(), Journal::new());
    let e = whole(&mut gov, &mut journal, &enable_args(), answer("inc-2".to_string()), &asked).unwrap_err();
    assert_eq!(e.title, "the enablement was rolled back before activation");
    assert_eq!(gov.slots.rows[0].state, SlotState::RolledBack);
}

#[test]
fn a_rollback_tells_why_each_time() {
    let mut gov = Governance::new();
    let mut journal = Journal::new();
    enable(&mut gov, &mut journal, &enable_args(), 1).unwrap();
    let pending = {
        let mut other = Governance::new();
        enable(&mut other, &mut Journal::new(), &enable_args(), 1).unwrap();
        other
    };
    let slot = &pending.slots.rows[0];
    for reason in ["moved", "again"] {
        let reply = rollback_bindings(&mut gov, &mut journal, "realm-personal", slot, reason).unwrap();
        assert_eq!((reply.state, reply.reason.as_deref()), (SlotState::RolledBack, Some("moved")));
        assert_eq!((reply.binding_ref.as_str(), reply.binding_epoch, reply.revision), ("bind-1", 1, 1));
        assert!(reply.subject_digest.is_none() && reply.society.is_none());
    }
}

#[test]
fn a_spent_epoch_never_activates() {
    let mut gov = Governance::new();
    let mut journal = Journal::new();
    enable(&mut gov, &mut journal, &enable_args(), 1).unwrap();
    finish(&mut gov, &mut journal, answer("inc-2".to_string()), answer(society())).unwrap_err();
    let e = finish(&mut gov, &mut journal, answer("inc-1".to_string()), answer(society())).unwrap_err();
    assert_eq!(e.title, "this binding epoch is spent");
    let mut again = enable_args();
    again.expected_owner_revision = 1;
    assert!(matches!(enable(&mut gov, &mut journal, &again, 2), Ok(EnableStep::Proceed)));
    assert_eq!(gov.slots.rows[1].binding_epoch, 2);
    finish(&mut gov, &mut journal, answer("inc-1".to_string()), answer(society())).unwrap();
    assert_eq!(gov.slots.rows[1].state, SlotState::Active);
    assert_eq!(gov.slots.rows[0].state, SlotState::RolledBack);
}

#[test]
fn a_society_has_to_be_there_and_active() {
    let p = || Problem::new(ProblemKind::Unavailable, "down");
    assert_eq!(observe(Err(p()), SocietyAsked::Absent).unwrap_err().title, "down");
    let inc = || Ok("inc-1".to_string());
    assert_eq!(
        observe(inc(), SocietyAsked::Absent).unwrap_err().title,
        "no pre-existing Society at the byom endpoint"
    );
    assert_eq!(observe(inc(), SocietyAsked::Failed(p())).unwrap_err().title, "down");
    let idle = SocietyView { state: "draft".to_string(), active: false, recovery_epoch: 1 };
    let e = observe(inc(), SocietyAsked::Shown(idle)).unwrap_err();
    assert!(e.detail.unwrap().starts_with("society_show reports state \"draft\";"));
    let seen = observe(inc(), SocietyAsked::Shown(society())).unwrap();
    assert_eq!((seen.incarnation.as_str(), seen.recovery_epoch), ("inc-1", 3));
}

#[test]
fn the_confirmed_subject_has_to_match() {
    assert!(confirm_subject(&None, "d").is_ok());
    assert!(confirm_subject(&Some("d".to_string()), "d").is_ok());
    let e = confirm_subject(&Some("x".to_string()), "d").unwrap_err();
    assert_eq!(e.title, "the confirmed subject digest does not match");
    let mut gov = Governance::new();
    let mut journal = Journal::new();
    let mut args = enable_args();
    args.confirmed_subject_digest = Some("x".to_string());
    assert!(enable(&mut gov, &mut journal, &args, 1).is_err());
    assert!(gov.slots.rows.is_empty());
}

#[test]
fn verification_names_what_changed() {
    let (gov, _) = active();
    let slot = &gov.slots.rows[0];
    assert!(matches!(reverify(answer("inc-1".to_string()), answer(society()), slot), Verification::Unchanged));
    let moved = SocietyView { state: "active".to_string(), active: true, recovery_epoch: 4 };
    match reverify(answer("inc-1".to_string()), answer(moved), slot) {
        Verification::Definite(d) => assert_eq!(d, "the Society recovery epoch moved (3 → 4)"),
        _ => panic!("a definite answer was meant"),
    }
    let refused = Asked::Refused("gone".to_string(), Problem::new(ProblemKind::NotFound, "x"));
    match reverify(answer("inc-1".to_string()), refused, slot) {
        Verification::Definite(d) => assert_eq!(d, "the Society is no longer readable: gone"),
        _ => panic!("a definite answer was meant"),
    }
}

#[test]
fn a_malformed_selector_is_refused_first() {
    let mut gov = Governance::new();
    let mut journal = Journal::new();
    let e = enable_create(
        &mut gov,
        &mut journal,
        "realm-personal",
        &enable_args(),
        &vec![None, Some("bad selector".to_string())],
        "project:a",
        "scope-a",
        &of_subject,
        Ok("inc-1".to_string()),
        SocietyAsked::Absent,
        Some(7),
        &apart,
        &ids(1),
        seals(),
    )
    .unwrap_err();
    assert_eq!(e.title, "invalid operation arguments");
    assert_eq!(e.detail.as_deref(), Some("bad selector"));
}

#[test]
fn scopes_stay_disjoint() {
    let (gov, _) = active();
    let by_prefix = |asked: &str, stored: &str| {
        assert_eq!(stored, "project:a");
        match asked {
            "project:*" => Verdict::Overlapping,
            "project:a" => Verdict::Overlapping,
            "project:?" => Verdict::Malformed("x".to_string()),
            _ => Verdict::Disjoint,
        }
    };
    let check = |selector: &str, own: &str| {
        check_no_overlap(&gov, "realm-personal", selector, own, &by_prefix)
    };
    assert!(check("project:b", "scope-b").is_ok());
    let e = check("project:*", "scope-b").unwrap_err();
    assert_eq!((e.kind, e.title.as_str()), (ProblemKind::Forbidden, "an overlapping governed scope is already enabled"));
    assert_eq!(check("project:?", "scope-b").unwrap_err().detail.as_deref(), Some("x"));
    assert!(check("project:a", "scope-a").is_ok());
    let mut gov = gov;
    let mut journal = Journal::new();
    let mut wide = |selector: &str| {
        let mut args = enable_args();
        args.exact_scope_selector = selector.to_string();
        enable_create(
            &mut gov,
            &mut journal,
            "realm-personal",
            &args,
            &vec![None, None],
            selector,
            "scope-b",
            &of_subject,
            Ok("inc-1".to_string()),
            SocietyAsked::Shown(society()),
            Some(7),
            &by_prefix,
            &ids(2),
            seals(),
        )
    };
    assert_eq!(wide("project:*").unwrap_err().title, "an overlapping governed scope is already enabled");
    assert!(matches!(wide("project:b"), Ok(EnableStep::Proceed)));
    assert_eq!(gov.slots.rows.len(), 2);
}

#[test]
fn an_activated_slot_is_not_rolled_back() {
    let (mut gov, mut journal) = active();
    let copy = active().0;
    let e = rollback_bindings(&mut gov, &mut journal, "realm-personal", &copy.slots.rows[0], "why").unwrap_err();
    assert_eq!(e.title, "rollback exists only before activation");
    assert!(enable_resume(&gov, "realm-personal", "scope-x").is_err());
    assert_eq!(slot_by_binding(&gov, "realm-personal", "bind-1"), Some(0));
}

#[test]
fn a_disable_ends_the_seam_and_its_credentials() {
    let (mut gov, mut journal) = active();
    let mut ledger = Ledger::new();
    let dpc = issue(
        &mut ledger,
        "realm-personal",
        "bind-1",
        Ok(Credential {
            credential_id: "dpc-1".to_string(),
            issuer_ref: "iss".to_string(),
            nonce: "n".to_string(),
            allowed_operations: vec!["op".to_string()],
            record: String::new(),
            digest_hex: String::new(),
            issued_at: 0,
            expires_at: 1,
        }),
    )
    .unwrap();
    let args = |digest: &str, revision: u64| DisableArgs {
        binding_ref: "bind-1".to_string(),
        confirmed_subject_digest: digest.to_string(),
        expected_owner_revision: revision,
    };
    let disable = |gov: &mut Governance, ledger: &mut Ledger, journal: &mut Journal, a: &DisableArgs| {
        governance_disable(gov, ledger, journal, "realm-personal", a, of_owner, of_binding, 9)
    };
    assert!(disable(&mut gov, &mut ledger, &mut journal, &args("other", 2)).is_err());
    assert!(disable(&mut gov, &mut ledger, &mut journal, &args(SUBJECT, 1)).is_err());
    let reply = disable(&mut gov, &mut ledger, &mut journal, &args(SUBJECT, 2)).unwrap();
    assert_eq!((reply.state, reply.revision), (SlotState::Disabled, 3));
    assert_eq!((reply.binding_ref.as_str(), reply.mapping_id.as_str()), ("bind-1", "map-1"));
    assert!(reply.subject_digest.is_none() && reply.society.is_none());
    assert!(active_seam(&gov, "realm-personal").is_none());
    let e = consume(&mut ledger, &dpc, "op", 10, || Ok(vec![])).unwrap_err();
    assert_eq!(e.title, "the credential was invalidated before use");
    let e = enable_resume(&gov, "realm-personal", "scope-a").unwrap_err();
    assert_eq!(e.title, "this governed scope was disabled");
}

#[test]
fn a_listing_shows_the_recorded_state() {
    let (gov, _) = active();
    let listing = governance_show(&gov, "realm-personal", &None).unwrap();
    assert_eq!(listing.enablements, vec![0]);
    assert_eq!(listing.governance_owner, Owner::Byom);
    assert!(governance_show(&gov, "realm-other", &None).unwrap().enablements.is_empty());
}

// --------------------------------------------------------------- budget ----

fn parent() -> Parent {
    Parent {
        byom_reservation_set_ref: "brs-1".to_string(),
        byom_reservation_set_revision: 1,
        external_budget_bridge_ref: "bridge-1".to_string(),
        stable_external_reservation_key: "key-1".to_string(),
        society_ref: "soc-1".to_string(),
        society_recovery_epoch: 3,
    }
}

fn item(dimension: &str, amount: u64) -> Item {
    Item {
        kovee_account_ref: "acct".to_string(),
        dimension: dimension.to_string(),
        unit: "token".to_string(),
        amount,
        parent_account_ref: "pacct".to_string(),
        parent_account_revision: 1,
        parent_dimension: dimension.to_string(),
        parent_unit: "token".to_string(),
        parent_worst_case_amount: amount,
        parent_delegation_ref: None,
    }
}

fn covered(_: &Item) -> Option<String> {
    None
}

/// The rule that gives back what a trusted meter measured.
fn measured(row: &Reservation, dimension: &str, before: u64, charge: u64, by: Meter) -> Result<u64, String> {
    assert_eq!((row.charged, by), (before, Meter::TrustedBroker));
    assert!(!dimension.is_empty());
    Ok(charge)
}

fn reserve_mint(n: u64) -> ReserveMint {
    ReserveMint {
        reservation_ref: format!("ksr-{}", n),
        created_at: "now".to_string(),
    }
}

fn reserved_state() -> (Reservations, Journal, Governance) {
    let (gov, _) = active();
    let mut res = Reservations::new();
    let mut journal = Journal::new();
    reserve(
        &mut res,
        &mut journal,
        &gov,
        "realm-personal",
        &parent(),
        vec![item("tokens", 60), item("tokens", 40)],
        covered,
        &reserve_mint(1),
        keyed,
        of_reservation,
    )
    .unwrap();
    (res, journal, gov)
}

fn of_reservation(r: &Reservation) -> Result<String, String> {
    Ok(format!("reservation {} at {}", r.subordinate_reservation_ref, r.revision))
}

#[test]
fn a_reservation_is_made_once() {
    let (mut res, mut journal, gov) = reserved_state();
    assert_eq!(res.table.rows[0].state, ReservationState::Confirmed);
    assert_eq!(read(&res, "key-1"), Some(0));
    assert_eq!(
        reservation_of_bridge(&res, "bridge-1"),
        Some(("ksr-1".to_string(), "reservation ksr-1 at 1".to_string()))
    );
    let again = reserve(
        &mut res,
        &mut journal,
        &gov,
        "realm-personal",
        &parent(),
        vec![item("tokens", 1)],
        covered,
        &reserve_mint(2),
        keyed,
        of_reservation,
    )
    .unwrap();
    assert_eq!(again, 0);
    assert_eq!(res.table.rows.len(), 1);
    assert_eq!(reserved(&res.table.rows[0].items, "tokens"), 100);
    assert_eq!(reserved(&res.table.rows[0].items, "other"), 0);
}

#[test]
fn nothing_is_reserved_without_a_seam() {
    let mut res = Reservations::new();
    let mut journal = Journal::new();
    let e = reserve(
        &mut res,
        &mut journal,
        &Governance::new(),
        "realm-personal",
        &parent(),
        vec![item("tokens", 1)],
        covered,
        &reserve_mint(1),
        keyed,
        of_reservation,
    )
    .unwrap_err();
    assert_eq!(e.kind, ProblemKind::Forbidden);
    assert!(res.table.rows.is_empty());
}

#[test]
fn a_settlement_conserves() {
    let (mut res, mut journal, _) = reserved_state();
    let by = Meter::TrustedBroker;
    let s = settle(&mut res, &mut journal, "ksr-1", "tokens", 30, by, measured, "us-1", keyed, of_reservation).unwrap();
    assert_eq!((s.charged, s.remainder), (30, 70));
    assert_eq!(
        payload(journal.events.last().unwrap()),
        "{\"charged\":30,\"dimension\":\"tokens\",\"remainder\":70,\"reserved\":100,\
\"state\":\"settled\",\"usage_settlement_ref\":\"us-1\"}"
    );
    let row = &res.table.rows[0];
    assert_eq!(row.state, ReservationState::Settled);
    assert_eq!((row.charged, row.released_lifetime), (30, 70));
    assert_eq!(row.digest, "reservation ksr-1 at 2");
    assert_eq!(
        row.usage_settlement_digest.as_deref(),
        Some(
            "kovee-usage-settlement-v1 {\"charged\":30,\"dimension\":\"tokens\",\
\"stable_external_reservation_key\":\"key-1\",\"usage_settlement_ref\":\"us-1\"}"
        )
    );
    let n = journal.events.len();
    let again = settle(
        &mut res,
        &mut journal,
        "ksr-1",
        "tokens",
        1,
        Meter::TrustedBroker,
        measured,
        "us-2",
        keyed, of_reservation,
    )
    .unwrap();
    assert_eq!((again.charged, again.remainder), (30, 70));
    assert_eq!(res.table.rows[0].charged, 30);
    assert_eq!(journal.events.len(), n);
}

#[test]
fn an_unmeasured_charge_settles_nothing() {
    let (mut res, mut journal, _) = reserved_state();
    let by = Meter::TrustedBroker;
    let refused = |_: &Reservation, _: &str, _: u64, _: u64, _: Meter| Err("no trusted meter".to_string());
    assert!(settle(&mut res, &mut journal, "ksr-1", "tokens", 30, by, refused, "us-1", keyed, of_reservation).is_err());
    assert_eq!(res.table.rows[0].state, ReservationState::Confirmed);
    assert!(settle(&mut res, &mut journal, "ksr-9", "tokens", 30, by, measured, "us-1", keyed, of_reservation).is_err());
    release(&mut res, &mut journal, "ksr-1").unwrap();
    assert!(settle(&mut res, &mut journal, "ksr-1", "tokens", 30, by, measured, "us-1", keyed, of_reservation).is_err());
}

#[test]
fn what_a_participant_reports_settles_nothing() {
    let trusting = |_: &Reservation, _: &str, _: u64, charge: u64, _: Meter| Ok(charge);
    for by in [Meter::ParticipantReport, Meter::WorkerReport] {
        let (mut res, mut journal, _) = reserved_state();
        let n = journal.events.len();
        let r = settle(&mut res, &mut journal, "ksr-1", "tokens", 30, by, trusting, "us-1", keyed, of_reservation);
        assert_eq!(r.unwrap_err().title, "the settlement is not admissible");
        assert_eq!(res.table.rows[0].state, ReservationState::Confirmed);
        assert_eq!((res.table.rows[0].charged, journal.events.len()), (0, n));
    }
    let (mut res, mut journal, _) = reserved_state();
    let by = Meter::ProviderReceipt;
    let s = settle(&mut res, &mut journal, "ksr-1", "tokens", 30, by, trusting, "us-1", keyed, of_reservation);
    assert_eq!(s.unwrap().charged, 30);
}

#[test]
fn a_record_that_is_not_admissible_is_not_kept() {
    let none = |r: &Reservation| -> Result<String, String> { Err(format!("not at {}", r.revision)) };
    let (gov, _) = active();
    let (mut res, mut journal) = (Reservations::new(), Journal::new());
    let e = reserve(
        &mut res,
        &mut journal,
        &gov,
        "realm-personal",
        &parent(),
        vec![item("tokens", 1)],
        covered,
        &reserve_mint(1),
        keyed,
        none,
    )
    .unwrap_err();
    assert_eq!(e.title, "the subordinate reservation is not admissible");
    assert_eq!(e.detail.as_deref(), Some("not at 1"));
    assert!(res.table.rows.is_empty() && journal.events.is_empty());
    let (mut res, mut journal, _) = reserved_state();
    let n = journal.events.len();
    let by = Meter::TrustedBroker;
    let e = settle(&mut res, &mut journal, "ksr-1", "tokens", 30, by, measured, "us-1", keyed, none).unwrap_err();
    assert_eq!(e.title, "the settled reservation is not admissible");
    assert_eq!((e.detail.as_deref(), journal.events.len()), (Some("not at 2"), n));
    assert_eq!((res.table.rows[0].state, res.table.rows[0].revision), (ReservationState::Confirmed, 1));
}

#[test]
fn an_item_above_its_parent_is_not_reserved() {
    let (gov, _) = active();
    let mut res = Reservations::new();
    let mut journal = Journal::new();
    let mut put = |items: Vec<Item>, refusing: bool| {
        let check = |i: &Item| if refusing && i.amount == 7 { Some("seven".to_string()) } else { None };
        reserve(&mut res, &mut journal, &gov, "realm-personal", &parent(), items, check, &reserve_mint(1), keyed, of_reservation)
    };
    let mut above = item("tokens", 61);
    above.parent_worst_case_amount = 60;
    assert!(put(vec![item("tokens", 1), above], false).is_err());
    let mut other = item("tokens", 1);
    other.parent_unit = "second".to_string();
    assert!(put(vec![other], false).is_err());
    let e = put(vec![item("tokens", 1), item("tokens", 7)], true).unwrap_err();
    assert!(e.detail.unwrap().contains("seven"));
    assert_eq!(put(vec![item("tokens", 1), item("tokens", 7)], false).unwrap(), 0);
    assert_eq!(res.table.rows.len(), 1);
}

#[test]
fn a_release_gives_everything_back() {
    let (mut res, mut journal, _) = reserved_state();
    assert_eq!(release(&mut res, &mut journal, "ksr-1").unwrap(), 100);
    assert_eq!(res.table.rows[0].state, ReservationState::Released);
    assert!(release(&mut res, &mut journal, "ksr-9").is_err());
}

#[test]
fn an_uncertain_reservation_is_held() {
    let (mut res, mut journal, _) = reserved_state();
    assert!(mark_uncertain(&mut res, &mut journal, "key-9", "lost").is_err());
    mark_uncertain(&mut res, &mut journal, "key-1", "lost").unwrap();
    assert_eq!(res.table.rows[0].state, ReservationState::Uncertain);
    assert!(reconcile_uncertain(&mut res, &mut journal, "ksr-1", "dec-1", false).is_err());
    assert_eq!(res.table.rows[0].state, ReservationState::Uncertain);
    assert_eq!(reconcile_uncertain(&mut res, &mut journal, "ksr-1", "dec-1", true).unwrap(), 100);
    assert_eq!(res.table.rows[0].state, ReservationState::Released);
}

#[test]
fn a_denied_reservation_gives_back_what_it_held() {
    let (mut res, mut journal, _) = reserved_state();
    deny(&mut res, &mut journal, &parent(), "no").unwrap();
    assert_eq!(res.table.rows[0].state, ReservationState::Denied);
    let last = journal.events.last().unwrap();
    assert_eq!(last.kind, EventKind::SubordinateDenied);
    assert!(last.once);
    assert_eq!(payload(last), "{\"charged\":0,\"reason\":\"no\",\"state\":\"denied\"}");
}

#[test]
fn an_uncertain_reservation_is_not_denied() {
    let (mut res, mut journal, _) = reserved_state();
    mark_uncertain(&mut res, &mut journal, "key-1", "lost").unwrap();
    let n = journal.events.len();
    let e = deny(&mut res, &mut journal, &parent(), "no").unwrap_err();
    assert_eq!(e.kind, ProblemKind::Ambiguous);
    assert_eq!(res.table.rows[0].state, ReservationState::Uncertain);
    assert_eq!(journal.events.len(), n);
}

#[test]
fn a_charged_reservation_is_not_denied() {
    let (mut res, mut journal, _) = reserved_state();
    settle(&mut res, &mut journal, "ksr-1", "tokens", 30, Meter::TrustedBroker, measured, "us-1", keyed, of_reservation).unwrap();
    let e = deny(&mut res, &mut journal, &parent(), "no").unwrap_err();
    assert_eq!(e.kind, ProblemKind::Forbidden);
    assert_eq!(
        (res.table.rows[0].state, res.table.rows[0].charged),
        (ReservationState::Settled, 30)
    );
}

#[test]
fn a_charge_above_the_reserved_amount_is_refused() {
    let (mut res, mut journal, _) = reserved_state();
    let e = settle(
        &mut res,
        &mut journal,
        "ksr-1",
        "tokens",
        101,
        Meter::TrustedBroker,
        measured,
        "us-1",
        keyed, of_reservation,
    )
    .unwrap_err();
    assert_eq!(e.title, "the settlement is not admissible");
    assert_eq!(res.table.rows[0].state, ReservationState::Confirmed);
    let s = settle(&mut res, &mut journal, "ksr-1", "tokens", 100, Meter::TrustedBroker, measured, "us-1", keyed, of_reservation).unwrap();
    assert_eq!((s.charged, s.remainder), (100, 0));
}

#[test]
fn a_transition_leaves_an_audit_line_about_its_event() {
    let (mut res, mut journal, _) = reserved_state();
    mark_uncertain(&mut res, &mut journal, "key-1", "lost").unwrap();
    let line = journal.audits.last().unwrap();
    assert_eq!(line.event, "subordinate-reservation.transition");
    assert_eq!(line.detail, "reservation=ksr-1 event=");
    assert_eq!(line.about, Some(EventKind::SubordinateUncertain));
}

// ------------------------------------------------------------- episodes ----

fn unmoved(_: Fences, _: Fences) -> String {
    panic!("no fence is missed")
}

fn notice() -> Notice {
    Notice {
        society_ref: "soc-1".to_string(),
        recovery_epoch: 3,
        participant_ref: "part-1".to_string(),
        participant_binding_epoch: 1,
        manifestation_ref: "man-1".to_string(),
        activity_stream_ref: "as-1".to_string(),
        generation: 1,
        resource_allocation_ref: "alloc-1".to_string(),
        mandate_use_refs: vec!["mu-1".to_string()],
        byom_budget_reservation_ref: "bbr-1".to_string(),
        external_budget_bridge_ref: "bridge-1".to_string(),
        context_manifest_ref: "cm-1".to_string(),
    }
}

fn placement_mint(n: u64) -> PlacementMint {
    PlacementMint {
        placement_id: format!("place-{}", n),
        created_at: "now".to_string(),
    }
}

fn of_placement(p: &PlacementRow) -> String {
    format!("placement {} over {}", p.placement_id, p.digest)
}

fn of_episode(b: &EpisodeBinding) -> String {
    format!("episode {} over {}", b.episode_ref, b.digest)
}

fn version() -> Json {
    parse("\"bpp-1\"").unwrap()
}

fn text_of(j: &Json) -> String {
    render(j).unwrap()
}

fn claim_reply() -> Result<ClaimReply, Problem> {
    Ok(ClaimReply {
        byom_attempt_ref: Some("battempt-1".to_string()),
        byom_fence_epoch: Some(5),
    })
}

fn admission(revision: u64) -> Result<AdmissionReply, Problem> {
    Ok(AdmissionReply {
        admission_id: Some("adm-1".to_string()),
        kovee_placement_revision: Some(revision),
        digest: "addig".to_string(),
    })
}

fn started() -> (Episodes, Journal, Governance, Reservations) {
    let (res, _, gov) = reserved_state();
    let mut eps = Episodes::new();
    let mut journal = Journal::new();
    place(&mut eps, &gov, "realm-personal", &notice(), "inv-1", &placement_mint(1), keyed, of_placement).unwrap();
    admit_placement(&mut eps, "place-1", &version(), |_: &Json| admission(1), "now").unwrap();
    start(
        &mut eps,
        &mut journal,
        &gov,
        &res,
        "place-1",
        &notice(),
        &version(),
        |asked: &Json| {
            assert!(text_of(asked).contains("\"op\":\"episode_request\""));
            Ok(Some("ep-1".to_string()))
        },
        |asked: &Json| {
            assert!(text_of(asked).contains("\"episode_ref\":\"ep-1\""));
            claim_reply()
        },
        |asked: &Json| {
            assert!(text_of(asked).contains("\"byom_fence_epoch\":5"));
            Ok(())
        },
        "now",
        keyed,
        of_episode,
    )
    .unwrap();
    (eps, journal, gov, res)
}

fn key(c: &str) -> String {
    format!("ebk-{}", c.repeat(32))
}

#[test]
fn an_allocation_is_placed_once() {
    let (gov, _) = active();
    let mut eps = Episodes::new();
    assert_eq!(place(&mut eps, &gov, "realm-personal", &notice(), "inv-1", &placement_mint(1), keyed, of_placement).unwrap(), 0);
    assert_eq!(place(&mut eps, &gov, "realm-personal", &notice(), "inv-2", &placement_mint(2), keyed, of_placement).unwrap(), 0);
    assert_eq!(eps.placements.rows.len(), 1);
    let placed = &eps.placements.rows[0];
    assert_eq!(placed.host_runtime_binding, "kovee-runtime:realm-personal");
    assert_eq!(
        placed.resource_allocation_digest,
        "kovee-placement-binding-v1 {\"resource_allocation_ref\":\"alloc-1\"}"
    );
    assert_eq!(placed.digest, format!("placement place-1 over {}", "0".repeat(64)));
    let mut other = notice();
    other.recovery_epoch = 4;
    let e = place(&mut eps, &gov, "realm-personal", &other, "inv-1", &placement_mint(3), keyed, of_placement).unwrap_err();
    assert_eq!(e.detail.as_deref(), Some("the active mapping covers \"soc-1\" at epoch 3"));
}

#[test]
fn no_stage_is_skipped() {
    let (res, _, gov) = reserved_state();
    let mut eps = Episodes::new();
    let mut journal = Journal::new();
    place(&mut eps, &gov, "realm-personal", &notice(), "inv-1", &placement_mint(1), keyed, of_placement).unwrap();
    let begin = |eps: &mut Episodes, journal: &mut Journal, requested, claimed| {
        start(
            eps,
            journal,
            &gov,
            &res,
            "place-1",
            &notice(),
            &version(),
            |_: &Json| requested,
            |_: &Json| claimed,
            |_: &Json| panic!("nothing is started"),
            "now",
            keyed,
            of_episode,
        )
    };
    let e = begin(&mut eps, &mut journal, Ok(Some("ep-1".to_string())), claim_reply()).unwrap_err();
    assert_eq!(e.title, "no episode work before byom admits the placement");
    let e = admit_placement(&mut eps, "place-1", &version(), |_: &Json| admission(2), "now").unwrap_err();
    assert_eq!(e.title, "the placement admission pins another placement revision");
    admit_placement(&mut eps, "place-1", &version(), |_: &Json| admission(1), "now").unwrap();
    admit_placement(&mut eps, "place-1", &version(), |_: &Json| panic!("it is admitted"), "later")
        .unwrap();
    assert_eq!(eps.placements.rows[0].admitted_at.as_deref(), Some("now"));
    let e = begin(&mut eps, &mut journal, Ok(None), claim_reply()).unwrap_err();
    assert_eq!(e.detail.as_deref(), Some("the runtime reply carries no episode_ref"));
    let unfenced = Ok(ClaimReply { byom_attempt_ref: Some("x".to_string()), byom_fence_epoch: None });
    let e = begin(&mut eps, &mut journal, Ok(Some("ep-1".to_string())), unfenced).unwrap_err();
    assert_eq!(e.detail.as_deref(), Some("episode_claim returned no byom_fence_epoch"));
    assert!(eps.bindings.rows.is_empty());
}

#[test]
fn a_started_episode_is_bound_under_both_fences() {
    let (eps, journal, _, _) = started();
    let b = &eps.bindings.rows[0];
    assert_eq!(b.stable_binding_key, key("a"));
    assert_eq!(read_binding(&eps, &key("a")).unwrap().episode_ref, "ep-1");
    assert!(read_binding(&eps, &key("b")).is_none());
    assert_eq!(read_placement(&eps, "place-1").unwrap().kovee_invocation_ref, "inv-1");
    assert!(read_placement(&eps, "place-2").is_none());
    assert_eq!(b.fences, Fences { byom: 5, kovee: 1 });
    assert_eq!(b.kovee_subordinate_reservation_ref, "ksr-1");
    assert_eq!(b.kovee_subordinate_reservation_digest, "reservation ksr-1 at 1");
    assert_eq!(
        b.dependency_digest,
        "kovee-byom-episode-binding-v1 {\"admission_ref\":\"adm-1\",\
\"placement_id\":\"place-1\",\"resource_allocation_ref\":\"alloc-1\"}"
    );
    assert_eq!(b.digest, format!("episode ep-1 over {}", "0".repeat(64)));
    assert_eq!(
        b.allowed_local_commitments,
        vec!["contribution_append".to_string(), "attention_mark".to_string()]
    );
    assert!(eps.placements.rows[0].started);
    assert_eq!(journal.events[0].kind, EventKind::EpisodeBound);
}

#[test]
fn a_missed_fence_is_final() {
    let (mut eps, mut journal, _, _) = started();
    let good = Fences { byom: 5, kovee: 1 };
    let bad = Fences { byom: 5, kovee: 2 };
    checkpoint(&mut eps, &mut journal, &key("a"), good, unmoved).unwrap();
    let e = checkpoint(&mut eps, &mut journal, &key("a"), bad, |bound: Fences, shown: Fences| {
        assert_eq!((bound.kovee, shown.kovee), (1, 2));
        "kovee fence moved".to_string()
    })
    .unwrap_err();
    assert_eq!(e.kind, ProblemKind::StaleLease);
    assert!(e.detail.unwrap().starts_with("kovee fence moved; a successor attempt"));
    assert_eq!(eps.bindings.rows[0].state, BindingState::Fenced);
    assert_eq!(
        payload(journal.events.last().unwrap()),
        "{\"bound_byom_fence_epoch\":5,\"bound_kovee_invocation_fence\":1,\
\"presented_byom_fence_epoch\":5,\"presented_kovee_invocation_fence\":2,\
\"refused\":\"checkpoint_commit\"}"
    );
    let e = checkpoint(&mut eps, &mut journal, &key("a"), good, unmoved).unwrap_err();
    assert_eq!(e.title, "this episode binding is terminal");
    assert_eq!(
        e.detail.as_deref(),
        Some("the binding is \"fenced\": checkpoint_commit advances nothing")
    );
}

#[test]
fn an_episode_yields_to_a_new_binding() {
    let (mut eps, mut journal, gov, res) = started();
    let good = Fences { byom: 5, kovee: 1 };
    let y = yield_episode(&mut eps, &mut journal, &key("a"), good, "cont-1", unmoved).unwrap();
    assert_eq!((y.episode_ref.as_str(), y.continuation_ref.as_str()), ("ep-1", "cont-1"));
    let at = rebind(
        &mut eps,
        &mut journal,
        &gov,
        &res,
        "realm-personal",
        "place-1",
        &notice(),
        "ep-1",
        "battempt-2",
        Fences { byom: 6, kovee: 1 },
        "now",
        keyed,
        of_episode,
    )
    .unwrap();
    assert_eq!(eps.bindings.rows[at].stable_binding_key, key("b"));
    let (rows, events) = (eps.bindings.rows.len(), journal.events.len());
    let again = rebind(
        &mut eps,
        &mut journal,
        &gov,
        &res,
        "realm-personal",
        "place-1",
        &notice(),
        "ep-1",
        "battempt-2",
        Fences { byom: 9, kovee: 9 },
        "later",
        keyed,
        of_episode,
    )
    .unwrap();
    assert_eq!((again, eps.bindings.rows.len(), journal.events.len()), (at, rows, events));
    assert_eq!(eps.bindings.rows[at].fences, Fences { byom: 6, kovee: 1 });
    complete(&mut eps, &mut journal, &key("b"), Fences { byom: 6, kovee: 1 }, unmoved).unwrap();
    assert_eq!(eps.bindings.rows[at].episode_state, EpisodeState::Completed);
    assert!(complete(&mut eps, &mut journal, &key("b"), Fences { byom: 6, kovee: 1 }, unmoved).is_err());
    assert_eq!(
        byom_episode_binding_show(&eps, "realm-personal", &None, &Some("ep-1".to_string())).unwrap().len(),
        2
    );
    assert_eq!(
        byom_episode_binding_show(&eps, "realm-personal", &Some(key("b")), &None).unwrap(),
        vec![at]
    );
}

fn text(j: Json) -> String {
    render(&j).unwrap()
}

#[test]
fn what_byom_is_asked_of_an_episode() {
    let (eps, _, _, _) = started();
    let placed = &eps.placements.rows[0];
    let version = parse("\"bpp-1\"").unwrap();
    assert_eq!(
        text(placement_admit_request(&version, placed)),
        "{\"kovee_fence_epoch\":1,\"kovee_placement_digest\":null,\
\"kovee_placement_ref\":\"place-1\",\"kovee_placement_revision\":1,\
\"meta\":{\"expected_endpoint_incarnation\":\"kovee-runtime:realm-personal\",\
\"expected_recovery_epoch\":0,\"idempotency_key\":\"admit-place-1\",\
\"request_id\":\"req-place-1\"},\"op\":\"placement_admit\",\
\"resource_allocation_digest\":null,\"resource_allocation_ref\":\"alloc-1\",\
\"version\":\"bpp-1\"}"
    );
    assert_eq!(
        text(episode_request(&version, &notice())),
        "{\"activity_stream_ref\":\"as-1\",\"generation\":1,\"op\":\"episode_request\",\
\"participant_ref\":\"part-1\",\"resource_allocation_ref\":\"alloc-1\",\
\"version\":\"bpp-1\"}"
    );
    assert_eq!(
        text(episode_claim_request(&version, "ep-1", placed)),
        "{\"episode_ref\":\"ep-1\",\"kovee_fence_epoch\":1,\
\"kovee_placement_ref\":\"place-1\",\"op\":\"episode_claim\",\"version\":\"bpp-1\"}"
    );
    assert_eq!(
        text(episode_start_request(&version, "ep-1", "ba-1", Fences { byom: 5, kovee: 1 })),
        "{\"byom_attempt_ref\":\"ba-1\",\"byom_fence_epoch\":5,\"episode_ref\":\"ep-1\",\
\"kovee_invocation_fence\":1,\"op\":\"episode_start\",\"version\":\"bpp-1\"}"
    );
}

#[test]
fn what_is_digested_of_an_episode_and_a_budget() {
    let (eps, _, _, _) = started();
    let placed = &eps.placements.rows[0];
    assert_eq!(
        text(constraint_subject(&notice())),
        "{\"activity_stream_ref\":\"as-1\",\"generation\":1,\
\"mandate_use_refs\":[\"mu-1\"],\"manifestation_ref\":\"man-1\"}"
    );
    assert_eq!(
        text(attempt_subject("ep-1", "ba-1", placed)),
        "{\"byom_attempt_ref\":\"ba-1\",\"episode_ref\":\"ep-1\",\
\"kovee_invocation_ref\":\"inv-1\"}"
    );
    assert_eq!(
        text(dependency_subject(placed, &notice())),
        "{\"admission_ref\":\"adm-1\",\"placement_id\":\"place-1\",\
\"resource_allocation_ref\":\"alloc-1\"}"
    );
    assert_eq!(
        text(set_subject(&parent())),
        "{\"byom_reservation_set_ref\":\"brs-1\",\"revision\":1}"
    );
    assert_eq!(
        text(settlement_subject("us-1", "key-1", "unit", 10)),
        "{\"charged\":10,\"dimension\":\"unit\",\
\"stable_external_reservation_key\":\"key-1\",\"usage_settlement_ref\":\"us-1\"}"
    );
}

#[test]
fn a_charge_and_what_returns_are_what_was_reserved() {
    let (gov, _) = active();
    let mut res = Reservations::new();
    let mut journal = Journal::new();
    let mut make = || {
        reserve(
            &mut res,
            &mut journal,
            &gov,
            "realm-personal",
            &parent(),
            vec![item("unit", 40)],
            covered,
            &reserve_mint(1),
            keyed,
            of_reservation,
        )
        .unwrap()
    };
    let first = make();
    assert_eq!(first, make());
    let settled = settle(
        &mut res,
        &mut journal,
        "ksr-1",
        "unit",
        10,
        Meter::TrustedBroker,
        measured,
        "us-1",
        keyed, of_reservation,
    )
    .unwrap();
    assert_eq!(settled.charged + settled.remainder, 40);
}
