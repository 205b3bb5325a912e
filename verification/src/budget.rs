//! The subordinate reservation bridge: what this realm reserves under a
//! reservation of byom's, never above it, once per stable key, and settled
//! only from a trusted meter.
//!
//! The states without a release are the point: an `uncertain` reservation
//! stays reserved until the reconciliation seat, freshly challenged, lets go.

use vstd::prelude::*;

use crate::digests::{keyed_text, keys_all, Keyed};
use crate::governance::{active_seam, seam_of, Governance, RealmBinding, SocietyMapping};
use crate::journal::{Actor, ActorView, EventKind, EventView, Journal, JournalView, NewEvent};
use crate::json::{bool_member, members, number_member, object, put, put_bool, put_number,
    put_text, read_stored, stored, text_member, Json, JsonView};
use crate::problem::{not_found, not_found_view, problem, refusal, refusal_with, Problem,
    ProblemKind, ProblemView};
use crate::table::{key1, Key, Row, Table};
use crate::text::{cat2, cat3, cat5, decimal, decimal_of, opt_view, quoted, quoted_text, same};

use vstd::string::*;

verus! {

/// The byom-owned parent that a reservation hangs off. None of it is
/// invented here.
#[derive(Debug)]
pub struct Parent {
    pub byom_reservation_set_ref: String,
    pub byom_reservation_set_revision: u64,
    pub external_budget_bridge_ref: String,
    pub stable_external_reservation_key: String,
    pub society_ref: String,
    pub society_recovery_epoch: u64,
}

/// One reserved amount, under the parent amount that bounds it.
#[derive(Debug)]
pub struct Item {
    pub kovee_account_ref: String,
    pub dimension: String,
    pub unit: String,
    pub amount: u64,
    pub parent_account_ref: String,
    pub parent_account_revision: u64,
    pub parent_dimension: String,
    pub parent_unit: String,
    pub parent_worst_case_amount: u64,
    pub parent_delegation_ref: Option<String>,
}

/// Never above the parent: an item may narrow what its parent covers, and never
/// reshapes or exceeds it.
pub open spec fn covered(item: Item) -> bool {
    &&& item.amount <= item.parent_worst_case_amount
    &&& item.dimension@ == item.parent_dimension@
    &&& item.unit@ == item.parent_unit@
}

fn is_covered(item: &Item) -> (r: bool)
    ensures
        r == covered(*item),
{
    item.amount <= item.parent_worst_case_amount && same(
        item.dimension.as_str(),
        item.parent_dimension.as_str(),
    ) && same(item.unit.as_str(), item.parent_unit.as_str())
}

/// What measured a use. Only a broker's own meter or a verified receipt of the
/// provider is trusted; what a participant or a worker reports is evidence.
#[derive(Debug, Clone, Copy, PartialEq, Eq, Structural)]
pub enum Meter {
    TrustedBroker,
    ProviderReceipt,
    ParticipantReport,
    WorkerReport,
}

impl Meter {
    pub open spec fn is_trusted(self) -> bool {
        self is TrustedBroker || self is ProviderReceipt
    }

    pub fn trusted(self) -> (r: bool)
        ensures
            r == self.is_trusted(),
    {
        match self {
            Meter::TrustedBroker => true,
            Meter::ProviderReceipt => true,
            Meter::ParticipantReport => false,
            Meter::WorkerReport => false,
        }
    }
}

#[derive(Debug, Clone, Copy, PartialEq, Eq, Structural)]
pub enum ReservationState {
    Requested,
    Confirmed,
    Denied,
    Uncertain,
    Settled,
    Released,
}

impl ReservationState {
    pub open spec fn name(self) -> Seq<char> {
        match self {
            ReservationState::Requested => "requested"@,
            ReservationState::Confirmed => "confirmed"@,
            ReservationState::Denied => "denied"@,
            ReservationState::Uncertain => "uncertain"@,
            ReservationState::Settled => "settled"@,
            ReservationState::Released => "released"@,
        }
    }

    pub fn as_str(self) -> (r: &'static str)
        ensures
            r@ == self.name(),
    {
        match self {
            ReservationState::Requested => "requested",
            ReservationState::Confirmed => "confirmed",
            ReservationState::Denied => "denied",
            ReservationState::Uncertain => "uncertain",
            ReservationState::Settled => "settled",
            ReservationState::Released => "released",
        }
    }
}

/// One subordinate reservation, with what was charged against it and what
/// was ever returned from it.
#[derive(Debug)]
pub struct Reservation {
    pub subordinate_reservation_ref: String,
    pub revision: u64,
    pub realm_ref: String,
    pub realm_byom_binding_ref: String,
    pub realm_byom_binding_epoch: u64,
    pub society_ref: String,
    pub society_recovery_epoch: u64,
    pub byom_reservation_set_ref: String,
    pub byom_reservation_set_revision: u64,
    pub byom_reservation_set_digest: String,
    pub external_budget_bridge_ref: String,
    pub stable_external_reservation_key: String,
    pub items: Vec<Item>,
    pub state: ReservationState,
    pub usage_settlement_ref: Option<String>,
    pub usage_settlement_digest: Option<String>,
    pub created_at: String,
    pub digest: String,
    pub charged: u64,
    pub released_lifetime: u64,
}

impl Row for Reservation {
    open spec fn key(&self) -> Key {
        key1(self.subordinate_reservation_ref@)
    }

    fn has_key(&self, a: &str, b: &str) -> (r: bool) {
        proof {
            crate::text::empty_is(b@);
        }
        same(self.subordinate_reservation_ref.as_str(), a) && b.is_empty()
    }
}

/// Every subordinate reservation of this daemon.
pub struct Reservations {
    pub table: Table<Reservation>,
}

/// No stable key holds two reservations.
pub open spec fn stable_distinct(rows: Seq<Reservation>) -> bool {
    forall|i: int, j: int|
        0 <= i < j < rows.len() ==> (#[trigger] rows[i]).stable_external_reservation_key@ != (
        #[trigger] rows[j]).stable_external_reservation_key@
}

impl Reservations {
    pub open spec fn wf(&self) -> bool {
        &&& self.table.wf()
        &&& stable_distinct(self.table.rows@)
        &&& forall|i: int|
            0 <= i < self.table.rows@.len() ==> untouched_before_settling(
                #[trigger] self.table.rows@[i],
            )
        &&& forall|i: int|
            0 <= i < self.table.rows@.len() ==> under_parent(#[trigger] self.table.rows@[i])
    }

    pub fn new() -> (r: Reservations)
        ensures
            r.wf(),
            r.table.rows@.len() == 0,
    {
        Reservations { table: Table::new() }
    }
}

/// Nothing is charged against, or returned from, what has not settled.
pub open spec fn untouched_before_settling(r: Reservation) -> bool {
    r.state is Requested || r.state is Confirmed ==> r.charged == 0 && r.released_lifetime == 0
}

/// Whether every item of a reservation is within what its parent covers.
pub open spec fn under_parent(r: Reservation) -> bool {
    forall|i: int| 0 <= i < r.items@.len() ==> covered(#[trigger] r.items@[i])
}

/// Whether the reservation at `i` is the one of a stable key.
pub open spec fn of_key(rows: Seq<Reservation>, key: Seq<char>, i: int) -> bool {
    0 <= i < rows.len() && rows[i].stable_external_reservation_key@ == key
}

/// The reservation of a stable key.
pub fn read(res: &Reservations, stable_key: &str) -> (r: Option<usize>)
    ensures
        match r {
            Some(i) => of_key(res.table.rows@, stable_key@, i as int),
            None => forall|i: int| !#[trigger] of_key(res.table.rows@, stable_key@, i),
        },
{
    let mut i: usize = 0;
    while i < res.table.rows.len()
        invariant
            i <= res.table.rows.len(),
            forall|j: int| j < i ==> !#[trigger] of_key(res.table.rows@, stable_key@, j),
        decreases res.table.rows.len() - i,
    {
        if same(res.table.rows[i].stable_external_reservation_key.as_str(), stable_key) {
            return Some(i);
        }
        i = i + 1;
    }
    None
}

/// The reservation that a bridge row pins: its reference and its digest.
pub fn reservation_of_bridge(res: &Reservations, bridge_ref: &str) -> (r: Option<(String, String)>)
    ensures
        match r {
            Some(p) => exists|i: int|
                {
                    &&& 0 <= i < res.table.rows@.len()
                    &&& (#[trigger] res.table.rows@[i]).external_budget_bridge_ref@ == bridge_ref@
                    &&& p.0@ == res.table.rows@[i].subordinate_reservation_ref@
                    &&& p.1@ == res.table.rows@[i].digest@
                    &&& forall|j: int|
                        0 <= j < i ==> (#[trigger] res.table.rows@[j]).external_budget_bridge_ref@
                            != bridge_ref@
                },
            None => forall|j: int|
                0 <= j < res.table.rows@.len() ==> (
                #[trigger] res.table.rows@[j]).external_budget_bridge_ref@ != bridge_ref@,
        },
{
    let mut i: usize = 0;
    while i < res.table.rows.len()
        invariant
            i <= res.table.rows.len(),
            forall|j: int|
                0 <= j < i ==> (#[trigger] res.table.rows@[j]).external_budget_bridge_ref@
                    != bridge_ref@,
        decreases res.table.rows.len() - i,
    {
        if same(res.table.rows[i].external_budget_bridge_ref.as_str(), bridge_ref) {
            return Some(
                (
                    res.table.rows[i].subordinate_reservation_ref.clone(),
                    res.table.rows[i].digest.clone(),
                ),
            );
        }
        i = i + 1;
    }
    None
}

// --------------------------------------------------------------- events ----

impl JournalView {
    /// A transition is told by its event and by an audit line.
    pub open spec fn with_reservation_event(self, e: EventView) -> JournalView {
        self.with_transition("subordinate-reservation.transition"@, "reservation="@ + e.stream_id + " event="@, e)
    }
}

/// The event of one transition.
pub open spec fn transition(kind: EventKind, r: Reservation, payload: JsonView) -> EventView {
    EventView {
        kind,
        stream_id: r.subordinate_reservation_ref@,
        project_id: None,
        actor: ActorView::Owner,
        schema_ref: "schema:kovee-byom-subordinate-reservation-v1"@,
        resource_ref: r.subordinate_reservation_ref@,
        resource_revision: None,
        causation_ref: None,
        correlation_ref: r.external_budget_bridge_ref@,
        classification_ref: None,
        payload: Some(payload),
        once: true,
        named: None,
    }
}

fn append_transition(journal: &mut Journal, kind: EventKind, r: &Reservation, payload: Json)
    ensures
        final(journal)@ == old(journal)@.with_reservation_event(transition(kind, *r, payload@)),
{
    let detail = cat3("reservation=", r.subordinate_reservation_ref.as_str(), " event=");
    journal.transition(
        "subordinate-reservation.transition",
        detail.as_str(),
        NewEvent {
            kind,
            stream_id: r.subordinate_reservation_ref.clone(),
            project_id: None,
            actor: Actor::Owner,
            schema_ref: "schema:kovee-byom-subordinate-reservation-v1".to_owned(),
            resource_ref: r.subordinate_reservation_ref.clone(),
            resource_revision: None,
            causation_ref: None,
            correlation_ref: r.external_budget_bridge_ref.clone(),
            classification_ref: None,
            payload: Some(payload),
            once: true,
            named: None,
        },
    );
}

/// What is announced of a reservation that is asked for.
pub open spec fn requested_document() -> JsonView {
    JsonView::Object(
        seq![
            text_member("state"@, "requested"@),
        ],
    )
}

/// What is announced of a reservation that is asked for.
fn requested_payload() -> (r: Json)
    ensures
        r@ == requested_document(),
{
    let mut v: Vec<(String, Json)> = Vec::new();
    put_text(&mut v, "state", "requested");
    proof {
        assert(members(v@) =~= requested_document()->Object_0);
    }
    object(v)
}

/// What is announced of a confirmed reservation: what the bridge pins.
pub open spec fn confirmed_document(r: Reservation) -> JsonView {
    JsonView::Object(
        seq![
            ("digest"@, stored(r.digest@)),
            number_member("revision"@, r.revision),
            text_member("state"@, "confirmed"@),
            text_member("subordinate_reservation_ref"@, r.subordinate_reservation_ref@),
        ],
    )
}

/// What is announced of a confirmed reservation: what the bridge pins.
fn confirmed_payload(r: &Reservation) -> (j: Json)
    ensures
        j@ == confirmed_document(*r),
{
    let mut v: Vec<(String, Json)> = Vec::new();
    put(&mut v, "digest", read_stored(r.digest.as_str()));
    put_number(&mut v, "revision", r.revision);
    put_text(&mut v, "state", "confirmed");
    put_text(&mut v, "subordinate_reservation_ref", r.subordinate_reservation_ref.as_str());
    proof {
        assert(members(v@) =~= confirmed_document(*r)->Object_0);
    }
    object(v)
}

/// What is announced of a denied reservation.
pub open spec fn denied_document(reason: Seq<char>) -> JsonView {
    JsonView::Object(
        seq![
            number_member("charged"@, 0),
            text_member("reason"@, reason),
            text_member("state"@, "denied"@),
        ],
    )
}

/// What is announced of a denied reservation.
fn denied_payload(reason: &str) -> (r: Json)
    ensures
        r@ == denied_document(reason@),
{
    let mut v: Vec<(String, Json)> = Vec::new();
    put_number(&mut v, "charged", 0);
    put_text(&mut v, "reason", reason);
    put_text(&mut v, "state", "denied");
    proof {
        assert(members(v@) =~= denied_document(reason@)->Object_0);
    }
    object(v)
}

/// What is announced of a reservation whose outcome is unknown.
pub open spec fn uncertain_document(detail: Seq<char>) -> JsonView {
    JsonView::Object(
        seq![
            bool_member("byom_reservation_released"@, false),
            text_member("detail"@, detail),
            text_member("only_release"@, "R38 budget_reconcile with a fresh challenge"@),
            bool_member("spend_blocked"@, true),
            text_member("state"@, "uncertain"@),
        ],
    )
}

/// What is announced of a reservation whose outcome is unknown.
fn uncertain_payload(detail: &str) -> (r: Json)
    ensures
        r@ == uncertain_document(detail@),
{
    let mut v: Vec<(String, Json)> = Vec::new();
    put_bool(&mut v, "byom_reservation_released", false);
    put_text(&mut v, "detail", detail);
    put_text(&mut v, "only_release", "R38 budget_reconcile with a fresh challenge");
    put_bool(&mut v, "spend_blocked", true);
    put_text(&mut v, "state", "uncertain");
    proof {
        assert(members(v@) =~= uncertain_document(detail@)->Object_0);
    }
    object(v)
}

/// What is announced of a settled reservation.
pub open spec fn settled_document(
    dimension: Seq<char>,
    settlement: Settlement,
    reserved: u64,
    usage_settlement_ref: Seq<char>,
) -> JsonView {
    JsonView::Object(
        seq![
            number_member("charged"@, settlement.charged),
            text_member("dimension"@, dimension),
            number_member("remainder"@, settlement.remainder),
            number_member("reserved"@, reserved),
            text_member("state"@, "settled"@),
            text_member("usage_settlement_ref"@, usage_settlement_ref),
        ],
    )
}

/// What is announced of a settled reservation.
fn settled_payload(
    dimension: &str,
    settlement: &Settlement,
    reserved: u64,
    usage_settlement_ref: &str,
) -> (r: Json)
    ensures
        r@ == settled_document(dimension@, *settlement, reserved, usage_settlement_ref@),
{
    let mut v: Vec<(String, Json)> = Vec::new();
    put_number(&mut v, "charged", settlement.charged);
    put_text(&mut v, "dimension", dimension);
    put_number(&mut v, "remainder", settlement.remainder);
    put_number(&mut v, "reserved", reserved);
    put_text(&mut v, "state", "settled");
    put_text(&mut v, "usage_settlement_ref", usage_settlement_ref);
    proof {
        assert(members(v@) =~= settled_document(
            dimension@,
            *settlement,
            reserved,
            usage_settlement_ref@,
        )->Object_0);
    }
    object(v)
}

/// What is announced of a released reservation.
pub open spec fn released_document(charged: u64, remainder: u64) -> JsonView {
    JsonView::Object(
        seq![
            number_member("charged"@, charged),
            bool_member("released_lifetime_is_audit_counter"@, true),
            number_member("released_remainder"@, remainder),
            text_member("state"@, "released"@),
        ],
    )
}

/// What is announced of a released reservation.
fn released_payload(charged: u64, remainder: u64) -> (r: Json)
    ensures
        r@ == released_document(charged, remainder),
{
    let mut v: Vec<(String, Json)> = Vec::new();
    put_number(&mut v, "charged", charged);
    put_bool(&mut v, "released_lifetime_is_audit_counter", true);
    put_number(&mut v, "released_remainder", remainder);
    put_text(&mut v, "state", "released");
    proof {
        assert(members(v@) =~= released_document(charged, remainder)->Object_0);
    }
    object(v)
}

/// What is announced of a reservation that a decision released.
pub open spec fn reconciled_document(decision_ref: Seq<char>, remainder: u64) -> JsonView {
    JsonView::Object(
        seq![
            text_member("decision_ref"@, decision_ref),
            number_member("released_remainder"@, remainder),
            text_member("state"@, "released"@),
            text_member("via"@, "budget_reconcile"@),
        ],
    )
}

/// What is announced of a reservation that a decision released.
fn reconciled_payload(decision_ref: &str, remainder: u64) -> (r: Json)
    ensures
        r@ == reconciled_document(decision_ref@, remainder),
{
    let mut v: Vec<(String, Json)> = Vec::new();
    put_text(&mut v, "decision_ref", decision_ref);
    put_number(&mut v, "released_remainder", remainder);
    put_text(&mut v, "state", "released");
    put_text(&mut v, "via", "budget_reconcile");
    proof {
        assert(members(v@) =~= reconciled_document(decision_ref@, remainder)->Object_0);
    }
    object(v)
}

// -------------------------------------------------- what is digested ----

/// What the digest of a bridge's reservation set is taken over.
pub open spec fn set_document(parent: Parent) -> JsonView {
    JsonView::Object(
        seq![
            text_member("byom_reservation_set_ref"@, parent.byom_reservation_set_ref@),
            number_member("revision"@, parent.byom_reservation_set_revision),
        ],
    )
}

/// What the digest of a bridge's reservation set is taken over.
pub fn set_subject(parent: &Parent) -> (r: Json)
    ensures
        r@ == set_document(*parent),
{
    let mut v: Vec<(String, Json)> = Vec::new();
    put_text(&mut v, "byom_reservation_set_ref", parent.byom_reservation_set_ref.as_str());
    put_number(&mut v, "revision", parent.byom_reservation_set_revision);
    proof {
        assert(members(v@) =~= set_document(*parent)->Object_0);
    }
    object(v)
}

/// What the digest of a settlement is taken over.
pub open spec fn settlement_document(
    usage_settlement_ref: Seq<char>,
    stable_key: Seq<char>,
    dimension: Seq<char>,
    charged: u64,
) -> JsonView {
    JsonView::Object(
        seq![
            number_member("charged"@, charged),
            text_member("dimension"@, dimension),
            text_member("stable_external_reservation_key"@, stable_key),
            text_member("usage_settlement_ref"@, usage_settlement_ref),
        ],
    )
}

/// What the digest of a settlement is taken over.
pub fn settlement_subject(
    usage_settlement_ref: &str,
    stable_key: &str,
    dimension: &str,
    charged: u64,
) -> (r: Json)
    ensures
        r@ == settlement_document(usage_settlement_ref@, stable_key@, dimension@, charged),
{
    let mut v: Vec<(String, Json)> = Vec::new();
    put_number(&mut v, "charged", charged);
    put_text(&mut v, "dimension", dimension);
    put_text(&mut v, "stable_external_reservation_key", stable_key);
    put_text(&mut v, "usage_settlement_ref", usage_settlement_ref);
    proof {
        assert(members(v@) =~= settlement_document(
            usage_settlement_ref@,
            stable_key@,
            dimension@,
            charged,
        )->Object_0);
    }
    object(v)
}

// -------------------------------------------------------------- reserve ----

/// What a new reservation is minted with.
#[derive(Debug)]
pub struct ReserveMint {
    pub reservation_ref: String,
    pub created_at: String,
}

/// Whether a reservation is admissible, and its digest what its sealing function
/// made of it; a digest never covers itself.
pub open spec fn reservation_sealed<S: Fn(&Reservation) -> Result<String, String>>(
    seal: S,
    r: Reservation,
) -> bool {
    exists|draft: &Reservation, out: String|
        {
            &&& *draft == (Reservation { digest: draft.digest, items: draft.items, ..r })
            &&& draft.items@ == r.items@
            &&& out@ == r.digest@
            &&& #[trigger] seal.ensures((draft,), Ok(out))
        }
}

/// Whether a check finds nothing against an item that its parent covers.
pub open spec fn item_passes<K: Fn(&Item) -> Option<String>>(check: K, item: Item) -> bool {
    check.ensures((&item,), None) && covered(item)
}

/// Whether `e` is what is said against an item: what the check found, or that
/// its parent does not cover it.
pub open spec fn item_fails<K: Fn(&Item) -> Option<String>>(check: K, item: Item, e: Seq<char>) -> bool {
    ||| exists|t: String| t@ == e && #[trigger] check.ensures((&item,), Some(t))
    ||| check.ensures((&item,), None) && !covered(item) && e
        == "the parent does not cover the item"@
}

/// Whether the items were checked in order: the first that fails, and what is
/// said against it, or none.
pub open spec fn items_checked<K: Fn(&Item) -> Option<String>>(
    check: K,
    items: Seq<Item>,
    fault: Option<(int, Seq<char>)>,
) -> bool {
    match fault {
        None => forall|i: int| 0 <= i < items.len() ==> item_passes(check, #[trigger] items[i]),
        Some((k, e)) => {
            &&& 0 <= k < items.len()
            &&& forall|i: int| 0 <= i < k ==> item_passes(check, #[trigger] items[i])
            &&& item_fails(check, items[k], e)
        },
    }
}

spec fn fault_of(found: Option<(usize, String)>) -> Option<(int, Seq<char>)> {
    match found {
        Some((k, e)) => Some((k as int, e@)),
        None => None,
    }
}

fn check_items<K: Fn(&Item) -> Option<String>>(check: K, items: &Vec<Item>) -> (r: Option<
    (usize, String),
>)
    requires
        forall|item: &Item| #[trigger] check.requires((item,)),
    ensures
        items_checked(check, items@, fault_of(r)),
        r matches Some((k, _)) ==> k < items.len(),
{
    let mut k: usize = 0;
    while k < items.len()
        invariant
            k <= items.len(),
            forall|item: &Item| #[trigger] check.requires((item,)),
            forall|i: int| 0 <= i < k ==> item_passes(check, #[trigger] items@[i]),
        decreases items.len() - k,
    {
        let found = check(&items[k]);
        if let Some(e) = found {
            proof {
                assert(check.ensures((&items@[k as int],), Some(e)));
                assert(item_fails(check, items@[k as int], e@));
            }
            return Some((k, e));
        }
        if !is_covered(&items[k]) {
            let e = "the parent does not cover the item".to_owned();
            proof {
                assert(item_fails(check, items@[k as int], e@));
            }
            return Some((k, e));
        }
        k = k + 1;
    }
    None
}

pub open spec fn above_parent(index: int, e: Seq<char>) -> ProblemView {
    refusal_with(
        ProblemKind::BudgetExceeded,
        "the subordinate reservation would exceed its byom parent"@,
        "item "@ + decimal_of(index as nat) + ": "@ + e + " (§11.4, family contract L32)"@,
    )
}

/// Why no reservation is made, in the order in which the checks run.
pub open spec fn reserve_refusal(
    seam: Option<(RealmBinding, SocietyMapping)>,
    parent: Parent,
    fault: Option<(int, Seq<char>)>,
) -> Option<ProblemView> {
    match fault {
        Some((i, e)) => Some(above_parent(i, e)),
        None => match seam {
            None => Some(
                refusal_with(
                    ProblemKind::Forbidden,
                    "this realm has no active governed-work binding"@,
                    "a budget bridge is pinned to the realm binding epoch (L2)"@,
                ),
            ),
            Some((_, mapping)) => if mapping.society_ref@ != parent.society_ref@
                || mapping.society_recovery_epoch != parent.society_recovery_epoch {
                Some(
                    refusal(
                        ProblemKind::StaleRevision,
                        "the bridge names another Society or recovery epoch"@,
                    ),
                )
            } else {
                None
            },
        },
    }
}

pub open spec fn key_taken_view() -> ProblemView {
    refusal(
        ProblemKind::IdempotencyMismatch,
        "this stable external reservation key already holds a reservation"@,
    )
}

/// Whether the finished record of a reserve is refused, and with that problem.
pub open spec fn reserve_unsealed<G: Fn(&str, &Json) -> Keyed, S: Fn(&Reservation) -> Result<String, String>>(
    realm: Seq<char>,
    seam: (RealmBinding, SocietyMapping),
    parent: Parent,
    items: Seq<Item>,
    mint: ReserveMint,
    keyed: G,
    seal: S,
    p: ProblemView,
) -> bool {
    exists|draft: &Reservation, e: String|
        {
            &&& reserved_draft(*draft, realm, seam, parent, items, mint, keyed)
            &&& #[trigger] seal.ensures((draft,), Err(e))
            &&& p == refusal_with(
                ProblemKind::BudgetExceeded,
                "the subordinate reservation is not admissible"@,
                e@,
            )
        }
}

/// The reservation that a successful reserve records: confirmed, at revision
/// one, pinned to the seam and to the parent, and sealed.
pub open spec fn reserved_row<G: Fn(&str, &Json) -> Keyed, S: Fn(&Reservation) -> Result<String, String>>(
    r: Reservation,
    realm: Seq<char>,
    seam: (RealmBinding, SocietyMapping),
    parent: Parent,
    items: Seq<Item>,
    mint: ReserveMint,
    keyed: G,
    seal: S,
) -> bool {
    reserved_draft(r, realm, seam, parent, items, mint, keyed) && reservation_sealed(seal, r)
}

/// What a reserve makes a record of, but for its digest.
pub open spec fn reserved_draft<G: Fn(&str, &Json) -> Keyed>(
    r: Reservation,
    realm: Seq<char>,
    seam: (RealmBinding, SocietyMapping),
    parent: Parent,
    items: Seq<Item>,
    mint: ReserveMint,
    keyed: G,
) -> bool {
    &&& r.subordinate_reservation_ref@ == mint.reservation_ref@
    &&& r.revision == 1
    &&& r.realm_ref@ == realm
    &&& r.realm_byom_binding_ref@ == seam.0.binding_ref@
    &&& r.realm_byom_binding_epoch == seam.0.binding_epoch
    &&& r.society_ref@ == parent.society_ref@
    &&& r.society_recovery_epoch == parent.society_recovery_epoch
    &&& r.byom_reservation_set_ref@ == parent.byom_reservation_set_ref@
    &&& r.byom_reservation_set_revision == parent.byom_reservation_set_revision
    &&& keyed_text(
        keyed,
        "kovee-byom-subordinate-reservation-v1"@,
        set_document(parent),
        r.byom_reservation_set_digest@,
    )
    &&& r.external_budget_bridge_ref@ == parent.external_budget_bridge_ref@
    &&& r.stable_external_reservation_key@ == parent.stable_external_reservation_key@
    &&& r.items@ == items
    &&& r.state is Confirmed
    &&& r.usage_settlement_ref is None
    &&& r.usage_settlement_digest is None
    &&& r.created_at@ == mint.created_at@
    &&& r.charged == 0
    &&& r.released_lifetime == 0
}

/// What asking for a reservation does and answers.
pub open spec fn reserve_outcome<
    K: Fn(&Item) -> Option<String>,
    G: Fn(&str, &Json) -> Keyed,
    S: Fn(&Reservation) -> Result<String, String>,
>(
    res: Reservations,
    res_after: Reservations,
    journal: JournalView,
    journal_after: JournalView,
    gov: Governance,
    realm: Seq<char>,
    parent: Parent,
    items: Vec<Item>,
    check: K,
    mint: ReserveMint,
    keyed: G,
    seal: S,
    r: Result<usize, Problem>,
) -> bool {
    &&& r is Err ==> res_after == res && journal_after == journal
    &&& if exists|i: int| #[trigger]
        of_key(res.table.rows@, parent.stable_external_reservation_key@, i) {
        &&& r is Ok
        &&& of_key(
            res.table.rows@,
            parent.stable_external_reservation_key@,
            r->Ok_0 as int,
        )
        &&& res_after == res
        &&& journal_after == journal
    } else {
        exists|fault: Option<(int, Seq<char>)>|
            {
                &&& #[trigger] items_checked(check, items@, fault)
                &&& match reserve_refusal(seam_of(gov, realm), parent, fault) {
                    Some(p) => r is Err && r->Err_0@ == p,
                    None => if r is Err {
                        ||| reserve_unsealed(
                            realm,
                            seam_of(gov, realm)->0,
                            parent,
                            items@,
                            mint,
                            keyed,
                            seal,
                            r->Err_0@,
                        )
                        ||| res.table@.contains_key(key1(mint.reservation_ref@))
                            && r->Err_0@ == key_taken_view()
                    } else {
                        let row = res_after.table.rows@.last();
                        &&& !res.table@.contains_key(key1(mint.reservation_ref@))
                        &&& r->Ok_0 == res.table.rows@.len()
                        &&& res_after.table.rows@ == res.table.rows@.push(row)
                        &&& reserved_row(
                            row,
                            realm,
                            seam_of(gov, realm)->0,
                            parent,
                            items@,
                            mint,
                            keyed,
                            seal,
                        )
                        &&& journal_after == journal.with_reservation_event(
                            transition(EventKind::SubordinateRequested, row, requested_document()),
                        ).with_reservation_event(
                            transition(
                                EventKind::SubordinateConfirmed,
                                row,
                                confirmed_document(row),
                            ),
                        )
                        &&& under_parent(row)
                    },
                }
            }
    }
}

/// Reserves under a parent, once per stable key: a repeat answers the
/// reservation that stands. Each item is checked, in order, and must be within
/// what its parent covers. The answer is the reservation's position.
pub fn reserve<
    K: Fn(&Item) -> Option<String>,
    G: Fn(&str, &Json) -> Keyed,
    S: Fn(&Reservation) -> Result<String, String>,
>(
    res: &mut Reservations,
    journal: &mut Journal,
    gov: &Governance,
    realm: &str,
    parent: &Parent,
    items: Vec<Item>,
    check: K,
    mint: &ReserveMint,
    keyed: G,
    seal: S,
) -> (r: Result<usize, Problem>)
    requires
        keys_all(keyed),
        forall|r: &Reservation| #[trigger] seal.requires((r,)),
        old(res).wf(),
        gov.wf(),
        forall|item: &Item| #[trigger] check.requires((item,)),
    ensures
        final(res).wf(),
        reserve_outcome(
            *old(res),
            *final(res),
            old(journal)@,
            final(journal)@,
            *gov,
            realm@,
            *parent,
            items,
            check,
            *mint,
            keyed,
            seal,
            r,
        ),
{
    if let Some(i) = read(res, parent.stable_external_reservation_key.as_str()) {
        return Ok(i);
    }
    let found = check_items(check, &items);
    let ghost fault = fault_of(found);
    proof {
        assert(items_checked(check, items@, fault));
    }
    match found {
        None => {},
        Some((k, e)) => {
            let n = decimal(k as u64);
            let detail = cat5(
                "item ",
                n.as_str(),
                ": ",
                e.as_str(),
                " (§11.4, family contract L32)",
            );
            return Err(
                problem(
                    ProblemKind::BudgetExceeded,
                    "the subordinate reservation would exceed its byom parent",
                    detail.as_str(),
                ),
            );
        },
    }
    let seam = match active_seam(gov, realm) {
        None => {
            return Err(
                problem(
                    ProblemKind::Forbidden,
                    "this realm has no active governed-work binding",
                    "a budget bridge is pinned to the realm binding epoch (L2)",
                ),
            );
        },
        Some(s) => s,
    };
    if !same(seam.mapping.society_ref.as_str(), parent.society_ref.as_str())
        || seam.mapping.society_recovery_epoch != parent.society_recovery_epoch {
        return Err(
            Problem::new(
                ProblemKind::StaleRevision,
                "the bridge names another Society or recovery epoch",
            ),
        );
    }
    proof {
        reveal_strlit("");
        crate::text::empty_is(""@);
    }
    let set_doc = set_subject(parent);
    let set = keyed("kovee-byom-subordinate-reservation-v1", &set_doc);
    proof {
        assert(keyed_text(
            keyed,
            "kovee-byom-subordinate-reservation-v1"@,
            set_doc@,
            set.text@,
        ));
    }
    let mut row = Reservation {
        subordinate_reservation_ref: mint.reservation_ref.clone(),
        revision: 1,
        realm_ref: realm.to_owned(),
        realm_byom_binding_ref: seam.binding.binding_ref.clone(),
        realm_byom_binding_epoch: seam.binding.binding_epoch,
        society_ref: seam.mapping.society_ref.clone(),
        society_recovery_epoch: seam.mapping.society_recovery_epoch,
        byom_reservation_set_ref: parent.byom_reservation_set_ref.clone(),
        byom_reservation_set_revision: parent.byom_reservation_set_revision,
        byom_reservation_set_digest: set.text,
        external_budget_bridge_ref: parent.external_budget_bridge_ref.clone(),
        stable_external_reservation_key: parent.stable_external_reservation_key.clone(),
        items,
        state: ReservationState::Confirmed,
        usage_settlement_ref: None,
        usage_settlement_digest: None,
        created_at: mint.created_at.clone(),
        digest: String::new(),
        charged: 0,
        released_lifetime: 0,
    };
    let ghost draft = row;
    let sealed = match seal(&row) {
        Ok(d) => {
            proof {
                assert(seal.ensures((&draft,), Ok(d)));
            }
            d
        },
        Err(e) => {
            proof {
                assert(seal.ensures((&draft,), Err(e)));
            }
            return Err(
                problem(
                    ProblemKind::BudgetExceeded,
                    "the subordinate reservation is not admissible",
                    e.as_str(),
                ),
            );
        },
    };
    row.digest = sealed;
    proof {
        assert(seal.ensures((&draft,), Ok(sealed)));
        assert(reservation_sealed(seal, row));
    }
    if res.table.position(mint.reservation_ref.as_str(), "").is_some() {
        return Err(
            Problem::new(
                ProblemKind::IdempotencyMismatch,
                "this stable external reservation key already holds a reservation",
            ),
        );
    }
    append_transition(journal, EventKind::SubordinateRequested, &row, requested_payload());
    let payload = confirmed_payload(&row);
    append_transition(journal, EventKind::SubordinateConfirmed, &row, payload);
    let at: usize = res.table.rows.len();
    res.table.insert(row);
    proof {
        let b = old(res).table.rows@;
        let a = res.table.rows@;
        assert forall|i: int, j: int| 0 <= i < j < a.len() implies (
        #[trigger] a[i]).stable_external_reservation_key@ != (
        #[trigger] a[j]).stable_external_reservation_key@ by {
            assert(a[i] == b[i]);
            if j < b.len() {
                assert(a[j] == b[j]);
            } else {
                assert(!of_key(b, parent.stable_external_reservation_key@, i));
            }
        }
        assert forall|i: int| 0 <= i < a.len() implies untouched_before_settling(#[trigger] a[i]) by {
            if i < b.len() {
                assert(a[i] == b[i]);
            }
        }
        assert forall|i: int| 0 <= i < a.len() implies under_parent(#[trigger] a[i]) by {
            if i < b.len() {
                assert(a[i] == b[i]);
                assert(under_parent(b[i]));
            } else {
                assert forall|j: int| 0 <= j < items@.len() implies covered(#[trigger] items@[j]) by {
                    assert(item_passes(check, items@[j]));
                }
            }
        }
    }
    Ok(at)
}

// ------------------------------------------------------ plain transitions ----

/// Moving the reservation at `i` to another state, and nothing else of it.
pub open spec fn moved(
    before: Reservations,
    after: Reservations,
    i: int,
    state: ReservationState,
) -> bool {
    after.table.rows@ == before.table.rows@.update(
        i,
        Reservation { state, ..before.table.rows@[i] },
    )
}

fn set_state(res: &mut Reservations, i: usize, state: ReservationState)
    requires
        old(res).wf(),
        i < old(res).table.rows.len(),
        state !is Requested,
        state !is Confirmed,
    ensures
        final(res).wf(),
        moved(*old(res), *final(res), i as int, state),
{
    res.table.rows[i].state = state;
    proof {
        let b = old(res).table.rows@;
        let a = res.table.rows@;
        assert(a =~= b.update(i as int, Reservation { state, ..b[i as int] }));
        crate::table::table_updated(old(res).table, res.table, i as int, a[i as int]);
        assert forall|p: int, q: int| 0 <= p < q < a.len() implies (
        #[trigger] a[p]).stable_external_reservation_key@ != (
        #[trigger] a[q]).stable_external_reservation_key@ by {
            assert(b[p].stable_external_reservation_key@ != b[q].stable_external_reservation_key@);
        }
        assert forall|p: int| 0 <= p < a.len() implies untouched_before_settling(#[trigger] a[p]) by {
            assert(untouched_before_settling(b[p]));
        }
        assert forall|p: int| 0 <= p < a.len() implies under_parent(#[trigger] a[p]) by {
            assert(under_parent(b[p]));
        }
    }
}

/// Records a transition of the reservation of a stable key.
fn transition_by_key(
    res: &mut Reservations,
    journal: &mut Journal,
    stable_key: &str,
    state: ReservationState,
    kind: EventKind,
    payload: Json,
) -> (r: Result<(), Problem>)
    requires
        old(res).wf(),
        state !is Requested,
        state !is Confirmed,
    ensures
        final(res).wf(),
        r is Err <==> forall|i: int| !#[trigger] of_key(old(res).table.rows@, stable_key@, i),
        r is Err ==> r->Err_0@ == not_found_view() && *final(res) == *old(res)
            && final(journal)@ == old(journal)@,
        r is Ok ==> forall|i: int| #[trigger]
            of_key(old(res).table.rows@, stable_key@, i) ==> moved(
                *old(res),
                *final(res),
                i,
                state,
            ) && final(journal)@ == old(journal)@.with_reservation_event(
                transition(kind, old(res).table.rows@[i], payload@),
            ),
{
    match read(res, stable_key) {
        None => Err(not_found()),
        Some(i) => {
            append_transition(journal, kind, &res.table.rows[i], payload);
            set_state(res, i, state);
            proof {
                let b = old(res).table.rows@;
                assert forall|k: int| #[trigger] of_key(b, stable_key@, k) implies k == i by {
                    if k < i {
                        assert(b[k].stable_external_reservation_key@
                            != b[i as int].stable_external_reservation_key@);
                    } else if i < k {
                        assert(b[i as int].stable_external_reservation_key@
                            != b[k].stable_external_reservation_key@);
                    }
                }
            }
            Ok(())
        },
    }
}

/// Why a reservation is not denied. A denial is definite only where nothing was
/// ever charged, and the one way out of `uncertain` is a reconciliation.
pub open spec fn deny_refusal(row: Reservation) -> Option<ProblemView> {
    if row.state is Uncertain {
        Some(uncertain_view())
    } else if row.charged > 0 {
        Some(
            refusal_with(
                ProblemKind::Forbidden,
                "only an uncharged reservation is denied"@,
                "a definite denial releases only demonstrably unspent reservations"@,
            ),
        )
    } else {
        None
    }
}

/// What denying a reservation does and answers.
pub open spec fn deny_outcome(
    res: Reservations,
    res_after: Reservations,
    journal: JournalView,
    journal_after: JournalView,
    parent: Parent,
    reason: Seq<char>,
    r: Result<(), Problem>,
) -> bool {
    &&& r is Err ==> res_after == res && journal_after == journal
    &&& (forall|i: int| !#[trigger]
        of_key(res.table.rows@, parent.stable_external_reservation_key@, i)) ==> r is Err
        && r->Err_0@ == not_found_view()
    &&& forall|i: int| #[trigger]
        of_key(res.table.rows@, parent.stable_external_reservation_key@, i) ==> {
            let row = res.table.rows@[i];
            match deny_refusal(row) {
                Some(p) => r is Err && r->Err_0@ == p,
                None => {
                    &&& r is Ok
                    &&& moved(res, res_after, i, ReservationState::Denied)
                    &&& journal_after == journal.with_reservation_event(
                        transition(
                            EventKind::SubordinateDenied,
                            row,
                            denied_document(reason),
                        ),
                    )
                },
            }
        }
}

/// The definite denial: nothing was ever charged.
pub fn deny(
    res: &mut Reservations,
    journal: &mut Journal,
    parent: &Parent,
    reason: &str,
) -> (r: Result<(), Problem>)
    requires
        old(res).wf(),
    ensures
        final(res).wf(),
        deny_outcome(
            *old(res),
            *final(res),
            old(journal)@,
            final(journal)@,
            *parent,
            reason@,
            r,
        ),
{
    let key = parent.stable_external_reservation_key.as_str();
    if let Some(i) = read(res, key) {
        proof {
            assert forall|k: int| #[trigger] of_key(res.table.rows@, key@, k) implies k == i by {
                created_once(*res, key@, k, i as int);
            }
        }
        if res.table.rows[i].state == ReservationState::Uncertain {
            return Err(uncertain_problem());
        }
        if res.table.rows[i].charged > 0 {
            return Err(
                problem(
                    ProblemKind::Forbidden,
                    "only an uncharged reservation is denied",
                    "a definite denial releases only demonstrably unspent reservations",
                ),
            );
        }
    }
    transition_by_key(
        res,
        journal,
        key,
        ReservationState::Denied,
        EventKind::SubordinateDenied,
        denied_payload(reason),
    )
}

/// What leaving a reservation uncertain does and answers.
pub open spec fn uncertain_outcome(
    res: Reservations,
    res_after: Reservations,
    journal: JournalView,
    journal_after: JournalView,
    stable_key: Seq<char>,
    detail: Seq<char>,
    r: Result<(), Problem>,
) -> bool {
    &&& r is Err <==> forall|i: int| !#[trigger] of_key(res.table.rows@, stable_key, i)
    &&& r is Err ==> r->Err_0@ == not_found_view() && res_after == res
        && journal_after == journal
    &&& r is Ok ==> forall|i: int| #[trigger]
        of_key(res.table.rows@, stable_key, i) ==> moved(
            res,
            res_after,
            i,
            ReservationState::Uncertain,
        ) && journal_after == journal.with_reservation_event(
            transition(
                EventKind::SubordinateUncertain,
                res.table.rows@[i],
                uncertain_document(detail),
            ),
        )
}

/// An unknown outcome is a recorded fact, not a decision: nothing is
/// released, and spend stays blocked.
pub fn mark_uncertain(
    res: &mut Reservations,
    journal: &mut Journal,
    stable_key: &str,
    detail: &str,
) -> (r: Result<(), Problem>)
    requires
        old(res).wf(),
    ensures
        final(res).wf(),
        uncertain_outcome(
            *old(res),
            *final(res),
            old(journal)@,
            final(journal)@,
            stable_key@,
            detail@,
            r,
        ),
{
    transition_by_key(
        res,
        journal,
        stable_key,
        ReservationState::Uncertain,
        EventKind::SubordinateUncertain,
        uncertain_payload(detail),
    )
}

// --------------------------------------------------------------- amounts ----

/// The sum of all reserved amounts.
pub open spec fn total(items: Seq<Item>) -> nat
    decreases items.len(),
{
    if items.len() == 0 {
        0
    } else {
        total(items.drop_last()) + items.last().amount as nat
    }
}

/// The sum of the amounts reserved in one dimension.
pub open spec fn reserved_in(items: Seq<Item>, dimension: Seq<char>) -> nat
    decreases items.len(),
{
    if items.len() == 0 {
        0
    } else {
        reserved_in(items.drop_last(), dimension) + if items.last().dimension@ == dimension {
            items.last().amount as nat
        } else {
            0
        }
    }
}

proof fn total_grows(items: Seq<Item>, n: int)
    requires
        0 <= n <= items.len(),
    ensures
        total(items.take(n)) <= total(items),
    decreases items.len() - n,
{
    if n == items.len() {
        assert(items.take(n) =~= items);
    } else {
        total_grows(items, n + 1);
        assert(items.take(n + 1).drop_last() =~= items.take(n));
    }
}

/// What is reserved in one dimension is part of what is reserved.
pub proof fn reserved_within_total(items: Seq<Item>, dimension: Seq<char>)
    ensures
        reserved_in(items, dimension) <= total(items),
    decreases items.len(),
{
    if items.len() > 0 {
        reserved_within_total(items.drop_last(), dimension);
    }
}

fn total_amount(items: &Vec<Item>) -> (r: u64)
    requires
        total(items@) <= u64::MAX,
    ensures
        r == total(items@),
{
    let mut sum: u64 = 0;
    let mut i: usize = 0;
    proof {
        assert(items@.take(0).len() == 0);
    }
    while i < items.len()
        invariant
            i <= items.len(),
            total(items@) <= u64::MAX,
            sum == total(items@.take(i as int)),
        decreases items.len() - i,
    {
        proof {
            total_grows(items@, i + 1);
            assert(items@.take(i + 1).drop_last() =~= items@.take(i as int));
        }
        sum = sum + items[i].amount;
        i = i + 1;
    }
    proof {
        assert(items@.take(i as int) =~= items@);
    }
    sum
}

proof fn reserved_grows(items: Seq<Item>, dimension: Seq<char>, n: int)
    requires
        0 <= n <= items.len(),
    ensures
        reserved_in(items.take(n), dimension) <= reserved_in(items, dimension),
    decreases items.len() - n,
{
    if n == items.len() {
        assert(items.take(n) =~= items);
    } else {
        reserved_grows(items, dimension, n + 1);
        assert(items.take(n + 1).drop_last() =~= items.take(n));
    }
}

/// What is reserved in one dimension.
pub fn reserved(items: &Vec<Item>, dimension: &str) -> (r: u64)
    requires
        reserved_in(items@, dimension@) <= u64::MAX,
    ensures
        r == reserved_in(items@, dimension@),
{
    let mut sum: u64 = 0;
    let mut i: usize = 0;
    proof {
        assert(items@.take(0).len() == 0);
    }
    while i < items.len()
        invariant
            i <= items.len(),
            reserved_in(items@, dimension@) <= u64::MAX,
            sum == reserved_in(items@.take(i as int), dimension@),
        decreases items.len() - i,
    {
        proof {
            assert(items@.take(i + 1).drop_last() =~= items@.take(i as int));
            reserved_grows(items@, dimension@, i + 1);
        }
        if same(items[i].dimension.as_str(), dimension) {
            sum = sum + items[i].amount;
        }
        i = i + 1;
    }
    proof {
        assert(items@.take(i as int) =~= items@);
    }
    sum
}

/// `a - b`, and never below zero.
pub open spec fn less(a: nat, b: nat) -> nat {
    if b <= a {
        (a - b) as nat
    } else {
        0
    }
}

// ---------------------------------------------------------------- settle ----

/// What a settlement charges, and what of the reserved amount it leaves.
#[derive(Debug, Clone, Copy, PartialEq, Eq, Structural)]
pub struct Settlement {
    pub charged: u64,
    pub remainder: u64,
}

/// What a settlement of the reservation under `k` computes with fits: what is
/// reserved in the dimension, and the revision that it moves to.
pub open spec fn settle_fits(res: Reservations, k: Key, dimension: Seq<char>) -> bool {
    res.table@.contains_key(k) ==> {
        let row = res.table@[k];
        &&& row.state is Confirmed || row.state is Settled ==> reserved_in(row.items@, dimension)
            <= u64::MAX
        &&& row.state is Confirmed ==> row.revision < u64::MAX
    }
}

/// Why an unsettled reservation does not settle.
pub open spec fn settle_refusal(
    row: Reservation,
    dimension: Seq<char>,
    meter: Meter,
    measured: Result<u64, String>,
) -> Option<ProblemView> {
    if row.state !is Confirmed {
        Some(
            refusal_with(
                ProblemKind::Forbidden,
                "only a confirmed reservation settles"@,
                "the reservation is "@ + quoted_text(row.state.name())
                    + "; an uncertain one is released only by the R38 seat"@,
            ),
        )
    } else {
        match measured {
            Err(e) => Some(
                refusal_with(
                    ProblemKind::BudgetExceeded,
                    "the settlement is not admissible"@,
                    e@ + " (§11.4: participant and worker reports are evidence, not meters)"@,
                ),
            ),
            Ok(n) => if !meter.is_trusted() {
                Some(
                    refusal_with(
                        ProblemKind::BudgetExceeded,
                        "the settlement is not admissible"@,
                        "the meter is not trusted (§11.4: participant and worker reports are evidence, not meters)"@,
                    ),
                )
            } else if n > reserved_in(row.items@, dimension) {
                Some(
                    refusal_with(
                        ProblemKind::BudgetExceeded,
                        "the settlement is not admissible"@,
                        "the charge is above the reserved amount (§11.4: participant and worker reports are evidence, not meters)"@,
                    ),
                )
            } else {
                None
            },
        }
    }
}

/// What a settlement makes of a reservation, which is sealed anew.
pub open spec fn settled_row<G: Fn(&str, &Json) -> Keyed, S: Fn(&Reservation) -> Result<String, String>>(
    before: Reservation,
    after: Reservation,
    settlement: Settlement,
    dimension: Seq<char>,
    usage_settlement_ref: Seq<char>,
    keyed: G,
    seal: S,
) -> bool {
    &&& settled_draft(before, after, settlement, dimension, usage_settlement_ref, keyed)
    &&& after.items == before.items
    &&& reservation_sealed(seal, after)
}

/// Whether the settled record is refused, and with that problem.
pub open spec fn settle_unsealed<G: Fn(&str, &Json) -> Keyed, S: Fn(&Reservation) -> Result<String, String>>(
    before: Reservation,
    settlement: Settlement,
    dimension: Seq<char>,
    usage_settlement_ref: Seq<char>,
    keyed: G,
    seal: S,
    p: ProblemView,
) -> bool {
    exists|draft: &Reservation, e: String|
        {
            &&& settled_draft(
                before,
                *draft,
                settlement,
                dimension,
                usage_settlement_ref,
                keyed,
            )
            &&& #[trigger] seal.ensures((draft,), Err(e))
            &&& p == refusal_with(
                ProblemKind::BudgetExceeded,
                "the settled reservation is not admissible"@,
                e@,
            )
        }
}

/// What a settlement makes of a reservation, but for its digest.
pub open spec fn settled_draft<G: Fn(&str, &Json) -> Keyed>(
    before: Reservation,
    after: Reservation,
    settlement: Settlement,
    dimension: Seq<char>,
    usage_settlement_ref: Seq<char>,
    keyed: G,
) -> bool {
    &&& after == (Reservation {
        revision: (before.revision + 1) as u64,
        state: ReservationState::Settled,
        usage_settlement_ref: after.usage_settlement_ref,
        usage_settlement_digest: after.usage_settlement_digest,
        digest: after.digest,
        charged: settlement.charged,
        released_lifetime: settlement.remainder,
        items: after.items,
        ..before
    })
    &&& after.items@ == before.items@
    &&& opt_view(after.usage_settlement_ref) == Some(usage_settlement_ref)
    &&& after.usage_settlement_digest is Some
    &&& keyed_text(
        keyed,
        "kovee-usage-settlement-v1"@,
        settlement_document(
            usage_settlement_ref,
            before.stable_external_reservation_key@,
            dimension,
            settlement.charged,
        ),
        after.usage_settlement_digest->0@,
    )
}

/// How a charge splits what is reserved in a dimension: what is not charged
/// remains.
pub open spec fn split_of(row: Reservation, dimension: Seq<char>, charged: u64) -> Settlement {
    Settlement {
        charged,
        remainder: less(reserved_in(row.items@, dimension), charged as nat) as u64,
    }
}

/// The numbers that a settled reservation answers again.
pub open spec fn settled_numbers(row: Reservation, dimension: Seq<char>) -> Settlement {
    split_of(row, dimension, row.charged)
}

/// What settling does and answers, once the rule measured the charge.
pub open spec fn settle_outcome<G: Fn(&str, &Json) -> Keyed, S: Fn(&Reservation) -> Result<String, String>>(
    before: Reservations,
    after: Reservations,
    journal: JournalView,
    after_journal: JournalView,
    reservation_ref: Seq<char>,
    dimension: Seq<char>,
    meter: Meter,
    measured: Result<u64, String>,
    usage_settlement_ref: Seq<char>,
    keyed: G,
    seal: S,
    r: Result<Settlement, Problem>,
) -> bool {
    let k = key1(reservation_ref);
    let row = before.table@[k];
    &&& r is Err ==> after == before && after_journal == journal
    &&& if !before.table@.contains_key(k) {
        r is Err && r->Err_0@ == not_found_view()
    } else if row.state is Settled {
        &&& r == Ok::<Settlement, Problem>(settled_numbers(row, dimension))
        &&& after == before
        &&& after_journal == journal
    } else {
        match settle_refusal(row, dimension, meter, measured) {
            Some(p) => r is Err && r->Err_0@ == p,
            None => if r is Err {
                settle_unsealed(
                    row,
                    split_of(row, dimension, measured->Ok_0),
                    dimension,
                    usage_settlement_ref,
                    keyed,
                    seal,
                    r->Err_0@,
                )
            } else {
                let split = split_of(row, dimension, measured->Ok_0);
                &&& r == Ok::<Settlement, Problem>(split)
                &&& after.table@ == before.table@.insert(k, after.table@[k])
                &&& settled_row(
                    row,
                    after.table@[k],
                    split,
                    dimension,
                    usage_settlement_ref,
                    keyed,
                    seal,
                )
                &&& after_journal == journal.with_reservation_event(
                    transition(
                        EventKind::SubordinateSettled,
                        row,
                        settled_document(
                            dimension,
                            split,
                            reserved_in(row.items@, dimension) as u64,
                            usage_settlement_ref,
                        ),
                    ),
                )
            },
        }
    }
}

/// Whether `measured` is what the rule of metering came to: it is asked of the
/// reservation as it stands, for a dimension, with what was charged before, what
/// is to be charged now, and what measured it.
pub open spec fn rule_asked<
    Q: FnOnce(&Reservation, &str, u64, u64, Meter) -> Result<u64, String>,
>(
    rule: Q,
    row: Reservation,
    dimension: Seq<char>,
    charge: u64,
    meter: Meter,
    measured: Result<u64, String>,
) -> bool {
    exists|d: &str|
        d@ == dimension && #[trigger] rule.ensures((&row, d, row.charged, charge, meter), measured)
}

/// What settling does and answers. The rule is asked only of a confirmed
/// reservation.
pub open spec fn settle_done<
    Q: FnOnce(&Reservation, &str, u64, u64, Meter) -> Result<u64, String>,
    G: Fn(&str, &Json) -> Keyed,
    S: Fn(&Reservation) -> Result<String, String>,
>(
    before: Reservations,
    after: Reservations,
    journal: JournalView,
    after_journal: JournalView,
    reservation_ref: Seq<char>,
    dimension: Seq<char>,
    charge: u64,
    meter: Meter,
    rule: Q,
    usage_settlement_ref: Seq<char>,
    keyed: G,
    seal: S,
    r: Result<Settlement, Problem>,
) -> bool {
    let k = key1(reservation_ref);
    exists|measured: Result<u64, String>|
        {
            &&& before.table@.contains_key(k) && before.table@[k].state is Confirmed ==> rule_asked(
                rule,
                before.table@[k],
                dimension,
                charge,
                meter,
                measured,
            )
            &&& #[trigger] settle_outcome(
                before,
                after,
                journal,
                after_journal,
                reservation_ref,
                dimension,
                meter,
                measured,
                usage_settlement_ref,
                keyed,
                seal,
                r,
            )
        }
}

/// Settles a confirmed reservation from a trusted meter, once: a repeat answers
/// the numbers that stand, and charges nothing. `rule` says what of a charge is
/// admitted, or why none is; nothing is admitted above the reserved amount, nor
/// from a meter that is not trusted. What is not charged remains.
pub fn settle<
    Q: FnOnce(&Reservation, &str, u64, u64, Meter) -> Result<u64, String>,
    G: Fn(&str, &Json) -> Keyed,
    S: Fn(&Reservation) -> Result<String, String>,
>(
    res: &mut Reservations,
    journal: &mut Journal,
    reservation_ref: &str,
    dimension: &str,
    charge: u64,
    meter: Meter,
    rule: Q,
    usage_settlement_ref: &str,
    keyed: G,
    seal: S,
) -> (r: Result<Settlement, Problem>)
    requires
        keys_all(keyed),
        forall|r: &Reservation, d: &str, earlier: u64, n: u64, m: Meter| #[trigger]
            rule.requires((r, d, earlier, n, m)),
        forall|r: &Reservation| #[trigger] seal.requires((r,)),
        old(res).wf(),
        settle_fits(*old(res), key1(reservation_ref@), dimension@),
    ensures
        final(res).wf(),
        settle_done(
            *old(res),
            *final(res),
            old(journal)@,
            final(journal)@,
            reservation_ref@,
            dimension@,
            charge,
            meter,
            rule,
            usage_settlement_ref@,
            keyed,
            seal,
            r,
        ),
{
    proof {
        reveal_strlit("");
        crate::text::empty_is(""@);
    }
    let mut measured: Result<u64, String> = Err(String::new());
    if let Some(i) = res.table.position(reservation_ref, "") {
        let row = &res.table.rows[i];
        if row.state == ReservationState::Confirmed {
            measured = rule(row, dimension, row.charged, charge, meter);
            proof {
                assert(rule.ensures((row, dimension, row.charged, charge, meter), measured));
                assert(rule_asked(
                    rule,
                    old(res).table@[key1(reservation_ref@)],
                    dimension@,
                    charge,
                    meter,
                    measured,
                ));
            }
        }
    }
    let ghost the_measured = measured;
    let r = apply_settlement(
        res,
        journal,
        reservation_ref,
        dimension,
        meter,
        measured,
        usage_settlement_ref,
        keyed,
        seal,
    );
    proof {
        assert(settle_outcome(
            *old(res),
            *res,
            old(journal)@,
            journal@,
            reservation_ref@,
            dimension@,
            meter,
            the_measured,
            usage_settlement_ref@,
            keyed,
            seal,
            r,
        ));
    }
    r
}

fn copy_items(items: &Vec<Item>) -> (r: Vec<Item>)
    ensures
        r@ == items@,
{
    let mut out: Vec<Item> = Vec::new();
    let mut i: usize = 0;
    while i < items.len()
        invariant
            i <= items.len(),
            out@ == items@.take(i as int),
        decreases items.len() - i,
    {
        let x = &items[i];
        out.push(
            Item {
                kovee_account_ref: x.kovee_account_ref.clone(),
                dimension: x.dimension.clone(),
                unit: x.unit.clone(),
                amount: x.amount,
                parent_account_ref: x.parent_account_ref.clone(),
                parent_account_revision: x.parent_account_revision,
                parent_dimension: x.parent_dimension.clone(),
                parent_unit: x.parent_unit.clone(),
                parent_worst_case_amount: x.parent_worst_case_amount,
                parent_delegation_ref: x.parent_delegation_ref.clone(),
            },
        );
        proof {
            assert(items@.take(i + 1) =~= items@.take(i as int).push(items@[i as int]));
        }
        i = i + 1;
    }
    proof {
        assert(items@.take(i as int) =~= items@);
    }
    out
}

fn apply_settlement<G: Fn(&str, &Json) -> Keyed, S: Fn(&Reservation) -> Result<String, String>>(
    res: &mut Reservations,
    journal: &mut Journal,
    reservation_ref: &str,
    dimension: &str,
    meter: Meter,
    measured: Result<u64, String>,
    usage_settlement_ref: &str,
    keyed: G,
    seal: S,
) -> (r: Result<Settlement, Problem>)
    requires
        keys_all(keyed),
        forall|r: &Reservation| #[trigger] seal.requires((r,)),
        old(res).wf(),
        settle_fits(*old(res), key1(reservation_ref@), dimension@),
    ensures
        final(res).wf(),
        settle_outcome(
            *old(res),
            *final(res),
            old(journal)@,
            final(journal)@,
            reservation_ref@,
            dimension@,
            meter,
            measured,
            usage_settlement_ref@,
            keyed,
            seal,
            r,
        ),
{
    proof {
        reveal_strlit("");
        crate::text::empty_is(""@);
    }
    let i = match res.table.position(reservation_ref, "") {
        None => {
            return Err(not_found());
        },
        Some(i) => i,
    };
    let row = &res.table.rows[i];
    if row.state == ReservationState::Settled {
        let all: u64 = reserved(&row.items, dimension);
        let remainder: u64 = if row.charged <= all {
            all - row.charged
        } else {
            0
        };
        return Ok(Settlement { charged: row.charged, remainder });
    }
    if row.state != ReservationState::Confirmed {
        let q = quoted(row.state.as_str());
        let detail = cat3(
            "the reservation is ",
            q.as_str(),
            "; an uncertain one is released only by the R38 seat",
        );
        return Err(
            problem(
                ProblemKind::Forbidden,
                "only a confirmed reservation settles",
                detail.as_str(),
            ),
        );
    }
    let charged: u64 = match measured {
        Err(e) => {
            let detail = cat2(
                e.as_str(),
                " (§11.4: participant and worker reports are evidence, not meters)",
            );
            return Err(
                problem(
                    ProblemKind::BudgetExceeded,
                    "the settlement is not admissible",
                    detail.as_str(),
                ),
            );
        },
        Ok(n) => n,
    };
    if !meter.trusted() {
        return Err(
            problem(
                ProblemKind::BudgetExceeded,
                "the settlement is not admissible",
                "the meter is not trusted (§11.4: participant and worker reports are evidence, not meters)",
            ),
        );
    }
    let all: u64 = reserved(&row.items, dimension);
    if charged > all {
        return Err(
            problem(
                ProblemKind::BudgetExceeded,
                "the settlement is not admissible",
                "the charge is above the reserved amount (§11.4: participant and worker reports are evidence, not meters)",
            ),
        );
    }
    let settlement = Settlement { charged, remainder: all - charged };
    let next: u64 = row.revision + 1;
    let settlement_doc = settlement_subject(
        usage_settlement_ref,
        row.stable_external_reservation_key.as_str(),
        dimension,
        settlement.charged,
    );
    let digest = keyed("kovee-usage-settlement-v1", &settlement_doc);
    proof {
        assert(keyed_text(
            keyed,
            "kovee-usage-settlement-v1"@,
            settlement_doc@,
            digest.text@,
        ));
    }
    let draft = Reservation {
        subordinate_reservation_ref: row.subordinate_reservation_ref.clone(),
        revision: next,
        realm_ref: row.realm_ref.clone(),
        realm_byom_binding_ref: row.realm_byom_binding_ref.clone(),
        realm_byom_binding_epoch: row.realm_byom_binding_epoch,
        society_ref: row.society_ref.clone(),
        society_recovery_epoch: row.society_recovery_epoch,
        byom_reservation_set_ref: row.byom_reservation_set_ref.clone(),
        byom_reservation_set_revision: row.byom_reservation_set_revision,
        byom_reservation_set_digest: row.byom_reservation_set_digest.clone(),
        external_budget_bridge_ref: row.external_budget_bridge_ref.clone(),
        stable_external_reservation_key: row.stable_external_reservation_key.clone(),
        items: copy_items(&row.items),
        state: ReservationState::Settled,
        usage_settlement_ref: Some(usage_settlement_ref.to_owned()),
        usage_settlement_digest: Some(digest.text),
        created_at: row.created_at.clone(),
        digest: row.digest.clone(),
        charged: settlement.charged,
        released_lifetime: settlement.remainder,
    };
    let ghost the_draft = draft;
    let sealed = match seal(&draft) {
        Ok(d) => {
            proof {
                assert(seal.ensures((&draft,), Ok(d)));
            }
            d
        },
        Err(e) => {
            proof {
                assert(seal.ensures((&draft,), Err(e)));
            }
            return Err(
                problem(
                    ProblemKind::BudgetExceeded,
                    "the settled reservation is not admissible",
                    e.as_str(),
                ),
            );
        },
    };
    let payload = settled_payload(dimension, &settlement, all, usage_settlement_ref);
    append_transition(journal, EventKind::SubordinateSettled, row, payload);
    res.table.rows[i].revision = draft.revision;
    res.table.rows[i].state = draft.state;
    res.table.rows[i].usage_settlement_ref = draft.usage_settlement_ref;
    res.table.rows[i].usage_settlement_digest = draft.usage_settlement_digest;
    res.table.rows[i].charged = draft.charged;
    res.table.rows[i].released_lifetime = draft.released_lifetime;
    res.table.rows[i].digest = sealed;
    proof {
        assert(seal.ensures((&the_draft,), Ok(sealed)));
        assert(reservation_sealed(seal, res.table.rows@[i as int]));
    }
    proof {
        let b = old(res).table.rows@;
        let a = res.table.rows@;
        crate::table::table_updated(old(res).table, res.table, i as int, a[i as int]);
        assert forall|p: int, q: int| 0 <= p < q < a.len() implies (
        #[trigger] a[p]).stable_external_reservation_key@ != (
        #[trigger] a[q]).stable_external_reservation_key@ by {
            assert(b[p].stable_external_reservation_key@ != b[q].stable_external_reservation_key@);
        }
        assert forall|p: int| 0 <= p < a.len() implies untouched_before_settling(#[trigger] a[p]) by {
            assert(untouched_before_settling(b[p]));
        }
        assert forall|p: int| 0 <= p < a.len() implies under_parent(#[trigger] a[p]) by {
            assert(under_parent(b[p]));
        }
    }
    Ok(settlement)
}

// --------------------------------------------------------------- release ----

pub open spec fn uncertain_view() -> ProblemView {
    refusal_with(
        ProblemKind::Ambiguous,
        "an uncertain reservation is released only by the R38 seat"@,
        "family contract L33: the only release from `uncertain` is the exact budget_reconcile governance seat with a fresh challenge — never a timeout"@,
    )
}

fn uncertain_problem() -> (r: Problem)
    ensures
        r@ == uncertain_view(),
{
    problem(
        ProblemKind::Ambiguous,
        "an uncertain reservation is released only by the R38 seat",
        "family contract L33: the only release from `uncertain` is the exact budget_reconcile governance seat with a fresh challenge — never a timeout",
    )
}

/// What a release returns: the reserved amount that was not charged.
pub open spec fn unspent(row: Reservation) -> nat {
    less(total(row.items@), row.charged as nat)
}

fn unspent_amount(row: &Reservation) -> (r: u64)
    requires
        total(row.items@) <= u64::MAX,
    ensures
        r == unspent(*row),
{
    let sum: u64 = total_amount(&row.items);
    if row.charged <= sum {
        sum - row.charged
    } else {
        0
    }
}

/// What releasing the reservation under `k` leaves.
pub open spec fn released(before: Reservations, after: Reservations, k: Key) -> bool {
    after.table@ == before.table@.insert(
        k,
        Reservation { state: ReservationState::Released, ..before.table@[k] },
    )
}

/// What releasing a reservation does and answers.
pub open spec fn release_outcome(
    res: Reservations,
    res_after: Reservations,
    journal: JournalView,
    journal_after: JournalView,
    reservation_ref: Seq<char>,
    r: Result< u64, Problem, >,
) -> bool {
    &&& r is Err ==> res_after == res && journal_after == journal
    &&& !res.table@.contains_key(key1(reservation_ref)) ==> r is Err && r->Err_0@
        == not_found_view()
    &&& res.table@.contains_key(key1(reservation_ref)) ==> {
        let row = res.table@[key1(reservation_ref)];
        if row.state is Uncertain {
            r is Err && r->Err_0@ == uncertain_view()
        } else {
            &&& r is Ok
            &&& r->Ok_0 == unspent(row)
            &&& released(res, res_after, key1(reservation_ref))
            &&& journal_after == journal.with_reservation_event(
                transition(
                    EventKind::SubordinateReleased,
                    row,
                    released_document(row.charged, unspent(row) as u64),
                ),
            )
        }
    }
}

/// The saga's completion: returns the demonstrably unspent remainder. An
/// uncertain reservation is never released here.
pub fn release(res: &mut Reservations, journal: &mut Journal, reservation_ref: &str) -> (r: Result<
    u64,
    Problem,
>)
    requires
        old(res).wf(),
        old(res).table@.contains_key(key1(reservation_ref@)) && old(res).table@[key1(
            reservation_ref@,
        )].state !is Uncertain ==> total(old(res).table@[key1(reservation_ref@)].items@)
            <= u64::MAX,
    ensures
        final(res).wf(),
        release_outcome(
            *old(res),
            *final(res),
            old(journal)@,
            final(journal)@,
            reservation_ref@,
            r,
        ),
{
    proof {
        reveal_strlit("");
        crate::text::empty_is(""@);
    }
    let i = match res.table.position(reservation_ref, "") {
        None => {
            return Err(not_found());
        },
        Some(i) => i,
    };
    if res.table.rows[i].state == ReservationState::Uncertain {
        return Err(uncertain_problem());
    }
    let remainder: u64 = unspent_amount(&res.table.rows[i]);
    let payload = released_payload(res.table.rows[i].charged, remainder);
    append_transition(journal, EventKind::SubordinateReleased, &res.table.rows[i], payload);
    set_state(res, i, ReservationState::Released);
    proof {
        crate::table::table_updated(
            old(res).table,
            res.table,
            i as int,
            res.table.rows@[i as int],
        );
    }
    Ok(remainder)
}

/// What reconciling an uncertain reservation does and answers.
pub open spec fn reconciled_outcome(
    res: Reservations,
    res_after: Reservations,
    journal: JournalView,
    journal_after: JournalView,
    reservation_ref: Seq<char>,
    decision_ref: Seq<char>,
    fresh_challenge: bool,
    r: Result<u64, Problem>,
) -> bool {
    &&& r is Err ==> res_after == res && journal_after == journal
    &&& !res.table@.contains_key(key1(reservation_ref)) ==> r is Err && r->Err_0@
        == not_found_view()
    &&& res.table@.contains_key(key1(reservation_ref)) ==> {
        let row = res.table@[key1(reservation_ref)];
        if row.state !is Uncertain {
            r is Err && r->Err_0@ == refusal(
                ProblemKind::Forbidden,
                "budget_reconcile releases only an uncertain reservation"@,
            )
        } else if !fresh_challenge {
            r is Err && r->Err_0@ == refusal_with(
                ProblemKind::AuthorizationStale,
                "ambiguous release requires a fresh challenge"@,
                "R38: the exact reconciliation seat, freshly challenged"@,
            )
        } else {
            &&& r is Ok
            &&& r->Ok_0 == unspent(row)
            &&& released(res, res_after, key1(reservation_ref))
            &&& journal_after == journal.with_reservation_event(
                transition(
                    EventKind::SubordinateReleased,
                    row,
                    reconciled_document(decision_ref, unspent(row) as u64),
                ),
            )
        }
    }
}

/// The one release from `uncertain`: a governance decision under a fresh
/// challenge, never a timeout.
pub fn reconcile_uncertain(
    res: &mut Reservations,
    journal: &mut Journal,
    reservation_ref: &str,
    decision_ref: &str,
    fresh_challenge: bool,
) -> (r: Result<u64, Problem>)
    requires
        old(res).wf(),
        old(res).table@.contains_key(key1(reservation_ref@)) && old(res).table@[key1(
            reservation_ref@,
        )].state is Uncertain && fresh_challenge ==> total(
            old(res).table@[key1(reservation_ref@)].items@,
        ) <= u64::MAX,
    ensures
        final(res).wf(),
        reconciled_outcome(
            *old(res),
            *final(res),
            old(journal)@,
            final(journal)@,
            reservation_ref@,
            decision_ref@,
            fresh_challenge,
            r,
        ),
{
    proof {
        reveal_strlit("");
        crate::text::empty_is(""@);
    }
    let i = match res.table.position(reservation_ref, "") {
        None => {
            return Err(not_found());
        },
        Some(i) => i,
    };
    if res.table.rows[i].state != ReservationState::Uncertain {
        return Err(
            Problem::new(
                ProblemKind::Forbidden,
                "budget_reconcile releases only an uncertain reservation",
            ),
        );
    }
    if !fresh_challenge {
        return Err(
            problem(
                ProblemKind::AuthorizationStale,
                "ambiguous release requires a fresh challenge",
                "R38: the exact reconciliation seat, freshly challenged",
            ),
        );
    }
    let remainder: u64 = unspent_amount(&res.table.rows[i]);
    let payload = reconciled_payload(decision_ref, remainder);
    append_transition(journal, EventKind::SubordinateReleased, &res.table.rows[i], payload);
    set_state(res, i, ReservationState::Released);
    proof {
        crate::table::table_updated(
            old(res).table,
            res.table,
            i as int,
            res.table.rows@[i as int],
        );
    }
    Ok(remainder)
}

// ------------------------------------------------------------------ laws ----

/// Conservation: the charge and what returns are together exactly what was
/// reserved. It was measured by a meter that is trusted.
pub proof fn settlement_conserves<
    Q: FnOnce(&Reservation, &str, u64, u64, Meter) -> Result<u64, String>,
    G: Fn(&str, &Json) -> Keyed,
    S: Fn(&Reservation) -> Result<String, String>,
>(
    before: Reservations,
    after: Reservations,
    journal: JournalView,
    after_journal: JournalView,
    reservation_ref: Seq<char>,
    dimension: Seq<char>,
    charge: u64,
    meter: Meter,
    rule: Q,
    usage_settlement_ref: Seq<char>,
    keyed: G,
    seal: S,
    settlement: Settlement,
)
    requires
        settle_fits(before, key1(reservation_ref), dimension),
        settle_done(
            before,
            after,
            journal,
            after_journal,
            reservation_ref,
            dimension,
            charge,
            meter,
            rule,
            usage_settlement_ref,
            keyed,
            seal,
            Ok(settlement),
        ),
        before.table@[key1(reservation_ref)].state !is Settled,
    ensures
        settlement.charged + settlement.remainder == reserved_in(
            before.table@[key1(reservation_ref)].items@,
            dimension,
        ),
        after.table@[key1(reservation_ref)].charged == settlement.charged,
        after.table@[key1(reservation_ref)].released_lifetime == settlement.remainder,
        meter.is_trusted(),
{
}

/// Applied once: whatever a repeated settlement presents, it answers the two
/// numbers of the first, and changes and announces nothing.
pub proof fn a_settlement_is_applied_once<
    Q: FnOnce(&Reservation, &str, u64, u64, Meter) -> Result<u64, String>,
    Q2: FnOnce(&Reservation, &str, u64, u64, Meter) -> Result<u64, String>,
    G: Fn(&str, &Json) -> Keyed,
    S: Fn(&Reservation) -> Result<String, String>,
    G2: Fn(&str, &Json) -> Keyed,
    S2: Fn(&Reservation) -> Result<String, String>,
>(
    before: Reservations,
    mid: Reservations,
    after: Reservations,
    journal: JournalView,
    mid_journal: JournalView,
    after_journal: JournalView,
    reservation_ref: Seq<char>,
    dimension: Seq<char>,
    charge: u64,
    charge_again: u64,
    meter: Meter,
    meter_again: Meter,
    rule: Q,
    rule_again: Q2,
    usage_settlement_ref: Seq<char>,
    usage_settlement_ref_again: Seq<char>,
    keyed: G,
    seal: S,
    keyed_again: G2,
    seal_again: S2,
    first: Settlement,
    second: Result<Settlement, Problem>,
)
    requires
        settle_done(
            before,
            mid,
            journal,
            mid_journal,
            reservation_ref,
            dimension,
            charge,
            meter,
            rule,
            usage_settlement_ref,
            keyed,
            seal,
            Ok(first),
        ),
        settle_done(
            mid,
            after,
            mid_journal,
            after_journal,
            reservation_ref,
            dimension,
            charge_again,
            meter_again,
            rule_again,
            usage_settlement_ref_again,
            keyed_again,
            seal_again,
            second,
        ),
    ensures
        second == Ok::<Settlement, Problem>(first),
        after == mid,
        after_journal == mid_journal,
{
}

/// Never above the parent: no reservation holds an item that its parent does not
/// cover, in amount, dimension and unit.
pub proof fn never_above_the_parent(res: Reservations, i: int, j: int)
    requires
        res.wf(),
        0 <= i < res.table.rows@.len(),
        0 <= j < res.table.rows@[i].items@.len(),
    ensures
        res.table.rows@[i].items@[j].amount <= res.table.rows@[i].items@[j].parent_worst_case_amount,
        res.table.rows@[i].items@[j].dimension@ == res.table.rows@[i].items@[j].parent_dimension@,
        res.table.rows@[i].items@[j].unit@ == res.table.rows@[i].items@[j].parent_unit@,
{
    assert(under_parent(res.table.rows@[i]));
    assert(covered(res.table.rows@[i].items@[j]));
}

/// Denying never lets go of an uncertain or a charged reservation.
pub proof fn a_denial_is_definite(row: Reservation)
    ensures
        deny_refusal(row) is None <==> row.state !is Uncertain && row.charged == 0,
{
}

/// Whatever a release or a reconciliation returns, together with what was
/// charged it is what was reserved, as long as no more was charged than that.
pub proof fn release_conserves(row: Reservation)
    requires
        row.charged <= total(row.items@),
    ensures
        row.charged + unspent(row) == total(row.items@),
{
}

/// One stable key, one reservation: whatever a repeat of a reserve answers is
/// the reservation that the first one made.
pub proof fn created_once(res: Reservations, key: Seq<char>, i: int, j: int)
    requires
        res.wf(),
        of_key(res.table.rows@, key, i),
        of_key(res.table.rows@, key, j),
    ensures
        i == j,
{
    let rows = res.table.rows@;
    if i < j {
        assert(rows[i].stable_external_reservation_key@ != rows[j].stable_external_reservation_key@);
    } else if j < i {
        assert(rows[j].stable_external_reservation_key@ != rows[i].stable_external_reservation_key@);
    }
}

/// Nothing that a document of this kind (confirmed) is made of is lost: each part
/// stands under its own name, and two documents are the same only if all parts are.
pub proof fn confirmed_documents_are_told_apart(
    r: Reservation,
    r2: Reservation,
)
    requires
        confirmed_document(r)
            == confirmed_document(r2),
    ensures
        confirmed_document(r)->Object_0.contains(("digest"@, stored(r.digest@))),
        stored(r.digest@) == stored(r2.digest@),
        confirmed_document(r)->Object_0.contains(number_member("revision"@, r.revision)),
        crate::json::number_of(r.revision) == crate::json::number_of(r2.revision),
        confirmed_document(r)->Object_0.contains(text_member("state"@, "confirmed"@)),
        confirmed_document(r)->Object_0.contains(text_member("subordinate_reservation_ref"@, r.subordinate_reservation_ref@)),
        r.subordinate_reservation_ref@ == r2.subordinate_reservation_ref@,
{
    let x = confirmed_document(r)->Object_0;
    let y = confirmed_document(r2)->Object_0;
    assert(x[0] == ("digest"@, stored(r.digest@)));
    assert(x[0] == y[0]);
    assert(x[1] == number_member("revision"@, r.revision));
    assert(x[1] == y[1]);
    assert(x[2] == text_member("state"@, "confirmed"@));
    assert(x[3] == text_member("subordinate_reservation_ref"@, r.subordinate_reservation_ref@));
    assert(x[3] == y[3]);
}

/// Nothing that a document of this kind (denied) is made of is lost: each part
/// stands under its own name, and two documents are the same only if all parts are.
pub proof fn denied_documents_are_told_apart(
    reason: Seq<char>,
    reason2: Seq<char>,
)
    requires
        denied_document(reason)
            == denied_document(reason2),
    ensures
        denied_document(reason)->Object_0.contains(number_member("charged"@, 0)),
        denied_document(reason)->Object_0.contains(text_member("reason"@, reason)),
        reason == reason2,
        denied_document(reason)->Object_0.contains(text_member("state"@, "denied"@)),
{
    let x = denied_document(reason)->Object_0;
    let y = denied_document(reason2)->Object_0;
    assert(x[0] == number_member("charged"@, 0));
    assert(x[1] == text_member("reason"@, reason));
    assert(x[1] == y[1]);
    assert(x[2] == text_member("state"@, "denied"@));
}

/// Nothing that a document of this kind (uncertain) is made of is lost: each part
/// stands under its own name, and two documents are the same only if all parts are.
pub proof fn uncertain_documents_are_told_apart(
    detail: Seq<char>,
    detail2: Seq<char>,
)
    requires
        uncertain_document(detail)
            == uncertain_document(detail2),
    ensures
        uncertain_document(detail)->Object_0.contains(bool_member("byom_reservation_released"@, false)),
        uncertain_document(detail)->Object_0.contains(text_member("detail"@, detail)),
        detail == detail2,
        uncertain_document(detail)->Object_0.contains(text_member("only_release"@, "R38 budget_reconcile with a fresh challenge"@)),
        uncertain_document(detail)->Object_0.contains(bool_member("spend_blocked"@, true)),
        uncertain_document(detail)->Object_0.contains(text_member("state"@, "uncertain"@)),
{
    let x = uncertain_document(detail)->Object_0;
    let y = uncertain_document(detail2)->Object_0;
    assert(x[0] == bool_member("byom_reservation_released"@, false));
    assert(x[1] == text_member("detail"@, detail));
    assert(x[1] == y[1]);
    assert(x[2] == text_member("only_release"@, "R38 budget_reconcile with a fresh challenge"@));
    assert(x[3] == bool_member("spend_blocked"@, true));
    assert(x[4] == text_member("state"@, "uncertain"@));
}

/// Nothing that a document of this kind (settled) is made of is lost: each part
/// stands under its own name, and two documents are the same only if all parts are.
pub proof fn settled_documents_are_told_apart(
    dimension: Seq<char>,
    settlement: Settlement,
    reserved: u64,
    usage_settlement_ref: Seq<char>,
    dimension2: Seq<char>,
    settlement2: Settlement,
    reserved2: u64,
    usage_settlement_ref2: Seq<char>,
)
    requires
        settled_document(dimension, settlement, reserved, usage_settlement_ref)
            == settled_document(dimension2, settlement2, reserved2, usage_settlement_ref2),
    ensures
        settled_document(dimension, settlement, reserved, usage_settlement_ref)->Object_0.contains(number_member("charged"@, settlement.charged)),
        crate::json::number_of(settlement.charged) == crate::json::number_of(settlement2.charged),
        settled_document(dimension, settlement, reserved, usage_settlement_ref)->Object_0.contains(text_member("dimension"@, dimension)),
        dimension == dimension2,
        settled_document(dimension, settlement, reserved, usage_settlement_ref)->Object_0.contains(number_member("remainder"@, settlement.remainder)),
        crate::json::number_of(settlement.remainder) == crate::json::number_of(settlement2.remainder),
        settled_document(dimension, settlement, reserved, usage_settlement_ref)->Object_0.contains(number_member("reserved"@, reserved)),
        crate::json::number_of(reserved) == crate::json::number_of(reserved2),
        settled_document(dimension, settlement, reserved, usage_settlement_ref)->Object_0.contains(text_member("state"@, "settled"@)),
        settled_document(dimension, settlement, reserved, usage_settlement_ref)->Object_0.contains(text_member("usage_settlement_ref"@, usage_settlement_ref)),
        usage_settlement_ref == usage_settlement_ref2,
{
    let x = settled_document(dimension, settlement, reserved, usage_settlement_ref)->Object_0;
    let y = settled_document(dimension2, settlement2, reserved2, usage_settlement_ref2)->Object_0;
    assert(x[0] == number_member("charged"@, settlement.charged));
    assert(x[0] == y[0]);
    assert(x[1] == text_member("dimension"@, dimension));
    assert(x[1] == y[1]);
    assert(x[2] == number_member("remainder"@, settlement.remainder));
    assert(x[2] == y[2]);
    assert(x[3] == number_member("reserved"@, reserved));
    assert(x[3] == y[3]);
    assert(x[4] == text_member("state"@, "settled"@));
    assert(x[5] == text_member("usage_settlement_ref"@, usage_settlement_ref));
    assert(x[5] == y[5]);
}

/// Nothing that a document of this kind (released) is made of is lost: each part
/// stands under its own name, and two documents are the same only if all parts are.
pub proof fn released_documents_are_told_apart(
    charged: u64,
    remainder: u64,
    charged2: u64,
    remainder2: u64,
)
    requires
        released_document(charged, remainder)
            == released_document(charged2, remainder2),
    ensures
        released_document(charged, remainder)->Object_0.contains(number_member("charged"@, charged)),
        crate::json::number_of(charged) == crate::json::number_of(charged2),
        released_document(charged, remainder)->Object_0.contains(bool_member("released_lifetime_is_audit_counter"@, true)),
        released_document(charged, remainder)->Object_0.contains(number_member("released_remainder"@, remainder)),
        crate::json::number_of(remainder) == crate::json::number_of(remainder2),
        released_document(charged, remainder)->Object_0.contains(text_member("state"@, "released"@)),
{
    let x = released_document(charged, remainder)->Object_0;
    let y = released_document(charged2, remainder2)->Object_0;
    assert(x[0] == number_member("charged"@, charged));
    assert(x[0] == y[0]);
    assert(x[1] == bool_member("released_lifetime_is_audit_counter"@, true));
    assert(x[2] == number_member("released_remainder"@, remainder));
    assert(x[2] == y[2]);
    assert(x[3] == text_member("state"@, "released"@));
}

/// Nothing that a document of this kind (reconciled) is made of is lost: each part
/// stands under its own name, and two documents are the same only if all parts are.
pub proof fn reconciled_documents_are_told_apart(
    decision_ref: Seq<char>,
    remainder: u64,
    decision_ref2: Seq<char>,
    remainder2: u64,
)
    requires
        reconciled_document(decision_ref, remainder)
            == reconciled_document(decision_ref2, remainder2),
    ensures
        reconciled_document(decision_ref, remainder)->Object_0.contains(text_member("decision_ref"@, decision_ref)),
        decision_ref == decision_ref2,
        reconciled_document(decision_ref, remainder)->Object_0.contains(number_member("released_remainder"@, remainder)),
        crate::json::number_of(remainder) == crate::json::number_of(remainder2),
        reconciled_document(decision_ref, remainder)->Object_0.contains(text_member("state"@, "released"@)),
        reconciled_document(decision_ref, remainder)->Object_0.contains(text_member("via"@, "budget_reconcile"@)),
{
    let x = reconciled_document(decision_ref, remainder)->Object_0;
    let y = reconciled_document(decision_ref2, remainder2)->Object_0;
    assert(x[0] == text_member("decision_ref"@, decision_ref));
    assert(x[0] == y[0]);
    assert(x[1] == number_member("released_remainder"@, remainder));
    assert(x[1] == y[1]);
    assert(x[2] == text_member("state"@, "released"@));
    assert(x[3] == text_member("via"@, "budget_reconcile"@));
}

/// Nothing that a document of this kind (set) is made of is lost: each part
/// stands under its own name, and two documents are the same only if all parts are.
pub proof fn set_documents_are_told_apart(
    parent: Parent,
    parent2: Parent,
)
    requires
        set_document(parent)
            == set_document(parent2),
    ensures
        set_document(parent)->Object_0.contains(text_member("byom_reservation_set_ref"@, parent.byom_reservation_set_ref@)),
        parent.byom_reservation_set_ref@ == parent2.byom_reservation_set_ref@,
        set_document(parent)->Object_0.contains(number_member("revision"@, parent.byom_reservation_set_revision)),
        crate::json::number_of(parent.byom_reservation_set_revision) == crate::json::number_of(parent2.byom_reservation_set_revision),
{
    let x = set_document(parent)->Object_0;
    let y = set_document(parent2)->Object_0;
    assert(x[0] == text_member("byom_reservation_set_ref"@, parent.byom_reservation_set_ref@));
    assert(x[0] == y[0]);
    assert(x[1] == number_member("revision"@, parent.byom_reservation_set_revision));
    assert(x[1] == y[1]);
}

/// Nothing that a document of this kind (settlement) is made of is lost: each part
/// stands under its own name, and two documents are the same only if all parts are.
pub proof fn settlement_documents_are_told_apart(
    usage_settlement_ref: Seq<char>,
    stable_key: Seq<char>,
    dimension: Seq<char>,
    charged: u64,
    usage_settlement_ref2: Seq<char>,
    stable_key2: Seq<char>,
    dimension2: Seq<char>,
    charged2: u64,
)
    requires
        settlement_document(usage_settlement_ref, stable_key, dimension, charged)
            == settlement_document(usage_settlement_ref2, stable_key2, dimension2, charged2),
    ensures
        settlement_document(usage_settlement_ref, stable_key, dimension, charged)->Object_0.contains(number_member("charged"@, charged)),
        crate::json::number_of(charged) == crate::json::number_of(charged2),
        settlement_document(usage_settlement_ref, stable_key, dimension, charged)->Object_0.contains(text_member("dimension"@, dimension)),
        dimension == dimension2,
        settlement_document(usage_settlement_ref, stable_key, dimension, charged)->Object_0.contains(text_member("stable_external_reservation_key"@, stable_key)),
        stable_key == stable_key2,
        settlement_document(usage_settlement_ref, stable_key, dimension, charged)->Object_0.contains(text_member("usage_settlement_ref"@, usage_settlement_ref)),
        usage_settlement_ref == usage_settlement_ref2,
{
    let x = settlement_document(usage_settlement_ref, stable_key, dimension, charged)->Object_0;
    let y = settlement_document(usage_settlement_ref2, stable_key2, dimension2, charged2)->Object_0;
    assert(x[0] == number_member("charged"@, charged));
    assert(x[0] == y[0]);
    assert(x[1] == text_member("dimension"@, dimension));
    assert(x[1] == y[1]);
    assert(x[2] == text_member("stable_external_reservation_key"@, stable_key));
    assert(x[2] == y[2]);
    assert(x[3] == text_member("usage_settlement_ref"@, usage_settlement_ref));
    assert(x[3] == y[3]);
}

/// A reservation is made once for its stable key, as the bridge and the items say,
/// confirmed and uncharged, under the seam of its realm. Asked for again it is the
/// same reservation and nothing changes; a refused one changes nothing.
pub proof fn a_reservation_is_made_as_asked<
    K: Fn(&Item) -> Option<String>,
    G: Fn(&str, &Json) -> Keyed,
    S: Fn(&Reservation) -> Result<String, String>,
>(
    res: Reservations,
    res_after: Reservations,
    journal: JournalView,
    journal_after: JournalView,
    gov: Governance,
    realm: Seq<char>,
    parent: Parent,
    items: Vec<Item>,
    check: K,
    mint: ReserveMint,
    keyed: G,
    seal: S,
    r: Result<usize, Problem>,
    i: int,
)
    requires
        res.wf(),
        res_after.wf(),
        reserve_outcome(
            res,
            res_after,
            journal,
            journal_after,
            gov,
            realm,
            parent,
            items,
            check,
            mint,
            keyed,
            seal,
            r,
        ),
    ensures
        r is Err ==> res_after == res && journal_after == journal,
        r is Ok ==> res_after.table.rows@[r->Ok_0 as int].stable_external_reservation_key@
            == parent.stable_external_reservation_key@,
        r is Ok && r->Ok_0 < res.table.rows@.len() ==> res_after == res && journal_after == journal,
        0 <= i < res.table.rows@.len() && res.table.rows@[i].stable_external_reservation_key@
            == parent.stable_external_reservation_key@ ==> r is Ok && r->Ok_0 == i,
        r is Ok && r->Ok_0 >= res.table.rows@.len() ==> {
            let row = res_after.table@[key1(mint.reservation_ref@)];
            let seam = seam_of(gov, realm)->0;
            &&& seam_of(gov, realm) is Some
            &&& seam.1.society_ref@ == parent.society_ref@
            &&& seam.1.society_recovery_epoch == parent.society_recovery_epoch
            &&& res_after.table.rows@[r->Ok_0 as int] == row
            &&& row.subordinate_reservation_ref@ == mint.reservation_ref@
            &&& row.realm_ref@ == realm
            &&& row.realm_byom_binding_ref@ == seam.0.binding_ref@
            &&& row.realm_byom_binding_epoch == seam.0.binding_epoch
            &&& row.society_ref@ == parent.society_ref@
            &&& row.society_recovery_epoch == parent.society_recovery_epoch
            &&& row.byom_reservation_set_ref@ == parent.byom_reservation_set_ref@
            &&& row.byom_reservation_set_revision == parent.byom_reservation_set_revision
            &&& row.external_budget_bridge_ref@ == parent.external_budget_bridge_ref@
            &&& row.items@ == items@
            &&& row.state is Confirmed
            &&& row.revision == 1
            &&& row.charged == 0
            &&& row.released_lifetime == 0
            &&& row.usage_settlement_ref is None
            &&& row.created_at@ == mint.created_at@
            &&& 0 <= i < items@.len() ==> {
                &&& items@[i].amount <= items@[i].parent_worst_case_amount
                &&& items@[i].dimension@ == items@[i].parent_dimension@
                &&& items@[i].unit@ == items@[i].parent_unit@
            }
            &&& journal_after.events.len() == journal.events.len() + 2
            &&& journal_after.events[journal.events.len() as int].kind is SubordinateRequested
            &&& journal_after.events.last().kind is SubordinateConfirmed
            &&& journal_after.events.last().resource_ref == mint.reservation_ref@
            &&& journal_after.events.last().correlation_ref == parent.external_budget_bridge_ref@
        },
{
    let key = parent.stable_external_reservation_key@;
    if exists|j: int| #[trigger] of_key(res.table.rows@, key, j) {
        if 0 <= i < res.table.rows@.len() && res.table.rows@[i].stable_external_reservation_key@
            == key {
            assert(of_key(res.table.rows@, key, i));
            created_once(res, key, i, r->Ok_0 as int);
        }
    } else {
        if 0 <= i < res.table.rows@.len() {
            assert(!of_key(res.table.rows@, key, i));
        }
        if r is Ok {
            let row = res_after.table.rows@.last();
            crate::table::table_pushed(res.table, res_after.table, row);
        }
    }
}

/// A reservation above its parent, outside a seam, or for another society than the
/// seam's is not made.
pub proof fn a_reservation_is_refused_above_its_parent<
    K: Fn(&Item) -> Option<String>,
    G: Fn(&str, &Json) -> Keyed,
    S: Fn(&Reservation) -> Result<String, String>,
>(
    res: Reservations,
    res_after: Reservations,
    journal: JournalView,
    journal_after: JournalView,
    gov: Governance,
    realm: Seq<char>,
    parent: Parent,
    items: Vec<Item>,
    check: K,
    mint: ReserveMint,
    keyed: G,
    seal: S,
    r: Result<usize, Problem>,
    i: int,
)
    requires
        reserve_outcome(
            res,
            res_after,
            journal,
            journal_after,
            gov,
            realm,
            parent,
            items,
            check,
            mint,
            keyed,
            seal,
            r,
        ),
        forall|j: int| !#[trigger]
            of_key(res.table.rows@, parent.stable_external_reservation_key@, j),
    ensures
        0 <= i < items@.len() && items@[i].amount > items@[i].parent_worst_case_amount ==> r is Err,
        0 <= i < items@.len() && items@[i].dimension@ != items@[i].parent_dimension@ ==> r is Err,
        0 <= i < items@.len() && items@[i].unit@ != items@[i].parent_unit@ ==> r is Err,
        seam_of(gov, realm) is None ==> r is Err,
        seam_of(gov, realm) is Some && (seam_of(gov, realm)->0).1.society_ref@
            != parent.society_ref@ ==> r is Err,
        seam_of(gov, realm) is Some && (seam_of(gov, realm)->0).1.society_recovery_epoch
            != parent.society_recovery_epoch ==> r is Err,
{
    let fault = choose|fault: Option<(int, Seq<char>)>|
        {
            &&& #[trigger] items_checked(check, items@, fault)
            &&& match reserve_refusal(seam_of(gov, realm), parent, fault) {
                Some(p) => r is Err && r->Err_0@ == p,
                None => if r is Err {
                    ||| reserve_unsealed(
                        realm,
                        seam_of(gov, realm)->0,
                        parent,
                        items@,
                        mint,
                        keyed,
                        seal,
                        r->Err_0@,
                    )
                    ||| res.table@.contains_key(key1(mint.reservation_ref@)) && r->Err_0@
                        == key_taken_view()
                } else {
                    !res.table@.contains_key(key1(mint.reservation_ref@))
                },
            }
        };
    if 0 <= i < items@.len() && fault is None {
        assert(item_passes(check, items@[i]));
    }
}

/// What is reserved adds up: items side by side hold what both hold, one item
/// holds its own amount, and where all are of one dimension that dimension holds
/// all.
pub proof fn amounts_add_up(a: Seq<Item>, b: Seq<Item>, dimension: Seq<char>, x: Item)
    ensures
        total(a + b) == total(a) + total(b),
        reserved_in(a + b, dimension) == reserved_in(a, dimension) + reserved_in(b, dimension),
        total(seq![x]) == x.amount,
        x.dimension@ == dimension ==> reserved_in(seq![x], dimension) == x.amount,
        x.dimension@ != dimension ==> reserved_in(seq![x], dimension) == 0,
        (forall|i: int| 0 <= i < a.len() ==> (#[trigger] a[i]).dimension@ == dimension)
            ==> reserved_in(a, dimension) == total(a),
    decreases a.len() + b.len(),
{
    let one = seq![x];
    assert(one.drop_last() =~= Seq::<Item>::empty());
    assert(total(one.drop_last()) == 0);
    assert(reserved_in(one.drop_last(), dimension) == 0);
    if b.len() > 0 {
        assert((a + b).drop_last() =~= a + b.drop_last());
        assert((a + b).last() == b.last());
        amounts_add_up(a, b.drop_last(), dimension, x);
    } else {
        assert(a + b =~= a);
        if a.len() > 0 {
            let less = a.drop_last();
            amounts_add_up(less, b, dimension, x);
            if forall|i: int| 0 <= i < a.len() ==> (#[trigger] a[i]).dimension@ == dimension {
                assert forall|i: int| 0 <= i < less.len() implies (#[trigger] less[i]).dimension@
                    == dimension by {
                    assert(a[i].dimension@ == dimension);
                }
                assert(a[a.len() - 1].dimension@ == dimension);
            }
        }
    }
}

/// An uncharged reservation that is not uncertain can be denied: it is denied then
/// and nothing else of it, or of another, changes. The reason is told.
pub proof fn a_denial_denies_one(
    res: Reservations,
    res_after: Reservations,
    journal: JournalView,
    journal_after: JournalView,
    parent: Parent,
    reason: Seq<char>,
    r: Result<(), Problem>,
    i: int,
    j: int,
)
    requires
        deny_outcome(res, res_after, journal, journal_after, parent, reason, r),
        of_key(res.table.rows@, parent.stable_external_reservation_key@, i),
        0 <= j < res.table.rows@.len(),
    ensures
        r is Ok <==> res.table.rows@[i].state !is Uncertain && res.table.rows@[i].charged == 0,
        r is Err ==> res_after == res && journal_after == journal,
        r is Ok ==> {
            let b = res.table.rows@[i];
            let a = res_after.table.rows@[i];
            &&& a.state is Denied
            &&& a.revision == b.revision
            &&& a.items == b.items
            &&& a.charged == b.charged
            &&& a.stable_external_reservation_key == b.stable_external_reservation_key
            &&& journal_after.events == journal.events.push(journal_after.events.last())
            &&& journal_after.events.last().kind is SubordinateDenied
            &&& journal_after.events.last().resource_ref == b.subordinate_reservation_ref@
            &&& journal_after.events.last().payload == Some(denied_document(reason))
        },
        j != i ==> res_after.table.rows@[j] == res.table.rows@[j],
{
}

/// A reservation left uncertain can be neither denied nor released: only a
/// reconciliation under a fresh challenge releases it, and gives back all that was
/// not charged.
pub proof fn only_a_reconciliation_frees_the_uncertain(
    res: Reservations,
    left: Reservations,
    journal: JournalView,
    left_journal: JournalView,
    stable_key: Seq<char>,
    detail: Seq<char>,
    r: Result<(), Problem>,
    i: int,
    j: int,
    reservation_ref: Seq<char>,
    released_res: Reservations,
    released_journal: JournalView,
    r_release: Result<u64, Problem>,
    free: Reservations,
    free_journal: JournalView,
    decision_ref: Seq<char>,
    fresh_challenge: bool,
    r_free: Result<u64, Problem>,
)
    requires
        res.wf(),
        left.wf(),
        uncertain_outcome(res, left, journal, left_journal, stable_key, detail, r),
        of_key(res.table.rows@, stable_key, i),
        0 <= j < res.table.rows@.len(),
        reservation_ref == res.table.rows@[i].subordinate_reservation_ref@,
        release_outcome(left, released_res, left_journal, released_journal, reservation_ref, r_release),
        reconciled_outcome(
            left,
            free,
            left_journal,
            free_journal,
            reservation_ref,
            decision_ref,
            fresh_challenge,
            r_free,
        ),
    ensures
        r is Ok,
        left.table.rows@[i].state is Uncertain,
        left.table.rows@[i].items == res.table.rows@[i].items,
        left.table.rows@[i].charged == res.table.rows@[i].charged,
        j != i ==> left.table.rows@[j] == res.table.rows@[j],
        left_journal.events == journal.events.push(left_journal.events.last()),
        left_journal.events.last().kind is SubordinateUncertain,
        left_journal.events.last().payload == Some(uncertain_document(detail)),
        r_release is Err,
        released_res == left,
        r_free is Ok <==> fresh_challenge,
        r_free is Err ==> free == left && free_journal == left_journal,
        r_free is Ok ==> {
            let a = free.table@[key1(reservation_ref)];
            &&& a.state is Released
            &&& a.charged == res.table.rows@[i].charged
            &&& res.table.rows@[i].charged <= total(res.table.rows@[i].items@) ==> r_free->Ok_0
                + a.charged == total(res.table.rows@[i].items@)
            &&& free_journal.events.last().kind is SubordinateReleased
            &&& free_journal.events.last().payload == Some(
                reconciled_document(decision_ref, r_free->Ok_0),
            )
        },
{
    crate::table::table_at(left.table, i);
}

/// A reservation that is not uncertain is released by its name, with all that was
/// not charged given back; what was charged stays charged.
pub proof fn a_release_gives_back_the_rest(
    res: Reservations,
    res_after: Reservations,
    journal: JournalView,
    journal_after: JournalView,
    reservation_ref: Seq<char>,
    r: Result<u64, Problem>,
    other: Seq<char>,
)
    requires
        res.wf(),
        release_outcome(res, res_after, journal, journal_after, reservation_ref, r),
    ensures
        r is Ok <==> res.table@.contains_key(key1(reservation_ref)) && res.table@[key1(
            reservation_ref,
        )].state !is Uncertain,
        r is Err ==> res_after == res && journal_after == journal,
        r is Ok ==> {
            let b = res.table@[key1(reservation_ref)];
            let a = res_after.table@[key1(reservation_ref)];
            &&& a.state is Released
            &&& a.charged == b.charged
            &&& a.items == b.items
            &&& a.revision == b.revision
            &&& b.charged <= total(b.items@) ==> r->Ok_0 + b.charged == total(b.items@)
            &&& b.charged > total(b.items@) ==> r->Ok_0 == 0
            &&& journal_after.events == journal.events.push(journal_after.events.last())
            &&& journal_after.events.last().kind is SubordinateReleased
            &&& journal_after.events.last().resource_ref == b.subordinate_reservation_ref@
            &&& journal_after.events.last().payload == Some(
                released_document(b.charged, r->Ok_0),
            )
        },
        other != reservation_ref && res.table@.contains_key(key1(other))
            ==> res_after.table@[key1(other)] == res.table@[key1(other)],
{
    assert(key1(other).0 == other);
    assert(key1(reservation_ref).0 == reservation_ref);
}

/// Only what the broker measured itself, and a provider's receipt, is a meter.
pub proof fn reports_are_no_meters(meter: Meter)
    ensures
        meter.is_trusted() <==> meter !is ParticipantReport && meter !is WorkerReport,
{
}

/// A confirmed reservation is settled by what a trusted meter measured, up to what
/// was reserved: it then says so, one revision on, with its items and its bridge
/// kept; the figures are told.
pub proof fn a_settlement_is_what_was_measured<
    G: Fn(&str, &Json) -> Keyed,
    S: Fn(&Reservation) -> Result<String, String>,
>(
    before: Reservations,
    after: Reservations,
    journal: JournalView,
    after_journal: JournalView,
    reservation_ref: Seq<char>,
    dimension: Seq<char>,
    meter: Meter,
    measured: Result<u64, String>,
    usage_settlement_ref: Seq<char>,
    keyed: G,
    seal: S,
    r: Result<Settlement, Problem>,
    other: Seq<char>,
)
    requires
        settle_outcome(
            before,
            after,
            journal,
            after_journal,
            reservation_ref,
            dimension,
            meter,
            measured,
            usage_settlement_ref,
            keyed,
            seal,
            r,
        ),
        settle_fits(before, key1(reservation_ref), dimension),
    ensures
        r is Err ==> after == before && after_journal == journal,
        r is Ok && before.table@[key1(reservation_ref)].state !is Settled ==> {
            let b = before.table@[key1(reservation_ref)];
            let a = after.table@[key1(reservation_ref)];
            &&& b.state is Confirmed
            &&& meter !is ParticipantReport
            &&& meter !is WorkerReport
            &&& measured is Ok
            &&& r->Ok_0.charged == measured->Ok_0
            &&& r->Ok_0.charged <= reserved_in(b.items@, dimension)
            &&& r->Ok_0.charged + r->Ok_0.remainder == reserved_in(b.items@, dimension)
            &&& a.state is Settled
            &&& a.revision == b.revision + 1
            &&& a.charged == r->Ok_0.charged
            &&& a.released_lifetime == r->Ok_0.remainder
            &&& a.items == b.items
            &&& a.external_budget_bridge_ref == b.external_budget_bridge_ref
            &&& a.stable_external_reservation_key == b.stable_external_reservation_key
            &&& a.usage_settlement_ref is Some
            &&& a.usage_settlement_ref->0@ == usage_settlement_ref
            &&& after_journal.events == journal.events.push(after_journal.events.last())
            &&& after_journal.events.last().kind is SubordinateSettled
        },
        before.table@.contains_key(key1(reservation_ref)) && before.table@[key1(
            reservation_ref,
        )].state !is Confirmed && before.table@[key1(reservation_ref)].state !is Settled
            ==> r is Err,
        before.table@.contains_key(key1(reservation_ref)) && before.table@[key1(
            reservation_ref,
        )].state !is Settled && (meter is ParticipantReport || meter is WorkerReport) ==> r is Err,
        other != reservation_ref && before.table@.contains_key(key1(other))
            ==> after.table@[key1(other)] == before.table@[key1(other)],
{
    assert(key1(other).0 == other);
    assert(key1(reservation_ref).0 == reservation_ref);
}

/// States of a reservation are told apart by their names.
pub proof fn reservation_states_have_their_own_names(a: ReservationState, b: ReservationState)
    requires
        a.name() == b.name(),
    ensures
        a == b,
{
    reveal_strlit("requested");
    reveal_strlit("confirmed");
    reveal_strlit("denied");
    reveal_strlit("uncertain");
    reveal_strlit("settled");
    reveal_strlit("released");
    assert("requested"@.len() == 9 && "confirmed"@.len() == 9 && "denied"@.len() == 6);
    assert("uncertain"@.len() == 9 && "settled"@.len() == 7 && "released"@.len() == 8);
    assert("requested"@[0] == 'r' && "confirmed"@[0] == 'c' && "uncertain"@[0] == 'u');
}

/// A reservation is not settled when it is made; settled, it names its
/// settlement and has the settlement's digest.
pub proof fn a_reservation_is_settled_once_it_says_so<G: Fn(&str, &Json) -> Keyed>(
    r: Reservation,
    realm: Seq<char>,
    seam: (RealmBinding, SocietyMapping),
    parent: Parent,
    items: Seq<Item>,
    mint: ReserveMint,
    keyed: G,
    after: Reservation,
    settlement: Settlement,
    dimension: Seq<char>,
    reference: Seq<char>,
)
    requires
        reserved_draft(r, realm, seam, parent, items, mint, keyed),
        settled_draft(r, after, settlement, dimension, reference, keyed),
        r.revision < u64::MAX,
    ensures
        r.usage_settlement_ref is None,
        r.usage_settlement_digest is None,
        r.charged == 0,
        r.released_lifetime == 0,
        opt_view(after.usage_settlement_ref) == Some(reference),
        after.usage_settlement_digest is Some,
        keyed_text(
            keyed,
            "kovee-usage-settlement-v1"@,
            settlement_document(
                reference,
                r.stable_external_reservation_key@,
                dimension,
                settlement.charged,
            ),
            after.usage_settlement_digest->0@,
        ),
        after.charged == settlement.charged,
        after.released_lifetime == settlement.remainder,
        after.items@ == items,
        after.revision == 2,
        after.state is Settled,
{
}

} // verus!
