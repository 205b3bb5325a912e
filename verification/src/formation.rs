//! The endeavor-promotion saga: an intent and its uniqueness slot, moved
//! together from `prepared` to `linked` or `canceled`.
//!
//! ```text
//! prepare   ──▶ prepared / held                 (no external contact)
//! cancel    ──▶ canceled / released             (only from prepared)
//! start     ──▶ submitting                      (durable before the send)
//!               ├─ result    ──▶ byom_committed ──▶ linking ──▶ linked
//!               ├─ no reply  ──▶ remote_unknown
//!               ├─ refusal   ──▶ ambiguous
//!               └─ tombstone ──▶ canceled / released
//! reconcile ──▶ the one row that byom's own fact authorizes
//! ```
//!
//! Intent and slot move by one compare-and-set under the slot generation, so
//! neither moves without the other, and only a step that says so releases the
//! slot.

use vstd::prelude::*;

use crate::credentials::{already_minted, mark_pair, marked, minted_row, record, same_minting,
    Credential, Ledger};
use crate::digests::{asked, command_digested, keyed_both, keyed_hex, keyed_text, keys_all, Keyed};
use crate::documents::{attempt_document, attempt_subject, authority_document, authority_subject,
    bundle_document, bundle_subject, channel_document, channel_subject, command_document,
    command_subject, domain_document, domain_subject, form_document, form_request,
    frontier_document, frontier_subject, intent_document, intent_subject, link_document,
    link_subject, proof_document, proof_subject, result_query_document, result_query_request,
    slot_document, slot_subject, terminalize_document, terminalize_request, FreshCredential};
use crate::governance::{active_seam, seam_of, Asked, Governance, RealmBinding, SocietyMapping};
use crate::invoke::{Assembly, Contexts, Frontier};
use crate::journal::{Actor, ActorView, EventKind, EventView, Journal, JournalView, NewEvent};
use crate::json::{as_text, get, member, members, nullable, nullable_text, number_member, object,
    put, put_number, put_text, read_stored, stored, text_member, text_value, Json, JsonView};
use crate::listing::{by_two, by_two_weak, comes_first, order, ordered_listing, Listed};
use crate::problem::{internal, internal_view, not_found, not_found_view, problem, refusal_with,
    stale_revision, stale_revision_view, Problem, ProblemKind, ProblemView};
use crate::table::{key1, Key, Row, Table};
use crate::text::{cat2, cat3, cat4, first_chars, opt_view, quoted, quoted_text, same, trim,
    trimmed};

use vstd::string::*;
use vstd::utf8::*;

verus! {

// ------------------------------------------------------------ the states ----

#[derive(Debug, Clone, Copy, PartialEq, Eq, Structural)]
pub enum IntentState {
    Prepared,
    Submitting,
    RemoteUnknown,
    AwaitingPrincipal,
    ByomCommitted,
    Linking,
    Linked,
    Ambiguous,
    Canceled,
}

impl IntentState {
    pub open spec fn name(self) -> Seq<char> {
        match self {
            IntentState::Prepared => "prepared"@,
            IntentState::Submitting => "submitting"@,
            IntentState::RemoteUnknown => "remote_unknown"@,
            IntentState::AwaitingPrincipal => "awaiting_principal"@,
            IntentState::ByomCommitted => "byom_committed"@,
            IntentState::Linking => "linking"@,
            IntentState::Linked => "linked"@,
            IntentState::Ambiguous => "ambiguous"@,
            IntentState::Canceled => "canceled"@,
        }
    }

    pub fn as_str(self) -> (r: &'static str)
        ensures
            r@ == self.name(),
    {
        match self {
            IntentState::Prepared => "prepared",
            IntentState::Submitting => "submitting",
            IntentState::RemoteUnknown => "remote_unknown",
            IntentState::AwaitingPrincipal => "awaiting_principal",
            IntentState::ByomCommitted => "byom_committed",
            IntentState::Linking => "linking",
            IntentState::Linked => "linked",
            IntentState::Ambiguous => "ambiguous",
            IntentState::Canceled => "canceled",
        }
    }

    /// A pair that is linked or canceled is never driven again.
    pub open spec fn terminal(self) -> bool {
        self is Linked || self is Canceled
    }

    pub fn is_terminal(self) -> (r: bool)
        ensures
            r == self.terminal(),
    {
        match self {
            IntentState::Linked => true,
            IntentState::Canceled => true,
            _ => false,
        }
    }

    /// Only these states submit.
    pub open spec fn submits(self) -> bool {
        self is Prepared || self is AwaitingPrincipal
    }

    pub fn may_submit(self) -> (r: bool)
        ensures
            r == self.submits(),
    {
        match self {
            IntentState::Prepared => true,
            IntentState::AwaitingPrincipal => true,
            _ => false,
        }
    }

    /// The outcome is still open: byom may yet say either thing.
    pub open spec fn open_outcome(self) -> bool {
        self is Prepared || self is Submitting || self is RemoteUnknown
            || self is AwaitingPrincipal || self is Ambiguous
    }

    pub open spec fn event(self) -> EventKind {
        match self {
            IntentState::Prepared => EventKind::FormationPrepared,
            IntentState::Submitting => EventKind::FormationSubmitting,
            IntentState::RemoteUnknown => EventKind::FormationRemoteUnknown,
            IntentState::AwaitingPrincipal => EventKind::FormationAwaitingPrincipal,
            IntentState::ByomCommitted => EventKind::FormationByomCommitted,
            IntentState::Linking => EventKind::FormationLinking,
            IntentState::Linked => EventKind::FormationLinked,
            IntentState::Ambiguous => EventKind::FormationAmbiguous,
            IntentState::Canceled => EventKind::FormationCanceled,
        }
    }
}

/// The event that a state is announced by.
pub fn event_type(state: IntentState) -> (r: EventKind)
    ensures
        r == state.event(),
{
    match state {
        IntentState::Prepared => EventKind::FormationPrepared,
        IntentState::Submitting => EventKind::FormationSubmitting,
        IntentState::RemoteUnknown => EventKind::FormationRemoteUnknown,
        IntentState::AwaitingPrincipal => EventKind::FormationAwaitingPrincipal,
        IntentState::ByomCommitted => EventKind::FormationByomCommitted,
        IntentState::Linking => EventKind::FormationLinking,
        IntentState::Linked => EventKind::FormationLinked,
        IntentState::Ambiguous => EventKind::FormationAmbiguous,
        IntentState::Canceled => EventKind::FormationCanceled,
    }
}

#[derive(Debug, Clone, Copy, PartialEq, Eq, Structural)]
pub enum AttemptState {
    Sent,
    ReplyReceived,
    TransportUnknown,
    Reconciled,
}

/// What moves a pair.
#[derive(Debug)]
pub enum Via {
    FormationCancel,
    KoveeEndeavorForm,
    TransportOutcomeUnknown,
    UnknownResult,
    TombstoneVerified,
    ExternalLinkBegin,
    ExternalLinkCommit,
    /// A move that byom's recovery fact authorizes, under its own name.
    Resolved(String),
}

impl Via {
    pub open spec fn name(self) -> Seq<char> {
        match self {
            Via::FormationCancel => "formation_cancel"@,
            Via::KoveeEndeavorForm => "kovee_endeavor_form"@,
            Via::TransportOutcomeUnknown => "transport_outcome_unknown"@,
            Via::UnknownResult => "unknown_result"@,
            Via::TombstoneVerified => "tombstone_verified"@,
            Via::ExternalLinkBegin => "external_link_begin"@,
            Via::ExternalLinkCommit => "external_link_commit"@,
            Via::Resolved(s) => s@,
        }
    }

    pub fn as_str<'a>(&'a self) -> (r: &'a str)
        ensures
            r@ == self.name(),
    {
        match self {
            Via::FormationCancel => "formation_cancel",
            Via::KoveeEndeavorForm => "kovee_endeavor_form",
            Via::TransportOutcomeUnknown => "transport_outcome_unknown",
            Via::UnknownResult => "unknown_result",
            Via::TombstoneVerified => "tombstone_verified",
            Via::ExternalLinkBegin => "external_link_begin",
            Via::ExternalLinkCommit => "external_link_commit",
            Via::Resolved(s) => s.as_str(),
        }
    }
}

// -------------------------------------------------------------- the rows ----

/// The stable command: pinned at prepare, digested once, never rewritten.
#[derive(Debug)]
pub struct FormationCommand {
    pub kovee_formation_intent_ref: String,
    pub byom_endpoint_ref: String,
    pub command_endpoint_incarnation: String,
    pub binding: BindingPin,
    pub society_ref: String,
    pub society_recovery_epoch: u64,
    pub source_principal_ref: String,
    pub source_actor_binding_digest: String,
    pub context_bundle_ref: String,
    pub context_bundle_digest: String,
    pub endeavor_proposal: Json,
    pub endeavor_proposal_digest: String,
    pub source_principal_position: Json,
    pub source_principal_position_digest: String,
    pub expected_governance_rule_set_ref: String,
    pub expected_slot_snapshot_digest: String,
    pub byom_command_idempotency_key: String,
    pub idempotency_domain_digest: String,
}

/// The exact binding that a command or an attempt is pinned to.
#[derive(Debug)]
pub struct BindingPin {
    pub binding_ref: String,
    pub binding_revision: u64,
    pub binding_epoch: u64,
    pub digest: String,
}

impl BindingPin {
    pub fn copy(&self) -> (r: BindingPin)
        ensures
            r == *self,
    {
        BindingPin {
            binding_ref: self.binding_ref.clone(),
            binding_revision: self.binding_revision,
            binding_epoch: self.binding_epoch,
            digest: self.digest.clone(),
        }
    }
}

/// The result that byom committed, as it answered it.
#[derive(Debug)]
pub struct ResultEnvelope {
    pub endeavor_ref: Option<String>,
    pub endeavor_revision: Option<u64>,
    pub endeavor_digest: Option<String>,
    pub digest: String,
    pub source_cursor: Option<String>,
    /// The unmodified text of the whole answer.
    pub text: String,
}

/// The durable intent to form one endeavor.
#[derive(Debug)]
pub struct Intent {
    pub formation_id: String,
    pub revision: u64,
    pub realm_ref: String,
    pub project_id: String,
    pub space_id: String,
    pub branch_id: String,
    pub frontier_ref: String,
    pub frontier_digest: String,
    pub endeavor_proposal_ref: String,
    pub requested_by_principal: String,
    pub bound_participant_ref: String,
    pub participant_binding_epoch: u64,
    pub client_formation_key: String,
    pub canonical_byom_command_digest: String,
    pub formation_slot_ref: String,
    pub formation_slot_generation: u64,
    pub authorization_dependency_set_ref: String,
    pub authority_digest: String,
    pub state: IntentState,
    pub created_at: String,
    pub digest: String,
    pub command: FormationCommand,
    pub latest_attempt_ref: Option<String>,
    pub latest_authentication_observation_ref: Option<String>,
    pub result: Option<ResultEnvelope>,
    pub external_link_ref: Option<String>,
    pub terminal_at: Option<String>,
}

impl Row for Intent {
    open spec fn key(&self) -> Key {
        key1(self.formation_id@)
    }

    fn has_key(&self, a: &str, b: &str) -> (r: bool) {
        proof {
            crate::text::empty_is(b@);
        }
        same(self.formation_id.as_str(), a) && b.is_empty()
    }
}

/// The uniqueness slot that an intent holds.
#[derive(Debug)]
pub struct FormationSlot {
    pub slot_id: String,
    pub realm_ref: String,
    pub requested_by_principal: String,
    pub client_formation_key: String,
    pub holder_formation_id: String,
    pub generation: u64,
    pub revision: u64,
    pub state: String,
    pub acquired_at: String,
    pub released_at: Option<String>,
    pub digest: String,
}

impl Row for FormationSlot {
    open spec fn key(&self) -> Key {
        key1(self.slot_id@)
    }

    fn has_key(&self, a: &str, b: &str) -> (r: bool) {
        proof {
            crate::text::empty_is(b@);
        }
        same(self.slot_id.as_str(), a) && b.is_empty()
    }
}

/// One immutable send. Only how it ended is filled in later.
#[derive(Debug)]
pub struct FormationAttempt {
    pub attempt_id: String,
    pub formation_id: String,
    pub attempt_ordinal: u64,
    pub attempt_nonce: String,
    pub recovery_binding: BindingPin,
    pub authentication_observation_ref: String,
    pub authentication_observation_digest: String,
    pub authentication_proof_digest: String,
    pub state: AttemptState,
    pub prepared_at: String,
    pub reply_digest: Option<String>,
    pub observed_at: Option<String>,
    pub digest: String,
}

impl Row for FormationAttempt {
    open spec fn key(&self) -> Key {
        key1(self.attempt_id@)
    }

    fn has_key(&self, a: &str, b: &str) -> (r: bool) {
        proof {
            crate::text::empty_is(b@);
        }
        same(self.attempt_id.as_str(), a) && b.is_empty()
    }
}

/// The committed link to a formed endeavor, found by its own digest.
#[derive(Debug)]
pub struct ExternalLink {
    pub link_digest_hex: String,
    pub link_ref: String,
    pub formation_id: String,
    pub realm_ref: String,
    pub endeavor_ref: String,
    pub endeavor_revision: u64,
    pub endeavor_digest: String,
    pub result_digest: String,
    pub source_cursor: String,
    pub created_at: String,
}

impl Row for ExternalLink {
    open spec fn key(&self) -> Key {
        key1(self.link_digest_hex@)
    }

    fn has_key(&self, a: &str, b: &str) -> (r: bool) {
        proof {
            crate::text::empty_is(b@);
        }
        same(self.link_digest_hex.as_str(), a) && b.is_empty()
    }
}

/// Everything the saga keeps.
pub struct Formation {
    pub intents: Table<Intent>,
    pub slots: Table<FormationSlot>,
    pub attempts: Table<FormationAttempt>,
    pub links: Table<ExternalLink>,
}

/// Whether the intent at `i` is the one of a principal's formation key.
pub open spec fn of_client_key(
    intents: Seq<Intent>,
    realm: Seq<char>,
    principal: Seq<char>,
    client_key: Seq<char>,
    i: int,
) -> bool {
    &&& 0 <= i < intents.len()
    &&& intents[i].realm_ref@ == realm
    &&& intents[i].requested_by_principal@ == principal
    &&& intents[i].client_formation_key@ == client_key
}

/// Whether two intents are of one explicit formation command.
pub open spec fn same_command(a: Intent, b: Intent) -> bool {
    &&& a.realm_ref@ == b.realm_ref@
    &&& a.requested_by_principal@ == b.requested_by_principal@
    &&& a.client_formation_key@ == b.client_formation_key@
}

/// One explicit formation command of a principal, one intent.
pub open spec fn client_keys_distinct(intents: Seq<Intent>) -> bool {
    forall|i: int, j: int|
        0 <= i < j < intents.len() ==> !same_command(#[trigger] intents[i], #[trigger] intents[j])
}

impl Formation {
    pub open spec fn wf(&self) -> bool {
        &&& self.intents.wf()
        &&& self.slots.wf()
        &&& self.attempts.wf()
        &&& self.links.wf()
        &&& client_keys_distinct(self.intents.rows@)
    }

    pub fn new() -> (r: Formation)
        ensures
            r.wf(),
            r.intents.rows@.len() == 0,
            r.slots.rows@.len() == 0,
            r.attempts.rows@.len() == 0,
            r.links.rows@.len() == 0,
    {
        Formation {
            intents: Table::new(),
            slots: Table::new(),
            attempts: Table::new(),
            links: Table::new(),
        }
    }
}

/// The intent of a realm under an identifier, if there is one.
pub open spec fn intent_of(form: Formation, realm: Seq<char>, formation_id: Seq<char>) -> Option<
    Intent,
> {
    if form.intents@.contains_key(key1(formation_id)) && form.intents@[key1(
        formation_id,
    )].realm_ref@ == realm {
        Some(form.intents@[key1(formation_id)])
    } else {
        None
    }
}

/// Finds the intent of a realm.
pub fn read_intent(form: &Formation, realm: &str, formation_id: &str) -> (r: Option<usize>)
    requires
        form.wf(),
    ensures
        match r {
            Some(i) => i < form.intents.rows.len() && intent_of(*form, realm@, formation_id@)
                == Some(form.intents.rows@[i as int]) && form.intents.rows@[i as int].key() == key1(
                formation_id@,
            ),
            None => intent_of(*form, realm@, formation_id@) is None,
        },
{
    proof {
        reveal_strlit("");
        crate::text::empty_is(""@);
    }
    match form.intents.position(formation_id, "") {
        None => None,
        Some(i) => if same(form.intents.rows[i].realm_ref.as_str(), realm) {
            Some(i)
        } else {
            None
        },
    }
}

/// Every counter of a pair that a step may advance can still advance.
pub open spec fn pairs_fit(form: Formation) -> bool {
    &&& forall|i: int|
        0 <= i < form.intents.rows@.len() ==> (#[trigger] form.intents.rows@[i]).revision < u64::MAX
    &&& forall|i: int|
        0 <= i < form.slots.rows@.len() ==> (#[trigger] form.slots.rows@[i]).revision < u64::MAX
    &&& forall|i: int|
        0 <= i < form.attempts.rows@.len() ==> (#[trigger] form.attempts.rows@[i]).attempt_ordinal
            < u64::MAX
}

// -------------------------------------------------------- the paired write ----

/// What a step read of an intent before it set out to move it.
#[derive(Debug)]
pub struct Pinned {
    pub formation_id: String,
    pub revision: u64,
    pub state: IntentState,
    pub slot_generation: u64,
}

/// One row of the machine: where the pair goes, what takes it there, and
/// whether that releases the slot.
#[derive(Debug)]
pub struct Step {
    pub to: IntentState,
    pub via: Via,
    pub releases_slot: bool,
    /// The name of the slot's state beside `to`.
    pub slot_state: String,
}

/// What a step writes on the intent beside its state.
#[derive(Debug)]
pub struct Extra {
    /// The attempt that was opened, and the observation that it rides on.
    pub attempt: Option<(String, String)>,
    pub result: Option<ResultEnvelope>,
    pub link: Option<String>,
}

/// When a step is taken, and how what it writes is digested.
pub struct Stamp<G> {
    pub at: String,
    pub keyed: G,
}

/// The compare half: the intent is where the step read it, and its slot is
/// under the same generation.
pub open spec fn cas_holds(form: Formation, pin: Pinned) -> bool {
    let k = key1(pin.formation_id@);
    &&& form.intents@.contains_key(k)
    &&& form.intents@[k].state == pin.state
    &&& form.intents@[k].revision == pin.revision
    &&& form.intents@[k].formation_slot_generation == pin.slot_generation
    &&& form.slots@.contains_key(key1(form.intents@[k].formation_slot_ref@))
    &&& form.slots@[key1(form.intents@[k].formation_slot_ref@)].generation == pin.slot_generation
}

/// What the intent is after a step.
pub open spec fn moved_intent<G: Fn(&str, &Json) -> Keyed + Copy>(
    before: Intent,
    after: Intent,
    step: Step,
    extra: Extra,
    stamp: Stamp<G>,
) -> bool {
    &&& after == (Intent {
        revision: (before.revision + 1) as u64,
        state: step.to,
        digest: after.digest,
        terminal_at: after.terminal_at,
        latest_attempt_ref: after.latest_attempt_ref,
        latest_authentication_observation_ref: after.latest_authentication_observation_ref,
        result: after.result,
        external_link_ref: after.external_link_ref,
        ..before
    })
    &&& keyed_text(
        stamp.keyed,
        "kovee-endeavor-formation-intent-v1"@,
        intent_document(
            before.formation_id@,
            (before.revision + 1) as u64,
            step.to,
            before.canonical_byom_command_digest@,
            before.formation_slot_generation,
        ),
        after.digest@,
    )
    &&& opt_view(after.terminal_at) == (if step.to.terminal() {
        Some(stamp.at@)
    } else {
        None
    })
    &&& match extra.attempt {
        Some((a, o)) => opt_view(after.latest_attempt_ref) == Some(a@) && opt_view(
            after.latest_authentication_observation_ref,
        ) == Some(o@),
        None => after.latest_attempt_ref == before.latest_attempt_ref
            && after.latest_authentication_observation_ref
            == before.latest_authentication_observation_ref,
    }
    &&& match extra.result {
        Some(e) => after.result == Some(e),
        None => after.result == before.result,
    }
    &&& match extra.link {
        Some(l) => opt_view(after.external_link_ref) == Some(l@),
        None => after.external_link_ref == before.external_link_ref,
    }
}

/// What the slot is after a step: released only by a releasing step into a
/// terminal state.
pub open spec fn moved_slot<G: Fn(&str, &Json) -> Keyed + Copy>(
    before: FormationSlot,
    after: FormationSlot,
    step: Step,
    stamp: Stamp<G>,
) -> bool {
    &&& after == (FormationSlot {
        revision: (before.revision + 1) as u64,
        state: after.state,
        released_at: after.released_at,
        digest: after.digest,
        ..before
    })
    &&& after.state@ == step.slot_state@
    &&& opt_view(after.released_at) == (if step.releases_slot && step.to.terminal() {
        Some(stamp.at@)
    } else {
        None
    })
    &&& keyed_text(
        stamp.keyed,
        "kovee-endeavor-formation-slot-v1"@,
        slot_document(before.slot_id@, before.generation, step.slot_state@),
        after.digest@,
    )
}

/// The set half: the intent and its slot, and nothing else of the tables but
/// what `attempts` and `links` are said to be.
pub open spec fn pair_moved<G: Fn(&str, &Json) -> Keyed + Copy>(
    before: Formation,
    after: Formation,
    formation_id: Seq<char>,
    step: Step,
    extra: Extra,
    stamp: Stamp<G>,
) -> bool {
    let k = key1(formation_id);
    let s = key1(before.intents@[k].formation_slot_ref@);
    &&& after.intents@ == before.intents@.insert(k, after.intents@[k])
    &&& moved_intent(before.intents@[k], after.intents@[k], step, extra, stamp)
    &&& after.slots@ == before.slots@.insert(s, after.slots@[s])
    &&& moved_slot(before.slots@[s], after.slots@[s], step, stamp)
}

// ---------------------------------------------- what a step is told with ----

/// What a step is announced with, besides the pair itself.
#[derive(Debug)]
pub enum Told {
    Nothing,
    Reason(Option<String>),
    Attempt { attempt_id: String, ordinal: u64 },
    Tombstone { reference: String, digest: String },
    Outcome(String),
    Endeavor(Option<String>),
    Link { link_ref: String, endeavor_ref: String },
    Fact { name: String, receipt_ref: Option<String> },
}

pub enum ToldView {
    Nothing,
    Reason(Option<Seq<char>>),
    Attempt { attempt_id: Seq<char>, ordinal: u64 },
    Tombstone { reference: Seq<char>, digest: Seq<char> },
    Outcome(Seq<char>),
    Endeavor(Option<Seq<char>>),
    Link { link_ref: Seq<char>, endeavor_ref: Seq<char> },
    Fact { name: Seq<char>, receipt_ref: Option<Seq<char>> },
}

impl View for Told {
    type V = ToldView;

    open spec fn view(&self) -> ToldView {
        match self {
            Told::Nothing => ToldView::Nothing,
            Told::Reason(r) => ToldView::Reason(opt_view(*r)),
            Told::Attempt { attempt_id, ordinal } => ToldView::Attempt {
                attempt_id: attempt_id@,
                ordinal: *ordinal,
            },
            Told::Tombstone { reference, digest } => ToldView::Tombstone {
                reference: reference@,
                digest: digest@,
            },
            Told::Outcome(o) => ToldView::Outcome(o@),
            Told::Endeavor(e) => ToldView::Endeavor(opt_view(*e)),
            Told::Link { link_ref, endeavor_ref } => ToldView::Link {
                link_ref: link_ref@,
                endeavor_ref: endeavor_ref@,
            },
            Told::Fact { name, receipt_ref } => ToldView::Fact {
                name: name@,
                receipt_ref: opt_view(*receipt_ref),
            },
        }
    }
}

/// The members that stand before the formation's identifier.
pub open spec fn told_before(told: ToldView) -> Seq<(Seq<char>, JsonView)> {
    match told {
        ToldView::Attempt { attempt_id, ordinal } => seq![
            text_member("attempt_id"@, attempt_id),
            number_member("attempt_ordinal"@, ordinal),
        ],
        ToldView::Endeavor(e) => seq![("endeavor_ref"@, nullable(e))],
        ToldView::Link { link_ref, endeavor_ref } => seq![
            text_member("endeavor_ref"@, endeavor_ref),
            text_member("external_link_ref"@, link_ref),
        ],
        ToldView::Fact { name, receipt_ref: _ } => seq![text_member("fact"@, name)],
        _ => Seq::empty(),
    }
}

/// The members that stand between the identifier and the states.
pub open spec fn told_between(told: ToldView) -> Seq<(Seq<char>, JsonView)> {
    match told {
        ToldView::Reason(r) => seq![("reason"@, nullable(r))],
        ToldView::Outcome(o) => seq![text_member("outcome"@, o)],
        ToldView::Tombstone { .. } => seq![
            text_member("reason_kind"@, "formation_requires_participation"@),
        ],
        ToldView::Fact { name: _, receipt_ref } => crate::json::optional(
            "historical_fence_receipt_ref"@,
            receipt_ref,
        ),
        _ => Seq::empty(),
    }
}

/// The members that stand behind the states.
pub open spec fn told_behind(told: ToldView) -> Seq<(Seq<char>, JsonView)> {
    match told {
        ToldView::Tombstone { reference, digest } => seq![
            ("tombstone_digest"@, stored(digest)),
            text_member("tombstone_ref"@, reference),
        ],
        _ => Seq::empty(),
    }
}

/// What is announced of a step.
pub open spec fn step_document(
    formation_id: Seq<char>,
    to: IntentState,
    slot_state: Seq<char>,
    via: Seq<char>,
    told: ToldView,
) -> JsonView {
    JsonView::Object(
        told_before(told) + seq![text_member("formation_id"@, formation_id)] + told_between(told)
            + seq![
            text_member("slot_state"@, slot_state),
            text_member("state"@, to.name()),
        ] + told_behind(told) + seq![text_member("via"@, via)],
    )
}

fn put_before(v: &mut Vec<(String, Json)>, told: &Told)
    ensures
        members(final(v)@) == members(old(v)@) + told_before(told@),
{
    let ghost start = members(v@);
    match told {
        Told::Attempt { attempt_id, ordinal } => {
            put_text(v, "attempt_id", attempt_id.as_str());
            put_number(v, "attempt_ordinal", *ordinal);
        },
        Told::Endeavor(e) => {
            put(v, "endeavor_ref", nullable_text(e));
        },
        Told::Link { link_ref, endeavor_ref } => {
            put_text(v, "endeavor_ref", endeavor_ref.as_str());
            put_text(v, "external_link_ref", link_ref.as_str());
        },
        Told::Fact { name, receipt_ref: _ } => {
            put_text(v, "fact", name.as_str());
        },
        _ => {},
    }
    proof {
        assert(members(v@) =~= start + told_before(told@));
    }
}

fn put_between(v: &mut Vec<(String, Json)>, told: &Told)
    ensures
        members(final(v)@) == members(old(v)@) + told_between(told@),
{
    let ghost start = members(v@);
    match told {
        Told::Reason(r) => {
            put(v, "reason", nullable_text(r));
        },
        Told::Outcome(o) => {
            put_text(v, "outcome", o.as_str());
        },
        Told::Tombstone { .. } => {
            put_text(v, "reason_kind", "formation_requires_participation");
        },
        Told::Fact { name: _, receipt_ref } => {
            crate::json::put_optional(v, "historical_fence_receipt_ref", receipt_ref);
        },
        _ => {},
    }
    proof {
        assert(members(v@) =~= start + told_between(told@));
    }
}

fn put_behind(v: &mut Vec<(String, Json)>, told: &Told)
    ensures
        members(final(v)@) == members(old(v)@) + told_behind(told@),
{
    let ghost start = members(v@);
    match told {
        Told::Tombstone { reference, digest } => {
            put(v, "tombstone_digest", read_stored(digest.as_str()));
            put_text(v, "tombstone_ref", reference.as_str());
        },
        _ => {},
    }
    proof {
        assert(members(v@) =~= start + told_behind(told@));
    }
}

fn step_payload(formation_id: &str, to: IntentState, slot_state: &str, via: &str, told: &Told) -> (r:
    Json)
    ensures
        r@ == step_document(formation_id@, to, slot_state@, via@, told@),
{
    let mut v: Vec<(String, Json)> = Vec::new();
    put_before(&mut v, told);
    put_text(&mut v, "formation_id", formation_id);
    put_between(&mut v, told);
    put_text(&mut v, "slot_state", slot_state);
    put_text(&mut v, "state", to.as_str());
    put_behind(&mut v, told);
    put_text(&mut v, "via", via);
    proof {
        assert(members(v@) =~= step_document(
            formation_id@,
            to,
            slot_state@,
            via@,
            told@,
        )->Object_0);
    }
    object(v)
}

/// What a step adds to the journal.
pub open spec fn step_journal(
    before: JournalView,
    intent: Intent,
    step: Step,
    told: ToldView,
) -> JournalView {
    before.with_audit(
        "formation."@ + step.to.name(),
        "formation="@ + intent.formation_id@ + " via="@ + step.via.name() + " slot="@
            + step.slot_state@,
    ).with_event(
        EventView {
            kind: step.to.event(),
            stream_id: intent.formation_id@,
            project_id: Some(intent.project_id@),
            actor: ActorView::Named(intent.requested_by_principal@),
            schema_ref: "schema:kovee-endeavor-formation-intent-v1"@,
            resource_ref: intent.formation_id@,
            resource_revision: Some((intent.revision + 1) as u64),
            causation_ref: None,
            correlation_ref: intent.formation_id@,
            classification_ref: None,
            payload: Some(
                step_document(
                    intent.formation_id@,
                    step.to,
                    step.slot_state@,
                    step.via.name(),
                    told,
                ),
            ),
            once: false,
            named: None,
        },
    )
}

proof fn client_keys_kept(b: Seq<Intent>, a: Seq<Intent>)
    requires
        client_keys_distinct(b),
        a.len() == b.len(),
        forall|i: int|
            0 <= i < b.len() ==> (#[trigger] a[i]).realm_ref == b[i].realm_ref
                && a[i].requested_by_principal == b[i].requested_by_principal
                && a[i].client_formation_key == b[i].client_formation_key,
    ensures
        client_keys_distinct(a),
{
    assert forall|i: int, j: int| 0 <= i < j < a.len() implies !same_command(
        #[trigger] a[i],
        #[trigger] a[j],
    ) by {
        assert(!same_command(b[i], b[j]));
    }
}

/// Where a pinned intent and its slot stand, if the compare half holds.
fn compare_pair(form: &Formation, pin: &Pinned) -> (r: Option<(usize, usize)>)
    requires
        form.wf(),
    ensures
        r is Some <==> cas_holds(*form, *pin),
        match r {
            Some((i, s)) => {
                &&& i < form.intents.rows.len()
                &&& s < form.slots.rows.len()
                &&& form.intents.rows@[i as int] == form.intents@[key1(pin.formation_id@)]
                &&& form.intents.rows@[i as int].key() == key1(pin.formation_id@)
                &&& form.slots.rows@[s as int].key() == key1(
                    form.intents.rows@[i as int].formation_slot_ref@,
                )
                &&& form.slots.rows@[s as int] == form.slots@[key1(
                    form.intents.rows@[i as int].formation_slot_ref@,
                )]
            },
            None => true,
        },
{
    proof {
        reveal_strlit("");
        crate::text::empty_is(""@);
    }
    let i = match form.intents.position(pin.formation_id.as_str(), "") {
        None => {
            return None;
        },
        Some(i) => i,
    };
    if form.intents.rows[i].state != pin.state || form.intents.rows[i].revision != pin.revision
        || form.intents.rows[i].formation_slot_generation != pin.slot_generation {
        return None;
    }
    match form.slots.position(form.intents.rows[i].formation_slot_ref.as_str(), "") {
        None => None,
        Some(s) => if form.slots.rows[s].generation == pin.slot_generation {
            Some((i, s))
        } else {
            None
        },
    }
}

/// The one paired write of this machine. A pair that moved since it was read
/// refuses the step, and nothing changes.
pub fn commit_pair<G: Fn(&str, &Json) -> Keyed + Copy>(
    form: &mut Formation,
    journal: &mut Journal,
    pin: &Pinned,
    step: &Step,
    extra: Extra,
    told: &Told,
    stamp: &Stamp<G>,
) -> (r: Result<u64, Problem>)
    requires
        keys_all(stamp.keyed),
        old(form).wf(),
        pairs_fit(*old(form)),
    ensures
        final(form).wf(),
        final(form).attempts == old(form).attempts,
        final(form).links == old(form).links,
        if cas_holds(*old(form), *pin) {
            &&& r is Ok
            &&& r->Ok_0 == pin.revision + 1
            &&& pair_moved(*old(form), *final(form), pin.formation_id@, *step, extra, *stamp)
            &&& final(journal)@ == step_journal(
                old(journal)@,
                old(form).intents@[key1(pin.formation_id@)],
                *step,
                told@,
            )
        } else {
            &&& r is Err
            &&& r->Err_0@ == stale_revision_view(pin.revision)
            &&& *final(form) == *old(form)
            &&& final(journal)@ == old(journal)@
        },
{
    let (i, s) = match compare_pair(form, pin) {
        None => {
            return Err(stale_revision(pin.revision));
        },
        Some(p) => p,
    };
    let name = cat2("formation.", step.to.as_str());
    let mut detail = cat4(
        "formation=",
        form.intents.rows[i].formation_id.as_str(),
        " via=",
        step.via.as_str(),
    );
    detail.append(" slot=");
    detail.append(step.slot_state.as_str());
    let revision: u64 = form.intents.rows[i].revision + 1;
    let payload = step_payload(
        form.intents.rows[i].formation_id.as_str(),
        step.to,
        step.slot_state.as_str(),
        step.via.as_str(),
        told,
    );
    journal.audit(name.as_str(), detail.as_str());
    journal.event(
        NewEvent {
            kind: event_type(step.to),
            stream_id: form.intents.rows[i].formation_id.clone(),
            project_id: Some(form.intents.rows[i].project_id.clone()),
            actor: Actor::Named(form.intents.rows[i].requested_by_principal.clone()),
            schema_ref: "schema:kovee-endeavor-formation-intent-v1".to_owned(),
            resource_ref: form.intents.rows[i].formation_id.clone(),
            resource_revision: Some(revision),
            causation_ref: None,
            correlation_ref: form.intents.rows[i].formation_id.clone(),
            classification_ref: None,
            payload: Some(payload),
            once: false,
            named: None,
        },
    );
    let terminal = step.to.is_terminal();
    form.intents.rows[i].revision = revision;
    form.intents.rows[i].state = step.to;
    let keyed = stamp.keyed;
    let intent_doc = intent_subject(
        form.intents.rows[i].formation_id.as_str(),
        revision,
        step.to,
        form.intents.rows[i].canonical_byom_command_digest.as_str(),
        form.intents.rows[i].formation_slot_generation,
    );
    let intent_digest = keyed("kovee-endeavor-formation-intent-v1", &intent_doc);
    let slot_doc = slot_subject(
        form.slots.rows[s].slot_id.as_str(),
        form.slots.rows[s].generation,
        step.slot_state.as_str(),
    );
    let slot_digest = keyed("kovee-endeavor-formation-slot-v1", &slot_doc);
    proof {
        assert(keyed_text(
            stamp.keyed,
            "kovee-endeavor-formation-intent-v1"@,
            intent_doc@,
            intent_digest.text@,
        ));
        assert(keyed_text(
            stamp.keyed,
            "kovee-endeavor-formation-slot-v1"@,
            slot_doc@,
            slot_digest.text@,
        ));
    }
    form.intents.rows[i].digest = intent_digest.text;
    form.intents.rows[i].terminal_at = if terminal {
        Some(stamp.at.clone())
    } else {
        None
    };
    if let Some((attempt, observation)) = extra.attempt {
        form.intents.rows[i].latest_attempt_ref = Some(attempt);
        form.intents.rows[i].latest_authentication_observation_ref = Some(observation);
    }
    if let Some(envelope) = extra.result {
        form.intents.rows[i].result = Some(envelope);
    }
    if let Some(link) = extra.link {
        form.intents.rows[i].external_link_ref = Some(link);
    }
    let slot_revision: u64 = form.slots.rows[s].revision + 1;
    form.slots.rows[s].revision = slot_revision;
    form.slots.rows[s].state = step.slot_state.clone();
    form.slots.rows[s].released_at = if step.releases_slot && terminal {
        Some(stamp.at.clone())
    } else {
        None
    };
    form.slots.rows[s].digest = slot_digest.text;
    proof {
        crate::table::table_updated(
            old(form).intents,
            form.intents,
            i as int,
            form.intents.rows@[i as int],
        );
        crate::table::table_updated(
            old(form).slots,
            form.slots,
            s as int,
            form.slots.rows@[s as int],
        );
        client_keys_kept(old(form).intents.rows@, form.intents.rows@);
    }
    Ok(revision)
}

// --------------------------------------------------------------- prepare ----

/// What a human asks to promote.
#[derive(Debug)]
pub struct PrepareArgs {
    pub society_ref: String,
    pub byom_endpoint_ref: String,
    pub client_formation_key: String,
    pub frontier_ref: String,
    pub collaboration_context_bundle_ref: String,
    pub endeavor_proposal_ref: String,
    pub endeavor_proposal: Json,
    pub source_principal_position: Json,
    pub bound_participant_ref: String,
    pub participant_binding_epoch: u64,
}

/// The context bundle that a promotion names: where it belongs, the frontier
/// that it was assembled at, and how it is recorded.
#[derive(Debug)]
pub struct Bundle {
    pub project_id: String,
    pub frontier_ref: String,
    pub record: Json,
}

/// The pinned frontier that a promotion names, where there is one.
pub open spec fn named_frontier(ctx: Contexts, args: PrepareArgs) -> Option<Frontier> {
    if ctx.frontiers@.contains_key(key1(args.frontier_ref@)) {
        Some(ctx.frontiers@[key1(args.frontier_ref@)])
    } else {
        None
    }
}

/// The context bundle that a promotion names is the assembly of that name, if
/// there is one, and its record is that assembly's.
pub open spec fn named_bundle<R: Fn(&Assembly) -> Json>(
    ctx: Contexts,
    args: PrepareArgs,
    recorded: R,
    bundle: Option<Bundle>,
) -> bool {
    let k = key1(args.collaboration_context_bundle_ref@);
    if ctx.assemblies@.contains_key(k) {
        &&& bundle matches Some(b)
        &&& b.project_id@ == ctx.assemblies@[k].project_id@
        &&& b.frontier_ref@ == ctx.assemblies@[k].frontier_ref@
        &&& recorded.ensures((&ctx.assemblies@[k],), b.record)
    } else {
        bundle is None
    }
}

fn find_frontier(ctx: &Contexts, args: &PrepareArgs) -> (r: Option<Frontier>)
    requires
        ctx.wf(),
    ensures
        r == named_frontier(*ctx, *args),
{
    proof {
        reveal_strlit("");
        crate::text::empty_is(""@);
    }
    match ctx.frontiers.find(args.frontier_ref.as_str(), "") {
        Some(f) => Some(
            Frontier {
                frontier_id: f.frontier_id.clone(),
                space_id: f.space_id.clone(),
                branch_id: f.branch_id.clone(),
                branch_head_digest: f.branch_head_digest.clone(),
            },
        ),
        None => None,
    }
}

fn find_bundle<R: Fn(&Assembly) -> Json>(
    ctx: &Contexts,
    args: &PrepareArgs,
    recorded: R,
) -> (r: Option<Bundle>)
    requires
        ctx.wf(),
        forall|a: &Assembly| #[trigger] recorded.requires((a,)),
    ensures
        named_bundle(*ctx, *args, recorded, r),
{
    proof {
        reveal_strlit("");
        crate::text::empty_is(""@);
    }
    match ctx.assemblies.find(args.collaboration_context_bundle_ref.as_str(), "") {
        Some(a) => {
            let record = recorded(a);
            proof {
                assert(recorded.ensures((a,), record));
            }
            Some(
                Bundle {
                    project_id: a.project_id.clone(),
                    frontier_ref: a.frontier_ref.clone(),
                    record,
                },
            )
        },
        None => None,
    }
}

/// The identifiers that a prepared pair is minted with.
#[derive(Debug)]
pub struct PrepareMint {
    pub formation_id: String,
    pub slot_id: String,
    pub dependency_set_ref: String,
    pub created_at: String,
}

/// What a digest is a portable one of.
#[derive(Debug, Clone, Copy, PartialEq, Eq, Structural)]
pub enum PortableTag {
    Proposal,
    Position,
    SlotSnapshot,
}

/// The functions whose results byom derives for itself: the portable digest of
/// a document, the snapshot of a slot, the digest that binds an actor, how a
/// binding is pinned, and the digest of a whole command.
#[derive(Clone, Copy)]
pub struct Crossing<P, S, A, B, C> {
    pub portable: P,
    pub snapshot: S,
    pub actor: A,
    pub pin: B,
    pub canonical: C,
}

/// Each of the functions takes every argument.
pub open spec fn crosses_all<
    P: Fn(PortableTag, &Json) -> String,
    S: Fn(&str, u64, &str, &str, &Vec<String>) -> Json,
    A: Fn(&str, &str, &str, u64) -> String,
    B: Fn(&RealmBinding) -> BindingPin,
    C: Fn(&Json) -> String,
>(crossing: Crossing<P, S, A, B, C>) -> bool {
    &&& forall|tag: PortableTag, doc: &Json| #[trigger] crossing.portable.requires((tag, doc))
    &&& forall|society: &str, epoch: u64, rule: &str, proposal: &str, sponsors: &Vec<String>|
        #[trigger] crossing.snapshot.requires((society, epoch, rule, proposal, sponsors))
    &&& forall|realm: &str, principal: &str, participant: &str, epoch: u64|
        #[trigger] crossing.actor.requires((realm, principal, participant, epoch))
    &&& forall|b: &RealmBinding| #[trigger] crossing.pin.requires((b,))
    &&& forall|doc: &Json| #[trigger] crossing.canonical.requires((doc,))
}

/// Whether a text is the portable digest of a document.
pub open spec fn portable_made<P: Fn(PortableTag, &Json) -> String>(
    portable: P,
    tag: PortableTag,
    doc: JsonView,
    text: Seq<char>,
) -> bool {
    exists|j: &Json, out: String|
        {
            &&& j@ == doc
            &&& out@ == text
            &&& #[trigger] portable.ensures((tag, j), out)
        }
}

/// Whether a text is the portable digest of the snapshot of a slot.
pub open spec fn snapshot_made<
    P: Fn(PortableTag, &Json) -> String,
    S: Fn(&str, u64, &str, &str, &Vec<String>) -> Json,
>(
    portable: P,
    snapshot: S,
    society: Seq<char>,
    epoch: u64,
    rule: Seq<char>,
    proposal_digest: Seq<char>,
    sponsors: Seq<Seq<char>>,
    text: Seq<char>,
) -> bool {
    exists|so: &str, ru: &str, pr: &str, sp: &Vec<String>, out: Json|
        {
            &&& so@ == society
            &&& ru@ == rule
            &&& pr@ == proposal_digest
            &&& crate::text::views(sp@) == sponsors
            &&& #[trigger] snapshot.ensures((so, epoch, ru, pr, sp), out)
            &&& portable_made(portable, PortableTag::SlotSnapshot, out@, text)
        }
}

/// Whether a text is the digest that binds an actor.
pub open spec fn actor_made<A: Fn(&str, &str, &str, u64) -> String>(
    actor: A,
    realm: Seq<char>,
    principal: Seq<char>,
    participant: Seq<char>,
    epoch: u64,
    text: Seq<char>,
) -> bool {
    exists|r: &str, pr: &str, pa: &str, out: String|
        {
            &&& r@ == realm
            &&& pr@ == principal
            &&& pa@ == participant
            &&& out@ == text
            &&& #[trigger] actor.ensures((r, pr, pa, epoch), out)
        }
}

/// The texts of a list, in order; other items are passed over.
pub open spec fn texts_in(items: Seq<JsonView>) -> Seq<Seq<char>>
    decreases items.len(),
{
    if items.len() == 0 {
        Seq::empty()
    } else {
        match items.last() {
            JsonView::Text(s) => texts_in(items.drop_last()).push(s),
            _ => texts_in(items.drop_last()),
        }
    }
}

/// The sponsors that a proposal names.
pub open spec fn sponsors(proposal: JsonView) -> Seq<Seq<char>> {
    match member(proposal, "sponsor_participant_refs"@) {
        Some(JsonView::List(items)) => texts_in(items),
        _ => Seq::empty(),
    }
}

/// The sponsors that a proposal names.
pub fn sponsors_of(proposal: &Json) -> (r: Vec<String>)
    ensures
        crate::text::views(r@) == sponsors(proposal@),
{
    let mut out: Vec<String> = Vec::new();
    if let Some(m) = get(proposal, "sponsor_participant_refs") {
        if let Json::List(items) = m {
            let ghost jv = m@->List_0;
            let mut i: usize = 0;
            proof {
                assert(jv.take(0).len() == 0);
                assert(crate::text::views(out@) =~= texts_in(jv.take(0)));
            }
            while i < items.len()
                invariant
                    *m == Json::List(*items),
                    m@ == JsonView::List(jv),
                    jv.len() == items@.len(),
                    i <= items.len(),
                    crate::text::views(out@) == texts_in(jv.take(i as int)),
                decreases items.len() - i,
            {
                proof {
                    assert(jv.take(i + 1).drop_last() =~= jv.take(i as int));
                    assert(jv.take(i + 1).last() == jv[i as int]);
                    assert(jv[i as int] == crate::json::json_view(items@[i as int]));
                }
                if let Json::Text(s) = &items[i] {
                    let ghost before = out@;
                    out.push(s.clone());
                    proof {
                        assert(crate::text::views(out@) =~= crate::text::views(before).push(s@));
                    }
                }
                i = i + 1;
            }
            proof {
                assert(jv.take(i as int) =~= jv);
            }
            return out;
        }
    }
    proof {
        assert(crate::text::views(out@) =~= Seq::<Seq<char>>::empty());
    }
    out
}

/// The rule set that a proposal names.
pub open spec fn rule_set(proposal: JsonView) -> Option<Seq<char>> {
    text_value(member(proposal, "governance_rule_set_ref"@))
}

pub open spec fn no_binding_view(detail: Seq<char>) -> ProblemView {
    refusal_with(
        ProblemKind::Forbidden,
        "this realm has no active governed-work binding"@,
        detail,
    )
}

/// Why a promotion does not start out from the seam.
pub open spec fn prepare_seam_refusal(
    seam: Option<(RealmBinding, SocietyMapping)>,
    args: PrepareArgs,
) -> Option<ProblemView> {
    match seam {
        None => Some(
            no_binding_view(
                "run governance_enable first: an endeavor promotion needs an ACTIVE KoveeRealmByomBinding and KoveeSocietyMapping (byom §16.3)"@,
            ),
        ),
        Some((binding, mapping)) => if mapping.society_ref@ != args.society_ref@ {
            Some(
                refusal_with(
                    ProblemKind::Forbidden,
                    "the active KoveeSocietyMapping covers another Society"@,
                    "the mapping covers "@ + quoted_text(mapping.society_ref@)
                        + "; a formation names exactly the mapped Society"@,
                ),
            )
        } else if binding.byom_endpoint_ref@ != args.byom_endpoint_ref@ {
            Some(
                refusal_with(
                    ProblemKind::Forbidden,
                    "the active binding names another byom endpoint"@,
                    "the binding names "@ + quoted_text(binding.byom_endpoint_ref@),
                ),
            )
        } else {
            None
        },
    }
}

/// Why no pair is prepared for a new formation key.
pub open spec fn prepare_pair_refusal(
    form: Formation,
    args: PrepareArgs,
    frontier: Option<Frontier>,
    bundle: Option<Bundle>,
    mint: PrepareMint,
) -> Option<ProblemView> {
    if frontier is None || bundle is None {
        Some(not_found_view())
    } else if bundle->0.frontier_ref@ != args.frontier_ref@ {
        Some(
            refusal_with(
                ProblemKind::Forbidden,
                "the context bundle was assembled at another frontier"@,
                "the bundle pins "@ + quoted_text(bundle->0.frontier_ref@)
                    + "; a formation pins ONE frontier and the bundle taken at it"@,
            ),
        )
    } else if rule_set(args.endeavor_proposal@) is None {
        Some(
            refusal_with(
                ProblemKind::Invalid,
                "invalid operation arguments"@,
                "endeavor_proposal must name its governance_rule_set_ref (the B0.1 endeavor_propose subject owns the shape)"@,
            ),
        )
    } else if form.intents@.contains_key(key1(mint.formation_id@)) || form.slots@.contains_key(
        key1(mint.slot_id@),
    ) {
        Some(internal_view())
    } else {
        None
    }
}

/// The idempotency key that a domain digest makes.
pub open spec fn command_key_of(domain: Seq<char>) -> Seq<char> {
    "kef-"@ + domain.take(32)
}

/// The byom command idempotency key: one intent, one key.
pub fn command_key(domain: &str) -> (r: String)
    requires
        domain@.len() >= 32,
    ensures
        r@ == command_key_of(domain@),
{
    let head = first_chars(domain, 32);
    proof {
        assert(domain@.take(32) =~= head@);
    }
    cat2("kef-", head.as_str())
}

/// The stable command that a prepared intent pins.
pub open spec fn pinned_command<
    G: Fn(&str, &Json) -> Keyed,
    P: Fn(PortableTag, &Json) -> String,
    S: Fn(&str, u64, &str, &str, &Vec<String>) -> Json,
    A: Fn(&str, &str, &str, u64) -> String,
    B: Fn(&RealmBinding) -> BindingPin,
    C: Fn(&Json) -> String,
>(
    c: FormationCommand,
    realm: Seq<char>,
    principal: Seq<char>,
    binding: RealmBinding,
    mapping: SocietyMapping,
    args: PrepareArgs,
    bundle: Bundle,
    mint: PrepareMint,
    keyed: G,
    crossing: Crossing<P, S, A, B, C>,
) -> bool {
    &&& c.kovee_formation_intent_ref@ == mint.formation_id@
    &&& c.byom_endpoint_ref@ == binding.byom_endpoint_ref@
    &&& c.command_endpoint_incarnation@ == binding.endpoint_incarnation@
    &&& crossing.pin.ensures((&binding,), c.binding)
    &&& c.society_ref@ == mapping.society_ref@
    &&& c.society_recovery_epoch == mapping.society_recovery_epoch
    &&& c.source_principal_ref@ == principal
    &&& actor_made(
        crossing.actor,
        realm,
        principal,
        args.bound_participant_ref@,
        args.participant_binding_epoch,
        c.source_actor_binding_digest@,
    )
    &&& c.context_bundle_ref@ == args.collaboration_context_bundle_ref@
    &&& portable_made(
        crossing.portable,
        PortableTag::Proposal,
        bundle_document(args.collaboration_context_bundle_ref@, bundle.record@),
        c.context_bundle_digest@,
    )
    &&& c.endeavor_proposal@ == args.endeavor_proposal@
    &&& portable_made(
        crossing.portable,
        PortableTag::Proposal,
        args.endeavor_proposal@,
        c.endeavor_proposal_digest@,
    )
    &&& c.source_principal_position@ == args.source_principal_position@
    &&& portable_made(
        crossing.portable,
        PortableTag::Position,
        args.source_principal_position@,
        c.source_principal_position_digest@,
    )
    &&& Some(c.expected_governance_rule_set_ref@) == rule_set(args.endeavor_proposal@)
    &&& snapshot_made(
        crossing.portable,
        crossing.snapshot,
        mapping.society_ref@,
        mapping.society_recovery_epoch,
        c.expected_governance_rule_set_ref@,
        c.endeavor_proposal_digest@,
        sponsors(args.endeavor_proposal@),
        c.expected_slot_snapshot_digest@,
    )
    &&& exists|hex: Seq<char>|
        {
            &&& #[trigger] keyed_both(
                keyed,
                "kovee-idempotency-domain-v1"@,
                domain_document(mapping.society_ref@, principal, args.client_formation_key@),
                c.idempotency_domain_digest@,
                hex,
            )
            &&& c.byom_command_idempotency_key@ == command_key_of(hex)
        }
}

/// The stable command of a promotion: pinned once, and the same in every
/// attempt. `rule` is the rule set that the proposal names.
fn pin_command<
    G: Fn(&str, &Json) -> Keyed + Copy,
    P: Fn(PortableTag, &Json) -> String + Copy,
    S: Fn(&str, u64, &str, &str, &Vec<String>) -> Json + Copy,
    A: Fn(&str, &str, &str, u64) -> String + Copy,
    B: Fn(&RealmBinding) -> BindingPin + Copy,
    C: Fn(&Json) -> String + Copy,
>(
    realm: &str,
    principal: &str,
    binding: &RealmBinding,
    mapping: &SocietyMapping,
    args: &PrepareArgs,
    bundle: &Bundle,
    rule: &str,
    mint: &PrepareMint,
    keyed: G,
    crossing: Crossing<P, S, A, B, C>,
) -> (r: FormationCommand)
    requires
        rule_set(args.endeavor_proposal@) == Some(rule@),
        keys_all(keyed),
        crosses_all(crossing),
    ensures
        pinned_command(
            r,
            realm@,
            principal@,
            *binding,
            *mapping,
            *args,
            *bundle,
            *mint,
            keyed,
            crossing,
        ),
{
    let doc = domain_subject(
        mapping.society_ref.as_str(),
        principal,
        args.client_formation_key.as_str(),
    );
    let domain = keyed("kovee-idempotency-domain-v1", &doc);
    let ghost hex = domain.hex@;
    proof {
        assert(keyed_both(
            keyed,
            "kovee-idempotency-domain-v1"@,
            doc@,
            domain.text@,
            domain.hex@,
        ));
    }
    let portable = crossing.portable;
    let proposal_digest = portable(PortableTag::Proposal, &args.endeavor_proposal);
    let position_digest = portable(PortableTag::Position, &args.source_principal_position);
    let bundle_doc = bundle_subject(args.collaboration_context_bundle_ref.as_str(), &bundle.record);
    let bundle_digest = portable(PortableTag::Proposal, &bundle_doc);
    let named = sponsors_of(&args.endeavor_proposal);
    let snapshot = crossing.snapshot;
    let society = mapping.society_ref.as_str();
    let proposed = proposal_digest.as_str();
    let slot_snapshot = snapshot(
        society,
        mapping.society_recovery_epoch,
        rule,
        proposed,
        &named,
    );
    let snapshot_digest = portable(PortableTag::SlotSnapshot, &slot_snapshot);
    let actor = crossing.actor;
    let participant = args.bound_participant_ref.as_str();
    let actor_digest = actor(realm, principal, participant, args.participant_binding_epoch);
    let pin = crossing.pin;
    let pinned = pin(binding);
    proof {
        assert(portable.ensures((PortableTag::Proposal, &args.endeavor_proposal), proposal_digest));
        assert(portable.ensures(
            (PortableTag::Position, &args.source_principal_position),
            position_digest,
        ));
        assert(portable.ensures((PortableTag::Proposal, &bundle_doc), bundle_digest));
        assert(snapshot.ensures(
            (society, mapping.society_recovery_epoch, rule, proposed, &named),
            slot_snapshot,
        ));
        assert(portable.ensures((PortableTag::SlotSnapshot, &slot_snapshot), snapshot_digest));
        assert(portable_made(
            portable,
            PortableTag::SlotSnapshot,
            slot_snapshot@,
            snapshot_digest@,
        ));
        assert(snapshot_made(
            portable,
            snapshot,
            mapping.society_ref@,
            mapping.society_recovery_epoch,
            rule@,
            proposal_digest@,
            sponsors(args.endeavor_proposal@),
            snapshot_digest@,
        ));
        assert(actor.ensures(
            (realm, principal, participant, args.participant_binding_epoch),
            actor_digest,
        ));
        assert(pin.ensures((binding,), pinned));
    }
    let r = FormationCommand {
        kovee_formation_intent_ref: mint.formation_id.clone(),
        byom_endpoint_ref: binding.byom_endpoint_ref.clone(),
        command_endpoint_incarnation: binding.endpoint_incarnation.clone(),
        binding: pinned,
        society_ref: mapping.society_ref.clone(),
        society_recovery_epoch: mapping.society_recovery_epoch,
        source_principal_ref: principal.to_owned(),
        source_actor_binding_digest: actor_digest,
        context_bundle_ref: args.collaboration_context_bundle_ref.clone(),
        context_bundle_digest: bundle_digest,
        endeavor_proposal: args.endeavor_proposal.copy(),
        endeavor_proposal_digest: proposal_digest,
        source_principal_position: args.source_principal_position.copy(),
        source_principal_position_digest: position_digest,
        expected_governance_rule_set_ref: rule.to_owned(),
        expected_slot_snapshot_digest: snapshot_digest,
        byom_command_idempotency_key: command_key(domain.hex.as_str()),
        idempotency_domain_digest: domain.text,
    };
    proof {
        assert(keyed_both(
            keyed,
            "kovee-idempotency-domain-v1"@,
            domain_document(mapping.society_ref@, principal@, args.client_formation_key@),
            r.idempotency_domain_digest@,
            hex,
        ));
    }
    r
}

/// The intent that is prepared: at revision one, holding slot generation one.
pub open spec fn prepared_intent<
    G: Fn(&str, &Json) -> Keyed,
    P: Fn(PortableTag, &Json) -> String,
    S: Fn(&str, u64, &str, &str, &Vec<String>) -> Json,
    A: Fn(&str, &str, &str, u64) -> String,
    B: Fn(&RealmBinding) -> BindingPin,
    C: Fn(&Json) -> String,
>(
    t: Intent,
    realm: Seq<char>,
    principal: Seq<char>,
    binding: RealmBinding,
    mapping: SocietyMapping,
    args: PrepareArgs,
    frontier: Frontier,
    bundle: Bundle,
    mint: PrepareMint,
    keyed: G,
    crossing: Crossing<P, S, A, B, C>,
) -> bool {
    &&& t.formation_id@ == mint.formation_id@
    &&& t.revision == 1
    &&& t.realm_ref@ == realm
    &&& t.project_id@ == bundle.project_id@
    &&& t.space_id@ == frontier.space_id@
    &&& t.branch_id@ == frontier.branch_id@
    &&& t.frontier_ref@ == args.frontier_ref@
    &&& keyed_text(
        keyed,
        "kovee-formation-frontier-v1"@,
        frontier_document(args.frontier_ref@, frontier.branch_id@, frontier.branch_head_digest@),
        t.frontier_digest@,
    )
    &&& t.endeavor_proposal_ref@ == args.endeavor_proposal_ref@
    &&& t.requested_by_principal@ == principal
    &&& t.bound_participant_ref@ == args.bound_participant_ref@
    &&& t.participant_binding_epoch == args.participant_binding_epoch
    &&& t.client_formation_key@ == args.client_formation_key@
    &&& command_digested(
        crossing.canonical,
        command_document(t.command),
        t.canonical_byom_command_digest@,
    )
    &&& t.formation_slot_ref@ == mint.slot_id@
    &&& t.formation_slot_generation == 1
    &&& t.authorization_dependency_set_ref@ == mint.dependency_set_ref@
    &&& keyed_text(
        keyed,
        "kovee-formation-dependency-set-v1"@,
        authority_document(
            mint.dependency_set_ref@,
            realm,
            args.frontier_ref@,
            t.command,
            t.canonical_byom_command_digest@,
        ),
        t.authority_digest@,
    )
    &&& t.state is Prepared
    &&& t.created_at@ == mint.created_at@
    &&& keyed_text(
        keyed,
        "kovee-endeavor-formation-intent-v1"@,
        intent_document(
            mint.formation_id@,
            1,
            IntentState::Prepared,
            t.canonical_byom_command_digest@,
            1,
        ),
        t.digest@,
    )
    &&& pinned_command(
        t.command,
        realm,
        principal,
        binding,
        mapping,
        args,
        bundle,
        mint,
        keyed,
        crossing,
    )
    &&& t.latest_attempt_ref is None
    &&& t.latest_authentication_observation_ref is None
    &&& t.result is None
    &&& t.external_link_ref is None
    &&& t.terminal_at is None
}

/// The slot that a prepared intent holds.
pub open spec fn held_slot<G: Fn(&str, &Json) -> Keyed>(
    s: FormationSlot,
    realm: Seq<char>,
    principal: Seq<char>,
    args: PrepareArgs,
    mint: PrepareMint,
    keyed: G,
) -> bool {
    &&& s.slot_id@ == mint.slot_id@
    &&& s.realm_ref@ == realm
    &&& s.requested_by_principal@ == principal
    &&& s.client_formation_key@ == args.client_formation_key@
    &&& s.holder_formation_id@ == mint.formation_id@
    &&& s.generation == 1
    &&& s.revision == 1
    &&& s.state@ == "held"@
    &&& s.acquired_at@ == mint.created_at@
    &&& s.released_at is None
    &&& keyed_text(
        keyed,
        "kovee-endeavor-formation-slot-v1"@,
        slot_document(mint.slot_id@, 1, "held"@),
        s.digest@,
    )
}

fn intent_by_key(form: &Formation, realm: &str, principal: &str, client_key: &str) -> (r: Option<
    usize,
>)
    ensures
        match r {
            Some(i) => of_client_key(
                form.intents.rows@,
                realm@,
                principal@,
                client_key@,
                i as int,
            ),
            None => forall|i: int| !#[trigger]
                of_client_key(form.intents.rows@, realm@, principal@, client_key@, i),
        },
{
    let mut i: usize = 0;
    while i < form.intents.rows.len()
        invariant
            i <= form.intents.rows.len(),
            forall|j: int|
                j < i ==> !#[trigger] of_client_key(
                    form.intents.rows@,
                    realm@,
                    principal@,
                    client_key@,
                    j,
                ),
        decreases form.intents.rows.len() - i,
    {
        let t = &form.intents.rows[i];
        if same(t.realm_ref.as_str(), realm) && same(t.requested_by_principal.as_str(), principal)
            && same(t.client_formation_key.as_str(), client_key) {
            return Some(i);
        }
        i = i + 1;
    }
    None
}

fn prepare_gate(
    form: &Formation,
    args: &PrepareArgs,
    frontier: &Option<Frontier>,
    bundle: &Option<Bundle>,
    mint: &PrepareMint,
) -> (r: Result<String, Problem>)
    requires
        form.wf(),
    ensures
        match r {
            Ok(rule) => prepare_pair_refusal(*form, *args, *frontier, *bundle, *mint) is None
                && rule_set(args.endeavor_proposal@) == Some(rule@),
            Err(p) => prepare_pair_refusal(*form, *args, *frontier, *bundle, *mint) == Some(p@),
        },
{
    if frontier.is_none() {
        return Err(not_found());
    }
    let b = match bundle {
        None => {
            return Err(not_found());
        },
        Some(b) => b,
    };
    if !same(b.frontier_ref.as_str(), args.frontier_ref.as_str()) {
        let q = quoted(b.frontier_ref.as_str());
        let detail = cat3(
            "the bundle pins ",
            q.as_str(),
            "; a formation pins ONE frontier and the bundle taken at it",
        );
        return Err(
            problem(
                ProblemKind::Forbidden,
                "the context bundle was assembled at another frontier",
                detail.as_str(),
            ),
        );
    }
    let rule = match as_text(get(&args.endeavor_proposal, "governance_rule_set_ref")) {
        None => {
            return Err(
                problem(
                    ProblemKind::Invalid,
                    "invalid operation arguments",
                    "endeavor_proposal must name its governance_rule_set_ref (the B0.1 endeavor_propose subject owns the shape)",
                ),
            );
        },
        Some(s) => s.clone(),
    };
    proof {
        reveal_strlit("");
        crate::text::empty_is(""@);
    }
    if form.intents.position(mint.formation_id.as_str(), "").is_some() || form.slots.position(
        mint.slot_id.as_str(),
        "",
    ).is_some() {
        return Err(internal());
    }
    Ok(rule)
}

/// What is announced of a prepared pair.
pub open spec fn prepared_document(
    formation_id: Seq<char>,
    client_formation_key: Seq<char>,
) -> JsonView {
    JsonView::Object(
        seq![
            text_member("client_formation_key"@, client_formation_key),
            text_member("formation_id"@, formation_id),
            text_member("slot_state"@, "held"@),
            text_member("state"@, "prepared"@),
            text_member("via"@, "formation_prepare"@),
        ],
    )
}

/// What is announced of a prepared pair.
fn prepared_payload(formation_id: &str, client_formation_key: &str) -> (r: Json)
    ensures
        r@ == prepared_document(formation_id@, client_formation_key@),
{
    let mut v: Vec<(String, Json)> = Vec::new();
    put_text(&mut v, "client_formation_key", client_formation_key);
    put_text(&mut v, "formation_id", formation_id);
    put_text(&mut v, "slot_state", "held");
    put_text(&mut v, "state", "prepared");
    put_text(&mut v, "via", "formation_prepare");
    proof {
        assert(members(v@) =~= prepared_document(formation_id@, client_formation_key@)->Object_0);
    }
    object(v)
}

/// What preparing a promotion does and answers, of the frontier and the bundle
/// that it names.
pub open spec fn prepare_outcome<
    G: Fn(&str, &Json) -> Keyed + Copy,
    P: Fn(PortableTag, &Json) -> String + Copy,
    S: Fn(&str, u64, &str, &str, &Vec<String>) -> Json + Copy,
    A: Fn(&str, &str, &str, u64) -> String + Copy,
    B: Fn(&RealmBinding) -> BindingPin + Copy,
    C: Fn(&Json) -> String + Copy,
>(
    before: Formation,
    after: Formation,
    journal: JournalView,
    after_journal: JournalView,
    gov: Governance,
    realm: Seq<char>,
    principal: Seq<char>,
    args: PrepareArgs,
    frontier: Option<Frontier>,
    bundle: Option<Bundle>,
    mint: PrepareMint,
    keyed: G,
    crossing: Crossing<P, S, A, B, C>,
    r: Result<usize, Problem>,
) -> bool {
    &&& r is Err ==> after == before && after_journal == journal
    &&& match prepare_seam_refusal(seam_of(gov, realm), args) {
        Some(p) => r is Err && r->Err_0@ == p,
        None => if exists|i: int| #[trigger]
            of_client_key(
                before.intents.rows@,
                realm,
                principal,
                args.client_formation_key@,
                i,
            ) {
            &&& r is Ok
            &&& of_client_key(
                before.intents.rows@,
                realm,
                principal,
                args.client_formation_key@,
                r->Ok_0 as int,
            )
            &&& after == before
            &&& after_journal == journal
        } else {
            match prepare_pair_refusal(before, args, frontier, bundle, mint) {
                Some(p) => r is Err && r->Err_0@ == p,
                None => {
                    let t = after.intents.rows@.last();
                    let s = after.slots.rows@.last();
                    let seam = seam_of(gov, realm)->0;
                    &&& r is Ok
                    &&& r->Ok_0 == before.intents.rows@.len()
                    &&& after.intents.rows@ == before.intents.rows@.push(t)
                    &&& prepared_intent(
                        t,
                        realm,
                        principal,
                        seam.0,
                        seam.1,
                        args,
                        frontier->0,
                        bundle->0,
                        mint,
                        keyed,
                        crossing,
                    )
                    &&& after.slots.rows@ == before.slots.rows@.push(s)
                    &&& held_slot(s, realm, principal, args, mint, keyed)
                    &&& after.attempts == before.attempts
                    &&& after.links == before.links
                    &&& after_journal == journal.with_audit(
                        "formation.prepared"@,
                        "formation="@ + mint.formation_id@ + " slot="@ + mint.slot_id@
                            + " generation=1"@,
                    ).with_event(
                        EventView {
                            kind: EventKind::FormationPrepared,
                            stream_id: mint.formation_id@,
                            project_id: Some(bundle->0.project_id@),
                            actor: ActorView::Named(principal),
                            schema_ref: "schema:kovee-endeavor-formation-intent-v1"@,
                            resource_ref: mint.formation_id@,
                            resource_revision: Some(1u64),
                            causation_ref: None,
                            correlation_ref: mint.formation_id@,
                            classification_ref: None,
                            payload: Some(
                                prepared_document(
                                    mint.formation_id@,
                                    args.client_formation_key@,
                                ),
                            ),
                            once: false,
                            named: None,
                        },
                    )
                },
            }
        },
    }
}

/// What preparing a promotion does and answers.
pub open spec fn preparing_outcome<
    G: Fn(&str, &Json) -> Keyed + Copy,
    P: Fn(PortableTag, &Json) -> String + Copy,
    S: Fn(&str, u64, &str, &str, &Vec<String>) -> Json + Copy,
    A: Fn(&str, &str, &str, u64) -> String + Copy,
    B: Fn(&RealmBinding) -> BindingPin + Copy,
    C: Fn(&Json) -> String + Copy,
    R: Fn(&Assembly) -> Json + Copy,
>(
    form: Formation,
    form_after: Formation,
    journal: JournalView,
    journal_after: JournalView,
    gov: Governance,
    ctx: Contexts,
    realm: Seq<char>,
    principal: Seq<char>,
    args: PrepareArgs,
    recorded: R,
    mint: PrepareMint,
    keyed: G,
    crossing: Crossing<P, S, A, B, C>,
    r: Result<usize, Problem>,
) -> bool {
    &&& exists|bundle: Option<Bundle>|
        {
            &&& #[trigger] named_bundle(ctx, args, recorded, bundle)
            &&& prepare_outcome(
                form,
                form_after,
                journal,
                journal_after,
                gov,
                realm,
                principal,
                args,
                named_frontier(ctx, args),
                bundle,
                mint,
                keyed,
                crossing,
                r,
            )
        }
}

/// Prepares the durable pair of a promotion, with no external contact, from
/// the pinned frontier and the context bundle that it names. `recorded` is how
/// an assembly is recorded. A repeat under the same formation key answers the
/// pair that stands. The answer is the intent's position.
pub fn endeavor_promotion_prepare<
    G: Fn(&str, &Json) -> Keyed + Copy,
    P: Fn(PortableTag, &Json) -> String + Copy,
    S: Fn(&str, u64, &str, &str, &Vec<String>) -> Json + Copy,
    A: Fn(&str, &str, &str, u64) -> String + Copy,
    B: Fn(&RealmBinding) -> BindingPin + Copy,
    C: Fn(&Json) -> String + Copy,
    R: Fn(&Assembly) -> Json + Copy,
>(
    form: &mut Formation,
    journal: &mut Journal,
    gov: &Governance,
    ctx: &Contexts,
    realm: &str,
    principal: &str,
    args: &PrepareArgs,
    recorded: R,
    mint: &PrepareMint,
    keyed: G,
    crossing: Crossing<P, S, A, B, C>,
) -> (r: Result<usize, Problem>)
    requires
        old(form).wf(),
        gov.wf(),
        ctx.wf(),
        forall|a: &Assembly| #[trigger] recorded.requires((a,)),
        keys_all(keyed),
        crosses_all(crossing),
    ensures
        final(form).wf(),
        preparing_outcome(
            *old(form),
            *final(form),
            old(journal)@,
            final(journal)@,
            *gov,
            *ctx,
            realm@,
            principal@,
            *args,
            recorded,
            *mint,
            keyed,
            crossing,
            r,
        ),
{
    let frontier = find_frontier(ctx, args);
    let bundle = find_bundle(ctx, args, recorded);
    prepare_promotion(
        form,
        journal,
        gov,
        realm,
        principal,
        args,
        &frontier,
        &bundle,
        mint,
        keyed,
        crossing,
    )
}

/// Prepares the pair from a given frontier and bundle.
fn prepare_promotion<
    G: Fn(&str, &Json) -> Keyed + Copy,
    P: Fn(PortableTag, &Json) -> String + Copy,
    S: Fn(&str, u64, &str, &str, &Vec<String>) -> Json + Copy,
    A: Fn(&str, &str, &str, u64) -> String + Copy,
    B: Fn(&RealmBinding) -> BindingPin + Copy,
    C: Fn(&Json) -> String + Copy,
>(
    form: &mut Formation,
    journal: &mut Journal,
    gov: &Governance,
    realm: &str,
    principal: &str,
    args: &PrepareArgs,
    frontier: &Option<Frontier>,
    bundle: &Option<Bundle>,
    mint: &PrepareMint,
    keyed: G,
    crossing: Crossing<P, S, A, B, C>,
) -> (r: Result<usize, Problem>)
    requires
        old(form).wf(),
        gov.wf(),
        keys_all(keyed),
        crosses_all(crossing),
    ensures
        final(form).wf(),
        prepare_outcome(
            *old(form),
            *final(form),
            old(journal)@,
            final(journal)@,
            *gov,
            realm@,
            principal@,
            *args,
            *frontier,
            *bundle,
            *mint,
            keyed,
            crossing,
            r,
        ),
{
    let seam = match active_seam(gov, realm) {
        None => {
            return Err(
                problem(
                    ProblemKind::Forbidden,
                    "this realm has no active governed-work binding",
                    "run governance_enable first: an endeavor promotion needs an ACTIVE KoveeRealmByomBinding and KoveeSocietyMapping (byom §16.3)",
                ),
            );
        },
        Some(s) => s,
    };
    if !same(seam.mapping.society_ref.as_str(), args.society_ref.as_str()) {
        let q = quoted(seam.mapping.society_ref.as_str());
        let detail = cat3(
            "the mapping covers ",
            q.as_str(),
            "; a formation names exactly the mapped Society",
        );
        return Err(
            problem(
                ProblemKind::Forbidden,
                "the active KoveeSocietyMapping covers another Society",
                detail.as_str(),
            ),
        );
    }
    if !same(seam.binding.byom_endpoint_ref.as_str(), args.byom_endpoint_ref.as_str()) {
        let q = quoted(seam.binding.byom_endpoint_ref.as_str());
        let detail = cat2("the binding names ", q.as_str());
        return Err(
            problem(
                ProblemKind::Forbidden,
                "the active binding names another byom endpoint",
                detail.as_str(),
            ),
        );
    }
    if let Some(i) = intent_by_key(form, realm, principal, args.client_formation_key.as_str()) {
        return Ok(i);
    }
    let rule = prepare_gate(form, args, frontier, bundle, mint)?;
    let (space_id, branch_id, branch_head_digest) = match frontier {
        Some(f) => (f.space_id.clone(), f.branch_id.clone(), f.branch_head_digest.clone()),
        None => (String::new(), String::new(), String::new()),
    };
    let held = match bundle {
        Some(b) => b,
        None => {
            return Err(not_found());
        },
    };
    let project_id = held.project_id.clone();
    let canonical = crossing.canonical;
    let command = pin_command(
        realm,
        principal,
        seam.binding,
        seam.mapping,
        args,
        held,
        rule.as_str(),
        mint,
        keyed,
        crossing,
    );
    let frontier_doc = frontier_subject(
        args.frontier_ref.as_str(),
        branch_id.as_str(),
        branch_head_digest.as_str(),
    );
    let frontier_digest = keyed("kovee-formation-frontier-v1", &frontier_doc);
    let command_doc = command_subject(&command);
    let command_digest = canonical(&command_doc);
    let authority_doc = authority_subject(
        mint.dependency_set_ref.as_str(),
        realm,
        args.frontier_ref.as_str(),
        &command,
        command_digest.as_str(),
    );
    let authority_digest = keyed("kovee-formation-dependency-set-v1", &authority_doc);
    let intent_doc = intent_subject(
        mint.formation_id.as_str(),
        1,
        IntentState::Prepared,
        command_digest.as_str(),
        1,
    );
    let intent_digest = keyed("kovee-endeavor-formation-intent-v1", &intent_doc);
    let slot_doc = slot_subject(mint.slot_id.as_str(), 1, "held");
    let slot_digest = keyed("kovee-endeavor-formation-slot-v1", &slot_doc);
    proof {
        assert(keyed_text(
            keyed,
            "kovee-formation-frontier-v1"@,
            frontier_doc@,
            frontier_digest.text@,
        ));
        assert(command_digested(canonical, command_doc@, command_digest@));
        assert(keyed_text(
            keyed,
            "kovee-formation-dependency-set-v1"@,
            authority_doc@,
            authority_digest.text@,
        ));
        assert(keyed_text(
            keyed,
            "kovee-endeavor-formation-intent-v1"@,
            intent_doc@,
            intent_digest.text@,
        ));
        assert(keyed_text(
            keyed,
            "kovee-endeavor-formation-slot-v1"@,
            slot_doc@,
            slot_digest.text@,
        ));
    }
    let intent = Intent {
        formation_id: mint.formation_id.clone(),
        revision: 1,
        realm_ref: realm.to_owned(),
        project_id: project_id.clone(),
        space_id,
        branch_id,
        frontier_ref: args.frontier_ref.clone(),
        frontier_digest: frontier_digest.text,
        endeavor_proposal_ref: args.endeavor_proposal_ref.clone(),
        requested_by_principal: principal.to_owned(),
        bound_participant_ref: args.bound_participant_ref.clone(),
        participant_binding_epoch: args.participant_binding_epoch,
        client_formation_key: args.client_formation_key.clone(),
        canonical_byom_command_digest: command_digest,
        formation_slot_ref: mint.slot_id.clone(),
        formation_slot_generation: 1,
        authorization_dependency_set_ref: mint.dependency_set_ref.clone(),
        authority_digest: authority_digest.text,
        state: IntentState::Prepared,
        created_at: mint.created_at.clone(),
        digest: intent_digest.text,
        command,
        latest_attempt_ref: None,
        latest_authentication_observation_ref: None,
        result: None,
        external_link_ref: None,
        terminal_at: None,
    };
    let slot = FormationSlot {
        slot_id: mint.slot_id.clone(),
        realm_ref: realm.to_owned(),
        requested_by_principal: principal.to_owned(),
        client_formation_key: args.client_formation_key.clone(),
        holder_formation_id: mint.formation_id.clone(),
        generation: 1,
        revision: 1,
        state: "held".to_owned(),
        acquired_at: mint.created_at.clone(),
        released_at: None,
        digest: slot_digest.text,
    };
    let at: usize = form.intents.rows.len();
    form.intents.insert(intent);
    form.slots.insert(slot);
    proof {
        let b = old(form).intents.rows@;
        let a = form.intents.rows@;
        assert forall|i: int, j: int| 0 <= i < j < a.len() implies !same_command(
            #[trigger] a[i],
            #[trigger] a[j],
        ) by {
            assert(a[i] == b[i]);
            if j < b.len() {
                assert(a[j] == b[j]);
            } else {
                assert(!of_client_key(b, realm@, principal@, args.client_formation_key@, i));
            }
        }
    }
    let mut detail = cat4("formation=", mint.formation_id.as_str(), " slot=", mint.slot_id.as_str());
    detail.append(" generation=1");
    journal.audit("formation.prepared", detail.as_str());
    let payload = prepared_payload(
        mint.formation_id.as_str(),
        args.client_formation_key.as_str(),
    );
    journal.event(
        NewEvent {
            kind: EventKind::FormationPrepared,
            stream_id: mint.formation_id.clone(),
            project_id: Some(project_id),
            actor: Actor::Named(principal.to_owned()),
            schema_ref: "schema:kovee-endeavor-formation-intent-v1".to_owned(),
            resource_ref: mint.formation_id.clone(),
            resource_revision: Some(1),
            causation_ref: None,
            correlation_ref: mint.formation_id.clone(),
            classification_ref: None,
            payload: Some(payload),
            once: false,
            named: None,
        },
    );
    Ok(at)
}

fn no_extra() -> (r: Extra)
    ensures
        r == (Extra { attempt: None, result: None, link: None }),
{
    Extra { attempt: None, result: None, link: None }
}

pub open spec fn nothing_more() -> Extra {
    Extra { attempt: None, result: None, link: None }
}

fn pin_of(t: &Intent) -> (r: Pinned)
    ensures
        pins(r, *t),
{
    Pinned {
        formation_id: t.formation_id.clone(),
        revision: t.revision,
        state: t.state,
        slot_generation: t.formation_slot_generation,
    }
}

/// Whether a pin is what a step reads of an intent now.
pub open spec fn pins(pin: Pinned, t: Intent) -> bool {
    &&& pin.formation_id@ == t.formation_id@
    &&& pin.revision == t.revision
    &&& pin.state == t.state
    &&& pin.slot_generation == t.formation_slot_generation
}

/// Whether the slot of an intent is there, under the intent's generation.
pub open spec fn slot_held(form: Formation, t: Intent) -> bool {
    &&& form.slots@.contains_key(key1(t.formation_slot_ref@))
    &&& form.slots@[key1(t.formation_slot_ref@)].generation == t.formation_slot_generation
}

// ---------------------------------------------------------------- cancel ----

/// Why a cancel is refused before the pair is written.
pub open spec fn cancel_refusal(form: Formation, t: Intent) -> Option<ProblemView> {
    if t.state !is Prepared {
        Some(
            refusal_with(
                ProblemKind::Forbidden,
                "cancel exists only before the first send"@,
                "the intent is "@ + quoted_text(t.state.name())
                    + ": after bytes may have left Kovee, cancel is not a row of this machine — reconcile against byom's own fact instead (§16.3 table row 1)"@,
            ),
        )
    } else if form.slots@.contains_key(key1(t.formation_slot_ref@)) && form.slots@[key1(
        t.formation_slot_ref@,
    )].state@ != "held"@ {
        Some(
            refusal_with(
                ProblemKind::Forbidden,
                "the uniqueness slot has already been acquired for a send"@,
                "the slot is "@ + quoted_text(form.slots@[key1(t.formation_slot_ref@)].state@)
                    + "; only a `held` slot cancels locally"@,
            ),
        )
    } else {
        None
    }
}

pub open spec fn is_cancel_step(step: Step) -> bool {
    &&& step.to is Canceled
    &&& step.via is FormationCancel
    &&& step.releases_slot
    &&& step.slot_state@ == "released"@
}

/// What canceling a promotion does and answers.
pub open spec fn cancel_outcome<G: Fn(&str, &Json) -> Keyed + Copy>(
    form: Formation,
    form_after: Formation,
    journal: JournalView,
    journal_after: JournalView,
    realm: Seq<char>,
    formation_id: Seq<char>,
    reason: Option<String>,
    stamp: Stamp<G>,
    r: Result<u64, Problem>,
) -> bool {
    &&& r is Err ==> form_after == form && journal_after == journal
    &&& match intent_of(form, realm, formation_id) {
        None => r is Err && r->Err_0@ == not_found_view(),
        Some(t) => if t.state is Canceled {
            &&& r is Ok
            &&& r->Ok_0 == t.revision
            &&& form_after == form
            &&& journal_after == journal
        } else {
            match cancel_refusal(form, t) {
                Some(p) => r is Err && r->Err_0@ == p,
                None => if slot_held(form, t) {
                    &&& r is Ok
                    &&& r->Ok_0 == t.revision + 1
                    &&& form_after.attempts == form.attempts
                    &&& form_after.links == form.links
                    &&& exists|step: Step|
                        {
                            &&& is_cancel_step(step)
                            &&& #[trigger] pair_moved(
                                form,
                                form_after,
                                formation_id,
                                step,
                                nothing_more(),
                                stamp,
                            )
                            &&& journal_after == step_journal(
                                journal,
                                t,
                                step,
                                ToldView::Reason(opt_view(reason)),
                            )
                        }
                } else {
                    r is Err && r->Err_0@ == stale_revision_view(t.revision)
                },
            }
        },
    }
}

/// The one release before any send: exists only from `prepared`, with the slot
/// still held. A canceled intent stays as it is.
pub fn endeavor_promotion_cancel<G: Fn(&str, &Json) -> Keyed + Copy>(
    form: &mut Formation,
    journal: &mut Journal,
    realm: &str,
    formation_id: &str,
    reason: &Option<String>,
    stamp: &Stamp<G>,
) -> (r: Result<u64, Problem>)
    requires
        keys_all(stamp.keyed),
        old(form).wf(),
        pairs_fit(*old(form)),
    ensures
        final(form).wf(),
        cancel_outcome(
            *old(form),
            *final(form),
            old(journal)@,
            final(journal)@,
            realm@,
            formation_id@,
            *reason,
            *stamp,
            r,
        ),
{
    let i = match read_intent(form, realm, formation_id) {
        None => {
            return Err(not_found());
        },
        Some(i) => i,
    };
    let state = form.intents.rows[i].state;
    if state == IntentState::Canceled {
        return Ok(form.intents.rows[i].revision);
    }
    if state != IntentState::Prepared {
        let q = quoted(state.as_str());
        let detail = cat3(
            "the intent is ",
            q.as_str(),
            ": after bytes may have left Kovee, cancel is not a row of this machine — reconcile against byom's own fact instead (§16.3 table row 1)",
        );
        return Err(
            problem(
                ProblemKind::Forbidden,
                "cancel exists only before the first send",
                detail.as_str(),
            ),
        );
    }
    proof {
        reveal_strlit("");
        crate::text::empty_is(""@);
    }
    if let Some(slot) = form.slots.find(form.intents.rows[i].formation_slot_ref.as_str(), "") {
        if !same(slot.state.as_str(), "held") {
            let q = quoted(slot.state.as_str());
            let detail = cat3("the slot is ", q.as_str(), "; only a `held` slot cancels locally");
            return Err(
                problem(
                    ProblemKind::Forbidden,
                    "the uniqueness slot has already been acquired for a send",
                    detail.as_str(),
                ),
            );
        }
    }
    let pin = pin_of(&form.intents.rows[i]);
    let step = Step {
        to: IntentState::Canceled,
        via: Via::FormationCancel,
        releases_slot: true,
        slot_state: "released".to_owned(),
    };
    proof {
        crate::table::table_at(form.intents, i as int);
    }
    let told = Told::Reason(reason.clone());
    commit_pair(form, journal, &pin, &step, no_extra(), &told, stamp)
}

// ----------------------------------------------------------------- start ----

/// How a start goes on.
#[derive(Debug, Clone, Copy, PartialEq, Eq, Structural)]
pub enum StartStep {
    /// The pair is linked; the revision to report it at.
    Report(u64),
    /// The result is durable already: finish the link.
    Link,
    /// An attempt is to be opened.
    Send,
}

pub open spec fn start_refusal(t: Intent, observation: Seq<char>) -> Option<ProblemView> {
    if t.state is Canceled {
        Some(
            refusal_with(
                ProblemKind::Forbidden,
                "this formation is terminal"@,
                "a canceled formation never sends again: its IdempotencyDomain is claimed or its slot was released before any send (§16.3)"@,
            ),
        )
    } else if t.state is Linked || t.state is ByomCommitted || t.state is Linking {
        None
    } else if !t.state.submits() {
        Some(
            refusal_with(
                ProblemKind::Forbidden,
                "no send is admissible from this state"@,
                "the intent is "@ + quoted_text(t.state.name())
                    + "; only `prepared` and `awaiting_principal` submit (§16.3 table row 2)"@,
            ),
        )
    } else if opt_view(t.latest_authentication_observation_ref) == Some(observation) {
        Some(
            refusal_with(
                ProblemKind::Forbidden,
                "resubmission requires a freshly authenticated principal"@,
                "the attempt reuses the previous authentication observation; §16.3 requires a fresh human authentication attempt over the unchanged semantic command"@,
            ),
        )
    } else {
        None
    }
}

/// What beginning a submission does and answers.
pub open spec fn start_begin_outcome(
    form: Formation,
    realm: Seq<char>,
    formation_id: Seq<char>,
    observation: Seq<char>,
    r: Result< StartStep, Problem, >,
) -> bool {
    &&& match intent_of(form, realm, formation_id) {
        None => r is Err && r->Err_0@ == not_found_view(),
        Some(t) => match start_refusal(t, observation) {
            Some(p) => r is Err && r->Err_0@ == p,
            None => r == Ok::<StartStep, Problem>(
                if t.state is Linked {
                    StartStep::Report(t.revision)
                } else if t.state is ByomCommitted || t.state is Linking {
                    StartStep::Link
                } else {
                    StartStep::Send
                },
            ),
        },
    }
}

/// Decides a start from the recorded state: a repeat resumes and never sends
/// again, and a resubmission needs a fresh authentication.
pub fn start_begin(form: &Formation, realm: &str, formation_id: &str, observation: &str) -> (r: Result<
    StartStep,
    Problem,
>)
    requires
        form.wf(),
    ensures
        start_begin_outcome(
            *form,
            realm@,
            formation_id@,
            observation@,
            r,
        ),
{
    let i = match read_intent(form, realm, formation_id) {
        None => {
            return Err(not_found());
        },
        Some(i) => i,
    };
    let t = &form.intents.rows[i];
    match t.state {
        IntentState::Linked => {
            return Ok(StartStep::Report(t.revision));
        },
        IntentState::Canceled => {
            return Err(
                problem(
                    ProblemKind::Forbidden,
                    "this formation is terminal",
                    "a canceled formation never sends again: its IdempotencyDomain is claimed or its slot was released before any send (§16.3)",
                ),
            );
        },
        IntentState::ByomCommitted => {
            return Ok(StartStep::Link);
        },
        IntentState::Linking => {
            return Ok(StartStep::Link);
        },
        _ => {},
    }
    if !t.state.may_submit() {
        let q = quoted(t.state.as_str());
        let detail = cat3(
            "the intent is ",
            q.as_str(),
            "; only `prepared` and `awaiting_principal` submit (§16.3 table row 2)",
        );
        return Err(
            problem(
                ProblemKind::Forbidden,
                "no send is admissible from this state",
                detail.as_str(),
            ),
        );
    }
    let reused = match &t.latest_authentication_observation_ref {
        Some(o) => same(o.as_str(), observation),
        None => false,
    };
    if reused {
        return Err(
            problem(
                ProblemKind::Forbidden,
                "resubmission requires a freshly authenticated principal",
                "the attempt reuses the previous authentication observation; §16.3 requires a fresh human authentication attempt over the unchanged semantic command",
            ),
        );
    }
    Ok(StartStep::Send)
}

// -------------------------------------------------------------- attempts ----

/// What an attempt is minted with.
#[derive(Debug)]
pub struct AttemptMint {
    pub attempt_id: String,
    pub nonce: String,
    pub prepared_at: String,
    pub issued_at: i64,
}

/// What a delegated-principal credential is asked for with: one operation, for
/// one command, on the owner's own channel, for two minutes.
#[derive(Debug)]
pub struct CredentialAsk {
    pub nonce: String,
    pub channel_digest: String,
    pub source_principal_ref: String,
    pub bound_participant_ref: String,
    pub participant_binding_epoch: u64,
    pub allowed_operation: String,
    pub authentication_observation_ref: String,
    pub assurance_level: String,
    pub subject_digest: String,
    pub issued_at: i64,
    pub lifetime_seconds: u64,
    pub society_ref: String,
    pub society_recovery_epoch: u64,
}

/// A credential as it was minted, with the actor that it binds and what it was
/// authenticated by.
#[derive(Debug)]
pub struct Minted {
    pub credential: Credential,
    pub actor_binding_digest: String,
    pub observation_digest: String,
}

/// The functions that a fresh attempt is made with: how the binding that stands
/// now is pinned, the credential that is asked for, or why none can be minted,
/// and the proof that the attempt is authenticated with.
#[derive(Clone, Copy)]
pub struct Fresh<B, K, V> {
    pub pin: B,
    pub issue: K,
    pub prove: V,
}

/// Each of the functions takes every argument.
pub open spec fn fresh_all<
    B: Fn(&RealmBinding) -> BindingPin,
    K: Fn(&CredentialAsk, &RealmBinding) -> Result<Minted, String>,
    V: Fn(&str, &str, &str, &str, &str) -> Json,
>(fresh: Fresh<B, K, V>) -> bool {
    &&& forall|b: &RealmBinding| #[trigger] fresh.pin.requires((b,))
    &&& issues_all(fresh.issue)
    &&& forall|command: &str, domain: &str, nonce: &str, pin: &str, actor: &str|
        #[trigger] fresh.prove.requires((command, domain, nonce, pin, actor))
}

/// A credential can be asked for with anything.
pub open spec fn issues_all<K: Fn(&CredentialAsk, &RealmBinding) -> Result<Minted, String>>(
    issue: K,
) -> bool {
    forall|ask: &CredentialAsk, b: &RealmBinding| #[trigger] issue.requires((ask, b))
}

/// Whether a credential is asked for as it has to be: for the intent's own
/// principal and command, and for one operation.
pub open spec fn asks<G: Fn(&str, &Json) -> Keyed>(
    ask: CredentialAsk,
    keyed: G,
    realm: Seq<char>,
    t: Intent,
    mapping: SocietyMapping,
    nonce: Seq<char>,
    operation: Seq<char>,
    observation: Seq<char>,
    issued_at: i64,
) -> bool {
    &&& ask.nonce@ == nonce
    &&& keyed_text(
        keyed,
        "kovee-channel-exporter-v1"@,
        channel_document(realm),
        ask.channel_digest@,
    )
    &&& ask.source_principal_ref@ == t.requested_by_principal@
    &&& ask.bound_participant_ref@ == t.bound_participant_ref@
    &&& ask.participant_binding_epoch == t.participant_binding_epoch
    &&& ask.allowed_operation@ == operation
    &&& ask.authentication_observation_ref@ == observation
    &&& ask.assurance_level@ == "personal-uds-owner"@
    &&& ask.subject_digest@ == t.canonical_byom_command_digest@
    &&& ask.issued_at == issued_at
    &&& ask.lifetime_seconds == 120
    &&& ask.society_ref@ == mapping.society_ref@
    &&& ask.society_recovery_epoch == mapping.society_recovery_epoch
}

fn credential_ask<G: Fn(&str, &Json) -> Keyed>(
    keyed: G,
    realm: &str,
    t: &Intent,
    mapping: &SocietyMapping,
    nonce: &str,
    operation: &str,
    observation: &str,
    issued_at: i64,
) -> (r: CredentialAsk)
    requires
        keys_all(keyed),
    ensures
        asks(r, keyed, realm@, *t, *mapping, nonce@, operation@, observation@, issued_at),
{
    let doc = channel_subject(realm);
    let channel = keyed("kovee-channel-exporter-v1", &doc);
    proof {
        assert(keyed_text(keyed, "kovee-channel-exporter-v1"@, doc@, channel.text@));
    }
    CredentialAsk {
        nonce: nonce.to_owned(),
        channel_digest: channel.text,
        source_principal_ref: t.requested_by_principal.clone(),
        bound_participant_ref: t.bound_participant_ref.clone(),
        participant_binding_epoch: t.participant_binding_epoch,
        allowed_operation: operation.to_owned(),
        authentication_observation_ref: observation.to_owned(),
        assurance_level: "personal-uds-owner".to_owned(),
        subject_digest: t.canonical_byom_command_digest.clone(),
        issued_at,
        lifetime_seconds: 120,
        society_ref: mapping.society_ref.clone(),
        society_recovery_epoch: mapping.society_recovery_epoch,
    }
}

/// Whether `minted` is what asking for a credential came to.
pub open spec fn credential_asked<
    G: Fn(&str, &Json) -> Keyed,
    K: Fn(&CredentialAsk, &RealmBinding) -> Result<Minted, String>,
>(
    issue: K,
    keyed: G,
    realm: Seq<char>,
    t: Intent,
    seam: (RealmBinding, SocietyMapping),
    nonce: Seq<char>,
    operation: Seq<char>,
    observation: Seq<char>,
    issued_at: i64,
    minted: Result<Minted, String>,
) -> bool {
    exists|ask: &CredentialAsk, b: &RealmBinding|
        {
            &&& asks(*ask, keyed, realm, t, seam.1, nonce, operation, observation, issued_at)
            &&& *b == seam.0
            &&& #[trigger] issue.ensures((ask, b), minted)
        }
}

/// Whether a text is the keyed digest of the proof that an attempt carries.
pub open spec fn attempt_proved<
    G: Fn(&str, &Json) -> Keyed,
    V: Fn(&str, &str, &str, &str, &str) -> Json,
>(
    prove: V,
    keyed: G,
    t: Intent,
    nonce: Seq<char>,
    pin: Seq<char>,
    actor: Seq<char>,
    text: Seq<char>,
) -> bool {
    exists|c: &str, d: &str, n: &str, p: &str, a: &str, out: Json|
        {
            &&& c@ == t.canonical_byom_command_digest@
            &&& d@ == t.command.idempotency_domain_digest@
            &&& n@ == nonce
            &&& p@ == pin
            &&& a@ == actor
            &&& #[trigger] prove.ensures((c, d, n, p, a), out)
            &&& keyed_text(keyed, "kovee-attempt-proof-v1"@, proof_document(out@), text)
        }
}

/// Whether a pin and a credential are what the functions of a fresh attempt
/// made: the pin of the binding that stands, and the credential where the
/// intent is still pinned to it.
pub open spec fn fresh_made<
    G: Fn(&str, &Json) -> Keyed + Copy,
    B: Fn(&RealmBinding) -> BindingPin + Copy,
    K: Fn(&CredentialAsk, &RealmBinding) -> Result<Minted, String> + Copy,
    V: Fn(&str, &str, &str, &str, &str) -> Json + Copy,
>(
    fresh: Fresh<B, K, V>,
    keyed: G,
    form: Formation,
    seam: Option<(RealmBinding, SocietyMapping)>,
    realm: Seq<char>,
    formation: Seq<char>,
    observation: Seq<char>,
    mint: AttemptMint,
    now: BindingPin,
    minted: Result<Minted, String>,
) -> bool {
    let t = form.intents@[key1(formation)];
    match seam {
        None => true,
        Some((binding, mapping)) => {
            &&& fresh.pin.ensures((&binding,), now)
            &&& form.intents@.contains_key(key1(formation)) && still_pinned(
                t,
                binding,
                mapping,
                now,
            ) ==> credential_asked(
                fresh.issue,
                keyed,
                realm,
                t,
                (binding, mapping),
                mint.nonce@,
                "kovee_endeavor_form"@,
                observation,
                mint.issued_at,
                minted,
            )
        },
    }
}

/// The highest ordinal among the first `n` attempts of a formation.
pub open spec fn last_ordinal(attempts: Seq<FormationAttempt>, formation: Seq<char>, n: int) -> u64
    decreases n,
{
    if n <= 0 {
        0
    } else {
        let below = last_ordinal(attempts, formation, n - 1);
        if attempts[n - 1].formation_id@ == formation && attempts[n - 1].attempt_ordinal > below {
            attempts[n - 1].attempt_ordinal
        } else {
            below
        }
    }
}

proof fn last_ordinal_bounded(attempts: Seq<FormationAttempt>, formation: Seq<char>, n: int)
    requires
        0 <= n <= attempts.len(),
        forall|i: int|
            0 <= i < attempts.len() ==> (#[trigger] attempts[i]).attempt_ordinal < u64::MAX,
    ensures
        last_ordinal(attempts, formation, n) < u64::MAX,
    decreases n,
{
    if n > 0 {
        last_ordinal_bounded(attempts, formation, n - 1);
        assert(attempts[n - 1].attempt_ordinal < u64::MAX);
    }
}

/// No attempt of a formation has an ordinal above the last.
pub proof fn last_ordinal_is_last(
    attempts: Seq<FormationAttempt>,
    formation: Seq<char>,
    n: int,
    i: int,
)
    requires
        0 <= i < n <= attempts.len(),
        attempts[i].formation_id@ == formation,
    ensures
        attempts[i].attempt_ordinal <= last_ordinal(attempts, formation, n),
    decreases n,
{
    if i < n - 1 {
        last_ordinal_is_last(attempts, formation, n - 1, i);
    }
}

fn next_ordinal(attempts: &Vec<FormationAttempt>, formation: &str) -> (r: u64)
    requires
        forall|i: int|
            0 <= i < attempts@.len() ==> (#[trigger] attempts@[i]).attempt_ordinal < u64::MAX,
    ensures
        r == last_ordinal(attempts@, formation@, attempts@.len() as int) + 1,
{
    let mut top: u64 = 0;
    let mut i: usize = 0;
    while i < attempts.len()
        invariant
            i <= attempts.len(),
            top == last_ordinal(attempts@, formation@, i as int),
            forall|k: int|
                0 <= k < attempts@.len() ==> (#[trigger] attempts@[k]).attempt_ordinal < u64::MAX,
        decreases attempts.len() - i,
    {
        if same(attempts[i].formation_id.as_str(), formation) && attempts[i].attempt_ordinal
            > top {
            top = attempts[i].attempt_ordinal;
        }
        i = i + 1;
    }
    proof {
        last_ordinal_bounded(attempts@, formation@, attempts@.len() as int);
    }
    top + 1
}

/// Whether the binding that stands is still the one that the intent pinned.
pub open spec fn still_pinned(
    t: Intent,
    binding: RealmBinding,
    mapping: SocietyMapping,
    pin: BindingPin,
) -> bool {
    &&& pin.binding_ref@ == t.command.binding.binding_ref@
    &&& binding.endpoint_incarnation@ == t.command.command_endpoint_incarnation@
    &&& mapping.society_recovery_epoch == t.command.society_recovery_epoch
}

/// Why no attempt is opened, in the order in which the checks run.
pub open spec fn attempt_refusal(
    form: Formation,
    ledger: Ledger,
    seam: Option<(RealmBinding, SocietyMapping)>,
    pin: Pinned,
    mint: AttemptMint,
    now: BindingPin,
    minted: Result<Minted, String>,
) -> Option<ProblemView> {
    let t = form.intents@[key1(pin.formation_id@)];
    match seam {
        None => Some(
            no_binding_view("a formation attempt needs an ACTIVE KoveeRealmByomBinding"@),
        ),
        Some((binding, mapping)) => if !form.intents@.contains_key(key1(pin.formation_id@)) {
            Some(internal_view())
        } else if !still_pinned(t, binding, mapping, now) {
            Some(
                refusal_with(
                    ProblemKind::Forbidden,
                    "the pinned binding, incarnation, or recovery epoch moved"@,
                    "a formation submits only while its command endpoint incarnation and Society recovery epoch are still active (§16.3 table row 2); binding rotation never releases the slot"@,
                ),
            )
        } else {
            match minted {
                Err(e) => Some(
                    refusal_with(
                        ProblemKind::Forbidden,
                        "the delegated-principal credential is not mintable"@,
                        e@,
                    ),
                ),
                Ok(m) => if m.actor_binding_digest@ != t.command.source_actor_binding_digest@ {
                    Some(
                        refusal_with(
                            ProblemKind::Forbidden,
                            "the credential's actor binding is not the intent's"@,
                            "§16.3: the authenticated delegated principal is the only author"@,
                        ),
                    )
                } else if ledger@.contains_key(m.credential.pair()) {
                    Some(already_minted())
                } else if form.attempts@.contains_key(key1(mint.attempt_id@)) {
                    Some(internal_view())
                } else if !cas_holds(form, pin) {
                    Some(stale_revision_view(pin.revision))
                } else {
                    None
                },
            }
        },
    }
}

/// The attempt that is opened: sent, from the moment its bytes may leave.
pub open spec fn opened_attempt<
    G: Fn(&str, &Json) -> Keyed,
    V: Fn(&str, &str, &str, &str, &str) -> Json,
>(
    a: FormationAttempt,
    form: Formation,
    formation: Seq<char>,
    observation: Seq<char>,
    mint: AttemptMint,
    now: BindingPin,
    minted: Minted,
    prove: V,
    keyed: G,
) -> bool {
    &&& a.attempt_id@ == mint.attempt_id@
    &&& a.formation_id@ == formation
    &&& a.attempt_ordinal == last_ordinal(
        form.attempts.rows@,
        formation,
        form.attempts.rows@.len() as int,
    ) + 1
    &&& a.attempt_nonce@ == mint.nonce@
    &&& a.recovery_binding == now
    &&& a.authentication_observation_ref@ == observation
    &&& a.authentication_observation_digest@ == minted.observation_digest@
    &&& attempt_proved(
        prove,
        keyed,
        form.intents@[key1(formation)],
        mint.nonce@,
        now.digest@,
        minted.actor_binding_digest@,
        a.authentication_proof_digest@,
    )
    &&& a.state is Sent
    &&& a.prepared_at@ == mint.prepared_at@
    &&& a.reply_digest is None
    &&& a.observed_at is None
    &&& keyed_text(
        keyed,
        "kovee-endeavor-formation-attempt-v1"@,
        attempt_document(
            mint.attempt_id@,
            formation,
            a.attempt_ordinal,
            mint.nonce@,
            form.intents@[key1(formation)].canonical_byom_command_digest@,
        ),
        a.digest@,
    )
}

pub open spec fn is_submit_step(step: Step, slot_state: Seq<char>) -> bool {
    &&& step.to is Submitting
    &&& step.via is KoveeEndeavorForm
    &&& !step.releases_slot
    &&& step.slot_state@ == slot_state
}

/// What opening an attempt does and answers, under a pin and a credential.
pub open spec fn opened_under<
    G: Fn(&str, &Json) -> Keyed + Copy,
    V: Fn(&str, &str, &str, &str, &str) -> Json,
>(
    before: Formation,
    after: Formation,
    ledger: Ledger,
    after_ledger: Ledger,
    journal: JournalView,
    after_journal: JournalView,
    gov: Governance,
    realm: Seq<char>,
    pin: Pinned,
    observation: Seq<char>,
    slot_state: Seq<char>,
    mint: AttemptMint,
    now: BindingPin,
    minted: Result<Minted, String>,
    prove: V,
    stamp: Stamp<G>,
    r: Result<u64, Problem>,
) -> bool {
    &&& r is Err ==> after == before && after_ledger == ledger
        && after_journal == journal
    &&& match attempt_refusal(before, ledger, seam_of(gov, realm), pin, mint, now, minted) {
        Some(p) => r is Err && r->Err_0@ == p,
        None => {
            let a = after.attempts.rows@.last();
            let dpc = minted->Ok_0.credential;
            let seam = seam_of(gov, realm)->0;
            &&& r is Ok
            &&& r->Ok_0 == pin.revision + 1
            &&& after.attempts.rows@ == before.attempts.rows@.push(a)
            &&& opened_attempt(
                a,
                before,
                pin.formation_id@,
                observation,
                mint,
                now,
                minted->Ok_0,
                prove,
                stamp.keyed,
            )
            &&& after.links == before.links
            &&& after_ledger.rows@ == ledger.rows@.push(after_ledger.rows@.last())
            &&& minted_row(after_ledger.rows@.last(), realm, seam.0.binding_ref@, dpc)
            &&& exists|step: Step, extra: Extra|
                {
                    &&& is_submit_step(step, slot_state)
                    &&& extra.attempt matches Some((x, o)) && x@ == mint.attempt_id@ && o@
                        == observation
                    &&& extra.result is None
                    &&& extra.link is None
                    &&& #[trigger] pair_moved(
                        before,
                        after,
                        pin.formation_id@,
                        step,
                        extra,
                        stamp,
                    )
                    &&& after_journal == step_journal(
                        journal,
                        before.intents@[key1(pin.formation_id@)],
                        step,
                        ToldView::Attempt {
                            attempt_id: mint.attempt_id@,
                            ordinal: a.attempt_ordinal,
                        },
                    )
                }
        },
    }
}

/// What opening an attempt does and answers.
pub open spec fn open_outcome<
    G: Fn(&str, &Json) -> Keyed + Copy,
    B: Fn(&RealmBinding) -> BindingPin + Copy,
    K: Fn(&CredentialAsk, &RealmBinding) -> Result<Minted, String> + Copy,
    V: Fn(&str, &str, &str, &str, &str) -> Json + Copy,
>(
    before: Formation,
    after: Formation,
    ledger: Ledger,
    after_ledger: Ledger,
    journal: JournalView,
    after_journal: JournalView,
    gov: Governance,
    realm: Seq<char>,
    pin: Pinned,
    observation: Seq<char>,
    slot_state: Seq<char>,
    mint: AttemptMint,
    fresh: Fresh<B, K, V>,
    stamp: Stamp<G>,
    r: Result<u64, Problem>,
) -> bool {
    exists|now: BindingPin, minted: Result<Minted, String>|
        {
            &&& #[trigger] fresh_made(
                fresh,
                stamp.keyed,
                before,
                seam_of(gov, realm),
                realm,
                pin.formation_id@,
                observation,
                mint,
                now,
                minted,
            )
            &&& opened_under(
                before,
                after,
                ledger,
                after_ledger,
                journal,
                after_journal,
                gov,
                realm,
                pin,
                observation,
                slot_state,
                mint,
                now,
                minted,
                fresh.prove,
                stamp,
                r,
            )
        }
}

/// Opens an attempt before any byte leaves: the attempt, its credential and
/// the move to `submitting` are one commit, or nothing of it is. `slot_state`
/// is the slot's state beside `submitting`.
pub fn open_attempt<
    G: Fn(&str, &Json) -> Keyed + Copy,
    B: Fn(&RealmBinding) -> BindingPin + Copy,
    K: Fn(&CredentialAsk, &RealmBinding) -> Result<Minted, String> + Copy,
    V: Fn(&str, &str, &str, &str, &str) -> Json + Copy,
>(
    form: &mut Formation,
    ledger: &mut Ledger,
    journal: &mut Journal,
    gov: &Governance,
    realm: &str,
    pin: &Pinned,
    observation: &str,
    slot_state: &str,
    mint: &AttemptMint,
    fresh: Fresh<B, K, V>,
    stamp: &Stamp<G>,
) -> (r: Result<u64, Problem>)
    requires
        keys_all(stamp.keyed),
        fresh_all(fresh),
        old(form).wf(),
        old(ledger).wf(),
        gov.wf(),
        pairs_fit(*old(form)),
    ensures
        final(form).wf(),
        final(ledger).wf(),
        open_outcome(
            *old(form),
            *final(form),
            *old(ledger),
            *final(ledger),
            old(journal)@,
            final(journal)@,
            *gov,
            realm@,
            *pin,
            observation@,
            slot_state@,
            *mint,
            fresh,
            *stamp,
            r,
        ),
{
    proof {
        reveal_strlit("");
        crate::text::empty_is(""@);
    }
    let ghost no_pin: BindingPin = arbitrary();
    let ghost not_asked: Result<Minted, String> = arbitrary();
    let seam = match active_seam(gov, realm) {
        None => {
            proof {
            assert(fresh_made(
                fresh,
                stamp.keyed,
                *form,
                seam_of(*gov, realm@),
                realm@,
                pin.formation_id@,
                observation@,
                *mint,
                no_pin,
                not_asked,
            ));
            }
            return Err(
                problem(
                    ProblemKind::Forbidden,
                    "this realm has no active governed-work binding",
                    "a formation attempt needs an ACTIVE KoveeRealmByomBinding",
                ),
            );
        },
        Some(s) => s,
    };
    let pin_binding = fresh.pin;
    let now = pin_binding(seam.binding);
    proof {
        assert(pin_binding.ensures((seam.binding,), now));
    }
    let i = match form.intents.position(pin.formation_id.as_str(), "") {
        None => {
            proof {
            assert(fresh_made(
                fresh,
                stamp.keyed,
                *form,
                seam_of(*gov, realm@),
                realm@,
                pin.formation_id@,
                observation@,
                *mint,
                now,
                not_asked,
            ));
            }
            return Err(internal());
        },
        Some(i) => i,
    };
    if !same(
        now.binding_ref.as_str(),
        form.intents.rows[i].command.binding.binding_ref.as_str(),
    ) || !same(
        seam.binding.endpoint_incarnation.as_str(),
        form.intents.rows[i].command.command_endpoint_incarnation.as_str(),
    ) || seam.mapping.society_recovery_epoch
        != form.intents.rows[i].command.society_recovery_epoch {
        proof {
            assert(fresh_made(
                fresh,
                stamp.keyed,
                *form,
                seam_of(*gov, realm@),
                realm@,
                pin.formation_id@,
                observation@,
                *mint,
                now,
                not_asked,
            ));
        }
        return Err(
            problem(
                ProblemKind::Forbidden,
                "the pinned binding, incarnation, or recovery epoch moved",
                "a formation submits only while its command endpoint incarnation and Society recovery epoch are still active (§16.3 table row 2); binding rotation never releases the slot",
            ),
        );
    }
    let keyed = stamp.keyed;
    let issue = fresh.issue;
    let ask = credential_ask(
        keyed,
        realm,
        &form.intents.rows[i],
        seam.mapping,
        mint.nonce.as_str(),
        "kovee_endeavor_form",
        observation,
        mint.issued_at,
    );
    let minted = issue(&ask, seam.binding);
    proof {
        assert(issue.ensures((&ask, seam.binding), minted));
        assert(credential_asked(
            issue,
            keyed,
            realm@,
            form.intents.rows@[i as int],
            (*seam.binding, *seam.mapping),
            mint.nonce@,
            "kovee_endeavor_form"@,
            observation@,
            mint.issued_at,
            minted,
        ));
        assert(fresh_made(
                fresh,
                stamp.keyed,
                *form,
                seam_of(*gov, realm@),
                realm@,
                pin.formation_id@,
                observation@,
                *mint,
                now,
                minted,
            ));
    }
    let issued = match &minted {
        Err(e) => {
            return Err(
                problem(
                    ProblemKind::Forbidden,
                    "the delegated-principal credential is not mintable",
                    e.as_str(),
                ),
            );
        },
        Ok(m) => m,
    };
    let dpc = &issued.credential;
    if !same(
        issued.actor_binding_digest.as_str(),
        form.intents.rows[i].command.source_actor_binding_digest.as_str(),
    ) {
        return Err(
            problem(
                ProblemKind::Forbidden,
                "the credential's actor binding is not the intent's",
                "§16.3: the authenticated delegated principal is the only author",
            ),
        );
    }
    if ledger.position(dpc.issuer_ref.as_str(), dpc.nonce.as_str()).is_some() {
        return Err(
            Problem::new(
                ProblemKind::IdempotencyMismatch,
                "this (issuer, nonce) pair is already minted",
            ),
        );
    }
    if form.attempts.position(mint.attempt_id.as_str(), "").is_some() {
        return Err(internal());
    }
    if compare_pair(form, pin).is_none() {
        return Err(stale_revision(pin.revision));
    }
    let binding_ref = seam.binding.binding_ref.as_str();
    match record(ledger, realm, binding_ref, dpc) {
        Err(p) => {
            return Err(p);
        },
        Ok(()) => {},
    }
    let ordinal: u64 = next_ordinal(&form.attempts.rows, pin.formation_id.as_str());
    let prove = fresh.prove;
    let command = form.intents.rows[i].canonical_byom_command_digest.as_str();
    let domain = form.intents.rows[i].command.idempotency_domain_digest.as_str();
    let nonce = mint.nonce.as_str();
    let pinned = now.digest.as_str();
    let actor = issued.actor_binding_digest.as_str();
    let shown = prove(command, domain, nonce, pinned, actor);
    let proof_doc = proof_subject(&shown);
    let proof_digest = keyed("kovee-attempt-proof-v1", &proof_doc);
    let attempt_doc = attempt_subject(
        mint.attempt_id.as_str(),
        pin.formation_id.as_str(),
        ordinal,
        mint.nonce.as_str(),
        form.intents.rows[i].canonical_byom_command_digest.as_str(),
    );
    let attempt_digest = keyed("kovee-endeavor-formation-attempt-v1", &attempt_doc);
    proof {
        assert(keyed_text(
            keyed,
            "kovee-attempt-proof-v1"@,
            proof_doc@,
            proof_digest.text@,
        ));
        assert(prove.ensures((command, domain, nonce, pinned, actor), shown));
        assert(attempt_proved(
            prove,
            keyed,
            form.intents.rows@[i as int],
            mint.nonce@,
            now.digest@,
            issued.actor_binding_digest@,
            proof_digest.text@,
        ));
        assert(keyed_text(
            keyed,
            "kovee-endeavor-formation-attempt-v1"@,
            attempt_doc@,
            attempt_digest.text@,
        ));
    }
    let attempt = FormationAttempt {
        attempt_id: mint.attempt_id.clone(),
        formation_id: pin.formation_id.clone(),
        attempt_ordinal: ordinal,
        attempt_nonce: mint.nonce.clone(),
        recovery_binding: now.copy(),
        authentication_observation_ref: observation.to_owned(),
        authentication_observation_digest: issued.observation_digest.clone(),
        authentication_proof_digest: proof_digest.text,
        state: AttemptState::Sent,
        prepared_at: mint.prepared_at.clone(),
        reply_digest: None,
        observed_at: None,
        digest: attempt_digest.text,
    };
    let step = Step {
        to: IntentState::Submitting,
        via: Via::KoveeEndeavorForm,
        releases_slot: false,
        slot_state: slot_state.to_owned(),
    };
    let extra = Extra {
        attempt: Some((mint.attempt_id.clone(), observation.to_owned())),
        result: None,
        link: None,
    };
    let ghost the_extra = extra;
    let told = Told::Attempt { attempt_id: mint.attempt_id.clone(), ordinal };
    let moved = commit_pair(form, journal, pin, &step, extra, &told, stamp);
    form.attempts.insert(attempt);
    proof {
        assert(pair_moved(*old(form), *form, pin.formation_id@, step, the_extra, *stamp));
    }
    moved
}

/// How an attempt ended: its state is the given one, and each other member
/// keeps the value it was first given.
pub open spec fn ended_attempt(
    before: FormationAttempt,
    after: FormationAttempt,
    state: AttemptState,
    reply_digest: Option<Seq<char>>,
    at: Seq<char>,
) -> bool {
    &&& after == (FormationAttempt {
        state,
        reply_digest: after.reply_digest,
        observed_at: after.observed_at,
        ..before
    })
    &&& opt_view(after.reply_digest) == (match before.reply_digest {
        Some(d) => Some(d@),
        None => reply_digest,
    })
    &&& opt_view(after.observed_at) == (match before.observed_at {
        Some(o) => Some(o@),
        None => Some(at),
    })
}

/// What closing an attempt leaves of the attempts; an unknown one changes
/// nothing.
pub open spec fn attempt_closed(
    before: Table<FormationAttempt>,
    after: Table<FormationAttempt>,
    attempt_id: Seq<char>,
    state: AttemptState,
    reply_digest: Option<Seq<char>>,
    at: Seq<char>,
) -> bool {
    let k = key1(attempt_id);
    if before@.contains_key(k) {
        &&& after@ == before@.insert(k, after@[k])
        &&& ended_attempt(before@[k], after@[k], state, reply_digest, at)
    } else {
        after == before
    }
}

fn close_attempt(
    attempts: &mut Table<FormationAttempt>,
    attempt_id: &str,
    state: AttemptState,
    reply_digest: &Option<String>,
    at: &str,
)
    requires
        old(attempts).wf(),
    ensures
        final(attempts).wf(),
        attempt_closed(
            *old(attempts),
            *final(attempts),
            attempt_id@,
            state,
            opt_view(*reply_digest),
            at@,
        ),
{
    proof {
        reveal_strlit("");
        crate::text::empty_is(""@);
    }
    if let Some(i) = attempts.position(attempt_id, "") {
        attempts.rows[i].state = state;
        if attempts.rows[i].reply_digest.is_none() {
            attempts.rows[i].reply_digest = reply_digest.clone();
        }
        if attempts.rows[i].observed_at.is_none() {
            attempts.rows[i].observed_at = Some(at.to_owned());
        }
        proof {
            crate::table::table_updated(
                *old(attempts),
                *attempts,
                i as int,
                attempts.rows@[i as int],
            );
        }
    }
}

// ------------------------------------------------------ how a send ended ----

/// What one send came back with, short of a result. Only a definite answer
/// may drive a change that forecloses the command.
#[derive(Debug)]
pub enum SendFailure {
    /// Byom installed a tombstone over the domain: it will never execute.
    Tombstone { reference: String, digest: String },
    /// A typed refusal that claimed nothing.
    Refused(Problem),
    /// No answer at all: the outcome is not known and may not be guessed.
    Unknown(Problem),
}

/// The row of the machine that a failed send takes.
pub open spec fn failure_step(f: SendFailure, step: Step, slot_state: Seq<char>) -> bool {
    match f {
        SendFailure::Tombstone { .. } => {
            &&& step.to is Canceled
            &&& step.via is TombstoneVerified
            &&& step.releases_slot
            &&& step.slot_state@ == "released"@
        },
        SendFailure::Refused(_) => {
            &&& step.to is Ambiguous
            &&& step.via is UnknownResult
            &&& !step.releases_slot
            &&& step.slot_state@ == slot_state
        },
        SendFailure::Unknown(_) => {
            &&& step.to is RemoteUnknown
            &&& step.via is TransportOutcomeUnknown
            &&& !step.releases_slot
            &&& step.slot_state@ == slot_state
        },
    }
}

/// How the attempt of a failed send ended.
pub open spec fn failure_attempt_state(f: SendFailure) -> AttemptState {
    match f {
        SendFailure::Unknown(_) => AttemptState::TransportUnknown,
        _ => AttemptState::ReplyReceived,
    }
}

pub open spec fn failure_digest(f: SendFailure) -> Option<Seq<char>> {
    match f {
        SendFailure::Tombstone { reference: _, digest } => Some(digest@),
        _ => None,
    }
}

/// What a failed send is announced with.
pub open spec fn failure_told(f: SendFailure) -> ToldView {
    match f {
        SendFailure::Tombstone { reference, digest } => ToldView::Tombstone {
            reference: reference@,
            digest: digest@,
        },
        SendFailure::Refused(_) => ToldView::Outcome("definite_refusal"@),
        SendFailure::Unknown(_) => ToldView::Outcome("transport_unknown"@),
    }
}

/// What the caller is answered.
pub open spec fn failure_answer(f: SendFailure) -> ProblemView {
    match f {
        SendFailure::Tombstone { reference, digest: _ } => refusal_with(
            ProblemKind::Forbidden,
            "the computed formation needs another Participant's Position"@,
            "byom claimed this IdempotencyDomain with the non-reexecuting tombstone "@ + reference@
                + ": no Endeavor was created and this formation key can never form one (§16.3). Use the ordinary endeavor_propose/position/finalize seat sequence."@,
        ),
        SendFailure::Refused(p) => p@,
        SendFailure::Unknown(p) => p@,
    }
}

/// What recording a failed send does and answers.
pub open spec fn failure_outcome<G: Fn(&str, &Json) -> Keyed + Copy>(
    before: Formation,
    after: Formation,
    journal: JournalView,
    after_journal: JournalView,
    pin: Pinned,
    attempt_ref: Seq<char>,
    failure: SendFailure,
    slot_state: Seq<char>,
    stamp: Stamp<G>,
    r: Problem,
) -> bool {
    &&& after.links == before.links
    &&& if cas_holds(before, pin) {
        &&& r@ == failure_answer(failure)
        &&& attempt_closed(
            before.attempts,
            after.attempts,
            attempt_ref,
            failure_attempt_state(failure),
            failure_digest(failure),
            stamp.at@,
        )
        &&& exists|step: Step|
            {
                &&& failure_step(failure, step, slot_state)
                &&& #[trigger] pair_moved(
                    before,
                    after,
                    pin.formation_id@,
                    step,
                    nothing_more(),
                    stamp,
                )
                &&& after_journal == step_journal(
                    journal,
                    before.intents@[key1(pin.formation_id@)],
                    step,
                    failure_told(failure),
                )
            }
    } else {
        &&& r@ == stale_revision_view(pin.revision)
        &&& after == before
        &&& after_journal == journal
    }
}

/// Records a send that brought no result: the attempt ends, the pair moves to
/// the row that the answer authorizes, and the caller is told. `slot_state`
/// is the slot's state where the slot is not released. A pair that moved
/// meanwhile keeps everything as it is.
pub fn record_failure<G: Fn(&str, &Json) -> Keyed + Copy>(
    form: &mut Formation,
    journal: &mut Journal,
    pin: &Pinned,
    attempt_ref: &str,
    failure: SendFailure,
    slot_state: &str,
    stamp: &Stamp<G>,
) -> (r: Problem)
    requires
        keys_all(stamp.keyed),
        old(form).wf(),
        pairs_fit(*old(form)),
    ensures
        final(form).wf(),
        failure_outcome(
            *old(form),
            *final(form),
            old(journal)@,
            final(journal)@,
            *pin,
            attempt_ref@,
            failure,
            slot_state@,
            *stamp,
            r,
        ),
{
    if compare_pair(form, pin).is_none() {
        return stale_revision(pin.revision);
    }
    let step = match &failure {
        SendFailure::Tombstone { .. } => Step {
            to: IntentState::Canceled,
            via: Via::TombstoneVerified,
            releases_slot: true,
            slot_state: "released".to_owned(),
        },
        SendFailure::Refused(_) => Step {
            to: IntentState::Ambiguous,
            via: Via::UnknownResult,
            releases_slot: false,
            slot_state: slot_state.to_owned(),
        },
        SendFailure::Unknown(_) => Step {
            to: IntentState::RemoteUnknown,
            via: Via::TransportOutcomeUnknown,
            releases_slot: false,
            slot_state: slot_state.to_owned(),
        },
    };
    let told = match &failure {
        SendFailure::Tombstone { reference, digest } => Told::Tombstone {
            reference: reference.clone(),
            digest: digest.clone(),
        },
        SendFailure::Refused(_) => Told::Outcome("definite_refusal".to_owned()),
        SendFailure::Unknown(_) => Told::Outcome("transport_unknown".to_owned()),
    };
    let moved = commit_pair(form, journal, pin, &step, no_extra(), &told, stamp);
    let ended = match &failure {
        SendFailure::Unknown(_) => AttemptState::TransportUnknown,
        _ => AttemptState::ReplyReceived,
    };
    let digest = match &failure {
        SendFailure::Tombstone { reference: _, digest } => Some(digest.clone()),
        _ => None,
    };
    close_attempt(&mut form.attempts, attempt_ref, ended, &digest, stamp.at.as_str());
    proof {
        assert(pair_moved(*old(form), *form, pin.formation_id@, step, nothing_more(), *stamp));
    }
    match failure {
        SendFailure::Tombstone { reference, digest: _ } => {
            let detail = cat3(
                "byom claimed this IdempotencyDomain with the non-reexecuting tombstone ",
                reference.as_str(),
                ": no Endeavor was created and this formation key can never form one (§16.3). Use the ordinary endeavor_propose/position/finalize seat sequence.",
            );
            problem(
                ProblemKind::Forbidden,
                "the computed formation needs another Participant's Position",
                detail.as_str(),
            )
        },
        SendFailure::Refused(p) => p,
        SendFailure::Unknown(p) => p,
    }
}

/// What recording a result does and answers.
pub open spec fn result_outcome<G: Fn(&str, &Json) -> Keyed + Copy>(
    before: Formation,
    after: Formation,
    ledger: Ledger,
    after_ledger: Ledger,
    journal: JournalView,
    after_journal: JournalView,
    pin: Pinned,
    attempt_ref: Seq<char>,
    credential: Key,
    envelope: ResultEnvelope,
    step: Option<Step>,
    now: i64,
    stamp: Stamp<G>,
    r: Result<u64, Problem>,
) -> bool {
    &&& after.links == before.links
    &&& if step is Some && cas_holds(before, pin) {
        let k = credential;
        &&& r is Ok
        &&& r->Ok_0 == pin.revision + 1
        &&& attempt_closed(
            before.attempts,
            after.attempts,
            attempt_ref,
            AttemptState::ReplyReceived,
            Some(envelope.digest@),
            stamp.at@,
        )
        &&& if ledger@.contains_key(k) {
            &&& after_ledger@ == ledger@.insert(k, after_ledger@[k])
            &&& same_minting(after_ledger@[k], ledger@[k])
            &&& marked(
                ledger@[k].spent,
                after_ledger@[k].spent,
                "kovee_endeavor_form"@,
                now,
                encode_utf8(envelope.text@),
            )
        } else {
            after_ledger == ledger
        }
        &&& pair_moved(
            before,
            after,
            pin.formation_id@,
            (step)->0,
            (Extra { attempt: None, result: Some(envelope), link: None }),
            stamp,
        )
        &&& after_journal == step_journal(
            journal,
            before.intents@[key1(pin.formation_id@)],
            (step)->0,
            ToldView::Endeavor(opt_view(envelope.endeavor_ref)),
        )
    } else {
        &&& r is Err
        &&& r->Err_0@ == stale_revision_view(pin.revision)
        &&& after == before
        &&& after_ledger == ledger
        &&& after_journal == journal
    }
}

/// Records the result that byom committed: the unmodified envelope goes on the
/// intent, the attempt ends, and the credential is spent with the envelope's
/// bytes. The credential is the one of `issuer_ref` under the attempt's nonce, and
/// `step` is the row that the fact authorizes, if the machine has one.
pub fn record_result<G: Fn(&str, &Json) -> Keyed + Copy>(
    form: &mut Formation,
    ledger: &mut Ledger,
    journal: &mut Journal,
    pin: &Pinned,
    attempt_ref: &str,
    issuer_ref: &str,
    nonce: &str,
    envelope: ResultEnvelope,
    step: &Option<Step>,
    now: i64,
    stamp: &Stamp<G>,
) -> (r: Result<u64, Problem>)
    requires
        keys_all(stamp.keyed),
        old(form).wf(),
        old(ledger).wf(),
        pairs_fit(*old(form)),
    ensures
        final(form).wf(),
        final(ledger).wf(),
        result_outcome(
            *old(form),
            *final(form),
            *old(ledger),
            *final(ledger),
            old(journal)@,
            final(journal)@,
            *pin,
            attempt_ref@,
            (issuer_ref@, nonce@),
            envelope,
            *step,
            now,
            *stamp,
            r,
        ),
{
    let row = match step {
        None => {
            return Err(stale_revision(pin.revision));
        },
        Some(s) => s,
    };
    if compare_pair(form, pin).is_none() {
        return Err(stale_revision(pin.revision));
    }
    let digest = Some(envelope.digest.clone());
    let bytes = envelope.text.as_str().as_bytes_vec();
    let told = Told::Endeavor(envelope.endeavor_ref.clone());
    let extra = Extra { attempt: None, result: Some(envelope), link: None };
    let ghost the_extra = extra;
    let moved = commit_pair(form, journal, pin, row, extra, &told, stamp);
    close_attempt(
        &mut form.attempts,
        attempt_ref,
        AttemptState::ReplyReceived,
        &digest,
        stamp.at.as_str(),
    );
    mark_pair(ledger, issuer_ref, nonce, "kovee_endeavor_form", now, &bytes);
    proof {
        assert(pair_moved(*old(form), *form, pin.formation_id@, *row, the_extra, *stamp));
    }
    moved
}

// ------------------------------------------------------------------ link ----

/// The row from a durable result to the link being committed.
pub open spec fn is_linking_step(step: Step, slot_state: Seq<char>) -> bool {
    &&& step.to is Linking
    &&& step.via is ExternalLinkBegin
    &&& !step.releases_slot
    &&& step.slot_state@ == slot_state
}

/// The row from the committed link to the end: the slot is released by it.
pub open spec fn is_linked_step(step: Step) -> bool {
    &&& step.to is Linked
    &&& step.via is ExternalLinkCommit
    &&& step.releases_slot
    &&& step.slot_state@ == "released"@
}

/// What beginning a link does and answers.
pub open spec fn begin_link_outcome<G: Fn(&str, &Json) -> Keyed + Copy>(
    form: Formation,
    form_after: Formation,
    journal: JournalView,
    journal_after: JournalView,
    pin: Pinned,
    slot_state: Seq<char>,
    stamp: Stamp<G>,
    r: Result<(), Problem>,
) -> bool {
    &&& if pin.state !is ByomCommitted {
        r is Ok && form_after == form && journal_after == journal
    } else if cas_holds(form, pin) {
        &&& r is Ok
        &&& form_after.attempts == form.attempts
        &&& form_after.links == form.links
        &&& exists|step: Step|
            {
                &&& is_linking_step(step, slot_state)
                &&& #[trigger] pair_moved(
                    form,
                    form_after,
                    pin.formation_id@,
                    step,
                    nothing_more(),
                    stamp,
                )
                &&& journal_after == step_journal(
                    journal,
                    form.intents@[key1(pin.formation_id@)],
                    step,
                    ToldView::Nothing,
                )
            }
    } else {
        &&& r is Err
        &&& r->Err_0@ == stale_revision_view(pin.revision)
        &&& form_after == form
        &&& journal_after == journal
    }
}

/// Shows that the link is being committed. Does nothing from any other state
/// than `byom_committed`.
pub fn begin_link<G: Fn(&str, &Json) -> Keyed + Copy>(
    form: &mut Formation,
    journal: &mut Journal,
    pin: &Pinned,
    slot_state: &str,
    stamp: &Stamp<G>,
) -> (r: Result<(), Problem>)
    requires
        keys_all(stamp.keyed),
        old(form).wf(),
        pairs_fit(*old(form)),
    ensures
        final(form).wf(),
        begin_link_outcome(
            *old(form),
            *final(form),
            old(journal)@,
            final(journal)@,
            *pin,
            slot_state@,
            *stamp,
            r,
        ),
{
    if pin.state != IntentState::ByomCommitted {
        return Ok(());
    }
    let step = Step {
        to: IntentState::Linking,
        via: Via::ExternalLinkBegin,
        releases_slot: false,
        slot_state: slot_state.to_owned(),
    };
    match commit_pair(form, journal, pin, &step, no_extra(), &Told::Nothing, stamp) {
        Ok(_) => Ok(()),
        Err(p) => Err(p),
    }
}

/// The reference that a link digest makes.
pub open spec fn link_ref_of(digest: Seq<char>) -> Seq<char> {
    "xlink-"@ + digest.take(24)
}

fn make_link_ref(digest: &str) -> (r: String)
    requires
        digest@.len() >= 24,
    ensures
        r@ == link_ref_of(digest@),
{
    let head = first_chars(digest, 24);
    proof {
        assert(digest@.take(24) =~= head@);
    }
    cat2("xlink-", head.as_str())
}

/// The link to the endeavor that a result names.
pub open spec fn link_row(
    l: ExternalLink,
    t: Intent,
    realm: Seq<char>,
    digest: Seq<char>,
    at: Seq<char>,
) -> bool {
    let e = t.result->0;
    &&& l.link_digest_hex@ == digest
    &&& l.link_ref@ == link_ref_of(digest)
    &&& l.formation_id@ == t.formation_id@
    &&& l.realm_ref@ == realm
    &&& Some(l.endeavor_ref@) == opt_view(e.endeavor_ref)
    &&& l.endeavor_revision == (match e.endeavor_revision {
        Some(n) => n,
        None => 1,
    })
    &&& l.endeavor_digest@ == (match e.endeavor_digest {
        Some(d) => d@,
        None => "null"@,
    })
    &&& l.result_digest@ == e.digest@
    &&& l.source_cursor@ == (match e.source_cursor {
        Some(c) => c@,
        None => Seq::empty(),
    })
    &&& l.created_at@ == at
}

/// Whether a durable result names an endeavor.
pub open spec fn links_to_something(t: Intent) -> bool {
    t.result is Some && t.result->0.endeavor_ref is Some
}

/// What the digest of a formation's link is taken over.
pub open spec fn link_subject_of(t: Intent) -> JsonView {
    let e = t.result->0;
    link_document(
        t.formation_id@,
        e.endeavor_ref->0@,
        match e.endeavor_revision {
            Some(n) => n,
            None => 1,
        },
        e.digest@,
    )
}

/// What committing the link under a digest makes of the pair and the links.
pub open spec fn link_committed<G: Fn(&str, &Json) -> Keyed + Copy>(
    before: Formation,
    after: Formation,
    journal: JournalView,
    after_journal: JournalView,
    realm: Seq<char>,
    t: Intent,
    hex: Seq<char>,
    stamp: Stamp<G>,
) -> bool {
    let k = key1(hex);
    &&& after.attempts == before.attempts
    &&& if before.links@.contains_key(k) {
        after.links == before.links
    } else {
        &&& after.links@ == before.links@.insert(k, after.links@[k])
        &&& link_row(after.links@[k], t, realm, hex, stamp.at@)
    }
    &&& exists|step: Step, extra: Extra|
        {
            &&& is_linked_step(step)
            &&& extra.attempt is None
            &&& extra.result is None
            &&& opt_view(extra.link) == Some(link_ref_of(hex))
            &&& #[trigger] pair_moved(before, after, t.formation_id@, step, extra, stamp)
            &&& after_journal == step_journal(
                journal,
                t,
                step,
                ToldView::Link {
                    link_ref: link_ref_of(hex),
                    endeavor_ref: t.result->0.endeavor_ref->0@,
                },
            )
        }
}

/// What committing the link does and answers.
pub open spec fn finish_outcome<G: Fn(&str, &Json) -> Keyed + Copy>(
    before: Formation,
    after: Formation,
    journal: JournalView,
    after_journal: JournalView,
    realm: Seq<char>,
    formation_id: Seq<char>,
    stamp: Stamp<G>,
    r: Result<u64, Problem>,
) -> bool {
    &&& r is Err ==> after == before && after_journal == journal
    &&& match intent_of(before, realm, formation_id) {
        None => r is Err && r->Err_0@ == internal_view(),
        Some(t) => if !links_to_something(t) {
            r is Err && r->Err_0@ == internal_view()
        } else if !slot_held(before, t) {
            r is Err && r->Err_0@ == stale_revision_view(t.revision)
        } else {
            &&& r is Ok
            &&& r->Ok_0 == t.revision + 1
            &&& exists|hex: Seq<char>|
                {
                    &&& keyed_hex(
                        stamp.keyed,
                        "kovee-external-link-v1"@,
                        link_subject_of(t),
                        hex,
                    )
                    &&& #[trigger] link_committed(
                        before,
                        after,
                        journal,
                        after_journal,
                        realm,
                        t,
                        hex,
                        stamp,
                    )
                }
        },
    }
}

/// Commits the link, idempotent over its digest, and ends the saga with it: the
/// slot is released by the committed link alone.
pub fn link_and_finish<G: Fn(&str, &Json) -> Keyed + Copy>(
    form: &mut Formation,
    journal: &mut Journal,
    realm: &str,
    formation_id: &str,
    stamp: &Stamp<G>,
) -> (r: Result<u64, Problem>)
    requires
        keys_all(stamp.keyed),
        old(form).wf(),
        pairs_fit(*old(form)),
    ensures
        final(form).wf(),
        finish_outcome(
            *old(form),
            *final(form),
            old(journal)@,
            final(journal)@,
            realm@,
            formation_id@,
            *stamp,
            r,
        ),
{
    proof {
        reveal_strlit("");
        crate::text::empty_is(""@);
    }
    let i = match read_intent(form, realm, formation_id) {
        None => {
            return Err(internal());
        },
        Some(i) => i,
    };
    let ghost t = form.intents.rows@[i as int];
    let keyed = stamp.keyed;
    let link = match &form.intents.rows[i].result {
        None => {
            return Err(internal());
        },
        Some(e) => match &e.endeavor_ref {
            None => {
                return Err(internal());
            },
            Some(endeavor) => {
                let endeavor_revision: u64 = match e.endeavor_revision {
                    Some(n) => n,
                    None => 1,
                };
                let doc = link_subject(
                    form.intents.rows[i].formation_id.as_str(),
                    endeavor.as_str(),
                    endeavor_revision,
                    e.digest.as_str(),
                );
                let digest = keyed("kovee-external-link-v1", &doc);
                proof {
                    assert(doc@ == link_subject_of(t));
                    assert(keyed_hex(
                        stamp.keyed,
                        "kovee-external-link-v1"@,
                        doc@,
                        digest.hex@,
                    ));
                }
                ExternalLink {
                    link_ref: make_link_ref(digest.hex.as_str()),
                    link_digest_hex: digest.hex,
                    formation_id: form.intents.rows[i].formation_id.clone(),
                    realm_ref: realm.to_owned(),
                    endeavor_ref: endeavor.clone(),
                    endeavor_revision,
                    endeavor_digest: match &e.endeavor_digest {
                        Some(d) => d.clone(),
                        None => "null".to_owned(),
                    },
                    result_digest: e.digest.clone(),
                    source_cursor: match &e.source_cursor {
                        Some(c) => c.clone(),
                        None => String::new(),
                    },
                    created_at: stamp.at.clone(),
                }
            },
        },
    };
    let ghost the_link = link;
    let pin = pin_of(&form.intents.rows[i]);
    proof {
        crate::table::table_at(form.intents, i as int);
    }
    if compare_pair(form, &pin).is_none() {
        return Err(stale_revision(pin.revision));
    }
    let step = Step {
        to: IntentState::Linked,
        via: Via::ExternalLinkCommit,
        releases_slot: true,
        slot_state: "released".to_owned(),
    };
    let told = Told::Link {
        link_ref: link.link_ref.clone(),
        endeavor_ref: link.endeavor_ref.clone(),
    };
    let extra = Extra { attempt: None, result: None, link: Some(link.link_ref.clone()) };
    let ghost the_extra = extra;
    let moved = commit_pair(form, journal, &pin, &step, extra, &told, stamp);
    if form.links.position(link.link_digest_hex.as_str(), "").is_none() {
        form.links.insert(link);
    }
    proof {
        assert(pair_moved(*old(form), *form, t.formation_id@, step, the_extra, *stamp));
        assert(link_committed(
            *old(form),
            *form,
            old(journal)@,
            journal@,
            realm@,
            t,
            the_link.link_digest_hex@,
            *stamp,
        ));
    }
    moved
}

// ------------------------------------------------------------- reconcile ----

/// What beginning a reconciliation answers.
pub open spec fn reconcile_begin_outcome(
    form: Formation,
    realm: Seq<char>,
    formation_id: Seq<char>,
    r: Result< Option<u64>, Problem, >,
) -> bool {
    &&& match intent_of(form, realm, formation_id) {
        None => r is Err && r->Err_0@ == not_found_view(),
        Some(t) => r == Ok::<Option<u64>, Problem>(
            if t.state.terminal() {
                Some(t.revision)
            } else {
                None
            },
        ),
    }
}

/// Whether a reconcile has anything to do: a terminal pair is reported at its
/// revision, never driven again.
pub fn reconcile_begin(form: &Formation, realm: &str, formation_id: &str) -> (r: Result<
    Option<u64>,
    Problem,
>)
    requires
        form.wf(),
    ensures
        reconcile_begin_outcome(
            *form,
            realm@,
            formation_id@,
            r,
        ),
{
    match read_intent(form, realm, formation_id) {
        None => Err(not_found()),
        Some(i) => if form.intents.rows[i].state.is_terminal() {
            Ok(Some(form.intents.rows[i].revision))
        } else {
            Ok(None)
        },
    }
}

/// The recovery facts that byom can state of a command.
#[derive(Debug)]
pub enum Fact {
    Committed(ResultEnvelope),
    Absent,
    HistoricallyFencedAbsent { receipt_ref: String },
    Tombstone,
    Unknown,
    NotTerminalizable { reason: String },
}

/// The name of a fact.
pub fn fact_name(fact: &Fact) -> (r: &'static str)
    ensures
        r@ == named_fact(*fact),
{
    match fact {
        Fact::Committed(_) => "committed",
        Fact::Absent => "absent",
        Fact::HistoricallyFencedAbsent { .. } => "historically_fenced_absent",
        Fact::Tombstone => "non_reexecuting_tombstone",
        Fact::Unknown => "unknown",
        Fact::NotTerminalizable { .. } => "not_terminalizable",
    }
}

/// The result that a fact brings, where it is a committed one.
pub open spec fn envelope_of(fact: Fact) -> Option<ResultEnvelope> {
    match fact {
        Fact::Committed(e) => Some(e),
        _ => None,
    }
}

pub open spec fn named_fact(fact: Fact) -> Seq<char> {
    match fact {
        Fact::Committed(_) => "committed"@,
        Fact::Absent => "absent"@,
        Fact::HistoricallyFencedAbsent { .. } => "historically_fenced_absent"@,
        Fact::Tombstone => "non_reexecuting_tombstone"@,
        Fact::Unknown => "unknown"@,
        Fact::NotTerminalizable { .. } => "not_terminalizable"@,
    }
}

/// What a fact is announced with.
pub open spec fn fact_told(fact: Fact) -> ToldView {
    ToldView::Fact {
        name: named_fact(fact),
        receipt_ref: match fact {
            Fact::HistoricallyFencedAbsent { receipt_ref } => Some(receipt_ref@),
            _ => None,
        },
    }
}

/// What applying a fact does and answers.
pub open spec fn fact_outcome<G: Fn(&str, &Json) -> Keyed + Copy>(
    before: Formation,
    after: Formation,
    journal: JournalView,
    after_journal: JournalView,
    realm: Seq<char>,
    formation_id: Seq<char>,
    row: Option<Step>,
    fact: Fact,
    stamp: Stamp<G>,
    r: Result<bool, Problem>,
) -> bool {
    &&& after.links == before.links
    &&& r is Err ==> after == before && after_journal == journal
    &&& match intent_of(before, realm, formation_id) {
        None => r is Err && r->Err_0@ == internal_view(),
        Some(t) => match row {
            None => {
                &&& r == Ok::<bool, Problem>(false)
                &&& after == before
                &&& after_journal == journal
            },
            Some(step) => if slot_held(before, t) {
                &&& r == Ok::<bool, Problem>(step.to is ByomCommitted || step.to is Linking)
                &&& pair_moved(
                    before,
                    after,
                    formation_id,
                    step,
                    (Extra { attempt: None, result: envelope_of(fact), link: None }),
                    stamp,
                )
                &&& match t.latest_attempt_ref {
                    Some(a) => attempt_closed(
                        before.attempts,
                        after.attempts,
                        a@,
                        AttemptState::Reconciled,
                        None,
                        stamp.at@,
                    ),
                    None => after.attempts == before.attempts,
                }
                &&& after_journal == step_journal(journal, t, step, fact_told(fact))
            } else {
                r is Err && r->Err_0@ == stale_revision_view(t.revision)
            },
        },
    }
}

/// Commits the one row that byom's fact authorizes for the recorded state. A
/// fact without a row changes nothing. The answer says whether the link is due
/// next.
pub fn apply_fact<G: Fn(&str, &Json) -> Keyed + Copy>(
    form: &mut Formation,
    journal: &mut Journal,
    realm: &str,
    formation_id: &str,
    row: &Option<Step>,
    fact: Fact,
    stamp: &Stamp<G>,
) -> (r: Result<bool, Problem>)
    requires
        keys_all(stamp.keyed),
        old(form).wf(),
        pairs_fit(*old(form)),
    ensures
        final(form).wf(),
        fact_outcome(
            *old(form),
            *final(form),
            old(journal)@,
            final(journal)@,
            realm@,
            formation_id@,
            *row,
            fact,
            *stamp,
            r,
        ),
{
    let i = match read_intent(form, realm, formation_id) {
        None => {
            return Err(internal());
        },
        Some(i) => i,
    };
    let step = match row {
        None => {
            return Ok(false);
        },
        Some(s) => s,
    };
    let pin = pin_of(&form.intents.rows[i]);
    let latest = form.intents.rows[i].latest_attempt_ref.clone();
    proof {
        crate::table::table_at(form.intents, i as int);
    }
    let receipt_ref = match &fact {
        Fact::HistoricallyFencedAbsent { receipt_ref } => Some(receipt_ref.clone()),
        _ => None,
    };
    let told = Told::Fact { name: fact_name(&fact).to_owned(), receipt_ref };
    let envelope = match fact {
        Fact::Committed(e) => Some(e),
        _ => None,
    };
    let extra = Extra { attempt: None, result: envelope, link: None };
    let ghost the_extra = extra;
    let moved = commit_pair(form, journal, &pin, step, extra, &told, stamp);
    match moved {
        Err(p) => Err(p),
        Ok(_) => {
            if let Some(a) = &latest {
                close_attempt(
                    &mut form.attempts,
                    a.as_str(),
                    AttemptState::Reconciled,
                    &None,
                    stamp.at.as_str(),
                );
            }
            proof {
                assert(pair_moved(*old(form), *form, formation_id@, *step, the_extra, *stamp));
            }
            Ok(step.to == IntentState::ByomCommitted || step.to == IntentState::Linking)
        },
    }
}

// ------------------------------------------------------ the saga, driven ----

/// Every counter that `n` more steps may advance can still advance.
pub open spec fn pairs_room(form: Formation, n: int) -> bool {
    &&& forall|i: int|
        0 <= i < form.intents.rows@.len() ==> (#[trigger] form.intents.rows@[i]).revision
            < u64::MAX - n
    &&& forall|i: int|
        0 <= i < form.slots.rows@.len() ==> (#[trigger] form.slots.rows@[i]).revision < u64::MAX
            - n
    &&& forall|i: int|
        0 <= i < form.attempts.rows@.len() ==> (#[trigger] form.attempts.rows@[i]).attempt_ordinal
            < u64::MAX - n
}

/// One step takes the room of one from the pairs.
proof fn pair_room_after<G: Fn(&str, &Json) -> Keyed + Copy>(
    before: Formation,
    after: Formation,
    formation_id: Seq<char>,
    step: Step,
    extra: Extra,
    stamp: Stamp<G>,
    n: int,
)
    requires
        before.wf(),
        after.wf(),
        0 <= n,
        pairs_room(before, n + 1),
        before.intents@.contains_key(key1(formation_id)),
        before.slots@.contains_key(
            key1(before.intents@[key1(formation_id)].formation_slot_ref@),
        ),
        pair_moved(before, after, formation_id, step, extra, stamp),
    ensures
        forall|i: int|
            0 <= i < after.intents.rows@.len() ==> (#[trigger] after.intents.rows@[i]).revision
                < u64::MAX - n,
        forall|i: int|
            0 <= i < after.slots.rows@.len() ==> (#[trigger] after.slots.rows@[i]).revision
                < u64::MAX - n,
{
    let k = key1(formation_id);
    let sk = key1(before.intents@[k].formation_slot_ref@);
    assert forall|i: int| 0 <= i < after.intents.rows@.len() implies (
    #[trigger] after.intents.rows@[i]).revision < u64::MAX - n by {
        crate::table::table_at(after.intents, i);
        let key = after.intents.rows@[i].key();
        let p = crate::table::table_row(before.intents, k);
        if key != k {
            let j = crate::table::table_row(before.intents, key);
        }
    }
    assert forall|i: int| 0 <= i < after.slots.rows@.len() implies (
    #[trigger] after.slots.rows@[i]).revision < u64::MAX - n by {
        crate::table::table_at(after.slots, i);
        let key = after.slots.rows@[i].key();
        let p = crate::table::table_row(before.slots, sk);
        if key != sk {
            let j = crate::table::table_row(before.slots, key);
        }
    }
}

/// One step takes the room of one.
proof fn room_after_step<G: Fn(&str, &Json) -> Keyed + Copy>(
    before: Formation,
    after: Formation,
    formation_id: Seq<char>,
    step: Step,
    extra: Extra,
    stamp: Stamp<G>,
    n: int,
)
    requires
        before.wf(),
        after.wf(),
        0 <= n,
        pairs_room(before, n + 1),
        before.intents@.contains_key(key1(formation_id)),
        before.slots@.contains_key(
            key1(before.intents@[key1(formation_id)].formation_slot_ref@),
        ),
        pair_moved(before, after, formation_id, step, extra, stamp),
        attempts_kept_room(before.attempts, after.attempts),
    ensures
        pairs_room(after, n),
{
    pair_room_after(before, after, formation_id, step, extra, stamp, n);
    assert forall|i: int| 0 <= i < after.attempts.rows@.len() implies (
    #[trigger] after.attempts.rows@[i]).attempt_ordinal < u64::MAX - n by {
        crate::table::table_at(after.attempts, i);
        let key = after.attempts.rows@[i].key();
        let j = crate::table::table_row(before.attempts, key);
    }
}

/// Whether attempts stay under their ordinals.
pub open spec fn attempts_kept_room(
    before: Table<FormationAttempt>,
    after: Table<FormationAttempt>,
) -> bool {
    forall|k: Key| #[trigger]
        after@.contains_key(k) ==> before@.contains_key(k) && after@[k].attempt_ordinal
            == before@[k].attempt_ordinal
}

/// What finishing the link from a recorded state does and answers: where the
/// result is only just durable, the pair shows first that the link is being
/// committed, and that stands whatever the rest comes to.
pub open spec fn link_outcome<G: Fn(&str, &Json) -> Keyed + Copy>(
    before: Formation,
    after: Formation,
    journal: JournalView,
    after_journal: JournalView,
    realm: Seq<char>,
    formation_id: Seq<char>,
    slot_state: Seq<char>,
    stamp: Stamp<G>,
    r: Result<u64, Problem>,
) -> bool {
    match intent_of(before, realm, formation_id) {
        None => {
            &&& r is Err
            &&& r->Err_0@ == internal_view()
            &&& after == before
            &&& after_journal == journal
        },
        Some(t) => if t.state !is ByomCommitted {
            finish_outcome(
                before,
                after,
                journal,
                after_journal,
                realm,
                formation_id,
                stamp,
                r,
            )
        } else if !slot_held(before, t) {
            &&& r is Err
            &&& r->Err_0@ == stale_revision_view(t.revision)
            &&& after == before
            &&& after_journal == journal
        } else {
            exists|mid: Formation, step: Step|
                {
                    &&& is_linking_step(step, slot_state)
                    &&& #[trigger] pair_moved(
                        before,
                        mid,
                        formation_id,
                        step,
                        nothing_more(),
                        stamp,
                    )
                    &&& mid.attempts == before.attempts
                    &&& mid.links == before.links
                    &&& finish_outcome(
                        mid,
                        after,
                        step_journal(journal, t, step, ToldView::Nothing),
                        after_journal,
                        realm,
                        formation_id,
                        stamp,
                        r,
                    )
                }
        },
    }
}

/// Finishes the link of a formation whose result is durable. The answer is the
/// revision that the intent moves to.
pub fn commit_link<G: Fn(&str, &Json) -> Keyed + Copy>(
    form: &mut Formation,
    journal: &mut Journal,
    realm: &str,
    formation_id: &str,
    slot_state: &str,
    stamp: &Stamp<G>,
) -> (r: Result<u64, Problem>)
    requires
        keys_all(stamp.keyed),
        old(form).wf(),
        pairs_room(*old(form), 1),
    ensures
        final(form).wf(),
        link_outcome(
            *old(form),
            *final(form),
            old(journal)@,
            final(journal)@,
            realm@,
            formation_id@,
            slot_state@,
            *stamp,
            r,
        ),
{
    let i = match read_intent(form, realm, formation_id) {
        None => {
            return Err(internal());
        },
        Some(i) => i,
    };
    let pin = pin_of(&form.intents.rows[i]);
    let ghost t = form.intents.rows@[i as int];
    proof {
        crate::table::table_at(form.intents, i as int);
        assert(cas_holds(*form, pin) == slot_held(*form, t));
    }
    begin_link(form, journal, &pin, slot_state, stamp)?;
    let ghost mid = *form;
    proof {
        if t.state is ByomCommitted {
            let step = choose|step: Step|
                {
                    &&& is_linking_step(step, slot_state@)
                    &&& #[trigger] pair_moved(
                        *old(form),
                        mid,
                        pin.formation_id@,
                        step,
                        nothing_more(),
                        *stamp,
                    )
                    &&& journal@ == step_journal(old(journal)@, t, step, ToldView::Nothing)
                };
            room_after_step(
                *old(form),
                mid,
                formation_id@,
                step,
                nothing_more(),
                *stamp,
                0,
            );
        }
    }
    link_and_finish(form, journal, realm, formation_id, stamp)
}

/// What a start came to.
#[derive(Debug)]
pub enum StartAction {
    /// The pair stands at a revision; nothing is to be sent.
    Report(u64),
    /// The link is committed, at a revision.
    Linked(u64),
    /// An attempt is open; its bytes may leave.
    Submit { attempt_id: String },
}

/// What a start does and answers, up to the point where bytes may leave.
pub open spec fn start_outcome<
    G: Fn(&str, &Json) -> Keyed + Copy,
    B: Fn(&RealmBinding) -> BindingPin + Copy,
    K: Fn(&CredentialAsk, &RealmBinding) -> Result<Minted, String> + Copy,
    V: Fn(&str, &str, &str, &str, &str) -> Json + Copy,
>(
    before: Formation,
    after: Formation,
    ledger: Ledger,
    after_ledger: Ledger,
    journal: JournalView,
    after_journal: JournalView,
    gov: Governance,
    realm: Seq<char>,
    formation_id: Seq<char>,
    observation: Seq<char>,
    slot_state: Seq<char>,
    mint: AttemptMint,
    fresh: Fresh<B, K, V>,
    stamp: Stamp<G>,
    r: Result<StartAction, Problem>,
) -> bool {
    match intent_of(before, realm, formation_id) {
        None => {
            &&& r is Err
            &&& r->Err_0@ == not_found_view()
            &&& after == before
            &&& after_ledger == ledger
            &&& after_journal == journal
        },
        Some(t) => match start_refusal(t, observation) {
            Some(p) => {
                &&& r is Err
                &&& r->Err_0@ == p
                &&& after == before
                &&& after_ledger == ledger
                &&& after_journal == journal
            },
            None => if t.state is Linked {
                &&& r == Ok::<StartAction, Problem>(StartAction::Report(t.revision))
                &&& after == before
                &&& after_ledger == ledger
                &&& after_journal == journal
            } else if t.state is ByomCommitted || t.state is Linking {
                &&& after_ledger == ledger
                &&& exists|linked: Result<u64, Problem>|
                    {
                        &&& #[trigger] link_outcome(
                            before,
                            after,
                            journal,
                            after_journal,
                            realm,
                            formation_id,
                            slot_state,
                            stamp,
                            linked,
                        )
                        &&& linked_action(linked, r)
                    }
            } else {
                exists|pin: Pinned, opened: Result<u64, Problem>|
                    {
                        &&& pins(pin, t)
                        &&& #[trigger] open_outcome(
                            before,
                            after,
                            ledger,
                            after_ledger,
                            journal,
                            after_journal,
                            gov,
                            realm,
                            pin,
                            observation,
                            slot_state,
                            mint,
                            fresh,
                            stamp,
                            opened,
                        )
                        &&& match opened {
                            Ok(_) => r matches Ok(StartAction::Submit { attempt_id })
                                && attempt_id@ == mint.attempt_id@,
                            Err(p) => r == Err::<StartAction, Problem>(p),
                        }
                    }
            },
        },
    }
}

/// Starts a formation, up to the point where its bytes may leave: what is over
/// is reported, a durable result is linked, and otherwise an attempt is opened
/// before anything is sent.
pub fn start_promotion<
    G: Fn(&str, &Json) -> Keyed + Copy,
    B: Fn(&RealmBinding) -> BindingPin + Copy,
    K: Fn(&CredentialAsk, &RealmBinding) -> Result<Minted, String> + Copy,
    V: Fn(&str, &str, &str, &str, &str) -> Json + Copy,
>(
    form: &mut Formation,
    ledger: &mut Ledger,
    journal: &mut Journal,
    gov: &Governance,
    realm: &str,
    formation_id: &str,
    observation: &str,
    slot_state: &str,
    mint: &AttemptMint,
    fresh: Fresh<B, K, V>,
    stamp: &Stamp<G>,
) -> (r: Result<StartAction, Problem>)
    requires
        keys_all(stamp.keyed),
        fresh_all(fresh),
        old(form).wf(),
        old(ledger).wf(),
        gov.wf(),
        pairs_room(*old(form), 1),
    ensures
        final(form).wf(),
        final(ledger).wf(),
        start_outcome(
            *old(form),
            *final(form),
            *old(ledger),
            *final(ledger),
            old(journal)@,
            final(journal)@,
            *gov,
            realm@,
            formation_id@,
            observation@,
            slot_state@,
            *mint,
            fresh,
            *stamp,
            r,
        ),
{
    match start_begin(form, realm, formation_id, observation)? {
        StartStep::Report(n) => Ok(StartAction::Report(n)),
        StartStep::Link => {
            let linked = commit_link(
                form,
                journal,
                realm,
                formation_id,
                slot_state,
                stamp,
            );
            proof {
                assert(link_outcome(
                    *old(form),
                    *form,
                    old(journal)@,
                    journal@,
                    realm@,
                    formation_id@,
                    slot_state@,
                    *stamp,
                    linked,
                ));
            }
            match linked {
                Ok(n) => Ok(StartAction::Linked(n)),
                Err(p) => Err(p),
            }
        },
        StartStep::Send => {
            let i = match read_intent(form, realm, formation_id) {
                None => {
                    return Err(internal());
                },
                Some(i) => i,
            };
            let pin = pin_of(&form.intents.rows[i]);
            let opened = open_attempt(
                form,
                ledger,
                journal,
                gov,
                realm,
                &pin,
                observation,
                slot_state,
                mint,
                fresh,
                stamp,
            );
            proof {
                assert(open_outcome(
                    *old(form),
                    *form,
                    *old(ledger),
                    *ledger,
                    old(journal)@,
                    journal@,
                    *gov,
                    realm@,
                    pin,
                    observation@,
                    slot_state@,
                    *mint,
                    fresh,
                    *stamp,
                    opened,
                ));
            }
            match opened {
                Ok(_) => Ok(StartAction::Submit { attempt_id: mint.attempt_id.clone() }),
                Err(p) => Err(p),
            }
        },
    }
}

pub open spec fn linked_action(linked: Result<u64, Problem>, r: Result<StartAction, Problem>) -> bool {
    match linked {
        Ok(n) => r == Ok::<StartAction, Problem>(StartAction::Linked(n)),
        Err(p) => r == Err::<StartAction, Problem>(p),
    }
}

pub open spec fn no_typed_digest() -> ProblemView {
    refusal_with(
        ProblemKind::Unavailable,
        "the byom endpoint answered with an unusable reply"@,
        "the formation result carries no typed digest"@,
    )
}

/// What a result that came back does and answers: it is recorded, and where
/// that went through the link is finished.
pub open spec fn result_linked<G: Fn(&str, &Json) -> Keyed + Copy>(
    before: Formation,
    after: Formation,
    ledger: Ledger,
    after_ledger: Ledger,
    journal: JournalView,
    after_journal: JournalView,
    realm: Seq<char>,
    t: Intent,
    attempt_ref: Seq<char>,
    credential: Key,
    envelope: ResultEnvelope,
    row: Option<Step>,
    now: i64,
    slot_state: Seq<char>,
    stamp: Stamp<G>,
    r: Result<StartAction, Problem>,
) -> bool {
    exists|pin: Pinned, mid: Formation, mid_journal: JournalView, recorded: Result<u64, Problem>|
        {
            &&& pins(pin, t)
            &&& #[trigger] result_outcome(
                before,
                mid,
                ledger,
                after_ledger,
                journal,
                mid_journal,
                pin,
                attempt_ref,
                credential,
                envelope,
                row,
                now,
                stamp,
                recorded,
            )
            &&& match recorded {
                Err(p) => {
                    &&& r == Err::<StartAction, Problem>(p)
                    &&& after == mid
                    &&& after_journal == mid_journal
                },
                Ok(_) => exists|linked: Result<u64, Problem>|
                    {
                        &&& #[trigger] link_outcome(
                            mid,
                            after,
                            mid_journal,
                            after_journal,
                            realm,
                            t.formation_id@,
                            slot_state,
                            stamp,
                            linked,
                        )
                        &&& linked_action(linked, r)
                    },
            }
        }
}

/// Where the credential of an attempt stands in the ledger.
pub open spec fn credential_key(form: Formation, attempt_ref: Seq<char>, issuer: Seq<char>) -> Key {
    (issuer, form.attempts@[key1(attempt_ref)].attempt_nonce@)
}

/// Whether an intent has an attempt on record, and its credential.
pub open spec fn attempt_stands(
    form: Formation,
    ledger: Ledger,
    t: Intent,
    issuer: Seq<char>,
) -> bool {
    match t.latest_attempt_ref {
        None => false,
        Some(a) => form.attempts@.contains_key(key1(a@)) && ledger@.contains_key(
            credential_key(form, a@, issuer),
        ),
    }
}

/// What taking the outcome of a send does and answers.
pub open spec fn sent_outcome<
    G: Fn(&str, &Json) -> Keyed + Copy,
    W: FnOnce(IntentState, &Fact) -> Option<Step>,
>(
    before: Formation,
    after: Formation,
    ledger: Ledger,
    after_ledger: Ledger,
    journal: JournalView,
    after_journal: JournalView,
    realm: Seq<char>,
    formation_id: Seq<char>,
    sent: Result<Option<ResultEnvelope>, SendFailure>,
    issuer: Seq<char>,
    resolve: W,
    now: i64,
    slot_state: Seq<char>,
    stamp: Stamp<G>,
    r: Result<StartAction, Problem>,
) -> bool {
    match intent_of(before, realm, formation_id) {
        None => {
            &&& r is Err
            &&& r->Err_0@ == internal_view()
            &&& after == before
            &&& after_ledger == ledger
            &&& after_journal == journal
        },
        Some(t) => if t.state !is Submitting {
            &&& r == Ok::<StartAction, Problem>(StartAction::Report(t.revision))
            &&& after == before
            &&& after_ledger == ledger
            &&& after_journal == journal
        } else if !attempt_stands(before, ledger, t, issuer) {
            &&& r is Err
            &&& r->Err_0@ == internal_view()
            &&& after == before
            &&& after_ledger == ledger
            &&& after_journal == journal
        } else {
            match sent {
                Ok(None) => {
                    &&& r is Err
                    &&& r->Err_0@ == no_typed_digest()
                    &&& after == before
                    &&& after_ledger == ledger
                    &&& after_journal == journal
                },
                Ok(Some(envelope)) => exists|row: Option<Step>|
                    {
                        &&& #[trigger] resolve.ensures(
                            (t.state, &Fact::Committed(envelope)),
                            row,
                        )
                        &&& result_linked(
                            before,
                            after,
                            ledger,
                            after_ledger,
                            journal,
                            after_journal,
                            realm,
                            t,
                            t.latest_attempt_ref->0@,
                            credential_key(
                                before,
                                t.latest_attempt_ref->0@,
                                issuer,
                            ),
                            envelope,
                            row,
                            now,
                            slot_state,
                            stamp,
                            r,
                        )
                    },
                Err(failure) => {
                    &&& after_ledger == ledger
                    &&& r is Err
                    &&& exists|pin: Pinned|
                        pins(pin, t) && #[trigger] failure_outcome(
                            before,
                            after,
                            journal,
                            after_journal,
                            pin,
                            t.latest_attempt_ref->0@,
                            failure,
                            slot_state,
                            stamp,
                            r->Err_0,
                        )
                },
            }
        },
    }
}

/// Takes what the send came to. The recorded state decides: a pair that moved
/// meanwhile is only reported. A result is recorded and linked, anything else
/// ends the attempt on the row that it authorizes. The credential of the attempt
/// is the one of `issuer_ref`, and `resolve` answers the row that a fact
/// authorizes in a state, if any.
pub fn endeavor_promotion_sent<
    G: Fn(&str, &Json) -> Keyed + Copy,
    W: FnOnce(IntentState, &Fact) -> Option<Step>,
>(
    form: &mut Formation,
    ledger: &mut Ledger,
    journal: &mut Journal,
    realm: &str,
    formation_id: &str,
    sent: Result<Option<ResultEnvelope>, SendFailure>,
    issuer_ref: &str,
    resolve: W,
    now: i64,
    slot_state: &str,
    stamp: &Stamp<G>,
) -> (r: Result<StartAction, Problem>)
    requires
        keys_all(stamp.keyed),
        old(form).wf(),
        old(ledger).wf(),
        forall|s: IntentState, f: &Fact| #[trigger] resolve.requires((s, f)),
        pairs_room(*old(form), 2),
    ensures
        final(form).wf(),
        final(ledger).wf(),
        sent_outcome(
            *old(form),
            *final(form),
            *old(ledger),
            *final(ledger),
            old(journal)@,
            final(journal)@,
            realm@,
            formation_id@,
            sent,
            issuer_ref@,
            resolve,
            now,
            slot_state@,
            *stamp,
            r,
        ),
{
    let i = match read_intent(form, realm, formation_id) {
        None => {
            return Err(internal());
        },
        Some(i) => i,
    };
    let ghost t = form.intents.rows@[i as int];
    proof {
        crate::table::table_at(form.intents, i as int);
    }
    if form.intents.rows[i].state != IntentState::Submitting {
        return Ok(StartAction::Report(form.intents.rows[i].revision));
    }
    let attempt_ref = match &form.intents.rows[i].latest_attempt_ref {
        None => {
            return Err(internal());
        },
        Some(a) => a.clone(),
    };
    proof {
        reveal_strlit("");
        crate::text::empty_is(""@);
    }
    let nonce = match form.attempts.find(attempt_ref.as_str(), "") {
        None => {
            return Err(internal());
        },
        Some(a) => a.attempt_nonce.clone(),
    };
    if ledger.position(issuer_ref, nonce.as_str()).is_none() {
        return Err(internal());
    }
    let pin = pin_of(&form.intents.rows[i]);
    match sent {
        Ok(None) => Err(
            problem(
                ProblemKind::Unavailable,
                "the byom endpoint answered with an unusable reply",
                "the formation result carries no typed digest",
            ),
        ),
        Ok(Some(envelope)) => {
            let ghost the_envelope = envelope;
            let fact = Fact::Committed(envelope);
            let state = form.intents.rows[i].state;
            let row = resolve(state, &fact);
            proof {
                assert(resolve.ensures((t.state, &Fact::Committed(the_envelope)), row));
            }
            let envelope = match fact {
                Fact::Committed(e) => e,
                _ => {
                    return Err(internal());
                },
            };
            let recorded = record_result(
                form,
                ledger,
                journal,
                &pin,
                attempt_ref.as_str(),
                issuer_ref,
                nonce.as_str(),
                envelope,
                &row,
                now,
                stamp,
            );
            let ghost mid = *form;
            let ghost mid_journal = journal@;
            proof {
                assert(result_outcome(
                    *old(form),
                    mid,
                    *old(ledger),
                    *ledger,
                    old(journal)@,
                    mid_journal,
                    pin,
                    attempt_ref@,
                    (issuer_ref@, nonce@),
                    the_envelope,
                    row,
                    now,
                    *stamp,
                    recorded,
                ));
                if recorded is Ok {
                    room_after_step(
                        *old(form),
                        mid,
                        formation_id@,
                        row->0,
                        (Extra { attempt: None, result: Some(the_envelope), link: None }),
                        *stamp,
                        1,
                    );
                }
            }
            match recorded {
                Err(p) => Err(p),
                Ok(_) => {
                    let linked = commit_link(
                        form,
                        journal,
                        realm,
                        formation_id,
                        slot_state,
                        stamp,
                    );
                    proof {
                        assert(link_outcome(
                            mid,
                            *form,
                            mid_journal,
                            journal@,
                            realm@,
                            t.formation_id@,
                            slot_state@,
                            *stamp,
                            linked,
                        ));
                    }
                    match linked {
                        Ok(n) => Ok(StartAction::Linked(n)),
                        Err(p) => Err(p),
                    }
                },
            }
        },
        Err(failure) => {
            let p = record_failure(
                form,
                journal,
                &pin,
                attempt_ref.as_str(),
                failure,
                slot_state,
                stamp,
            );
            Err(p)
        },
    }
}

/// What taking byom's fact on a formation does and answers: the one row that
/// it authorizes, and the link where a result is committed.
pub open spec fn fact_settled<G: Fn(&str, &Json) -> Keyed + Copy>(
    before: Formation,
    after: Formation,
    journal: JournalView,
    after_journal: JournalView,
    realm: Seq<char>,
    formation_id: Seq<char>,
    row: Option<Step>,
    fact: Fact,
    slot_state: Seq<char>,
    stamp: Stamp<G>,
    r: Result<(), Problem>,
) -> bool {
    exists|mid: Formation, mid_journal: JournalView, applied: Result<bool, Problem>|
        {
            &&& #[trigger] fact_outcome(
                before,
                mid,
                journal,
                mid_journal,
                realm,
                formation_id,
                row,
                fact,
                stamp,
                applied,
            )
            &&& match applied {
                Err(p) => {
                    &&& r == Err::<(), Problem>(p)
                    &&& after == mid
                    &&& after_journal == mid_journal
                },
                Ok(false) => {
                    &&& r is Ok
                    &&& after == mid
                    &&& after_journal == mid_journal
                },
                Ok(true) => exists|linked: Result<u64, Problem>|
                    {
                        &&& #[trigger] link_outcome(
                            mid,
                            after,
                            mid_journal,
                            after_journal,
                            realm,
                            formation_id,
                            slot_state,
                            stamp,
                            linked,
                        )
                        &&& match linked {
                            Ok(_) => r is Ok,
                            Err(p) => r == Err::<(), Problem>(p),
                        }
                    },
            }
        }
}

fn settle_fact<G: Fn(&str, &Json) -> Keyed + Copy>(
    form: &mut Formation,
    journal: &mut Journal,
    realm: &str,
    formation_id: &str,
    row: &Option<Step>,
    fact: Fact,
    slot_state: &str,
    stamp: &Stamp<G>,
) -> (r: Result<(), Problem>)
    requires
        keys_all(stamp.keyed),
        old(form).wf(),
        pairs_room(*old(form), 2),
    ensures
        final(form).wf(),
        fact_settled(
            *old(form),
            *final(form),
            old(journal)@,
            final(journal)@,
            realm@,
            formation_id@,
            *row,
            fact,
            slot_state@,
            *stamp,
            r,
        ),
{
    let ghost the_fact = fact;
    let applied = apply_fact(form, journal, realm, formation_id, row, fact, stamp);
    let ghost mid = *form;
    let ghost mid_journal = journal@;
    proof {
        assert(fact_outcome(
            *old(form),
            mid,
            old(journal)@,
            mid_journal,
            realm@,
            formation_id@,
            *row,
            the_fact,
            *stamp,
            applied,
        ));
        if applied == Ok::<bool, Problem>(true) {
            room_after_step(
                *old(form),
                mid,
                formation_id@,
                (*row)->0,
                (Extra { attempt: None, result: envelope_of(the_fact), link: None }),
                *stamp,
                1,
            );
        }
    }
    match applied {
        Err(p) => Err(p),
        Ok(due) => {
            if !due {
                return Ok(());
            }
            let linked = commit_link(
                form,
                journal,
                realm,
                formation_id,
                slot_state,
                stamp,
            );
            proof {
                assert(link_outcome(
                    mid,
                    *form,
                    mid_journal,
                    journal@,
                    realm@,
                    formation_id@,
                    slot_state@,
                    *stamp,
                    linked,
                ));
            }
            match linked {
                Ok(_) => Ok(()),
                Err(p) => Err(p),
            }
        },
    }
}

/// What taking byom's fact does and answers, on the row that it authorizes in
/// the state that the intent is in.
pub open spec fn fact_resolved<
    G: Fn(&str, &Json) -> Keyed + Copy,
    W: FnOnce(IntentState, &Fact) -> Option<Step>,
>(
    before: Formation,
    after: Formation,
    journal: JournalView,
    after_journal: JournalView,
    realm: Seq<char>,
    formation_id: Seq<char>,
    resolve: W,
    fact: Fact,
    slot_state: Seq<char>,
    stamp: Stamp<G>,
    r: Result<(), Problem>,
) -> bool {
    exists|row: Option<Step>|
        {
            &&& #[trigger] fact_settled(
                before,
                after,
                journal,
                after_journal,
                realm,
                formation_id,
                row,
                fact,
                slot_state,
                stamp,
                r,
            )
            &&& match intent_of(before, realm, formation_id) {
                Some(t) => resolve.ensures((t.state, &fact), row),
                None => true,
            }
        }
}

fn take_fact<
    G: Fn(&str, &Json) -> Keyed + Copy,
    W: FnOnce(IntentState, &Fact) -> Option<Step>,
>(
    form: &mut Formation,
    journal: &mut Journal,
    realm: &str,
    formation_id: &str,
    resolve: W,
    fact: Fact,
    slot_state: &str,
    stamp: &Stamp<G>,
) -> (r: Result<(), Problem>)
    requires
        keys_all(stamp.keyed),
        old(form).wf(),
        forall|s: IntentState, f: &Fact| #[trigger] resolve.requires((s, f)),
        pairs_room(*old(form), 2),
    ensures
        final(form).wf(),
        fact_resolved(
            *old(form),
            *final(form),
            old(journal)@,
            final(journal)@,
            realm@,
            formation_id@,
            resolve,
            fact,
            slot_state@,
            *stamp,
            r,
        ),
{
    let row: Option<Step> = match read_intent(form, realm, formation_id) {
        Some(i) => {
            let state = form.intents.rows[i].state;
            let row = resolve(state, &fact);
            proof {
                assert(resolve.ensures((state, &fact), row));
            }
            row
        },
        None => None,
    };
    settle_fact(form, journal, realm, formation_id, &row, fact, slot_state, stamp)
}

/// What a fact that was read back does and answers.
pub open spec fn reconcile_fact_outcome<
    G: Fn(&str, &Json) -> Keyed + Copy,
    W: FnOnce(IntentState, &Fact) -> Option<Step>,
>(
    form: Formation,
    form_after: Formation,
    journal: JournalView,
    journal_after: JournalView,
    realm: Seq<char>,
    formation_id: Seq<char>,
    resolve: W,
    fact: Fact,
    slot_state: Seq<char>,
    stamp: Stamp<G>,
    r: Result<(), Problem>,
) -> bool {
    &&& match intent_of(form, realm, formation_id) {
        None => {
            &&& r is Err
            &&& r->Err_0@ == not_found_view()
            &&& form_after == form
            &&& journal_after == journal
        },
        Some(t) => if t.state.terminal() {
            r is Ok && form_after == form && journal_after == journal
        } else {
            fact_resolved(
                form,
                form_after,
                journal,
                journal_after,
                realm,
                formation_id,
                resolve,
                fact,
                slot_state,
                stamp,
                r,
            )
        },
    }
}

/// Takes the fact that byom answered a query with. A terminal pair is left as
/// it is. `resolve` answers the row that a fact authorizes in a state, if any.
pub fn reconcile_fact<
    G: Fn(&str, &Json) -> Keyed + Copy,
    W: FnOnce(IntentState, &Fact) -> Option<Step>,
>(
    form: &mut Formation,
    journal: &mut Journal,
    realm: &str,
    formation_id: &str,
    resolve: W,
    fact: Fact,
    slot_state: &str,
    stamp: &Stamp<G>,
) -> (r: Result<(), Problem>)
    requires
        keys_all(stamp.keyed),
        old(form).wf(),
        forall|s: IntentState, f: &Fact| #[trigger] resolve.requires((s, f)),
        pairs_room(*old(form), 2),
    ensures
        final(form).wf(),
        reconcile_fact_outcome(
            *old(form),
            *final(form),
            old(journal)@,
            final(journal)@,
            realm@,
            formation_id@,
            resolve,
            fact,
            slot_state@,
            *stamp,
            r,
        ),
{
    match reconcile_begin(form, realm, formation_id)? {
        Some(_) => {
            return Ok(());
        },
        None => {},
    }
    take_fact(
        form,
        journal,
        realm,
        formation_id,
        resolve,
        fact,
        slot_state,
        stamp,
    )
}

/// What a terminalization goes out with.
#[derive(Debug)]
pub struct Terminalization {
    pub observation: String,
    pub reason: String,
}

pub open spec fn nothing_to_deny(state: IntentState) -> ProblemView {
    refusal_with(
        ProblemKind::Forbidden,
        "terminalization exists only while the outcome is ambiguous"@,
        "the intent is "@ + quoted_text(state.name())
            + ": a formation with a verified committed result is linked, not denied (§16.3 table rows 4 and 7)"@,
    )
}

pub open spec fn no_principal() -> ProblemView {
    refusal_with(
        ProblemKind::Forbidden,
        "terminalization requires a freshly authenticated principal"@,
        "§16.3: the same source human, freshly authenticated through a current recovery binding, is the only actor who may deny future execution"@,
    )
}

/// The reason that a denial is put down to.
pub open spec fn denial_reason(given: Option<String>) -> Seq<char> {
    match given {
        Some(x) => x@,
        None => "the principal denies future execution of this formation"@,
    }
}

/// Whether an attempt can be ended by hand.
pub open spec fn terminalize_gate_outcome(
    state: IntentState,
    observation: Option<String>,
    reason: Option<String>,
    r: Result<Terminalization, Problem>,
) -> bool {
    &&& if !state.open_outcome() {
        r is Err && r->Err_0@ == nothing_to_deny(state)
    } else {
        match observation {
            None => r is Err && r->Err_0@ == no_principal(),
            Some(o) => {
                &&& r is Ok
                &&& r->Ok_0.observation@ == o@
                &&& r->Ok_0.reason@ == denial_reason(reason)
            },
        }
    }
}

/// Denying future execution exists only while the outcome is open, and only
/// for a freshly authenticated principal.
pub fn terminalize_gate(
    state: IntentState,
    observation: &Option<String>,
    reason: &Option<String>,
) -> (r: Result<Terminalization, Problem>)
    ensures
        terminalize_gate_outcome(
            state,
            *observation,
            *reason,
            r,
        ),
{
    let open = match state {
        IntentState::Prepared => true,
        IntentState::Submitting => true,
        IntentState::RemoteUnknown => true,
        IntentState::AwaitingPrincipal => true,
        IntentState::Ambiguous => true,
        _ => false,
    };
    if !open {
        let q = quoted(state.as_str());
        let detail = cat3(
            "the intent is ",
            q.as_str(),
            ": a formation with a verified committed result is linked, not denied (§16.3 table rows 4 and 7)",
        );
        return Err(
            problem(
                ProblemKind::Forbidden,
                "terminalization exists only while the outcome is ambiguous",
                detail.as_str(),
            ),
        );
    }
    match observation {
        None => Err(
            problem(
                ProblemKind::Forbidden,
                "terminalization requires a freshly authenticated principal",
                "§16.3: the same source human, freshly authenticated through a current recovery binding, is the only actor who may deny future execution",
            ),
        ),
        Some(o) => Ok(
            Terminalization {
                observation: o.clone(),
                reason: match reason {
                    Some(x) => x.clone(),
                    None => "the principal denies future execution of this formation".to_owned(),
                },
            },
        ),
    }
}

/// Why a terminalization does not go out, in the order in which the checks run.
pub open spec fn terminalize_refusal(
    form: Formation,
    ledger: Ledger,
    seam: Option<(RealmBinding, SocietyMapping)>,
    realm: Seq<char>,
    formation_id: Seq<char>,
    observation: Option<String>,
    minted: Result<Minted, String>,
) -> Option<ProblemView> {
    match intent_of(form, realm, formation_id) {
        None => Some(internal_view()),
        Some(t) => if !t.state.open_outcome() {
            Some(nothing_to_deny(t.state))
        } else if observation is None {
            Some(no_principal())
        } else if seam is None {
            Some(internal_view())
        } else {
            match minted {
                Err(e) => Some(
                    refusal_with(
                        ProblemKind::Forbidden,
                        "the delegated-principal credential is not mintable"@,
                        e@,
                    ),
                ),
                Ok(m) => if ledger@.contains_key(m.credential.pair()) {
                    Some(already_minted())
                } else {
                    None
                },
            }
        },
    }
}

/// The binding that a realm's active seam stands on.
pub open spec fn seam_binding(gov: Governance, realm: Seq<char>) -> Seq<char> {
    match seam_of(gov, realm) {
        Some((binding, _)) => binding.binding_ref@,
        None => Seq::empty(),
    }
}

/// Whether `minted` is what the credential of a terminalization came to, where
/// one is asked for at all.
pub open spec fn terminalize_asked<
    G: Fn(&str, &Json) -> Keyed,
    K: Fn(&CredentialAsk, &RealmBinding) -> Result<Minted, String>,
>(
    issue: K,
    keyed: G,
    form: Formation,
    seam: Option<(RealmBinding, SocietyMapping)>,
    realm: Seq<char>,
    formation_id: Seq<char>,
    observation: Option<String>,
    nonce: Seq<char>,
    issued_at: i64,
    minted: Result<Minted, String>,
) -> bool {
    match (intent_of(form, realm, formation_id), observation, seam) {
        (Some(t), Some(o), Some(held)) => t.state.open_outcome() ==> credential_asked(
            issue,
            keyed,
            realm,
            t,
            held,
            nonce,
            "external_command_terminalize"@,
            o@,
            issued_at,
            minted,
        ),
        _ => true,
    }
}

/// What readying a terminalization does and answers, under a credential.
pub open spec fn terminalize_outcome(
    form: Formation,
    ledger: Ledger,
    after: Ledger,
    gov: Governance,
    realm: Seq<char>,
    formation_id: Seq<char>,
    observation: Option<String>,
    reason: Option<String>,
    minted: Result<Minted, String>,
    r: Result<Terminalization, Problem>,
) -> bool {
    match terminalize_refusal(
        form,
        ledger,
        seam_of(gov, realm),
        realm,
        formation_id,
        observation,
        minted,
    ) {
        Some(p) => r is Err && r->Err_0@ == p && after == ledger,
        None => {
            &&& r is Ok
            &&& r->Ok_0.observation@ == observation->0@
            &&& r->Ok_0.reason@ == denial_reason(reason)
            &&& after.rows@ == ledger.rows@.push(after.rows@.last())
            &&& minted_row(
                after.rows@.last(),
                realm,
                seam_binding(gov, realm),
                minted->Ok_0.credential,
            )
        },
    }
}

/// What beginning to end an attempt does and answers.
pub open spec fn terminalize_begin_outcome<
    G: Fn(&str, &Json) -> Keyed,
    K: Fn(&CredentialAsk, &RealmBinding) -> Result<Minted, String>,
>(
    form: Formation,
    ledger: Ledger,
    ledger_after: Ledger,
    gov: Governance,
    realm: Seq<char>,
    formation_id: Seq<char>,
    observation: Option<String>,
    reason: Option<String>,
    nonce: Seq<char>,
    issued_at: i64,
    keyed: G,
    issue: K,
    r: Result<Terminalization, Problem>,
) -> bool {
    &&& exists|minted: Result<Minted, String>|
        {
            &&& #[trigger] terminalize_asked(
                issue,
                keyed,
                form,
                seam_of(gov, realm),
                realm,
                formation_id,
                observation,
                nonce,
                issued_at,
                minted,
            )
            &&& terminalize_outcome(
                form,
                ledger,
                ledger_after,
                gov,
                realm,
                formation_id,
                observation,
                reason,
                minted,
                r,
            )
        }
}

/// Readies a terminalization: the outcome is open, a principal is freshly
/// authenticated, and a credential for this one call is on record before the
/// call is made.
pub fn terminalize_begin<
    G: Fn(&str, &Json) -> Keyed,
    K: Fn(&CredentialAsk, &RealmBinding) -> Result<Minted, String>,
>(
    form: &Formation,
    ledger: &mut Ledger,
    gov: &Governance,
    realm: &str,
    formation_id: &str,
    observation: &Option<String>,
    reason: &Option<String>,
    nonce: &str,
    issued_at: i64,
    keyed: G,
    issue: K,
) -> (r: Result<Terminalization, Problem>)
    requires
        keys_all(keyed),
        issues_all(issue),
        form.wf(),
        old(ledger).wf(),
        gov.wf(),
    ensures
        final(ledger).wf(),
        terminalize_begin_outcome(
            *form,
            *old(ledger),
            *final(ledger),
            *gov,
            realm@,
            formation_id@,
            *observation,
            *reason,
            nonce@,
            issued_at,
            keyed,
            issue,
            r,
        ),
{
    let ghost not_asked: Result<Minted, String> = arbitrary();
    let i = match read_intent(form, realm, formation_id) {
        None => {
            proof {
                assert(terminalize_asked(
                issue,
                keyed,
                *form,
                seam_of(*gov, realm@),
                realm@,
                formation_id@,
                *observation,
                nonce@,
                issued_at,
                not_asked,
            ));
            }
            return Err(internal());
        },
        Some(i) => i,
    };
    let ready = match terminalize_gate(form.intents.rows[i].state, observation, reason) {
        Err(p) => {
            proof {
                assert(terminalize_asked(
                issue,
                keyed,
                *form,
                seam_of(*gov, realm@),
                realm@,
                formation_id@,
                *observation,
                nonce@,
                issued_at,
                not_asked,
            ));
            }
            return Err(p);
        },
        Ok(t) => t,
    };
    let seam = match active_seam(gov, realm) {
        None => {
            proof {
                assert(terminalize_asked(
                issue,
                keyed,
                *form,
                seam_of(*gov, realm@),
                realm@,
                formation_id@,
                *observation,
                nonce@,
                issued_at,
                not_asked,
            ));
            }
            return Err(internal());
        },
        Some(s) => s,
    };
    let ask = credential_ask(
        keyed,
        realm,
        &form.intents.rows[i],
        seam.mapping,
        nonce,
        "external_command_terminalize",
        ready.observation.as_str(),
        issued_at,
    );
    let minted = issue(&ask, seam.binding);
    proof {
        assert(issue.ensures((&ask, seam.binding), minted));
        assert(credential_asked(
            issue,
            keyed,
            realm@,
            form.intents.rows@[i as int],
            (*seam.binding, *seam.mapping),
            nonce@,
            "external_command_terminalize"@,
            ready.observation@,
            issued_at,
            minted,
        ));
        assert(terminalize_asked(
                issue,
                keyed,
                *form,
                seam_of(*gov, realm@),
                realm@,
                formation_id@,
                *observation,
                nonce@,
                issued_at,
                minted,
            ));
    }
    let dpc = match &minted {
        Err(e) => {
            return Err(
                problem(
                    ProblemKind::Forbidden,
                    "the delegated-principal credential is not mintable",
                    e.as_str(),
                ),
            );
        },
        Ok(m) => &m.credential,
    };
    record(ledger, realm, seam.binding.binding_ref.as_str(), dpc)?;
    Ok(ready)
}

/// Takes the fact that byom answered a terminalization with. `resolve` answers
/// the row that a fact authorizes in a state, if any.
pub fn endeavor_promotion_terminalized<
    G: Fn(&str, &Json) -> Keyed + Copy,
    W: FnOnce(IntentState, &Fact) -> Option<Step>,
>(
    form: &mut Formation,
    journal: &mut Journal,
    realm: &str,
    formation_id: &str,
    resolve: W,
    fact: Fact,
    slot_state: &str,
    stamp: &Stamp<G>,
) -> (r: Result<(), Problem>)
    requires
        keys_all(stamp.keyed),
        old(form).wf(),
        forall|s: IntentState, f: &Fact| #[trigger] resolve.requires((s, f)),
        pairs_room(*old(form), 2),
    ensures
        final(form).wf(),
        fact_resolved(
            *old(form),
            *final(form),
            old(journal)@,
            final(journal)@,
            realm@,
            formation_id@,
            resolve,
            fact,
            slot_state@,
            *stamp,
            r,
        ),
{
    take_fact(
        form,
        journal,
        realm,
        formation_id,
        resolve,
        fact,
        slot_state,
        stamp,
    )
}

pub open spec fn no_token_view() -> ProblemView {
    refusal_with(
        ProblemKind::Unavailable,
        "no byom recovery-workload token is available"@,
        "external_command_result_query rides the narrow recovery workload byomd publishes for the installed binding; point $KOVEE_BYOM_CHANNELS_DIR at the endpoint's channel directory (or set $KOVEE_BYOM_RECOVERY_TOKEN)"@,
    )
}

/// The recovery token, without which byom is not asked.
pub fn recovery_token_required(token: Option<String>) -> (r: Result<String, Problem>)
    ensures
        match token {
            Some(t) => r == Ok::<String, Problem>(t),
            None => r is Err && r->Err_0@ == no_token_view(),
        },
{
    match token {
        Some(t) => Ok(t),
        None => Err(
            problem(
                ProblemKind::Unavailable,
                "no byom recovery-workload token is available",
                "external_command_result_query rides the narrow recovery workload byomd publishes for the installed binding; point $KOVEE_BYOM_CHANNELS_DIR at the endpoint's channel directory (or set $KOVEE_BYOM_RECOVERY_TOKEN)",
            ),
        ),
    }
}

/// The binding that a reconciliation authenticates through.
pub fn current_pin<'a>(gov: &'a Governance, realm: &str) -> (r: Result<&'a RealmBinding, Problem>)
    requires
        gov.wf(),
    ensures
        match seam_of(*gov, realm@) {
            Some((binding, _)) => r is Ok && *r->Ok_0 == binding,
            None => r is Err && r->Err_0@ == no_binding_view(
                "reconciliation authenticates through the CURRENT recovery binding"@,
            ),
        },
{
    match active_seam(gov, realm) {
        None => Err(
            problem(
                ProblemKind::Forbidden,
                "this realm has no active governed-work binding",
                "reconciliation authenticates through the CURRENT recovery binding",
            ),
        ),
        Some(s) => Ok(s.binding),
    }
}

/// What a recovery answer comes to: an endpoint that does not answer leaves the
/// fact unknown, which is a fact of the machine. `unusable` titles an answer
/// that states no fact; its reason is the answer's error.
pub open spec fn fact_taken(
    answer: Asked<Result<Fact, String>>,
    unusable: Seq<char>,
    r: Result<Fact, Problem>,
) -> bool {
    match answer {
        Asked::Answer(Ok(f)) => r == Ok::<Fact, Problem>(f),
        Asked::Answer(Err(e)) => r is Err && r->Err_0@ == refusal_with(
            ProblemKind::Unavailable,
            unusable,
            e@,
        ),
        Asked::Silent(_) => r == Ok::<Fact, Problem>(Fact::Unknown),
        Asked::Refused(_, p) => r == Err::<Fact, Problem>(p),
    }
}

/// Takes byom's answer to a recovery question.
pub fn fact_answered(answer: Asked<Result<Fact, String>>, unusable: &str) -> (r: Result<
    Fact,
    Problem,
>)
    ensures
        fact_taken(answer, unusable@, r),
{
    match answer {
        Asked::Answer(Ok(f)) => Ok(f),
        Asked::Answer(Err(e)) => Err(problem(ProblemKind::Unavailable, unusable, e.as_str())),
        Asked::Silent(_) => Ok(Fact::Unknown),
        Asked::Refused(_, p) => Err(p),
    }
}

/// What asking byom about a command comes to.
pub open spec fn queried<F: FnOnce(&str, &Json) -> Asked<Result<Fact, String>>>(
    version: JsonView,
    intent: Intent,
    pin: BindingPin,
    incarnation: Seq<char>,
    token: Option<String>,
    call: F,
    r: Result<Fact, Problem>,
) -> bool {
    match token {
        None => r is Err && r->Err_0@ == no_token_view(),
        Some(given) => exists|t: &str, doc: &Json, answer: Asked<Result<Fact, String>>|
            {
                &&& t@ == given@
                &&& doc@ == result_query_document(version, intent, pin, incarnation)
                &&& #[trigger] call.ensures((t, doc), answer)
                &&& fact_taken(
                    answer,
                    "the byom endpoint answered with an unusable recovery fact"@,
                    r,
                )
            },
    }
}

/// Asks byom what became of a command, on the recovery workload's own channel.
/// Without its token nothing is asked; the question submits nothing.
pub fn query_fact<F: FnOnce(&str, &Json) -> Asked<Result<Fact, String>>>(
    version: &Json,
    intent: &Intent,
    pin: &BindingPin,
    incarnation: &str,
    token: Option<String>,
    call: F,
) -> (r: Result<Fact, Problem>)
    requires
        forall|t: &str, doc: &Json| #[trigger] call.requires((t, doc)),
    ensures
        queried(version@, *intent, *pin, incarnation@, token, call, r),
{
    let given = recovery_token_required(token)?;
    let t = given.as_str();
    let doc = result_query_request(version, intent, pin, incarnation);
    let answer = call(t, &doc);
    proof {
        assert(call.ensures((t, &doc), answer));
    }
    fact_answered(answer, "the byom endpoint answered with an unusable recovery fact")
}

/// What reconciling a formation does and answers: a terminal pair is left as it
/// is, and otherwise its endpoint is asked who it is now and, through the current
/// binding, what became of the command; the fact takes the one row that it
/// authorizes.
pub open spec fn reconciled<
    G: Fn(&str, &Json) -> Keyed + Copy,
    H: FnOnce(&str) -> Result<String, Problem>,
    B: Fn(&RealmBinding) -> BindingPin,
    T: FnOnce(&str) -> Option<String>,
    F: FnOnce(&str, &Json) -> Asked<Result<Fact, String>>,
    W: FnOnce(IntentState, &Fact) -> Option<Step>,
>(
    before: Formation,
    after: Formation,
    journal: JournalView,
    after_journal: JournalView,
    gov: Governance,
    realm: Seq<char>,
    formation_id: Seq<char>,
    version: JsonView,
    hello: H,
    pin: B,
    token: T,
    call: F,
    resolve: W,
    slot_state: Seq<char>,
    stamp: Stamp<G>,
    r: Result<(), Problem>,
) -> bool {
    let unchanged = after == before && after_journal == journal;
    match intent_of(before, realm, formation_id) {
        None => r is Err && r->Err_0@ == not_found_view() && unchanged,
        Some(t) => if t.state.terminal() {
            r is Ok && unchanged
        } else {
            exists|e: &str, said: Result<String, Problem>|
                {
                    &&& e@ == t.command.byom_endpoint_ref@
                    &&& #[trigger] hello.ensures((e,), said)
                    &&& match said {
                        Err(p) => r == Err::<(), Problem>(p) && unchanged,
                        Ok(incarnation) => match seam_of(gov, realm) {
                            None => r is Err && r->Err_0@ == no_binding_view(
                                "reconciliation authenticates through the CURRENT recovery binding"@,
                            ) && unchanged,
                            Some((binding, _)) => exists|now: BindingPin, fact: Result<Fact, Problem>|
                                {
                                    &&& pin.ensures((&binding,), now)
                                    &&& #[trigger] fact_asked(
                                        version,
                                        t,
                                        now,
                                        incarnation@,
                                        token,
                                        call,
                                        fact,
                                    )
                                    &&& match fact {
                                        Err(p) => r == Err::<(), Problem>(p) && unchanged,
                                        Ok(f) => fact_resolved(
                                            before,
                                            after,
                                            journal,
                                            after_journal,
                                            realm,
                                            formation_id,
                                            resolve,
                                            f,
                                            slot_state,
                                            stamp,
                                            r,
                                        ),
                                    }
                                },
                        },
                    }
                }
        },
    }
}

/// Whether byom is asked about a command with the token of the binding that it
/// is asked through.
pub open spec fn fact_asked<
    T: FnOnce(&str) -> Option<String>,
    F: FnOnce(&str, &Json) -> Asked<Result<Fact, String>>,
>(
    version: JsonView,
    intent: Intent,
    pin: BindingPin,
    incarnation: Seq<char>,
    token: T,
    call: F,
    r: Result<Fact, Problem>,
) -> bool {
    exists|b: &str, given: Option<String>|
        {
            &&& b@ == pin.binding_ref@
            &&& #[trigger] token.ensures((b,), given)
            &&& queried(version, intent, pin, incarnation, given, call, r)
        }
}

/// Reconciles a formation whose outcome is open: byom is asked, and its own fact
/// decides. `pin` is how a binding is pinned, `token` the recovery token for a
/// binding, and `resolve` answers the row that a fact authorizes in a state, if
/// any.
pub fn endeavor_promotion_reconcile<
    G: Fn(&str, &Json) -> Keyed + Copy,
    H: FnOnce(&str) -> Result<String, Problem>,
    B: Fn(&RealmBinding) -> BindingPin,
    T: FnOnce(&str) -> Option<String>,
    F: FnOnce(&str, &Json) -> Asked<Result<Fact, String>>,
    W: FnOnce(IntentState, &Fact) -> Option<Step>,
>(
    form: &mut Formation,
    journal: &mut Journal,
    gov: &Governance,
    realm: &str,
    formation_id: &str,
    version: &Json,
    hello: H,
    pin: B,
    token: T,
    call: F,
    resolve: W,
    slot_state: &str,
    stamp: &Stamp<G>,
) -> (r: Result<(), Problem>)
    requires
        keys_all(stamp.keyed),
        old(form).wf(),
        gov.wf(),
        forall|e: &str| #[trigger] hello.requires((e,)),
        forall|b: &RealmBinding| #[trigger] pin.requires((b,)),
        forall|b: &str| #[trigger] token.requires((b,)),
        forall|t: &str, doc: &Json| #[trigger] call.requires((t, doc)),
        forall|s: IntentState, f: &Fact| #[trigger] resolve.requires((s, f)),
        pairs_room(*old(form), 2),
    ensures
        final(form).wf(),
        reconciled(
            *old(form),
            *final(form),
            old(journal)@,
            final(journal)@,
            *gov,
            realm@,
            formation_id@,
            version@,
            hello,
            pin,
            token,
            call,
            resolve,
            slot_state@,
            *stamp,
            r,
        ),
{
    let i = match read_intent(form, realm, formation_id) {
        None => {
            return Err(not_found());
        },
        Some(i) => i,
    };
    if form.intents.rows[i].state.is_terminal() {
        return Ok(());
    }
    let endpoint = form.intents.rows[i].command.byom_endpoint_ref.as_str();
    let said = hello(endpoint);
    proof {
        assert(hello.ensures((endpoint,), said));
    }
    let incarnation = match said {
        Err(p) => {
            return Err(p);
        },
        Ok(n) => n,
    };
    let binding = match current_pin(gov, realm) {
        Err(p) => {
            return Err(p);
        },
        Ok(b) => b,
    };
    let now = pin(binding);
    proof {
        assert(pin.ensures((binding,), now));
    }
    let wanted = now.binding_ref.as_str();
    let given = token(wanted);
    let ghost the_given = given;
    proof {
        assert(token.ensures((wanted,), given));
    }
    let fact = query_fact(
        version,
        &form.intents.rows[i],
        &now,
        incarnation.as_str(),
        given,
        call,
    );
    proof {
        assert(queried(
            version@,
            form.intents.rows@[i as int],
            now,
            incarnation@,
            the_given,
            call,
            fact,
        ));
        assert(fact_asked(
            version@,
            form.intents.rows@[i as int],
            now,
            incarnation@,
            token,
            call,
            fact,
        ));
    }
    match fact {
        Err(p) => Err(p),
        Ok(f) => take_fact(form, journal, realm, formation_id, resolve, f, slot_state, stamp),
    }
}

/// Whether `shown` is the proof of a command under a nonce, a pin and an actor.
pub open spec fn proved<V: Fn(&str, &str, &str, &str, &str) -> Json>(
    prove: V,
    t: Intent,
    nonce: Seq<char>,
    pin: Seq<char>,
    actor: Seq<char>,
    shown: JsonView,
) -> bool {
    exists|c: &str, d: &str, n: &str, p: &str, a: &str, out: Json|
        {
            &&& c@ == t.canonical_byom_command_digest@
            &&& d@ == t.command.idempotency_domain_digest@
            &&& n@ == nonce
            &&& p@ == pin
            &&& a@ == actor
            &&& out@ == shown
            &&& #[trigger] prove.ensures((c, d, n, p, a), out)
        }
}

fn proof_of<V: Fn(&str, &str, &str, &str, &str) -> Json>(
    prove: V,
    t: &Intent,
    nonce: &str,
    pin: &str,
    actor: &str,
) -> (r: Json)
    requires
        forall|c: &str, d: &str, n: &str, p: &str, a: &str|
            #[trigger] prove.requires((c, d, n, p, a)),
    ensures
        proved(prove, *t, nonce@, pin@, actor@, r@),
{
    let c = t.canonical_byom_command_digest.as_str();
    let d = t.command.idempotency_domain_digest.as_str();
    let shown = prove(c, d, nonce, pin, actor);
    proof {
        assert(prove.ensures((c, d, nonce, pin, actor), shown));
    }
    shown
}

/// What ending an attempt does and answers.
pub open spec fn ending_outcome<
    V: Fn(&str, &str, &str, &str, &str) -> Json,
    F: FnOnce(&Json) -> Asked<Result<Fact, String>>,
>(
    version: Json,
    intent: Intent,
    pin: BindingPin,
    credential: FreshCredential,
    reason: Seq<char>,
    prove: V,
    call: F,
    r: Result<Fact, Problem>,
) -> bool {
    &&& exists|shown: JsonView, answer: Asked<Result<Fact, String>>|
        {
            &&& proved(
                prove,
                intent,
                credential.nonce@,
                pin.digest@,
                credential.source_actor_binding_digest@,
                shown,
            )
            &&& #[trigger] asked(
                call,
                terminalize_document(
                    version@,
                    intent,
                    pin,
                    credential,
                    reason,
                    shown,
                ),
                answer,
            )
            &&& fact_taken(
                answer,
                "the byom endpoint answered with an unusable terminalization"@,
                r,
            )
        }
}

/// Asks byom to deny a command's future execution, as the same source human
/// under a fresh credential, over the exact original domain and command.
pub fn terminalize<
    V: Fn(&str, &str, &str, &str, &str) -> Json,
    F: FnOnce(&Json) -> Asked<Result<Fact, String>>,
>(
    version: &Json,
    intent: &Intent,
    pin: &BindingPin,
    credential: &FreshCredential,
    reason: &str,
    prove: V,
    call: F,
) -> (r: Result<Fact, Problem>)
    requires
        forall|c: &str, d: &str, n: &str, p: &str, a: &str|
            #[trigger] prove.requires((c, d, n, p, a)),
        forall|doc: &Json| #[trigger] call.requires((doc,)),
    ensures
        ending_outcome(
            *version,
            *intent,
            *pin,
            *credential,
            reason@,
            prove,
            call,
            r,
        ),
{
    let shown = proof_of(
        prove,
        intent,
        credential.nonce.as_str(),
        pin.digest.as_str(),
        credential.source_actor_binding_digest.as_str(),
    );
    let doc = terminalize_request(version, intent, pin, credential, reason, &shown);
    let answer = call(&doc);
    proof {
        assert(call.ensures((&doc,), answer));
        assert(asked(
            call,
            terminalize_document(version@, *intent, *pin, *credential, reason@, shown@),
            answer,
        ));
    }
    fact_answered(answer, "the byom endpoint answered with an unusable terminalization")
}

/// How a send failed at byom's end.
#[derive(Debug)]
pub enum SendError {
    /// Byom's own problem: the tombstone it names, if any, with its digest's
    /// text (`null` where it has none), and the problem it is passed on as.
    Problem { tombstone_ref: Option<String>, tombstone_digest: String, passed_on: Problem },
    /// Another definite answer.
    Definite(Problem),
    /// No definite answer.
    Silent(Problem),
}

/// What a failed send means: a named tombstone is one, any other definite
/// answer is a refusal, and everything else is unknown.
pub open spec fn failure_of(e: SendError) -> SendFailure {
    match e {
        SendError::Problem { tombstone_ref, tombstone_digest, passed_on } => match tombstone_ref {
            Some(t) => SendFailure::Tombstone { reference: t, digest: tombstone_digest },
            None => SendFailure::Refused(passed_on),
        },
        SendError::Definite(p) => SendFailure::Refused(p),
        SendError::Silent(p) => SendFailure::Unknown(p),
    }
}

/// Decides [`failure_of`].
pub fn classify_failure(e: SendError) -> (r: SendFailure)
    ensures
        r == failure_of(e),
{
    match e {
        SendError::Problem { tombstone_ref, tombstone_digest, passed_on } => match tombstone_ref {
            Some(reference) => SendFailure::Tombstone { reference, digest: tombstone_digest },
            None => SendFailure::Refused(passed_on),
        },
        SendError::Definite(p) => SendFailure::Refused(p),
        SendError::Silent(p) => SendFailure::Unknown(p),
    }
}

/// Whether an endpoint answers a request so.
pub open spec fn called<T, F: FnOnce(&str, &Json) -> Result<T, SendError>>(
    call: F,
    endpoint: Seq<char>,
    doc: JsonView,
    answer: Result<T, SendError>,
) -> bool {
    exists|e: &str, d: &Json|
        e@ == endpoint && d@ == doc && #[trigger] call.ensures((e, d), answer)
}

/// What sending an attempt comes to: its endpoint is called once, with the
/// stable command and this attempt's own fresh authentication.
pub open spec fn submitted<
    T,
    V: Fn(&str, &str, &str, &str, &str) -> Json,
    F: FnOnce(&str, &Json) -> Result<T, SendError>,
>(
    version: JsonView,
    intent: Intent,
    attempt: FormationAttempt,
    actor_binding_digest: Seq<char>,
    prove: V,
    call: F,
    r: Result<T, SendFailure>,
) -> bool {
    exists|shown: JsonView, answer: Result<T, SendError>|
        {
            &&& proved(
                prove,
                intent,
                attempt.attempt_nonce@,
                attempt.recovery_binding.digest@,
                actor_binding_digest,
                shown,
            )
            &&& #[trigger] called(
                call,
                intent.command.byom_endpoint_ref@,
                form_document(version, intent, attempt, shown),
                answer,
            )
            &&& match answer {
                Ok(v) => r == Ok::<T, SendFailure>(v),
                Err(e) => r == Err::<T, SendFailure>(failure_of(e)),
            }
        }
}

/// Sends an attempt, once: the stable command with this attempt's own fresh
/// authentication.
pub fn submit<
    T,
    V: Fn(&str, &str, &str, &str, &str) -> Json,
    F: FnOnce(&str, &Json) -> Result<T, SendError>,
>(
    version: &Json,
    intent: &Intent,
    attempt: &FormationAttempt,
    actor_binding_digest: &str,
    prove: V,
    call: F,
) -> (r: Result<T, SendFailure>)
    requires
        forall|c: &str, d: &str, n: &str, p: &str, a: &str|
            #[trigger] prove.requires((c, d, n, p, a)),
        forall|e: &str, doc: &Json| #[trigger] call.requires((e, doc)),
    ensures
        submitted(version@, *intent, *attempt, actor_binding_digest@, prove, call, r),
{
    let shown = proof_of(
        prove,
        intent,
        attempt.attempt_nonce.as_str(),
        attempt.recovery_binding.digest.as_str(),
        actor_binding_digest,
    );
    let doc = form_request(version, intent, attempt, &shown);
    let endpoint = intent.command.byom_endpoint_ref.as_str();
    let answer = call(endpoint, &doc);
    proof {
        assert(call.ensures((endpoint, &doc), answer));
        assert(called(
            call,
            intent.command.byom_endpoint_ref@,
            form_document(version@, *intent, *attempt, shown@),
            answer,
        ));
    }
    match answer {
        Ok(v) => Ok(v),
        Err(e) => Err(classify_failure(e)),
    }
}

// ------------------------------------------------- the whole of a start ----

/// What sending and taking what came back does and answers. The recorded state
/// decides: a pair that moved meanwhile is only reported, and without an
/// attempt on record and its credential nothing is sent.
pub open spec fn sending_outcome<
    G: Fn(&str, &Json) -> Keyed + Copy,
    V: Fn(&str, &str, &str, &str, &str) -> Json + Copy,
    F: FnOnce(&str, &Json) -> Result<Option<ResultEnvelope>, SendError>,
    W: FnOnce(IntentState, &Fact) -> Option<Step>,
>(
    before: Formation,
    after: Formation,
    ledger: Ledger,
    after_ledger: Ledger,
    journal: JournalView,
    after_journal: JournalView,
    realm: Seq<char>,
    formation_id: Seq<char>,
    version: JsonView,
    prove: V,
    call: F,
    issuer: Seq<char>,
    resolve: W,
    now: i64,
    slot_state: Seq<char>,
    stamp: Stamp<G>,
    r: Result<StartAction, Problem>,
) -> bool {
    exists|sent: Result<Option<ResultEnvelope>, SendFailure>|
        {
            &&& #[trigger] sent_outcome(
                before,
                after,
                ledger,
                after_ledger,
                journal,
                after_journal,
                realm,
                formation_id,
                sent,
                issuer,
                resolve,
                now,
                slot_state,
                stamp,
                r,
            )
            &&& match intent_of(before, realm, formation_id) {
                None => true,
                Some(t) => t.state is Submitting && attempt_stands(before, ledger, t, issuer)
                    ==> submitted(
                    version,
                    t,
                    before.attempts@[key1(t.latest_attempt_ref->0@)],
                    t.command.source_actor_binding_digest@,
                    prove,
                    call,
                    sent,
                ),
            }
        }
}

fn send_promotion<
    G: Fn(&str, &Json) -> Keyed + Copy,
    V: Fn(&str, &str, &str, &str, &str) -> Json + Copy,
    F: FnOnce(&str, &Json) -> Result<Option<ResultEnvelope>, SendError>,
    W: FnOnce(IntentState, &Fact) -> Option<Step>,
>(
    form: &mut Formation,
    ledger: &mut Ledger,
    journal: &mut Journal,
    realm: &str,
    formation_id: &str,
    version: &Json,
    prove: V,
    call: F,
    issuer_ref: &str,
    resolve: W,
    now: i64,
    slot_state: &str,
    stamp: &Stamp<G>,
) -> (r: Result<StartAction, Problem>)
    requires
        keys_all(stamp.keyed),
        old(form).wf(),
        old(ledger).wf(),
        forall|c: &str, d: &str, n: &str, p: &str, a: &str|
            #[trigger] prove.requires((c, d, n, p, a)),
        forall|e: &str, doc: &Json| #[trigger] call.requires((e, doc)),
        forall|s: IntentState, f: &Fact| #[trigger] resolve.requires((s, f)),
        pairs_room(*old(form), 2),
    ensures
        final(form).wf(),
        final(ledger).wf(),
        sending_outcome(
            *old(form),
            *final(form),
            *old(ledger),
            *final(ledger),
            old(journal)@,
            final(journal)@,
            realm@,
            formation_id@,
            version@,
            prove,
            call,
            issuer_ref@,
            resolve,
            now,
            slot_state@,
            *stamp,
            r,
        ),
{
    proof {
        reveal_strlit("");
        crate::text::empty_is(""@);
    }
    let mut sent: Result<Option<ResultEnvelope>, SendFailure> = Ok(None);
    if let Some(i) = read_intent(form, realm, formation_id) {
        let t = &form.intents.rows[i];
        if t.state == IntentState::Submitting {
            if let Some(a) = &t.latest_attempt_ref {
                if let Some(attempt) = form.attempts.find(a.as_str(), "") {
                    if ledger.position(issuer_ref, attempt.attempt_nonce.as_str()).is_some() {
                        let actor = t.command.source_actor_binding_digest.as_str();
                        sent = submit(version, t, attempt, actor, prove, call);
                    }
                }
            }
        }
    }
    endeavor_promotion_sent(
        form,
        ledger,
        journal,
        realm,
        formation_id,
        sent,
        issuer_ref,
        resolve,
        now,
        slot_state,
        stamp,
    )
}

/// The last ordinal is one of an attempt's, or zero.
proof fn last_ordinal_below(
    attempts: Seq<FormationAttempt>,
    formation: Seq<char>,
    n: int,
    bound: int,
)
    requires
        0 <= n <= attempts.len(),
        0 < bound,
        forall|i: int|
            0 <= i < attempts.len() ==> (#[trigger] attempts[i]).attempt_ordinal < bound,
    ensures
        last_ordinal(attempts, formation, n) < bound,
    decreases n,
{
    if n > 0 {
        last_ordinal_below(attempts, formation, n - 1, bound);
        assert(attempts[n - 1].attempt_ordinal < bound);
    }
}

/// What the whole start command does and answers: an attempt is opened before
/// anything leaves, its command is sent once, and what came back is taken.
pub open spec fn promotion_started<
    G: Fn(&str, &Json) -> Keyed + Copy,
    B: Fn(&RealmBinding) -> BindingPin + Copy,
    K: Fn(&CredentialAsk, &RealmBinding) -> Result<Minted, String> + Copy,
    V: Fn(&str, &str, &str, &str, &str) -> Json + Copy,
    F: FnOnce(&str, &Json) -> Result<Option<ResultEnvelope>, SendError>,
    W: FnOnce(IntentState, &Fact) -> Option<Step>,
>(
    before: Formation,
    after: Formation,
    ledger: Ledger,
    after_ledger: Ledger,
    journal: JournalView,
    after_journal: JournalView,
    gov: Governance,
    realm: Seq<char>,
    formation_id: Seq<char>,
    observation: Seq<char>,
    slot_state: Seq<char>,
    mint: AttemptMint,
    fresh: Fresh<B, K, V>,
    version: JsonView,
    call: F,
    issuer: Seq<char>,
    resolve: W,
    now: i64,
    stamp: Stamp<G>,
    later: Stamp<G>,
    r: Result<StartAction, Problem>,
) -> bool {
    exists|
        mid: Formation,
        mid_ledger: Ledger,
        mid_journal: JournalView,
        first: Result<StartAction, Problem>,
    |
        {
            &&& #[trigger] start_outcome(
                before,
                mid,
                ledger,
                mid_ledger,
                journal,
                mid_journal,
                gov,
                realm,
                formation_id,
                observation,
                slot_state,
                mint,
                fresh,
                stamp,
                first,
            )
            &&& if first matches Ok(StartAction::Submit { .. }) {
                sending_outcome(
                    mid,
                    after,
                    mid_ledger,
                    after_ledger,
                    mid_journal,
                    after_journal,
                    realm,
                    formation_id,
                    version,
                    fresh.prove,
                    call,
                    issuer,
                    resolve,
                    now,
                    slot_state,
                    later,
                    r,
                )
            } else {
                &&& r == first
                &&& after == mid
                &&& after_ledger == mid_ledger
                &&& after_journal == mid_journal
            }
        }
}

/// Opening an attempt takes the room of one step.
proof fn room_after_open<
    G: Fn(&str, &Json) -> Keyed + Copy,
    B: Fn(&RealmBinding) -> BindingPin + Copy,
    K: Fn(&CredentialAsk, &RealmBinding) -> Result<Minted, String> + Copy,
    V: Fn(&str, &str, &str, &str, &str) -> Json + Copy,
>(
    before: Formation,
    after: Formation,
    ledger: Ledger,
    after_ledger: Ledger,
    journal: JournalView,
    after_journal: JournalView,
    gov: Governance,
    realm: Seq<char>,
    pin: Pinned,
    observation: Seq<char>,
    slot_state: Seq<char>,
    mint: AttemptMint,
    fresh: Fresh<B, K, V>,
    stamp: Stamp<G>,
    opened: Result<u64, Problem>,
    n: int,
)
    requires
        before.wf(),
        after.wf(),
        0 <= n,
        n + 1 < u64::MAX,
        pairs_room(before, n + 1),
        opened is Ok,
        open_outcome(
            before,
            after,
            ledger,
            after_ledger,
            journal,
            after_journal,
            gov,
            realm,
            pin,
            observation,
            slot_state,
            mint,
            fresh,
            stamp,
            opened,
        ),
    ensures
        pairs_room(after, n),
{
    let (now, minted) = choose|now: BindingPin, minted: Result<Minted, String>|
        {
            &&& #[trigger] fresh_made(
                fresh,
                stamp.keyed,
                before,
                seam_of(gov, realm),
                realm,
                pin.formation_id@,
                observation,
                mint,
                now,
                minted,
            )
            &&& opened_under(
                before,
                after,
                ledger,
                after_ledger,
                journal,
                after_journal,
                gov,
                realm,
                pin,
                observation,
                slot_state,
                mint,
                now,
                minted,
                fresh.prove,
                stamp,
                opened,
            )
        };
    let (step, extra) = choose|step: Step, extra: Extra| #[trigger]
        pair_moved(before, after, pin.formation_id@, step, extra, stamp);
    assert(cas_holds(before, pin));
    pair_room_after(before, after, pin.formation_id@, step, extra, stamp, n);
    last_ordinal_below(
        before.attempts.rows@,
        pin.formation_id@,
        before.attempts.rows@.len() as int,
        u64::MAX - (n + 1),
    );
    assert forall|i: int| 0 <= i < after.attempts.rows@.len() implies (
    #[trigger] after.attempts.rows@[i]).attempt_ordinal < u64::MAX - n by {
        if i < before.attempts.rows@.len() {
            assert(after.attempts.rows@[i] == before.attempts.rows@[i]);
        }
    }
}

/// Starts a formation: what is over is reported, a durable result is linked,
/// and otherwise an attempt is opened, sent once to its endpoint, and what came
/// back is taken. Nothing leaves before the attempt is on record.
pub fn endeavor_promotion_start<
    G: Fn(&str, &Json) -> Keyed + Copy,
    B: Fn(&RealmBinding) -> BindingPin + Copy,
    K: Fn(&CredentialAsk, &RealmBinding) -> Result<Minted, String> + Copy,
    V: Fn(&str, &str, &str, &str, &str) -> Json + Copy,
    F: FnOnce(&str, &Json) -> Result<Option<ResultEnvelope>, SendError>,
    W: FnOnce(IntentState, &Fact) -> Option<Step>,
>(
    form: &mut Formation,
    ledger: &mut Ledger,
    journal: &mut Journal,
    gov: &Governance,
    realm: &str,
    formation_id: &str,
    observation: &str,
    slot_state: &str,
    mint: &AttemptMint,
    fresh: Fresh<B, K, V>,
    version: &Json,
    call: F,
    issuer_ref: &str,
    resolve: W,
    now: i64,
    stamp: &Stamp<G>,
    later: &Stamp<G>,
) -> (r: Result<StartAction, Problem>)
    requires
        keys_all(stamp.keyed),
        keys_all(later.keyed),
        fresh_all(fresh),
        old(form).wf(),
        old(ledger).wf(),
        gov.wf(),
        forall|e: &str, doc: &Json| #[trigger] call.requires((e, doc)),
        forall|s: IntentState, f: &Fact| #[trigger] resolve.requires((s, f)),
        pairs_room(*old(form), 3),
    ensures
        final(form).wf(),
        final(ledger).wf(),
        promotion_started(
            *old(form),
            *final(form),
            *old(ledger),
            *final(ledger),
            old(journal)@,
            final(journal)@,
            *gov,
            realm@,
            formation_id@,
            observation@,
            slot_state@,
            *mint,
            fresh,
            version@,
            call,
            issuer_ref@,
            resolve,
            now,
            *stamp,
            *later,
            r,
        ),
{
    let first = start_promotion(
        form,
        ledger,
        journal,
        gov,
        realm,
        formation_id,
        observation,
        slot_state,
        mint,
        fresh,
        stamp,
    );
    let ghost mid = *form;
    let ghost mid_ledger = *ledger;
    let ghost mid_journal = journal@;
    proof {
        assert(start_outcome(
            *old(form),
            mid,
            *old(ledger),
            mid_ledger,
            old(journal)@,
            mid_journal,
            *gov,
            realm@,
            formation_id@,
            observation@,
            slot_state@,
            *mint,
            fresh,
            *stamp,
            first,
        ));
    }
    let due = match &first {
        Ok(StartAction::Submit { .. }) => true,
        _ => false,
    };
    if !due {
        return first;
    }
    proof {
        let t = intent_of(*old(form), realm@, formation_id@)->0;
        let (pin, opened) = choose|pin: Pinned, opened: Result<u64, Problem>|
            {
                &&& pins(pin, t)
                &&& #[trigger] open_outcome(
                    *old(form),
                    mid,
                    *old(ledger),
                    mid_ledger,
                    old(journal)@,
                    mid_journal,
                    *gov,
                    realm@,
                    pin,
                    observation@,
                    slot_state@,
                    *mint,
                    fresh,
                    *stamp,
                    opened,
                )
                &&& match opened {
                    Ok(_) => first matches Ok(StartAction::Submit { attempt_id }) && attempt_id@
                        == mint.attempt_id@,
                    Err(p) => first == Err::<StartAction, Problem>(p),
                }
            };
        room_after_open(
            *old(form),
            mid,
            *old(ledger),
            mid_ledger,
            old(journal)@,
            mid_journal,
            *gov,
            realm@,
            pin,
            observation@,
            slot_state@,
            *mint,
            fresh,
            *stamp,
            opened,
            2,
        );
    }
    send_promotion(
        form,
        ledger,
        journal,
        realm,
        formation_id,
        version,
        fresh.prove,
        call,
        issuer_ref,
        resolve,
        now,
        slot_state,
        later,
    )
}

/// The recovery token to present: the configured one, where it is not blank,
/// else the published one, where that is not blank. Both are taken trimmed.
pub fn recovery_workload_token(configured: &Option<String>, published: &Option<String>) -> (r: Option<
    String,
>)
    ensures
        opt_view(r) == (if *configured is Some && trimmed((*configured)->0@).len() > 0 {
            Some(trimmed((*configured)->0@))
        } else if *published is Some && trimmed((*published)->0@).len() > 0 {
            Some(trimmed((*published)->0@))
        } else {
            None
        }),
{
    if let Some(c) = configured {
        let t = trim(c.as_str());
        if !t.as_str().is_empty() {
            return Some(t);
        }
    }
    if let Some(p) = published {
        let t = trim(p.as_str());
        if !t.as_str().is_empty() {
            return Some(t);
        }
    }
    None
}

// ------------------------------------------------------ reading it back ----

impl Listed for Intent {
    open spec fn precedes(&self, other: &Self) -> bool {
        by_two(self.created_at@, self.formation_id@, other.created_at@, other.formation_id@)
    }

    fn comes_before(&self, other: &Self) -> (r: bool) {
        comes_first(
            self.created_at.as_str(),
            self.formation_id.as_str(),
            other.created_at.as_str(),
            other.formation_id.as_str(),
        )
    }

    proof fn weak_order(a: &Self, b: &Self, c: &Self) {
        by_two_weak(
            a.created_at@,
            a.formation_id@,
            b.created_at@,
            b.formation_id@,
            c.created_at@,
            c.formation_id@,
        );
    }
}

impl Listed for FormationAttempt {
    open spec fn precedes(&self, other: &Self) -> bool {
        self.attempt_ordinal < other.attempt_ordinal
    }

    fn comes_before(&self, other: &Self) -> (r: bool) {
        self.attempt_ordinal < other.attempt_ordinal
    }

    proof fn weak_order(a: &Self, b: &Self, c: &Self) {
    }
}

/// The recorded state of one promotion: the intent, how its slot stands, its
/// attempts by ordinal and its link, each by position.
#[derive(Debug)]
pub struct PromotionView {
    pub intent: usize,
    pub slot_state: String,
    pub slot_generation: u64,
    pub attempts: Vec<usize>,
    pub link: Option<usize>,
}

/// How the slot of an intent is shown: one that is gone is a released one.
pub open spec fn slot_shown(form: Formation, t: Intent) -> (Seq<char>, u64) {
    let k = key1(t.formation_slot_ref@);
    if form.slots@.contains_key(k) {
        (form.slots@[k].state@, form.slots@[k].generation)
    } else {
        ("released"@, t.formation_slot_generation)
    }
}

/// Which attempts are a formation's.
pub open spec fn attempts_of(form: Formation, formation: Seq<char>) -> Seq<bool> {
    Seq::new(
        form.attempts.rows@.len(),
        |i: int| form.attempts.rows@[i].formation_id@ == formation,
    )
}

/// Whether a view shows what is recorded of an intent.
pub open spec fn shows(form: Formation, t: Intent, v: PromotionView) -> bool {
    &&& v.intent < form.intents.rows@.len()
    &&& form.intents.rows@[v.intent as int] == t
    &&& (v.slot_state@, v.slot_generation) == slot_shown(form, t)
    &&& ordered_listing(
        form.attempts.rows@,
        attempts_of(form, t.formation_id@),
        form.attempts.rows@.len() as int,
        v.attempts@,
    )
    &&& match v.link {
        Some(l) => l < form.links.rows@.len() && form.links.rows@[l as int].formation_id@
            == t.formation_id@,
        None => forall|l: int|
            0 <= l < form.links.rows@.len() ==> (#[trigger] form.links.rows@[l]).formation_id@
                != t.formation_id@,
    }
}

/// The recorded state of one promotion, never a guess.
pub fn promotion_view(form: &Formation, realm: &str, formation_id: &str) -> (r: Result<
    PromotionView,
    Problem,
>)
    requires
        form.wf(),
    ensures
        match intent_of(*form, realm@, formation_id@) {
            None => r is Err && r->Err_0@ == not_found_view(),
            Some(t) => r is Ok && shows(*form, t, r->Ok_0),
        },
{
    proof {
        reveal_strlit("");
        crate::text::empty_is(""@);
    }
    let i = match read_intent(form, realm, formation_id) {
        None => {
            return Err(not_found());
        },
        Some(i) => i,
    };
    let (slot_state, slot_generation) = match form.slots.find(
        form.intents.rows[i].formation_slot_ref.as_str(),
        "",
    ) {
        Some(s) => (s.state.clone(), s.generation),
        None => ("released".to_owned(), form.intents.rows[i].formation_slot_generation),
    };
    let mut keep: Vec<bool> = Vec::new();
    let mut k: usize = 0;
    while k < form.attempts.rows.len()
        invariant
            k <= form.attempts.rows.len(),
            keep.len() == k,
            forall|j: int|
                0 <= j < k ==> #[trigger] keep@[j] == (form.attempts.rows@[j].formation_id@
                    == formation_id@),
        decreases form.attempts.rows.len() - k,
    {
        keep.push(same(form.attempts.rows[k].formation_id.as_str(), formation_id));
        k = k + 1;
    }
    let attempts = order(&form.attempts.rows, &keep);
    proof {
        assert(keep@ =~= attempts_of(*form, formation_id@));
    }
    let mut l: usize = 0;
    while l < form.links.rows.len() && !same(form.links.rows[l].formation_id.as_str(), formation_id)
        invariant
            l <= form.links.rows.len(),
            forall|j: int|
                0 <= j < l ==> (#[trigger] form.links.rows@[j]).formation_id@ != formation_id@,
        decreases form.links.rows.len() - l,
    {
        l = l + 1;
    }
    let link = if l < form.links.rows.len() {
        Some(l)
    } else {
        None
    };
    Ok(PromotionView { intent: i, slot_state, slot_generation, attempts, link })
}

/// The promotions of a realm, by creation and then by identifier. The answer
/// holds positions.
pub fn all_intents(form: &Formation, realm: &str) -> (r: Vec<usize>)
    ensures
        ordered_listing(
            form.intents.rows@,
            Seq::new(
                form.intents.rows@.len(),
                |i: int| form.intents.rows@[i].realm_ref@ == realm@,
            ),
            form.intents.rows@.len() as int,
            r@,
        ),
{
    let mut keep: Vec<bool> = Vec::new();
    let mut k: usize = 0;
    while k < form.intents.rows.len()
        invariant
            k <= form.intents.rows.len(),
            keep.len() == k,
            forall|j: int|
                0 <= j < k ==> #[trigger] keep@[j] == (form.intents.rows@[j].realm_ref@ == realm@),
        decreases form.intents.rows.len() - k,
    {
        keep.push(same(form.intents.rows[k].realm_ref.as_str(), realm));
        k = k + 1;
    }
    let list = order(&form.intents.rows, &keep);
    proof {
        assert(keep@ =~= Seq::new(
            form.intents.rows@.len(),
            |i: int| form.intents.rows@[i].realm_ref@ == realm@,
        ));
    }
    list
}

/// Which intents are a realm's.
pub open spec fn intents_of(form: Formation, realm: Seq<char>) -> Seq<bool> {
    Seq::new(form.intents.rows@.len(), |i: int| form.intents.rows@[i].realm_ref@ == realm)
}

/// Whether the views show the listed intents, in order.
pub open spec fn all_shown(form: Formation, list: Seq<usize>, views: Seq<PromotionView>) -> bool {
    &&& views.len() == list.len()
    &&& forall|a: int|
        0 <= a < list.len() ==> shows(form, form.intents.rows@[list[a] as int], #[trigger] views[a])
}

/// What showing a promotion answers.
pub open spec fn promotion_show_outcome(
    form: Formation,
    realm: Seq<char>,
    formation_id: Option<String>,
    r: Result<Vec<PromotionView>, Problem>,
) -> bool {
    &&& match formation_id {
        Some(id) => match intent_of(form, realm, id@) {
            None => r is Err && r->Err_0@ == not_found_view(),
            Some(t) => r is Ok && r->Ok_0@.len() == 1 && shows(form, t, r->Ok_0@[0]),
        },
        None => r is Ok && exists|list: Seq<usize>|
            {
                &&& #[trigger] ordered_listing(
                    form.intents.rows@,
                    intents_of(form, realm),
                    form.intents.rows@.len() as int,
                    list,
                )
                &&& all_shown(form, list, r->Ok_0@)
            },
    }
}

/// The promotion that is asked for, or each promotion of the realm, by creation
/// and then by identifier.
pub fn endeavor_promotion_show(form: &Formation, realm: &str, formation_id: &Option<String>) -> (r:
    Result<Vec<PromotionView>, Problem>)
    requires
        form.wf(),
    ensures
        promotion_show_outcome(
            *form,
            realm@,
            *formation_id,
            r,
        ),
{
    let mut shown: Vec<PromotionView> = Vec::new();
    if let Some(id) = formation_id {
        shown.push(promotion_view(form, realm, id.as_str())?);
        return Ok(shown);
    }
    let list = all_intents(form, realm);
    proof {
        assert(intents_of(*form, realm@) =~= Seq::new(
            form.intents.rows@.len(),
            |i: int| form.intents.rows@[i].realm_ref@ == realm@,
        ));
    }
    let mut k: usize = 0;
    while k < list.len()
        invariant
            form.wf(),
            k <= list.len(),
            shown.len() == k,
            ordered_listing(
                form.intents.rows@,
                intents_of(*form, realm@),
                form.intents.rows@.len() as int,
                list@,
            ),
            forall|a: int|
                0 <= a < k ==> shows(
                    *form,
                    form.intents.rows@[list@[a] as int],
                    #[trigger] shown@[a],
                ),
        decreases list.len() - k,
    {
        let at: usize = list[k];
        proof {
            assert(intents_of(*form, realm@)[at as int]);
            crate::table::table_at(form.intents, at as int);
        }
        let view = promotion_view(form, realm, form.intents.rows[at].formation_id.as_str())?;
        shown.push(view);
        k = k + 1;
    }
    Ok(shown)
}

// ------------------------------------------------------------------ laws ----

/// The slot is released only by a step that releases it, into a terminal
/// state; any other step leaves it unreleased.
pub proof fn only_a_releasing_step_releases<G: Fn(&str, &Json) -> Keyed + Copy>(
    before: FormationSlot,
    after: FormationSlot,
    step: Step,
    stamp: Stamp<G>,
)
    requires
        moved_slot(before, after, step, stamp),
    ensures
        after.released_at is Some <==> step.releases_slot && step.to.terminal(),
{
}

/// A lost reply and a refusal never release the slot; only a tombstone does.
pub proof fn only_a_tombstone_ends_a_send(f: SendFailure, step: Step, slot_state: Seq<char>)
    requires
        failure_step(f, step, slot_state),
    ensures
        step.releases_slot <==> f is Tombstone,
        step.to.terminal() <==> f is Tombstone,
{
}

/// The stable command never changes: no step rewrites it, its digest or the
/// participant it was pinned for.
pub proof fn the_command_never_changes<G: Fn(&str, &Json) -> Keyed + Copy>(
    before: Formation,
    after: Formation,
    formation_id: Seq<char>,
    step: Step,
    extra: Extra,
    stamp: Stamp<G>,
)
    requires
        pair_moved(before, after, formation_id, step, extra, stamp),
    ensures
        ({
            let b = before.intents@[key1(formation_id)];
            let a = after.intents@[key1(formation_id)];
            &&& a.command == b.command
            &&& a.canonical_byom_command_digest == b.canonical_byom_command_digest
            &&& a.bound_participant_ref == b.bound_participant_ref
            &&& a.participant_binding_epoch == b.participant_binding_epoch
            &&& a.client_formation_key == b.client_formation_key
            &&& a.formation_slot_generation == b.formation_slot_generation
        }),
{
}

/// A step moves a pair once: with what it read it never matches again.
pub proof fn a_step_applies_once<G: Fn(&str, &Json) -> Keyed + Copy>(
    before: Formation,
    after: Formation,
    pin: Pinned,
    step: Step,
    extra: Extra,
    stamp: Stamp<G>,
)
    requires
        cas_holds(before, pin),
        pin.revision < u64::MAX,
        pair_moved(before, after, pin.formation_id@, step, extra, stamp),
    ensures
        !cas_holds(after, pin),
{
}

/// A terminal pair never sends again: a canceled one refuses every start, and
/// a linked one only reports.
pub proof fn terminal_never_sends(t: Intent, observation: Seq<char>)
    requires
        t.state.terminal(),
    ensures
        t.state is Canceled ==> start_refusal(t, observation) is Some,
        !t.state.submits(),
{
}

/// After a cancel, or a tombstone, the formation key can never form anything:
/// every later start is refused.
pub proof fn canceled_for_good<G: Fn(&str, &Json) -> Keyed + Copy>(
    before: Formation,
    after: Formation,
    formation_id: Seq<char>,
    step: Step,
    extra: Extra,
    stamp: Stamp<G>,
    observation: Seq<char>,
)
    requires
        pair_moved(before, after, formation_id, step, extra, stamp),
        step.to is Canceled,
    ensures
        start_refusal(after.intents@[key1(formation_id)], observation) is Some,
{
}

/// Attempts are numbered upwards: a new attempt lies above every attempt that
/// its formation had.
pub proof fn ordinals_grow<
    G: Fn(&str, &Json) -> Keyed,
    V: Fn(&str, &str, &str, &str, &str) -> Json,
>(
    form: Formation,
    a: FormationAttempt,
    formation: Seq<char>,
    observation: Seq<char>,
    mint: AttemptMint,
    now: BindingPin,
    minted: Minted,
    prove: V,
    keyed: G,
    i: int,
)
    requires
        opened_attempt(a, form, formation, observation, mint, now, minted, prove, keyed),
        0 <= i < form.attempts.rows@.len(),
        form.attempts.rows@[i].formation_id@ == formation,
    ensures
        form.attempts.rows@[i].attempt_ordinal < a.attempt_ordinal,
{
    last_ordinal_is_last(form.attempts.rows@, formation, form.attempts.rows@.len() as int, i);
}

/// Resolving an intent never rewrites an attempt's evidence.
pub proof fn attempt_evidence_stays(
    before: FormationAttempt,
    after: FormationAttempt,
    state: AttemptState,
    reply_digest: Option<Seq<char>>,
    at: Seq<char>,
)
    requires
        ended_attempt(before, after, state, reply_digest, at),
    ensures
        after.attempt_nonce == before.attempt_nonce,
        after.recovery_binding == before.recovery_binding,
        after.authentication_observation_ref == before.authentication_observation_ref,
        after.digest == before.digest,
        before.reply_digest is Some ==> opt_view(after.reply_digest) == opt_view(
            before.reply_digest,
        ),
        before.observed_at is Some ==> opt_view(after.observed_at) == opt_view(before.observed_at),
{
}

/// Durable before the send: where a start says that bytes may leave, the attempt
/// is on record as sent, its intent shows `submitting` and names it.
pub proof fn nothing_is_sent_before_it_is_recorded<
    G: Fn(&str, &Json) -> Keyed + Copy,
    B: Fn(&RealmBinding) -> BindingPin + Copy,
    K: Fn(&CredentialAsk, &RealmBinding) -> Result<Minted, String> + Copy,
    V: Fn(&str, &str, &str, &str, &str) -> Json + Copy,
>(
    before: Formation,
    after: Formation,
    ledger: Ledger,
    after_ledger: Ledger,
    journal: JournalView,
    after_journal: JournalView,
    gov: Governance,
    realm: Seq<char>,
    formation_id: Seq<char>,
    observation: Seq<char>,
    slot_state: Seq<char>,
    mint: AttemptMint,
    fresh: Fresh<B, K, V>,
    stamp: Stamp<G>,
    attempt_id: String,
)
    requires
        before.wf(),
        after.wf(),
        start_outcome(
            before,
            after,
            ledger,
            after_ledger,
            journal,
            after_journal,
            gov,
            realm,
            formation_id,
            observation,
            slot_state,
            mint,
            fresh,
            stamp,
            Ok(StartAction::Submit { attempt_id }),
        ),
    ensures
        after.attempts@.contains_key(key1(attempt_id@)),
        after.attempts@[key1(attempt_id@)].state is Sent,
        after.attempts@[key1(attempt_id@)].attempt_nonce@ == mint.nonce@,
        intent_of(after, realm, formation_id) is Some,
        intent_of(after, realm, formation_id)->0.state is Submitting,
        opt_view(intent_of(after, realm, formation_id)->0.latest_attempt_ref) == Some(attempt_id@),
{
    let t = intent_of(before, realm, formation_id)->0;
    let r: Result<StartAction, Problem> = Ok(StartAction::Submit { attempt_id });
    let (pin, opened) = choose|pin: Pinned, opened: Result<u64, Problem>|
        {
            &&& pins(pin, t)
            &&& #[trigger] open_outcome(
                before,
                after,
                ledger,
                after_ledger,
                journal,
                after_journal,
                gov,
                realm,
                pin,
                observation,
                slot_state,
                mint,
                fresh,
                stamp,
                opened,
            )
            &&& match opened {
                Ok(_) => r matches Ok(StartAction::Submit { attempt_id }) && attempt_id@
                    == mint.attempt_id@,
                Err(p) => r == Err::<StartAction, Problem>(p),
            }
        };
    let p = crate::table::table_row(before.intents, key1(formation_id));
    let n = after.attempts.rows@.len() - 1;
    crate::table::table_at(after.attempts, n);
}

/// A send that was not answered leaves the outcome open, and while it is open no
/// other start sends anything, whoever authenticates.
pub proof fn an_unanswered_send_stays_open<G: Fn(&str, &Json) -> Keyed + Copy>(
    before: Formation,
    after: Formation,
    journal: JournalView,
    after_journal: JournalView,
    pin: Pinned,
    attempt_ref: Seq<char>,
    p: Problem,
    slot_state: Seq<char>,
    stamp: Stamp<G>,
    r: Problem,
    observation: Seq<char>,
)
    requires
        cas_holds(before, pin),
        failure_outcome(
            before,
            after,
            journal,
            after_journal,
            pin,
            attempt_ref,
            SendFailure::Unknown(p),
            slot_state,
            stamp,
            r,
        ),
    ensures
        after.intents@[key1(pin.formation_id@)].state is RemoteUnknown,
        start_refusal(after.intents@[key1(pin.formation_id@)], observation) is Some,
        start_refusal(after.intents@[key1(pin.formation_id@)], observation)->0.kind
            == ProblemKind::Forbidden,
{
}

/// A resubmission rides on a fresh authentication: the observation of the
/// attempt before is refused.
pub proof fn resubmission_needs_fresh_authentication<G: Fn(&str, &Json) -> Keyed + Copy>(
    before: Formation,
    after: Formation,
    formation_id: Seq<char>,
    step: Step,
    extra: Extra,
    stamp: Stamp<G>,
    observation: Seq<char>,
    later: Intent,
)
    requires
        pair_moved(before, after, formation_id, step, extra, stamp),
        extra.attempt matches Some((a, o)) && o@ == observation,
        later.latest_authentication_observation_ref
            == after.intents@[key1(formation_id)].latest_authentication_observation_ref,
        later.state.submits(),
    ensures
        start_refusal(later, observation) is Some,
{
}

/// A link agrees with the durable result that it was made of: a link that comes
/// in when a formation is finished holds the reference, the revision and the
/// digest of the endeavor that the result names, and the result's own digest and
/// cursor. Links that were there stay as they were, and one is there afterwards
/// under the digest of what was linked.
pub proof fn a_link_agrees_with_its_result<G: Fn(&str, &Json) -> Keyed + Copy>(
    before: Formation,
    after: Formation,
    journal: JournalView,
    after_journal: JournalView,
    realm: Seq<char>,
    formation_id: Seq<char>,
    stamp: Stamp<G>,
    r: Result<u64, Problem>,
    t: Intent,
    k: Key,
)
    requires
        finish_outcome(
            before,
            after,
            journal,
            after_journal,
            realm,
            formation_id,
            stamp,
            r,
        ),
        intent_of(before, realm, formation_id) == Some(t),
    ensures
        r is Ok <==> {
            &&& t.result is Some
            &&& t.result->0.endeavor_ref is Some
            &&& slot_held(before, t)
        },
        r is Err ==> after == before && after_journal == journal,
        r is Ok ==> r->Ok_0 == t.revision + 1,
        r is Ok && before.links@.contains_key(k) ==> after.links@.contains_key(k)
            && after.links@[k] == before.links@[k],
        r is Ok && after.links@.contains_key(k) && !before.links@.contains_key(k) ==> {
            let e = t.result->0;
            let l = after.links@[k];
            &&& l.endeavor_ref@ == e.endeavor_ref->0@
            &&& e.endeavor_revision is Some ==> l.endeavor_revision == e.endeavor_revision->0
            &&& e.endeavor_revision is None ==> l.endeavor_revision == 1
            &&& e.endeavor_digest is Some ==> l.endeavor_digest@ == e.endeavor_digest->0@
            &&& e.endeavor_digest is None ==> l.endeavor_digest@ == "null"@
            &&& e.source_cursor is Some ==> l.source_cursor@ == e.source_cursor->0@
            &&& e.source_cursor is None ==> l.source_cursor@.len() == 0
            &&& l.result_digest@ == e.digest@
            &&& l.formation_id@ == t.formation_id@
            &&& l.realm_ref@ == realm
            &&& l.created_at@ == stamp.at@
            &&& k == key1(l.link_digest_hex@)
            &&& keyed_hex(
                stamp.keyed,
                "kovee-external-link-v1"@,
                link_subject_of(t),
                l.link_digest_hex@,
            )
        },
        r is Ok ==> exists|hex: Seq<char>|
            #[trigger] keyed_hex(
                stamp.keyed,
                "kovee-external-link-v1"@,
                link_subject_of(t),
                hex,
            ) && after.links@.contains_key(key1(hex)),
{
}

/// Two results never make the same link where the endeavor that they name differs
/// in its reference, its revision or its digest, or where they differ themselves.
pub proof fn a_link_tells_results_apart(
    l: ExternalLink,
    t: Intent,
    t2: Intent,
    realm: Seq<char>,
    realm2: Seq<char>,
    digest: Seq<char>,
    digest2: Seq<char>,
    at: Seq<char>,
    at2: Seq<char>,
)
    requires
        links_to_something(t),
        links_to_something(t2),
        link_row(l, t, realm, digest, at),
        link_row(l, t2, realm2, digest2, at2),
    ensures
        t.result->0.endeavor_ref->0@ == t2.result->0.endeavor_ref->0@,
        t.result->0.endeavor_revision is Some && t2.result->0.endeavor_revision is Some
            ==> t.result->0.endeavor_revision == t2.result->0.endeavor_revision,
        t.result->0.endeavor_digest is Some && t2.result->0.endeavor_digest is Some
            ==> t.result->0.endeavor_digest->0@ == t2.result->0.endeavor_digest->0@,
        t.result->0.digest@ == t2.result->0.digest@,
        t.formation_id@ == t2.formation_id@,
        realm == realm2,
        digest == digest2,
{
}

/// Each state of a formation is announced as itself, and told apart from the
/// others by its name.
pub proof fn a_state_is_announced_as_itself(a: IntentState, b: IntentState)
    ensures
        a.event() is FormationPrepared <==> a is Prepared,
        a.event() is FormationSubmitting <==> a is Submitting,
        a.event() is FormationRemoteUnknown <==> a is RemoteUnknown,
        a.event() is FormationAwaitingPrincipal <==> a is AwaitingPrincipal,
        a.event() is FormationByomCommitted <==> a is ByomCommitted,
        a.event() is FormationLinking <==> a is Linking,
        a.event() is FormationLinked <==> a is Linked,
        a.event() is FormationAmbiguous <==> a is Ambiguous,
        a.event() is FormationCanceled <==> a is Canceled,
        a.name() == b.name() ==> a == b,
{
    reveal_strlit("prepared");
    reveal_strlit("submitting");
    reveal_strlit("remote_unknown");
    reveal_strlit("awaiting_principal");
    reveal_strlit("byom_committed");
    reveal_strlit("linking");
    reveal_strlit("linked");
    reveal_strlit("ambiguous");
    reveal_strlit("canceled");
    assert("prepared"@.len() == 8 && "submitting"@.len() == 10 && "remote_unknown"@.len() == 14);
    assert("awaiting_principal"@.len() == 18 && "byom_committed"@.len() == 14);
    assert("linking"@.len() == 7 && "linked"@.len() == 6 && "ambiguous"@.len() == 9);
    assert("canceled"@.len() == 8);
    assert("prepared"@[0] == 'p' && "canceled"@[0] == 'c');
    assert("remote_unknown"@[0] == 'r' && "byom_committed"@[0] == 'b');
}

/// A formation is open, or has a verified result that is being linked, or is over:
/// one of the three. Only an open one submits, and only one of which nothing was
/// sent yet or of which the principal is awaited.
pub proof fn a_formation_is_open_or_linking_or_over(a: IntentState)
    ensures
        a.open_outcome() <==> !a.terminal() && a !is ByomCommitted && a !is Linking,
        a.terminal() <==> a is Linked || a is Canceled,
        a.submits() ==> a.open_outcome(),
        a.submits() <==> a.open_outcome() && a !is Submitting && a !is RemoteUnknown
            && a !is Ambiguous,
{
}

/// An intent and its slot move together and alone: both go one revision on, the
/// intent to the state of the step and the slot to the state beside it; a move
/// that ends the formation says when, and what the move does not bring stays.
pub proof fn a_pair_moves_together<G: Fn(&str, &Json) -> Keyed + Copy>(
    before: Formation,
    after: Formation,
    formation_id: Seq<char>,
    step: Step,
    extra: Extra,
    stamp: Stamp<G>,
    other: Seq<char>,
)
    requires
        pair_moved(before, after, formation_id, step, extra, stamp),
        before.intents@[key1(formation_id)].revision < u64::MAX,
        before.slots@[key1(before.intents@[key1(formation_id)].formation_slot_ref@)].revision
            < u64::MAX,
    ensures
        ({
            let b = before.intents@[key1(formation_id)];
            let a = after.intents@[key1(formation_id)];
            let s = before.slots@[key1(b.formation_slot_ref@)];
            let t = after.slots@[key1(b.formation_slot_ref@)];
            &&& a.state == step.to
            &&& a.revision == b.revision + 1
            &&& step.to is Linked || step.to is Canceled ==> a.terminal_at is Some
                && a.terminal_at->0@ == stamp.at@
            &&& step.to !is Linked && step.to !is Canceled ==> a.terminal_at is None
            &&& extra.result is Some ==> a.result == extra.result
            &&& extra.result is None ==> a.result == b.result
            &&& extra.link is Some ==> a.external_link_ref is Some && a.external_link_ref->0@
                == extra.link->0@
            &&& extra.link is None ==> a.external_link_ref == b.external_link_ref
            &&& extra.attempt is Some ==> a.latest_attempt_ref is Some && a.latest_attempt_ref->0@
                == (extra.attempt->0).0@ && a.latest_authentication_observation_ref is Some
                && a.latest_authentication_observation_ref->0@ == (extra.attempt->0).1@
            &&& extra.attempt is None ==> a.latest_attempt_ref == b.latest_attempt_ref
                && a.latest_authentication_observation_ref
                == b.latest_authentication_observation_ref
            &&& a.formation_id == b.formation_id
            &&& a.realm_ref == b.realm_ref
            &&& a.project_id == b.project_id
            &&& a.space_id == b.space_id
            &&& a.frontier_ref == b.frontier_ref
            &&& a.requested_by_principal == b.requested_by_principal
            &&& a.created_at == b.created_at
            &&& a.authority_digest == b.authority_digest
            &&& t.state@ == step.slot_state@
            &&& t.revision == s.revision + 1
            &&& t.released_at is Some <==> step.releases_slot && (step.to is Linked
                || step.to is Canceled)
            &&& t.released_at is Some ==> t.released_at->0@ == stamp.at@
            &&& t.generation == s.generation
            &&& t.holder_formation_id == s.holder_formation_id
            &&& t.client_formation_key == s.client_formation_key
        }),
        other != formation_id && before.intents@.contains_key(key1(other)) ==> after.intents@[key1(
            other,
        )] == before.intents@[key1(other)],
        other != before.intents@[key1(formation_id)].formation_slot_ref@
            && before.slots@.contains_key(key1(other)) ==> after.slots@[key1(other)]
            == before.slots@[key1(other)],
{
    assert(key1(other).0 == other);
    assert(key1(formation_id).0 == formation_id);
    assert(key1(before.intents@[key1(formation_id)].formation_slot_ref@).0
        == before.intents@[key1(formation_id)].formation_slot_ref@);
}

/// A step is told whole: which formation, to which state, beside which state of
/// the slot and by which move, and with it all that the move has to say.
pub proof fn a_step_is_told_whole(
    formation_id: Seq<char>,
    to: IntentState,
    slot_state: Seq<char>,
    via: Seq<char>,
    told: ToldView,
)
    ensures
        ({
            let m = step_document(formation_id, to, slot_state, via, told)->Object_0;
            &&& step_document(formation_id, to, slot_state, via, told) is Object
            &&& m.contains(("formation_id"@, JsonView::Text(formation_id)))
            &&& m.contains(("state"@, JsonView::Text(to.name())))
            &&& m.contains(("slot_state"@, JsonView::Text(slot_state)))
            &&& m.contains(("via"@, JsonView::Text(via)))
            &&& told is Attempt ==> m.contains(
                ("attempt_id"@, JsonView::Text(told->attempt_id)),
            ) && m.contains(
                ("attempt_ordinal"@, JsonView::Number(crate::json::number_of(told->ordinal))),
            )
            &&& told is Endeavor && told->Endeavor_0 is Some ==> m.contains(
                ("endeavor_ref"@, JsonView::Text(told->Endeavor_0->0)),
            )
            &&& told is Link ==> m.contains(("endeavor_ref"@, JsonView::Text(told->endeavor_ref)))
                && m.contains(("external_link_ref"@, JsonView::Text(told->link_ref)))
            &&& told is Fact ==> m.contains(("fact"@, JsonView::Text(told->name)))
            &&& told is Fact && told->receipt_ref is Some ==> m.contains(
                ("historical_fence_receipt_ref"@, JsonView::Text(told->receipt_ref->0)),
            )
            &&& told is Reason && told->Reason_0 is Some ==> m.contains(
                ("reason"@, JsonView::Text(told->Reason_0->0)),
            )
            &&& told is Outcome ==> m.contains(("outcome"@, JsonView::Text(told->Outcome_0)))
            &&& told is Tombstone ==> m.contains(("tombstone_digest"@, stored(told->digest)))
                && m.contains(("tombstone_ref"@, JsonView::Text(told->reference))) && m.contains(
                ("reason_kind"@, JsonView::Text("formation_requires_participation"@)),
            )
        }),
{
    let a = told_before(told);
    let b = seq![text_member("formation_id"@, formation_id)];
    let c = told_between(told);
    let d = seq![text_member("slot_state"@, slot_state), text_member("state"@, to.name())];
    let e = told_behind(told);
    let f = seq![text_member("via"@, via)];
    let m = step_document(formation_id, to, slot_state, via, told)->Object_0;
    assert(m == a + b + c + d + e + f);
    assert forall|x: (Seq<char>, JsonView)|
        a.contains(x) || b.contains(x) || c.contains(x) || d.contains(x) || e.contains(x)
            || f.contains(x) implies #[trigger] m.contains(x) by {
        crate::json::members_together(a, b, x);
        crate::json::members_together(a + b, c, x);
        crate::json::members_together(a + b + c, d, x);
        crate::json::members_together(a + b + c + d, e, x);
        crate::json::members_together(a + b + c + d + e, f, x);
    }
    assert(b[0] == ("formation_id"@, JsonView::Text(formation_id)));
    assert(d[0] == ("slot_state"@, JsonView::Text(slot_state)));
    assert(d[1] == ("state"@, JsonView::Text(to.name())));
    assert(f[0] == ("via"@, JsonView::Text(via)));
    match told {
        ToldView::Nothing => {},
        ToldView::Reason(r) => {
            assert(c[0].0 == "reason"@);
            if r is Some {
                assert(c[0] == ("reason"@, JsonView::Text(r->0)));
            }
        },
        ToldView::Attempt { attempt_id, ordinal } => {
            assert(a[0] == ("attempt_id"@, JsonView::Text(attempt_id)));
            assert(a[1] == (
                "attempt_ordinal"@,
                JsonView::Number(crate::json::number_of(ordinal)),
            ));
        },
        ToldView::Tombstone { reference, digest } => {
            assert(c[0] == ("reason_kind"@, JsonView::Text("formation_requires_participation"@)));
            assert(e[0] == ("tombstone_digest"@, stored(digest)));
            assert(e[1] == ("tombstone_ref"@, JsonView::Text(reference)));
        },
        ToldView::Outcome(o) => {
            assert(c[0] == ("outcome"@, JsonView::Text(o)));
        },
        ToldView::Endeavor(v) => {
            if v is Some {
                assert(a[0] == ("endeavor_ref"@, JsonView::Text(v->0)));
            }
        },
        ToldView::Link { link_ref, endeavor_ref } => {
            assert(a[0] == ("endeavor_ref"@, JsonView::Text(endeavor_ref)));
            assert(a[1] == ("external_link_ref"@, JsonView::Text(link_ref)));
        },
        ToldView::Fact { name, receipt_ref } => {
            assert(a[0] == ("fact"@, JsonView::Text(name)));
            if receipt_ref is Some {
                assert(c[0] == (
                    "historical_fence_receipt_ref"@,
                    JsonView::Text(receipt_ref->0),
                ));
            }
        },
    }
}

/// A step is announced once: of its formation, at the revision that it comes to,
/// by the principal who asked for the formation, in its project.
pub proof fn a_step_is_announced(
    before: JournalView,
    intent: Intent,
    step: Step,
    told: ToldView,
)
    requires
        intent.revision < u64::MAX,
    ensures
        ({
            let after = step_journal(before, intent, step, told);
            let e = after.events.last();
            &&& after.events == before.events.push(e)
            &&& e.kind == step.to.event()
            &&& e.resource_ref == intent.formation_id@
            &&& e.stream_id == intent.formation_id@
            &&& e.correlation_ref == intent.formation_id@
            &&& e.resource_revision == Some((intent.revision + 1) as u64)
            &&& e.project_id == Some(intent.project_id@)
            &&& e.actor == ActorView::Named(intent.requested_by_principal@)
            &&& e.payload == Some(
                step_document(
                    intent.formation_id@,
                    step.to,
                    step.slot_state@,
                    step.via.name(),
                    told,
                ),
            )
            &&& !e.once
            &&& after.audits.len() == before.audits.len() + 1
        }),
{
}

/// A promotion is prepared as it was asked for: where the realm has a seam to the
/// society and the endpoint that are named, and the frontier and the bundle taken
/// at it are there, the intent holds what its principal gave, with what the
/// command carries across, and a slot is held for it. Asked again under the same
/// client key, it is the same intent and nothing changes.
pub proof fn a_promotion_is_prepared_as_asked<
    G: Fn(&str, &Json) -> Keyed + Copy,
    P: Fn(PortableTag, &Json) -> String + Copy,
    S: Fn(&str, u64, &str, &str, &Vec<String>) -> Json + Copy,
    A: Fn(&str, &str, &str, u64) -> String + Copy,
    B: Fn(&RealmBinding) -> BindingPin + Copy,
    C: Fn(&Json) -> String + Copy,
    R: Fn(&Assembly) -> Json + Copy,
>(
    form: Formation,
    form_after: Formation,
    journal: JournalView,
    journal_after: JournalView,
    gov: Governance,
    ctx: Contexts,
    realm: Seq<char>,
    principal: Seq<char>,
    args: PrepareArgs,
    recorded: R,
    mint: PrepareMint,
    keyed: G,
    crossing: Crossing<P, S, A, B, C>,
    r: Result<usize, Problem>,
)
    requires
        form.wf(),
        form_after.wf(),
        preparing_outcome(
            form,
            form_after,
            journal,
            journal_after,
            gov,
            ctx,
            realm,
            principal,
            args,
            recorded,
            mint,
            keyed,
            crossing,
            r,
        ),
        r is Ok,
    ensures
        seam_of(gov, realm) is Some,
        (seam_of(gov, realm)->0).1.society_ref@ == args.society_ref@,
        (seam_of(gov, realm)->0).0.byom_endpoint_ref@ == args.byom_endpoint_ref@,
        ({
            let t = form_after.intents.rows@[r->Ok_0 as int];
            &&& r->Ok_0 < form_after.intents.rows@.len()
            &&& t.realm_ref@ == realm
            &&& t.requested_by_principal@ == principal
            &&& t.client_formation_key@ == args.client_formation_key@
        }),
        r->Ok_0 < form.intents.rows@.len() ==> form_after == form && journal_after == journal,
        r->Ok_0 >= form.intents.rows@.len() ==> {
            let t = form_after.intents.rows@[r->Ok_0 as int];
            let frontier = ctx.frontiers@[key1(args.frontier_ref@)];
            let assembly = ctx.assemblies@[key1(args.collaboration_context_bundle_ref@)];
            let seam = seam_of(gov, realm)->0;
            let slot = form_after.slots@[key1(mint.slot_id@)];
            &&& ctx.frontiers@.contains_key(key1(args.frontier_ref@))
            &&& ctx.assemblies@.contains_key(key1(args.collaboration_context_bundle_ref@))
            &&& assembly.frontier_ref@ == args.frontier_ref@
            &&& t.formation_id@ == mint.formation_id@
            &&& t.state is Prepared
            &&& t.revision == 1
            &&& t.created_at@ == mint.created_at@
            &&& t.project_id@ == assembly.project_id@
            &&& t.space_id@ == frontier.space_id@
            &&& t.branch_id@ == frontier.branch_id@
            &&& t.frontier_ref@ == args.frontier_ref@
            &&& t.endeavor_proposal_ref@ == args.endeavor_proposal_ref@
            &&& t.bound_participant_ref@ == args.bound_participant_ref@
            &&& t.participant_binding_epoch == args.participant_binding_epoch
            &&& t.formation_slot_ref@ == mint.slot_id@
            &&& t.authorization_dependency_set_ref@ == mint.dependency_set_ref@
            &&& t.result is None
            &&& t.latest_attempt_ref is None
            &&& t.external_link_ref is None
            &&& t.terminal_at is None
            &&& t.command.kovee_formation_intent_ref@ == mint.formation_id@
            &&& t.command.byom_endpoint_ref@ == args.byom_endpoint_ref@
            &&& t.command.command_endpoint_incarnation@ == seam.0.endpoint_incarnation@
            &&& t.command.society_ref@ == args.society_ref@
            &&& t.command.society_recovery_epoch == seam.1.society_recovery_epoch
            &&& t.command.source_principal_ref@ == principal
            &&& t.command.context_bundle_ref@ == args.collaboration_context_bundle_ref@
            &&& t.command.endeavor_proposal@ == args.endeavor_proposal@
            &&& t.command.source_principal_position@ == args.source_principal_position@
            &&& member(args.endeavor_proposal@, "governance_rule_set_ref"@) == Some(
                JsonView::Text(t.command.expected_governance_rule_set_ref@),
            )
            &&& form_after.slots@.contains_key(key1(mint.slot_id@))
            &&& slot.holder_formation_id@ == mint.formation_id@
            &&& slot.realm_ref@ == realm
            &&& slot.requested_by_principal@ == principal
            &&& slot.client_formation_key@ == args.client_formation_key@
            &&& slot.generation == t.formation_slot_generation
            &&& slot.state@ == "held"@
            &&& slot.released_at is None
            &&& slot_held(form_after, t)
            &&& journal_after.events == journal.events.push(journal_after.events.last())
            &&& journal_after.events.last().kind is FormationPrepared
            &&& journal_after.events.last().resource_ref == mint.formation_id@
            &&& journal_after.events.last().project_id == Some(assembly.project_id@)
            &&& journal_after.events.last().actor == ActorView::Named(principal)
            &&& journal_after.events.last().resource_revision == Some(1u64)
        },
        form_after.attempts == form.attempts,
        form_after.links == form.links,
{
    let bundle = choose|bundle: Option<Bundle>|
        {
            &&& #[trigger] named_bundle(ctx, args, recorded, bundle)
            &&& prepare_outcome(
                form,
                form_after,
                journal,
                journal_after,
                gov,
                realm,
                principal,
                args,
                named_frontier(ctx, args),
                bundle,
                mint,
                keyed,
                crossing,
                r,
            )
        };
    if r->Ok_0 >= form.intents.rows@.len() {
        let t = form_after.intents.rows@.last();
        let s = form_after.slots.rows@.last();
        crate::table::table_pushed(form.slots, form_after.slots, s);
        assert(form_after.intents.rows@[r->Ok_0 as int] == t);
    } else if exists|i: int| #[trigger]
        of_client_key(form.intents.rows@, realm, principal, args.client_formation_key@, i) {
    } else {
        assert(r->Ok_0 == form.intents.rows@.len());
    }
}

/// A refused preparation changes nothing. One is owed where the seam names the
/// society and the endpoint, the frontier and a bundle taken at it are there, the
/// proposal names its rule set, and the minted names are free.
pub proof fn a_preparation_is_owed<
    G: Fn(&str, &Json) -> Keyed + Copy,
    P: Fn(PortableTag, &Json) -> String + Copy,
    S: Fn(&str, u64, &str, &str, &Vec<String>) -> Json + Copy,
    A: Fn(&str, &str, &str, u64) -> String + Copy,
    B: Fn(&RealmBinding) -> BindingPin + Copy,
    C: Fn(&Json) -> String + Copy,
    R: Fn(&Assembly) -> Json + Copy,
>(
    form: Formation,
    form_after: Formation,
    journal: JournalView,
    journal_after: JournalView,
    gov: Governance,
    ctx: Contexts,
    realm: Seq<char>,
    principal: Seq<char>,
    args: PrepareArgs,
    recorded: R,
    mint: PrepareMint,
    keyed: G,
    crossing: Crossing<P, S, A, B, C>,
    r: Result<usize, Problem>,
)
    requires
        preparing_outcome(
            form,
            form_after,
            journal,
            journal_after,
            gov,
            ctx,
            realm,
            principal,
            args,
            recorded,
            mint,
            keyed,
            crossing,
            r,
        ),
    ensures
        r is Err ==> form_after == form && journal_after == journal,
        seam_of(gov, realm) is Some && (seam_of(gov, realm)->0).1.society_ref@ == args.society_ref@
            && (seam_of(gov, realm)->0).0.byom_endpoint_ref@ == args.byom_endpoint_ref@
            && ctx.frontiers@.contains_key(key1(args.frontier_ref@))
            && ctx.assemblies@.contains_key(key1(args.collaboration_context_bundle_ref@))
            && ctx.assemblies@[key1(args.collaboration_context_bundle_ref@)].frontier_ref@
            == args.frontier_ref@ && text_value(
            member(args.endeavor_proposal@, "governance_rule_set_ref"@),
        ) is Some && !form.intents@.contains_key(key1(mint.formation_id@))
            && !form.slots@.contains_key(key1(mint.slot_id@)) ==> r is Ok,
        seam_of(gov, realm) is None ==> r is Err,
{
}

/// A formation of which nothing was sent can be canceled, and is then over: it
/// gives its slot back and never sends. A second cancel reports it and changes
/// nothing; one of a formation that was sent is refused.
pub proof fn a_cancel_is_for_what_was_not_sent<G: Fn(&str, &Json) -> Keyed + Copy>(
    form: Formation,
    form_after: Formation,
    journal: JournalView,
    journal_after: JournalView,
    realm: Seq<char>,
    formation_id: Seq<char>,
    reason: Option<String>,
    stamp: Stamp<G>,
    r: Result<u64, Problem>,
    t: Intent,
)
    requires
        cancel_outcome(
            form,
            form_after,
            journal,
            journal_after,
            realm,
            formation_id,
            reason,
            stamp,
            r,
        ),
        form.intents@.contains_key(key1(formation_id)),
        form.intents@[key1(formation_id)] == t,
        t.realm_ref@ == realm,
        t.revision < u64::MAX,
        t.formation_id@ == formation_id,
    ensures
        r is Err ==> form_after == form && journal_after == journal,
        t.state is Canceled ==> r == Ok::<u64, Problem>(t.revision) && form_after == form
            && journal_after == journal,
        t.state !is Canceled ==> (r is Ok <==> {
            &&& t.state is Prepared
            &&& form.slots@.contains_key(key1(t.formation_slot_ref@))
            &&& form.slots@[key1(t.formation_slot_ref@)].generation == t.formation_slot_generation
            &&& form.slots@[key1(t.formation_slot_ref@)].state@ == "held"@
        }),
        t.state !is Canceled && r is Ok ==> {
            let u = form_after.intents@[key1(formation_id)];
            let s = form_after.slots@[key1(t.formation_slot_ref@)];
            &&& r->Ok_0 == t.revision + 1
            &&& u.state is Canceled
            &&& u.revision == r->Ok_0
            &&& u.terminal_at is Some
            &&& s.state@ == "released"@
            &&& s.released_at is Some
            &&& u.command == t.command
            &&& form_after.links == form.links
            &&& form_after.attempts == form.attempts
            &&& journal_after.events == journal.events.push(journal_after.events.last())
            &&& journal_after.events.last().kind is FormationCanceled
            &&& reason is Some ==> journal_after.events.last().payload->0->Object_0.contains(
                ("reason"@, JsonView::Text(reason->0@)),
            )
        },
{
    if t.state !is Canceled && r is Ok {
        let step = choose|step: Step|
            {
                &&& is_cancel_step(step)
                &&& #[trigger] pair_moved(
                    form,
                    form_after,
                    formation_id,
                    step,
                    nothing_more(),
                    stamp,
                )
                &&& journal_after == step_journal(
                    journal,
                    t,
                    step,
                    ToldView::Reason(opt_view(reason)),
                )
            };
        a_step_is_told_whole(
            t.formation_id@,
            step.to,
            step.slot_state@,
            step.via.name(),
            ToldView::Reason(opt_view(reason)),
        );
    }
}

/// What starting a promotion comes to: one that is linked is reported, one whose
/// result is durable is linked, and one that may submit is sent under an
/// authentication that its last attempt did not use. Every other is refused.
pub proof fn a_start_goes_by_the_state(
    form: Formation,
    realm: Seq<char>,
    formation_id: Seq<char>,
    observation: Seq<char>,
    r: Result<StartStep, Problem>,
    t: Intent,
)
    requires
        start_begin_outcome(form, realm, formation_id, observation, r),
        intent_of(form, realm, formation_id) == Some(t),
    ensures
        t.state is Linked <==> r is Ok && r->Ok_0 is Report,
        t.state is Linked ==> r->Ok_0 == StartStep::Report(t.revision),
        t.state is ByomCommitted || t.state is Linking <==> r is Ok && r->Ok_0 is Link,
        r is Ok && r->Ok_0 is Send <==> {
            &&& t.state is Prepared || t.state is AwaitingPrincipal
            &&& t.latest_authentication_observation_ref is None
                || t.latest_authentication_observation_ref->0@ != observation
        },
        t.state is Submitting || t.state is RemoteUnknown || t.state is Ambiguous || t.state
            is Canceled ==> r is Err && r->Err_0@.kind is Forbidden,
{
}

/// The credential that is asked for is for this principal, bound as the intent
/// binds it, for one operation on the command that the intent pins, fresh and for
/// the society of the seam.
pub proof fn a_credential_is_asked_for_the_intent<G: Fn(&str, &Json) -> Keyed>(
    ask: CredentialAsk,
    keyed: G,
    realm: Seq<char>,
    t: Intent,
    mapping: SocietyMapping,
    nonce: Seq<char>,
    operation: Seq<char>,
    observation: Seq<char>,
    issued_at: i64,
)
    requires
        asks(ask, keyed, realm, t, mapping, nonce, operation, observation, issued_at),
    ensures
        ask.source_principal_ref@ == t.requested_by_principal@,
        ask.bound_participant_ref@ == t.bound_participant_ref@,
        ask.participant_binding_epoch == t.participant_binding_epoch,
        ask.subject_digest@ == t.canonical_byom_command_digest@,
        ask.allowed_operation@ == operation,
        ask.authentication_observation_ref@ == observation,
        ask.nonce@ == nonce,
        ask.issued_at == issued_at,
        0 < ask.lifetime_seconds <= 120,
        ask.society_ref@ == mapping.society_ref@,
        ask.society_recovery_epoch == mapping.society_recovery_epoch,
{
}

/// An attempt that is opened rides on the authentication that was shown, is the
/// next of its formation, and is in flight; the formation is submitting then, and
/// names it as its latest. The credential stands in the ledger before anything is
/// sent.
pub proof fn an_attempt_is_opened_as_asked<
    G: Fn(&str, &Json) -> Keyed + Copy,
    V: Fn(&str, &str, &str, &str, &str) -> Json,
>(
    before: Formation,
    after: Formation,
    ledger: Ledger,
    after_ledger: Ledger,
    journal: JournalView,
    after_journal: JournalView,
    gov: Governance,
    realm: Seq<char>,
    pin: Pinned,
    observation: Seq<char>,
    slot_state: Seq<char>,
    mint: AttemptMint,
    now: BindingPin,
    minted: Result<Minted, String>,
    prove: V,
    stamp: Stamp<G>,
    r: Result<u64, Problem>,
    i: int,
)
    requires
        before.wf(),
        after.wf(),
        opened_under(
            before,
            after,
            ledger,
            after_ledger,
            journal,
            after_journal,
            gov,
            realm,
            pin,
            observation,
            slot_state,
            mint,
            now,
            minted,
            prove,
            stamp,
            r,
        ),
        before.intents@[key1(pin.formation_id@)].formation_id@ == pin.formation_id@,
        before.intents@[key1(pin.formation_id@)].revision < u64::MAX,
        0 <= i < before.attempts.rows@.len(),
    ensures
        r is Err ==> after == before && after_ledger == ledger && after_journal == journal,
        r is Ok ==> {
            let t = before.intents@[key1(pin.formation_id@)];
            let u = after.intents@[key1(pin.formation_id@)];
            let a = after.attempts@[key1(mint.attempt_id@)];
            let seam = seam_of(gov, realm)->0;
            &&& seam_of(gov, realm) is Some
            &&& minted is Ok
            &&& minted->Ok_0.actor_binding_digest@ == t.command.source_actor_binding_digest@
            &&& now.binding_ref@ == t.command.binding.binding_ref@
            &&& seam.0.endpoint_incarnation@ == t.command.command_endpoint_incarnation@
            &&& seam.1.society_recovery_epoch == t.command.society_recovery_epoch
            &&& t.state == pin.state
            &&& t.revision == pin.revision
            &&& r->Ok_0 == pin.revision + 1
            &&& after.attempts@.contains_key(key1(mint.attempt_id@))
            &&& a.formation_id@ == pin.formation_id@
            &&& a.state is Sent
            &&& a.attempt_nonce@ == mint.nonce@
            &&& a.prepared_at@ == mint.prepared_at@
            &&& a.recovery_binding == now
            &&& a.authentication_observation_ref@ == observation
            &&& a.authentication_observation_digest@ == minted->Ok_0.observation_digest@
            &&& a.reply_digest is None
            &&& a.observed_at is None
            &&& before.attempts.rows@[i].formation_id@ == pin.formation_id@
                ==> before.attempts.rows@[i].attempt_ordinal < a.attempt_ordinal
            &&& u.state is Submitting
            &&& u.revision == r->Ok_0
            &&& opt_view(u.latest_attempt_ref) == Some(mint.attempt_id@)
            &&& opt_view(u.latest_authentication_observation_ref) == Some(observation)
            &&& u.result == t.result
            &&& u.terminal_at is None
            &&& after.links == before.links
            &&& !ledger@.contains_key(minted->Ok_0.credential.pair())
            &&& after_ledger.rows@.len() == ledger.rows@.len() + 1
            &&& after_journal.events == journal.events.push(after_journal.events.last())
            &&& after_journal.events.last().kind is FormationSubmitting
            &&& after_journal.events.last().payload->0->Object_0.contains(
                ("attempt_id"@, JsonView::Text(mint.attempt_id@)),
            )
        },
{
    if r is Ok {
        let a = after.attempts.rows@.last();
        crate::table::table_pushed(before.attempts, after.attempts, a);
        if before.attempts.rows@[i].formation_id@ == pin.formation_id@ {
            last_ordinal_is_last(
                before.attempts.rows@,
                pin.formation_id@,
                before.attempts.rows@.len() as int,
                i,
            );
        }
        let t = before.intents@[key1(pin.formation_id@)];
        let told = ToldView::Attempt { attempt_id: mint.attempt_id@, ordinal: a.attempt_ordinal };
        let (step, extra) = choose|step: Step, extra: Extra|
            {
                &&& is_submit_step(step, slot_state)
                &&& extra.attempt matches Some((x, o)) && x@ == mint.attempt_id@ && o@
                    == observation
                &&& extra.result is None
                &&& extra.link is None
                &&& #[trigger] pair_moved(before, after, pin.formation_id@, step, extra, stamp)
                &&& after_journal == step_journal(journal, t, step, told)
            };
        a_step_is_told_whole(t.formation_id@, step.to, step.slot_state@, step.via.name(), told);
    }
}

/// A send that came to no result leaves no result: byom's tombstone ends the
/// formation and gives the slot back, a refusal leaves it ambiguous, and silence
/// leaves it unknown, with the slot kept in both. The attempt is closed by what
/// was answered, and the problem that was answered is passed on.
pub proof fn a_failed_send_is_kept_apart<G: Fn(&str, &Json) -> Keyed + Copy>(
    before: Formation,
    after: Formation,
    journal: JournalView,
    after_journal: JournalView,
    pin: Pinned,
    attempt_ref: Seq<char>,
    failure: SendFailure,
    slot_state: Seq<char>,
    stamp: Stamp<G>,
    r: Problem,
)
    requires
        failure_outcome(
            before,
            after,
            journal,
            after_journal,
            pin,
            attempt_ref,
            failure,
            slot_state,
            stamp,
            r,
        ),
        cas_holds(before, pin),
        pin.revision < u64::MAX,
    ensures
        ({
            let t = before.intents@[key1(pin.formation_id@)];
            let u = after.intents@[key1(pin.formation_id@)];
            let s = after.slots@[key1(t.formation_slot_ref@)];
            let a = before.attempts@[key1(attempt_ref)];
            let b = after.attempts@[key1(attempt_ref)];
            &&& u.revision == pin.revision + 1
            &&& u.result == t.result
            &&& u.latest_attempt_ref == t.latest_attempt_ref
            &&& failure is Tombstone <==> u.state is Canceled
            &&& failure is Refused <==> u.state is Ambiguous
            &&& failure is Unknown <==> u.state is RemoteUnknown
            &&& failure is Tombstone <==> s.released_at is Some
            &&& failure is Tombstone ==> s.state@ == "released"@
            &&& failure !is Tombstone ==> s.state@ == slot_state
            &&& after.links == before.links
            &&& failure is Refused ==> r@ == failure->Refused_0@
            &&& failure is Unknown ==> r@ == failure->Unknown_0@
            &&& failure is Tombstone ==> r@.kind is Forbidden
            &&& before.attempts@.contains_key(key1(attempt_ref)) ==> {
                &&& failure is Unknown ==> b.state is TransportUnknown
                &&& failure !is Unknown ==> b.state is ReplyReceived
                &&& failure is Tombstone && a.reply_digest is None ==> opt_view(b.reply_digest)
                    == Some(failure->digest@)
                &&& failure !is Tombstone ==> opt_view(b.reply_digest) == opt_view(a.reply_digest)
                &&& a.observed_at is None ==> opt_view(b.observed_at) == Some(stamp.at@)
                &&& b.attempt_nonce == a.attempt_nonce
                &&& b.formation_id == a.formation_id
            }
            &&& after_journal.events == journal.events.push(after_journal.events.last())
            &&& after_journal.events.last().kind == u.state.event()
        }),
{
}

/// An answer to a send is what it says it is: a tombstone where byom names one, a
/// refusal where it is definite, and unknown where there was none.
pub proof fn an_answer_is_taken_for_what_it_is(e: SendError)
    ensures
        failure_of(e) is Unknown <==> e is Silent,
        failure_of(e) is Tombstone <==> e is Problem && e->tombstone_ref is Some,
        e is Silent ==> failure_of(e)->Unknown_0 == e->Silent_0,
        e is Definite ==> failure_of(e) == SendFailure::Refused(e->Definite_0),
        e is Problem && e->tombstone_ref is None ==> failure_of(e) == SendFailure::Refused(
            e->passed_on,
        ),
        e is Problem && e->tombstone_ref is Some ==> failure_of(e)->reference == e->tombstone_ref->0
            && failure_of(e)->digest == e->tombstone_digest,
{
}

/// A result that came back is durable: the intent holds it whole, at the state
/// that its row moves to; the attempt is closed by it; and the credential that it
/// rode on is spent.
pub proof fn a_result_is_kept_whole<G: Fn(&str, &Json) -> Keyed + Copy>(
    before: Formation,
    after: Formation,
    ledger: Ledger,
    after_ledger: Ledger,
    journal: JournalView,
    after_journal: JournalView,
    pin: Pinned,
    attempt_ref: Seq<char>,
    credential: Key,
    envelope: ResultEnvelope,
    step: Option<Step>,
    now: i64,
    stamp: Stamp<G>,
    r: Result<u64, Problem>,
)
    requires
        result_outcome(
            before,
            after,
            ledger,
            after_ledger,
            journal,
            after_journal,
            pin,
            attempt_ref,
            credential,
            envelope,
            step,
            now,
            stamp,
            r,
        ),
        pin.revision < u64::MAX,
    ensures
        r is Ok <==> step is Some && cas_holds(before, pin),
        r is Err ==> after == before && after_ledger == ledger && after_journal == journal,
        after.links == before.links,
        r is Ok ==> {
            let u = after.intents@[key1(pin.formation_id@)];
            let a = before.attempts@[key1(attempt_ref)];
            let b = after.attempts@[key1(attempt_ref)];
            &&& r->Ok_0 == pin.revision + 1
            &&& u.revision == r->Ok_0
            &&& u.result == Some(envelope)
            &&& u.state == step->0.to
            &&& before.attempts@.contains_key(key1(attempt_ref)) ==> {
                &&& b.state is ReplyReceived
                &&& a.reply_digest is None ==> opt_view(b.reply_digest) == Some(envelope.digest@)
                &&& a.observed_at is None ==> opt_view(b.observed_at) == Some(stamp.at@)
            }
            &&& ledger@.contains_key(credential) ==> after_ledger@[credential].spent is Some
            &&& !ledger@.contains_key(credential) ==> after_ledger == ledger
            &&& after_journal.events == journal.events.push(after_journal.events.last())
            &&& after_journal.events.last().kind == step->0.to.event()
        },
{
}

/// Committing a link goes through linking: a formation whose result is durable is
/// linked, its slot given back, and its intent names the link; nothing is linked
/// while the slot is not its own.
pub proof fn a_commit_ends_in_a_link<G: Fn(&str, &Json) -> Keyed + Copy>(
    before: Formation,
    after: Formation,
    journal: JournalView,
    after_journal: JournalView,
    realm: Seq<char>,
    formation_id: Seq<char>,
    slot_state: Seq<char>,
    stamp: Stamp<G>,
    r: Result<u64, Problem>,
    t: Intent,
)
    requires
        link_outcome(
            before,
            after,
            journal,
            after_journal,
            realm,
            formation_id,
            slot_state,
            stamp,
            r,
        ),
        intent_of(before, realm, formation_id) == Some(t),
        t.formation_id@ == formation_id,
        t.revision < u64::MAX - 1,
    ensures
        r is Ok ==> {
            let u = after.intents@[key1(formation_id)];
            let s = after.slots@[key1(t.formation_slot_ref@)];
            &&& u.state is Linked
            &&& u.revision == r->Ok_0
            &&& u.external_link_ref is Some
            &&& u.terminal_at is Some
            &&& u.result == t.result
            &&& u.command == t.command
            &&& s.state@ == "released"@
            &&& s.released_at is Some
            &&& after.attempts == before.attempts
            &&& t.state is ByomCommitted ==> r->Ok_0 == t.revision + 2
                && after_journal.events.len() == journal.events.len() + 2
            &&& t.state !is ByomCommitted ==> r->Ok_0 == t.revision + 1
                && after_journal.events.len() == journal.events.len() + 1
            &&& after_journal.events.last().kind is FormationLinked
            &&& exists|hex: Seq<char>|
                u.external_link_ref->0@ == #[trigger] link_ref_of(hex) && after.links@.contains_key(
                    key1(hex),
                )
        },
        t.result is Some && t.result->0.endeavor_ref is Some && slot_held(before, t) ==> r is Ok,
        !slot_held(before, t) ==> r is Err,
{
    if t.state is ByomCommitted && slot_held(before, t) {
        let (mid, step) = choose|mid: Formation, step: Step|
            {
                &&& is_linking_step(step, slot_state)
                &&& #[trigger] pair_moved(
                    before,
                    mid,
                    formation_id,
                    step,
                    nothing_more(),
                    stamp,
                )
                &&& mid.attempts == before.attempts
                &&& mid.links == before.links
                &&& finish_outcome(
                    mid,
                    after,
                    step_journal(journal, t, step, ToldView::Nothing),
                    after_journal,
                    realm,
                    formation_id,
                    stamp,
                    r,
                )
            };
        assert(intent_of(mid, realm, formation_id) is Some);
        assert(slot_held(mid, mid.intents@[key1(formation_id)]));
    }
}

/// A formation that is over is reported at its revision; any other is asked after.
pub proof fn a_finished_formation_is_reported(
    form: Formation,
    realm: Seq<char>,
    formation_id: Seq<char>,
    r: Result<Option<u64>, Problem>,
    t: Intent,
)
    requires
        reconcile_begin_outcome(form, realm, formation_id, r),
        intent_of(form, realm, formation_id) == Some(t),
    ensures
        r is Ok,
        t.state is Linked || t.state is Canceled ==> r->Ok_0 == Some(t.revision),
        t.state !is Linked && t.state !is Canceled ==> r->Ok_0 is None,
{
}

/// What a fact of byom's does: where its row moves the formation, the intent is
/// there, with the result that a committed fact carries and with the one it had
/// otherwise; the latest attempt is reconciled; and the caller is told whether a
/// link is due. Without a row nothing moves.
pub proof fn a_fact_moves_by_its_row<G: Fn(&str, &Json) -> Keyed + Copy>(
    before: Formation,
    after: Formation,
    journal: JournalView,
    after_journal: JournalView,
    realm: Seq<char>,
    formation_id: Seq<char>,
    row: Option<Step>,
    fact: Fact,
    stamp: Stamp<G>,
    r: Result<bool, Problem>,
    t: Intent,
)
    requires
        fact_outcome(
            before,
            after,
            journal,
            after_journal,
            realm,
            formation_id,
            row,
            fact,
            stamp,
            r,
        ),
        intent_of(before, realm, formation_id) == Some(t),
        t.revision < u64::MAX,
        t.formation_id@ == formation_id,
    ensures
        r is Ok <==> row is None || slot_held(before, t),
        after.links == before.links,
        row is None || r is Err ==> after == before && after_journal == journal,
        row is None ==> r == Ok::<bool, Problem>(false),
        row is Some && r is Ok ==> {
            let u = after.intents@[key1(formation_id)];
            &&& u.state == row->0.to
            &&& u.revision == t.revision + 1
            &&& fact is Committed ==> u.result == Some(fact->Committed_0)
            &&& fact !is Committed ==> u.result == t.result
            &&& r->Ok_0 <==> u.state is ByomCommitted || u.state is Linking
            &&& t.latest_attempt_ref is Some && before.attempts@.contains_key(
                key1(t.latest_attempt_ref->0@),
            ) ==> after.attempts@[key1(t.latest_attempt_ref->0@)].state is Reconciled
            &&& t.latest_attempt_ref is None ==> after.attempts == before.attempts
            &&& after_journal.events == journal.events.push(after_journal.events.last())
            &&& after_journal.events.last().kind == row->0.to.event()
            &&& fact is HistoricallyFencedAbsent
                ==> after_journal.events.last().payload->0->Object_0.contains(
                ("historical_fence_receipt_ref"@, JsonView::Text(fact->receipt_ref@)),
            )
        },
{
    if row is Some && r is Ok {
        let step = row->0;
        a_step_is_told_whole(
            t.formation_id@,
            step.to,
            step.slot_state@,
            step.via.name(),
            fact_told(fact),
        );
    }
}

/// Facts are told apart by their names.
pub proof fn a_fact_has_its_own_name(a: Fact, b: Fact)
    requires
        named_fact(a) == named_fact(b),
    ensures
        a is Committed <==> b is Committed,
        a is Absent <==> b is Absent,
        a is HistoricallyFencedAbsent <==> b is HistoricallyFencedAbsent,
        a is Tombstone <==> b is Tombstone,
        a is Unknown <==> b is Unknown,
        a is NotTerminalizable <==> b is NotTerminalizable,
{
    reveal_strlit("committed");
    reveal_strlit("absent");
    reveal_strlit("historically_fenced_absent");
    reveal_strlit("non_reexecuting_tombstone");
    reveal_strlit("unknown");
    reveal_strlit("not_terminalizable");
    assert("committed"@.len() == 9 && "absent"@.len() == 6 && "unknown"@.len() == 7);
    assert("historically_fenced_absent"@.len() == 26 && "not_terminalizable"@.len() == 18);
    assert("non_reexecuting_tombstone"@.len() == 25);
}

/// Future execution can be denied of a formation whose outcome is open, by a
/// principal who authenticates for it; the reason that was given is the one that is
/// passed on.
pub proof fn a_denial_needs_an_open_outcome(
    state: IntentState,
    observation: Option<String>,
    reason: Option<String>,
    r: Result<Terminalization, Problem>,
)
    requires
        terminalize_gate_outcome(state, observation, reason, r),
    ensures
        r is Ok <==> {
            &&& observation is Some
            &&& state !is ByomCommitted
            &&& state !is Linking
            &&& state !is Linked
            &&& state !is Canceled
        },
        r is Ok ==> r->Ok_0.observation@ == observation->0@,
        r is Ok && reason is Some ==> r->Ok_0.reason@ == reason->0@,
        r is Err ==> r->Err_0@.kind is Forbidden,
{
}

/// Beginning to deny keeps to the same: only of an open outcome, under a fresh
/// authentication, with a credential that the ledger did not hold yet.
pub proof fn a_denial_is_begun_once(
    form: Formation,
    ledger: Ledger,
    after: Ledger,
    gov: Governance,
    realm: Seq<char>,
    formation_id: Seq<char>,
    observation: Option<String>,
    reason: Option<String>,
    minted: Result<Minted, String>,
    r: Result<Terminalization, Problem>,
)
    requires
        terminalize_outcome(
            form,
            ledger,
            after,
            gov,
            realm,
            formation_id,
            observation,
            reason,
            minted,
            r,
        ),
    ensures
        r is Ok <==> {
            &&& intent_of(form, realm, formation_id) is Some
            &&& intent_of(form, realm, formation_id)->0.state.open_outcome()
            &&& observation is Some
            &&& seam_of(gov, realm) is Some
            &&& minted is Ok
            &&& !ledger@.contains_key(minted->Ok_0.credential.pair())
        },
        r is Err ==> after == ledger,
        r is Ok ==> after.rows@.len() == ledger.rows@.len() + 1,
        r is Ok ==> r->Ok_0.observation@ == observation->0@,
        r is Ok && reason is Some ==> r->Ok_0.reason@ == reason->0@,
{
}

/// An answer to a query is a fact, silence is an unknown fact, and a refusal is
/// passed on as it came.
pub proof fn silence_is_an_unknown_fact(
    answer: Asked<Result<Fact, String>>,
    unusable: Seq<char>,
    r: Result<Fact, Problem>,
)
    requires
        fact_taken(answer, unusable, r),
    ensures
        answer is Silent ==> r is Ok && r->Ok_0 is Unknown,
        answer is Answer && answer->Answer_0 is Ok ==> r == Ok::<Fact, Problem>(
            answer->Answer_0->Ok_0,
        ),
        answer is Answer && answer->Answer_0 is Err ==> r is Err && r->Err_0@.kind is Unavailable,
        answer is Refused ==> r is Err && r->Err_0 == answer->Refused_1,
{
}

/// The sponsors of a proposal are the texts of its list, and nothing else of it.
pub proof fn sponsors_are_the_texts(items: Seq<JsonView>, x: Seq<char>)
    ensures
        texts_in(items).contains(x) <==> items.contains(JsonView::Text(x)),
        texts_in(items).len() <= items.len(),
        (forall|i: int| 0 <= i < items.len() ==> (#[trigger] items[i]) is Text) ==> texts_in(
            items,
        ).len() == items.len(),
    decreases items.len(),
{
    if items.len() > 0 {
        let less = items.drop_last();
        sponsors_are_the_texts(less, x);
        let all = texts_in(items);
        let some = texts_in(less);
        if some.contains(x) {
            let i = choose|i: int| 0 <= i < some.len() && some[i] == x;
            assert(all[i] == x);
        }
        if less.contains(JsonView::Text(x)) {
            let i = choose|i: int| 0 <= i < less.len() && less[i] == JsonView::Text(x);
            assert(items[i] == JsonView::Text(x));
        }
        if items.contains(JsonView::Text(x)) {
            let i = choose|i: int| 0 <= i < items.len() && items[i] == JsonView::Text(x);
            if i < less.len() {
                assert(less[i] == JsonView::Text(x));
            } else {
                assert(items.last() == JsonView::Text(x));
                assert(all.last() == x);
            }
        }
        if all.contains(x) {
            let i = choose|i: int| 0 <= i < all.len() && all[i] == x;
            if i < some.len() {
                assert(some[i] == x);
            } else {
                assert(items.last() == JsonView::Text(x));
                assert(items[items.len() - 1] == JsonView::Text(x));
            }
        }
        if forall|i: int| 0 <= i < items.len() ==> (#[trigger] items[i]) is Text {
            assert forall|i: int| 0 <= i < less.len() implies (#[trigger] less[i]) is Text by {
                assert(items[i] is Text);
            }
            assert(items[items.len() - 1] is Text);
        }
    }
}

/// A promotion is shown with its own attempts, all of them and in the order of
/// their numbers, with the slot as it stands, and with a link of its own where one
/// is there.
pub proof fn a_promotion_is_shown_with_its_own(
    form: Formation,
    t: Intent,
    v: PromotionView,
    a: int,
    b: int,
    i: int,
    l: int,
)
    requires
        shows(form, t, v),
    ensures
        form.intents.rows@[v.intent as int] == t,
        0 <= a < v.attempts@.len() ==> form.attempts.rows@[v.attempts@[a] as int].formation_id@
            == t.formation_id@,
        0 <= a < b < v.attempts@.len() ==> form.attempts.rows@[v.attempts@[a] as int].attempt_ordinal
            <= form.attempts.rows@[v.attempts@[b] as int].attempt_ordinal && v.attempts@[a]
            != v.attempts@[b],
        0 <= i < form.attempts.rows@.len() && form.attempts.rows@[i].formation_id@
            == t.formation_id@ ==> v.attempts@.contains(i as usize),
        form.slots@.contains_key(key1(t.formation_slot_ref@)) ==> v.slot_state@ == form.slots@[key1(
            t.formation_slot_ref@,
        )].state@ && v.slot_generation == form.slots@[key1(t.formation_slot_ref@)].generation,
        !form.slots@.contains_key(key1(t.formation_slot_ref@)) ==> v.slot_state@ == "released"@,
        v.link is Some ==> form.links.rows@[v.link->0 as int].formation_id@ == t.formation_id@,
        0 <= l < form.links.rows@.len() && form.links.rows@[l].formation_id@ == t.formation_id@
            ==> v.link is Some,
{
    let keep = attempts_of(form, t.formation_id@);
    let rows = form.attempts.rows@;
    if 0 <= a < v.attempts@.len() {
        assert(keep[v.attempts@[a] as int]);
    }
    if 0 <= a < b < v.attempts@.len() {
        crate::listing::a_place_comes_once(rows, keep, rows.len() as int, v.attempts@, a, b);
    }
    if 0 <= i < rows.len() && rows[i].formation_id@ == t.formation_id@ {
        assert(keep[i]);
    }
}

/// All promotions of a realm are shown where none is named, and of that realm
/// only; the named one alone where one is.
pub proof fn promotions_of_a_realm_are_shown(
    form: Formation,
    realm: Seq<char>,
    formation_id: Option<String>,
    r: Result<Vec<PromotionView>, Problem>,
    a: int,
    i: int,
)
    requires
        promotion_show_outcome(form, realm, formation_id, r),
        form.wf(),
    ensures
        formation_id is Some ==> (r is Ok <==> form.intents@.contains_key(
            key1(formation_id->0@),
        ) && form.intents@[key1(formation_id->0@)].realm_ref@ == realm),
        formation_id is Some && r is Ok ==> r->Ok_0@.len() == 1
            && form.intents.rows@[r->Ok_0@[0].intent as int].formation_id@ == formation_id->0@,
        formation_id is None ==> r is Ok,
        r is Ok && 0 <= a < r->Ok_0@.len()
            ==> form.intents.rows@[r->Ok_0@[a].intent as int].realm_ref@ == realm,
        formation_id is None && 0 <= i < form.intents.rows@.len()
            && form.intents.rows@[i].realm_ref@ == realm ==> exists|k: int|
            0 <= k < r->Ok_0@.len() && form.intents.rows@[(#[trigger] r->Ok_0@[k]).intent as int]
                == form.intents.rows@[i],
{
    if formation_id is Some && r is Ok {
        let j = crate::table::table_row(form.intents, key1(formation_id->0@));
        assert(key1(formation_id->0@).0 == form.intents.rows@[j].key().0);
    }
    if formation_id is None {
        let rows = form.intents.rows@;
        let keep = intents_of(form, realm);
        let list = choose|list: Seq<usize>|
            {
                &&& #[trigger] ordered_listing(rows, keep, rows.len() as int, list)
                &&& all_shown(form, list, r->Ok_0@)
            };
        if 0 <= a < list.len() {
            assert(keep[list[a] as int]);
            assert(shows(form, rows[list[a] as int], r->Ok_0@[a]));
        }
        if 0 <= i < rows.len() && rows[i].realm_ref@ == realm {
            assert(keep[i]);
            assert(list.contains(i as usize));
            let k = choose|k: int| 0 <= k < list.len() && list[k] == i as usize;
            assert(form.intents.rows.len() == rows.len());
            assert(shows(form, rows[list[k] as int], r->Ok_0@[k]));
            assert(r->Ok_0@[k].intent < rows.len());
        }
    }
}

/// Nothing that a document of this kind (prepared) is made of is lost: each part
/// stands under its own name, and two documents are the same only if all parts are.
pub proof fn prepared_documents_are_told_apart(
    formation_id: Seq<char>,
    client_formation_key: Seq<char>,
    formation_id2: Seq<char>,
    client_formation_key2: Seq<char>,
)
    requires
        prepared_document(formation_id, client_formation_key)
            == prepared_document(formation_id2, client_formation_key2),
    ensures
        prepared_document(formation_id, client_formation_key)->Object_0.contains(text_member("client_formation_key"@, client_formation_key)),
        client_formation_key == client_formation_key2,
        prepared_document(formation_id, client_formation_key)->Object_0.contains(text_member("formation_id"@, formation_id)),
        formation_id == formation_id2,
        prepared_document(formation_id, client_formation_key)->Object_0.contains(text_member("slot_state"@, "held"@)),
        prepared_document(formation_id, client_formation_key)->Object_0.contains(text_member("state"@, "prepared"@)),
        prepared_document(formation_id, client_formation_key)->Object_0.contains(text_member("via"@, "formation_prepare"@)),
{
    let x = prepared_document(formation_id, client_formation_key)->Object_0;
    let y = prepared_document(formation_id2, client_formation_key2)->Object_0;
    assert(x[0] == text_member("client_formation_key"@, client_formation_key));
    assert(x[0] == y[0]);
    assert(x[1] == text_member("formation_id"@, formation_id));
    assert(x[1] == y[1]);
    assert(x[2] == text_member("slot_state"@, "held"@));
    assert(x[3] == text_member("state"@, "prepared"@));
    assert(x[4] == text_member("via"@, "formation_prepare"@));
}

/// Each step is taken by its own row: a cancel and a tombstone end a formation
/// and release its slot, a link ends it and releases it, and every other leaves
/// the slot held in the state that was asked.
pub proof fn each_step_is_taken_by_its_own_row(step: Step, slot_state: Seq<char>, f: SendFailure)
    ensures
        is_cancel_step(step) ==> step.via.name() == "formation_cancel"@ && step.to is Canceled
            && step.releases_slot && step.slot_state@ == "released"@,
        is_submit_step(step, slot_state) ==> step.via.name() == "kovee_endeavor_form"@ && step.to
            is Submitting && !step.releases_slot && step.slot_state@ == slot_state,
        is_linking_step(step, slot_state) ==> step.via.name() == "external_link_begin"@ && step.to
            is Linking && !step.releases_slot && step.slot_state@ == slot_state,
        is_linked_step(step) ==> step.via.name() == "external_link_commit"@ && step.to is Linked
            && step.releases_slot && step.slot_state@ == "released"@,
        failure_step(f, step, slot_state) ==> {
            &&& f is Tombstone ==> step.via.name() == "tombstone_verified"@ && step.to is Canceled
                && step.releases_slot && step.slot_state@ == "released"@
            &&& f is Refused ==> step.via.name() == "unknown_result"@ && step.to is Ambiguous
                && !step.releases_slot && step.slot_state@ == slot_state
            &&& f is Unknown ==> step.via.name() == "transport_outcome_unknown"@ && step.to
                is RemoteUnknown && !step.releases_slot && step.slot_state@ == slot_state
        },
{
}

/// A step is taken only on what it read: not where the intent moved to another
/// state or revision, and not where the slot was turned over; on what it reads
/// now of an intent whose slot is held it is taken.
pub proof fn a_step_needs_what_it_read(form: Formation, pin: Pinned, t: Intent)
    requires
        form.intents@.contains_key(key1(pin.formation_id@)),
        form.intents@[key1(pin.formation_id@)] == t,
    ensures
        t.state != pin.state ==> !cas_holds(form, pin),
        t.revision != pin.revision ==> !cas_holds(form, pin),
        t.formation_slot_generation != pin.slot_generation ==> !cas_holds(form, pin),
        form.slots@.contains_key(key1(t.formation_slot_ref@)) && form.slots@[key1(
            t.formation_slot_ref@,
        )].generation != pin.slot_generation ==> !cas_holds(form, pin),
        !form.slots@.contains_key(key1(t.formation_slot_ref@)) ==> !cas_holds(form, pin),
        pins(pin, t) && slot_held(form, t) ==> cas_holds(form, pin),
        pins(pin, t) ==> pin.revision == t.revision && pin.state == t.state && pin.slot_generation
            == t.formation_slot_generation && pin.formation_id@ == t.formation_id@,
{
}

/// The slot of a new promotion is held for it from the start, and its intent has
/// no attempt, no observation, no result and no link.
pub proof fn a_new_promotion_has_nothing_yet<
    G: Fn(&str, &Json) -> Keyed,
    P: Fn(PortableTag, &Json) -> String,
    S: Fn(&str, u64, &str, &str, &Vec<String>) -> Json,
    A: Fn(&str, &str, &str, u64) -> String,
    B: Fn(&RealmBinding) -> BindingPin,
    C: Fn(&Json) -> String,
>(
    t: Intent,
    s: FormationSlot,
    realm: Seq<char>,
    principal: Seq<char>,
    binding: RealmBinding,
    mapping: SocietyMapping,
    args: PrepareArgs,
    frontier: Frontier,
    bundle: Bundle,
    mint: PrepareMint,
    keyed: G,
    crossing: Crossing<P, S, A, B, C>,
)
    requires
        prepared_intent(
            t,
            realm,
            principal,
            binding,
            mapping,
            args,
            frontier,
            bundle,
            mint,
            keyed,
            crossing,
        ),
        held_slot(s, realm, principal, args, mint, keyed),
    ensures
        t.latest_attempt_ref is None,
        t.latest_authentication_observation_ref is None,
        t.result is None,
        t.external_link_ref is None,
        t.terminal_at is None,
        s.holder_formation_id@ == t.formation_id@,
        s.acquired_at@ == mint.created_at@,
        s.released_at is None,
        s.state@ == "held"@,
        s.generation == 1,
        exists|hex: Seq<char>|
            {
                &&& #[trigger] keyed_both(
                    keyed,
                    "kovee-idempotency-domain-v1"@,
                    domain_document(mapping.society_ref@, principal, args.client_formation_key@),
                    t.command.idempotency_domain_digest@,
                    hex,
                )
                &&& t.command.byom_command_idempotency_key@ == "kef-"@ + hex.take(32)
            },
{
}

/// A credential is asked for at the level of the local owner, for two minutes.
pub proof fn a_credential_is_of_the_local_owner<G: Fn(&str, &Json) -> Keyed>(
    ask: CredentialAsk,
    keyed: G,
    realm: Seq<char>,
    t: Intent,
    mapping: SocietyMapping,
    nonce: Seq<char>,
    operation: Seq<char>,
    observation: Seq<char>,
    issued_at: i64,
)
    requires
        asks(ask, keyed, realm, t, mapping, nonce, operation, observation, issued_at),
    ensures
        ask.assurance_level@ == "personal-uds-owner"@,
        ask.lifetime_seconds == 120,
        ask.issued_at == issued_at,
        ask.nonce@ == nonce,
        ask.allowed_operation@ == operation,
        ask.authentication_observation_ref@ == observation,
        keyed_text(
            keyed,
            "kovee-channel-exporter-v1"@,
            channel_document(realm),
            ask.channel_digest@,
        ),
{
}

/// A link goes by the digest that it was made under.
pub proof fn a_link_goes_by_its_digest(
    l: ExternalLink,
    t: Intent,
    realm: Seq<char>,
    digest: Seq<char>,
    at: Seq<char>,
)
    requires
        link_row(l, t, realm, digest, at),
    ensures
        l.link_digest_hex@ == digest,
        l.link_ref@ == "xlink-"@ + digest.take(24),
        l.formation_id@ == t.formation_id@,
        l.realm_ref@ == realm,
{
}

/// A link is begun for a committed result and for nothing else: the pair is
/// linking then, one revision on, its slot held as it was asked; a pair that
/// moved meanwhile is left, and so are attempts and links.
pub proof fn a_link_is_begun_for_a_commit<G: Fn(&str, &Json) -> Keyed + Copy>(
    form: Formation,
    after: Formation,
    journal: JournalView,
    after_journal: JournalView,
    pin: Pinned,
    slot_state: Seq<char>,
    stamp: Stamp<G>,
    r: Result<(), Problem>,
)
    requires
        begin_link_outcome(form, after, journal, after_journal, pin, slot_state, stamp, r),
        form.intents@[key1(pin.formation_id@)].revision < u64::MAX,
    ensures
        r is Err ==> after == form && after_journal == journal,
        r is Err ==> pin.state is ByomCommitted && r->Err_0@ == stale_revision_view(pin.revision),
        pin.state !is ByomCommitted ==> r is Ok && after == form && after_journal == journal,
        pin.state is ByomCommitted && cas_holds(form, pin) ==> {
            let t = form.intents@[key1(pin.formation_id@)];
            let u = after.intents@[key1(pin.formation_id@)];
            let s = after.slots@[key1(t.formation_slot_ref@)];
            &&& r is Ok
            &&& u.state is Linking
            &&& u.revision == t.revision + 1
            &&& u.result == t.result
            &&& u.external_link_ref == t.external_link_ref
            &&& u.terminal_at is None
            &&& s.state@ == slot_state
            &&& s.released_at is None
            &&& after.attempts == form.attempts
            &&& after.links == form.links
            &&& after_journal.events == journal.events.push(after_journal.events.last())
            &&& after_journal.events.last().kind is FormationLinking
        },
        pin.state is ByomCommitted && !cas_holds(form, pin) ==> r is Err,
{
}

/// What a send came to is taken for what it is: of what is not known, and of a
/// pair that is not submitting, nothing is taken; a failure is an error and
/// spends no credential; a result without a digest is refused; any other result
/// goes on to its link, and is told by the link's revision or its refusal.
pub proof fn a_send_is_taken_for_what_it_came_to<
    G: Fn(&str, &Json) -> Keyed + Copy,
    W: FnOnce(IntentState, &Fact) -> Option<Step>,
>(
    before: Formation,
    after: Formation,
    ledger: Ledger,
    after_ledger: Ledger,
    journal: JournalView,
    after_journal: JournalView,
    realm: Seq<char>,
    id: Seq<char>,
    sent: Result<Option<ResultEnvelope>, SendFailure>,
    issuer: Seq<char>,
    resolve: W,
    now: i64,
    slot_state: Seq<char>,
    stamp: Stamp<G>,
    r: Result<StartAction, Problem>,
)
    requires
        sent_outcome(
            before,
            after,
            ledger,
            after_ledger,
            journal,
            after_journal,
            realm,
            id,
            sent,
            issuer,
            resolve,
            now,
            slot_state,
            stamp,
            r,
        ),
    ensures
        !before.intents@.contains_key(key1(id)) || before.intents@[key1(id)].realm_ref@ != realm
            ==> r is Err && r->Err_0@ == internal_view() && after == before && after_ledger
            == ledger && after_journal == journal,
        intent_of(before, realm, id) is Some && intent_of(before, realm, id)->0.state !is Submitting
            ==> r == Ok::<StartAction, Problem>(
            StartAction::Report(intent_of(before, realm, id)->0.revision),
        ) && after == before && after_ledger == ledger && after_journal == journal,
        intent_of(before, realm, id) is Some && intent_of(before, realm, id)->0.state is Submitting
            && !attempt_stands(before, ledger, intent_of(before, realm, id)->0, issuer) ==> r is Err
            && after == before && after_ledger == ledger && after_journal == journal,
        sent is Err ==> after_ledger == ledger,
        sent is Err && intent_of(before, realm, id) is Some && intent_of(
            before,
            realm,
            id,
        )->0.state is Submitting ==> r is Err,
        sent is Ok && sent->Ok_0 is None ==> after == before && after_ledger == ledger
            && after_journal == journal,
        sent is Ok && sent->Ok_0 is None && intent_of(before, realm, id) is Some && intent_of(
            before,
            realm,
            id,
        )->0.state is Submitting ==> r is Err,
        r is Ok && !(r->Ok_0 is Report) ==> {
            &&& sent is Ok
            &&& sent->Ok_0 is Some
            &&& r->Ok_0 is Linked
            &&& exists|
                mid: Formation,
                mid_journal: JournalView,
            |
                #[trigger] link_outcome(
                    mid,
                    after,
                    mid_journal,
                    after_journal,
                    realm,
                    intent_of(before, realm, id)->0.formation_id@,
                    slot_state,
                    stamp,
                    Ok(r->Ok_0->Linked_0),
                )
        },
{
    if r is Ok && !(r->Ok_0 is Report) {
        let t = intent_of(before, realm, id)->0;
        assert(t.state is Submitting);
        assert(sent is Ok && sent->Ok_0 is Some);
        let envelope = sent->Ok_0->0;
        let a = t.latest_attempt_ref->0@;
        let row = choose|row: Option<Step>|
            {
                &&& #[trigger] resolve.ensures((t.state, &Fact::Committed(envelope)), row)
                &&& result_linked(
                    before,
                    after,
                    ledger,
                    after_ledger,
                    journal,
                    after_journal,
                    realm,
                    t,
                    a,
                    credential_key(before, a, issuer),
                    envelope,
                    row,
                    now,
                    slot_state,
                    stamp,
                    r,
                )
            };
        let (pin, mid, mid_journal, recorded) = choose|
            pin: Pinned,
            mid: Formation,
            mid_journal: JournalView,
            recorded: Result<u64, Problem>,
        |
            {
                &&& pins(pin, t)
                &&& #[trigger] result_outcome(
                    before,
                    mid,
                    ledger,
                    after_ledger,
                    journal,
                    mid_journal,
                    pin,
                    a,
                    credential_key(before, a, issuer),
                    envelope,
                    row,
                    now,
                    stamp,
                    recorded,
                )
                &&& match recorded {
                    Err(p) => {
                        &&& r == Err::<StartAction, Problem>(p)
                        &&& after == mid
                        &&& after_journal == mid_journal
                    },
                    Ok(_) => exists|linked: Result<u64, Problem>|
                        {
                            &&& #[trigger] link_outcome(
                                mid,
                                after,
                                mid_journal,
                                after_journal,
                                realm,
                                t.formation_id@,
                                slot_state,
                                stamp,
                                linked,
                            )
                            &&& linked_action(linked, r)
                        },
                }
            };
        let linked = choose|linked: Result<u64, Problem>|
            {
                &&& #[trigger] link_outcome(
                    mid,
                    after,
                    mid_journal,
                    after_journal,
                    realm,
                    t.formation_id@,
                    slot_state,
                    stamp,
                    linked,
                )
                &&& linked_action(linked, r)
            };
        assert(linked == Ok::<u64, Problem>(r->Ok_0->Linked_0));
    }
}

/// A fact of byom is taken for a promotion of the realm that is not over: one
/// that is over stays as it is, and one that is not there is not found.
pub proof fn a_fact_is_for_what_is_open<
    G: Fn(&str, &Json) -> Keyed + Copy,
    W: FnOnce(IntentState, &Fact) -> Option<Step>,
>(
    form: Formation,
    after: Formation,
    journal: JournalView,
    after_journal: JournalView,
    realm: Seq<char>,
    id: Seq<char>,
    resolve: W,
    fact: Fact,
    slot_state: Seq<char>,
    stamp: Stamp<G>,
    r: Result<(), Problem>,
)
    requires
        reconcile_fact_outcome(
            form,
            after,
            journal,
            after_journal,
            realm,
            id,
            resolve,
            fact,
            slot_state,
            stamp,
            r,
        ),
    ensures
        !form.intents@.contains_key(key1(id)) || form.intents@[key1(id)].realm_ref@ != realm
            ==> r is Err && r->Err_0@ == not_found_view() && after == form && after_journal
            == journal,
        intent_of(form, realm, id) is Some && (intent_of(form, realm, id)->0.state is Linked
            || intent_of(form, realm, id)->0.state is Canceled) ==> r is Ok && after == form
            && after_journal == journal,
        intent_of(form, realm, id) is Some && intent_of(form, realm, id)->0.state !is Linked
            && intent_of(form, realm, id)->0.state !is Canceled ==> exists|row: Option<Step>|
            {
                &&& #[trigger] resolve.ensures(
                    (intent_of(form, realm, id)->0.state, &fact),
                    row,
                )
                &&& fact_settled(
                    form,
                    after,
                    journal,
                    after_journal,
                    realm,
                    id,
                    row,
                    fact,
                    slot_state,
                    stamp,
                    r,
                )
            },
{
}

/// A proof of possession is of the command and its domain, under the nonce, the
/// pin and the actor that it is shown with.
pub proof fn a_proof_is_of_the_command<V: Fn(&str, &str, &str, &str, &str) -> Json>(
    prove: V,
    t: Intent,
    nonce: Seq<char>,
    pin: Seq<char>,
    actor: Seq<char>,
    shown: JsonView,
)
    requires
        proved(prove, t, nonce, pin, actor, shown),
    ensures
        exists|c: &str, d: &str, n: &str, p: &str, a: &str, out: Json|
            {
                &&& #[trigger] prove.ensures((c, d, n, p, a), out)
                &&& c@ == t.canonical_byom_command_digest@
                &&& d@ == t.command.idempotency_domain_digest@
                &&& n@ == nonce
                &&& p@ == pin
                &&& a@ == actor
                &&& out@ == shown
            },
{
}

/// A command is ended by asking byom, under a proof over the very command and
/// the fresh credential, and the answer is the fact: what is refused is handed
/// on, and silence is an unknown fact.
pub proof fn an_end_is_asked_of_byom<
    V: Fn(&str, &str, &str, &str, &str) -> Json,
    F: FnOnce(&Json) -> Asked<Result<Fact, String>>,
>(
    version: Json,
    intent: Intent,
    pin: BindingPin,
    credential: FreshCredential,
    reason: Seq<char>,
    prove: V,
    call: F,
    r: Result<Fact, Problem>,
)
    requires
        ending_outcome(version, intent, pin, credential, reason, prove, call, r),
    ensures
        exists|shown: JsonView, answer: Asked<Result<Fact, String>>|
            {
                &&& #[trigger] asked(
                    call,
                    terminalize_document(version@, intent, pin, credential, reason, shown),
                    answer,
                )
                &&& proved(
                    prove,
                    intent,
                    credential.nonce@,
                    pin.digest@,
                    credential.source_actor_binding_digest@,
                    shown,
                )
                &&& answer matches Asked::Answer(Ok(f)) ==> r == Ok::<Fact, Problem>(f)
                &&& answer matches Asked::Answer(Err(e)) ==> r is Err && r->Err_0@.kind
                    == ProblemKind::Unavailable && r->Err_0@.detail == Some(e@)
                &&& answer is Silent ==> r == Ok::<Fact, Problem>(Fact::Unknown)
                &&& answer matches Asked::Refused(_, p) ==> r == Err::<Fact, Problem>(p)
            },
{
}

/// An end is begun under a credential for that one operation and that very
/// observation, where the outcome is open.
pub proof fn an_end_is_begun_under_its_credential<
    G: Fn(&str, &Json) -> Keyed,
    K: Fn(&CredentialAsk, &RealmBinding) -> Result<Minted, String>,
>(
    form: Formation,
    ledger: Ledger,
    after: Ledger,
    gov: Governance,
    realm: Seq<char>,
    id: Seq<char>,
    observation: Option<String>,
    reason: Option<String>,
    nonce: Seq<char>,
    issued_at: i64,
    keyed: G,
    issue: K,
    r: Result<Terminalization, Problem>,
)
    requires
        terminalize_begin_outcome(
            form,
            ledger,
            after,
            gov,
            realm,
            id,
            observation,
            reason,
            nonce,
            issued_at,
            keyed,
            issue,
            r,
        ),
        intent_of(form, realm, id) is Some,
        intent_of(form, realm, id)->0.state.open_outcome(),
        observation is Some,
        seam_of(gov, realm) is Some,
    ensures
        exists|minted: Result<Minted, String>|
            {
                &&& #[trigger] credential_asked(
                    issue,
                    keyed,
                    realm,
                    intent_of(form, realm, id)->0,
                    seam_of(gov, realm)->0,
                    nonce,
                    "external_command_terminalize"@,
                    observation->0@,
                    issued_at,
                    minted,
                )
                &&& terminalize_outcome(
                    form,
                    ledger,
                    after,
                    gov,
                    realm,
                    id,
                    observation,
                    reason,
                    minted,
                    r,
                )
            },
{
}

/// A start of what is committed or linking goes on to the link and spends no
/// credential; one that is linked is only reported; any other opens an attempt,
/// which is what may be sent.
pub proof fn a_start_goes_on_from_where_it_stands<
    G: Fn(&str, &Json) -> Keyed + Copy,
    B: Fn(&RealmBinding) -> BindingPin + Copy,
    K: Fn(&CredentialAsk, &RealmBinding) -> Result<Minted, String> + Copy,
    V: Fn(&str, &str, &str, &str, &str) -> Json + Copy,
>(
    before: Formation,
    after: Formation,
    ledger: Ledger,
    after_ledger: Ledger,
    journal: JournalView,
    after_journal: JournalView,
    gov: Governance,
    realm: Seq<char>,
    id: Seq<char>,
    observation: Seq<char>,
    slot_state: Seq<char>,
    mint: AttemptMint,
    fresh: Fresh<B, K, V>,
    stamp: Stamp<G>,
    r: Result<StartAction, Problem>,
)
    requires
        start_outcome(
            before,
            after,
            ledger,
            after_ledger,
            journal,
            after_journal,
            gov,
            realm,
            id,
            observation,
            slot_state,
            mint,
            fresh,
            stamp,
            r,
        ),
    ensures
        intent_of(before, realm, id) is None ==> r is Err && r->Err_0@ == not_found_view() && after
            == before && after_ledger == ledger && after_journal == journal,
        r is Ok && r->Ok_0 is Report ==> {
            &&& intent_of(before, realm, id)->0.state is Linked
            &&& r->Ok_0->Report_0 == intent_of(before, realm, id)->0.revision
            &&& after == before
            &&& after_ledger == ledger
            &&& after_journal == journal
        },
        r is Ok && r->Ok_0 is Linked ==> {
            let t = intent_of(before, realm, id)->0;
            &&& t.state is ByomCommitted || t.state is Linking
            &&& after_ledger == ledger
            &&& link_outcome(
                before,
                after,
                journal,
                after_journal,
                realm,
                id,
                slot_state,
                stamp,
                Ok(r->Ok_0->Linked_0),
            )
        },
        r is Ok && r->Ok_0 is Submit ==> {
            let t = intent_of(before, realm, id)->0;
            &&& t.state !is Linked
            &&& t.state !is ByomCommitted
            &&& t.state !is Linking
            &&& r->Ok_0->attempt_id@ == mint.attempt_id@
        },
{
    if r is Ok && r->Ok_0 is Linked {
        let linked = choose|linked: Result<u64, Problem>|
            {
                &&& #[trigger] link_outcome(
                    before,
                    after,
                    journal,
                    after_journal,
                    realm,
                    id,
                    slot_state,
                    stamp,
                    linked,
                )
                &&& linked_action(linked, r)
            };
        assert(linked == Ok::<u64, Problem>(r->Ok_0->Linked_0));
    }
}

/// The snapshot of a slot is of the Society and its epoch, the rule, the proposal
/// and the sponsors, and its digest is the portable one of that snapshot.
pub proof fn a_snapshot_is_of_its_slot<
    P: Fn(PortableTag, &Json) -> String,
    S: Fn(&str, u64, &str, &str, &Vec<String>) -> Json,
>(
    portable: P,
    snapshot: S,
    society: Seq<char>,
    epoch: u64,
    rule: Seq<char>,
    proposal: Seq<char>,
    sponsors: Seq<Seq<char>>,
    text: Seq<char>,
)
    requires
        snapshot_made(portable, snapshot, society, epoch, rule, proposal, sponsors, text),
    ensures
        exists|so: &str, ru: &str, pr: &str, sp: &Vec<String>, out: Json|
            {
                &&& #[trigger] snapshot.ensures((so, epoch, ru, pr, sp), out)
                &&& so@ == society
                &&& ru@ == rule
                &&& pr@ == proposal
                &&& crate::text::views(sp@) == sponsors
                &&& portable_made(portable, PortableTag::SlotSnapshot, out@, text)
            },
{
}

/// A fresh attempt is pinned to the binding that stands now.
pub proof fn a_fresh_attempt_is_pinned_to_what_stands<
    G: Fn(&str, &Json) -> Keyed + Copy,
    B: Fn(&RealmBinding) -> BindingPin + Copy,
    K: Fn(&CredentialAsk, &RealmBinding) -> Result<Minted, String> + Copy,
    V: Fn(&str, &str, &str, &str, &str) -> Json + Copy,
>(
    fresh: Fresh<B, K, V>,
    keyed: G,
    form: Formation,
    binding: RealmBinding,
    mapping: SocietyMapping,
    realm: Seq<char>,
    formation: Seq<char>,
    observation: Seq<char>,
    mint: AttemptMint,
    now: BindingPin,
    minted: Result<Minted, String>,
)
    requires
        fresh_made(
            fresh,
            keyed,
            form,
            Some((binding, mapping)),
            realm,
            formation,
            observation,
            mint,
            now,
            minted,
        ),
    ensures
        fresh.pin.ensures((&binding,), now),
{
}

} // verus!
