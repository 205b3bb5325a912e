//! The model broker: the durable records of a governed model call, and the
//! order in which they are written.
//!
//! The order is the safety property. The disclosure is staged before anyone
//! can ask for authority over it; the effect is recorded before the permit is
//! consumed; the attempt is recorded `dispatching` before the wire opens; and
//! the one use of a consumption is claimed before any byte leaves.

use vstd::prelude::*;

use crate::budget::{reserved, reserved_in, settle, settle_done, settle_fits, Meter, Reservation,
    Reservations, Settlement};
use crate::digests::{keys_all, Keyed};
use crate::documents::{context_id_document, context_id_subject, disclosure_id_document,
    disclosure_id_subject, host_effect_document, host_effect_subject, permit_document,
    permit_request, usage_document, usage_request, Wire};
use crate::episode::{BindingState, EpisodeBinding, Episodes};
use crate::invoke::{binding_refusal, check_binding, Invocation, Invocations};
use crate::journal::{Actor, ActorView, EventKind, EventView, Journal, JournalView, NewEvent};
use crate::json::{bool_member, members, nullable, nullable_text, number, number_member,
    number_of, object, optional, put, put_bool, put_number, put_optional, put_text, read_stored,
    stored, text_member, Json, JsonView};
use crate::problem::{internal, internal_view, not_found, not_found_view, problem, refusal_with,
    Problem, ProblemKind, ProblemView};
use crate::table::{key1, Key, Row, Table};
use crate::text::{cat2, cat3, cat4, first_chars, opt_view, same};

use vstd::string::*;

verus! {

/// Where a crash drill stops the chain: nowhere, in ordinary running.
#[derive(Debug, Clone, Copy, PartialEq, Eq, Structural)]
pub enum Fault {
    Nowhere,
    /// Stop right after the prepared effect is recorded.
    AbortAfterPrepare,
    /// Stop right after the attempt is recorded as dispatching.
    AbortAfterDispatchRecord,
}

/// Byom's authorization for one model call. Every member is byom's.
#[derive(Debug)]
pub struct ActAuthorization {
    pub act_intent_ref: String,
    pub act_intent_digest: String,
    pub act_revision: u64,
    pub subject_digest: String,
    /// Byom's one-shot key: the effect's identity.
    pub stable_execution_key: String,
    pub budget_reservation_set_ref: String,
}

/// What the worker asked for.
#[derive(Debug, Clone, Copy)]
pub struct CompleteRequest<'a> {
    pub realm: &'a str,
    pub project: Option<&'a str>,
    pub attempt_id: &'a str,
    pub fence_epoch: u64,
    pub model_profile_ref: &'a str,
    pub purpose_ref: &'a str,
    pub classification_ref: &'a str,
    pub system: Option<&'a str>,
    pub prompt: &'a str,
    pub max_output_tokens: u64,
    /// The governed episode that the call runs inside, if any.
    pub stable_binding_key: Option<&'a str>,
}

#[derive(Debug, Clone, Copy, PartialEq, Eq, Structural)]
pub enum EffectState {
    Prepared,
    Dispatching,
    Completed,
    Ambiguous,
    Failed,
    Canceled,
}

impl EffectState {
    pub open spec fn name(self) -> Seq<char> {
        match self {
            EffectState::Prepared => "prepared"@,
            EffectState::Dispatching => "dispatching"@,
            EffectState::Completed => "completed"@,
            EffectState::Ambiguous => "ambiguous"@,
            EffectState::Failed => "failed"@,
            EffectState::Canceled => "canceled"@,
        }
    }

    pub fn as_str(self) -> (r: &'static str)
        ensures
            r@ == self.name(),
    {
        match self {
            EffectState::Prepared => "prepared",
            EffectState::Dispatching => "dispatching",
            EffectState::Completed => "completed",
            EffectState::Ambiguous => "ambiguous",
            EffectState::Failed => "failed",
            EffectState::Canceled => "canceled",
        }
    }

    /// A request may have been transmitted, and nobody knows: no retry.
    pub open spec fn frozen(self) -> bool {
        self is Ambiguous
    }

    pub fn retry_frozen(self) -> (r: bool)
        ensures
            r == self.frozen(),
    {
        match self {
            EffectState::Ambiguous => true,
            _ => false,
        }
    }
}

/// Measured tokens.
#[derive(Debug, Clone, Copy, PartialEq, Eq, Structural)]
pub struct Usage {
    pub input_tokens: u64,
    pub output_tokens: u64,
}

// -------------------------------------------------------------- the rows ----

/// One stored model effect, as it is read back.
#[derive(Debug, Clone, PartialEq, Eq)]
pub struct EffectRow {
    pub effect_id: String,
    pub state: String,
    pub execution_key: String,
    pub external_idempotency_key: String,
    pub act_intent_ref: String,
    pub disclosure_manifest_ref: String,
    pub provider_context_ref: String,
    pub episode_ref: Option<String>,
}

/// One model effect. Its execution key is byom's and stands once.
#[derive(Debug)]
pub struct Effect {
    pub effect_id: String,
    pub realm_ref: String,
    pub project_ref: Option<String>,
    pub invocation_ref: String,
    pub attempt_ref: String,
    pub kovee_invocation_fence: u64,
    pub stable_binding_key: Option<String>,
    pub episode_ref: Option<String>,
    pub byom_fence_epoch: Option<u64>,
    pub act_intent_ref: String,
    pub execution_key: String,
    pub external_idempotency_key: String,
    pub model_profile_ref: String,
    pub provider_binding_ref: String,
    pub subject_digest: String,
    pub host_effect_digest: String,
    pub disclosure_manifest_ref: String,
    pub disclosure_digest: String,
    pub provider_context_ref: String,
    pub provider_context_digest: String,
    pub state: EffectState,
}

impl Row for Effect {
    open spec fn key(&self) -> Key {
        key1(self.effect_id@)
    }

    fn has_key(&self, a: &str, b: &str) -> (r: bool) {
        proof {
            crate::text::empty_is(b@);
        }
        same(self.effect_id.as_str(), a) && b.is_empty()
    }
}

/// One try to perform an effect.
#[derive(Debug)]
pub struct EffectAttempt {
    pub effect_attempt_id: String,
    pub effect_id: String,
    pub attempt_ordinal: u64,
    pub consumption_ref: String,
    pub transport_profile: String,
    pub state: EffectState,
    pub retry_frozen: bool,
    pub external_ref: Option<String>,
    pub response_digest: Option<String>,
    pub usage: Option<Usage>,
    pub latency_ms: Option<u64>,
    pub observation: Option<String>,
    pub reconciliation: Option<String>,
    pub started_at: String,
    pub completed_at: Option<String>,
}

impl Row for EffectAttempt {
    open spec fn key(&self) -> Key {
        key1(self.effect_attempt_id@)
    }

    fn has_key(&self, a: &str, b: &str) -> (r: bool) {
        proof {
            crate::text::empty_is(b@);
        }
        same(self.effect_attempt_id.as_str(), a) && b.is_empty()
    }
}

/// One permit that byom consumed. Its one use is spent once.
#[derive(Debug)]
pub struct Consumption {
    pub consumption_id: String,
    pub effect_id: String,
    pub owner_endpoint_ref: String,
    pub owner_intent_ref: String,
    pub execution_key: String,
    pub owner_receipt_ref: String,
    pub owner_receipt_digest: String,
    pub mandate_use_ref: String,
    pub receipt: String,
    pub permit: String,
    pub replayed: bool,
    pub consumed_at: String,
    pub spent: bool,
}

impl Row for Consumption {
    open spec fn key(&self) -> Key {
        key1(self.consumption_id@)
    }

    fn has_key(&self, a: &str, b: &str) -> (r: bool) {
        proof {
            crate::text::empty_is(b@);
        }
        same(self.consumption_id.as_str(), a) && b.is_empty()
    }
}

/// One metering report: what it claims, as it was recorded before byom was
/// asked, what byom answered, and whether its number is applied here.
#[derive(Debug)]
pub struct UsageReport {
    pub stable_report_key: String,
    pub effect_attempt_id: String,
    pub episode_ref: String,
    pub usage: Usage,
    pub charge_cap: u64,
    pub recorded_at: String,
    pub answer: Option<ReportAnswer>,
    pub reported_at: Option<String>,
    pub applied: bool,
}

impl Row for UsageReport {
    open spec fn key(&self) -> Key {
        key1(self.stable_report_key@)
    }

    fn has_key(&self, a: &str, b: &str) -> (r: bool) {
        proof {
            crate::text::empty_is(b@);
        }
        same(self.stable_report_key.as_str(), a) && b.is_empty()
    }
}

/// One committed disclosure manifest.
#[derive(Debug)]
pub struct Disclosure {
    pub disclosure_id: String,
    pub realm_id: String,
    pub recipient_kind: String,
    pub record: String,
    pub digest: String,
    pub digest_hex: String,
    pub total_bytes: u64,
    pub created_at: String,
}

impl Row for Disclosure {
    open spec fn key(&self) -> Key {
        key1(self.disclosure_id@)
    }

    fn has_key(&self, a: &str, b: &str) -> (r: bool) {
        proof {
            crate::text::empty_is(b@);
        }
        same(self.disclosure_id.as_str(), a) && b.is_empty()
    }
}

/// One sealed provider-context chain.
#[derive(Debug)]
pub struct ProviderContext {
    pub provider_context_id: String,
    pub realm_ref: String,
    pub invocation_ref: String,
    pub attempt_ref: String,
    pub record: String,
    pub digest_hex: String,
    pub final_request_digest_hex: String,
    /// The wrapped erasure secret; gone once the record is erased.
    pub object_secret: Option<Vec<u8>>,
    pub created_at: String,
}

impl Row for ProviderContext {
    open spec fn key(&self) -> Key {
        key1(self.provider_context_id@)
    }

    fn has_key(&self, a: &str, b: &str) -> (r: bool) {
        proof {
            crate::text::empty_is(b@);
        }
        same(self.provider_context_id.as_str(), a) && b.is_empty()
    }
}

/// Everything the broker keeps.
pub struct Broker {
    pub effects: Table<Effect>,
    pub attempts: Table<EffectAttempt>,
    pub consumptions: Table<Consumption>,
    pub reports: Table<UsageReport>,
    pub disclosures: Table<Disclosure>,
    pub contexts: Table<ProviderContext>,
}

/// One execution key, one effect.
pub open spec fn effect_keys_distinct(rows: Seq<Effect>) -> bool {
    forall|i: int, j: int|
        0 <= i < j < rows.len() ==> (#[trigger] rows[i]).execution_key@ != (
        #[trigger] rows[j]).execution_key@
}

/// One execution key, one consumption.
pub open spec fn consumption_keys_distinct(rows: Seq<Consumption>) -> bool {
    forall|i: int, j: int|
        0 <= i < j < rows.len() ==> (#[trigger] rows[i]).execution_key@ != (
        #[trigger] rows[j]).execution_key@
}

/// Every attempt is of a recorded effect.
pub open spec fn attempts_grounded(b: Broker) -> bool {
    forall|i: int|
        0 <= i < b.attempts.rows@.len() ==> b.effects@.contains_key(
            key1((#[trigger] b.attempts.rows@[i]).effect_id@),
        )
}

impl Broker {
    pub open spec fn wf(&self) -> bool {
        &&& self.effects.wf()
        &&& self.attempts.wf()
        &&& self.consumptions.wf()
        &&& self.reports.wf()
        &&& self.disclosures.wf()
        &&& self.contexts.wf()
        &&& effect_keys_distinct(self.effects.rows@)
        &&& consumption_keys_distinct(self.consumptions.rows@)
        &&& attempts_grounded(*self)
    }

    pub fn new() -> (r: Broker)
        ensures
            r.wf(),
            r.effects.rows@.len() == 0,
            r.attempts.rows@.len() == 0,
            r.consumptions.rows@.len() == 0,
            r.reports.rows@.len() == 0,
            r.disclosures.rows@.len() == 0,
            r.contexts.rows@.len() == 0,
    {
        Broker {
            effects: Table::new(),
            attempts: Table::new(),
            consumptions: Table::new(),
            reports: Table::new(),
            disclosures: Table::new(),
            contexts: Table::new(),
        }
    }
}

// ---------------------------------------------------------------- events ----

impl JournalView {
    /// A transition is told by its event and by an audit line.
    pub open spec fn with_effect_event(self, e: EventView) -> JournalView {
        self.with_transition("model-effect.transition"@, "effect="@ + e.stream_id + " event="@, e)
    }
}

/// The event of one transition of an effect, under the broker's own identity.
pub open spec fn effect_event(kind: EventKind, effect_id: Seq<char>, payload: JsonView) -> EventView {
    EventView {
        kind,
        stream_id: effect_id,
        project_id: None,
        actor: ActorView::Broker,
        schema_ref: "schema:kovee-model-effect-v1"@,
        resource_ref: effect_id,
        resource_revision: Some(1u64),
        causation_ref: None,
        correlation_ref: effect_id,
        classification_ref: None,
        payload: Some(payload),
        once: true,
        named: None,
    }
}

fn emit(journal: &mut Journal, kind: EventKind, effect_id: &str, payload: Json)
    ensures
        final(journal)@ == old(journal)@.with_effect_event(effect_event(kind, effect_id@, payload@)),
{
    let detail = cat3("effect=", effect_id, " event=");
    journal.transition(
        "model-effect.transition",
        detail.as_str(),
        NewEvent {
            kind,
            stream_id: effect_id.to_owned(),
            project_id: None,
            actor: Actor::Broker,
            schema_ref: "schema:kovee-model-effect-v1".to_owned(),
            resource_ref: effect_id.to_owned(),
            resource_revision: Some(1),
            causation_ref: None,
            correlation_ref: effect_id.to_owned(),
            classification_ref: None,
            payload: Some(payload),
            once: true,
            named: None,
        },
    );
}

/// What is announced of a prepared effect.
pub open spec fn prepared_document(
    act: ActAuthorization,
    model_profile_ref: Seq<char>,
    provider_kind: ProviderKind,
    context_id: Seq<char>,
    plan: Planned,
) -> JsonView {
    JsonView::Object(
        seq![
            text_member("act_intent_ref"@, act.act_intent_ref@),
            text_member("disclosure_manifest_ref"@, plan.disclosure_manifest_ref@),
            bool_member("dispatched"@, false),
            text_member("execution_key"@, act.stable_execution_key@),
            ("final_provider_request_digest"@, stored(plan.final_request_digest@)),
            text_member("model_profile_ref"@, model_profile_ref),
            bool_member("permit_consumed"@, false),
            text_member("provider_context_manifest_ref"@, context_id),
            text_member("provider_kind"@, provider_kind.name()),
            text_member("state"@, "prepared"@),
        ],
    )
}

/// What is announced of a prepared effect.
fn prepared_payload(
    act: &ActAuthorization,
    model_profile_ref: &str,
    provider_kind: ProviderKind,
    context_id: &str,
    plan: &Planned,
) -> (r: Json)
    ensures
        r@ == prepared_document(*act, model_profile_ref@, provider_kind, context_id@, *plan),
{
    let mut v: Vec<(String, Json)> = Vec::new();
    put_text(&mut v, "act_intent_ref", act.act_intent_ref.as_str());
    put_text(&mut v, "disclosure_manifest_ref", plan.disclosure_manifest_ref.as_str());
    put_bool(&mut v, "dispatched", false);
    put_text(&mut v, "execution_key", act.stable_execution_key.as_str());
    put(&mut v, "final_provider_request_digest", read_stored(plan.final_request_digest.as_str()));
    put_text(&mut v, "model_profile_ref", model_profile_ref);
    put_bool(&mut v, "permit_consumed", false);
    put_text(&mut v, "provider_context_manifest_ref", context_id);
    put_text(&mut v, "provider_kind", provider_kind.as_str());
    put_text(&mut v, "state", "prepared");
    proof {
        assert(members(v@) =~= prepared_document(
            *act,
            model_profile_ref@,
            provider_kind,
            context_id@,
            *plan,
        )->Object_0);
    }
    object(v)
}

/// What is announced of an effect whose permit is minted. The destination is
/// no part of it.
pub open spec fn authorized_document(permit: Permit) -> JsonView {
    JsonView::Object(
        seq![
            text_member("consumption_ref"@, permit.consumption_ref@),
            bool_member("dispatched"@, false),
            text_member("mandate_use_ref"@, permit.mandate_use_ref@),
            number_member("max_uses"@, permit.max_uses),
            text_member("owner_protocol"@, permit.owner_protocol@),
            text_member("owner_receipt_ref"@, permit.owner_receipt_ref@),
            bool_member("permit_consumed"@, true),
            text_member("phase"@, permit.phase@),
            text_member("state"@, "prepared"@),
        ],
    )
}

/// What is announced of an effect whose permit is minted. The destination is
/// no part of it.
fn authorized_payload(permit: &Permit) -> (r: Json)
    ensures
        r@ == authorized_document(*permit),
{
    let mut v: Vec<(String, Json)> = Vec::new();
    put_text(&mut v, "consumption_ref", permit.consumption_ref.as_str());
    put_bool(&mut v, "dispatched", false);
    put_text(&mut v, "mandate_use_ref", permit.mandate_use_ref.as_str());
    put_number(&mut v, "max_uses", permit.max_uses);
    put_text(&mut v, "owner_protocol", permit.owner_protocol.as_str());
    put_text(&mut v, "owner_receipt_ref", permit.owner_receipt_ref.as_str());
    put_bool(&mut v, "permit_consumed", true);
    put_text(&mut v, "phase", permit.phase.as_str());
    put_text(&mut v, "state", "prepared");
    proof {
        assert(members(v@) =~= authorized_document(*permit)->Object_0);
    }
    object(v)
}

/// What is announced of an attempt before the wire opens.
pub open spec fn dispatching_document(
    attempt_id: Seq<char>,
    ordinal: u64,
    transport_profile: Seq<char>,
) -> JsonView {
    JsonView::Object(
        seq![
            number_member("attempt_ordinal"@, ordinal),
            bool_member("dispatched"@, true),
            text_member("effect_attempt_id"@, attempt_id),
            bool_member("permit_consumed"@, true),
            text_member("state"@, "dispatching"@),
            text_member("transport_profile"@, transport_profile),
        ],
    )
}

/// What is announced of an attempt before the wire opens.
fn dispatching_payload(attempt_id: &str, ordinal: u64, transport_profile: &str) -> (r: Json)
    ensures
        r@ == dispatching_document(attempt_id@, ordinal, transport_profile@),
{
    let mut v: Vec<(String, Json)> = Vec::new();
    put_number(&mut v, "attempt_ordinal", ordinal);
    put_bool(&mut v, "dispatched", true);
    put_text(&mut v, "effect_attempt_id", attempt_id);
    put_bool(&mut v, "permit_consumed", true);
    put_text(&mut v, "state", "dispatching");
    put_text(&mut v, "transport_profile", transport_profile);
    proof {
        assert(members(v@) =~= dispatching_document(
            attempt_id@,
            ordinal,
            transport_profile@,
        )->Object_0);
    }
    object(v)
}

/// What is announced of an exchange that is over.
pub open spec fn outcome_document(attempt_id: Seq<char>, outcome: Outcome) -> JsonView {
    JsonView::Object(
        seq![
            text_member("effect_attempt_id"@, attempt_id),
            number_member("latency_ms"@, outcome.latency_ms),
            ("observation"@, nullable(opt_view(outcome.observation))),
            ("provider_ref"@, nullable(opt_view(outcome.external_ref))),
            ("response_digest"@, nullable(opt_view(outcome.response_digest))),
            bool_member("retry_frozen"@, outcome.state.frozen()),
            text_member("state"@, outcome.state.name()),
            text_member("transport_profile"@, outcome.transport_profile@),
            (
                "usage"@,
                JsonView::Object(
                    seq![
                        number_member("input_tokens"@, outcome.usage.input_tokens),
                        number_member("output_tokens"@, outcome.usage.output_tokens),
                    ],
                ),
            ),
        ],
    )
}

/// What is announced of an exchange that is over.
fn outcome_payload(attempt_id: &str, outcome: &Outcome) -> (r: Json)
    ensures
        r@ == outcome_document(attempt_id@, *outcome),
{
    let mut usage_members: Vec<(String, Json)> = Vec::new();
    put_number(&mut usage_members, "input_tokens", outcome.usage.input_tokens);
    put_number(&mut usage_members, "output_tokens", outcome.usage.output_tokens);
    proof {
        assert(members(usage_members@) =~= (JsonView::Object(
                seq![
                    number_member("input_tokens"@, outcome.usage.input_tokens),
                    number_member("output_tokens"@, outcome.usage.output_tokens),
                ],
            ))->Object_0);
    }
    let mut v: Vec<(String, Json)> = Vec::new();
    put_text(&mut v, "effect_attempt_id", attempt_id);
    put_number(&mut v, "latency_ms", outcome.latency_ms);
    put(&mut v, "observation", nullable_text(&outcome.observation));
    put(&mut v, "provider_ref", nullable_text(&outcome.external_ref));
    put(&mut v, "response_digest", nullable_text(&outcome.response_digest));
    put_bool(&mut v, "retry_frozen", outcome.state.retry_frozen());
    put_text(&mut v, "state", outcome.state.as_str());
    put_text(&mut v, "transport_profile", outcome.transport_profile.as_str());
    put(&mut v, "usage", object(usage_members));
    proof {
        assert(members(v@) =~= outcome_document(attempt_id@, *outcome)->Object_0);
    }
    object(v)
}

/// What is announced of a use that is reported.
pub open spec fn reported_document(
    attempt_id: Seq<char>,
    report_key: Seq<char>,
    usage: Usage,
    settled: bool,
) -> JsonView {
    JsonView::Object(
        seq![
            text_member("effect_attempt_id"@, attempt_id),
            number_member("input_tokens"@, usage.input_tokens),
            number_member("output_tokens"@, usage.output_tokens),
            bool_member("settled_by_byom"@, settled),
            text_member("stable_report_key"@, report_key),
            text_member("state"@, "reported"@),
        ],
    )
}

/// What is announced of a use that is reported.
fn reported_payload(
    attempt_id: &str,
    report_key: &str,
    usage: Usage,
    settled: bool,
) -> (r: Json)
    ensures
        r@ == reported_document(attempt_id@, report_key@, usage, settled),
{
    let mut v: Vec<(String, Json)> = Vec::new();
    put_text(&mut v, "effect_attempt_id", attempt_id);
    put_number(&mut v, "input_tokens", usage.input_tokens);
    put_number(&mut v, "output_tokens", usage.output_tokens);
    put_bool(&mut v, "settled_by_byom", settled);
    put_text(&mut v, "stable_report_key", report_key);
    put_text(&mut v, "state", "reported");
    proof {
        assert(members(v@) =~= reported_document(
            attempt_id@,
            report_key@,
            usage,
            settled,
        )->Object_0);
    }
    object(v)
}

/// What is announced of an attempt that the startup sweep resolves.
pub open spec fn recovered_document(attempt_id: Seq<char>) -> JsonView {
    JsonView::Object(
        seq![
            text_member("effect_attempt_id"@, attempt_id),
            bool_member("recovered_at_startup"@, true),
            bool_member("retry_frozen"@, true),
            text_member("state"@, "ambiguous"@),
        ],
    )
}

/// What is announced of an attempt that the startup sweep resolves.
fn recovered_payload(attempt_id: &str) -> (r: Json)
    ensures
        r@ == recovered_document(attempt_id@),
{
    let mut v: Vec<(String, Json)> = Vec::new();
    put_text(&mut v, "effect_attempt_id", attempt_id);
    put_bool(&mut v, "recovered_at_startup", true);
    put_bool(&mut v, "retry_frozen", true);
    put_text(&mut v, "state", "ambiguous");
    proof {
        assert(members(v@) =~= recovered_document(attempt_id@)->Object_0);
    }
    object(v)
}

/// What is announced of an attempt that is reconciled.
pub open spec fn reconciled_document(
    attempt_id: Seq<char>,
    resolution: EffectState,
    observation: Seq<char>,
) -> JsonView {
    JsonView::Object(
        seq![
            text_member("effect_attempt_id"@, attempt_id),
            text_member("observation"@, observation),
            bool_member("retry_frozen"@, false),
            text_member("state"@, resolution.name()),
        ],
    )
}

/// What is announced of an attempt that is reconciled.
fn reconciled_payload(attempt_id: &str, resolution: EffectState, observation: &str) -> (r: Json)
    ensures
        r@ == reconciled_document(attempt_id@, resolution, observation@),
{
    let mut v: Vec<(String, Json)> = Vec::new();
    put_text(&mut v, "effect_attempt_id", attempt_id);
    put_text(&mut v, "observation", observation);
    put_bool(&mut v, "retry_frozen", false);
    put_text(&mut v, "state", resolution.as_str());
    proof {
        assert(members(v@) =~= reconciled_document(
            attempt_id@,
            resolution,
            observation@,
        )->Object_0);
    }
    object(v)
}

// --------------------------------------------------------------- staging ----

/// One exact item that leaves.
#[derive(Debug)]
pub struct DisclosureItem {
    pub ref_: String,
    pub revision: Option<u64>,
    pub digest: String,
    pub size: u64,
}

/// Whether a digest is what the hash of a text came to.
pub open spec fn hashed<T: Fn(&str) -> String>(hash: T, text: Seq<char>, digest: Seq<char>) -> bool {
    exists|t: &str, out: String|
        {
            &&& t@ == text
            &&& out@ == digest
            &&& #[trigger] hash.ensures((t,), out)
        }
}

/// A hash takes every text.
pub open spec fn hashes_all<T: Fn(&str) -> String>(hash: T) -> bool {
    forall|t: &str| #[trigger] hash.requires((t,))
}

pub open spec fn item_is<T: Fn(&str) -> String>(
    item: DisclosureItem,
    attempt: Seq<char>,
    part: Seq<char>,
    text: &str,
    hash: T,
) -> bool {
    &&& item.ref_@ == attempt + part
    &&& item.revision == Some(1u64)
    &&& hashed(hash, text@, item.digest@)
    &&& item.size == text.spec_bytes().len() as usize
}

/// The exact items that leave: the system instruction, where there is one,
/// and the prompt, each with its digest and its size in bytes.
pub open spec fn items_of<T: Fn(&str) -> String>(
    request: CompleteRequest<'_>,
    hash: T,
    items: Seq<DisclosureItem>,
) -> bool {
    match request.system {
        Some(system) => {
            &&& items.len() == 2
            &&& item_is(items[0], request.attempt_id@, "#system"@, system, hash)
            &&& item_is(items[1], request.attempt_id@, "#prompt"@, request.prompt, hash)
        },
        None => {
            &&& items.len() == 1
            &&& item_is(items[0], request.attempt_id@, "#prompt"@, request.prompt, hash)
        },
    }
}

/// The items that a call discloses.
pub fn disclosed_items<T: Fn(&str) -> String>(request: &CompleteRequest<'_>, hash: T) -> (r: Vec<
    DisclosureItem,
>)
    requires
        hashes_all(hash),
    ensures
        items_of(*request, hash, r@),
{
    let mut items: Vec<DisclosureItem> = Vec::new();
    if let Some(system) = request.system {
        let digest = hash(system);
        proof {
            assert(hash.ensures((system,), digest));
        }
        items.push(
            DisclosureItem {
                ref_: cat2(request.attempt_id, "#system"),
                revision: Some(1),
                digest,
                size: system.len() as u64,
            },
        );
    }
    let prompt = request.prompt;
    let digest = hash(prompt);
    proof {
        assert(hash.ensures((prompt,), digest));
    }
    items.push(
        DisclosureItem {
            ref_: cat2(request.attempt_id, "#prompt"),
            revision: Some(1),
            digest,
            size: prompt.len() as u64,
        },
    );
    items
}

#[derive(Debug, Clone, Copy, PartialEq, Eq, Structural)]
pub enum SegmentKind {
    SystemInstruction,
    CollaborationItem,
    AdapterWrapper,
}

/// One link of the provider-context chain.
#[derive(Debug)]
pub struct Segment {
    pub kind: SegmentKind,
    pub ref_: String,
    pub revision: u64,
    pub digest: String,
    pub classification_ref: String,
}

pub open spec fn segment_is<T: Fn(&str) -> String>(
    s: Segment,
    kind: SegmentKind,
    reference: Seq<char>,
    text: Seq<char>,
    classification: Seq<char>,
    hash: T,
) -> bool {
    &&& s.kind == kind
    &&& s.ref_@ == reference
    &&& s.revision == 1
    &&& hashed(hash, text, s.digest@)
    &&& s.classification_ref@ == classification
}

/// The ordered chain of one call: the assistant instruction, where there is
/// one, the collaboration item, and the adapter's wrapper. Nothing else.
pub open spec fn segments_of<T: Fn(&str) -> String>(
    request: CompleteRequest<'_>,
    adapter_version: Seq<char>,
    hash: T,
    segments: Seq<Segment>,
) -> bool {
    let n = if request.system is Some {
        1int
    } else {
        0int
    };
    &&& segments.len() == n + 2
    &&& request.system is Some ==> segment_is(
        segments[0],
        SegmentKind::SystemInstruction,
        request.attempt_id@ + "#system"@,
        request.system->0@,
        request.classification_ref@,
        hash,
    )
    &&& segment_is(
        segments[n],
        SegmentKind::CollaborationItem,
        request.attempt_id@ + "#prompt"@,
        request.prompt@,
        request.classification_ref@,
        hash,
    )
    &&& segment_is(
        segments[n + 1],
        SegmentKind::AdapterWrapper,
        adapter_version,
        adapter_version,
        request.classification_ref@,
        hash,
    )
}

/// The chain of one call.
pub fn chain_segments<T: Fn(&str) -> String>(
    request: &CompleteRequest<'_>,
    adapter_version: &str,
    hash: T,
) -> (r: Vec<Segment>)
    requires
        hashes_all(hash),
    ensures
        segments_of(*request, adapter_version@, hash, r@),
{
    let mut segments: Vec<Segment> = Vec::new();
    if let Some(system) = request.system {
        let digest = hash(system);
        proof {
            assert(hash.ensures((system,), digest));
        }
        segments.push(
            Segment {
                kind: SegmentKind::SystemInstruction,
                ref_: cat2(request.attempt_id, "#system"),
                revision: 1,
                digest,
                classification_ref: request.classification_ref.to_owned(),
            },
        );
    }
    let prompt = request.prompt;
    let said = hash(prompt);
    let wrapped = hash(adapter_version);
    proof {
        assert(hash.ensures((prompt,), said));
        assert(hash.ensures((adapter_version,), wrapped));
    }
    segments.push(
        Segment {
            kind: SegmentKind::CollaborationItem,
            ref_: cat2(request.attempt_id, "#prompt"),
            revision: 1,
            digest: said,
            classification_ref: request.classification_ref.to_owned(),
        },
    );
    segments.push(
        Segment {
            kind: SegmentKind::AdapterWrapper,
            ref_: adapter_version.to_owned(),
            revision: 1,
            digest: wrapped,
            classification_ref: request.classification_ref.to_owned(),
        },
    );
    segments
}

/// A derived identifier: a prefix and the head of a digest.
pub open spec fn derived_id(prefix: Seq<char>, digest: Seq<char>) -> Seq<char> {
    prefix + "-"@ + digest.take(32)
}

/// Whether a text holds lower-case hexadecimal digits alone.
pub open spec fn lower_hex(s: Seq<char>) -> bool {
    forall|i: int|
        0 <= i < s.len() ==> '0' <= #[trigger] s[i] <= '9' || 'a' <= s[i] <= 'f'
}

/// A function of portable digests takes every document, and its values are
/// hexadecimal and no shorter than what identifiers are made of.
pub open spec fn identifies_all<D: Fn(&str, &Json) -> String>(digest: D) -> bool {
    &&& forall|tag: &str, doc: &Json| #[trigger] digest.requires((tag, doc))
    &&& forall|tag: &str, doc: &Json, out: String|
        #[trigger] digest.ensures((tag, doc), out) ==> out@.len() >= 32 && lower_hex(out@)
}

/// Whether an identifier is the one that a document's digest makes.
pub open spec fn id_derived<D: Fn(&str, &Json) -> String>(
    digest: D,
    prefix: Seq<char>,
    tag: Seq<char>,
    doc: JsonView,
    id: Seq<char>,
) -> bool {
    exists|t: &str, j: &Json, out: String|
        {
            &&& t@ == tag
            &&& j@ == doc
            &&& id == derived_id(prefix, out@)
            &&& #[trigger] digest.ensures((t, j), out)
        }
}

/// Derives an identifier from a content: the same digest, the same identifier.
pub fn derive_id<D: Fn(&str, &Json) -> String>(prefix: &str, tag: &str, inputs: &Json, digest: D) -> (r:
    String)
    requires
        identifies_all(digest),
    ensures
        id_derived(digest, prefix@, tag@, inputs@, r@),
{
    let hex = digest(tag, inputs);
    proof {
        assert(digest.ensures((tag, inputs), hex));
    }
    let head = first_chars(hex.as_str(), 32);
    proof {
        assert(hex@.take(32) =~= head@);
    }
    cat3(prefix, "-", head.as_str())
}

/// A disclosure manifest as it was drawn up: the manifest, or why it is
/// incomplete, or why the context assembly does not go on it.
#[derive(Debug)]
pub enum Drafted {
    Manifest {
        recipient_kind: String,
        record: String,
        digest: String,
        digest_hex: String,
        total_bytes: u64,
    },
    Incomplete(String),
    AssemblyRefused(String),
}

/// The row of a staged disclosure.
pub open spec fn staged_row(
    d: Disclosure,
    disclosure_id: Seq<char>,
    realm: Seq<char>,
    drafted: Drafted,
    at: Seq<char>,
) -> bool {
    &&& d.disclosure_id@ == disclosure_id
    &&& d.realm_id@ == realm
    &&& d.created_at@ == at
    &&& match drafted {
        Drafted::Manifest { recipient_kind, record, digest, digest_hex, total_bytes } => {
            &&& d.recipient_kind@ == recipient_kind@
            &&& d.record@ == record@
            &&& d.digest@ == digest@
            &&& d.digest_hex@ == digest_hex@
            &&& d.total_bytes == total_bytes
        },
        _ => false,
    }
}

/// What staging does and answers.
pub open spec fn stage_outcome(
    before: Broker,
    after: Broker,
    realm: Seq<char>,
    call_recorded: bool,
    disclosure_id: Seq<char>,
    stale: Option<String>,
    drafted: Drafted,
    at: Seq<char>,
    r: Result<usize, Problem>,
) -> bool {
    &&& r is Err ==> after == before
    &&& if !call_recorded {
        r is Err && r->Err_0@ == not_found_view()
    } else if before.disclosures@.contains_key(key1(disclosure_id)) {
        match stale {
            Some(e) => r is Err && r->Err_0@ == refusal_with(
                ProblemKind::Internal,
                "the staged disclosure no longer verifies"@,
                e@,
            ),
            None => {
                &&& r is Ok
                &&& r->Ok_0 < before.disclosures.rows@.len()
                &&& before.disclosures.rows@[r->Ok_0 as int] == before.disclosures@[key1(disclosure_id)]
                &&& after == before
            },
        }
    } else {
        match drafted {
            Drafted::Incomplete(e) => r is Err && r->Err_0@ == refusal_with(
                ProblemKind::Invalid,
                "the disclosure manifest is incomplete"@,
                e@,
            ),
            Drafted::AssemblyRefused(e) => r is Err && r->Err_0@ == refusal_with(
                ProblemKind::Invalid,
                "the disclosure manifest"@,
                e@,
            ),
            Drafted::Manifest { .. } => {
                let row = after.disclosures.rows@.last();
                &&& r is Ok
                &&& r->Ok_0 == before.disclosures.rows@.len()
                &&& after.disclosures.rows@ == before.disclosures.rows@.push(row)
                &&& staged_row(row, disclosure_id, realm, drafted, at)
                &&& after.effects == before.effects
                &&& after.attempts == before.attempts
                &&& after.consumptions == before.consumptions
                &&& after.reports == before.reports
                &&& after.contexts == before.contexts
            },
        }
    }
}

/// Commits the disclosure of one call under its identifier, once: a repeat
/// finds the committed one, which must still verify. The calling attempt and
/// its invocation must be recorded. `stale` is why a committed disclosure no
/// longer verifies, if it does not. The answer is its position.
pub fn commit_disclosure(
    broker: &mut Broker,
    realm: &str,
    call_recorded: bool,
    disclosure_id: &str,
    stale: &Option<String>,
    drafted: Drafted,
    at: &str,
) -> (r: Result<usize, Problem>)
    requires
        old(broker).wf(),
    ensures
        final(broker).wf(),
        stage_outcome(
            *old(broker),
            *final(broker),
            realm@,
            call_recorded,
            disclosure_id@,
            *stale,
            drafted,
            at@,
            r,
        ),
{
    if !call_recorded {
        return Err(not_found());
    }
    proof {
        reveal_strlit("");
        crate::text::empty_is(""@);
    }
    if let Some(i) = broker.disclosures.position(disclosure_id, "") {
        return match stale {
            Some(e) => Err(
                problem(
                    ProblemKind::Internal,
                    "the staged disclosure no longer verifies",
                    e.as_str(),
                ),
            ),
            None => Ok(i),
        };
    }
    match drafted {
        Drafted::Incomplete(e) => Err(
            problem(
                ProblemKind::Invalid,
                "the disclosure manifest is incomplete",
                e.as_str(),
            ),
        ),
        Drafted::AssemblyRefused(e) => Err(
            problem(ProblemKind::Invalid, "the disclosure manifest", e.as_str()),
        ),
        Drafted::Manifest { recipient_kind, record, digest, digest_hex, total_bytes } => {
            let at_pos: usize = broker.disclosures.rows.len();
            broker.disclosures.insert(
                Disclosure {
                    disclosure_id: disclosure_id.to_owned(),
                    realm_id: realm.to_owned(),
                    recipient_kind,
                    record,
                    digest,
                    digest_hex,
                    total_bytes,
                    created_at: at.to_owned(),
                },
            );
            Ok(at_pos)
        },
    }
}

/// The functions that the records of a call are made with: the hash of a text,
/// how items and segments are written in a document, and the digest of one.
#[derive(Clone, Copy)]
pub struct Making<T, I, W, D> {
    pub hash: T,
    pub items: I,
    pub segments: W,
    pub digest: D,
}

/// Items that read the same.
pub open spec fn items_alike(a: Seq<DisclosureItem>, b: Seq<DisclosureItem>) -> bool {
    &&& a.len() == b.len()
    &&& forall|i: int|
        0 <= i < a.len() ==> {
            &&& (#[trigger] a[i]).ref_@ == b[i].ref_@
            &&& a[i].revision == b[i].revision
            &&& a[i].digest@ == b[i].digest@
            &&& a[i].size == b[i].size
        }
}

/// Hash, writing and digest are functions of what they are given.
#[verifier::opaque]
pub open spec fn makes_the_same<
    T: Fn(&str) -> String + Copy,
    I: Fn(&Vec<DisclosureItem>) -> Json + Copy,
    W: Fn(&Vec<Segment>) -> Json + Copy,
    D: Fn(&str, &Json) -> String + Copy,
>(making: Making<T, I, W, D>) -> bool {
    &&& forall|a: &str, b: &str, x: String, y: String|
        #[trigger] making.hash.ensures((a,), x) && #[trigger] making.hash.ensures((b,), y) && a@ == b@
            ==> x@ == y@
    &&& forall|a: &Vec<DisclosureItem>, b: &Vec<DisclosureItem>, x: Json, y: Json|
        #[trigger] making.items.ensures((a,), x) && #[trigger] making.items.ensures((b,), y)
            && items_alike(a@, b@) ==> x@ == y@
    &&& forall|s: &str, t: &str, a: &Json, b: &Json, x: String, y: String|
        #[trigger] making.digest.ensures((s, a), x) && #[trigger] making.digest.ensures((t, b), y)
            && s@ == t@ && a@ == b@ ==> x@ == y@
}

/// Each of the functions takes every argument, and what it gives depends on
/// that alone.
pub open spec fn makes_all<
    T: Fn(&str) -> String + Copy,
    I: Fn(&Vec<DisclosureItem>) -> Json + Copy,
    W: Fn(&Vec<Segment>) -> Json + Copy,
    D: Fn(&str, &Json) -> String + Copy,
>(making: Making<T, I, W, D>) -> bool {
    &&& hashes_all(making.hash)
    &&& forall|v: &Vec<DisclosureItem>| #[trigger] making.items.requires((v,))
    &&& forall|v: &Vec<Segment>| #[trigger] making.segments.requires((v,))
    &&& identifies_all(making.digest)
    &&& makes_the_same(making)
}

/// What a disclosure manifest is drawn up with, beside its items.
#[derive(Debug)]
pub struct DisclosureAsk {
    pub disclosure_id: String,
    pub realm: String,
    pub project: Option<String>,
    pub space_id: Option<String>,
    pub recipient_ref: String,
    pub purpose_ref: String,
    pub classification_ref: String,
    pub provider_claims: Json,
    pub context_assembly_ref: Option<String>,
    pub context_assembly_digest: Option<String>,
    pub created_at: String,
}

/// The manifest of a call is drawn up for its own invocation: it counts as
/// created with it, so that a retry of the same call derives the same record.
/// It goes to the profile, under what the provider binding claims.
pub open spec fn asks_disclosure<T: Fn(&str) -> String>(
    ask: DisclosureAsk,
    id: Seq<char>,
    request: CompleteRequest<'_>,
    profile: ModelProfile,
    binding: ProviderBinding,
    v: Invocation,
    hash: T,
) -> bool {
    &&& ask.disclosure_id@ == id
    &&& ask.realm@ == request.realm@
    &&& opt_view(ask.project) == (match request.project {
        Some(p) => Some(p@),
        None => None,
    })
    &&& opt_view(ask.space_id) == opt_view(v.space_id)
    &&& ask.recipient_ref@ == "model-profile:"@ + profile.model_profile_id@
    &&& ask.purpose_ref@ == request.purpose_ref@
    &&& ask.classification_ref@ == request.classification_ref@
    &&& ask.provider_claims@ == binding.provider_claims@
    &&& opt_view(ask.context_assembly_ref) == opt_view(v.context_assembly_ref)
    &&& match v.context_assembly_ref {
        Some(a) => ask.context_assembly_digest is Some && hashed(
            hash,
            a@,
            ask.context_assembly_digest->0@,
        ),
        None => ask.context_assembly_digest is None,
    }
    &&& ask.created_at@ == v.created_at@
}

/// Whether an attempt and its invocation are on record.
pub open spec fn call_recorded(inv: Invocations, attempt: Seq<char>) -> bool {
    &&& inv.attempts@.contains_key(key1(attempt))
    &&& inv.invocations@.contains_key(key1(inv.attempts@[key1(attempt)].invocation_id@))
}

/// The invocation of an attempt.
pub open spec fn invocation_of(inv: Invocations, attempt: Seq<char>) -> Invocation {
    inv.invocations@[key1(inv.attempts@[key1(attempt)].invocation_id@)]
}

fn find_call(inv: &Invocations, attempt: &str) -> (r: Option<usize>)
    requires
        inv.wf(),
    ensures
        match r {
            Some(i) => {
                &&& call_recorded(*inv, attempt@)
                &&& i < inv.invocations.rows.len()
                &&& inv.invocations.rows@[i as int] == invocation_of(*inv, attempt@)
                &&& inv.invocations.rows@[i as int].invocation_id@
                    == inv.attempts@[key1(attempt@)].invocation_id@
            },
            None => !call_recorded(*inv, attempt@),
        },
{
    proof {
        reveal_strlit("");
        crate::text::empty_is(""@);
    }
    match inv.attempts.find(attempt, "") {
        None => None,
        Some(a) => inv.invocations.position(a.invocation_id.as_str(), ""),
    }
}

/// Whether a document is how the items of a call are written.
pub open spec fn items_written<
    T: Fn(&str) -> String + Copy,
    I: Fn(&Vec<DisclosureItem>) -> Json + Copy,
    W: Fn(&Vec<Segment>) -> Json + Copy,
    D: Fn(&str, &Json) -> String + Copy,
>(
    making: Making<T, I, W, D>,
    request: CompleteRequest<'_>,
    doc: JsonView,
) -> bool {
    exists|items: &Vec<DisclosureItem>, out: Json|
        {
            &&& items_of(request, making.hash, items@)
            &&& out@ == doc
            &&& #[trigger] making.items.ensures((items,), out)
        }
}

/// Whether an identifier is the one of a call's disclosure: it is derived from
/// what the call discloses, to whom and for what.
pub open spec fn disclosure_identified<
    T: Fn(&str) -> String + Copy,
    I: Fn(&Vec<DisclosureItem>) -> Json + Copy,
    W: Fn(&Vec<Segment>) -> Json + Copy,
    D: Fn(&str, &Json) -> String + Copy,
>(
    making: Making<T, I, W, D>,
    request: CompleteRequest<'_>,
    profile: ModelProfile,
    binding: ProviderBinding,
    items: JsonView,
    id: Seq<char>,
) -> bool {
    &&& items_written(making, request, items)
    &&& id_derived(
        making.digest,
        "disc"@,
        "kovee-disclosure-id-v1"@,
        disclosure_id_document(
            request,
            profile.model_profile_id@,
            stored(profile.digest@),
            items,
            binding.provider_claims@,
        ),
        id,
    )
}

/// Whether a manifest is what drawing one up came to.
pub open spec fn disclosure_drafted<
    T: Fn(&str) -> String,
    R: FnOnce(&DisclosureAsk, &Json) -> Drafted,
>(
    draft: R,
    id: Seq<char>,
    request: CompleteRequest<'_>,
    profile: ModelProfile,
    binding: ProviderBinding,
    v: Invocation,
    hash: T,
    items: JsonView,
    drafted: Drafted,
) -> bool {
    exists|ask: &DisclosureAsk, j: &Json|
        {
            &&& asks_disclosure(*ask, id, request, profile, binding, v, hash)
            &&& j@ == items
            &&& #[trigger] draft.ensures((ask, j), drafted)
        }
}

/// What staging a call's disclosure does and answers.
pub open spec fn stage_done<
    T: Fn(&str) -> String + Copy,
    I: Fn(&Vec<DisclosureItem>) -> Json + Copy,
    W: Fn(&Vec<Segment>) -> Json + Copy,
    D: Fn(&str, &Json) -> String + Copy,
    V: FnOnce(&Disclosure) -> Option<String>,
    R: FnOnce(&DisclosureAsk, &Json) -> Drafted,
>(
    before: Broker,
    after: Broker,
    inv: Invocations,
    request: CompleteRequest<'_>,
    profile: ModelProfile,
    binding: ProviderBinding,
    making: Making<T, I, W, D>,
    verify: V,
    draft: R,
    r: Result<usize, Problem>,
) -> bool {
    if !call_recorded(inv, request.attempt_id@) {
        r is Err && r->Err_0@ == not_found_view() && after == before
    } else {
        let v = invocation_of(inv, request.attempt_id@);
        exists|id: Seq<char>, items: JsonView, stale: Option<String>, drafted: Drafted|
            {
                &&& #[trigger] disclosure_identified(
                    making,
                    request,
                    profile,
                    binding,
                    items,
                    id,
                )
                &&& if before.disclosures@.contains_key(key1(id)) {
                    verify.ensures((&before.disclosures@[key1(id)],), stale)
                } else {
                    disclosure_drafted(
                        draft,
                        id,
                        request,
                        profile,
                        binding,
                        v,
                        making.hash,
                        items,
                        drafted,
                    )
                }
                &&& #[trigger] stage_outcome(
                    before,
                    after,
                    request.realm@,
                    true,
                    id,
                    stale,
                    drafted,
                    v.created_at@,
                    r,
                )
            }
    }
}

/// Stages the disclosure of one call and commits it, before anyone can ask for
/// authority over it. Its identifier is derived from the call's content, so an
/// exact retry of the same call finds the committed row, which must still
/// verify, instead of staging a second one. The answer is its position.
pub fn stage<
    T: Fn(&str) -> String + Copy,
    I: Fn(&Vec<DisclosureItem>) -> Json + Copy,
    W: Fn(&Vec<Segment>) -> Json + Copy,
    D: Fn(&str, &Json) -> String + Copy,
    V: FnOnce(&Disclosure) -> Option<String>,
    R: FnOnce(&DisclosureAsk, &Json) -> Drafted,
>(
    broker: &mut Broker,
    inv: &Invocations,
    request: &CompleteRequest<'_>,
    profile: &ModelProfile,
    binding: &ProviderBinding,
    making: Making<T, I, W, D>,
    verify: V,
    draft: R,
) -> (r: Result<usize, Problem>)
    requires
        old(broker).wf(),
        inv.wf(),
        makes_all(making),
        forall|d: &Disclosure| #[trigger] verify.requires((d,)),
        forall|ask: &DisclosureAsk, items: &Json| #[trigger] draft.requires((ask, items)),
    ensures
        final(broker).wf(),
        stage_done(
            *old(broker),
            *final(broker),
            *inv,
            *request,
            *profile,
            *binding,
            making,
            verify,
            draft,
            r,
        ),
{
    proof {
        reveal_strlit("");
        crate::text::empty_is(""@);
    }
    let at = match find_call(inv, request.attempt_id) {
        None => {
            return Err(not_found());
        },
        Some(i) => i,
    };
    let v = &inv.invocations.rows[at];
    let items = disclosed_items(request, making.hash);
    let write = making.items;
    let written = write(&items);
    let profiled = read_stored(profile.digest.as_str());
    let subject = disclosure_id_subject(
        request,
        profile.model_profile_id.as_str(),
        &profiled,
        &written,
        &binding.provider_claims,
    );
    let id = derive_id("disc", "kovee-disclosure-id-v1", &subject, making.digest);
    proof {
        assert(write.ensures((&items,), written));
        assert(items_written(making, *request, written@));
        assert(disclosure_identified(
            making,
            *request,
            *profile,
            *binding,
            written@,
            id@,
        ));
    }
    let mut stale: Option<String> = None;
    let mut drafted = Drafted::Incomplete(String::new());
    match broker.disclosures.position(id.as_str(), "") {
        Some(k) => {
            stale = verify(&broker.disclosures.rows[k]);
            proof {
                assert(verify.ensures((&broker.disclosures@[key1(id@)],), stale));
            }
        },
        None => {
            let hash = making.hash;
            let context_assembly_digest = match &v.context_assembly_ref {
                Some(a) => {
                    let t = a.as_str();
                    let h = hash(t);
                    proof {
                        assert(hash.ensures((t,), h));
                        assert(hashed(making.hash, a@, h@));
                    }
                    Some(h)
                },
                None => None,
            };
            let ask = DisclosureAsk {
                disclosure_id: id.clone(),
                realm: request.realm.to_owned(),
                project: match request.project {
                    Some(p) => Some(p.to_owned()),
                    None => None,
                },
                space_id: v.space_id.clone(),
                recipient_ref: cat2("model-profile:", profile.model_profile_id.as_str()),
                purpose_ref: request.purpose_ref.to_owned(),
                classification_ref: request.classification_ref.to_owned(),
                provider_claims: binding.provider_claims.copy(),
                context_assembly_ref: v.context_assembly_ref.clone(),
                context_assembly_digest,
                created_at: v.created_at.clone(),
            };
            drafted = draft(&ask, &written);
            proof {
                assert(draft.ensures((&ask, &written), drafted));
                assert(disclosure_drafted(
                    draft,
                    id@,
                    *request,
                    *profile,
                    *binding,
                    *v,
                    making.hash,
                    written@,
                    drafted,
                ));
            }
        },
    }
    let ghost the_stale = stale;
    let ghost the_drafted = drafted;
    let r = commit_disclosure(
        broker,
        request.realm,
        true,
        id.as_str(),
        &stale,
        drafted,
        v.created_at.as_str(),
    );
    proof {
        assert(stage_outcome(
            *old(broker),
            *broker,
            request.realm@,
            true,
            id@,
            the_stale,
            the_drafted,
            v.created_at@,
            r,
        ));
    }
    r
}

// --------------------------------------------------------------- prepare ----

/// Whether the effect at `i` is the one of an execution key.
pub open spec fn of_execution_key(rows: Seq<Effect>, key: Seq<char>, i: int) -> bool {
    0 <= i < rows.len() && rows[i].execution_key@ == key
}

fn effect_by_key(broker: &Broker, key: &str) -> (r: Option<usize>)
    ensures
        match r {
            Some(i) => of_execution_key(broker.effects.rows@, key@, i as int),
            None => forall|i: int| !#[trigger] of_execution_key(broker.effects.rows@, key@, i),
        },
{
    let mut i: usize = 0;
    while i < broker.effects.rows.len()
        invariant
            i <= broker.effects.rows.len(),
            forall|j: int| j < i ==> !#[trigger] of_execution_key(broker.effects.rows@, key@, j),
        decreases broker.effects.rows.len() - i,
    {
        if same(broker.effects.rows[i].execution_key.as_str(), key) {
            return Some(i);
        }
        i = i + 1;
    }
    None
}

/// The provider-context source fields that byom reported for an episode.
#[derive(Debug)]
pub enum SourceFields {
    Absent,
    /// They are there, and not of the agreed shape; the reason.
    Malformed(String),
    Given(Json),
}

/// The provider context and the plan of one call, as they were drawn up.
#[derive(Debug)]
pub struct Planned {
    pub invocation_ref: String,
    pub context_record: String,
    pub context_digest_hex: String,
    pub final_request_digest_hex: String,
    pub final_request_digest: String,
    pub wrapped_secret: Vec<u8>,
    pub external_idempotency_key: String,
    pub subject_digest: String,
    pub host_effect_digest: String,
    pub disclosure_manifest_ref: String,
    pub disclosure_digest: String,
    pub provider_context_digest: String,
}

/// How drawing up a call ended. The sealed plan itself, which the exchange is
/// later run on, is nothing that the broker looks into.
#[derive(Debug)]
pub enum PlanAnswer<X> {
    Planned(Planned, X),
    /// The context chain cannot be built; the reason.
    NoChain(String),
    /// The call cannot be planned; the reason.
    NoPlan(String),
}

/// Whether a stable key names an episode binding that is live.
pub open spec fn binding_live(eps: Episodes, key: Seq<char>) -> bool {
    eps.bindings@.contains_key(key1(key)) && eps.bindings@[key1(key)].state is Bound
}

/// Why an episode authorizes no model call.
pub open spec fn source_refusal(eps: Episodes, key: Option<&str>, source: SourceFields) -> Option<
    ProblemView,
> {
    match key {
        None => None,
        Some(k) => if !binding_live(eps, k@) {
            Some(
                refusal_with(
                    ProblemKind::StaleLease,
                    "this episode binding is not live"@,
                    "a fenced or released binding authorizes no model call"@,
                ),
            )
        } else {
            match source {
                SourceFields::Absent => Some(
                    refusal_with(
                        ProblemKind::Unavailable,
                        "byom reported no provider-context source fields for this Episode"@,
                        "the §12.1 fragment comes from episode_claim / context_manifest_show; Kovee never invents it (§16.6 item 5)"@,
                    ),
                ),
                SourceFields::Malformed(e) => Some(
                    refusal_with(
                        ProblemKind::Unavailable,
                        "byom's provider-context source fragment is not the shape C2 fixes"@,
                        e@,
                    ),
                ),
                SourceFields::Given(_) => None,
            }
        },
    }
}

/// The source fields that go into a call's provider context: byom's, where the
/// call runs inside an episode.
pub open spec fn source_given(key: Option<&str>, source: SourceFields) -> Option<JsonView> {
    match (key, source) {
        (Some(_), SourceFields::Given(j)) => Some(j@),
        _ => None,
    }
}

/// Refuses a call whose episode does not authorize it.
pub fn byom_source_fields(eps: &Episodes, key: Option<&str>, source: &SourceFields) -> (r: Result<
    (),
    Problem,
>)
    requires
        eps.wf(),
    ensures
        match r {
            Ok(()) => source_refusal(*eps, key, *source) is None,
            Err(p) => source_refusal(*eps, key, *source) == Some(p@),
        },
{
    proof {
        reveal_strlit("");
        crate::text::empty_is(""@);
    }
    let k = match key {
        None => {
            return Ok(());
        },
        Some(k) => k,
    };
    let live = match eps.bindings.find(k, "") {
        None => false,
        Some(b) => b.state == BindingState::Bound,
    };
    if !live {
        return Err(
            problem(
                ProblemKind::StaleLease,
                "this episode binding is not live",
                "a fenced or released binding authorizes no model call",
            ),
        );
    }
    match source {
        SourceFields::Absent => Err(
            problem(
                ProblemKind::Unavailable,
                "byom reported no provider-context source fields for this Episode",
                "the §12.1 fragment comes from episode_claim / context_manifest_show; Kovee never invents it (§16.6 item 5)",
            ),
        ),
        SourceFields::Malformed(e) => Err(
            problem(
                ProblemKind::Unavailable,
                "byom's provider-context source fragment is not the shape C2 fixes",
                e.as_str(),
            ),
        ),
        SourceFields::Given(_) => Ok(()),
    }
}

/// Why a call is not prepared, in the order in which the checks run.
pub open spec fn prepare_refusal<X>(
    broker: Broker,
    eps: Episodes,
    request: CompleteRequest<'_>,
    call_recorded: bool,
    source: SourceFields,
    context_id: Seq<char>,
    answer: PlanAnswer<X>,
) -> Option<ProblemView> {
    if source_refusal(eps, request.stable_binding_key, source) is Some {
        source_refusal(eps, request.stable_binding_key, source)
    } else if broker.contexts@.contains_key(key1(context_id)) && broker.contexts@[key1(
        context_id,
    )].object_secret is None {
        Some(
            refusal_with(
                ProblemKind::Forbidden,
                "this record's erasure secret is destroyed"@,
                "the local_erasure_safe digest it keyed can no longer be re-derived (D-R1-2)"@,
            ),
        )
    } else if !call_recorded {
        Some(not_found_view())
    } else {
        match answer {
            PlanAnswer::NoChain(e) => Some(
                refusal_with(ProblemKind::Invalid, "the provider context chain"@, e@),
            ),
            PlanAnswer::NoPlan(e) => Some(
                refusal_with(ProblemKind::Forbidden, "the model call cannot be planned"@, e@),
            ),
            PlanAnswer::Planned(..) => None,
        }
    }
}

/// The effect that is prepared under byom's execution key.
pub open spec fn prepared_effect(
    e: Effect,
    effect_id: Seq<char>,
    eps: Episodes,
    request: CompleteRequest<'_>,
    act: ActAuthorization,
    model_profile_ref: Seq<char>,
    provider_binding_ref: Seq<char>,
    context_id: Seq<char>,
    plan: Planned,
) -> bool {
    &&& e.effect_id@ == effect_id
    &&& e.realm_ref@ == request.realm@
    &&& opt_view(e.project_ref) == (match request.project {
        Some(p) => Some(p@),
        None => None,
    })
    &&& e.invocation_ref@ == plan.invocation_ref@
    &&& e.attempt_ref@ == request.attempt_id@
    &&& e.kovee_invocation_fence == request.fence_epoch
    &&& opt_view(e.stable_binding_key) == (match request.stable_binding_key {
        Some(k) => Some(k@),
        None => None,
    })
    &&& match request.stable_binding_key {
        Some(k) => {
            let b = eps.bindings@[key1(k@)];
            opt_view(e.episode_ref) == Some(b.episode_ref@) && e.byom_fence_epoch == Some(
                b.fences.byom,
            )
        },
        None => e.episode_ref is None && e.byom_fence_epoch is None,
    }
    &&& e.act_intent_ref@ == act.act_intent_ref@
    &&& e.execution_key@ == act.stable_execution_key@
    &&& e.external_idempotency_key@ == plan.external_idempotency_key@
    &&& e.model_profile_ref@ == model_profile_ref
    &&& e.provider_binding_ref@ == provider_binding_ref
    &&& e.subject_digest@ == plan.subject_digest@
    &&& e.host_effect_digest@ == plan.host_effect_digest@
    &&& e.disclosure_manifest_ref@ == plan.disclosure_manifest_ref@
    &&& e.disclosure_digest@ == plan.disclosure_digest@
    &&& e.provider_context_ref@ == context_id
    &&& e.provider_context_digest@ == plan.provider_context_digest@
    &&& e.state is Prepared
}

/// The provider context that goes with a prepared effect: a new one, or the
/// standing one with its record and its digests renewed.
pub open spec fn context_written(
    before: Table<ProviderContext>,
    after: Table<ProviderContext>,
    context_id: Seq<char>,
    request: CompleteRequest<'_>,
    plan: Planned,
    at: Seq<char>,
) -> bool {
    let k = key1(context_id);
    let c = after@[k];
    &&& after@ == before@.insert(k, c)
    &&& c.record@ == plan.context_record@
    &&& c.digest_hex@ == plan.context_digest_hex@
    &&& c.final_request_digest_hex@ == plan.final_request_digest_hex@
    &&& if before@.contains_key(k) {
        c == (ProviderContext {
            record: c.record,
            digest_hex: c.digest_hex,
            final_request_digest_hex: c.final_request_digest_hex,
            ..before@[k]
        })
    } else {
        &&& c.provider_context_id@ == context_id
        &&& c.realm_ref@ == request.realm@
        &&& c.invocation_ref@ == plan.invocation_ref@
        &&& c.attempt_ref@ == request.attempt_id@
        &&& c.object_secret is Some
        &&& c.object_secret->0@ == plan.wrapped_secret@
        &&& c.created_at@ == at
    }
}

fn write_context(
    contexts: &mut Table<ProviderContext>,
    context_id: &str,
    request: &CompleteRequest<'_>,
    plan: &Planned,
    at: &str,
)
    requires
        old(contexts).wf(),
    ensures
        final(contexts).wf(),
        context_written(*old(contexts), *final(contexts), context_id@, *request, *plan, at@),
{
    proof {
        reveal_strlit("");
        crate::text::empty_is(""@);
    }
    match contexts.position(context_id, "") {
        Some(i) => {
            contexts.rows[i].record = plan.context_record.clone();
            contexts.rows[i].digest_hex = plan.context_digest_hex.clone();
            contexts.rows[i].final_request_digest_hex = plan.final_request_digest_hex.clone();
            proof {
                crate::table::table_updated(
                    *old(contexts),
                    *contexts,
                    i as int,
                    contexts.rows@[i as int],
                );
            }
        },
        None => {
            contexts.insert(
                ProviderContext {
                    provider_context_id: context_id.to_owned(),
                    realm_ref: request.realm.to_owned(),
                    invocation_ref: plan.invocation_ref.clone(),
                    attempt_ref: request.attempt_id.to_owned(),
                    record: plan.context_record.clone(),
                    digest_hex: plan.context_digest_hex.clone(),
                    final_request_digest_hex: plan.final_request_digest_hex.clone(),
                    object_secret: Some(plan.wrapped_secret.clone()),
                    created_at: at.to_owned(),
                },
            );
        },
    }
}

/// A prepared effect: recorded, and not yet authorized. It owns the plan that
/// was made for it.
#[derive(Debug)]
pub struct Prepared<X> {
    pub effect: usize,
    pub already_existed: bool,
    pub plan: X,
}

/// What preparing does and answers.
pub open spec fn prepare_outcome<X>(
    before: Broker,
    after: Broker,
    journal: JournalView,
    after_journal: JournalView,
    eps: Episodes,
    request: CompleteRequest<'_>,
    act: ActAuthorization,
    model_profile_ref: Seq<char>,
    provider_binding_ref: Seq<char>,
    provider_kind: ProviderKind,
    call_recorded: bool,
    source: SourceFields,
    new_effect_id: Seq<char>,
    context_id: Seq<char>,
    answer: PlanAnswer<X>,
    at: Seq<char>,
    r: Result<Prepared<X>, Problem>,
) -> bool {
    &&& r is Err ==> after == before && after_journal == journal
    &&& match prepare_refusal(
        before,
        eps,
        request,
        call_recorded,
        source,
        context_id,
        answer,
    ) {
        Some(p) => r is Err && r->Err_0@ == p,
        None => if exists|i: int| #[trigger]
            of_execution_key(before.effects.rows@, act.stable_execution_key@, i) {
            &&& r is Ok
            &&& r->Ok_0.already_existed
            &&& r->Ok_0.plan == answer->Planned_1
            &&& of_execution_key(
                before.effects.rows@,
                act.stable_execution_key@,
                r->Ok_0.effect as int,
            )
            &&& after == before
            &&& after_journal == journal
        } else if before.effects@.contains_key(key1(new_effect_id)) {
            r is Err && r->Err_0@ == internal_view()
        } else {
            let e = after.effects.rows@.last();
            let plan = answer->Planned_0;
            let plan_sealed = answer->Planned_1;
            &&& r is Ok
            &&& !r->Ok_0.already_existed
            &&& r->Ok_0.plan == plan_sealed
            &&& r->Ok_0.effect == before.effects.rows@.len()
            &&& after.effects.rows@ == before.effects.rows@.push(e)
            &&& prepared_effect(
                e,
                new_effect_id,
                eps,
                request,
                act,
                model_profile_ref,
                provider_binding_ref,
                context_id,
                plan,
            )
            &&& context_written(
                before.contexts,
                after.contexts,
                context_id,
                request,
                plan,
                at,
            )
            &&& after.attempts == before.attempts
            &&& after.consumptions == before.consumptions
            &&& after.reports == before.reports
            &&& after.disclosures == before.disclosures
            &&& after_journal == journal.with_effect_event(
                effect_event(
                    EventKind::ModelEffectPrepared,
                    new_effect_id,
                    prepared_document(
                        act,
                        model_profile_ref,
                        provider_kind,
                        context_id,
                        plan,
                    ),
                ),
            )
        },
    }
}

/// Records the provider context and the effect of one call as they were drawn
/// up. A repeated execution key finds the effect that stands.
pub fn commit_effect<X>(
    broker: &mut Broker,
    journal: &mut Journal,
    eps: &Episodes,
    request: &CompleteRequest<'_>,
    act: &ActAuthorization,
    model_profile_ref: &str,
    provider_binding_ref: &str,
    provider_kind: ProviderKind,
    call_recorded: bool,
    source: &SourceFields,
    new_effect_id: &str,
    context_id: &str,
    answer: PlanAnswer<X>,
    at: &str,
) -> (r: Result<Prepared<X>, Problem>)
    requires
        old(broker).wf(),
        eps.wf(),
    ensures
        final(broker).wf(),
        prepare_outcome(
            *old(broker),
            *final(broker),
            old(journal)@,
            final(journal)@,
            *eps,
            *request,
            *act,
            model_profile_ref@,
            provider_binding_ref@,
            provider_kind,
            call_recorded,
            *source,
            new_effect_id@,
            context_id@,
            answer,
            at@,
            r,
        ),
{
    proof {
        reveal_strlit("");
        crate::text::empty_is(""@);
    }
    byom_source_fields(eps, request.stable_binding_key, source)?;
    if let Some(c) = broker.contexts.find(context_id, "") {
        if c.object_secret.is_none() {
            return Err(
                problem(
                    ProblemKind::Forbidden,
                    "this record's erasure secret is destroyed",
                    "the local_erasure_safe digest it keyed can no longer be re-derived (D-R1-2)",
                ),
            );
        }
    }
    if !call_recorded {
        return Err(not_found());
    }
    let (plan, sealed) = match answer {
        PlanAnswer::NoChain(e) => {
            return Err(problem(ProblemKind::Invalid, "the provider context chain", e.as_str()));
        },
        PlanAnswer::NoPlan(e) => {
            return Err(
                problem(ProblemKind::Forbidden, "the model call cannot be planned", e.as_str()),
            );
        },
        PlanAnswer::Planned(p, x) => (p, x),
    };
    if let Some(i) = effect_by_key(broker, act.stable_execution_key.as_str()) {
        return Ok(Prepared { effect: i, already_existed: true, plan: sealed });
    }
    if broker.effects.position(new_effect_id, "").is_some() {
        return Err(internal());
    }
    let (episode_ref, byom_fence_epoch) = match request.stable_binding_key {
        None => (None, None),
        Some(k) => match eps.bindings.find(k, "") {
            None => (None, None),
            Some(b) => (Some(b.episode_ref.clone()), Some(b.fences.byom)),
        },
    };
    let effect = Effect {
        effect_id: new_effect_id.to_owned(),
        realm_ref: request.realm.to_owned(),
        project_ref: match request.project {
            Some(p) => Some(p.to_owned()),
            None => None,
        },
        invocation_ref: plan.invocation_ref.clone(),
        attempt_ref: request.attempt_id.to_owned(),
        kovee_invocation_fence: request.fence_epoch,
        stable_binding_key: match request.stable_binding_key {
            Some(k) => Some(k.to_owned()),
            None => None,
        },
        episode_ref,
        byom_fence_epoch,
        act_intent_ref: act.act_intent_ref.clone(),
        execution_key: act.stable_execution_key.clone(),
        external_idempotency_key: plan.external_idempotency_key.clone(),
        model_profile_ref: model_profile_ref.to_owned(),
        provider_binding_ref: provider_binding_ref.to_owned(),
        subject_digest: plan.subject_digest.clone(),
        host_effect_digest: plan.host_effect_digest.clone(),
        disclosure_manifest_ref: plan.disclosure_manifest_ref.clone(),
        disclosure_digest: plan.disclosure_digest.clone(),
        provider_context_ref: context_id.to_owned(),
        provider_context_digest: plan.provider_context_digest.clone(),
        state: EffectState::Prepared,
    };
    let at_pos: usize = broker.effects.rows.len();
    write_context(&mut broker.contexts, context_id, request, &plan, at);
    broker.effects.insert(effect);
    proof {
        let b = old(broker).effects.rows@;
        let a = broker.effects.rows@;
        assert forall|i: int, j: int| 0 <= i < j < a.len() implies (
        #[trigger] a[i]).execution_key@ != (#[trigger] a[j]).execution_key@ by {
            assert(a[i] == b[i]);
            if j < b.len() {
                assert(a[j] == b[j]);
            } else {
                assert(!of_execution_key(b, act.stable_execution_key@, i));
            }
        }
    }
    let payload = prepared_payload(
        act,
        model_profile_ref,
        provider_kind,
        context_id,
        &plan,
    );
    emit(journal, EventKind::ModelEffectPrepared, new_effect_id, payload);
    Ok(Prepared { effect: at_pos, already_existed: false, plan: sealed })
}

/// What a call is planned with.
#[derive(Debug)]
pub struct PlanAsk {
    pub effect_id: String,
    pub execution_key: String,
    pub subject_digest: String,
    pub context_id: String,
    pub invocation_id: String,
    pub attempt_id: String,
    pub fence_epoch: u64,
    pub byom_source: Option<Json>,
    pub provider_binding_ref: String,
    pub provider_binding_revision: u64,
    pub provider_binding_digest: String,
    pub model_profile_ref: String,
    pub model_profile_revision: u64,
    pub model_profile_digest: String,
    pub adapter_version: String,
    pub disclosure_id: String,
    pub disclosure_digest: String,
    pub dependency_ref: String,
    pub act_intent_ref_digest: String,
    pub created_at: String,
    /// The wrapped secret of the provider context, where it stands already.
    pub standing_secret: Option<Vec<u8>>,
    pub system: Option<String>,
    pub prompt: String,
    pub max_output_tokens: u64,
    pub classification_ref: String,
}

/// The records that a call is planned over: the profile, the provider binding
/// and the staged disclosure.
pub struct Over<'a> {
    pub profile: &'a ModelProfile,
    pub binding: &'a ProviderBinding,
    pub disclosure: &'a Disclosure,
}

/// The effect that a call has: the one of its execution key, or a new one.
pub open spec fn effect_named(broker: Broker, key: Seq<char>, fresh: Seq<char>, id: Seq<char>) -> bool {
    if exists|i: int| #[trigger] of_execution_key(broker.effects.rows@, key, i) {
        exists|i: int| #[trigger]
            of_execution_key(broker.effects.rows@, key, i) && broker.effects.rows@[i].effect_id@ == id
    } else {
        id == fresh
    }
}

/// The wrapped secret of a provider context that stands.
pub open spec fn secret_of(broker: Broker, context_id: Seq<char>) -> Option<Seq<u8>> {
    let k = key1(context_id);
    if broker.contexts@.contains_key(k) {
        match broker.contexts@[k].object_secret {
            Some(w) => Some(w@),
            None => None,
        }
    } else {
        None
    }
}

/// A call is planned as it was asked for, over the records that stand: the
/// profile's own adapter, byom's source fields, and the digest of the act that
/// authorizes it.
pub open spec fn asks_plan<T: Fn(&str) -> String>(
    ask: PlanAsk,
    effect_id: Seq<char>,
    context_id: Seq<char>,
    request: CompleteRequest<'_>,
    act: ActAuthorization,
    over: Over<'_>,
    v: Invocation,
    source: Option<JsonView>,
    secret: Option<Seq<u8>>,
    hash: T,
) -> bool {
    &&& ask.effect_id@ == effect_id
    &&& ask.execution_key@ == act.stable_execution_key@
    &&& ask.subject_digest@ == act.subject_digest@
    &&& ask.context_id@ == context_id
    &&& ask.invocation_id@ == v.invocation_id@
    &&& ask.attempt_id@ == request.attempt_id@
    &&& ask.fence_epoch == request.fence_epoch
    &&& (match ask.byom_source {
        Some(j) => Some(j@),
        None => None,
    }) == source
    &&& ask.provider_binding_ref@ == over.binding.model_provider_binding_id@
    &&& ask.provider_binding_revision == over.binding.revision
    &&& ask.provider_binding_digest@ == over.binding.digest@
    &&& ask.model_profile_ref@ == over.profile.model_profile_id@
    &&& ask.model_profile_revision == over.profile.revision
    &&& ask.model_profile_digest@ == over.profile.digest@
    &&& ask.adapter_version@ == over.profile.adapter_version@
    &&& ask.disclosure_id@ == over.disclosure.disclosure_id@
    &&& ask.disclosure_digest@ == over.disclosure.digest@
    &&& ask.dependency_ref@ == "authdep-model-egress-"@ + request.attempt_id@
    &&& hashed(hash, act.act_intent_ref@, ask.act_intent_ref_digest@)
    &&& (match ask.standing_secret {
        Some(w) => Some(w@),
        None => None,
    }) == secret
    &&& ask.created_at@ == over.disclosure.created_at@
    &&& opt_view(ask.system) == (match request.system {
        Some(t) => Some(t@),
        None => None,
    })
    &&& ask.prompt@ == request.prompt@
    &&& ask.max_output_tokens == request.max_output_tokens
    &&& ask.classification_ref@ == request.classification_ref@
}

/// Whether an identifier is the one of a call's provider context: it is derived
/// from its chain, what it discloses, and the act that authorizes it.
pub open spec fn context_identified<
    T: Fn(&str) -> String + Copy,
    I: Fn(&Vec<DisclosureItem>) -> Json + Copy,
    W: Fn(&Vec<Segment>) -> Json + Copy,
    D: Fn(&str, &Json) -> String + Copy,
>(
    making: Making<T, I, W, D>,
    request: CompleteRequest<'_>,
    act: ActAuthorization,
    over: Over<'_>,
    segments: Seq<Segment>,
    id: Seq<char>,
) -> bool {
    &&& segments_of(request, over.profile.adapter_version@, making.hash, segments)
    &&& exists|v: &Vec<Segment>, doc: Json|
        {
            &&& v@ == segments
            &&& #[trigger] making.segments.ensures((v,), doc)
            &&& id_derived(
                making.digest,
                "pcm"@,
                "kovee-provider-context-id-v1"@,
                context_id_document(
                    request.attempt_id@,
                    over.disclosure.disclosure_id@,
                    stored(over.disclosure.digest@),
                    doc@,
                    stored(over.profile.digest@),
                    stored(over.binding.digest@),
                    act,
                ),
                id,
            )
        }
}

/// Whether an answer is what planning a call came to.
pub open spec fn plan_made<
    T: Fn(&str) -> String,
    X,
    P: FnOnce(&PlanAsk, &Vec<Segment>) -> PlanAnswer<X>,
>(
    plan: P,
    effect_id: Seq<char>,
    context_id: Seq<char>,
    request: CompleteRequest<'_>,
    act: ActAuthorization,
    over: Over<'_>,
    v: Invocation,
    source: Option<JsonView>,
    secret: Option<Seq<u8>>,
    hash: T,
    segments: Seq<Segment>,
    answer: PlanAnswer<X>,
) -> bool {
    exists|ask: &PlanAsk, s: &Vec<Segment>|
        {
            &&& asks_plan(
                *ask,
                effect_id,
                context_id,
                request,
                act,
                over,
                v,
                source,
                secret,
                hash,
            )
            &&& s@ == segments
            &&& #[trigger] plan.ensures((ask, s), answer)
        }
}

/// Whether the secret that keys a context's digest was destroyed.
pub open spec fn context_erased(broker: Broker, id: Seq<char>) -> bool {
    broker.contexts@.contains_key(key1(id)) && broker.contexts@[key1(id)].object_secret is None
}

/// What preparing a call does and answers.
pub open spec fn prepare_done<
    T: Fn(&str) -> String + Copy,
    I: Fn(&Vec<DisclosureItem>) -> Json + Copy,
    W: Fn(&Vec<Segment>) -> Json + Copy,
    D: Fn(&str, &Json) -> String + Copy,
    X,
    P: FnOnce(&PlanAsk, &Vec<Segment>) -> PlanAnswer<X>,
>(
    before: Broker,
    after: Broker,
    journal: JournalView,
    after_journal: JournalView,
    eps: Episodes,
    inv: Invocations,
    request: CompleteRequest<'_>,
    act: ActAuthorization,
    over: Over<'_>,
    source: SourceFields,
    new_effect_id: Seq<char>,
    making: Making<T, I, W, D>,
    plan: P,
    at: Seq<char>,
    r: Result<Prepared<X>, Problem>,
) -> bool {
    if source_refusal(eps, request.stable_binding_key, source) is Some {
        &&& r is Err
        &&& Some(r->Err_0@) == source_refusal(eps, request.stable_binding_key, source)
        &&& after == before
        &&& after_journal == journal
    } else {
        exists|
            effect_id: Seq<char>,
            context_id: Seq<char>,
            segments: Seq<Segment>,
            answer: PlanAnswer<X>,
        |
            {
                &&& #[trigger] effect_named(
                    before,
                    act.stable_execution_key@,
                    new_effect_id,
                    effect_id,
                )
                &&& #[trigger] context_identified(
                    making,
                    request,
                    act,
                    over,
                    segments,
                    context_id,
                )
                &&& !context_erased(before, context_id) && call_recorded(inv, request.attempt_id@)
                    ==> plan_made(
                    plan,
                    effect_id,
                    context_id,
                    request,
                    act,
                    over,
                    invocation_of(inv, request.attempt_id@),
                    source_given(request.stable_binding_key, source),
                    secret_of(before, context_id),
                    making.hash,
                    segments,
                    answer,
                )
                &&& #[trigger] prepare_outcome(
                    before,
                    after,
                    journal,
                    after_journal,
                    eps,
                    request,
                    act,
                    over.profile.model_profile_id@,
                    over.binding.model_provider_binding_id@,
                    over.binding.provider_kind,
                    call_recorded(inv, request.attempt_id@),
                    source,
                    new_effect_id,
                    context_id,
                    answer,
                    at,
                    r,
                )
            }
    }
}

/// Prepares one call and commits its provider context and its effect, before
/// any permit is consumed: the chain is built, its identifier derived from it,
/// and the call planned over the records that stand. A repeated execution key
/// finds the effect that stands.
pub fn prepare<
    T: Fn(&str) -> String + Copy,
    I: Fn(&Vec<DisclosureItem>) -> Json + Copy,
    W: Fn(&Vec<Segment>) -> Json + Copy,
    D: Fn(&str, &Json) -> String + Copy,
    X,
    P: FnOnce(&PlanAsk, &Vec<Segment>) -> PlanAnswer<X>,
>(
    broker: &mut Broker,
    journal: &mut Journal,
    eps: &Episodes,
    inv: &Invocations,
    request: &CompleteRequest<'_>,
    act: &ActAuthorization,
    over: &Over<'_>,
    source: &SourceFields,
    new_effect_id: &str,
    making: Making<T, I, W, D>,
    plan: P,
    at: &str,
) -> (r: Result<Prepared<X>, Problem>)
    requires
        old(broker).wf(),
        eps.wf(),
        inv.wf(),
        makes_all(making),
        forall|ask: &PlanAsk, s: &Vec<Segment>| #[trigger] plan.requires((ask, s)),
    ensures
        final(broker).wf(),
        prepare_done(
            *old(broker),
            *final(broker),
            old(journal)@,
            final(journal)@,
            *eps,
            *inv,
            *request,
            *act,
            *over,
            *source,
            new_effect_id@,
            making,
            plan,
            at@,
            r,
        ),
{
    proof {
        reveal_strlit("");
        crate::text::empty_is(""@);
    }
    byom_source_fields(eps, request.stable_binding_key, source)?;
    let effect_id = match effect_by_key(broker, act.stable_execution_key.as_str()) {
        Some(i) => broker.effects.rows[i].effect_id.clone(),
        None => new_effect_id.to_owned(),
    };
    proof {
        assert(effect_named(
            *broker,
            act.stable_execution_key@,
            new_effect_id@,
            effect_id@,
        ));
    }
    let segments = chain_segments(request, over.profile.adapter_version.as_str(), making.hash);
    let write = making.segments;
    let written = write(&segments);
    let disclosed = read_stored(over.disclosure.digest.as_str());
    let profiled = read_stored(over.profile.digest.as_str());
    let bound = read_stored(over.binding.digest.as_str());
    let subject = context_id_subject(
        request.attempt_id,
        over.disclosure.disclosure_id.as_str(),
        &disclosed,
        &written,
        &profiled,
        &bound,
        act,
    );
    let context_id = derive_id("pcm", "kovee-provider-context-id-v1", &subject, making.digest);
    proof {
        assert(write.ensures((&segments,), written));
        assert(context_identified(
            making,
            *request,
            *act,
            *over,
            segments@,
            context_id@,
        ));
    }
    let erased = match broker.contexts.find(context_id.as_str(), "") {
        Some(c) => c.object_secret.is_none(),
        None => false,
    };
    let call = find_call(inv, request.attempt_id);
    let mut answer: PlanAnswer<X> = PlanAnswer::NoPlan(String::new());
    if !erased {
        if let Some(k) = call {
            let hash = making.hash;
            let intent = act.act_intent_ref.as_str();
            let act_intent_ref_digest = hash(intent);
            proof {
                assert(hash.ensures((intent,), act_intent_ref_digest));
                assert(hashed(making.hash, act.act_intent_ref@, act_intent_ref_digest@));
            }
            let byom_source = match (request.stable_binding_key, source) {
                (Some(_), SourceFields::Given(j)) => Some(j.copy()),
                _ => None,
            };
            let standing_secret = match broker.contexts.find(context_id.as_str(), "") {
                Some(c) => match &c.object_secret {
                    Some(w) => Some(w.clone()),
                    None => None,
                },
                None => None,
            };
            let ask = PlanAsk {
                effect_id: effect_id.clone(),
                execution_key: act.stable_execution_key.clone(),
                subject_digest: act.subject_digest.clone(),
                context_id: context_id.clone(),
                invocation_id: inv.invocations.rows[k].invocation_id.clone(),
                attempt_id: request.attempt_id.to_owned(),
                fence_epoch: request.fence_epoch,
                byom_source,
                provider_binding_ref: over.binding.model_provider_binding_id.clone(),
                provider_binding_revision: over.binding.revision,
                provider_binding_digest: over.binding.digest.clone(),
                model_profile_ref: over.profile.model_profile_id.clone(),
                model_profile_revision: over.profile.revision,
                model_profile_digest: over.profile.digest.clone(),
                adapter_version: over.profile.adapter_version.clone(),
                disclosure_id: over.disclosure.disclosure_id.clone(),
                disclosure_digest: over.disclosure.digest.clone(),
                dependency_ref: cat2("authdep-model-egress-", request.attempt_id),
                act_intent_ref_digest,
                created_at: over.disclosure.created_at.clone(),
                standing_secret,
                system: match request.system {
                    Some(t) => Some(t.to_owned()),
                    None => None,
                },
                prompt: request.prompt.to_owned(),
                max_output_tokens: request.max_output_tokens,
                classification_ref: request.classification_ref.to_owned(),
            };
            answer = plan(&ask, &segments);
            proof {
                assert(plan.ensures((&ask, &segments), answer));
                assert(plan_made(
                    plan,
                    effect_id@,
                    context_id@,
                    *request,
                    *act,
                    *over,
                    invocation_of(*inv, request.attempt_id@),
                    source_given(request.stable_binding_key, *source),
                    secret_of(*broker, context_id@),
                    making.hash,
                    segments@,
                    answer,
                ));
            }
        }
    }
    let ghost the_answer = answer;
    let r = commit_effect(
        broker,
        journal,
        eps,
        request,
        act,
        over.profile.model_profile_id.as_str(),
        over.binding.model_provider_binding_id.as_str(),
        over.binding.provider_kind,
        call.is_some(),
        source,
        new_effect_id,
        context_id.as_str(),
        answer,
        at,
    );
    proof {
        assert(prepare_outcome(
            *old(broker),
            *broker,
            old(journal)@,
            journal@,
            *eps,
            *request,
            *act,
            over.profile.model_profile_id@,
            over.binding.model_provider_binding_id@,
            over.binding.provider_kind,
            call_recorded(*inv, request.attempt_id@),
            *source,
            new_effect_id@,
            context_id@,
            the_answer,
            at@,
            r,
        ));
    }
    r
}

// ------------------------------------------------------------ the permit ----

/// Byom's receipt of a consumed permit.
#[derive(Debug)]
pub struct Receipt {
    pub owner_endpoint_ref: String,
    pub owner_intent_ref: String,
    pub execution_key: String,
    pub owner_receipt_ref: String,
    pub owner_receipt_digest: Option<String>,
    pub mandate_use_ref: String,
    pub record: String,
    pub replayed: bool,
}

/// How asking byom to consume a permit ended.
#[derive(Debug)]
pub enum ReceiptAnswer {
    Receipt(Receipt),
    /// An answer that is no receipt: the reason, and the answer's text.
    Malformed { error: String, reply: String },
    Failed(Problem),
}

/// A text cut to what a problem's detail may carry.
pub open spec fn cut(s: Seq<char>) -> Seq<char> {
    if s.len() <= 1024 {
        s
    } else {
        s.take(1024)
    }
}

/// A bounded rendering of one answer, for a problem's detail.
pub fn bounded(s: &str) -> (r: String)
    ensures
        r@ == cut(s@),
{
    first_chars(s, 1024)
}

/// Whether the consumption at `i` is the one of an execution key.
pub open spec fn consumption_of_key(rows: Seq<Consumption>, key: Seq<char>, i: int) -> bool {
    0 <= i < rows.len() && rows[i].execution_key@ == key
}

/// The stored consumption of an execution key.
pub fn read_consumption(broker: &Broker, key: &str) -> (r: Option<usize>)
    ensures
        match r {
            Some(i) => consumption_of_key(broker.consumptions.rows@, key@, i as int),
            None => forall|i: int| !#[trigger]
                consumption_of_key(broker.consumptions.rows@, key@, i),
        },
{
    let mut i: usize = 0;
    while i < broker.consumptions.rows.len()
        invariant
            i <= broker.consumptions.rows.len(),
            forall|j: int|
                j < i ==> !#[trigger] consumption_of_key(broker.consumptions.rows@, key@, j),
        decreases broker.consumptions.rows.len() - i,
    {
        if same(broker.consumptions.rows[i].execution_key.as_str(), key) {
            return Some(i);
        }
        i = i + 1;
    }
    None
}

/// The row of a receipt: consumed, not yet spent, no permit on it yet.
pub open spec fn consumed_row(
    c: Consumption,
    consumption_id: Seq<char>,
    effect_id: Seq<char>,
    receipt: Receipt,
    at: Seq<char>,
) -> bool {
    &&& c.consumption_id@ == consumption_id
    &&& c.effect_id@ == effect_id
    &&& c.owner_endpoint_ref@ == receipt.owner_endpoint_ref@
    &&& c.owner_intent_ref@ == receipt.owner_intent_ref@
    &&& c.execution_key@ == receipt.execution_key@
    &&& c.owner_receipt_ref@ == receipt.owner_receipt_ref@
    &&& c.owner_receipt_digest@ == (match receipt.owner_receipt_digest {
        Some(d) => d@,
        None => Seq::empty(),
    })
    &&& c.mandate_use_ref@ == receipt.mandate_use_ref@
    &&& c.receipt@ == receipt.record@
    &&& c.permit@ == Seq::<char>::empty()
    &&& c.replayed == receipt.replayed
    &&& c.consumed_at@ == at
    &&& !c.spent
}

/// Whether a call names an episode that is not recorded.
pub open spec fn episode_missing(eps: Episodes, stable_binding_key: Option<&str>) -> bool {
    stable_binding_key is Some && !eps.bindings@.contains_key(key1(stable_binding_key->0@))
}

/// What taking a receipt does and answers.
pub open spec fn receipt_outcome(
    before: Broker,
    after: Broker,
    eps: Episodes,
    stable_binding_key: Option<&str>,
    execution_key: Seq<char>,
    effect_id: Seq<char>,
    answer: ReceiptAnswer,
    new_consumption_id: Seq<char>,
    at: Seq<char>,
    r: Result<usize, Problem>,
) -> bool {
    &&& r is Err ==> after == before
    &&& if episode_missing(eps, stable_binding_key) {
        r is Err && r->Err_0@ == not_found_view()
    } else if exists|i: int| #[trigger]
        consumption_of_key(before.consumptions.rows@, execution_key, i) {
        &&& r is Ok
        &&& consumption_of_key(
            before.consumptions.rows@,
            execution_key,
            r->Ok_0 as int,
        )
        &&& after == before
    } else {
        match answer {
            ReceiptAnswer::Failed(p) => r == Err::<usize, Problem>(p),
            ReceiptAnswer::Malformed { error, reply } => r is Err && r->Err_0@ == refusal_with(
                ProblemKind::Unavailable,
                "byom's consumption receipt is not the shape Kovee can honor"@,
                error@ + "; reply was "@ + cut(reply@),
            ),
            ReceiptAnswer::Receipt(receipt) => if before.consumptions@.contains_key(
                key1(new_consumption_id),
            ) || (exists|i: int| #[trigger]
                consumption_of_key(
                    before.consumptions.rows@,
                    receipt.execution_key@,
                    i,
                )) {
                r is Err && r->Err_0@ == internal_view()
            } else {
                let c = after.consumptions.rows@.last();
                &&& r is Ok
                &&& r->Ok_0 == before.consumptions.rows@.len()
                &&& after.consumptions.rows@ == before.consumptions.rows@.push(c)
                &&& consumed_row(c, new_consumption_id, effect_id, receipt, at)
                &&& after.effects == before.effects
                &&& after.attempts == before.attempts
                &&& after.reports == before.reports
                &&& after.disclosures == before.disclosures
                &&& after.contexts == before.contexts
            },
        }
    }
}

/// Takes the receipt of a consumed permit and stores it at once, because byom
/// has already spent the use. A receipt that is stored already is taken again
/// and byom is not asked. The call's episode, where it names one, must be
/// recorded. The answer is the consumption's position.
pub fn take_receipt(
    broker: &mut Broker,
    eps: &Episodes,
    stable_binding_key: Option<&str>,
    execution_key: &str,
    effect_id: &str,
    answer: ReceiptAnswer,
    new_consumption_id: &str,
    at: &str,
) -> (r: Result<usize, Problem>)
    requires
        old(broker).wf(),
        eps.wf(),
    ensures
        final(broker).wf(),
        receipt_outcome(
            *old(broker),
            *final(broker),
            *eps,
            stable_binding_key,
            execution_key@,
            effect_id@,
            answer,
            new_consumption_id@,
            at@,
            r,
        ),
{
    proof {
        reveal_strlit("");
        crate::text::empty_is(""@);
    }
    if let Some(k) = stable_binding_key {
        if eps.bindings.position(k, "").is_none() {
            return Err(not_found());
        }
    }
    if let Some(i) = read_consumption(broker, execution_key) {
        return Ok(i);
    }
    let receipt = match answer {
        ReceiptAnswer::Failed(p) => {
            return Err(p);
        },
        ReceiptAnswer::Malformed { error, reply } => {
            let tail = bounded(reply.as_str());
            let detail = cat3(error.as_str(), "; reply was ", tail.as_str());
            return Err(
                problem(
                    ProblemKind::Unavailable,
                    "byom's consumption receipt is not the shape Kovee can honor",
                    detail.as_str(),
                ),
            );
        },
        ReceiptAnswer::Receipt(x) => x,
    };
    if broker.consumptions.position(new_consumption_id, "").is_some() || read_consumption(
        broker,
        receipt.execution_key.as_str(),
    ).is_some() {
        return Err(internal());
    }
    let ghost taken = receipt;
    let row = Consumption {
        consumption_id: new_consumption_id.to_owned(),
        effect_id: effect_id.to_owned(),
        owner_endpoint_ref: receipt.owner_endpoint_ref,
        owner_intent_ref: receipt.owner_intent_ref,
        execution_key: receipt.execution_key,
        owner_receipt_ref: receipt.owner_receipt_ref,
        owner_receipt_digest: match receipt.owner_receipt_digest {
            Some(d) => d,
            None => String::new(),
        },
        mandate_use_ref: receipt.mandate_use_ref,
        receipt: receipt.record,
        permit: String::new(),
        replayed: receipt.replayed,
        consumed_at: at.to_owned(),
        spent: false,
    };
    let at_pos: usize = broker.consumptions.rows.len();
    broker.consumptions.insert(row);
    proof {
        let b = old(broker).consumptions.rows@;
        let a = broker.consumptions.rows@;
        assert forall|i: int, j: int| 0 <= i < j < a.len() implies (
        #[trigger] a[i]).execution_key@ != (#[trigger] a[j]).execution_key@ by {
            assert(a[i] == b[i]);
            if j < b.len() {
                assert(a[j] == b[j]);
            } else {
                assert(!consumption_of_key(b, taken.execution_key@, i));
            }
        }
    }
    Ok(at_pos)
}

/// Why a call may not leave.
#[derive(Debug, Clone, Copy, PartialEq, Eq, Structural)]
pub enum PermitError {
    NoPermit,
    SpentPermit,
    NotOneShot,
    WrongExecutionKey,
    WrongAudience,
    SubjectMismatch,
    DisclosureMismatch,
    EpisodeMismatch,
    Unbound,
    StaleFence,
    Expired,
    UnreadableExpiry,
    WrongEndpoint,
    Malformed,
    UnkeyedProvenance,
    Unattestable,
}

/// The problem kind of a refused permit.
pub open spec fn permit_kind(e: PermitError) -> ProblemKind {
    match e {
        PermitError::NoPermit => ProblemKind::Forbidden,
        PermitError::SpentPermit => ProblemKind::Forbidden,
        PermitError::NotOneShot => ProblemKind::Forbidden,
        PermitError::WrongExecutionKey => ProblemKind::StaleRevision,
        PermitError::WrongAudience => ProblemKind::StaleRevision,
        PermitError::SubjectMismatch => ProblemKind::StaleRevision,
        PermitError::DisclosureMismatch => ProblemKind::StaleRevision,
        PermitError::EpisodeMismatch => ProblemKind::StaleRevision,
        PermitError::Unbound => ProblemKind::StaleRevision,
        PermitError::StaleFence => ProblemKind::StaleLease,
        PermitError::Expired => ProblemKind::Forbidden,
        PermitError::UnreadableExpiry => ProblemKind::Forbidden,
        PermitError::WrongEndpoint => ProblemKind::StaleRevision,
        PermitError::Malformed => ProblemKind::Unavailable,
        PermitError::UnkeyedProvenance => ProblemKind::Internal,
        PermitError::Unattestable => ProblemKind::Internal,
    }
}

pub open spec fn permit_refusal(e: PermitError, detail: Seq<char>) -> ProblemView {
    refusal_with(permit_kind(e), "the model call is not authorized to leave"@, detail)
}

/// The problem of a refused permit; the detail names the check that failed.
pub fn permit_problem(e: PermitError, detail: &str) -> (r: Problem)
    ensures
        r@ == permit_refusal(e, detail@),
{
    let kind = match e {
        PermitError::NoPermit => ProblemKind::Forbidden,
        PermitError::SpentPermit => ProblemKind::Forbidden,
        PermitError::NotOneShot => ProblemKind::Forbidden,
        PermitError::StaleFence => ProblemKind::StaleLease,
        PermitError::Expired => ProblemKind::Forbidden,
        PermitError::UnreadableExpiry => ProblemKind::Forbidden,
        PermitError::Malformed => ProblemKind::Unavailable,
        PermitError::UnkeyedProvenance => ProblemKind::Internal,
        PermitError::Unattestable => ProblemKind::Internal,
        _ => ProblemKind::StaleRevision,
    };
    problem(kind, "the model call is not authorized to leave", detail)
}

/// A permit that was minted over a stored consumption: its record, and what
/// of it is announced.
#[derive(Debug)]
pub struct Permit {
    pub record: String,
    pub owner_protocol: String,
    pub phase: String,
    pub owner_receipt_ref: String,
    pub mandate_use_ref: String,
    pub max_uses: u64,
    pub consumption_ref: String,
}

/// What recording a permit does and answers.
pub open spec fn permit_outcome(
    before: Broker,
    after: Broker,
    journal: JournalView,
    after_journal: JournalView,
    consumption_id: Seq<char>,
    effect_id: Seq<char>,
    gate: Result<Permit, (PermitError, String)>,
    r: Result<(), Problem>,
) -> bool {
    &&& r is Err ==> after == before && after_journal == journal
    &&& if !before.consumptions@.contains_key(key1(consumption_id)) {
        r is Err && r->Err_0@ == internal_view()
    } else {
        match gate {
            Err((e, d)) => r is Err && r->Err_0@ == permit_refusal(e, d@),
            Ok(permit) => {
                let k = key1(consumption_id);
                &&& r is Ok
                &&& after.consumptions@ == before.consumptions@.insert(
                    k,
                    Consumption { permit: permit.record, ..before.consumptions@[k] },
                )
                &&& after.effects == before.effects
                &&& after.attempts == before.attempts
                &&& after.reports == before.reports
                &&& after.disclosures == before.disclosures
                &&& after.contexts == before.contexts
                &&& after_journal == journal.with_effect_event(
                    effect_event(
                        EventKind::ModelEffectAuthorized,
                        effect_id,
                        authorized_document(permit),
                    ),
                )
            },
        }
    }
}

/// What recording a permit does and answers.
pub open spec fn recording_outcome(
    broker: Broker,
    broker_after: Broker,
    journal: JournalView,
    journal_after: JournalView,
    consumption_id: Seq<char>,
    effect_id: Seq<char>,
    gate: Result<Permit, (PermitError, String)>,
    r: Result<(), Problem>,
) -> bool {
    &&& permit_outcome(
        broker,
        broker_after,
        journal,
        journal_after,
        consumption_id,
        effect_id,
        gate,
        r,
    )
    &&& broker_after.consumptions.rows@.len() == broker.consumptions.rows@.len()
    &&& forall|i: int|
        0 <= i < broker.consumptions.rows@.len() ==> {
            &&& (#[trigger] broker_after.consumptions.rows@[i]).execution_key == broker.consumptions.rows@[i].execution_key
            &&& broker_after.consumptions.rows@[i].consumption_id == broker.consumptions.rows@[i].consumption_id
        }
}

/// Records the permit that was minted over a stored consumption, or
/// passes its refusal on. A refusal leaves the receipt as it is stored.
pub fn record_permit(
    broker: &mut Broker,
    journal: &mut Journal,
    consumption_id: &str,
    effect_id: &str,
    gate: &Result<Permit, (PermitError, String)>,
) -> (r: Result<(), Problem>)
    requires
        old(broker).wf(),
    ensures
        final(broker).wf(),
        recording_outcome(
            *old(broker),
            *final(broker),
            old(journal)@,
            final(journal)@,
            consumption_id@,
            effect_id@,
            *gate,
            r,
        ),
{
    proof {
        reveal_strlit("");
        crate::text::empty_is(""@);
    }
    let i = match broker.consumptions.position(consumption_id, "") {
        None => {
            return Err(internal());
        },
        Some(i) => i,
    };
    match gate {
        Err((e, d)) => Err(permit_problem(*e, d.as_str())),
        Ok(permit) => {
            let payload = authorized_payload(permit);
            broker.consumptions.rows[i].permit = permit.record.clone();
            proof {
                crate::table::table_updated(
                    old(broker).consumptions,
                    broker.consumptions,
                    i as int,
                    broker.consumptions.rows@[i as int],
                );
                consumption_keys_kept(
                    old(broker).consumptions.rows@,
                    broker.consumptions.rows@,
                );
            }
            emit(journal, EventKind::ModelEffectAuthorized, effect_id, payload);
            Ok(())
        },
    }
}

proof fn consumption_keys_kept(b: Seq<Consumption>, a: Seq<Consumption>)
    requires
        consumption_keys_distinct(b),
        a.len() == b.len(),
        forall|i: int| 0 <= i < b.len() ==> (#[trigger] a[i]).execution_key == b[i].execution_key,
    ensures
        consumption_keys_distinct(a),
{
    assert forall|i: int, j: int| 0 <= i < j < a.len() implies (#[trigger] a[i]).execution_key@
        != (#[trigger] a[j]).execution_key@ by {
        assert(b[i].execution_key@ != b[j].execution_key@);
    }
}

/// Whether a receipt is stored under an execution key.
pub open spec fn receipt_stored(broker: Broker, key: Seq<char>) -> bool {
    exists|i: int| #[trigger] consumption_of_key(broker.consumptions.rows@, key, i)
}

/// The episode that a permit has to be for: byom's own digest of it, and the
/// fences that it stands under.
#[derive(Debug)]
pub struct EpisodeFence {
    pub episode_ref: String,
    pub fence_digest: String,
    pub byom_fence_epoch: u64,
    pub kovee_invocation_fence: u64,
}

/// What a receipt is held against before a permit is minted over it.
#[derive(Debug)]
pub struct Expectation {
    pub execution_key: String,
    pub subject_digest: String,
    pub disclosure_digest: String,
    pub driver_audience: String,
    pub episode: Option<EpisodeFence>,
    pub endpoint_incarnation: String,
    pub recovery_epoch: u64,
    pub already_spent: bool,
    pub bound_host: String,
    pub bound_port: u16,
}

/// Where a permitted call may go, and byom's digest of the episode that it runs
/// inside, where byom reported one.
pub struct Destination<'a> {
    pub providers: &'a Providers,
    pub realm: &'a str,
    pub model_profile_ref: &'a str,
    pub fence_digest: Option<&'a str>,
}

impl Destination<'_> {
    /// Whether the profile and the binding that it pins are on record.
    pub open spec fn known(self) -> bool {
        profile_bound(*self.providers, self.realm@, self.model_profile_ref@)
    }
}

/// The fence of an episode: none without an episode, nor without byom's digest
/// of it.
pub open spec fn fence_expected(
    f: Option<EpisodeFence>,
    bound: Option<&EpisodeBinding>,
    fence_digest: Option<&str>,
) -> bool {
    match (bound, fence_digest) {
        (Some(b), Some(d)) => {
            &&& f is Some
            &&& f->0.episode_ref@ == b.episode_ref@
            &&& f->0.fence_digest@ == d@
            &&& f->0.byom_fence_epoch == b.fences.byom
            &&& f->0.kovee_invocation_fence == b.fences.kovee
        },
        _ => f is None,
    }
}

/// What the receipt of an effect is held against: the effect's own digests
/// under its execution key, its episode, the seam, whether it was attempted
/// before, and the origin of the provider binding as it stands now.
pub open spec fn expects(
    x: Expectation,
    broker: Broker,
    effect: Effect,
    execution_key: Seq<char>,
    bound: Option<&EpisodeBinding>,
    wire: Wire,
    to: Destination<'_>,
) -> bool {
    let origin = binding_of_profile(*to.providers, to.model_profile_ref@);
    &&& x.execution_key@ == execution_key
    &&& x.subject_digest@ == effect.subject_digest@
    &&& x.disclosure_digest@ == effect.disclosure_digest@
    &&& x.driver_audience@ == wire.audience@
    &&& fence_expected(x.episode, bound, to.fence_digest)
    &&& x.endpoint_incarnation@ == wire.expected.endpoint_incarnation@
    &&& x.recovery_epoch == wire.expected.recovery_epoch
    &&& x.already_spent == (count_attempts(
        broker.attempts.rows@,
        effect.effect_id@,
        broker.attempts.rows@.len() as int,
    ) > 0)
    &&& x.bound_host@ == origin.endpoint_host@
    &&& x.bound_port == origin.endpoint_port
}

fn expectation(
    broker: &Broker,
    effect: &Effect,
    execution_key: &str,
    bound: Option<&EpisodeBinding>,
    wire: &Wire,
    to: &Destination<'_>,
) -> (r: Result<Expectation, Problem>)
    requires
        to.providers.wf(),
        broker.wf(),
    ensures
        match r {
            Ok(x) => to.known() && expects(x, *broker, *effect, execution_key@, bound, *wire, *to),
            Err(p) => !to.known() && p@ == not_found_view(),
        },
{
    let already_spent = attempt_count(broker, effect.effect_id.as_str()) > 0;
    let (_, b) = read_profile(to.providers, to.realm, to.model_profile_ref)?;
    let episode = match (bound, to.fence_digest) {
        (Some(e), Some(d)) => Some(
            EpisodeFence {
                episode_ref: e.episode_ref.clone(),
                fence_digest: d.to_owned(),
                byom_fence_epoch: e.fences.byom,
                kovee_invocation_fence: e.fences.kovee,
            },
        ),
        _ => None,
    };
    Ok(
        Expectation {
            execution_key: execution_key.to_owned(),
            subject_digest: effect.subject_digest.clone(),
            disclosure_digest: effect.disclosure_digest.clone(),
            driver_audience: wire.audience.clone(),
            episode,
            endpoint_incarnation: wire.expected.endpoint_incarnation.clone(),
            recovery_epoch: wire.expected.recovery_epoch,
            already_spent,
            bound_host: to.providers.bindings.rows[b].endpoint_host.clone(),
            bound_port: to.providers.bindings.rows[b].endpoint_port,
        },
    )
}

/// What follows a receipt that is stored: `gate` judges it against what the
/// effect, its episode, the seam and the destination come to now, and its
/// permit is recorded or its refusal passed on.
pub open spec fn permit_judged<
    G: FnOnce(&Consumption, &Expectation) -> Result<Permit, (PermitError, String)>,
>(
    mid: Broker,
    after: Broker,
    journal: JournalView,
    after_journal: JournalView,
    execution_key: Seq<char>,
    effect: Effect,
    bound: Option<&EpisodeBinding>,
    wire: Wire,
    to: Destination<'_>,
    gate: G,
    r: Result<(usize, Permit), Problem>,
) -> bool {
    if !receipt_stored(mid, execution_key) {
        r is Err && r->Err_0@ == internal_view() && after == mid && after_journal == journal
    } else if !to.known() {
        r is Err && r->Err_0@ == not_found_view() && after == mid && after_journal == journal
    } else {
        exists|
            i: int,
            x: Expectation,
            judged: Result<Permit, (PermitError, String)>,
            recorded: Result<(), Problem>,
        |
            {
                &&& #[trigger] consumption_of_key(mid.consumptions.rows@, execution_key, i)
                &&& #[trigger] expects(x, mid, effect, execution_key, bound, wire, to)
                &&& gate.ensures((&mid.consumptions.rows@[i], &x), judged)
                &&& #[trigger] permit_outcome(
                    mid,
                    after,
                    journal,
                    after_journal,
                    mid.consumptions.rows@[i].consumption_id@,
                    effect.effect_id@,
                    judged,
                    recorded,
                )
                &&& match recorded {
                    Ok(_) => r == Ok::<(usize, Permit), Problem>((i as usize, judged->Ok_0)),
                    Err(p) => r == Err::<(usize, Permit), Problem>(p),
                }
            }
    }
}

/// The episode that a call is bound to, where it names one that is recorded.
pub open spec fn bound_episode(eps: Episodes, stable_binding_key: Option<&str>) -> Option<
    &EpisodeBinding,
> {
    match stable_binding_key {
        Some(k) => if eps.bindings@.contains_key(key1(k@)) {
            Some(&eps.bindings@[key1(k@)])
        } else {
            None
        },
        None => None,
    }
}

/// Whether `answer` is what asking byom for a permit came to: the effect is
/// registered under the act that authorizes it, and the request says no more
/// than the act, the effect and the episode that it is bound to.
pub open spec fn permit_asked<
    R: FnOnce(&str, &Json) -> Result<String, Problem>,
    A: FnOnce(&Json) -> ReceiptAnswer,
>(
    register: R,
    ask: A,
    wire: Wire,
    effect: Effect,
    act: ActAuthorization,
    bound: Option<&EpisodeBinding>,
    answer: ReceiptAnswer,
) -> bool {
    exists|tag: &str, fragment: &Json, credential: Result<String, Problem>|
        {
            &&& tag@ == "bpp-host-effect-registration-v0"@
            &&& fragment@ == host_effect_document(effect, act)
            &&& #[trigger] register.ensures((tag, fragment), credential)
            &&& match credential {
                Err(p) => answer == ReceiptAnswer::Failed(p),
                Ok(c) => exists|doc: &Json|
                    {
                        &&& doc@ == permit_document(
                            wire.version@,
                            effect,
                            act,
                            wire.expected,
                            c@,
                            wire.audience@,
                            bound,
                        )
                        &&& #[trigger] ask.ensures((doc,), answer)
                    },
            }
        }
}

fn ask_permit<
    R: FnOnce(&str, &Json) -> Result<String, Problem>,
    A: FnOnce(&Json) -> ReceiptAnswer,
>(
    register: R,
    ask: A,
    wire: &Wire,
    effect: &Effect,
    act: &ActAuthorization,
    bound: Option<&EpisodeBinding>,
) -> (answer: ReceiptAnswer)
    requires
        forall|tag: &str, doc: &Json| #[trigger] register.requires((tag, doc)),
        forall|doc: &Json| #[trigger] ask.requires((doc,)),
    ensures
        permit_asked(register, ask, *wire, *effect, *act, bound, answer),
{
    let tag = "bpp-host-effect-registration-v0";
    let fragment = host_effect_subject(effect, act);
    let credential = register(tag, &fragment);
    proof {
        assert(register.ensures((tag, &fragment), credential));
    }
    match credential {
        Err(p) => ReceiptAnswer::Failed(p),
        Ok(c) => {
            let doc = permit_request(
                &wire.version,
                effect,
                act,
                &wire.expected,
                c.as_str(),
                wire.audience.as_str(),
                bound,
            );
            let answer = ask(&doc);
            proof {
                assert(ask.ensures((&doc,), answer));
            }
            answer
        },
    }
}

/// What getting an effect its permit does and answers.
pub open spec fn permit_got<
    R: FnOnce(&str, &Json) -> Result<String, Problem>,
    A: FnOnce(&Json) -> ReceiptAnswer,
    G: FnOnce(&Consumption, &Expectation) -> Result<Permit, (PermitError, String)>,
>(
    before: Broker,
    after: Broker,
    journal: JournalView,
    after_journal: JournalView,
    eps: Episodes,
    stable_binding_key: Option<&str>,
    act: ActAuthorization,
    effect: int,
    wire: Wire,
    to: Destination<'_>,
    new_consumption_id: Seq<char>,
    at: Seq<char>,
    register: R,
    ask: A,
    gate: G,
    r: Result<(usize, Permit), Problem>,
) -> bool {
    exists|mid: Broker, answer: ReceiptAnswer, taken: Result<usize, Problem>|
        {
            &&& !receipt_stored(before, act.stable_execution_key@) && !episode_missing(
                eps,
                stable_binding_key,
            ) ==> permit_asked(
                register,
                ask,
                wire,
                before.effects.rows@[effect],
                act,
                bound_episode(eps, stable_binding_key),
                answer,
            )
            &&& #[trigger] receipt_outcome(
                before,
                mid,
                eps,
                stable_binding_key,
                act.stable_execution_key@,
                before.effects.rows@[effect].effect_id@,
                answer,
                new_consumption_id,
                at,
                taken,
            )
            &&& match taken {
                Err(p) => {
                    &&& r == Err::<(usize, Permit), Problem>(p)
                    &&& after == before
                    &&& after_journal == journal
                },
                Ok(_) => permit_judged(
                    mid,
                    after,
                    journal,
                    after_journal,
                    act.stable_execution_key@,
                    before.effects.rows@[effect],
                    bound_episode(eps, stable_binding_key),
                    wire,
                    to,
                    gate,
                    r,
                ),
            }
        }
}

/// What consuming a permit does and answers.
pub open spec fn consume_outcome<
    R: FnOnce(&str, &Json) -> Result<String, Problem>,
    A: FnOnce(&Json) -> ReceiptAnswer,
    G: FnOnce(&Consumption, &Expectation) -> Result<Permit, (PermitError, String)>,
>(
    broker: Broker,
    broker_after: Broker,
    journal: JournalView,
    journal_after: JournalView,
    eps: Episodes,
    stable_binding_key: Option<&str>,
    act: ActAuthorization,
    effect: usize,
    wire: Wire,
    to: Destination<'_>,
    new_consumption_id: Seq<char>,
    at: Seq<char>,
    register: R,
    ask: A,
    gate: G,
    r: Result<(usize, Permit), Problem>,
) -> bool {
    &&& permit_got(
        broker,
        broker_after,
        journal,
        journal_after,
        eps,
        stable_binding_key,
        act,
        effect as int,
        wire,
        to,
        new_consumption_id,
        at,
        register,
        ask,
        gate,
        r,
    )
    &&& broker_after.attempts == broker.attempts
    &&& broker_after.effects == broker.effects
    &&& r is Ok ==> consumption_of_key(
        broker_after.consumptions.rows@,
        act.stable_execution_key@,
        r->Ok_0.0 as int,
    )
}

/// Gets a prepared effect its permit. Byom is asked, by `ask`, only where no
/// receipt is stored, with the credential that `register` makes; what it
/// answers is stored before anything else; and the call may leave only once
/// `gate` has judged that receipt against what is expected now. A refusal
/// leaves the receipt stored. The answer is the consumption's position, and the
/// permit itself, to be handed over once.
pub fn consume_permit<
    R: FnOnce(&str, &Json) -> Result<String, Problem>,
    A: FnOnce(&Json) -> ReceiptAnswer,
    G: FnOnce(&Consumption, &Expectation) -> Result<Permit, (PermitError, String)>,
>(
    broker: &mut Broker,
    journal: &mut Journal,
    eps: &Episodes,
    stable_binding_key: Option<&str>,
    act: &ActAuthorization,
    effect: usize,
    wire: &Wire,
    to: &Destination<'_>,
    new_consumption_id: &str,
    at: &str,
    register: R,
    ask: A,
    gate: G,
) -> (r: Result<(usize, Permit), Problem>)
    requires
        old(broker).wf(),
        eps.wf(),
        to.providers.wf(),
        effect < old(broker).effects.rows.len(),
        forall|tag: &str, doc: &Json| #[trigger] register.requires((tag, doc)),
        forall|doc: &Json| #[trigger] ask.requires((doc,)),
        forall|c: &Consumption, x: &Expectation| #[trigger] gate.requires((c, x)),
    ensures
        final(broker).wf(),
        consume_outcome(
            *old(broker),
            *final(broker),
            old(journal)@,
            final(journal)@,
            *eps,
            stable_binding_key,
            *act,
            effect,
            *wire,
            *to,
            new_consumption_id@,
            at@,
            register,
            ask,
            gate,
            r,
        ),
{
    proof {
        reveal_strlit("");
        crate::text::empty_is(""@);
    }
    let bound = match stable_binding_key {
        Some(k) => eps.bindings.find(k, ""),
        None => None,
    };
    let missing = stable_binding_key.is_some() && bound.is_none();
    let execution_key = act.stable_execution_key.as_str();
    let effect_id = broker.effects.rows[effect].effect_id.clone();
    let effect_id = effect_id.as_str();
    let stored = read_consumption(broker, execution_key);
    let answer = if missing || stored.is_some() {
        ReceiptAnswer::Failed(internal())
    } else {
        ask_permit(register, ask, wire, &broker.effects.rows[effect], act, bound)
    };
    let ghost the_answer = answer;
    let taken = take_receipt(
        broker,
        eps,
        stable_binding_key,
        execution_key,
        effect_id,
        answer,
        new_consumption_id,
        at,
    );
    let ghost mid = *broker;
    proof {
        assert(receipt_outcome(
            *old(broker),
            mid,
            *eps,
            stable_binding_key,
            execution_key@,
            effect_id@,
            the_answer,
            new_consumption_id@,
            at@,
            taken,
        ));
    }
    match taken {
        Err(p) => Err(p),
        Ok(_) => {
            let i = match read_consumption(broker, execution_key) {
                None => {
                    return Err(internal());
                },
                Some(i) => i,
            };
            let x = expectation(
                broker,
                &broker.effects.rows[effect],
                execution_key,
                bound,
                wire,
                to,
            )?;
            let ghost the_x = x;
            let judged = gate(&broker.consumptions.rows[i], &x);
            let ghost the_judged = judged;
            let consumption_id = broker.consumptions.rows[i].consumption_id.clone();
            let recorded = record_permit(
                broker,
                journal,
                consumption_id.as_str(),
                effect_id,
                &judged,
            );
            proof {
                assert(consumption_of_key(mid.consumptions.rows@, execution_key@, i as int));
                assert(expects(
                    the_x,
                    mid,
                    old(broker).effects.rows@[effect as int],
                    execution_key@,
                    bound_episode(*eps, stable_binding_key),
                    *wire,
                    *to,
                ));
                assert(permit_outcome(
                    mid,
                    *broker,
                    old(journal)@,
                    journal@,
                    mid.consumptions.rows@[i as int].consumption_id@,
                    effect_id@,
                    the_judged,
                    recorded,
                ));
            }
            match recorded {
                Ok(_) => match judged {
                    Ok(permit) => Ok((i, permit)),
                    Err(_) => Err(internal()),
                },
                Err(p) => Err(p),
            }
        },
    }
}

/// The outcome of claiming a single use.
#[derive(Debug, Clone, Copy, PartialEq, Eq, Structural)]
pub enum Claim {
    Claimed,
    AlreadySpent,
}

/// Whether a consumption's one use can be claimed under an execution key.
pub open spec fn claimable(broker: Broker, consumption_id: Seq<char>, key: Seq<char>) -> bool {
    let k = key1(consumption_id);
    &&& broker.consumptions@.contains_key(k)
    &&& broker.consumptions@[k].execution_key@ == key
    &&& !broker.consumptions@[k].spent
}

/// What claiming a consumption does and answers.
pub open spec fn claim_outcome(
    broker: Broker,
    broker_after: Broker,
    consumption_id: Seq<char>,
    execution_key: Seq<char>,
    r: Claim,
) -> bool {
    &&& r is Claimed <==> claimable(broker, consumption_id, execution_key)
    &&& r is AlreadySpent ==> broker_after == broker
    &&& r is Claimed ==> {
        let k = key1(consumption_id);
        &&& broker_after.consumptions@ == broker.consumptions@.insert(
            k,
            Consumption { spent: true, ..broker.consumptions@[k] },
        )
        &&& broker_after.effects == broker.effects
        &&& broker_after.attempts == broker.attempts
        &&& broker_after.reports == broker.reports
        &&& broker_after.disclosures == broker.disclosures
        &&& broker_after.contexts == broker.contexts
    }
}

/// Claims the one use of a consumption, before any byte leaves: the first
/// claim spends it, and every other finds it spent.
pub fn claim_single_use(broker: &mut Broker, consumption_id: &str, execution_key: &str) -> (r: Claim)
    requires
        old(broker).wf(),
    ensures
        final(broker).wf(),
        claim_outcome(
            *old(broker),
            *final(broker),
            consumption_id@,
            execution_key@,
            r,
        ),
{
    proof {
        reveal_strlit("");
        crate::text::empty_is(""@);
    }
    match broker.consumptions.position(consumption_id, "") {
        None => Claim::AlreadySpent,
        Some(i) => {
            if !same(broker.consumptions.rows[i].execution_key.as_str(), execution_key)
                || broker.consumptions.rows[i].spent {
                return Claim::AlreadySpent;
            }
            broker.consumptions.rows[i].spent = true;
            proof {
                crate::table::table_updated(
                    old(broker).consumptions,
                    broker.consumptions,
                    i as int,
                    broker.consumptions.rows@[i as int],
                );
                consumption_keys_kept(
                    old(broker).consumptions.rows@,
                    broker.consumptions.rows@,
                );
            }
            Claim::Claimed
        },
    }
}

// -------------------------------------------------------------- dispatch ----

/// How many of the first `n` attempts are an effect's.
pub open spec fn count_attempts(rows: Seq<EffectAttempt>, effect_id: Seq<char>, n: int) -> nat
    decreases n,
{
    if n <= 0 {
        0
    } else {
        count_attempts(rows, effect_id, n - 1) + if rows[n - 1].effect_id@ == effect_id {
            1nat
        } else {
            0nat
        }
    }
}

proof fn count_bounded(rows: Seq<EffectAttempt>, effect_id: Seq<char>, n: int)
    requires
        0 <= n,
    ensures
        count_attempts(rows, effect_id, n) <= n,
    decreases n,
{
    if n > 0 {
        count_bounded(rows, effect_id, n - 1);
    }
}

/// How many attempts an effect has.
pub fn attempt_count(broker: &Broker, effect_id: &str) -> (r: u64)
    ensures
        r == count_attempts(
            broker.attempts.rows@,
            effect_id@,
            broker.attempts.rows@.len() as int,
        ),
        r <= broker.attempts.rows@.len(),
{
    let mut n: u64 = 0;
    let mut i: usize = 0;
    while i < broker.attempts.rows.len()
        invariant
            i <= broker.attempts.rows.len(),
            n == count_attempts(broker.attempts.rows@, effect_id@, i as int),
            n <= i,
        decreases broker.attempts.rows.len() - i,
    {
        if same(broker.attempts.rows[i].effect_id.as_str(), effect_id) {
            n = n + 1;
        }
        i = i + 1;
    }
    n
}

/// The provider credential of a call. The secret itself is nothing that the
/// broker looks into or records: it is handed to the exchange alone.
pub enum CredentialAnswer<Z> {
    Resolved(Z),
    /// The binding names no usable reference.
    NoReference,
    /// The reference resolves to nothing; the reason.
    NotConfigured(String),
}

pub open spec fn credential_refusal<Z>(c: CredentialAnswer<Z>) -> Option<ProblemView> {
    match c {
        CredentialAnswer::Resolved(_) => None,
        CredentialAnswer::NoReference => Some(
            refusal_with(
                ProblemKind::Invalid,
                "the provider binding has no usable credential reference"@,
                "credential_secret_ref must be `env:NAME` or `store:REF`; a literal key is never recorded"@,
            ),
        ),
        CredentialAnswer::NotConfigured(e) => Some(
            refusal_with(
                ProblemKind::Unavailable,
                "the provider credential is not configured"@,
                e@,
            ),
        ),
    }
}

/// The attempt that a dispatch records before the wire opens.
pub open spec fn dispatching_row(
    a: EffectAttempt,
    broker: Broker,
    attempt_id: Seq<char>,
    effect_id: Seq<char>,
    consumption_id: Seq<char>,
    profile: Seq<char>,
    at: Seq<char>,
) -> bool {
    &&& a.effect_attempt_id@ == attempt_id
    &&& a.effect_id@ == effect_id
    &&& a.attempt_ordinal == count_attempts(
        broker.attempts.rows@,
        effect_id,
        broker.attempts.rows@.len() as int,
    ) + 1
    &&& a.consumption_ref@ == consumption_id
    &&& a.transport_profile@ == profile
    &&& a.state is Dispatching
    &&& !a.retry_frozen
    &&& a.external_ref is None
    &&& a.response_digest is None
    &&& a.usage is None
    &&& a.latency_ms is None
    &&& a.observation is None
    &&& a.reconciliation is None
    &&& a.started_at@ == at
    &&& a.completed_at is None
}

/// Setting the state of one effect, and nothing else.
pub open spec fn effect_state_set(
    before: Table<Effect>,
    after: Table<Effect>,
    effect_id: Seq<char>,
    state: EffectState,
) -> bool {
    let k = key1(effect_id);
    if before@.contains_key(k) {
        after@ == before@.insert(k, Effect { state, ..before@[k] })
    } else {
        after == before
    }
}

fn set_effect_state(effects: &mut Table<Effect>, effect_id: &str, state: EffectState)
    requires
        old(effects).wf(),
        effect_keys_distinct(old(effects).rows@),
    ensures
        final(effects).wf(),
        effect_keys_distinct(final(effects).rows@),
        effect_state_set(*old(effects), *final(effects), effect_id@, state),
        final(effects)@.dom() =~= old(effects)@.dom(),
{
    proof {
        reveal_strlit("");
        crate::text::empty_is(""@);
    }
    if let Some(i) = effects.position(effect_id, "") {
        effects.rows[i].state = state;
        proof {
            let b = old(effects).rows@;
            let a = effects.rows@;
            crate::table::table_updated(*old(effects), *effects, i as int, a[i as int]);
            assert forall|p: int, q: int| 0 <= p < q < a.len() implies (
            #[trigger] a[p]).execution_key@ != (#[trigger] a[q]).execution_key@ by {
                assert(b[p].execution_key@ != b[q].execution_key@);
            }
        }
    }
}

/// What beginning a dispatch does and answers.
pub open spec fn begin_outcome<Z>(
    broker: Broker,
    broker_after: Broker,
    journal: JournalView,
    journal_after: JournalView,
    effect_id: Seq<char>,
    consumption_id: Seq<char>,
    credential: CredentialAnswer<Z>,
    attempt_id: Seq<char>,
    transport_profile: Seq<char>,
    at: Seq<char>,
    r: Result<u64, Problem>,
) -> bool {
    &&& r is Err ==> broker_after == broker && journal_after == journal
    &&& match credential_refusal(credential) {
        Some(p) => r is Err && r->Err_0@ == p,
        None => if broker.attempts@.contains_key(key1(attempt_id)) || !broker.effects@.contains_key(key1(effect_id)) {
            r is Err && r->Err_0@ == internal_view()
        } else {
            let a = broker_after.attempts.rows@.last();
            &&& r is Ok
            &&& r->Ok_0 == a.attempt_ordinal
            &&& broker_after.attempts.rows@ == broker.attempts.rows@.push(a)
            &&& dispatching_row(
                a,
                broker,
                attempt_id,
                effect_id,
                consumption_id,
                transport_profile,
                at,
            )
            &&& effect_state_set(
                broker.effects,
                broker_after.effects,
                effect_id,
                EffectState::Dispatching,
            )
            &&& broker_after.consumptions == broker.consumptions
            &&& broker_after.reports == broker.reports
            &&& broker_after.disclosures == broker.disclosures
            &&& broker_after.contexts == broker.contexts
            &&& journal_after == journal.with_effect_event(
                effect_event(
                    EventKind::ModelEffectDispatching,
                    effect_id,
                    dispatching_document(
                        attempt_id,
                        a.attempt_ordinal,
                        transport_profile,
                    ),
                ),
            )
        },
    }
}

/// Records the attempt as dispatching before the wire opens, once the call's
/// credential is resolved. The answer is the attempt's ordinal.
pub fn begin_dispatch<Z>(
    broker: &mut Broker,
    journal: &mut Journal,
    effect_id: &str,
    consumption_id: &str,
    credential: &CredentialAnswer<Z>,
    attempt_id: &str,
    transport_profile: &str,
    at: &str,
) -> (r: Result<u64, Problem>)
    requires
        old(broker).wf(),
        old(broker).attempts.rows@.len() < u64::MAX,
    ensures
        final(broker).wf(),
        begin_outcome(
            *old(broker),
            *final(broker),
            old(journal)@,
            final(journal)@,
            effect_id@,
            consumption_id@,
            *credential,
            attempt_id@,
            transport_profile@,
            at@,
            r,
        ),
{
    match credential {
        CredentialAnswer::Resolved(_) => {},
        CredentialAnswer::NoReference => {
            return Err(
                problem(
                    ProblemKind::Invalid,
                    "the provider binding has no usable credential reference",
                    "credential_secret_ref must be `env:NAME` or `store:REF`; a literal key is never recorded",
                ),
            );
        },
        CredentialAnswer::NotConfigured(e) => {
            return Err(
                problem(
                    ProblemKind::Unavailable,
                    "the provider credential is not configured",
                    e.as_str(),
                ),
            );
        },
    }
    proof {
        reveal_strlit("");
        crate::text::empty_is(""@);
    }
    if broker.attempts.position(attempt_id, "").is_some() || broker.effects.position(
        effect_id,
        "",
    ).is_none() {
        return Err(internal());
    }
    let ordinal: u64 = attempt_count(broker, effect_id) + 1;
    let row = EffectAttempt {
        effect_attempt_id: attempt_id.to_owned(),
        effect_id: effect_id.to_owned(),
        attempt_ordinal: ordinal,
        consumption_ref: consumption_id.to_owned(),
        transport_profile: transport_profile.to_owned(),
        state: EffectState::Dispatching,
        retry_frozen: false,
        external_ref: None,
        response_digest: None,
        usage: None,
        latency_ms: None,
        observation: None,
        reconciliation: None,
        started_at: at.to_owned(),
        completed_at: None,
    };
    broker.attempts.insert(row);
    set_effect_state(&mut broker.effects, effect_id, EffectState::Dispatching);
    proof {
        assert forall|i: int| 0 <= i < broker.attempts.rows@.len() implies broker.effects@.contains_key(
            key1((#[trigger] broker.attempts.rows@[i]).effect_id@),
        ) by {
            if i < old(broker).attempts.rows@.len() {
                assert(broker.attempts.rows@[i] == old(broker).attempts.rows@[i]);
            }
        }
    }
    let payload = dispatching_payload(attempt_id, ordinal, transport_profile);
    emit(journal, EventKind::ModelEffectDispatching, effect_id, payload);
    Ok(ordinal)
}

/// What the one exchange came to.
#[derive(Debug)]
pub struct Outcome {
    pub state: EffectState,
    pub external_ref: Option<String>,
    pub response_digest: Option<String>,
    pub usage: Usage,
    pub latency_ms: u64,
    pub observation: Option<String>,
    pub text: Option<String>,
    pub model: Option<String>,
    pub stop_reason: Option<String>,
    pub transport_profile: String,
}

/// The event that an outcome is announced by.
pub open spec fn outcome_event(state: EffectState) -> EventKind {
    match state {
        EffectState::Completed => EventKind::ModelEffectCompleted,
        EffectState::Ambiguous => EventKind::ModelEffectAmbiguous,
        _ => EventKind::ModelEffectFailed,
    }
}

/// What an outcome makes of its attempt.
pub open spec fn attempt_ended(
    before: EffectAttempt,
    after: EffectAttempt,
    outcome: Outcome,
    at: Seq<char>,
) -> bool {
    &&& after == (EffectAttempt {
        state: outcome.state,
        retry_frozen: outcome.state.frozen(),
        external_ref: outcome.external_ref,
        response_digest: outcome.response_digest,
        usage: Some(outcome.usage),
        latency_ms: Some(outcome.latency_ms),
        observation: outcome.observation,
        completed_at: after.completed_at,
        ..before
    })
    &&& opt_view(after.completed_at) == Some(at)
}

/// What finishing a dispatch does and answers.
pub open spec fn finish_outcome(
    broker: Broker,
    broker_after: Broker,
    journal: JournalView,
    journal_after: JournalView,
    effect_id: Seq<char>,
    attempt_id: Seq<char>,
    outcome: Outcome,
    at: Seq<char>,
) -> bool {
    &&& ({
        let k = key1(attempt_id);
        if broker.attempts@.contains_key(k) {
            &&& broker_after.attempts@ == broker.attempts@.insert(
                k,
                broker_after.attempts@[k],
            )
            &&& attempt_ended(
                broker.attempts@[k],
                broker_after.attempts@[k],
                outcome,
                at,
            )
        } else {
            broker_after.attempts == broker.attempts
        }
    })
    &&& effect_state_set(
        broker.effects,
        broker_after.effects,
        effect_id,
        outcome.state,
    )
    &&& broker_after.consumptions == broker.consumptions
    &&& broker_after.reports == broker.reports
    &&& broker_after.disclosures == broker.disclosures
    &&& broker_after.contexts == broker.contexts
    &&& journal_after == journal.with_effect_event(
        effect_event(
            outcome_event(outcome.state),
            effect_id,
            outcome_document(attempt_id, outcome),
        ),
    )
}

/// Records what the exchange came to, on the attempt and on the effect.
pub fn finish_dispatch(
    broker: &mut Broker,
    journal: &mut Journal,
    effect_id: &str,
    attempt_id: &str,
    outcome: &Outcome,
    at: &str,
)
    requires
        old(broker).wf(),
    ensures
        final(broker).wf(),
        finish_outcome(
            *old(broker),
            *final(broker),
            old(journal)@,
            final(journal)@,
            effect_id@,
            attempt_id@,
            *outcome,
            at@,
        ),
{
    proof {
        reveal_strlit("");
        crate::text::empty_is(""@);
    }
    if let Some(i) = broker.attempts.position(attempt_id, "") {
        broker.attempts.rows[i].state = outcome.state;
        broker.attempts.rows[i].retry_frozen = outcome.state.retry_frozen();
        broker.attempts.rows[i].external_ref = outcome.external_ref.clone();
        broker.attempts.rows[i].response_digest = outcome.response_digest.clone();
        broker.attempts.rows[i].usage = Some(outcome.usage);
        broker.attempts.rows[i].latency_ms = Some(outcome.latency_ms);
        broker.attempts.rows[i].observation = outcome.observation.clone();
        broker.attempts.rows[i].completed_at = Some(at.to_owned());
        proof {
            crate::table::table_updated(
                old(broker).attempts,
                broker.attempts,
                i as int,
                broker.attempts.rows@[i as int],
            );
        }
    }
    set_effect_state(&mut broker.effects, effect_id, outcome.state);
    proof {
        assert forall|i: int| 0 <= i < broker.attempts.rows@.len() implies broker.effects@.contains_key(
            key1((#[trigger] broker.attempts.rows@[i]).effect_id@),
        ) by {
            assert(broker.attempts.rows@[i].effect_id == old(broker).attempts.rows@[i].effect_id);
        }
    }
    let kind = match outcome.state {
        EffectState::Completed => EventKind::ModelEffectCompleted,
        EffectState::Ambiguous => EventKind::ModelEffectAmbiguous,
        _ => EventKind::ModelEffectFailed,
    };
    let payload = outcome_payload(attempt_id, outcome);
    emit(journal, kind, effect_id, payload);
}

// -------------------------------------------------------------- metering ----

/// Whether anything was measured.
pub open spec fn measured(u: Usage) -> bool {
    u.input_tokens > 0 || u.output_tokens > 0
}

pub open spec fn report_key_of(effect_id: Seq<char>) -> Seq<char> {
    "kovee-model-usage-"@ + effect_id
}

/// What byom answered to a metering report.
#[derive(Debug)]
pub struct ReportAnswer {
    pub settled: bool,
    /// What byom charged its own side with, where it says so.
    pub charged: Option<u64>,
    pub result: String,
}

/// What of a use is charged to a reservation: its tokens together, and never
/// more than is reserved.
pub open spec fn capped(usage: Usage, reserved: nat) -> nat {
    let all = usage.input_tokens + usage.output_tokens;
    if all <= reserved {
        all as nat
    } else {
        reserved
    }
}

/// The charge that a use may come to here, before byom is asked.
pub fn capped_charge(usage: Usage, reserved: u64) -> (r: u64)
    ensures
        r == capped(usage, reserved as nat),
        r <= reserved,
{
    if usage.input_tokens >= reserved {
        reserved
    } else if usage.output_tokens >= reserved - usage.input_tokens {
        reserved
    } else {
        usage.input_tokens + usage.output_tokens
    }
}

/// The row that a call's episode reserves its budget by.
pub open spec fn reservation_key(eps: Episodes, stable_binding_key: Option<&str>) -> Key {
    key1(eps.bindings@[key1(stable_binding_key->0@)].kovee_subordinate_reservation_ref@)
}

/// The row that an effect's use is reported by.
pub open spec fn report_key(effect_id: Seq<char>) -> Key {
    key1(report_key_of(effect_id))
}

/// What metering a call computes with fits: what its episode reserves, and the
/// revision that the reservation moves to.
pub open spec fn metering_fits(
    res: Reservations,
    eps: Episodes,
    stable_binding_key: Option<&str>,
) -> bool {
    let k = reservation_key(eps, stable_binding_key);
    stable_binding_key is Some && eps.bindings@.contains_key(key1(stable_binding_key->0@))
        && res.table@.contains_key(k) ==> {
        &&& reserved_in(res.table@[k].items@, "unit"@) <= u64::MAX
        &&& res.table@[k].state is Confirmed ==> res.table@[k].revision < u64::MAX
    }
}

/// A meter can be asked once the report that it is asked with is on record.
pub open spec fn asks_on_record<M: FnOnce(&Broker, &Json) -> Result<ReportAnswer, Problem>>(
    meter: M,
    effect_id: Seq<char>,
) -> bool {
    forall|b: &Broker, doc: &Json|
        b.reports@.contains_key(report_key(effect_id)) && b.reports@[report_key(
            effect_id,
        )].answer is None ==> #[trigger] meter.requires((b, doc))
}

/// What a use may come to here: its tokens together, and never more than the
/// episode has reserved.
pub open spec fn local_charge(
    res: Reservations,
    eps: Episodes,
    stable_binding_key: Option<&str>,
    usage: Usage,
) -> u64 {
    let k = reservation_key(eps, stable_binding_key);
    if res.table@.contains_key(k) {
        capped(usage, reserved_in(res.table@[k].items@, "unit"@)) as u64
    } else {
        capped(usage, u64::MAX as nat) as u64
    }
}

/// Everything but the reports stays as it is.
pub open spec fn all_but_reports(before: Broker, after: Broker) -> bool {
    &&& after.effects == before.effects
    &&& after.attempts == before.attempts
    &&& after.consumptions == before.consumptions
    &&& after.disclosures == before.disclosures
    &&& after.contexts == before.contexts
}

/// A report as it is recorded before byom is asked, the charge capped.
pub open spec fn pending_report(
    u: UsageReport,
    effect_id: Seq<char>,
    attempt_id: Seq<char>,
    episode: Seq<char>,
    usage: Usage,
    cap: u64,
    at: Seq<char>,
) -> bool {
    &&& u.stable_report_key@ == report_key_of(effect_id)
    &&& u.effect_attempt_id@ == attempt_id
    &&& u.episode_ref@ == episode
    &&& u.usage == usage
    &&& u.charge_cap == cap
    &&& u.recorded_at@ == at
    &&& u.answer is None
    &&& u.reported_at is None
    &&& !u.applied
}

/// Opening a report: the one that stands, or a new one that is on record before
/// byom is asked.
pub open spec fn report_opened(
    before: Broker,
    after: Broker,
    effect_id: Seq<char>,
    attempt_id: Seq<char>,
    episode: Seq<char>,
    usage: Usage,
    cap: u64,
    at: Seq<char>,
) -> bool {
    let k = report_key(effect_id);
    if before.reports@.contains_key(k) {
        after == before
    } else {
        &&& all_but_reports(before, after)
        &&& after.reports@ == before.reports@.insert(k, after.reports@[k])
        &&& pending_report(after.reports@[k], effect_id, attempt_id, episode, usage, cap, at)
    }
}

/// Whether `answer` is what byom's meter answered to a report that is on record.
/// A report that it has answered is not asked again.
pub open spec fn meter_answered<M: FnOnce(&Broker, &Json) -> Result<ReportAnswer, Problem>>(
    meter: M,
    wire: Wire,
    broker: Broker,
    binding: EpisodeBinding,
    realm: Seq<char>,
    effect_id: Seq<char>,
    answer: Result<ReportAnswer, Problem>,
) -> bool {
    let u = broker.reports@[report_key(effect_id)];
    u.answer is None ==> exists|b: &Broker, doc: &Json|
        {
            &&& *b == broker
            &&& doc@ == usage_document(
                wire.version@,
                binding,
                wire.expected,
                wire.source@,
                realm,
                effect_id,
                u.effect_attempt_id@,
                u.usage,
                u.charge_cap,
            )
            &&& #[trigger] meter.ensures((b, doc), answer)
        }
}

/// A report is answered: byom's answer is on it, and announced.
pub open spec fn report_answered(
    before: Broker,
    after: Broker,
    effect_id: Seq<char>,
    a: ReportAnswer,
    at: Seq<char>,
) -> bool {
    let k = report_key(effect_id);
    let w = after.reports@[k];
    &&& all_but_reports(before, after)
    &&& after.reports@ == before.reports@.insert(k, w)
    &&& w == (UsageReport {
        answer: Some(a),
        reported_at: w.reported_at,
        ..before.reports@[k]
    })
    &&& opt_view(w.reported_at) == Some(at)
}

/// A report is done with: byom's number is applied here, where there is
/// anything to apply it to.
pub open spec fn report_applied(before: Broker, after: Broker, effect_id: Seq<char>) -> bool {
    let k = report_key(effect_id);
    &&& all_but_reports(before, after)
    &&& after.reports@ == before.reports@.insert(
        k,
        UsageReport { applied: true, ..before.reports@[k] },
    )
}

/// An episode's reservation is settled with a number, as `measure` admits it,
/// and the report is then done with. A refusal leaves it to be applied.
pub open spec fn settled_with<
    Q: FnOnce(&Reservation, &str, u64, u64, Meter) -> Result<u64, String>,
    G: Fn(&str, &Json) -> Keyed,
    S: Fn(&Reservation) -> Result<String, String>,
>(
    before: Broker,
    after: Broker,
    res: Reservations,
    res_after: Reservations,
    journal: JournalView,
    after_journal: JournalView,
    k: Key,
    effect_id: Seq<char>,
    charged: u64,
    measure: Q,
    keyed: G,
    seal: S,
    r: Result<bool, Problem>,
) -> bool {
    exists|settled: Result<Settlement, Problem>|
        {
            &&& #[trigger] settle_done(
                res,
                res_after,
                journal,
                after_journal,
                k.0,
                "unit"@,
                charged,
                Meter::TrustedBroker,
                measure,
                "kovee-model-settle-"@ + effect_id,
                keyed,
                seal,
                settled,
            )
            &&& match settled {
                Ok(_) => r == Ok::<bool, Problem>(true) && report_applied(
                    before,
                    after,
                    effect_id,
                ),
                Err(p) => r == Err::<bool, Problem>(p) && after == before,
            }
        }
}

/// The local half of a settlement: where byom settled its side, the episode's
/// own reservation is settled with byom's number, as `measure` admits it.
/// Otherwise nothing is settled. A refusal leaves the report to be applied.
pub open spec fn number_applied<
    Q: FnOnce(&Reservation, &str, u64, u64, Meter) -> Result<u64, String>,
    G: Fn(&str, &Json) -> Keyed,
    S: Fn(&Reservation) -> Result<String, String>,
>(
    before: Broker,
    after: Broker,
    res: Reservations,
    res_after: Reservations,
    journal: JournalView,
    after_journal: JournalView,
    k: Key,
    effect_id: Seq<char>,
    measure: Q,
    keyed: G,
    seal: S,
    r: Result<bool, Problem>,
) -> bool {
    let u = before.reports@[report_key(effect_id)];
    let a = u.answer->0;
    let charged = match a.charged {
        Some(n) => n,
        None => u.charge_cap,
    };
    if a.settled && res.table@.contains_key(k) {
        settled_with(
            before,
            after,
            res,
            res_after,
            journal,
            after_journal,
            k,
            effect_id,
            charged,
            measure,
            keyed,
            seal,
            r,
        )
    } else {
        &&& r == Ok::<bool, Problem>(true)
        &&& res_after == res
        &&& after_journal == journal
        &&& report_applied(before, after, effect_id)
    }
}

/// What is announced of a report: byom's answer, when it comes.
pub open spec fn report_told(
    journal: JournalView,
    u: UsageReport,
    effect_id: Seq<char>,
    answer: Result<ReportAnswer, Problem>,
) -> JournalView {
    if u.answer is None {
        journal.with_effect_event(
            effect_event(
                EventKind::ModelUsageReported,
                effect_id,
                reported_document(
                    u.effect_attempt_id@,
                    report_key_of(effect_id),
                    u.usage,
                    answer->Ok_0.settled,
                ),
            ),
        )
    } else {
        journal
    }
}

/// What follows an open report: byom's answer, and its number applied.
pub open spec fn report_closed<
    Q: FnOnce(&Reservation, &str, u64, u64, Meter) -> Result<u64, String>,
    G: Fn(&str, &Json) -> Keyed,
    S: Fn(&Reservation) -> Result<String, String>,
>(
    before: Broker,
    after: Broker,
    res: Reservations,
    res_after: Reservations,
    journal: JournalView,
    after_journal: JournalView,
    k: Key,
    effect_id: Seq<char>,
    answer: Result<ReportAnswer, Problem>,
    measure: Q,
    keyed: G,
    seal: S,
    at: Seq<char>,
    r: Result<bool, Problem>,
) -> bool {
    let u = before.reports@[report_key(effect_id)];
    if u.answer is None && answer is Err {
        &&& r == Err::<bool, Problem>(answer->Err_0)
        &&& after == before
        &&& res_after == res
        &&& after_journal == journal
    } else {
        exists|mid: Broker|
            {
                &&& if u.answer is None {
                    report_answered(before, mid, effect_id, answer->Ok_0, at)
                } else {
                    mid == before
                }
                &&& #[trigger] number_applied(
                    mid,
                    after,
                    res,
                    res_after,
                    report_told(journal, u, effect_id, answer),
                    after_journal,
                    k,
                    effect_id,
                    measure,
                    keyed,
                    seal,
                    r,
                )
            }
    }
}

/// What reporting a use does and answers, in the saga's order: the charge is
/// capped, the report recorded, byom asked, and its own number applied. Nothing
/// measured, or no episode to meter against, reports nothing; a report that is
/// done with is a replay.
pub open spec fn usage_metered<
    M: FnOnce(&Broker, &Json) -> Result<ReportAnswer, Problem>,
    Q: FnOnce(&Reservation, &str, u64, u64, Meter) -> Result<u64, String>,
    G: Fn(&str, &Json) -> Keyed,
    S: Fn(&Reservation) -> Result<String, String>,
>(
    before: Broker,
    after: Broker,
    res: Reservations,
    res_after: Reservations,
    journal: JournalView,
    after_journal: JournalView,
    eps: Episodes,
    stable_binding_key: Option<&str>,
    realm: Seq<char>,
    wire: Wire,
    effect_id: Seq<char>,
    attempt_id: Seq<char>,
    usage: Usage,
    meter: M,
    measure: Q,
    keyed: G,
    seal: S,
    at: Seq<char>,
    r: Result<bool, Problem>,
) -> bool {
    let binding = eps.bindings@[key1(stable_binding_key->0@)];
    let stands = before.reports@.contains_key(report_key(effect_id));
    if !measured(usage) || stable_binding_key is None {
        &&& r == Ok::<bool, Problem>(false)
        &&& after == before
        &&& res_after == res
        &&& after_journal == journal
    } else if !eps.bindings@.contains_key(key1(stable_binding_key->0@)) {
        &&& r is Err
        &&& r->Err_0@ == not_found_view()
        &&& after == before
        &&& res_after == res
        &&& after_journal == journal
    } else if stands && before.reports@[report_key(effect_id)].applied {
        &&& r == Ok::<bool, Problem>(true)
        &&& after == before
        &&& res_after == res
        &&& after_journal == journal
    } else {
        exists|mid: Broker, answer: Result<ReportAnswer, Problem>|
            {
                &&& #[trigger] report_opened(
                    before,
                    mid,
                    effect_id,
                    attempt_id,
                    binding.episode_ref@,
                    usage,
                    local_charge(res, eps, stable_binding_key, usage),
                    at,
                )
                &&& #[trigger] meter_answered(
                    meter,
                    wire,
                    mid,
                    binding,
                    realm,
                    effect_id,
                    answer,
                )
                &&& report_closed(
                    mid,
                    after,
                    res,
                    res_after,
                    journal,
                    after_journal,
                    reservation_key(eps, stable_binding_key),
                    effect_id,
                    answer,
                    measure,
                    keyed,
                    seal,
                    at,
                    r,
                )
            }
    }
}

fn open_report(
    broker: &mut Broker,
    effect_id: &str,
    attempt_id: &str,
    episode: &str,
    usage: Usage,
    cap: u64,
    at: &str,
) -> (i: usize)
    requires
        old(broker).wf(),
    ensures
        final(broker).wf(),
        report_opened(
            *old(broker),
            *final(broker),
            effect_id@,
            attempt_id@,
            episode@,
            usage,
            cap,
            at@,
        ),
        i < final(broker).reports.rows.len(),
        final(broker).reports@.contains_key(report_key(effect_id@)),
        final(broker).reports.rows@[i as int] == final(broker).reports@[report_key(effect_id@)],
{
    proof {
        reveal_strlit("");
        crate::text::empty_is(""@);
    }
    let stable_report_key = cat2("kovee-model-usage-", effect_id);
    if let Some(i) = broker.reports.position(stable_report_key.as_str(), "") {
        return i;
    }
    let i: usize = broker.reports.rows.len();
    broker.reports.insert(
        UsageReport {
            stable_report_key,
            effect_attempt_id: attempt_id.to_owned(),
            episode_ref: episode.to_owned(),
            usage,
            charge_cap: cap,
            recorded_at: at.to_owned(),
            answer: None,
            reported_at: None,
            applied: false,
        },
    );
    proof {
        crate::table::table_at(broker.reports, i as int);
    }
    i
}

fn answer_report(
    broker: &mut Broker,
    journal: &mut Journal,
    i: usize,
    effect_id: &str,
    a: ReportAnswer,
    at: &str,
)
    requires
        old(broker).wf(),
        i < old(broker).reports.rows.len(),
        old(broker).reports.rows@[i as int].stable_report_key@ == report_key_of(effect_id@),
    ensures
        final(broker).wf(),
        final(broker).reports.rows.len() == old(broker).reports.rows.len(),
        report_answered(*old(broker), *final(broker), effect_id@, a, at@),
        final(broker).reports.rows@[i as int] == final(broker).reports@[report_key(effect_id@)],
        final(journal)@ == old(journal)@.with_effect_event(
            effect_event(
                EventKind::ModelUsageReported,
                effect_id@,
                reported_document(
                    old(broker).reports.rows@[i as int].effect_attempt_id@,
                    report_key_of(effect_id@),
                    old(broker).reports.rows@[i as int].usage,
                    a.settled,
                ),
            ),
        ),
{
    proof {
        crate::table::table_at(broker.reports, i as int);
    }
    let payload = reported_payload(
        broker.reports.rows[i].effect_attempt_id.as_str(),
        broker.reports.rows[i].stable_report_key.as_str(),
        broker.reports.rows[i].usage,
        a.settled,
    );
    emit(journal, EventKind::ModelUsageReported, effect_id, payload);
    broker.reports.rows[i].answer = Some(a);
    broker.reports.rows[i].reported_at = Some(at.to_owned());
    proof {
        crate::table::table_updated(
            old(broker).reports,
            broker.reports,
            i as int,
            broker.reports.rows@[i as int],
        );
    }
}

fn close_report(broker: &mut Broker, i: usize, effect_id: Ghost<Seq<char>>)
    requires
        old(broker).wf(),
        i < old(broker).reports.rows.len(),
        old(broker).reports.rows@[i as int].stable_report_key@ == report_key_of(effect_id@),
    ensures
        final(broker).wf(),
        report_applied(*old(broker), *final(broker), effect_id@),
{
    proof {
        crate::table::table_at(broker.reports, i as int);
    }
    broker.reports.rows[i].applied = true;
    proof {
        crate::table::table_updated(
            old(broker).reports,
            broker.reports,
            i as int,
            broker.reports.rows@[i as int],
        );
    }
}

fn apply_number<
    Q: FnOnce(&Reservation, &str, u64, u64, Meter) -> Result<u64, String>,
    G: Fn(&str, &Json) -> Keyed,
    S: Fn(&Reservation) -> Result<String, String>,
>(
    broker: &mut Broker,
    res: &mut Reservations,
    journal: &mut Journal,
    i: usize,
    reservation_ref: &str,
    effect_id: &str,
    measure: Q,
    keyed: G,
    seal: S,
) -> (r: Result<bool, Problem>)
    requires
        old(broker).wf(),
        old(res).wf(),
        i < old(broker).reports.rows.len(),
        old(broker).reports.rows@[i as int] == old(broker).reports@[report_key(effect_id@)],
        old(broker).reports.rows@[i as int].stable_report_key@ == report_key_of(effect_id@),
        old(broker).reports.rows@[i as int].answer is Some,
        settle_fits(*old(res), key1(reservation_ref@), "unit"@),
        keys_all(keyed),
        forall|r: &Reservation| #[trigger] seal.requires((r,)),
        forall|r: &Reservation, d: &str, earlier: u64, n: u64, m: Meter| #[trigger]
            measure.requires((r, d, earlier, n, m)),
    ensures
        final(broker).wf(),
        final(res).wf(),
        number_applied(
            *old(broker),
            *final(broker),
            *old(res),
            *final(res),
            old(journal)@,
            final(journal)@,
            key1(reservation_ref@),
            effect_id@,
            measure,
            keyed,
            seal,
            r,
        ),
{
    proof {
        reveal_strlit("");
        crate::text::empty_is(""@);
    }
    let (settled_there, said) = match &broker.reports.rows[i].answer {
        Some(a) => (a.settled, a.charged),
        None => (false, None),
    };
    let charged: u64 = match said {
        Some(n) => n,
        None => broker.reports.rows[i].charge_cap,
    };
    if settled_there {
        if res.table.position(reservation_ref, "").is_some() {
            let settlement_ref = cat2("kovee-model-settle-", effect_id);
            let settled = settle(
                res,
                journal,
                reservation_ref,
                "unit",
                charged,
                Meter::TrustedBroker,
                measure,
                settlement_ref.as_str(),
                keyed,
                seal,
            );
            let ghost the_settled = settled;
            let r = match settled {
                Ok(_) => {
                    close_report(broker, i, Ghost(effect_id@));
                    Ok(true)
                },
                Err(p) => Err(p),
            };
            proof {
                assert(settle_done(
                    *old(res),
                    *res,
                    old(journal)@,
                    journal@,
                    key1(reservation_ref@).0,
                    "unit"@,
                    charged,
                    Meter::TrustedBroker,
                    measure,
                    "kovee-model-settle-"@ + effect_id@,
                    keyed,
                    seal,
                    the_settled,
                ));
                assert(settled_with(
                    *old(broker),
                    *broker,
                    *old(res),
                    *res,
                    old(journal)@,
                    journal@,
                    key1(reservation_ref@),
                    effect_id@,
                    charged,
                    measure,
                    keyed,
                    seal,
                    r,
                ));
            }
            return r;
        }
    }
    close_report(broker, i, Ghost(effect_id@));
    Ok(true)
}

/// Reports a measured use and settles what the episode has reserved for it
/// here: the charge is capped first, the report goes on record, byom is asked
/// with what is on record, and its own number is applied. A report that byom
/// has answered is not sent again, and one whose number could not be applied is
/// applied by the next call. The answer says whether a report stands.
pub fn report_usage<
    M: FnOnce(&Broker, &Json) -> Result<ReportAnswer, Problem>,
    Q: FnOnce(&Reservation, &str, u64, u64, Meter) -> Result<u64, String>,
    G: Fn(&str, &Json) -> Keyed,
    S: Fn(&Reservation) -> Result<String, String>,
>(
    broker: &mut Broker,
    res: &mut Reservations,
    journal: &mut Journal,
    eps: &Episodes,
    stable_binding_key: Option<&str>,
    realm: &str,
    wire: &Wire,
    effect_id: &str,
    attempt_id: &str,
    usage: Usage,
    meter: M,
    measure: Q,
    keyed: G,
    seal: S,
    at: &str,
) -> (r: Result<bool, Problem>)
    requires
        old(broker).wf(),
        old(res).wf(),
        metering_fits(*old(res), *eps, stable_binding_key),
        eps.wf(),
        keys_all(keyed),
        forall|r: &Reservation| #[trigger] seal.requires((r,)),
        asks_on_record(meter, effect_id@),
        forall|r: &Reservation, d: &str, earlier: u64, n: u64, m: Meter| #[trigger]
            measure.requires((r, d, earlier, n, m)),
    ensures
        final(broker).wf(),
        final(res).wf(),
        usage_metered(
            *old(broker),
            *final(broker),
            *old(res),
            *final(res),
            old(journal)@,
            final(journal)@,
            *eps,
            stable_binding_key,
            realm@,
            *wire,
            effect_id@,
            attempt_id@,
            usage,
            meter,
            measure,
            keyed,
            seal,
            at@,
            r,
        ),
{
    if usage.input_tokens == 0 && usage.output_tokens == 0 {
        return Ok(false);
    }
    let key = match stable_binding_key {
        None => {
            return Ok(false);
        },
        Some(k) => k,
    };
    proof {
        reveal_strlit("");
        crate::text::empty_is(""@);
    }
    let binding = match eps.bindings.find(key, "") {
        None => {
            return Err(not_found());
        },
        Some(b) => b,
    };
    let stable_report_key = cat2("kovee-model-usage-", effect_id);
    if let Some(u) = broker.reports.find(stable_report_key.as_str(), "") {
        if u.applied {
            return Ok(true);
        }
    }
    let reservation_ref = binding.kovee_subordinate_reservation_ref.as_str();
    let cap: u64 = match res.table.position(reservation_ref, "") {
        Some(k) => {
            let held: u64 = reserved(&res.table.rows[k].items, "unit");
            capped_charge(usage, held)
        },
        None => capped_charge(usage, u64::MAX),
    };
    let i = open_report(
        broker,
        effect_id,
        attempt_id,
        binding.episode_ref.as_str(),
        usage,
        cap,
        at,
    );
    let ghost mid = *broker;
    proof {
        assert(cap == local_charge(*res, *eps, stable_binding_key, usage));
        assert(report_opened(
            *old(broker),
            mid,
            effect_id@,
            attempt_id@,
            eps.bindings@[key1(stable_binding_key->0@)].episode_ref@,
            usage,
            local_charge(*res, *eps, stable_binding_key, usage),
            at@,
        ));
    }
    let ghost mut the_answer: Result<ReportAnswer, Problem> = arbitrary();
    if broker.reports.rows[i].answer.is_none() {
        let doc = usage_request(
            &wire.version,
            binding,
            &wire.expected,
            wire.source.as_str(),
            realm,
            effect_id,
            broker.reports.rows[i].effect_attempt_id.as_str(),
            broker.reports.rows[i].usage,
            broker.reports.rows[i].charge_cap,
        );
        let answer = meter(broker, &doc);
        proof {
            the_answer = answer;
            assert(meter.ensures((&mid, &doc), answer));
            assert(meter_answered(
                meter,
                *wire,
                mid,
                *binding,
                realm@,
                effect_id@,
                the_answer,
            ));
        }
        match answer {
            Err(p) => {
                proof {
                    assert(report_closed(
                        mid,
                        *broker,
                        *res,
                        *res,
                        journal@,
                        journal@,
                        reservation_key(*eps, stable_binding_key),
                        effect_id@,
                        the_answer,
                        measure,
                        keyed,
                        seal,
                        at@,
                        Err::<bool, Problem>(p),
                    ));
                }
                return Err(p);
            },
            Ok(a) => answer_report(broker, journal, i, effect_id, a, at),
        }
    } else {
        proof {
            assert(meter_answered(
                meter,
                *wire,
                mid,
                *binding,
                realm@,
                effect_id@,
                the_answer,
            ));
        }
    }
    let ghost done = *broker;
    let ghost u = mid.reports@[report_key(effect_id@)];
    let ghost done_journal = report_told(old(journal)@, u, effect_id@, the_answer);
    proof {
        assert(journal@ == done_journal);
    }
    let r = apply_number(
        broker,
        res,
        journal,
        i,
        reservation_ref,
        effect_id,
        measure,
        keyed,
        seal,
    );
    proof {
        assert(number_applied(
            done,
            *broker,
            *old(res),
            *res,
            done_journal,
            journal@,
            reservation_key(*eps, stable_binding_key),
            effect_id@,
            measure,
            keyed,
            seal,
            r,
        ));
        assert(report_closed(
            mid,
            *broker,
            *old(res),
            *res,
            old(journal)@,
            journal@,
            reservation_key(*eps, stable_binding_key),
            effect_id@,
            the_answer,
            measure,
            keyed,
            seal,
            at@,
            r,
        ));
    }
    r
}

/// The disclosure under an identifier.
pub fn read_disclosure<'a>(broker: &'a Broker, id: &str) -> (r: Option<&'a Disclosure>)
    requires
        broker.wf(),
    ensures
        match r {
            Some(row) => broker.disclosures@.contains_key(key1(id@)) && *row == broker.disclosures@[key1(id@)],
            None => !broker.disclosures@.contains_key(key1(id@)),
        },
{
    proof {
        reveal_strlit("");
        crate::text::empty_is(""@);
    }
    broker.disclosures.find(id, "")
}

/// The sealed context chain under an identifier.
pub fn read_provider_context<'a>(broker: &'a Broker, id: &str) -> (r: Option<&'a ProviderContext>)
    requires
        broker.wf(),
    ensures
        match r {
            Some(row) => broker.contexts@.contains_key(key1(id@)) && *row == broker.contexts@[key1(id@)],
            None => !broker.contexts@.contains_key(key1(id@)),
        },
{
    proof {
        reveal_strlit("");
        crate::text::empty_is(""@);
    }
    broker.contexts.find(id, "")
}

// ------------------------------------------------------------- recovery ----

/// What the startup sweep makes of one attempt: one that was left dispatching
/// is ambiguous and frozen, any other stays as it is.
pub open spec fn swept_attempt(before: EffectAttempt, after: EffectAttempt, at: Seq<char>) -> bool {
    if before.state is Dispatching {
        &&& after == (EffectAttempt {
            state: EffectState::Ambiguous,
            retry_frozen: true,
            observation: after.observation,
            completed_at: after.completed_at,
            ..before
        })
        &&& opt_view(after.observation) == Some(
            "the process died while dispatching; a request may have been transmitted and the provider may have been billed"@,
        )
        &&& opt_view(after.completed_at) == Some(at)
    } else {
        after == before
    }
}

/// Whether a dispatching attempt rides on a consumption.
pub open spec fn in_flight(attempts: Seq<EffectAttempt>, consumption_id: Seq<char>) -> bool {
    exists|i: int|
        0 <= i < attempts.len() && (#[trigger] attempts[i]).state is Dispatching
            && attempts[i].consumption_ref@ == consumption_id
}

/// What the startup sweep makes of one consumption: the use of one that was in
/// flight is gone.
pub open spec fn swept_consumption(
    before: Consumption,
    after: Consumption,
    attempts: Seq<EffectAttempt>,
) -> bool {
    after == (Consumption { spent: before.spent || in_flight(attempts, before.consumption_id@), ..before })
}

/// Whether one of the first `n` attempts was left dispatching for an effect.
pub open spec fn left_dispatching(attempts: Seq<EffectAttempt>, effect_id: Seq<char>, n: int) -> bool {
    exists|i: int|
        0 <= i < n && (#[trigger] attempts[i]).state is Dispatching && attempts[i].effect_id@
            == effect_id
}

/// What the startup sweep makes of one effect.
pub open spec fn swept_effect(before: Effect, attempts: Seq<EffectAttempt>, n: int) -> Effect {
    if left_dispatching(attempts, before.effect_id@, n) {
        Effect { state: EffectState::Ambiguous, ..before }
    } else {
        before
    }
}

/// The events of the sweep over the first `n` attempts.
pub open spec fn sweep_journal(j: JournalView, attempts: Seq<EffectAttempt>, n: int) -> JournalView
    decreases n,
{
    if n <= 0 {
        j
    } else {
        let below = sweep_journal(j, attempts, n - 1);
        if attempts[n - 1].state is Dispatching {
            below.with_effect_event(
                effect_event(
                    EventKind::ModelEffectAmbiguous,
                    attempts[n - 1].effect_id@,
                    recovered_document(attempts[n - 1].effect_attempt_id@),
                ),
            )
        } else {
            below
        }
    }
}

/// How many of the first `n` attempts were left dispatching.
pub open spec fn dispatching_count(attempts: Seq<EffectAttempt>, n: int) -> nat
    decreases n,
{
    if n <= 0 {
        0
    } else {
        dispatching_count(attempts, n - 1) + if attempts[n - 1].state is Dispatching {
            1nat
        } else {
            0nat
        }
    }
}

fn is_in_flight(attempts: &Vec<EffectAttempt>, consumption_id: &str) -> (r: bool)
    ensures
        r == in_flight(attempts@, consumption_id@),
{
    let mut i: usize = 0;
    while i < attempts.len()
        invariant
            i <= attempts.len(),
            forall|j: int|
                0 <= j < i ==> !((#[trigger] attempts@[j]).state is Dispatching
                    && attempts@[j].consumption_ref@ == consumption_id@),
        decreases attempts.len() - i,
    {
        if attempts[i].state == EffectState::Dispatching && same(
            attempts[i].consumption_ref.as_str(),
            consumption_id,
        ) {
            return true;
        }
        i = i + 1;
    }
    false
}

fn spend_in_flight(broker: &mut Broker)
    requires
        old(broker).wf(),
    ensures
        final(broker).wf(),
        final(broker).attempts == old(broker).attempts,
        final(broker).effects == old(broker).effects,
        final(broker).reports == old(broker).reports,
        final(broker).disclosures == old(broker).disclosures,
        final(broker).contexts == old(broker).contexts,
        final(broker).consumptions.rows@.len() == old(broker).consumptions.rows@.len(),
        forall|i: int|
            0 <= i < old(broker).consumptions.rows@.len() ==> swept_consumption(
                old(broker).consumptions.rows@[i],
                #[trigger] final(broker).consumptions.rows@[i],
                old(broker).attempts.rows@,
            ),
{
    let mut i: usize = 0;
    while i < broker.consumptions.rows.len()
        invariant
            old(broker).wf(),
            i <= broker.consumptions.rows@.len(),
            broker.attempts == old(broker).attempts,
            broker.effects == old(broker).effects,
            broker.reports == old(broker).reports,
            broker.disclosures == old(broker).disclosures,
            broker.contexts == old(broker).contexts,
            broker.consumptions.rows@.len() == old(broker).consumptions.rows@.len(),
            forall|j: int|
                0 <= j < i ==> swept_consumption(
                    old(broker).consumptions.rows@[j],
                    #[trigger] broker.consumptions.rows@[j],
                    old(broker).attempts.rows@,
                ),
            forall|j: int|
                i <= j < broker.consumptions.rows@.len() ==> #[trigger] broker.consumptions.rows@[j]
                    == old(broker).consumptions.rows@[j],
        decreases broker.consumptions.rows.len() - i,
    {
        if is_in_flight(
            &broker.attempts.rows,
            broker.consumptions.rows[i].consumption_id.as_str(),
        ) {
            broker.consumptions.rows[i].spent = true;
        }
        i = i + 1;
    }
    proof {
        let b = old(broker).consumptions.rows@;
        let a = broker.consumptions.rows@;
        assert forall|p: int, q: int| 0 <= p < q < a.len() implies #[trigger] a[p].key()
            != #[trigger] a[q].key() by {
            assert(swept_consumption(b[p], a[p], old(broker).attempts.rows@));
            assert(swept_consumption(b[q], a[q], old(broker).attempts.rows@));
            assert(b[p].key() != b[q].key());
        }
        assert forall|p: int| 0 <= p < b.len() implies (#[trigger] a[p]).execution_key
            == b[p].execution_key by {
            assert(swept_consumption(b[p], a[p], old(broker).attempts.rows@));
        }
        consumption_keys_kept(b, a);
    }
}

/// What recovering after a crash does and answers.
pub open spec fn recover_outcome(
    broker: Broker,
    broker_after: Broker,
    journal: JournalView,
    journal_after: JournalView,
    at: Seq<char>,
    r: usize,
) -> bool {
    &&& r == dispatching_count(
        broker.attempts.rows@,
        broker.attempts.rows@.len() as int,
    )
    &&& broker_after.attempts.rows@.len() == broker.attempts.rows@.len()
    &&& forall|i: int|
        0 <= i < broker.attempts.rows@.len() ==> swept_attempt(
            broker.attempts.rows@[i],
            #[trigger] broker_after.attempts.rows@[i],
            at,
        )
    &&& broker_after.consumptions.rows@.len() == broker.consumptions.rows@.len()
    &&& forall|i: int|
        0 <= i < broker.consumptions.rows@.len() ==> swept_consumption(
            broker.consumptions.rows@[i],
            #[trigger] broker_after.consumptions.rows@[i],
            broker.attempts.rows@,
        )
    &&& broker_after.effects@.dom() =~= broker.effects@.dom()
    &&& forall|k: Key| #[trigger]
        broker.effects@.contains_key(k) ==> broker_after.effects@[k] == swept_effect(
            broker.effects@[k],
            broker.attempts.rows@,
            broker.attempts.rows@.len() as int,
        )
    &&& broker_after.reports == broker.reports
    &&& broker_after.disclosures == broker.disclosures
    &&& broker_after.contexts == broker.contexts
    &&& journal_after == sweep_journal(
        journal,
        broker.attempts.rows@,
        broker.attempts.rows@.len() as int,
    )
}

/// The startup sweep: an attempt that was left dispatching may have been
/// transmitted, so it is ambiguous with its retry frozen, its effect with it,
/// and the use it rode on is spent. The answer is how many there were.
pub fn recover_dispatching(broker: &mut Broker, journal: &mut Journal, at: &str) -> (r: usize)
    requires
        old(broker).wf(),
    ensures
        final(broker).wf(),
        recover_outcome(
            *old(broker),
            *final(broker),
            old(journal)@,
            final(journal)@,
            at@,
            r,
        ),
{
    spend_in_flight(broker);
    let ghost mid = *broker;
    let ghost before = old(broker).attempts.rows@;
    let mut count: usize = 0;
    let mut i: usize = 0;
    while i < broker.attempts.rows.len()
        invariant
            mid.wf(),
            mid.attempts == old(broker).attempts,
            mid.effects == old(broker).effects,
            before == old(broker).attempts.rows@,
            i <= broker.attempts.rows@.len(),
            broker.effects.wf(),
            effect_keys_distinct(broker.effects.rows@),
            broker.consumptions == mid.consumptions,
            broker.reports == mid.reports,
            broker.disclosures == mid.disclosures,
            broker.contexts == mid.contexts,
            broker.attempts.rows@.len() == before.len(),
            count == dispatching_count(before, i as int),
            count <= i,
            forall|j: int|
                0 <= j < i ==> swept_attempt(before[j], #[trigger] broker.attempts.rows@[j], at@),
            forall|j: int|
                i <= j < before.len() ==> #[trigger] broker.attempts.rows@[j] == before[j],
            broker.effects@.dom() =~= mid.effects@.dom(),
            forall|k: Key| #[trigger]
                mid.effects@.contains_key(k) ==> broker.effects@[k] == swept_effect(
                    mid.effects@[k],
                    before,
                    i as int,
                ),
            journal@ == sweep_journal(old(journal)@, before, i as int),
        decreases broker.attempts.rows.len() - i,
    {
        if broker.attempts.rows[i].state == EffectState::Dispatching {
            let effect_id = broker.attempts.rows[i].effect_id.clone();
            broker.attempts.rows[i].state = EffectState::Ambiguous;
            broker.attempts.rows[i].retry_frozen = true;
            broker.attempts.rows[i].observation = Some(
                "the process died while dispatching; a request may have been transmitted and the provider may have been billed".to_owned(),
            );
            broker.attempts.rows[i].completed_at = Some(at.to_owned());
            let ghost eff = broker.effects@;
            set_effect_state(&mut broker.effects, effect_id.as_str(), EffectState::Ambiguous);
            let payload = recovered_payload(broker.attempts.rows[i].effect_attempt_id.as_str());
            emit(journal, EventKind::ModelEffectAmbiguous, effect_id.as_str(), payload);
            count = count + 1;
            proof {
                assert forall|k: Key| #[trigger] mid.effects@.contains_key(k) implies broker.effects@[k]
                    == swept_effect(mid.effects@[k], before, i + 1) by {
                    effect_under_key(mid.effects, k);
                    let e = mid.effects@[k];
                    assert(before[i as int].effect_id@ == effect_id@);
                    if e.effect_id@ == effect_id@ {
                        assert(left_dispatching(before, e.effect_id@, i + 1));
                        assert(eff.contains_key(k));
                    } else {
                        assert(left_dispatching(before, e.effect_id@, i + 1) == left_dispatching(
                            before,
                            e.effect_id@,
                            i as int,
                        )) by {
                            if left_dispatching(before, e.effect_id@, i as int) {
                                let w = choose|w: int|
                                    0 <= w < i && (#[trigger] before[w]).state is Dispatching
                                        && before[w].effect_id@ == e.effect_id@;
                                assert(0 <= w < i + 1 && before[w].state is Dispatching);
                            }
                        }
                    }
                }
            }
        } else {
            proof {
                assert forall|k: Key| #[trigger] mid.effects@.contains_key(k) implies broker.effects@[k]
                    == swept_effect(mid.effects@[k], before, i + 1) by {
                    let e = mid.effects@[k];
                    assert(left_dispatching(before, e.effect_id@, i + 1) == left_dispatching(
                        before,
                        e.effect_id@,
                        i as int,
                    )) by {
                        if left_dispatching(before, e.effect_id@, i as int) {
                            let w = choose|w: int|
                                0 <= w < i && (#[trigger] before[w]).state is Dispatching
                                    && before[w].effect_id@ == e.effect_id@;
                            assert(0 <= w < i + 1 && before[w].state is Dispatching);
                        }
                    }
                }
            }
        }
        i = i + 1;
    }
    proof {
        let a = broker.attempts.rows@;
        assert forall|p: int, q: int| 0 <= p < q < a.len() implies #[trigger] a[p].key()
            != #[trigger] a[q].key() by {
            assert(swept_attempt(before[p], a[p], at@));
            assert(swept_attempt(before[q], a[q], at@));
            assert(before[p].key() != before[q].key());
        }
        assert forall|p: int| 0 <= p < a.len() implies broker.effects@.contains_key(
            key1((#[trigger] a[p]).effect_id@),
        ) by {
            assert(swept_attempt(before[p], a[p], at@));
            assert(mid.effects@.contains_key(key1(before[p].effect_id@)));
        }
    }
    count
}

/// An effect stands under its own identifier.
proof fn effect_under_key(effects: Table<Effect>, k: Key)
    requires
        effects.wf(),
        effects@.contains_key(k),
    ensures
        k == key1(effects@[k].effect_id@),
{
    let i = crate::table::table_row(effects, k);
}

/// What reconciling makes of an attempt.
pub open spec fn reconciled_attempt(
    before: EffectAttempt,
    after: EffectAttempt,
    resolution: EffectState,
    observation: Seq<char>,
) -> bool {
    &&& after == (EffectAttempt {
        state: resolution,
        retry_frozen: false,
        reconciliation: after.reconciliation,
        ..before
    })
    &&& opt_view(after.reconciliation) == Some(observation)
}

/// What reconciling an effect does and answers.
pub open spec fn reconcile_outcome(
    broker: Broker,
    broker_after: Broker,
    journal: JournalView,
    journal_after: JournalView,
    effect_attempt_id: Seq<char>,
    resolution: EffectState,
    observation: Seq<char>,
    r: Result<(), Problem>,
) -> bool {
    &&& broker_after.consumptions == broker.consumptions
    &&& r is Err ==> broker_after == broker && journal_after == journal
    &&& if resolution !is Completed && resolution !is Failed {
        r is Err && r->Err_0@ == refusal_with(
            ProblemKind::Invalid,
            "an ambiguous attempt resolves to completed or failed"@,
            "reconciliation records what was observed; it never invents a third outcome"@,
        )
    } else if !broker.attempts@.contains_key(key1(effect_attempt_id)) {
        r is Err && r->Err_0@ == not_found_view()
    } else {
        let k = key1(effect_attempt_id);
        let a = broker.attempts@[k];
        if a.state !is Ambiguous {
            r is Err && r->Err_0@ == refusal_with(
                ProblemKind::Forbidden,
                "only an ambiguous attempt is reconciled"@,
                "a completed, failed or canceled attempt is already resolved"@,
            )
        } else {
            &&& r is Ok
            &&& broker_after.attempts@ == broker.attempts@.insert(
                k,
                broker_after.attempts@[k],
            )
            &&& reconciled_attempt(a, broker_after.attempts@[k], resolution, observation)
            &&& effect_state_set(
                broker.effects,
                broker_after.effects,
                a.effect_id@,
                resolution,
            )
            &&& journal_after == journal.with_effect_event(
                effect_event(
                    EventKind::ModelEffectReconciled,
                    a.effect_id@,
                    reconciled_document(effect_attempt_id, resolution, observation),
                ),
            )
        }
    }
}

/// The operator's reconciliation of an ambiguous attempt: it records what was
/// observed and clears the freeze. It brings no spent use back.
pub fn reconcile(
    broker: &mut Broker,
    journal: &mut Journal,
    effect_attempt_id: &str,
    resolution: EffectState,
    observation: &str,
) -> (r: Result<(), Problem>)
    requires
        old(broker).wf(),
    ensures
        final(broker).wf(),
        reconcile_outcome(
            *old(broker),
            *final(broker),
            old(journal)@,
            final(journal)@,
            effect_attempt_id@,
            resolution,
            observation@,
            r,
        ),
{
    let resolved = match resolution {
        EffectState::Completed => true,
        EffectState::Failed => true,
        _ => false,
    };
    if !resolved {
        return Err(
            problem(
                ProblemKind::Invalid,
                "an ambiguous attempt resolves to completed or failed",
                "reconciliation records what was observed; it never invents a third outcome",
            ),
        );
    }
    proof {
        reveal_strlit("");
        crate::text::empty_is(""@);
    }
    let i = match broker.attempts.position(effect_attempt_id, "") {
        None => {
            return Err(not_found());
        },
        Some(i) => i,
    };
    if broker.attempts.rows[i].state != EffectState::Ambiguous {
        return Err(
            problem(
                ProblemKind::Forbidden,
                "only an ambiguous attempt is reconciled",
                "a completed, failed or canceled attempt is already resolved",
            ),
        );
    }
    let effect_id = broker.attempts.rows[i].effect_id.clone();
    broker.attempts.rows[i].state = resolution;
    broker.attempts.rows[i].retry_frozen = false;
    broker.attempts.rows[i].reconciliation = Some(observation.to_owned());
    proof {
        crate::table::table_updated(
            old(broker).attempts,
            broker.attempts,
            i as int,
            broker.attempts.rows@[i as int],
        );
    }
    set_effect_state(&mut broker.effects, effect_id.as_str(), resolution);
    proof {
        assert forall|p: int| 0 <= p < broker.attempts.rows@.len() implies broker.effects@.contains_key(
            key1((#[trigger] broker.attempts.rows@[p]).effect_id@),
        ) by {
            assert(broker.attempts.rows@[p].effect_id == old(broker).attempts.rows@[p].effect_id);
        }
    }
    let payload = reconciled_payload(effect_attempt_id, resolution, observation);
    emit(journal, EventKind::ModelEffectReconciled, effect_id.as_str(), payload);
    Ok(())
}

// -------------------------------------------------- what the worker gets ----

/// What the worker gets back. No credential, no URL, no host, no header.
#[derive(Debug)]
pub struct Completion {
    pub effect_id: String,
    pub effect_attempt_id: String,
    pub state: EffectState,
    pub text: Option<String>,
    pub usage: Usage,
    pub model: Option<String>,
    pub stop_reason: Option<String>,
    pub external_ref: Option<String>,
    pub disclosure_manifest_ref: String,
    pub provider_context_manifest_ref: String,
    pub latency_ms: u64,
    pub transport_profile: String,
    pub observation: Option<String>,
    pub retry_frozen: bool,
    pub usage_reported: bool,
}

/// What the completion of a dispatched effect holds.
pub open spec fn completed(
    effect: Effect,
    effect_attempt_id: Seq<char>,
    outcome: Outcome,
    usage_reported: bool,
    r: Completion,
) -> bool {
    &&& r.effect_id@ == effect.effect_id@
    &&& r.effect_attempt_id@ == effect_attempt_id
    &&& r.state == outcome.state
    &&& r.text == outcome.text
    &&& r.usage == outcome.usage
    &&& r.model == outcome.model
    &&& r.stop_reason == outcome.stop_reason
    &&& r.external_ref == outcome.external_ref
    &&& r.disclosure_manifest_ref@ == effect.disclosure_manifest_ref@
    &&& r.provider_context_manifest_ref@ == effect.provider_context_ref@
    &&& r.latency_ms == outcome.latency_ms
    &&& r.transport_profile == outcome.transport_profile
    &&& r.observation == outcome.observation
    &&& r.retry_frozen == outcome.state.frozen()
    &&& r.usage_reported == usage_reported
}

/// The completion of a dispatched effect.
pub fn completion(
    effect: &Effect,
    effect_attempt_id: &str,
    outcome: Outcome,
    usage_reported: bool,
) -> (r: Completion)
    ensures
        completed(
            *effect,
            effect_attempt_id@,
            outcome,
            usage_reported,
            r,
        ),
{
    Completion {
        effect_id: effect.effect_id.clone(),
        effect_attempt_id: effect_attempt_id.to_owned(),
        state: outcome.state,
        text: outcome.text,
        usage: outcome.usage,
        model: outcome.model,
        stop_reason: outcome.stop_reason,
        external_ref: outcome.external_ref,
        disclosure_manifest_ref: effect.disclosure_manifest_ref.clone(),
        provider_context_manifest_ref: effect.provider_context_ref.clone(),
        latency_ms: outcome.latency_ms,
        transport_profile: outcome.transport_profile,
        observation: outcome.observation,
        retry_frozen: outcome.state.retry_frozen(),
        usage_reported,
    }
}

pub open spec fn usage_view(u: Usage) -> JsonView {
    JsonView::Object(
        seq![
            ("input_tokens"@, JsonView::Number(number_of(u.input_tokens))),
            ("output_tokens"@, JsonView::Number(number_of(u.output_tokens))),
        ],
    )
}

/// The members that leave on the worker socket, and no others.
pub open spec fn worker_members(c: Completion) -> Seq<(Seq<char>, JsonView)> {
    seq![
        text_member("disclosure_manifest_ref"@, c.disclosure_manifest_ref@),
        text_member("effect_attempt_id"@, c.effect_attempt_id@),
        text_member("effect_id"@, c.effect_id@),
        ("latency_ms"@, JsonView::Number(number_of(c.latency_ms))),
    ] + optional("model"@, opt_view(c.model)) + optional("observation"@, opt_view(c.observation))
        + seq![
        text_member("provider_context_manifest_ref"@, c.provider_context_manifest_ref@),
    ] + optional("provider_ref"@, opt_view(c.external_ref)) + seq![
        ("retry_frozen"@, JsonView::Bool(c.retry_frozen)),
        text_member("state"@, c.state.name()),
    ] + optional("stop_reason"@, opt_view(c.stop_reason)) + optional("text"@, opt_view(c.text))
        + seq![
        ("usage"@, usage_view(c.usage)),
        ("usage_reported"@, JsonView::Bool(c.usage_reported)),
    ]
}

impl Completion {
    /// The projection that leaves the daemon on the worker socket.
    #[verifier::rlimit(40)]
    pub fn worker_view(&self) -> (r: Json)
        ensures
            r@ == JsonView::Object(worker_members(*self)),
    {
        let mut u: Vec<(String, Json)> = Vec::new();
        put(&mut u, "input_tokens", Json::Number(number(self.usage.input_tokens)));
        put(&mut u, "output_tokens", Json::Number(number(self.usage.output_tokens)));
        let usage = object(u);
        proof {
            assert(members(u@) =~= usage_view(self.usage)->Object_0);
        }
        let mut v: Vec<(String, Json)> = Vec::new();
        put(
            &mut v,
            "disclosure_manifest_ref",
            Json::Text(self.disclosure_manifest_ref.clone()),
        );
        put(&mut v, "effect_attempt_id", Json::Text(self.effect_attempt_id.clone()));
        put(&mut v, "effect_id", Json::Text(self.effect_id.clone()));
        put(&mut v, "latency_ms", Json::Number(number(self.latency_ms)));
        put_optional(&mut v, "model", &self.model);
        put_optional(&mut v, "observation", &self.observation);
        put(
            &mut v,
            "provider_context_manifest_ref",
            Json::Text(self.provider_context_manifest_ref.clone()),
        );
        put_optional(&mut v, "provider_ref", &self.external_ref);
        put(&mut v, "retry_frozen", Json::Bool(self.retry_frozen));
        put(&mut v, "state", Json::Text(self.state.as_str().to_owned()));
        put_optional(&mut v, "stop_reason", &self.stop_reason);
        put_optional(&mut v, "text", &self.text);
        put(&mut v, "usage", usage);
        put(&mut v, "usage_reported", Json::Bool(self.usage_reported));
        proof {
            assert(members(v@) =~= worker_members(*self));
        }
        object(v)
    }
}

// ------------------------------------------------- one dispatched effect ----

/// The attempt of an effect whose exchange is over.
pub open spec fn dispatched_row(
    a: EffectAttempt,
    broker: Broker,
    attempt_id: Seq<char>,
    effect_id: Seq<char>,
    consumption_id: Seq<char>,
    profile: Seq<char>,
    outcome: Outcome,
    at: Seq<char>,
) -> bool {
    exists|b: EffectAttempt|
        {
            &&& #[trigger] dispatching_row(
                b,
                broker,
                attempt_id,
                effect_id,
                consumption_id,
                profile,
                at,
            )
            &&& attempt_ended(b, a, outcome, at)
        }
}

/// What claiming the one use of a consumption comes to.
pub open spec fn claim_of(broker: Broker, consumption_id: Seq<char>, key: Seq<char>) -> Claim {
    if claimable(broker, consumption_id, key) {
        Claim::Claimed
    } else {
        Claim::AlreadySpent
    }
}

/// What a dispatch has put on record before its exchange: one more attempt,
/// dispatching, the effect in that state too, and the one use claimed.
pub open spec fn effect_begun(
    before: Broker,
    after: Broker,
    effect_id: Seq<char>,
    execution_key: Seq<char>,
    consumption_id: Seq<char>,
    attempt_id: Seq<char>,
    profile: Seq<char>,
    at: Seq<char>,
) -> bool {
    let k = key1(consumption_id);
    let a = after.attempts@[key1(attempt_id)];
    &&& after.attempts@ == before.attempts@.insert(key1(attempt_id), a)
    &&& dispatching_row(a, before, attempt_id, effect_id, consumption_id, profile, at)
    &&& effect_state_set(before.effects, after.effects, effect_id, EffectState::Dispatching)
    &&& after.consumptions@ == if claimable(before, consumption_id, execution_key) {
        before.consumptions@.insert(k, Consumption { spent: true, ..before.consumptions@[k] })
    } else {
        before.consumptions@
    }
    &&& after.reports == before.reports
    &&& after.disclosures == before.disclosures
    &&& after.contexts == before.contexts
}

/// What a dispatch leaves once its exchange is over: one more attempt, with
/// the outcome on it and on the effect, and the one use claimed.
pub open spec fn effect_dispatched(
    before: Broker,
    after: Broker,
    effect_id: Seq<char>,
    execution_key: Seq<char>,
    consumption_id: Seq<char>,
    attempt_id: Seq<char>,
    profile: Seq<char>,
    outcome: Outcome,
    at: Seq<char>,
) -> bool {
    let k = key1(consumption_id);
    &&& after.attempts@ == before.attempts@.insert(
        key1(attempt_id),
        after.attempts@[key1(attempt_id)],
    )
    &&& dispatched_row(
        after.attempts@[key1(attempt_id)],
        before,
        attempt_id,
        effect_id,
        consumption_id,
        profile,
        outcome,
        at,
    )
    &&& effect_state_set(before.effects, after.effects, effect_id, outcome.state)
    &&& after.consumptions@ == if claimable(before, consumption_id, execution_key) {
        before.consumptions@.insert(k, Consumption { spent: true, ..before.consumptions@[k] })
    } else {
        before.consumptions@
    }
    &&& after.reports == before.reports
    &&& after.disclosures == before.disclosures
    &&& after.contexts == before.contexts
}

/// The events of a dispatch whose exchange is over.
pub open spec fn dispatched_journal(
    j: JournalView,
    broker: Broker,
    effect_id: Seq<char>,
    attempt_id: Seq<char>,
    profile: Seq<char>,
    outcome: Outcome,
) -> JournalView {
    let ordinal = (count_attempts(
        broker.attempts.rows@,
        effect_id,
        broker.attempts.rows@.len() as int,
    ) + 1) as u64;
    j.with_effect_event(
        effect_event(
            EventKind::ModelEffectDispatching,
            effect_id,
            dispatching_document(attempt_id, ordinal, profile),
        ),
    ).with_effect_event(
        effect_event(
            outcome_event(outcome.state),
            effect_id,
            outcome_document(attempt_id, outcome),
        ),
    )
}

/// What the worker is answered of an outcome.
pub open spec fn completes(
    c: Completion,
    effect: Effect,
    attempt_id: Seq<char>,
    outcome: Outcome,
    usage_reported: bool,
) -> bool {
    completed(effect, attempt_id, outcome, usage_reported, c)
}

/// What follows the exchange: the use is reported where it is due, and the
/// worker answered, or the report's refusal passed on.
pub open spec fn settled_after<
    M: FnOnce(&Broker, &Json) -> Result<ReportAnswer, Problem>,
    Q: FnOnce(&Reservation, &str, u64, u64, Meter) -> Result<u64, String>,
    G: Fn(&str, &Json) -> Keyed,
    S: Fn(&Reservation) -> Result<String, String>,
>(
    mid: Broker,
    after: Broker,
    res: Reservations,
    res_after: Reservations,
    mid_journal: JournalView,
    after_journal: JournalView,
    eps: Episodes,
    stable_binding_key: Option<&str>,
    realm: Seq<char>,
    wire: Wire,
    effect_id: Seq<char>,
    attempt_id: Seq<char>,
    outcome: Outcome,
    meter: M,
    measure: Q,
    keyed: G,
    seal: S,
    reported: Result<bool, Problem>,
    at: Seq<char>,
    r: Result<Completion, Problem>,
) -> bool {
    &&& usage_metered(
        mid,
        after,
        res,
        res_after,
        mid_journal,
        after_journal,
        eps,
        stable_binding_key,
        realm,
        wire,
        effect_id,
        attempt_id,
        outcome.usage,
        meter,
        measure,
        keyed,
        seal,
        at,
        reported,
    )
    &&& match reported {
        Err(p) => r == Err::<Completion, Problem>(p),
        Ok(b) => r is Ok && completes(
            r->Ok_0,
            mid.effects@[key1(effect_id)],
            attempt_id,
            outcome,
            b,
        ),
    }
}

/// Why nothing is dispatched.
pub open spec fn dispatch_refusal<Z>(
    broker: Broker,
    credential: CredentialAnswer<Z>,
    effect_id: Seq<char>,
    attempt_id: Seq<char>,
) -> Option<ProblemView> {
    match credential_refusal(credential) {
        Some(p) => Some(p),
        None => if broker.attempts@.contains_key(key1(attempt_id))
            || !broker.effects@.contains_key(key1(effect_id)) {
            Some(internal_view())
        } else {
            None
        },
    }
}

/// How long one exchange may take, in seconds.
pub const CALL_TIMEOUT_SECS: u64 = 120;

/// What the one exchange of a call is run with: what claiming the use came to,
/// the call's own plan, the permit that was got for it, and the credential.
pub struct Exchange<X, Z> {
    pub claim: Claim,
    pub plan: X,
    pub permit: Permit,
    pub credential: Z,
    pub timeout_secs: u64,
}

/// What dispatching an effect does and answers, once its credential was
/// resolved. The exchange runs on what is on record by then: the attempt,
/// dispatching, and the one use, claimed.
pub open spec fn effect_sent<
    X,
    Z,
    E: FnOnce(&Broker, Exchange<X, Z>) -> Outcome,
    M: FnOnce(&Broker, &Json) -> Result<ReportAnswer, Problem>,
    Q: FnOnce(&Reservation, &str, u64, u64, Meter) -> Result<u64, String>,
    G: Fn(&str, &Json) -> Keyed,
    S: Fn(&Reservation) -> Result<String, String>,
>(
    before: Broker,
    after: Broker,
    res: Reservations,
    res_after: Reservations,
    journal: JournalView,
    after_journal: JournalView,
    eps: Episodes,
    stable_binding_key: Option<&str>,
    realm: Seq<char>,
    wire: Wire,
    effect_id: Seq<char>,
    execution_key: Seq<char>,
    consumption_id: Seq<char>,
    credential: CredentialAnswer<Z>,
    plan: X,
    permit: Permit,
    attempt_id: Seq<char>,
    transport_profile: Seq<char>,
    at: Seq<char>,
    exchange: E,
    meter: M,
    measure: Q,
    keyed: G,
    seal: S,
    r: Result<Completion, Problem>,
) -> bool {
    match dispatch_refusal(before, credential, effect_id, attempt_id) {
        Some(p) => {
            &&& r is Err
            &&& r->Err_0@ == p
            &&& after == before
            &&& res_after == res
            &&& after_journal == journal
        },
        None => exists|
            begun: Broker,
            outcome: Outcome,
            mid: Broker,
            reported: Result<bool, Problem>,
        |
            {
                &&& #[trigger] effect_begun(
                    before,
                    begun,
                    effect_id,
                    execution_key,
                    consumption_id,
                    attempt_id,
                    transport_profile,
                    at,
                )
                &&& exchange.ensures(
                    (
                        &begun,
                        (Exchange {
                            claim: claim_of(before, consumption_id, execution_key),
                            plan,
                            permit,
                            credential: credential->Resolved_0,
                            timeout_secs: CALL_TIMEOUT_SECS,
                        }),
                    ),
                    outcome,
                )
                &&& #[trigger] effect_dispatched(
                    before,
                    mid,
                    effect_id,
                    execution_key,
                    consumption_id,
                    attempt_id,
                    transport_profile,
                    outcome,
                    at,
                )
                &&& #[trigger] settled_after(
                    mid,
                    after,
                    res,
                    res_after,
                    dispatched_journal(
                        journal,
                        before,
                        effect_id,
                        attempt_id,
                        transport_profile,
                        outcome,
                    ),
                    after_journal,
                    eps,
                    stable_binding_key,
                    realm,
                    wire,
                    effect_id,
                    attempt_id,
                    outcome,
                    meter,
                    measure,
                    keyed,
                    seal,
                    reported,
                    at,
                    r,
                )
            },
    }
}

/// Whether `credential` is what resolving a reference came to.
pub open spec fn credential_resolved<Z, C: FnOnce(&str) -> CredentialAnswer<Z>>(
    resolve: C,
    reference: Seq<char>,
    credential: CredentialAnswer<Z>,
) -> bool {
    exists|t: &str| t@ == reference && #[trigger] resolve.ensures((t,), credential)
}

/// What dispatching an effect does and answers: its credential is resolved from
/// where the provider binding keeps it, and the effect sent.
pub open spec fn effect_done<
    X,
    Z,
    C: FnOnce(&str) -> CredentialAnswer<Z>,
    E: FnOnce(&Broker, Exchange<X, Z>) -> Outcome,
    M: FnOnce(&Broker, &Json) -> Result<ReportAnswer, Problem>,
    Q: FnOnce(&Reservation, &str, u64, u64, Meter) -> Result<u64, String>,
    G: Fn(&str, &Json) -> Keyed,
    S: Fn(&Reservation) -> Result<String, String>,
>(
    before: Broker,
    after: Broker,
    res: Reservations,
    res_after: Reservations,
    journal: JournalView,
    after_journal: JournalView,
    eps: Episodes,
    stable_binding_key: Option<&str>,
    realm: Seq<char>,
    wire: Wire,
    effect_id: Seq<char>,
    execution_key: Seq<char>,
    consumption_id: Seq<char>,
    to: Destination<'_>,
    resolve: C,
    plan: X,
    permit: Permit,
    attempt_id: Seq<char>,
    transport_profile: Seq<char>,
    at: Seq<char>,
    exchange: E,
    meter: M,
    measure: Q,
    keyed: G,
    seal: S,
    r: Result<Completion, Problem>,
) -> bool {
    if !to.known() {
        r is Err && r->Err_0@ == not_found_view() && after == before && res_after == res
            && after_journal == journal
    } else {
        exists|credential: CredentialAnswer<Z>|
            {
                &&& #[trigger] credential_resolved(
                    resolve,
                    binding_of_profile(
                        *to.providers,
                        to.model_profile_ref@,
                    ).credential_secret_ref@,
                    credential,
                )
                &&& effect_sent(
                    before,
                    after,
                    res,
                    res_after,
                    journal,
                    after_journal,
                    eps,
                    stable_binding_key,
                    realm,
                    wire,
                    effect_id,
                    execution_key,
                    consumption_id,
                    credential,
                    plan,
                    permit,
                    attempt_id,
                    transport_profile,
                    at,
                    exchange,
                    meter,
                    measure,
                    keyed,
                    seal,
                    r,
                )
            }
    }
}

fn send_effect<
    X,
    Z,
    E: FnOnce(&Broker, Exchange<X, Z>) -> Outcome,
    M: FnOnce(&Broker, &Json) -> Result<ReportAnswer, Problem>,
    Q: FnOnce(&Reservation, &str, u64, u64, Meter) -> Result<u64, String>,
    G: Fn(&str, &Json) -> Keyed,
    S: Fn(&Reservation) -> Result<String, String>,
>(
    broker: &mut Broker,
    res: &mut Reservations,
    journal: &mut Journal,
    eps: &Episodes,
    stable_binding_key: Option<&str>,
    realm: &str,
    wire: &Wire,
    effect_id: &str,
    execution_key: &str,
    consumption_id: &str,
    credential: CredentialAnswer<Z>,
    plan: X,
    permit: Permit,
    attempt_id: &str,
    transport_profile: &str,
    at: &str,
    exchange: E,
    meter: M,
    measure: Q,
    keyed: G,
    seal: S,
) -> (r: Result<Completion, Problem>)
    requires
        old(broker).wf(),
        eps.wf(),
        old(broker).attempts.rows@.len() < u64::MAX,
        forall|b: &Broker, x: Exchange<X, Z>|
            b.attempts@.contains_key(key1(attempt_id@)) && b.attempts@[key1(attempt_id@)].state
                is Dispatching && !claimable(*b, consumption_id@, execution_key@)
                ==> #[trigger] exchange.requires((b, x)),
        old(res).wf(),
        metering_fits(*old(res), *eps, stable_binding_key),
        keys_all(keyed),
        forall|r: &Reservation| #[trigger] seal.requires((r,)),
        asks_on_record(meter, effect_id@),
        forall|r: &Reservation, d: &str, earlier: u64, n: u64, m: Meter| #[trigger]
            measure.requires((r, d, earlier, n, m)),
    ensures
        final(broker).wf(),
        final(res).wf(),
        effect_sent(
            *old(broker),
            *final(broker),
            *old(res),
            *final(res),
            old(journal)@,
            final(journal)@,
            *eps,
            stable_binding_key,
            realm@,
            *wire,
            effect_id@,
            execution_key@,
            consumption_id@,
            credential,
            plan,
            permit,
            attempt_id@,
            transport_profile@,
            at@,
            exchange,
            meter,
            measure,
            keyed,
            seal,
            r,
        ),
{
    begin_dispatch(
        broker,
        journal,
        effect_id,
        consumption_id,
        &credential,
        attempt_id,
        transport_profile,
        at,
    )?;
    let ghost begun = *broker;
    proof {
        crate::table::table_at(
            broker.attempts,
            broker.attempts.rows@.len() - 1,
        );
        attempts_pushed(old(broker).attempts, broker.attempts);
    }
    let claim = claim_single_use(broker, consumption_id, execution_key);
    let ghost started = *broker;
    proof {
        assert(claim == claim_of(*old(broker), consumption_id@, execution_key@));
        assert(started.attempts == begun.attempts);
        assert(dispatching_row(
            started.attempts@[key1(attempt_id@)],
            *old(broker),
            attempt_id@,
            effect_id@,
            consumption_id@,
            transport_profile@,
            at@,
        ));
        assert(effect_begun(
            *old(broker),
            started,
            effect_id@,
            execution_key@,
            consumption_id@,
            attempt_id@,
            transport_profile@,
            at@,
        ));
        assert(!claimable(started, consumption_id@, execution_key@));
    }
    let secret = match credential {
        CredentialAnswer::Resolved(z) => z,
        _ => {
            return Err(internal());
        },
    };
    let handed = Exchange { claim, plan, permit, credential: secret, timeout_secs: CALL_TIMEOUT_SECS };
    let ghost the_handed = handed;
    let outcome = exchange(broker, handed);
    proof {
        assert(exchange.ensures((&started, the_handed), outcome));
    }
    finish_dispatch(broker, journal, effect_id, attempt_id, &outcome, at);
    let ghost mid = *broker;
    let ghost mid_journal = journal@;
    proof {
        let k = key1(attempt_id@);
        assert(dispatching_row(
            begun.attempts@[k],
            *old(broker),
            attempt_id@,
            effect_id@,
            consumption_id@,
            transport_profile@,
            at@,
        ));
        assert(dispatched_row(
            mid.attempts@[k],
            *old(broker),
            attempt_id@,
            effect_id@,
            consumption_id@,
            transport_profile@,
            outcome,
            at@,
        ));
        assert(mid.attempts@ =~= old(broker).attempts@.insert(k, mid.attempts@[k]));
        let ek = key1(effect_id@);
        assert(mid.effects@ =~= old(broker).effects@.insert(
            ek,
            Effect { state: outcome.state, ..old(broker).effects@[ek] },
        ));
        assert(effect_dispatched(
            *old(broker),
            mid,
            effect_id@,
            execution_key@,
            consumption_id@,
            attempt_id@,
            transport_profile@,
            outcome,
            at@,
        ));
    }
    let ghost the_outcome = outcome;
    let reported = report_usage(
        broker,
        res,
        journal,
        eps,
        stable_binding_key,
        realm,
        wire,
        effect_id,
        attempt_id,
        outcome.usage,
        meter,
        measure,
        keyed,
        seal,
        at,
    );
    let ghost the_reported = reported;
    proof {
        reveal_strlit("");
        crate::text::empty_is(""@);
    }
    let r = match reported {
        Err(p) => Err(p),
        Ok(b) => match broker.effects.position(effect_id, "") {
            None => Err(internal()),
            Some(i) => Ok(completion(&broker.effects.rows[i], attempt_id, outcome, b)),
        },
    };
    proof {
        assert(claim == claim_of(*old(broker), consumption_id@, execution_key@));
        assert(settled_after(
            mid,
            *broker,
            *old(res),
            *res,
            dispatched_journal(
                old(journal)@,
                *old(broker),
                effect_id@,
                attempt_id@,
                transport_profile@,
                the_outcome,
            ),
            journal@,
            *eps,
            stable_binding_key,
            realm@,
            *wire,
            effect_id@,
            attempt_id@,
            the_outcome,
            meter,
            measure,
            keyed,
            seal,
            the_reported,
            at@,
            r,
        ));
    }
    r
}

/// Dispatches a prepared effect: its credential is resolved, from where the
/// provider binding keeps it; the attempt is recorded as dispatching, the
/// one use is claimed, and only then does `exchange` run, once, on what is then
/// on record, with the call's plan, its permit, the
/// credential, and what the claim came to. Its outcome is recorded, and its use
/// reported and settled where that is due.
pub fn dispatch_effect<
    X,
    Z,
    C: FnOnce(&str) -> CredentialAnswer<Z>,
    E: FnOnce(&Broker, Exchange<X, Z>) -> Outcome,
    M: FnOnce(&Broker, &Json) -> Result<ReportAnswer, Problem>,
    Q: FnOnce(&Reservation, &str, u64, u64, Meter) -> Result<u64, String>,
    G: Fn(&str, &Json) -> Keyed,
    S: Fn(&Reservation) -> Result<String, String>,
>(
    broker: &mut Broker,
    res: &mut Reservations,
    journal: &mut Journal,
    eps: &Episodes,
    stable_binding_key: Option<&str>,
    realm: &str,
    wire: &Wire,
    effect_id: &str,
    execution_key: &str,
    consumption_id: &str,
    to: &Destination<'_>,
    resolve: C,
    plan: X,
    permit: Permit,
    attempt_id: &str,
    transport_profile: &str,
    at: &str,
    exchange: E,
    meter: M,
    measure: Q,
    keyed: G,
    seal: S,
) -> (r: Result<Completion, Problem>)
    requires
        old(broker).wf(),
        to.providers.wf(),
        forall|t: &str| #[trigger] resolve.requires((t,)),
        eps.wf(),
        old(broker).attempts.rows@.len() < u64::MAX,
        forall|b: &Broker, x: Exchange<X, Z>|
            b.attempts@.contains_key(key1(attempt_id@)) && b.attempts@[key1(attempt_id@)].state
                is Dispatching && !claimable(*b, consumption_id@, execution_key@)
                ==> #[trigger] exchange.requires((b, x)),
        old(res).wf(),
        metering_fits(*old(res), *eps, stable_binding_key),
        keys_all(keyed),
        forall|r: &Reservation| #[trigger] seal.requires((r,)),
        asks_on_record(meter, effect_id@),
        forall|r: &Reservation, d: &str, earlier: u64, n: u64, m: Meter| #[trigger]
            measure.requires((r, d, earlier, n, m)),
    ensures
        final(broker).wf(),
        final(res).wf(),
        effect_done(
            *old(broker),
            *final(broker),
            *old(res),
            *final(res),
            old(journal)@,
            final(journal)@,
            *eps,
            stable_binding_key,
            realm@,
            *wire,
            effect_id@,
            execution_key@,
            consumption_id@,
            *to,
            resolve,
            plan,
            permit,
            attempt_id@,
            transport_profile@,
            at@,
            exchange,
            meter,
            measure,
            keyed,
            seal,
            r,
        ),
{
    let (_, b) = read_profile(to.providers, to.realm, to.model_profile_ref)?;
    let secret_ref = to.providers.bindings.rows[b].credential_secret_ref.as_str();
    let credential = resolve(secret_ref);
    proof {
        assert(resolve.ensures((secret_ref,), credential));
        assert(credential_resolved(resolve, secret_ref@, credential));
    }
    send_effect(
        broker,
        res,
        journal,
        eps,
        stable_binding_key,
        realm,
        wire,
        effect_id,
        execution_key,
        consumption_id,
        credential,
        plan,
        permit,
        attempt_id,
        transport_profile,
        at,
        exchange,
        meter,
        measure,
        keyed,
        seal,
    )
}

/// One more attempt in a table is one more in its map.
proof fn attempts_pushed(before: Table<EffectAttempt>, after: Table<EffectAttempt>)
    requires
        before.wf(),
        after.wf(),
        after.rows@ == before.rows@.push(after.rows@.last()),
    ensures
        after@ == before@.insert(after.rows@.last().key(), after.rows@.last()),
{
    let k0 = after.rows@.last().key();
    assert forall|k: crate::table::Key| #[trigger] after@.contains_key(k) <==> before@.contains_key(k) || k
        == k0 by {
        if after@.contains_key(k) {
            let i = crate::table::table_row(after, k);
            if i < before.rows@.len() {
                crate::table::table_at(before, i);
            }
        }
        if before@.contains_key(k) {
            let i = crate::table::table_row(before, k);
            crate::table::table_at(after, i);
        }
        if k == k0 {
            crate::table::table_at(after, after.rows@.len() - 1);
        }
    }
    assert forall|k: crate::table::Key| after@.contains_key(k) implies #[trigger] after@[k]
        == before@.insert(k0, after.rows@.last())[k] by {
        let i = crate::table::table_row(after, k);
        if i < before.rows@.len() {
            crate::table::table_at(before, i);
        }
    }
    assert(after@ =~= before@.insert(k0, after.rows@.last()));
}

/// No use goes out twice: after a dispatch the consumption's one use is gone,
/// so that the next exchange under it is told so.
pub proof fn the_next_exchange_finds_it_spent(
    before: Broker,
    after: Broker,
    effect_id: Seq<char>,
    execution_key: Seq<char>,
    consumption_id: Seq<char>,
    attempt_id: Seq<char>,
    profile: Seq<char>,
    outcome: Outcome,
    at: Seq<char>,
)
    requires
        effect_dispatched(
            before,
            after,
            effect_id,
            execution_key,
            consumption_id,
            attempt_id,
            profile,
            outcome,
            at,
        ),
    ensures
        claim_of(after, consumption_id, execution_key) is AlreadySpent,
{
}

// ------------------------------------------------------ reading it back ----

/// Whether a row shows an effect.
pub open spec fn shows_effect(row: EffectRow, e: Effect) -> bool {
    &&& row.effect_id@ == e.effect_id@
    &&& row.state@ == e.state.name()
    &&& row.execution_key@ == e.execution_key@
    &&& row.external_idempotency_key@ == e.external_idempotency_key@
    &&& row.act_intent_ref@ == e.act_intent_ref@
    &&& row.disclosure_manifest_ref@ == e.disclosure_manifest_ref@
    &&& row.provider_context_ref@ == e.provider_context_ref@
    &&& opt_view(row.episode_ref) == opt_view(e.episode_ref)
}

fn effect_row(e: &Effect) -> (r: EffectRow)
    ensures
        shows_effect(r, *e),
{
    EffectRow {
        effect_id: e.effect_id.clone(),
        state: e.state.as_str().to_owned(),
        execution_key: e.execution_key.clone(),
        external_idempotency_key: e.external_idempotency_key.clone(),
        act_intent_ref: e.act_intent_ref.clone(),
        disclosure_manifest_ref: e.disclosure_manifest_ref.clone(),
        provider_context_ref: e.provider_context_ref.clone(),
        episode_ref: e.episode_ref.clone(),
    }
}

/// One stored effect.
pub fn read_effect(broker: &Broker, effect_id: &str) -> (r: Option<EffectRow>)
    requires
        broker.wf(),
    ensures
        match r {
            Some(row) => broker.effects@.contains_key(key1(effect_id@)) && shows_effect(
                row,
                broker.effects@[key1(effect_id@)],
            ),
            None => !broker.effects@.contains_key(key1(effect_id@)),
        },
{
    proof {
        reveal_strlit("");
        crate::text::empty_is(""@);
    }
    match broker.effects.find(effect_id, "") {
        None => None,
        Some(e) => Some(effect_row(e)),
    }
}

/// The effect under one execution key.
pub fn effect_by_execution_key(broker: &Broker, execution_key: &str) -> (r: Option<EffectRow>)
    requires
        broker.wf(),
    ensures
        match r {
            Some(row) => exists|i: int| #[trigger]
                of_execution_key(broker.effects.rows@, execution_key@, i) && shows_effect(
                    row,
                    broker.effects.rows@[i],
                ),
            None => forall|i: int| !#[trigger]
                of_execution_key(broker.effects.rows@, execution_key@, i),
        },
{
    match effect_by_key(broker, execution_key) {
        None => None,
        Some(i) => Some(effect_row(&broker.effects.rows[i])),
    }
}

/// The time that a call is judged at: the given one, or the clock's where none
/// is given.
pub fn wall(now: i64, clock: i64) -> (r: i64)
    ensures
        r == (if now == 0 {
            clock
        } else {
            now
        }),
{
    if now == 0 {
        clock
    } else {
        now
    }
}

// ------------------------------------------------------ the providers ----

#[derive(Debug, Clone, Copy, PartialEq, Eq, Structural)]
pub enum ProviderKind {
    Anthropic,
    Openai,
}

impl ProviderKind {
    pub open spec fn name(self) -> Seq<char> {
        match self {
            ProviderKind::Anthropic => "anthropic"@,
            ProviderKind::Openai => "openai"@,
        }
    }

    pub fn as_str(self) -> (r: &'static str)
        ensures
            r@ == self.name(),
    {
        match self {
            ProviderKind::Anthropic => "anthropic",
            ProviderKind::Openai => "openai",
        }
    }
}

/// A provider binding of a realm: where the provider is reached, what it claims,
/// and where its credential is kept.
#[derive(Debug)]
pub struct ProviderBinding {
    pub model_provider_binding_id: String,
    pub realm_ref: String,
    pub revision: u64,
    pub provider_kind: ProviderKind,
    pub endpoint_host: String,
    pub endpoint_port: u16,
    pub provider_claims: Json,
    pub credential_secret_ref: String,
    pub disabled: bool,
    pub record: String,
    pub digest: String,
    pub created_at: String,
    pub updated_at: String,
}

impl Row for ProviderBinding {
    open spec fn key(&self) -> Key {
        key1(self.model_provider_binding_id@)
    }

    fn has_key(&self, a: &str, b: &str) -> (r: bool) {
        proof {
            crate::text::empty_is(b@);
        }
        same(self.model_provider_binding_id.as_str(), a) && b.is_empty()
    }
}

/// A model profile over a provider binding.
#[derive(Debug)]
pub struct ModelProfile {
    pub model_profile_id: String,
    pub realm_ref: String,
    pub revision: u64,
    pub provider_binding_ref: String,
    pub provider_binding_revision: u64,
    pub model_selector: String,
    pub adapter_version: String,
    pub record: String,
    pub digest: String,
    pub created_at: String,
    pub updated_at: String,
}

impl Row for ModelProfile {
    open spec fn key(&self) -> Key {
        key1(self.model_profile_id@)
    }

    fn has_key(&self, a: &str, b: &str) -> (r: bool) {
        proof {
            crate::text::empty_is(b@);
        }
        same(self.model_profile_id.as_str(), a) && b.is_empty()
    }
}

/// The provider bindings and profiles that operators registered.
pub struct Providers {
    pub bindings: Table<ProviderBinding>,
    pub profiles: Table<ModelProfile>,
}

impl Providers {
    pub open spec fn wf(&self) -> bool {
        self.bindings.wf() && self.profiles.wf()
    }

    pub fn new() -> (r: Providers)
        ensures
            r.wf(),
            r.bindings.rows@.len() == 0,
            r.profiles.rows@.len() == 0,
    {
        Providers { bindings: Table::new(), profiles: Table::new() }
    }
}

pub open spec fn binding_id_of(kind: ProviderKind, realm: Seq<char>) -> Seq<char> {
    "mpb-"@ + kind.name() + "-"@ + realm
}

pub open spec fn profile_id_of(kind: ProviderKind, realm: Seq<char>) -> Seq<char> {
    "mp-"@ + kind.name() + "-"@ + realm
}

/// The identifier of a realm's binding to a provider.
pub fn provider_binding_id(kind: ProviderKind, realm: &str) -> (r: String)
    ensures
        r@ == binding_id_of(kind, realm@),
{
    cat4("mpb-", kind.as_str(), "-", realm)
}

/// The identifier of a realm's default profile for a provider.
pub fn model_profile_id(kind: ProviderKind, realm: &str) -> (r: String)
    ensures
        r@ == profile_id_of(kind, realm@),
{
    cat4("mp-", kind.as_str(), "-", realm)
}

/// What a provider claims of itself: assertions, not facts that were shown.
#[derive(Debug)]
pub struct ProviderClaims {
    pub region: String,
    pub retention: String,
    pub training_use: String,
}

/// What one request may use.
#[derive(Debug, Clone, Copy, PartialEq, Eq, Structural)]
pub struct RequestLimits {
    pub input_tokens: u64,
    pub output_tokens: u64,
    pub calls: u64,
}

/// Where a provider is reached.
#[derive(Debug)]
pub struct Origin {
    pub host: String,
    pub port: u16,
}

/// What a binding is built from.
#[derive(Debug)]
pub struct BindingAsk {
    pub binding_id: String,
    pub realm: String,
    pub kind: ProviderKind,
    pub origin: Origin,
    pub claims: ProviderClaims,
    pub credential_secret_ref: String,
    pub terms_ref: String,
}

/// What a profile is built from, beside its binding.
#[derive(Debug)]
pub struct ProfileAsk {
    pub profile_id: String,
    pub model_selector: String,
    pub limits: RequestLimits,
}

/// A binding as it was built: the claims as they are written in it, its record
/// and its digest.
#[derive(Debug)]
pub struct BindingDraft {
    pub revision: u64,
    pub provider_claims: Json,
    pub disabled: bool,
    pub record: String,
    pub digest: String,
}

/// A profile as it was built over a binding.
#[derive(Debug)]
pub struct ProfileDraft {
    pub revision: u64,
    pub provider_binding_revision: u64,
    pub adapter_version: String,
    pub record: String,
    pub digest: String,
}

/// The functions that providers are registered with: where a kind is reached,
/// and what builds a binding and a profile over it, or says why it is not
/// usable.
#[derive(Clone, Copy)]
pub struct Builders<O, B, F> {
    pub origin: O,
    pub binding: B,
    pub profile: F,
}

/// Each of the functions takes every argument.
pub open spec fn builds_all<
    O: Fn(ProviderKind) -> Origin + Copy,
    B: Fn(&BindingAsk) -> Result<BindingDraft, String> + Copy,
    F: Fn(&ProfileAsk, &BindingDraft) -> Result<ProfileDraft, String> + Copy,
>(builders: Builders<O, B, F>) -> bool {
    &&& forall|k: ProviderKind| #[trigger] builders.origin.requires((k,))
    &&& forall|ask: &BindingAsk| #[trigger] builders.binding.requires((ask,))
    &&& forall|ask: &ProfileAsk, b: &BindingDraft| #[trigger] builders.profile.requires((ask, b))
}

/// What an operator registers a provider with.
pub ghost struct Terms {
    pub region: Seq<char>,
    pub retention: Seq<char>,
    pub training_use: Seq<char>,
    pub credential_secret_ref: Seq<char>,
    pub model_selector: Seq<char>,
    pub limits: RequestLimits,
}

pub open spec fn terms_of(
    claims: ProviderClaims,
    credential_secret_ref: Seq<char>,
    model_selector: Seq<char>,
    limits: RequestLimits,
) -> Terms {
    Terms {
        region: claims.region@,
        retention: claims.retention@,
        training_use: claims.training_use@,
        credential_secret_ref,
        model_selector,
        limits,
    }
}

/// A binding is built as it is registered, at the origin of its kind.
pub open spec fn asks_binding(
    ask: BindingAsk,
    kind: ProviderKind,
    realm: Seq<char>,
    origin: Origin,
    terms: Terms,
) -> bool {
    &&& ask.binding_id@ == binding_id_of(kind, realm)
    &&& ask.realm@ == realm
    &&& ask.kind == kind
    &&& ask.origin.host@ == origin.host@
    &&& ask.origin.port == origin.port
    &&& ask.claims.region@ == terms.region
    &&& ask.claims.retention@ == terms.retention
    &&& ask.claims.training_use@ == terms.training_use
    &&& ask.credential_secret_ref@ == terms.credential_secret_ref
    &&& ask.terms_ref@ == "terms-"@ + kind.name()
}

/// A profile is built over its binding as it is registered.
pub open spec fn asks_profile(
    ask: ProfileAsk,
    kind: ProviderKind,
    realm: Seq<char>,
    terms: Terms,
) -> bool {
    &&& ask.profile_id@ == profile_id_of(kind, realm)
    &&& ask.model_selector@ == terms.model_selector
    &&& ask.limits == terms.limits
}

/// Whether the two results are what building came to.
pub open spec fn built<
    O: Fn(ProviderKind) -> Origin + Copy,
    B: Fn(&BindingAsk) -> Result<BindingDraft, String> + Copy,
    F: Fn(&ProfileAsk, &BindingDraft) -> Result<ProfileDraft, String> + Copy,
>(
    builders: Builders<O, B, F>,
    kind: ProviderKind,
    realm: Seq<char>,
    terms: Terms,
    origin: Origin,
    binding: Result<BindingDraft, String>,
    profile: Result<ProfileDraft, String>,
) -> bool {
    &&& builders.origin.ensures((kind,), origin)
    &&& exists|ask: &BindingAsk|
        asks_binding(*ask, kind, realm, origin, terms) && #[trigger] builders.binding.ensures(
            (ask,),
            binding,
        )
    &&& binding is Ok ==> exists|ask: &ProfileAsk|
        asks_profile(*ask, kind, realm, terms) && #[trigger] builders.profile.ensures(
            (ask, &binding->Ok_0),
            profile,
        )
}

/// A registered binding: as asked for and as built; a standing one keeps when
/// it was created.
pub open spec fn registered_binding(
    before: Table<ProviderBinding>,
    after: Table<ProviderBinding>,
    kind: ProviderKind,
    realm: Seq<char>,
    terms: Terms,
    origin: Origin,
    d: BindingDraft,
    at: Seq<char>,
) -> bool {
    let k = key1(binding_id_of(kind, realm));
    let b = after@[k];
    &&& after@ == before@.insert(k, b)
    &&& b.model_provider_binding_id@ == binding_id_of(kind, realm)
    &&& b.revision == d.revision
    &&& b.endpoint_host@ == origin.host@
    &&& b.endpoint_port == origin.port
    &&& b.provider_claims@ == d.provider_claims@
    &&& b.credential_secret_ref@ == terms.credential_secret_ref
    &&& b.disabled == d.disabled
    &&& b.record@ == d.record@
    &&& b.digest@ == d.digest@
    &&& b.updated_at@ == at
    &&& if before@.contains_key(k) {
        &&& b.realm_ref == before@[k].realm_ref
        &&& b.provider_kind == before@[k].provider_kind
        &&& b.created_at == before@[k].created_at
    } else {
        &&& b.realm_ref@ == realm
        &&& b.provider_kind == kind
        &&& b.created_at@ == at
    }
}

/// A registered profile, over its binding.
pub open spec fn registered_profile(
    before: Table<ModelProfile>,
    after: Table<ModelProfile>,
    kind: ProviderKind,
    realm: Seq<char>,
    terms: Terms,
    d: ProfileDraft,
    at: Seq<char>,
) -> bool {
    let k = key1(profile_id_of(kind, realm));
    let p = after@[k];
    &&& after@ == before@.insert(k, p)
    &&& p.model_profile_id@ == profile_id_of(kind, realm)
    &&& p.revision == d.revision
    &&& p.provider_binding_revision == d.provider_binding_revision
    &&& p.model_selector@ == terms.model_selector
    &&& p.adapter_version@ == d.adapter_version@
    &&& p.record@ == d.record@
    &&& p.digest@ == d.digest@
    &&& p.updated_at@ == at
    &&& if before@.contains_key(k) {
        &&& p.realm_ref == before@[k].realm_ref
        &&& p.provider_binding_ref == before@[k].provider_binding_ref
        &&& p.created_at == before@[k].created_at
    } else {
        &&& p.realm_ref@ == realm
        &&& p.provider_binding_ref@ == binding_id_of(kind, realm)
        &&& p.created_at@ == at
    }
}

/// What registering does and answers, once binding and profile were built.
pub open spec fn register_outcome(
    before: Providers,
    after: Providers,
    realm: Seq<char>,
    kind: ProviderKind,
    terms: Terms,
    origin: Origin,
    binding: Result<BindingDraft, String>,
    profile: Result<ProfileDraft, String>,
    at: Seq<char>,
    r: Result<(), Problem>,
) -> bool {
    &&& r is Err ==> after == before
    &&& match binding {
        Err(e) => r is Err && r->Err_0@ == refusal_with(
            ProblemKind::Invalid,
            "the provider binding is not usable"@,
            e@,
        ),
        Ok(b) => match profile {
            Err(e) => r is Err && r->Err_0@ == refusal_with(
                ProblemKind::Invalid,
                "the model profile is not usable"@,
                e@,
            ),
            Ok(p) => {
                &&& r is Ok
                &&& registered_binding(
                    before.bindings,
                    after.bindings,
                    kind,
                    realm,
                    terms,
                    origin,
                    b,
                    at,
                )
                &&& registered_profile(
                    before.profiles,
                    after.profiles,
                    kind,
                    realm,
                    terms,
                    p,
                    at,
                )
            },
        },
    }
}

/// What registering does and answers: binding and profile are built as they are
/// asked for, and recorded as they were built.
pub open spec fn register_done<
    O: Fn(ProviderKind) -> Origin + Copy,
    B: Fn(&BindingAsk) -> Result<BindingDraft, String> + Copy,
    F: Fn(&ProfileAsk, &BindingDraft) -> Result<ProfileDraft, String> + Copy,
>(
    before: Providers,
    after: Providers,
    realm: Seq<char>,
    kind: ProviderKind,
    terms: Terms,
    builders: Builders<O, B, F>,
    at: Seq<char>,
    r: Result<(), Problem>,
) -> bool {
    exists|
        origin: Origin,
        binding: Result<BindingDraft, String>,
        profile: Result<ProfileDraft, String>,
    |
        {
            &&& #[trigger] built(builders, kind, realm, terms, origin, binding, profile)
            &&& register_outcome(before, after, realm, kind, terms, origin, binding, profile, at, r)
        }
}

/// Registers, or registers again at a new revision, one provider binding and
/// its default profile. Either may be refused as not usable.
pub fn register<
    O: Fn(ProviderKind) -> Origin + Copy,
    B: Fn(&BindingAsk) -> Result<BindingDraft, String> + Copy,
    F: Fn(&ProfileAsk, &BindingDraft) -> Result<ProfileDraft, String> + Copy,
>(
    providers: &mut Providers,
    realm: &str,
    kind: ProviderKind,
    claims: &ProviderClaims,
    credential_secret_ref: &str,
    model_selector: &str,
    limits: RequestLimits,
    builders: Builders<O, B, F>,
    at: &str,
) -> (r: Result<(), Problem>)
    requires
        old(providers).wf(),
        builds_all(builders),
    ensures
        final(providers).wf(),
        register_done(
            *old(providers),
            *final(providers),
            realm@,
            kind,
            terms_of(*claims, credential_secret_ref@, model_selector@, limits),
            builders,
            at@,
            r,
        ),
{
    let ghost terms = terms_of(*claims, credential_secret_ref@, model_selector@, limits);
    let reach = builders.origin;
    let build = builders.binding;
    let shape = builders.profile;
    let origin = reach(kind);
    let ghost the_origin = origin;
    let binding_ask = BindingAsk {
        binding_id: provider_binding_id(kind, realm),
        realm: realm.to_owned(),
        kind,
        origin: Origin { host: origin.host.clone(), port: origin.port },
        claims: ProviderClaims {
            region: claims.region.clone(),
            retention: claims.retention.clone(),
            training_use: claims.training_use.clone(),
        },
        credential_secret_ref: credential_secret_ref.to_owned(),
        terms_ref: cat2("terms-", kind.as_str()),
    };
    let binding = build(&binding_ask);
    let ghost the_binding = binding;
    proof {
        assert(builders.origin.ensures((kind,), the_origin));
        assert(builders.binding.ensures((&binding_ask,), the_binding));
        assert(asks_binding(binding_ask, kind, realm@, the_origin, terms));
    }
    let b = match binding {
        Err(e) => {
            proof {
                let unbuilt: Result<ProfileDraft, String> = Err(e);
                assert(built(builders, kind, realm@, terms, the_origin, the_binding, unbuilt));
            }
            return Err(
                problem(
                    ProblemKind::Invalid,
                    "the provider binding is not usable",
                    e.as_str(),
                ),
            );
        },
        Ok(b) => b,
    };
    let profile_ask = ProfileAsk {
        profile_id: model_profile_id(kind, realm),
        model_selector: model_selector.to_owned(),
        limits,
    };
    let profile = shape(&profile_ask, &b);
    let ghost the_profile = profile;
    proof {
        assert(builders.profile.ensures((&profile_ask, &the_binding->Ok_0), the_profile));
        assert(asks_profile(profile_ask, kind, realm@, terms));
        assert(built(builders, kind, realm@, terms, the_origin, the_binding, the_profile));
    }
    let p = match profile {
        Err(e) => {
            return Err(
                problem(ProblemKind::Invalid, "the model profile is not usable", e.as_str()),
            );
        },
        Ok(p) => p,
    };
    record_provider(
        providers,
        realm,
        kind,
        credential_secret_ref,
        model_selector,
        origin,
        b,
        p,
        at,
        Ghost(terms),
    );
    Ok(())
}

fn record_provider(
    providers: &mut Providers,
    realm: &str,
    kind: ProviderKind,
    credential_secret_ref: &str,
    model_selector: &str,
    origin: Origin,
    b: BindingDraft,
    p: ProfileDraft,
    at: &str,
    terms: Ghost<Terms>,
)
    requires
        old(providers).wf(),
        terms@.credential_secret_ref == credential_secret_ref@,
        terms@.model_selector == model_selector@,
    ensures
        final(providers).wf(),
        registered_binding(
            old(providers).bindings,
            final(providers).bindings,
            kind,
            realm@,
            terms@,
            origin,
            b,
            at@,
        ),
        registered_profile(
            old(providers).profiles,
            final(providers).profiles,
            kind,
            realm@,
            terms@,
            p,
            at@,
        ),
{
    proof {
        reveal_strlit("");
        crate::text::empty_is(""@);
    }
    let binding_id = provider_binding_id(kind, realm);
    match providers.bindings.position(binding_id.as_str(), "") {
        Some(i) => {
            providers.bindings.rows[i].revision = b.revision;
            providers.bindings.rows[i].endpoint_host = origin.host;
            providers.bindings.rows[i].endpoint_port = origin.port;
            providers.bindings.rows[i].provider_claims = b.provider_claims;
            providers.bindings.rows[i].credential_secret_ref = credential_secret_ref.to_owned();
            providers.bindings.rows[i].disabled = b.disabled;
            providers.bindings.rows[i].record = b.record;
            providers.bindings.rows[i].digest = b.digest;
            providers.bindings.rows[i].updated_at = at.to_owned();
            proof {
                crate::table::table_updated(
                    old(providers).bindings,
                    providers.bindings,
                    i as int,
                    providers.bindings.rows@[i as int],
                );
            }
        },
        None => {
            providers.bindings.insert(
                ProviderBinding {
                    model_provider_binding_id: binding_id.clone(),
                    realm_ref: realm.to_owned(),
                    revision: b.revision,
                    provider_kind: kind,
                    endpoint_host: origin.host,
                    endpoint_port: origin.port,
                    provider_claims: b.provider_claims,
                    credential_secret_ref: credential_secret_ref.to_owned(),
                    disabled: b.disabled,
                    record: b.record,
                    digest: b.digest,
                    created_at: at.to_owned(),
                    updated_at: at.to_owned(),
                },
            );
        },
    }
    let profile_id = model_profile_id(kind, realm);
    match providers.profiles.position(profile_id.as_str(), "") {
        Some(i) => {
            providers.profiles.rows[i].revision = p.revision;
            providers.profiles.rows[i].provider_binding_revision = p.provider_binding_revision;
            providers.profiles.rows[i].model_selector = model_selector.to_owned();
            providers.profiles.rows[i].adapter_version = p.adapter_version;
            providers.profiles.rows[i].record = p.record;
            providers.profiles.rows[i].digest = p.digest;
            providers.profiles.rows[i].updated_at = at.to_owned();
            proof {
                crate::table::table_updated(
                    old(providers).profiles,
                    providers.profiles,
                    i as int,
                    providers.profiles.rows@[i as int],
                );
            }
        },
        None => {
            providers.profiles.insert(
                ModelProfile {
                    model_profile_id: profile_id,
                    realm_ref: realm.to_owned(),
                    revision: p.revision,
                    provider_binding_ref: binding_id,
                    provider_binding_revision: p.provider_binding_revision,
                    model_selector: model_selector.to_owned(),
                    adapter_version: p.adapter_version,
                    record: p.record,
                    digest: p.digest,
                    created_at: at.to_owned(),
                    updated_at: at.to_owned(),
                },
            );
        },
    }
}

/// What the check for a key leaves.
pub open spec fn key_checked(
    before: Providers,
    after: Providers,
    kind: ProviderKind,
    realm: Seq<char>,
    key_present: bool,
) -> bool {
    &&& after.profiles == before.profiles
    &&& ({
        let k = key1(binding_id_of(kind, realm));
        if !key_present && before.bindings@.contains_key(k) {
            after.bindings@ == before.bindings@.insert(
                k,
                ProviderBinding { disabled: true, ..before.bindings@[k] },
            )
        } else {
            after.bindings == before.bindings
        }
    })
}

/// Marks a registered binding disabled where the daemon was started without
/// its key: recorded and honest, rather than missing.
pub fn disable_without_key(providers: &mut Providers, kind: ProviderKind, realm: &str, key_present: bool)
    requires
        old(providers).wf(),
    ensures
        final(providers).wf(),
        key_checked(*old(providers), *final(providers), kind, realm@, key_present),
{
    if key_present {
        return;
    }
    proof {
        reveal_strlit("");
        crate::text::empty_is(""@);
    }
    let binding_id = provider_binding_id(kind, realm);
    if let Some(i) = providers.bindings.position(binding_id.as_str(), "") {
        providers.bindings.rows[i].disabled = true;
        proof {
            crate::table::table_updated(
                old(providers).bindings,
                providers.bindings,
                i as int,
                providers.bindings.rows@[i as int],
            );
        }
    }
}

/// What reading a profile answers.
pub open spec fn profile_outcome(
    providers: Providers,
    realm: Seq<char>,
    profile_ref: Seq<char>,
    r: Result< (usize, usize), Problem, >,
) -> bool {
    &&& ({
        let pk = key1(profile_ref);
        let found = providers.profiles@.contains_key(pk) && providers.profiles@[pk].realm_ref@
            == realm;
        let bk = key1(providers.profiles@[pk].provider_binding_ref@);
        let bound = providers.bindings@.contains_key(bk) && providers.bindings@[bk].realm_ref@
            == realm;
        match r {
            Ok((p, b)) => {
                &&& found && bound
                &&& p < providers.profiles.rows@.len() && providers.profiles.rows@[p as int]
                    == providers.profiles@[pk]
                &&& b < providers.bindings.rows@.len() && providers.bindings.rows@[b as int]
                    == providers.bindings@[bk]
            },
            Err(e) => !(found && bound) && e@ == not_found_view(),
        }
    })
}

/// Reads one profile of a realm and the binding that it pins, by position.
pub fn read_profile(providers: &Providers, realm: &str, profile_ref: &str) -> (r: Result<
    (usize, usize),
    Problem,
>)
    requires
        providers.wf(),
    ensures
        profile_outcome(
            *providers,
            realm@,
            profile_ref@,
            r,
        ),
{
    proof {
        reveal_strlit("");
        crate::text::empty_is(""@);
    }
    let p = match providers.profiles.position(profile_ref, "") {
        None => {
            return Err(not_found());
        },
        Some(p) => p,
    };
    if !same(providers.profiles.rows[p].realm_ref.as_str(), realm) {
        return Err(not_found());
    }
    let b = match providers.bindings.position(
        providers.profiles.rows[p].provider_binding_ref.as_str(),
        "",
    ) {
        None => {
            return Err(not_found());
        },
        Some(b) => b,
    };
    if !same(providers.bindings.rows[b].realm_ref.as_str(), realm) {
        return Err(not_found());
    }
    Ok((p, b))
}

// ----------------------------------------------- the providers that ship ----

/// What a provider that ships is registered with, beside the model.
#[derive(Debug)]
pub struct Seed {
    pub kind: ProviderKind,
    /// The variable of the daemon's own environment that holds the key.
    pub key_variable: String,
    pub credential_secret_ref: String,
    pub claims: ProviderClaims,
    pub limits: RequestLimits,
}

/// The variable that holds a provider's key.
pub open spec fn key_variable_of(kind: ProviderKind) -> Seq<char> {
    match kind {
        ProviderKind::Anthropic => "ANTHROPIC_API_KEY"@,
        ProviderKind::Openai => "OPENAI_API_KEY"@,
    }
}

/// What a provider that ships is registered with: its key in the daemon's own
/// environment, and its default posture as it claims it.
pub open spec fn seed_terms(kind: ProviderKind, model: Seq<char>) -> Terms {
    Terms {
        region: "us"@,
        retention: "30-days"@,
        training_use: "prohibited"@,
        credential_secret_ref: "env:"@ + key_variable_of(kind),
        model_selector: model,
        limits: RequestLimits { input_tokens: 100_000, output_tokens: 8_192, calls: 1 },
    }
}

/// What a provider that ships is registered with.
pub fn seed_of(kind: ProviderKind) -> (r: Seed)
    ensures
        r.kind == kind,
        r.key_variable@ == key_variable_of(kind),
        forall|model: Seq<char>|
            terms_of(r.claims, r.credential_secret_ref@, model, r.limits) == #[trigger] seed_terms(
                kind,
                model,
            ),
{
    let variable = match kind {
        ProviderKind::Anthropic => "ANTHROPIC_API_KEY",
        ProviderKind::Openai => "OPENAI_API_KEY",
    };
    Seed {
        kind,
        key_variable: variable.to_owned(),
        credential_secret_ref: cat2("env:", variable),
        claims: ProviderClaims {
            region: "us".to_owned(),
            retention: "30-days".to_owned(),
            training_use: "prohibited".to_owned(),
        },
        limits: RequestLimits { input_tokens: 100_000, output_tokens: 8_192, calls: 1 },
    }
}

/// The model that a provider is seeded with, and whether its key is there.
#[derive(Debug, Clone, Copy)]
pub struct SeedDraft<'a> {
    pub model: &'a str,
    pub key_present: bool,
}

/// What seeding one provider does and answers: it is registered, and disabled
/// where its key is missing.
pub open spec fn seeded<
    O: Fn(ProviderKind) -> Origin + Copy,
    B: Fn(&BindingAsk) -> Result<BindingDraft, String> + Copy,
    F: Fn(&ProfileAsk, &BindingDraft) -> Result<ProfileDraft, String> + Copy,
>(
    before: Providers,
    after: Providers,
    realm: Seq<char>,
    kind: ProviderKind,
    draft: SeedDraft<'_>,
    builders: Builders<O, B, F>,
    at: Seq<char>,
    r: Result<(), Problem>,
) -> bool {
    exists|mid: Providers|
        {
            &&& #[trigger] register_done(
                before,
                mid,
                realm,
                kind,
                seed_terms(kind, draft.model@),
                builders,
                at,
                r,
            )
            &&& match r {
                Ok(_) => key_checked(mid, after, kind, realm, draft.key_present),
                Err(_) => after == mid,
            }
        }
}

/// The credential of a shipped provider is kept in the daemon's environment.
pub open spec fn seeded_credential(providers: Providers, realm: Seq<char>, kind: ProviderKind) -> bool {
    let k = key1(binding_id_of(kind, realm));
    &&& providers.bindings@.contains_key(k)
    &&& providers.bindings@[k].credential_secret_ref@ == "env:"@ + key_variable_of(kind)
}

fn seed<
    O: Fn(ProviderKind) -> Origin + Copy,
    B: Fn(&BindingAsk) -> Result<BindingDraft, String> + Copy,
    F: Fn(&ProfileAsk, &BindingDraft) -> Result<ProfileDraft, String> + Copy,
>(
    providers: &mut Providers,
    realm: &str,
    kind: ProviderKind,
    draft: SeedDraft<'_>,
    builders: Builders<O, B, F>,
    at: &str,
) -> (r: Result<(), Problem>)
    requires
        old(providers).wf(),
        builds_all(builders),
    ensures
        final(providers).wf(),
        seeded(*old(providers), *final(providers), realm@, kind, draft, builders, at@, r),
        r is Ok ==> seeded_credential(*final(providers), realm@, kind),
        r is Ok ==> forall|k: Key|
            k != key1(binding_id_of(kind, realm@)) && old(providers).bindings@.contains_key(k)
                ==> #[trigger] final(providers).bindings@.contains_key(k)
                && final(providers).bindings@[k] == old(providers).bindings@[k],
{
    let seed = seed_of(kind);
    let registered = register(
        providers,
        realm,
        kind,
        &seed.claims,
        seed.credential_secret_ref.as_str(),
        draft.model,
        seed.limits,
        builders,
        at,
    );
    let ghost mid = *providers;
    proof {
        assert(terms_of(seed.claims, seed.credential_secret_ref@, draft.model@, seed.limits)
            == seed_terms(kind, draft.model@));
        assert(register_done(
            *old(providers),
            mid,
            realm@,
            kind,
            seed_terms(kind, draft.model@),
            builders,
            at@,
            registered,
        ));
    }
    if registered.is_ok() {
        disable_without_key(providers, kind, realm, draft.key_present);
    }
    registered
}

/// What seeding the default bindings does.
pub open spec fn seeded_outcome<
    O: Fn(ProviderKind) -> Origin + Copy,
    B: Fn(&BindingAsk) -> Result<BindingDraft, String> + Copy,
    F: Fn(&ProfileAsk, &BindingDraft) -> Result<ProfileDraft, String> + Copy,
>(
    providers: Providers,
    providers_after: Providers,
    realm: Seq<char>,
    anthropic: SeedDraft<'_>,
    openai: SeedDraft<'_>,
    builders: Builders<O, B, F>,
    at: Seq<char>,
    r: Result<(), Problem>,
) -> bool {
    &&& exists|mid: Providers, first: Result<(), Problem>|
        {
            &&& #[trigger] seeded(
                providers,
                mid,
                realm,
                ProviderKind::Anthropic,
                anthropic,
                builders,
                at,
                first,
            )
            &&& match first {
                Err(_) => r == first && providers_after == mid,
                Ok(_) => seeded(
                    mid,
                    providers_after,
                    realm,
                    ProviderKind::Openai,
                    openai,
                    builders,
                    at,
                    r,
                ),
            }
        }
    &&& r is Ok ==> {
        &&& seeded_credential(providers_after, realm, ProviderKind::Anthropic)
        &&& seeded_credential(providers_after, realm, ProviderKind::Openai)
    }
}

/// Seeds the two providers that ship, in turn; the first that is refused ends
/// it. The credential of each is kept in the daemon's own environment.
pub fn seed_default_bindings<
    O: Fn(ProviderKind) -> Origin + Copy,
    B: Fn(&BindingAsk) -> Result<BindingDraft, String> + Copy,
    F: Fn(&ProfileAsk, &BindingDraft) -> Result<ProfileDraft, String> + Copy,
>(
    providers: &mut Providers,
    realm: &str,
    anthropic: SeedDraft<'_>,
    openai: SeedDraft<'_>,
    builders: Builders<O, B, F>,
    at: &str,
) -> (r: Result<(), Problem>)
    requires
        old(providers).wf(),
        builds_all(builders),
    ensures
        final(providers).wf(),
        seeded_outcome(
            *old(providers),
            *final(providers),
            realm@,
            anthropic,
            openai,
            builders,
            at@,
            r,
        ),
{
    let first = seed(providers, realm, ProviderKind::Anthropic, anthropic, builders, at);
    let ghost mid = *providers;
    proof {
        assert(seeded(
            *old(providers),
            mid,
            realm@,
            ProviderKind::Anthropic,
            anthropic,
            builders,
            at@,
            first,
        ));
    }
    if first.is_err() {
        return first;
    }
    proof {
        kinds_apart(realm@);
    }
    seed(providers, realm, ProviderKind::Openai, openai, builders, at)
}

proof fn kinds_apart(realm: Seq<char>)
    ensures
        binding_id_of(ProviderKind::Anthropic, realm) != binding_id_of(ProviderKind::Openai, realm),
{
    reveal_strlit("mpb-");
    reveal_strlit("anthropic");
    reveal_strlit("openai");
    reveal_strlit("-");
    let a = binding_id_of(ProviderKind::Anthropic, realm);
    let b = binding_id_of(ProviderKind::Openai, realm);
    assert(a[4] == 'a');
    assert(b[4] == 'o');
}

// ------------------------------------------- a call, up to its permission ----

/// Whether a profile of a realm and its binding are on record.
pub open spec fn profile_bound(providers: Providers, realm: Seq<char>, profile_ref: Seq<char>) -> bool {
    let p = providers.profiles@[key1(profile_ref)];
    let b = providers.bindings@[key1(p.provider_binding_ref@)];
    &&& providers.profiles@.contains_key(key1(profile_ref))
    &&& p.realm_ref@ == realm
    &&& providers.bindings@.contains_key(key1(p.provider_binding_ref@))
    &&& b.realm_ref@ == realm
}

/// The provider binding that a profile pins.
pub open spec fn binding_of_profile(providers: Providers, profile_ref: Seq<char>) -> ProviderBinding {
    providers.bindings@[key1(providers.profiles@[key1(profile_ref)].provider_binding_ref@)]
}

/// What readying a call does and answers.
pub open spec fn call_readied<
    T: Fn(&str) -> String + Copy,
    I: Fn(&Vec<DisclosureItem>) -> Json + Copy,
    W: Fn(&Vec<Segment>) -> Json + Copy,
    D: Fn(&str, &Json) -> String + Copy,
    V: FnOnce(&Disclosure) -> Option<String>,
    R: FnOnce(&DisclosureAsk, &Json) -> Drafted,
    X,
    P: FnOnce(&PlanAsk, &Vec<Segment>) -> PlanAnswer<X>,
>(
    before: Broker,
    after: Broker,
    journal: JournalView,
    after_journal: JournalView,
    inv: Invocations,
    providers: Providers,
    eps: Episodes,
    request: CompleteRequest<'_>,
    act: ActAuthorization,
    source: SourceFields,
    new_effect_id: Seq<char>,
    making: Making<T, I, W, D>,
    verify: V,
    draft: R,
    plan: P,
    at: Seq<char>,
    r: Result<Prepared<X>, Problem>,
) -> bool {
    match binding_refusal(inv, request.attempt_id@, request.fence_epoch) {
        Some(p) => {
            &&& r is Err
            &&& r->Err_0@ == p
            &&& after == before
            &&& after_journal == journal
        },
        None => if !profile_bound(providers, request.realm@, request.model_profile_ref@) {
            &&& r is Err
            &&& r->Err_0@ == not_found_view()
            &&& after == before
            &&& after_journal == journal
        } else {
            let p = providers.profiles@[key1(request.model_profile_ref@)];
            exists|mid: Broker, staged: Result<usize, Problem>|
                {
                    &&& #[trigger] stage_done(
                        before,
                        mid,
                        inv,
                        request,
                        p,
                        binding_of_profile(providers, request.model_profile_ref@),
                                        making,
                        verify,
                        draft,
                        staged,
                    )
                    &&& match staged {
                        Err(e) => {
                            &&& r == Err::<Prepared<X>, Problem>(e)
                            &&& after == before
                            &&& after_journal == journal
                        },
                        Ok(d) => d < mid.disclosures.rows@.len() && prepare_done(
                            mid,
                            after,
                            journal,
                            after_journal,
                            eps,
                            inv,
                            request,
                            act,
                            (Over {
                                profile: &p,
                                binding: &binding_of_profile(
                                    providers,
                                    request.model_profile_ref@,
                                ),
                                disclosure: &mid.disclosures.rows@[d as int],
                            }),
                            source,
                            new_effect_id,
                            making,
                            plan,
                            at,
                            r,
                        ),
                    }
                }
        },
    }
}

/// What a call that is ready to go answers.
pub open spec fn ready_outcome<
    T: Fn(&str) -> String + Copy,
    I: Fn(&Vec<DisclosureItem>) -> Json + Copy,
    W: Fn(&Vec<Segment>) -> Json + Copy,
    D: Fn(&str, &Json) -> String + Copy,
    V: FnOnce(&Disclosure) -> Option<String>,
    R: FnOnce(&DisclosureAsk, &Json) -> Drafted,
    X,
    P: FnOnce(&PlanAsk, &Vec<Segment>) -> PlanAnswer<X>,
>(
    broker: Broker,
    broker_after: Broker,
    journal: JournalView,
    journal_after: JournalView,
    inv: Invocations,
    providers: Providers,
    eps: Episodes,
    request: CompleteRequest<'_>,
    act: ActAuthorization,
    source: SourceFields,
    new_effect_id: Seq<char>,
    making: Making<T, I, W, D>,
    verify: V,
    draft: R,
    plan: P,
    at: Seq<char>,
    r: Result<Prepared<X>, Problem>,
) -> bool {
    &&& call_readied(
        broker,
        broker_after,
        journal,
        journal_after,
        inv,
        providers,
        eps,
        request,
        act,
        source,
        new_effect_id,
        making,
        verify,
        draft,
        plan,
        at,
        r,
    )
    &&& broker_after.attempts == broker.attempts
    &&& r is Ok ==> r->Ok_0.effect < broker_after.effects.rows@.len()
}

/// The first half of a worker's call, each step a refusal: the attempt binding
/// must be current, the profile on record, the disclosure staged, and the
/// effect prepared. No permit is consumed yet and no byte leaves.
pub fn ready_call<
    T: Fn(&str) -> String + Copy,
    I: Fn(&Vec<DisclosureItem>) -> Json + Copy,
    W: Fn(&Vec<Segment>) -> Json + Copy,
    D: Fn(&str, &Json) -> String + Copy,
    V: FnOnce(&Disclosure) -> Option<String>,
    R: FnOnce(&DisclosureAsk, &Json) -> Drafted,
    X,
    P: FnOnce(&PlanAsk, &Vec<Segment>) -> PlanAnswer<X>,
>(
    broker: &mut Broker,
    journal: &mut Journal,
    inv: &Invocations,
    providers: &Providers,
    eps: &Episodes,
    request: &CompleteRequest<'_>,
    act: &ActAuthorization,
    source: &SourceFields,
    new_effect_id: &str,
    making: Making<T, I, W, D>,
    verify: V,
    draft: R,
    plan: P,
    at: &str,
) -> (r: Result<Prepared<X>, Problem>)
    requires
        old(broker).wf(),
        inv.wf(),
        providers.wf(),
        eps.wf(),
        makes_all(making),
        forall|d: &Disclosure| #[trigger] verify.requires((d,)),
        forall|ask: &DisclosureAsk, items: &Json| #[trigger] draft.requires((ask, items)),
        forall|ask: &PlanAsk, s: &Vec<Segment>| #[trigger] plan.requires((ask, s)),
    ensures
        final(broker).wf(),
        ready_outcome(
            *old(broker),
            *final(broker),
            old(journal)@,
            final(journal)@,
            *inv,
            *providers,
            *eps,
            *request,
            *act,
            *source,
            new_effect_id@,
            making,
            verify,
            draft,
            plan,
            at@,
            r,
        ),
{
    check_binding(inv, request.attempt_id, request.fence_epoch)?;
    let (a, b) = read_profile(providers, request.realm, request.model_profile_ref)?;
    let staged = stage(
        broker,
        inv,
        request,
        &providers.profiles.rows[a],
        &providers.bindings.rows[b],
        making,
        verify,
        draft,
    );
    let ghost mid = *broker;
    proof {
        assert(stage_done(
            *old(broker),
            mid,
            *inv,
            *request,
            providers.profiles@[key1(request.model_profile_ref@)],
            binding_of_profile(*providers, request.model_profile_ref@),
            making,
            verify,
            draft,
            staged,
        ));
    }
    match staged {
        Err(p) => Err(p),
        Ok(d) => {
            let disclosure = copy_disclosure(&broker.disclosures.rows[d]);
            let over = Over {
                profile: &providers.profiles.rows[a],
                binding: &providers.bindings.rows[b],
                disclosure: &disclosure,
            };
            prepare(
                broker,
                journal,
                eps,
                inv,
                request,
                act,
                &over,
                source,
                new_effect_id,
                making,
                plan,
                at,
            )
        },
    }
}

/// What dispatching takes: what resolves the provider's credential from where
/// its binding keeps it, the attempt's name and wire, and the calls that leave
/// the broker.
pub struct Sending<'a, C, E, M, Q, G, S> {
    pub resolve: C,
    pub attempt_id: &'a str,
    pub transport_profile: &'a str,
    pub exchange: E,
    pub meter: M,
    pub measure: Q,
    pub keyed: G,
    pub seal: S,
}

/// What a permitted call does and answers: the effect is dispatched with its own
/// plan and permit, under the consumption that its execution key stands for.
pub open spec fn call_sent<
    X,
    Z,
    C: FnOnce(&str) -> CredentialAnswer<Z>,
    E: FnOnce(&Broker, Exchange<X, Z>) -> Outcome,
    M: FnOnce(&Broker, &Json) -> Result<ReportAnswer, Problem>,
    Q: FnOnce(&Reservation, &str, u64, u64, Meter) -> Result<u64, String>,
    G: Fn(&str, &Json) -> Keyed,
    S: Fn(&Reservation) -> Result<String, String>,
>(
    before: Broker,
    after: Broker,
    res: Reservations,
    res_after: Reservations,
    journal: JournalView,
    after_journal: JournalView,
    eps: Episodes,
    request: CompleteRequest<'_>,
    act: ActAuthorization,
    wire: Wire,
    effect: int,
    plan: X,
    to: Destination<'_>,
    got: Result<(usize, Permit), Problem>,
    sending: Sending<'_, C, E, M, Q, G, S>,
    at: Seq<char>,
    r: Result<Completion, Problem>,
) -> bool {
    match got {
        Err(e) => {
            &&& r == Err::<Completion, Problem>(e)
            &&& after == before
            &&& res_after == res
            &&& after_journal == journal
        },
        Ok((i, permit)) => effect_done(
            before,
            after,
            res,
            res_after,
            journal,
            after_journal,
            eps,
            request.stable_binding_key,
            request.realm@,
            wire,
            before.effects.rows@[effect].effect_id@,
            act.stable_execution_key@,
            before.consumptions.rows@[i as int].consumption_id@,
            to,
            sending.resolve,
            plan,
            permit,
            sending.attempt_id@,
            sending.transport_profile@,
            at,
            sending.exchange,
            sending.meter,
            sending.measure,
            sending.keyed,
            sending.seal,
            r,
        ),
    }
}

/// The whole chain for one worker's call, every step in order and each one a
/// refusal: the call is readied, up to its prepared effect; the effect gets its
/// permit; and only a permitted effect is dispatched. What was recorded before
/// a refusal stays recorded.
pub fn complete<
    T: Fn(&str) -> String + Copy,
    I: Fn(&Vec<DisclosureItem>) -> Json + Copy,
    W: Fn(&Vec<Segment>) -> Json + Copy,
    D: Fn(&str, &Json) -> String + Copy,
    V: FnOnce(&Disclosure) -> Option<String>,
    R: FnOnce(&DisclosureAsk, &Json) -> Drafted,
    X,
    P: FnOnce(&PlanAsk, &Vec<Segment>) -> PlanAnswer<X>,
    N: FnOnce(&str, &Json) -> Result<String, Problem>,
    A: FnOnce(&Json) -> ReceiptAnswer,
    H: FnOnce(&Consumption, &Expectation) -> Result<Permit, (PermitError, String)>,
    Z,
    C: FnOnce(&str) -> CredentialAnswer<Z>,
    E: FnOnce(&Broker, Exchange<X, Z>) -> Outcome,
    M: FnOnce(&Broker, &Json) -> Result<ReportAnswer, Problem>,
    Q: FnOnce(&Reservation, &str, u64, u64, Meter) -> Result<u64, String>,
    G: Fn(&str, &Json) -> Keyed,
    S: Fn(&Reservation) -> Result<String, String>,
>(
    broker: &mut Broker,
    res: &mut Reservations,
    journal: &mut Journal,
    inv: &Invocations,
    providers: &Providers,
    eps: &Episodes,
    request: &CompleteRequest<'_>,
    act: &ActAuthorization,
    source: &SourceFields,
    new_effect_id: &str,
    making: Making<T, I, W, D>,
    verify: V,
    draft: R,
    plan: P,
    wire: &Wire,
    fence_digest: Option<&str>,
    new_consumption_id: &str,
    register: N,
    ask: A,
    gate: H,
    sending: Sending<'_, C, E, M, Q, G, S>,
    at: &str,
) -> (r: Result<Completion, Problem>)
    requires
        old(broker).wf(),
        old(res).wf(),
        inv.wf(),
        providers.wf(),
        eps.wf(),
        makes_all(making),
        forall|d: &Disclosure| #[trigger] verify.requires((d,)),
        forall|ask: &DisclosureAsk, items: &Json| #[trigger] draft.requires((ask, items)),
        forall|ask: &PlanAsk, s: &Vec<Segment>| #[trigger] plan.requires((ask, s)),
        forall|tag: &str, doc: &Json| #[trigger] register.requires((tag, doc)),
        forall|doc: &Json| #[trigger] ask.requires((doc,)),
        forall|c: &Consumption, x: &Expectation| #[trigger] gate.requires((c, x)),
        forall|t: &str| #[trigger] sending.resolve.requires((t,)),
        old(broker).attempts.rows@.len() < u64::MAX,
        metering_fits(*old(res), *eps, request.stable_binding_key),
        keys_all(sending.keyed),
        forall|r: &Reservation| #[trigger] sending.seal.requires((r,)),
        forall|effect_id: Seq<char>| #[trigger] asks_on_record(sending.meter, effect_id),
        forall|r: &Reservation, d: &str, earlier: u64, n: u64, m: Meter| #[trigger]
            sending.measure.requires((r, d, earlier, n, m)),
        forall|b: &Broker, x: Exchange<X, Z>|
            b.attempts@.contains_key(key1(sending.attempt_id@)) && b.attempts@[key1(
                sending.attempt_id@,
            )].state is Dispatching ==> #[trigger] sending.exchange.requires((b, x)),
    ensures
        final(broker).wf(),
        final(res).wf(),
        exists|ready: Broker, ready_journal: JournalView, prepared: Result<Prepared<X>, Problem>|
            {
                &&& #[trigger] call_readied(
                    *old(broker),
                    ready,
                    old(journal)@,
                    ready_journal,
                    *inv,
                    *providers,
                    *eps,
                    *request,
                    *act,
                    *source,
                    new_effect_id@,
                    making,
                    verify,
                    draft,
                    plan,
                    at@,
                    prepared,
                )
                &&& match prepared {
                    Err(e) => {
                        &&& r == Err::<Completion, Problem>(e)
                        &&& *final(broker) == ready
                        &&& *final(res) == *old(res)
                        &&& final(journal)@ == ready_journal
                    },
                    Ok(p) => exists|
                        held: Broker,
                        held_journal: JournalView,
                        got: Result<(usize, Permit), Problem>,
                    |
                        {
                            &&& #[trigger] permit_got(
                                ready,
                                held,
                                ready_journal,
                                held_journal,
                                *eps,
                                request.stable_binding_key,
                                *act,
                                p.effect as int,
                                *wire,
                                (Destination {
                                    providers,
                                    realm: request.realm,
                                    model_profile_ref: request.model_profile_ref,
                                    fence_digest,
                                }),
                                new_consumption_id@,
                                at@,
                                register,
                                ask,
                                gate,
                                got,
                            )
                            &&& call_sent(
                                held,
                                *final(broker),
                                *old(res),
                                *final(res),
                                held_journal,
                                final(journal)@,
                                *eps,
                                *request,
                                *act,
                                *wire,
                                p.effect as int,
                                p.plan,
                                (Destination {
                                    providers,
                                    realm: request.realm,
                                    model_profile_ref: request.model_profile_ref,
                                    fence_digest,
                                }),
                                got,
                                sending,
                                at@,
                                r,
                            )
                        },
                }
            },
{
    let prepared = ready_call(
        broker,
        journal,
        inv,
        providers,
        eps,
        request,
        act,
        source,
        new_effect_id,
        making,
        verify,
        draft,
        plan,
        at,
    );
    let ghost ready = *broker;
    let ghost ready_journal = journal@;
    let p = match prepared {
        Err(e) => {
            return Err(e);
        },
        Ok(p) => p,
    };
    let to = Destination {
        providers,
        realm: request.realm,
        model_profile_ref: request.model_profile_ref,
        fence_digest,
    };
    let got = consume_permit(
        broker,
        journal,
        eps,
        request.stable_binding_key,
        act,
        p.effect,
        wire,
        &to,
        new_consumption_id,
        at,
        register,
        ask,
        gate,
    );
    let ghost held = *broker;
    let ghost held_journal = journal@;
    let (i, permit) = match got {
        Err(e) => {
            return Err(e);
        },
        Ok(held) => held,
    };
    let effect_id = broker.effects.rows[p.effect].effect_id.clone();
    let consumption_id = broker.consumptions.rows[i].consumption_id.clone();
    proof {
        assert(asks_on_record(sending.meter, effect_id@));
    }
    dispatch_effect(
        broker,
        res,
        journal,
        eps,
        request.stable_binding_key,
        request.realm,
        wire,
        effect_id.as_str(),
        act.stable_execution_key.as_str(),
        consumption_id.as_str(),
        &to,
        sending.resolve,
        p.plan,
        permit,
        sending.attempt_id,
        sending.transport_profile,
        at,
        sending.exchange,
        sending.meter,
        sending.measure,
        sending.keyed,
        sending.seal,
    )
}

fn copy_disclosure(d: &Disclosure) -> (r: Disclosure)
    ensures
        r == *d,
{
    Disclosure {
        disclosure_id: d.disclosure_id.clone(),
        realm_id: d.realm_id.clone(),
        recipient_kind: d.recipient_kind.clone(),
        record: d.record.clone(),
        digest: d.digest.clone(),
        digest_hex: d.digest_hex.clone(),
        total_bytes: d.total_bytes,
        created_at: d.created_at.clone(),
    }
}

// ------------------------------------------------------------------ laws ----

/// What a worker may be told of its call, by name.
pub open spec fn worker_names() -> Seq<Seq<char>> {
    seq![
        "disclosure_manifest_ref"@,
        "effect_attempt_id"@,
        "effect_id"@,
        "latency_ms"@,
        "model"@,
        "observation"@,
        "provider_context_manifest_ref"@,
        "provider_ref"@,
        "retry_frozen"@,
        "state"@,
        "stop_reason"@,
        "text"@,
        "usage"@,
        "usage_reported"@,
    ]
}

/// Whether each member of a document goes by one of some names.
pub open spec fn named_among(fields: Seq<(Seq<char>, JsonView)>, names: Seq<Seq<char>>) -> bool {
    forall|i: int| 0 <= i < fields.len() ==> names.contains((#[trigger] fields[i]).0)
}

proof fn named_together(
    a: Seq<(Seq<char>, JsonView)>,
    b: Seq<(Seq<char>, JsonView)>,
    names: Seq<Seq<char>>,
)
    requires
        named_among(a, names),
        named_among(b, names),
    ensures
        named_among(a + b, names),
{
    assert forall|i: int| 0 <= i < (a + b).len() implies names.contains((#[trigger] (a + b)[i]).0) by {
        if i < a.len() {
            assert((a + b)[i] == a[i]);
        } else {
            assert((a + b)[i] == b[i - a.len()]);
        }
    }
}

proof fn one_identifier<
    T: Fn(&str) -> String + Copy,
    I: Fn(&Vec<DisclosureItem>) -> Json + Copy,
    W: Fn(&Vec<Segment>) -> Json + Copy,
    D: Fn(&str, &Json) -> String + Copy,
>(
    making: Making<T, I, W, D>,
    request: CompleteRequest<'_>,
    profile: ModelProfile,
    binding: ProviderBinding,
    items1: JsonView,
    id1: Seq<char>,
    items2: JsonView,
    id2: Seq<char>,
)
    requires
        makes_the_same(making),
        disclosure_identified(making, request, profile, binding, items1, id1),
        disclosure_identified(making, request, profile, binding, items2, id2),
    ensures
        id1 == id2,
{
    reveal(makes_the_same);
    let (a, x) = choose|items: &Vec<DisclosureItem>, out: Json|
        {
            &&& items_of(request, making.hash, items@)
            &&& out@ == items1
            &&& #[trigger] making.items.ensures((items,), out)
        };
    let (b, y) = choose|items: &Vec<DisclosureItem>, out: Json|
        {
            &&& items_of(request, making.hash, items@)
            &&& out@ == items2
            &&& #[trigger] making.items.ensures((items,), out)
        };
    assert(items_alike(a@, b@));
    assert(items1 == items2);
}

/// Whether a disclosure's identifier is `disc-` and 32 hexadecimal digits.
pub open spec fn disclosure_named(id: Seq<char>) -> bool {
    exists|hex: Seq<char>|
        id == "disc-"@ + hex && hex.len() == 32 && #[trigger] lower_hex(hex)
}

/// Whether the check of staged disclosures finds nothing against one.
pub open spec fn still_verifies<V: FnOnce(&Disclosure) -> Option<String>>(
    verify: V,
    d: Disclosure,
) -> bool {
    forall|e: Option<String>| #[trigger] verify.ensures((&d,), e) ==> e is None
}

/// An exact retry of the same call finds the disclosure that was committed and
/// stages no second one: it answers with that one wherever it still verifies.
/// A disclosure is named by the digest of its call.
pub proof fn an_exact_retry_stages_nothing<
    T: Fn(&str) -> String + Copy,
    I: Fn(&Vec<DisclosureItem>) -> Json + Copy,
    W: Fn(&Vec<Segment>) -> Json + Copy,
    D: Fn(&str, &Json) -> String + Copy,
    V: FnOnce(&Disclosure) -> Option<String>,
    R: FnOnce(&DisclosureAsk, &Json) -> Drafted,
    V2: FnOnce(&Disclosure) -> Option<String>,
    R2: FnOnce(&DisclosureAsk, &Json) -> Drafted,
>(
    before: Broker,
    mid: Broker,
    after: Broker,
    inv: Invocations,
    request: CompleteRequest<'_>,
    profile: ModelProfile,
    binding: ProviderBinding,
    making: Making<T, I, W, D>,
    verify: V,
    draft: R,
    first: Result<usize, Problem>,
    verify_again: V2,
    draft_again: R2,
    second: Result<usize, Problem>,
)
    requires
        before.wf(),
        mid.wf(),
        makes_all(making),
        stage_done(
            before,
            mid,
            inv,
            request,
            profile,
            binding,
            making,
            verify,
            draft,
            first,
        ),
        first is Ok,
        stage_done(
            mid,
            after,
            inv,
            request,
            profile,
            binding,
            making,
            verify_again,
            draft_again,
            second,
        ),
    ensures
        after == mid,
        first->Ok_0 < mid.disclosures.rows@.len(),
        disclosure_named(mid.disclosures.rows@[first->Ok_0 as int].disclosure_id@),
        second is Ok ==> mid.disclosures.rows@[second->Ok_0 as int]
            == mid.disclosures.rows@[first->Ok_0 as int],
        still_verifies(verify_again, mid.disclosures.rows@[first->Ok_0 as int]) ==> second is Ok,
{
    reveal_strlit("disc");
    reveal_strlit("-");
    let at = invocation_of(inv, request.attempt_id@).created_at@;
    let (id, items, stale, drafted) = choose|
        id: Seq<char>,
        items: JsonView,
        stale: Option<String>,
        drafted: Drafted,
    |
        {
            &&& #[trigger] disclosure_identified(making, request, profile, binding, items, id)
            &&& before.disclosures@.contains_key(key1(id)) ==> verify.ensures(
                (&before.disclosures@[key1(id)],),
                stale,
            )
            &&& #[trigger] stage_outcome(
                before,
                mid,
                request.realm@,
                true,
                id,
                stale,
                drafted,
                at,
                first,
            )
        };
    let (id2, items2, stale2, drafted2) = choose|
        id: Seq<char>,
        items: JsonView,
        stale: Option<String>,
        drafted: Drafted,
    |
        {
            &&& #[trigger] disclosure_identified(making, request, profile, binding, items, id)
            &&& mid.disclosures@.contains_key(key1(id)) ==> verify_again.ensures(
                (&mid.disclosures@[key1(id)],),
                stale,
            )
            &&& #[trigger] stage_outcome(
                mid,
                after,
                request.realm@,
                true,
                id,
                stale,
                drafted,
                at,
                second,
            )
        };
    one_identifier(making, request, profile, binding, items, id, items2, id2);
    crate::table::table_at(mid.disclosures, first->Ok_0 as int);
    if before.disclosures@.contains_key(key1(id)) {
        assert(mid.disclosures@[key1(id)] == mid.disclosures.rows@[first->Ok_0 as int]);
    }
    assert(mid.disclosures@.contains_key(key1(id)));
    assert(mid.disclosures@[key1(id)] == mid.disclosures.rows@[first->Ok_0 as int]);
    let (t, j, out) = choose|t: &str, j: &Json, out: String|
        {
            &&& t@ == "kovee-disclosure-id-v1"@
            &&& j@ == disclosure_id_document(
                request,
                profile.model_profile_id@,
                stored(profile.digest@),
                items,
                binding.provider_claims@,
            )
            &&& id == derived_id("disc"@, out@)
            &&& #[trigger] making.digest.ensures((t, j), out)
        };
    assert(id =~= "disc-"@ + out@.take(32)) by {
        reveal_strlit("disc-");
    }
    assert(out@.take(32).len() == 32);
    assert(id == "disc-"@ + out@.take(32) && lower_hex(out@.take(32)));
}

/// A use is never charged here above what its episode has reserved.
pub proof fn a_charge_is_covered(
    res: Reservations,
    eps: Episodes,
    stable_binding_key: Option<&str>,
    usage: Usage,
)
    requires
        res.table@.contains_key(reservation_key(eps, stable_binding_key)),
        reserved_in(res.table@[reservation_key(eps, stable_binding_key)].items@, "unit"@)
            <= u64::MAX,
    ensures
        local_charge(res, eps, stable_binding_key, usage) <= reserved_in(
            res.table@[reservation_key(eps, stable_binding_key)].items@,
            "unit"@,
        ),
{
}

/// A report that is done with is a replay: byom is not asked again, nothing is
/// charged and nothing is announced.
pub proof fn a_use_is_reported_once<
    M: FnOnce(&Broker, &Json) -> Result<ReportAnswer, Problem>,
    Q: FnOnce(&Reservation, &str, u64, u64, Meter) -> Result<u64, String>,
    G: Fn(&str, &Json) -> Keyed,
    S: Fn(&Reservation) -> Result<String, String>,
>(
    before: Broker,
    after: Broker,
    res: Reservations,
    res_after: Reservations,
    journal: JournalView,
    after_journal: JournalView,
    eps: Episodes,
    stable_binding_key: Option<&str>,
    realm: Seq<char>,
    wire: Wire,
    effect_id: Seq<char>,
    attempt_id: Seq<char>,
    usage: Usage,
    meter: M,
    measure: Q,
    keyed: G,
    seal: S,
    at: Seq<char>,
    r: Result<bool, Problem>,
)
    requires
        measured(usage),
        stable_binding_key is Some,
        eps.bindings@.contains_key(key1(stable_binding_key->0@)),
        before.reports@.contains_key(report_key(effect_id)),
        before.reports@[report_key(effect_id)].applied,
        usage_metered(
            before,
            after,
            res,
            res_after,
            journal,
            after_journal,
            eps,
            stable_binding_key,
            realm,
            wire,
            effect_id,
            attempt_id,
            usage,
            meter,
            measure,
            keyed,
            seal,
            at,
            r,
        ),
    ensures
        r == Ok::<bool, Problem>(true),
        after == before,
        res_after == res,
        after_journal == journal,
{
}

/// The worker is told these and nothing else: no credential, no address, no
/// header.
pub proof fn the_worker_is_told_nothing_else(c: Completion)
    ensures
        named_among(worker_members(c), worker_names()),
{
    let n = worker_names();
    assert(n[0] == "disclosure_manifest_ref"@);
    assert(n[1] == "effect_attempt_id"@);
    assert(n[2] == "effect_id"@);
    assert(n[3] == "latency_ms"@);
    assert(n[4] == "model"@);
    assert(n[5] == "observation"@);
    assert(n[6] == "provider_context_manifest_ref"@);
    assert(n[7] == "provider_ref"@);
    assert(n[8] == "retry_frozen"@);
    assert(n[9] == "state"@);
    assert(n[10] == "stop_reason"@);
    assert(n[11] == "text"@);
    assert(n[12] == "usage"@);
    assert(n[13] == "usage_reported"@);
    let a = seq![
        text_member("disclosure_manifest_ref"@, c.disclosure_manifest_ref@),
        text_member("effect_attempt_id"@, c.effect_attempt_id@),
        text_member("effect_id"@, c.effect_id@),
        ("latency_ms"@, JsonView::Number(number_of(c.latency_ms))),
    ];
    let b = optional("model"@, opt_view(c.model));
    let d = optional("observation"@, opt_view(c.observation));
    let e = seq![
        text_member("provider_context_manifest_ref"@, c.provider_context_manifest_ref@),
    ];
    let f = optional("provider_ref"@, opt_view(c.external_ref));
    let g = seq![
        ("retry_frozen"@, JsonView::Bool(c.retry_frozen)),
        text_member("state"@, c.state.name()),
    ];
    let h = optional("stop_reason"@, opt_view(c.stop_reason));
    let t = optional("text"@, opt_view(c.text));
    let u = seq![
        ("usage"@, usage_view(c.usage)),
        ("usage_reported"@, JsonView::Bool(c.usage_reported)),
    ];
    assert(named_among(a, n));
    assert(named_among(b, n));
    assert(named_among(d, n));
    assert(named_among(e, n));
    assert(named_among(f, n));
    assert(named_among(g, n));
    assert(named_among(h, n));
    assert(named_among(t, n));
    assert(named_among(u, n));
    named_together(a, b, n);
    named_together(a + b, d, n);
    named_together(a + b + d, e, n);
    named_together(a + b + d + e, f, n);
    named_together(a + b + d + e + f, g, n);
    named_together(a + b + d + e + f + g, h, n);
    named_together(a + b + d + e + f + g + h, t, n);
    named_together(a + b + d + e + f + g + h + t, u, n);
    assert(worker_members(c) =~= a + b + d + e + f + g + h + t + u);
}

/// One consumption, one use: a claim that succeeded is the last that does.
pub proof fn one_use(before: Broker, after: Broker, consumption_id: Seq<char>, key: Seq<char>)
    requires
        claimable(before, consumption_id, key),
        after.consumptions@ == before.consumptions@.insert(
            key1(consumption_id),
            Consumption { spent: true, ..before.consumptions@[key1(consumption_id)] },
        ),
    ensures
        forall|k: Seq<char>| !claimable(after, consumption_id, k),
{
}

/// After a crash in flight the use is gone: what an attempt was dispatching on
/// can never be claimed again.
pub proof fn recovery_spends_what_was_in_flight(
    before: Broker,
    after: Broker,
    i: int,
    key: Seq<char>,
)
    requires
        before.wf(),
        after.wf(),
        0 <= i < before.consumptions.rows@.len(),
        after.consumptions.rows@.len() == before.consumptions.rows@.len(),
        forall|j: int|
            0 <= j < before.consumptions.rows@.len() ==> swept_consumption(
                before.consumptions.rows@[j],
                #[trigger] after.consumptions.rows@[j],
                before.attempts.rows@,
            ),
        in_flight(before.attempts.rows@, before.consumptions.rows@[i].consumption_id@),
    ensures
        !claimable(after, before.consumptions.rows@[i].consumption_id@, key),
{
    assert(swept_consumption(
        before.consumptions.rows@[i],
        after.consumptions.rows@[i],
        before.attempts.rows@,
    ));
    crate::table::table_at(after.consumptions, i);
}

/// The sweep leaves nothing dispatching, so a second one changes nothing.
pub proof fn recovery_is_final(before: EffectAttempt, after: EffectAttempt, at: Seq<char>)
    requires
        swept_attempt(before, after, at),
    ensures
        after.state !is Dispatching,
        before.state is Dispatching ==> after.retry_frozen && after.state is Ambiguous,
        swept_attempt(after, after, at),
{
}

/// One execution key, one effect: whatever a repeated preparing answers is the
/// effect of the first.
pub proof fn prepared_once(broker: Broker, key: Seq<char>, i: int, j: int)
    requires
        broker.wf(),
        of_execution_key(broker.effects.rows@, key, i),
        of_execution_key(broker.effects.rows@, key, j),
    ensures
        i == j,
{
    let rows = broker.effects.rows@;
    if i < j {
        assert(rows[i].execution_key@ != rows[j].execution_key@);
    } else if j < i {
        assert(rows[j].execution_key@ != rows[i].execution_key@);
    }
}

/// A reconciliation resolves an attempt for good: it is no longer ambiguous,
/// so no second one is let through.
pub proof fn reconciled_for_good(
    before: EffectAttempt,
    after: EffectAttempt,
    resolution: EffectState,
    observation: Seq<char>,
)
    requires
        resolution is Completed || resolution is Failed,
        reconciled_attempt(before, after, resolution, observation),
    ensures
        after.state !is Ambiguous,
        !after.retry_frozen,
        after.consumption_ref == before.consumption_ref,
{
}

/// Whether no member of that name is there.
pub open spec fn unnamed(fields: Seq<(Seq<char>, JsonView)>, name: Seq<char>) -> bool {
    forall|i: int| 0 <= i < fields.len() ==> (#[trigger] fields[i]).0 != name
}

proof fn unnamed_together(
    a: Seq<(Seq<char>, JsonView)>,
    b: Seq<(Seq<char>, JsonView)>,
    name: Seq<char>,
)
    requires
        unnamed(a, name),
        unnamed(b, name),
    ensures
        unnamed(a + b, name),
{
    assert forall|i: int| 0 <= i < (a + b).len() implies (#[trigger] (a + b)[i]).0 != name by {
        if i < a.len() {
            assert((a + b)[i] == a[i]);
        } else {
            assert((a + b)[i] == b[i - a.len()]);
        }
    }
}

/// A member that stands in one of the pieces of a worker's view stands in the
/// view.
proof fn told_in_a_piece(c: Completion, x: (Seq<char>, JsonView))
    ensures
        seq![
            text_member("disclosure_manifest_ref"@, c.disclosure_manifest_ref@),
            text_member("effect_attempt_id"@, c.effect_attempt_id@),
            text_member("effect_id"@, c.effect_id@),
            ("latency_ms"@, JsonView::Number(number_of(c.latency_ms))),
        ].contains(x) ==> worker_members(c).contains(x),
        optional("model"@, opt_view(c.model)).contains(x) ==> worker_members(c).contains(x),
        optional("observation"@, opt_view(c.observation)).contains(x) ==> worker_members(
            c,
        ).contains(x),
        seq![
            text_member("provider_context_manifest_ref"@, c.provider_context_manifest_ref@),
        ].contains(x) ==> worker_members(c).contains(x),
        optional("provider_ref"@, opt_view(c.external_ref)).contains(x) ==> worker_members(
            c,
        ).contains(x),
        seq![
            ("retry_frozen"@, JsonView::Bool(c.retry_frozen)),
            text_member("state"@, c.state.name()),
        ].contains(x) ==> worker_members(c).contains(x),
        optional("stop_reason"@, opt_view(c.stop_reason)).contains(x) ==> worker_members(
            c,
        ).contains(x),
        optional("text"@, opt_view(c.text)).contains(x) ==> worker_members(c).contains(x),
        seq![
            ("usage"@, usage_view(c.usage)),
            ("usage_reported"@, JsonView::Bool(c.usage_reported)),
        ].contains(x) ==> worker_members(c).contains(x),
{
    let a = seq![
        text_member("disclosure_manifest_ref"@, c.disclosure_manifest_ref@),
        text_member("effect_attempt_id"@, c.effect_attempt_id@),
        text_member("effect_id"@, c.effect_id@),
        ("latency_ms"@, JsonView::Number(number_of(c.latency_ms))),
    ];
    let b = optional("model"@, opt_view(c.model));
    let d = optional("observation"@, opt_view(c.observation));
    let e = seq![
        text_member("provider_context_manifest_ref"@, c.provider_context_manifest_ref@),
    ];
    let f = optional("provider_ref"@, opt_view(c.external_ref));
    let g = seq![
        ("retry_frozen"@, JsonView::Bool(c.retry_frozen)),
        text_member("state"@, c.state.name()),
    ];
    let h = optional("stop_reason"@, opt_view(c.stop_reason));
    let t = optional("text"@, opt_view(c.text));
    let u = seq![
        ("usage"@, usage_view(c.usage)),
        ("usage_reported"@, JsonView::Bool(c.usage_reported)),
    ];
    crate::json::members_together(a, b, x);
    crate::json::members_together(a + b, d, x);
    crate::json::members_together(a + b + d, e, x);
    crate::json::members_together(a + b + d + e, f, x);
    crate::json::members_together(a + b + d + e + f, g, x);
    crate::json::members_together(a + b + d + e + f + g, h, x);
    crate::json::members_together(a + b + d + e + f + g + h, t, x);
    crate::json::members_together(a + b + d + e + f + g + h + t, u, x);
    assert(worker_members(c) =~= a + b + d + e + f + g + h + t + u);
}

proof fn optional_holds(key: Seq<char>, text: Option<String>)
    ensures
        text is Some ==> optional(key, opt_view(text)).contains((key, JsonView::Text(text->0@))),
{
    if text is Some {
        assert(optional(key, opt_view(text))[0] == (key, JsonView::Text(text->0@)));
    }
}

/// Whatever the exchange came to reaches the worker: each of the text, the model,
/// the reason that it stopped, the provider's reference and the observation that is
/// there stands in the view under its name, and so do the references of the
/// effect, how long it took, what it used, its state and whether it can be tried
/// again.
pub proof fn the_worker_is_told_all(
    effect: Effect,
    effect_attempt_id: Seq<char>,
    outcome: Outcome,
    usage_reported: bool,
    c: Completion,
)
    requires
        completed(effect, effect_attempt_id, outcome, usage_reported, c),
    ensures
        outcome.text is Some ==> worker_members(c).contains(
            ("text"@, JsonView::Text(outcome.text->0@)),
        ),
        outcome.model is Some ==> worker_members(c).contains(
            ("model"@, JsonView::Text(outcome.model->0@)),
        ),
        outcome.stop_reason is Some ==> worker_members(c).contains(
            ("stop_reason"@, JsonView::Text(outcome.stop_reason->0@)),
        ),
        outcome.external_ref is Some ==> worker_members(c).contains(
            ("provider_ref"@, JsonView::Text(outcome.external_ref->0@)),
        ),
        outcome.observation is Some ==> worker_members(c).contains(
            ("observation"@, JsonView::Text(outcome.observation->0@)),
        ),
        worker_members(c).contains(("effect_id"@, JsonView::Text(effect.effect_id@))),
        worker_members(c).contains(("effect_attempt_id"@, JsonView::Text(effect_attempt_id))),
        worker_members(c).contains(
            ("disclosure_manifest_ref"@, JsonView::Text(effect.disclosure_manifest_ref@)),
        ),
        worker_members(c).contains(
            ("provider_context_manifest_ref"@, JsonView::Text(effect.provider_context_ref@)),
        ),
        worker_members(c).contains(
            ("latency_ms"@, JsonView::Number(number_of(outcome.latency_ms))),
        ),
        worker_members(c).contains(("state"@, JsonView::Text(outcome.state.name()))),
        worker_members(c).contains(("retry_frozen"@, JsonView::Bool(outcome.state.frozen()))),
        worker_members(c).contains(("usage_reported"@, JsonView::Bool(usage_reported))),
        exists|u: Seq<(Seq<char>, JsonView)>|
            {
                &&& worker_members(c).contains(("usage"@, JsonView::Object(u)))
                &&& #[trigger] u.contains(
                    ("input_tokens"@, JsonView::Number(number_of(outcome.usage.input_tokens))),
                )
                &&& u.contains(
                    ("output_tokens"@, JsonView::Number(number_of(outcome.usage.output_tokens))),
                )
            },
{
    optional_holds("text"@, c.text);
    optional_holds("model"@, c.model);
    optional_holds("stop_reason"@, c.stop_reason);
    optional_holds("provider_ref"@, c.external_ref);
    optional_holds("observation"@, c.observation);
    if c.text is Some {
        told_in_a_piece(c, ("text"@, JsonView::Text(c.text->0@)));
    }
    if c.model is Some {
        told_in_a_piece(c, ("model"@, JsonView::Text(c.model->0@)));
    }
    if c.stop_reason is Some {
        told_in_a_piece(c, ("stop_reason"@, JsonView::Text(c.stop_reason->0@)));
    }
    if c.external_ref is Some {
        told_in_a_piece(c, ("provider_ref"@, JsonView::Text(c.external_ref->0@)));
    }
    if c.observation is Some {
        told_in_a_piece(c, ("observation"@, JsonView::Text(c.observation->0@)));
    }
    let a = seq![
        text_member("disclosure_manifest_ref"@, c.disclosure_manifest_ref@),
        text_member("effect_attempt_id"@, c.effect_attempt_id@),
        text_member("effect_id"@, c.effect_id@),
        ("latency_ms"@, JsonView::Number(number_of(c.latency_ms))),
    ];
    told_in_a_piece(c, a[0]);
    told_in_a_piece(c, a[1]);
    told_in_a_piece(c, a[2]);
    told_in_a_piece(c, a[3]);
    let e = seq![
        text_member("provider_context_manifest_ref"@, c.provider_context_manifest_ref@),
    ];
    told_in_a_piece(c, e[0]);
    let g = seq![
        ("retry_frozen"@, JsonView::Bool(c.retry_frozen)),
        text_member("state"@, c.state.name()),
    ];
    told_in_a_piece(c, g[0]);
    told_in_a_piece(c, g[1]);
    let w = seq![
        ("usage"@, usage_view(c.usage)),
        ("usage_reported"@, JsonView::Bool(c.usage_reported)),
    ];
    told_in_a_piece(c, w[0]);
    told_in_a_piece(c, w[1]);
    let u = usage_view(c.usage)->Object_0;
    assert(u[0] == ("input_tokens"@, JsonView::Number(number_of(c.usage.input_tokens))));
    assert(u[1] == ("output_tokens"@, JsonView::Number(number_of(c.usage.output_tokens))));
    assert(u.contains(u[0]));
    assert(u.contains(u[1]));
    assert(JsonView::Object(u) == usage_view(c.usage));
}

/// What the exchange did not come to is not told: where the text, the model, the
/// reason that it stopped, the provider's reference or the observation is missing,
/// no member has its name.
pub proof fn the_worker_is_told_nothing_made_up(c: Completion)
    ensures
        c.text is None ==> unnamed(worker_members(c), "text"@),
        c.model is None ==> unnamed(worker_members(c), "model"@),
        c.stop_reason is None ==> unnamed(worker_members(c), "stop_reason"@),
        c.external_ref is None ==> unnamed(worker_members(c), "provider_ref"@),
        c.observation is None ==> unnamed(worker_members(c), "observation"@),
{
    worker_names_differ();
    if c.text is None {
        unnamed_in_all(c, "text"@);
    }
    if c.model is None {
        unnamed_in_all(c, "model"@);
    }
    if c.stop_reason is None {
        unnamed_in_all(c, "stop_reason"@);
    }
    if c.external_ref is None {
        unnamed_in_all(c, "provider_ref"@);
    }
    if c.observation is None {
        unnamed_in_all(c, "observation"@);
    }
}

/// The names that can be missing are told apart from all the others.
proof fn worker_names_differ()
    ensures
        "text"@.len() == 4,
        "model"@.len() == 5,
        "model"@[0] == 'm',
        "state"@.len() == 5,
        "state"@[0] == 's',
        "usage"@.len() == 5,
        "usage"@[0] == 'u',
        "effect_id"@.len() == 9,
        "latency_ms"@.len() == 10,
        "observation"@.len() == 11,
        "observation"@[0] == 'o',
        "stop_reason"@.len() == 11,
        "stop_reason"@[0] == 's',
        "provider_ref"@.len() == 12,
        "provider_ref"@[0] == 'p',
        "retry_frozen"@.len() == 12,
        "retry_frozen"@[0] == 'r',
        "usage_reported"@.len() == 14,
        "effect_attempt_id"@.len() == 17,
        "disclosure_manifest_ref"@.len() == 23,
        "provider_context_manifest_ref"@.len() == 29,
{
    reveal_strlit("text");
    reveal_strlit("model");
    reveal_strlit("state");
    reveal_strlit("usage");
    reveal_strlit("effect_id");
    reveal_strlit("latency_ms");
    reveal_strlit("observation");
    reveal_strlit("stop_reason");
    reveal_strlit("provider_ref");
    reveal_strlit("retry_frozen");
    reveal_strlit("usage_reported");
    reveal_strlit("effect_attempt_id");
    reveal_strlit("disclosure_manifest_ref");
    reveal_strlit("provider_context_manifest_ref");
}

proof fn unnamed_in_all(c: Completion, name: Seq<char>)
    requires
        name != "disclosure_manifest_ref"@,
        name != "effect_attempt_id"@,
        name != "effect_id"@,
        name != "latency_ms"@,
        name != "provider_context_manifest_ref"@,
        name != "retry_frozen"@,
        name != "state"@,
        name != "usage"@,
        name != "usage_reported"@,
        name == "model"@ ==> c.model is None,
        name == "observation"@ ==> c.observation is None,
        name == "provider_ref"@ ==> c.external_ref is None,
        name == "stop_reason"@ ==> c.stop_reason is None,
        name == "text"@ ==> c.text is None,
    ensures
        unnamed(worker_members(c), name),
{
    let a = seq![
        text_member("disclosure_manifest_ref"@, c.disclosure_manifest_ref@),
        text_member("effect_attempt_id"@, c.effect_attempt_id@),
        text_member("effect_id"@, c.effect_id@),
        ("latency_ms"@, JsonView::Number(number_of(c.latency_ms))),
    ];
    let b = optional("model"@, opt_view(c.model));
    let d = optional("observation"@, opt_view(c.observation));
    let e = seq![
        text_member("provider_context_manifest_ref"@, c.provider_context_manifest_ref@),
    ];
    let f = optional("provider_ref"@, opt_view(c.external_ref));
    let g = seq![
        ("retry_frozen"@, JsonView::Bool(c.retry_frozen)),
        text_member("state"@, c.state.name()),
    ];
    let h = optional("stop_reason"@, opt_view(c.stop_reason));
    let t = optional("text"@, opt_view(c.text));
    let u = seq![
        ("usage"@, usage_view(c.usage)),
        ("usage_reported"@, JsonView::Bool(c.usage_reported)),
    ];
    unnamed_together(a, b, name);
    unnamed_together(a + b, d, name);
    unnamed_together(a + b + d, e, name);
    unnamed_together(a + b + d + e, f, name);
    unnamed_together(a + b + d + e + f, g, name);
    unnamed_together(a + b + d + e + f + g, h, name);
    unnamed_together(a + b + d + e + f + g + h, t, name);
    unnamed_together(a + b + d + e + f + g + h + t, u, name);
    assert(worker_members(c) =~= a + b + d + e + f + g + h + t + u);
}

/// Nothing that a document of this kind (prepared) is made of is lost: each part
/// stands under its own name, and two documents are the same only if all parts are.
pub proof fn prepared_documents_are_told_apart(
    act: ActAuthorization,
    model_profile_ref: Seq<char>,
    provider_kind: ProviderKind,
    context_id: Seq<char>,
    plan: Planned,
    act2: ActAuthorization,
    model_profile_ref2: Seq<char>,
    provider_kind2: ProviderKind,
    context_id2: Seq<char>,
    plan2: Planned,
)
    requires
        prepared_document(act, model_profile_ref, provider_kind, context_id, plan)
            == prepared_document(act2, model_profile_ref2, provider_kind2, context_id2, plan2),
    ensures
        prepared_document(act, model_profile_ref, provider_kind, context_id, plan)->Object_0.contains(text_member("act_intent_ref"@, act.act_intent_ref@)),
        act.act_intent_ref@ == act2.act_intent_ref@,
        prepared_document(act, model_profile_ref, provider_kind, context_id, plan)->Object_0.contains(text_member("disclosure_manifest_ref"@, plan.disclosure_manifest_ref@)),
        plan.disclosure_manifest_ref@ == plan2.disclosure_manifest_ref@,
        prepared_document(act, model_profile_ref, provider_kind, context_id, plan)->Object_0.contains(bool_member("dispatched"@, false)),
        prepared_document(act, model_profile_ref, provider_kind, context_id, plan)->Object_0.contains(text_member("execution_key"@, act.stable_execution_key@)),
        act.stable_execution_key@ == act2.stable_execution_key@,
        prepared_document(act, model_profile_ref, provider_kind, context_id, plan)->Object_0.contains(("final_provider_request_digest"@, stored(plan.final_request_digest@))),
        stored(plan.final_request_digest@) == stored(plan2.final_request_digest@),
        prepared_document(act, model_profile_ref, provider_kind, context_id, plan)->Object_0.contains(text_member("model_profile_ref"@, model_profile_ref)),
        model_profile_ref == model_profile_ref2,
        prepared_document(act, model_profile_ref, provider_kind, context_id, plan)->Object_0.contains(bool_member("permit_consumed"@, false)),
        prepared_document(act, model_profile_ref, provider_kind, context_id, plan)->Object_0.contains(text_member("provider_context_manifest_ref"@, context_id)),
        context_id == context_id2,
        prepared_document(act, model_profile_ref, provider_kind, context_id, plan)->Object_0.contains(text_member("provider_kind"@, provider_kind.name())),
        provider_kind.name() == provider_kind2.name(),
        prepared_document(act, model_profile_ref, provider_kind, context_id, plan)->Object_0.contains(text_member("state"@, "prepared"@)),
{
    let x = prepared_document(act, model_profile_ref, provider_kind, context_id, plan)->Object_0;
    let y = prepared_document(act2, model_profile_ref2, provider_kind2, context_id2, plan2)->Object_0;
    assert(x[0] == text_member("act_intent_ref"@, act.act_intent_ref@));
    assert(x[0] == y[0]);
    assert(x[1] == text_member("disclosure_manifest_ref"@, plan.disclosure_manifest_ref@));
    assert(x[1] == y[1]);
    assert(x[2] == bool_member("dispatched"@, false));
    assert(x[3] == text_member("execution_key"@, act.stable_execution_key@));
    assert(x[3] == y[3]);
    assert(x[4] == ("final_provider_request_digest"@, stored(plan.final_request_digest@)));
    assert(x[4] == y[4]);
    assert(x[5] == text_member("model_profile_ref"@, model_profile_ref));
    assert(x[5] == y[5]);
    assert(x[6] == bool_member("permit_consumed"@, false));
    assert(x[7] == text_member("provider_context_manifest_ref"@, context_id));
    assert(x[7] == y[7]);
    assert(x[8] == text_member("provider_kind"@, provider_kind.name()));
    assert(x[8] == y[8]);
    assert(x[9] == text_member("state"@, "prepared"@));
}

/// Nothing that a document of this kind (authorized) is made of is lost: each part
/// stands under its own name, and two documents are the same only if all parts are.
pub proof fn authorized_documents_are_told_apart(
    permit: Permit,
    permit2: Permit,
)
    requires
        authorized_document(permit)
            == authorized_document(permit2),
    ensures
        authorized_document(permit)->Object_0.contains(text_member("consumption_ref"@, permit.consumption_ref@)),
        permit.consumption_ref@ == permit2.consumption_ref@,
        authorized_document(permit)->Object_0.contains(bool_member("dispatched"@, false)),
        authorized_document(permit)->Object_0.contains(text_member("mandate_use_ref"@, permit.mandate_use_ref@)),
        permit.mandate_use_ref@ == permit2.mandate_use_ref@,
        authorized_document(permit)->Object_0.contains(number_member("max_uses"@, permit.max_uses)),
        crate::json::number_of(permit.max_uses) == crate::json::number_of(permit2.max_uses),
        authorized_document(permit)->Object_0.contains(text_member("owner_protocol"@, permit.owner_protocol@)),
        permit.owner_protocol@ == permit2.owner_protocol@,
        authorized_document(permit)->Object_0.contains(text_member("owner_receipt_ref"@, permit.owner_receipt_ref@)),
        permit.owner_receipt_ref@ == permit2.owner_receipt_ref@,
        authorized_document(permit)->Object_0.contains(bool_member("permit_consumed"@, true)),
        authorized_document(permit)->Object_0.contains(text_member("phase"@, permit.phase@)),
        permit.phase@ == permit2.phase@,
        authorized_document(permit)->Object_0.contains(text_member("state"@, "prepared"@)),
{
    let x = authorized_document(permit)->Object_0;
    let y = authorized_document(permit2)->Object_0;
    assert(x[0] == text_member("consumption_ref"@, permit.consumption_ref@));
    assert(x[0] == y[0]);
    assert(x[1] == bool_member("dispatched"@, false));
    assert(x[2] == text_member("mandate_use_ref"@, permit.mandate_use_ref@));
    assert(x[2] == y[2]);
    assert(x[3] == number_member("max_uses"@, permit.max_uses));
    assert(x[3] == y[3]);
    assert(x[4] == text_member("owner_protocol"@, permit.owner_protocol@));
    assert(x[4] == y[4]);
    assert(x[5] == text_member("owner_receipt_ref"@, permit.owner_receipt_ref@));
    assert(x[5] == y[5]);
    assert(x[6] == bool_member("permit_consumed"@, true));
    assert(x[7] == text_member("phase"@, permit.phase@));
    assert(x[7] == y[7]);
    assert(x[8] == text_member("state"@, "prepared"@));
}

/// Nothing that a document of this kind (dispatching) is made of is lost: each part
/// stands under its own name, and two documents are the same only if all parts are.
pub proof fn dispatching_documents_are_told_apart(
    attempt_id: Seq<char>,
    ordinal: u64,
    transport_profile: Seq<char>,
    attempt_id2: Seq<char>,
    ordinal2: u64,
    transport_profile2: Seq<char>,
)
    requires
        dispatching_document(attempt_id, ordinal, transport_profile)
            == dispatching_document(attempt_id2, ordinal2, transport_profile2),
    ensures
        dispatching_document(attempt_id, ordinal, transport_profile)->Object_0.contains(number_member("attempt_ordinal"@, ordinal)),
        crate::json::number_of(ordinal) == crate::json::number_of(ordinal2),
        dispatching_document(attempt_id, ordinal, transport_profile)->Object_0.contains(bool_member("dispatched"@, true)),
        dispatching_document(attempt_id, ordinal, transport_profile)->Object_0.contains(text_member("effect_attempt_id"@, attempt_id)),
        attempt_id == attempt_id2,
        dispatching_document(attempt_id, ordinal, transport_profile)->Object_0.contains(bool_member("permit_consumed"@, true)),
        dispatching_document(attempt_id, ordinal, transport_profile)->Object_0.contains(text_member("state"@, "dispatching"@)),
        dispatching_document(attempt_id, ordinal, transport_profile)->Object_0.contains(text_member("transport_profile"@, transport_profile)),
        transport_profile == transport_profile2,
{
    let x = dispatching_document(attempt_id, ordinal, transport_profile)->Object_0;
    let y = dispatching_document(attempt_id2, ordinal2, transport_profile2)->Object_0;
    assert(x[0] == number_member("attempt_ordinal"@, ordinal));
    assert(x[0] == y[0]);
    assert(x[1] == bool_member("dispatched"@, true));
    assert(x[2] == text_member("effect_attempt_id"@, attempt_id));
    assert(x[2] == y[2]);
    assert(x[3] == bool_member("permit_consumed"@, true));
    assert(x[4] == text_member("state"@, "dispatching"@));
    assert(x[5] == text_member("transport_profile"@, transport_profile));
    assert(x[5] == y[5]);
}

/// Nothing that a document of this kind (outcome) is made of is lost: each part
/// stands under its own name, and two documents are the same only if all parts are.
pub proof fn outcome_documents_are_told_apart(
    attempt_id: Seq<char>,
    outcome: Outcome,
    attempt_id2: Seq<char>,
    outcome2: Outcome,
)
    requires
        outcome_document(attempt_id, outcome)
            == outcome_document(attempt_id2, outcome2),
    ensures
        outcome_document(attempt_id, outcome)->Object_0.contains(text_member("effect_attempt_id"@, attempt_id)),
        attempt_id == attempt_id2,
        outcome_document(attempt_id, outcome)->Object_0.contains(number_member("latency_ms"@, outcome.latency_ms)),
        crate::json::number_of(outcome.latency_ms) == crate::json::number_of(outcome2.latency_ms),
        outcome_document(attempt_id, outcome)->Object_0.contains(("observation"@, nullable(opt_view(outcome.observation)))),
        opt_view(outcome.observation) == opt_view(outcome2.observation),
        outcome_document(attempt_id, outcome)->Object_0.contains(("provider_ref"@, nullable(opt_view(outcome.external_ref)))),
        opt_view(outcome.external_ref) == opt_view(outcome2.external_ref),
        outcome_document(attempt_id, outcome)->Object_0.contains(("response_digest"@, nullable(opt_view(outcome.response_digest)))),
        opt_view(outcome.response_digest) == opt_view(outcome2.response_digest),
        outcome_document(attempt_id, outcome)->Object_0.contains(bool_member("retry_frozen"@, outcome.state.frozen())),
        outcome.state.frozen() == outcome2.state.frozen(),
        outcome_document(attempt_id, outcome)->Object_0.contains(text_member("state"@, outcome.state.name())),
        outcome.state.name() == outcome2.state.name(),
        outcome_document(attempt_id, outcome)->Object_0.contains(text_member("transport_profile"@, outcome.transport_profile@)),
        outcome.transport_profile@ == outcome2.transport_profile@,
        crate::json::number_of(outcome.usage.input_tokens) == crate::json::number_of(outcome2.usage.input_tokens),
        crate::json::number_of(outcome.usage.output_tokens) == crate::json::number_of(outcome2.usage.output_tokens),
{
    let x = outcome_document(attempt_id, outcome)->Object_0;
    let y = outcome_document(attempt_id2, outcome2)->Object_0;
    assert(x[0] == text_member("effect_attempt_id"@, attempt_id));
    assert(x[0] == y[0]);
    assert(x[1] == number_member("latency_ms"@, outcome.latency_ms));
    assert(x[1] == y[1]);
    assert(x[2] == ("observation"@, nullable(opt_view(outcome.observation))));
    assert(x[2] == y[2]);
    assert(x[3] == ("provider_ref"@, nullable(opt_view(outcome.external_ref))));
    assert(x[3] == y[3]);
    assert(x[4] == ("response_digest"@, nullable(opt_view(outcome.response_digest))));
    assert(x[4] == y[4]);
    assert(x[5] == bool_member("retry_frozen"@, outcome.state.frozen()));
    assert(x[5] == y[5]);
    assert(x[6] == text_member("state"@, outcome.state.name()));
    assert(x[6] == y[6]);
    assert(x[7] == text_member("transport_profile"@, outcome.transport_profile@));
    assert(x[7] == y[7]);
    assert(x[8] == y[8]);
    assert(x[8].1->Object_0 == y[8].1->Object_0);
    assert(x[8].1->Object_0[0] == y[8].1->Object_0[0] && x[8].1->Object_0[1] == y[8].1->Object_0[1]);
}

/// Nothing that a document of this kind (reported) is made of is lost: each part
/// stands under its own name, and two documents are the same only if all parts are.
pub proof fn reported_documents_are_told_apart(
    attempt_id: Seq<char>,
    report_key: Seq<char>,
    usage: Usage,
    settled: bool,
    attempt_id2: Seq<char>,
    report_key2: Seq<char>,
    usage2: Usage,
    settled2: bool,
)
    requires
        reported_document(attempt_id, report_key, usage, settled)
            == reported_document(attempt_id2, report_key2, usage2, settled2),
    ensures
        reported_document(attempt_id, report_key, usage, settled)->Object_0.contains(text_member("effect_attempt_id"@, attempt_id)),
        attempt_id == attempt_id2,
        reported_document(attempt_id, report_key, usage, settled)->Object_0.contains(number_member("input_tokens"@, usage.input_tokens)),
        crate::json::number_of(usage.input_tokens) == crate::json::number_of(usage2.input_tokens),
        reported_document(attempt_id, report_key, usage, settled)->Object_0.contains(number_member("output_tokens"@, usage.output_tokens)),
        crate::json::number_of(usage.output_tokens) == crate::json::number_of(usage2.output_tokens),
        reported_document(attempt_id, report_key, usage, settled)->Object_0.contains(bool_member("settled_by_byom"@, settled)),
        settled == settled2,
        reported_document(attempt_id, report_key, usage, settled)->Object_0.contains(text_member("stable_report_key"@, report_key)),
        report_key == report_key2,
        reported_document(attempt_id, report_key, usage, settled)->Object_0.contains(text_member("state"@, "reported"@)),
{
    let x = reported_document(attempt_id, report_key, usage, settled)->Object_0;
    let y = reported_document(attempt_id2, report_key2, usage2, settled2)->Object_0;
    assert(x[0] == text_member("effect_attempt_id"@, attempt_id));
    assert(x[0] == y[0]);
    assert(x[1] == number_member("input_tokens"@, usage.input_tokens));
    assert(x[1] == y[1]);
    assert(x[2] == number_member("output_tokens"@, usage.output_tokens));
    assert(x[2] == y[2]);
    assert(x[3] == bool_member("settled_by_byom"@, settled));
    assert(x[3] == y[3]);
    assert(x[4] == text_member("stable_report_key"@, report_key));
    assert(x[4] == y[4]);
    assert(x[5] == text_member("state"@, "reported"@));
}

/// Nothing that a document of this kind (recovered) is made of is lost: each part
/// stands under its own name, and two documents are the same only if all parts are.
pub proof fn recovered_documents_are_told_apart(
    attempt_id: Seq<char>,
    attempt_id2: Seq<char>,
)
    requires
        recovered_document(attempt_id)
            == recovered_document(attempt_id2),
    ensures
        recovered_document(attempt_id)->Object_0.contains(text_member("effect_attempt_id"@, attempt_id)),
        attempt_id == attempt_id2,
        recovered_document(attempt_id)->Object_0.contains(bool_member("recovered_at_startup"@, true)),
        recovered_document(attempt_id)->Object_0.contains(bool_member("retry_frozen"@, true)),
        recovered_document(attempt_id)->Object_0.contains(text_member("state"@, "ambiguous"@)),
{
    let x = recovered_document(attempt_id)->Object_0;
    let y = recovered_document(attempt_id2)->Object_0;
    assert(x[0] == text_member("effect_attempt_id"@, attempt_id));
    assert(x[0] == y[0]);
    assert(x[1] == bool_member("recovered_at_startup"@, true));
    assert(x[2] == bool_member("retry_frozen"@, true));
    assert(x[3] == text_member("state"@, "ambiguous"@));
}

/// Nothing that a document of this kind (reconciled) is made of is lost: each part
/// stands under its own name, and two documents are the same only if all parts are.
pub proof fn reconciled_documents_are_told_apart(
    attempt_id: Seq<char>,
    resolution: EffectState,
    observation: Seq<char>,
    attempt_id2: Seq<char>,
    resolution2: EffectState,
    observation2: Seq<char>,
)
    requires
        reconciled_document(attempt_id, resolution, observation)
            == reconciled_document(attempt_id2, resolution2, observation2),
    ensures
        reconciled_document(attempt_id, resolution, observation)->Object_0.contains(text_member("effect_attempt_id"@, attempt_id)),
        attempt_id == attempt_id2,
        reconciled_document(attempt_id, resolution, observation)->Object_0.contains(text_member("observation"@, observation)),
        observation == observation2,
        reconciled_document(attempt_id, resolution, observation)->Object_0.contains(bool_member("retry_frozen"@, false)),
        reconciled_document(attempt_id, resolution, observation)->Object_0.contains(text_member("state"@, resolution.name())),
        resolution.name() == resolution2.name(),
{
    let x = reconciled_document(attempt_id, resolution, observation)->Object_0;
    let y = reconciled_document(attempt_id2, resolution2, observation2)->Object_0;
    assert(x[0] == text_member("effect_attempt_id"@, attempt_id));
    assert(x[0] == y[0]);
    assert(x[1] == text_member("observation"@, observation));
    assert(x[1] == y[1]);
    assert(x[2] == bool_member("retry_frozen"@, false));
    assert(x[3] == text_member("state"@, resolution.name()));
    assert(x[3] == y[3]);
}

/// What is disclosed is what the request holds: the prompt always, the system
/// instruction before it where there is one, each under the attempt's own name and
/// at its own size, and nothing else.
pub proof fn what_is_disclosed_is_the_request<T: Fn(&str) -> String>(
    request: CompleteRequest<'_>,
    hash: T,
    items: Seq<DisclosureItem>,
)
    requires
        items_of(request, hash, items),
    ensures
        items.len() == if request.system is Some {
            2int
        } else {
            1int
        },
        items.last().ref_@ == request.attempt_id@ + "#prompt"@,
        items.last().size == request.prompt.spec_bytes().len() as usize,
        hashed(hash, request.prompt@, items.last().digest@),
        request.system is Some ==> items[0].ref_@ == request.attempt_id@ + "#system"@,
        request.system is Some ==> items[0].size == request.system->0.spec_bytes().len() as usize,
        request.system is Some ==> hashed(hash, request.system->0@, items[0].digest@),
        forall|i: int| 0 <= i < items.len() ==> (#[trigger] items[i]).revision == Some(1u64),
{
}

/// The chain that goes to a provider ends with the adapter's own wrapper, behind
/// the prompt, behind the system instruction where there is one; every segment has
/// the classification that was asked for.
pub proof fn the_chain_holds_the_request<T: Fn(&str) -> String>(
    request: CompleteRequest<'_>,
    adapter_version: Seq<char>,
    hash: T,
    segments: Seq<Segment>,
    i: int,
)
    requires
        segments_of(request, adapter_version, hash, segments),
        0 <= i < segments.len(),
    ensures
        segments[i].classification_ref@ == request.classification_ref@,
        segments.last().kind is AdapterWrapper,
        segments.last().ref_@ == adapter_version,
        segments[segments.len() - 2].kind is CollaborationItem,
        segments[segments.len() - 2].ref_@ == request.attempt_id@ + "#prompt"@,
        hashed(hash, request.prompt@, segments[segments.len() - 2].digest@),
        segments[i].kind is SystemInstruction <==> request.system is Some && i == 0,
        request.system is Some ==> segments.len() == 3 && hashed(
            hash,
            request.system->0@,
            segments[0].digest@,
        ),
        request.system is None ==> segments.len() == 2,
{
}

/// A disclosure that is asked for is of this call: its realm and project, the
/// space and the assembly of its invocation, its purpose and classification, and
/// to the profile that it goes to with the claims of its provider.
pub proof fn a_disclosure_is_asked_for_the_call<T: Fn(&str) -> String>(
    ask: DisclosureAsk,
    id: Seq<char>,
    request: CompleteRequest<'_>,
    profile: ModelProfile,
    binding: ProviderBinding,
    v: Invocation,
    hash: T,
)
    requires
        asks_disclosure(ask, id, request, profile, binding, v, hash),
    ensures
        ask.disclosure_id@ == id,
        ask.realm@ == request.realm@,
        request.project is Some ==> ask.project is Some && ask.project->0@ == request.project->0@,
        request.project is None ==> ask.project is None,
        v.space_id is Some ==> ask.space_id is Some && ask.space_id->0@ == v.space_id->0@,
        v.space_id is None ==> ask.space_id is None,
        ask.purpose_ref@ == request.purpose_ref@,
        ask.classification_ref@ == request.classification_ref@,
        ask.provider_claims@ == binding.provider_claims@,
        ask.recipient_ref@ == "model-profile:"@ + profile.model_profile_id@,
        ask.context_assembly_ref is Some <==> v.context_assembly_ref is Some,
        v.context_assembly_ref is Some ==> ask.context_assembly_ref->0@
            == v.context_assembly_ref->0@,
        ask.context_assembly_digest is Some <==> v.context_assembly_ref is Some,
        ask.created_at@ == v.created_at@,
{
}

/// A disclosure is staged once, as it was drafted; one that stands already is
/// taken as it stands while it verifies. Nothing else of the broker is touched.
pub proof fn a_disclosure_is_staged_as_drafted(
    before: Broker,
    after: Broker,
    realm: Seq<char>,
    call_recorded: bool,
    disclosure_id: Seq<char>,
    stale: Option<String>,
    drafted: Drafted,
    at: Seq<char>,
    r: Result<usize, Problem>,
)
    requires
        before.wf(),
        after.wf(),
        stage_outcome(
            before,
            after,
            realm,
            call_recorded,
            disclosure_id,
            stale,
            drafted,
            at,
            r,
        ),
    ensures
        r is Ok <==> call_recorded && (if before.disclosures@.contains_key(key1(disclosure_id)) {
            stale is None
        } else {
            drafted is Manifest
        }),
        r is Err ==> after == before,
        before.disclosures@.contains_key(key1(disclosure_id)) ==> after == before,
        r is Ok ==> after.disclosures.rows@[r->Ok_0 as int] == after.disclosures@[key1(
            disclosure_id,
        )],
        r is Ok && !before.disclosures@.contains_key(key1(disclosure_id)) ==> {
            let d = after.disclosures@[key1(disclosure_id)];
            &&& d.disclosure_id@ == disclosure_id
            &&& d.realm_id@ == realm
            &&& d.recipient_kind@ == drafted->recipient_kind@
            &&& d.record@ == drafted->record@
            &&& d.digest@ == drafted->digest@
            &&& d.digest_hex@ == drafted->digest_hex@
            &&& d.total_bytes == drafted->total_bytes
            &&& d.created_at@ == at
        },
        after.effects == before.effects,
        after.attempts == before.attempts,
        after.consumptions == before.consumptions,
        after.reports == before.reports,
        after.contexts == before.contexts,
{
    if r is Ok && !before.disclosures@.contains_key(key1(disclosure_id)) {
        let row = after.disclosures.rows@.last();
        crate::table::table_pushed(before.disclosures, after.disclosures, row);
    }
}

/// A call outside any episode needs no source fields; one inside an episode needs
/// a live binding and the fields that byom gave for it.
pub proof fn an_episode_call_needs_its_source(
    eps: Episodes,
    key: Option<&str>,
    source: SourceFields,
)
    ensures
        key is None ==> source_refusal(eps, key, source) is None,
        key is Some ==> (source_refusal(eps, key, source) is None <==> {
            &&& eps.bindings@.contains_key(key1(key->0@))
            &&& eps.bindings@[key1(key->0@)].state is Bound
            &&& source is Given
        }),
        key is Some && !(eps.bindings@.contains_key(key1(key->0@)) && eps.bindings@[key1(
            key->0@,
        )].state is Bound) ==> source_refusal(eps, key, source)->0.kind is StaleLease,
        source_given(key, source) is Some <==> key is Some && source is Given,
        source_given(key, source) is Some ==> source_given(key, source)->0 == source->Given_0@,
{
}

/// An effect is prepared once for its execution key: the first time it holds what
/// the request, the act and the plan say, and every later time it is the same
/// effect and nothing changes.
pub proof fn an_effect_is_prepared_as_planned<X>(
    before: Broker,
    after: Broker,
    journal: JournalView,
    after_journal: JournalView,
    eps: Episodes,
    request: CompleteRequest<'_>,
    act: ActAuthorization,
    model_profile_ref: Seq<char>,
    provider_binding_ref: Seq<char>,
    provider_kind: ProviderKind,
    call_recorded: bool,
    source: SourceFields,
    new_effect_id: Seq<char>,
    context_id: Seq<char>,
    answer: PlanAnswer<X>,
    at: Seq<char>,
    r: Result<Prepared<X>, Problem>,
)
    requires
        before.wf(),
        after.wf(),
        prepare_outcome(
            before,
            after,
            journal,
            after_journal,
            eps,
            request,
            act,
            model_profile_ref,
            provider_binding_ref,
            provider_kind,
            call_recorded,
            source,
            new_effect_id,
            context_id,
            answer,
            at,
            r,
        ),
    ensures
        r is Err ==> after == before && after_journal == journal,
        r is Ok ==> answer is Planned && call_recorded && r->Ok_0.plan == answer->Planned_1,
        r is Ok ==> after.effects.rows@[r->Ok_0.effect as int].execution_key@
            == act.stable_execution_key@,
        r is Ok && r->Ok_0.already_existed ==> after == before && after_journal == journal,
        r is Ok && !r->Ok_0.already_existed ==> {
            let e = after.effects@[key1(new_effect_id)];
            let plan = answer->Planned_0;
            let c = after.contexts@[key1(context_id)];
            &&& after.effects.rows@[r->Ok_0.effect as int] == e
            &&& e.effect_id@ == new_effect_id
            &&& e.state is Prepared
            &&& e.realm_ref@ == request.realm@
            &&& e.attempt_ref@ == request.attempt_id@
            &&& e.kovee_invocation_fence == request.fence_epoch
            &&& e.act_intent_ref@ == act.act_intent_ref@
            &&& e.model_profile_ref@ == model_profile_ref
            &&& e.provider_binding_ref@ == provider_binding_ref
            &&& e.provider_context_ref@ == context_id
            &&& e.invocation_ref@ == plan.invocation_ref@
            &&& e.external_idempotency_key@ == plan.external_idempotency_key@
            &&& e.subject_digest@ == plan.subject_digest@
            &&& e.host_effect_digest@ == plan.host_effect_digest@
            &&& e.disclosure_manifest_ref@ == plan.disclosure_manifest_ref@
            &&& e.disclosure_digest@ == plan.disclosure_digest@
            &&& e.provider_context_digest@ == plan.provider_context_digest@
            &&& e.project_ref is Some <==> request.project is Some
            &&& request.project is Some ==> e.project_ref->0@ == request.project->0@
            &&& e.stable_binding_key is Some <==> request.stable_binding_key is Some
            &&& request.stable_binding_key is Some ==> {
                let b = eps.bindings@[key1(request.stable_binding_key->0@)];
                &&& e.stable_binding_key->0@ == request.stable_binding_key->0@
                &&& e.episode_ref is Some
                &&& e.episode_ref->0@ == b.episode_ref@
                &&& e.byom_fence_epoch == Some(b.fences.byom)
            }
            &&& request.stable_binding_key is None ==> e.episode_ref is None
                && e.byom_fence_epoch is None
            &&& c.record@ == plan.context_record@
            &&& c.digest_hex@ == plan.context_digest_hex@
            &&& c.final_request_digest_hex@ == plan.final_request_digest_hex@
            &&& before.contexts@.contains_key(key1(context_id)) ==> c.object_secret
                == before.contexts@[key1(context_id)].object_secret && c.created_at
                == before.contexts@[key1(context_id)].created_at
            &&& !before.contexts@.contains_key(key1(context_id)) ==> c.object_secret is Some
                && c.object_secret->0@ == plan.wrapped_secret@ && c.realm_ref@ == request.realm@
                && c.attempt_ref@ == request.attempt_id@ && c.created_at@ == at
            &&& after.attempts == before.attempts
            &&& after.consumptions == before.consumptions
            &&& after.disclosures == before.disclosures
            &&& after_journal.events == journal.events.push(after_journal.events.last())
            &&& after_journal.events.last().kind is ModelEffectPrepared
            &&& after_journal.events.last().resource_ref == new_effect_id
            &&& after_journal.events.last().once
        },
        context_erased(before, context_id) ==> r is Err,
{
    if r is Ok && !r->Ok_0.already_existed {
        let e = after.effects.rows@.last();
        crate::table::table_pushed(before.effects, after.effects, e);
    }
}

/// A plan is asked for exactly the call: its texts and its bound on what comes
/// back, over the profile, the binding and the disclosure at hand, for the act's
/// own key, with the secret of a context that stands already.
pub proof fn a_plan_is_asked_for_the_call<T: Fn(&str) -> String>(
    ask: PlanAsk,
    effect_id: Seq<char>,
    context_id: Seq<char>,
    request: CompleteRequest<'_>,
    act: ActAuthorization,
    over: Over<'_>,
    v: Invocation,
    source: Option<JsonView>,
    secret: Option<Seq<u8>>,
    hash: T,
)
    requires
        asks_plan(ask, effect_id, context_id, request, act, over, v, source, secret, hash),
    ensures
        ask.prompt@ == request.prompt@,
        ask.system is Some <==> request.system is Some,
        request.system is Some ==> ask.system->0@ == request.system->0@,
        ask.max_output_tokens == request.max_output_tokens,
        ask.classification_ref@ == request.classification_ref@,
        ask.attempt_id@ == request.attempt_id@,
        ask.fence_epoch == request.fence_epoch,
        ask.effect_id@ == effect_id,
        ask.context_id@ == context_id,
        ask.execution_key@ == act.stable_execution_key@,
        ask.subject_digest@ == act.subject_digest@,
        hashed(hash, act.act_intent_ref@, ask.act_intent_ref_digest@),
        ask.invocation_id@ == v.invocation_id@,
        ask.provider_binding_ref@ == over.binding.model_provider_binding_id@,
        ask.provider_binding_revision == over.binding.revision,
        ask.provider_binding_digest@ == over.binding.digest@,
        ask.model_profile_ref@ == over.profile.model_profile_id@,
        ask.model_profile_revision == over.profile.revision,
        ask.model_profile_digest@ == over.profile.digest@,
        ask.adapter_version@ == over.profile.adapter_version@,
        ask.disclosure_id@ == over.disclosure.disclosure_id@,
        ask.disclosure_digest@ == over.disclosure.digest@,
        ask.created_at@ == over.disclosure.created_at@,
        ask.standing_secret is Some <==> secret is Some,
        secret is Some ==> ask.standing_secret->0@ == secret->0,
        ask.byom_source is Some <==> source is Some,
        source is Some ==> ask.byom_source->0@ == source->0,
{
}

/// A receipt is taken once for its execution key, as byom gave it, and not spent
/// yet; asked for again, the one that stands is taken.
pub proof fn a_receipt_is_kept_as_given(
    before: Broker,
    after: Broker,
    eps: Episodes,
    stable_binding_key: Option<&str>,
    execution_key: Seq<char>,
    effect_id: Seq<char>,
    answer: ReceiptAnswer,
    new_consumption_id: Seq<char>,
    at: Seq<char>,
    r: Result<usize, Problem>,
)
    requires
        before.wf(),
        after.wf(),
        receipt_outcome(
            before,
            after,
            eps,
            stable_binding_key,
            execution_key,
            effect_id,
            answer,
            new_consumption_id,
            at,
            r,
        ),
    ensures
        r is Err ==> after == before,
        stable_binding_key is Some && !eps.bindings@.contains_key(key1(stable_binding_key->0@))
            ==> r is Err,
        !episode_missing(eps, stable_binding_key) && receipt_stored(before, execution_key)
            ==> r is Ok && after == before && before.consumptions.rows@[r->Ok_0 as int].execution_key@
            == execution_key,
        r is Ok && !receipt_stored(before, execution_key) ==> {
            let c = after.consumptions@[key1(new_consumption_id)];
            let receipt = answer->Receipt_0;
            &&& answer is Receipt
            &&& after.consumptions.rows@[r->Ok_0 as int] == c
            &&& c.consumption_id@ == new_consumption_id
            &&& c.effect_id@ == effect_id
            &&& c.execution_key@ == receipt.execution_key@
            &&& c.owner_endpoint_ref@ == receipt.owner_endpoint_ref@
            &&& c.owner_intent_ref@ == receipt.owner_intent_ref@
            &&& c.owner_receipt_ref@ == receipt.owner_receipt_ref@
            &&& receipt.owner_receipt_digest is Some ==> c.owner_receipt_digest@
                == receipt.owner_receipt_digest->0@
            &&& receipt.owner_receipt_digest is None ==> c.owner_receipt_digest@.len() == 0
            &&& c.mandate_use_ref@ == receipt.mandate_use_ref@
            &&& c.receipt@ == receipt.record@
            &&& c.replayed == receipt.replayed
            &&& c.permit@.len() == 0
            &&& c.consumed_at@ == at
            &&& !c.spent
        },
        after.effects == before.effects,
        after.attempts == before.attempts,
        after.reports == before.reports,
        after.disclosures == before.disclosures,
        after.contexts == before.contexts,
{
    if r is Ok && !receipt_stored(before, execution_key) {
        let c = after.consumptions.rows@.last();
        crate::table::table_pushed(before.consumptions, after.consumptions, c);
    }
}

/// What a permit that is not honored is refused as: a stale fence as a stale
/// lease; one that does not fit what was asked as a stale revision; none, a spent
/// or expired one as forbidden; a malformed one as unavailable.
pub proof fn a_permit_is_refused_as_what_it_lacks(e: PermitError)
    ensures
        permit_kind(e) is StaleLease <==> e is StaleFence,
        permit_kind(e) is Unavailable <==> e is Malformed,
        permit_kind(e) is Internal <==> e is UnkeyedProvenance || e is Unattestable,
        permit_kind(e) is Forbidden <==> e is NoPermit || e is SpentPermit || e is NotOneShot
            || e is Expired || e is UnreadableExpiry,
        permit_kind(e) is StaleRevision <==> e is WrongExecutionKey || e is WrongAudience || e
            is SubjectMismatch || e is DisclosureMismatch || e is EpisodeMismatch || e is Unbound
            || e is WrongEndpoint,
{
}

/// A permit that was granted is kept with its consumption, nothing else of it
/// changed, and announced; one that was not changes nothing.
pub proof fn a_permit_is_kept_with_its_consumption(
    before: Broker,
    after: Broker,
    journal: JournalView,
    after_journal: JournalView,
    consumption_id: Seq<char>,
    effect_id: Seq<char>,
    gate: Result<Permit, (PermitError, String)>,
    r: Result<(), Problem>,
    other: Seq<char>,
)
    requires
        permit_outcome(
            before,
            after,
            journal,
            after_journal,
            consumption_id,
            effect_id,
            gate,
            r,
        ),
    ensures
        r is Ok <==> gate is Ok && before.consumptions@.contains_key(key1(consumption_id)),
        r is Err ==> after == before && after_journal == journal,
        r is Err && before.consumptions@.contains_key(key1(consumption_id)) ==> r->Err_0@.kind
            == permit_kind((gate->Err_0).0),
        r is Ok ==> {
            let b = before.consumptions@[key1(consumption_id)];
            let a = after.consumptions@[key1(consumption_id)];
            &&& a.permit == gate->Ok_0.record
            &&& a.spent == b.spent
            &&& a.execution_key == b.execution_key
            &&& a.receipt == b.receipt
            &&& a.effect_id == b.effect_id
            &&& after_journal.events == journal.events.push(after_journal.events.last())
            &&& after_journal.events.last().kind is ModelEffectAuthorized
            &&& after_journal.events.last().resource_ref == effect_id
        },
        other != consumption_id && before.consumptions@.contains_key(key1(other))
            ==> after.consumptions@[key1(other)] == before.consumptions@[key1(other)],
        after.effects == before.effects,
        after.attempts == before.attempts,
{
    assert(key1(other).0 == other);
    assert(key1(consumption_id).0 == consumption_id);
}

/// The attempts of an effect are counted each once.
pub proof fn each_attempt_counts(rows: Seq<EffectAttempt>, effect_id: Seq<char>, n: int)
    requires
        0 <= n <= rows.len(),
    ensures
        count_attempts(rows, effect_id, n) == rows.take(n).filter(
            |a: EffectAttempt| a.effect_id@ == effect_id,
        ).len(),
        count_attempts(rows, effect_id, n) > 0 <==> exists|i: int|
            0 <= i < n && (#[trigger] rows[i]).effect_id@ == effect_id,
    decreases n,
{
    reveal(Seq::filter);
    if n > 0 {
        each_attempt_counts(rows, effect_id, n - 1);
        assert(rows.take(n).drop_last() =~= rows.take(n - 1));
        assert(rows.take(n).last() == rows[n - 1]);
    } else {
        assert(rows.take(n) =~= Seq::<EffectAttempt>::empty());
    }
}

/// What a permit is held against is this effect and this exchange: its key and
/// digests, the audience and endpoint of the wire, the fences of the episode that
/// it runs in, the origin that its profile is bound to, and whether an attempt of
/// it was made already.
pub proof fn a_permit_is_held_against_the_effect(
    x: Expectation,
    broker: Broker,
    effect: Effect,
    execution_key: Seq<char>,
    bound: Option<&EpisodeBinding>,
    wire: Wire,
    to: Destination<'_>,
)
    requires
        expects(x, broker, effect, execution_key, bound, wire, to),
    ensures
        x.execution_key@ == execution_key,
        x.subject_digest@ == effect.subject_digest@,
        x.disclosure_digest@ == effect.disclosure_digest@,
        x.driver_audience@ == wire.audience@,
        x.endpoint_incarnation@ == wire.expected.endpoint_incarnation@,
        x.recovery_epoch == wire.expected.recovery_epoch,
        x.already_spent <==> exists|i: int|
            0 <= i < broker.attempts.rows@.len() && (#[trigger] broker.attempts.rows@[i]).effect_id@
                == effect.effect_id@,
        ({
            let p = to.providers.profiles@[key1(to.model_profile_ref@)];
            let b = to.providers.bindings@[key1(p.provider_binding_ref@)];
            x.bound_host@ == b.endpoint_host@ && x.bound_port == b.endpoint_port
        }),
        x.episode is Some <==> bound is Some && to.fence_digest is Some,
        x.episode is Some ==> {
            &&& x.episode->0.episode_ref@ == bound->0.episode_ref@
            &&& x.episode->0.fence_digest@ == to.fence_digest->0@
            &&& x.episode->0.byom_fence_epoch == bound->0.fences.byom
            &&& x.episode->0.kovee_invocation_fence == bound->0.fences.kovee
        },
{
    each_attempt_counts(
        broker.attempts.rows@,
        effect.effect_id@,
        broker.attempts.rows@.len() as int,
    );
}

/// A consumption can be claimed by the key that it was made for, once; claiming
/// spends it and touches nothing else.
pub proof fn a_claim_spends_one_use(
    broker: Broker,
    broker_after: Broker,
    consumption_id: Seq<char>,
    execution_key: Seq<char>,
    r: Claim,
    broker_again: Broker,
    again: Claim,
    key2: Seq<char>,
    other: Seq<char>,
)
    requires
        claim_outcome(broker, broker_after, consumption_id, execution_key, r),
        claim_outcome(broker_after, broker_again, consumption_id, key2, again),
    ensures
        r is Claimed <==> {
            &&& broker.consumptions@.contains_key(key1(consumption_id))
            &&& broker.consumptions@[key1(consumption_id)].execution_key@ == execution_key
            &&& !broker.consumptions@[key1(consumption_id)].spent
        },
        r is Claimed ==> again is AlreadySpent,
        r is Claimed ==> broker_after.consumptions@[key1(consumption_id)].spent,
        r is Claimed ==> broker_after.consumptions@[key1(consumption_id)].permit
            == broker.consumptions@[key1(consumption_id)].permit,
        r is AlreadySpent ==> broker_after == broker,
        again is AlreadySpent ==> broker_again == broker_after,
        other != consumption_id && broker.consumptions@.contains_key(key1(other))
            ==> broker_after.consumptions@[key1(other)] == broker.consumptions@[key1(other)],
        broker_after.attempts == broker.attempts,
        broker_after.effects == broker.effects,
{
    assert(key1(other).0 == other);
    assert(key1(consumption_id).0 == consumption_id);
}

/// A dispatch begins with an attempt on record: of its effect and its consumption,
/// the next in number, with nothing known of what comes back. It needs a resolved
/// credential.
pub proof fn a_dispatch_begins_on_record<Z>(
    broker: Broker,
    broker_after: Broker,
    journal: JournalView,
    journal_after: JournalView,
    effect_id: Seq<char>,
    consumption_id: Seq<char>,
    credential: CredentialAnswer<Z>,
    attempt_id: Seq<char>,
    transport_profile: Seq<char>,
    at: Seq<char>,
    r: Result<u64, Problem>,
)
    requires
        broker.wf(),
        broker_after.wf(),
        begin_outcome(
            broker,
            broker_after,
            journal,
            journal_after,
            effect_id,
            consumption_id,
            credential,
            attempt_id,
            transport_profile,
            at,
            r,
        ),
    ensures
        r is Ok <==> {
            &&& credential is Resolved
            &&& !broker.attempts@.contains_key(key1(attempt_id))
            &&& broker.effects@.contains_key(key1(effect_id))
        },
        r is Err ==> broker_after == broker && journal_after == journal,
        r is Ok ==> {
            let a = broker_after.attempts@[key1(attempt_id)];
            &&& broker_after.attempts@.contains_key(key1(attempt_id))
            &&& a.effect_id@ == effect_id
            &&& a.consumption_ref@ == consumption_id
            &&& a.transport_profile@ == transport_profile
            &&& a.started_at@ == at
            &&& a.state is Dispatching
            &&& !a.retry_frozen
            &&& a.usage is None
            &&& a.completed_at is None
            &&& a.response_digest is None
            &&& a.external_ref is None
            &&& r->Ok_0 == a.attempt_ordinal
            &&& a.attempt_ordinal == broker.attempts.rows@.filter(
                |x: EffectAttempt| x.effect_id@ == effect_id,
            ).len() + 1
            &&& broker_after.effects@[key1(effect_id)].state is Dispatching
            &&& broker_after.effects@[key1(effect_id)].execution_key
                == broker.effects@[key1(effect_id)].execution_key
            &&& broker_after.consumptions == broker.consumptions
            &&& journal_after.events == journal.events.push(journal_after.events.last())
            &&& journal_after.events.last().kind is ModelEffectDispatching
            &&& journal_after.events.last().resource_ref == effect_id
        },
{
    if r is Ok {
        let a = broker_after.attempts.rows@.last();
        crate::table::table_pushed(broker.attempts, broker_after.attempts, a);
        let rows = broker.attempts.rows@;
        each_attempt_counts(rows, effect_id, rows.len() as int);
        assert(rows.take(rows.len() as int) =~= rows);
    }
}

/// An exchange that came back is kept as it came: the attempt and the effect are in
/// its state, with what it used and what it gave; only an ambiguous one freezes the
/// attempt. It is announced as completed, ambiguous or failed.
pub proof fn an_exchange_is_kept_as_it_came(
    broker: Broker,
    broker_after: Broker,
    journal: JournalView,
    journal_after: JournalView,
    effect_id: Seq<char>,
    attempt_id: Seq<char>,
    outcome: Outcome,
    at: Seq<char>,
    other: Seq<char>,
)
    requires
        finish_outcome(
            broker,
            broker_after,
            journal,
            journal_after,
            effect_id,
            attempt_id,
            outcome,
            at,
        ),
    ensures
        broker.attempts@.contains_key(key1(attempt_id)) ==> {
            let b = broker.attempts@[key1(attempt_id)];
            let a = broker_after.attempts@[key1(attempt_id)];
            &&& a.state == outcome.state
            &&& a.retry_frozen <==> outcome.state is Ambiguous
            &&& a.usage == Some(outcome.usage)
            &&& a.latency_ms == Some(outcome.latency_ms)
            &&& a.external_ref == outcome.external_ref
            &&& a.response_digest == outcome.response_digest
            &&& a.observation == outcome.observation
            &&& a.completed_at is Some
            &&& a.completed_at->0@ == at
            &&& a.effect_id == b.effect_id
            &&& a.attempt_ordinal == b.attempt_ordinal
            &&& a.consumption_ref == b.consumption_ref
            &&& a.started_at == b.started_at
        },
        broker.effects@.contains_key(key1(effect_id)) ==> broker_after.effects@[key1(
            effect_id,
        )].state == outcome.state,
        other != attempt_id && broker.attempts@.contains_key(key1(other))
            ==> broker_after.attempts@[key1(other)] == broker.attempts@[key1(other)],
        other != effect_id && broker.effects@.contains_key(key1(other))
            ==> broker_after.effects@[key1(other)] == broker.effects@[key1(other)],
        broker_after.consumptions == broker.consumptions,
        journal_after.events == journal.events.push(journal_after.events.last()),
        journal_after.events.last().resource_ref == effect_id,
        journal_after.events.last().kind is ModelEffectCompleted <==> outcome.state is Completed,
        journal_after.events.last().kind is ModelEffectAmbiguous <==> outcome.state is Ambiguous,
        journal_after.events.last().kind is ModelEffectFailed <==> outcome.state !is Completed
            && outcome.state !is Ambiguous,
{
    assert(key1(other).0 == other);
    assert(key1(attempt_id).0 == attempt_id);
    assert(key1(effect_id).0 == effect_id);
}

/// A charge is all that was used, up to what was reserved; a use of nothing is not
/// measured.
pub proof fn a_charge_is_the_use_up_to_its_cap(usage: Usage, reserved: nat)
    ensures
        capped(usage, reserved) <= reserved,
        capped(usage, reserved) <= usage.input_tokens + usage.output_tokens,
        capped(usage, reserved) == reserved || capped(usage, reserved) == usage.input_tokens
            + usage.output_tokens,
        measured(usage) <==> usage.input_tokens + usage.output_tokens > 0,
{
}

/// A report stands on record before byom is asked: of the attempt and the episode
/// it was made in, with the use as it was measured; one that stands already is
/// taken as it stands.
pub proof fn a_report_stands_before_it_is_asked(
    before: Broker,
    after: Broker,
    effect_id: Seq<char>,
    attempt_id: Seq<char>,
    episode: Seq<char>,
    usage: Usage,
    cap: u64,
    at: Seq<char>,
    a: ReportAnswer,
    answered: Broker,
    told_at: Seq<char>,
    applied: Broker,
)
    requires
        report_opened(before, after, effect_id, attempt_id, episode, usage, cap, at),
        report_answered(after, answered, effect_id, a, told_at),
        report_applied(answered, applied, effect_id),
    ensures
        after.reports@.contains_key(report_key(effect_id)),
        before.reports@.contains_key(report_key(effect_id)) ==> after == before,
        !before.reports@.contains_key(report_key(effect_id)) ==> {
            let u = after.reports@[report_key(effect_id)];
            &&& u.effect_attempt_id@ == attempt_id
            &&& u.episode_ref@ == episode
            &&& u.usage == usage
            &&& u.charge_cap == cap
            &&& u.recorded_at@ == at
            &&& u.answer is None
            &&& !u.applied
        },
        ({
            let u = after.reports@[report_key(effect_id)];
            let v = answered.reports@[report_key(effect_id)];
            let w = applied.reports@[report_key(effect_id)];
            &&& v.answer == Some(a)
            &&& v.reported_at is Some
            &&& v.reported_at->0@ == told_at
            &&& v.applied == u.applied
            &&& v.usage == u.usage
            &&& v.charge_cap == u.charge_cap
            &&& w.applied
            &&& w.answer == Some(a)
            &&& w.usage == u.usage
            &&& w.effect_attempt_id == u.effect_attempt_id
        }),
        applied.attempts == before.attempts,
        applied.effects == before.effects,
        applied.consumptions == before.consumptions,
{
}

/// A reservation is settled with the figure that byom charged, and with the cap
/// where byom gave none; it is not touched where byom did not settle, and the
/// report is applied in either way.
pub proof fn a_settlement_takes_byoms_figure<
    Q: FnOnce(&Reservation, &str, u64, u64, Meter) -> Result<u64, String>,
    G: Fn(&str, &Json) -> Keyed,
    S: Fn(&Reservation) -> Result<String, String>,
>(
    before: Broker,
    after: Broker,
    res: Reservations,
    res_after: Reservations,
    journal: JournalView,
    after_journal: JournalView,
    k: Key,
    effect_id: Seq<char>,
    measure: Q,
    keyed: G,
    seal: S,
    r: Result<bool, Problem>,
)
    requires
        number_applied(
            before,
            after,
            res,
            res_after,
            journal,
            after_journal,
            k,
            effect_id,
            measure,
            keyed,
            seal,
            r,
        ),
    ensures
        r is Ok ==> r->Ok_0 && after.reports@[report_key(effect_id)].applied,
        r is Err ==> after == before,
        !before.reports@[report_key(effect_id)].answer->0.settled || !res.table@.contains_key(k)
            ==> r is Ok && res_after == res && after_journal == journal,
        before.reports@[report_key(effect_id)].answer->0.settled && res.table@.contains_key(k)
            ==> exists|settled: Result<Settlement, Problem>, charged: u64|
            {
                &&& #[trigger] settle_done(
                    res,
                    res_after,
                    journal,
                    after_journal,
                    k.0,
                    "unit"@,
                    charged,
                    Meter::TrustedBroker,
                    measure,
                    "kovee-model-settle-"@ + effect_id,
                    keyed,
                    seal,
                    settled,
                )
                &&& before.reports@[report_key(effect_id)].answer->0.charged is Some ==> charged
                    == before.reports@[report_key(effect_id)].answer->0.charged->0
                &&& before.reports@[report_key(effect_id)].answer->0.charged is None ==> charged
                    == before.reports@[report_key(effect_id)].charge_cap
                &&& r is Ok <==> settled is Ok
            },
{
    let u = before.reports@[report_key(effect_id)];
    let a = u.answer->0;
    let charged = match a.charged {
        Some(n) => n,
        None => u.charge_cap,
    };
    if a.settled && res.table@.contains_key(k) {
        assert(settled_with(
            before,
            after,
            res,
            res_after,
            journal,
            after_journal,
            k,
            effect_id,
            charged,
            measure,
            keyed,
            seal,
            r,
        ));
    }
}

/// Nothing is reported of a call outside an episode or of one that used nothing.
pub proof fn nothing_used_nothing_reported<
    M: FnOnce(&Broker, &Json) -> Result<ReportAnswer, Problem>,
    Q: FnOnce(&Reservation, &str, u64, u64, Meter) -> Result<u64, String>,
    G: Fn(&str, &Json) -> Keyed,
    S: Fn(&Reservation) -> Result<String, String>,
>(
    before: Broker,
    after: Broker,
    res: Reservations,
    res_after: Reservations,
    journal: JournalView,
    after_journal: JournalView,
    eps: Episodes,
    stable_binding_key: Option<&str>,
    realm: Seq<char>,
    wire: Wire,
    effect_id: Seq<char>,
    attempt_id: Seq<char>,
    usage: Usage,
    meter: M,
    measure: Q,
    keyed: G,
    seal: S,
    at: Seq<char>,
    r: Result<bool, Problem>,
)
    requires
        usage_metered(
            before,
            after,
            res,
            res_after,
            journal,
            after_journal,
            eps,
            stable_binding_key,
            realm,
            wire,
            effect_id,
            attempt_id,
            usage,
            meter,
            measure,
            keyed,
            seal,
            at,
            r,
        ),
    ensures
        usage.input_tokens == 0 && usage.output_tokens == 0 || stable_binding_key is None ==> {
            &&& r == Ok::<bool, Problem>(false)
            &&& after == before
            &&& res_after == res
            &&& after_journal == journal
        },
        usage.input_tokens + usage.output_tokens > 0 && stable_binding_key is Some
            && !eps.bindings@.contains_key(key1(stable_binding_key->0@)) ==> r is Err && after
            == before && res_after == res,
        r == Ok::<bool, Problem>(true) ==> after.reports@.contains_key(report_key(effect_id)),
{
}

/// After a crash every attempt that was in flight is ambiguous and frozen, and so
/// is its effect; its consumption is spent. As many were in flight as are reported,
/// and each is announced. Everything else stays.
pub proof fn a_crash_leaves_nothing_in_flight(
    broker: Broker,
    broker_after: Broker,
    journal: JournalView,
    journal_after: JournalView,
    at: Seq<char>,
    r: usize,
    i: int,
    j: int,
)
    requires
        broker.wf(),
        recover_outcome(broker, broker_after, journal, journal_after, at, r),
        0 <= i < broker.attempts.rows@.len(),
        0 <= j < broker.consumptions.rows@.len(),
    ensures
        ({
            let b = broker.attempts.rows@[i];
            let a = broker_after.attempts.rows@[i];
            &&& a.state !is Dispatching
            &&& b.state !is Dispatching ==> a == b
            &&& b.state is Dispatching ==> {
                &&& a.state is Ambiguous
                &&& a.retry_frozen
                &&& a.completed_at is Some
                &&& a.completed_at->0@ == at
                &&& a.observation is Some
                &&& a.effect_id == b.effect_id
                &&& a.consumption_ref == b.consumption_ref
                &&& a.attempt_ordinal == b.attempt_ordinal
                &&& broker_after.effects@[key1(b.effect_id@)].state is Ambiguous
            }
        }),
        ({
            let b = broker.consumptions.rows@[j];
            let a = broker_after.consumptions.rows@[j];
            &&& b.spent ==> a.spent
            &&& broker.attempts.rows@[i].state is Dispatching
                && broker.attempts.rows@[i].consumption_ref@ == b.consumption_id@ ==> a.spent
            &&& a.spent && !b.spent ==> in_flight(broker.attempts.rows@, b.consumption_id@)
            &&& a.execution_key == b.execution_key
            &&& a.permit == b.permit
        }),
        r == broker.attempts.rows@.filter(|a: EffectAttempt| a.state is Dispatching).len(),
        journal_after.events.len() == journal.events.len() + r,
        broker_after.reports == broker.reports,
        broker_after.disclosures == broker.disclosures,
        broker_after.contexts == broker.contexts,
{
    let rows = broker.attempts.rows@;
    assert(swept_attempt(rows[i], broker_after.attempts.rows@[i], at));
    assert(swept_consumption(
        broker.consumptions.rows@[j],
        broker_after.consumptions.rows@[j],
        rows,
    ));
    each_flight_counts(journal, rows, rows.len() as int);
    assert(rows.take(rows.len() as int) =~= rows);
    if rows[i].state is Dispatching {
        let k = key1(rows[i].effect_id@);
        assert(broker.effects@.contains_key(k));
        let m = crate::table::table_row(broker.effects, k);
        assert(key1(rows[i].effect_id@).0 == broker.effects.rows@[m].key().0);
        assert(left_dispatching(rows, broker.effects@[k].effect_id@, rows.len() as int));
    }
}

proof fn each_flight_counts(j: JournalView, rows: Seq<EffectAttempt>, n: int)
    requires
        0 <= n <= rows.len(),
    ensures
        dispatching_count(rows, n) == rows.take(n).filter(
            |a: EffectAttempt| a.state is Dispatching,
        ).len(),
        sweep_journal(j, rows, n).events.len() == j.events.len() + dispatching_count(rows, n),
    decreases n,
{
    reveal(Seq::filter);
    if n > 0 {
        each_flight_counts(j, rows, n - 1);
        assert(rows.take(n).drop_last() =~= rows.take(n - 1));
        assert(rows.take(n).last() == rows[n - 1]);
    } else {
        assert(rows.take(n) =~= Seq::<EffectAttempt>::empty());
    }
}

/// An ambiguous attempt can be resolved to completed or failed, once: it and its
/// effect are then in that state, no longer frozen, with the observation that was
/// made; its use stays spent.
pub proof fn an_ambiguous_attempt_is_resolved_once(
    broker: Broker,
    broker_after: Broker,
    journal: JournalView,
    journal_after: JournalView,
    effect_attempt_id: Seq<char>,
    resolution: EffectState,
    observation: Seq<char>,
    r: Result<(), Problem>,
    broker_again: Broker,
    journal_again: JournalView,
    resolution2: EffectState,
    observation2: Seq<char>,
    again: Result<(), Problem>,
)
    requires
        reconcile_outcome(
            broker,
            broker_after,
            journal,
            journal_after,
            effect_attempt_id,
            resolution,
            observation,
            r,
        ),
        reconcile_outcome(
            broker_after,
            broker_again,
            journal_after,
            journal_again,
            effect_attempt_id,
            resolution2,
            observation2,
            again,
        ),
    ensures
        r is Ok <==> {
            &&& resolution is Completed || resolution is Failed
            &&& broker.attempts@.contains_key(key1(effect_attempt_id))
            &&& broker.attempts@[key1(effect_attempt_id)].state is Ambiguous
        },
        r is Err ==> broker_after == broker && journal_after == journal,
        r is Ok ==> again is Err && broker_again == broker_after,
        r is Ok ==> {
            let b = broker.attempts@[key1(effect_attempt_id)];
            let a = broker_after.attempts@[key1(effect_attempt_id)];
            &&& a.state == resolution
            &&& !a.retry_frozen
            &&& a.reconciliation is Some
            &&& a.reconciliation->0@ == observation
            &&& a.observation == b.observation
            &&& a.usage == b.usage
            &&& a.completed_at == b.completed_at
            &&& broker.effects@.contains_key(key1(b.effect_id@))
                ==> broker_after.effects@[key1(b.effect_id@)].state == resolution
            &&& journal_after.events == journal.events.push(journal_after.events.last())
            &&& journal_after.events.last().kind is ModelEffectReconciled
            &&& journal_after.events.last().resource_ref == b.effect_id@
        },
        broker_after.consumptions == broker.consumptions,
{
}

/// An effect is read as it stands.
pub proof fn an_effect_is_read_as_it_stands(row: EffectRow, e: Effect)
    requires
        shows_effect(row, e),
    ensures
        row.effect_id@ == e.effect_id@,
        row.execution_key@ == e.execution_key@,
        row.external_idempotency_key@ == e.external_idempotency_key@,
        row.act_intent_ref@ == e.act_intent_ref@,
        row.disclosure_manifest_ref@ == e.disclosure_manifest_ref@,
        row.provider_context_ref@ == e.provider_context_ref@,
        row.episode_ref is Some <==> e.episode_ref is Some,
        e.episode_ref is Some ==> row.episode_ref->0@ == e.episode_ref->0@,
        e.state is Completed <==> row.state@ == "completed"@,
        e.state is Ambiguous <==> row.state@ == "ambiguous"@,
        e.state is Failed <==> row.state@ == "failed"@,
        e.state is Canceled <==> row.state@ == "canceled"@,
        e.state is Prepared <==> row.state@ == "prepared"@,
        e.state is Dispatching <==> row.state@ == "dispatching"@,
{
    reveal_strlit("prepared");
    reveal_strlit("dispatching");
    reveal_strlit("completed");
    reveal_strlit("ambiguous");
    reveal_strlit("failed");
    reveal_strlit("canceled");
    assert("prepared"@.len() == 8 && "dispatching"@.len() == 11 && "completed"@.len() == 9);
    assert("ambiguous"@.len() == 9 && "failed"@.len() == 6 && "canceled"@.len() == 8);
    assert("prepared"@[0] == 'p' && "canceled"@[0] == 'c');
    assert("completed"@[0] == 'c' && "ambiguous"@[0] == 'a');
}

/// What a provider is asked to be bound with is what was given: its kind and
/// realm, the origin, the claims and the credential's reference; and the profile
/// gets the model and the limits that were given.
pub proof fn a_provider_is_asked_as_given(
    ask: BindingAsk,
    profile: ProfileAsk,
    kind: ProviderKind,
    realm: Seq<char>,
    origin: Origin,
    claims: ProviderClaims,
    credential_secret_ref: Seq<char>,
    model_selector: Seq<char>,
    limits: RequestLimits,
)
    requires
        asks_binding(
            ask,
            kind,
            realm,
            origin,
            terms_of(claims, credential_secret_ref, model_selector, limits),
        ),
        asks_profile(
            profile,
            kind,
            realm,
            terms_of(claims, credential_secret_ref, model_selector, limits),
        ),
    ensures
        ask.realm@ == realm,
        ask.kind == kind,
        ask.origin.host@ == origin.host@,
        ask.origin.port == origin.port,
        ask.claims.region@ == claims.region@,
        ask.claims.retention@ == claims.retention@,
        ask.claims.training_use@ == claims.training_use@,
        ask.credential_secret_ref@ == credential_secret_ref,
        profile.model_selector@ == model_selector,
        profile.limits == limits,
{
}

/// Registering a provider writes its binding and its profile as they were drafted,
/// with the credential's reference and the model that were given. What a
/// registration finds keeps its realm and the time that it came in; a refused one
/// changes nothing.
pub proof fn a_provider_is_registered_as_drafted(
    before: Providers,
    after: Providers,
    realm: Seq<char>,
    kind: ProviderKind,
    terms: Terms,
    origin: Origin,
    binding: Result<BindingDraft, String>,
    profile: Result<ProfileDraft, String>,
    at: Seq<char>,
    r: Result<(), Problem>,
    other: Seq<char>,
)
    requires
        register_outcome(before, after, realm, kind, terms, origin, binding, profile, at, r),
    ensures
        r is Ok <==> binding is Ok && profile is Ok,
        r is Err ==> after == before && r->Err_0@.kind is Invalid,
        r is Ok ==> {
            let b = after.bindings@[key1(binding_id_of(kind, realm))];
            let p = after.profiles@[key1(profile_id_of(kind, realm))];
            let d = binding->Ok_0;
            let f = profile->Ok_0;
            &&& after.bindings@.contains_key(key1(binding_id_of(kind, realm)))
            &&& after.profiles@.contains_key(key1(profile_id_of(kind, realm)))
            &&& b.endpoint_host@ == origin.host@
            &&& b.endpoint_port == origin.port
            &&& b.credential_secret_ref@ == terms.credential_secret_ref
            &&& b.provider_claims@ == d.provider_claims@
            &&& b.disabled == d.disabled
            &&& b.revision == d.revision
            &&& b.record@ == d.record@
            &&& b.digest@ == d.digest@
            &&& b.updated_at@ == at
            &&& p.model_selector@ == terms.model_selector
            &&& p.adapter_version@ == f.adapter_version@
            &&& p.revision == f.revision
            &&& p.provider_binding_revision == f.provider_binding_revision
            &&& p.record@ == f.record@
            &&& p.digest@ == f.digest@
            &&& p.updated_at@ == at
            &&& !before.bindings@.contains_key(key1(binding_id_of(kind, realm))) ==> {
                &&& b.realm_ref@ == realm
                &&& b.provider_kind == kind
                &&& b.created_at@ == at
            }
            &&& before.bindings@.contains_key(key1(binding_id_of(kind, realm))) ==> b.created_at
                == before.bindings@[key1(binding_id_of(kind, realm))].created_at
            &&& !before.profiles@.contains_key(key1(profile_id_of(kind, realm))) ==> {
                &&& p.realm_ref@ == realm
                &&& p.provider_binding_ref@ == b.model_provider_binding_id@
                &&& p.created_at@ == at
            }
        },
        other != binding_id_of(kind, realm) && before.bindings@.contains_key(key1(other))
            ==> after.bindings@[key1(other)] == before.bindings@[key1(other)],
        other != profile_id_of(kind, realm) && before.profiles@.contains_key(key1(other))
            ==> after.profiles@[key1(other)] == before.profiles@[key1(other)],
{
    assert(key1(other).0 == other);
    assert(key1(binding_id_of(kind, realm)).0 == binding_id_of(kind, realm));
    assert(key1(profile_id_of(kind, realm)).0 == profile_id_of(kind, realm));
}

/// Providers of two kinds, or of two realms, never share a binding or a profile.
pub proof fn a_provider_has_its_own_names(
    kind: ProviderKind,
    realm: Seq<char>,
    kind2: ProviderKind,
    realm2: Seq<char>,
)
    ensures
        kind == kind2 && binding_id_of(kind, realm) == binding_id_of(kind2, realm2) ==> realm
            == realm2,
        kind == kind2 && profile_id_of(kind, realm) == profile_id_of(kind2, realm2) ==> realm
            == realm2,
        binding_id_of(kind, realm) == binding_id_of(kind2, realm2) ==> kind == kind2,
        profile_id_of(kind, realm) == profile_id_of(kind2, realm2) ==> kind == kind2,
        key_variable_of(kind) == key_variable_of(kind2) ==> kind == kind2,
{
    reveal_strlit("mpb-");
    reveal_strlit("mp-");
    reveal_strlit("-");
    reveal_strlit("anthropic");
    reveal_strlit("openai");
    reveal_strlit("ANTHROPIC_API_KEY");
    reveal_strlit("OPENAI_API_KEY");
    assert("ANTHROPIC_API_KEY"@.len() == 17 && "OPENAI_API_KEY"@.len() == 14);
    assert("anthropic"@.len() == 9 && "openai"@.len() == 6);
    assert("anthropic"@[0] == 'a' && "openai"@[0] == 'o');
    assert("mpb-"@.len() == 4 && "mp-"@.len() == 3);
    assert(binding_id_of(kind, realm)[4] == kind.name()[0]);
    assert(binding_id_of(kind2, realm2)[4] == kind2.name()[0]);
    assert(profile_id_of(kind, realm)[3] == kind.name()[0]);
    assert(profile_id_of(kind2, realm2)[3] == kind2.name()[0]);
    if kind == kind2 && binding_id_of(kind, realm) == binding_id_of(kind2, realm2) {
        let n = ("mpb-"@ + kind.name() + "-"@).len() as int;
        let s = binding_id_of(kind, realm);
        assert(realm =~= s.subrange(n, s.len() as int));
        assert(realm2 =~= s.subrange(n, s.len() as int));
    }
    if kind == kind2 && profile_id_of(kind, realm) == profile_id_of(kind2, realm2) {
        let n = ("mp-"@ + kind.name() + "-"@).len() as int;
        let s = profile_id_of(kind, realm);
        assert(realm =~= s.subrange(n, s.len() as int));
        assert(realm2 =~= s.subrange(n, s.len() as int));
    }
}

/// A provider whose key is missing is disabled, with everything else of it kept;
/// one whose key is there is left as it is.
pub proof fn a_missing_key_disables(
    before: Providers,
    after: Providers,
    kind: ProviderKind,
    realm: Seq<char>,
    key_present: bool,
    other: Seq<char>,
)
    requires
        key_checked(before, after, kind, realm, key_present),
    ensures
        key_present ==> after.bindings == before.bindings,
        !key_present && before.bindings@.contains_key(key1(binding_id_of(kind, realm))) ==> {
            let b = before.bindings@[key1(binding_id_of(kind, realm))];
            let a = after.bindings@[key1(binding_id_of(kind, realm))];
            &&& a.disabled
            &&& a.credential_secret_ref == b.credential_secret_ref
            &&& a.endpoint_host == b.endpoint_host
            &&& a.revision == b.revision
            &&& a.digest == b.digest
        },
        other != binding_id_of(kind, realm) && before.bindings@.contains_key(key1(other))
            ==> after.bindings@[key1(other)] == before.bindings@[key1(other)],
        after.profiles == before.profiles,
{
    assert(key1(other).0 == other);
    assert(key1(binding_id_of(kind, realm)).0 == binding_id_of(kind, realm));
}

/// A profile is found in its own realm with the binding that it names there, and
/// nowhere else.
pub proof fn a_profile_is_found_in_its_realm(
    providers: Providers,
    realm: Seq<char>,
    profile_ref: Seq<char>,
    r: Result<(usize, usize), Problem>,
)
    requires
        profile_outcome(providers, realm, profile_ref, r),
        providers.wf(),
    ensures
        r is Ok <==> profile_bound(providers, realm, profile_ref),
        r is Ok ==> {
            let p = providers.profiles.rows@[(r->Ok_0).0 as int];
            let b = providers.bindings.rows@[(r->Ok_0).1 as int];
            &&& p.model_profile_id@ == profile_ref
            &&& p.realm_ref@ == realm
            &&& b.realm_ref@ == realm
            &&& p.provider_binding_ref@ == b.model_provider_binding_id@
        },
{
    if r is Ok {
        let k = key1(profile_ref);
        let i = crate::table::table_row(providers.profiles, k);
        assert(k.0 == providers.profiles.rows@[i].key().0);
        let m = key1(providers.profiles@[k].provider_binding_ref@);
        let j = crate::table::table_row(providers.bindings, m);
        assert(m.0 == providers.bindings.rows@[j].key().0);
    }
}

/// A link of the chain is of its kind, under its reference, at revision one, and
/// its digest is the hash of its own text; items read the same only where name,
/// revision, digest and size do.
pub proof fn a_segment_hashes_its_own_text<T: Fn(&str) -> String>(
    s: Segment,
    kind: SegmentKind,
    reference: Seq<char>,
    text: Seq<char>,
    classification: Seq<char>,
    hash: T,
    a: Seq<DisclosureItem>,
    b: Seq<DisclosureItem>,
    i: int,
)
    requires
        segment_is(s, kind, reference, text, classification, hash),
        items_alike(a, b),
        0 <= i < a.len(),
    ensures
        s.kind == kind,
        s.ref_@ == reference,
        s.revision == 1,
        hashed(hash, text, s.digest@),
        s.classification_ref@ == classification,
        a.len() == b.len(),
        a[i].ref_@ == b[i].ref_@,
        a[i].revision == b[i].revision,
        a[i].digest@ == b[i].digest@,
        a[i].size == b[i].size,
{
    assert(a[i].ref_@ == b[i].ref_@);
}

/// An effect is the one of its execution key where there is one, and a new one
/// only where there is none.
pub proof fn an_effect_is_the_one_of_its_key(
    broker: Broker,
    key: Seq<char>,
    fresh: Seq<char>,
    id: Seq<char>,
    i: int,
)
    requires
        effect_named(broker, key, fresh, id),
    ensures
        of_execution_key(broker.effects.rows@, key, i) ==> exists|j: int|
            #[trigger] of_execution_key(broker.effects.rows@, key, j)
                && broker.effects.rows@[j].effect_id@ == id,
        (forall|j: int| !#[trigger] of_execution_key(broker.effects.rows@, key, j)) ==> id == fresh,
{
}

/// The secret of a context is the one it holds, where it stands and holds one.
pub proof fn a_context_gives_the_secret_it_holds(broker: Broker, id: Seq<char>)
    ensures
        !broker.contexts@.contains_key(key1(id)) ==> secret_of(broker, id) is None,
        broker.contexts@.contains_key(key1(id)) && broker.contexts@[key1(id)].object_secret is None
            ==> secret_of(broker, id) is None && context_erased(broker, id),
        broker.contexts@.contains_key(key1(id)) && broker.contexts@[key1(id)].object_secret is Some
            ==> secret_of(broker, id) == Some(broker.contexts@[key1(id)].object_secret->0@)
            && !context_erased(broker, id),
{
}

/// A plan is asked for of the call, over the segments of the call, and its answer
/// is the plan's.
pub proof fn a_plan_is_made_over_the_segments<
    X,
    P: FnOnce(&PlanAsk, &Vec<Segment>) -> PlanAnswer<X>,
    T: Fn(&str) -> String,
>(
    plan: P,
    effect_id: Seq<char>,
    context_id: Seq<char>,
    request: CompleteRequest<'_>,
    act: ActAuthorization,
    over: Over<'_>,
    v: Invocation,
    source: Option<JsonView>,
    secret: Option<Seq<u8>>,
    hash: T,
    segments: Seq<Segment>,
    answer: PlanAnswer<X>,
)
    requires
        plan_made(
            plan,
            effect_id,
            context_id,
            request,
            act,
            over,
            v,
            source,
            secret,
            hash,
            segments,
            answer,
        ),
    ensures
        exists|ask: &PlanAsk, s: &Vec<Segment>|
            {
                &&& #[trigger] plan.ensures((ask, s), answer)
                &&& s@ == segments
                &&& ask.dependency_ref@ == "authdep-model-egress-"@ + request.attempt_id@
                &&& ask.attempt_id@ == request.attempt_id@
                &&& ask.fence_epoch == request.fence_epoch
                &&& ask.invocation_id@ == v.invocation_id@
                &&& ask.disclosure_id@ == over.disclosure.disclosure_id@
                &&& ask.model_profile_ref@ == over.profile.model_profile_id@
                &&& ask.provider_binding_ref@ == over.binding.model_provider_binding_id@
            },
{
    let (ask, s) = choose|ask: &PlanAsk, s: &Vec<Segment>|
        {
            &&& asks_plan(
                *ask,
                effect_id,
                context_id,
                request,
                act,
                over,
                v,
                source,
                secret,
                hash,
            )
            &&& s@ == segments
            &&& #[trigger] plan.ensures((ask, s), answer)
        };
    assert(plan.ensures((ask, s), answer));
}

/// The context of a call is identified over the segments of that call.
pub proof fn a_context_is_identified_over_its_segments<
    T: Fn(&str) -> String + Copy,
    I: Fn(&Vec<DisclosureItem>) -> Json + Copy,
    W: Fn(&Vec<Segment>) -> Json + Copy,
    D: Fn(&str, &Json) -> String + Copy,
>(
    making: Making<T, I, W, D>,
    request: CompleteRequest<'_>,
    act: ActAuthorization,
    over: Over<'_>,
    segments: Seq<Segment>,
    id: Seq<char>,
)
    requires
        context_identified(making, request, act, over, segments, id),
    ensures
        segments_of(request, over.profile.adapter_version@, making.hash, segments),
        exists|v: &Vec<Segment>, doc: Json|
            v@ == segments && #[trigger] making.segments.ensures((v,), doc),
{
    let (v, doc) = choose|v: &Vec<Segment>, doc: Json|
        v@ == segments && #[trigger] making.segments.ensures((v,), doc);
    assert(making.segments.ensures((v,), doc));
}

/// A call whose source is refused is not prepared, and says why.
pub proof fn a_refused_source_prepares_nothing<
    T: Fn(&str) -> String + Copy,
    I: Fn(&Vec<DisclosureItem>) -> Json + Copy,
    W: Fn(&Vec<Segment>) -> Json + Copy,
    D: Fn(&str, &Json) -> String + Copy,
    X,
    P: FnOnce(&PlanAsk, &Vec<Segment>) -> PlanAnswer<X>,
>(
    before: Broker,
    after: Broker,
    journal: JournalView,
    after_journal: JournalView,
    eps: Episodes,
    inv: Invocations,
    request: CompleteRequest<'_>,
    act: ActAuthorization,
    over: Over<'_>,
    source: SourceFields,
    new_effect_id: Seq<char>,
    making: Making<T, I, W, D>,
    plan: P,
    at: Seq<char>,
    r: Result<Prepared<X>, Problem>,
)
    requires
        prepare_done(
            before,
            after,
            journal,
            after_journal,
            eps,
            inv,
            request,
            act,
            over,
            source,
            new_effect_id,
            making,
            plan,
            at,
            r,
        ),
    ensures
        source_refusal(eps, request.stable_binding_key, source) is Some ==> {
            &&& r is Err
            &&& Some(r->Err_0@) == source_refusal(eps, request.stable_binding_key, source)
            &&& after == before
            &&& after_journal == journal
        },
        r is Ok ==> source_refusal(eps, request.stable_binding_key, source) is None,
{
}

/// Recording a permit keeps every consumption where it is, under its name and its
/// execution key, and moves nothing else of the broker.
pub proof fn a_recorded_permit_moves_no_consumption(
    before: Broker,
    after: Broker,
    journal: JournalView,
    after_journal: JournalView,
    consumption_id: Seq<char>,
    effect_id: Seq<char>,
    gate: Result<Permit, (PermitError, String)>,
    r: Result<(), Problem>,
    i: int,
)
    requires
        recording_outcome(
            before,
            after,
            journal,
            after_journal,
            consumption_id,
            effect_id,
            gate,
            r,
        ),
        0 <= i < before.consumptions.rows@.len(),
    ensures
        after.consumptions.rows@.len() == before.consumptions.rows@.len(),
        after.consumptions.rows@[i].execution_key == before.consumptions.rows@[i].execution_key,
        after.consumptions.rows@[i].consumption_id == before.consumptions.rows@[i].consumption_id,
        after.effects == before.effects,
        after.attempts == before.attempts,
        after.reports == before.reports,
        after.disclosures == before.disclosures,
        after.contexts == before.contexts,
{
    assert(after.consumptions.rows@[i].execution_key == before.consumptions.rows@[i].execution_key);
}

/// A claim, a begun and a finished dispatch leave what they are not about: the
/// claim all but the consumptions; the dispatch the consumptions too, and both
/// reports, disclosures and contexts.
pub proof fn a_dispatch_leaves_the_rest(
    before: Broker,
    claimed: Broker,
    begun: Broker,
    finished: Broker,
    consumption_id: Seq<char>,
    execution_key: Seq<char>,
    c: Claim,
    attempt_id: Seq<char>,
    effect_id: Seq<char>,
    profile: Seq<char>,
    outcome: Outcome,
    at: Seq<char>,
)
    requires
        claim_outcome(before, claimed, consumption_id, execution_key, c),
        effect_begun(
            before,
            begun,
            effect_id,
            execution_key,
            consumption_id,
            attempt_id,
            profile,
            at,
        ),
        effect_dispatched(
            before,
            finished,
            effect_id,
            execution_key,
            consumption_id,
            attempt_id,
            profile,
            outcome,
            at,
        ),
    ensures
        claimed.effects == before.effects,
        claimed.attempts == before.attempts,
        claimed.reports == before.reports,
        claimed.disclosures == before.disclosures,
        claimed.contexts == before.contexts,
        begun.reports == before.reports,
        begun.disclosures == before.disclosures,
        begun.contexts == before.contexts,
        finished.reports == before.reports,
        finished.disclosures == before.disclosures,
        finished.contexts == before.contexts,
        ({
            let a = begun.attempts@[key1(attempt_id)];
            &&& begun.attempts@ == before.attempts@.insert(key1(attempt_id), a)
            &&& a.effect_attempt_id@ == attempt_id
            &&& a.effect_id@ == effect_id
            &&& a.consumption_ref@ == consumption_id
            &&& a.transport_profile@ == profile
            &&& a.state is Dispatching
            &&& !a.retry_frozen
            &&& a.external_ref is None
            &&& a.response_digest is None
            &&& a.usage is None
            &&& a.latency_ms is None
            &&& a.observation is None
            &&& a.reconciliation is None
            &&& a.completed_at is None
            &&& a.started_at@ == at
            &&& effect_state_set(
                before.effects,
                begun.effects,
                effect_id,
                EffectState::Dispatching,
            )
        }),
        finished.attempts@ == before.attempts@.insert(
            key1(attempt_id),
            finished.attempts@[key1(attempt_id)],
        ),
        effect_state_set(before.effects, finished.effects, effect_id, outcome.state),
        begun.consumptions@ == finished.consumptions@,
        c is Claimed ==> begun.consumptions@ == claimed.consumptions@
            && begun.consumptions@[key1(consumption_id)].spent,
        c is AlreadySpent ==> begun.consumptions@ == before.consumptions@,
{
}

/// A report moves reports alone.
pub proof fn a_report_moves_reports_alone(before: Broker, after: Broker)
    requires
        all_but_reports(before, after),
    ensures
        after.effects == before.effects,
        after.attempts == before.attempts,
        after.consumptions == before.consumptions,
        after.disclosures == before.disclosures,
        after.contexts == before.contexts,
{
}

/// A report goes by the effect it is of.
pub proof fn a_report_goes_by_its_effect(
    u: UsageReport,
    effect_id: Seq<char>,
    attempt_id: Seq<char>,
    episode: Seq<char>,
    usage: Usage,
    cap: u64,
    at: Seq<char>,
)
    requires
        pending_report(u, effect_id, attempt_id, episode, usage, cap, at),
    ensures
        u.stable_report_key@ == report_key_of(effect_id),
        u.effect_attempt_id@ == attempt_id,
        u.episode_ref@ == episode,
        u.charge_cap == cap,
        u.usage == usage,
        u.answer is None,
        u.reported_at is None,
        u.recorded_at@ == at,
{
}

/// A provider is asked for under the names of its kind and its realm, and its
/// profile is registered under the name it was asked for under.
pub proof fn a_provider_is_asked_under_its_names(
    ask: BindingAsk,
    profile: ProfileAsk,
    kind: ProviderKind,
    realm: Seq<char>,
    origin: Origin,
    terms: Terms,
    before: Table<ModelProfile>,
    after: Table<ModelProfile>,
    d: ProfileDraft,
    at: Seq<char>,
)
    requires
        asks_binding(ask, kind, realm, origin, terms),
        asks_profile(profile, kind, realm, terms),
        registered_profile(before, after, kind, realm, terms, d, at),
    ensures
        ask.binding_id@ == binding_id_of(kind, realm),
        ask.terms_ref@ == "terms-"@ + kind.name(),
        profile.profile_id@ == profile_id_of(kind, realm),
        after@.contains_key(key1(profile.profile_id@)),
        after@[key1(profile.profile_id@)].model_profile_id@ == profile.profile_id@,
        after@[key1(profile.profile_id@)].model_selector@ == profile.model_selector@,
{
}

/// Registering records what was built of what was asked.
pub proof fn what_is_registered_was_built<
    O: Fn(ProviderKind) -> Origin + Copy,
    B: Fn(&BindingAsk) -> Result<BindingDraft, String> + Copy,
    F: Fn(&ProfileAsk, &BindingDraft) -> Result<ProfileDraft, String> + Copy,
>(
    before: Providers,
    after: Providers,
    realm: Seq<char>,
    kind: ProviderKind,
    terms: Terms,
    builders: Builders<O, B, F>,
    at: Seq<char>,
    r: Result<(), Problem>,
)
    requires
        register_done(before, after, realm, kind, terms, builders, at, r),
    ensures
        exists|
            origin: Origin,
            binding: Result<BindingDraft, String>,
            profile: Result<ProfileDraft, String>,
        |
            {
                &&& #[trigger] built(builders, kind, realm, terms, origin, binding, profile)
                &&& register_outcome(
                    before,
                    after,
                    realm,
                    kind,
                    terms,
                    origin,
                    binding,
                    profile,
                    at,
                    r,
                )
            },
{
}

/// Seeding gives the realm both providers that ship, the credential of each in
/// the daemon's environment, or ends at the first that is refused.
pub proof fn both_providers_are_seeded<
    O: Fn(ProviderKind) -> Origin + Copy,
    B: Fn(&BindingAsk) -> Result<BindingDraft, String> + Copy,
    F: Fn(&ProfileAsk, &BindingDraft) -> Result<ProfileDraft, String> + Copy,
>(
    before: Providers,
    after: Providers,
    realm: Seq<char>,
    anthropic: SeedDraft<'_>,
    openai: SeedDraft<'_>,
    builders: Builders<O, B, F>,
    at: Seq<char>,
    r: Result<(), Problem>,
)
    requires
        seeded_outcome(before, after, realm, anthropic, openai, builders, at, r),
    ensures
        r is Ok ==> {
            let a = key1(binding_id_of(ProviderKind::Anthropic, realm));
            let o = key1(binding_id_of(ProviderKind::Openai, realm));
            &&& after.bindings@.contains_key(a)
            &&& after.bindings@.contains_key(o)
            &&& after.bindings@[a].credential_secret_ref@ == "env:"@ + key_variable_of(
                ProviderKind::Anthropic,
            )
            &&& after.bindings@[o].credential_secret_ref@ == "env:"@ + key_variable_of(
                ProviderKind::Openai,
            )
        },
        exists|mid: Providers, first: Result<(), Problem>|
            {
                &&& #[trigger] seeded(
                    before,
                    mid,
                    realm,
                    ProviderKind::Anthropic,
                    anthropic,
                    builders,
                    at,
                    first,
                )
                &&& first is Err ==> r == first && after == mid
                &&& first is Ok ==> seeded(
                    mid,
                    after,
                    realm,
                    ProviderKind::Openai,
                    openai,
                    builders,
                    at,
                    r,
                )
            },
{
}

/// A call is readied for a current attempt under a profile of its realm, and for
/// no other; one whose disclosure is refused is told why, and of a refused call
/// nothing stays.
pub proof fn a_call_is_readied_for_a_current_attempt<
    T: Fn(&str) -> String + Copy,
    I: Fn(&Vec<DisclosureItem>) -> Json + Copy,
    W: Fn(&Vec<Segment>) -> Json + Copy,
    D: Fn(&str, &Json) -> String + Copy,
    V: FnOnce(&Disclosure) -> Option<String>,
    R: FnOnce(&DisclosureAsk, &Json) -> Drafted,
    X,
    P: FnOnce(&PlanAsk, &Vec<Segment>) -> PlanAnswer<X>,
>(
    before: Broker,
    after: Broker,
    journal: JournalView,
    after_journal: JournalView,
    inv: Invocations,
    providers: Providers,
    eps: Episodes,
    request: CompleteRequest<'_>,
    act: ActAuthorization,
    source: SourceFields,
    new_effect_id: Seq<char>,
    making: Making<T, I, W, D>,
    verify: V,
    draft: R,
    plan: P,
    at: Seq<char>,
    r: Result<Prepared<X>, Problem>,
)
    requires
        ready_outcome(
            before,
            after,
            journal,
            after_journal,
            inv,
            providers,
            eps,
            request,
            act,
            source,
            new_effect_id,
            making,
            verify,
            draft,
            plan,
            at,
            r,
        ),
    ensures
        after.attempts == before.attempts,
        r is Ok ==> r->Ok_0.effect < after.effects.rows@.len(),
        r is Ok ==> {
            let a = inv.attempts@[key1(request.attempt_id@)];
            let p = providers.profiles@[key1(request.model_profile_ref@)];
            &&& inv.attempts@.contains_key(key1(request.attempt_id@))
            &&& a.fence_epoch == request.fence_epoch
            &&& a.state is Running
            &&& providers.profiles@.contains_key(key1(request.model_profile_ref@))
            &&& p.realm_ref@ == request.realm@
            &&& providers.bindings@.contains_key(key1(p.provider_binding_ref@))
            &&& providers.bindings@[key1(p.provider_binding_ref@)].realm_ref@ == request.realm@
        },
        binding_refusal(inv, request.attempt_id@, request.fence_epoch) is Some ==> {
            &&& r is Err
            &&& Some(r->Err_0@) == binding_refusal(inv, request.attempt_id@, request.fence_epoch)
            &&& after == before
            &&& after_journal == journal
        },
        binding_refusal(inv, request.attempt_id@, request.fence_epoch) is None && !profile_bound(
            providers,
            request.realm@,
            request.model_profile_ref@,
        ) ==> {
            &&& r is Err
            &&& r->Err_0@ == not_found_view()
            &&& after == before
            &&& after_journal == journal
        },
{
}

/// A call without a permit is not sent: it is told why, and nothing moves.
pub proof fn nothing_is_sent_without_a_permit<
    X,
    Z,
    C: FnOnce(&str) -> CredentialAnswer<Z>,
    E: FnOnce(&Broker, Exchange<X, Z>) -> Outcome,
    M: FnOnce(&Broker, &Json) -> Result<ReportAnswer, Problem>,
    Q: FnOnce(&Reservation, &str, u64, u64, Meter) -> Result<u64, String>,
    G: Fn(&str, &Json) -> Keyed,
    S: Fn(&Reservation) -> Result<String, String>,
>(
    before: Broker,
    after: Broker,
    res: Reservations,
    res_after: Reservations,
    journal: JournalView,
    after_journal: JournalView,
    eps: Episodes,
    request: CompleteRequest<'_>,
    act: ActAuthorization,
    wire: Wire,
    effect: int,
    plan: X,
    to: Destination<'_>,
    got: Result<(usize, Permit), Problem>,
    sending: Sending<'_, C, E, M, Q, G, S>,
    at: Seq<char>,
    r: Result<Completion, Problem>,
)
    requires
        call_sent(
            before,
            after,
            res,
            res_after,
            journal,
            after_journal,
            eps,
            request,
            act,
            wire,
            effect,
            plan,
            to,
            got,
            sending,
            at,
            r,
        ),
    ensures
        got is Err ==> {
            &&& r is Err
            &&& r->Err_0 == got->Err_0
            &&& after == before
            &&& res_after == res
            &&& after_journal == journal
        },
        got is Ok && !to.known() ==> {
            &&& r is Err
            &&& r->Err_0@ == not_found_view()
            &&& after == before
            &&& res_after == res
            &&& after_journal == journal
        },
        r is Ok ==> got is Ok && to.known(),
{
}

/// A dispatch that is refused, for its credential or for what is not on record,
/// says so and moves nothing; any other puts the attempt on record before its
/// exchange.
pub proof fn a_refused_dispatch_moves_nothing<
    X,
    Z,
    E: FnOnce(&Broker, Exchange<X, Z>) -> Outcome,
    M: FnOnce(&Broker, &Json) -> Result<ReportAnswer, Problem>,
    Q: FnOnce(&Reservation, &str, u64, u64, Meter) -> Result<u64, String>,
    G: Fn(&str, &Json) -> Keyed,
    S: Fn(&Reservation) -> Result<String, String>,
>(
    before: Broker,
    after: Broker,
    res: Reservations,
    res_after: Reservations,
    journal: JournalView,
    after_journal: JournalView,
    eps: Episodes,
    stable_binding_key: Option<&str>,
    realm: Seq<char>,
    wire: Wire,
    effect_id: Seq<char>,
    execution_key: Seq<char>,
    consumption_id: Seq<char>,
    credential: CredentialAnswer<Z>,
    plan: X,
    permit: Permit,
    attempt_id: Seq<char>,
    transport_profile: Seq<char>,
    at: Seq<char>,
    exchange: E,
    meter: M,
    measure: Q,
    keyed: G,
    seal: S,
    r: Result<Completion, Problem>,
)
    requires
        effect_sent(
            before,
            after,
            res,
            res_after,
            journal,
            after_journal,
            eps,
            stable_binding_key,
            realm,
            wire,
            effect_id,
            execution_key,
            consumption_id,
            credential,
            plan,
            permit,
            attempt_id,
            transport_profile,
            at,
            exchange,
            meter,
            measure,
            keyed,
            seal,
            r,
        ),
    ensures
        dispatch_refusal(before, credential, effect_id, attempt_id) is Some ==> {
            &&& r is Err
            &&& Some(r->Err_0@) == dispatch_refusal(before, credential, effect_id, attempt_id)
            &&& after == before
            &&& res_after == res
            &&& after_journal == journal
        },
        dispatch_refusal(before, credential, effect_id, attempt_id) is None ==> exists|begun: Broker|
            #[trigger] effect_begun(
                before,
                begun,
                effect_id,
                execution_key,
                consumption_id,
                attempt_id,
                transport_profile,
                at,
            ),
{
}

/// A dispatch that began and one that ended move attempts and effects alone.
pub proof fn a_wire_moves_attempts_and_effects_alone<Z>(
    before: Broker,
    begun: Broker,
    ended: Broker,
    journal: JournalView,
    begun_journal: JournalView,
    ended_journal: JournalView,
    effect_id: Seq<char>,
    consumption_id: Seq<char>,
    credential: CredentialAnswer<Z>,
    attempt_id: Seq<char>,
    profile: Seq<char>,
    outcome: Outcome,
    at: Seq<char>,
    r: Result<u64, Problem>,
)
    requires
        begin_outcome(
            before,
            begun,
            journal,
            begun_journal,
            effect_id,
            consumption_id,
            credential,
            attempt_id,
            profile,
            at,
            r,
        ),
        finish_outcome(begun, ended, begun_journal, ended_journal, effect_id, attempt_id, outcome, at),
    ensures
        begun.consumptions == before.consumptions,
        begun.reports == before.reports,
        begun.disclosures == before.disclosures,
        begun.contexts == before.contexts,
        ended.consumptions == before.consumptions,
        ended.reports == before.reports,
        ended.disclosures == before.disclosures,
        ended.contexts == before.contexts,
{
}

/// A context is written under the name it was identified by; one that stands is
/// rewritten and keeps whose it is and its secret.
pub proof fn a_context_is_written_under_its_name(
    before: Table<ProviderContext>,
    after: Table<ProviderContext>,
    id: Seq<char>,
    request: CompleteRequest<'_>,
    plan: Planned,
    at: Seq<char>,
)
    requires
        context_written(before, after, id, request, plan, at),
    ensures
        after@.contains_key(key1(id)),
        !before@.contains_key(key1(id)) ==> {
            let c = after@[key1(id)];
            &&& c.provider_context_id@ == id
            &&& c.realm_ref@ == request.realm@
            &&& c.invocation_ref@ == plan.invocation_ref@
            &&& c.attempt_ref@ == request.attempt_id@
            &&& c.object_secret is Some
            &&& c.object_secret->0@ == plan.wrapped_secret@
        },
        before@.contains_key(key1(id)) ==> {
            let b = before@[key1(id)];
            let c = after@[key1(id)];
            &&& c.provider_context_id == b.provider_context_id
            &&& c.realm_ref == b.realm_ref
            &&& c.object_secret == b.object_secret
            &&& c.invocation_ref == b.invocation_ref
        },
        after@[key1(id)].record@ == plan.context_record@,
        after@[key1(id)].digest_hex@ == plan.context_digest_hex@,
        after@[key1(id)].final_request_digest_hex@ == plan.final_request_digest_hex@,
{
}

/// A disclosure is staged for a call of an attempt and an invocation on record;
/// without them it is not found and nothing is staged.
pub proof fn a_disclosure_is_staged_for_a_recorded_call<
    T: Fn(&str) -> String + Copy,
    I: Fn(&Vec<DisclosureItem>) -> Json + Copy,
    W: Fn(&Vec<Segment>) -> Json + Copy,
    D: Fn(&str, &Json) -> String + Copy,
    V: FnOnce(&Disclosure) -> Option<String>,
    R: FnOnce(&DisclosureAsk, &Json) -> Drafted,
>(
    before: Broker,
    after: Broker,
    inv: Invocations,
    request: CompleteRequest<'_>,
    profile: ModelProfile,
    binding: ProviderBinding,
    making: Making<T, I, W, D>,
    verify: V,
    draft: R,
    r: Result<usize, Problem>,
)
    requires
        stage_done(
            before,
            after,
            inv,
            request,
            profile,
            binding,
            making,
            verify,
            draft,
            r,
        ),
    ensures
        r is Ok ==> inv.attempts@.contains_key(key1(request.attempt_id@))
            && inv.invocations@.contains_key(
            key1(inv.attempts@[key1(request.attempt_id@)].invocation_id@),
        ),
        !inv.attempts@.contains_key(key1(request.attempt_id@)) ==> r is Err && r->Err_0@
            == not_found_view() && after == before,
        call_recorded(inv, request.attempt_id@) ==> exists|id: Seq<char>, items: JsonView|
            #[trigger] disclosure_identified(making, request, profile, binding, items, id),
{
}

} // verus!
