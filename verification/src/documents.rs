//! The documents that digests are taken over, and the requests that byom is
//! sent. Each is a function of what is recorded, and names nothing of the clock
//! but what a record holds, so that a repeat makes the same document.

use vstd::prelude::*;

use crate::episode::{EpisodeBinding, Fences};
use crate::formation::{BindingPin, FormationAttempt, FormationCommand, Intent, IntentState};
use crate::invoke::InputManifest;
use crate::json::{empty_list, empty_object, get, list_of_texts, member, members, nullable,
    nullable_text, number_member, object, put, put_number, put_text, read_stored, stored, text_list, text_member, Json,
    JsonView};
use crate::lifecycle_ops::{PolicyChange, Widening};
use crate::model_broker::{ActAuthorization, CompleteRequest, Effect, Usage};
use crate::records::{Contribution, Workspace};
use crate::text::{cat2, opt_view, views};

use vstd::string::*;

verus! {

// --------------------------------------------------- formation, digested ----

/// What the digest of an idempotency domain is taken over: the stable identity
/// of the command, so that a resubmission rides the same domain.
pub open spec fn domain_document(
    society_ref: Seq<char>,
    principal: Seq<char>,
    client_formation_key: Seq<char>,
) -> JsonView {
    JsonView::Object(
        seq![
            text_member("client_formation_key"@, client_formation_key),
            text_member("operation"@, "kovee_endeavor_form"@),
            text_member("requested_by_principal"@, principal),
            text_member("society_ref"@, society_ref),
        ],
    )
}

/// What the digest of an idempotency domain is taken over: the stable identity
/// of the command, so that a resubmission rides the same domain.
pub fn domain_subject(
    society_ref: &str,
    principal: &str,
    client_formation_key: &str,
) -> (r: Json)
    ensures
        r@ == domain_document(society_ref@, principal@, client_formation_key@),
{
    let mut v: Vec<(String, Json)> = Vec::new();
    put_text(&mut v, "client_formation_key", client_formation_key);
    put_text(&mut v, "operation", "kovee_endeavor_form");
    put_text(&mut v, "requested_by_principal", principal);
    put_text(&mut v, "society_ref", society_ref);
    proof {
        assert(members(v@) =~= domain_document(
            society_ref@,
            principal@,
            client_formation_key@,
        )->Object_0);
    }
    object(v)
}

/// A member of a document, or null where it has none.
pub open spec fn member_or_null(j: JsonView, key: Seq<char>) -> JsonView {
    match member(j, key) {
        Some(m) => m,
        None => JsonView::Null,
    }
}

fn get_or_null(j: &Json, key: &str) -> (r: Json)
    ensures
        r@ == member_or_null(j@, key@),
{
    match get(j, key) {
        Some(m) => m.copy(),
        None => Json::Null,
    }
}

/// What the digest of a context bundle is taken over.
pub open spec fn bundle_document(
    context_bundle_ref: Seq<char>,
    assembly: JsonView,
) -> JsonView {
    JsonView::Object(
        seq![
            text_member("context_bundle_ref"@, context_bundle_ref),
            ("digest"@, member_or_null(assembly, "digest"@)),
        ],
    )
}

/// What the digest of a context bundle is taken over.
pub fn bundle_subject(context_bundle_ref: &str, assembly: &Json) -> (r: Json)
    ensures
        r@ == bundle_document(context_bundle_ref@, assembly@),
{
    let mut v: Vec<(String, Json)> = Vec::new();
    put_text(&mut v, "context_bundle_ref", context_bundle_ref);
    put(&mut v, "digest", get_or_null(assembly, "digest"));
    proof {
        assert(members(v@) =~= bundle_document(context_bundle_ref@, assembly@)->Object_0);
    }
    object(v)
}

/// What the digest of a pinned frontier is taken over.
pub open spec fn frontier_document(
    frontier_ref: Seq<char>,
    branch_id: Seq<char>,
    branch_head_digest: Seq<char>,
) -> JsonView {
    JsonView::Object(
        seq![
            text_member("branch_head_digest"@, branch_head_digest),
            text_member("branch_id"@, branch_id),
            text_member("frontier_ref"@, frontier_ref),
        ],
    )
}

/// What the digest of a pinned frontier is taken over.
pub fn frontier_subject(
    frontier_ref: &str,
    branch_id: &str,
    branch_head_digest: &str,
) -> (r: Json)
    ensures
        r@ == frontier_document(frontier_ref@, branch_id@, branch_head_digest@),
{
    let mut v: Vec<(String, Json)> = Vec::new();
    put_text(&mut v, "branch_head_digest", branch_head_digest);
    put_text(&mut v, "branch_id", branch_id);
    put_text(&mut v, "frontier_ref", frontier_ref);
    proof {
        assert(members(v@) =~= frontier_document(
            frontier_ref@,
            branch_id@,
            branch_head_digest@,
        )->Object_0);
    }
    object(v)
}

/// The stable command that an intent pins: digested once, and sent as it is by
/// every attempt.
pub open spec fn command_document(command: FormationCommand) -> JsonView {
    JsonView::Object(
        seq![
            text_member("byom_command_idempotency_key"@, command.byom_command_idempotency_key@),
            text_member("byom_endpoint_ref"@, command.byom_endpoint_ref@),
            text_member("command_endpoint_incarnation"@, command.command_endpoint_incarnation@),
            ("context_bundle_digest"@, stored(command.context_bundle_digest@)),
            text_member("context_bundle_ref"@, command.context_bundle_ref@),
            ("endeavor_proposal"@, command.endeavor_proposal@),
            ("endeavor_proposal_digest"@, stored(command.endeavor_proposal_digest@)),
            text_member("expected_governance_rule_set_ref"@, command.expected_governance_rule_set_ref@),
            ("expected_slot_snapshot_digest"@, stored(command.expected_slot_snapshot_digest@)),
            ("idempotency_domain_digest"@, stored(command.idempotency_domain_digest@)),
            text_member("kovee_formation_intent_ref"@, command.kovee_formation_intent_ref@),
            ("realm_byom_binding_digest"@, stored(command.binding.digest@)),
            number_member("realm_byom_binding_epoch"@, command.binding.binding_epoch),
            text_member("realm_byom_binding_ref"@, command.binding.binding_ref@),
            number_member("realm_byom_binding_revision"@, command.binding.binding_revision),
            number_member("society_recovery_epoch"@, command.society_recovery_epoch),
            text_member("society_ref"@, command.society_ref@),
            ("source_actor_binding_digest"@, stored(command.source_actor_binding_digest@)),
            ("source_principal_position"@, command.source_principal_position@),
            ("source_principal_position_digest"@, stored(command.source_principal_position_digest@)),
            text_member("source_principal_ref"@, command.source_principal_ref@),
        ],
    )
}

/// The stable command that an intent pins: digested once, and sent as it is by
/// every attempt.
pub fn command_subject(command: &FormationCommand) -> (r: Json)
    ensures
        r@ == command_document(*command),
{
    let mut v: Vec<(String, Json)> = Vec::new();
    put_text(&mut v, "byom_command_idempotency_key", command.byom_command_idempotency_key.as_str());
    put_text(&mut v, "byom_endpoint_ref", command.byom_endpoint_ref.as_str());
    put_text(&mut v, "command_endpoint_incarnation", command.command_endpoint_incarnation.as_str());
    put(&mut v, "context_bundle_digest", read_stored(command.context_bundle_digest.as_str()));
    put_text(&mut v, "context_bundle_ref", command.context_bundle_ref.as_str());
    put(&mut v, "endeavor_proposal", command.endeavor_proposal.copy());
    put(&mut v, "endeavor_proposal_digest", read_stored(command.endeavor_proposal_digest.as_str()));
    put_text(&mut v, "expected_governance_rule_set_ref", command.expected_governance_rule_set_ref.as_str());
    put(&mut v, "expected_slot_snapshot_digest", read_stored(command.expected_slot_snapshot_digest.as_str()));
    put(&mut v, "idempotency_domain_digest", read_stored(command.idempotency_domain_digest.as_str()));
    put_text(&mut v, "kovee_formation_intent_ref", command.kovee_formation_intent_ref.as_str());
    put(&mut v, "realm_byom_binding_digest", read_stored(command.binding.digest.as_str()));
    put_number(&mut v, "realm_byom_binding_epoch", command.binding.binding_epoch);
    put_text(&mut v, "realm_byom_binding_ref", command.binding.binding_ref.as_str());
    put_number(&mut v, "realm_byom_binding_revision", command.binding.binding_revision);
    put_number(&mut v, "society_recovery_epoch", command.society_recovery_epoch);
    put_text(&mut v, "society_ref", command.society_ref.as_str());
    put(&mut v, "source_actor_binding_digest", read_stored(command.source_actor_binding_digest.as_str()));
    put(&mut v, "source_principal_position", command.source_principal_position.copy());
    put(&mut v, "source_principal_position_digest", read_stored(command.source_principal_position_digest.as_str()));
    put_text(&mut v, "source_principal_ref", command.source_principal_ref.as_str());
    proof {
        assert(members(v@) =~= command_document(*command)->Object_0);
    }
    object(v)
}

/// What the digest of a formation's dependencies is taken over.
pub open spec fn authority_document(
    dependency_set_ref: Seq<char>,
    realm: Seq<char>,
    frontier_ref: Seq<char>,
    command: FormationCommand,
    command_digest: Seq<char>,
) -> JsonView {
    JsonView::Object(
        seq![
            ("canonical_byom_command_digest"@, stored(command_digest)),
            text_member("context_bundle_ref"@, command.context_bundle_ref@),
            text_member("dependency_set_ref"@, dependency_set_ref),
            text_member("endpoint_incarnation"@, command.command_endpoint_incarnation@),
            text_member("frontier_ref"@, frontier_ref),
            number_member("realm_byom_binding_epoch"@, command.binding.binding_epoch),
            text_member("realm_byom_binding_ref"@, command.binding.binding_ref@),
            text_member("realm_ref"@, realm),
            number_member("society_recovery_epoch"@, command.society_recovery_epoch),
            text_member("society_ref"@, command.society_ref@),
        ],
    )
}

/// What the digest of a formation's dependencies is taken over.
pub fn authority_subject(
    dependency_set_ref: &str,
    realm: &str,
    frontier_ref: &str,
    command: &FormationCommand,
    command_digest: &str,
) -> (r: Json)
    ensures
        r@ == authority_document(
            dependency_set_ref@,
            realm@,
            frontier_ref@,
            *command,
            command_digest@,
        ),
{
    let mut v: Vec<(String, Json)> = Vec::new();
    put(&mut v, "canonical_byom_command_digest", read_stored(command_digest));
    put_text(&mut v, "context_bundle_ref", command.context_bundle_ref.as_str());
    put_text(&mut v, "dependency_set_ref", dependency_set_ref);
    put_text(&mut v, "endpoint_incarnation", command.command_endpoint_incarnation.as_str());
    put_text(&mut v, "frontier_ref", frontier_ref);
    put_number(&mut v, "realm_byom_binding_epoch", command.binding.binding_epoch);
    put_text(&mut v, "realm_byom_binding_ref", command.binding.binding_ref.as_str());
    put_text(&mut v, "realm_ref", realm);
    put_number(&mut v, "society_recovery_epoch", command.society_recovery_epoch);
    put_text(&mut v, "society_ref", command.society_ref.as_str());
    proof {
        assert(members(v@) =~= authority_document(
            dependency_set_ref@,
            realm@,
            frontier_ref@,
            *command,
            command_digest@,
        )->Object_0);
    }
    object(v)
}

/// What the digest of an intent is taken over.
pub open spec fn intent_document(
    formation_id: Seq<char>,
    revision: u64,
    state: IntentState,
    command_digest: Seq<char>,
    slot_generation: u64,
) -> JsonView {
    JsonView::Object(
        seq![
            ("canonical_byom_command_digest"@, stored(command_digest)),
            text_member("formation_id"@, formation_id),
            number_member("formation_slot_generation"@, slot_generation),
            number_member("revision"@, revision),
            text_member("state"@, state.name()),
        ],
    )
}

/// What the digest of an intent is taken over.
pub fn intent_subject(
    formation_id: &str,
    revision: u64,
    state: IntentState,
    command_digest: &str,
    slot_generation: u64,
) -> (r: Json)
    ensures
        r@ == intent_document(formation_id@, revision, state, command_digest@, slot_generation),
{
    let mut v: Vec<(String, Json)> = Vec::new();
    put(&mut v, "canonical_byom_command_digest", read_stored(command_digest));
    put_text(&mut v, "formation_id", formation_id);
    put_number(&mut v, "formation_slot_generation", slot_generation);
    put_number(&mut v, "revision", revision);
    put_text(&mut v, "state", state.as_str());
    proof {
        assert(members(v@) =~= intent_document(
            formation_id@,
            revision,
            state,
            command_digest@,
            slot_generation,
        )->Object_0);
    }
    object(v)
}

/// What the digest of a slot is taken over.
pub open spec fn slot_document(
    slot_id: Seq<char>,
    generation: u64,
    state: Seq<char>,
) -> JsonView {
    JsonView::Object(
        seq![
            number_member("generation"@, generation),
            text_member("slot_id"@, slot_id),
            text_member("state"@, state),
        ],
    )
}

/// What the digest of a slot is taken over.
pub fn slot_subject(slot_id: &str, generation: u64, state: &str) -> (r: Json)
    ensures
        r@ == slot_document(slot_id@, generation, state@),
{
    let mut v: Vec<(String, Json)> = Vec::new();
    put_number(&mut v, "generation", generation);
    put_text(&mut v, "slot_id", slot_id);
    put_text(&mut v, "state", state);
    proof {
        assert(members(v@) =~= slot_document(slot_id@, generation, state@)->Object_0);
    }
    object(v)
}

/// What the digest of an attempt is taken over.
pub open spec fn attempt_document(
    attempt_id: Seq<char>,
    formation_id: Seq<char>,
    ordinal: u64,
    nonce: Seq<char>,
    command_digest: Seq<char>,
) -> JsonView {
    JsonView::Object(
        seq![
            text_member("attempt_id"@, attempt_id),
            text_member("attempt_nonce"@, nonce),
            number_member("attempt_ordinal"@, ordinal),
            ("canonical_byom_command_digest"@, stored(command_digest)),
            text_member("formation_id"@, formation_id),
        ],
    )
}

/// What the digest of an attempt is taken over.
pub fn attempt_subject(
    attempt_id: &str,
    formation_id: &str,
    ordinal: u64,
    nonce: &str,
    command_digest: &str,
) -> (r: Json)
    ensures
        r@ == attempt_document(attempt_id@, formation_id@, ordinal, nonce@, command_digest@),
{
    let mut v: Vec<(String, Json)> = Vec::new();
    put_text(&mut v, "attempt_id", attempt_id);
    put_text(&mut v, "attempt_nonce", nonce);
    put_number(&mut v, "attempt_ordinal", ordinal);
    put(&mut v, "canonical_byom_command_digest", read_stored(command_digest));
    put_text(&mut v, "formation_id", formation_id);
    proof {
        assert(members(v@) =~= attempt_document(
            attempt_id@,
            formation_id@,
            ordinal,
            nonce@,
            command_digest@,
        )->Object_0);
    }
    object(v)
}

/// What the digest of the channel that a credential is bound to is taken over.
pub open spec fn channel_document(realm: Seq<char>) -> JsonView {
    JsonView::Object(
        seq![
            text_member("channel"@, "kovee-owner-uds"@),
            text_member("realm_ref"@, realm),
        ],
    )
}

/// What the digest of the channel that a credential is bound to is taken over.
pub fn channel_subject(realm: &str) -> (r: Json)
    ensures
        r@ == channel_document(realm@),
{
    let mut v: Vec<(String, Json)> = Vec::new();
    put_text(&mut v, "channel", "kovee-owner-uds");
    put_text(&mut v, "realm_ref", realm);
    proof {
        assert(members(v@) =~= channel_document(realm@)->Object_0);
    }
    object(v)
}

/// What the digest of an authentication proof is taken over.
pub open spec fn proof_document(authentication_proof: JsonView) -> JsonView {
    JsonView::Object(
        seq![
            ("proof"@, authentication_proof),
        ],
    )
}

/// What the digest of an authentication proof is taken over.
pub fn proof_subject(authentication_proof: &Json) -> (r: Json)
    ensures
        r@ == proof_document(authentication_proof@),
{
    let mut v: Vec<(String, Json)> = Vec::new();
    put(&mut v, "proof", authentication_proof.copy());
    proof {
        assert(members(v@) =~= proof_document(authentication_proof@)->Object_0);
    }
    object(v)
}

/// What the digest of a link is taken over; it is what the link is found by.
pub open spec fn link_document(
    formation_id: Seq<char>,
    endeavor_ref: Seq<char>,
    endeavor_revision: u64,
    result_digest: Seq<char>,
) -> JsonView {
    JsonView::Object(
        seq![
            text_member("endeavor_ref"@, endeavor_ref),
            number_member("endeavor_revision"@, endeavor_revision),
            text_member("formation_id"@, formation_id),
            ("result_digest"@, stored(result_digest)),
        ],
    )
}

/// What the digest of a link is taken over; it is what the link is found by.
pub fn link_subject(
    formation_id: &str,
    endeavor_ref: &str,
    endeavor_revision: u64,
    result_digest: &str,
) -> (r: Json)
    ensures
        r@ == link_document(formation_id@, endeavor_ref@, endeavor_revision, result_digest@),
{
    let mut v: Vec<(String, Json)> = Vec::new();
    put_text(&mut v, "endeavor_ref", endeavor_ref);
    put_number(&mut v, "endeavor_revision", endeavor_revision);
    put_text(&mut v, "formation_id", formation_id);
    put(&mut v, "result_digest", read_stored(result_digest));
    proof {
        assert(members(v@) =~= link_document(
            formation_id@,
            endeavor_ref@,
            endeavor_revision,
            result_digest@,
        )->Object_0);
    }
    object(v)
}

// ------------------------------------------------------ formation, asked ----

/// The one request of an attempt: the stable command, and this attempt's own
/// authentication.
pub open spec fn form_document(
    version: JsonView,
    intent: Intent,
    attempt: FormationAttempt,
    authentication_proof: JsonView,
) -> JsonView {
    JsonView::Object(
        seq![
            text_member("attempt_id"@, attempt.attempt_id@),
            text_member("attempt_nonce"@, attempt.attempt_nonce@),
            ("attempt_recovery_binding_digest"@, stored(attempt.recovery_binding.digest@)),
            number_member("attempt_recovery_binding_epoch"@, attempt.recovery_binding.binding_epoch),
            text_member("attempt_recovery_binding_ref"@, attempt.recovery_binding.binding_ref@),
            number_member("attempt_recovery_binding_revision"@, attempt.recovery_binding.binding_revision),
            ("authentication_observation_digest"@, stored(attempt.authentication_observation_digest@)),
            text_member("authentication_observation_ref"@, attempt.authentication_observation_ref@),
            ("authentication_proof"@, authentication_proof),
            ("canonical_command_digest"@, stored(intent.canonical_byom_command_digest@)),
            ("command"@, command_document(intent.command)),
            (
                "meta"@,
                JsonView::Object(
                    seq![
                        text_member("expected_endpoint_incarnation"@, intent.command.command_endpoint_incarnation@),
                        number_member("expected_recovery_epoch"@, intent.command.society_recovery_epoch),
                        text_member("idempotency_key"@, intent.command.byom_command_idempotency_key@),
                        text_member("request_id"@, attempt.attempt_id@),
                    ],
                ),
            ),
            text_member("op"@, "kovee_endeavor_form"@),
            ("version"@, version),
        ],
    )
}

/// The one request of an attempt: the stable command, and this attempt's own
/// authentication.
pub fn form_request(
    version: &Json,
    intent: &Intent,
    attempt: &FormationAttempt,
    authentication_proof: &Json,
) -> (r: Json)
    ensures
        r@ == form_document(version@, *intent, *attempt, authentication_proof@),
{
    let mut meta_members: Vec<(String, Json)> = Vec::new();
    put_text(&mut meta_members, "expected_endpoint_incarnation", intent.command.command_endpoint_incarnation.as_str());
    put_number(&mut meta_members, "expected_recovery_epoch", intent.command.society_recovery_epoch);
    put_text(&mut meta_members, "idempotency_key", intent.command.byom_command_idempotency_key.as_str());
    put_text(&mut meta_members, "request_id", attempt.attempt_id.as_str());
    proof {
        assert(members(meta_members@) =~= (JsonView::Object(
                seq![
                    text_member("expected_endpoint_incarnation"@, intent.command.command_endpoint_incarnation@),
                    number_member("expected_recovery_epoch"@, intent.command.society_recovery_epoch),
                    text_member("idempotency_key"@, intent.command.byom_command_idempotency_key@),
                    text_member("request_id"@, attempt.attempt_id@),
                ],
            ))->Object_0);
    }
    let mut v: Vec<(String, Json)> = Vec::new();
    put_text(&mut v, "attempt_id", attempt.attempt_id.as_str());
    put_text(&mut v, "attempt_nonce", attempt.attempt_nonce.as_str());
    put(&mut v, "attempt_recovery_binding_digest", read_stored(attempt.recovery_binding.digest.as_str()));
    put_number(&mut v, "attempt_recovery_binding_epoch", attempt.recovery_binding.binding_epoch);
    put_text(&mut v, "attempt_recovery_binding_ref", attempt.recovery_binding.binding_ref.as_str());
    put_number(&mut v, "attempt_recovery_binding_revision", attempt.recovery_binding.binding_revision);
    put(&mut v, "authentication_observation_digest", read_stored(attempt.authentication_observation_digest.as_str()));
    put_text(&mut v, "authentication_observation_ref", attempt.authentication_observation_ref.as_str());
    put(&mut v, "authentication_proof", authentication_proof.copy());
    put(&mut v, "canonical_command_digest", read_stored(intent.canonical_byom_command_digest.as_str()));
    put(&mut v, "command", command_subject(&intent.command));
    put(&mut v, "meta", object(meta_members));
    put_text(&mut v, "op", "kovee_endeavor_form");
    put(&mut v, "version", version.copy());
    proof {
        assert(members(v@) =~= form_document(
            version@,
            *intent,
            *attempt,
            authentication_proof@,
        )->Object_0);
    }
    object(v)
}

/// The question what became of a command. It submits nothing.
pub open spec fn result_query_document(
    version: JsonView,
    intent: Intent,
    pin: BindingPin,
    incarnation: Seq<char>,
) -> JsonView {
    JsonView::Object(
        seq![
            text_member("byom_command_idempotency_key"@, intent.command.byom_command_idempotency_key@),
            ("canonical_command_digest"@, stored(intent.canonical_byom_command_digest@)),
            text_member("current_byom_endpoint_ref"@, intent.command.byom_endpoint_ref@),
            text_member("current_endpoint_incarnation"@, incarnation),
            ("current_recovery_binding_digest"@, stored(pin.digest@)),
            number_member("current_recovery_binding_epoch"@, pin.binding_epoch),
            text_member("current_recovery_binding_ref"@, pin.binding_ref@),
            number_member("current_recovery_binding_revision"@, pin.binding_revision),
            ("idempotency_domain_digest"@, stored(intent.command.idempotency_domain_digest@)),
            text_member("kovee_formation_intent_ref"@, intent.formation_id@),
            text_member("op"@, "external_command_result_query"@),
            text_member("operation"@, "kovee_endeavor_form"@),
            ("source_actor_binding_digest"@, stored(intent.command.source_actor_binding_digest@)),
            text_member("source_principal_ref"@, intent.requested_by_principal@),
            text_member("target_byom_endpoint_ref"@, intent.command.byom_endpoint_ref@),
            text_member("target_endpoint_incarnation"@, intent.command.command_endpoint_incarnation@),
            ("target_realm_byom_binding_digest"@, stored(pin.digest@)),
            number_member("target_realm_byom_binding_epoch"@, pin.binding_epoch),
            text_member("target_realm_byom_binding_ref"@, pin.binding_ref@),
            number_member("target_realm_byom_binding_revision"@, pin.binding_revision),
            number_member("target_society_recovery_epoch"@, intent.command.society_recovery_epoch),
            text_member("target_society_ref"@, intent.command.society_ref@),
            ("version"@, version),
        ],
    )
}

/// The question what became of a command. It submits nothing.
pub fn result_query_request(
    version: &Json,
    intent: &Intent,
    pin: &BindingPin,
    incarnation: &str,
) -> (r: Json)
    ensures
        r@ == result_query_document(version@, *intent, *pin, incarnation@),
{
    let mut v: Vec<(String, Json)> = Vec::new();
    put_text(&mut v, "byom_command_idempotency_key", intent.command.byom_command_idempotency_key.as_str());
    put(&mut v, "canonical_command_digest", read_stored(intent.canonical_byom_command_digest.as_str()));
    put_text(&mut v, "current_byom_endpoint_ref", intent.command.byom_endpoint_ref.as_str());
    put_text(&mut v, "current_endpoint_incarnation", incarnation);
    put(&mut v, "current_recovery_binding_digest", read_stored(pin.digest.as_str()));
    put_number(&mut v, "current_recovery_binding_epoch", pin.binding_epoch);
    put_text(&mut v, "current_recovery_binding_ref", pin.binding_ref.as_str());
    put_number(&mut v, "current_recovery_binding_revision", pin.binding_revision);
    put(&mut v, "idempotency_domain_digest", read_stored(intent.command.idempotency_domain_digest.as_str()));
    put_text(&mut v, "kovee_formation_intent_ref", intent.formation_id.as_str());
    put_text(&mut v, "op", "external_command_result_query");
    put_text(&mut v, "operation", "kovee_endeavor_form");
    put(&mut v, "source_actor_binding_digest", read_stored(intent.command.source_actor_binding_digest.as_str()));
    put_text(&mut v, "source_principal_ref", intent.requested_by_principal.as_str());
    put_text(&mut v, "target_byom_endpoint_ref", intent.command.byom_endpoint_ref.as_str());
    put_text(&mut v, "target_endpoint_incarnation", intent.command.command_endpoint_incarnation.as_str());
    put(&mut v, "target_realm_byom_binding_digest", read_stored(pin.digest.as_str()));
    put_number(&mut v, "target_realm_byom_binding_epoch", pin.binding_epoch);
    put_text(&mut v, "target_realm_byom_binding_ref", pin.binding_ref.as_str());
    put_number(&mut v, "target_realm_byom_binding_revision", pin.binding_revision);
    put_number(&mut v, "target_society_recovery_epoch", intent.command.society_recovery_epoch);
    put_text(&mut v, "target_society_ref", intent.command.society_ref.as_str());
    put(&mut v, "version", version.copy());
    proof {
        assert(members(v@) =~= result_query_document(
            version@,
            *intent,
            *pin,
            incarnation@,
        )->Object_0);
    }
    object(v)
}

/// The credential of one terminalization, as its request names it.
#[derive(Debug)]
pub struct FreshCredential {
    pub nonce: String,
    pub source_actor_binding_digest: String,
    pub authentication_observation_ref: String,
    pub authentication_observation_digest: String,
}

/// The request to deny a command's future execution.
pub open spec fn terminalize_document(
    version: JsonView,
    intent: Intent,
    pin: BindingPin,
    credential: FreshCredential,
    reason: Seq<char>,
    authentication_proof: JsonView,
) -> JsonView {
    JsonView::Object(
        seq![
            ("authentication_observation_digest"@, stored(credential.authentication_observation_digest@)),
            text_member("authentication_observation_ref"@, credential.authentication_observation_ref@),
            ("authentication_proof"@, authentication_proof),
            text_member("byom_command_idempotency_key"@, intent.command.byom_command_idempotency_key@),
            ("canonical_command_digest"@, stored(intent.canonical_byom_command_digest@)),
            ("current_recovery_binding_digest"@, stored(pin.digest@)),
            number_member("current_recovery_binding_epoch"@, pin.binding_epoch),
            text_member("current_recovery_binding_ref"@, pin.binding_ref@),
            number_member("current_recovery_binding_revision"@, pin.binding_revision),
            ("current_source_actor_binding_digest"@, stored(credential.source_actor_binding_digest@)),
            ("idempotency_domain_digest"@, stored(intent.command.idempotency_domain_digest@)),
            text_member("kovee_formation_intent_ref"@, intent.formation_id@),
            (
                "meta"@,
                JsonView::Object(
                    seq![
                        text_member("expected_endpoint_incarnation"@, intent.command.command_endpoint_incarnation@),
                        number_member("expected_recovery_epoch"@, intent.command.society_recovery_epoch),
                        text_member("idempotency_key"@, intent.command.byom_command_idempotency_key@),
                        text_member("request_id"@, credential.nonce@),
                    ],
                ),
            ),
            text_member("op"@, "external_command_terminalize"@),
            text_member("operation"@, "kovee_endeavor_form"@),
            text_member("reason"@, reason),
            text_member("source_principal_ref"@, intent.requested_by_principal@),
            text_member("target_byom_endpoint_ref"@, intent.command.byom_endpoint_ref@),
            text_member("target_endpoint_incarnation"@, intent.command.command_endpoint_incarnation@),
            number_member("target_society_recovery_epoch"@, intent.command.society_recovery_epoch),
            text_member("target_society_ref"@, intent.command.society_ref@),
            ("target_source_actor_binding_digest"@, stored(intent.command.source_actor_binding_digest@)),
            ("version"@, version),
        ],
    )
}

/// The request to deny a command's future execution.
pub fn terminalize_request(
    version: &Json,
    intent: &Intent,
    pin: &BindingPin,
    credential: &FreshCredential,
    reason: &str,
    authentication_proof: &Json,
) -> (r: Json)
    ensures
        r@ == terminalize_document(
            version@,
            *intent,
            *pin,
            *credential,
            reason@,
            authentication_proof@,
        ),
{
    let mut meta_members: Vec<(String, Json)> = Vec::new();
    put_text(&mut meta_members, "expected_endpoint_incarnation", intent.command.command_endpoint_incarnation.as_str());
    put_number(&mut meta_members, "expected_recovery_epoch", intent.command.society_recovery_epoch);
    put_text(&mut meta_members, "idempotency_key", intent.command.byom_command_idempotency_key.as_str());
    put_text(&mut meta_members, "request_id", credential.nonce.as_str());
    proof {
        assert(members(meta_members@) =~= (JsonView::Object(
                seq![
                    text_member("expected_endpoint_incarnation"@, intent.command.command_endpoint_incarnation@),
                    number_member("expected_recovery_epoch"@, intent.command.society_recovery_epoch),
                    text_member("idempotency_key"@, intent.command.byom_command_idempotency_key@),
                    text_member("request_id"@, credential.nonce@),
                ],
            ))->Object_0);
    }
    let mut v: Vec<(String, Json)> = Vec::new();
    put(&mut v, "authentication_observation_digest", read_stored(credential.authentication_observation_digest.as_str()));
    put_text(&mut v, "authentication_observation_ref", credential.authentication_observation_ref.as_str());
    put(&mut v, "authentication_proof", authentication_proof.copy());
    put_text(&mut v, "byom_command_idempotency_key", intent.command.byom_command_idempotency_key.as_str());
    put(&mut v, "canonical_command_digest", read_stored(intent.canonical_byom_command_digest.as_str()));
    put(&mut v, "current_recovery_binding_digest", read_stored(pin.digest.as_str()));
    put_number(&mut v, "current_recovery_binding_epoch", pin.binding_epoch);
    put_text(&mut v, "current_recovery_binding_ref", pin.binding_ref.as_str());
    put_number(&mut v, "current_recovery_binding_revision", pin.binding_revision);
    put(&mut v, "current_source_actor_binding_digest", read_stored(credential.source_actor_binding_digest.as_str()));
    put(&mut v, "idempotency_domain_digest", read_stored(intent.command.idempotency_domain_digest.as_str()));
    put_text(&mut v, "kovee_formation_intent_ref", intent.formation_id.as_str());
    put(&mut v, "meta", object(meta_members));
    put_text(&mut v, "op", "external_command_terminalize");
    put_text(&mut v, "operation", "kovee_endeavor_form");
    put_text(&mut v, "reason", reason);
    put_text(&mut v, "source_principal_ref", intent.requested_by_principal.as_str());
    put_text(&mut v, "target_byom_endpoint_ref", intent.command.byom_endpoint_ref.as_str());
    put_text(&mut v, "target_endpoint_incarnation", intent.command.command_endpoint_incarnation.as_str());
    put_number(&mut v, "target_society_recovery_epoch", intent.command.society_recovery_epoch);
    put_text(&mut v, "target_society_ref", intent.command.society_ref.as_str());
    put(&mut v, "target_source_actor_binding_digest", read_stored(intent.command.source_actor_binding_digest.as_str()));
    put(&mut v, "version", version.copy());
    proof {
        assert(members(v@) =~= terminalize_document(
            version@,
            *intent,
            *pin,
            *credential,
            reason@,
            authentication_proof@,
        )->Object_0);
    }
    object(v)
}

// ------------------------------------------------- model calls, digested ----

/// What the digest behind a disclosure's identifier is taken over. The items,
/// the claims and the profile's digest are given as documents.
pub open spec fn disclosure_id_document(
    request: CompleteRequest<'_>,
    model_profile_ref: Seq<char>,
    profile_digest: JsonView,
    items: JsonView,
    provider_claims: JsonView,
) -> JsonView {
    JsonView::Object(
        seq![
            text_member("attempt_ref"@, request.attempt_id@),
            ("items"@, items),
            ("model_profile_digest"@, profile_digest),
            text_member("model_profile_ref"@, model_profile_ref),
            ("provider_claims"@, provider_claims),
            text_member("purpose_ref"@, request.purpose_ref@),
        ],
    )
}

/// What the digest behind a disclosure's identifier is taken over. The items,
/// the claims and the profile's digest are given as documents.
pub fn disclosure_id_subject(
    request: &CompleteRequest<'_>,
    model_profile_ref: &str,
    profile_digest: &Json,
    items: &Json,
    provider_claims: &Json,
) -> (r: Json)
    ensures
        r@ == disclosure_id_document(
            *request,
            model_profile_ref@,
            profile_digest@,
            items@,
            provider_claims@,
        ),
{
    let mut v: Vec<(String, Json)> = Vec::new();
    put_text(&mut v, "attempt_ref", request.attempt_id);
    put(&mut v, "items", items.copy());
    put(&mut v, "model_profile_digest", profile_digest.copy());
    put_text(&mut v, "model_profile_ref", model_profile_ref);
    put(&mut v, "provider_claims", provider_claims.copy());
    put_text(&mut v, "purpose_ref", request.purpose_ref);
    proof {
        assert(members(v@) =~= disclosure_id_document(
            *request,
            model_profile_ref@,
            profile_digest@,
            items@,
            provider_claims@,
        )->Object_0);
    }
    object(v)
}

/// What the digest behind a provider context's identifier is taken over.
pub open spec fn context_id_document(
    attempt_ref: Seq<char>,
    disclosure_id: Seq<char>,
    disclosure_digest: JsonView,
    segments: JsonView,
    profile_digest: JsonView,
    binding_digest: JsonView,
    act: ActAuthorization,
) -> JsonView {
    JsonView::Object(
        seq![
            text_member("act_intent_ref"@, act.act_intent_ref@),
            text_member("attempt_ref"@, attempt_ref),
            ("disclosure_digest"@, disclosure_digest),
            text_member("disclosure_id"@, disclosure_id),
            ("model_profile_digest"@, profile_digest),
            ("provider_binding_digest"@, binding_digest),
            ("segments"@, segments),
        ],
    )
}

/// What the digest behind a provider context's identifier is taken over.
pub fn context_id_subject(
    attempt_ref: &str,
    disclosure_id: &str,
    disclosure_digest: &Json,
    segments: &Json,
    profile_digest: &Json,
    binding_digest: &Json,
    act: &ActAuthorization,
) -> (r: Json)
    ensures
        r@ == context_id_document(
            attempt_ref@,
            disclosure_id@,
            disclosure_digest@,
            segments@,
            profile_digest@,
            binding_digest@,
            *act,
        ),
{
    let mut v: Vec<(String, Json)> = Vec::new();
    put_text(&mut v, "act_intent_ref", act.act_intent_ref.as_str());
    put_text(&mut v, "attempt_ref", attempt_ref);
    put(&mut v, "disclosure_digest", disclosure_digest.copy());
    put_text(&mut v, "disclosure_id", disclosure_id);
    put(&mut v, "model_profile_digest", profile_digest.copy());
    put(&mut v, "provider_binding_digest", binding_digest.copy());
    put(&mut v, "segments", segments.copy());
    proof {
        assert(members(v@) =~= context_id_document(
            attempt_ref@,
            disclosure_id@,
            disclosure_digest@,
            segments@,
            profile_digest@,
            binding_digest@,
            *act,
        )->Object_0);
    }
    object(v)
}

/// What authenticates a registered effect to byom is taken over.
pub open spec fn host_effect_document(effect: Effect, act: ActAuthorization) -> JsonView {
    JsonView::Object(
        seq![
            ("host_effect_digest"@, stored(effect.host_effect_digest@)),
            text_member("host_effect_ref"@, effect.effect_id@),
            text_member("intent_ref"@, act.act_intent_ref@),
            text_member("stable_execution_key"@, act.stable_execution_key@),
        ],
    )
}

/// What authenticates a registered effect to byom is taken over.
pub fn host_effect_subject(effect: &Effect, act: &ActAuthorization) -> (r: Json)
    ensures
        r@ == host_effect_document(*effect, *act),
{
    let mut v: Vec<(String, Json)> = Vec::new();
    put(&mut v, "host_effect_digest", read_stored(effect.host_effect_digest.as_str()));
    put_text(&mut v, "host_effect_ref", effect.effect_id.as_str());
    put_text(&mut v, "intent_ref", act.act_intent_ref.as_str());
    put_text(&mut v, "stable_execution_key", act.stable_execution_key.as_str());
    proof {
        assert(members(v@) =~= host_effect_document(*effect, *act)->Object_0);
    }
    object(v)
}

// ---------------------------------------------------- model calls, asked ----

/// What of the active seam a request to byom names.
#[derive(Debug)]
pub struct Expected {
    pub endpoint_incarnation: String,
    pub recovery_epoch: u64,
}

/// What every request about a model call carries: the protocol's version, the
/// seam that it expects, who drives the call, and what measures it.
#[derive(Debug)]
pub struct Wire {
    pub version: Json,
    pub expected: Expected,
    pub audience: String,
    pub source: String,
}

/// The fence epochs of a call: those of its episode, or zero without one.
pub open spec fn fences_or_zero(bound: Option<&EpisodeBinding>) -> Fences {
    match bound {
        Some(b) => b.fences,
        None => Fences { byom: 0, kovee: 0 },
    }
}

/// The episode of a call, where it has one.
pub open spec fn episode_of(bound: Option<&EpisodeBinding>) -> Option<Seq<char>> {
    match bound {
        Some(b) => Some(b.episode_ref@),
        None => None,
    }
}

/// The request that consumes the permit of a prepared effect.
pub open spec fn permit_document(
    version: JsonView,
    effect: Effect,
    act: ActAuthorization,
    expected: Expected,
    credential: Seq<char>,
    audience: Seq<char>,
    bound: Option<&EpisodeBinding>,
) -> JsonView {
    let f = fences_or_zero(bound);
    JsonView::Object(
        seq![
            text_member("budget_reservation_set_ref"@, act.budget_reservation_set_ref@),
            number_member("byom_fence_epoch"@, f.byom),
            ("disclosure_digest"@, stored(effect.disclosure_digest@)),
            text_member("disclosure_manifest_ref"@, effect.disclosure_manifest_ref@),
            text_member("driver_audience"@, audience),
        ] + crate::json::optional("episode_ref"@, episode_of(bound)) + seq![
            text_member("host_effect_credential"@, credential),
            ("host_effect_digest"@, stored(effect.host_effect_digest@)),
            text_member("host_effect_ref"@, effect.effect_id@),
            number_member("host_fence_epoch"@, f.kovee),
            text_member("intent_ref"@, act.act_intent_ref@),
            ("meta"@, permit_meta(effect, act, expected)),
            text_member("op"@, "execution_permit_consume"@),
            text_member("stable_execution_key"@, act.stable_execution_key@),
            ("version"@, version),
        ],
    )
}

/// What the permit's request says of itself.
pub open spec fn permit_meta(
    effect: Effect,
    act: ActAuthorization,
    expected: Expected,
) -> JsonView {
    JsonView::Object(
        seq![
            text_member("expected_endpoint_incarnation"@, expected.endpoint_incarnation@),
            number_member("expected_recovery_epoch"@, expected.recovery_epoch),
            number_member("expected_revision"@, act.act_revision),
            text_member("idempotency_key"@, "kovee-perm-"@ + act.stable_execution_key@),
            text_member("request_id"@, "kovee-perm-"@ + effect.effect_id@),
        ],
    )
}

/// What the permit's request says of itself.
fn permit_meta_of(effect: &Effect, act: &ActAuthorization, expected: &Expected) -> (r: Json)
    ensures
        r@ == permit_meta(*effect, *act, *expected),
{
    let mut v: Vec<(String, Json)> = Vec::new();
    put_text(&mut v, "expected_endpoint_incarnation", expected.endpoint_incarnation.as_str());
    put_number(&mut v, "expected_recovery_epoch", expected.recovery_epoch);
    put_number(&mut v, "expected_revision", act.act_revision);
    put_text(&mut v, "idempotency_key", cat2("kovee-perm-", act.stable_execution_key.as_str()).as_str());
    put_text(&mut v, "request_id", cat2("kovee-perm-", effect.effect_id.as_str()).as_str());
    proof {
        assert(members(v@) =~= permit_meta(*effect, *act, *expected)->Object_0);
    }
    object(v)
}

/// The request that consumes the permit of a prepared effect.
pub fn permit_request(
    version: &Json,
    effect: &Effect,
    act: &ActAuthorization,
    expected: &Expected,
    credential: &str,
    audience: &str,
    bound: Option<&EpisodeBinding>,
) -> (r: Json)
    ensures
        r@ == permit_document(
            version@,
            *effect,
            *act,
            *expected,
            credential@,
            audience@,
            bound,
        ),
{
    let (f, episode) = match bound {
        Some(b) => (b.fences, Some(b.episode_ref.clone())),
        None => (Fences { byom: 0, kovee: 0 }, None),
    };
    let mut v: Vec<(String, Json)> = Vec::new();
    put_text(&mut v, "budget_reservation_set_ref", act.budget_reservation_set_ref.as_str());
    put_number(&mut v, "byom_fence_epoch", f.byom);
    put(&mut v, "disclosure_digest", read_stored(effect.disclosure_digest.as_str()));
    put_text(&mut v, "disclosure_manifest_ref", effect.disclosure_manifest_ref.as_str());
    put_text(&mut v, "driver_audience", audience);
    crate::json::put_optional(&mut v, "episode_ref", &episode);
    put_text(&mut v, "host_effect_credential", credential);
    put(&mut v, "host_effect_digest", read_stored(effect.host_effect_digest.as_str()));
    put_text(&mut v, "host_effect_ref", effect.effect_id.as_str());
    put_number(&mut v, "host_fence_epoch", f.kovee);
    put_text(&mut v, "intent_ref", act.act_intent_ref.as_str());
    put(&mut v, "meta", permit_meta_of(effect, act, expected));
    put_text(&mut v, "op", "execution_permit_consume");
    put_text(&mut v, "stable_execution_key", act.stable_execution_key.as_str());
    put(&mut v, "version", version.copy());
    proof {
        assert(members(v@) =~= permit_document(
            version@,
            *effect,
            *act,
            *expected,
            credential@,
            audience@,
            bound,
        )->Object_0);
    }
    object(v)
}

/// One measured quantity.
pub open spec fn quantity_document(
    dimension: Seq<char>,
    unit: Seq<char>,
    amount: u64,
) -> JsonView {
    JsonView::Object(
        seq![
            number_member("amount"@, amount),
            text_member("dimension"@, dimension),
            text_member("unit"@, unit),
        ],
    )
}

/// One measured quantity.
fn quantity(dimension: &str, unit: &str, amount: u64) -> (r: Json)
    ensures
        r@ == quantity_document(dimension@, unit@, amount),
{
    let mut v: Vec<(String, Json)> = Vec::new();
    put_number(&mut v, "amount", amount);
    put_text(&mut v, "dimension", dimension);
    put_text(&mut v, "unit", unit);
    proof {
        assert(members(v@) =~= quantity_document(dimension@, unit@, amount)->Object_0);
    }
    object(v)
}

/// The tokens of a use, each kind by itself.
pub open spec fn measured_quantities(usage: Usage) -> JsonView {
    JsonView::List(
        seq![
            quantity_document("input_tokens"@, "token"@, usage.input_tokens),
            quantity_document("output_tokens"@, "token"@, usage.output_tokens),
        ],
    )
}

fn measured_list(usage: Usage) -> (r: Json)
    ensures
        r@ == measured_quantities(usage),
{
    let mut v: Vec<Json> = Vec::new();
    v.push(quantity("input_tokens", "token", usage.input_tokens));
    v.push(quantity("output_tokens", "token", usage.output_tokens));
    let r = Json::List(v);
    proof {
        assert(r@->List_0 =~= measured_quantities(usage)->List_0);
    }
    r
}

/// What a use is charged as, in one unit.
pub open spec fn charged_quantities(charged: u64) -> JsonView {
    JsonView::List(seq![quantity_document("unit"@, "unit"@, charged)])
}

fn charged_list(charged: u64) -> (r: Json)
    ensures
        r@ == charged_quantities(charged),
{
    let mut v: Vec<Json> = Vec::new();
    v.push(quantity("unit", "unit", charged));
    let r = Json::List(v);
    proof {
        assert(r@->List_0 =~= charged_quantities(charged)->List_0);
    }
    r
}

/// The report of a measured use, on the meter's channel.
pub open spec fn usage_document(
    version: JsonView,
    binding: EpisodeBinding,
    expected: Expected,
    source: Seq<char>,
    realm: Seq<char>,
    effect_id: Seq<char>,
    attempt_id: Seq<char>,
    usage: Usage,
    charged: u64,
) -> JsonView {
    JsonView::Object(
        seq![
            text_member("byom_attempt_ref"@, binding.byom_attempt_ref@),
            number_member("byom_fence_epoch"@, binding.fences.byom),
            ("charged_quantities"@, charged_quantities(charged)),
            text_member("episode_ref"@, binding.episode_ref@),
            number_member("generation"@, binding.generation),
            number_member("kovee_invocation_fence"@, binding.fences.kovee),
            (
                "meta"@,
                JsonView::Object(
                    seq![
                        text_member("expected_endpoint_incarnation"@, expected.endpoint_incarnation@),
                        number_member("expected_recovery_epoch"@, expected.recovery_epoch),
                        text_member("idempotency_key"@, "kovee-model-usage-"@ + effect_id),
                        text_member("request_id"@, "kovee-usg-"@ + effect_id),
                    ],
                ),
            ),
            text_member("meter_attestation_ref"@, "kovee-model-meter-attestation-"@ + attempt_id),
            text_member("meter_ref"@, "kovee-model-broker-meter-"@ + realm),
            text_member("op"@, "usage_report"@),
            ("quantities"@, measured_quantities(usage)),
            text_member("source"@, source),
            text_member("stable_report_key"@, "kovee-model-usage-"@ + effect_id),
            text_member("stable_settlement_key"@, "kovee-model-settle-"@ + effect_id),
            ("version"@, version),
        ],
    )
}

/// The report of a measured use, on the meter's channel.
pub fn usage_request(
    version: &Json,
    binding: &EpisodeBinding,
    expected: &Expected,
    source: &str,
    realm: &str,
    effect_id: &str,
    attempt_id: &str,
    usage: Usage,
    charged: u64,
) -> (r: Json)
    ensures
        r@ == usage_document(
            version@,
            *binding,
            *expected,
            source@,
            realm@,
            effect_id@,
            attempt_id@,
            usage,
            charged,
        ),
{
    let mut meta_members: Vec<(String, Json)> = Vec::new();
    put_text(&mut meta_members, "expected_endpoint_incarnation", expected.endpoint_incarnation.as_str());
    put_number(&mut meta_members, "expected_recovery_epoch", expected.recovery_epoch);
    put_text(&mut meta_members, "idempotency_key", cat2("kovee-model-usage-", effect_id).as_str());
    put_text(&mut meta_members, "request_id", cat2("kovee-usg-", effect_id).as_str());
    proof {
        assert(members(meta_members@) =~= (JsonView::Object(
                seq![
                    text_member("expected_endpoint_incarnation"@, expected.endpoint_incarnation@),
                    number_member("expected_recovery_epoch"@, expected.recovery_epoch),
                    text_member("idempotency_key"@, "kovee-model-usage-"@ + effect_id@),
                    text_member("request_id"@, "kovee-usg-"@ + effect_id@),
                ],
            ))->Object_0);
    }
    let mut v: Vec<(String, Json)> = Vec::new();
    put_text(&mut v, "byom_attempt_ref", binding.byom_attempt_ref.as_str());
    put_number(&mut v, "byom_fence_epoch", binding.fences.byom);
    put(&mut v, "charged_quantities", charged_list(charged));
    put_text(&mut v, "episode_ref", binding.episode_ref.as_str());
    put_number(&mut v, "generation", binding.generation);
    put_number(&mut v, "kovee_invocation_fence", binding.fences.kovee);
    put(&mut v, "meta", object(meta_members));
    put_text(&mut v, "meter_attestation_ref", cat2("kovee-model-meter-attestation-", attempt_id).as_str());
    put_text(&mut v, "meter_ref", cat2("kovee-model-broker-meter-", realm).as_str());
    put_text(&mut v, "op", "usage_report");
    put(&mut v, "quantities", measured_list(usage));
    put_text(&mut v, "source", source);
    put_text(&mut v, "stable_report_key", cat2("kovee-model-usage-", effect_id).as_str());
    put_text(&mut v, "stable_settlement_key", cat2("kovee-model-settle-", effect_id).as_str());
    put(&mut v, "version", version.copy());
    proof {
        assert(members(v@) =~= usage_document(
            version@,
            *binding,
            *expected,
            source@,
            realm@,
            effect_id@,
            attempt_id@,
            usage,
            charged,
        )->Object_0);
    }
    object(v)
}

// -------------------------------------------- prepared changes, digested ----

/// What the digest of a prepared policy change is taken over.
pub open spec fn policy_change_document(change: PolicyChange) -> JsonView {
    JsonView::Object(
        seq![
            text_member("affected_item_set_digest"@, change.affected_item_set_digest@),
            ("affected_space_frontier_refs"@, text_list(views(change.affected_space_frontier_refs@))),
            number_member("expected_project_revision"@, change.expected_project_revision),
            text_member("prior_default_classification_ref"@, change.prior_default_classification_ref@),
            text_member("prior_policy_set_ref"@, change.prior_policy_set_ref@),
            text_member("project_id"@, change.project_id@),
            text_member("proposed_default_classification_ref"@, change.proposed_default_classification_ref@),
            text_member("proposed_policy_set_ref"@, change.proposed_policy_set_ref@),
        ],
    )
}

/// What the digest of a prepared policy change is taken over.
pub fn policy_change_subject(change: &PolicyChange) -> (r: Json)
    ensures
        r@ == policy_change_document(*change),
{
    let mut v: Vec<(String, Json)> = Vec::new();
    put_text(&mut v, "affected_item_set_digest", change.affected_item_set_digest.as_str());
    put(&mut v, "affected_space_frontier_refs", list_of_texts(&change.affected_space_frontier_refs));
    put_number(&mut v, "expected_project_revision", change.expected_project_revision);
    put_text(&mut v, "prior_default_classification_ref", change.prior_default_classification_ref.as_str());
    put_text(&mut v, "prior_policy_set_ref", change.prior_policy_set_ref.as_str());
    put_text(&mut v, "project_id", change.project_id.as_str());
    put_text(&mut v, "proposed_default_classification_ref", change.proposed_default_classification_ref.as_str());
    put_text(&mut v, "proposed_policy_set_ref", change.proposed_policy_set_ref.as_str());
    proof {
        assert(members(v@) =~= policy_change_document(*change)->Object_0);
    }
    object(v)
}

/// What the digest of a project's audience is taken over.
pub open spec fn project_audience_document(project_id: Seq<char>) -> JsonView {
    JsonView::Object(
        seq![
            text_member("project_id"@, project_id),
            text_member("scope"@, "project"@),
        ],
    )
}

/// What the digest of a project's audience is taken over.
pub fn project_audience_subject(project_id: &str) -> (r: Json)
    ensures
        r@ == project_audience_document(project_id@),
{
    let mut v: Vec<(String, Json)> = Vec::new();
    put_text(&mut v, "project_id", project_id);
    put_text(&mut v, "scope", "project");
    proof {
        assert(members(v@) =~= project_audience_document(project_id@)->Object_0);
    }
    object(v)
}

/// What the digest of a prepared widening is taken over.
pub open spec fn widening_document(widening: Widening) -> JsonView {
    JsonView::Object(
        seq![
            ("affected_frontier_refs"@, text_list(views(widening.affected_frontier_refs@))),
            text_member("affected_item_set_digest"@, widening.affected_item_set_digest@),
            number_member("expected_space_revision"@, widening.expected_space_revision),
            text_member("prior_default_classification_ref"@, widening.prior_default_classification_ref@),
            text_member("prior_policy_set_ref"@, widening.prior_policy_set_ref@),
            text_member("prior_visibility"@, widening.prior_visibility@),
            text_member("proposed_default_classification_ref"@, widening.proposed_default_classification_ref@),
            text_member("proposed_policy_set_ref"@, widening.proposed_policy_set_ref@),
            text_member("proposed_visibility"@, widening.proposed_visibility@),
            text_member("space_id"@, widening.space_id@),
        ],
    )
}

/// What the digest of a prepared widening is taken over.
pub fn widening_subject(widening: &Widening) -> (r: Json)
    ensures
        r@ == widening_document(*widening),
{
    let mut v: Vec<(String, Json)> = Vec::new();
    put(&mut v, "affected_frontier_refs", list_of_texts(&widening.affected_frontier_refs));
    put_text(&mut v, "affected_item_set_digest", widening.affected_item_set_digest.as_str());
    put_number(&mut v, "expected_space_revision", widening.expected_space_revision);
    put_text(&mut v, "prior_default_classification_ref", widening.prior_default_classification_ref.as_str());
    put_text(&mut v, "prior_policy_set_ref", widening.prior_policy_set_ref.as_str());
    put_text(&mut v, "prior_visibility", widening.prior_visibility.as_str());
    put_text(&mut v, "proposed_default_classification_ref", widening.proposed_default_classification_ref.as_str());
    put_text(&mut v, "proposed_policy_set_ref", widening.proposed_policy_set_ref.as_str());
    put_text(&mut v, "proposed_visibility", widening.proposed_visibility.as_str());
    put_text(&mut v, "space_id", widening.space_id.as_str());
    proof {
        assert(members(v@) =~= widening_document(*widening)->Object_0);
    }
    object(v)
}

/// What the digest of a space's audience is taken over.
pub open spec fn space_audience_document(
    space_id: Seq<char>,
    visibility: Seq<char>,
) -> JsonView {
    JsonView::Object(
        seq![
            text_member("scope"@, "space"@),
            text_member("space_id"@, space_id),
            text_member("visibility"@, visibility),
        ],
    )
}

/// What the digest of a space's audience is taken over.
pub fn space_audience_subject(space_id: &str, visibility: &str) -> (r: Json)
    ensures
        r@ == space_audience_document(space_id@, visibility@),
{
    let mut v: Vec<(String, Json)> = Vec::new();
    put_text(&mut v, "scope", "space");
    put_text(&mut v, "space_id", space_id);
    put_text(&mut v, "visibility", visibility);
    proof {
        assert(members(v@) =~= space_audience_document(space_id@, visibility@)->Object_0);
    }
    object(v)
}

/// One item of a set: its reference and the digest of its content.
pub open spec fn entry_document(c: Contribution) -> JsonView {
    JsonView::Object(
        seq![
            text_member("digest"@, c.content_digest@),
            text_member("ref"@, c.contribution_id@),
        ],
    )
}

/// One item of a set: its reference and the digest of its content.
fn entry(c: &Contribution) -> (r: Json)
    ensures
        r@ == entry_document(*c),
{
    let mut v: Vec<(String, Json)> = Vec::new();
    put_text(&mut v, "digest", c.content_digest.as_str());
    put_text(&mut v, "ref", c.contribution_id.as_str());
    proof {
        assert(members(v@) =~= entry_document(*c)->Object_0);
    }
    object(v)
}

/// The items of a set, in the order of a listing.
pub open spec fn entries(rows: Seq<Contribution>, list: Seq<usize>) -> JsonView {
    JsonView::List(Seq::new(list.len(), |i: int| entry_document(rows[list[i] as int])))
}

fn entry_list(ws: &Workspace, list: &Vec<usize>) -> (r: Json)
    requires
        forall|i: int| 0 <= i < list@.len() ==> (#[trigger] list@[i]) < ws.contributions.rows@.len(),
    ensures
        r@ == entries(ws.contributions.rows@, list@),
{
    let mut v: Vec<Json> = Vec::new();
    let mut i: usize = 0;
    while i < list.len()
        invariant
            i <= list.len(),
            v.len() == i,
            forall|k: int|
                0 <= k < list@.len() ==> (#[trigger] list@[k]) < ws.contributions.rows@.len(),
            forall|k: int|
                0 <= k < i ==> crate::json::json_view(#[trigger] v@[k]) == entry_document(
                    ws.contributions.rows@[list@[k] as int],
                ),
        decreases list.len() - i,
    {
        let p: usize = list[i];
        v.push(entry(&ws.contributions.rows[p]));
        i = i + 1;
    }
    let r = Json::List(v);
    proof {
        assert(r@->List_0 =~= entries(ws.contributions.rows@, list@)->List_0);
    }
    r
}

/// What the digest of an item set is taken over.
pub open spec fn item_set_document(rows: Seq<Contribution>, list: Seq<usize>) -> JsonView {
    JsonView::Object(seq![("items"@, entries(rows, list))])
}

/// What the digest of an item set is taken over: each contribution of some
/// spaces, space by space, in the order of its number.
pub fn item_set_subject(ws: &Workspace, spaces: &Vec<String>) -> (r: Json)
    ensures
        exists|list: Seq<usize>|
            {
                &&& #[trigger] crate::lifecycle_ops::gathered(
                    ws.contributions.rows@,
                    views(spaces@),
                    list,
                )
                &&& r@ == item_set_document(ws.contributions.rows@, list)
            },
{
    let list = crate::lifecycle_ops::item_set(ws, spaces);
    proof {
        crate::lifecycle_ops::gathered_in_range(ws.contributions.rows@, views(spaces@), list@);
    }
    let mut v: Vec<(String, Json)> = Vec::new();
    put(&mut v, "items", entry_list(ws, &list));
    proof {
        assert(members(v@) =~= item_set_document(ws.contributions.rows@, list@)->Object_0);
    }
    object(v)
}

// ------------------------------------------------- invocations, digested ----

/// What the digest of a trigger by hand is taken over.
pub open spec fn manual_trigger_document(invocation_id: Seq<char>) -> JsonView {
    JsonView::Object(
        seq![
            text_member("invocation_id"@, invocation_id),
        ],
    )
}

/// What the digest of a trigger by hand is taken over.
pub fn manual_trigger_subject(invocation_id: &str) -> (r: Json)
    ensures
        r@ == manual_trigger_document(invocation_id@),
{
    let mut v: Vec<(String, Json)> = Vec::new();
    put_text(&mut v, "invocation_id", invocation_id);
    proof {
        assert(members(v@) =~= manual_trigger_document(invocation_id@)->Object_0);
    }
    object(v)
}

/// What the digest of an invocation's policy is taken over.
pub open spec fn effective_policy_document() -> JsonView {
    JsonView::Object(
        seq![
            text_member("confinement"@, "unclaimed"@),
            text_member("policy"@, "developer-local"@),
        ],
    )
}

/// What the digest of an invocation's policy is taken over.
pub fn effective_policy_subject() -> (r: Json)
    ensures
        r@ == effective_policy_document(),
{
    let mut v: Vec<(String, Json)> = Vec::new();
    put_text(&mut v, "confinement", "unclaimed");
    put_text(&mut v, "policy", "developer-local");
    proof {
        assert(members(v@) =~= effective_policy_document()->Object_0);
    }
    object(v)
}

/// What the digest of the authority to create an invocation is taken over.
pub open spec fn creation_authority_document(
    actor: Seq<char>,
    dependency_set: Seq<char>,
) -> JsonView {
    JsonView::Object(
        seq![
            text_member("actor"@, actor),
            text_member("dependency_set"@, dependency_set),
            text_member("operation"@, "invocation_create"@),
        ],
    )
}

/// What the digest of the authority to create an invocation is taken over.
pub fn creation_authority_subject(actor: &str, dependency_set: &str) -> (r: Json)
    ensures
        r@ == creation_authority_document(actor@, dependency_set@),
{
    let mut v: Vec<(String, Json)> = Vec::new();
    put_text(&mut v, "actor", actor);
    put_text(&mut v, "dependency_set", dependency_set);
    put_text(&mut v, "operation", "invocation_create");
    proof {
        assert(members(v@) =~= creation_authority_document(actor@, dependency_set@)->Object_0);
    }
    object(v)
}

/// What the digest of an invocation's configuration is taken over: there is none.
pub open spec fn effective_config_document() -> JsonView {
    JsonView::Object(
        seq![
            ("config"@, JsonView::Object(Seq::empty())),
        ],
    )
}

/// What the digest of an invocation's configuration is taken over: there is none.
pub fn effective_config_subject() -> (r: Json)
    ensures
        r@ == effective_config_document(),
{
    let mut v: Vec<(String, Json)> = Vec::new();
    put(&mut v, "config", empty_object());
    proof {
        assert(members(v@) =~= effective_config_document()->Object_0);
    }
    object(v)
}

/// What the digest of an invocation's secrets is taken over: there are none.
pub open spec fn secret_bindings_document() -> JsonView {
    JsonView::Object(
        seq![
            ("secrets"@, JsonView::List(Seq::empty())),
        ],
    )
}

/// What the digest of an invocation's secrets is taken over: there are none.
pub fn secret_bindings_subject() -> (r: Json)
    ensures
        r@ == secret_bindings_document(),
{
    let mut v: Vec<(String, Json)> = Vec::new();
    put(&mut v, "secrets", empty_list());
    proof {
        assert(members(v@) =~= secret_bindings_document()->Object_0);
    }
    object(v)
}

/// What the digest of an input manifest is taken over: the exact trigger, context
/// and profile that an invocation was created with. The items are given as a
/// document.
pub open spec fn input_manifest_document(
    m: InputManifest,
    dependency_set_ref: Seq<char>,
    items: JsonView,
) -> JsonView {
    JsonView::Object(
        seq![
            ("ancestry"@, JsonView::List(Seq::empty())),
            ("artifact_refs"@, JsonView::List(Seq::empty())),
            text_member("assistant_revision_id"@, m.assistant_revision_id@),
            text_member("authority_digest"@, m.authority_digest@),
            text_member("authorization_dependency_set_ref"@, dependency_set_ref),
            ("branch_id"@, nullable(opt_view(m.branch_id))),
            ("budget_reservation_set_ref"@, nullable(opt_view(m.budget_reservation_set_ref))),
            text_member("cancellation_policy"@, "none"@),
            text_member("config_digest"@, m.config_digest@),
            ("context_assembly_digest"@, nullable(opt_view(m.context_assembly_digest))),
            ("context_assembly_ref"@, nullable(opt_view(m.context_assembly_ref))),
            text_member("created_at"@, m.created_at@),
            ("deadline"@, nullable(opt_view(m.deadline))),
            number_member("deployment_revision"@, m.deployment_revision),
            ("disclosure_rules_digest"@, nullable(opt_view(m.disclosure_rules_digest))),
            ("frontier_digest"@, nullable(opt_view(m.frontier_digest))),
            ("frontier_ref"@, nullable(opt_view(m.frontier_ref))),
            text_member("input_manifest_id"@, m.input_manifest_id@),
            text_member("invocation_id"@, m.invocation_id@),
            ("model_tool_profile_bindings"@, JsonView::List(Seq::empty())),
            ("ordered_input_refs"@, items),
            text_member("policy_digest"@, m.policy_digest@),
            ("resource_limits"@, JsonView::Object(Seq::empty())),
            number_member("revision"@, 1),
            text_member("secret_binding_set_digest"@, m.secret_binding_set_digest@),
            ("space_id"@, nullable(opt_view(m.space_id))),
            text_member("trigger_digest"@, m.trigger_digest@),
            text_member("trigger_ref"@, m.trigger_ref@),
        ],
    )
}

/// What the digest of an input manifest is taken over: the exact trigger, context
/// and profile that an invocation was created with. The items are given as a
/// document.
pub fn input_manifest_subject(
    m: &InputManifest,
    dependency_set_ref: &str,
    items: &Json,
) -> (r: Json)
    ensures
        r@ == input_manifest_document(*m, dependency_set_ref@, items@),
{
    let mut v: Vec<(String, Json)> = Vec::new();
    put(&mut v, "ancestry", empty_list());
    put(&mut v, "artifact_refs", empty_list());
    put_text(&mut v, "assistant_revision_id", m.assistant_revision_id.as_str());
    put_text(&mut v, "authority_digest", m.authority_digest.as_str());
    put_text(&mut v, "authorization_dependency_set_ref", dependency_set_ref);
    put(&mut v, "branch_id", nullable_text(&m.branch_id));
    put(&mut v, "budget_reservation_set_ref", nullable_text(&m.budget_reservation_set_ref));
    put_text(&mut v, "cancellation_policy", "none");
    put_text(&mut v, "config_digest", m.config_digest.as_str());
    put(&mut v, "context_assembly_digest", nullable_text(&m.context_assembly_digest));
    put(&mut v, "context_assembly_ref", nullable_text(&m.context_assembly_ref));
    put_text(&mut v, "created_at", m.created_at.as_str());
    put(&mut v, "deadline", nullable_text(&m.deadline));
    put_number(&mut v, "deployment_revision", m.deployment_revision);
    put(&mut v, "disclosure_rules_digest", nullable_text(&m.disclosure_rules_digest));
    put(&mut v, "frontier_digest", nullable_text(&m.frontier_digest));
    put(&mut v, "frontier_ref", nullable_text(&m.frontier_ref));
    put_text(&mut v, "input_manifest_id", m.input_manifest_id.as_str());
    put_text(&mut v, "invocation_id", m.invocation_id.as_str());
    put(&mut v, "model_tool_profile_bindings", empty_list());
    put(&mut v, "ordered_input_refs", items.copy());
    put_text(&mut v, "policy_digest", m.policy_digest.as_str());
    put(&mut v, "resource_limits", empty_object());
    put_number(&mut v, "revision", 1);
    put_text(&mut v, "secret_binding_set_digest", m.secret_binding_set_digest.as_str());
    put(&mut v, "space_id", nullable_text(&m.space_id));
    put_text(&mut v, "trigger_digest", m.trigger_digest.as_str());
    put_text(&mut v, "trigger_ref", m.trigger_ref.as_str());
    proof {
        assert(members(v@) =~= input_manifest_document(*m, dependency_set_ref@, items@)->Object_0);
    }
    object(v)
}

// ----------------------------------------------- contributions, digested ----

/// What the digest of a contribution's content is taken over. Its parts and its
/// references are given as documents.
pub open spec fn content_document(
    space_id: Seq<char>,
    branch_id: Seq<char>,
    branch_sequence: u64,
    kind: Seq<char>,
    body_parts: JsonView,
    subject_refs: JsonView,
    source_refs: JsonView,
    epistemic_posture: Option<Seq<char>>,
) -> JsonView {
    JsonView::Object(
        seq![
            ("body_parts"@, body_parts),
            ("epistemic_posture"@, nullable(epistemic_posture)),
            text_member("kind"@, kind),
            text_member("origin_branch_id"@, branch_id),
            number_member("origin_branch_sequence"@, branch_sequence),
            ("source_refs"@, source_refs),
            text_member("space_id"@, space_id),
            ("subject_refs"@, subject_refs),
        ],
    )
}

/// What the digest of a contribution's content is taken over. Its parts and its
/// references are given as documents.
pub fn content_subject(
    space_id: &str,
    branch_id: &str,
    branch_sequence: u64,
    kind: &str,
    body_parts: &Json,
    subject_refs: &Json,
    source_refs: &Json,
    epistemic_posture: &Option<String>,
) -> (r: Json)
    ensures
        r@ == content_document(
            space_id@,
            branch_id@,
            branch_sequence,
            kind@,
            body_parts@,
            subject_refs@,
            source_refs@,
            opt_view(*epistemic_posture),
        ),
{
    let mut v: Vec<(String, Json)> = Vec::new();
    put(&mut v, "body_parts", body_parts.copy());
    put(&mut v, "epistemic_posture", nullable_text(epistemic_posture));
    put_text(&mut v, "kind", kind);
    put_text(&mut v, "origin_branch_id", branch_id);
    put_number(&mut v, "origin_branch_sequence", branch_sequence);
    put(&mut v, "source_refs", source_refs.copy());
    put_text(&mut v, "space_id", space_id);
    put(&mut v, "subject_refs", subject_refs.copy());
    proof {
        assert(members(v@) =~= content_document(
            space_id@,
            branch_id@,
            branch_sequence,
            kind@,
            body_parts@,
            subject_refs@,
            source_refs@,
            opt_view(*epistemic_posture),
        )->Object_0);
    }
    object(v)
}

// ---------------------------------------------------------------- limits ----

/// What the digest of the announced limits is taken over.
pub open spec fn limits_document(
    request_bytes: u64,
    reply_bytes: u64,
    inline_content_scalars: u64,
    list_items: u64,
    page_limit: u64,
) -> JsonView {
    JsonView::Object(
        seq![
            number_member("display_name_scalars"@, 256),
            number_member("identifier_bytes"@, 128),
            number_member("inline_content_scalars"@, inline_content_scalars),
            number_member("list_items"@, list_items),
            number_member("page_limit"@, page_limit),
            number_member("reply_bytes"@, reply_bytes),
            number_member("request_bytes"@, request_bytes),
        ],
    )
}

/// What the digest of the announced limits is taken over.
pub fn limits_subject(
    request_bytes: u64,
    reply_bytes: u64,
    inline_content_scalars: u64,
    list_items: u64,
    page_limit: u64,
) -> (r: Json)
    ensures
        r@ == limits_document(
            request_bytes,
            reply_bytes,
            inline_content_scalars,
            list_items,
            page_limit,
        ),
{
    let mut v: Vec<(String, Json)> = Vec::new();
    put_number(&mut v, "display_name_scalars", 256);
    put_number(&mut v, "identifier_bytes", 128);
    put_number(&mut v, "inline_content_scalars", inline_content_scalars);
    put_number(&mut v, "list_items", list_items);
    put_number(&mut v, "page_limit", page_limit);
    put_number(&mut v, "reply_bytes", reply_bytes);
    put_number(&mut v, "request_bytes", request_bytes);
    proof {
        assert(members(v@) =~= limits_document(
            request_bytes,
            reply_bytes,
            inline_content_scalars,
            list_items,
            page_limit,
        )->Object_0);
    }
    object(v)
}

/// Nothing that a document of this kind (domain) is made of is lost: each part
/// stands under its own name, and two documents are the same only if all parts are.
pub proof fn domain_documents_are_told_apart(
    society_ref: Seq<char>,
    principal: Seq<char>,
    client_formation_key: Seq<char>,
    society_ref2: Seq<char>,
    principal2: Seq<char>,
    client_formation_key2: Seq<char>,
)
    requires
        domain_document(society_ref, principal, client_formation_key)
            == domain_document(society_ref2, principal2, client_formation_key2),
    ensures
        domain_document(society_ref, principal, client_formation_key)->Object_0.contains(text_member("client_formation_key"@, client_formation_key)),
        client_formation_key == client_formation_key2,
        domain_document(society_ref, principal, client_formation_key)->Object_0.contains(text_member("operation"@, "kovee_endeavor_form"@)),
        domain_document(society_ref, principal, client_formation_key)->Object_0.contains(text_member("requested_by_principal"@, principal)),
        principal == principal2,
        domain_document(society_ref, principal, client_formation_key)->Object_0.contains(text_member("society_ref"@, society_ref)),
        society_ref == society_ref2,
{
    let x = domain_document(society_ref, principal, client_formation_key)->Object_0;
    let y = domain_document(society_ref2, principal2, client_formation_key2)->Object_0;
    assert(x[0] == text_member("client_formation_key"@, client_formation_key));
    assert(x[0] == y[0]);
    assert(x[1] == text_member("operation"@, "kovee_endeavor_form"@));
    assert(x[2] == text_member("requested_by_principal"@, principal));
    assert(x[2] == y[2]);
    assert(x[3] == text_member("society_ref"@, society_ref));
    assert(x[3] == y[3]);
}

/// Nothing that a document of this kind (bundle) is made of is lost: each part
/// stands under its own name, and two documents are the same only if all parts are.
pub proof fn bundle_documents_are_told_apart(
    context_bundle_ref: Seq<char>,
    assembly: JsonView,
    context_bundle_ref2: Seq<char>,
    assembly2: JsonView,
)
    requires
        bundle_document(context_bundle_ref, assembly)
            == bundle_document(context_bundle_ref2, assembly2),
    ensures
        bundle_document(context_bundle_ref, assembly)->Object_0.contains(text_member("context_bundle_ref"@, context_bundle_ref)),
        context_bundle_ref == context_bundle_ref2,
        bundle_document(context_bundle_ref, assembly)->Object_0.contains(("digest"@, member_or_null(assembly, "digest"@))),
        member_or_null(assembly, "digest"@) == member_or_null(assembly2, "digest"@),
{
    let x = bundle_document(context_bundle_ref, assembly)->Object_0;
    let y = bundle_document(context_bundle_ref2, assembly2)->Object_0;
    assert(x[0] == text_member("context_bundle_ref"@, context_bundle_ref));
    assert(x[0] == y[0]);
    assert(x[1] == ("digest"@, member_or_null(assembly, "digest"@)));
    assert(x[1] == y[1]);
}

/// Nothing that a document of this kind (frontier) is made of is lost: each part
/// stands under its own name, and two documents are the same only if all parts are.
pub proof fn frontier_documents_are_told_apart(
    frontier_ref: Seq<char>,
    branch_id: Seq<char>,
    branch_head_digest: Seq<char>,
    frontier_ref2: Seq<char>,
    branch_id2: Seq<char>,
    branch_head_digest2: Seq<char>,
)
    requires
        frontier_document(frontier_ref, branch_id, branch_head_digest)
            == frontier_document(frontier_ref2, branch_id2, branch_head_digest2),
    ensures
        frontier_document(frontier_ref, branch_id, branch_head_digest)->Object_0.contains(text_member("branch_head_digest"@, branch_head_digest)),
        branch_head_digest == branch_head_digest2,
        frontier_document(frontier_ref, branch_id, branch_head_digest)->Object_0.contains(text_member("branch_id"@, branch_id)),
        branch_id == branch_id2,
        frontier_document(frontier_ref, branch_id, branch_head_digest)->Object_0.contains(text_member("frontier_ref"@, frontier_ref)),
        frontier_ref == frontier_ref2,
{
    let x = frontier_document(frontier_ref, branch_id, branch_head_digest)->Object_0;
    let y = frontier_document(frontier_ref2, branch_id2, branch_head_digest2)->Object_0;
    assert(x[0] == text_member("branch_head_digest"@, branch_head_digest));
    assert(x[0] == y[0]);
    assert(x[1] == text_member("branch_id"@, branch_id));
    assert(x[1] == y[1]);
    assert(x[2] == text_member("frontier_ref"@, frontier_ref));
    assert(x[2] == y[2]);
}

/// Nothing that a document of this kind (command) is made of is lost: each part
/// stands under its own name, and two documents are the same only if all parts are.
pub proof fn command_documents_are_told_apart(
    command: FormationCommand,
    command2: FormationCommand,
)
    requires
        command_document(command)
            == command_document(command2),
    ensures
        command_document(command)->Object_0.contains(text_member("byom_command_idempotency_key"@, command.byom_command_idempotency_key@)),
        command.byom_command_idempotency_key@ == command2.byom_command_idempotency_key@,
        command_document(command)->Object_0.contains(text_member("byom_endpoint_ref"@, command.byom_endpoint_ref@)),
        command.byom_endpoint_ref@ == command2.byom_endpoint_ref@,
        command_document(command)->Object_0.contains(text_member("command_endpoint_incarnation"@, command.command_endpoint_incarnation@)),
        command.command_endpoint_incarnation@ == command2.command_endpoint_incarnation@,
        command_document(command)->Object_0.contains(("context_bundle_digest"@, stored(command.context_bundle_digest@))),
        stored(command.context_bundle_digest@) == stored(command2.context_bundle_digest@),
        command_document(command)->Object_0.contains(text_member("context_bundle_ref"@, command.context_bundle_ref@)),
        command.context_bundle_ref@ == command2.context_bundle_ref@,
        command_document(command)->Object_0.contains(("endeavor_proposal"@, command.endeavor_proposal@)),
        command.endeavor_proposal@ == command2.endeavor_proposal@,
        command_document(command)->Object_0.contains(("endeavor_proposal_digest"@, stored(command.endeavor_proposal_digest@))),
        stored(command.endeavor_proposal_digest@) == stored(command2.endeavor_proposal_digest@),
        command_document(command)->Object_0.contains(text_member("expected_governance_rule_set_ref"@, command.expected_governance_rule_set_ref@)),
        command.expected_governance_rule_set_ref@ == command2.expected_governance_rule_set_ref@,
        command_document(command)->Object_0.contains(("expected_slot_snapshot_digest"@, stored(command.expected_slot_snapshot_digest@))),
        stored(command.expected_slot_snapshot_digest@) == stored(command2.expected_slot_snapshot_digest@),
        command_document(command)->Object_0.contains(("idempotency_domain_digest"@, stored(command.idempotency_domain_digest@))),
        stored(command.idempotency_domain_digest@) == stored(command2.idempotency_domain_digest@),
        command_document(command)->Object_0.contains(text_member("kovee_formation_intent_ref"@, command.kovee_formation_intent_ref@)),
        command.kovee_formation_intent_ref@ == command2.kovee_formation_intent_ref@,
        command_document(command)->Object_0.contains(("realm_byom_binding_digest"@, stored(command.binding.digest@))),
        stored(command.binding.digest@) == stored(command2.binding.digest@),
        command_document(command)->Object_0.contains(number_member("realm_byom_binding_epoch"@, command.binding.binding_epoch)),
        crate::json::number_of(command.binding.binding_epoch) == crate::json::number_of(command2.binding.binding_epoch),
        command_document(command)->Object_0.contains(text_member("realm_byom_binding_ref"@, command.binding.binding_ref@)),
        command.binding.binding_ref@ == command2.binding.binding_ref@,
        command_document(command)->Object_0.contains(number_member("realm_byom_binding_revision"@, command.binding.binding_revision)),
        crate::json::number_of(command.binding.binding_revision) == crate::json::number_of(command2.binding.binding_revision),
        command_document(command)->Object_0.contains(number_member("society_recovery_epoch"@, command.society_recovery_epoch)),
        crate::json::number_of(command.society_recovery_epoch) == crate::json::number_of(command2.society_recovery_epoch),
        command_document(command)->Object_0.contains(text_member("society_ref"@, command.society_ref@)),
        command.society_ref@ == command2.society_ref@,
        command_document(command)->Object_0.contains(("source_actor_binding_digest"@, stored(command.source_actor_binding_digest@))),
        stored(command.source_actor_binding_digest@) == stored(command2.source_actor_binding_digest@),
        command_document(command)->Object_0.contains(("source_principal_position"@, command.source_principal_position@)),
        command.source_principal_position@ == command2.source_principal_position@,
        command_document(command)->Object_0.contains(("source_principal_position_digest"@, stored(command.source_principal_position_digest@))),
        stored(command.source_principal_position_digest@) == stored(command2.source_principal_position_digest@),
        command_document(command)->Object_0.contains(text_member("source_principal_ref"@, command.source_principal_ref@)),
        command.source_principal_ref@ == command2.source_principal_ref@,
{
    let x = command_document(command)->Object_0;
    let y = command_document(command2)->Object_0;
    assert(x[0] == text_member("byom_command_idempotency_key"@, command.byom_command_idempotency_key@));
    assert(x[0] == y[0]);
    assert(x[1] == text_member("byom_endpoint_ref"@, command.byom_endpoint_ref@));
    assert(x[1] == y[1]);
    assert(x[2] == text_member("command_endpoint_incarnation"@, command.command_endpoint_incarnation@));
    assert(x[2] == y[2]);
    assert(x[3] == ("context_bundle_digest"@, stored(command.context_bundle_digest@)));
    assert(x[3] == y[3]);
    assert(x[4] == text_member("context_bundle_ref"@, command.context_bundle_ref@));
    assert(x[4] == y[4]);
    assert(x[5] == ("endeavor_proposal"@, command.endeavor_proposal@));
    assert(x[5] == y[5]);
    assert(x[6] == ("endeavor_proposal_digest"@, stored(command.endeavor_proposal_digest@)));
    assert(x[6] == y[6]);
    assert(x[7] == text_member("expected_governance_rule_set_ref"@, command.expected_governance_rule_set_ref@));
    assert(x[7] == y[7]);
    assert(x[8] == ("expected_slot_snapshot_digest"@, stored(command.expected_slot_snapshot_digest@)));
    assert(x[8] == y[8]);
    assert(x[9] == ("idempotency_domain_digest"@, stored(command.idempotency_domain_digest@)));
    assert(x[9] == y[9]);
    assert(x[10] == text_member("kovee_formation_intent_ref"@, command.kovee_formation_intent_ref@));
    assert(x[10] == y[10]);
    assert(x[11] == ("realm_byom_binding_digest"@, stored(command.binding.digest@)));
    assert(x[11] == y[11]);
    assert(x[12] == number_member("realm_byom_binding_epoch"@, command.binding.binding_epoch));
    assert(x[12] == y[12]);
    assert(x[13] == text_member("realm_byom_binding_ref"@, command.binding.binding_ref@));
    assert(x[13] == y[13]);
    assert(x[14] == number_member("realm_byom_binding_revision"@, command.binding.binding_revision));
    assert(x[14] == y[14]);
    assert(x[15] == number_member("society_recovery_epoch"@, command.society_recovery_epoch));
    assert(x[15] == y[15]);
    assert(x[16] == text_member("society_ref"@, command.society_ref@));
    assert(x[16] == y[16]);
    assert(x[17] == ("source_actor_binding_digest"@, stored(command.source_actor_binding_digest@)));
    assert(x[17] == y[17]);
    assert(x[18] == ("source_principal_position"@, command.source_principal_position@));
    assert(x[18] == y[18]);
    assert(x[19] == ("source_principal_position_digest"@, stored(command.source_principal_position_digest@)));
    assert(x[19] == y[19]);
    assert(x[20] == text_member("source_principal_ref"@, command.source_principal_ref@));
    assert(x[20] == y[20]);
}

/// Nothing that a document of this kind (authority) is made of is lost: each part
/// stands under its own name, and two documents are the same only if all parts are.
pub proof fn authority_documents_are_told_apart(
    dependency_set_ref: Seq<char>,
    realm: Seq<char>,
    frontier_ref: Seq<char>,
    command: FormationCommand,
    command_digest: Seq<char>,
    dependency_set_ref2: Seq<char>,
    realm2: Seq<char>,
    frontier_ref2: Seq<char>,
    command2: FormationCommand,
    command_digest2: Seq<char>,
)
    requires
        authority_document(dependency_set_ref, realm, frontier_ref, command, command_digest)
            == authority_document(dependency_set_ref2, realm2, frontier_ref2, command2, command_digest2),
    ensures
        authority_document(dependency_set_ref, realm, frontier_ref, command, command_digest)->Object_0.contains(("canonical_byom_command_digest"@, stored(command_digest))),
        stored(command_digest) == stored(command_digest2),
        authority_document(dependency_set_ref, realm, frontier_ref, command, command_digest)->Object_0.contains(text_member("context_bundle_ref"@, command.context_bundle_ref@)),
        command.context_bundle_ref@ == command2.context_bundle_ref@,
        authority_document(dependency_set_ref, realm, frontier_ref, command, command_digest)->Object_0.contains(text_member("dependency_set_ref"@, dependency_set_ref)),
        dependency_set_ref == dependency_set_ref2,
        authority_document(dependency_set_ref, realm, frontier_ref, command, command_digest)->Object_0.contains(text_member("endpoint_incarnation"@, command.command_endpoint_incarnation@)),
        command.command_endpoint_incarnation@ == command2.command_endpoint_incarnation@,
        authority_document(dependency_set_ref, realm, frontier_ref, command, command_digest)->Object_0.contains(text_member("frontier_ref"@, frontier_ref)),
        frontier_ref == frontier_ref2,
        authority_document(dependency_set_ref, realm, frontier_ref, command, command_digest)->Object_0.contains(number_member("realm_byom_binding_epoch"@, command.binding.binding_epoch)),
        crate::json::number_of(command.binding.binding_epoch) == crate::json::number_of(command2.binding.binding_epoch),
        authority_document(dependency_set_ref, realm, frontier_ref, command, command_digest)->Object_0.contains(text_member("realm_byom_binding_ref"@, command.binding.binding_ref@)),
        command.binding.binding_ref@ == command2.binding.binding_ref@,
        authority_document(dependency_set_ref, realm, frontier_ref, command, command_digest)->Object_0.contains(text_member("realm_ref"@, realm)),
        realm == realm2,
        authority_document(dependency_set_ref, realm, frontier_ref, command, command_digest)->Object_0.contains(number_member("society_recovery_epoch"@, command.society_recovery_epoch)),
        crate::json::number_of(command.society_recovery_epoch) == crate::json::number_of(command2.society_recovery_epoch),
        authority_document(dependency_set_ref, realm, frontier_ref, command, command_digest)->Object_0.contains(text_member("society_ref"@, command.society_ref@)),
        command.society_ref@ == command2.society_ref@,
{
    let x = authority_document(dependency_set_ref, realm, frontier_ref, command, command_digest)->Object_0;
    let y = authority_document(dependency_set_ref2, realm2, frontier_ref2, command2, command_digest2)->Object_0;
    assert(x[0] == ("canonical_byom_command_digest"@, stored(command_digest)));
    assert(x[0] == y[0]);
    assert(x[1] == text_member("context_bundle_ref"@, command.context_bundle_ref@));
    assert(x[1] == y[1]);
    assert(x[2] == text_member("dependency_set_ref"@, dependency_set_ref));
    assert(x[2] == y[2]);
    assert(x[3] == text_member("endpoint_incarnation"@, command.command_endpoint_incarnation@));
    assert(x[3] == y[3]);
    assert(x[4] == text_member("frontier_ref"@, frontier_ref));
    assert(x[4] == y[4]);
    assert(x[5] == number_member("realm_byom_binding_epoch"@, command.binding.binding_epoch));
    assert(x[5] == y[5]);
    assert(x[6] == text_member("realm_byom_binding_ref"@, command.binding.binding_ref@));
    assert(x[6] == y[6]);
    assert(x[7] == text_member("realm_ref"@, realm));
    assert(x[7] == y[7]);
    assert(x[8] == number_member("society_recovery_epoch"@, command.society_recovery_epoch));
    assert(x[8] == y[8]);
    assert(x[9] == text_member("society_ref"@, command.society_ref@));
    assert(x[9] == y[9]);
}

/// Nothing that a document of this kind (intent) is made of is lost: each part
/// stands under its own name, and two documents are the same only if all parts are.
pub proof fn intent_documents_are_told_apart(
    formation_id: Seq<char>,
    revision: u64,
    state: IntentState,
    command_digest: Seq<char>,
    slot_generation: u64,
    formation_id2: Seq<char>,
    revision2: u64,
    state2: IntentState,
    command_digest2: Seq<char>,
    slot_generation2: u64,
)
    requires
        intent_document(formation_id, revision, state, command_digest, slot_generation)
            == intent_document(formation_id2, revision2, state2, command_digest2, slot_generation2),
    ensures
        intent_document(formation_id, revision, state, command_digest, slot_generation)->Object_0.contains(("canonical_byom_command_digest"@, stored(command_digest))),
        stored(command_digest) == stored(command_digest2),
        intent_document(formation_id, revision, state, command_digest, slot_generation)->Object_0.contains(text_member("formation_id"@, formation_id)),
        formation_id == formation_id2,
        intent_document(formation_id, revision, state, command_digest, slot_generation)->Object_0.contains(number_member("formation_slot_generation"@, slot_generation)),
        crate::json::number_of(slot_generation) == crate::json::number_of(slot_generation2),
        intent_document(formation_id, revision, state, command_digest, slot_generation)->Object_0.contains(number_member("revision"@, revision)),
        crate::json::number_of(revision) == crate::json::number_of(revision2),
        intent_document(formation_id, revision, state, command_digest, slot_generation)->Object_0.contains(text_member("state"@, state.name())),
        state.name() == state2.name(),
{
    let x = intent_document(formation_id, revision, state, command_digest, slot_generation)->Object_0;
    let y = intent_document(formation_id2, revision2, state2, command_digest2, slot_generation2)->Object_0;
    assert(x[0] == ("canonical_byom_command_digest"@, stored(command_digest)));
    assert(x[0] == y[0]);
    assert(x[1] == text_member("formation_id"@, formation_id));
    assert(x[1] == y[1]);
    assert(x[2] == number_member("formation_slot_generation"@, slot_generation));
    assert(x[2] == y[2]);
    assert(x[3] == number_member("revision"@, revision));
    assert(x[3] == y[3]);
    assert(x[4] == text_member("state"@, state.name()));
    assert(x[4] == y[4]);
}

/// Nothing that a document of this kind (slot) is made of is lost: each part
/// stands under its own name, and two documents are the same only if all parts are.
pub proof fn slot_documents_are_told_apart(
    slot_id: Seq<char>,
    generation: u64,
    state: Seq<char>,
    slot_id2: Seq<char>,
    generation2: u64,
    state2: Seq<char>,
)
    requires
        slot_document(slot_id, generation, state)
            == slot_document(slot_id2, generation2, state2),
    ensures
        slot_document(slot_id, generation, state)->Object_0.contains(number_member("generation"@, generation)),
        crate::json::number_of(generation) == crate::json::number_of(generation2),
        slot_document(slot_id, generation, state)->Object_0.contains(text_member("slot_id"@, slot_id)),
        slot_id == slot_id2,
        slot_document(slot_id, generation, state)->Object_0.contains(text_member("state"@, state)),
        state == state2,
{
    let x = slot_document(slot_id, generation, state)->Object_0;
    let y = slot_document(slot_id2, generation2, state2)->Object_0;
    assert(x[0] == number_member("generation"@, generation));
    assert(x[0] == y[0]);
    assert(x[1] == text_member("slot_id"@, slot_id));
    assert(x[1] == y[1]);
    assert(x[2] == text_member("state"@, state));
    assert(x[2] == y[2]);
}

/// Nothing that a document of this kind (attempt) is made of is lost: each part
/// stands under its own name, and two documents are the same only if all parts are.
pub proof fn attempt_documents_are_told_apart(
    attempt_id: Seq<char>,
    formation_id: Seq<char>,
    ordinal: u64,
    nonce: Seq<char>,
    command_digest: Seq<char>,
    attempt_id2: Seq<char>,
    formation_id2: Seq<char>,
    ordinal2: u64,
    nonce2: Seq<char>,
    command_digest2: Seq<char>,
)
    requires
        attempt_document(attempt_id, formation_id, ordinal, nonce, command_digest)
            == attempt_document(attempt_id2, formation_id2, ordinal2, nonce2, command_digest2),
    ensures
        attempt_document(attempt_id, formation_id, ordinal, nonce, command_digest)->Object_0.contains(text_member("attempt_id"@, attempt_id)),
        attempt_id == attempt_id2,
        attempt_document(attempt_id, formation_id, ordinal, nonce, command_digest)->Object_0.contains(text_member("attempt_nonce"@, nonce)),
        nonce == nonce2,
        attempt_document(attempt_id, formation_id, ordinal, nonce, command_digest)->Object_0.contains(number_member("attempt_ordinal"@, ordinal)),
        crate::json::number_of(ordinal) == crate::json::number_of(ordinal2),
        attempt_document(attempt_id, formation_id, ordinal, nonce, command_digest)->Object_0.contains(("canonical_byom_command_digest"@, stored(command_digest))),
        stored(command_digest) == stored(command_digest2),
        attempt_document(attempt_id, formation_id, ordinal, nonce, command_digest)->Object_0.contains(text_member("formation_id"@, formation_id)),
        formation_id == formation_id2,
{
    let x = attempt_document(attempt_id, formation_id, ordinal, nonce, command_digest)->Object_0;
    let y = attempt_document(attempt_id2, formation_id2, ordinal2, nonce2, command_digest2)->Object_0;
    assert(x[0] == text_member("attempt_id"@, attempt_id));
    assert(x[0] == y[0]);
    assert(x[1] == text_member("attempt_nonce"@, nonce));
    assert(x[1] == y[1]);
    assert(x[2] == number_member("attempt_ordinal"@, ordinal));
    assert(x[2] == y[2]);
    assert(x[3] == ("canonical_byom_command_digest"@, stored(command_digest)));
    assert(x[3] == y[3]);
    assert(x[4] == text_member("formation_id"@, formation_id));
    assert(x[4] == y[4]);
}

/// Nothing that a document of this kind (channel) is made of is lost: each part
/// stands under its own name, and two documents are the same only if all parts are.
pub proof fn channel_documents_are_told_apart(
    realm: Seq<char>,
    realm2: Seq<char>,
)
    requires
        channel_document(realm)
            == channel_document(realm2),
    ensures
        channel_document(realm)->Object_0.contains(text_member("channel"@, "kovee-owner-uds"@)),
        channel_document(realm)->Object_0.contains(text_member("realm_ref"@, realm)),
        realm == realm2,
{
    let x = channel_document(realm)->Object_0;
    let y = channel_document(realm2)->Object_0;
    assert(x[0] == text_member("channel"@, "kovee-owner-uds"@));
    assert(x[1] == text_member("realm_ref"@, realm));
    assert(x[1] == y[1]);
}

/// Nothing that a document of this kind (proof) is made of is lost: each part
/// stands under its own name, and two documents are the same only if all parts are.
pub proof fn proof_documents_are_told_apart(
    authentication_proof: JsonView,
    authentication_proof2: JsonView,
)
    requires
        proof_document(authentication_proof)
            == proof_document(authentication_proof2),
    ensures
        proof_document(authentication_proof)->Object_0.contains(("proof"@, authentication_proof)),
        authentication_proof == authentication_proof2,
{
    let x = proof_document(authentication_proof)->Object_0;
    let y = proof_document(authentication_proof2)->Object_0;
    assert(x[0] == ("proof"@, authentication_proof));
    assert(x[0] == y[0]);
}

/// Nothing that a document of this kind (link) is made of is lost: each part
/// stands under its own name, and two documents are the same only if all parts are.
pub proof fn link_documents_are_told_apart(
    formation_id: Seq<char>,
    endeavor_ref: Seq<char>,
    endeavor_revision: u64,
    result_digest: Seq<char>,
    formation_id2: Seq<char>,
    endeavor_ref2: Seq<char>,
    endeavor_revision2: u64,
    result_digest2: Seq<char>,
)
    requires
        link_document(formation_id, endeavor_ref, endeavor_revision, result_digest)
            == link_document(formation_id2, endeavor_ref2, endeavor_revision2, result_digest2),
    ensures
        link_document(formation_id, endeavor_ref, endeavor_revision, result_digest)->Object_0.contains(text_member("endeavor_ref"@, endeavor_ref)),
        endeavor_ref == endeavor_ref2,
        link_document(formation_id, endeavor_ref, endeavor_revision, result_digest)->Object_0.contains(number_member("endeavor_revision"@, endeavor_revision)),
        crate::json::number_of(endeavor_revision) == crate::json::number_of(endeavor_revision2),
        link_document(formation_id, endeavor_ref, endeavor_revision, result_digest)->Object_0.contains(text_member("formation_id"@, formation_id)),
        formation_id == formation_id2,
        link_document(formation_id, endeavor_ref, endeavor_revision, result_digest)->Object_0.contains(("result_digest"@, stored(result_digest))),
        stored(result_digest) == stored(result_digest2),
{
    let x = link_document(formation_id, endeavor_ref, endeavor_revision, result_digest)->Object_0;
    let y = link_document(formation_id2, endeavor_ref2, endeavor_revision2, result_digest2)->Object_0;
    assert(x[0] == text_member("endeavor_ref"@, endeavor_ref));
    assert(x[0] == y[0]);
    assert(x[1] == number_member("endeavor_revision"@, endeavor_revision));
    assert(x[1] == y[1]);
    assert(x[2] == text_member("formation_id"@, formation_id));
    assert(x[2] == y[2]);
    assert(x[3] == ("result_digest"@, stored(result_digest)));
    assert(x[3] == y[3]);
}

/// Nothing that a document of this kind (form) is made of is lost: each part
/// stands under its own name, and two documents are the same only if all parts are.
pub proof fn form_documents_are_told_apart(
    version: JsonView,
    intent: Intent,
    attempt: FormationAttempt,
    authentication_proof: JsonView,
    version2: JsonView,
    intent2: Intent,
    attempt2: FormationAttempt,
    authentication_proof2: JsonView,
)
    requires
        form_document(version, intent, attempt, authentication_proof)
            == form_document(version2, intent2, attempt2, authentication_proof2),
    ensures
        form_document(version, intent, attempt, authentication_proof)->Object_0.contains(text_member("attempt_id"@, attempt.attempt_id@)),
        attempt.attempt_id@ == attempt2.attempt_id@,
        form_document(version, intent, attempt, authentication_proof)->Object_0.contains(text_member("attempt_nonce"@, attempt.attempt_nonce@)),
        attempt.attempt_nonce@ == attempt2.attempt_nonce@,
        form_document(version, intent, attempt, authentication_proof)->Object_0.contains(("attempt_recovery_binding_digest"@, stored(attempt.recovery_binding.digest@))),
        stored(attempt.recovery_binding.digest@) == stored(attempt2.recovery_binding.digest@),
        form_document(version, intent, attempt, authentication_proof)->Object_0.contains(number_member("attempt_recovery_binding_epoch"@, attempt.recovery_binding.binding_epoch)),
        crate::json::number_of(attempt.recovery_binding.binding_epoch) == crate::json::number_of(attempt2.recovery_binding.binding_epoch),
        form_document(version, intent, attempt, authentication_proof)->Object_0.contains(text_member("attempt_recovery_binding_ref"@, attempt.recovery_binding.binding_ref@)),
        attempt.recovery_binding.binding_ref@ == attempt2.recovery_binding.binding_ref@,
        form_document(version, intent, attempt, authentication_proof)->Object_0.contains(number_member("attempt_recovery_binding_revision"@, attempt.recovery_binding.binding_revision)),
        crate::json::number_of(attempt.recovery_binding.binding_revision) == crate::json::number_of(attempt2.recovery_binding.binding_revision),
        form_document(version, intent, attempt, authentication_proof)->Object_0.contains(("authentication_observation_digest"@, stored(attempt.authentication_observation_digest@))),
        stored(attempt.authentication_observation_digest@) == stored(attempt2.authentication_observation_digest@),
        form_document(version, intent, attempt, authentication_proof)->Object_0.contains(text_member("authentication_observation_ref"@, attempt.authentication_observation_ref@)),
        attempt.authentication_observation_ref@ == attempt2.authentication_observation_ref@,
        form_document(version, intent, attempt, authentication_proof)->Object_0.contains(("authentication_proof"@, authentication_proof)),
        authentication_proof == authentication_proof2,
        form_document(version, intent, attempt, authentication_proof)->Object_0.contains(("canonical_command_digest"@, stored(intent.canonical_byom_command_digest@))),
        stored(intent.canonical_byom_command_digest@) == stored(intent2.canonical_byom_command_digest@),
        form_document(version, intent, attempt, authentication_proof)->Object_0.contains(("command"@, command_document(intent.command))),
        command_document(intent.command) == command_document(intent2.command),
        intent.command.command_endpoint_incarnation@ == intent2.command.command_endpoint_incarnation@,
        crate::json::number_of(intent.command.society_recovery_epoch) == crate::json::number_of(intent2.command.society_recovery_epoch),
        intent.command.byom_command_idempotency_key@ == intent2.command.byom_command_idempotency_key@,
        attempt.attempt_id@ == attempt2.attempt_id@,
        form_document(version, intent, attempt, authentication_proof)->Object_0.contains(text_member("op"@, "kovee_endeavor_form"@)),
        form_document(version, intent, attempt, authentication_proof)->Object_0.contains(("version"@, version)),
        version == version2,
{
    let x = form_document(version, intent, attempt, authentication_proof)->Object_0;
    let y = form_document(version2, intent2, attempt2, authentication_proof2)->Object_0;
    assert(x[0] == text_member("attempt_id"@, attempt.attempt_id@));
    assert(x[0] == y[0]);
    assert(x[1] == text_member("attempt_nonce"@, attempt.attempt_nonce@));
    assert(x[1] == y[1]);
    assert(x[2] == ("attempt_recovery_binding_digest"@, stored(attempt.recovery_binding.digest@)));
    assert(x[2] == y[2]);
    assert(x[3] == number_member("attempt_recovery_binding_epoch"@, attempt.recovery_binding.binding_epoch));
    assert(x[3] == y[3]);
    assert(x[4] == text_member("attempt_recovery_binding_ref"@, attempt.recovery_binding.binding_ref@));
    assert(x[4] == y[4]);
    assert(x[5] == number_member("attempt_recovery_binding_revision"@, attempt.recovery_binding.binding_revision));
    assert(x[5] == y[5]);
    assert(x[6] == ("authentication_observation_digest"@, stored(attempt.authentication_observation_digest@)));
    assert(x[6] == y[6]);
    assert(x[7] == text_member("authentication_observation_ref"@, attempt.authentication_observation_ref@));
    assert(x[7] == y[7]);
    assert(x[8] == ("authentication_proof"@, authentication_proof));
    assert(x[8] == y[8]);
    assert(x[9] == ("canonical_command_digest"@, stored(intent.canonical_byom_command_digest@)));
    assert(x[9] == y[9]);
    assert(x[10] == ("command"@, command_document(intent.command)));
    assert(x[10] == y[10]);
    assert(x[11] == y[11]);
    assert(x[12] == text_member("op"@, "kovee_endeavor_form"@));
    assert(x[13] == ("version"@, version));
    assert(x[13] == y[13]);
    assert(x[11].1->Object_0 == y[11].1->Object_0);
    assert(x[11].1->Object_0[0] == y[11].1->Object_0[0] && x[11].1->Object_0[1] == y[11].1->Object_0[1] && x[11].1->Object_0[2] == y[11].1->Object_0[2] && x[11].1->Object_0[3] == y[11].1->Object_0[3]);
}

/// Nothing that a document of this kind (result query) is made of is lost: each part
/// stands under its own name, and two documents are the same only if all parts are.
pub proof fn result_query_documents_are_told_apart(
    version: JsonView,
    intent: Intent,
    pin: BindingPin,
    incarnation: Seq<char>,
    version2: JsonView,
    intent2: Intent,
    pin2: BindingPin,
    incarnation2: Seq<char>,
)
    requires
        result_query_document(version, intent, pin, incarnation)
            == result_query_document(version2, intent2, pin2, incarnation2),
    ensures
        result_query_document(version, intent, pin, incarnation)->Object_0.contains(text_member("byom_command_idempotency_key"@, intent.command.byom_command_idempotency_key@)),
        intent.command.byom_command_idempotency_key@ == intent2.command.byom_command_idempotency_key@,
        result_query_document(version, intent, pin, incarnation)->Object_0.contains(("canonical_command_digest"@, stored(intent.canonical_byom_command_digest@))),
        stored(intent.canonical_byom_command_digest@) == stored(intent2.canonical_byom_command_digest@),
        result_query_document(version, intent, pin, incarnation)->Object_0.contains(text_member("current_byom_endpoint_ref"@, intent.command.byom_endpoint_ref@)),
        intent.command.byom_endpoint_ref@ == intent2.command.byom_endpoint_ref@,
        result_query_document(version, intent, pin, incarnation)->Object_0.contains(text_member("current_endpoint_incarnation"@, incarnation)),
        incarnation == incarnation2,
        result_query_document(version, intent, pin, incarnation)->Object_0.contains(("current_recovery_binding_digest"@, stored(pin.digest@))),
        stored(pin.digest@) == stored(pin2.digest@),
        result_query_document(version, intent, pin, incarnation)->Object_0.contains(number_member("current_recovery_binding_epoch"@, pin.binding_epoch)),
        crate::json::number_of(pin.binding_epoch) == crate::json::number_of(pin2.binding_epoch),
        result_query_document(version, intent, pin, incarnation)->Object_0.contains(text_member("current_recovery_binding_ref"@, pin.binding_ref@)),
        pin.binding_ref@ == pin2.binding_ref@,
        result_query_document(version, intent, pin, incarnation)->Object_0.contains(number_member("current_recovery_binding_revision"@, pin.binding_revision)),
        crate::json::number_of(pin.binding_revision) == crate::json::number_of(pin2.binding_revision),
        result_query_document(version, intent, pin, incarnation)->Object_0.contains(("idempotency_domain_digest"@, stored(intent.command.idempotency_domain_digest@))),
        stored(intent.command.idempotency_domain_digest@) == stored(intent2.command.idempotency_domain_digest@),
        result_query_document(version, intent, pin, incarnation)->Object_0.contains(text_member("kovee_formation_intent_ref"@, intent.formation_id@)),
        intent.formation_id@ == intent2.formation_id@,
        result_query_document(version, intent, pin, incarnation)->Object_0.contains(text_member("op"@, "external_command_result_query"@)),
        result_query_document(version, intent, pin, incarnation)->Object_0.contains(text_member("operation"@, "kovee_endeavor_form"@)),
        result_query_document(version, intent, pin, incarnation)->Object_0.contains(("source_actor_binding_digest"@, stored(intent.command.source_actor_binding_digest@))),
        stored(intent.command.source_actor_binding_digest@) == stored(intent2.command.source_actor_binding_digest@),
        result_query_document(version, intent, pin, incarnation)->Object_0.contains(text_member("source_principal_ref"@, intent.requested_by_principal@)),
        intent.requested_by_principal@ == intent2.requested_by_principal@,
        result_query_document(version, intent, pin, incarnation)->Object_0.contains(text_member("target_byom_endpoint_ref"@, intent.command.byom_endpoint_ref@)),
        intent.command.byom_endpoint_ref@ == intent2.command.byom_endpoint_ref@,
        result_query_document(version, intent, pin, incarnation)->Object_0.contains(text_member("target_endpoint_incarnation"@, intent.command.command_endpoint_incarnation@)),
        intent.command.command_endpoint_incarnation@ == intent2.command.command_endpoint_incarnation@,
        result_query_document(version, intent, pin, incarnation)->Object_0.contains(("target_realm_byom_binding_digest"@, stored(pin.digest@))),
        stored(pin.digest@) == stored(pin2.digest@),
        result_query_document(version, intent, pin, incarnation)->Object_0.contains(number_member("target_realm_byom_binding_epoch"@, pin.binding_epoch)),
        crate::json::number_of(pin.binding_epoch) == crate::json::number_of(pin2.binding_epoch),
        result_query_document(version, intent, pin, incarnation)->Object_0.contains(text_member("target_realm_byom_binding_ref"@, pin.binding_ref@)),
        pin.binding_ref@ == pin2.binding_ref@,
        result_query_document(version, intent, pin, incarnation)->Object_0.contains(number_member("target_realm_byom_binding_revision"@, pin.binding_revision)),
        crate::json::number_of(pin.binding_revision) == crate::json::number_of(pin2.binding_revision),
        result_query_document(version, intent, pin, incarnation)->Object_0.contains(number_member("target_society_recovery_epoch"@, intent.command.society_recovery_epoch)),
        crate::json::number_of(intent.command.society_recovery_epoch) == crate::json::number_of(intent2.command.society_recovery_epoch),
        result_query_document(version, intent, pin, incarnation)->Object_0.contains(text_member("target_society_ref"@, intent.command.society_ref@)),
        intent.command.society_ref@ == intent2.command.society_ref@,
        result_query_document(version, intent, pin, incarnation)->Object_0.contains(("version"@, version)),
        version == version2,
{
    let x = result_query_document(version, intent, pin, incarnation)->Object_0;
    let y = result_query_document(version2, intent2, pin2, incarnation2)->Object_0;
    assert(x[0] == text_member("byom_command_idempotency_key"@, intent.command.byom_command_idempotency_key@));
    assert(x[0] == y[0]);
    assert(x[1] == ("canonical_command_digest"@, stored(intent.canonical_byom_command_digest@)));
    assert(x[1] == y[1]);
    assert(x[2] == text_member("current_byom_endpoint_ref"@, intent.command.byom_endpoint_ref@));
    assert(x[2] == y[2]);
    assert(x[3] == text_member("current_endpoint_incarnation"@, incarnation));
    assert(x[3] == y[3]);
    assert(x[4] == ("current_recovery_binding_digest"@, stored(pin.digest@)));
    assert(x[4] == y[4]);
    assert(x[5] == number_member("current_recovery_binding_epoch"@, pin.binding_epoch));
    assert(x[5] == y[5]);
    assert(x[6] == text_member("current_recovery_binding_ref"@, pin.binding_ref@));
    assert(x[6] == y[6]);
    assert(x[7] == number_member("current_recovery_binding_revision"@, pin.binding_revision));
    assert(x[7] == y[7]);
    assert(x[8] == ("idempotency_domain_digest"@, stored(intent.command.idempotency_domain_digest@)));
    assert(x[8] == y[8]);
    assert(x[9] == text_member("kovee_formation_intent_ref"@, intent.formation_id@));
    assert(x[9] == y[9]);
    assert(x[10] == text_member("op"@, "external_command_result_query"@));
    assert(x[11] == text_member("operation"@, "kovee_endeavor_form"@));
    assert(x[12] == ("source_actor_binding_digest"@, stored(intent.command.source_actor_binding_digest@)));
    assert(x[12] == y[12]);
    assert(x[13] == text_member("source_principal_ref"@, intent.requested_by_principal@));
    assert(x[13] == y[13]);
    assert(x[14] == text_member("target_byom_endpoint_ref"@, intent.command.byom_endpoint_ref@));
    assert(x[14] == y[14]);
    assert(x[15] == text_member("target_endpoint_incarnation"@, intent.command.command_endpoint_incarnation@));
    assert(x[15] == y[15]);
    assert(x[16] == ("target_realm_byom_binding_digest"@, stored(pin.digest@)));
    assert(x[16] == y[16]);
    assert(x[17] == number_member("target_realm_byom_binding_epoch"@, pin.binding_epoch));
    assert(x[17] == y[17]);
    assert(x[18] == text_member("target_realm_byom_binding_ref"@, pin.binding_ref@));
    assert(x[18] == y[18]);
    assert(x[19] == number_member("target_realm_byom_binding_revision"@, pin.binding_revision));
    assert(x[19] == y[19]);
    assert(x[20] == number_member("target_society_recovery_epoch"@, intent.command.society_recovery_epoch));
    assert(x[20] == y[20]);
    assert(x[21] == text_member("target_society_ref"@, intent.command.society_ref@));
    assert(x[21] == y[21]);
    assert(x[22] == ("version"@, version));
    assert(x[22] == y[22]);
}

/// Nothing that a document of this kind (terminalize) is made of is lost: each part
/// stands under its own name, and two documents are the same only if all parts are.
pub proof fn terminalize_documents_are_told_apart(
    version: JsonView,
    intent: Intent,
    pin: BindingPin,
    credential: FreshCredential,
    reason: Seq<char>,
    authentication_proof: JsonView,
    version2: JsonView,
    intent2: Intent,
    pin2: BindingPin,
    credential2: FreshCredential,
    reason2: Seq<char>,
    authentication_proof2: JsonView,
)
    requires
        terminalize_document(version, intent, pin, credential, reason, authentication_proof)
            == terminalize_document(version2, intent2, pin2, credential2, reason2, authentication_proof2),
    ensures
        terminalize_document(version, intent, pin, credential, reason, authentication_proof)->Object_0.contains(("authentication_observation_digest"@, stored(credential.authentication_observation_digest@))),
        stored(credential.authentication_observation_digest@) == stored(credential2.authentication_observation_digest@),
        terminalize_document(version, intent, pin, credential, reason, authentication_proof)->Object_0.contains(text_member("authentication_observation_ref"@, credential.authentication_observation_ref@)),
        credential.authentication_observation_ref@ == credential2.authentication_observation_ref@,
        terminalize_document(version, intent, pin, credential, reason, authentication_proof)->Object_0.contains(("authentication_proof"@, authentication_proof)),
        authentication_proof == authentication_proof2,
        terminalize_document(version, intent, pin, credential, reason, authentication_proof)->Object_0.contains(text_member("byom_command_idempotency_key"@, intent.command.byom_command_idempotency_key@)),
        intent.command.byom_command_idempotency_key@ == intent2.command.byom_command_idempotency_key@,
        terminalize_document(version, intent, pin, credential, reason, authentication_proof)->Object_0.contains(("canonical_command_digest"@, stored(intent.canonical_byom_command_digest@))),
        stored(intent.canonical_byom_command_digest@) == stored(intent2.canonical_byom_command_digest@),
        terminalize_document(version, intent, pin, credential, reason, authentication_proof)->Object_0.contains(("current_recovery_binding_digest"@, stored(pin.digest@))),
        stored(pin.digest@) == stored(pin2.digest@),
        terminalize_document(version, intent, pin, credential, reason, authentication_proof)->Object_0.contains(number_member("current_recovery_binding_epoch"@, pin.binding_epoch)),
        crate::json::number_of(pin.binding_epoch) == crate::json::number_of(pin2.binding_epoch),
        terminalize_document(version, intent, pin, credential, reason, authentication_proof)->Object_0.contains(text_member("current_recovery_binding_ref"@, pin.binding_ref@)),
        pin.binding_ref@ == pin2.binding_ref@,
        terminalize_document(version, intent, pin, credential, reason, authentication_proof)->Object_0.contains(number_member("current_recovery_binding_revision"@, pin.binding_revision)),
        crate::json::number_of(pin.binding_revision) == crate::json::number_of(pin2.binding_revision),
        terminalize_document(version, intent, pin, credential, reason, authentication_proof)->Object_0.contains(("current_source_actor_binding_digest"@, stored(credential.source_actor_binding_digest@))),
        stored(credential.source_actor_binding_digest@) == stored(credential2.source_actor_binding_digest@),
        terminalize_document(version, intent, pin, credential, reason, authentication_proof)->Object_0.contains(("idempotency_domain_digest"@, stored(intent.command.idempotency_domain_digest@))),
        stored(intent.command.idempotency_domain_digest@) == stored(intent2.command.idempotency_domain_digest@),
        terminalize_document(version, intent, pin, credential, reason, authentication_proof)->Object_0.contains(text_member("kovee_formation_intent_ref"@, intent.formation_id@)),
        intent.formation_id@ == intent2.formation_id@,
        intent.command.command_endpoint_incarnation@ == intent2.command.command_endpoint_incarnation@,
        crate::json::number_of(intent.command.society_recovery_epoch) == crate::json::number_of(intent2.command.society_recovery_epoch),
        intent.command.byom_command_idempotency_key@ == intent2.command.byom_command_idempotency_key@,
        credential.nonce@ == credential2.nonce@,
        terminalize_document(version, intent, pin, credential, reason, authentication_proof)->Object_0.contains(text_member("op"@, "external_command_terminalize"@)),
        terminalize_document(version, intent, pin, credential, reason, authentication_proof)->Object_0.contains(text_member("operation"@, "kovee_endeavor_form"@)),
        terminalize_document(version, intent, pin, credential, reason, authentication_proof)->Object_0.contains(text_member("reason"@, reason)),
        reason == reason2,
        terminalize_document(version, intent, pin, credential, reason, authentication_proof)->Object_0.contains(text_member("source_principal_ref"@, intent.requested_by_principal@)),
        intent.requested_by_principal@ == intent2.requested_by_principal@,
        terminalize_document(version, intent, pin, credential, reason, authentication_proof)->Object_0.contains(text_member("target_byom_endpoint_ref"@, intent.command.byom_endpoint_ref@)),
        intent.command.byom_endpoint_ref@ == intent2.command.byom_endpoint_ref@,
        terminalize_document(version, intent, pin, credential, reason, authentication_proof)->Object_0.contains(text_member("target_endpoint_incarnation"@, intent.command.command_endpoint_incarnation@)),
        intent.command.command_endpoint_incarnation@ == intent2.command.command_endpoint_incarnation@,
        terminalize_document(version, intent, pin, credential, reason, authentication_proof)->Object_0.contains(number_member("target_society_recovery_epoch"@, intent.command.society_recovery_epoch)),
        crate::json::number_of(intent.command.society_recovery_epoch) == crate::json::number_of(intent2.command.society_recovery_epoch),
        terminalize_document(version, intent, pin, credential, reason, authentication_proof)->Object_0.contains(text_member("target_society_ref"@, intent.command.society_ref@)),
        intent.command.society_ref@ == intent2.command.society_ref@,
        terminalize_document(version, intent, pin, credential, reason, authentication_proof)->Object_0.contains(("target_source_actor_binding_digest"@, stored(intent.command.source_actor_binding_digest@))),
        stored(intent.command.source_actor_binding_digest@) == stored(intent2.command.source_actor_binding_digest@),
        terminalize_document(version, intent, pin, credential, reason, authentication_proof)->Object_0.contains(("version"@, version)),
        version == version2,
{
    let x = terminalize_document(version, intent, pin, credential, reason, authentication_proof)->Object_0;
    let y = terminalize_document(version2, intent2, pin2, credential2, reason2, authentication_proof2)->Object_0;
    assert(x[0] == ("authentication_observation_digest"@, stored(credential.authentication_observation_digest@)));
    assert(x[0] == y[0]);
    assert(x[1] == text_member("authentication_observation_ref"@, credential.authentication_observation_ref@));
    assert(x[1] == y[1]);
    assert(x[2] == ("authentication_proof"@, authentication_proof));
    assert(x[2] == y[2]);
    assert(x[3] == text_member("byom_command_idempotency_key"@, intent.command.byom_command_idempotency_key@));
    assert(x[3] == y[3]);
    assert(x[4] == ("canonical_command_digest"@, stored(intent.canonical_byom_command_digest@)));
    assert(x[4] == y[4]);
    assert(x[5] == ("current_recovery_binding_digest"@, stored(pin.digest@)));
    assert(x[5] == y[5]);
    assert(x[6] == number_member("current_recovery_binding_epoch"@, pin.binding_epoch));
    assert(x[6] == y[6]);
    assert(x[7] == text_member("current_recovery_binding_ref"@, pin.binding_ref@));
    assert(x[7] == y[7]);
    assert(x[8] == number_member("current_recovery_binding_revision"@, pin.binding_revision));
    assert(x[8] == y[8]);
    assert(x[9] == ("current_source_actor_binding_digest"@, stored(credential.source_actor_binding_digest@)));
    assert(x[9] == y[9]);
    assert(x[10] == ("idempotency_domain_digest"@, stored(intent.command.idempotency_domain_digest@)));
    assert(x[10] == y[10]);
    assert(x[11] == text_member("kovee_formation_intent_ref"@, intent.formation_id@));
    assert(x[11] == y[11]);
    assert(x[12] == y[12]);
    assert(x[13] == text_member("op"@, "external_command_terminalize"@));
    assert(x[14] == text_member("operation"@, "kovee_endeavor_form"@));
    assert(x[15] == text_member("reason"@, reason));
    assert(x[15] == y[15]);
    assert(x[16] == text_member("source_principal_ref"@, intent.requested_by_principal@));
    assert(x[16] == y[16]);
    assert(x[17] == text_member("target_byom_endpoint_ref"@, intent.command.byom_endpoint_ref@));
    assert(x[17] == y[17]);
    assert(x[18] == text_member("target_endpoint_incarnation"@, intent.command.command_endpoint_incarnation@));
    assert(x[18] == y[18]);
    assert(x[19] == number_member("target_society_recovery_epoch"@, intent.command.society_recovery_epoch));
    assert(x[19] == y[19]);
    assert(x[20] == text_member("target_society_ref"@, intent.command.society_ref@));
    assert(x[20] == y[20]);
    assert(x[21] == ("target_source_actor_binding_digest"@, stored(intent.command.source_actor_binding_digest@)));
    assert(x[21] == y[21]);
    assert(x[22] == ("version"@, version));
    assert(x[22] == y[22]);
    assert(x[12].1->Object_0 == y[12].1->Object_0);
    assert(x[12].1->Object_0[0] == y[12].1->Object_0[0] && x[12].1->Object_0[1] == y[12].1->Object_0[1] && x[12].1->Object_0[2] == y[12].1->Object_0[2] && x[12].1->Object_0[3] == y[12].1->Object_0[3]);
}

/// Nothing that a document of this kind (disclosure id) is made of is lost: each part
/// stands under its own name, and two documents are the same only if all parts are.
pub proof fn disclosure_id_documents_are_told_apart(
    request: CompleteRequest<'_>,
    model_profile_ref: Seq<char>,
    profile_digest: JsonView,
    items: JsonView,
    provider_claims: JsonView,
    request2: CompleteRequest<'_>,
    model_profile_ref2: Seq<char>,
    profile_digest2: JsonView,
    items2: JsonView,
    provider_claims2: JsonView,
)
    requires
        disclosure_id_document(request, model_profile_ref, profile_digest, items, provider_claims)
            == disclosure_id_document(request2, model_profile_ref2, profile_digest2, items2, provider_claims2),
    ensures
        disclosure_id_document(request, model_profile_ref, profile_digest, items, provider_claims)->Object_0.contains(text_member("attempt_ref"@, request.attempt_id@)),
        request.attempt_id@ == request2.attempt_id@,
        disclosure_id_document(request, model_profile_ref, profile_digest, items, provider_claims)->Object_0.contains(("items"@, items)),
        items == items2,
        disclosure_id_document(request, model_profile_ref, profile_digest, items, provider_claims)->Object_0.contains(("model_profile_digest"@, profile_digest)),
        profile_digest == profile_digest2,
        disclosure_id_document(request, model_profile_ref, profile_digest, items, provider_claims)->Object_0.contains(text_member("model_profile_ref"@, model_profile_ref)),
        model_profile_ref == model_profile_ref2,
        disclosure_id_document(request, model_profile_ref, profile_digest, items, provider_claims)->Object_0.contains(("provider_claims"@, provider_claims)),
        provider_claims == provider_claims2,
        disclosure_id_document(request, model_profile_ref, profile_digest, items, provider_claims)->Object_0.contains(text_member("purpose_ref"@, request.purpose_ref@)),
        request.purpose_ref@ == request2.purpose_ref@,
{
    let x = disclosure_id_document(request, model_profile_ref, profile_digest, items, provider_claims)->Object_0;
    let y = disclosure_id_document(request2, model_profile_ref2, profile_digest2, items2, provider_claims2)->Object_0;
    assert(x[0] == text_member("attempt_ref"@, request.attempt_id@));
    assert(x[0] == y[0]);
    assert(x[1] == ("items"@, items));
    assert(x[1] == y[1]);
    assert(x[2] == ("model_profile_digest"@, profile_digest));
    assert(x[2] == y[2]);
    assert(x[3] == text_member("model_profile_ref"@, model_profile_ref));
    assert(x[3] == y[3]);
    assert(x[4] == ("provider_claims"@, provider_claims));
    assert(x[4] == y[4]);
    assert(x[5] == text_member("purpose_ref"@, request.purpose_ref@));
    assert(x[5] == y[5]);
}

/// Nothing that a document of this kind (context id) is made of is lost: each part
/// stands under its own name, and two documents are the same only if all parts are.
pub proof fn context_id_documents_are_told_apart(
    attempt_ref: Seq<char>,
    disclosure_id: Seq<char>,
    disclosure_digest: JsonView,
    segments: JsonView,
    profile_digest: JsonView,
    binding_digest: JsonView,
    act: ActAuthorization,
    attempt_ref2: Seq<char>,
    disclosure_id2: Seq<char>,
    disclosure_digest2: JsonView,
    segments2: JsonView,
    profile_digest2: JsonView,
    binding_digest2: JsonView,
    act2: ActAuthorization,
)
    requires
        context_id_document(attempt_ref, disclosure_id, disclosure_digest, segments, profile_digest, binding_digest, act)
            == context_id_document(attempt_ref2, disclosure_id2, disclosure_digest2, segments2, profile_digest2, binding_digest2, act2),
    ensures
        context_id_document(attempt_ref, disclosure_id, disclosure_digest, segments, profile_digest, binding_digest, act)->Object_0.contains(text_member("act_intent_ref"@, act.act_intent_ref@)),
        act.act_intent_ref@ == act2.act_intent_ref@,
        context_id_document(attempt_ref, disclosure_id, disclosure_digest, segments, profile_digest, binding_digest, act)->Object_0.contains(text_member("attempt_ref"@, attempt_ref)),
        attempt_ref == attempt_ref2,
        context_id_document(attempt_ref, disclosure_id, disclosure_digest, segments, profile_digest, binding_digest, act)->Object_0.contains(("disclosure_digest"@, disclosure_digest)),
        disclosure_digest == disclosure_digest2,
        context_id_document(attempt_ref, disclosure_id, disclosure_digest, segments, profile_digest, binding_digest, act)->Object_0.contains(text_member("disclosure_id"@, disclosure_id)),
        disclosure_id == disclosure_id2,
        context_id_document(attempt_ref, disclosure_id, disclosure_digest, segments, profile_digest, binding_digest, act)->Object_0.contains(("model_profile_digest"@, profile_digest)),
        profile_digest == profile_digest2,
        context_id_document(attempt_ref, disclosure_id, disclosure_digest, segments, profile_digest, binding_digest, act)->Object_0.contains(("provider_binding_digest"@, binding_digest)),
        binding_digest == binding_digest2,
        context_id_document(attempt_ref, disclosure_id, disclosure_digest, segments, profile_digest, binding_digest, act)->Object_0.contains(("segments"@, segments)),
        segments == segments2,
{
    let x = context_id_document(attempt_ref, disclosure_id, disclosure_digest, segments, profile_digest, binding_digest, act)->Object_0;
    let y = context_id_document(attempt_ref2, disclosure_id2, disclosure_digest2, segments2, profile_digest2, binding_digest2, act2)->Object_0;
    assert(x[0] == text_member("act_intent_ref"@, act.act_intent_ref@));
    assert(x[0] == y[0]);
    assert(x[1] == text_member("attempt_ref"@, attempt_ref));
    assert(x[1] == y[1]);
    assert(x[2] == ("disclosure_digest"@, disclosure_digest));
    assert(x[2] == y[2]);
    assert(x[3] == text_member("disclosure_id"@, disclosure_id));
    assert(x[3] == y[3]);
    assert(x[4] == ("model_profile_digest"@, profile_digest));
    assert(x[4] == y[4]);
    assert(x[5] == ("provider_binding_digest"@, binding_digest));
    assert(x[5] == y[5]);
    assert(x[6] == ("segments"@, segments));
    assert(x[6] == y[6]);
}

/// Nothing that a document of this kind (host effect) is made of is lost: each part
/// stands under its own name, and two documents are the same only if all parts are.
pub proof fn host_effect_documents_are_told_apart(
    effect: Effect,
    act: ActAuthorization,
    effect2: Effect,
    act2: ActAuthorization,
)
    requires
        host_effect_document(effect, act)
            == host_effect_document(effect2, act2),
    ensures
        host_effect_document(effect, act)->Object_0.contains(("host_effect_digest"@, stored(effect.host_effect_digest@))),
        stored(effect.host_effect_digest@) == stored(effect2.host_effect_digest@),
        host_effect_document(effect, act)->Object_0.contains(text_member("host_effect_ref"@, effect.effect_id@)),
        effect.effect_id@ == effect2.effect_id@,
        host_effect_document(effect, act)->Object_0.contains(text_member("intent_ref"@, act.act_intent_ref@)),
        act.act_intent_ref@ == act2.act_intent_ref@,
        host_effect_document(effect, act)->Object_0.contains(text_member("stable_execution_key"@, act.stable_execution_key@)),
        act.stable_execution_key@ == act2.stable_execution_key@,
{
    let x = host_effect_document(effect, act)->Object_0;
    let y = host_effect_document(effect2, act2)->Object_0;
    assert(x[0] == ("host_effect_digest"@, stored(effect.host_effect_digest@)));
    assert(x[0] == y[0]);
    assert(x[1] == text_member("host_effect_ref"@, effect.effect_id@));
    assert(x[1] == y[1]);
    assert(x[2] == text_member("intent_ref"@, act.act_intent_ref@));
    assert(x[2] == y[2]);
    assert(x[3] == text_member("stable_execution_key"@, act.stable_execution_key@));
    assert(x[3] == y[3]);
}

/// Nothing that a document of this kind (permit meta) is made of is lost: each part
/// stands under its own name, and two documents are the same only if all parts are.
pub proof fn permit_meta_documents_are_told_apart(
    effect: Effect,
    act: ActAuthorization,
    expected: Expected,
    effect2: Effect,
    act2: ActAuthorization,
    expected2: Expected,
)
    requires
        permit_meta(effect, act, expected)
            == permit_meta(effect2, act2, expected2),
    ensures
        permit_meta(effect, act, expected)->Object_0.contains(text_member("expected_endpoint_incarnation"@, expected.endpoint_incarnation@)),
        expected.endpoint_incarnation@ == expected2.endpoint_incarnation@,
        permit_meta(effect, act, expected)->Object_0.contains(number_member("expected_recovery_epoch"@, expected.recovery_epoch)),
        crate::json::number_of(expected.recovery_epoch) == crate::json::number_of(expected2.recovery_epoch),
        permit_meta(effect, act, expected)->Object_0.contains(number_member("expected_revision"@, act.act_revision)),
        crate::json::number_of(act.act_revision) == crate::json::number_of(act2.act_revision),
        permit_meta(effect, act, expected)->Object_0.contains(text_member("idempotency_key"@, "kovee-perm-"@ + act.stable_execution_key@)),
        "kovee-perm-"@ + act.stable_execution_key@ == "kovee-perm-"@ + act2.stable_execution_key@,
        permit_meta(effect, act, expected)->Object_0.contains(text_member("request_id"@, "kovee-perm-"@ + effect.effect_id@)),
        "kovee-perm-"@ + effect.effect_id@ == "kovee-perm-"@ + effect2.effect_id@,
{
    let x = permit_meta(effect, act, expected)->Object_0;
    let y = permit_meta(effect2, act2, expected2)->Object_0;
    assert(x[0] == text_member("expected_endpoint_incarnation"@, expected.endpoint_incarnation@));
    assert(x[0] == y[0]);
    assert(x[1] == number_member("expected_recovery_epoch"@, expected.recovery_epoch));
    assert(x[1] == y[1]);
    assert(x[2] == number_member("expected_revision"@, act.act_revision));
    assert(x[2] == y[2]);
    assert(x[3] == text_member("idempotency_key"@, "kovee-perm-"@ + act.stable_execution_key@));
    assert(x[3] == y[3]);
    assert(x[4] == text_member("request_id"@, "kovee-perm-"@ + effect.effect_id@));
    assert(x[4] == y[4]);
}

/// Nothing that a document of this kind (quantity) is made of is lost: each part
/// stands under its own name, and two documents are the same only if all parts are.
pub proof fn quantity_documents_are_told_apart(
    dimension: Seq<char>,
    unit: Seq<char>,
    amount: u64,
    dimension2: Seq<char>,
    unit2: Seq<char>,
    amount2: u64,
)
    requires
        quantity_document(dimension, unit, amount)
            == quantity_document(dimension2, unit2, amount2),
    ensures
        quantity_document(dimension, unit, amount)->Object_0.contains(number_member("amount"@, amount)),
        crate::json::number_of(amount) == crate::json::number_of(amount2),
        quantity_document(dimension, unit, amount)->Object_0.contains(text_member("dimension"@, dimension)),
        dimension == dimension2,
        quantity_document(dimension, unit, amount)->Object_0.contains(text_member("unit"@, unit)),
        unit == unit2,
{
    let x = quantity_document(dimension, unit, amount)->Object_0;
    let y = quantity_document(dimension2, unit2, amount2)->Object_0;
    assert(x[0] == number_member("amount"@, amount));
    assert(x[0] == y[0]);
    assert(x[1] == text_member("dimension"@, dimension));
    assert(x[1] == y[1]);
    assert(x[2] == text_member("unit"@, unit));
    assert(x[2] == y[2]);
}

/// Nothing that a document of this kind (usage) is made of is lost: each part
/// stands under its own name, and two documents are the same only if all parts are.
pub proof fn usage_documents_are_told_apart(
    version: JsonView,
    binding: EpisodeBinding,
    expected: Expected,
    source: Seq<char>,
    realm: Seq<char>,
    effect_id: Seq<char>,
    attempt_id: Seq<char>,
    usage: Usage,
    charged: u64,
    version2: JsonView,
    binding2: EpisodeBinding,
    expected2: Expected,
    source2: Seq<char>,
    realm2: Seq<char>,
    effect_id2: Seq<char>,
    attempt_id2: Seq<char>,
    usage2: Usage,
    charged2: u64,
)
    requires
        usage_document(version, binding, expected, source, realm, effect_id, attempt_id, usage, charged)
            == usage_document(version2, binding2, expected2, source2, realm2, effect_id2, attempt_id2, usage2, charged2),
    ensures
        usage_document(version, binding, expected, source, realm, effect_id, attempt_id, usage, charged)->Object_0.contains(text_member("byom_attempt_ref"@, binding.byom_attempt_ref@)),
        binding.byom_attempt_ref@ == binding2.byom_attempt_ref@,
        usage_document(version, binding, expected, source, realm, effect_id, attempt_id, usage, charged)->Object_0.contains(number_member("byom_fence_epoch"@, binding.fences.byom)),
        crate::json::number_of(binding.fences.byom) == crate::json::number_of(binding2.fences.byom),
        usage_document(version, binding, expected, source, realm, effect_id, attempt_id, usage, charged)->Object_0.contains(("charged_quantities"@, charged_quantities(charged))),
        charged_quantities(charged) == charged_quantities(charged2),
        usage_document(version, binding, expected, source, realm, effect_id, attempt_id, usage, charged)->Object_0.contains(text_member("episode_ref"@, binding.episode_ref@)),
        binding.episode_ref@ == binding2.episode_ref@,
        usage_document(version, binding, expected, source, realm, effect_id, attempt_id, usage, charged)->Object_0.contains(number_member("generation"@, binding.generation)),
        crate::json::number_of(binding.generation) == crate::json::number_of(binding2.generation),
        usage_document(version, binding, expected, source, realm, effect_id, attempt_id, usage, charged)->Object_0.contains(number_member("kovee_invocation_fence"@, binding.fences.kovee)),
        crate::json::number_of(binding.fences.kovee) == crate::json::number_of(binding2.fences.kovee),
        expected.endpoint_incarnation@ == expected2.endpoint_incarnation@,
        crate::json::number_of(expected.recovery_epoch) == crate::json::number_of(expected2.recovery_epoch),
        "kovee-model-usage-"@ + effect_id == "kovee-model-usage-"@ + effect_id2,
        "kovee-usg-"@ + effect_id == "kovee-usg-"@ + effect_id2,
        usage_document(version, binding, expected, source, realm, effect_id, attempt_id, usage, charged)->Object_0.contains(text_member("meter_attestation_ref"@, "kovee-model-meter-attestation-"@ + attempt_id)),
        "kovee-model-meter-attestation-"@ + attempt_id == "kovee-model-meter-attestation-"@ + attempt_id2,
        usage_document(version, binding, expected, source, realm, effect_id, attempt_id, usage, charged)->Object_0.contains(text_member("meter_ref"@, "kovee-model-broker-meter-"@ + realm)),
        "kovee-model-broker-meter-"@ + realm == "kovee-model-broker-meter-"@ + realm2,
        usage_document(version, binding, expected, source, realm, effect_id, attempt_id, usage, charged)->Object_0.contains(text_member("op"@, "usage_report"@)),
        usage_document(version, binding, expected, source, realm, effect_id, attempt_id, usage, charged)->Object_0.contains(("quantities"@, measured_quantities(usage))),
        measured_quantities(usage) == measured_quantities(usage2),
        usage_document(version, binding, expected, source, realm, effect_id, attempt_id, usage, charged)->Object_0.contains(text_member("source"@, source)),
        source == source2,
        usage_document(version, binding, expected, source, realm, effect_id, attempt_id, usage, charged)->Object_0.contains(text_member("stable_report_key"@, "kovee-model-usage-"@ + effect_id)),
        "kovee-model-usage-"@ + effect_id == "kovee-model-usage-"@ + effect_id2,
        usage_document(version, binding, expected, source, realm, effect_id, attempt_id, usage, charged)->Object_0.contains(text_member("stable_settlement_key"@, "kovee-model-settle-"@ + effect_id)),
        "kovee-model-settle-"@ + effect_id == "kovee-model-settle-"@ + effect_id2,
        usage_document(version, binding, expected, source, realm, effect_id, attempt_id, usage, charged)->Object_0.contains(("version"@, version)),
        version == version2,
{
    let x = usage_document(version, binding, expected, source, realm, effect_id, attempt_id, usage, charged)->Object_0;
    let y = usage_document(version2, binding2, expected2, source2, realm2, effect_id2, attempt_id2, usage2, charged2)->Object_0;
    assert(x[0] == text_member("byom_attempt_ref"@, binding.byom_attempt_ref@));
    assert(x[0] == y[0]);
    assert(x[1] == number_member("byom_fence_epoch"@, binding.fences.byom));
    assert(x[1] == y[1]);
    assert(x[2] == ("charged_quantities"@, charged_quantities(charged)));
    assert(x[2] == y[2]);
    assert(x[3] == text_member("episode_ref"@, binding.episode_ref@));
    assert(x[3] == y[3]);
    assert(x[4] == number_member("generation"@, binding.generation));
    assert(x[4] == y[4]);
    assert(x[5] == number_member("kovee_invocation_fence"@, binding.fences.kovee));
    assert(x[5] == y[5]);
    assert(x[6] == y[6]);
    assert(x[7] == text_member("meter_attestation_ref"@, "kovee-model-meter-attestation-"@ + attempt_id));
    assert(x[7] == y[7]);
    assert(x[8] == text_member("meter_ref"@, "kovee-model-broker-meter-"@ + realm));
    assert(x[8] == y[8]);
    assert(x[9] == text_member("op"@, "usage_report"@));
    assert(x[10] == ("quantities"@, measured_quantities(usage)));
    assert(x[10] == y[10]);
    assert(x[11] == text_member("source"@, source));
    assert(x[11] == y[11]);
    assert(x[12] == text_member("stable_report_key"@, "kovee-model-usage-"@ + effect_id));
    assert(x[12] == y[12]);
    assert(x[13] == text_member("stable_settlement_key"@, "kovee-model-settle-"@ + effect_id));
    assert(x[13] == y[13]);
    assert(x[14] == ("version"@, version));
    assert(x[14] == y[14]);
    assert(x[6].1->Object_0 == y[6].1->Object_0);
    assert(x[6].1->Object_0[0] == y[6].1->Object_0[0] && x[6].1->Object_0[1] == y[6].1->Object_0[1] && x[6].1->Object_0[2] == y[6].1->Object_0[2] && x[6].1->Object_0[3] == y[6].1->Object_0[3]);
}

/// Nothing that a document of this kind (policy change) is made of is lost: each part
/// stands under its own name, and two documents are the same only if all parts are.
pub proof fn policy_change_documents_are_told_apart(
    change: PolicyChange,
    change2: PolicyChange,
)
    requires
        policy_change_document(change)
            == policy_change_document(change2),
    ensures
        policy_change_document(change)->Object_0.contains(text_member("affected_item_set_digest"@, change.affected_item_set_digest@)),
        change.affected_item_set_digest@ == change2.affected_item_set_digest@,
        policy_change_document(change)->Object_0.contains(("affected_space_frontier_refs"@, text_list(views(change.affected_space_frontier_refs@)))),
        text_list(views(change.affected_space_frontier_refs@)) == text_list(views(change2.affected_space_frontier_refs@)),
        policy_change_document(change)->Object_0.contains(number_member("expected_project_revision"@, change.expected_project_revision)),
        crate::json::number_of(change.expected_project_revision) == crate::json::number_of(change2.expected_project_revision),
        policy_change_document(change)->Object_0.contains(text_member("prior_default_classification_ref"@, change.prior_default_classification_ref@)),
        change.prior_default_classification_ref@ == change2.prior_default_classification_ref@,
        policy_change_document(change)->Object_0.contains(text_member("prior_policy_set_ref"@, change.prior_policy_set_ref@)),
        change.prior_policy_set_ref@ == change2.prior_policy_set_ref@,
        policy_change_document(change)->Object_0.contains(text_member("project_id"@, change.project_id@)),
        change.project_id@ == change2.project_id@,
        policy_change_document(change)->Object_0.contains(text_member("proposed_default_classification_ref"@, change.proposed_default_classification_ref@)),
        change.proposed_default_classification_ref@ == change2.proposed_default_classification_ref@,
        policy_change_document(change)->Object_0.contains(text_member("proposed_policy_set_ref"@, change.proposed_policy_set_ref@)),
        change.proposed_policy_set_ref@ == change2.proposed_policy_set_ref@,
{
    let x = policy_change_document(change)->Object_0;
    let y = policy_change_document(change2)->Object_0;
    assert(x[0] == text_member("affected_item_set_digest"@, change.affected_item_set_digest@));
    assert(x[0] == y[0]);
    assert(x[1] == ("affected_space_frontier_refs"@, text_list(views(change.affected_space_frontier_refs@))));
    assert(x[1] == y[1]);
    assert(x[2] == number_member("expected_project_revision"@, change.expected_project_revision));
    assert(x[2] == y[2]);
    assert(x[3] == text_member("prior_default_classification_ref"@, change.prior_default_classification_ref@));
    assert(x[3] == y[3]);
    assert(x[4] == text_member("prior_policy_set_ref"@, change.prior_policy_set_ref@));
    assert(x[4] == y[4]);
    assert(x[5] == text_member("project_id"@, change.project_id@));
    assert(x[5] == y[5]);
    assert(x[6] == text_member("proposed_default_classification_ref"@, change.proposed_default_classification_ref@));
    assert(x[6] == y[6]);
    assert(x[7] == text_member("proposed_policy_set_ref"@, change.proposed_policy_set_ref@));
    assert(x[7] == y[7]);
}

/// Nothing that a document of this kind (project audience) is made of is lost: each part
/// stands under its own name, and two documents are the same only if all parts are.
pub proof fn project_audience_documents_are_told_apart(
    project_id: Seq<char>,
    project_id2: Seq<char>,
)
    requires
        project_audience_document(project_id)
            == project_audience_document(project_id2),
    ensures
        project_audience_document(project_id)->Object_0.contains(text_member("project_id"@, project_id)),
        project_id == project_id2,
        project_audience_document(project_id)->Object_0.contains(text_member("scope"@, "project"@)),
{
    let x = project_audience_document(project_id)->Object_0;
    let y = project_audience_document(project_id2)->Object_0;
    assert(x[0] == text_member("project_id"@, project_id));
    assert(x[0] == y[0]);
    assert(x[1] == text_member("scope"@, "project"@));
}

/// Nothing that a document of this kind (widening) is made of is lost: each part
/// stands under its own name, and two documents are the same only if all parts are.
pub proof fn widening_documents_are_told_apart(
    widening: Widening,
    widening2: Widening,
)
    requires
        widening_document(widening)
            == widening_document(widening2),
    ensures
        widening_document(widening)->Object_0.contains(("affected_frontier_refs"@, text_list(views(widening.affected_frontier_refs@)))),
        text_list(views(widening.affected_frontier_refs@)) == text_list(views(widening2.affected_frontier_refs@)),
        widening_document(widening)->Object_0.contains(text_member("affected_item_set_digest"@, widening.affected_item_set_digest@)),
        widening.affected_item_set_digest@ == widening2.affected_item_set_digest@,
        widening_document(widening)->Object_0.contains(number_member("expected_space_revision"@, widening.expected_space_revision)),
        crate::json::number_of(widening.expected_space_revision) == crate::json::number_of(widening2.expected_space_revision),
        widening_document(widening)->Object_0.contains(text_member("prior_default_classification_ref"@, widening.prior_default_classification_ref@)),
        widening.prior_default_classification_ref@ == widening2.prior_default_classification_ref@,
        widening_document(widening)->Object_0.contains(text_member("prior_policy_set_ref"@, widening.prior_policy_set_ref@)),
        widening.prior_policy_set_ref@ == widening2.prior_policy_set_ref@,
        widening_document(widening)->Object_0.contains(text_member("prior_visibility"@, widening.prior_visibility@)),
        widening.prior_visibility@ == widening2.prior_visibility@,
        widening_document(widening)->Object_0.contains(text_member("proposed_default_classification_ref"@, widening.proposed_default_classification_ref@)),
        widening.proposed_default_classification_ref@ == widening2.proposed_default_classification_ref@,
        widening_document(widening)->Object_0.contains(text_member("proposed_policy_set_ref"@, widening.proposed_policy_set_ref@)),
        widening.proposed_policy_set_ref@ == widening2.proposed_policy_set_ref@,
        widening_document(widening)->Object_0.contains(text_member("proposed_visibility"@, widening.proposed_visibility@)),
        widening.proposed_visibility@ == widening2.proposed_visibility@,
        widening_document(widening)->Object_0.contains(text_member("space_id"@, widening.space_id@)),
        widening.space_id@ == widening2.space_id@,
{
    let x = widening_document(widening)->Object_0;
    let y = widening_document(widening2)->Object_0;
    assert(x[0] == ("affected_frontier_refs"@, text_list(views(widening.affected_frontier_refs@))));
    assert(x[0] == y[0]);
    assert(x[1] == text_member("affected_item_set_digest"@, widening.affected_item_set_digest@));
    assert(x[1] == y[1]);
    assert(x[2] == number_member("expected_space_revision"@, widening.expected_space_revision));
    assert(x[2] == y[2]);
    assert(x[3] == text_member("prior_default_classification_ref"@, widening.prior_default_classification_ref@));
    assert(x[3] == y[3]);
    assert(x[4] == text_member("prior_policy_set_ref"@, widening.prior_policy_set_ref@));
    assert(x[4] == y[4]);
    assert(x[5] == text_member("prior_visibility"@, widening.prior_visibility@));
    assert(x[5] == y[5]);
    assert(x[6] == text_member("proposed_default_classification_ref"@, widening.proposed_default_classification_ref@));
    assert(x[6] == y[6]);
    assert(x[7] == text_member("proposed_policy_set_ref"@, widening.proposed_policy_set_ref@));
    assert(x[7] == y[7]);
    assert(x[8] == text_member("proposed_visibility"@, widening.proposed_visibility@));
    assert(x[8] == y[8]);
    assert(x[9] == text_member("space_id"@, widening.space_id@));
    assert(x[9] == y[9]);
}

/// Nothing that a document of this kind (space audience) is made of is lost: each part
/// stands under its own name, and two documents are the same only if all parts are.
pub proof fn space_audience_documents_are_told_apart(
    space_id: Seq<char>,
    visibility: Seq<char>,
    space_id2: Seq<char>,
    visibility2: Seq<char>,
)
    requires
        space_audience_document(space_id, visibility)
            == space_audience_document(space_id2, visibility2),
    ensures
        space_audience_document(space_id, visibility)->Object_0.contains(text_member("scope"@, "space"@)),
        space_audience_document(space_id, visibility)->Object_0.contains(text_member("space_id"@, space_id)),
        space_id == space_id2,
        space_audience_document(space_id, visibility)->Object_0.contains(text_member("visibility"@, visibility)),
        visibility == visibility2,
{
    let x = space_audience_document(space_id, visibility)->Object_0;
    let y = space_audience_document(space_id2, visibility2)->Object_0;
    assert(x[0] == text_member("scope"@, "space"@));
    assert(x[1] == text_member("space_id"@, space_id));
    assert(x[1] == y[1]);
    assert(x[2] == text_member("visibility"@, visibility));
    assert(x[2] == y[2]);
}

/// Nothing that a document of this kind (entry) is made of is lost: each part
/// stands under its own name, and two documents are the same only if all parts are.
pub proof fn entry_documents_are_told_apart(
    c: Contribution,
    c2: Contribution,
)
    requires
        entry_document(c)
            == entry_document(c2),
    ensures
        entry_document(c)->Object_0.contains(text_member("digest"@, c.content_digest@)),
        c.content_digest@ == c2.content_digest@,
        entry_document(c)->Object_0.contains(text_member("ref"@, c.contribution_id@)),
        c.contribution_id@ == c2.contribution_id@,
{
    let x = entry_document(c)->Object_0;
    let y = entry_document(c2)->Object_0;
    assert(x[0] == text_member("digest"@, c.content_digest@));
    assert(x[0] == y[0]);
    assert(x[1] == text_member("ref"@, c.contribution_id@));
    assert(x[1] == y[1]);
}

/// Nothing that a document of this kind (item set) is made of is lost: each part
/// stands under its own name, and two documents are the same only if all parts are.
pub proof fn item_set_documents_are_told_apart(
    rows: Seq<Contribution>,
    list: Seq<usize>,
    rows2: Seq<Contribution>,
    list2: Seq<usize>,
)
    requires
        item_set_document(rows, list)
            == item_set_document(rows2, list2),
    ensures
        item_set_document(rows, list)->Object_0.contains(("items"@, entries(rows, list))),
        entries(rows, list) == entries(rows2, list2),
{
    let x = item_set_document(rows, list)->Object_0;
    let y = item_set_document(rows2, list2)->Object_0;
    assert(x[0] == ("items"@, entries(rows, list)));
    assert(x[0] == y[0]);
}

/// Nothing that a document of this kind (manual trigger) is made of is lost: each part
/// stands under its own name, and two documents are the same only if all parts are.
pub proof fn manual_trigger_documents_are_told_apart(
    invocation_id: Seq<char>,
    invocation_id2: Seq<char>,
)
    requires
        manual_trigger_document(invocation_id)
            == manual_trigger_document(invocation_id2),
    ensures
        manual_trigger_document(invocation_id)->Object_0.contains(text_member("invocation_id"@, invocation_id)),
        invocation_id == invocation_id2,
{
    let x = manual_trigger_document(invocation_id)->Object_0;
    let y = manual_trigger_document(invocation_id2)->Object_0;
    assert(x[0] == text_member("invocation_id"@, invocation_id));
    assert(x[0] == y[0]);
}

/// Nothing that a document of this kind (creation authority) is made of is lost: each part
/// stands under its own name, and two documents are the same only if all parts are.
pub proof fn creation_authority_documents_are_told_apart(
    actor: Seq<char>,
    dependency_set: Seq<char>,
    actor2: Seq<char>,
    dependency_set2: Seq<char>,
)
    requires
        creation_authority_document(actor, dependency_set)
            == creation_authority_document(actor2, dependency_set2),
    ensures
        creation_authority_document(actor, dependency_set)->Object_0.contains(text_member("actor"@, actor)),
        actor == actor2,
        creation_authority_document(actor, dependency_set)->Object_0.contains(text_member("dependency_set"@, dependency_set)),
        dependency_set == dependency_set2,
        creation_authority_document(actor, dependency_set)->Object_0.contains(text_member("operation"@, "invocation_create"@)),
{
    let x = creation_authority_document(actor, dependency_set)->Object_0;
    let y = creation_authority_document(actor2, dependency_set2)->Object_0;
    assert(x[0] == text_member("actor"@, actor));
    assert(x[0] == y[0]);
    assert(x[1] == text_member("dependency_set"@, dependency_set));
    assert(x[1] == y[1]);
    assert(x[2] == text_member("operation"@, "invocation_create"@));
}

/// Nothing that a document of this kind (input manifest) is made of is lost: each part
/// stands under its own name, and two documents are the same only if all parts are.
pub proof fn input_manifest_documents_are_told_apart(
    m: InputManifest,
    dependency_set_ref: Seq<char>,
    items: JsonView,
    m2: InputManifest,
    dependency_set_ref2: Seq<char>,
    items2: JsonView,
)
    requires
        input_manifest_document(m, dependency_set_ref, items)
            == input_manifest_document(m2, dependency_set_ref2, items2),
    ensures
        input_manifest_document(m, dependency_set_ref, items)->Object_0.contains(("ancestry"@, JsonView::List(Seq::empty()))),
        input_manifest_document(m, dependency_set_ref, items)->Object_0.contains(("artifact_refs"@, JsonView::List(Seq::empty()))),
        input_manifest_document(m, dependency_set_ref, items)->Object_0.contains(text_member("assistant_revision_id"@, m.assistant_revision_id@)),
        m.assistant_revision_id@ == m2.assistant_revision_id@,
        input_manifest_document(m, dependency_set_ref, items)->Object_0.contains(text_member("authority_digest"@, m.authority_digest@)),
        m.authority_digest@ == m2.authority_digest@,
        input_manifest_document(m, dependency_set_ref, items)->Object_0.contains(text_member("authorization_dependency_set_ref"@, dependency_set_ref)),
        dependency_set_ref == dependency_set_ref2,
        input_manifest_document(m, dependency_set_ref, items)->Object_0.contains(("branch_id"@, nullable(opt_view(m.branch_id)))),
        opt_view(m.branch_id) == opt_view(m2.branch_id),
        input_manifest_document(m, dependency_set_ref, items)->Object_0.contains(("budget_reservation_set_ref"@, nullable(opt_view(m.budget_reservation_set_ref)))),
        opt_view(m.budget_reservation_set_ref) == opt_view(m2.budget_reservation_set_ref),
        input_manifest_document(m, dependency_set_ref, items)->Object_0.contains(text_member("cancellation_policy"@, "none"@)),
        input_manifest_document(m, dependency_set_ref, items)->Object_0.contains(text_member("config_digest"@, m.config_digest@)),
        m.config_digest@ == m2.config_digest@,
        input_manifest_document(m, dependency_set_ref, items)->Object_0.contains(("context_assembly_digest"@, nullable(opt_view(m.context_assembly_digest)))),
        opt_view(m.context_assembly_digest) == opt_view(m2.context_assembly_digest),
        input_manifest_document(m, dependency_set_ref, items)->Object_0.contains(("context_assembly_ref"@, nullable(opt_view(m.context_assembly_ref)))),
        opt_view(m.context_assembly_ref) == opt_view(m2.context_assembly_ref),
        input_manifest_document(m, dependency_set_ref, items)->Object_0.contains(text_member("created_at"@, m.created_at@)),
        m.created_at@ == m2.created_at@,
        input_manifest_document(m, dependency_set_ref, items)->Object_0.contains(("deadline"@, nullable(opt_view(m.deadline)))),
        opt_view(m.deadline) == opt_view(m2.deadline),
        input_manifest_document(m, dependency_set_ref, items)->Object_0.contains(number_member("deployment_revision"@, m.deployment_revision)),
        crate::json::number_of(m.deployment_revision) == crate::json::number_of(m2.deployment_revision),
        input_manifest_document(m, dependency_set_ref, items)->Object_0.contains(("disclosure_rules_digest"@, nullable(opt_view(m.disclosure_rules_digest)))),
        opt_view(m.disclosure_rules_digest) == opt_view(m2.disclosure_rules_digest),
        input_manifest_document(m, dependency_set_ref, items)->Object_0.contains(("frontier_digest"@, nullable(opt_view(m.frontier_digest)))),
        opt_view(m.frontier_digest) == opt_view(m2.frontier_digest),
        input_manifest_document(m, dependency_set_ref, items)->Object_0.contains(("frontier_ref"@, nullable(opt_view(m.frontier_ref)))),
        opt_view(m.frontier_ref) == opt_view(m2.frontier_ref),
        input_manifest_document(m, dependency_set_ref, items)->Object_0.contains(text_member("input_manifest_id"@, m.input_manifest_id@)),
        m.input_manifest_id@ == m2.input_manifest_id@,
        input_manifest_document(m, dependency_set_ref, items)->Object_0.contains(text_member("invocation_id"@, m.invocation_id@)),
        m.invocation_id@ == m2.invocation_id@,
        input_manifest_document(m, dependency_set_ref, items)->Object_0.contains(("model_tool_profile_bindings"@, JsonView::List(Seq::empty()))),
        input_manifest_document(m, dependency_set_ref, items)->Object_0.contains(("ordered_input_refs"@, items)),
        items == items2,
        input_manifest_document(m, dependency_set_ref, items)->Object_0.contains(text_member("policy_digest"@, m.policy_digest@)),
        m.policy_digest@ == m2.policy_digest@,
        input_manifest_document(m, dependency_set_ref, items)->Object_0.contains(number_member("revision"@, 1)),
        input_manifest_document(m, dependency_set_ref, items)->Object_0.contains(text_member("secret_binding_set_digest"@, m.secret_binding_set_digest@)),
        m.secret_binding_set_digest@ == m2.secret_binding_set_digest@,
        input_manifest_document(m, dependency_set_ref, items)->Object_0.contains(("space_id"@, nullable(opt_view(m.space_id)))),
        opt_view(m.space_id) == opt_view(m2.space_id),
        input_manifest_document(m, dependency_set_ref, items)->Object_0.contains(text_member("trigger_digest"@, m.trigger_digest@)),
        m.trigger_digest@ == m2.trigger_digest@,
        input_manifest_document(m, dependency_set_ref, items)->Object_0.contains(text_member("trigger_ref"@, m.trigger_ref@)),
        m.trigger_ref@ == m2.trigger_ref@,
{
    let x = input_manifest_document(m, dependency_set_ref, items)->Object_0;
    let y = input_manifest_document(m2, dependency_set_ref2, items2)->Object_0;
    assert(x[0] == ("ancestry"@, JsonView::List(Seq::empty())));
    assert(x[1] == ("artifact_refs"@, JsonView::List(Seq::empty())));
    assert(x[2] == text_member("assistant_revision_id"@, m.assistant_revision_id@));
    assert(x[2] == y[2]);
    assert(x[3] == text_member("authority_digest"@, m.authority_digest@));
    assert(x[3] == y[3]);
    assert(x[4] == text_member("authorization_dependency_set_ref"@, dependency_set_ref));
    assert(x[4] == y[4]);
    assert(x[5] == ("branch_id"@, nullable(opt_view(m.branch_id))));
    assert(x[5] == y[5]);
    assert(x[6] == ("budget_reservation_set_ref"@, nullable(opt_view(m.budget_reservation_set_ref))));
    assert(x[6] == y[6]);
    assert(x[7] == text_member("cancellation_policy"@, "none"@));
    assert(x[8] == text_member("config_digest"@, m.config_digest@));
    assert(x[8] == y[8]);
    assert(x[9] == ("context_assembly_digest"@, nullable(opt_view(m.context_assembly_digest))));
    assert(x[9] == y[9]);
    assert(x[10] == ("context_assembly_ref"@, nullable(opt_view(m.context_assembly_ref))));
    assert(x[10] == y[10]);
    assert(x[11] == text_member("created_at"@, m.created_at@));
    assert(x[11] == y[11]);
    assert(x[12] == ("deadline"@, nullable(opt_view(m.deadline))));
    assert(x[12] == y[12]);
    assert(x[13] == number_member("deployment_revision"@, m.deployment_revision));
    assert(x[13] == y[13]);
    assert(x[14] == ("disclosure_rules_digest"@, nullable(opt_view(m.disclosure_rules_digest))));
    assert(x[14] == y[14]);
    assert(x[15] == ("frontier_digest"@, nullable(opt_view(m.frontier_digest))));
    assert(x[15] == y[15]);
    assert(x[16] == ("frontier_ref"@, nullable(opt_view(m.frontier_ref))));
    assert(x[16] == y[16]);
    assert(x[17] == text_member("input_manifest_id"@, m.input_manifest_id@));
    assert(x[17] == y[17]);
    assert(x[18] == text_member("invocation_id"@, m.invocation_id@));
    assert(x[18] == y[18]);
    assert(x[19] == ("model_tool_profile_bindings"@, JsonView::List(Seq::empty())));
    assert(x[20] == ("ordered_input_refs"@, items));
    assert(x[20] == y[20]);
    assert(x[21] == text_member("policy_digest"@, m.policy_digest@));
    assert(x[21] == y[21]);
    assert(x[23] == number_member("revision"@, 1));
    assert(x[24] == text_member("secret_binding_set_digest"@, m.secret_binding_set_digest@));
    assert(x[24] == y[24]);
    assert(x[25] == ("space_id"@, nullable(opt_view(m.space_id))));
    assert(x[25] == y[25]);
    assert(x[26] == text_member("trigger_digest"@, m.trigger_digest@));
    assert(x[26] == y[26]);
    assert(x[27] == text_member("trigger_ref"@, m.trigger_ref@));
    assert(x[27] == y[27]);
}

/// Nothing that a document of this kind (content) is made of is lost: each part
/// stands under its own name, and two documents are the same only if all parts are.
pub proof fn content_documents_are_told_apart(
    space_id: Seq<char>,
    branch_id: Seq<char>,
    branch_sequence: u64,
    kind: Seq<char>,
    body_parts: JsonView,
    subject_refs: JsonView,
    source_refs: JsonView,
    epistemic_posture: Option<Seq<char>>,
    space_id2: Seq<char>,
    branch_id2: Seq<char>,
    branch_sequence2: u64,
    kind2: Seq<char>,
    body_parts2: JsonView,
    subject_refs2: JsonView,
    source_refs2: JsonView,
    epistemic_posture2: Option<Seq<char>>,
)
    requires
        content_document(space_id, branch_id, branch_sequence, kind, body_parts, subject_refs, source_refs, epistemic_posture)
            == content_document(space_id2, branch_id2, branch_sequence2, kind2, body_parts2, subject_refs2, source_refs2, epistemic_posture2),
    ensures
        content_document(space_id, branch_id, branch_sequence, kind, body_parts, subject_refs, source_refs, epistemic_posture)->Object_0.contains(("body_parts"@, body_parts)),
        body_parts == body_parts2,
        content_document(space_id, branch_id, branch_sequence, kind, body_parts, subject_refs, source_refs, epistemic_posture)->Object_0.contains(("epistemic_posture"@, nullable(epistemic_posture))),
        epistemic_posture == epistemic_posture2,
        content_document(space_id, branch_id, branch_sequence, kind, body_parts, subject_refs, source_refs, epistemic_posture)->Object_0.contains(text_member("kind"@, kind)),
        kind == kind2,
        content_document(space_id, branch_id, branch_sequence, kind, body_parts, subject_refs, source_refs, epistemic_posture)->Object_0.contains(text_member("origin_branch_id"@, branch_id)),
        branch_id == branch_id2,
        content_document(space_id, branch_id, branch_sequence, kind, body_parts, subject_refs, source_refs, epistemic_posture)->Object_0.contains(number_member("origin_branch_sequence"@, branch_sequence)),
        crate::json::number_of(branch_sequence) == crate::json::number_of(branch_sequence2),
        content_document(space_id, branch_id, branch_sequence, kind, body_parts, subject_refs, source_refs, epistemic_posture)->Object_0.contains(("source_refs"@, source_refs)),
        source_refs == source_refs2,
        content_document(space_id, branch_id, branch_sequence, kind, body_parts, subject_refs, source_refs, epistemic_posture)->Object_0.contains(text_member("space_id"@, space_id)),
        space_id == space_id2,
        content_document(space_id, branch_id, branch_sequence, kind, body_parts, subject_refs, source_refs, epistemic_posture)->Object_0.contains(("subject_refs"@, subject_refs)),
        subject_refs == subject_refs2,
{
    let x = content_document(space_id, branch_id, branch_sequence, kind, body_parts, subject_refs, source_refs, epistemic_posture)->Object_0;
    let y = content_document(space_id2, branch_id2, branch_sequence2, kind2, body_parts2, subject_refs2, source_refs2, epistemic_posture2)->Object_0;
    assert(x[0] == ("body_parts"@, body_parts));
    assert(x[0] == y[0]);
    assert(x[1] == ("epistemic_posture"@, nullable(epistemic_posture)));
    assert(x[1] == y[1]);
    assert(x[2] == text_member("kind"@, kind));
    assert(x[2] == y[2]);
    assert(x[3] == text_member("origin_branch_id"@, branch_id));
    assert(x[3] == y[3]);
    assert(x[4] == number_member("origin_branch_sequence"@, branch_sequence));
    assert(x[4] == y[4]);
    assert(x[5] == ("source_refs"@, source_refs));
    assert(x[5] == y[5]);
    assert(x[6] == text_member("space_id"@, space_id));
    assert(x[6] == y[6]);
    assert(x[7] == ("subject_refs"@, subject_refs));
    assert(x[7] == y[7]);
}

/// Nothing that a document of this kind (limits) is made of is lost: each part
/// stands under its own name, and two documents are the same only if all parts are.
pub proof fn limits_documents_are_told_apart(
    request_bytes: u64,
    reply_bytes: u64,
    inline_content_scalars: u64,
    list_items: u64,
    page_limit: u64,
    request_bytes2: u64,
    reply_bytes2: u64,
    inline_content_scalars2: u64,
    list_items2: u64,
    page_limit2: u64,
)
    requires
        limits_document(request_bytes, reply_bytes, inline_content_scalars, list_items, page_limit)
            == limits_document(request_bytes2, reply_bytes2, inline_content_scalars2, list_items2, page_limit2),
    ensures
        limits_document(request_bytes, reply_bytes, inline_content_scalars, list_items, page_limit)->Object_0.contains(number_member("display_name_scalars"@, 256)),
        limits_document(request_bytes, reply_bytes, inline_content_scalars, list_items, page_limit)->Object_0.contains(number_member("identifier_bytes"@, 128)),
        limits_document(request_bytes, reply_bytes, inline_content_scalars, list_items, page_limit)->Object_0.contains(number_member("inline_content_scalars"@, inline_content_scalars)),
        crate::json::number_of(inline_content_scalars) == crate::json::number_of(inline_content_scalars2),
        limits_document(request_bytes, reply_bytes, inline_content_scalars, list_items, page_limit)->Object_0.contains(number_member("list_items"@, list_items)),
        crate::json::number_of(list_items) == crate::json::number_of(list_items2),
        limits_document(request_bytes, reply_bytes, inline_content_scalars, list_items, page_limit)->Object_0.contains(number_member("page_limit"@, page_limit)),
        crate::json::number_of(page_limit) == crate::json::number_of(page_limit2),
        limits_document(request_bytes, reply_bytes, inline_content_scalars, list_items, page_limit)->Object_0.contains(number_member("reply_bytes"@, reply_bytes)),
        crate::json::number_of(reply_bytes) == crate::json::number_of(reply_bytes2),
        limits_document(request_bytes, reply_bytes, inline_content_scalars, list_items, page_limit)->Object_0.contains(number_member("request_bytes"@, request_bytes)),
        crate::json::number_of(request_bytes) == crate::json::number_of(request_bytes2),
{
    let x = limits_document(request_bytes, reply_bytes, inline_content_scalars, list_items, page_limit)->Object_0;
    let y = limits_document(request_bytes2, reply_bytes2, inline_content_scalars2, list_items2, page_limit2)->Object_0;
    assert(x[0] == number_member("display_name_scalars"@, 256));
    assert(x[1] == number_member("identifier_bytes"@, 128));
    assert(x[2] == number_member("inline_content_scalars"@, inline_content_scalars));
    assert(x[2] == y[2]);
    assert(x[3] == number_member("list_items"@, list_items));
    assert(x[3] == y[3]);
    assert(x[4] == number_member("page_limit"@, page_limit));
    assert(x[4] == y[4]);
    assert(x[5] == number_member("reply_bytes"@, reply_bytes));
    assert(x[5] == y[5]);
    assert(x[6] == number_member("request_bytes"@, request_bytes));
    assert(x[6] == y[6]);
}

/// A permit is asked for of the effect as it was prepared, under the act that
/// authorizes it and the fences of the episode that it runs in, with zero for
/// them and no episode where it runs in none: each part stands under its own
/// name.
pub proof fn a_permit_is_asked_of_the_effect(
    version: JsonView,
    effect: Effect,
    act: ActAuthorization,
    expected: Expected,
    credential: Seq<char>,
    audience: Seq<char>,
    bound: Option<&EpisodeBinding>,
)
    ensures
        ({
            let d = permit_document(
                version,
                effect,
                act,
                expected,
                credential,
                audience,
                bound,
            )->Object_0;
            &&& d.contains(
                text_member("budget_reservation_set_ref"@, act.budget_reservation_set_ref@),
            )
            &&& d.contains(("disclosure_digest"@, stored(effect.disclosure_digest@)))
            &&& d.contains(text_member("disclosure_manifest_ref"@, effect.disclosure_manifest_ref@))
            &&& d.contains(text_member("driver_audience"@, audience))
            &&& d.contains(text_member("host_effect_credential"@, credential))
            &&& d.contains(("host_effect_digest"@, stored(effect.host_effect_digest@)))
            &&& d.contains(text_member("host_effect_ref"@, effect.effect_id@))
            &&& d.contains(text_member("intent_ref"@, act.act_intent_ref@))
            &&& d.contains(("meta"@, permit_meta(effect, act, expected)))
            &&& d.contains(text_member("op"@, "execution_permit_consume"@))
            &&& d.contains(text_member("stable_execution_key"@, act.stable_execution_key@))
            &&& d.contains(("version"@, version))
            &&& bound is Some ==> {
                &&& d.contains(text_member("episode_ref"@, bound->0.episode_ref@))
                &&& d.contains(number_member("byom_fence_epoch"@, bound->0.fences.byom))
                &&& d.contains(number_member("host_fence_epoch"@, bound->0.fences.kovee))
                &&& d.len() == 15
            }
            &&& bound is None ==> {
                &&& d.contains(number_member("byom_fence_epoch"@, 0))
                &&& d.contains(number_member("host_fence_epoch"@, 0))
                &&& d.len() == 14
            }
        }),
{
    let d = permit_document(version, effect, act, expected, credential, audience, bound)->Object_0;
    let n = crate::json::optional("episode_ref"@, episode_of(bound)).len() as int;
    let f = fences_or_zero(bound);
    assert(d[0] == text_member("budget_reservation_set_ref"@, act.budget_reservation_set_ref@));
    assert(d[1] == number_member("byom_fence_epoch"@, f.byom));
    assert(d[2] == ("disclosure_digest"@, stored(effect.disclosure_digest@)));
    assert(d[3] == text_member("disclosure_manifest_ref"@, effect.disclosure_manifest_ref@));
    assert(d[4] == text_member("driver_audience"@, audience));
    if bound is Some {
        assert(d[5] == text_member("episode_ref"@, bound->0.episode_ref@));
    }
    assert(d[5 + n] == text_member("host_effect_credential"@, credential));
    assert(d[6 + n] == ("host_effect_digest"@, stored(effect.host_effect_digest@)));
    assert(d[7 + n] == text_member("host_effect_ref"@, effect.effect_id@));
    assert(d[8 + n] == number_member("host_fence_epoch"@, f.kovee));
    assert(d[9 + n] == text_member("intent_ref"@, act.act_intent_ref@));
    assert(d[10 + n] == ("meta"@, permit_meta(effect, act, expected)));
    assert(d[11 + n] == text_member("op"@, "execution_permit_consume"@));
    assert(d[12 + n] == text_member("stable_execution_key"@, act.stable_execution_key@));
    assert(d[13 + n] == ("version"@, version));
}

/// An invocation runs without configuration and without secrets, under the
/// local policy, and what is digested says so.
pub proof fn an_invocation_has_no_configuration_and_no_secret()
    ensures
        crate::json::member(effective_config_document(), "config"@) == Some(
            JsonView::Object(Seq::empty()),
        ),
        crate::json::member(secret_bindings_document(), "secrets"@) == Some(
            JsonView::List(Seq::empty()),
        ),
        effective_policy_document()->Object_0.contains(text_member("confinement"@, "unclaimed"@)),
        effective_policy_document()->Object_0.contains(text_member("policy"@, "developer-local"@)),
        effective_policy_document()->Object_0.len() == 2,
{
    let p = effective_policy_document()->Object_0;
    assert(p[0] == text_member("confinement"@, "unclaimed"@));
    assert(p[1] == text_member("policy"@, "developer-local"@));
    let c = effective_config_document()->Object_0;
    assert(c.last() == c[0]);
    let s = secret_bindings_document()->Object_0;
    assert(s.last() == s[0]);
}

/// The entries of an item set are those of its contributions, in their order:
/// two sets are written alike only where they hold the same, in the same order.
pub proof fn an_item_set_tells_each_item(
    rows: Seq<Contribution>,
    list: Seq<usize>,
    rows2: Seq<Contribution>,
    list2: Seq<usize>,
    i: int,
)
    requires
        item_set_document(rows, list) == item_set_document(rows2, list2),
        0 <= i < list.len(),
    ensures
        list.len() == list2.len(),
        rows[list[i] as int].contribution_id@ == rows2[list2[i] as int].contribution_id@,
        rows[list[i] as int].content_digest@ == rows2[list2[i] as int].content_digest@,
{
    item_set_documents_are_told_apart(rows, list, rows2, list2);
    let x = entries(rows, list)->List_0;
    let y = entries(rows2, list2)->List_0;
    assert(x.len() == list.len());
    assert(y.len() == list2.len());
    assert(x == y);
    assert(x[i] == entry_document(rows[list[i] as int]));
    assert(y[i] == entry_document(rows2[list2[i] as int]));
    entry_documents_are_told_apart(rows[list[i] as int], rows2[list2[i] as int]);
}

} // verus!
