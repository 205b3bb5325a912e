//! The records that pin what a contribution held: when it is redacted, what must
//! not survive leaves them too, and a digest that moved is followed.

use vstd::prelude::*;

use crate::disposition_ops::Relation;
use crate::invoke::{Assembly, Contexts, InputManifest, Invocation, Invocations, ItemRef};
use crate::redaction::{a_sweep_leaves_no_needle, can_touch, replacement, sweep_text, swept};
use crate::table::{Row, Table};
use crate::text::{occurs, views};

verus! {

/// What sweeping makes of a text that may be missing.
pub open spec fn opt_swept(
    before: Option<String>,
    after: Option<String>,
    needles: Seq<Seq<char>>,
    digest: Seq<char>,
) -> bool {
    match before {
        Some(t) => after is Some && after->0@ == swept(t@, needles, digest),
        None => after is None,
    }
}

fn sweep_option(text: &Option<String>, needles: &Vec<String>, digest_hex: &str) -> (r: Option<String>)
    ensures
        opt_swept(*text, r, views(needles@), digest_hex@),
{
    match text {
        Some(t) => Some(sweep_text(t.as_str(), needles, digest_hex)),
        None => None,
    }
}

/// What sweeping makes of a pin: of the object that it names, and of its digest.
pub open spec fn pin_swept(
    before: ItemRef,
    after: ItemRef,
    needles: Seq<Seq<char>>,
    digest: Seq<char>,
) -> bool {
    &&& after.object_ref@ == swept(before.object_ref@, needles, digest)
    &&& after.digest@ == swept(before.digest@, needles, digest)
}

fn sweep_pin(pin: &mut ItemRef, needles: &Vec<String>, digest_hex: &str)
    ensures
        pin_swept(*old(pin), *final(pin), views(needles@), digest_hex@),
{
    pin.object_ref = sweep_text(pin.object_ref.as_str(), needles, digest_hex);
    pin.digest = sweep_text(pin.digest.as_str(), needles, digest_hex);
}

/// What sweeping makes of a list of pins.
pub open spec fn pins_swept(
    before: Seq<ItemRef>,
    after: Seq<ItemRef>,
    needles: Seq<Seq<char>>,
    digest: Seq<char>,
) -> bool {
    &&& after.len() == before.len()
    &&& forall|i: int|
        0 <= i < before.len() ==> pin_swept(before[i], #[trigger] after[i], needles, digest)
}

fn sweep_pins(pins: &mut Vec<ItemRef>, needles: &Vec<String>, digest_hex: &str)
    ensures
        pins_swept(old(pins)@, final(pins)@, views(needles@), digest_hex@),
{
    let ghost before = pins@;
    let mut i: usize = 0;
    while i < pins.len()
        invariant
            i <= pins.len(),
            pins@.len() == before.len(),
            forall|j: int|
                0 <= j < i ==> pin_swept(
                    before[j],
                    #[trigger] pins@[j],
                    views(needles@),
                    digest_hex@,
                ),
            forall|j: int| i <= j < before.len() ==> #[trigger] pins@[j] == before[j],
        decreases pins.len() - i,
    {
        sweep_pin(&mut pins[i], needles, digest_hex);
        i = i + 1;
    }
}

/// What sweeping makes of a relation: of both its ends.
pub open spec fn relation_swept(
    before: Relation,
    after: Relation,
    needles: Seq<Seq<char>>,
    digest: Seq<char>,
) -> bool {
    &&& after == (Relation { from_ref: after.from_ref, to_ref: after.to_ref, ..before })
    &&& pin_swept(before.from_ref, after.from_ref, needles, digest)
    &&& pin_swept(before.to_ref, after.to_ref, needles, digest)
}

fn sweep_relation(row: &mut Relation, needles: &Vec<String>, digest_hex: &str)
    ensures
        relation_swept(*old(row), *final(row), views(needles@), digest_hex@),
{
    sweep_pin(&mut row.from_ref, needles, digest_hex);
    sweep_pin(&mut row.to_ref, needles, digest_hex);
}

/// What sweeping makes of relations.
pub open spec fn relations_swept(
    before: Seq<Relation>,
    after: Seq<Relation>,
    needles: Seq<Seq<char>>,
    digest: Seq<char>,
) -> bool {
    &&& after.len() == before.len()
    &&& forall|i: int|
        0 <= i < before.len() ==> relation_swept(before[i], #[trigger] after[i], needles, digest)
}

pub(crate) fn sweep_relations(table: &mut Table<Relation>, needles: &Vec<String>, digest_hex: &str)
    requires
        old(table).wf(),
    ensures
        final(table).wf(),
        relations_swept(old(table).rows@, final(table).rows@, views(needles@), digest_hex@),
{
    let ghost before = table.rows@;
    let mut i: usize = 0;
    while i < table.rows.len()
        invariant
            i <= table.rows.len(),
            table.rows@.len() == before.len(),
            forall|j: int|
                0 <= j < i ==> relation_swept(
                    before[j],
                    #[trigger] table.rows@[j],
                    views(needles@),
                    digest_hex@,
                ),
            forall|j: int| i <= j < before.len() ==> #[trigger] table.rows@[j] == before[j],
        decreases table.rows.len() - i,
    {
        sweep_relation(&mut table.rows[i], needles, digest_hex);
        i = i + 1;
    }
    proof {
        let after = table.rows@;
        assert forall|p: int, q: int| 0 <= p < q < after.len() implies #[trigger] after[p].key()
            != #[trigger] after[q].key() by {
            assert(before[p].key() != before[q].key());
            assert(relation_swept(before[p], after[p], views(needles@), digest_hex@));
            assert(relation_swept(before[q], after[q], views(needles@), digest_hex@));
        }
    }
}

/// What sweeping makes of the record of an assembly.
pub open spec fn assembly_swept(
    before: Assembly,
    after: Assembly,
    needles: Seq<Seq<char>>,
    digest: Seq<char>,
) -> bool {
    &&& after == (Assembly {
        space_id: after.space_id,
        digest: after.digest,
        frontier_ref: after.frontier_ref,
        frontier_digest: after.frontier_digest,
        items: after.items,
        ..before
    })
    &&& after.space_id@ == swept(before.space_id@, needles, digest)
    &&& after.digest@ == swept(before.digest@, needles, digest)
    &&& after.frontier_ref@ == swept(before.frontier_ref@, needles, digest)
    &&& after.frontier_digest@ == swept(before.frontier_digest@, needles, digest)
    &&& pins_swept(before.items@, after.items@, needles, digest)
}

fn sweep_assembly(row: &mut Assembly, needles: &Vec<String>, digest_hex: &str)
    ensures
        assembly_swept(*old(row), *final(row), views(needles@), digest_hex@),
{
    row.space_id = sweep_text(row.space_id.as_str(), needles, digest_hex);
    row.digest = sweep_text(row.digest.as_str(), needles, digest_hex);
    row.frontier_ref = sweep_text(row.frontier_ref.as_str(), needles, digest_hex);
    row.frontier_digest = sweep_text(row.frontier_digest.as_str(), needles, digest_hex);
    sweep_pins(&mut row.items, needles, digest_hex);
}

/// What sweeping makes of assemblies.
pub open spec fn assemblies_swept(
    before: Seq<Assembly>,
    after: Seq<Assembly>,
    needles: Seq<Seq<char>>,
    digest: Seq<char>,
) -> bool {
    &&& after.len() == before.len()
    &&& forall|i: int|
        0 <= i < before.len() ==> assembly_swept(before[i], #[trigger] after[i], needles, digest)
}

fn sweep_assemblies(table: &mut Table<Assembly>, needles: &Vec<String>, digest_hex: &str)
    requires
        old(table).wf(),
    ensures
        final(table).wf(),
        assemblies_swept(old(table).rows@, final(table).rows@, views(needles@), digest_hex@),
{
    let ghost before = table.rows@;
    let mut i: usize = 0;
    while i < table.rows.len()
        invariant
            i <= table.rows.len(),
            table.rows@.len() == before.len(),
            forall|j: int|
                0 <= j < i ==> assembly_swept(
                    before[j],
                    #[trigger] table.rows@[j],
                    views(needles@),
                    digest_hex@,
                ),
            forall|j: int| i <= j < before.len() ==> #[trigger] table.rows@[j] == before[j],
        decreases table.rows.len() - i,
    {
        sweep_assembly(&mut table.rows[i], needles, digest_hex);
        i = i + 1;
    }
    proof {
        let after = table.rows@;
        assert forall|p: int, q: int| 0 <= p < q < after.len() implies #[trigger] after[p].key()
            != #[trigger] after[q].key() by {
            assert(before[p].key() != before[q].key());
            assert(assembly_swept(before[p], after[p], views(needles@), digest_hex@));
            assert(assembly_swept(before[q], after[q], views(needles@), digest_hex@));
        }
    }
}

/// What sweeping makes of the record of an input manifest.
pub open spec fn manifest_swept(
    before: InputManifest,
    after: InputManifest,
    needles: Seq<Seq<char>>,
    digest: Seq<char>,
) -> bool {
    &&& after == (InputManifest {
        trigger_ref: after.trigger_ref,
        trigger_digest: after.trigger_digest,
        assistant_revision_id: after.assistant_revision_id,
        config_digest: after.config_digest,
        secret_binding_set_digest: after.secret_binding_set_digest,
        policy_digest: after.policy_digest,
        authority_digest: after.authority_digest,
        space_id: after.space_id,
        branch_id: after.branch_id,
        frontier_ref: after.frontier_ref,
        frontier_digest: after.frontier_digest,
        context_assembly_ref: after.context_assembly_ref,
        context_assembly_digest: after.context_assembly_digest,
        disclosure_rules_digest: after.disclosure_rules_digest,
        deadline: after.deadline,
        budget_reservation_set_ref: after.budget_reservation_set_ref,
        ordered_input_refs: after.ordered_input_refs,
        ..before
    })
    &&& after.trigger_ref@ == swept(before.trigger_ref@, needles, digest)
    &&& after.trigger_digest@ == swept(before.trigger_digest@, needles, digest)
    &&& after.assistant_revision_id@ == swept(before.assistant_revision_id@, needles, digest)
    &&& after.config_digest@ == swept(before.config_digest@, needles, digest)
    &&& after.secret_binding_set_digest@ == swept(before.secret_binding_set_digest@, needles, digest)
    &&& after.policy_digest@ == swept(before.policy_digest@, needles, digest)
    &&& after.authority_digest@ == swept(before.authority_digest@, needles, digest)
    &&& opt_swept(before.space_id, after.space_id, needles, digest)
    &&& opt_swept(before.branch_id, after.branch_id, needles, digest)
    &&& opt_swept(before.frontier_ref, after.frontier_ref, needles, digest)
    &&& opt_swept(before.frontier_digest, after.frontier_digest, needles, digest)
    &&& opt_swept(before.context_assembly_ref, after.context_assembly_ref, needles, digest)
    &&& opt_swept(before.context_assembly_digest, after.context_assembly_digest, needles, digest)
    &&& opt_swept(before.disclosure_rules_digest, after.disclosure_rules_digest, needles, digest)
    &&& opt_swept(before.deadline, after.deadline, needles, digest)
    &&& opt_swept(before.budget_reservation_set_ref, after.budget_reservation_set_ref, needles, digest)
    &&& pins_swept(before.ordered_input_refs@, after.ordered_input_refs@, needles, digest)
}

fn sweep_manifest(row: &mut InputManifest, needles: &Vec<String>, digest_hex: &str)
    ensures
        manifest_swept(*old(row), *final(row), views(needles@), digest_hex@),
{
    row.trigger_ref = sweep_text(row.trigger_ref.as_str(), needles, digest_hex);
    row.trigger_digest = sweep_text(row.trigger_digest.as_str(), needles, digest_hex);
    row.assistant_revision_id = sweep_text(row.assistant_revision_id.as_str(), needles, digest_hex);
    row.config_digest = sweep_text(row.config_digest.as_str(), needles, digest_hex);
    row.secret_binding_set_digest = sweep_text(row.secret_binding_set_digest.as_str(), needles, digest_hex);
    row.policy_digest = sweep_text(row.policy_digest.as_str(), needles, digest_hex);
    row.authority_digest = sweep_text(row.authority_digest.as_str(), needles, digest_hex);
    row.space_id = sweep_option(&row.space_id, needles, digest_hex);
    row.branch_id = sweep_option(&row.branch_id, needles, digest_hex);
    row.frontier_ref = sweep_option(&row.frontier_ref, needles, digest_hex);
    row.frontier_digest = sweep_option(&row.frontier_digest, needles, digest_hex);
    row.context_assembly_ref = sweep_option(&row.context_assembly_ref, needles, digest_hex);
    row.context_assembly_digest = sweep_option(&row.context_assembly_digest, needles, digest_hex);
    row.disclosure_rules_digest = sweep_option(&row.disclosure_rules_digest, needles, digest_hex);
    row.deadline = sweep_option(&row.deadline, needles, digest_hex);
    row.budget_reservation_set_ref = sweep_option(&row.budget_reservation_set_ref, needles, digest_hex);
    sweep_pins(&mut row.ordered_input_refs, needles, digest_hex);
}

/// What sweeping makes of input manifests.
pub open spec fn manifests_swept(
    before: Seq<InputManifest>,
    after: Seq<InputManifest>,
    needles: Seq<Seq<char>>,
    digest: Seq<char>,
) -> bool {
    &&& after.len() == before.len()
    &&& forall|i: int|
        0 <= i < before.len() ==> manifest_swept(before[i], #[trigger] after[i], needles, digest)
}

fn sweep_manifests(table: &mut Table<InputManifest>, needles: &Vec<String>, digest_hex: &str)
    requires
        old(table).wf(),
    ensures
        final(table).wf(),
        manifests_swept(old(table).rows@, final(table).rows@, views(needles@), digest_hex@),
{
    let ghost before = table.rows@;
    let mut i: usize = 0;
    while i < table.rows.len()
        invariant
            i <= table.rows.len(),
            table.rows@.len() == before.len(),
            forall|j: int|
                0 <= j < i ==> manifest_swept(
                    before[j],
                    #[trigger] table.rows@[j],
                    views(needles@),
                    digest_hex@,
                ),
            forall|j: int| i <= j < before.len() ==> #[trigger] table.rows@[j] == before[j],
        decreases table.rows.len() - i,
    {
        sweep_manifest(&mut table.rows[i], needles, digest_hex);
        i = i + 1;
    }
    proof {
        let after = table.rows@;
        assert forall|p: int, q: int| 0 <= p < q < after.len() implies #[trigger] after[p].key()
            != #[trigger] after[q].key() by {
            assert(before[p].key() != before[q].key());
            assert(manifest_swept(before[p], after[p], views(needles@), digest_hex@));
            assert(manifest_swept(before[q], after[q], views(needles@), digest_hex@));
        }
    }
}

/// What sweeping makes of the record of an invocation. Where it stands, and what
/// it belongs to, is no part of that.
pub open spec fn invocation_swept(
    before: Invocation,
    after: Invocation,
    needles: Seq<Seq<char>>,
    digest: Seq<char>,
) -> bool {
    &&& after == (Invocation {
        assistant_deployment_id: after.assistant_deployment_id,
        assistant_revision_id: after.assistant_revision_id,
        effective_config_ref: after.effective_config_ref,
        effective_config_digest: after.effective_config_digest,
        secret_binding_set_ref: after.secret_binding_set_ref,
        secret_binding_set_digest: after.secret_binding_set_digest,
        effective_policy_digest: after.effective_policy_digest,
        effective_security_profile: after.effective_security_profile,
        rollout_decision_ref: after.rollout_decision_ref,
        trigger_ref: after.trigger_ref,
        trigger_digest: after.trigger_digest,
        input_manifest_ref: after.input_manifest_ref,
        input_digest: after.input_digest,
        correlation_ref: after.correlation_ref,
        not_before: after.not_before,
        created_at: after.created_at,
        context_assembly_digest: after.context_assembly_digest,
        causation_ref: after.causation_ref,
        deadline: after.deadline,
        budget_reservation_set_ref: after.budget_reservation_set_ref,
        terminal_at: after.terminal_at,
        ..before
    })
    &&& after.assistant_deployment_id@ == swept(before.assistant_deployment_id@, needles, digest)
    &&& after.assistant_revision_id@ == swept(before.assistant_revision_id@, needles, digest)
    &&& after.effective_config_ref@ == swept(before.effective_config_ref@, needles, digest)
    &&& after.effective_config_digest@ == swept(before.effective_config_digest@, needles, digest)
    &&& after.secret_binding_set_ref@ == swept(before.secret_binding_set_ref@, needles, digest)
    &&& after.secret_binding_set_digest@ == swept(before.secret_binding_set_digest@, needles, digest)
    &&& after.effective_policy_digest@ == swept(before.effective_policy_digest@, needles, digest)
    &&& after.effective_security_profile@ == swept(before.effective_security_profile@, needles, digest)
    &&& after.rollout_decision_ref@ == swept(before.rollout_decision_ref@, needles, digest)
    &&& after.trigger_ref@ == swept(before.trigger_ref@, needles, digest)
    &&& after.trigger_digest@ == swept(before.trigger_digest@, needles, digest)
    &&& after.input_manifest_ref@ == swept(before.input_manifest_ref@, needles, digest)
    &&& after.input_digest@ == swept(before.input_digest@, needles, digest)
    &&& after.correlation_ref@ == swept(before.correlation_ref@, needles, digest)
    &&& after.not_before@ == swept(before.not_before@, needles, digest)
    &&& after.created_at@ == swept(before.created_at@, needles, digest)
    &&& opt_swept(before.context_assembly_digest, after.context_assembly_digest, needles, digest)
    &&& opt_swept(before.causation_ref, after.causation_ref, needles, digest)
    &&& opt_swept(before.deadline, after.deadline, needles, digest)
    &&& opt_swept(before.budget_reservation_set_ref, after.budget_reservation_set_ref, needles, digest)
    &&& opt_swept(before.terminal_at, after.terminal_at, needles, digest)
}

fn sweep_invocation(row: &mut Invocation, needles: &Vec<String>, digest_hex: &str)
    ensures
        invocation_swept(*old(row), *final(row), views(needles@), digest_hex@),
{
    row.assistant_deployment_id = sweep_text(row.assistant_deployment_id.as_str(), needles, digest_hex);
    row.assistant_revision_id = sweep_text(row.assistant_revision_id.as_str(), needles, digest_hex);
    row.effective_config_ref = sweep_text(row.effective_config_ref.as_str(), needles, digest_hex);
    row.effective_config_digest = sweep_text(row.effective_config_digest.as_str(), needles, digest_hex);
    row.secret_binding_set_ref = sweep_text(row.secret_binding_set_ref.as_str(), needles, digest_hex);
    row.secret_binding_set_digest = sweep_text(row.secret_binding_set_digest.as_str(), needles, digest_hex);
    row.effective_policy_digest = sweep_text(row.effective_policy_digest.as_str(), needles, digest_hex);
    row.effective_security_profile = sweep_text(row.effective_security_profile.as_str(), needles, digest_hex);
    row.rollout_decision_ref = sweep_text(row.rollout_decision_ref.as_str(), needles, digest_hex);
    row.trigger_ref = sweep_text(row.trigger_ref.as_str(), needles, digest_hex);
    row.trigger_digest = sweep_text(row.trigger_digest.as_str(), needles, digest_hex);
    row.input_manifest_ref = sweep_text(row.input_manifest_ref.as_str(), needles, digest_hex);
    row.input_digest = sweep_text(row.input_digest.as_str(), needles, digest_hex);
    row.correlation_ref = sweep_text(row.correlation_ref.as_str(), needles, digest_hex);
    row.not_before = sweep_text(row.not_before.as_str(), needles, digest_hex);
    row.created_at = sweep_text(row.created_at.as_str(), needles, digest_hex);
    row.context_assembly_digest = sweep_option(&row.context_assembly_digest, needles, digest_hex);
    row.causation_ref = sweep_option(&row.causation_ref, needles, digest_hex);
    row.deadline = sweep_option(&row.deadline, needles, digest_hex);
    row.budget_reservation_set_ref = sweep_option(&row.budget_reservation_set_ref, needles, digest_hex);
    row.terminal_at = sweep_option(&row.terminal_at, needles, digest_hex);
}

/// What sweeping makes of invocations.
pub open spec fn invocations_swept(
    before: Seq<Invocation>,
    after: Seq<Invocation>,
    needles: Seq<Seq<char>>,
    digest: Seq<char>,
) -> bool {
    &&& after.len() == before.len()
    &&& forall|i: int|
        0 <= i < before.len() ==> invocation_swept(before[i], #[trigger] after[i], needles, digest)
}

fn sweep_invocation_rows(table: &mut Table<Invocation>, needles: &Vec<String>, digest_hex: &str)
    requires
        old(table).wf(),
    ensures
        final(table).wf(),
        invocations_swept(old(table).rows@, final(table).rows@, views(needles@), digest_hex@),
{
    let ghost before = table.rows@;
    let mut i: usize = 0;
    while i < table.rows.len()
        invariant
            i <= table.rows.len(),
            table.rows@.len() == before.len(),
            forall|j: int|
                0 <= j < i ==> invocation_swept(
                    before[j],
                    #[trigger] table.rows@[j],
                    views(needles@),
                    digest_hex@,
                ),
            forall|j: int| i <= j < before.len() ==> #[trigger] table.rows@[j] == before[j],
        decreases table.rows.len() - i,
    {
        sweep_invocation(&mut table.rows[i], needles, digest_hex);
        i = i + 1;
    }
    proof {
        let after = table.rows@;
        assert forall|p: int, q: int| 0 <= p < q < after.len() implies #[trigger] after[p].key()
            != #[trigger] after[q].key() by {
            assert(before[p].key() != before[q].key());
            assert(invocation_swept(before[p], after[p], views(needles@), digest_hex@));
            assert(invocation_swept(before[q], after[q], views(needles@), digest_hex@));
        }
    }
}

/// What sweeping makes of the assemblies of a realm.
pub open spec fn contexts_swept(
    before: Contexts,
    after: Contexts,
    needles: Seq<Seq<char>>,
    digest: Seq<char>,
) -> bool {
    &&& assemblies_swept(before.assemblies.rows@, after.assemblies.rows@, needles, digest)
    &&& after.frontiers == before.frontiers
}

/// Sweeps the needles out of the records of the assemblies.
pub fn sweep_contexts(ctx: &mut Contexts, needles: &Vec<String>, digest_hex: &str)
    requires
        old(ctx).wf(),
    ensures
        final(ctx).wf(),
        contexts_swept(*old(ctx), *final(ctx), views(needles@), digest_hex@),
{
    sweep_assemblies(&mut ctx.assemblies, needles, digest_hex);
}

/// What sweeping makes of the invocations of a realm and of their inputs.
pub open spec fn inputs_swept(
    before: Invocations,
    after: Invocations,
    needles: Seq<Seq<char>>,
    digest: Seq<char>,
) -> bool {
    &&& invocations_swept(before.invocations.rows@, after.invocations.rows@, needles, digest)
    &&& manifests_swept(before.manifests.rows@, after.manifests.rows@, needles, digest)
    &&& after.attempts == before.attempts
}

/// Sweeps the needles out of the records of the invocations and of their
/// inputs.
pub fn sweep_inputs(inv: &mut Invocations, needles: &Vec<String>, digest_hex: &str)
    requires
        old(inv).wf(),
    ensures
        final(inv).wf(),
        inputs_swept(*old(inv), *final(inv), views(needles@), digest_hex@),
{
    let ghost before = inv.invocations;
    sweep_invocation_rows(&mut inv.invocations, needles, digest_hex);
    sweep_manifests(&mut inv.manifests, needles, digest_hex);
    proof {
        let a = inv.invocations.rows@;
        let n = views(needles@);
        assert forall|i: int| 0 <= i < a.len() implies ((#[trigger] a[i]).state.terminal()
            <==> a[i].terminal_at is Some) by {
            assert(invocation_swept(before.rows@[i], a[i], n, digest_hex@));
        }
        let rows = inv.attempts.rows@;
        assert forall|i: int| 0 <= i < rows.len() implies {
            let k = crate::table::key1((#[trigger] rows[i]).invocation_id@);
            inv.invocations@.contains_key(k) && inv.invocations@[k].state !is Queued
        } by {
            let k = crate::table::key1(rows[i].invocation_id@);
            let p = crate::table::table_row(before, k);
            assert(invocation_swept(before.rows@[p], a[p], n, digest_hex@));
            crate::table::table_at(inv.invocations, p);
        }
    }
}

/// After a redaction no relation keeps, at either end, what had to go, where no
/// needle can overlap what is put in for one.
pub proof fn no_relation_keeps_a_needle(
    before: Seq<Relation>,
    after: Seq<Relation>,
    needles: Seq<Seq<char>>,
    digest: Seq<char>,
    i: int,
    j: int,
)
    requires
        relations_swept(before, after, needles, digest),
        digest.len() > 0,
        forall|p: int| 0 <= p < needles.len() ==> (#[trigger] needles[p]).len() > 0,
        forall|p: int, q: int|
            0 <= p < needles.len() && 0 <= q < needles.len() ==> !can_touch(
                #[trigger] needles[p],
                replacement(#[trigger] needles[q], digest),
            ),
        0 <= i < after.len(),
        0 <= j < needles.len(),
    ensures
        !occurs(after[i].from_ref.object_ref@, needles[j]),
        !occurs(after[i].from_ref.digest@, needles[j]),
        !occurs(after[i].to_ref.object_ref@, needles[j]),
        !occurs(after[i].to_ref.digest@, needles[j]),
{
    let b = before[i];
    assert(relation_swept(b, after[i], needles, digest));
    a_sweep_leaves_no_needle(b.from_ref.object_ref@, needles, digest);
    a_sweep_leaves_no_needle(b.from_ref.digest@, needles, digest);
    a_sweep_leaves_no_needle(b.to_ref.object_ref@, needles, digest);
    a_sweep_leaves_no_needle(b.to_ref.digest@, needles, digest);
}

/// Whether no needle can come back of what takes its place: none is empty, and
/// none can lie across a replacement.
pub open spec fn sweepable(needles: Seq<Seq<char>>, digest: Seq<char>) -> bool {
    &&& digest.len() > 0
    &&& forall|p: int| 0 <= p < needles.len() ==> (#[trigger] needles[p]).len() > 0
    &&& forall|p: int, q: int|
        0 <= p < needles.len() && 0 <= q < needles.len() ==> !can_touch(
            #[trigger] needles[p],
            replacement(#[trigger] needles[q], digest),
        )
}

proof fn clean(text: Seq<char>, needles: Seq<Seq<char>>, digest: Seq<char>, j: int)
    requires
        sweepable(needles, digest),
        0 <= j < needles.len(),
    ensures
        !occurs(swept(text, needles, digest), needles[j]),
{
    a_sweep_leaves_no_needle(text, needles, digest);
}

/// Whether a text holds none of the needles.
pub open spec fn holds_none(text: Seq<char>, needles: Seq<Seq<char>>) -> bool {
    forall|i: int| 0 <= i < needles.len() ==> !occurs(text, #[trigger] needles[i])
}

proof fn untouched(text: Seq<char>, needles: Seq<Seq<char>>, digest: Seq<char>)
    ensures
        holds_none(text, needles) ==> swept(text, needles, digest) == text,
{
    if holds_none(text, needles) {
        crate::redaction::a_sweep_touches_nothing_else(text, needles, digest);
    }
}

/// A swept pin holds no needle, and stays as it was where it held none.
pub proof fn a_swept_pin_holds_no_needle(
    before: ItemRef,
    after: ItemRef,
    needles: Seq<Seq<char>>,
    digest: Seq<char>,
    j: int,
)
    requires
        pin_swept(before, after, needles, digest),
        0 <= j < needles.len(),
    ensures
        sweepable(needles, digest) ==> !occurs(after.object_ref@, needles[j]) && !occurs(
            after.digest@,
            needles[j],
        ),
        holds_none(before.object_ref@, needles) ==> after.object_ref@ == before.object_ref@,
        holds_none(before.digest@, needles) ==> after.digest@ == before.digest@,
{
    untouched(before.object_ref@, needles, digest);
    untouched(before.digest@, needles, digest);
    if sweepable(needles, digest) {
        clean(before.object_ref@, needles, digest, j);
        clean(before.digest@, needles, digest, j);
    }
}

/// A swept assembly keeps its name and its project; of what it holds
/// besides, no part keeps a needle, and a part that held none stays as it was.
pub proof fn a_swept_assembly_holds_no_needle(
    all: Seq<Assembly>,
    all_after: Seq<Assembly>,
    needles: Seq<Seq<char>>,
    digest: Seq<char>,
    i: int,
    j: int,
)
    requires
        assemblies_swept(all, all_after, needles, digest),
        0 <= i < all.len(),
        0 <= j < needles.len(),
    ensures
        all_after.len() == all.len(),
        all_after[i].assembly_id == all[i].assembly_id,
        all_after[i].project_id == all[i].project_id,
        sweepable(needles, digest) ==> {
            &&& !occurs(all_after[i].space_id@, needles[j])
            &&& !occurs(all_after[i].digest@, needles[j])
            &&& !occurs(all_after[i].frontier_ref@, needles[j])
            &&& !occurs(all_after[i].frontier_digest@, needles[j])
            &&& forall|k: int|
                0 <= k < all_after[i].items@.len() ==> !occurs(
                    (#[trigger] all_after[i].items@[k]).object_ref@,
                    needles[j],
                ) && !occurs(all_after[i].items@[k].digest@, needles[j])
        },
        holds_none(all[i].space_id@, needles) ==> all_after[i].space_id@ == all[i].space_id@,
        holds_none(all[i].digest@, needles) ==> all_after[i].digest@ == all[i].digest@,
        holds_none(all[i].frontier_ref@, needles) ==> all_after[i].frontier_ref@ == all[i].frontier_ref@,
        holds_none(all[i].frontier_digest@, needles) ==> all_after[i].frontier_digest@ == all[i].frontier_digest@,
        all_after[i].items@.len() == all[i].items@.len(),
        forall|k: int|
            0 <= k < all[i].items@.len() && holds_none(all[i].items@[k].object_ref@, needles)
                ==> (#[trigger] all_after[i].items@[k]).object_ref@ == all[i].items@[k].object_ref@,
        forall|k: int|
            0 <= k < all[i].items@.len() && holds_none(all[i].items@[k].digest@, needles)
                ==> (#[trigger] all_after[i].items@[k]).digest@ == all[i].items@[k].digest@,
{
    let before = all[i];
    let after = all_after[i];
    assert(assembly_swept(before, after, needles, digest));
    untouched(before.space_id@, needles, digest);
    untouched(before.digest@, needles, digest);
    untouched(before.frontier_ref@, needles, digest);
    untouched(before.frontier_digest@, needles, digest);
    assert forall|k: int| 0 <= k < after.items@.len() implies pin_swept(
        before.items@[k],
        #[trigger] after.items@[k],
        needles,
        digest,
    ) && (sweepable(needles, digest) ==> !occurs(after.items@[k].object_ref@, needles[j])
        && !occurs(after.items@[k].digest@, needles[j])) && (holds_none(
        before.items@[k].object_ref@,
        needles,
    ) ==> after.items@[k].object_ref@ == before.items@[k].object_ref@) && (holds_none(
        before.items@[k].digest@,
        needles,
    ) ==> after.items@[k].digest@ == before.items@[k].digest@) by {
        a_swept_pin_holds_no_needle(before.items@[k], after.items@[k], needles, digest, j);
    }
    if sweepable(needles, digest) {
        clean(before.space_id@, needles, digest, j);
        clean(before.digest@, needles, digest, j);
        clean(before.frontier_ref@, needles, digest, j);
        clean(before.frontier_digest@, needles, digest, j);
    }
}

/// A swept manifest keeps its name, its invocation and its time; of what it holds
/// besides, no part keeps a needle, and a part that held none stays as it was.
pub proof fn a_swept_manifest_holds_no_needle(
    all: Seq<InputManifest>,
    all_after: Seq<InputManifest>,
    needles: Seq<Seq<char>>,
    digest: Seq<char>,
    i: int,
    j: int,
)
    requires
        manifests_swept(all, all_after, needles, digest),
        0 <= i < all.len(),
        0 <= j < needles.len(),
    ensures
        all_after.len() == all.len(),
        all_after[i].input_manifest_id == all[i].input_manifest_id,
        all_after[i].invocation_id == all[i].invocation_id,
        all_after[i].deployment_revision == all[i].deployment_revision,
        all_after[i].digest == all[i].digest,
        all_after[i].created_at == all[i].created_at,
        sweepable(needles, digest) ==> {
            &&& !occurs(all_after[i].trigger_ref@, needles[j])
            &&& !occurs(all_after[i].trigger_digest@, needles[j])
            &&& !occurs(all_after[i].assistant_revision_id@, needles[j])
            &&& !occurs(all_after[i].config_digest@, needles[j])
            &&& !occurs(all_after[i].secret_binding_set_digest@, needles[j])
            &&& !occurs(all_after[i].policy_digest@, needles[j])
            &&& !occurs(all_after[i].authority_digest@, needles[j])
            &&& all_after[i].space_id is Some ==> !occurs(all_after[i].space_id->0@, needles[j])
            &&& all_after[i].branch_id is Some ==> !occurs(all_after[i].branch_id->0@, needles[j])
            &&& all_after[i].frontier_ref is Some ==> !occurs(all_after[i].frontier_ref->0@, needles[j])
            &&& all_after[i].frontier_digest is Some ==> !occurs(all_after[i].frontier_digest->0@, needles[j])
            &&& all_after[i].context_assembly_ref is Some ==> !occurs(all_after[i].context_assembly_ref->0@, needles[j])
            &&& all_after[i].context_assembly_digest is Some ==> !occurs(all_after[i].context_assembly_digest->0@, needles[j])
            &&& all_after[i].disclosure_rules_digest is Some ==> !occurs(all_after[i].disclosure_rules_digest->0@, needles[j])
            &&& all_after[i].deadline is Some ==> !occurs(all_after[i].deadline->0@, needles[j])
            &&& all_after[i].budget_reservation_set_ref is Some ==> !occurs(all_after[i].budget_reservation_set_ref->0@, needles[j])
            &&& forall|k: int|
                0 <= k < all_after[i].ordered_input_refs@.len() ==> !occurs(
                    (#[trigger] all_after[i].ordered_input_refs@[k]).object_ref@,
                    needles[j],
                ) && !occurs(all_after[i].ordered_input_refs@[k].digest@, needles[j])
        },
        holds_none(all[i].trigger_ref@, needles) ==> all_after[i].trigger_ref@ == all[i].trigger_ref@,
        holds_none(all[i].trigger_digest@, needles) ==> all_after[i].trigger_digest@ == all[i].trigger_digest@,
        holds_none(all[i].assistant_revision_id@, needles) ==> all_after[i].assistant_revision_id@ == all[i].assistant_revision_id@,
        holds_none(all[i].config_digest@, needles) ==> all_after[i].config_digest@ == all[i].config_digest@,
        holds_none(all[i].secret_binding_set_digest@, needles) ==> all_after[i].secret_binding_set_digest@ == all[i].secret_binding_set_digest@,
        holds_none(all[i].policy_digest@, needles) ==> all_after[i].policy_digest@ == all[i].policy_digest@,
        holds_none(all[i].authority_digest@, needles) ==> all_after[i].authority_digest@ == all[i].authority_digest@,
        (all[i].space_id is Some) == (all_after[i].space_id is Some),
        all[i].space_id is Some && holds_none(all[i].space_id->0@, needles) ==> all_after[i].space_id->0@ == all[i].space_id->0@,
        (all[i].branch_id is Some) == (all_after[i].branch_id is Some),
        all[i].branch_id is Some && holds_none(all[i].branch_id->0@, needles) ==> all_after[i].branch_id->0@ == all[i].branch_id->0@,
        (all[i].frontier_ref is Some) == (all_after[i].frontier_ref is Some),
        all[i].frontier_ref is Some && holds_none(all[i].frontier_ref->0@, needles) ==> all_after[i].frontier_ref->0@ == all[i].frontier_ref->0@,
        (all[i].frontier_digest is Some) == (all_after[i].frontier_digest is Some),
        all[i].frontier_digest is Some && holds_none(all[i].frontier_digest->0@, needles) ==> all_after[i].frontier_digest->0@ == all[i].frontier_digest->0@,
        (all[i].context_assembly_ref is Some) == (all_after[i].context_assembly_ref is Some),
        all[i].context_assembly_ref is Some && holds_none(all[i].context_assembly_ref->0@, needles) ==> all_after[i].context_assembly_ref->0@ == all[i].context_assembly_ref->0@,
        (all[i].context_assembly_digest is Some) == (all_after[i].context_assembly_digest is Some),
        all[i].context_assembly_digest is Some && holds_none(all[i].context_assembly_digest->0@, needles) ==> all_after[i].context_assembly_digest->0@ == all[i].context_assembly_digest->0@,
        (all[i].disclosure_rules_digest is Some) == (all_after[i].disclosure_rules_digest is Some),
        all[i].disclosure_rules_digest is Some && holds_none(all[i].disclosure_rules_digest->0@, needles) ==> all_after[i].disclosure_rules_digest->0@ == all[i].disclosure_rules_digest->0@,
        (all[i].deadline is Some) == (all_after[i].deadline is Some),
        all[i].deadline is Some && holds_none(all[i].deadline->0@, needles) ==> all_after[i].deadline->0@ == all[i].deadline->0@,
        (all[i].budget_reservation_set_ref is Some) == (all_after[i].budget_reservation_set_ref is Some),
        all[i].budget_reservation_set_ref is Some && holds_none(all[i].budget_reservation_set_ref->0@, needles) ==> all_after[i].budget_reservation_set_ref->0@ == all[i].budget_reservation_set_ref->0@,
        all_after[i].ordered_input_refs@.len() == all[i].ordered_input_refs@.len(),
        forall|k: int|
            0 <= k < all[i].ordered_input_refs@.len() && holds_none(all[i].ordered_input_refs@[k].object_ref@, needles)
                ==> (#[trigger] all_after[i].ordered_input_refs@[k]).object_ref@ == all[i].ordered_input_refs@[k].object_ref@,
        forall|k: int|
            0 <= k < all[i].ordered_input_refs@.len() && holds_none(all[i].ordered_input_refs@[k].digest@, needles)
                ==> (#[trigger] all_after[i].ordered_input_refs@[k]).digest@ == all[i].ordered_input_refs@[k].digest@,
{
    let before = all[i];
    let after = all_after[i];
    assert(manifest_swept(before, after, needles, digest));
    untouched(before.trigger_ref@, needles, digest);
    untouched(before.trigger_digest@, needles, digest);
    untouched(before.assistant_revision_id@, needles, digest);
    untouched(before.config_digest@, needles, digest);
    untouched(before.secret_binding_set_digest@, needles, digest);
    untouched(before.policy_digest@, needles, digest);
    untouched(before.authority_digest@, needles, digest);
    if before.space_id is Some {
        untouched(before.space_id->0@, needles, digest);
    }
    if before.branch_id is Some {
        untouched(before.branch_id->0@, needles, digest);
    }
    if before.frontier_ref is Some {
        untouched(before.frontier_ref->0@, needles, digest);
    }
    if before.frontier_digest is Some {
        untouched(before.frontier_digest->0@, needles, digest);
    }
    if before.context_assembly_ref is Some {
        untouched(before.context_assembly_ref->0@, needles, digest);
    }
    if before.context_assembly_digest is Some {
        untouched(before.context_assembly_digest->0@, needles, digest);
    }
    if before.disclosure_rules_digest is Some {
        untouched(before.disclosure_rules_digest->0@, needles, digest);
    }
    if before.deadline is Some {
        untouched(before.deadline->0@, needles, digest);
    }
    if before.budget_reservation_set_ref is Some {
        untouched(before.budget_reservation_set_ref->0@, needles, digest);
    }
    assert forall|k: int| 0 <= k < after.ordered_input_refs@.len() implies pin_swept(
        before.ordered_input_refs@[k],
        #[trigger] after.ordered_input_refs@[k],
        needles,
        digest,
    ) && (sweepable(needles, digest) ==> !occurs(after.ordered_input_refs@[k].object_ref@, needles[j])
        && !occurs(after.ordered_input_refs@[k].digest@, needles[j])) && (holds_none(
        before.ordered_input_refs@[k].object_ref@,
        needles,
    ) ==> after.ordered_input_refs@[k].object_ref@ == before.ordered_input_refs@[k].object_ref@) && (holds_none(
        before.ordered_input_refs@[k].digest@,
        needles,
    ) ==> after.ordered_input_refs@[k].digest@ == before.ordered_input_refs@[k].digest@) by {
        a_swept_pin_holds_no_needle(before.ordered_input_refs@[k], after.ordered_input_refs@[k], needles, digest, j);
    }
    if sweepable(needles, digest) {
        clean(before.trigger_ref@, needles, digest, j);
        clean(before.trigger_digest@, needles, digest, j);
        clean(before.assistant_revision_id@, needles, digest, j);
        clean(before.config_digest@, needles, digest, j);
        clean(before.secret_binding_set_digest@, needles, digest, j);
        clean(before.policy_digest@, needles, digest, j);
        clean(before.authority_digest@, needles, digest, j);
        if before.space_id is Some {
            clean(before.space_id->0@, needles, digest, j);
        }
        if before.branch_id is Some {
            clean(before.branch_id->0@, needles, digest, j);
        }
        if before.frontier_ref is Some {
            clean(before.frontier_ref->0@, needles, digest, j);
        }
        if before.frontier_digest is Some {
            clean(before.frontier_digest->0@, needles, digest, j);
        }
        if before.context_assembly_ref is Some {
            clean(before.context_assembly_ref->0@, needles, digest, j);
        }
        if before.context_assembly_digest is Some {
            clean(before.context_assembly_digest->0@, needles, digest, j);
        }
        if before.disclosure_rules_digest is Some {
            clean(before.disclosure_rules_digest->0@, needles, digest, j);
        }
        if before.deadline is Some {
            clean(before.deadline->0@, needles, digest, j);
        }
        if before.budget_reservation_set_ref is Some {
            clean(before.budget_reservation_set_ref->0@, needles, digest, j);
        }
    }
}

/// A swept invocation keeps its name, its place and its state; of what it holds
/// besides, no part keeps a needle, and a part that held none stays as it was.
pub proof fn a_swept_invocation_holds_no_needle(
    all: Seq<Invocation>,
    all_after: Seq<Invocation>,
    needles: Seq<Seq<char>>,
    digest: Seq<char>,
    i: int,
    j: int,
)
    requires
        invocations_swept(all, all_after, needles, digest),
        0 <= i < all.len(),
        0 <= j < needles.len(),
    ensures
        all_after.len() == all.len(),
        all_after[i].invocation_id == all[i].invocation_id,
        all_after[i].realm_id == all[i].realm_id,
        all_after[i].project_id == all[i].project_id,
        all_after[i].space_id == all[i].space_id,
        all_after[i].branch_id == all[i].branch_id,
        all_after[i].assistant_deployment_revision == all[i].assistant_deployment_revision,
        all_after[i].context_assembly_ref == all[i].context_assembly_ref,
        all_after[i].state == all[i].state,
        all_after[i].revision == all[i].revision,
        all_after[i].priority == all[i].priority,
        all_after[i].max_attempts == all[i].max_attempts,
        sweepable(needles, digest) ==> {
            &&& !occurs(all_after[i].assistant_deployment_id@, needles[j])
            &&& !occurs(all_after[i].assistant_revision_id@, needles[j])
            &&& !occurs(all_after[i].effective_config_ref@, needles[j])
            &&& !occurs(all_after[i].effective_config_digest@, needles[j])
            &&& !occurs(all_after[i].secret_binding_set_ref@, needles[j])
            &&& !occurs(all_after[i].secret_binding_set_digest@, needles[j])
            &&& !occurs(all_after[i].effective_policy_digest@, needles[j])
            &&& !occurs(all_after[i].effective_security_profile@, needles[j])
            &&& !occurs(all_after[i].rollout_decision_ref@, needles[j])
            &&& !occurs(all_after[i].trigger_ref@, needles[j])
            &&& !occurs(all_after[i].trigger_digest@, needles[j])
            &&& !occurs(all_after[i].input_manifest_ref@, needles[j])
            &&& !occurs(all_after[i].input_digest@, needles[j])
            &&& !occurs(all_after[i].correlation_ref@, needles[j])
            &&& !occurs(all_after[i].not_before@, needles[j])
            &&& !occurs(all_after[i].created_at@, needles[j])
            &&& all_after[i].context_assembly_digest is Some ==> !occurs(all_after[i].context_assembly_digest->0@, needles[j])
            &&& all_after[i].causation_ref is Some ==> !occurs(all_after[i].causation_ref->0@, needles[j])
            &&& all_after[i].deadline is Some ==> !occurs(all_after[i].deadline->0@, needles[j])
            &&& all_after[i].budget_reservation_set_ref is Some ==> !occurs(all_after[i].budget_reservation_set_ref->0@, needles[j])
            &&& all_after[i].terminal_at is Some ==> !occurs(all_after[i].terminal_at->0@, needles[j])
        },
        holds_none(all[i].assistant_deployment_id@, needles) ==> all_after[i].assistant_deployment_id@ == all[i].assistant_deployment_id@,
        holds_none(all[i].assistant_revision_id@, needles) ==> all_after[i].assistant_revision_id@ == all[i].assistant_revision_id@,
        holds_none(all[i].effective_config_ref@, needles) ==> all_after[i].effective_config_ref@ == all[i].effective_config_ref@,
        holds_none(all[i].effective_config_digest@, needles) ==> all_after[i].effective_config_digest@ == all[i].effective_config_digest@,
        holds_none(all[i].secret_binding_set_ref@, needles) ==> all_after[i].secret_binding_set_ref@ == all[i].secret_binding_set_ref@,
        holds_none(all[i].secret_binding_set_digest@, needles) ==> all_after[i].secret_binding_set_digest@ == all[i].secret_binding_set_digest@,
        holds_none(all[i].effective_policy_digest@, needles) ==> all_after[i].effective_policy_digest@ == all[i].effective_policy_digest@,
        holds_none(all[i].effective_security_profile@, needles) ==> all_after[i].effective_security_profile@ == all[i].effective_security_profile@,
        holds_none(all[i].rollout_decision_ref@, needles) ==> all_after[i].rollout_decision_ref@ == all[i].rollout_decision_ref@,
        holds_none(all[i].trigger_ref@, needles) ==> all_after[i].trigger_ref@ == all[i].trigger_ref@,
        holds_none(all[i].trigger_digest@, needles) ==> all_after[i].trigger_digest@ == all[i].trigger_digest@,
        holds_none(all[i].input_manifest_ref@, needles) ==> all_after[i].input_manifest_ref@ == all[i].input_manifest_ref@,
        holds_none(all[i].input_digest@, needles) ==> all_after[i].input_digest@ == all[i].input_digest@,
        holds_none(all[i].correlation_ref@, needles) ==> all_after[i].correlation_ref@ == all[i].correlation_ref@,
        holds_none(all[i].not_before@, needles) ==> all_after[i].not_before@ == all[i].not_before@,
        holds_none(all[i].created_at@, needles) ==> all_after[i].created_at@ == all[i].created_at@,
        (all[i].context_assembly_digest is Some) == (all_after[i].context_assembly_digest is Some),
        all[i].context_assembly_digest is Some && holds_none(all[i].context_assembly_digest->0@, needles) ==> all_after[i].context_assembly_digest->0@ == all[i].context_assembly_digest->0@,
        (all[i].causation_ref is Some) == (all_after[i].causation_ref is Some),
        all[i].causation_ref is Some && holds_none(all[i].causation_ref->0@, needles) ==> all_after[i].causation_ref->0@ == all[i].causation_ref->0@,
        (all[i].deadline is Some) == (all_after[i].deadline is Some),
        all[i].deadline is Some && holds_none(all[i].deadline->0@, needles) ==> all_after[i].deadline->0@ == all[i].deadline->0@,
        (all[i].budget_reservation_set_ref is Some) == (all_after[i].budget_reservation_set_ref is Some),
        all[i].budget_reservation_set_ref is Some && holds_none(all[i].budget_reservation_set_ref->0@, needles) ==> all_after[i].budget_reservation_set_ref->0@ == all[i].budget_reservation_set_ref->0@,
        (all[i].terminal_at is Some) == (all_after[i].terminal_at is Some),
        all[i].terminal_at is Some && holds_none(all[i].terminal_at->0@, needles) ==> all_after[i].terminal_at->0@ == all[i].terminal_at->0@,
{
    let before = all[i];
    let after = all_after[i];
    assert(invocation_swept(before, after, needles, digest));
    untouched(before.assistant_deployment_id@, needles, digest);
    untouched(before.assistant_revision_id@, needles, digest);
    untouched(before.effective_config_ref@, needles, digest);
    untouched(before.effective_config_digest@, needles, digest);
    untouched(before.secret_binding_set_ref@, needles, digest);
    untouched(before.secret_binding_set_digest@, needles, digest);
    untouched(before.effective_policy_digest@, needles, digest);
    untouched(before.effective_security_profile@, needles, digest);
    untouched(before.rollout_decision_ref@, needles, digest);
    untouched(before.trigger_ref@, needles, digest);
    untouched(before.trigger_digest@, needles, digest);
    untouched(before.input_manifest_ref@, needles, digest);
    untouched(before.input_digest@, needles, digest);
    untouched(before.correlation_ref@, needles, digest);
    untouched(before.not_before@, needles, digest);
    untouched(before.created_at@, needles, digest);
    if before.context_assembly_digest is Some {
        untouched(before.context_assembly_digest->0@, needles, digest);
    }
    if before.causation_ref is Some {
        untouched(before.causation_ref->0@, needles, digest);
    }
    if before.deadline is Some {
        untouched(before.deadline->0@, needles, digest);
    }
    if before.budget_reservation_set_ref is Some {
        untouched(before.budget_reservation_set_ref->0@, needles, digest);
    }
    if before.terminal_at is Some {
        untouched(before.terminal_at->0@, needles, digest);
    }
    if sweepable(needles, digest) {
        clean(before.assistant_deployment_id@, needles, digest, j);
        clean(before.assistant_revision_id@, needles, digest, j);
        clean(before.effective_config_ref@, needles, digest, j);
        clean(before.effective_config_digest@, needles, digest, j);
        clean(before.secret_binding_set_ref@, needles, digest, j);
        clean(before.secret_binding_set_digest@, needles, digest, j);
        clean(before.effective_policy_digest@, needles, digest, j);
        clean(before.effective_security_profile@, needles, digest, j);
        clean(before.rollout_decision_ref@, needles, digest, j);
        clean(before.trigger_ref@, needles, digest, j);
        clean(before.trigger_digest@, needles, digest, j);
        clean(before.input_manifest_ref@, needles, digest, j);
        clean(before.input_digest@, needles, digest, j);
        clean(before.correlation_ref@, needles, digest, j);
        clean(before.not_before@, needles, digest, j);
        clean(before.created_at@, needles, digest, j);
        if before.context_assembly_digest is Some {
            clean(before.context_assembly_digest->0@, needles, digest, j);
        }
        if before.causation_ref is Some {
            clean(before.causation_ref->0@, needles, digest, j);
        }
        if before.deadline is Some {
            clean(before.deadline->0@, needles, digest, j);
        }
        if before.budget_reservation_set_ref is Some {
            clean(before.budget_reservation_set_ref->0@, needles, digest, j);
        }
        if before.terminal_at is Some {
            clean(before.terminal_at->0@, needles, digest, j);
        }
    }
}

/// Sweeping the contexts sweeps their assemblies and no frontier; sweeping the
/// inputs sweeps the invocations and their manifests and no attempt.
pub proof fn a_sweep_goes_through_what_holds_text(
    ctx: Contexts,
    ctx_after: Contexts,
    inv: Invocations,
    inv_after: Invocations,
    needles: Seq<Seq<char>>,
    digest: Seq<char>,
)
    requires
        contexts_swept(ctx, ctx_after, needles, digest),
        inputs_swept(inv, inv_after, needles, digest),
    ensures
        assemblies_swept(ctx.assemblies.rows@, ctx_after.assemblies.rows@, needles, digest),
        ctx_after.frontiers == ctx.frontiers,
        invocations_swept(inv.invocations.rows@, inv_after.invocations.rows@, needles, digest),
        manifests_swept(inv.manifests.rows@, inv_after.manifests.rows@, needles, digest),
        inv_after.attempts == inv.attempts,
{
}

/// A swept relation keeps its name, its space and its classification.
pub proof fn a_swept_relation_keeps_its_place(
    all: Seq<Relation>,
    all_after: Seq<Relation>,
    needles: Seq<Seq<char>>,
    digest: Seq<char>,
    i: int,
)
    requires
        relations_swept(all, all_after, needles, digest),
        0 <= i < all.len(),
    ensures
        all_after.len() == all.len(),
        all_after[i].relation_id == all[i].relation_id,
        all_after[i].space_id == all[i].space_id,
        all_after[i].classification_ref == all[i].classification_ref,
        holds_none(all[i].from_ref.object_ref@, needles) ==> all_after[i].from_ref.object_ref@
            == all[i].from_ref.object_ref@,
        holds_none(all[i].to_ref.object_ref@, needles) ==> all_after[i].to_ref.object_ref@
            == all[i].to_ref.object_ref@,
        holds_none(all[i].from_ref.digest@, needles) ==> all_after[i].from_ref.digest@
            == all[i].from_ref.digest@,
        holds_none(all[i].to_ref.digest@, needles) ==> all_after[i].to_ref.digest@
            == all[i].to_ref.digest@,
{
    assert(relation_swept(all[i], all_after[i], needles, digest));
    untouched(all[i].from_ref.object_ref@, needles, digest);
    untouched(all[i].to_ref.object_ref@, needles, digest);
    untouched(all[i].from_ref.digest@, needles, digest);
    untouched(all[i].to_ref.digest@, needles, digest);
}

} // verus!
