//! The greenfield enablement saga: how a realm's scope comes to be governed.
//!
//! ```text
//! absent ── enable ──▶ bindings_created ── owner none→byom ──▶ active
//!    ▲                     │                                     │
//!    │ (new epoch)         │ (definite mismatch before the CAS)  │ disable
//!    └───────────── rolled_back                               disabled
//! ```
//!
//! The saga creates its binding and mapping inert, re-verifies the Society,
//! and only then moves the owner row from `none` to `byom` by compare-and-set.
//! A mismatch before that step spends the epoch; an unanswered question moves
//! nothing.

use vstd::prelude::*;

use crate::credentials::{invalidate, invalidated, Ledger};
use crate::digests::{keyed_text, keys_all, Keyed};
use crate::handlers::{realm_show, Realm};
use crate::journal::{Actor, ActorView, EventKind, EventView, Journal, JournalView, NewEvent};
use crate::json::{members, number_member, object, put_number, put_text, text_member, Json,
    JsonView};
use crate::problem::{internal, internal_view, not_found, not_found_view, problem, refusal_with,
    stale_revision, stale_revision_view, Problem, ProblemKind, ProblemView};
use crate::table::{key1, Key, Row, Table};
use crate::text::{cat2, cat3, cat4, cat5, decimal, decimal_of, opt_view, quoted, quoted_text,
    same};

use vstd::string::*;

verus! {

// ------------------------------------------------------------- the rows ----

/// Where one enablement stands.
#[derive(Debug, Clone, Copy, PartialEq, Eq, Structural)]
pub enum SlotState {
    BindingsCreated,
    Active,
    RolledBack,
    Disabled,
}

impl SlotState {
    pub open spec fn name(self) -> Seq<char> {
        match self {
            SlotState::BindingsCreated => "bindings_created"@,
            SlotState::Active => "active"@,
            SlotState::RolledBack => "rolled_back"@,
            SlotState::Disabled => "disabled"@,
        }
    }

    pub fn as_str(self) -> (r: &'static str)
        ensures
            r@ == self.name(),
    {
        match self {
            SlotState::BindingsCreated => "bindings_created",
            SlotState::Active => "active",
            SlotState::RolledBack => "rolled_back",
            SlotState::Disabled => "disabled",
        }
    }

    /// A slot that holds its scope: pending or active.
    pub open spec fn live(self) -> bool {
        self is BindingsCreated || self is Active
    }
}

/// One epoch of one exact scope.
#[derive(Debug)]
pub struct Slot {
    pub enablement_id: String,
    pub realm_ref: String,
    pub exact_scope_digest_hex: String,
    pub exact_scope_selector: String,
    pub binding_epoch: u64,
    pub state: SlotState,
    pub society_ref: String,
    pub society_recovery_epoch: u64,
    pub byom_endpoint_ref: String,
    pub endpoint_incarnation: String,
    pub binding_ref: String,
    pub mapping_id: String,
    pub expected_owner_revision: u64,
    pub subject_digest_hex: String,
    /// Why the epoch was rolled back, once it is.
    pub reason: Option<String>,
}

impl Row for Slot {
    open spec fn key(&self) -> Key {
        key1(self.enablement_id@)
    }

    fn has_key(&self, a: &str, b: &str) -> (r: bool) {
        proof {
            crate::text::empty_is(b@);
        }
        same(self.enablement_id.as_str(), a) && b.is_empty()
    }
}

/// What a binding or a mapping may still authorize.
#[derive(Debug, Clone, Copy, PartialEq, Eq, Structural)]
pub enum Standing {
    Pending,
    Active,
    Void,
}

/// The binding of a realm to one byom endpoint incarnation.
#[derive(Debug)]
pub struct RealmBinding {
    pub binding_ref: String,
    pub realm_ref: String,
    pub exact_scope_digest_hex: String,
    pub binding_revision: u64,
    pub binding_epoch: u64,
    pub predecessor_binding_ref: Option<String>,
    pub byom_endpoint_ref: String,
    pub endpoint_incarnation: String,
    pub delegated_principal_audience: String,
    pub external_authorization_audience: String,
    pub recovery_authorization_policy_digest: String,
    pub standing: Standing,
    pub dependency_digest: String,
    pub digest: String,
}

impl Row for RealmBinding {
    open spec fn key(&self) -> Key {
        key1(self.binding_ref@)
    }

    fn has_key(&self, a: &str, b: &str) -> (r: bool) {
        proof {
            crate::text::empty_is(b@);
        }
        same(self.binding_ref.as_str(), a) && b.is_empty()
    }
}

/// The mapping of a realm to the Society that governs its scope.
#[derive(Debug)]
pub struct SocietyMapping {
    pub mapping_id: String,
    pub realm_ref: String,
    pub society_ref: String,
    pub society_recovery_epoch: u64,
    pub allowed_project_and_space_selectors: Vec<String>,
    pub classification_binding_ref: String,
    pub governance_owner_binding_ref: String,
    pub governance_owner_binding_digest: String,
    pub standing: Standing,
    pub revision: u64,
    pub digest: String,
}

impl Row for SocietyMapping {
    open spec fn key(&self) -> Key {
        key1(self.mapping_id@)
    }

    fn has_key(&self, a: &str, b: &str) -> (r: bool) {
        proof {
            crate::text::empty_is(b@);
        }
        same(self.mapping_id.as_str(), a) && b.is_empty()
    }
}

/// Who governs a scope.
#[derive(Debug, Clone, Copy, PartialEq, Eq, Structural)]
pub enum Owner {
    Nobody,
    Byom,
}

/// The owner row of one exact scope. A frozen row keeps its owner arm for
/// audit and holds no active selector.
#[derive(Debug)]
pub struct OwnerBinding {
    pub realm_ref: String,
    pub exact_scope_digest_hex: String,
    pub exact_scope_selector: String,
    pub revision: u64,
    pub binding_epoch: u64,
    pub governance_owner: Owner,
    pub owner_endpoint_ref: Option<String>,
    pub owner_binding_ref: Option<String>,
    pub frozen: bool,
    pub digest: String,
}

impl Row for OwnerBinding {
    open spec fn key(&self) -> Key {
        (self.realm_ref@, self.exact_scope_digest_hex@)
    }

    fn has_key(&self, a: &str, b: &str) -> (r: bool) {
        same(self.realm_ref.as_str(), a) && same(self.exact_scope_digest_hex.as_str(), b)
    }
}

/// Everything the saga keeps.
pub struct Governance {
    pub slots: Table<Slot>,
    pub bindings: Table<RealmBinding>,
    pub mappings: Table<SocietyMapping>,
    pub owners: Table<OwnerBinding>,
}

impl Governance {
    pub open spec fn wf(&self) -> bool {
        &&& self.slots.wf()
        &&& self.bindings.wf()
        &&& self.mappings.wf()
        &&& self.owners.wf()
        &&& epochs_distinct(self.slots.rows@)
    }

    pub fn new() -> (r: Governance)
        ensures
            r.wf(),
            r.slots.rows@.len() == 0,
            r.bindings.rows@.len() == 0,
            r.mappings.rows@.len() == 0,
            r.owners.rows@.len() == 0,
    {
        Governance {
            slots: Table::new(),
            bindings: Table::new(),
            mappings: Table::new(),
            owners: Table::new(),
        }
    }
}

/// Whether a slot is an epoch of this exact scope.
pub open spec fn of_scope(s: Slot, realm: Seq<char>, scope: Seq<char>) -> bool {
    s.realm_ref@ == realm && s.exact_scope_digest_hex@ == scope
}

/// No exact scope has two slots under one epoch.
pub open spec fn epochs_distinct(slots: Seq<Slot>) -> bool {
    forall|i: int, j: int|
        0 <= i < j < slots.len() && (#[trigger] slots[i]).realm_ref@ == (
        #[trigger] slots[j]).realm_ref@ && slots[i].exact_scope_digest_hex@
            == slots[j].exact_scope_digest_hex@ ==> slots[i].binding_epoch != slots[j].binding_epoch
}

/// Whether the slot at `i` is the current one of its exact scope: the one
/// with the highest epoch. Spent epochs stay in the table below it.
pub open spec fn is_current(slots: Seq<Slot>, realm: Seq<char>, scope: Seq<char>, i: int) -> bool {
    &&& 0 <= i < slots.len()
    &&& of_scope(slots[i], realm, scope)
    &&& forall|j: int|
        0 <= j < slots.len() && of_scope(#[trigger] slots[j], realm, scope)
            ==> slots[j].binding_epoch <= slots[i].binding_epoch
}

/// Whether an exact scope has any slot.
pub open spec fn scope_known(slots: Seq<Slot>, realm: Seq<char>, scope: Seq<char>) -> bool {
    exists|i: int| 0 <= i < slots.len() && of_scope(#[trigger] slots[i], realm, scope)
}

/// The current slot of an exact scope.
pub open spec fn current(slots: Seq<Slot>, realm: Seq<char>, scope: Seq<char>) -> Option<Slot> {
    if scope_known(slots, realm, scope) {
        Some(slots[choose|i: int| is_current(slots, realm, scope, i)])
    } else {
        None
    }
}

/// A scope that has any slot has a current one.
proof fn current_exists(slots: Seq<Slot>, realm: Seq<char>, scope: Seq<char>)
    requires
        scope_known(slots, realm, scope),
    ensures
        exists|i: int| #[trigger] is_current(slots, realm, scope, i),
    decreases slots.len(),
{
    let n = slots.len() - 1;
    let t = slots.drop_last();
    if scope_known(t, realm, scope) {
        current_exists(t, realm, scope);
        let c = choose|i: int| is_current(t, realm, scope, i);
        assert forall|j: int| 0 <= j < n implies #[trigger] slots[j] == t[j] by {}
        if of_scope(slots[n], realm, scope) && slots[n].binding_epoch > slots[c].binding_epoch {
            assert(is_current(slots, realm, scope, n));
        } else {
            assert(is_current(slots, realm, scope, c));
        }
    } else {
        let k = choose|i: int| 0 <= i < slots.len() && of_scope(#[trigger] slots[i], realm, scope);
        assert forall|j: int| 0 <= j < n implies !of_scope(#[trigger] slots[j], realm, scope) by {
            assert(slots[j] == t[j]);
        }
        assert(is_current(slots, realm, scope, k));
    }
}

proof fn current_is(slots: Seq<Slot>, realm: Seq<char>, scope: Seq<char>, i: int)
    requires
        epochs_distinct(slots),
        is_current(slots, realm, scope, i),
    ensures
        current(slots, realm, scope) == Some(slots[i]),
{
    let c = choose|k: int| is_current(slots, realm, scope, k);
    assert(is_current(slots, realm, scope, c));
    assert(slots[c].binding_epoch == slots[i].binding_epoch);
    if c < i {
        assert(slots[c].binding_epoch != slots[i].binding_epoch);
    } else if i < c {
        assert(slots[i].binding_epoch != slots[c].binding_epoch);
    }
}

/// The position of the current slot of an exact scope.
pub fn current_slot(gov: &Governance, realm: &str, scope: &str) -> (r: Option<usize>)
    requires
        gov.wf(),
    ensures
        match r {
            Some(i) => is_current(gov.slots.rows@, realm@, scope@, i as int) && current(
                gov.slots.rows@,
                realm@,
                scope@,
            ) == Some(gov.slots.rows@[i as int]),
            None => current(gov.slots.rows@, realm@, scope@) is None,
        },
{
    let mut best: Option<usize> = None;
    let mut i: usize = 0;
    while i < gov.slots.rows.len()
        invariant
            i <= gov.slots.rows.len(),
            match best {
                Some(b) => {
                    &&& b < i
                    &&& of_scope(gov.slots.rows@[b as int], realm@, scope@)
                    &&& forall|j: int|
                        0 <= j < i && of_scope(#[trigger] gov.slots.rows@[j], realm@, scope@)
                            ==> gov.slots.rows@[j].binding_epoch
                            <= gov.slots.rows@[b as int].binding_epoch
                },
                None => forall|j: int|
                    0 <= j < i ==> !of_scope(#[trigger] gov.slots.rows@[j], realm@, scope@),
            },
        decreases gov.slots.rows.len() - i,
    {
        let s = &gov.slots.rows[i];
        if same(s.realm_ref.as_str(), realm) && same(s.exact_scope_digest_hex.as_str(), scope) {
            match best {
                Some(b) => {
                    if gov.slots.rows[b].binding_epoch < s.binding_epoch {
                        best = Some(i);
                    }
                },
                None => {
                    best = Some(i);
                },
            }
        }
        i = i + 1;
    }
    proof {
        if let Some(b) = best {
            current_is(gov.slots.rows@, realm@, scope@, b as int);
        }
    }
    best
}


// ------------------------------------------------------ the overlap rule ----

/// How a stored scope selector relates to the one being enabled, as the
/// selector grammar decides it.
#[derive(Debug)]
pub enum Verdict {
    Disjoint,
    Overlapping,
    /// The stored selector does not parse; the reason.
    Malformed(String),
}

/// Whether the live slot at `i` stands against enabling another scope.
pub open spec fn slot_conflict(
    slots: Seq<Slot>,
    verdicts: Seq<Verdict>,
    realm: Seq<char>,
    own: Seq<char>,
    i: int,
) -> bool {
    &&& 0 <= i < slots.len()
    &&& slots[i].realm_ref@ == realm
    &&& slots[i].state.live()
    &&& slots[i].exact_scope_digest_hex@ != own
    &&& verdicts[i] !is Disjoint
}

/// Whether the active owner at `i` stands against enabling another scope.
pub open spec fn owner_conflict(
    owners: Seq<OwnerBinding>,
    verdicts: Seq<Verdict>,
    realm: Seq<char>,
    own: Seq<char>,
    i: int,
) -> bool {
    &&& 0 <= i < owners.len()
    &&& owners[i].realm_ref@ == realm
    &&& owners[i].exact_scope_digest_hex@ != own
    &&& owners[i].governance_owner is Byom
    &&& !owners[i].frozen
    &&& verdicts[i] !is Disjoint
}

/// No live slot and no active owner stands against the scope.
pub open spec fn no_conflict(
    gov: Governance,
    slot_verdicts: Seq<Verdict>,
    owner_verdicts: Seq<Verdict>,
    realm: Seq<char>,
    own: Seq<char>,
) -> bool {
    &&& forall|i: int| !#[trigger] slot_conflict(gov.slots.rows@, slot_verdicts, realm, own, i)
    &&& forall|i: int| !#[trigger] owner_conflict(gov.owners.rows@, owner_verdicts, realm, own, i)
}

pub open spec fn invalid_arguments(reason: Seq<char>) -> ProblemView {
    refusal_with(ProblemKind::Invalid, "invalid operation arguments"@, reason)
}

pub open spec fn slot_overlap_view(
    selector: Seq<char>,
    slot: Slot,
    verdict: Verdict,
) -> ProblemView {
    match verdict {
        Verdict::Malformed(e) => invalid_arguments(e@),
        _ => refusal_with(
            ProblemKind::Forbidden,
            "an overlapping governed scope is already enabled"@,
            "the scope "@ + quoted_text(selector) + " overlaps "@ + quoted_text(
                slot.exact_scope_selector@,
            ) + ", which is "@ + slot.state.name()
                + " (byom §16.6 item 1: no overlapping active owner selectors)"@,
        ),
    }
}

pub open spec fn owner_overlap_view(
    selector: Seq<char>,
    owner: OwnerBinding,
    verdict: Verdict,
) -> ProblemView {
    match verdict {
        Verdict::Malformed(e) => invalid_arguments(e@),
        _ => refusal_with(
            ProblemKind::Forbidden,
            "an overlapping governed scope already has an owner"@,
            "the scope "@ + quoted_text(selector) + " overlaps the active owner selector "@
                + quoted_text(owner.exact_scope_selector@),
        ),
    }
}

/// The refusal names the first conflicting slot in table order; with no such
/// slot, the conflicting owner with the least scope digest.
pub open spec fn conflict_named(
    gov: Governance,
    slot_verdicts: Seq<Verdict>,
    owner_verdicts: Seq<Verdict>,
    realm: Seq<char>,
    selector: Seq<char>,
    own: Seq<char>,
    p: ProblemView,
) -> bool {
    ||| exists|i: int|
        {
            &&& #[trigger] slot_conflict(gov.slots.rows@, slot_verdicts, realm, own, i)
            &&& forall|j: int|
                0 <= j < i ==> !#[trigger] slot_conflict(
                    gov.slots.rows@,
                    slot_verdicts,
                    realm,
                    own,
                    j,
                )
            &&& p == slot_overlap_view(selector, gov.slots.rows@[i], slot_verdicts[i])
        }
    ||| {
        &&& forall|j: int| !#[trigger] slot_conflict(gov.slots.rows@, slot_verdicts, realm, own, j)
        &&& exists|i: int|
            {
                &&& #[trigger] owner_conflict(gov.owners.rows@, owner_verdicts, realm, own, i)
                &&& forall|j: int| #[trigger]
                    owner_conflict(gov.owners.rows@, owner_verdicts, realm, own, j)
                        ==> !crate::text::before(
                        gov.owners.rows@[j].exact_scope_digest_hex@,
                        gov.owners.rows@[i].exact_scope_digest_hex@,
                    )
                &&& p == owner_overlap_view(selector, gov.owners.rows@[i], owner_verdicts[i])
            }
    }
}

fn is_disjoint(v: &Verdict) -> (r: bool)
    ensures
        r == (*v is Disjoint),
{
    match v {
        Verdict::Disjoint => true,
        _ => false,
    }
}

fn slot_overlap(selector: &str, slot: &Slot, verdict: &Verdict) -> (r: Problem)
    ensures
        r@ == slot_overlap_view(selector@, *slot, *verdict),
{
    match verdict {
        Verdict::Malformed(e) => problem(
            ProblemKind::Invalid,
            "invalid operation arguments",
            e.as_str(),
        ),
        _ => {
            let a = quoted(selector);
            let b = quoted(slot.exact_scope_selector.as_str());
            let mut d = cat4("the scope ", a.as_str(), " overlaps ", b.as_str());
            d.append(", which is ");
            d.append(slot.state.as_str());
            d.append(" (byom §16.6 item 1: no overlapping active owner selectors)");
            problem(
                ProblemKind::Forbidden,
                "an overlapping governed scope is already enabled",
                d.as_str(),
            )
        },
    }
}

fn owner_overlap(selector: &str, owner: &OwnerBinding, verdict: &Verdict) -> (r: Problem)
    ensures
        r@ == owner_overlap_view(selector@, *owner, *verdict),
{
    match verdict {
        Verdict::Malformed(e) => problem(
            ProblemKind::Invalid,
            "invalid operation arguments",
            e.as_str(),
        ),
        _ => {
            let a = quoted(selector);
            let b = quoted(owner.exact_scope_selector.as_str());
            let d = cat4(
                "the scope ",
                a.as_str(),
                " overlaps the active owner selector ",
                b.as_str(),
            );
            problem(
                ProblemKind::Forbidden,
                "an overlapping governed scope already has an owner",
                d.as_str(),
            )
        },
    }
}

/// What the selector grammar says of two selectors.
pub open spec fn judges<V: Fn(&str, &str) -> Verdict>(
    overlap: V,
    selector: Seq<char>,
    stored: Seq<char>,
    verdict: Verdict,
) -> bool {
    exists|a: &str, b: &str|
        #[trigger] overlap.ensures((a, b), verdict) && a@ == selector && b@ == stored
}

/// The verdicts on every slot and on every owner row are the grammar's, each
/// of the selector and the row's own.
pub open spec fn judged<V: Fn(&str, &str) -> Verdict>(
    gov: Governance,
    selector: Seq<char>,
    overlap: V,
    slot_verdicts: Seq<Verdict>,
    owner_verdicts: Seq<Verdict>,
) -> bool {
    &&& slot_verdicts.len() == gov.slots.rows@.len()
    &&& owner_verdicts.len() == gov.owners.rows@.len()
    &&& forall|i: int|
        0 <= i < slot_verdicts.len() ==> judges(
            overlap,
            selector,
            gov.slots.rows@[i].exact_scope_selector@,
            #[trigger] slot_verdicts[i],
        )
    &&& forall|i: int|
        0 <= i < owner_verdicts.len() ==> judges(
            overlap,
            selector,
            gov.owners.rows@[i].exact_scope_selector@,
            #[trigger] owner_verdicts[i],
        )
}

/// Asks the grammar about every stored selector.
fn judge<V: Fn(&str, &str) -> Verdict>(gov: &Governance, selector: &str, overlap: &V) -> (r: (
    Vec<Verdict>,
    Vec<Verdict>,
))
    requires
        forall|a: &str, b: &str| #[trigger] overlap.requires((a, b)),
    ensures
        judged(*gov, selector@, *overlap, r.0@, r.1@),
{
    let mut slots: Vec<Verdict> = Vec::new();
    let mut i: usize = 0;
    while i < gov.slots.rows.len()
        invariant
            i <= gov.slots.rows.len(),
            slots.len() == i,
            forall|a: &str, b: &str| #[trigger] overlap.requires((a, b)),
            forall|k: int|
                0 <= k < i ==> judges(
                    *overlap,
                    selector@,
                    gov.slots.rows@[k].exact_scope_selector@,
                    #[trigger] slots@[k],
                ),
        decreases gov.slots.rows.len() - i,
    {
        let stored = gov.slots.rows[i].exact_scope_selector.as_str();
        let v = overlap(selector, stored);
        proof {
            assert(overlap.ensures((selector, stored), v));
        }
        slots.push(v);
        i = i + 1;
    }
    let mut owners: Vec<Verdict> = Vec::new();
    let mut k: usize = 0;
    while k < gov.owners.rows.len()
        invariant
            k <= gov.owners.rows.len(),
            owners.len() == k,
            forall|a: &str, b: &str| #[trigger] overlap.requires((a, b)),
            forall|w: int|
                0 <= w < k ==> judges(
                    *overlap,
                    selector@,
                    gov.owners.rows@[w].exact_scope_selector@,
                    #[trigger] owners@[w],
                ),
        decreases gov.owners.rows.len() - k,
    {
        let stored = gov.owners.rows[k].exact_scope_selector.as_str();
        let v = overlap(selector, stored);
        proof {
            assert(overlap.ensures((selector, stored), v));
        }
        owners.push(v);
        k = k + 1;
    }
    (slots, owners)
}

/// Refuses a scope that overlaps a live slot or an active owner of another
/// scope, as the selector grammar finds it.
pub fn check_no_overlap<V: Fn(&str, &str) -> Verdict>(
    gov: &Governance,
    realm: &str,
    selector: &str,
    own: &str,
    overlap: &V,
) -> (r: Result<(), Problem>)
    requires
        forall|a: &str, b: &str| #[trigger] overlap.requires((a, b)),
    ensures
        exists|slot_verdicts: Seq<Verdict>, owner_verdicts: Seq<Verdict>|
            {
                &&& #[trigger] judged(*gov, selector@, *overlap, slot_verdicts, owner_verdicts)
                &&& r is Ok <==> no_conflict(*gov, slot_verdicts, owner_verdicts, realm@, own@)
                &&& r matches Err(p) ==> conflict_named(
                    *gov,
                    slot_verdicts,
                    owner_verdicts,
                    realm@,
                    selector@,
                    own@,
                    p@,
                )
            },
{
    let (slots, owners) = judge(gov, selector, overlap);
    check_verdicts(gov, realm, selector, own, &slots, &owners)
}

/// Refuses the first conflict that the verdicts show. The verdict at `i` is
/// the one of the row at `i`.
fn check_verdicts(
    gov: &Governance,
    realm: &str,
    selector: &str,
    own: &str,
    slot_verdicts: &Vec<Verdict>,
    owner_verdicts: &Vec<Verdict>,
) -> (r: Result<(), Problem>)
    requires
        slot_verdicts.len() == gov.slots.rows.len(),
        owner_verdicts.len() == gov.owners.rows.len(),
    ensures
        r is Ok <==> no_conflict(*gov, slot_verdicts@, owner_verdicts@, realm@, own@),
        r matches Err(p) ==> conflict_named(
            *gov,
            slot_verdicts@,
            owner_verdicts@,
            realm@,
            selector@,
            own@,
            p@,
        ),
{
    let mut i: usize = 0;
    while i < gov.slots.rows.len()
        invariant
            slot_verdicts.len() == gov.slots.rows.len(),
            owner_verdicts.len() == gov.owners.rows.len(),
            i <= gov.slots.rows.len(),
            forall|j: int|
                0 <= j < i ==> !#[trigger] slot_conflict(
                    gov.slots.rows@,
                    slot_verdicts@,
                    realm@,
                    own@,
                    j,
                ),
        decreases gov.slots.rows.len() - i,
    {
        let s = &gov.slots.rows[i];
        let live = match s.state {
            SlotState::BindingsCreated => true,
            SlotState::Active => true,
            _ => false,
        };
        if live && same(s.realm_ref.as_str(), realm) && !same(
            s.exact_scope_digest_hex.as_str(),
            own,
        ) && !is_disjoint(&slot_verdicts[i]) {
            proof {
                assert(slot_conflict(gov.slots.rows@, slot_verdicts@, realm@, own@, i as int));
            }
            return Err(slot_overlap(selector, s, &slot_verdicts[i]));
        }
        i = i + 1;
    }
    let mut worst: Option<usize> = None;
    let mut k: usize = 0;
    while k < gov.owners.rows.len()
        invariant
            owner_verdicts.len() == gov.owners.rows.len(),
            k <= gov.owners.rows.len(),
            match worst {
                Some(w) => {
                    &&& w < k
                    &&& owner_conflict(gov.owners.rows@, owner_verdicts@, realm@, own@, w as int)
                    &&& forall|j: int|
                        j < k && #[trigger] owner_conflict(
                            gov.owners.rows@,
                            owner_verdicts@,
                            realm@,
                            own@,
                            j,
                        ) ==> !crate::text::before(
                            gov.owners.rows@[j].exact_scope_digest_hex@,
                            gov.owners.rows@[w as int].exact_scope_digest_hex@,
                        )
                },
                None => forall|j: int|
                    j < k ==> !#[trigger] owner_conflict(
                        gov.owners.rows@,
                        owner_verdicts@,
                        realm@,
                        own@,
                        j,
                    ),
            },
        decreases gov.owners.rows.len() - k,
    {
        let o = &gov.owners.rows[k];
        let owned = match o.governance_owner {
            Owner::Byom => true,
            Owner::Nobody => false,
        };
        if owned && !o.frozen && same(o.realm_ref.as_str(), realm) && !same(
            o.exact_scope_digest_hex.as_str(),
            own,
        ) && !is_disjoint(&owner_verdicts[k]) {
            match worst {
                None => {
                    proof {
                        crate::text::before_irreflexive(
                            gov.owners.rows@[k as int].exact_scope_digest_hex@,
                        );
                    }
                    worst = Some(k);
                },
                Some(w) => {
                    let dk = crate::text::chars_of(o.exact_scope_digest_hex.as_str());
                    let dw = crate::text::chars_of(
                        gov.owners.rows[w].exact_scope_digest_hex.as_str(),
                    );
                    if crate::text::chars_before(&dk, &dw) {
                        proof {
                            crate::text::before_irreflexive(dk@);
                            assert forall|j: int|
                                j < k + 1 && #[trigger] owner_conflict(
                                    gov.owners.rows@,
                                    owner_verdicts@,
                                    realm@,
                                    own@,
                                    j,
                                ) implies !crate::text::before(
                                gov.owners.rows@[j].exact_scope_digest_hex@,
                                dk@,
                            ) by {
                                let dj = gov.owners.rows@[j].exact_scope_digest_hex@;
                                if j < k && crate::text::before(dj, dk@) {
                                    crate::text::before_transitive(dj, dk@, dw@);
                                }
                            }
                        }
                        worst = Some(k);
                    }
                },
            }
        }
        k = k + 1;
    }
    match worst {
        None => Ok(()),
        Some(w) => Err(owner_overlap(selector, &gov.owners.rows[w], &owner_verdicts[w])),
    }
}

// --------------------------------------------------------- the commands ----

/// What a human asks to enable.
#[derive(Debug)]
pub struct EnableArgs {
    pub society_ref: String,
    pub byom_endpoint_ref: String,
    pub exact_scope_selector: String,
    pub allowed_project_and_space_selectors: Vec<String>,
    pub classification_binding_ref: String,
    pub expected_binding_ref: Option<String>,
    pub expected_owner_revision: u64,
    pub confirmed_subject_digest: Option<String>,
}

/// What an enabled scope's answer says of its Society.
#[derive(Debug)]
pub struct SocietyTold {
    pub society_ref: String,
    pub state: String,
    pub recovery_epoch: u64,
}

/// What a saga step answers. The binding, the mapping and the owner row are
/// the ones stored under the references that it gives.
#[derive(Debug)]
pub struct SagaReply {
    pub enablement_id: String,
    pub state: SlotState,
    pub revision: u64,
    pub binding_ref: String,
    pub binding_epoch: u64,
    pub mapping_id: String,
    /// The confirmed subject, while the scope is pending or active.
    pub subject_digest: Option<String>,
    /// The Society, while the scope is pending or active.
    pub society: Option<SocietyTold>,
    /// Why the epoch was rolled back, where it was.
    pub reason: Option<String>,
}

/// The answer on a slot that is now in a state: its identity, its binding and
/// its epoch; while it is pending or active its subject and its Society; and
/// where it is rolled back, why.
pub open spec fn told(
    reply: SagaReply,
    slot: Slot,
    state: SlotState,
    reason: Option<Seq<char>>,
    revision: int,
) -> bool {
    &&& reply.enablement_id@ == slot.enablement_id@
    &&& reply.state == state
    &&& reply.revision == revision
    &&& reply.binding_ref@ == slot.binding_ref@
    &&& reply.binding_epoch == slot.binding_epoch
    &&& reply.mapping_id@ == slot.mapping_id@
    &&& if state.live() {
        &&& opt_view(reply.subject_digest) == Some(slot.subject_digest_hex@)
        &&& reply.society is Some
        &&& reply.society->0.society_ref@ == slot.society_ref@
        &&& reply.society->0.state@ == "active"@
        &&& reply.society->0.recovery_epoch == slot.society_recovery_epoch
    } else {
        reply.subject_digest is None && reply.society is None
    }
    &&& opt_view(reply.reason) == (if state is RolledBack {
        reason
    } else {
        None
    })
}

/// Tells a slot in the state it is in.
fn tell(slot: &Slot, revision: u64) -> (r: SagaReply)
    ensures
        told(r, *slot, slot.state, opt_view(slot.reason), revision as int),
{
    let live = match slot.state {
        SlotState::BindingsCreated => true,
        SlotState::Active => true,
        _ => false,
    };
    let reason: Option<String> = match slot.state {
        SlotState::RolledBack => match &slot.reason {
            Some(t) => Some(t.clone()),
            None => None,
        },
        _ => None,
    };
    SagaReply {
        enablement_id: slot.enablement_id.clone(),
        state: slot.state,
        revision,
        binding_ref: slot.binding_ref.clone(),
        binding_epoch: slot.binding_epoch,
        mapping_id: slot.mapping_id.clone(),
        subject_digest: if live {
            Some(slot.subject_digest_hex.clone())
        } else {
            None
        },
        society: if live {
            Some(
                SocietyTold {
                    society_ref: slot.society_ref.clone(),
                    state: "active".to_owned(),
                    recovery_epoch: slot.society_recovery_epoch,
                },
            )
        } else {
            None
        },
        reason,
    }
}

/// Whether a stored slot names exactly this command's target.
pub open spec fn targets(slot: Slot, args: EnableArgs) -> bool {
    &&& slot.society_ref@ == args.society_ref@
    &&& slot.byom_endpoint_ref@ == args.byom_endpoint_ref@
    &&& slot.exact_scope_selector@ == args.exact_scope_selector@
    &&& match args.expected_binding_ref {
        Some(b) => b@ == slot.binding_ref@,
        None => true,
    }
}

/// Decides [`targets`].
pub fn slot_targets(slot: &Slot, args: &EnableArgs) -> (r: bool)
    ensures
        r == targets(*slot, *args),
{
    same(slot.society_ref.as_str(), args.society_ref.as_str()) && same(
        slot.byom_endpoint_ref.as_str(),
        args.byom_endpoint_ref.as_str(),
    ) && same(slot.exact_scope_selector.as_str(), args.exact_scope_selector.as_str())
        && match &args.expected_binding_ref {
        Some(b) => same(b.as_str(), slot.binding_ref.as_str()),
        None => true,
    }
}

/// The identifiers that the create step writes down.
#[derive(Debug)]
pub struct EnableIds {
    pub enablement_id: String,
    pub binding_ref: String,
    pub mapping_id: String,
}

/// What byom was observed to be before the create step.
#[derive(Debug)]
pub struct Observed {
    pub incarnation: String,
    pub recovery_epoch: u64,
}

/// Every counter that a step may advance is below a bound.
pub open spec fn counters_below(gov: Governance, bound: int) -> bool {
    &&& forall|i: int|
        0 <= i < gov.slots.rows@.len() ==> (#[trigger] gov.slots.rows@[i]).binding_epoch < bound
            && gov.slots.rows@[i].expected_owner_revision < bound
    &&& forall|i: int|
        0 <= i < gov.bindings.rows@.len() ==> (
        #[trigger] gov.bindings.rows@[i]).binding_revision < bound
    &&& forall|i: int|
        0 <= i < gov.mappings.rows@.len() ==> (#[trigger] gov.mappings.rows@[i]).revision < bound
    &&& forall|i: int|
        0 <= i < gov.owners.rows@.len() ==> (#[trigger] gov.owners.rows@[i]).revision < bound
}

/// Every counter that a step may advance can still advance.
pub open spec fn counters_fit(gov: Governance) -> bool {
    counters_below(gov, u64::MAX as int)
}

/// The epoch that a new slot of an exact scope opens.
pub open spec fn next_epoch(slots: Seq<Slot>, realm: Seq<char>, scope: Seq<char>) -> int {
    match current(slots, realm, scope) {
        Some(s) => s.binding_epoch + 1,
        None => 1,
    }
}

/// The owner row of an exact scope, if there is one.
pub open spec fn owner_of(gov: Governance, realm: Seq<char>, scope: Seq<char>) -> Option<
    OwnerBinding,
> {
    if gov.owners@.contains_key((realm, scope)) {
        Some(gov.owners@[(realm, scope)])
    } else {
        None
    }
}

/// Why the owner row stands against a new epoch, if it does: it is owned and
/// active, or its revision is not the expected one.
pub open spec fn owner_refusal(owner: Option<OwnerBinding>, expected: u64) -> Option<ProblemView> {
    match owner {
        None => if expected != 0 {
            Some(stale_revision_view(0))
        } else {
            None
        },
        Some(row) => if row.governance_owner is Byom && !row.frozen {
            Some(
                refusal_with(
                    ProblemKind::Forbidden,
                    "this governed scope already has an owner"@,
                    "no overlapping scope selector may hold an active owner binding (byom §16.6 item 1)"@,
                ),
            )
        } else if expected != row.revision {
            Some(stale_revision_view(row.revision))
        } else {
            None
        },
    }
}

/// The revision that the owner row gets in the create step.
pub open spec fn created_owner_revision(owner: Option<OwnerBinding>) -> int {
    match owner {
        None => 1,
        Some(row) => row.revision + 1,
    }
}

/// Whether the identifiers of the create step are still free.
pub open spec fn ids_free(gov: Governance, ids: EnableIds) -> bool {
    &&& !gov.slots@.contains_key(key1(ids.enablement_id@))
    &&& !gov.bindings@.contains_key(key1(ids.binding_ref@))
    &&& !gov.mappings@.contains_key(key1(ids.mapping_id@))
}

/// The binding that the create step writes: inert, at revision one.
pub open spec fn created_binding(
    b: RealmBinding,
    gov: Governance,
    realm: Seq<char>,
    args: EnableArgs,
    scope: Seq<char>,
    seen: Observed,
    ids: EnableIds,
) -> bool {
    &&& b.binding_ref@ == ids.binding_ref@
    &&& b.realm_ref@ == realm
    &&& b.exact_scope_digest_hex@ == scope
    &&& b.binding_revision == 1
    &&& b.binding_epoch == next_epoch(gov.slots.rows@, realm, scope)
    &&& opt_view(b.predecessor_binding_ref) == (match current(gov.slots.rows@, realm, scope) {
        Some(s) => Some(s.binding_ref@),
        None => None,
    })
    &&& b.byom_endpoint_ref@ == args.byom_endpoint_ref@
    &&& b.endpoint_incarnation@ == seen.incarnation@
    &&& b.delegated_principal_audience@ == "byom:"@ + args.byom_endpoint_ref@ + ":governance"@
    &&& b.external_authorization_audience@ == "byom:"@ + args.byom_endpoint_ref@
        + ":external-authorization"@
    &&& b.standing is Pending
}

/// The mapping that the create step writes: inert, at revision one.
pub open spec fn created_mapping(
    m: SocietyMapping,
    realm: Seq<char>,
    args: EnableArgs,
    seen: Observed,
    ids: EnableIds,
) -> bool {
    &&& m.mapping_id@ == ids.mapping_id@
    &&& m.realm_ref@ == realm
    &&& m.society_ref@ == args.society_ref@
    &&& m.society_recovery_epoch == seen.recovery_epoch
    &&& m.allowed_project_and_space_selectors@ == args.allowed_project_and_space_selectors@
    &&& m.classification_binding_ref@ == args.classification_binding_ref@
    &&& m.governance_owner_binding_ref@ == ids.binding_ref@
    &&& m.standing is Pending
    &&& m.revision == 1
}

/// The owner row that the create step writes: nobody's, under the new epoch.
pub open spec fn created_owner(
    o: OwnerBinding,
    gov: Governance,
    realm: Seq<char>,
    selector: Seq<char>,
    scope: Seq<char>,
    ids: EnableIds,
) -> bool {
    &&& o.realm_ref@ == realm
    &&& o.exact_scope_digest_hex@ == scope
    &&& o.exact_scope_selector@ == (match owner_of(gov, realm, scope) {
        Some(row) => row.exact_scope_selector@,
        None => selector,
    })
    &&& o.revision == created_owner_revision(owner_of(gov, realm, scope))
    &&& o.binding_epoch == next_epoch(gov.slots.rows@, realm, scope)
    &&& o.governance_owner is Nobody
    &&& o.owner_endpoint_ref is None
    &&& o.owner_binding_ref is None
    &&& !o.frozen
}

/// The slot that the create step opens.
pub open spec fn created_slot(
    s: Slot,
    gov: Governance,
    realm: Seq<char>,
    args: EnableArgs,
    selector: Seq<char>,
    scope: Seq<char>,
    subject: Seq<char>,
    seen: Observed,
    ids: EnableIds,
) -> bool {
    &&& s.enablement_id@ == ids.enablement_id@
    &&& s.realm_ref@ == realm
    &&& s.exact_scope_digest_hex@ == scope
    &&& s.exact_scope_selector@ == selector
    &&& s.binding_epoch == next_epoch(gov.slots.rows@, realm, scope)
    &&& s.state is BindingsCreated
    &&& s.society_ref@ == args.society_ref@
    &&& s.society_recovery_epoch == seen.recovery_epoch
    &&& s.byom_endpoint_ref@ == args.byom_endpoint_ref@
    &&& s.endpoint_incarnation@ == seen.incarnation@
    &&& s.binding_ref@ == ids.binding_ref@
    &&& s.mapping_id@ == ids.mapping_id@
    &&& s.expected_owner_revision == created_owner_revision(owner_of(gov, realm, scope))
    &&& s.subject_digest_hex@ == subject
    &&& s.reason is None
}

/// The event of one saga step.
pub open spec fn saga_event(
    kind: EventKind,
    enablement: Seq<char>,
    schema: Seq<char>,
    binding: Seq<char>,
    revision: Option<u64>,
    payload: JsonView,
) -> EventView {
    EventView {
        kind,
        stream_id: enablement,
        project_id: None,
        actor: ActorView::Owner,
        schema_ref: schema,
        resource_ref: binding,
        resource_revision: revision,
        causation_ref: None,
        correlation_ref: enablement,
        classification_ref: None,
        payload: Some(payload),
        once: false,
        named: None,
    }
}

fn append_saga_event(
    journal: &mut Journal,
    kind: EventKind,
    enablement: &str,
    schema: &str,
    binding: &str,
    revision: Option<u64>,
    payload: Json,
)
    ensures
        final(journal)@ == old(journal)@.with_event(
            saga_event(kind, enablement@, schema@, binding@, revision, payload@),
        ),
{
    journal.event(
        NewEvent {
            kind,
            stream_id: enablement.to_owned(),
            project_id: None,
            actor: Actor::Owner,
            schema_ref: schema.to_owned(),
            resource_ref: binding.to_owned(),
            resource_revision: revision,
            causation_ref: None,
            correlation_ref: enablement.to_owned(),
            classification_ref: None,
            payload: Some(payload),
            once: false,
            named: None,
        },
    );
}

/// What the digest that a human confirms is taken over.
#[derive(Debug)]
pub struct EnableSubject {
    pub realm_ref: String,
    pub society_ref: String,
    pub society_recovery_epoch: u64,
    pub byom_endpoint_ref: String,
    pub endpoint_incarnation: String,
    pub exact_scope_selector: String,
    pub society_mapping_revision: u64,
    pub owner_binding_transition: String,
}

/// What a human confirms: the exact scope goes from nobody to byom, under the
/// Society and the endpoint that were observed.
pub open spec fn subject_of_command(
    s: EnableSubject,
    realm: Seq<char>,
    args: EnableArgs,
    selector: Seq<char>,
    seen: Observed,
) -> bool {
    &&& s.realm_ref@ == realm
    &&& s.society_ref@ == args.society_ref@
    &&& s.society_recovery_epoch == seen.recovery_epoch
    &&& s.byom_endpoint_ref@ == args.byom_endpoint_ref@
    &&& s.endpoint_incarnation@ == seen.incarnation@
    &&& s.exact_scope_selector@ == selector
    &&& s.society_mapping_revision == 1
    &&& s.owner_binding_transition@ == "none->byom"@
}

/// Whether a text is what the subject's digest function made of the subject
/// of a command.
pub open spec fn subject_digested<J: Fn(&EnableSubject) -> String>(
    digest: J,
    realm: Seq<char>,
    args: EnableArgs,
    selector: Seq<char>,
    seen: Observed,
    out: Seq<char>,
) -> bool {
    exists|s: &EnableSubject, o: String|
        {
            &&& subject_of_command(*s, realm, args, selector, seen)
            &&& o@ == out
            &&& #[trigger] digest.ensures((s,), o)
        }
}

/// The subject of an enablement, from the command and what was observed.
fn enable_subject(realm: &str, args: &EnableArgs, selector: &str, seen: &Observed) -> (r:
    EnableSubject)
    ensures
        subject_of_command(r, realm@, *args, selector@, *seen),
{
    EnableSubject {
        realm_ref: realm.to_owned(),
        society_ref: args.society_ref.clone(),
        society_recovery_epoch: seen.recovery_epoch,
        byom_endpoint_ref: args.byom_endpoint_ref.clone(),
        endpoint_incarnation: seen.incarnation.clone(),
        exact_scope_selector: selector.to_owned(),
        society_mapping_revision: 1,
        owner_binding_transition: "none->byom".to_owned(),
    }
}

/// What the digest of a binding's dependencies is taken over.
#[derive(Debug)]
pub struct DependencySet {
    pub realm_ref: String,
    pub realm_revision: u64,
    pub society_ref: String,
    pub society_recovery_epoch: u64,
    pub byom_endpoint_ref: String,
    pub endpoint_incarnation: String,
    pub expected_binding_ref: Option<String>,
    pub society_mapping_revision: u64,
}

/// What a new binding depends on: the realm as it stands, the Society and the
/// endpoint that were observed, and the binding that the command expects.
pub open spec fn depends_on(
    d: DependencySet,
    realm: Seq<char>,
    realm_revision: u64,
    args: EnableArgs,
    seen: Observed,
) -> bool {
    &&& d.realm_ref@ == realm
    &&& d.realm_revision == realm_revision
    &&& d.society_ref@ == args.society_ref@
    &&& d.society_recovery_epoch == seen.recovery_epoch
    &&& d.byom_endpoint_ref@ == args.byom_endpoint_ref@
    &&& d.endpoint_incarnation@ == seen.incarnation@
    &&& opt_view(d.expected_binding_ref) == opt_view(args.expected_binding_ref)
    &&& d.society_mapping_revision == 1
}

/// The dependencies of a binding, from the command and what was observed.
fn dependency_set(realm: &str, realm_revision: u64, args: &EnableArgs, seen: &Observed) -> (r:
    DependencySet)
    ensures
        depends_on(r, realm@, realm_revision, *args, *seen),
{
    DependencySet {
        realm_ref: realm.to_owned(),
        realm_revision,
        society_ref: args.society_ref.clone(),
        society_recovery_epoch: seen.recovery_epoch,
        byom_endpoint_ref: args.byom_endpoint_ref.clone(),
        endpoint_incarnation: seen.incarnation.clone(),
        expected_binding_ref: args.expected_binding_ref.clone(),
        society_mapping_revision: 1,
    }
}

/// What is announced of a new epoch.
pub open spec fn created_document(
    enablement_id: Seq<char>,
    binding_ref: Seq<char>,
    binding_epoch: u64,
) -> JsonView {
    JsonView::Object(
        seq![
            number_member("binding_epoch"@, binding_epoch),
            text_member("binding_ref"@, binding_ref),
            text_member("enablement_id"@, enablement_id),
            text_member("state"@, "bindings_created"@),
        ],
    )
}

/// What is announced of a new epoch.
fn created_payload(enablement_id: &str, binding_ref: &str, binding_epoch: u64) -> (r: Json)
    ensures
        r@ == created_document(enablement_id@, binding_ref@, binding_epoch),
{
    let mut v: Vec<(String, Json)> = Vec::new();
    put_number(&mut v, "binding_epoch", binding_epoch);
    put_text(&mut v, "binding_ref", binding_ref);
    put_text(&mut v, "enablement_id", enablement_id);
    put_text(&mut v, "state", "bindings_created");
    proof {
        assert(members(v@) =~= created_document(
            enablement_id@,
            binding_ref@,
            binding_epoch,
        )->Object_0);
    }
    object(v)
}

/// What is announced of an activation.
pub open spec fn activated_document(slot: Slot) -> JsonView {
    JsonView::Object(
        seq![
            number_member("binding_epoch"@, slot.binding_epoch),
            text_member("binding_ref"@, slot.binding_ref@),
            text_member("enablement_id"@, slot.enablement_id@),
            text_member("governance_owner"@, "byom"@),
            text_member("state"@, "active"@),
        ],
    )
}

/// What is announced of an activation.
fn activated_payload(slot: &Slot) -> (r: Json)
    ensures
        r@ == activated_document(*slot),
{
    let mut v: Vec<(String, Json)> = Vec::new();
    put_number(&mut v, "binding_epoch", slot.binding_epoch);
    put_text(&mut v, "binding_ref", slot.binding_ref.as_str());
    put_text(&mut v, "enablement_id", slot.enablement_id.as_str());
    put_text(&mut v, "governance_owner", "byom");
    put_text(&mut v, "state", "active");
    proof {
        assert(members(v@) =~= activated_document(*slot)->Object_0);
    }
    object(v)
}

/// What is announced of an epoch that is over.
pub open spec fn ended_document(
    enablement_id: Seq<char>,
    binding_epoch: u64,
    state: Seq<char>,
) -> JsonView {
    JsonView::Object(
        seq![
            number_member("binding_epoch"@, binding_epoch),
            text_member("enablement_id"@, enablement_id),
            text_member("state"@, state),
        ],
    )
}

/// What is announced of an epoch that is over.
fn ended_payload(enablement_id: &str, binding_epoch: u64, state: &str) -> (r: Json)
    ensures
        r@ == ended_document(enablement_id@, binding_epoch, state@),
{
    let mut v: Vec<(String, Json)> = Vec::new();
    put_number(&mut v, "binding_epoch", binding_epoch);
    put_text(&mut v, "enablement_id", enablement_id);
    put_text(&mut v, "state", state);
    proof {
        assert(members(v@) =~= ended_document(enablement_id@, binding_epoch, state@)->Object_0);
    }
    object(v)
}

/// What the digest of a binding's recovery policy is taken over.
pub open spec fn recovery_policy_document() -> JsonView {
    JsonView::Object(
        seq![
            text_member("mode"@, "disabled"@),
            text_member("policy_ref"@, "recovery-policy-personal-none"@),
        ],
    )
}

/// What the digest of a binding's recovery policy is taken over.
fn recovery_policy_subject() -> (r: Json)
    ensures
        r@ == recovery_policy_document(),
{
    let mut v: Vec<(String, Json)> = Vec::new();
    put_text(&mut v, "mode", "disabled");
    put_text(&mut v, "policy_ref", "recovery-policy-personal-none");
    proof {
        assert(members(v@) =~= recovery_policy_document()->Object_0);
    }
    object(v)
}

/// The functions that the digests of the saga's records are made by.
#[derive(Clone, Copy)]
pub struct Seals<G, D, B, O, M> {
    pub keyed: G,
    pub dependencies: D,
    pub binding: B,
    pub owner: O,
    pub mapping: M,
}

/// Each of the functions takes every record.
pub open spec fn seals_all<
    G: Fn(&str, &Json) -> Keyed + Copy,
    D: Fn(&DependencySet) -> String + Copy,
    B: Fn(&RealmBinding) -> String + Copy,
    O: Fn(&OwnerBinding) -> String + Copy,
    M: Fn(&SocietyMapping) -> String + Copy,
>(seals: Seals<G, D, B, O, M>) -> bool {
    &&& keys_all(seals.keyed)
    &&& forall|d: &DependencySet| #[trigger] seals.dependencies.requires((d,))
    &&& forall|b: &RealmBinding| #[trigger] seals.binding.requires((b,))
    &&& forall|o: &OwnerBinding| #[trigger] seals.owner.requires((o,))
    &&& forall|m: &SocietyMapping| #[trigger] seals.mapping.requires((m,))
}

/// Whether a binding's digest is what its function made of it; a digest never
/// covers itself.
pub open spec fn binding_sealed<B: Fn(&RealmBinding) -> String>(seal: B, b: RealmBinding) -> bool {
    exists|draft: &RealmBinding, out: String|
        {
            &&& *draft == (RealmBinding { digest: draft.digest, ..b })
            &&& out@ == b.digest@
            &&& #[trigger] seal.ensures((draft,), out)
        }
}

/// Whether an owner row's digest is what its function made of it.
pub open spec fn owner_sealed<O: Fn(&OwnerBinding) -> String>(seal: O, o: OwnerBinding) -> bool {
    exists|draft: &OwnerBinding, out: String|
        {
            &&& *draft == (OwnerBinding { digest: draft.digest, ..o })
            &&& out@ == o.digest@
            &&& #[trigger] seal.ensures((draft,), out)
        }
}

/// Whether a mapping's digest is what its function made of it.
pub open spec fn mapping_sealed<M: Fn(&SocietyMapping) -> String>(
    seal: M,
    m: SocietyMapping,
) -> bool {
    exists|draft: &SocietyMapping, out: String|
        {
            &&& *draft == (SocietyMapping { digest: draft.digest, ..m })
            &&& out@ == m.digest@
            &&& #[trigger] seal.ensures((draft,), out)
        }
}

/// Whether a text is what the function of dependency sets made of a binding's
/// dependencies.
pub open spec fn dependencies_digested<D: Fn(&DependencySet) -> String>(
    digest: D,
    realm: Seq<char>,
    realm_revision: u64,
    args: EnableArgs,
    seen: Observed,
    out: Seq<char>,
) -> bool {
    exists|d: &DependencySet, o: String|
        {
            &&& depends_on(*d, realm, realm_revision, args, seen)
            &&& o@ == out
            &&& #[trigger] digest.ensures((d,), o)
        }
}

/// What the records of a new epoch are digested from. The mapping pins the
/// owner row by its digest.
pub open spec fn epoch_sealed<
    G: Fn(&str, &Json) -> Keyed + Copy,
    D: Fn(&DependencySet) -> String + Copy,
    B: Fn(&RealmBinding) -> String + Copy,
    O: Fn(&OwnerBinding) -> String + Copy,
    M: Fn(&SocietyMapping) -> String + Copy,
>(
    after: Governance,
    realm: Seq<char>,
    scope: Seq<char>,
    realm_revision: u64,
    args: EnableArgs,
    seen: Observed,
    seals: Seals<G, D, B, O, M>,
) -> bool {
    let b = after.bindings.rows@.last();
    let m = after.mappings.rows@.last();
    let o = after.owners@[(realm, scope)];
    &&& keyed_text(
        seals.keyed,
        "kovee-recovery-policy-v1"@,
        recovery_policy_document(),
        b.recovery_authorization_policy_digest@,
    )
    &&& dependencies_digested(
        seals.dependencies,
        realm,
        realm_revision,
        args,
        seen,
        b.dependency_digest@,
    )
    &&& binding_sealed(seals.binding, b)
    &&& owner_sealed(seals.owner, o)
    &&& m.governance_owner_binding_digest@ == o.digest@
    &&& mapping_sealed(seals.mapping, m)
}

/// What the create step does when it opens a new epoch.
pub open spec fn epoch_opened(
    before: Governance,
    after: Governance,
    realm: Seq<char>,
    args: EnableArgs,
    selector: Seq<char>,
    scope: Seq<char>,
    subject: Seq<char>,
    seen: Observed,
    ids: EnableIds,
) -> bool {
    &&& after.slots.rows@ == before.slots.rows@.push(after.slots.rows@.last())
    &&& created_slot(
        after.slots.rows@.last(),
        before,
        realm,
        args,
        selector,
        scope,
        subject,
        seen,
        ids,
    )
    &&& after.bindings.rows@ == before.bindings.rows@.push(after.bindings.rows@.last())
    &&& created_binding(after.bindings.rows@.last(), before, realm, args, scope, seen, ids)
    &&& after.mappings.rows@ == before.mappings.rows@.push(after.mappings.rows@.last())
    &&& created_mapping(after.mappings.rows@.last(), realm, args, seen, ids)
    &&& after.owners@.contains_key((realm, scope))
    &&& after.owners@ == before.owners@.insert((realm, scope), after.owners@[(realm, scope)])
    &&& created_owner(after.owners@[(realm, scope)], before, realm, selector, scope, ids)
}

proof fn epochs_stay_distinct(
    slots: Seq<Slot>,
    s: Slot,
    realm: Seq<char>,
    scope: Seq<char>,
)
    requires
        epochs_distinct(slots),
        of_scope(s, realm, scope),
        s.binding_epoch == next_epoch(slots, realm, scope),
        scope_known(slots, realm, scope) ==> exists|i: int|
            #[trigger] is_current(slots, realm, scope, i),
    ensures
        epochs_distinct(slots.push(s)),
{
    let after = slots.push(s);
    assert forall|i: int, j: int|
        0 <= i < j < after.len() && (#[trigger] after[i]).realm_ref@ == (
        #[trigger] after[j]).realm_ref@ && after[i].exact_scope_digest_hex@
            == after[j].exact_scope_digest_hex@ implies after[i].binding_epoch
        != after[j].binding_epoch by {
        assert(after[i] == slots[i]);
        if j < slots.len() {
            assert(after[j] == slots[j]);
        } else {
            assert(of_scope(slots[i], realm, scope));
            let c = choose|k: int| is_current(slots, realm, scope, k);
            assert(is_current(slots, realm, scope, c));
            assert(current(slots, realm, scope) == Some(slots[c]));
        }
    }
}

/// What the create step does and answers.
pub open spec fn create_outcome<
    G: Fn(&str, &Json) -> Keyed + Copy,
    D: Fn(&DependencySet) -> String + Copy,
    B: Fn(&RealmBinding) -> String + Copy,
    O: Fn(&OwnerBinding) -> String + Copy,
    M: Fn(&SocietyMapping) -> String + Copy,
>(
    before: Governance,
    after: Governance,
    journal: JournalView,
    after_journal: JournalView,
    realm: Seq<char>,
    args: EnableArgs,
    selector: Seq<char>,
    scope: Seq<char>,
    subject: Seq<char>,
    seen: Observed,
    realm_revision: Option<u64>,
    slot_verdicts: Seq<Verdict>,
    owner_verdicts: Seq<Verdict>,
    ids: EnableIds,
    seals: Seals<G, D, B, O, M>,
    r: Result<SagaReply, Problem>,
) -> bool {
    &&& match current(before.slots.rows@, realm, scope) {
        Some(s) => s.state is BindingsCreated,
        None => false,
    } ==> {
        let s = current(before.slots.rows@, realm, scope)->0;
        &&& after == before
        &&& after_journal == journal
        &&& if targets(s, args) {
            &&& r is Ok
            &&& told(
                r->Ok_0,
                s,
                s.state,
                opt_view(s.reason),
                s.expected_owner_revision as int,
            )
        } else {
            r is Err && r->Err_0@ == stale_revision_view(s.expected_owner_revision)
        }
    }
    &&& !(match current(before.slots.rows@, realm, scope) {
        Some(s) => s.state is BindingsCreated,
        None => false,
    }) ==> {
        let owner = owner_of(before, realm, scope);
        if !no_conflict(before, slot_verdicts, owner_verdicts, realm, scope) {
            &&& r is Err
            &&& conflict_named(
                before,
                slot_verdicts,
                owner_verdicts,
                realm,
                selector,
                scope,
                r->Err_0@,
            )
            &&& after == before
            &&& after_journal == journal
        } else if owner_refusal(owner, args.expected_owner_revision) is Some {
            &&& r is Err
            &&& Some(r->Err_0@) == owner_refusal(owner, args.expected_owner_revision)
            &&& after == before
            &&& after_journal == journal
        } else if realm_revision is None {
            &&& r is Err
            &&& r->Err_0@ == not_found_view()
            &&& after == before
            &&& after_journal == journal
        } else if !ids_free(before, ids) {
            &&& r is Err
            &&& r->Err_0@ == internal_view()
            &&& after == before
            &&& after_journal == journal
        } else {
            &&& r is Ok
            &&& told(
                r->Ok_0,
                after.slots.rows@.last(),
                SlotState::BindingsCreated,
                None,
                created_owner_revision(owner) as int,
            )
            &&& epoch_opened(
                before,
                after,
                realm,
                args,
                selector,
                scope,
                subject,
                seen,
                ids,
            )
            &&& epoch_sealed(after, realm, scope, realm_revision->0, args, seen, seals)
            &&& after_journal == journal.with_audit(
                "governance.bindings-created"@,
                "enablement="@ + ids.enablement_id@ + " epoch="@ + decimal_of(
                    next_epoch(before.slots.rows@, realm, scope) as nat,
                ),
            ).with_event(
                saga_event(
                    EventKind::GovernanceBindingsCreated,
                    ids.enablement_id@,
                    "schema:kovee-realm-byom-binding-v1"@,
                    ids.binding_ref@,
                    Some(1u64),
                    created_document(
                        ids.enablement_id@,
                        ids.binding_ref@,
                        next_epoch(before.slots.rows@, realm, scope) as u64,
                    ),
                ),
            )
        }
    }
}

/// What the create step does and answers under the selector grammar's rule.
pub open spec fn create_done<
    G: Fn(&str, &Json) -> Keyed + Copy,
    D: Fn(&DependencySet) -> String + Copy,
    B: Fn(&RealmBinding) -> String + Copy,
    O: Fn(&OwnerBinding) -> String + Copy,
    M: Fn(&SocietyMapping) -> String + Copy,
    V: Fn(&str, &str) -> Verdict,
>(
    before: Governance,
    after: Governance,
    journal: JournalView,
    after_journal: JournalView,
    realm: Seq<char>,
    args: EnableArgs,
    selector: Seq<char>,
    scope: Seq<char>,
    subject: Seq<char>,
    seen: Observed,
    realm_revision: Option<u64>,
    overlap: V,
    ids: EnableIds,
    seals: Seals<G, D, B, O, M>,
    r: Result<SagaReply, Problem>,
) -> bool {
    exists|slot_verdicts: Seq<Verdict>, owner_verdicts: Seq<Verdict>|
        {
            &&& #[trigger] judged(before, selector, overlap, slot_verdicts, owner_verdicts)
            &&& create_outcome(
                before,
                after,
                journal,
                after_journal,
                realm,
                args,
                selector,
                scope,
                subject,
                seen,
                realm_revision,
                slot_verdicts,
                owner_verdicts,
                ids,
                seals,
                r,
            )
        }
}

/// The create step: reuses a pending slot of the same target, or opens a new
/// epoch with inert bindings. `overlap` is the selector grammar's rule on two
/// selectors. A refusal changes nothing.
pub fn create_bindings<
    G: Fn(&str, &Json) -> Keyed + Copy,
    D: Fn(&DependencySet) -> String + Copy,
    B: Fn(&RealmBinding) -> String + Copy,
    O: Fn(&OwnerBinding) -> String + Copy,
    M: Fn(&SocietyMapping) -> String + Copy,
    V: Fn(&str, &str) -> Verdict,
>(
    gov: &mut Governance,
    journal: &mut Journal,
    realm: &str,
    args: &EnableArgs,
    selector: &str,
    scope: &str,
    subject: &str,
    seen: &Observed,
    realm_revision: Option<u64>,
    overlap: &V,
    ids: &EnableIds,
    seals: Seals<G, D, B, O, M>,
) -> (r: Result<SagaReply, Problem>)
    requires
        seals_all(seals),
        old(gov).wf(),
        counters_fit(*old(gov)),
        forall|a: &str, b: &str| #[trigger] overlap.requires((a, b)),
    ensures
        final(gov).wf(),
        create_done(
            *old(gov),
            *final(gov),
            old(journal)@,
            final(journal)@,
            realm@,
            *args,
            selector@,
            scope@,
            subject@,
            *seen,
            realm_revision,
            *overlap,
            *ids,
            seals,
            r,
        ),
{
    let (slot_verdicts, owner_verdicts) = judge(gov, selector, overlap);
    create_judged(
        gov,
        journal,
        realm,
        args,
        selector,
        scope,
        subject,
        seen,
        realm_revision,
        &slot_verdicts,
        &owner_verdicts,
        ids,
        seals,
    )
}

/// The create step under given verdicts.
fn create_judged<
    G: Fn(&str, &Json) -> Keyed + Copy,
    D: Fn(&DependencySet) -> String + Copy,
    B: Fn(&RealmBinding) -> String + Copy,
    O: Fn(&OwnerBinding) -> String + Copy,
    M: Fn(&SocietyMapping) -> String + Copy,
>(
    gov: &mut Governance,
    journal: &mut Journal,
    realm: &str,
    args: &EnableArgs,
    selector: &str,
    scope: &str,
    subject: &str,
    seen: &Observed,
    realm_revision: Option<u64>,
    slot_verdicts: &Vec<Verdict>,
    owner_verdicts: &Vec<Verdict>,
    ids: &EnableIds,
    seals: Seals<G, D, B, O, M>,
) -> (r: Result<SagaReply, Problem>)
    requires
        seals_all(seals),
        old(gov).wf(),
        counters_fit(*old(gov)),
        slot_verdicts.len() == old(gov).slots.rows.len(),
        owner_verdicts.len() == old(gov).owners.rows.len(),
    ensures
        final(gov).wf(),
        create_outcome(
            *old(gov),
            *final(gov),
            old(journal)@,
            final(journal)@,
            realm@,
            *args,
            selector@,
            scope@,
            subject@,
            *seen,
            realm_revision,
            slot_verdicts@,
            owner_verdicts@,
            *ids,
            seals,
            r,
        ),
{
    let previous = current_slot(gov, realm, scope);
    if let Some(i) = previous {
        let slot = &gov.slots.rows[i];
        if let SlotState::BindingsCreated = slot.state {
            if !slot_targets(slot, args) {
                return Err(stale_revision(slot.expected_owner_revision));
            }
            return Ok(tell(slot, slot.expected_owner_revision));
        }
    }
    let binding_epoch: u64 = match previous {
        Some(i) => gov.slots.rows[i].binding_epoch + 1,
        None => 1,
    };
    check_verdicts(gov, realm, selector, scope, slot_verdicts, owner_verdicts)?;
    let owner_at = gov.owners.position(realm, scope);
    let owner_revision: u64 = match owner_at {
        None => {
            if args.expected_owner_revision != 0 {
                return Err(stale_revision(0));
            }
            1
        },
        Some(k) => {
            let row = &gov.owners.rows[k];
            let owned = match row.governance_owner {
                Owner::Byom => true,
                Owner::Nobody => false,
            };
            if owned && !row.frozen {
                return Err(
                    problem(
                        ProblemKind::Forbidden,
                        "this governed scope already has an owner",
                        "no overlapping scope selector may hold an active owner binding (byom §16.6 item 1)",
                    ),
                );
            }
            if args.expected_owner_revision != row.revision {
                return Err(stale_revision(row.revision));
            }
            row.revision + 1
        },
    };
    let stands = match realm_revision {
        None => {
            return Err(not_found());
        },
        Some(n) => n,
    };
    if gov.slots.position(ids.enablement_id.as_str(), "").is_some() || gov.bindings.position(
        ids.binding_ref.as_str(),
        "",
    ).is_some() || gov.mappings.position(ids.mapping_id.as_str(), "").is_some() {
        proof {
            reveal_strlit("");
            crate::text::empty_is(""@);
        }
        return Err(internal());
    }
    proof {
        reveal_strlit("");
        crate::text::empty_is(""@);
    }
    let keyed = seals.keyed;
    let policy_doc = recovery_policy_subject();
    let policy = keyed("kovee-recovery-policy-v1", &policy_doc);
    let depends = dependency_set(realm, stands, args, seen);
    let digest_depends = seals.dependencies;
    let dependency_digest = digest_depends(&depends);
    proof {
        assert(keyed_text(
            keyed,
            "kovee-recovery-policy-v1"@,
            policy_doc@,
            policy.text@,
        ));
        assert(digest_depends.ensures((&depends,), dependency_digest));
        assert(dependencies_digested(
            digest_depends,
            realm@,
            stands,
            *args,
            *seen,
            dependency_digest@,
        ));
    }
    let endpoint = args.byom_endpoint_ref.as_str();
    let mut binding = RealmBinding {
        binding_ref: ids.binding_ref.clone(),
        realm_ref: realm.to_owned(),
        exact_scope_digest_hex: scope.to_owned(),
        binding_revision: 1,
        binding_epoch,
        predecessor_binding_ref: match previous {
            Some(i) => Some(gov.slots.rows[i].binding_ref.clone()),
            None => None,
        },
        byom_endpoint_ref: args.byom_endpoint_ref.clone(),
        endpoint_incarnation: seen.incarnation.clone(),
        delegated_principal_audience: cat3("byom:", endpoint, ":governance"),
        external_authorization_audience: cat3("byom:", endpoint, ":external-authorization"),
        recovery_authorization_policy_digest: policy.text,
        standing: Standing::Pending,
        dependency_digest,
        digest: String::new(),
    };
    let ghost draft = binding;
    let seal_binding = seals.binding;
    let sealed = seal_binding(&binding);
    binding.digest = sealed;
    proof {
        assert(seal_binding.ensures((&draft,), sealed));
        assert(binding_sealed(seal_binding, binding));
    }
    let mut owner = OwnerBinding {
        realm_ref: realm.to_owned(),
        exact_scope_digest_hex: scope.to_owned(),
        exact_scope_selector: match owner_at {
            Some(k) => gov.owners.rows[k].exact_scope_selector.clone(),
            None => selector.to_owned(),
        },
        revision: owner_revision,
        binding_epoch,
        governance_owner: Owner::Nobody,
        owner_endpoint_ref: None,
        owner_binding_ref: None,
        frozen: false,
        digest: String::new(),
    };
    let ghost owner_draft = owner;
    let seal_owner = seals.owner;
    let owner_digest = seal_owner(&owner);
    owner.digest = owner_digest;
    proof {
        assert(seal_owner.ensures((&owner_draft,), owner_digest));
        assert(owner_sealed(seal_owner, owner));
    }
    let mut mapping = SocietyMapping {
        mapping_id: ids.mapping_id.clone(),
        realm_ref: realm.to_owned(),
        society_ref: args.society_ref.clone(),
        society_recovery_epoch: seen.recovery_epoch,
        allowed_project_and_space_selectors: args.allowed_project_and_space_selectors.clone(),
        classification_binding_ref: args.classification_binding_ref.clone(),
        governance_owner_binding_ref: ids.binding_ref.clone(),
        governance_owner_binding_digest: owner.digest.clone(),
        standing: Standing::Pending,
        revision: 1,
        digest: String::new(),
    };
    let ghost mapping_draft = mapping;
    let seal_mapping = seals.mapping;
    let mapping_digest = seal_mapping(&mapping);
    mapping.digest = mapping_digest;
    proof {
        assert(seal_mapping.ensures((&mapping_draft,), mapping_digest));
        assert(mapping_sealed(seal_mapping, mapping));
    }
    let slot = Slot {
        enablement_id: ids.enablement_id.clone(),
        realm_ref: realm.to_owned(),
        exact_scope_digest_hex: scope.to_owned(),
        exact_scope_selector: selector.to_owned(),
        binding_epoch,
        state: SlotState::BindingsCreated,
        society_ref: args.society_ref.clone(),
        society_recovery_epoch: seen.recovery_epoch,
        byom_endpoint_ref: args.byom_endpoint_ref.clone(),
        endpoint_incarnation: seen.incarnation.clone(),
        binding_ref: ids.binding_ref.clone(),
        mapping_id: ids.mapping_id.clone(),
        expected_owner_revision: owner_revision,
        subject_digest_hex: subject.to_owned(),
        reason: None,
    };
    proof {
        if let Some(i) = previous {
            assert(is_current(gov.slots.rows@, realm@, scope@, i as int));
        }
        epochs_stay_distinct(gov.slots.rows@, slot, realm@, scope@);
    }
    gov.bindings.insert(binding);
    gov.mappings.insert(mapping);
    match owner_at {
        Some(_) => gov.owners.replace(owner, realm, scope),
        None => gov.owners.insert(owner),
    }
    let reply = tell(&slot, owner_revision);
    gov.slots.insert(slot);
    let epoch_text = decimal(binding_epoch);
    let detail = cat4(
        "enablement=",
        ids.enablement_id.as_str(),
        " epoch=",
        epoch_text.as_str(),
    );
    journal.audit("governance.bindings-created", detail.as_str());
    let payload = created_payload(
        ids.enablement_id.as_str(),
        ids.binding_ref.as_str(),
        binding_epoch,
    );
    append_saga_event(
        journal,
        EventKind::GovernanceBindingsCreated,
        ids.enablement_id.as_str(),
        "schema:kovee-realm-byom-binding-v1",
        ids.binding_ref.as_str(),
        Some(1),
        payload,
    );
    Ok(reply)
}

// ------------------------------------------------------- the owner CAS ----

/// The compare half of the activation: the owner row is nobody's, at the
/// revision and under the epoch that the slot expects.
pub open spec fn owner_expected(owner: OwnerBinding, slot: Slot) -> bool {
    &&& owner.governance_owner is Nobody
    &&& owner.revision == slot.expected_owner_revision
    &&& owner.binding_epoch == slot.binding_epoch
}

/// Whether the slot at hand is still the current one, before activation.
pub open spec fn still_pending(now: Slot, slot: Slot) -> bool {
    now.enablement_id@ == slot.enablement_id@ && now.state is BindingsCreated
}

/// The refusal of an activation, in the order in which its checks run;
/// `None` where every check passes and only the overlap rule is left.
pub open spec fn activation_refusal(
    gov: Governance,
    realm: Seq<char>,
    slot: Slot,
    selector_fault: Option<Seq<char>>,
) -> Option<ProblemView> {
    let scope = slot.exact_scope_digest_hex@;
    match current(gov.slots.rows@, realm, scope) {
        None => Some(internal_view()),
        Some(now) => if !still_pending(now, slot) {
            Some(stale_revision_view(now.expected_owner_revision))
        } else {
            match owner_of(gov, realm, scope) {
                None => Some(internal_view()),
                Some(owner) => if !owner_expected(owner, slot) {
                    Some(stale_revision_view(owner.revision))
                } else {
                    match selector_fault {
                        Some(e) => Some(invalid_arguments(e)),
                        None => None,
                    }
                },
            }
        },
    }
}

/// The rows that an activation needs beside the owner row.
pub open spec fn pair_recorded(gov: Governance, slot: Slot) -> bool {
    &&& gov.bindings@.contains_key(key1(slot.binding_ref@))
    &&& gov.mappings@.contains_key(key1(slot.mapping_id@))
}

/// What an activation does: the owner row becomes byom's at the next
/// revision, and binding, mapping and slot become active with it.
pub open spec fn activated(
    before: Governance,
    after: Governance,
    realm: Seq<char>,
    slot: Slot,
) -> bool {
    let scope = slot.exact_scope_digest_hex@;
    let ok: Key = (realm, scope);
    let bk = key1(slot.binding_ref@);
    let mk = key1(slot.mapping_id@);
    let sk = key1(slot.enablement_id@);
    &&& after.owners@ == before.owners@.insert(ok, after.owners@[ok])
    &&& after.owners@[ok] == (OwnerBinding {
        revision: (before.owners@[ok].revision + 1) as u64,
        governance_owner: Owner::Byom,
        owner_endpoint_ref: after.owners@[ok].owner_endpoint_ref,
        owner_binding_ref: after.owners@[ok].owner_binding_ref,
        frozen: false,
        digest: after.owners@[ok].digest,
        ..before.owners@[ok]
    })
    &&& opt_view(after.owners@[ok].owner_endpoint_ref) == Some(slot.byom_endpoint_ref@)
    &&& opt_view(after.owners@[ok].owner_binding_ref) == Some(slot.binding_ref@)
    &&& after.bindings@ == before.bindings@.insert(bk, after.bindings@[bk])
    &&& after.bindings@[bk] == (RealmBinding {
        binding_revision: (before.bindings@[bk].binding_revision + 1) as u64,
        standing: Standing::Active,
        digest: after.bindings@[bk].digest,
        ..before.bindings@[bk]
    })
    &&& after.mappings@ == before.mappings@.insert(mk, after.mappings@[mk])
    &&& after.mappings@[mk] == (SocietyMapping {
        revision: (before.mappings@[mk].revision + 1) as u64,
        standing: Standing::Active,
        governance_owner_binding_digest: after.mappings@[mk].governance_owner_binding_digest,
        digest: after.mappings@[mk].digest,
        ..before.mappings@[mk]
    })
    &&& after.slots@ == before.slots@.insert(sk, after.slots@[sk])
    &&& after.slots@[sk] == (Slot { state: SlotState::Active, ..before.slots@[sk] })
    &&& after.slots.rows@.len() == before.slots.rows@.len()
    &&& forall|i: int|
        0 <= i < before.slots.rows@.len() ==> #[trigger] after.slots.rows@[i] == (
        if before.slots.rows@[i].enablement_id@ == slot.enablement_id@ {
            Slot { state: SlotState::Active, ..before.slots.rows@[i] }
        } else {
            before.slots.rows@[i]
        })
}

/// What the records of an activated slot are digested from. The mapping pins
/// the owner row by its new digest.
pub open spec fn activation_sealed<
    G: Fn(&str, &Json) -> Keyed + Copy,
    D: Fn(&DependencySet) -> String + Copy,
    B: Fn(&RealmBinding) -> String + Copy,
    O: Fn(&OwnerBinding) -> String + Copy,
    M: Fn(&SocietyMapping) -> String + Copy,
>(
    after: Governance,
    realm: Seq<char>,
    slot: Slot,
    seals: Seals<G, D, B, O, M>,
) -> bool {
    let o = after.owners@[(realm, slot.exact_scope_digest_hex@)];
    let m = after.mappings@[key1(slot.mapping_id@)];
    &&& owner_sealed(seals.owner, o)
    &&& binding_sealed(seals.binding, after.bindings@[key1(slot.binding_ref@)])
    &&& m.governance_owner_binding_digest@ == o.digest@
    &&& mapping_sealed(seals.mapping, m)
}

proof fn epochs_kept(before: Seq<Slot>, after: Seq<Slot>)
    requires
        epochs_distinct(before),
        after.len() == before.len(),
        forall|i: int|
            0 <= i < before.len() ==> (#[trigger] after[i]).realm_ref@ == before[i].realm_ref@
                && after[i].exact_scope_digest_hex@ == before[i].exact_scope_digest_hex@
                && after[i].binding_epoch == before[i].binding_epoch,
    ensures
        epochs_distinct(after),
{
    assert forall|i: int, j: int|
        0 <= i < j < after.len() && (#[trigger] after[i]).realm_ref@ == (
        #[trigger] after[j]).realm_ref@ && after[i].exact_scope_digest_hex@
            == after[j].exact_scope_digest_hex@ implies after[i].binding_epoch
        != after[j].binding_epoch by {
        assert(before[i].realm_ref@ == before[j].realm_ref@);
    }
}

/// What an activation does and answers.
pub open spec fn activate_outcome<
    G: Fn(&str, &Json) -> Keyed + Copy,
    D: Fn(&DependencySet) -> String + Copy,
    B: Fn(&RealmBinding) -> String + Copy,
    O: Fn(&OwnerBinding) -> String + Copy,
    M: Fn(&SocietyMapping) -> String + Copy,
>(
    before: Governance,
    after: Governance,
    journal: JournalView,
    after_journal: JournalView,
    realm: Seq<char>,
    slot: Slot,
    selector_fault: Option<String>,
    slot_verdicts: Seq<Verdict>,
    owner_verdicts: Seq<Verdict>,
    seals: Seals<G, D, B, O, M>,
    r: Result<SagaReply, Problem>,
) -> bool {
    &&& r is Err ==> after == before && after_journal == journal
    &&& match activation_refusal(before, realm, slot, opt_view(selector_fault)) {
        Some(p) => r is Err && r->Err_0@ == p,
        None => if !no_conflict(
            before,
            slot_verdicts,
            owner_verdicts,
            realm,
            slot.exact_scope_digest_hex@,
        ) {
            r is Err && conflict_named(
                before,
                slot_verdicts,
                owner_verdicts,
                realm,
                slot.exact_scope_selector@,
                slot.exact_scope_digest_hex@,
                r->Err_0@,
            )
        } else if !pair_recorded(before, slot) {
            r is Err && r->Err_0@ == internal_view()
        } else {
            let ok: Key = (realm, slot.exact_scope_digest_hex@);
            &&& r is Ok
            &&& told(
                r->Ok_0,
                slot,
                SlotState::Active,
                None,
                before.owners@[ok].revision + 1,
            )
            &&& activated(before, after, realm, slot)
            &&& activation_sealed(after, realm, slot, seals)
            &&& after_journal == journal.with_audit(
                "governance.activated"@,
                "enablement="@ + slot.enablement_id@ + " epoch="@ + decimal_of(
                    slot.binding_epoch as nat,
                ) + " owner=byom"@,
            ).with_event(
                saga_event(
                    EventKind::GovernanceActivated,
                    slot.enablement_id@,
                    "schema:kovee-governance-owner-binding-v1"@,
                    slot.binding_ref@,
                    Some((before.owners@[ok].revision + 1) as u64),
                    activated_document(slot),
                ),
            )
        },
    }
}

/// What the activation does and answers under the selector grammar's rule.
pub open spec fn activate_done<
    G: Fn(&str, &Json) -> Keyed + Copy,
    D: Fn(&DependencySet) -> String + Copy,
    B: Fn(&RealmBinding) -> String + Copy,
    O: Fn(&OwnerBinding) -> String + Copy,
    M: Fn(&SocietyMapping) -> String + Copy,
    V: Fn(&str, &str) -> Verdict,
>(
    before: Governance,
    after: Governance,
    journal: JournalView,
    after_journal: JournalView,
    realm: Seq<char>,
    slot: Slot,
    selector_fault: Option<String>,
    overlap: V,
    seals: Seals<G, D, B, O, M>,
    r: Result<SagaReply, Problem>,
) -> bool {
    exists|slot_verdicts: Seq<Verdict>, owner_verdicts: Seq<Verdict>|
        {
            &&& #[trigger] judged(
                before,
                slot.exact_scope_selector@,
                overlap,
                slot_verdicts,
                owner_verdicts,
            )
            &&& activate_outcome(
                before,
                after,
                journal,
                after_journal,
                realm,
                slot,
                selector_fault,
                slot_verdicts,
                owner_verdicts,
                seals,
                r,
            )
        }
}

/// The activation: the owner CAS from nobody to byom, atomically with
/// marking the binding and the mapping active. A refusal changes nothing.
/// `selector_fault` is why the slot's selector does not parse, if it does not,
/// and `overlap` the selector grammar's rule on two selectors.
pub fn activate_binding<
    G: Fn(&str, &Json) -> Keyed + Copy,
    D: Fn(&DependencySet) -> String + Copy,
    B: Fn(&RealmBinding) -> String + Copy,
    O: Fn(&OwnerBinding) -> String + Copy,
    M: Fn(&SocietyMapping) -> String + Copy,
    V: Fn(&str, &str) -> Verdict,
>(
    gov: &mut Governance,
    journal: &mut Journal,
    realm: &str,
    slot: &Slot,
    selector_fault: &Option<String>,
    overlap: &V,
    seals: Seals<G, D, B, O, M>,
) -> (r: Result<SagaReply, Problem>)
    requires
        seals_all(seals),
        old(gov).wf(),
        counters_fit(*old(gov)),
        forall|a: &str, b: &str| #[trigger] overlap.requires((a, b)),
    ensures
        final(gov).wf(),
        activate_done(
            *old(gov),
            *final(gov),
            old(journal)@,
            final(journal)@,
            realm@,
            *slot,
            *selector_fault,
            *overlap,
            seals,
            r,
        ),
{
    let (slot_verdicts, owner_verdicts) = judge(gov, slot.exact_scope_selector.as_str(), overlap);
    activate_judged(
        gov,
        journal,
        realm,
        slot,
        selector_fault,
        &slot_verdicts,
        &owner_verdicts,
        seals,
    )
}

/// The activation under given verdicts.
fn activate_judged<
    G: Fn(&str, &Json) -> Keyed + Copy,
    D: Fn(&DependencySet) -> String + Copy,
    B: Fn(&RealmBinding) -> String + Copy,
    O: Fn(&OwnerBinding) -> String + Copy,
    M: Fn(&SocietyMapping) -> String + Copy,
>(
    gov: &mut Governance,
    journal: &mut Journal,
    realm: &str,
    slot: &Slot,
    selector_fault: &Option<String>,
    slot_verdicts: &Vec<Verdict>,
    owner_verdicts: &Vec<Verdict>,
    seals: Seals<G, D, B, O, M>,
) -> (r: Result<SagaReply, Problem>)
    requires
        seals_all(seals),
        old(gov).wf(),
        counters_fit(*old(gov)),
        slot_verdicts.len() == old(gov).slots.rows.len(),
        owner_verdicts.len() == old(gov).owners.rows.len(),
    ensures
        final(gov).wf(),
        activate_outcome(
            *old(gov),
            *final(gov),
            old(journal)@,
            final(journal)@,
            realm@,
            *slot,
            *selector_fault,
            slot_verdicts@,
            owner_verdicts@,
            seals,
            r,
        ),
{
    let scope = slot.exact_scope_digest_hex.as_str();
    let at = match current_slot(gov, realm, scope) {
        None => {
            return Err(internal());
        },
        Some(i) => i,
    };
    let pending = match gov.slots.rows[at].state {
        SlotState::BindingsCreated => true,
        _ => false,
    };
    if !pending || !same(
        gov.slots.rows[at].enablement_id.as_str(),
        slot.enablement_id.as_str(),
    ) {
        return Err(stale_revision(gov.slots.rows[at].expected_owner_revision));
    }
    let owner_at = match gov.owners.position(realm, scope) {
        None => {
            return Err(internal());
        },
        Some(k) => k,
    };
    let unowned = match gov.owners.rows[owner_at].governance_owner {
        Owner::Nobody => true,
        Owner::Byom => false,
    };
    if !unowned || gov.owners.rows[owner_at].revision != slot.expected_owner_revision
        || gov.owners.rows[owner_at].binding_epoch != slot.binding_epoch {
        return Err(stale_revision(gov.owners.rows[owner_at].revision));
    }
    if let Some(e) = selector_fault {
        return Err(
            problem(ProblemKind::Invalid, "invalid operation arguments", e.as_str()),
        );
    }
    check_verdicts(
        gov,
        realm,
        slot.exact_scope_selector.as_str(),
        scope,
        slot_verdicts,
        owner_verdicts,
    )?;
    proof {
        reveal_strlit("");
        crate::text::empty_is(""@);
    }
    let binding_at = match gov.bindings.position(slot.binding_ref.as_str(), "") {
        None => {
            return Err(internal());
        },
        Some(k) => k,
    };
    let mapping_at = match gov.mappings.position(slot.mapping_id.as_str(), "") {
        None => {
            return Err(internal());
        },
        Some(k) => k,
    };
    let revision: u64 = gov.owners.rows[owner_at].revision + 1;
    gov.owners.rows[owner_at].revision = revision;
    gov.owners.rows[owner_at].governance_owner = Owner::Byom;
    gov.owners.rows[owner_at].owner_endpoint_ref = Some(slot.byom_endpoint_ref.clone());
    gov.owners.rows[owner_at].owner_binding_ref = Some(slot.binding_ref.clone());
    gov.owners.rows[owner_at].frozen = false;
    let ghost owner_draft = gov.owners.rows@[owner_at as int];
    let seal_owner = seals.owner;
    let owner_digest = seal_owner(&gov.owners.rows[owner_at]);
    gov.owners.rows[owner_at].digest = owner_digest;
    proof {
        assert(seal_owner.ensures((&owner_draft,), owner_digest));
        assert(owner_sealed(seal_owner, gov.owners.rows@[owner_at as int]));
    }
    let next: u64 = gov.bindings.rows[binding_at].binding_revision + 1;
    gov.bindings.rows[binding_at].binding_revision = next;
    gov.bindings.rows[binding_at].standing = Standing::Active;
    let ghost binding_draft = gov.bindings.rows@[binding_at as int];
    let seal_binding = seals.binding;
    let binding_digest = seal_binding(&gov.bindings.rows[binding_at]);
    gov.bindings.rows[binding_at].digest = binding_digest;
    proof {
        assert(seal_binding.ensures((&binding_draft,), binding_digest));
        assert(binding_sealed(seal_binding, gov.bindings.rows@[binding_at as int]));
    }
    let mapped: u64 = gov.mappings.rows[mapping_at].revision + 1;
    gov.mappings.rows[mapping_at].revision = mapped;
    gov.mappings.rows[mapping_at].standing = Standing::Active;
    let pinned = gov.owners.rows[owner_at].digest.clone();
    gov.mappings.rows[mapping_at].governance_owner_binding_digest = pinned;
    let ghost mapping_draft = gov.mappings.rows@[mapping_at as int];
    let seal_mapping = seals.mapping;
    let mapping_digest = seal_mapping(&gov.mappings.rows[mapping_at]);
    gov.mappings.rows[mapping_at].digest = mapping_digest;
    proof {
        assert(seal_mapping.ensures((&mapping_draft,), mapping_digest));
        assert(mapping_sealed(seal_mapping, gov.mappings.rows@[mapping_at as int]));
    }
    gov.slots.rows[at].state = SlotState::Active;
    proof {
        crate::table::table_at(old(gov).slots, at as int);
        crate::table::table_updated(
            old(gov).owners,
            gov.owners,
            owner_at as int,
            gov.owners.rows@[owner_at as int],
        );
        crate::table::table_updated(
            old(gov).bindings,
            gov.bindings,
            binding_at as int,
            gov.bindings.rows@[binding_at as int],
        );
        crate::table::table_updated(
            old(gov).mappings,
            gov.mappings,
            mapping_at as int,
            gov.mappings.rows@[mapping_at as int],
        );
        crate::table::table_updated(
            old(gov).slots,
            gov.slots,
            at as int,
            gov.slots.rows@[at as int],
        );
        epochs_kept(old(gov).slots.rows@, gov.slots.rows@);
        slot_rows_by_id(old(gov).slots, gov.slots, at as int);
    }
    let epoch_text = decimal(slot.binding_epoch);
    let detail = cat5(
        "enablement=",
        slot.enablement_id.as_str(),
        " epoch=",
        epoch_text.as_str(),
        " owner=byom",
    );
    journal.audit("governance.activated", detail.as_str());
    let payload = activated_payload(slot);
    append_saga_event(
        journal,
        EventKind::GovernanceActivated,
        slot.enablement_id.as_str(),
        "schema:kovee-governance-owner-binding-v1",
        slot.binding_ref.as_str(),
        Some(revision),
        payload,
    );
    let mut now_active = copy_slot(slot);
    now_active.state = SlotState::Active;
    Ok(tell(&now_active, revision))
}

/// A slot that was changed in place is the only one under its identifier.
proof fn slot_rows_by_id(before: Table<Slot>, after: Table<Slot>, at: int)
    requires
        before.wf(),
        0 <= at < before.rows@.len(),
        after.rows@ =~= before.rows@.update(at, after.rows@[at]),
    ensures
        forall|i: int|
            0 <= i < before.rows@.len() ==> #[trigger] after.rows@[i] == (
            if before.rows@[i].enablement_id@ == before.rows@[at].enablement_id@ {
                after.rows@[at]
            } else {
                before.rows@[i]
            }),
        forall|i: int|
            0 <= i < before.rows@.len() && before.rows@[i].enablement_id@
                == before.rows@[at].enablement_id@ ==> #[trigger] before.rows@[i]
                == before.rows@[at],
{
    assert forall|i: int|
        0 <= i < before.rows@.len() && #[trigger] before.rows@[i].enablement_id@
            == before.rows@[at].enablement_id@ implies i == at by {
        assert(before.rows@[i].key() == before.rows@[at].key());
    }
}

// ------------------------------------------------------------ rollback ----

pub open spec fn rollback_refusal(gov: Governance, realm: Seq<char>, slot: Slot) -> Option<
    ProblemView,
> {
    match current(gov.slots.rows@, realm, slot.exact_scope_digest_hex@) {
        None => Some(internal_view()),
        Some(now) => if now.enablement_id@ != slot.enablement_id@ {
            Some(stale_revision_view(now.expected_owner_revision))
        } else if now.state is RolledBack || now.state is BindingsCreated {
            None
        } else {
            Some(
                refusal_with(
                    ProblemKind::Forbidden,
                    "rollback exists only before activation"@,
                    "after the owner CAS there is no rollback, only governance_disable (greenfield-saga §4)"@,
                ),
            )
        },
    }
}

/// What a rollback does: the pending binding and mapping are void, the slot
/// is rolled back with its reason, and the owner row is not touched.
pub open spec fn rolled_back(
    before: Governance,
    after: Governance,
    slot: Slot,
    reason: Seq<char>,
) -> bool {
    let bk = key1(slot.binding_ref@);
    let mk = key1(slot.mapping_id@);
    let sk = key1(slot.enablement_id@);
    &&& after.owners == before.owners
    &&& if before.bindings@.contains_key(bk) {
        after.bindings@ == before.bindings@.insert(
            bk,
            RealmBinding { standing: Standing::Void, ..before.bindings@[bk] },
        )
    } else {
        after.bindings == before.bindings
    }
    &&& if before.mappings@.contains_key(mk) {
        after.mappings@ == before.mappings@.insert(
            mk,
            SocietyMapping { standing: Standing::Void, ..before.mappings@[mk] },
        )
    } else {
        after.mappings == before.mappings
    }
    &&& after.slots@.contains_key(sk)
    &&& after.slots@ == before.slots@.insert(sk, after.slots@[sk])
    &&& after.slots@[sk] == (Slot {
        state: SlotState::RolledBack,
        reason: after.slots@[sk].reason,
        ..before.slots@[sk]
    })
    &&& opt_view(after.slots@[sk].reason) == Some(reason)
}

fn void_binding(t: &mut Table<RealmBinding>, binding_ref: &str)
    requires
        old(t).wf(),
    ensures
        final(t).wf(),
        ({
            let bk = key1(binding_ref@);
            if old(t)@.contains_key(bk) {
                final(t)@ == old(t)@.insert(
                    bk,
                    RealmBinding { standing: Standing::Void, ..old(t)@[bk] },
                )
            } else {
                *final(t) == *old(t)
            }
        }),
{
    proof {
        reveal_strlit("");
        crate::text::empty_is(""@);
    }
    if let Some(i) = t.position(binding_ref, "") {
        t.rows[i].standing = Standing::Void;
        proof {
            crate::table::table_updated(*old(t), *t, i as int, t.rows@[i as int]);
        }
    }
}

fn void_mapping(t: &mut Table<SocietyMapping>, mapping_id: &str)
    requires
        old(t).wf(),
    ensures
        final(t).wf(),
        ({
            let mk = key1(mapping_id@);
            if old(t)@.contains_key(mk) {
                final(t)@ == old(t)@.insert(
                    mk,
                    SocietyMapping { standing: Standing::Void, ..old(t)@[mk] },
                )
            } else {
                *final(t) == *old(t)
            }
        }),
{
    proof {
        reveal_strlit("");
        crate::text::empty_is(""@);
    }
    if let Some(i) = t.position(mapping_id, "") {
        t.rows[i].standing = Standing::Void;
        proof {
            crate::table::table_updated(*old(t), *t, i as int, t.rows@[i as int]);
        }
    }
}

/// What a rollback does and answers.
pub open spec fn rollback_outcome(
    before: Governance,
    after: Governance,
    journal: JournalView,
    after_journal: JournalView,
    realm: Seq<char>,
    slot: Slot,
    reason: Seq<char>,
    r: Result<SagaReply, Problem>,
) -> bool {
    &&& match rollback_refusal(before, realm, slot) {
        Some(p) => {
            &&& r is Err
            &&& r->Err_0@ == p
            &&& after == before
            &&& after_journal == journal
        },
        None => {
            let now = current(before.slots.rows@, realm, slot.exact_scope_digest_hex@)->0;
            &&& r is Ok
            &&& if now.state is RolledBack {
                &&& told(
                    r->Ok_0,
                    now,
                    SlotState::RolledBack,
                    opt_view(now.reason),
                    now.expected_owner_revision as int,
                )
                &&& after == before
                &&& after_journal == journal
            } else {
                &&& told(
                    r->Ok_0,
                    slot,
                    SlotState::RolledBack,
                    Some(reason),
                    slot.expected_owner_revision as int,
                )
                &&& rolled_back(before, after, slot, reason)
                &&& after_journal == journal.with_audit(
                    "governance.rolled-back"@,
                    "enablement="@ + slot.enablement_id@ + " epoch="@ + decimal_of(
                        slot.binding_epoch as nat,
                    ) + " spent"@,
                ).with_event(
                    saga_event(
                        EventKind::GovernanceRolledBack,
                        slot.enablement_id@,
                        "schema:kovee-realm-byom-binding-v1"@,
                        slot.binding_ref@,
                        None,
                        ended_document(slot.enablement_id@, slot.binding_epoch, "rolled_back"@),
                    ),
                )
            }
        },
    }
}

/// The definite failure before the owner CAS: voids what is pending and
/// spends the epoch. Repeating it changes nothing more.
pub fn rollback_bindings(
    gov: &mut Governance,
    journal: &mut Journal,
    realm: &str,
    slot: &Slot,
    reason: &str,
) -> (r: Result<SagaReply, Problem>)
    requires
        old(gov).wf(),
    ensures
        final(gov).wf(),
        rollback_outcome(
            *old(gov),
            *final(gov),
            old(journal)@,
            final(journal)@,
            realm@,
            *slot,
            reason@,
            r,
        ),
{
    let at = match current_slot(gov, realm, slot.exact_scope_digest_hex.as_str()) {
        None => {
            return Err(internal());
        },
        Some(i) => i,
    };
    if !same(gov.slots.rows[at].enablement_id.as_str(), slot.enablement_id.as_str()) {
        return Err(stale_revision(gov.slots.rows[at].expected_owner_revision));
    }
    match gov.slots.rows[at].state {
        SlotState::RolledBack => {
            return Ok(tell(&gov.slots.rows[at], gov.slots.rows[at].expected_owner_revision));
        },
        SlotState::BindingsCreated => {},
        _ => {
            return Err(
                problem(
                    ProblemKind::Forbidden,
                    "rollback exists only before activation",
                    "after the owner CAS there is no rollback, only governance_disable (greenfield-saga §4)",
                ),
            );
        },
    }
    void_binding(&mut gov.bindings, slot.binding_ref.as_str());
    void_mapping(&mut gov.mappings, slot.mapping_id.as_str());
    gov.slots.rows[at].state = SlotState::RolledBack;
    gov.slots.rows[at].reason = Some(reason.to_owned());
    proof {
        crate::table::table_at(old(gov).slots, at as int);
        crate::table::table_updated(
            old(gov).slots,
            gov.slots,
            at as int,
            gov.slots.rows@[at as int],
        );
        epochs_kept(old(gov).slots.rows@, gov.slots.rows@);
    }
    let epoch_text = decimal(slot.binding_epoch);
    let detail = cat5(
        "enablement=",
        slot.enablement_id.as_str(),
        " epoch=",
        epoch_text.as_str(),
        " spent",
    );
    journal.audit("governance.rolled-back", detail.as_str());
    let payload = ended_payload(
        slot.enablement_id.as_str(),
        slot.binding_epoch,
        "rolled_back",
    );
    append_saga_event(
        journal,
        EventKind::GovernanceRolledBack,
        slot.enablement_id.as_str(),
        "schema:kovee-realm-byom-binding-v1",
        slot.binding_ref.as_str(),
        None,
        payload,
    );
    let mut spent = copy_slot(slot);
    spent.state = SlotState::RolledBack;
    spent.reason = Some(reason.to_owned());
    Ok(tell(&spent, slot.expected_owner_revision))
}

// ------------------------------------------------------------- disable ----

/// What a human asks to disable.
#[derive(Debug)]
pub struct DisableArgs {
    pub binding_ref: String,
    pub confirmed_subject_digest: String,
    pub expected_owner_revision: u64,
}

/// Whether a slot is the one of this realm's binding.
pub open spec fn of_binding(s: Slot, realm: Seq<char>, binding_ref: Seq<char>) -> bool {
    s.realm_ref@ == realm && s.binding_ref@ == binding_ref
}

/// Whether the slot at `i` is the first of a realm's binding.
pub open spec fn first_of_binding(
    slots: Seq<Slot>,
    realm: Seq<char>,
    binding_ref: Seq<char>,
    i: int,
) -> bool {
    &&& 0 <= i < slots.len()
    &&& of_binding(slots[i], realm, binding_ref)
    &&& forall|j: int| 0 <= j < i ==> !of_binding(#[trigger] slots[j], realm, binding_ref)
}

/// The slot of a realm's binding.
pub fn slot_by_binding(gov: &Governance, realm: &str, binding_ref: &str) -> (r: Option<usize>)
    ensures
        match r {
            Some(i) => first_of_binding(gov.slots.rows@, realm@, binding_ref@, i as int),
            None => forall|j: int|
                0 <= j < gov.slots.rows@.len() ==> !of_binding(
                    #[trigger] gov.slots.rows@[j],
                    realm@,
                    binding_ref@,
                ),
        },
{
    let mut i: usize = 0;
    while i < gov.slots.rows.len()
        invariant
            i <= gov.slots.rows.len(),
            forall|j: int|
                0 <= j < i ==> !of_binding(#[trigger] gov.slots.rows@[j], realm@, binding_ref@),
        decreases gov.slots.rows.len() - i,
    {
        if same(gov.slots.rows[i].realm_ref.as_str(), realm) && same(
            gov.slots.rows[i].binding_ref.as_str(),
            binding_ref,
        ) {
            return Some(i);
        }
        i = i + 1;
    }
    None
}

/// The refusal of a disable of `slot`, in the order in which its checks run.
pub open spec fn disable_refusal(gov: Governance, realm: Seq<char>, slot: Slot, args: DisableArgs) -> Option<
    ProblemView,
> {
    if slot.state !is Active {
        Some(
            refusal_with(
                ProblemKind::Forbidden,
                "only an active binding can be disabled"@,
                "the enablement is "@ + quoted_text(slot.state.name())
                    + "; governance_disable exists only from active (greenfield-saga §4)"@,
            ),
        )
    } else if args.confirmed_subject_digest@ != slot.subject_digest_hex@ {
        Some(
            refusal_with(
                ProblemKind::Forbidden,
                "the confirmed subject digest does not match"@,
                "governance_disable is always step-up: the exact subject digest of the active enablement must be confirmed"@,
            ),
        )
    } else {
        match owner_of(gov, realm, slot.exact_scope_digest_hex@) {
            None => Some(internal_view()),
            Some(owner) => if owner.revision != args.expected_owner_revision {
                Some(stale_revision_view(owner.revision))
            } else if owner.frozen {
                Some(
                    refusal_with(
                        ProblemKind::Forbidden,
                        "the owner binding is already frozen"@,
                        "a frozen row retains its owner arm for audit and holds no active selector"@,
                    ),
                )
            } else if !gov.bindings@.contains_key(key1(slot.binding_ref@)) {
                Some(internal_view())
            } else {
                None
            },
        }
    }
}

/// What a disable does: the owner row freezes and keeps its owner arm, the
/// binding and the mapping are void, the slot is disabled.
pub open spec fn disabled(
    before: Governance,
    after: Governance,
    realm: Seq<char>,
    slot: Slot,
) -> bool {
    let ok: Key = (realm, slot.exact_scope_digest_hex@);
    let bk = key1(slot.binding_ref@);
    let mk = key1(slot.mapping_id@);
    let sk = key1(slot.enablement_id@);
    &&& after.owners@ == before.owners@.insert(ok, after.owners@[ok])
    &&& after.owners@[ok] == (OwnerBinding {
        revision: (before.owners@[ok].revision + 1) as u64,
        frozen: true,
        digest: after.owners@[ok].digest,
        ..before.owners@[ok]
    })
    &&& after.bindings@ == before.bindings@.insert(bk, after.bindings@[bk])
    &&& after.bindings@[bk] == (RealmBinding {
        binding_revision: (before.bindings@[bk].binding_revision + 1) as u64,
        standing: Standing::Void,
        digest: after.bindings@[bk].digest,
        ..before.bindings@[bk]
    })
    &&& if before.mappings@.contains_key(mk) {
        after.mappings@ == before.mappings@.insert(
            mk,
            SocietyMapping { standing: Standing::Void, ..before.mappings@[mk] },
        )
    } else {
        after.mappings == before.mappings
    }
    &&& after.slots@ == before.slots@.insert(
        sk,
        Slot { state: SlotState::Disabled, ..before.slots@[sk] },
    )
}

/// What disabling governance does and answers.
pub open spec fn disable_outcome<O: Fn(&OwnerBinding) -> String, B: Fn(&RealmBinding) -> String>(
    gov: Governance,
    gov_after: Governance,
    ledger: Ledger,
    ledger_after: Ledger,
    journal: JournalView,
    journal_after: JournalView,
    realm: Seq<char>,
    args: DisableArgs,
    seal_owner: O,
    seal_binding: B,
    now: i64,
    r: Result<SagaReply, Problem>,
) -> bool {
    &&& r is Err ==> gov_after == gov && ledger_after == ledger && journal_after
        == journal
    &&& (forall|i: int| !#[trigger]
        first_of_binding(gov.slots.rows@, realm, args.binding_ref@, i)) ==> r is Err
        && r->Err_0@ == not_found_view()
    &&& forall|i: int| #[trigger]
        first_of_binding(gov.slots.rows@, realm, args.binding_ref@, i) ==> ({
            let slot = gov.slots.rows@[i];
            match disable_refusal(gov, realm, slot, args) {
                Some(p) => r is Err && r->Err_0@ == p,
                None => {
                    let ok: Key = (realm, slot.exact_scope_digest_hex@);
                    &&& r is Ok
                    &&& told(
                        r->Ok_0,
                        slot,
                        SlotState::Disabled,
                        None,
                        gov.owners@[ok].revision + 1,
                    )
                    &&& disabled(
                        gov,
                        gov_after,
                        realm,
                        slot,
                    )
                    &&& owner_sealed(seal_owner, gov_after.owners@[ok])
                    &&& binding_sealed(
                        seal_binding,
                        gov_after.bindings@[key1(slot.binding_ref@)],
                    )
                    &&& ledger_after.rows@.len() == ledger.rows@.len()
                    &&& forall|k: int|
                        0 <= k < ledger.rows@.len() ==> invalidated(
                            ledger.rows@[k],
                            #[trigger] ledger_after.rows@[k],
                            slot.binding_ref@,
                            "governance_disable"@,
                            now,
                        )
                    &&& journal_after == journal.with_audit(
                        "governance.disabled"@,
                        "enablement="@ + slot.enablement_id@ + " epoch="@ + decimal_of(
                            slot.binding_epoch as nat,
                        ) + " owner-frozen"@,
                    ).with_event(
                        saga_event(
                            EventKind::GovernanceDisabled,
                            slot.enablement_id@,
                            "schema:kovee-governance-owner-binding-v1"@,
                            slot.binding_ref@,
                            Some((gov.owners@[ok].revision + 1) as u64),
                            ended_document(
                                slot.enablement_id@,
                                slot.binding_epoch,
                                "disabled"@,
                            ),
                        ),
                    )
                },
            }
        })
}

/// The governed disable: exists only from `active`, under the confirmed
/// subject digest. Every credential derived from the binding stops being
/// usable with it.
pub fn governance_disable<O: Fn(&OwnerBinding) -> String, B: Fn(&RealmBinding) -> String>(
    gov: &mut Governance,
    ledger: &mut Ledger,
    journal: &mut Journal,
    realm: &str,
    args: &DisableArgs,
    seal_owner: O,
    seal_binding: B,
    now: i64,
) -> (r: Result<SagaReply, Problem>)
    requires
        forall|o: &OwnerBinding| #[trigger] seal_owner.requires((o,)),
        forall|b: &RealmBinding| #[trigger] seal_binding.requires((b,)),
        old(gov).wf(),
        old(ledger).wf(),
        counters_fit(*old(gov)),
    ensures
        final(gov).wf(),
        final(ledger).wf(),
        disable_outcome(
            *old(gov),
            *final(gov),
            *old(ledger),
            *final(ledger),
            old(journal)@,
            final(journal)@,
            realm@,
            *args,
            seal_owner,
            seal_binding,
            now,
            r,
        ),
{
    let at = match slot_by_binding(gov, realm, args.binding_ref.as_str()) {
        None => {
            return Err(not_found());
        },
        Some(i) => i,
    };
    proof {
        assert forall|i: int| #[trigger]
            first_of_binding(gov.slots.rows@, realm@, args.binding_ref@, i) implies i == at by {
            if i < at {
                assert(!of_binding(gov.slots.rows@[i], realm@, args.binding_ref@));
            } else if at < i {
                assert(!of_binding(gov.slots.rows@[at as int], realm@, args.binding_ref@));
            }
        }
    }
    match gov.slots.rows[at].state {
        SlotState::Active => {},
        other => {
            let q = quoted(other.as_str());
            let detail = cat3(
                "the enablement is ",
                q.as_str(),
                "; governance_disable exists only from active (greenfield-saga §4)",
            );
            return Err(
                problem(
                    ProblemKind::Forbidden,
                    "only an active binding can be disabled",
                    detail.as_str(),
                ),
            );
        },
    }
    if !same(
        args.confirmed_subject_digest.as_str(),
        gov.slots.rows[at].subject_digest_hex.as_str(),
    ) {
        return Err(
            problem(
                ProblemKind::Forbidden,
                "the confirmed subject digest does not match",
                "governance_disable is always step-up: the exact subject digest of the active enablement must be confirmed",
            ),
        );
    }
    let owner_at = match gov.owners.position(
        realm,
        gov.slots.rows[at].exact_scope_digest_hex.as_str(),
    ) {
        None => {
            return Err(internal());
        },
        Some(k) => k,
    };
    if gov.owners.rows[owner_at].revision != args.expected_owner_revision {
        return Err(stale_revision(gov.owners.rows[owner_at].revision));
    }
    if gov.owners.rows[owner_at].frozen {
        return Err(
            problem(
                ProblemKind::Forbidden,
                "the owner binding is already frozen",
                "a frozen row retains its owner arm for audit and holds no active selector",
            ),
        );
    }
    proof {
        reveal_strlit("");
        crate::text::empty_is(""@);
    }
    let binding_ref = gov.slots.rows[at].binding_ref.clone();
    let mapping_id = gov.slots.rows[at].mapping_id.clone();
    let enablement_id = gov.slots.rows[at].enablement_id.clone();
    let epoch: u64 = gov.slots.rows[at].binding_epoch;
    let binding_at = match gov.bindings.position(binding_ref.as_str(), "") {
        None => {
            return Err(internal());
        },
        Some(k) => k,
    };
    let revision: u64 = gov.owners.rows[owner_at].revision + 1;
    gov.owners.rows[owner_at].revision = revision;
    gov.owners.rows[owner_at].frozen = true;
    let ghost owner_draft = gov.owners.rows@[owner_at as int];
    let owner_digest = seal_owner(&gov.owners.rows[owner_at]);
    gov.owners.rows[owner_at].digest = owner_digest;
    proof {
        assert(seal_owner.ensures((&owner_draft,), owner_digest));
        assert(owner_sealed(seal_owner, gov.owners.rows@[owner_at as int]));
    }
    let next: u64 = gov.bindings.rows[binding_at].binding_revision + 1;
    gov.bindings.rows[binding_at].binding_revision = next;
    gov.bindings.rows[binding_at].standing = Standing::Void;
    let ghost binding_draft = gov.bindings.rows@[binding_at as int];
    let binding_digest = seal_binding(&gov.bindings.rows[binding_at]);
    gov.bindings.rows[binding_at].digest = binding_digest;
    proof {
        assert(seal_binding.ensures((&binding_draft,), binding_digest));
        assert(binding_sealed(seal_binding, gov.bindings.rows@[binding_at as int]));
    }
    void_mapping(&mut gov.mappings, mapping_id.as_str());
    gov.slots.rows[at].state = SlotState::Disabled;
    invalidate(ledger, binding_ref.as_str(), "governance_disable", now);
    proof {
        crate::table::table_at(old(gov).slots, at as int);
        crate::table::table_updated(
            old(gov).owners,
            gov.owners,
            owner_at as int,
            gov.owners.rows@[owner_at as int],
        );
        crate::table::table_updated(
            old(gov).bindings,
            gov.bindings,
            binding_at as int,
            gov.bindings.rows@[binding_at as int],
        );
        crate::table::table_updated(
            old(gov).slots,
            gov.slots,
            at as int,
            gov.slots.rows@[at as int],
        );
        epochs_kept(old(gov).slots.rows@, gov.slots.rows@);
    }
    let epoch_text = decimal(epoch);
    let detail = cat5(
        "enablement=",
        enablement_id.as_str(),
        " epoch=",
        epoch_text.as_str(),
        " owner-frozen",
    );
    journal.audit("governance.disabled", detail.as_str());
    let payload = ended_payload(enablement_id.as_str(), epoch, "disabled");
    append_saga_event(
        journal,
        EventKind::GovernanceDisabled,
        enablement_id.as_str(),
        "schema:kovee-governance-owner-binding-v1",
        binding_ref.as_str(),
        Some(revision),
        payload,
    );
    Ok(tell(&gov.slots.rows[at], revision))
}

// ------------------------------------------------- the enable decisions ----

/// How the enable command goes on.
#[derive(Debug)]
pub enum EnableStep {
    /// The scope is active for this target already; the stored answer.
    Reply(SagaReply),
    /// Byom has to be asked next.
    Proceed,
}

/// The first reason why one of the selectors does not parse.
pub open spec fn first_fault(faults: Seq<Option<String>>) -> Option<Seq<char>>
    decreases faults.len(),
{
    if faults.len() == 0 {
        None
    } else {
        match faults[0] {
            Some(e) => Some(e@),
            None => first_fault(faults.skip(1)),
        }
    }
}

/// What beginning to enable governance does and answers.
pub open spec fn enable_begin_outcome(
    gov: Governance,
    realm: Seq<char>,
    args: EnableArgs,
    faults: Vec<Option<String>>,
    scope: Seq<char>,
    r: Result<EnableStep, Problem>,
) -> bool {
    &&& match first_fault(faults@) {
        Some(e) => r is Err && r->Err_0@ == invalid_arguments(e),
        None => match current(gov.slots.rows@, realm, scope) {
            Some(s) => if s.state is Active && targets(s, args) {
                &&& r matches Ok(EnableStep::Reply(reply))
                &&& told(
                    reply,
                    s,
                    s.state,
                    opt_view(s.reason),
                    s.expected_owner_revision + 1,
                )
            } else {
                r == Ok::<EnableStep, Problem>(EnableStep::Proceed)
            },
            None => r == Ok::<EnableStep, Problem>(EnableStep::Proceed),
        },
    }
}

/// Opens the enable command. `faults` holds, for the exact scope selector and
/// then for each allowed selector, why it does not parse, if it does not.
/// Repeating an activated command answers what is stored, before any check.
pub fn enable_begin(
    gov: &Governance,
    realm: &str,
    args: &EnableArgs,
    faults: &Vec<Option<String>>,
    scope: &str,
) -> (r: Result<EnableStep, Problem>)
    requires
        gov.wf(),
        counters_fit(*gov),
    ensures
        enable_begin_outcome(
            *gov,
            realm@,
            *args,
            *faults,
            scope@,
            r,
        ),
{
    let mut k: usize = 0;
    proof {
        assert(faults@.skip(0) =~= faults@);
    }
    while k < faults.len()
        invariant
            k <= faults.len(),
            first_fault(faults@) == first_fault(faults@.skip(k as int)),
        decreases faults.len() - k,
    {
        proof {
            assert(faults@.skip(k as int).skip(1) =~= faults@.skip(k + 1));
        }
        if let Some(e) = &faults[k] {
            return Err(problem(ProblemKind::Invalid, "invalid operation arguments", e.as_str()));
        }
        k = k + 1;
    }
    if let Some(i) = current_slot(gov, realm, scope) {
        let slot = &gov.slots.rows[i];
        if let SlotState::Active = slot.state {
            if slot_targets(slot, args) {
                return Ok(
                    EnableStep::Reply(tell(slot, slot.expected_owner_revision + 1)),
                );
            }
        }
    }
    Ok(EnableStep::Proceed)
}

/// What byom says of a Society.
#[derive(Debug)]
pub struct SocietyView {
    pub state: String,
    pub active: bool,
    pub recovery_epoch: u64,
}

/// The reply to one question to byom.
#[derive(Debug)]
pub enum Asked<T> {
    Answer(T),
    /// A definite refusal: its text, and the problem it is passed on as.
    Refused(String, Problem),
    /// No answer at all: the outcome is not known.
    Silent(Problem),
}

/// The reply to the question for a Society.
#[derive(Debug)]
pub enum SocietyAsked {
    Shown(SocietyView),
    /// The definite answer that there is no such Society.
    Absent,
    Failed(Problem),
}

pub open spec fn no_society_view() -> ProblemView {
    refusal_with(
        ProblemKind::Forbidden,
        "no pre-existing Society at the byom endpoint"@,
        "Kovee is never the genesis governance actor: establish the Society with native society_prepare/society_bootstrap under the bootstrap human's direct governance channel first (amendment A2)"@,
    )
}

pub open spec fn inactive_society_view(state: Seq<char>) -> ProblemView {
    refusal_with(
        ProblemKind::Forbidden,
        "the target Society is not active"@,
        "society_show reports state "@ + quoted_text(state)
            + "; governance_enable requires an already-active Society (greenfield-saga §1)"@,
    )
}

/// What an observation does and answers.
pub open spec fn observe_outcome(
    hello: Result<String, Problem>,
    society: SocietyAsked,
    r: Result< Observed, Problem, >,
) -> bool {
    &&& match hello {
        Err(p) => r == Err::<Observed, Problem>(p),
        Ok(incarnation) => match society {
            SocietyAsked::Absent => r is Err && r->Err_0@ == no_society_view(),
            SocietyAsked::Failed(p) => r == Err::<Observed, Problem>(p),
            SocietyAsked::Shown(view) => if view.active {
                r == Ok::<Observed, Problem>(
                    (Observed { incarnation, recovery_epoch: view.recovery_epoch }),
                )
            } else {
                r is Err && r->Err_0@ == inactive_society_view(view.state@)
            },
        },
    }
}

/// Judges what byom was observed to be: an endpoint that answered, and a
/// Society that exists already and is active.
pub fn observe(hello: Result<String, Problem>, society: SocietyAsked) -> (r: Result<
    Observed,
    Problem,
>)
    ensures
        observe_outcome(
            hello,
            society,
            r,
        ),
{
    let incarnation = hello?;
    match society {
        SocietyAsked::Absent => Err(
            problem(
                ProblemKind::Forbidden,
                "no pre-existing Society at the byom endpoint",
                "Kovee is never the genesis governance actor: establish the Society with native society_prepare/society_bootstrap under the bootstrap human's direct governance channel first (amendment A2)",
            ),
        ),
        SocietyAsked::Failed(p) => Err(p),
        SocietyAsked::Shown(view) => {
            if !view.active {
                let q = quoted(view.state.as_str());
                let detail = cat3(
                    "society_show reports state ",
                    q.as_str(),
                    "; governance_enable requires an already-active Society (greenfield-saga §1)",
                );
                return Err(
                    problem(
                        ProblemKind::Forbidden,
                        "the target Society is not active",
                        detail.as_str(),
                    ),
                );
            }
            Ok(Observed { incarnation, recovery_epoch: view.recovery_epoch })
        },
    }
}

/// Refuses a confirmed subject digest that is not the one this enablement
/// would commit; nothing confirmed passes.
pub fn confirm_subject(confirmed: &Option<String>, subject: &str) -> (r: Result<(), Problem>)
    ensures
        r is Ok <==> (opt_view(*confirmed) is None || opt_view(*confirmed) == Some(subject@)),
        r matches Err(p) ==> p@ == refusal_with(
            ProblemKind::Forbidden,
            "the confirmed subject digest does not match"@,
            "the exact digest the human confirmed is not the digest this enablement would commit (family contract §2.A subject digest)"@,
        ),
{
    match confirmed {
        None => Ok(()),
        Some(d) => if same(d.as_str(), subject) {
            Ok(())
        } else {
            Err(
                problem(
                    ProblemKind::Forbidden,
                    "the confirmed subject digest does not match",
                    "the exact digest the human confirmed is not the digest this enablement would commit (family contract §2.A subject digest)",
                ),
            )
        },
    }
}

/// The detail of a spent epoch.
pub open spec fn spent_epoch_view(epoch: u64) -> ProblemView {
    refusal_with(
        ProblemKind::Forbidden,
        "this binding epoch is spent"@,
        "binding epoch "@ + decimal_of(epoch as nat)
            + " was rolled back and is spent: it can never activate; re-enable under a fresh idempotency key, which opens a new epoch (greenfield-saga §4)"@,
    )
}

pub open spec fn disabled_scope_view() -> ProblemView {
    refusal_with(
        ProblemKind::Forbidden,
        "this governed scope was disabled"@,
        "re-enablement after a governed disable is a fresh saga row under a new binding epoch, not a transition of this machine (greenfield-saga §4)"@,
    )
}

/// What going on with enabling does and answers.
pub open spec fn enable_resume_outcome(
    gov: Governance,
    realm: Seq<char>,
    scope: Seq<char>,
    r: Result<EnableStep, Problem>,
) -> bool {
    &&& match current(gov.slots.rows@, realm, scope) {
        None => r is Err && r->Err_0@ == internal_view(),
        Some(s) => match s.state {
            SlotState::Active => {
                &&& r matches Ok(EnableStep::Reply(reply))
                &&& told(
                    reply,
                    s,
                    s.state,
                    opt_view(s.reason),
                    s.expected_owner_revision + 1,
                )
            },
            SlotState::RolledBack => r is Err && r->Err_0@ == spent_epoch_view(
                s.binding_epoch,
            ),
            SlotState::Disabled => r is Err && r->Err_0@ == disabled_scope_view(),
            SlotState::BindingsCreated => r == Ok::<EnableStep, Problem>(EnableStep::Proceed),
        },
    }
}

/// After the create step the recorded slot decides, never the step's reply:
/// an activated one answers, a spent or disabled one refuses, a pending one
/// goes on to the re-verification.
pub fn enable_resume(gov: &Governance, realm: &str, scope: &str) -> (r: Result<EnableStep, Problem>)
    requires
        gov.wf(),
        counters_fit(*gov),
    ensures
        enable_resume_outcome(
            *gov,
            realm@,
            scope@,
            r,
        ),
{
    match current_slot(gov, realm, scope) {
        None => Err(internal()),
        Some(i) => {
            let slot = &gov.slots.rows[i];
            match slot.state {
                SlotState::Active => Ok(
                    EnableStep::Reply(tell(slot, slot.expected_owner_revision + 1)),
                ),
                SlotState::RolledBack => {
                    let n = decimal(slot.binding_epoch);
                    let detail = cat3(
                        "binding epoch ",
                        n.as_str(),
                        " was rolled back and is spent: it can never activate; re-enable under a fresh idempotency key, which opens a new epoch (greenfield-saga §4)",
                    );
                    Err(
                        problem(
                            ProblemKind::Forbidden,
                            "this binding epoch is spent",
                            detail.as_str(),
                        ),
                    )
                },
                SlotState::Disabled => Err(
                    problem(
                        ProblemKind::Forbidden,
                        "this governed scope was disabled",
                        "re-enablement after a governed disable is a fresh saga row under a new binding epoch, not a transition of this machine (greenfield-saga §4)",
                    ),
                ),
                SlotState::BindingsCreated => Ok(EnableStep::Proceed),
            }
        },
    }
}

/// The outcome of re-verifying a pending slot against the live endpoint.
#[derive(Debug)]
pub enum Verification {
    Unchanged,
    /// Byom answered, and the answer contradicts the pending bindings.
    Definite(String),
    /// Byom did not answer: nothing moves.
    Unknown(Problem),
}

/// What re-verification finds, in the order in which the questions are put.
pub open spec fn verified(
    hello: Asked<String>,
    society: Asked<SocietyView>,
    slot: Slot,
    v: Verification,
) -> bool {
    match hello {
        Asked::Refused(e, _) => v matches Verification::Definite(d) && d@
            == "the byom endpoint refused: "@ + e@,
        Asked::Silent(p) => v == Verification::Unknown(p),
        Asked::Answer(incarnation) => if incarnation@ != slot.endpoint_incarnation@ {
            v matches Verification::Definite(d) && d@ == "the byom endpoint re-incarnated ("@
                + slot.endpoint_incarnation@ + " → "@ + incarnation@ + ")"@
        } else {
            match society {
                Asked::Refused(e, _) => v matches Verification::Definite(d) && d@
                    == "the Society is no longer readable: "@ + e@,
                Asked::Silent(p) => v == Verification::Unknown(p),
                Asked::Answer(view) => if !view.active {
                    v matches Verification::Definite(d) && d@
                        == "the Society left the active state (now "@ + quoted_text(view.state@)
                        + ")"@
                } else if view.recovery_epoch != slot.society_recovery_epoch {
                    v matches Verification::Definite(d) && d@
                        == "the Society recovery epoch moved ("@ + decimal_of(
                        slot.society_recovery_epoch as nat,
                    ) + " → "@ + decimal_of(view.recovery_epoch as nat) + ")"@
                } else {
                    v is Unchanged
                },
            }
        },
    }
}

/// The re-check before the owner CAS. Only an answer drives a rollback.
pub fn reverify(hello: Asked<String>, society: Asked<SocietyView>, slot: &Slot) -> (v: Verification)
    ensures
        verified(hello, society, *slot, v),
{
    let incarnation = match hello {
        Asked::Refused(e, _) => {
            return Verification::Definite(cat2("the byom endpoint refused: ", e.as_str()));
        },
        Asked::Silent(p) => {
            return Verification::Unknown(p);
        },
        Asked::Answer(i) => i,
    };
    if !same(incarnation.as_str(), slot.endpoint_incarnation.as_str()) {
        return Verification::Definite(
            cat5(
                "the byom endpoint re-incarnated (",
                slot.endpoint_incarnation.as_str(),
                " → ",
                incarnation.as_str(),
                ")",
            ),
        );
    }
    let view = match society {
        Asked::Refused(e, _) => {
            return Verification::Definite(cat2("the Society is no longer readable: ", e.as_str()));
        },
        Asked::Silent(p) => {
            return Verification::Unknown(p);
        },
        Asked::Answer(v) => v,
    };
    if !view.active {
        let q = quoted(view.state.as_str());
        return Verification::Definite(
            cat3("the Society left the active state (now ", q.as_str(), ")"),
        );
    }
    if view.recovery_epoch != slot.society_recovery_epoch {
        let a = decimal(slot.society_recovery_epoch);
        let b = decimal(view.recovery_epoch);
        return Verification::Definite(
            cat5("the Society recovery epoch moved (", a.as_str(), " → ", b.as_str(), ")"),
        );
    }
    Verification::Unchanged
}

/// The answer to a command whose epoch was rolled back for a reason.
pub open spec fn rolled_back_view(reason: Seq<char>, epoch: u64) -> ProblemView {
    refusal_with(
        ProblemKind::Forbidden,
        "the enablement was rolled back before activation"@,
        reason + "; binding epoch "@ + decimal_of(epoch as nat)
            + " is spent and can never activate — re-enable under a new epoch (greenfield-saga §4)"@,
    )
}

/// The answer to a command whose epoch was rolled back for a reason.
pub fn rolled_back_answer(reason: &str, epoch: u64) -> (r: Problem)
    ensures
        r@ == rolled_back_view(reason@, epoch),
{
    let n = decimal(epoch);
    let detail = cat4(
        reason,
        "; binding epoch ",
        n.as_str(),
        " is spent and can never activate — re-enable under a new epoch (greenfield-saga §4)",
    );
    problem(
        ProblemKind::Forbidden,
        "the enablement was rolled back before activation",
        detail.as_str(),
    )
}

// --------------------------------------------- the enable command, whole ----

/// How opening an enablement is answered where what byom was observed to be
/// does not do.
pub open spec fn observe_refusal(hello: Result<String, Problem>, society: SocietyAsked) -> Option<
    ProblemView,
> {
    match hello {
        Err(p) => Some(p@),
        Ok(_) => match society {
            SocietyAsked::Absent => Some(no_society_view()),
            SocietyAsked::Failed(p) => Some(p@),
            SocietyAsked::Shown(view) => if !view.active {
                Some(inactive_society_view(view.state@))
            } else {
                None
            },
        },
    }
}

/// What byom was observed to be, where it does.
pub open spec fn observed(hello: Result<String, Problem>, society: SocietyAsked) -> Observed {
    Observed { incarnation: hello->Ok_0, recovery_epoch: society->Shown_0.recovery_epoch }
}

/// The refusal of a confirmation of something else.
pub open spec fn other_subject_view() -> ProblemView {
    refusal_with(
        ProblemKind::Forbidden,
        "the confirmed subject digest does not match"@,
        "the exact digest the human confirmed is not the digest this enablement would commit (family contract §2.A subject digest)"@,
    )
}

/// Whether the scope is active for this target already.
pub open spec fn enabled_already(
    gov: Governance,
    realm: Seq<char>,
    scope: Seq<char>,
    args: EnableArgs,
) -> bool {
    match current(gov.slots.rows@, realm, scope) {
        Some(s) => s.state is Active && targets(s, args),
        None => false,
    }
}

/// What the first half of the enable command does once byom was observed: the
/// subject that was confirmed, if one was, has to be this one, and then the
/// bindings are created.
pub open spec fn enable_opened<
    G: Fn(&str, &Json) -> Keyed + Copy,
    D: Fn(&DependencySet) -> String + Copy,
    B: Fn(&RealmBinding) -> String + Copy,
    O: Fn(&OwnerBinding) -> String + Copy,
    M: Fn(&SocietyMapping) -> String + Copy,
    V: Fn(&str, &str) -> Verdict,
>(
    before: Governance,
    after: Governance,
    journal: JournalView,
    after_journal: JournalView,
    realm: Seq<char>,
    args: EnableArgs,
    selector: Seq<char>,
    scope: Seq<char>,
    subject: Seq<char>,
    seen: Observed,
    realm_revision: Option<u64>,
    overlap: V,
    ids: EnableIds,
    seals: Seals<G, D, B, O, M>,
    r: Result<EnableStep, Problem>,
) -> bool {
    if args.confirmed_subject_digest is Some && args.confirmed_subject_digest->0@ != subject {
        &&& r is Err
        &&& r->Err_0@ == other_subject_view()
        &&& after == before
        &&& after_journal == journal
    } else {
        exists|created: Result<SagaReply, Problem>|
            {
                &&& #[trigger] create_done(
                    before,
                    after,
                    journal,
                    after_journal,
                    realm,
                    args,
                    selector,
                    scope,
                    subject,
                    seen,
                    realm_revision,
                    overlap,
                    ids,
                    seals,
                    created,
                )
                &&& match created {
                    Ok(_) => r == Ok::<EnableStep, Problem>(EnableStep::Proceed),
                    Err(p) => r == Err::<EnableStep, Problem>(p),
                }
            }
    }
}

/// What the first half of the enable command does and answers, of the selectors
/// as they parse and of byom as it was seen.
pub open spec fn enable_outcome<
    G: Fn(&str, &Json) -> Keyed + Copy,
    D: Fn(&DependencySet) -> String + Copy,
    B: Fn(&RealmBinding) -> String + Copy,
    O: Fn(&OwnerBinding) -> String + Copy,
    M: Fn(&SocietyMapping) -> String + Copy,
    V: Fn(&str, &str) -> Verdict,
    J: Fn(&EnableSubject) -> String,
>(
    before: Governance,
    after: Governance,
    journal: JournalView,
    after_journal: JournalView,
    realm: Seq<char>,
    args: EnableArgs,
    faults: Seq<Option<String>>,
    selector: Seq<char>,
    scope: Seq<char>,
    subject_digest: J,
    hello: Result<String, Problem>,
    society: SocietyAsked,
    realm_revision: Option<u64>,
    overlap: V,
    ids: EnableIds,
    seals: Seals<G, D, B, O, M>,
    r: Result<EnableStep, Problem>,
) -> bool {
    match first_fault(faults) {
        Some(e) => {
            &&& r is Err
            &&& r->Err_0@ == invalid_arguments(e)
            &&& after == before
            &&& after_journal == journal
        },
        None => if enabled_already(before, realm, scope, args) {
            let s = current(before.slots.rows@, realm, scope)->0;
            &&& r matches Ok(EnableStep::Reply(reply))
            &&& told(
                reply,
                s,
                s.state,
                opt_view(s.reason),
                s.expected_owner_revision + 1,
            )
            &&& after == before
            &&& after_journal == journal
        } else {
            match observe_refusal(hello, society) {
                Some(p) => {
                    &&& r is Err
                    &&& r->Err_0@ == p
                    &&& after == before
                    &&& after_journal == journal
                },
                None => exists|subject: Seq<char>|
                    {
                        &&& #[trigger] subject_digested(
                            subject_digest,
                            realm,
                            args,
                            selector,
                            observed(hello, society),
                            subject,
                        )
                        &&& enable_opened(
                            before,
                            after,
                            journal,
                            after_journal,
                            realm,
                            args,
                            selector,
                            scope,
                            subject,
                            observed(hello, society),
                            realm_revision,
                            overlap,
                            ids,
                            seals,
                            r,
                        )
                    },
            }
        },
    }
}

/// The first half of the enable command: a repeat of an activated one answers
/// what is stored, before anything is asked; otherwise byom's answers are
/// judged, then the confirmed subject, and then the bindings are created,
/// inert. The answer says whether the second half is due.
pub fn enable_create<
    G: Fn(&str, &Json) -> Keyed + Copy,
    D: Fn(&DependencySet) -> String + Copy,
    B: Fn(&RealmBinding) -> String + Copy,
    O: Fn(&OwnerBinding) -> String + Copy,
    M: Fn(&SocietyMapping) -> String + Copy,
    V: Fn(&str, &str) -> Verdict,
    J: Fn(&EnableSubject) -> String,
>(
    gov: &mut Governance,
    journal: &mut Journal,
    realm: &str,
    args: &EnableArgs,
    faults: &Vec<Option<String>>,
    selector: &str,
    scope: &str,
    subject_digest: &J,
    hello: Result<String, Problem>,
    society: SocietyAsked,
    realm_revision: Option<u64>,
    overlap: &V,
    ids: &EnableIds,
    seals: Seals<G, D, B, O, M>,
) -> (r: Result<EnableStep, Problem>)
    requires
        seals_all(seals),
        forall|s: &EnableSubject| #[trigger] subject_digest.requires((s,)),
        old(gov).wf(),
        counters_fit(*old(gov)),
        forall|a: &str, b: &str| #[trigger] overlap.requires((a, b)),
    ensures
        final(gov).wf(),
        enable_outcome(
            *old(gov),
            *final(gov),
            old(journal)@,
            final(journal)@,
            realm@,
            *args,
            faults@,
            selector@,
            scope@,
            *subject_digest,
            hello,
            society,
            realm_revision,
            *overlap,
            *ids,
            seals,
            r,
        ),
{
    match enable_begin(gov, realm, args, faults, scope)? {
        EnableStep::Reply(reply) => {
            return Ok(EnableStep::Reply(reply));
        },
        EnableStep::Proceed => {},
    }
    let seen = observe(hello, society)?;
    let asked = enable_subject(realm, args, selector, &seen);
    let hex = subject_digest(&asked);
    proof {
        assert(subject_digest.ensures((&asked,), hex));
        assert(seen == observed(hello, society));
        assert(subject_digested(
            *subject_digest,
            realm@,
            *args,
            selector@,
            observed(hello, society),
            hex@,
        ));
    }
    let subject = hex.as_str();
    confirm_subject(&args.confirmed_subject_digest, subject)?;
    let created = create_bindings(
        gov,
        journal,
        realm,
        args,
        selector,
        scope,
        subject,
        &seen,
        realm_revision,
        overlap,
        ids,
        seals,
    );
    proof {
        assert(create_done(
            *old(gov),
            *gov,
            old(journal)@,
            journal@,
            realm@,
            *args,
            selector@,
            scope@,
            subject@,
            seen,
            realm_revision,
            *overlap,
            *ids,
            seals,
            created,
        ));
    }
    match created {
        Ok(_) => Ok(EnableStep::Proceed),
        Err(p) => Err(p),
    }
}

fn copy_slot(s: &Slot) -> (r: Slot)
    ensures
        r == *s,
{
    Slot {
        enablement_id: s.enablement_id.clone(),
        realm_ref: s.realm_ref.clone(),
        exact_scope_digest_hex: s.exact_scope_digest_hex.clone(),
        exact_scope_selector: s.exact_scope_selector.clone(),
        binding_epoch: s.binding_epoch,
        state: s.state,
        society_ref: s.society_ref.clone(),
        society_recovery_epoch: s.society_recovery_epoch,
        byom_endpoint_ref: s.byom_endpoint_ref.clone(),
        endpoint_incarnation: s.endpoint_incarnation.clone(),
        binding_ref: s.binding_ref.clone(),
        mapping_id: s.mapping_id.clone(),
        expected_owner_revision: s.expected_owner_revision,
        subject_digest_hex: s.subject_digest_hex.clone(),
        reason: s.reason.clone(),
    }
}

/// What the second half does with a pending slot, once it is verified.
pub open spec fn enable_concluded<
    G: Fn(&str, &Json) -> Keyed + Copy,
    D: Fn(&DependencySet) -> String + Copy,
    B: Fn(&RealmBinding) -> String + Copy,
    O: Fn(&OwnerBinding) -> String + Copy,
    M: Fn(&SocietyMapping) -> String + Copy,
    V: Fn(&str, &str) -> Verdict,
>(
    before: Governance,
    after: Governance,
    journal: JournalView,
    after_journal: JournalView,
    realm: Seq<char>,
    slot: Slot,
    found: Verification,
    selector_fault: Option<String>,
    overlap: V,
    seals: Seals<G, D, B, O, M>,
    r: Result<SagaReply, Problem>,
) -> bool {
    match found {
        Verification::Unknown(p) => {
            &&& r == Err::<SagaReply, Problem>(p)
            &&& after == before
            &&& after_journal == journal
        },
        Verification::Definite(reason) => exists|rolled: Result<SagaReply, Problem>|
            {
                &&& #[trigger] rollback_outcome(
                    before,
                    after,
                    journal,
                    after_journal,
                    realm,
                    slot,
                    reason@,
                    rolled,
                )
                &&& match rolled {
                    Err(p) => r == Err::<SagaReply, Problem>(p),
                    Ok(_) => r is Err && r->Err_0@ == rolled_back_view(
                        reason@,
                        slot.binding_epoch,
                    ),
                }
            },
        Verification::Unchanged => activate_done(
            before,
            after,
            journal,
            after_journal,
            realm,
            slot,
            selector_fault,
            overlap,
            seals,
            r,
        ),
    }
}

/// What the second half of the enable command does and answers.
pub open spec fn finish_outcome<
    G: Fn(&str, &Json) -> Keyed + Copy,
    D: Fn(&DependencySet) -> String + Copy,
    B: Fn(&RealmBinding) -> String + Copy,
    O: Fn(&OwnerBinding) -> String + Copy,
    M: Fn(&SocietyMapping) -> String + Copy,
    V: Fn(&str, &str) -> Verdict,
>(
    before: Governance,
    after: Governance,
    journal: JournalView,
    after_journal: JournalView,
    realm: Seq<char>,
    scope: Seq<char>,
    hello: Asked<String>,
    society: Asked<SocietyView>,
    selector_fault: Option<String>,
    overlap: V,
    seals: Seals<G, D, B, O, M>,
    r: Result<SagaReply, Problem>,
) -> bool {
    match current(before.slots.rows@, realm, scope) {
        None => {
            &&& r is Err
            &&& r->Err_0@ == internal_view()
            &&& after == before
            &&& after_journal == journal
        },
        Some(s) => match s.state {
            SlotState::Active => {
                &&& r is Ok
                &&& told(
                    r->Ok_0,
                    s,
                    s.state,
                    opt_view(s.reason),
                    s.expected_owner_revision + 1,
                )
                &&& after == before
                &&& after_journal == journal
            },
            SlotState::RolledBack => {
                &&& r is Err
                &&& r->Err_0@ == spent_epoch_view(s.binding_epoch)
                &&& after == before
                &&& after_journal == journal
            },
            SlotState::Disabled => {
                &&& r is Err
                &&& r->Err_0@ == disabled_scope_view()
                &&& after == before
                &&& after_journal == journal
            },
            SlotState::BindingsCreated => exists|found: Verification|
                {
                    &&& #[trigger] verified(hello, society, s, found)
                    &&& enable_concluded(
                        before,
                        after,
                        journal,
                        after_journal,
                        realm,
                        s,
                        found,
                        selector_fault,
                        overlap,
                        seals,
                        r,
                    )
                },
        },
    }
}

/// The second half of the enable command. The recorded slot decides: an active
/// one answers, a spent or disabled one refuses, and a pending one is verified
/// against byom once more. Only an answer that contradicts it rolls it back,
/// no answer leaves it pending, and an unchanged one is activated.
pub fn enable_finish<
    G: Fn(&str, &Json) -> Keyed + Copy,
    D: Fn(&DependencySet) -> String + Copy,
    B: Fn(&RealmBinding) -> String + Copy,
    O: Fn(&OwnerBinding) -> String + Copy,
    M: Fn(&SocietyMapping) -> String + Copy,
    V: Fn(&str, &str) -> Verdict,
>(
    gov: &mut Governance,
    journal: &mut Journal,
    realm: &str,
    scope: &str,
    hello: Asked<String>,
    society: Asked<SocietyView>,
    selector_fault: &Option<String>,
    overlap: &V,
    seals: Seals<G, D, B, O, M>,
) -> (r: Result<SagaReply, Problem>)
    requires
        seals_all(seals),
        old(gov).wf(),
        counters_fit(*old(gov)),
        forall|a: &str, b: &str| #[trigger] overlap.requires((a, b)),
    ensures
        final(gov).wf(),
        finish_outcome(
            *old(gov),
            *final(gov),
            old(journal)@,
            final(journal)@,
            realm@,
            scope@,
            hello,
            society,
            *selector_fault,
            *overlap,
            seals,
            r,
        ),
{
    match enable_resume(gov, realm, scope)? {
        EnableStep::Reply(reply) => {
            return Ok(reply);
        },
        EnableStep::Proceed => {},
    }
    let slot = match current_slot(gov, realm, scope) {
        None => {
            return Err(internal());
        },
        Some(i) => copy_slot(&gov.slots.rows[i]),
    };
    let found = reverify(hello, society, &slot);
    let ghost the_found = found;
    proof {
        assert(verified(hello, society, slot, the_found));
    }
    match found {
        Verification::Unknown(p) => Err(p),
        Verification::Definite(reason) => {
            let rolled = rollback_bindings(gov, journal, realm, &slot, reason.as_str());
            proof {
                assert(rollback_outcome(
                    *old(gov),
                    *gov,
                    old(journal)@,
                    journal@,
                    realm@,
                    slot,
                    reason@,
                    rolled,
                ));
            }
            match rolled {
                Err(p) => Err(p),
                Ok(_) => Err(rolled_back_answer(reason.as_str(), slot.binding_epoch)),
            }
        },
        Verification::Unchanged => activate_binding(
            gov,
            journal,
            realm,
            &slot,
            selector_fault,
            overlap,
            seals,
        ),
    }
}

// ------------------------------------------------ the whole of an enable ----

/// The scope selectors' grammar: how a selector is read, which answers its
/// canonical text or why it is none; the digest of the exact scope of one; and
/// whether two of them overlap.
pub struct Grammar<P, X, V> {
    pub parse: P,
    pub scope: X,
    pub overlap: V,
}

/// What is asked of byom: who it is and how a Society stands at it, first, and
/// once more before the owner moves.
pub struct Endpoint<H, Y, R, Z> {
    pub hello: H,
    pub society: Y,
    pub hello_again: R,
    pub society_again: Z,
}

/// What the selectors of a command come to: for the exact scope selector and
/// then for each allowed one, why it is none, if it is none; and of the exact
/// one its canonical text and the digest of its scope.
#[derive(Debug)]
pub struct Selectors {
    pub faults: Vec<Option<String>>,
    pub selector: String,
    pub scope: String,
}

/// Whether a selector is read with that fault, if with any.
pub open spec fn read_with<P: Fn(&str) -> Result<String, String>>(
    parse: P,
    text: Seq<char>,
    fault: Option<String>,
) -> bool {
    exists|t: &str, o: Result<String, String>|
        {
            &&& #[trigger] parse.ensures((t,), o)
            &&& t@ == text
            &&& fault == (match o {
                Ok(_) => None,
                Err(e) => Some(e),
            })
        }
}

/// Whether a selector is read as that canonical text.
pub open spec fn read_as<P: Fn(&str) -> Result<String, String>>(
    parse: P,
    text: Seq<char>,
    selector: Seq<char>,
) -> bool {
    exists|t: &str, o: Result<String, String>|
        {
            &&& #[trigger] parse.ensures((t,), o)
            &&& t@ == text
            &&& o matches Ok(c) && c@ == selector
        }
}

/// Whether a digest is the one of the exact scope of a selector.
pub open spec fn scoped<X: Fn(&str) -> String>(
    scope: X,
    selector: Seq<char>,
    digest: Seq<char>,
) -> bool {
    exists|t: &str, o: String|
        #[trigger] scope.ensures((t,), o) && t@ == selector && o@ == digest
}

/// Whether the selectors of a command are read so.
pub open spec fn selectors_read<
    P: Fn(&str) -> Result<String, String>,
    X: Fn(&str) -> String,
>(parse: P, scope: X, args: EnableArgs, read: Selectors) -> bool {
    let allowed = args.allowed_project_and_space_selectors@;
    &&& read.faults@.len() == allowed.len() + 1
    &&& read_with(parse, args.exact_scope_selector@, read.faults@[0])
    &&& forall|i: int|
        0 < i < read.faults@.len() ==> read_with(
            parse,
            allowed[i - 1]@,
            #[trigger] read.faults@[i],
        )
    &&& read.faults@[0] is None ==> {
        &&& read_as(parse, args.exact_scope_selector@, read.selector@)
        &&& scoped(scope, read.selector@, read.scope@)
    }
}

fn read_selectors<P: Fn(&str) -> Result<String, String>, X: Fn(&str) -> String>(
    parse: &P,
    scope: &X,
    args: &EnableArgs,
) -> (r: Selectors)
    requires
        forall|t: &str| #[trigger] parse.requires((t,)),
        forall|t: &str| #[trigger] scope.requires((t,)),
    ensures
        selectors_read(*parse, *scope, *args, r),
{
    let mut faults: Vec<Option<String>> = Vec::new();
    let exact = args.exact_scope_selector.as_str();
    let first = parse(exact);
    proof {
        assert(parse.ensures((exact,), first));
    }
    let ghost the_first = first;
    let (selector, digest) = match first {
        Ok(c) => {
            let t = c.as_str();
            let d = scope(t);
            proof {
                assert(scope.ensures((t,), d));
            }
            faults.push(None);
            (c, d)
        },
        Err(e) => {
            faults.push(Some(e));
            (String::new(), String::new())
        },
    };
    proof {
        assert(read_with(*parse, args.exact_scope_selector@, faults@[0]));
    }
    let mut i: usize = 0;
    while i < args.allowed_project_and_space_selectors.len()
        invariant
            i <= args.allowed_project_and_space_selectors.len(),
            faults.len() == i + 1,
            forall|t: &str| #[trigger] parse.requires((t,)),
            read_with(*parse, args.exact_scope_selector@, faults@[0]),
            faults@[0] is None <==> the_first is Ok,
            forall|k: int|
                0 < k < faults@.len() ==> read_with(
                    *parse,
                    args.allowed_project_and_space_selectors@[k - 1]@,
                    #[trigger] faults@[k],
                ),
        decreases args.allowed_project_and_space_selectors.len() - i,
    {
        let text = args.allowed_project_and_space_selectors[i].as_str();
        let o = parse(text);
        let ghost the_o = o;
        proof {
            assert(parse.ensures((text,), o));
        }
        let fault = match o {
            Ok(_) => None,
            Err(e) => Some(e),
        };
        proof {
            assert(read_with(*parse, text@, fault));
        }
        faults.push(fault);
        i = i + 1;
    }
    Selectors { faults, selector, scope: digest }
}

/// The revision of a realm, where there is one.
pub open spec fn revision_of(realms: Table<Realm>, realm: Seq<char>) -> Option<u64> {
    if realms@.contains_key(key1(realm)) {
        Some(realms@[key1(realm)].revision)
    } else {
        None
    }
}

/// Whether byom is asked who it is, at the endpoint of the command, and where it
/// says so how the command's Society stands at it.
pub open spec fn seen_first<
    H: FnOnce(&str) -> Result<String, Problem>,
    Y: FnOnce(&str, &str) -> SocietyAsked,
>(
    ask: H,
    ask_society: Y,
    args: EnableArgs,
    hello: Result<String, Problem>,
    society: SocietyAsked,
) -> bool {
    &&& exists|e: &str| e@ == args.byom_endpoint_ref@ && #[trigger] ask.ensures((e,), hello)
    &&& hello is Ok ==> exists|e: &str, s: &str|
        {
            &&& e@ == args.byom_endpoint_ref@
            &&& s@ == args.society_ref@
            &&& #[trigger] ask_society.ensures((e, s), society)
        }
}

/// Whether byom is asked once more, at the endpoint of a slot and, where it is
/// still the one that the slot knows, how the slot's Society stands at it.
pub open spec fn seen_again<
    R: FnOnce(&str) -> Asked<String>,
    Z: FnOnce(&str, &str) -> Asked<SocietyView>,
>(
    ask: R,
    ask_society: Z,
    slot: Slot,
    hello: Asked<String>,
    society: Asked<SocietyView>,
) -> bool {
    &&& exists|e: &str| e@ == slot.byom_endpoint_ref@ && #[trigger] ask.ensures((e,), hello)
    &&& (hello matches Asked::Answer(i) && i@ == slot.endpoint_incarnation@) ==> exists|
        e: &str,
        s: &str,
    |
        {
            &&& e@ == slot.byom_endpoint_ref@
            &&& s@ == slot.society_ref@
            &&& #[trigger] ask_society.ensures((e, s), society)
        }
}

/// What the second half comes to: byom is asked only about a slot that is
/// pending, and about that one.
pub open spec fn enable_finished<
    G: Fn(&str, &Json) -> Keyed + Copy,
    D: Fn(&DependencySet) -> String + Copy,
    B: Fn(&RealmBinding) -> String + Copy,
    O: Fn(&OwnerBinding) -> String + Copy,
    M: Fn(&SocietyMapping) -> String + Copy,
    V: Fn(&str, &str) -> Verdict,
    P: Fn(&str) -> Result<String, String>,
    R: FnOnce(&str) -> Asked<String>,
    Z: FnOnce(&str, &str) -> Asked<SocietyView>,
>(
    before: Governance,
    after: Governance,
    journal: JournalView,
    after_journal: JournalView,
    realm: Seq<char>,
    scope: Seq<char>,
    parse: P,
    overlap: V,
    ask: R,
    ask_society: Z,
    seals: Seals<G, D, B, O, M>,
    r: Result<SagaReply, Problem>,
) -> bool {
    exists|hello: Asked<String>, society: Asked<SocietyView>, fault: Option<String>|
        {
            &&& #[trigger] finish_outcome(
                before,
                after,
                journal,
                after_journal,
                realm,
                scope,
                hello,
                society,
                fault,
                overlap,
                seals,
                r,
            )
            &&& match current(before.slots.rows@, realm, scope) {
                Some(s) => s.state is BindingsCreated ==> {
                    &&& seen_again(ask, ask_society, s, hello, society)
                    &&& read_with(parse, s.exact_scope_selector@, fault)
                },
                None => true,
            }
        }
}

/// What the enable command does and answers: the selectors are read, a repeat
/// answers what is stored, byom is asked, the bindings are created, inert, and
/// then, if byom is unchanged, the owner moves.
pub open spec fn enable_done<
    G: Fn(&str, &Json) -> Keyed + Copy,
    D: Fn(&DependencySet) -> String + Copy,
    B: Fn(&RealmBinding) -> String + Copy,
    O: Fn(&OwnerBinding) -> String + Copy,
    M: Fn(&SocietyMapping) -> String + Copy,
    V: Fn(&str, &str) -> Verdict,
    J: Fn(&EnableSubject) -> String,
    P: Fn(&str) -> Result<String, String>,
    X: Fn(&str) -> String,
    H: FnOnce(&str) -> Result<String, Problem>,
    Y: FnOnce(&str, &str) -> SocietyAsked,
    R: FnOnce(&str) -> Asked<String>,
    Z: FnOnce(&str, &str) -> Asked<SocietyView>,
>(
    before: Governance,
    after: Governance,
    journal: JournalView,
    after_journal: JournalView,
    realms: Table<Realm>,
    realm: Seq<char>,
    args: EnableArgs,
    grammar: Grammar<P, X, V>,
    subject_digest: J,
    byom: Endpoint<H, Y, R, Z>,
    ids: EnableIds,
    seals: Seals<G, D, B, O, M>,
    r: Result<SagaReply, Problem>,
) -> bool {
    exists|
        read: Selectors,
        hello: Result<String, Problem>,
        society: SocietyAsked,
        mid: Governance,
        mid_journal: JournalView,
        first: Result<EnableStep, Problem>,
    |
        {
            &&& #[trigger] enable_outcome(
                before,
                mid,
                journal,
                mid_journal,
                realm,
                args,
                read.faults@,
                read.selector@,
                read.scope@,
                subject_digest,
                hello,
                society,
                revision_of(realms, realm),
                grammar.overlap,
                ids,
                seals,
                first,
            )
            &&& selectors_read(grammar.parse, grammar.scope, args, read)
            &&& first_fault(read.faults@) is None && !enabled_already(
                before,
                realm,
                read.scope@,
                args,
            ) ==> seen_first(byom.hello, byom.society, args, hello, society)
            &&& match first {
                Err(p) => {
                    &&& r == Err::<SagaReply, Problem>(p)
                    &&& after == mid
                    &&& after_journal == mid_journal
                },
                Ok(EnableStep::Reply(reply)) => {
                    &&& r == Ok::<SagaReply, Problem>(reply)
                    &&& after == mid
                    &&& after_journal == mid_journal
                },
                Ok(EnableStep::Proceed) => enable_finished(
                    mid,
                    after,
                    mid_journal,
                    after_journal,
                    realm,
                    read.scope@,
                    grammar.parse,
                    grammar.overlap,
                    byom.hello_again,
                    byom.society_again,
                    seals,
                    r,
                ),
            }
        }
}

/// The counters of the rows that the create step leaves can still advance.
proof fn created_counters_fit(
    before: Governance,
    after: Governance,
    realm: Seq<char>,
    args: EnableArgs,
    selector: Seq<char>,
    scope: Seq<char>,
    subject: Seq<char>,
    seen: Observed,
    ids: EnableIds,
)
    requires
        before.wf(),
        after.wf(),
        counters_below(before, u64::MAX - 1),
        epoch_opened(before, after, realm, args, selector, scope, subject, seen, ids),
    ensures
        counters_fit(after),
{
    let k: Key = (realm, scope);
    assert(owner_of(before, realm, scope) matches Some(o) ==> o.revision < u64::MAX - 1) by {
        if before.owners@.contains_key(k) {
            let i = crate::table::table_row(before.owners, k);
            assert(before.owners.rows@[i].revision < u64::MAX - 1);
        }
    }
    assert forall|i: int| 0 <= i < after.owners.rows@.len() implies (
    #[trigger] after.owners.rows@[i]).revision < u64::MAX by {
        crate::table::table_at(after.owners, i);
        let ok = after.owners.rows@[i].key();
        if ok != k {
            assert(before.owners@.contains_key(ok));
            let w = crate::table::table_row(before.owners, ok);
            assert(before.owners.rows@[w].revision < u64::MAX - 1);
        }
    }
    assert forall|i: int| 0 <= i < after.slots.rows@.len() implies (
    #[trigger] after.slots.rows@[i]).binding_epoch < u64::MAX
        && after.slots.rows@[i].expected_owner_revision < u64::MAX by {
        if i < before.slots.rows@.len() {
            assert(after.slots.rows@[i] == before.slots.rows@[i]);
        } else if scope_known(before.slots.rows@, realm, scope) {
            current_exists(before.slots.rows@, realm, scope);
            let c = choose|w: int| is_current(before.slots.rows@, realm, scope, w);
            assert(current(before.slots.rows@, realm, scope) == Some(before.slots.rows@[c]));
        }
    }
    assert forall|i: int| 0 <= i < after.bindings.rows@.len() implies (
    #[trigger] after.bindings.rows@[i]).binding_revision < u64::MAX by {
        if i < before.bindings.rows@.len() {
            assert(after.bindings.rows@[i] == before.bindings.rows@[i]);
        }
    }
    assert forall|i: int| 0 <= i < after.mappings.rows@.len() implies (
    #[trigger] after.mappings.rows@[i]).revision < u64::MAX by {
        if i < before.mappings.rows@.len() {
            assert(after.mappings.rows@[i] == before.mappings.rows@[i]);
        }
    }
}

/// Enables governed work over an exact scope. Repeating an activated command
/// answers what is stored, before byom is asked; otherwise byom has to answer,
/// with an active Society, the bindings are created, inert, byom is asked once
/// more, and only if nothing moved does the owner move. A definite change in
/// between rolls back and spends the epoch, and no answer leaves it pending.
pub fn governance_enable<
    G: Fn(&str, &Json) -> Keyed + Copy,
    D: Fn(&DependencySet) -> String + Copy,
    B: Fn(&RealmBinding) -> String + Copy,
    O: Fn(&OwnerBinding) -> String + Copy,
    M: Fn(&SocietyMapping) -> String + Copy,
    V: Fn(&str, &str) -> Verdict,
    J: Fn(&EnableSubject) -> String,
    P: Fn(&str) -> Result<String, String>,
    X: Fn(&str) -> String,
    H: FnOnce(&str) -> Result<String, Problem>,
    Y: FnOnce(&str, &str) -> SocietyAsked,
    R: FnOnce(&str) -> Asked<String>,
    Z: FnOnce(&str, &str) -> Asked<SocietyView>,
>(
    gov: &mut Governance,
    journal: &mut Journal,
    realms: &Table<Realm>,
    realm: &str,
    args: &EnableArgs,
    grammar: Grammar<P, X, V>,
    subject_digest: J,
    byom: Endpoint<H, Y, R, Z>,
    ids: &EnableIds,
    seals: Seals<G, D, B, O, M>,
) -> (r: Result<SagaReply, Problem>)
    requires
        seals_all(seals),
        forall|s: &EnableSubject| #[trigger] subject_digest.requires((s,)),
        forall|t: &str| #[trigger] grammar.parse.requires((t,)),
        forall|t: &str| #[trigger] grammar.scope.requires((t,)),
        forall|a: &str, b: &str| #[trigger] grammar.overlap.requires((a, b)),
        forall|e: &str| #[trigger] byom.hello.requires((e,)),
        forall|e: &str, s: &str| #[trigger] byom.society.requires((e, s)),
        forall|e: &str| #[trigger] byom.hello_again.requires((e,)),
        forall|e: &str, s: &str| #[trigger] byom.society_again.requires((e, s)),
        old(gov).wf(),
        realms.wf(),
        counters_below(*old(gov), u64::MAX - 1),
    ensures
        final(gov).wf(),
        enable_done(
            *old(gov),
            *final(gov),
            old(journal)@,
            final(journal)@,
            *realms,
            realm@,
            *args,
            grammar,
            subject_digest,
            byom,
            *ids,
            seals,
            r,
        ),
{
    let read = read_selectors(&grammar.parse, &grammar.scope, args);
    let revision: Option<u64> = match realm_show(realms, realm) {
        Ok(row) => Some(row.revision),
        Err(_) => None,
    };
    let scope = read.scope.as_str();
    let begun = enable_begin(gov, realm, args, &read.faults, scope);
    let due = match &begun {
        Ok(EnableStep::Proceed) => true,
        _ => false,
    };
    if !due {
        let ghost hello: Result<String, Problem> = arbitrary();
        let ghost society: SocietyAsked = arbitrary();
        proof {
            assert(enable_outcome(
                *old(gov),
                *gov,
                old(journal)@,
                journal@,
                realm@,
                *args,
                read.faults@,
                read.selector@,
                read.scope@,
                subject_digest,
                hello,
                society,
                revision_of(*realms, realm@),
                grammar.overlap,
                *ids,
                seals,
                begun,
            ));
        }
        return match begun {
            Ok(EnableStep::Reply(reply)) => Ok(reply),
            Ok(EnableStep::Proceed) => Err(internal()),
            Err(p) => Err(p),
        };
    }
    let endpoint = args.byom_endpoint_ref.as_str();
    let wanted = args.society_ref.as_str();
    let ask = byom.hello;
    let hello = ask(endpoint);
    let ask_society = byom.society;
    let society = match &hello {
        Ok(_) => ask_society(endpoint, wanted),
        Err(_) => SocietyAsked::Absent,
    };
    let ghost the_hello = hello;
    let ghost the_society = society;
    proof {
        assert(byom.hello.ensures((endpoint,), the_hello));
        assert(the_hello is Ok ==> byom.society.ensures((endpoint, wanted), the_society));
        assert(seen_first(byom.hello, byom.society, *args, the_hello, the_society));
    }
    let first = enable_create(
        gov,
        journal,
        realm,
        args,
        &read.faults,
        read.selector.as_str(),
        scope,
        &subject_digest,
        hello,
        society,
        revision,
        &grammar.overlap,
        ids,
        seals,
    );
    let ghost mid = *gov;
    let ghost mid_journal = journal@;
    proof {
        assert(enable_outcome(
            *old(gov),
            mid,
            old(journal)@,
            mid_journal,
            realm@,
            *args,
            read.faults@,
            read.selector@,
            read.scope@,
            subject_digest,
            the_hello,
            the_society,
            revision_of(*realms, realm@),
            grammar.overlap,
            *ids,
            seals,
            first,
        ));
    }
    match first {
        Err(p) => {
            return Err(p);
        },
        Ok(EnableStep::Reply(reply)) => {
            return Ok(reply);
        },
        Ok(EnableStep::Proceed) => {},
    }
    proof {
        if mid != *old(gov) {
            let subject = choose|subject: Seq<char>|
                {
                    &&& #[trigger] subject_digested(
                        subject_digest,
                        realm@,
                        *args,
                        read.selector@,
                        observed(the_hello, the_society),
                        subject,
                    )
                    &&& enable_opened(
                        *old(gov),
                        mid,
                        old(journal)@,
                        mid_journal,
                        realm@,
                        *args,
                        read.selector@,
                        read.scope@,
                        subject,
                        observed(the_hello, the_society),
                        revision_of(*realms, realm@),
                        grammar.overlap,
                        *ids,
                        seals,
                        first,
                    )
                };
            assert(epoch_opened(
                *old(gov),
                mid,
                realm@,
                *args,
                read.selector@,
                read.scope@,
                subject,
                observed(the_hello, the_society),
                *ids,
            ));
            created_counters_fit(
                *old(gov),
                mid,
                realm@,
                *args,
                read.selector@,
                read.scope@,
                subject,
                observed(the_hello, the_society),
                *ids,
            );
        }
    }
    finish(
        gov,
        journal,
        realm,
        scope,
        &grammar.parse,
        &grammar.overlap,
        byom.hello_again,
        byom.society_again,
        seals,
    )
}

/// The second half, with what it asks of byom.
fn finish<
    G: Fn(&str, &Json) -> Keyed + Copy,
    D: Fn(&DependencySet) -> String + Copy,
    B: Fn(&RealmBinding) -> String + Copy,
    O: Fn(&OwnerBinding) -> String + Copy,
    M: Fn(&SocietyMapping) -> String + Copy,
    V: Fn(&str, &str) -> Verdict,
    P: Fn(&str) -> Result<String, String>,
    R: FnOnce(&str) -> Asked<String>,
    Z: FnOnce(&str, &str) -> Asked<SocietyView>,
>(
    gov: &mut Governance,
    journal: &mut Journal,
    realm: &str,
    scope: &str,
    parse: &P,
    overlap: &V,
    ask: R,
    ask_society: Z,
    seals: Seals<G, D, B, O, M>,
) -> (r: Result<SagaReply, Problem>)
    requires
        seals_all(seals),
        forall|t: &str| #[trigger] parse.requires((t,)),
        forall|a: &str, b: &str| #[trigger] overlap.requires((a, b)),
        forall|e: &str| #[trigger] ask.requires((e,)),
        forall|e: &str, s: &str| #[trigger] ask_society.requires((e, s)),
        old(gov).wf(),
        counters_fit(*old(gov)),
    ensures
        final(gov).wf(),
        enable_finished(
            *old(gov),
            *final(gov),
            old(journal)@,
            final(journal)@,
            realm@,
            scope@,
            *parse,
            *overlap,
            ask,
            ask_society,
            seals,
            r,
        ),
{
    let mut hello: Asked<String> = Asked::Silent(internal());
    let mut society: Asked<SocietyView> = Asked::Silent(internal());
    let mut fault: Option<String> = None;
    if let Some(i) = current_slot(gov, realm, scope) {
        let slot = &gov.slots.rows[i];
        if let SlotState::BindingsCreated = slot.state {
            let endpoint = slot.byom_endpoint_ref.as_str();
            let wanted = slot.society_ref.as_str();
            let text = slot.exact_scope_selector.as_str();
            let o = parse(text);
            proof {
                assert(parse.ensures((text,), o));
            }
            fault = match o {
                Ok(_) => None,
                Err(e) => Some(e),
            };
            hello = ask(endpoint);
            proof {
                assert(ask.ensures((endpoint,), hello));
            }
            let unmoved = match &hello {
                Asked::Answer(t) => same(t.as_str(), slot.endpoint_incarnation.as_str()),
                _ => false,
            };
            if unmoved {
                society = ask_society(endpoint, wanted);
                proof {
                    assert(ask_society.ensures((endpoint, wanted), society));
                }
            }
            proof {
                assert(seen_again(ask, ask_society, *slot, hello, society));
                assert(read_with(*parse, slot.exact_scope_selector@, fault));
            }
        }
    }
    enable_finish(gov, journal, realm, scope, hello, society, &fault, overlap, seals)
}

// ------------------------------------------------------ reading it back ----

/// Whether a listing shows a slot: it is the realm's and, where a binding is
/// asked for, that binding's.
pub open spec fn shown(slot: Slot, realm: Seq<char>, want: Option<Seq<char>>) -> bool {
    slot.realm_ref@ == realm && (want is None || want == Some(slot.binding_ref@))
}

/// The listing order: by epoch, then by identifier.
pub open spec fn listed_before(a: Slot, b: Slot) -> bool {
    a.binding_epoch < b.binding_epoch || (a.binding_epoch == b.binding_epoch
        && crate::text::before(a.enablement_id@, b.enablement_id@))
}

/// The recorded state of the saga, never a guess and never a mutation.
#[derive(Debug)]
pub struct GovernanceListing {
    /// The owner that the listed enablements make the realm's.
    pub governance_owner: Owner,
    /// The positions of the listed slots, in listing order.
    pub enablements: Vec<usize>,
}

/// Whether `list` holds exactly the shown ones of the first `n` slots, in
/// listing order.
pub open spec fn listing_of(
    slots: Seq<Slot>,
    realm: Seq<char>,
    want: Option<Seq<char>>,
    n: int,
    list: Seq<usize>,
) -> bool {
    &&& forall|a: int|
        0 <= a < list.len() ==> (#[trigger] list[a]) < n && shown(slots[list[a] as int], realm, want)
    &&& forall|i: int|
        0 <= i < n && shown(#[trigger] slots[i], realm, want) ==> list.contains(i as usize)
    &&& forall|a: int, b: int|
        0 <= a < b < list.len() ==> listed_before(
            slots[#[trigger] list[a] as int],
            slots[#[trigger] list[b] as int],
        )
}

proof fn listed_before_transitive(a: Slot, b: Slot, c: Slot)
    requires
        listed_before(a, b),
        listed_before(b, c),
    ensures
        listed_before(a, c),
{
    if a.binding_epoch == b.binding_epoch && b.binding_epoch == c.binding_epoch {
        crate::text::before_transitive(a.enablement_id@, b.enablement_id@, c.enablement_id@);
    }
}

fn lists_before(a: &Slot, b: &Slot) -> (r: bool)
    ensures
        r == listed_before(*a, *b),
{
    if a.binding_epoch != b.binding_epoch {
        return a.binding_epoch < b.binding_epoch;
    }
    let x = crate::text::chars_of(a.enablement_id.as_str());
    let y = crate::text::chars_of(b.enablement_id.as_str());
    crate::text::chars_before(&x, &y)
}

/// What showing governance answers.
pub open spec fn governance_show_outcome(
    gov: Governance,
    realm: Seq<char>,
    want: Option<String>,
    r: Result< GovernanceListing, Problem, >,
) -> bool {
    &&& r is Err <==> want is Some && forall|i: int|
        0 <= i < gov.slots.rows@.len() ==> !shown(
            #[trigger] gov.slots.rows@[i],
            realm,
            opt_view(want),
        )
    &&& match r {
        Err(p) => p@ == not_found_view(),
        Ok(l) => {
            &&& listing_of(
                gov.slots.rows@,
                realm,
                opt_view(want),
                gov.slots.rows@.len() as int,
                l.enablements@,
            )
            &&& l.governance_owner is Byom <==> exists|i: int|
                0 <= i < gov.slots.rows@.len() && shown(
                    #[trigger] gov.slots.rows@[i],
                    realm,
                    opt_view(want),
                ) && gov.slots.rows@[i].state is Active
        },
    }
}

/// The recorded enablements of a realm, or of one of its bindings.
pub fn governance_show(gov: &Governance, realm: &str, want: &Option<String>) -> (r: Result<
    GovernanceListing,
    Problem,
>)
    requires
        gov.wf(),
    ensures
        governance_show_outcome(
            *gov,
            realm@,
            *want,
            r,
        ),
{
    let mut list: Vec<usize> = Vec::new();
    let mut owner = Owner::Nobody;
    let mut i: usize = 0;
    while i < gov.slots.rows.len()
        invariant
            gov.wf(),
            i <= gov.slots.rows.len(),
            listing_of(gov.slots.rows@, realm@, opt_view(*want), i as int, list@),
            owner is Byom <==> exists|k: int|
                0 <= k < i && shown(#[trigger] gov.slots.rows@[k], realm@, opt_view(*want))
                    && gov.slots.rows@[k].state is Active,
        decreases gov.slots.rows.len() - i,
    {
        let slot = &gov.slots.rows[i];
        let wanted = match want {
            Some(w) => same(slot.binding_ref.as_str(), w.as_str()),
            None => true,
        };
        if wanted && same(slot.realm_ref.as_str(), realm) {
            if let SlotState::Active = slot.state {
                owner = Owner::Byom;
            }
            let mut at: usize = list.len();
            while at > 0 && lists_before(slot, &gov.slots.rows[list[at - 1]])
                invariant
                    gov.wf(),
                    i < gov.slots.rows.len(),
                    *slot == gov.slots.rows@[i as int],
                    at <= list.len(),
                    listing_of(gov.slots.rows@, realm@, opt_view(*want), i as int, list@),
                    forall|a: int|
                        at <= a < list.len() ==> listed_before(
                            *slot,
                            gov.slots.rows@[#[trigger] list@[a] as int],
                        ),
                decreases at,
            {
                at = at - 1;
            }
            let ghost before = list@;
            list.insert(at, i);
            proof {
                let slots = gov.slots.rows@;
                assert(list@ =~= before.insert(at as int, i));
                assert forall|a: int| 0 <= a < at implies listed_before(
                    slots[#[trigger] list@[a] as int],
                    *slot,
                ) by {
                    let last = before[at - 1];
                    let ls = slots[last as int];
                    if ls.binding_epoch == slot.binding_epoch {
                        crate::text::before_total(ls.enablement_id@, slot.enablement_id@);
                        if ls.enablement_id@ == slot.enablement_id@ {
                            assert(slots[last as int].key() == slots[i as int].key());
                        }
                    }
                    assert(listed_before(ls, *slot));
                    if a < at - 1 {
                        assert(listed_before(slots[before[a] as int], slots[before[at - 1] as int]));
                        listed_before_transitive(slots[before[a] as int], ls, *slot);
                    }
                }
                assert forall|a: int, b: int| 0 <= a < b < list@.len() implies listed_before(
                    slots[#[trigger] list@[a] as int],
                    slots[#[trigger] list@[b] as int],
                ) by {
                    if b < at {
                        assert(list@[a] == before[a] && list@[b] == before[b]);
                    } else if b == at {
                    } else if a < at {
                        assert(list@[a] == before[a] && list@[b] == before[b - 1]);
                    } else if a == at {
                        assert(list@[b] == before[b - 1]);
                    } else {
                        assert(list@[a] == before[a - 1] && list@[b] == before[b - 1]);
                    }
                }
                assert forall|a: int| 0 <= a < list@.len() implies (#[trigger] list@[a]) < i + 1
                    && shown(slots[list@[a] as int], realm@, opt_view(*want)) by {
                    if a < at {
                        assert(list@[a] == before[a]);
                    } else if a > at {
                        assert(list@[a] == before[a - 1]);
                    }
                }
                assert forall|k: int| 0 <= k < i + 1 && shown(
                    #[trigger] slots[k],
                    realm@,
                    opt_view(*want),
                ) implies list@.contains(k as usize) by {
                    if k == i {
                        assert(list@[at as int] == i);
                    } else {
                        let a = choose|a: int| 0 <= a < before.len() && before[a] == k as usize;
                        assert(before.contains(k as usize));
                        if a < at {
                            assert(list@[a] == k as usize);
                        } else {
                            assert(list@[a + 1] == k as usize);
                        }
                    }
                }
            }
        }
        i = i + 1;
    }
    if want.is_some() && list.len() == 0 {
        return Err(not_found());
    }
    proof {
        if list@.len() > 0 {
            let k = list@[0];
            assert(shown(gov.slots.rows@[k as int], realm@, opt_view(*want)));
        }
    }
    Ok(GovernanceListing { governance_owner: owner, enablements: list })
}

/// The active governed-work seam of a realm: a binding and a mapping that an
/// active slot points at, both active themselves.
pub struct Seam<'a> {
    pub binding: &'a RealmBinding,
    pub mapping: &'a SocietyMapping,
}

/// The seam that one slot makes, if it makes one.
pub open spec fn slot_seam(gov: Governance, realm: Seq<char>, slot: Slot) -> Option<
    (RealmBinding, SocietyMapping),
> {
    let bk = key1(slot.binding_ref@);
    let mk = key1(slot.mapping_id@);
    if slot.realm_ref@ == realm && slot.state is Active && gov.bindings@.contains_key(bk)
        && gov.mappings@.contains_key(mk) && gov.bindings@[bk].standing is Active
        && gov.mappings@[mk].standing is Active {
        Some((gov.bindings@[bk], gov.mappings@[mk]))
    } else {
        None
    }
}

/// The seam of the first slot from `i` on that makes one.
pub open spec fn seam_from(gov: Governance, realm: Seq<char>, i: int) -> Option<
    (RealmBinding, SocietyMapping),
>
    decreases gov.slots.rows@.len() - i,
{
    if i < 0 || i >= gov.slots.rows@.len() {
        None
    } else {
        match slot_seam(gov, realm, gov.slots.rows@[i]) {
            Some(s) => Some(s),
            None => seam_from(gov, realm, i + 1),
        }
    }
}

/// The seam of a realm; `None` means that it has no governed work at all.
pub open spec fn seam_of(gov: Governance, realm: Seq<char>) -> Option<
    (RealmBinding, SocietyMapping),
> {
    seam_from(gov, realm, 0)
}

/// Finds the seam of a realm.
pub fn active_seam<'a>(gov: &'a Governance, realm: &str) -> (r: Option<Seam<'a>>)
    requires
        gov.wf(),
    ensures
        match r {
            Some(s) => seam_of(*gov, realm@) == Some((*s.binding, *s.mapping)),
            None => seam_of(*gov, realm@) is None,
        },
{
    proof {
        reveal_strlit("");
        crate::text::empty_is(""@);
    }
    let mut i: usize = 0;
    while i < gov.slots.rows.len()
        invariant
            gov.wf(),
            ""@ == Seq::<char>::empty(),
            i <= gov.slots.rows.len(),
            seam_of(*gov, realm@) == seam_from(*gov, realm@, i as int),
        decreases gov.slots.rows.len() - i,
    {
        let slot = &gov.slots.rows[i];
        let active = match slot.state {
            SlotState::Active => true,
            _ => false,
        };
        if active && same(slot.realm_ref.as_str(), realm) {
            if let Some(binding) = gov.bindings.find(slot.binding_ref.as_str(), "") {
                if let Some(mapping) = gov.mappings.find(slot.mapping_id.as_str(), "") {
                    if binding.standing == Standing::Active && mapping.standing
                        == Standing::Active {
                        return Some(Seam { binding, mapping });
                    }
                }
            }
        }
        i = i + 1;
    }
    None
}

// ------------------------------------------------------------------ laws ----

/// A pending binding authorizes nothing: opening an epoch leaves the owner
/// row nobody's and everything it writes inert.
pub proof fn created_is_inert(
    before: Governance,
    after: Governance,
    realm: Seq<char>,
    args: EnableArgs,
    selector: Seq<char>,
    scope: Seq<char>,
    subject: Seq<char>,
    seen: Observed,
    ids: EnableIds,
)
    requires
        epoch_opened(before, after, realm, args, selector, scope, subject, seen, ids),
    ensures
        after.bindings.rows@.last().standing is Pending,
        after.mappings.rows@.last().standing is Pending,
        after.slots.rows@.last().state is BindingsCreated,
        slot_seam(after, realm, after.slots.rows@.last()) is None,
        after.owners@[(realm, scope)].governance_owner is Nobody,
{
}

/// A spent epoch never activates: neither a rolled back nor a disabled slot
/// passes the checks of the activation, whatever the caller presents.
pub proof fn spent_epoch_never_activates(
    gov: Governance,
    realm: Seq<char>,
    slot: Slot,
    fault: Option<Seq<char>>,
)
    requires
        match current(gov.slots.rows@, realm, slot.exact_scope_digest_hex@) {
            Some(now) => now.state is RolledBack || now.state is Disabled,
            None => true,
        },
    ensures
        activation_refusal(gov, realm, slot, fault) is Some,
{
}

/// Re-enabling after a spent epoch opens the next one: its epoch lies above
/// every epoch that the scope ever had.
pub proof fn epochs_are_monotone(
    before: Governance,
    after: Governance,
    realm: Seq<char>,
    args: EnableArgs,
    selector: Seq<char>,
    scope: Seq<char>,
    subject: Seq<char>,
    seen: Observed,
    ids: EnableIds,
    i: int,
)
    requires
        before.wf(),
        epoch_opened(before, after, realm, args, selector, scope, subject, seen, ids),
        0 <= i < before.slots.rows@.len(),
        of_scope(before.slots.rows@[i], realm, scope),
    ensures
        before.slots.rows@[i].binding_epoch < after.slots.rows@.last().binding_epoch,
{
    let slots = before.slots.rows@;
    let m = highest(slots, realm, scope, slots.len() as int);
    assert(is_current(slots, realm, scope, m));
    current_is(slots, realm, scope, m);
}

/// The position of the highest epoch among the first `n` slots of a scope.
proof fn highest(slots: Seq<Slot>, realm: Seq<char>, scope: Seq<char>, n: int) -> (m: int)
    requires
        0 <= n <= slots.len(),
        exists|i: int| 0 <= i < n && of_scope(#[trigger] slots[i], realm, scope),
    ensures
        0 <= m < n,
        of_scope(slots[m], realm, scope),
        forall|j: int|
            0 <= j < n && of_scope(#[trigger] slots[j], realm, scope) ==> slots[j].binding_epoch
                <= slots[m].binding_epoch,
    decreases n,
{
    if exists|i: int| 0 <= i < n - 1 && of_scope(#[trigger] slots[i], realm, scope) {
        let m = highest(slots, realm, scope, n - 1);
        if of_scope(slots[n - 1], realm, scope) && slots[m].binding_epoch
            < slots[n - 1].binding_epoch {
            n - 1
        } else {
            m
        }
    } else {
        n - 1
    }
}

/// After an activation the slot makes a seam, and the owner row names the
/// endpoint and the binding that the slot pinned.
pub proof fn activation_makes_a_seam(
    before: Governance,
    after: Governance,
    realm: Seq<char>,
    slot: Slot,
)
    requires
        before.wf(),
        after.wf(),
        pair_recorded(before, slot),
        before.slots@.contains_key(key1(slot.enablement_id@)),
        before.slots@[key1(slot.enablement_id@)].realm_ref@ == realm,
        before.slots@[key1(slot.enablement_id@)].binding_ref@ == slot.binding_ref@,
        before.slots@[key1(slot.enablement_id@)].mapping_id@ == slot.mapping_id@,
        activated(before, after, realm, slot),
    ensures
        slot_seam(after, realm, after.slots@[key1(slot.enablement_id@)]) is Some,
        after.owners@[(realm, slot.exact_scope_digest_hex@)].governance_owner is Byom,
        opt_view(after.owners@[(realm, slot.exact_scope_digest_hex@)].owner_binding_ref) == Some(
            slot.binding_ref@,
        ),
{
}

/// A disable takes the seam away and keeps the owner arm for audit.
pub proof fn disable_ends_the_seam(
    before: Governance,
    after: Governance,
    realm: Seq<char>,
    slot: Slot,
)
    requires
        before.slots@.contains_key(key1(slot.enablement_id@)),
        disabled(before, after, realm, slot),
    ensures
        slot_seam(after, realm, after.slots@[key1(slot.enablement_id@)]) is None,
        ({
            let ok: Key = (realm, slot.exact_scope_digest_hex@);
            &&& after.owners@[ok].frozen
            &&& after.owners@[ok].governance_owner == before.owners@[ok].governance_owner
            &&& after.owners@[ok].owner_binding_ref == before.owners@[ok].owner_binding_ref
            &&& after.owners@[ok].owner_endpoint_ref == before.owners@[ok].owner_endpoint_ref
        }),
{
}

/// A rollback never touches the owner row, and leaves nothing that a seam
/// could be made of.
pub proof fn rollback_never_owns(
    before: Governance,
    after: Governance,
    realm: Seq<char>,
    slot: Slot,
    reason: Seq<char>,
)
    requires
        rolled_back(before, after, slot, reason),
    ensures
        after.owners == before.owners,
        slot_seam(after, realm, after.slots@[key1(slot.enablement_id@)]) is None,
{
}

/// A repeat of an activated command answers what is stored, and changes and
/// announces nothing, whatever byom would say.
pub proof fn an_enable_is_repeatable<
    G: Fn(&str, &Json) -> Keyed + Copy,
    D: Fn(&DependencySet) -> String + Copy,
    B: Fn(&RealmBinding) -> String + Copy,
    O: Fn(&OwnerBinding) -> String + Copy,
    M: Fn(&SocietyMapping) -> String + Copy,
    V: Fn(&str, &str) -> Verdict,
    J: Fn(&EnableSubject) -> String,
    P: Fn(&str) -> Result<String, String>,
    X: Fn(&str) -> String,
    H: FnOnce(&str) -> Result<String, Problem>,
    Y: FnOnce(&str, &str) -> SocietyAsked,
    R: FnOnce(&str) -> Asked<String>,
    Z: FnOnce(&str, &str) -> Asked<SocietyView>,
>(
    before: Governance,
    after: Governance,
    journal: JournalView,
    after_journal: JournalView,
    realms: Table<Realm>,
    realm: Seq<char>,
    args: EnableArgs,
    grammar: Grammar<P, X, V>,
    subject_digest: J,
    byom: Endpoint<H, Y, R, Z>,
    ids: EnableIds,
    seals: Seals<G, D, B, O, M>,
    r: Result<SagaReply, Problem>,
    stored: Slot,
)
    requires
        enable_done(
            before,
            after,
            journal,
            after_journal,
            realms,
            realm,
            args,
            grammar,
            subject_digest,
            byom,
            ids,
            seals,
            r,
        ),
        stored.state is Active,
        targets(stored, args),
        forall|read: Selectors| #[trigger]
            selectors_read(grammar.parse, grammar.scope, args, read) ==> first_fault(read.faults@)
                is None && current(before.slots.rows@, realm, read.scope@) == Some(stored),
    ensures
        after == before,
        after_journal == journal,
        r is Ok,
        told(
            r->Ok_0,
            stored,
            SlotState::Active,
            None,
            stored.expected_owner_revision + 1,
        ),
{
}

/// No answer, no transition: an endpoint that stays silent is never a reason
/// to roll back.
pub proof fn silence_is_not_a_mismatch(
    hello: Asked<String>,
    society: Asked<SocietyView>,
    slot: Slot,
    v: Verification,
)
    requires
        verified(hello, society, slot, v),
        hello is Silent || (hello matches Asked::Answer(i) && i@ == slot.endpoint_incarnation@
            && society is Silent),
    ensures
        v is Unknown,
{
}

/// Whether the verdicts on the stored slots agree with an overlap relation.
pub open spec fn verdicts_follow(
    slots: Seq<Slot>,
    verdicts: Seq<Verdict>,
    selector: Seq<char>,
    overlaps: spec_fn(Seq<char>, Seq<char>) -> bool,
) -> bool {
    forall|i: int|
        0 <= i < slots.len() && (#[trigger] verdicts[i]) is Disjoint ==> !overlaps(
            selector,
            slots[i].exact_scope_selector@,
        )
}

/// No two live slots of a realm, of different exact scopes, overlap.
pub open spec fn scopes_disjoint(
    slots: Seq<Slot>,
    realm: Seq<char>,
    overlaps: spec_fn(Seq<char>, Seq<char>) -> bool,
) -> bool {
    forall|i: int, j: int|
        0 <= i < slots.len() && 0 <= j < slots.len() && (#[trigger] slots[i]).realm_ref@ == realm
            && (#[trigger] slots[j]).realm_ref@ == realm && slots[i].state.live()
            && slots[j].state.live() && slots[i].exact_scope_digest_hex@
            != slots[j].exact_scope_digest_hex@ ==> !overlaps(
            slots[i].exact_scope_selector@,
            slots[j].exact_scope_selector@,
        )
}

/// Two overlapping sagas cannot both win: opening an epoch under the overlap
/// rule keeps the live scopes of the realm apart, for every symmetric overlap
/// relation that the verdicts follow.
pub proof fn opening_keeps_scopes_disjoint(
    before: Governance,
    after: Governance,
    realm: Seq<char>,
    args: EnableArgs,
    selector: Seq<char>,
    scope: Seq<char>,
    subject: Seq<char>,
    seen: Observed,
    ids: EnableIds,
    slot_verdicts: Seq<Verdict>,
    owner_verdicts: Seq<Verdict>,
    overlaps: spec_fn(Seq<char>, Seq<char>) -> bool,
)
    requires
        epoch_opened(before, after, realm, args, selector, scope, subject, seen, ids),
        no_conflict(before, slot_verdicts, owner_verdicts, realm, scope),
        verdicts_follow(before.slots.rows@, slot_verdicts, selector, overlaps),
        forall|a: Seq<char>, b: Seq<char>| #[trigger] overlaps(a, b) == overlaps(b, a),
        scopes_disjoint(before.slots.rows@, realm, overlaps),
    ensures
        scopes_disjoint(after.slots.rows@, realm, overlaps),
{
    let b = before.slots.rows@;
    let a = after.slots.rows@;
    let n = b.len() as int;
    assert forall|i: int, j: int|
        0 <= i < a.len() && 0 <= j < a.len() && (#[trigger] a[i]).realm_ref@ == realm && (
        #[trigger] a[j]).realm_ref@ == realm && a[i].state.live() && a[j].state.live()
            && a[i].exact_scope_digest_hex@ != a[j].exact_scope_digest_hex@ implies !overlaps(
        a[i].exact_scope_selector@,
        a[j].exact_scope_selector@,
    ) by {
        if i < n && j < n {
            assert(a[i] == b[i] && a[j] == b[j]);
        } else if i < n {
            assert(a[i] == b[i]);
            assert(!slot_conflict(b, slot_verdicts, realm, scope, i));
            assert(slot_verdicts[i] is Disjoint);
            assert(overlaps(selector, b[i].exact_scope_selector@) == overlaps(
                b[i].exact_scope_selector@,
                selector,
            ));
        } else if j < n {
            assert(a[j] == b[j]);
            assert(!slot_conflict(b, slot_verdicts, realm, scope, j));
            assert(slot_verdicts[j] is Disjoint);
        }
    }
}

/// Two overlapping sagas cannot both win: whatever the create step answers,
/// the live scopes of the realm stay apart, for every symmetric overlap
/// relation that the grammar's rule never calls disjoint.
pub proof fn creating_keeps_scopes_disjoint<
    G: Fn(&str, &Json) -> Keyed + Copy,
    D: Fn(&DependencySet) -> String + Copy,
    B: Fn(&RealmBinding) -> String + Copy,
    O: Fn(&OwnerBinding) -> String + Copy,
    M: Fn(&SocietyMapping) -> String + Copy,
    V: Fn(&str, &str) -> Verdict,
>(
    before: Governance,
    after: Governance,
    journal: JournalView,
    after_journal: JournalView,
    realm: Seq<char>,
    args: EnableArgs,
    selector: Seq<char>,
    scope: Seq<char>,
    subject: Seq<char>,
    seen: Observed,
    realm_revision: Option<u64>,
    overlap: V,
    ids: EnableIds,
    seals: Seals<G, D, B, O, M>,
    r: Result<SagaReply, Problem>,
    overlaps: spec_fn(Seq<char>, Seq<char>) -> bool,
)
    requires
        create_done(
            before,
            after,
            journal,
            after_journal,
            realm,
            args,
            selector,
            scope,
            subject,
            seen,
            realm_revision,
            overlap,
            ids,
            seals,
            r,
        ),
        forall|a: &str, b: &str, v: Verdict| #[trigger]
            overlap.ensures((a, b), v) && v is Disjoint ==> !overlaps(a@, b@),
        forall|a: Seq<char>, b: Seq<char>| #[trigger] overlaps(a, b) == overlaps(b, a),
        scopes_disjoint(before.slots.rows@, realm, overlaps),
    ensures
        scopes_disjoint(after.slots.rows@, realm, overlaps),
{
    let (slot_verdicts, owner_verdicts) = choose|s: Seq<Verdict>, o: Seq<Verdict>|
        {
            &&& #[trigger] judged(before, selector, overlap, s, o)
            &&& create_outcome(
                before,
                after,
                journal,
                after_journal,
                realm,
                args,
                selector,
                scope,
                subject,
                seen,
                realm_revision,
                s,
                o,
                ids,
                seals,
                r,
            )
        };
    assert(verdicts_follow(before.slots.rows@, slot_verdicts, selector, overlaps)) by {
        assert forall|i: int|
            0 <= i < before.slots.rows@.len() && (
            #[trigger] slot_verdicts[i]) is Disjoint implies !overlaps(
            selector,
            before.slots.rows@[i].exact_scope_selector@,
        ) by {
            assert(judges(
                overlap,
                selector,
                before.slots.rows@[i].exact_scope_selector@,
                slot_verdicts[i],
            ));
        }
    }
    if after != before {
        opening_keeps_scopes_disjoint(
            before,
            after,
            realm,
            args,
            selector,
            scope,
            subject,
            seen,
            ids,
            slot_verdicts,
            owner_verdicts,
            overlaps,
        );
    }
}

/// An activation changes no slot's scope and makes no spent slot live again,
/// so it keeps the live scopes of the realm apart.
pub proof fn activation_keeps_scopes_disjoint(
    before: Governance,
    after: Governance,
    realm: Seq<char>,
    slot: Slot,
    overlaps: spec_fn(Seq<char>, Seq<char>) -> bool,
)
    requires
        before.wf(),
        before.slots@.contains_key(key1(slot.enablement_id@)),
        before.slots@[key1(slot.enablement_id@)].state is BindingsCreated,
        activated(before, after, realm, slot),
        scopes_disjoint(before.slots.rows@, realm, overlaps),
    ensures
        scopes_disjoint(after.slots.rows@, realm, overlaps),
{
    let b = before.slots.rows@;
    let a = after.slots.rows@;
    let p = crate::table::table_row(before.slots, key1(slot.enablement_id@));
    assert forall|i: int| 0 <= i < b.len() implies (#[trigger] a[i]).realm_ref == b[i].realm_ref
        && a[i].exact_scope_digest_hex == b[i].exact_scope_digest_hex && a[i].exact_scope_selector
        == b[i].exact_scope_selector && a[i].state.live() == b[i].state.live() by {
        if b[i].enablement_id@ == slot.enablement_id@ {
            assert(b[i].key() == b[p].key());
            assert(i == p);
        }
    }
    assert forall|i: int, j: int|
        0 <= i < a.len() && 0 <= j < a.len() && (#[trigger] a[i]).realm_ref@ == realm && (
        #[trigger] a[j]).realm_ref@ == realm && a[i].state.live() && a[j].state.live()
            && a[i].exact_scope_digest_hex@ != a[j].exact_scope_digest_hex@ implies !overlaps(
        a[i].exact_scope_selector@,
        a[j].exact_scope_selector@,
    ) by {
        assert(b[i].realm_ref@ == realm && b[j].realm_ref@ == realm);
    }
}

/// Nothing that a document of this kind (created) is made of is lost: each part
/// stands under its own name, and two documents are the same only if all parts are.
pub proof fn created_documents_are_told_apart(
    enablement_id: Seq<char>,
    binding_ref: Seq<char>,
    binding_epoch: u64,
    enablement_id2: Seq<char>,
    binding_ref2: Seq<char>,
    binding_epoch2: u64,
)
    requires
        created_document(enablement_id, binding_ref, binding_epoch)
            == created_document(enablement_id2, binding_ref2, binding_epoch2),
    ensures
        created_document(enablement_id, binding_ref, binding_epoch)->Object_0.contains(number_member("binding_epoch"@, binding_epoch)),
        crate::json::number_of(binding_epoch) == crate::json::number_of(binding_epoch2),
        created_document(enablement_id, binding_ref, binding_epoch)->Object_0.contains(text_member("binding_ref"@, binding_ref)),
        binding_ref == binding_ref2,
        created_document(enablement_id, binding_ref, binding_epoch)->Object_0.contains(text_member("enablement_id"@, enablement_id)),
        enablement_id == enablement_id2,
        created_document(enablement_id, binding_ref, binding_epoch)->Object_0.contains(text_member("state"@, "bindings_created"@)),
{
    let x = created_document(enablement_id, binding_ref, binding_epoch)->Object_0;
    let y = created_document(enablement_id2, binding_ref2, binding_epoch2)->Object_0;
    assert(x[0] == number_member("binding_epoch"@, binding_epoch));
    assert(x[0] == y[0]);
    assert(x[1] == text_member("binding_ref"@, binding_ref));
    assert(x[1] == y[1]);
    assert(x[2] == text_member("enablement_id"@, enablement_id));
    assert(x[2] == y[2]);
    assert(x[3] == text_member("state"@, "bindings_created"@));
}

/// Nothing that a document of this kind (activated) is made of is lost: each part
/// stands under its own name, and two documents are the same only if all parts are.
pub proof fn activated_documents_are_told_apart(
    slot: Slot,
    slot2: Slot,
)
    requires
        activated_document(slot)
            == activated_document(slot2),
    ensures
        activated_document(slot)->Object_0.contains(number_member("binding_epoch"@, slot.binding_epoch)),
        crate::json::number_of(slot.binding_epoch) == crate::json::number_of(slot2.binding_epoch),
        activated_document(slot)->Object_0.contains(text_member("binding_ref"@, slot.binding_ref@)),
        slot.binding_ref@ == slot2.binding_ref@,
        activated_document(slot)->Object_0.contains(text_member("enablement_id"@, slot.enablement_id@)),
        slot.enablement_id@ == slot2.enablement_id@,
        activated_document(slot)->Object_0.contains(text_member("governance_owner"@, "byom"@)),
        activated_document(slot)->Object_0.contains(text_member("state"@, "active"@)),
{
    let x = activated_document(slot)->Object_0;
    let y = activated_document(slot2)->Object_0;
    assert(x[0] == number_member("binding_epoch"@, slot.binding_epoch));
    assert(x[0] == y[0]);
    assert(x[1] == text_member("binding_ref"@, slot.binding_ref@));
    assert(x[1] == y[1]);
    assert(x[2] == text_member("enablement_id"@, slot.enablement_id@));
    assert(x[2] == y[2]);
    assert(x[3] == text_member("governance_owner"@, "byom"@));
    assert(x[4] == text_member("state"@, "active"@));
}

/// Nothing that a document of this kind (ended) is made of is lost: each part
/// stands under its own name, and two documents are the same only if all parts are.
pub proof fn ended_documents_are_told_apart(
    enablement_id: Seq<char>,
    binding_epoch: u64,
    state: Seq<char>,
    enablement_id2: Seq<char>,
    binding_epoch2: u64,
    state2: Seq<char>,
)
    requires
        ended_document(enablement_id, binding_epoch, state)
            == ended_document(enablement_id2, binding_epoch2, state2),
    ensures
        ended_document(enablement_id, binding_epoch, state)->Object_0.contains(number_member("binding_epoch"@, binding_epoch)),
        crate::json::number_of(binding_epoch) == crate::json::number_of(binding_epoch2),
        ended_document(enablement_id, binding_epoch, state)->Object_0.contains(text_member("enablement_id"@, enablement_id)),
        enablement_id == enablement_id2,
        ended_document(enablement_id, binding_epoch, state)->Object_0.contains(text_member("state"@, state)),
        state == state2,
{
    let x = ended_document(enablement_id, binding_epoch, state)->Object_0;
    let y = ended_document(enablement_id2, binding_epoch2, state2)->Object_0;
    assert(x[0] == number_member("binding_epoch"@, binding_epoch));
    assert(x[0] == y[0]);
    assert(x[1] == text_member("enablement_id"@, enablement_id));
    assert(x[1] == y[1]);
    assert(x[2] == text_member("state"@, state));
    assert(x[2] == y[2]);
}

/// What a scope's new epoch holds is what was asked for and seen: the society, the
/// endpoint at the incarnation that it showed, the selectors and the classification
/// that were given, pending until it is activated.
pub proof fn an_epoch_opens_as_asked(
    before: Governance,
    after: Governance,
    realm: Seq<char>,
    args: EnableArgs,
    selector: Seq<char>,
    scope: Seq<char>,
    subject: Seq<char>,
    seen: Observed,
    ids: EnableIds,
    other: Key,
)
    requires
        before.wf(),
        after.wf(),
        epoch_opened(before, after, realm, args, selector, scope, subject, seen, ids),
    ensures
        ({
            let s = after.slots@[key1(ids.enablement_id@)];
            let b = after.bindings@[key1(ids.binding_ref@)];
            let m = after.mappings@[key1(ids.mapping_id@)];
            let o = after.owners@[(realm, scope)];
            &&& after.slots@.contains_key(key1(ids.enablement_id@))
            &&& after.bindings@.contains_key(key1(ids.binding_ref@))
            &&& after.mappings@.contains_key(key1(ids.mapping_id@))
            &&& s.realm_ref@ == realm
            &&& s.exact_scope_digest_hex@ == scope
            &&& s.exact_scope_selector@ == selector
            &&& s.society_ref@ == args.society_ref@
            &&& s.society_recovery_epoch == seen.recovery_epoch
            &&& s.byom_endpoint_ref@ == args.byom_endpoint_ref@
            &&& s.endpoint_incarnation@ == seen.incarnation@
            &&& s.binding_ref@ == b.binding_ref@
            &&& s.mapping_id@ == m.mapping_id@
            &&& s.subject_digest_hex@ == subject
            &&& s.expected_owner_revision == o.revision
            &&& s.reason is None
            &&& b.realm_ref@ == realm
            &&& b.exact_scope_digest_hex@ == scope
            &&& b.byom_endpoint_ref@ == args.byom_endpoint_ref@
            &&& b.endpoint_incarnation@ == seen.incarnation@
            &&& b.binding_epoch == s.binding_epoch
            &&& b.binding_revision == 1
            &&& b.standing is Pending
            &&& m.realm_ref@ == realm
            &&& m.society_ref@ == args.society_ref@
            &&& m.society_recovery_epoch == seen.recovery_epoch
            &&& m.allowed_project_and_space_selectors@
                == args.allowed_project_and_space_selectors@
            &&& m.classification_binding_ref@ == args.classification_binding_ref@
            &&& m.governance_owner_binding_ref@ == b.binding_ref@
            &&& m.revision == 1
            &&& m.standing is Pending
            &&& o.binding_epoch == s.binding_epoch
            &&& o.governance_owner is Nobody
            &&& o.owner_endpoint_ref is None
            &&& o.owner_binding_ref is None
            &&& !o.frozen
            &&& match current(before.slots.rows@, realm, scope) {
                Some(earlier) => {
                    &&& s.binding_epoch == earlier.binding_epoch + 1
                    &&& b.predecessor_binding_ref is Some
                    &&& b.predecessor_binding_ref->0@ == earlier.binding_ref@
                },
                None => s.binding_epoch == 1 && b.predecessor_binding_ref is None,
            }
            &&& match owner_of(before, realm, scope) {
                Some(row) => o.revision == row.revision + 1 && o.exact_scope_selector@
                    == row.exact_scope_selector@,
                None => o.revision == 1 && o.exact_scope_selector@ == selector,
            }
        }),
        before.slots@.contains_key(other) ==> after.slots@[other] == before.slots@[other],
        before.bindings@.contains_key(other) ==> after.bindings@[other] == before.bindings@[other],
        before.mappings@.contains_key(other) ==> after.mappings@[other] == before.mappings@[other],
        other != (realm, scope) && before.owners@.contains_key(other) ==> after.owners@[other]
            == before.owners@[other],
{
    crate::table::table_pushed(before.slots, after.slots, after.slots.rows@.last());
    crate::table::table_pushed(before.bindings, after.bindings, after.bindings.rows@.last());
    crate::table::table_pushed(before.mappings, after.mappings, after.mappings.rows@.last());
}

/// What the human confirms, and what the enablement depends on, is this command:
/// its realm, society, endpoint and scope as they were seen.
pub proof fn a_subject_is_the_command(
    s: EnableSubject,
    d: DependencySet,
    realm: Seq<char>,
    realm_revision: u64,
    args: EnableArgs,
    selector: Seq<char>,
    seen: Observed,
)
    requires
        subject_of_command(s, realm, args, selector, seen),
        depends_on(d, realm, realm_revision, args, seen),
    ensures
        s.realm_ref@ == realm,
        s.society_ref@ == args.society_ref@,
        s.society_recovery_epoch == seen.recovery_epoch,
        s.byom_endpoint_ref@ == args.byom_endpoint_ref@,
        s.endpoint_incarnation@ == seen.incarnation@,
        s.exact_scope_selector@ == selector,
        s.owner_binding_transition@ == "none->byom"@,
        d.realm_ref@ == realm,
        d.realm_revision == realm_revision,
        d.society_ref@ == args.society_ref@,
        d.society_recovery_epoch == seen.recovery_epoch,
        d.byom_endpoint_ref@ == args.byom_endpoint_ref@,
        d.endpoint_incarnation@ == seen.incarnation@,
        d.expected_binding_ref is Some <==> args.expected_binding_ref is Some,
        args.expected_binding_ref is Some ==> d.expected_binding_ref->0@
            == args.expected_binding_ref->0@,
{
}

/// The answer to a step names the slot that it is about. While the scope is pending
/// or active it says which subject was confirmed and which society it is of; a
/// reason stands in the answer of a rolled back one only.
pub proof fn an_answer_names_its_slot(
    reply: SagaReply,
    slot: Slot,
    state: SlotState,
    reason: Option<Seq<char>>,
    revision: int,
)
    requires
        told(reply, slot, state, reason, revision),
    ensures
        reply.enablement_id@ == slot.enablement_id@,
        reply.binding_ref@ == slot.binding_ref@,
        reply.mapping_id@ == slot.mapping_id@,
        reply.binding_epoch == slot.binding_epoch,
        reply.revision == revision,
        reply.state == state,
        state is Active || state is BindingsCreated ==> {
            &&& reply.subject_digest is Some
            &&& reply.subject_digest->0@ == slot.subject_digest_hex@
            &&& reply.society is Some
            &&& reply.society->0.society_ref@ == slot.society_ref@
            &&& reply.society->0.recovery_epoch == slot.society_recovery_epoch
            &&& reply.reason is None
        },
        state is RolledBack || state is Disabled ==> reply.subject_digest is None
            && reply.society is None,
        state is RolledBack && reason is Some ==> reply.reason is Some && reply.reason->0@
            == reason->0,
        state is Disabled ==> reply.reason is None,
{
}

/// A scope that is owned, or whose owner is at another revision than was expected,
/// opens no epoch; a frozen owner at the expected revision is no hindrance.
pub proof fn an_owner_is_met_at_its_revision(owner: Option<OwnerBinding>, expected: u64)
    ensures
        owner_refusal(owner, expected) is None <==> match owner {
            None => expected == 0,
            Some(row) => expected == row.revision && (row.frozen || row.governance_owner is Nobody),
        },
        owner is Some && owner->0.governance_owner is Byom && !owner->0.frozen ==> owner_refusal(
            owner,
            expected,
        )->0.kind is Forbidden,
{
}

/// A slot is for the command that names its society, its endpoint, its scope and,
/// where one is expected, its binding.
pub proof fn a_slot_is_for_its_target(slot: Slot, args: EnableArgs)
    ensures
        targets(slot, args) <==> {
            &&& args.society_ref@ == slot.society_ref@
            &&& args.byom_endpoint_ref@ == slot.byom_endpoint_ref@
            &&& args.exact_scope_selector@ == slot.exact_scope_selector@
            &&& args.expected_binding_ref is Some ==> args.expected_binding_ref->0@
                == slot.binding_ref@
        },
{
}

/// The current slot of a scope is of that scope, and none of the scope has a later
/// epoch.
pub proof fn the_current_slot_is_the_latest(gov: Governance, realm: Seq<char>, scope: Seq<char>, i: int)
    requires
        0 <= i < gov.slots.rows@.len(),
        gov.slots.rows@[i].realm_ref@ == realm,
        gov.slots.rows@[i].exact_scope_digest_hex@ == scope,
    ensures
        current(gov.slots.rows@, realm, scope) is Some,
        ({
            let s = current(gov.slots.rows@, realm, scope)->0;
            &&& s.realm_ref@ == realm
            &&& s.exact_scope_digest_hex@ == scope
            &&& gov.slots.rows@[i].binding_epoch <= s.binding_epoch
            &&& next_epoch(gov.slots.rows@, realm, scope) > gov.slots.rows@[i].binding_epoch
        }),
{
    let slots = gov.slots.rows@;
    assert(of_scope(slots[i], realm, scope));
    assert(scope_known(slots, realm, scope));
    current_exists(slots, realm, scope);
}

/// An activation takes the scope for byom: the owner names the slot's endpoint and
/// binding, one revision on; the binding and the mapping stand, one revision on;
/// the slot is active. Nothing else of them changes, and nothing of any other.
pub proof fn an_activation_takes_the_scope(
    before: Governance,
    after: Governance,
    realm: Seq<char>,
    slot: Slot,
    other: Key,
)
    requires
        activated(before, after, realm, slot),
        before.owners@[(realm, slot.exact_scope_digest_hex@)].revision < u64::MAX,
        before.bindings@[key1(slot.binding_ref@)].binding_revision < u64::MAX,
        before.mappings@[key1(slot.mapping_id@)].revision < u64::MAX,
    ensures
        ({
            let ok: Key = (realm, slot.exact_scope_digest_hex@);
            let o = before.owners@[ok];
            let p = after.owners@[ok];
            let b = before.bindings@[key1(slot.binding_ref@)];
            let c = after.bindings@[key1(slot.binding_ref@)];
            let m = before.mappings@[key1(slot.mapping_id@)];
            let n = after.mappings@[key1(slot.mapping_id@)];
            let s = before.slots@[key1(slot.enablement_id@)];
            let t = after.slots@[key1(slot.enablement_id@)];
            &&& p.governance_owner is Byom
            &&& p.revision == o.revision + 1
            &&& !p.frozen
            &&& p.owner_endpoint_ref is Some
            &&& p.owner_endpoint_ref->0@ == slot.byom_endpoint_ref@
            &&& p.owner_binding_ref is Some
            &&& p.owner_binding_ref->0@ == slot.binding_ref@
            &&& p.exact_scope_selector == o.exact_scope_selector
            &&& p.binding_epoch == o.binding_epoch
            &&& c.standing is Active
            &&& c.binding_revision == b.binding_revision + 1
            &&& c.byom_endpoint_ref == b.byom_endpoint_ref
            &&& c.endpoint_incarnation == b.endpoint_incarnation
            &&& c.binding_epoch == b.binding_epoch
            &&& c.predecessor_binding_ref == b.predecessor_binding_ref
            &&& n.standing is Active
            &&& n.revision == m.revision + 1
            &&& n.society_ref == m.society_ref
            &&& n.society_recovery_epoch == m.society_recovery_epoch
            &&& n.allowed_project_and_space_selectors == m.allowed_project_and_space_selectors
            &&& n.classification_binding_ref == m.classification_binding_ref
            &&& t.state is Active
            &&& t.binding_ref == s.binding_ref
            &&& t.subject_digest_hex == s.subject_digest_hex
            &&& t.binding_epoch == s.binding_epoch
        }),
        other != (realm, slot.exact_scope_digest_hex@) && before.owners@.contains_key(other)
            ==> after.owners@[other] == before.owners@[other],
        other != key1(slot.binding_ref@) && before.bindings@.contains_key(other)
            ==> after.bindings@[other] == before.bindings@[other],
        other != key1(slot.mapping_id@) && before.mappings@.contains_key(other)
            ==> after.mappings@[other] == before.mappings@[other],
        other != key1(slot.enablement_id@) && before.slots@.contains_key(other)
            ==> after.slots@[other] == before.slots@[other],
{
}

/// An activation is for a slot that is still the pending one of its scope, whose
/// owner is nobody's at the revision and the epoch that the slot was made at.
pub proof fn an_activation_needs_the_pending_slot(
    gov: Governance,
    realm: Seq<char>,
    slot: Slot,
    selector_fault: Option<Seq<char>>,
)
    ensures
        activation_refusal(gov, realm, slot, selector_fault) is None <==> {
            let scope = slot.exact_scope_digest_hex@;
            let now = current(gov.slots.rows@, realm, scope);
            let owner = gov.owners@[(realm, scope)];
            &&& now is Some
            &&& now->0.enablement_id@ == slot.enablement_id@
            &&& now->0.state is BindingsCreated
            &&& gov.owners@.contains_key((realm, scope))
            &&& owner.governance_owner is Nobody
            &&& owner.revision == slot.expected_owner_revision
            &&& owner.binding_epoch == slot.binding_epoch
            &&& selector_fault is None
        },
{
}

/// A rollback voids the pending pair and ends its slot with the reason; the owner
/// stays as it was. It is for the pending slot of its scope, answers the stored
/// reason where the slot was rolled back already, and is refused once the scope is
/// active.
pub proof fn a_rollback_ends_what_is_pending(
    before: Governance,
    after: Governance,
    journal: JournalView,
    after_journal: JournalView,
    realm: Seq<char>,
    slot: Slot,
    reason: Seq<char>,
    r: Result<SagaReply, Problem>,
)
    requires
        rollback_outcome(
            before,
            after,
            journal,
            after_journal,
            realm,
            slot,
            reason,
            r,
        ),
    ensures
        r is Ok <==> {
            let now = current(before.slots.rows@, realm, slot.exact_scope_digest_hex@);
            &&& now is Some
            &&& now->0.enablement_id@ == slot.enablement_id@
            &&& now->0.state !is Active
            &&& now->0.state !is Disabled
        },
        r is Err ==> after == before && after_journal == journal,
        r is Ok ==> r->Ok_0.state is RolledBack,
        r is Ok && current(
            before.slots.rows@,
            realm,
            slot.exact_scope_digest_hex@,
        )->0.state is RolledBack ==> after == before && after_journal == journal,
        r is Ok && current(
            before.slots.rows@,
            realm,
            slot.exact_scope_digest_hex@,
        )->0.state is BindingsCreated ==> {
            let s = after.slots@[key1(slot.enablement_id@)];
            &&& s.state is RolledBack
            &&& s.reason is Some
            &&& s.reason->0@ == reason
            &&& r->Ok_0.reason is Some
            &&& r->Ok_0.reason->0@ == reason
            &&& before.bindings@.contains_key(key1(slot.binding_ref@))
                ==> after.bindings@[key1(slot.binding_ref@)].standing is Void
            &&& before.mappings@.contains_key(key1(slot.mapping_id@))
                ==> after.mappings@[key1(slot.mapping_id@)].standing is Void
            &&& after.owners == before.owners
            &&& after_journal.events == journal.events.push(after_journal.events.last())
            &&& after_journal.events.last().kind is GovernanceRolledBack
            &&& after_journal.events.last().resource_ref == slot.binding_ref@
        },
{
}

/// An active binding can be disabled by who confirms its subject and expects its
/// owner's revision: the owner is frozen with its arm kept, the pair is void, the
/// slot is disabled, and the credentials of the binding no longer hold.
pub proof fn a_disable_is_confirmed<
    O: Fn(&OwnerBinding) -> String,
    B: Fn(&RealmBinding) -> String,
>(
    gov: Governance,
    gov_after: Governance,
    ledger: Ledger,
    ledger_after: Ledger,
    journal: JournalView,
    journal_after: JournalView,
    realm: Seq<char>,
    args: DisableArgs,
    seal_owner: O,
    seal_binding: B,
    now: i64,
    r: Result<SagaReply, Problem>,
    i: int,
    k: int,
)
    requires
        disable_outcome(
            gov,
            gov_after,
            ledger,
            ledger_after,
            journal,
            journal_after,
            realm,
            args,
            seal_owner,
            seal_binding,
            now,
            r,
        ),
        first_of_binding(gov.slots.rows@, realm, args.binding_ref@, i),
        gov.owners@[(realm, gov.slots.rows@[i].exact_scope_digest_hex@)].revision < u64::MAX,
        0 <= k < ledger.rows@.len(),
    ensures
        r is Err ==> gov_after == gov && ledger_after == ledger && journal_after == journal,
        r is Ok <==> {
            let slot = gov.slots.rows@[i];
            let ok: Key = (realm, slot.exact_scope_digest_hex@);
            &&& slot.state is Active
            &&& args.confirmed_subject_digest@ == slot.subject_digest_hex@
            &&& gov.owners@.contains_key(ok)
            &&& gov.owners@[ok].revision == args.expected_owner_revision
            &&& !gov.owners@[ok].frozen
            &&& gov.bindings@.contains_key(key1(slot.binding_ref@))
        },
        r is Ok ==> {
            let slot = gov.slots.rows@[i];
            let ok: Key = (realm, slot.exact_scope_digest_hex@);
            let o = gov.owners@[ok];
            let p = gov_after.owners@[ok];
            &&& p.frozen
            &&& p.revision == o.revision + 1
            &&& r->Ok_0.revision == p.revision
            &&& r->Ok_0.state is Disabled
            &&& p.governance_owner == o.governance_owner
            &&& p.owner_endpoint_ref == o.owner_endpoint_ref
            &&& p.owner_binding_ref == o.owner_binding_ref
            &&& gov_after.bindings@[key1(slot.binding_ref@)].standing is Void
            &&& gov.mappings@.contains_key(key1(slot.mapping_id@))
                ==> gov_after.mappings@[key1(slot.mapping_id@)].standing is Void
            &&& gov_after.slots@[key1(slot.enablement_id@)].state is Disabled
            &&& invalidated(
                ledger.rows@[k],
                ledger_after.rows@[k],
                slot.binding_ref@,
                "governance_disable"@,
                now,
            )
            &&& journal_after.events == journal.events.push(journal_after.events.last())
            &&& journal_after.events.last().kind is GovernanceDisabled
            &&& journal_after.events.last().resource_ref == slot.binding_ref@
        },
{
    assert(args.binding_ref@ == gov.slots.rows@[i].binding_ref@);
    if r is Ok {
        let slot = gov.slots.rows@[i];
        assert(invalidated(
            ledger.rows@[k],
            ledger_after.rows@[k],
            slot.binding_ref@,
            "governance_disable"@,
            now,
        ));
    }
}

/// Byom is taken for what it shows: an active society at the incarnation that it
/// greets with. A failed greeting or question is passed on as it came.
pub proof fn byom_is_seen_as_it_shows(
    hello: Result<String, Problem>,
    society: SocietyAsked,
    r: Result<Observed, Problem>,
)
    requires
        observe_outcome(hello, society, r),
    ensures
        r is Ok <==> hello is Ok && society is Shown && society->Shown_0.active,
        r is Ok ==> r->Ok_0.incarnation == hello->Ok_0 && r->Ok_0.recovery_epoch
            == society->Shown_0.recovery_epoch,
        hello is Err ==> r is Err && r->Err_0 == hello->Err_0,
        hello is Ok && society is Failed ==> r is Err && r->Err_0 == society->Failed_0,
        hello is Ok && society is Absent ==> r is Err && r->Err_0@.kind is Forbidden,
        r is Ok <==> observe_refusal(hello, society) is None,
{
}

/// A pending epoch is found unchanged where byom greets at its incarnation and shows
/// its society active at its recovery epoch. An answer that differs is definite, and
/// no answer leaves it unknown.
pub proof fn a_pending_epoch_is_verified(
    hello: Asked<String>,
    society: Asked<SocietyView>,
    slot: Slot,
    v: Verification,
)
    requires
        verified(hello, society, slot, v),
    ensures
        v is Unchanged <==> {
            &&& hello is Answer
            &&& hello->Answer_0@ == slot.endpoint_incarnation@
            &&& society is Answer
            &&& society->Answer_0.active
            &&& society->Answer_0.recovery_epoch == slot.society_recovery_epoch
        },
        v is Unknown <==> hello is Silent || (hello is Answer && hello->Answer_0@
            == slot.endpoint_incarnation@ && society is Silent),
        hello is Silent ==> v->Unknown_0 == hello->Silent_0,
{
}

/// What beginning to enable comes to: a fault is refused, the first one; a scope
/// that is active for the target is answered as it stands; any other goes on.
pub proof fn an_enable_begins_by_what_stands(
    gov: Governance,
    realm: Seq<char>,
    args: EnableArgs,
    faults: Vec<Option<String>>,
    scope: Seq<char>,
    r: Result<EnableStep, Problem>,
    i: int,
)
    requires
        enable_begin_outcome(gov, realm, args, faults, scope, r),
    ensures
        0 <= i < faults@.len() && faults@[i] is Some ==> r is Err,
        r is Err ==> exists|j: int| 0 <= j < faults@.len() && (#[trigger] faults@[j]) is Some,
        r is Ok ==> (r->Ok_0 is Reply <==> {
            &&& current(gov.slots.rows@, realm, scope) is Some
            &&& current(gov.slots.rows@, realm, scope)->0.state is Active
            &&& targets(current(gov.slots.rows@, realm, scope)->0, args)
        }),
        r is Ok && r->Ok_0 is Reply ==> r->Ok_0->Reply_0.enablement_id@ == current(
            gov.slots.rows@,
            realm,
            scope,
        )->0.enablement_id@,
{
    a_fault_is_found(faults@, i);
}

/// A fault is found wherever it stands, and none where there is none.
pub proof fn a_fault_is_found(faults: Seq<Option<String>>, i: int)
    ensures
        0 <= i < faults.len() && faults[i] is Some ==> first_fault(faults) is Some,
        first_fault(faults) is Some ==> exists|j: int|
            {
                &&& 0 <= j < faults.len()
                &&& (#[trigger] faults[j]) is Some
                &&& faults[j]->0@ == first_fault(faults)->0
                &&& forall|k: int| 0 <= k < j ==> (#[trigger] faults[k]) is None
            },
    decreases faults.len(),
{
    if faults.len() > 0 && faults[0] is None {
        let rest = faults.skip(1);
        a_fault_is_found(rest, i - 1);
        if 1 <= i < faults.len() {
            assert(rest[i - 1] == faults[i]);
        }
        if first_fault(rest) is Some {
            let j = choose|j: int|
                {
                    &&& 0 <= j < rest.len()
                    &&& (#[trigger] rest[j]) is Some
                    &&& rest[j]->0@ == first_fault(rest)->0
                    &&& forall|k: int| 0 <= k < j ==> (#[trigger] rest[k]) is None
                };
            assert(faults[j + 1] == rest[j]);
            assert forall|k: int| 0 <= k < j + 1 implies (#[trigger] faults[k]) is None by {
                if k > 0 {
                    assert(rest[k - 1] is None);
                }
            }
        }
    } else if faults.len() > 0 {
        assert(faults[0] is Some);
    }
}

/// Going on with an enablement goes by what became of it: an active one is answered,
/// a pending one goes on, and a spent or a disabled one is refused for good.
pub proof fn an_enable_goes_on_by_its_state(
    gov: Governance,
    realm: Seq<char>,
    scope: Seq<char>,
    r: Result<EnableStep, Problem>,
    s: Slot,
)
    requires
        enable_resume_outcome(gov, realm, scope, r),
        current(gov.slots.rows@, realm, scope) == Some(s),
    ensures
        s.state is Active <==> r is Ok && r->Ok_0 is Reply,
        s.state is BindingsCreated <==> r is Ok && r->Ok_0 is Proceed,
        s.state is RolledBack || s.state is Disabled <==> r is Err,
        r is Err ==> r->Err_0@.kind is Forbidden,
        s.state is Active ==> r->Ok_0->Reply_0.binding_ref@ == s.binding_ref@
            && r->Ok_0->Reply_0.revision == s.expected_owner_revision + 1,
{
}

/// Enabling a realm shows the slots of that realm, of the named binding where one is
/// named, all of them once and by their epochs; byom owns it where one of them is
/// active.
pub proof fn governance_is_shown_of_its_realm(
    gov: Governance,
    realm: Seq<char>,
    want: Option<String>,
    r: Result<GovernanceListing, Problem>,
    a: int,
    b: int,
    i: int,
)
    requires
        governance_show_outcome(gov, realm, want, r),
    ensures
        want is None ==> r is Ok,
        r is Ok && 0 <= a < r->Ok_0.enablements@.len() ==> {
            let s = gov.slots.rows@[r->Ok_0.enablements@[a] as int];
            &&& s.realm_ref@ == realm
            &&& want is Some ==> s.binding_ref@ == want->0@
            &&& s.state is Active ==> r->Ok_0.governance_owner is Byom
        },
        r is Ok && 0 <= a < b < r->Ok_0.enablements@.len()
            ==> gov.slots.rows@[r->Ok_0.enablements@[a] as int].binding_epoch
            <= gov.slots.rows@[r->Ok_0.enablements@[b] as int].binding_epoch,
        0 <= i < gov.slots.rows@.len() && gov.slots.rows@[i].realm_ref@ == realm && (want is Some
            ==> gov.slots.rows@[i].binding_ref@ == want->0@) ==> r is Ok
            && r->Ok_0.enablements@.contains(i as usize),
        r is Ok && r->Ok_0.governance_owner is Byom ==> exists|j: int|
            0 <= j < gov.slots.rows@.len() && (#[trigger] gov.slots.rows@[j]).state is Active
                && gov.slots.rows@[j].realm_ref@ == realm,
{
    if r is Ok && 0 <= a < r->Ok_0.enablements@.len() {
        assert(r->Ok_0.enablements@[a] < gov.slots.rows@.len());
        assert(shown(
            gov.slots.rows@[r->Ok_0.enablements@[a] as int],
            realm,
            opt_view(want),
        ));
    }
    if r is Ok && 0 <= a < b < r->Ok_0.enablements@.len() {
        assert(listed_before(
            gov.slots.rows@[r->Ok_0.enablements@[a] as int],
            gov.slots.rows@[r->Ok_0.enablements@[b] as int],
        ));
    }
    if 0 <= i < gov.slots.rows@.len() && gov.slots.rows@[i].realm_ref@ == realm && (want is Some
        ==> gov.slots.rows@[i].binding_ref@ == want->0@) {
        assert(shown(gov.slots.rows@[i], realm, opt_view(want)));
    }
}

/// The seam of a realm is a binding and a mapping that stand, of an active slot of
/// that realm; and where such a slot is there, so is a seam.
pub proof fn a_seam_is_of_an_active_slot(gov: Governance, realm: Seq<char>, i: int)
    ensures
        seam_of(gov, realm) is Some ==> {
            &&& (seam_of(gov, realm)->0).0.standing is Active
            &&& (seam_of(gov, realm)->0).1.standing is Active
            &&& exists|j: int|
                {
                    &&& 0 <= j < gov.slots.rows@.len()
                    &&& (#[trigger] gov.slots.rows@[j]).realm_ref@ == realm
                    &&& gov.slots.rows@[j].state is Active
                    &&& gov.bindings@[key1(gov.slots.rows@[j].binding_ref@)] == (seam_of(
                        gov,
                        realm,
                    )->0).0
                    &&& gov.mappings@[key1(gov.slots.rows@[j].mapping_id@)] == (seam_of(
                        gov,
                        realm,
                    )->0).1
                }
        },
        0 <= i < gov.slots.rows@.len() && slot_seam(gov, realm, gov.slots.rows@[i]) is Some
            ==> seam_of(gov, realm) is Some,
{
    a_seam_is_found(gov, realm, 0, i);
}

proof fn a_seam_is_found(gov: Governance, realm: Seq<char>, n: int, i: int)
    requires
        0 <= n,
    ensures
        seam_from(gov, realm, n) is Some ==> exists|j: int|
            {
                &&& n <= j < gov.slots.rows@.len()
                &&& slot_seam(gov, realm, #[trigger] gov.slots.rows@[j]) == seam_from(gov, realm, n)
            },
        n <= i < gov.slots.rows@.len() && slot_seam(gov, realm, gov.slots.rows@[i]) is Some
            ==> seam_from(gov, realm, n) is Some,
    decreases gov.slots.rows@.len() - n,
{
    if n < gov.slots.rows@.len() {
        a_seam_is_found(gov, realm, n + 1, i);
        if slot_seam(gov, realm, gov.slots.rows@[n]) is Some {
            assert(slot_seam(gov, realm, gov.slots.rows@[n]) == seam_from(gov, realm, n));
        }
    }
}

/// A conflict is with another scope of the same realm that is live or owned: never
/// with the scope itself, never with another realm, and never where the selectors
/// are disjoint.
pub proof fn a_conflict_is_with_another_scope(
    gov: Governance,
    slot_verdicts: Seq<Verdict>,
    owner_verdicts: Seq<Verdict>,
    realm: Seq<char>,
    own: Seq<char>,
    i: int,
)
    ensures
        slot_conflict(gov.slots.rows@, slot_verdicts, realm, own, i) <==> {
            &&& 0 <= i < gov.slots.rows@.len()
            &&& gov.slots.rows@[i].realm_ref@ == realm
            &&& gov.slots.rows@[i].exact_scope_digest_hex@ != own
            &&& gov.slots.rows@[i].state is Active || gov.slots.rows@[i].state is BindingsCreated
            &&& slot_verdicts[i] is Overlapping || slot_verdicts[i] is Malformed
        },
        owner_conflict(gov.owners.rows@, owner_verdicts, realm, own, i) <==> {
            &&& 0 <= i < gov.owners.rows@.len()
            &&& gov.owners.rows@[i].realm_ref@ == realm
            &&& gov.owners.rows@[i].exact_scope_digest_hex@ != own
            &&& gov.owners.rows@[i].governance_owner is Byom
            &&& !gov.owners.rows@[i].frozen
            &&& owner_verdicts[i] is Overlapping || owner_verdicts[i] is Malformed
        },
{
}

/// A new binding speaks to its endpoint under two audiences of its own.
pub proof fn a_binding_has_its_own_audiences(
    b: RealmBinding,
    gov: Governance,
    realm: Seq<char>,
    args: EnableArgs,
    scope: Seq<char>,
    seen: Observed,
    ids: EnableIds,
)
    requires
        created_binding(b, gov, realm, args, scope, seen, ids),
    ensures
        b.delegated_principal_audience@ == "byom:"@ + args.byom_endpoint_ref@ + ":governance"@,
        b.external_authorization_audience@ == "byom:"@ + args.byom_endpoint_ref@
            + ":external-authorization"@,
        b.delegated_principal_audience@ != b.external_authorization_audience@,
        b.standing is Pending,
        b.binding_revision == 1,
{
    reveal_strlit("byom:");
    reveal_strlit(":governance");
    reveal_strlit(":external-authorization");
    assert(":governance"@.len() == 11);
    assert(":external-authorization"@.len() == 23);
    assert(b.delegated_principal_audience@.len() == 5 + args.byom_endpoint_ref@.len() + 11);
    assert(b.external_authorization_audience@.len() == 5 + args.byom_endpoint_ref@.len() + 23);
}

/// What is confirmed and what a binding depends on are of the mapping's first
/// revision.
pub proof fn a_mapping_is_confirmed_at_its_first_revision(
    s: EnableSubject,
    d: DependencySet,
    realm: Seq<char>,
    realm_revision: u64,
    args: EnableArgs,
    selector: Seq<char>,
    seen: Observed,
)
    requires
        subject_of_command(s, realm, args, selector, seen),
        depends_on(d, realm, realm_revision, args, seen),
    ensures
        s.society_mapping_revision == 1,
        d.society_mapping_revision == 1,
        s.owner_binding_transition@ == "none->byom"@,
        d.society_ref@ == s.society_ref@,
        d.society_recovery_epoch == s.society_recovery_epoch,
        d.byom_endpoint_ref@ == s.byom_endpoint_ref@,
        d.endpoint_incarnation@ == s.endpoint_incarnation@,
        d.realm_revision == realm_revision,
        opt_view(d.expected_binding_ref) == opt_view(args.expected_binding_ref),
{
}

/// A mapping pins the row of its owner by that row's digest, when it is made and
/// again when it is activated.
pub proof fn a_mapping_pins_its_owner<
    G: Fn(&str, &Json) -> Keyed + Copy,
    D: Fn(&DependencySet) -> String + Copy,
    B: Fn(&RealmBinding) -> String + Copy,
    O: Fn(&OwnerBinding) -> String + Copy,
    M: Fn(&SocietyMapping) -> String + Copy,
>(
    made: Governance,
    active: Governance,
    realm: Seq<char>,
    scope: Seq<char>,
    realm_revision: u64,
    args: EnableArgs,
    seen: Observed,
    slot: Slot,
    seals: Seals<G, D, B, O, M>,
)
    requires
        epoch_sealed(made, realm, scope, realm_revision, args, seen, seals),
        activation_sealed(active, realm, slot, seals),
    ensures
        made.mappings.rows@.last().governance_owner_binding_digest@ == made.owners@[(
            realm,
            scope,
        )].digest@,
        active.mappings@[key1(slot.mapping_id@)].governance_owner_binding_digest@
            == active.owners@[(realm, slot.exact_scope_digest_hex@)].digest@,
        mapping_sealed(seals.mapping, made.mappings.rows@.last()),
        owner_sealed(seals.owner, made.owners@[(realm, scope)]),
        binding_sealed(seals.binding, made.bindings.rows@.last()),
        keyed_text(
            seals.keyed,
            "kovee-recovery-policy-v1"@,
            recovery_policy_document(),
            made.bindings.rows@.last().recovery_authorization_policy_digest@,
        ),
        dependencies_digested(
            seals.dependencies,
            realm,
            realm_revision,
            args,
            seen,
            made.bindings.rows@.last().dependency_digest@,
        ),
{
}

/// A binding's recovery is off, and its policy says so.
pub proof fn a_recovery_policy_is_off()
    ensures
        recovery_policy_document()->Object_0.contains(text_member("mode"@, "disabled"@)),
        recovery_policy_document()->Object_0.contains(
            text_member("policy_ref"@, "recovery-policy-personal-none"@),
        ),
{
    let p = recovery_policy_document()->Object_0;
    assert(p[0] == text_member("mode"@, "disabled"@));
    assert(p[1] == text_member("policy_ref"@, "recovery-policy-personal-none"@));
}

/// The revision of a realm is its own, where it is on record.
pub proof fn a_realm_has_its_revision(realms: Table<Realm>, realm: Seq<char>)
    ensures
        realms@.contains_key(key1(realm)) ==> revision_of(realms, realm) == Some(
            realms@[key1(realm)].revision,
        ),
        !realms@.contains_key(key1(realm)) ==> revision_of(realms, realm) is None,
{
}

} // verus!
