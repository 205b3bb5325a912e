//! The hosted-episode pipeline: a notified allocation is placed, byom admits
//! the placement, the episode is requested, claimed and started, and from then
//! on every mutation presents both fences.
//!
//! No stage is skipped: a placement without an admission starts nothing, and a
//! binding whose fences were once missed never advances again.

use vstd::prelude::*;

use crate::budget::{reservation_of_bridge, Reservations};
use crate::digests::{asked, keys_agree, keyed_hex, keyed_text, keys_all, Keyed};
use crate::governance::{active_seam, seam_of, Governance, RealmBinding, SocietyMapping};
use crate::journal::{Actor, ActorView, EventKind, EventView, Journal, JournalView, NewEvent};
use crate::json::{list_of_texts, members, nullable, nullable_text, number_member, object, put,
    put_number, put_text, read_stored, stored, text_list, text_member, Json, JsonView};
use crate::listing::{by_two, by_two_weak, comes_first, order, ordered_listing, Listed};
use crate::problem::{internal, internal_view, not_found, not_found_view, problem, refusal_with,
    Problem, ProblemKind, ProblemView};
use crate::table::{key1, Key, Row, Table};
use crate::text::{cat2, cat3, cat4, decimal, decimal_of, opt_view, quoted, quoted_text, same,
    views};

use vstd::string::*;

verus! {

/// What byom told this daemon: an episode is eligible and its resources are
/// allocated. None of it is authored here.
#[derive(Debug)]
pub struct Notice {
    pub society_ref: String,
    pub recovery_epoch: u64,
    pub participant_ref: String,
    pub participant_binding_epoch: u64,
    pub manifestation_ref: String,
    pub activity_stream_ref: String,
    pub generation: u64,
    pub resource_allocation_ref: String,
    pub mandate_use_refs: Vec<String>,
    pub byom_budget_reservation_ref: String,
    pub external_budget_bridge_ref: String,
    pub context_manifest_ref: String,
}

/// The pair that every mutation of an episode presents.
#[derive(Debug, Clone, Copy, PartialEq, Eq, Structural)]
pub struct Fences {
    pub byom: u64,
    pub kovee: u64,
}

/// One authored placement. It is admitted once byom's admission is recorded.
#[derive(Debug)]
pub struct PlacementRow {
    pub placement_id: String,
    pub realm_ref: String,
    pub revision: u64,
    pub resource_allocation_ref: String,
    pub resource_allocation_digest: String,
    pub selected_manifestation_ref: String,
    pub selected_manifestation_digest: String,
    pub host_runtime_binding: String,
    pub kovee_invocation_ref: String,
    pub placement_constraint_digest: String,
    pub kovee_fence_epoch: u64,
    pub started: bool,
    pub created_at: String,
    pub digest: String,
    pub admission_ref: Option<String>,
    pub admission_digest: Option<String>,
    pub admitted_at: Option<String>,
}

impl Row for PlacementRow {
    open spec fn key(&self) -> Key {
        key1(self.placement_id@)
    }

    fn has_key(&self, a: &str, b: &str) -> (r: bool) {
        proof {
            crate::text::empty_is(b@);
        }
        same(self.placement_id.as_str(), a) && b.is_empty()
    }
}

#[derive(Debug, Clone, Copy, PartialEq, Eq, Structural)]
pub enum BindingState {
    Bound,
    Fenced,
    Released,
}

impl BindingState {
    pub open spec fn name(self) -> Seq<char> {
        match self {
            BindingState::Bound => "bound"@,
            BindingState::Fenced => "fenced"@,
            BindingState::Released => "released"@,
        }
    }

    pub fn as_str(self) -> (r: &'static str)
        ensures
            r@ == self.name(),
    {
        match self {
            BindingState::Bound => "bound",
            BindingState::Fenced => "fenced",
            BindingState::Released => "released",
        }
    }
}

#[derive(Debug, Clone, Copy, PartialEq, Eq, Structural)]
pub enum EpisodeState {
    Running,
    Yielded,
    Completed,
}

/// One bound episode attempt. A fenced row stays for audit.
#[derive(Debug)]
pub struct EpisodeBinding {
    pub stable_binding_key: String,
    pub realm_ref: String,
    pub placement_id: String,
    pub byom_endpoint_ref: String,
    pub endpoint_incarnation: String,
    pub society_ref: String,
    pub recovery_epoch: u64,
    pub participant_ref: String,
    pub participant_binding_epoch: u64,
    pub manifestation_ref: String,
    pub activity_stream_ref: String,
    pub episode_ref: String,
    pub generation: u64,
    pub byom_attempt_ref: String,
    pub fences: Fences,
    pub kovee_invocation_ref: String,
    pub mandate_use_refs: Vec<String>,
    pub context_source_digest: String,
    pub byom_budget_reservation_ref: String,
    pub byom_budget_reservation_digest: String,
    pub external_budget_bridge_ref: String,
    pub kovee_subordinate_reservation_ref: String,
    pub kovee_subordinate_reservation_digest: String,
    pub dependency_digest: String,
    pub context_manifest_ref: String,
    pub context_manifest_digest: String,
    pub allowed_local_commitments: Vec<String>,
    pub digest: String,
    pub created_at: String,
    pub state: BindingState,
    pub episode_state: EpisodeState,
    pub fenced_reason: Option<String>,
}

impl Row for EpisodeBinding {
    open spec fn key(&self) -> Key {
        key1(self.stable_binding_key@)
    }

    fn has_key(&self, a: &str, b: &str) -> (r: bool) {
        proof {
            crate::text::empty_is(b@);
        }
        same(self.stable_binding_key.as_str(), a) && b.is_empty()
    }
}

/// The placements and bindings of this daemon.
pub struct Episodes {
    pub placements: Table<PlacementRow>,
    pub bindings: Table<EpisodeBinding>,
}

/// No allocation of a realm is placed twice.
pub open spec fn allocations_distinct(rows: Seq<PlacementRow>) -> bool {
    forall|i: int, j: int|
        0 <= i < j < rows.len() && (#[trigger] rows[i]).realm_ref@ == (
        #[trigger] rows[j]).realm_ref@ ==> rows[i].resource_allocation_ref@
            != rows[j].resource_allocation_ref@
}

/// Whether a binding is the one of an episode attempt and an invocation.
pub open spec fn of_attempt(
    b: EpisodeBinding,
    episode: Seq<char>,
    attempt: Seq<char>,
    invocation: Seq<char>,
) -> bool {
    b.episode_ref@ == episode && b.byom_attempt_ref@ == attempt && b.kovee_invocation_ref@
        == invocation
}

/// No attempt is bound twice for one invocation.
pub open spec fn attempts_distinct(rows: Seq<EpisodeBinding>) -> bool {
    forall|i: int, j: int|
        0 <= i < j < rows.len() ==> !of_attempt(
            #[trigger] rows[i],
            (#[trigger] rows[j]).episode_ref@,
            rows[j].byom_attempt_ref@,
            rows[j].kovee_invocation_ref@,
        )
}

impl Episodes {
    pub open spec fn wf(&self) -> bool {
        &&& self.placements.wf()
        &&& self.bindings.wf()
        &&& allocations_distinct(self.placements.rows@)
        &&& attempts_distinct(self.bindings.rows@)
    }

    pub fn new() -> (r: Episodes)
        ensures
            r.wf(),
            r.placements.rows@.len() == 0,
            r.bindings.rows@.len() == 0,
    {
        Episodes { placements: Table::new(), bindings: Table::new() }
    }
}

// ---------------------------------------------------------------- place ----

/// What a new placement is minted with.
#[derive(Debug)]
pub struct PlacementMint {
    pub placement_id: String,
    pub created_at: String,
}

/// Whether a placement's digest is what its sealing function made of it, its
/// own digest written as zeros.
pub open spec fn placement_sealed<S: Fn(&PlacementRow) -> String>(
    seal: S,
    p: PlacementRow,
) -> bool {
    exists|draft: &PlacementRow, out: String|
        {
            &&& *draft == (PlacementRow { digest: draft.digest, ..p })
            &&& draft.digest@ == zeros(64)
            &&& out@ == p.digest@
            &&& #[trigger] seal.ensures((draft,), out)
        }
}

/// Whether the placement at `i` is the one of a realm's allocation.
pub open spec fn of_allocation(
    rows: Seq<PlacementRow>,
    realm: Seq<char>,
    allocation: Seq<char>,
    i: int,
) -> bool {
    0 <= i < rows.len() && rows[i].realm_ref@ == realm && rows[i].resource_allocation_ref@
        == allocation
}

fn placement_by_allocation(eps: &Episodes, realm: &str, allocation: &str) -> (r: Option<usize>)
    ensures
        match r {
            Some(i) => of_allocation(eps.placements.rows@, realm@, allocation@, i as int),
            None => forall|i: int| !#[trigger]
                of_allocation(eps.placements.rows@, realm@, allocation@, i),
        },
{
    let mut i: usize = 0;
    while i < eps.placements.rows.len()
        invariant
            i <= eps.placements.rows.len(),
            forall|j: int|
                j < i ==> !#[trigger] of_allocation(
                    eps.placements.rows@,
                    realm@,
                    allocation@,
                    j,
                ),
        decreases eps.placements.rows.len() - i,
    {
        if same(eps.placements.rows[i].realm_ref.as_str(), realm) && same(
            eps.placements.rows[i].resource_allocation_ref.as_str(),
            allocation,
        ) {
            return Some(i);
        }
        i = i + 1;
    }
    None
}

/// Why nothing is placed, before any placement is looked up.
pub open spec fn place_refusal(
    seam: Option<(RealmBinding, SocietyMapping)>,
    notice: Notice,
) -> Option<ProblemView> {
    match seam {
        None => Some(
            refusal_with(
                ProblemKind::Forbidden,
                "this realm has no active governed-work binding"@,
                "an Episode is hosted only under an ACTIVE KoveeRealmByomBinding"@,
            ),
        ),
        Some((_, mapping)) => if mapping.society_ref@ != notice.society_ref@
            || mapping.society_recovery_epoch != notice.recovery_epoch {
            Some(
                refusal_with(
                    ProblemKind::Forbidden,
                    "the notice names another Society or recovery epoch"@,
                    "the active mapping covers "@ + quoted_text(mapping.society_ref@)
                        + " at epoch "@ + decimal_of(mapping.society_recovery_epoch as nat),
                ),
            )
        } else {
            None
        },
    }
}

/// The placement that is authored: at revision one, under the first fence,
/// not admitted.
pub open spec fn placed_row<G: Fn(&str, &Json) -> Keyed, S: Fn(&PlacementRow) -> String>(
    p: PlacementRow,
    realm: Seq<char>,
    notice: Notice,
    invocation: Seq<char>,
    mint: PlacementMint,
    keyed: G,
    seal: S,
) -> bool {
    &&& p.placement_id@ == mint.placement_id@
    &&& p.realm_ref@ == realm
    &&& p.revision == 1
    &&& p.resource_allocation_ref@ == notice.resource_allocation_ref@
    &&& keyed_text(
        keyed,
        "kovee-placement-binding-v1"@,
        allocation_document(notice),
        p.resource_allocation_digest@,
    )
    &&& p.selected_manifestation_ref@ == notice.manifestation_ref@
    &&& keyed_text(
        keyed,
        "kovee-placement-binding-v1"@,
        manifestation_document(notice),
        p.selected_manifestation_digest@,
    )
    &&& p.host_runtime_binding@ == "kovee-runtime:"@ + realm
    &&& p.kovee_invocation_ref@ == invocation
    &&& keyed_text(
        keyed,
        "kovee-placement-constraint-v1"@,
        constraint_document(notice),
        p.placement_constraint_digest@,
    )
    &&& p.kovee_fence_epoch == 1
    &&& !p.started
    &&& p.created_at@ == mint.created_at@
    &&& placement_sealed(seal, p)
    &&& p.admission_ref is None
    &&& p.admission_digest is None
    &&& p.admitted_at is None
}

/// What placing an episode does and answers.
pub open spec fn place_outcome<G: Fn(&str, &Json) -> Keyed, S: Fn(&PlacementRow) -> String>(
    eps: Episodes,
    eps_after: Episodes,
    gov: Governance,
    realm: Seq<char>,
    notice: Notice,
    kovee_invocation_ref: Seq<char>,
    mint: PlacementMint,
    keyed: G,
    seal: S,
    r: Result<usize, Problem>,
) -> bool {
    &&& r is Err ==> eps_after == eps
    &&& match place_refusal(seam_of(gov, realm), notice) {
        Some(p) => r is Err && r->Err_0@ == p,
        None => if exists|i: int| #[trigger]
            of_allocation(
                eps.placements.rows@,
                realm,
                notice.resource_allocation_ref@,
                i,
            ) {
            &&& r is Ok
            &&& of_allocation(
                eps.placements.rows@,
                realm,
                notice.resource_allocation_ref@,
                r->Ok_0 as int,
            )
            &&& eps_after == eps
        } else if eps.placements@.contains_key(key1(mint.placement_id@)) {
            r is Err && r->Err_0@ == internal_view()
        } else {
            let row = eps_after.placements.rows@.last();
            &&& r is Ok
            &&& r->Ok_0 == eps.placements.rows@.len()
            &&& eps_after.placements.rows@ == eps.placements.rows@.push(row)
            &&& placed_row(
                row,
                realm,
                notice,
                kovee_invocation_ref,
                mint,
                keyed,
                seal,
            )
            &&& eps_after.bindings == eps.bindings
        },
    }
}

/// Authors the placement of a notified allocation, once: a repeat answers the
/// placement that stands. The answer is the placement's position.
pub fn place<G: Fn(&str, &Json) -> Keyed, S: Fn(&PlacementRow) -> String>(
    eps: &mut Episodes,
    gov: &Governance,
    realm: &str,
    notice: &Notice,
    kovee_invocation_ref: &str,
    mint: &PlacementMint,
    keyed: G,
    seal: S,
) -> (r: Result<usize, Problem>)
    requires
        keys_all(keyed),
        forall|p: &PlacementRow| #[trigger] seal.requires((p,)),
        old(eps).wf(),
        gov.wf(),
    ensures
        final(eps).wf(),
        place_outcome(
            *old(eps),
            *final(eps),
            *gov,
            realm@,
            *notice,
            kovee_invocation_ref@,
            *mint,
            keyed,
            seal,
            r,
        ),
{
    let seam = match active_seam(gov, realm) {
        None => {
            return Err(
                problem(
                    ProblemKind::Forbidden,
                    "this realm has no active governed-work binding",
                    "an Episode is hosted only under an ACTIVE KoveeRealmByomBinding",
                ),
            );
        },
        Some(s) => s,
    };
    if !same(seam.mapping.society_ref.as_str(), notice.society_ref.as_str())
        || seam.mapping.society_recovery_epoch != notice.recovery_epoch {
        let q = quoted(seam.mapping.society_ref.as_str());
        let n = decimal(seam.mapping.society_recovery_epoch);
        let detail = cat4("the active mapping covers ", q.as_str(), " at epoch ", n.as_str());
        return Err(
            problem(
                ProblemKind::Forbidden,
                "the notice names another Society or recovery epoch",
                detail.as_str(),
            ),
        );
    }
    if let Some(i) = placement_by_allocation(eps, realm, notice.resource_allocation_ref.as_str()) {
        return Ok(i);
    }
    proof {
        reveal_strlit("");
        crate::text::empty_is(""@);
    }
    if eps.placements.position(mint.placement_id.as_str(), "").is_some() {
        return Err(internal());
    }
    let constraint_doc = constraint_subject(notice);
    let constraint = keyed("kovee-placement-constraint-v1", &constraint_doc);
    let allocation_doc = allocation_subject(notice);
    let allocation = keyed("kovee-placement-binding-v1", &allocation_doc);
    let manifestation_doc = manifestation_subject(notice);
    let manifestation = keyed("kovee-placement-binding-v1", &manifestation_doc);
    proof {
        assert(keyed_text(
            keyed,
            "kovee-placement-constraint-v1"@,
            constraint_doc@,
            constraint.text@,
        ));
        assert(keyed_text(
            keyed,
            "kovee-placement-binding-v1"@,
            allocation_doc@,
            allocation.text@,
        ));
        assert(keyed_text(
            keyed,
            "kovee-placement-binding-v1"@,
            manifestation_doc@,
            manifestation.text@,
        ));
    }
    let mut row = PlacementRow {
        placement_id: mint.placement_id.clone(),
        realm_ref: realm.to_owned(),
        revision: 1,
        resource_allocation_ref: notice.resource_allocation_ref.clone(),
        resource_allocation_digest: allocation.text,
        selected_manifestation_ref: notice.manifestation_ref.clone(),
        selected_manifestation_digest: manifestation.text,
        host_runtime_binding: cat2("kovee-runtime:", realm),
        kovee_invocation_ref: kovee_invocation_ref.to_owned(),
        placement_constraint_digest: constraint.text,
        kovee_fence_epoch: 1,
        started: false,
        created_at: mint.created_at.clone(),
        digest: zero_digest(),
        admission_ref: None,
        admission_digest: None,
        admitted_at: None,
    };
    let ghost draft = row;
    let sealed = seal(&row);
    row.digest = sealed;
    proof {
        assert(seal.ensures((&draft,), sealed));
        assert(placement_sealed(seal, row));
    }
    let at: usize = eps.placements.rows.len();
    eps.placements.insert(row);
    proof {
        let b = old(eps).placements.rows@;
        let a = eps.placements.rows@;
        assert forall|i: int, j: int|
            0 <= i < j < a.len() && (#[trigger] a[i]).realm_ref@ == (
            #[trigger] a[j]).realm_ref@ implies a[i].resource_allocation_ref@
            != a[j].resource_allocation_ref@ by {
            assert(a[i] == b[i]);
            if j < b.len() {
                assert(a[j] == b[j]);
            } else {
                assert(!of_allocation(b, realm@, notice.resource_allocation_ref@, i));
            }
        }
    }
    Ok(at)
}

// ---------------------------------------------------------------- admit ----

/// What byom answered to a placement that was presented to it.
#[derive(Debug)]
pub struct AdmissionReply {
    pub admission_id: Option<String>,
    pub kovee_placement_revision: Option<u64>,
    /// The text of the answer's digest member; `null` where it has none.
    pub digest: String,
}

/// Why an answer admits nothing.
pub open spec fn admission_refusal(reply: AdmissionReply, revision: u64) -> Option<ProblemView> {
    if reply.admission_id is None {
        Some(
            refusal_with(
                ProblemKind::Unavailable,
                "the byom endpoint answered with an unusable placement admission"@,
                "placement_admit returned no admission_id"@,
            ),
        )
    } else if reply.kovee_placement_revision != Some(revision) {
        Some(
            refusal_with(
                ProblemKind::Forbidden,
                "the placement admission pins another placement revision"@,
                "byom records PlacementAdmission against the exact Kovee placement revision (UNIQUE(kovee_placement_ref, kovee_placement_revision))"@,
            ),
        )
    } else {
        None
    }
}

/// What presenting a placement to byom does and answers.
pub open spec fn admit_outcome(
    before: Episodes,
    after: Episodes,
    k: Key,
    reply: Result<AdmissionReply, Problem>,
    at: Seq<char>,
    r: Result<(), Problem>,
) -> bool {
    let p = before.placements@[k];
    match reply {
        Err(e) => r == Err::<(), Problem>(e),
        Ok(a) => match admission_refusal(a, p.revision) {
            Some(e) => r is Err && r->Err_0@ == e,
            None => {
                let q = after.placements@[k];
                &&& r is Ok
                &&& after.bindings == before.bindings
                &&& after.placements@ == before.placements@.insert(k, q)
                &&& q == (PlacementRow {
                    admission_ref: q.admission_ref,
                    admission_digest: q.admission_digest,
                    admitted_at: q.admitted_at,
                    ..p
                })
                &&& opt_view(q.admission_ref) == opt_view(a.admission_id)
                &&& opt_view(q.admission_digest) == Some(a.digest@)
                &&& opt_view(q.admitted_at) == Some(at)
            },
        },
    }
}

/// What taking a placement in does and answers.
pub open spec fn placement_outcome<A: FnOnce(&Json) -> Result<AdmissionReply, Problem>>(
    eps: Episodes,
    eps_after: Episodes,
    placement_id: Seq<char>,
    version: Json,
    ask: A,
    at: Seq<char>,
    r: Result<(), Problem>,
) -> bool {
    &&& r is Err ==> eps_after == eps
    &&& !eps.placements@.contains_key(key1(placement_id)) ==> r is Err && r->Err_0@
        == not_found_view()
    &&& eps.placements@.contains_key(key1(placement_id)) ==> {
        let k = key1(placement_id);
        let p = eps.placements@[k];
        if p.admission_ref is Some {
            r is Ok && eps_after == eps
        } else {
            exists|reply: Result<AdmissionReply, Problem>|
                {
                    &&& #[trigger] asked(
                        ask,
                        placement_admit_document(version@, p),
                        reply,
                    )
                    &&& admit_outcome(eps, eps_after, k, reply, at, r)
                }
        }
    }
}

/// Presents a placement to byom, by `ask`, and records its admission. Only an
/// answer that carries an admission and pins this placement's exact revision
/// admits it; a placement that is admitted already stays as it is, and byom is
/// not asked.
pub fn admit_placement<A: FnOnce(&Json) -> Result<AdmissionReply, Problem>>(
    eps: &mut Episodes,
    placement_id: &str,
    version: &Json,
    ask: A,
    at: &str,
) -> (r: Result<(), Problem>)
    requires
        old(eps).wf(),
        forall|doc: &Json| #[trigger] ask.requires((doc,)),
    ensures
        final(eps).wf(),
        placement_outcome(
            *old(eps),
            *final(eps),
            placement_id@,
            *version,
            ask,
            at@,
            r,
        ),
{
    proof {
        reveal_strlit("");
        crate::text::empty_is(""@);
    }
    let i = match eps.placements.position(placement_id, "") {
        None => {
            return Err(not_found());
        },
        Some(i) => i,
    };
    if eps.placements.rows[i].admission_ref.is_some() {
        return Ok(());
    }
    let doc = placement_admit_request(version, &eps.placements.rows[i]);
    let reply = ask(&doc);
    proof {
        assert(ask.ensures((&doc,), reply));
        assert(asked(
            ask,
            placement_admit_document(version@, old(eps).placements@[key1(placement_id@)]),
            reply,
        ));
    }
    let answer = reply?;
    let admission = match answer.admission_id {
        None => {
            return Err(
                problem(
                    ProblemKind::Unavailable,
                    "the byom endpoint answered with an unusable placement admission",
                    "placement_admit returned no admission_id",
                ),
            );
        },
        Some(a) => a,
    };
    if answer.kovee_placement_revision != Some(eps.placements.rows[i].revision) {
        return Err(
            problem(
                ProblemKind::Forbidden,
                "the placement admission pins another placement revision",
                "byom records PlacementAdmission against the exact Kovee placement revision (UNIQUE(kovee_placement_ref, kovee_placement_revision))",
            ),
        );
    }
    eps.placements.rows[i].admission_ref = Some(admission);
    eps.placements.rows[i].admission_digest = Some(answer.digest);
    eps.placements.rows[i].admitted_at = Some(at.to_owned());
    proof {
        let b = old(eps).placements.rows@;
        let a = eps.placements.rows@;
        crate::table::table_updated(old(eps).placements, eps.placements, i as int, a[i as int]);
        placements_kept(b, a);
    }
    Ok(())
}

proof fn placements_kept(b: Seq<PlacementRow>, a: Seq<PlacementRow>)
    requires
        allocations_distinct(b),
        a.len() == b.len(),
        forall|i: int|
            0 <= i < b.len() ==> (#[trigger] a[i]).realm_ref == b[i].realm_ref
                && a[i].resource_allocation_ref == b[i].resource_allocation_ref,
    ensures
        allocations_distinct(a),
{
    assert forall|i: int, j: int|
        0 <= i < j < a.len() && (#[trigger] a[i]).realm_ref@ == (
        #[trigger] a[j]).realm_ref@ implies a[i].resource_allocation_ref@
        != a[j].resource_allocation_ref@ by {
        assert(b[i].realm_ref@ == b[j].realm_ref@);
    }
}

// ----------------------------------------------------------------- bind ----

/// Whether a binding's digest is what its sealing function made of it, its
/// own digest written as zeros.
pub open spec fn binding_sealed<S: Fn(&EpisodeBinding) -> String>(
    seal: S,
    b: EpisodeBinding,
) -> bool {
    exists|draft: &EpisodeBinding, out: String|
        {
            &&& *draft == (EpisodeBinding { digest: draft.digest, ..b })
            &&& draft.digest@ == zeros(64)
            &&& out@ == b.digest@
            &&& #[trigger] seal.ensures((draft,), out)
        }
}

/// A text of `n` zeros.
pub open spec fn zeros(n: nat) -> Seq<char> {
    Seq::new(n, |i: int| '0')
}

fn zero_digest() -> (r: String)
    ensures
        r@ == zeros(64),
{
    let mut s = String::new();
    let mut i: usize = 0;
    while i < 64
        invariant
            i <= 64,
            s@ =~= zeros(i as nat),
        decreases 64 - i,
    {
        s.push('0');
        i = i + 1;
    }
    s
}

/// The stable key that an attempt digest makes.
pub open spec fn stable_key(digest: Seq<char>) -> Seq<char> {
    "ebk-"@ + digest.take(32)
}

fn make_stable_key(digest: &str) -> (r: String)
    requires
        digest@.len() >= 32,
    ensures
        r@ == stable_key(digest@),
{
    let head = crate::text::first_chars(digest, 32);
    proof {
        assert(digest@.take(32) =~= head@);
    }
    cat2("ebk-", head.as_str())
}

/// The closed list of what a hosted child may commit to locally.
pub open spec fn local_commitments() -> Seq<Seq<char>> {
    seq!["contribution_append"@, "attention_mark"@]
}

/// The first reservation under a bridge, if there is one.
pub open spec fn bridge_reservation(
    res: Reservations,
    bridge: Seq<char>,
    reference: Seq<char>,
    digest: Seq<char>,
) -> bool {
    ||| exists|i: int|
        {
            &&& 0 <= i < res.table.rows@.len()
            &&& (#[trigger] res.table.rows@[i]).external_budget_bridge_ref@ == bridge
            &&& reference == res.table.rows@[i].subordinate_reservation_ref@
            &&& digest == res.table.rows@[i].digest@
            &&& forall|j: int|
                0 <= j < i ==> (#[trigger] res.table.rows@[j]).external_budget_bridge_ref@ != bridge
        }
    ||| {
        &&& forall|j: int|
            0 <= j < res.table.rows@.len() ==> (
            #[trigger] res.table.rows@[j]).external_budget_bridge_ref@ != bridge
        &&& reference == "ksr-absent"@
        &&& digest == zeros(64)
    }
}

/// The binding of one started attempt: bound, running, under the fences of
/// the claim.
pub open spec fn bound_row<G: Fn(&str, &Json) -> Keyed, S: Fn(&EpisodeBinding) -> String>(
    b: EpisodeBinding,
    realm: Seq<char>,
    placed: PlacementRow,
    notice: Notice,
    episode: Seq<char>,
    attempt: Seq<char>,
    fences: Fences,
    seam: (RealmBinding, SocietyMapping),
    res: Reservations,
    hex: Seq<char>,
    created_at: Seq<char>,
    keyed: G,
    seal: S,
) -> bool {
    &&& b.stable_binding_key@ == stable_key(hex)
    &&& b.realm_ref@ == realm
    &&& b.placement_id@ == placed.placement_id@
    &&& b.byom_endpoint_ref@ == seam.0.byom_endpoint_ref@
    &&& b.endpoint_incarnation@ == seam.0.endpoint_incarnation@
    &&& b.society_ref@ == seam.1.society_ref@
    &&& b.recovery_epoch == seam.1.society_recovery_epoch
    &&& b.participant_ref@ == notice.participant_ref@
    &&& b.participant_binding_epoch == notice.participant_binding_epoch
    &&& b.manifestation_ref@ == notice.manifestation_ref@
    &&& b.activity_stream_ref@ == notice.activity_stream_ref@
    &&& b.episode_ref@ == episode
    &&& b.generation == notice.generation
    &&& b.byom_attempt_ref@ == attempt
    &&& b.fences == fences
    &&& b.kovee_invocation_ref@ == placed.kovee_invocation_ref@
    &&& b.mandate_use_refs@ == notice.mandate_use_refs@
    &&& keyed_text(
        keyed,
        "kovee-episode-context-source-v1"@,
        context_source_document(notice),
        b.context_source_digest@,
    )
    &&& b.byom_budget_reservation_ref@ == notice.byom_budget_reservation_ref@
    &&& keyed_text(
        keyed,
        "kovee-byom-episode-binding-v1"@,
        reservation_document(notice),
        b.byom_budget_reservation_digest@,
    )
    &&& b.external_budget_bridge_ref@ == notice.external_budget_bridge_ref@
    &&& bridge_reservation(
        res,
        notice.external_budget_bridge_ref@,
        b.kovee_subordinate_reservation_ref@,
        b.kovee_subordinate_reservation_digest@,
    )
    &&& keyed_text(
        keyed,
        "kovee-byom-episode-binding-v1"@,
        dependency_document(placed, notice),
        b.dependency_digest@,
    )
    &&& b.context_manifest_ref@ == notice.context_manifest_ref@
    &&& keyed_text(
        keyed,
        "kovee-byom-episode-binding-v1"@,
        context_manifest_document(notice),
        b.context_manifest_digest@,
    )
    &&& crate::text::views(b.allowed_local_commitments@) == local_commitments()
    &&& binding_sealed(seal, b)
    &&& b.created_at@ == created_at
    &&& b.state is Bound
    &&& b.episode_state is Running
    &&& b.fenced_reason is None
}

impl JournalView {
    /// A transition is told by its event and by an audit line.
    pub open spec fn with_binding_event(self, e: EventView) -> JournalView {
        self.with_transition("episode-binding.transition"@, "binding="@ + e.stream_id + " event="@, e)
    }
}

/// The event of one transition of a binding.
pub open spec fn binding_event(kind: EventKind, b: EpisodeBinding, payload: JsonView) -> EventView {
    EventView {
        kind,
        stream_id: b.stable_binding_key@,
        project_id: None,
        actor: ActorView::Owner,
        schema_ref: "schema:kovee-byom-episode-binding-v1"@,
        resource_ref: b.stable_binding_key@,
        resource_revision: Some(1u64),
        causation_ref: None,
        correlation_ref: b.episode_ref@,
        classification_ref: None,
        payload: Some(payload),
        once: true,
        named: None,
    }
}

fn append_binding_event(journal: &mut Journal, kind: EventKind, b: &EpisodeBinding, payload: Json)
    ensures
        final(journal)@ == old(journal)@.with_binding_event(binding_event(kind, *b, payload@)),
{
    let detail = cat3("binding=", b.stable_binding_key.as_str(), " event=");
    journal.transition(
        "episode-binding.transition",
        detail.as_str(),
        NewEvent {
            kind,
            stream_id: b.stable_binding_key.clone(),
            project_id: None,
            actor: Actor::Owner,
            schema_ref: "schema:kovee-byom-episode-binding-v1".to_owned(),
            resource_ref: b.stable_binding_key.clone(),
            resource_revision: Some(1),
            causation_ref: None,
            correlation_ref: b.episode_ref.clone(),
            classification_ref: None,
            payload: Some(payload),
            once: true,
            named: None,
        },
    );
}

/// What is announced of a new binding.
pub open spec fn bound_document(b: EpisodeBinding) -> JsonView {
    JsonView::Object(
        seq![
            text_member("episode_ref"@, b.episode_ref@),
            text_member("state"@, "bound"@),
        ],
    )
}

/// What is announced of a new binding.
fn bound_payload(b: &EpisodeBinding) -> (r: Json)
    ensures
        r@ == bound_document(*b),
{
    let mut v: Vec<(String, Json)> = Vec::new();
    put_text(&mut v, "episode_ref", b.episode_ref.as_str());
    put_text(&mut v, "state", "bound");
    proof {
        assert(members(v@) =~= bound_document(*b)->Object_0);
    }
    object(v)
}

/// What is announced of a binding that is fenced: both pairs, and what was refused.
pub open spec fn fenced_document(
    presented: Fences,
    bound: Fences,
    what: Seq<char>,
) -> JsonView {
    JsonView::Object(
        seq![
            number_member("bound_byom_fence_epoch"@, bound.byom),
            number_member("bound_kovee_invocation_fence"@, bound.kovee),
            number_member("presented_byom_fence_epoch"@, presented.byom),
            number_member("presented_kovee_invocation_fence"@, presented.kovee),
            text_member("refused"@, what),
        ],
    )
}

/// What is announced of a binding that is fenced: both pairs, and what was refused.
fn fenced_payload(presented: Fences, bound: Fences, what: &str) -> (r: Json)
    ensures
        r@ == fenced_document(presented, bound, what@),
{
    let mut v: Vec<(String, Json)> = Vec::new();
    put_number(&mut v, "bound_byom_fence_epoch", bound.byom);
    put_number(&mut v, "bound_kovee_invocation_fence", bound.kovee);
    put_number(&mut v, "presented_byom_fence_epoch", presented.byom);
    put_number(&mut v, "presented_kovee_invocation_fence", presented.kovee);
    put_text(&mut v, "refused", what);
    proof {
        assert(members(v@) =~= fenced_document(presented, bound, what@)->Object_0);
    }
    object(v)
}

/// What is announced of a binding that is released: what goes to settlement.
pub open spec fn released_document(b: EpisodeBinding) -> JsonView {
    JsonView::Object(
        seq![
            text_member("byom_budget_reservation_ref"@, b.byom_budget_reservation_ref@),
            text_member("episode_ref"@, b.episode_ref@),
            text_member("kovee_subordinate_reservation_ref"@, b.kovee_subordinate_reservation_ref@),
            text_member("settlement"@, "handed to §11.4 (usage_report is evidence only)"@),
        ],
    )
}

/// What is announced of a binding that is released: what goes to settlement.
fn released_payload(b: &EpisodeBinding) -> (r: Json)
    ensures
        r@ == released_document(*b),
{
    let mut v: Vec<(String, Json)> = Vec::new();
    put_text(&mut v, "byom_budget_reservation_ref", b.byom_budget_reservation_ref.as_str());
    put_text(&mut v, "episode_ref", b.episode_ref.as_str());
    put_text(&mut v, "kovee_subordinate_reservation_ref", b.kovee_subordinate_reservation_ref.as_str());
    put_text(&mut v, "settlement", "handed to §11.4 (usage_report is evidence only)");
    proof {
        assert(members(v@) =~= released_document(*b)->Object_0);
    }
    object(v)
}

/// The event of a new binding.
pub open spec fn bound_event(b: EpisodeBinding) -> EventView {
    binding_event(EventKind::EpisodeBound, b, bound_document(b))
}

/// Whether an attempt is bound for an invocation already.
pub open spec fn attempt_bound(
    eps: Episodes,
    episode: Seq<char>,
    attempt: Seq<char>,
    invocation: Seq<char>,
) -> bool {
    exists|i: int|
        0 <= i < eps.bindings.rows@.len() && of_attempt(
            #[trigger] eps.bindings.rows@[i],
            episode,
            attempt,
            invocation,
        )
}

fn is_attempt_bound(eps: &Episodes, episode: &str, attempt: &str, invocation: &str) -> (r: bool)
    ensures
        r == attempt_bound(*eps, episode@, attempt@, invocation@),
{
    let mut i: usize = 0;
    while i < eps.bindings.rows.len()
        invariant
            i <= eps.bindings.rows.len(),
            forall|j: int|
                0 <= j < i ==> !of_attempt(
                    #[trigger] eps.bindings.rows@[j],
                    episode@,
                    attempt@,
                    invocation@,
                ),
        decreases eps.bindings.rows.len() - i,
    {
        let b = &eps.bindings.rows[i];
        if same(b.episode_ref.as_str(), episode) && same(b.byom_attempt_ref.as_str(), attempt)
            && same(b.kovee_invocation_ref.as_str(), invocation) {
            return true;
        }
        i = i + 1;
    }
    false
}

/// What binding an attempt does and answers, where its digest is `hex`.
pub open spec fn bound_under<G: Fn(&str, &Json) -> Keyed, S: Fn(&EpisodeBinding) -> String>(
    before: Episodes,
    after: Episodes,
    journal: JournalView,
    after_journal: JournalView,
    gov: Governance,
    res: Reservations,
    realm: Seq<char>,
    placed: int,
    notice: Notice,
    episode: Seq<char>,
    attempt: Seq<char>,
    fences: Fences,
    hex: Seq<char>,
    created_at: Seq<char>,
    keyed: G,
    seal: S,
    r: Result<usize, Problem>,
) -> bool {
    let k = key1(stable_key(hex));
    let p = before.placements.rows@[placed];
    if before.bindings@.contains_key(k) {
        &&& r is Ok
        &&& r->Ok_0 < before.bindings.rows@.len()
        &&& before.bindings.rows@[r->Ok_0 as int] == before.bindings@[k]
        &&& after == before
        &&& after_journal == journal
    } else if seam_of(gov, realm) is None || attempt_bound(
        before,
        episode,
        attempt,
        p.kovee_invocation_ref@,
    ) {
        &&& r is Err
        &&& r->Err_0@ == internal_view()
        &&& after == before
        &&& after_journal == journal
    } else {
        &&& r is Ok
        &&& r->Ok_0 == before.bindings.rows@.len()
        &&& after.bindings.rows@ == before.bindings.rows@.push(after.bindings.rows@.last())
        &&& bound_row(
            after.bindings.rows@.last(),
            realm,
            p,
            notice,
            episode,
            attempt,
            fences,
            seam_of(gov, realm)->0,
            res,
            hex,
            created_at,
            keyed,
            seal,
        )
        &&& after.placements.rows@ == before.placements.rows@.update(
            placed,
            PlacementRow { started: true, ..p },
        )
        &&& after_journal == journal.with_binding_event(bound_event(after.bindings.rows@.last()))
    }
}

/// What binding an attempt does and answers. The binding's stable key comes
/// from the digest of its episode, attempt and invocation.
pub open spec fn bind_outcome<G: Fn(&str, &Json) -> Keyed, S: Fn(&EpisodeBinding) -> String>(
    before: Episodes,
    after: Episodes,
    journal: JournalView,
    after_journal: JournalView,
    gov: Governance,
    res: Reservations,
    realm: Seq<char>,
    placed: int,
    notice: Notice,
    episode: Seq<char>,
    attempt: Seq<char>,
    fences: Fences,
    created_at: Seq<char>,
    keyed: G,
    seal: S,
    r: Result<usize, Problem>,
) -> bool {
    exists|hex: Seq<char>|
        {
            &&& #[trigger] keyed_hex(
                keyed,
                "kovee-byom-episode-binding-v1"@,
                attempt_document(episode, attempt, before.placements.rows@[placed]),
                hex,
            )
            &&& bound_under(
                before,
                after,
                journal,
                after_journal,
                gov,
                res,
                realm,
                placed,
                notice,
                episode,
                attempt,
                fences,
                hex,
                created_at,
                keyed,
                seal,
                r,
            )
        }
}

/// Binds a started attempt, once per stable key: a repeat answers the binding
/// that stands. Another key for an attempt that is bound conflicts. The answer
/// is the binding's position.
pub fn bind<G: Fn(&str, &Json) -> Keyed, S: Fn(&EpisodeBinding) -> String>(
    eps: &mut Episodes,
    journal: &mut Journal,
    gov: &Governance,
    res: &Reservations,
    realm: &str,
    placed: usize,
    notice: &Notice,
    episode_ref: &str,
    byom_attempt_ref: &str,
    fences: Fences,
    created_at: &str,
    keyed: G,
    seal: S,
) -> (r: Result<usize, Problem>)
    requires
        old(eps).wf(),
        gov.wf(),
        placed < old(eps).placements.rows.len(),
        keys_all(keyed),
        forall|b: &EpisodeBinding| #[trigger] seal.requires((b,)),
    ensures
        final(eps).wf(),
        bind_outcome(
            *old(eps),
            *final(eps),
            old(journal)@,
            final(journal)@,
            *gov,
            *res,
            realm@,
            placed as int,
            *notice,
            episode_ref@,
            byom_attempt_ref@,
            fences,
            created_at@,
            keyed,
            seal,
            r,
        ),
{
    proof {
        reveal_strlit("");
        crate::text::empty_is(""@);
    }
    let attempt_doc = attempt_subject(episode_ref, byom_attempt_ref, &eps.placements.rows[placed]);
    let attempt = keyed("kovee-byom-episode-binding-v1", &attempt_doc);
    proof {
        assert(keyed_hex(
            keyed,
            "kovee-byom-episode-binding-v1"@,
            attempt_doc@,
            attempt.hex@,
        ));
    }
    let key = make_stable_key(attempt.hex.as_str());
    if let Some(i) = eps.bindings.position(key.as_str(), "") {
        return Ok(i);
    }
    let seam = match active_seam(gov, realm) {
        None => {
            return Err(internal());
        },
        Some(s) => s,
    };
    if is_attempt_bound(
        eps,
        episode_ref,
        byom_attempt_ref,
        eps.placements.rows[placed].kovee_invocation_ref.as_str(),
    ) {
        return Err(internal());
    }
    let mut commitments: Vec<String> = Vec::new();
    commitments.push("contribution_append".to_owned());
    commitments.push("attention_mark".to_owned());
    proof {
        assert(crate::text::views(commitments@) =~= local_commitments());
    }
    let subordinate = reservation_of_bridge(res, notice.external_budget_bridge_ref.as_str());
    let (sub_ref, sub_digest) = match subordinate {
        Some((reference, digest)) => (reference, digest),
        None => ("ksr-absent".to_owned(), zero_digest()),
    };
    let source_doc = context_source_subject(notice);
    let source = keyed("kovee-episode-context-source-v1", &source_doc);
    let reservation_doc = reservation_subject(notice);
    let reservation = keyed("kovee-byom-episode-binding-v1", &reservation_doc);
    let dependency_doc = dependency_subject(&eps.placements.rows[placed], notice);
    let dependency = keyed("kovee-byom-episode-binding-v1", &dependency_doc);
    let manifest_doc = context_manifest_subject(notice);
    let manifest = keyed("kovee-byom-episode-binding-v1", &manifest_doc);
    proof {
        assert(keyed_text(
            keyed,
            "kovee-episode-context-source-v1"@,
            source_doc@,
            source.text@,
        ));
        assert(keyed_text(
            keyed,
            "kovee-byom-episode-binding-v1"@,
            reservation_doc@,
            reservation.text@,
        ));
        assert(keyed_text(
            keyed,
            "kovee-byom-episode-binding-v1"@,
            dependency_doc@,
            dependency.text@,
        ));
        assert(keyed_text(
            keyed,
            "kovee-byom-episode-binding-v1"@,
            manifest_doc@,
            manifest.text@,
        ));
    }
    let mut row = EpisodeBinding {
        stable_binding_key: key,
        realm_ref: realm.to_owned(),
        placement_id: eps.placements.rows[placed].placement_id.clone(),
        byom_endpoint_ref: seam.binding.byom_endpoint_ref.clone(),
        endpoint_incarnation: seam.binding.endpoint_incarnation.clone(),
        society_ref: seam.mapping.society_ref.clone(),
        recovery_epoch: seam.mapping.society_recovery_epoch,
        participant_ref: notice.participant_ref.clone(),
        participant_binding_epoch: notice.participant_binding_epoch,
        manifestation_ref: notice.manifestation_ref.clone(),
        activity_stream_ref: notice.activity_stream_ref.clone(),
        episode_ref: episode_ref.to_owned(),
        generation: notice.generation,
        byom_attempt_ref: byom_attempt_ref.to_owned(),
        fences,
        kovee_invocation_ref: eps.placements.rows[placed].kovee_invocation_ref.clone(),
        mandate_use_refs: notice.mandate_use_refs.clone(),
        context_source_digest: source.text,
        byom_budget_reservation_ref: notice.byom_budget_reservation_ref.clone(),
        byom_budget_reservation_digest: reservation.text,
        external_budget_bridge_ref: notice.external_budget_bridge_ref.clone(),
        kovee_subordinate_reservation_ref: sub_ref,
        kovee_subordinate_reservation_digest: sub_digest,
        dependency_digest: dependency.text,
        context_manifest_ref: notice.context_manifest_ref.clone(),
        context_manifest_digest: manifest.text,
        allowed_local_commitments: commitments,
        digest: zero_digest(),
        created_at: created_at.to_owned(),
        state: BindingState::Bound,
        episode_state: EpisodeState::Running,
        fenced_reason: None,
    };
    let ghost draft = row;
    let sealed = seal(&row);
    row.digest = sealed;
    proof {
        assert(seal.ensures((&draft,), sealed));
        assert(binding_sealed(seal, row));
    }
    let payload = bound_payload(&row);
    append_binding_event(journal, EventKind::EpisodeBound, &row, payload);
    let at: usize = eps.bindings.rows.len();
    eps.bindings.insert(row);
    eps.placements.rows[placed].started = true;
    proof {
        let b = old(eps).placements.rows@;
        let a = eps.placements.rows@;
        assert(a =~= b.update(placed as int, PlacementRow { started: true, ..b[placed as int] }));
        crate::table::table_updated(
            old(eps).placements,
            eps.placements,
            placed as int,
            a[placed as int],
        );
        placements_kept(b, a);
        let c = old(eps).bindings.rows@;
        let d = eps.bindings.rows@;
        assert forall|i: int, j: int| 0 <= i < j < d.len() implies !of_attempt(
            #[trigger] d[i],
            (#[trigger] d[j]).episode_ref@,
            d[j].byom_attempt_ref@,
            d[j].kovee_invocation_ref@,
        ) by {
            assert(d[i] == c[i]);
            if j < c.len() {
                assert(d[j] == c[j]);
            }
        }
    }
    Ok(at)
}

/// What rebinding an episode does and answers.
pub open spec fn rebind_outcome<G: Fn(&str, &Json) -> Keyed, S: Fn(&EpisodeBinding) -> String>(
    eps: Episodes,
    eps_after: Episodes,
    journal: JournalView,
    journal_after: JournalView,
    gov: Governance,
    res: Reservations,
    realm: Seq<char>,
    placement_id: Seq<char>,
    notice: Notice,
    episode_ref: Seq<char>,
    successor_attempt_ref: Seq<char>,
    fences: Fences,
    created_at: Seq<char>,
    keyed: G,
    seal: S,
    r: Result<usize, Problem>,
) -> bool {
    &&& !eps.placements@.contains_key(key1(placement_id)) ==> {
        &&& r is Err
        &&& r->Err_0@ == not_found_view()
        &&& eps_after == eps
        &&& journal_after == journal
    }
    &&& eps.placements@.contains_key(key1(placement_id)) ==> exists|placed: int|
        {
            &&& 0 <= placed < eps.placements.rows@.len()
            &&& (#[trigger] eps.placements.rows@[placed]).placement_id@ == placement_id
            &&& bind_outcome(
                eps,
                eps_after,
                journal,
                journal_after,
                gov,
                res,
                realm,
                placed,
                notice,
                episode_ref,
                successor_attempt_ref,
                fences,
                created_at,
                keyed,
                seal,
                r,
            )
        }
}

/// The successor attempt of a yielded episode: a new binding under a new
/// stable key, never a re-binding of the old one.
pub fn rebind<G: Fn(&str, &Json) -> Keyed, S: Fn(&EpisodeBinding) -> String>(
    eps: &mut Episodes,
    journal: &mut Journal,
    gov: &Governance,
    res: &Reservations,
    realm: &str,
    placement_id: &str,
    notice: &Notice,
    episode_ref: &str,
    successor_attempt_ref: &str,
    fences: Fences,
    created_at: &str,
    keyed: G,
    seal: S,
) -> (r: Result<usize, Problem>)
    requires
        old(eps).wf(),
        gov.wf(),
        keys_all(keyed),
        forall|b: &EpisodeBinding| #[trigger] seal.requires((b,)),
    ensures
        final(eps).wf(),
        rebind_outcome(
            *old(eps),
            *final(eps),
            old(journal)@,
            final(journal)@,
            *gov,
            *res,
            realm@,
            placement_id@,
            *notice,
            episode_ref@,
            successor_attempt_ref@,
            fences,
            created_at@,
            keyed,
            seal,
            r,
        ),
{
    proof {
        reveal_strlit("");
        crate::text::empty_is(""@);
    }
    match eps.placements.position(placement_id, "") {
        None => Err(not_found()),
        Some(placed) => bind(
            eps,
            journal,
            gov,
            res,
            realm,
            placed,
            notice,
            episode_ref,
            successor_attempt_ref,
            fences,
            created_at,
            keyed,
            seal,
        ),
    }
}

/// The placement under an identifier.
pub fn read_placement<'a>(eps: &'a Episodes, key: &str) -> (r: Option<&'a PlacementRow>)
    requires
        eps.wf(),
    ensures
        match r {
            Some(row) => eps.placements@.contains_key(key1(key@)) && *row == eps.placements@[key1(key@)],
            None => !eps.placements@.contains_key(key1(key@)),
        },
{
    proof {
        reveal_strlit("");
        crate::text::empty_is(""@);
    }
    eps.placements.find(key, "")
}

/// The binding under a stable key.
pub fn read_binding<'a>(eps: &'a Episodes, key: &str) -> (r: Option<&'a EpisodeBinding>)
    requires
        eps.wf(),
    ensures
        match r {
            Some(row) => eps.bindings@.contains_key(key1(key@)) && *row == eps.bindings@[key1(key@)],
            None => !eps.bindings@.contains_key(key1(key@)),
        },
{
    proof {
        reveal_strlit("");
        crate::text::empty_is(""@);
    }
    eps.bindings.find(key, "")
}

// ---------------------------------------------------------------- start ----

/// What byom answered to a claim.
#[derive(Debug)]
pub struct ClaimReply {
    pub byom_attempt_ref: Option<String>,
    pub byom_fence_epoch: Option<u64>,
}

pub open spec fn no_member(member: Seq<char>) -> ProblemView {
    refusal_with(
        ProblemKind::Unavailable,
        "the byom endpoint answered with an unusable reply"@,
        "the runtime reply carries no "@ + member,
    )
}

pub open spec fn not_admitted_view() -> ProblemView {
    refusal_with(
        ProblemKind::Forbidden,
        "no episode work before byom admits the placement"@,
        "byom §11.1: activation has four records and four owners, and nothing skips a stage — placement_admit must have recorded a PlacementAdmission first (R33)"@,
    )
}

pub open spec fn no_fence_view() -> ProblemView {
    refusal_with(
        ProblemKind::Unavailable,
        "the byom endpoint answered with an unusable claim"@,
        "episode_claim returned no byom_fence_epoch"@,
    )
}

/// What a start answers before it binds, or `None` where all three of byom's
/// replies are usable.
pub open spec fn start_stop(
    placed: PlacementRow,
    requested: Result<Option<String>, Problem>,
    claimed: Result<ClaimReply, Problem>,
    started: Result<(), Problem>,
    r: Result<usize, Problem>,
) -> Option<bool> {
    if placed.admission_ref is None {
        Some(r is Err && r->Err_0@ == not_admitted_view())
    } else {
        match requested {
            Err(p) => Some(r == Err::<usize, Problem>(p)),
            Ok(None) => Some(r is Err && r->Err_0@ == no_member("episode_ref"@)),
            Ok(Some(_)) => match claimed {
                Err(p) => Some(r == Err::<usize, Problem>(p)),
                Ok(c) => if c.byom_attempt_ref is None {
                    Some(r is Err && r->Err_0@ == no_member("byom_attempt_ref"@))
                } else if c.byom_fence_epoch is None {
                    Some(r is Err && r->Err_0@ == no_fence_view())
                } else {
                    match started {
                        Err(p) => Some(r == Err::<usize, Problem>(p)),
                        Ok(_) => None,
                    }
                },
            },
        }
    }
}

/// Whether byom's replies are what its runtime answered: it is asked only for an
/// admitted placement, and each question only once the one before it was
/// answered.
pub open spec fn start_asked<
    Q: FnOnce(&Json) -> Result<Option<String>, Problem>,
    L: FnOnce(&Json) -> Result<ClaimReply, Problem>,
    N: FnOnce(&Json) -> Result<(), Problem>,
>(
    request: Q,
    claim: L,
    begin: N,
    version: JsonView,
    p: PlacementRow,
    notice: Notice,
    requested: Result<Option<String>, Problem>,
    claimed: Result<ClaimReply, Problem>,
    started: Result<(), Problem>,
) -> bool {
    p.admission_ref is Some ==> {
        &&& asked(request, episode_request_document(version, notice), requested)
        &&& requested is Ok && requested->Ok_0 is Some ==> {
            let episode = requested->Ok_0->0@;
            &&& asked(claim, episode_claim_document(version, episode, p), claimed)
            &&& claimed is Ok && claimed->Ok_0.byom_attempt_ref is Some
                && claimed->Ok_0.byom_fence_epoch is Some ==> asked(
                begin,
                episode_start_document(
                    version,
                    episode,
                    claimed->Ok_0.byom_attempt_ref->0@,
                    (Fences {
                        byom: claimed->Ok_0.byom_fence_epoch->0,
                        kovee: p.kovee_fence_epoch,
                    }),
                ),
                started,
            )
        }
    }
}

/// What starting a placement does and answers, under byom's replies.
pub open spec fn start_outcome<G: Fn(&str, &Json) -> Keyed, S: Fn(&EpisodeBinding) -> String>(
    before: Episodes,
    after: Episodes,
    journal: JournalView,
    after_journal: JournalView,
    gov: Governance,
    res: Reservations,
    p: PlacementRow,
    notice: Notice,
    requested: Result<Option<String>, Problem>,
    claimed: Result<ClaimReply, Problem>,
    started: Result<(), Problem>,
    created_at: Seq<char>,
    keyed: G,
    seal: S,
    r: Result<usize, Problem>,
) -> bool {
    match start_stop(p, requested, claimed, started, r) {
        Some(answered) => answered && after == before && after_journal == journal,
        None => exists|placed: int|
            {
                &&& 0 <= placed < before.placements.rows@.len()
                &&& #[trigger] before.placements.rows@[placed] == p
                &&& bind_outcome(
                    before,
                    after,
                    journal,
                    after_journal,
                    gov,
                    res,
                    p.realm_ref@,
                    placed,
                    notice,
                    requested->Ok_0->0@,
                    claimed->Ok_0.byom_attempt_ref->0@,
                    (Fences {
                        byom: claimed->Ok_0.byom_fence_epoch->0,
                        kovee: p.kovee_fence_epoch,
                    }),
                    created_at,
                    keyed,
                    seal,
                    r,
                )
            },
    }
}

/// What starting an episode does and answers.
pub open spec fn starting_outcome<
    Q: FnOnce(&Json) -> Result<Option<String>, Problem>,
    L: FnOnce(&Json) -> Result<ClaimReply, Problem>,
    N: FnOnce(&Json) -> Result<(), Problem>,
    G: Fn(&str, &Json) -> Keyed,
    S: Fn(&EpisodeBinding) -> String,
>(
    eps: Episodes,
    eps_after: Episodes,
    journal: JournalView,
    journal_after: JournalView,
    gov: Governance,
    res: Reservations,
    placement_id: Seq<char>,
    notice: Notice,
    version: Json,
    request: Q,
    claim: L,
    begin: N,
    created_at: Seq<char>,
    keyed: G,
    seal: S,
    r: Result<usize, Problem>,
) -> bool {
    &&& !eps.placements@.contains_key(key1(placement_id)) ==> {
        &&& r is Err
        &&& r->Err_0@ == not_found_view()
        &&& eps_after == eps
        &&& journal_after == journal
    }
    &&& eps.placements@.contains_key(key1(placement_id)) ==> {
        let p = eps.placements@[key1(placement_id)];
        exists|
            requested: Result<Option<String>, Problem>,
            claimed: Result<ClaimReply, Problem>,
            started: Result<(), Problem>,
        |
            {
                &&& #[trigger] start_asked(
                    request,
                    claim,
                    begin,
                    version@,
                    p,
                    notice,
                    requested,
                    claimed,
                    started,
                )
                &&& start_outcome(
                    eps,
                    eps_after,
                    journal,
                    journal_after,
                    gov,
                    res,
                    p,
                    notice,
                    requested,
                    claimed,
                    started,
                    created_at,
                    keyed,
                    seal,
                    r,
                )
            }
    }
}

/// Starts an admitted placement: byom's runtime is asked for the episode, for a
/// claim on it and to start it, in that order, each answer usable or the end of
/// it, and the attempt is bound under the fences of the claim.
pub fn start<
    Q: FnOnce(&Json) -> Result<Option<String>, Problem>,
    L: FnOnce(&Json) -> Result<ClaimReply, Problem>,
    N: FnOnce(&Json) -> Result<(), Problem>,
    G: Fn(&str, &Json) -> Keyed,
    S: Fn(&EpisodeBinding) -> String,
>(
    eps: &mut Episodes,
    journal: &mut Journal,
    gov: &Governance,
    res: &Reservations,
    placement_id: &str,
    notice: &Notice,
    version: &Json,
    request: Q,
    claim: L,
    begin: N,
    created_at: &str,
    keyed: G,
    seal: S,
) -> (r: Result<usize, Problem>)
    requires
        old(eps).wf(),
        gov.wf(),
        forall|doc: &Json| #[trigger] request.requires((doc,)),
        forall|doc: &Json| #[trigger] claim.requires((doc,)),
        forall|doc: &Json| #[trigger] begin.requires((doc,)),
        keys_all(keyed),
        forall|b: &EpisodeBinding| #[trigger] seal.requires((b,)),
    ensures
        final(eps).wf(),
        starting_outcome(
            *old(eps),
            *final(eps),
            old(journal)@,
            final(journal)@,
            *gov,
            *res,
            placement_id@,
            *notice,
            *version,
            request,
            claim,
            begin,
            created_at@,
            keyed,
            seal,
            r,
        ),
{
    proof {
        reveal_strlit("");
        crate::text::empty_is(""@);
    }
    let placed = match eps.placements.position(placement_id, "") {
        None => {
            return Err(not_found());
        },
        Some(i) => i,
    };
    let ghost p = eps.placements.rows@[placed as int];
    let ghost unasked: Result<Option<String>, Problem> = arbitrary();
    let ghost unclaimed: Result<ClaimReply, Problem> = arbitrary();
    let ghost unstarted: Result<(), Problem> = arbitrary();
    if eps.placements.rows[placed].admission_ref.is_none() {
        proof {
            assert(start_asked(
                request,
                claim,
                begin,
                version@,
                p,
                *notice,
                unasked,
                unclaimed,
                unstarted,
            ));
        }
        return Err(
            problem(
                ProblemKind::Forbidden,
                "no episode work before byom admits the placement",
                "byom §11.1: activation has four records and four owners, and nothing skips a stage — placement_admit must have recorded a PlacementAdmission first (R33)",
            ),
        );
    }
    let realm = eps.placements.rows[placed].realm_ref.clone();
    let kovee: u64 = eps.placements.rows[placed].kovee_fence_epoch;
    let request_doc = episode_request(version, notice);
    let requested = request(&request_doc);
    let ghost the_requested = requested;
    proof {
        assert(request.ensures((&request_doc,), the_requested));
        assert(asked(request, episode_request_document(version@, *notice), the_requested));
    }
    let episode_ref = match requested {
        Err(e) => {
            proof {
                assert(start_asked(
                request,
                claim,
                begin,
                version@,
                p,
                *notice,
                the_requested,
                unclaimed,
                unstarted,
            ));
            }
            return Err(e);
        },
        Ok(None) => {
            proof {
                assert(start_asked(
                request,
                claim,
                begin,
                version@,
                p,
                *notice,
                the_requested,
                unclaimed,
                unstarted,
            ));
            }
            return Err(
                problem(
                    ProblemKind::Unavailable,
                    "the byom endpoint answered with an unusable reply",
                    cat2("the runtime reply carries no ", "episode_ref").as_str(),
                ),
            );
        },
        Ok(Some(e)) => e,
    };
    let claim_doc = episode_claim_request(
        version,
        episode_ref.as_str(),
        &eps.placements.rows[placed],
    );
    let claimed = claim(&claim_doc);
    let ghost the_claimed = claimed;
    proof {
        assert(claim.ensures((&claim_doc,), the_claimed));
        assert(asked(
            claim,
            episode_claim_document(version@, episode_ref@, p),
            the_claimed,
        ));
    }
    let held = match claimed {
        Err(e) => {
            proof {
                assert(start_asked(
                request,
                claim,
                begin,
                version@,
                p,
                *notice,
                the_requested,
                the_claimed,
                unstarted,
            ));
            }
            return Err(e);
        },
        Ok(c) => c,
    };
    let attempt = match held.byom_attempt_ref {
        None => {
            proof {
                assert(start_asked(
                request,
                claim,
                begin,
                version@,
                p,
                *notice,
                the_requested,
                the_claimed,
                unstarted,
            ));
            }
            return Err(
                problem(
                    ProblemKind::Unavailable,
                    "the byom endpoint answered with an unusable reply",
                    cat2("the runtime reply carries no ", "byom_attempt_ref").as_str(),
                ),
            );
        },
        Some(a) => a,
    };
    let byom = match held.byom_fence_epoch {
        None => {
            proof {
                assert(start_asked(
                request,
                claim,
                begin,
                version@,
                p,
                *notice,
                the_requested,
                the_claimed,
                unstarted,
            ));
            }
            return Err(
                problem(
                    ProblemKind::Unavailable,
                    "the byom endpoint answered with an unusable claim",
                    "episode_claim returned no byom_fence_epoch",
                ),
            );
        },
        Some(f) => f,
    };
    let fences = Fences { byom, kovee };
    let start_doc = episode_start_request(
        version,
        episode_ref.as_str(),
        attempt.as_str(),
        fences,
    );
    let started = begin(&start_doc);
    let ghost the_started = started;
    proof {
        assert(begin.ensures((&start_doc,), the_started));
        assert(asked(
            begin,
            episode_start_document(version@, episode_ref@, attempt@, fences),
            the_started,
        ));
        assert(start_asked(
                request,
                claim,
                begin,
                version@,
                p,
                *notice,
                the_requested,
                the_claimed,
                the_started,
            ));
    }
    started?;
    bind(
        eps,
        journal,
        gov,
        res,
        realm.as_str(),
        placed,
        notice,
        episode_ref.as_str(),
        attempt.as_str(),
        fences,
        created_at,
        keyed,
        seal,
    )
}

// --------------------------------------------------- fenced mutations ----

pub open spec fn terminal_view(state: BindingState, what: Seq<char>) -> ProblemView {
    refusal_with(
        ProblemKind::Forbidden,
        "this episode binding is terminal"@,
        "the binding is "@ + quoted_text(state.name()) + ": "@ + what + " advances nothing"@,
    )
}

pub open spec fn fenced_view(mismatch: Seq<char>) -> ProblemView {
    refusal_with(
        ProblemKind::StaleLease,
        "the episode binding is fenced"@,
        mismatch + "; a successor attempt gets a NEW binding row under a new stable key"@,
    )
}

/// How a mutation under a stable key is answered before it changes anything:
/// `None` where the binding is live and both fences are the bound ones.
pub open spec fn mutation_refusal(
    eps: Episodes,
    key: Seq<char>,
    presented: Fences,
    what: Seq<char>,
    mismatch: Seq<char>,
) -> Option<ProblemView> {
    if !eps.bindings@.contains_key(key1(key)) {
        Some(not_found_view())
    } else {
        let b = eps.bindings@[key1(key)];
        if b.state !is Bound {
            Some(terminal_view(b.state, what))
        } else if b.fences != presented {
            Some(fenced_view(mismatch))
        } else {
            None
        }
    }
}

/// Whether a mutation finds a live binding and misses one of its fences.
pub open spec fn misses_fence(eps: Episodes, key: Seq<char>, presented: Fences) -> bool {
    &&& eps.bindings@.contains_key(key1(key))
    &&& eps.bindings@[key1(key)].state is Bound
    &&& eps.bindings@[key1(key)].fences != presented
}

/// What a refused mutation leaves: a live binding whose fences were missed is
/// fenced, with the mismatch as its reason; everything else is untouched.
pub open spec fn refused_mutation(
    before: Episodes,
    after: Episodes,
    key: Seq<char>,
    presented: Fences,
    mismatch: Seq<char>,
) -> bool {
    let k = key1(key);
    if misses_fence(before, key, presented) {
        &&& after.placements == before.placements
        &&& after.bindings@ == before.bindings@.insert(k, after.bindings@[k])
        &&& after.bindings@[k] == (EpisodeBinding {
            state: BindingState::Fenced,
            fenced_reason: after.bindings@[k].fenced_reason,
            ..before.bindings@[k]
        })
        &&& opt_view(after.bindings@[k].fenced_reason) == Some(mismatch)
    } else {
        after == before
    }
}

/// The events of a refused mutation: the fencing, where there was one.
pub open spec fn refused_events(
    before: crate::journal::JournalView,
    eps: Episodes,
    key: Seq<char>,
    presented: Fences,
    what: Seq<char>,
) -> crate::journal::JournalView {
    if misses_fence(eps, key, presented) {
        let b = eps.bindings@[key1(key)];
        before.with_binding_event(
            binding_event(
                EventKind::EpisodeFenced,
                b,
                fenced_document(presented, b.fences, what),
            ),
        )
    } else {
        before
    }
}

proof fn attempts_kept(b: Seq<EpisodeBinding>, a: Seq<EpisodeBinding>)
    requires
        attempts_distinct(b),
        a.len() == b.len(),
        forall|i: int|
            0 <= i < b.len() ==> (#[trigger] a[i]).episode_ref == b[i].episode_ref
                && a[i].byom_attempt_ref == b[i].byom_attempt_ref && a[i].kovee_invocation_ref
                == b[i].kovee_invocation_ref,
    ensures
        attempts_distinct(a),
{
    assert forall|i: int, j: int| 0 <= i < j < a.len() implies !of_attempt(
        #[trigger] a[i],
        (#[trigger] a[j]).episode_ref@,
        a[j].byom_attempt_ref@,
        a[j].kovee_invocation_ref@,
    ) by {
        assert(!of_attempt(
            b[i],
            b[j].episode_ref@,
            b[j].byom_attempt_ref@,
            b[j].kovee_invocation_ref@,
        ));
    }
}

/// Whether a fence of a live binding is missed.
pub open spec fn fence_missed(eps: Episodes, key: Seq<char>, presented: Fences) -> bool {
    &&& eps.bindings@.contains_key(key1(key))
    &&& eps.bindings@[key1(key)].state is Bound
    &&& eps.bindings@[key1(key)].fences != presented
}

/// Where a fence is missed, the mismatch is how the bound pair and the
/// presented one are put into words.
pub open spec fn worded<M: FnOnce(Fences, Fences) -> String>(
    words: M,
    eps: Episodes,
    key: Seq<char>,
    presented: Fences,
    mismatch: Seq<char>,
) -> bool {
    fence_missed(eps, key, presented) ==> exists|o: String|
        #[trigger] words.ensures((eps.bindings@[key1(key)].fences, presented), o) && o@
            == mismatch
}

fn word_mismatch<M: FnOnce(Fences, Fences) -> String>(
    eps: &Episodes,
    stable_binding_key: &str,
    presented: Fences,
    words: M,
) -> (r: String)
    requires
        eps.wf(),
        forall|a: Fences, b: Fences| #[trigger] words.requires((a, b)),
    ensures
        worded(words, *eps, stable_binding_key@, presented, r@),
{
    proof {
        reveal_strlit("");
        crate::text::empty_is(""@);
    }
    match eps.bindings.find(stable_binding_key, "") {
        Some(b) => {
            if b.state == BindingState::Bound && b.fences != presented {
                let text = words(b.fences, presented);
                proof {
                    assert(words.ensures((b.fences, presented), text));
                }
                text
            } else {
                String::new()
            }
        },
        None => String::new(),
    }
}

/// What a mutation under a fence does and answers.
pub open spec fn fenced_outcome<M: FnOnce(Fences, Fences) -> String>(
    eps: Episodes,
    eps_after: Episodes,
    journal: JournalView,
    journal_after: JournalView,
    stable_binding_key: Seq<char>,
    presented: Fences,
    what: Seq<char>,
    words: M,
    r: Result<usize, Problem>,
) -> bool {
    &&& exists|mismatch: Seq<char>|
        {
            &&& #[trigger] worded(
                words,
                eps,
                stable_binding_key,
                presented,
                mismatch,
            )
            &&& match mutation_refusal(eps, stable_binding_key, presented, what, mismatch) {
                Some(p) => {
                    &&& r is Err
                    &&& r->Err_0@ == p
                    &&& refused_mutation(
                        eps,
                        eps_after,
                        stable_binding_key,
                        presented,
                        mismatch,
                    )
                    &&& journal_after == refused_events(
                        journal,
                        eps,
                        stable_binding_key,
                        presented,
                        what,
                    )
                },
                None => {
                    &&& r is Ok
                    &&& r->Ok_0 < eps.bindings.rows@.len()
                    &&& eps.bindings.rows@[r->Ok_0 as int] == eps.bindings@[key1(
                        stable_binding_key,
                    )]
                    &&& eps_after == eps
                    &&& journal_after == journal
                },
            }
        }
}

/// Every mutation inside an episode goes through here: the presented pair
/// must be the bound pair. Missing either fence fences the binding for good.
/// `words` is how a missed fence is put into words, of the bound pair and the
/// presented one.
pub fn fenced_mutation<M: FnOnce(Fences, Fences) -> String>(
    eps: &mut Episodes,
    journal: &mut Journal,
    stable_binding_key: &str,
    presented: Fences,
    what: &str,
    words: M,
) -> (r: Result<usize, Problem>)
    requires
        old(eps).wf(),
        forall|a: Fences, b: Fences| #[trigger] words.requires((a, b)),
    ensures
        final(eps).wf(),
        fenced_outcome(
            *old(eps),
            *final(eps),
            old(journal)@,
            final(journal)@,
            stable_binding_key@,
            presented,
            what@,
            words,
            r,
        ),
{
    let text = word_mismatch(eps, stable_binding_key, presented, words);
    let mismatch = text.as_str();
    guard_mutation(eps, journal, stable_binding_key, presented, what, mismatch)
}

/// The mutation guard, with a missed fence in words.
fn guard_mutation(
    eps: &mut Episodes,
    journal: &mut Journal,
    stable_binding_key: &str,
    presented: Fences,
    what: &str,
    mismatch: &str,
) -> (r: Result<usize, Problem>)
    requires
        old(eps).wf(),
    ensures
        final(eps).wf(),
        match mutation_refusal(*old(eps), stable_binding_key@, presented, what@, mismatch@) {
            Some(p) => {
                &&& r is Err
                &&& r->Err_0@ == p
                &&& refused_mutation(
                    *old(eps),
                    *final(eps),
                    stable_binding_key@,
                    presented,
                    mismatch@,
                )
                &&& final(journal)@ == refused_events(
                    old(journal)@,
                    *old(eps),
                    stable_binding_key@,
                    presented,
                    what@,
                )
            },
            None => {
                &&& r is Ok
                &&& r->Ok_0 < old(eps).bindings.rows@.len()
                &&& old(eps).bindings.rows@[r->Ok_0 as int] == old(eps).bindings@[key1(
                    stable_binding_key@,
                )]
                &&& *final(eps) == *old(eps)
                &&& final(journal)@ == old(journal)@
            },
        },
{
    proof {
        reveal_strlit("");
        crate::text::empty_is(""@);
    }
    let i = match eps.bindings.position(stable_binding_key, "") {
        None => {
            return Err(not_found());
        },
        Some(i) => i,
    };
    let state = eps.bindings.rows[i].state;
    if state != BindingState::Bound {
        let q = quoted(state.as_str());
        let mut detail = cat3("the binding is ", q.as_str(), ": ");
        detail.append(what);
        detail.append(" advances nothing");
        return Err(
            problem(
                ProblemKind::Forbidden,
                "this episode binding is terminal",
                detail.as_str(),
            ),
        );
    }
    if eps.bindings.rows[i].fences != presented {
        let payload = fenced_payload(presented, eps.bindings.rows[i].fences, what);
        append_binding_event(journal, EventKind::EpisodeFenced, &eps.bindings.rows[i], payload);
        eps.bindings.rows[i].state = BindingState::Fenced;
        eps.bindings.rows[i].fenced_reason = Some(mismatch.to_owned());
        proof {
            let b = old(eps).bindings.rows@;
            let a = eps.bindings.rows@;
            crate::table::table_updated(old(eps).bindings, eps.bindings, i as int, a[i as int]);
            attempts_kept(b, a);
        }
        let detail = cat2(
            mismatch,
            "; a successor attempt gets a NEW binding row under a new stable key",
        );
        return Err(
            problem(ProblemKind::StaleLease, "the episode binding is fenced", detail.as_str()),
        );
    }
    Ok(i)
}

/// What an admitted mutation makes of the binding.
pub open spec fn mutated(
    before: Episodes,
    after: Episodes,
    key: Seq<char>,
    state: BindingState,
    episode_state: EpisodeState,
) -> bool {
    let k = key1(key);
    &&& after.placements == before.placements
    &&& after.bindings@ == before.bindings@.insert(
        k,
        EpisodeBinding { state, episode_state, ..before.bindings@[k] },
    )
}

fn set_states(eps: &mut Episodes, i: usize, state: BindingState, episode_state: EpisodeState)
    requires
        old(eps).wf(),
        i < old(eps).bindings.rows.len(),
    ensures
        final(eps).wf(),
        final(eps).placements == old(eps).placements,
        final(eps).bindings@ == old(eps).bindings@.insert(
            old(eps).bindings.rows@[i as int].key(),
            EpisodeBinding { state, episode_state, ..old(eps).bindings.rows@[i as int] },
        ),
{
    eps.bindings.rows[i].state = state;
    eps.bindings.rows[i].episode_state = episode_state;
    proof {
        let b = old(eps).bindings.rows@;
        let a = eps.bindings.rows@;
        crate::table::table_updated(old(eps).bindings, eps.bindings, i as int, a[i as int]);
        attempts_kept(b, a);
    }
}

/// What a checkpoint does and answers.
pub open spec fn checkpoint_outcome<M: FnOnce(Fences, Fences) -> String>(
    eps: Episodes,
    eps_after: Episodes,
    journal: JournalView,
    journal_after: JournalView,
    stable_binding_key: Seq<char>,
    presented: Fences,
    words: M,
    r: Result<(), Problem>,
) -> bool {
    &&& exists|mismatch: Seq<char>|
        {
            &&& #[trigger] worded(
                words,
                eps,
                stable_binding_key,
                presented,
                mismatch,
            )
            &&& match mutation_refusal(
                eps,
                stable_binding_key,
                presented,
                "checkpoint_commit"@,
                mismatch,
            ) {
                Some(p) => {
                    &&& r is Err
                    &&& r->Err_0@ == p
                    &&& refused_mutation(
                        eps,
                        eps_after,
                        stable_binding_key,
                        presented,
                        mismatch,
                    )
                    &&& journal_after == refused_events(
                        journal,
                        eps,
                        stable_binding_key,
                        presented,
                        "checkpoint_commit"@,
                    )
                },
                None => {
                    &&& r is Ok
                    &&& mutated(
                        eps,
                        eps_after,
                        stable_binding_key,
                        BindingState::Bound,
                        EpisodeState::Running,
                    )
                    &&& journal_after == journal
                },
            }
        }
}

/// Commits a checkpoint: the episode is running.
pub fn checkpoint<M: FnOnce(Fences, Fences) -> String>(
    eps: &mut Episodes,
    journal: &mut Journal,
    stable_binding_key: &str,
    presented: Fences,
    words: M,
) -> (r: Result<(), Problem>)
    requires
        old(eps).wf(),
        forall|a: Fences, b: Fences| #[trigger] words.requires((a, b)),
    ensures
        final(eps).wf(),
        checkpoint_outcome(
            *old(eps),
            *final(eps),
            old(journal)@,
            final(journal)@,
            stable_binding_key@,
            presented,
            words,
            r,
        ),
{
    let text = word_mismatch(eps, stable_binding_key, presented, words);
    let mismatch = text.as_str();
    let i = guard_mutation(
        eps,
        journal,
        stable_binding_key,
        presented,
        "checkpoint_commit",
        mismatch,
    )?;
    proof {
        binding_key(*eps, stable_binding_key@, i as int);
    }
    set_states(eps, i, BindingState::Bound, EpisodeState::Running);
    Ok(())
}

/// A binding found under a key carries it.
proof fn binding_key(eps: Episodes, key: Seq<char>, i: int)
    requires
        eps.bindings.wf(),
        eps.bindings@.contains_key(key1(key)),
        0 <= i < eps.bindings.rows@.len(),
        eps.bindings.rows@[i] == eps.bindings@[key1(key)],
    ensures
        eps.bindings.rows@[i].key() == key1(key),
{
    let p = crate::table::table_row(eps.bindings, key1(key));
}

/// What a yielded episode leaves behind. A successor needs a new binding.
#[derive(Debug)]
pub struct Yielded {
    pub stable_binding_key: String,
    pub episode_ref: String,
    pub continuation_ref: String,
    pub fences: Fences,
}

/// What yielding an episode does and answers.
pub open spec fn yield_outcome<M: FnOnce(Fences, Fences) -> String>(
    eps: Episodes,
    eps_after: Episodes,
    journal: JournalView,
    journal_after: JournalView,
    stable_binding_key: Seq<char>,
    presented: Fences,
    continuation_ref: Seq<char>,
    words: M,
    r: Result<Yielded, Problem>,
) -> bool {
    &&& exists|mismatch: Seq<char>|
        {
            &&& #[trigger] worded(
                words,
                eps,
                stable_binding_key,
                presented,
                mismatch,
            )
            &&& match mutation_refusal(
                eps,
                stable_binding_key,
                presented,
                "episode_yield"@,
                mismatch,
            ) {
                Some(p) => {
                    &&& r is Err
                    &&& r->Err_0@ == p
                    &&& refused_mutation(
                        eps,
                        eps_after,
                        stable_binding_key,
                        presented,
                        mismatch,
                    )
                    &&& journal_after == refused_events(
                        journal,
                        eps,
                        stable_binding_key,
                        presented,
                        "episode_yield"@,
                    )
                },
                None => {
                    let b = eps.bindings@[key1(stable_binding_key)];
                    &&& r is Ok
                    &&& r->Ok_0.stable_binding_key@ == stable_binding_key
                    &&& r->Ok_0.episode_ref@ == b.episode_ref@
                    &&& r->Ok_0.continuation_ref@ == continuation_ref
                    &&& r->Ok_0.fences == b.fences
                    &&& mutated(
                        eps,
                        eps_after,
                        stable_binding_key,
                        BindingState::Bound,
                        EpisodeState::Yielded,
                    )
                    &&& journal_after == journal
                },
            }
        }
}

/// Yields: the episode hands its continuation off.
pub fn yield_episode<M: FnOnce(Fences, Fences) -> String>(
    eps: &mut Episodes,
    journal: &mut Journal,
    stable_binding_key: &str,
    presented: Fences,
    continuation_ref: &str,
    words: M,
) -> (r: Result<Yielded, Problem>)
    requires
        old(eps).wf(),
        forall|a: Fences, b: Fences| #[trigger] words.requires((a, b)),
    ensures
        final(eps).wf(),
        yield_outcome(
            *old(eps),
            *final(eps),
            old(journal)@,
            final(journal)@,
            stable_binding_key@,
            presented,
            continuation_ref@,
            words,
            r,
        ),
{
    let text = word_mismatch(eps, stable_binding_key, presented, words);
    let mismatch = text.as_str();
    let i = guard_mutation(
        eps,
        journal,
        stable_binding_key,
        presented,
        "episode_yield",
        mismatch,
    )?;
    proof {
        binding_key(*eps, stable_binding_key@, i as int);
    }
    let left = Yielded {
        stable_binding_key: eps.bindings.rows[i].stable_binding_key.clone(),
        episode_ref: eps.bindings.rows[i].episode_ref.clone(),
        continuation_ref: continuation_ref.to_owned(),
        fences: eps.bindings.rows[i].fences,
    };
    set_states(eps, i, BindingState::Bound, EpisodeState::Yielded);
    Ok(left)
}

/// What completing an episode does and answers.
pub open spec fn complete_outcome<M: FnOnce(Fences, Fences) -> String>(
    eps: Episodes,
    eps_after: Episodes,
    journal: JournalView,
    journal_after: JournalView,
    stable_binding_key: Seq<char>,
    presented: Fences,
    words: M,
    r: Result<(), Problem>,
) -> bool {
    &&& exists|mismatch: Seq<char>|
        {
            &&& #[trigger] worded(
                words,
                eps,
                stable_binding_key,
                presented,
                mismatch,
            )
            &&& match mutation_refusal(
                eps,
                stable_binding_key,
                presented,
                "episode_complete"@,
                mismatch,
            ) {
                Some(p) => {
                    &&& r is Err
                    &&& r->Err_0@ == p
                    &&& refused_mutation(
                        eps,
                        eps_after,
                        stable_binding_key,
                        presented,
                        mismatch,
                    )
                    &&& journal_after == refused_events(
                        journal,
                        eps,
                        stable_binding_key,
                        presented,
                        "episode_complete"@,
                    )
                },
                None => {
                    &&& r is Ok
                    &&& mutated(
                        eps,
                        eps_after,
                        stable_binding_key,
                        BindingState::Released,
                        EpisodeState::Completed,
                    )
                    &&& journal_after == journal.with_binding_event(
                        binding_event(
                            EventKind::EpisodeReleased,
                            eps.bindings@[key1(stable_binding_key)],
                            released_document(eps.bindings@[key1(stable_binding_key)]),
                        ),
                    )
                },
            }
        }
}

/// Completes: the binding is released, and its reservations go to settlement.
pub fn complete<M: FnOnce(Fences, Fences) -> String>(
    eps: &mut Episodes,
    journal: &mut Journal,
    stable_binding_key: &str,
    presented: Fences,
    words: M,
) -> (r: Result<(), Problem>)
    requires
        old(eps).wf(),
        forall|a: Fences, b: Fences| #[trigger] words.requires((a, b)),
    ensures
        final(eps).wf(),
        complete_outcome(
            *old(eps),
            *final(eps),
            old(journal)@,
            final(journal)@,
            stable_binding_key@,
            presented,
            words,
            r,
        ),
{
    let text = word_mismatch(eps, stable_binding_key, presented, words);
    let mismatch = text.as_str();
    let i = guard_mutation(
        eps,
        journal,
        stable_binding_key,
        presented,
        "episode_complete",
        mismatch,
    )?;
    proof {
        binding_key(*eps, stable_binding_key@, i as int);
    }
    let payload = released_payload(&eps.bindings.rows[i]);
    append_binding_event(journal, EventKind::EpisodeReleased, &eps.bindings.rows[i], payload);
    set_states(eps, i, BindingState::Released, EpisodeState::Completed);
    Ok(())
}

// ------------------------------------------------- what is digested ----

/// What a placement's constraint digest is taken over.
pub open spec fn constraint_document(notice: Notice) -> JsonView {
    JsonView::Object(
        seq![
            text_member("activity_stream_ref"@, notice.activity_stream_ref@),
            number_member("generation"@, notice.generation),
            ("mandate_use_refs"@, text_list(views(notice.mandate_use_refs@))),
            text_member("manifestation_ref"@, notice.manifestation_ref@),
        ],
    )
}

/// What a placement's constraint digest is taken over.
pub fn constraint_subject(notice: &Notice) -> (r: Json)
    ensures
        r@ == constraint_document(*notice),
{
    let mut v: Vec<(String, Json)> = Vec::new();
    put_text(&mut v, "activity_stream_ref", notice.activity_stream_ref.as_str());
    put_number(&mut v, "generation", notice.generation);
    put(&mut v, "mandate_use_refs", list_of_texts(&notice.mandate_use_refs));
    put_text(&mut v, "manifestation_ref", notice.manifestation_ref.as_str());
    proof {
        assert(members(v@) =~= constraint_document(*notice)->Object_0);
    }
    object(v)
}

/// What a placement's allocation digest is taken over.
pub open spec fn allocation_document(notice: Notice) -> JsonView {
    JsonView::Object(
        seq![
            text_member("resource_allocation_ref"@, notice.resource_allocation_ref@),
        ],
    )
}

/// What a placement's allocation digest is taken over.
pub fn allocation_subject(notice: &Notice) -> (r: Json)
    ensures
        r@ == allocation_document(*notice),
{
    let mut v: Vec<(String, Json)> = Vec::new();
    put_text(&mut v, "resource_allocation_ref", notice.resource_allocation_ref.as_str());
    proof {
        assert(members(v@) =~= allocation_document(*notice)->Object_0);
    }
    object(v)
}

/// What a placement's manifestation digest is taken over.
pub open spec fn manifestation_document(notice: Notice) -> JsonView {
    JsonView::Object(
        seq![
            text_member("selected_manifestation_ref"@, notice.manifestation_ref@),
        ],
    )
}

/// What a placement's manifestation digest is taken over.
pub fn manifestation_subject(notice: &Notice) -> (r: Json)
    ensures
        r@ == manifestation_document(*notice),
{
    let mut v: Vec<(String, Json)> = Vec::new();
    put_text(&mut v, "selected_manifestation_ref", notice.manifestation_ref.as_str());
    proof {
        assert(members(v@) =~= manifestation_document(*notice)->Object_0);
    }
    object(v)
}

/// What the digest behind a binding's stable key is taken over: the episode, its
/// attempt and the invocation, and nothing of the clock.
pub open spec fn attempt_document(
    episode_ref: Seq<char>,
    byom_attempt_ref: Seq<char>,
    placed: PlacementRow,
) -> JsonView {
    JsonView::Object(
        seq![
            text_member("byom_attempt_ref"@, byom_attempt_ref),
            text_member("episode_ref"@, episode_ref),
            text_member("kovee_invocation_ref"@, placed.kovee_invocation_ref@),
        ],
    )
}

/// What the digest behind a binding's stable key is taken over: the episode, its
/// attempt and the invocation, and nothing of the clock.
pub fn attempt_subject(
    episode_ref: &str,
    byom_attempt_ref: &str,
    placed: &PlacementRow,
) -> (r: Json)
    ensures
        r@ == attempt_document(episode_ref@, byom_attempt_ref@, *placed),
{
    let mut v: Vec<(String, Json)> = Vec::new();
    put_text(&mut v, "byom_attempt_ref", byom_attempt_ref);
    put_text(&mut v, "episode_ref", episode_ref);
    put_text(&mut v, "kovee_invocation_ref", placed.kovee_invocation_ref.as_str());
    proof {
        assert(members(v@) =~= attempt_document(
            episode_ref@,
            byom_attempt_ref@,
            *placed,
        )->Object_0);
    }
    object(v)
}

/// What a binding's context-source digest is taken over.
pub open spec fn context_source_document(notice: Notice) -> JsonView {
    JsonView::Object(
        seq![
            text_member("activity_stream_ref"@, notice.activity_stream_ref@),
            text_member("context_manifest_ref"@, notice.context_manifest_ref@),
            number_member("generation"@, notice.generation),
        ],
    )
}

/// What a binding's context-source digest is taken over.
pub fn context_source_subject(notice: &Notice) -> (r: Json)
    ensures
        r@ == context_source_document(*notice),
{
    let mut v: Vec<(String, Json)> = Vec::new();
    put_text(&mut v, "activity_stream_ref", notice.activity_stream_ref.as_str());
    put_text(&mut v, "context_manifest_ref", notice.context_manifest_ref.as_str());
    put_number(&mut v, "generation", notice.generation);
    proof {
        assert(members(v@) =~= context_source_document(*notice)->Object_0);
    }
    object(v)
}

/// What a binding's reservation digest is taken over.
pub open spec fn reservation_document(notice: Notice) -> JsonView {
    JsonView::Object(
        seq![
            text_member("byom_budget_reservation_ref"@, notice.byom_budget_reservation_ref@),
        ],
    )
}

/// What a binding's reservation digest is taken over.
pub fn reservation_subject(notice: &Notice) -> (r: Json)
    ensures
        r@ == reservation_document(*notice),
{
    let mut v: Vec<(String, Json)> = Vec::new();
    put_text(&mut v, "byom_budget_reservation_ref", notice.byom_budget_reservation_ref.as_str());
    proof {
        assert(members(v@) =~= reservation_document(*notice)->Object_0);
    }
    object(v)
}

/// What a binding's dependency digest is taken over.
pub open spec fn dependency_document(placed: PlacementRow, notice: Notice) -> JsonView {
    JsonView::Object(
        seq![
            ("admission_ref"@, nullable(opt_view(placed.admission_ref))),
            text_member("placement_id"@, placed.placement_id@),
            text_member("resource_allocation_ref"@, notice.resource_allocation_ref@),
        ],
    )
}

/// What a binding's dependency digest is taken over.
pub fn dependency_subject(placed: &PlacementRow, notice: &Notice) -> (r: Json)
    ensures
        r@ == dependency_document(*placed, *notice),
{
    let mut v: Vec<(String, Json)> = Vec::new();
    put(&mut v, "admission_ref", nullable_text(&placed.admission_ref));
    put_text(&mut v, "placement_id", placed.placement_id.as_str());
    put_text(&mut v, "resource_allocation_ref", notice.resource_allocation_ref.as_str());
    proof {
        assert(members(v@) =~= dependency_document(*placed, *notice)->Object_0);
    }
    object(v)
}

/// What a binding's context-manifest digest is taken over.
pub open spec fn context_manifest_document(notice: Notice) -> JsonView {
    JsonView::Object(
        seq![
            text_member("context_manifest_ref"@, notice.context_manifest_ref@),
        ],
    )
}

/// What a binding's context-manifest digest is taken over.
pub fn context_manifest_subject(notice: &Notice) -> (r: Json)
    ensures
        r@ == context_manifest_document(*notice),
{
    let mut v: Vec<(String, Json)> = Vec::new();
    put_text(&mut v, "context_manifest_ref", notice.context_manifest_ref.as_str());
    proof {
        assert(members(v@) =~= context_manifest_document(*notice)->Object_0);
    }
    object(v)
}

// --------------------------------------------------- what byom is asked ----

/// The request that asks byom to admit a placement.
pub open spec fn placement_admit_document(version: JsonView, placed: PlacementRow) -> JsonView {
    JsonView::Object(
        seq![
            number_member("kovee_fence_epoch"@, placed.kovee_fence_epoch),
            ("kovee_placement_digest"@, stored(placed.digest@)),
            text_member("kovee_placement_ref"@, placed.placement_id@),
            number_member("kovee_placement_revision"@, placed.revision),
            (
                "meta"@,
                JsonView::Object(
                    seq![
                        text_member("expected_endpoint_incarnation"@, placed.host_runtime_binding@),
                        number_member("expected_recovery_epoch"@, 0),
                        text_member("idempotency_key"@, "admit-"@ + placed.placement_id@),
                        text_member("request_id"@, "req-"@ + placed.placement_id@),
                    ],
                ),
            ),
            text_member("op"@, "placement_admit"@),
            ("resource_allocation_digest"@, stored(placed.resource_allocation_digest@)),
            text_member("resource_allocation_ref"@, placed.resource_allocation_ref@),
            ("version"@, version),
        ],
    )
}

/// The request that asks byom to admit a placement.
pub fn placement_admit_request(version: &Json, placed: &PlacementRow) -> (r: Json)
    ensures
        r@ == placement_admit_document(version@, *placed),
{
    let mut meta_members: Vec<(String, Json)> = Vec::new();
    put_text(&mut meta_members, "expected_endpoint_incarnation", placed.host_runtime_binding.as_str());
    put_number(&mut meta_members, "expected_recovery_epoch", 0);
    put_text(&mut meta_members, "idempotency_key", cat2("admit-", placed.placement_id.as_str()).as_str());
    put_text(&mut meta_members, "request_id", cat2("req-", placed.placement_id.as_str()).as_str());
    proof {
        assert(members(meta_members@) =~= (JsonView::Object(
                seq![
                    text_member("expected_endpoint_incarnation"@, placed.host_runtime_binding@),
                    number_member("expected_recovery_epoch"@, 0),
                    text_member("idempotency_key"@, "admit-"@ + placed.placement_id@),
                    text_member("request_id"@, "req-"@ + placed.placement_id@),
                ],
            ))->Object_0);
    }
    let mut v: Vec<(String, Json)> = Vec::new();
    put_number(&mut v, "kovee_fence_epoch", placed.kovee_fence_epoch);
    put(&mut v, "kovee_placement_digest", read_stored(placed.digest.as_str()));
    put_text(&mut v, "kovee_placement_ref", placed.placement_id.as_str());
    put_number(&mut v, "kovee_placement_revision", placed.revision);
    put(&mut v, "meta", object(meta_members));
    put_text(&mut v, "op", "placement_admit");
    put(&mut v, "resource_allocation_digest", read_stored(placed.resource_allocation_digest.as_str()));
    put_text(&mut v, "resource_allocation_ref", placed.resource_allocation_ref.as_str());
    put(&mut v, "version", version.copy());
    proof {
        assert(members(v@) =~= placement_admit_document(version@, *placed)->Object_0);
    }
    object(v)
}

/// The request for an episode.
pub open spec fn episode_request_document(version: JsonView, notice: Notice) -> JsonView {
    JsonView::Object(
        seq![
            text_member("activity_stream_ref"@, notice.activity_stream_ref@),
            number_member("generation"@, notice.generation),
            text_member("op"@, "episode_request"@),
            text_member("participant_ref"@, notice.participant_ref@),
            text_member("resource_allocation_ref"@, notice.resource_allocation_ref@),
            ("version"@, version),
        ],
    )
}

/// The request for an episode.
pub fn episode_request(version: &Json, notice: &Notice) -> (r: Json)
    ensures
        r@ == episode_request_document(version@, *notice),
{
    let mut v: Vec<(String, Json)> = Vec::new();
    put_text(&mut v, "activity_stream_ref", notice.activity_stream_ref.as_str());
    put_number(&mut v, "generation", notice.generation);
    put_text(&mut v, "op", "episode_request");
    put_text(&mut v, "participant_ref", notice.participant_ref.as_str());
    put_text(&mut v, "resource_allocation_ref", notice.resource_allocation_ref.as_str());
    put(&mut v, "version", version.copy());
    proof {
        assert(members(v@) =~= episode_request_document(version@, *notice)->Object_0);
    }
    object(v)
}

/// The request that claims an episode for a placement.
pub open spec fn episode_claim_document(
    version: JsonView,
    episode_ref: Seq<char>,
    placed: PlacementRow,
) -> JsonView {
    JsonView::Object(
        seq![
            text_member("episode_ref"@, episode_ref),
            number_member("kovee_fence_epoch"@, placed.kovee_fence_epoch),
            text_member("kovee_placement_ref"@, placed.placement_id@),
            text_member("op"@, "episode_claim"@),
            ("version"@, version),
        ],
    )
}

/// The request that claims an episode for a placement.
pub fn episode_claim_request(
    version: &Json,
    episode_ref: &str,
    placed: &PlacementRow,
) -> (r: Json)
    ensures
        r@ == episode_claim_document(version@, episode_ref@, *placed),
{
    let mut v: Vec<(String, Json)> = Vec::new();
    put_text(&mut v, "episode_ref", episode_ref);
    put_number(&mut v, "kovee_fence_epoch", placed.kovee_fence_epoch);
    put_text(&mut v, "kovee_placement_ref", placed.placement_id.as_str());
    put_text(&mut v, "op", "episode_claim");
    put(&mut v, "version", version.copy());
    proof {
        assert(members(v@) =~= episode_claim_document(version@, episode_ref@, *placed)->Object_0);
    }
    object(v)
}

/// The request that starts a claimed episode, under both fences already.
pub open spec fn episode_start_document(
    version: JsonView,
    episode_ref: Seq<char>,
    byom_attempt_ref: Seq<char>,
    fences: Fences,
) -> JsonView {
    JsonView::Object(
        seq![
            text_member("byom_attempt_ref"@, byom_attempt_ref),
            number_member("byom_fence_epoch"@, fences.byom),
            text_member("episode_ref"@, episode_ref),
            number_member("kovee_invocation_fence"@, fences.kovee),
            text_member("op"@, "episode_start"@),
            ("version"@, version),
        ],
    )
}

/// The request that starts a claimed episode, under both fences already.
pub fn episode_start_request(
    version: &Json,
    episode_ref: &str,
    byom_attempt_ref: &str,
    fences: Fences,
) -> (r: Json)
    ensures
        r@ == episode_start_document(version@, episode_ref@, byom_attempt_ref@, fences),
{
    let mut v: Vec<(String, Json)> = Vec::new();
    put_text(&mut v, "byom_attempt_ref", byom_attempt_ref);
    put_number(&mut v, "byom_fence_epoch", fences.byom);
    put_text(&mut v, "episode_ref", episode_ref);
    put_number(&mut v, "kovee_invocation_fence", fences.kovee);
    put_text(&mut v, "op", "episode_start");
    put(&mut v, "version", version.copy());
    proof {
        assert(members(v@) =~= episode_start_document(
            version@,
            episode_ref@,
            byom_attempt_ref@,
            fences,
        )->Object_0);
    }
    object(v)
}

// ------------------------------------------------------ reading it back ----

impl Listed for EpisodeBinding {
    open spec fn precedes(&self, other: &Self) -> bool {
        by_two(
            self.created_at@,
            self.stable_binding_key@,
            other.created_at@,
            other.stable_binding_key@,
        )
    }

    fn comes_before(&self, other: &Self) -> (r: bool) {
        comes_first(
            self.created_at.as_str(),
            self.stable_binding_key.as_str(),
            other.created_at.as_str(),
            other.stable_binding_key.as_str(),
        )
    }

    proof fn weak_order(a: &Self, b: &Self, c: &Self) {
        by_two_weak(
            a.created_at@,
            a.stable_binding_key@,
            b.created_at@,
            b.stable_binding_key@,
            c.created_at@,
            c.stable_binding_key@,
        );
    }
}

/// Whether a listing shows a binding: the realm's, and under the asked key,
/// or else of the asked episode.
pub open spec fn binding_shown(
    b: EpisodeBinding,
    realm: Seq<char>,
    key: Option<Seq<char>>,
    episode: Option<Seq<char>>,
) -> bool {
    &&& b.realm_ref@ == realm
    &&& match key {
        Some(k) => b.stable_binding_key@ == k,
        None => match episode {
            Some(e) => b.episode_ref@ == e,
            None => true,
        },
    }
}

/// What showing the binding of an episode answers.
pub open spec fn binding_show_outcome(
    eps: Episodes,
    realm: Seq<char>,
    stable_binding_key: Option<String>,
    episode_ref: Option<String>,
    r: Result<Vec<usize>, Problem>,
) -> bool {
    &&& ({
        let rows = eps.bindings.rows@;
        let keep = Seq::new(
            rows.len(),
            |i: int|
                binding_shown(
                    rows[i],
                    realm,
                    opt_view(stable_binding_key),
                    opt_view(episode_ref),
                ),
        );
        match r {
            Ok(list) => {
                &&& ordered_listing(rows, keep, rows.len() as int, list@)
                &&& stable_binding_key is Some ==> list@.len() > 0
            },
            Err(p) => {
                &&& p@ == not_found_view()
                &&& stable_binding_key is Some
                &&& forall|i: int| 0 <= i < rows.len() ==> !#[trigger] keep[i]
            },
        }
    })
}

/// The recorded bindings, fenced ones with the rest: by creation, then by
/// key. A key that is asked for and not recorded is not found. The answer
/// holds positions.
pub fn byom_episode_binding_show(
    eps: &Episodes,
    realm: &str,
    stable_binding_key: &Option<String>,
    episode_ref: &Option<String>,
) -> (r: Result<Vec<usize>, Problem>)
    ensures
        binding_show_outcome(
            *eps,
            realm@,
            *stable_binding_key,
            *episode_ref,
            r,
        ),
{
    let mut keep: Vec<bool> = Vec::new();
    let mut i: usize = 0;
    while i < eps.bindings.rows.len()
        invariant
            i <= eps.bindings.rows.len(),
            keep.len() == i,
            forall|j: int|
                0 <= j < i ==> #[trigger] keep@[j] == binding_shown(
                    eps.bindings.rows@[j],
                    realm@,
                    opt_view(*stable_binding_key),
                    opt_view(*episode_ref),
                ),
        decreases eps.bindings.rows.len() - i,
    {
        let b = &eps.bindings.rows[i];
        let wanted = match stable_binding_key {
            Some(k) => same(b.stable_binding_key.as_str(), k.as_str()),
            None => match episode_ref {
                Some(e) => same(b.episode_ref.as_str(), e.as_str()),
                None => true,
            },
        };
        keep.push(wanted && same(b.realm_ref.as_str(), realm));
        i = i + 1;
    }
    let list = order(&eps.bindings.rows, &keep);
    proof {
        let rows = eps.bindings.rows@;
        let want = Seq::new(
            rows.len(),
            |i: int|
                binding_shown(
                    rows[i],
                    realm@,
                    opt_view(*stable_binding_key),
                    opt_view(*episode_ref),
                ),
        );
        assert(keep@ =~= want);
        if list@.len() == 0 {
            assert forall|i: int| 0 <= i < rows.len() implies !#[trigger] want[i] by {
                if want[i] {
                    assert(list@.contains(i as usize));
                }
            }
        }
    }
    if stable_binding_key.is_some() && list.len() == 0 {
        return Err(not_found());
    }
    Ok(list)
}

// ------------------------------------------------------------------ laws ----

/// A fenced or released binding is terminal: whatever is presented, nothing
/// of it changes.
pub proof fn terminal_binding_stays(
    before: Episodes,
    after: Episodes,
    key: Seq<char>,
    presented: Fences,
    what: Seq<char>,
    mismatch: Seq<char>,
)
    requires
        before.bindings@.contains_key(key1(key)),
        before.bindings@[key1(key)].state !is Bound,
        mutation_refusal(before, key, presented, what, mismatch) is Some ==> refused_mutation(
            before,
            after,
            key,
            presented,
            mismatch,
        ),
    ensures
        mutation_refusal(before, key, presented, what, mismatch) is Some,
        after == before,
{
}

/// Missing one fence is the end of a binding: after it, no pair of fences,
/// the bound one with the rest, is let through.
pub proof fn a_missed_fence_is_final(
    before: Episodes,
    after: Episodes,
    key: Seq<char>,
    presented: Fences,
    mismatch: Seq<char>,
    later: Fences,
    what: Seq<char>,
    later_mismatch: Seq<char>,
)
    requires
        misses_fence(before, key, presented),
        refused_mutation(before, after, key, presented, mismatch),
    ensures
        mutation_refusal(after, key, later, what, later_mismatch) == Some(
            terminal_view(BindingState::Fenced, what),
        ),
{
}

/// No mutation is let through that does not present both bound fences.
pub proof fn both_fences_are_needed(
    eps: Episodes,
    key: Seq<char>,
    presented: Fences,
    what: Seq<char>,
    mismatch: Seq<char>,
)
    requires
        mutation_refusal(eps, key, presented, what, mismatch) is None,
    ensures
        presented.byom == eps.bindings@[key1(key)].fences.byom,
        presented.kovee == eps.bindings@[key1(key)].fences.kovee,
        eps.bindings@[key1(key)].state is Bound,
{
}

/// The same episode, attempt and invocation bind under one key: whatever else a
/// repeat presents, it answers the binding that stands, and changes and
/// announces nothing.
pub proof fn one_triple_binds_once<
    G: Fn(&str, &Json) -> Keyed,
    S: Fn(&EpisodeBinding) -> String,
    S2: Fn(&EpisodeBinding) -> String,
>(
    before: Episodes,
    mid: Episodes,
    after: Episodes,
    journal: JournalView,
    mid_journal: JournalView,
    after_journal: JournalView,
    gov: Governance,
    gov_again: Governance,
    res: Reservations,
    res_again: Reservations,
    realm: Seq<char>,
    placed: int,
    placed_again: int,
    notice: Notice,
    notice_again: Notice,
    episode: Seq<char>,
    attempt: Seq<char>,
    fences: Fences,
    fences_again: Fences,
    created_at: Seq<char>,
    created_again: Seq<char>,
    keyed: G,
    seal: S,
    seal_again: S2,
    first: Result<usize, Problem>,
    second: Result<usize, Problem>,
)
    requires
        before.wf(),
        mid.wf(),
        keys_all(keyed),
        0 <= placed < before.placements.rows@.len(),
        0 <= placed_again < mid.placements.rows@.len(),
        mid.placements.rows@[placed_again].kovee_invocation_ref@
            == before.placements.rows@[placed].kovee_invocation_ref@,
        bind_outcome(
            before,
            mid,
            journal,
            mid_journal,
            gov,
            res,
            realm,
            placed,
            notice,
            episode,
            attempt,
            fences,
            created_at,
            keyed,
            seal,
            first,
        ),
        first is Ok,
        bind_outcome(
            mid,
            after,
            mid_journal,
            after_journal,
            gov_again,
            res_again,
            realm,
            placed_again,
            notice_again,
            episode,
            attempt,
            fences_again,
            created_again,
            keyed,
            seal_again,
            second,
        ),
    ensures
        second is Ok,
        mid.bindings.rows@[second->Ok_0 as int] == mid.bindings.rows@[first->Ok_0 as int],
        after == mid,
        after_journal == mid_journal,
{
    reveal(keys_agree);
    let tag = "kovee-byom-episode-binding-v1"@;
    let doc = attempt_document(episode, attempt, before.placements.rows@[placed]);
    let again = attempt_document(episode, attempt, mid.placements.rows@[placed_again]);
    let x = choose|hex: Seq<char>|
        {
            &&& #[trigger] keyed_hex(keyed, tag, doc, hex)
            &&& bound_under(
                before,
                mid,
                journal,
                mid_journal,
                gov,
                res,
                realm,
                placed,
                notice,
                episode,
                attempt,
                fences,
                hex,
                created_at,
                keyed,
                seal,
                first,
            )
        };
    let y = choose|hex: Seq<char>|
        {
            &&& #[trigger] keyed_hex(keyed, tag, again, hex)
            &&& bound_under(
                mid,
                after,
                mid_journal,
                after_journal,
                gov_again,
                res_again,
                realm,
                placed_again,
                notice_again,
                episode,
                attempt,
                fences_again,
                hex,
                created_again,
                keyed,
                seal_again,
                second,
            )
        };
    assert(again == doc);
    assert(x == y);
    let k = key1(stable_key(x));
    crate::table::table_at(mid.bindings, first->Ok_0 as int);
    if before.bindings@.contains_key(k) {
        assert(mid == before);
    }
    assert(mid.bindings@.contains_key(k));
}

/// One allocation, one placement: whatever a repeated placing answers is the
/// placement of the first.
pub proof fn placed_once(eps: Episodes, realm: Seq<char>, allocation: Seq<char>, i: int, j: int)
    requires
        eps.wf(),
        of_allocation(eps.placements.rows@, realm, allocation, i),
        of_allocation(eps.placements.rows@, realm, allocation, j),
    ensures
        i == j,
{
    let rows = eps.placements.rows@;
    if i < j {
        assert(rows[i].realm_ref@ == rows[j].realm_ref@);
    } else if j < i {
        assert(rows[j].realm_ref@ == rows[i].realm_ref@);
    }
}

/// Nothing that a document of this kind (bound) is made of is lost: each part
/// stands under its own name, and two documents are the same only if all parts are.
pub proof fn bound_documents_are_told_apart(
    b: EpisodeBinding,
    b2: EpisodeBinding,
)
    requires
        bound_document(b)
            == bound_document(b2),
    ensures
        bound_document(b)->Object_0.contains(text_member("episode_ref"@, b.episode_ref@)),
        b.episode_ref@ == b2.episode_ref@,
        bound_document(b)->Object_0.contains(text_member("state"@, "bound"@)),
{
    let x = bound_document(b)->Object_0;
    let y = bound_document(b2)->Object_0;
    assert(x[0] == text_member("episode_ref"@, b.episode_ref@));
    assert(x[0] == y[0]);
    assert(x[1] == text_member("state"@, "bound"@));
}

/// Nothing that a document of this kind (fenced) is made of is lost: each part
/// stands under its own name, and two documents are the same only if all parts are.
pub proof fn fenced_documents_are_told_apart(
    presented: Fences,
    bound: Fences,
    what: Seq<char>,
    presented2: Fences,
    bound2: Fences,
    what2: Seq<char>,
)
    requires
        fenced_document(presented, bound, what)
            == fenced_document(presented2, bound2, what2),
    ensures
        fenced_document(presented, bound, what)->Object_0.contains(number_member("bound_byom_fence_epoch"@, bound.byom)),
        crate::json::number_of(bound.byom) == crate::json::number_of(bound2.byom),
        fenced_document(presented, bound, what)->Object_0.contains(number_member("bound_kovee_invocation_fence"@, bound.kovee)),
        crate::json::number_of(bound.kovee) == crate::json::number_of(bound2.kovee),
        fenced_document(presented, bound, what)->Object_0.contains(number_member("presented_byom_fence_epoch"@, presented.byom)),
        crate::json::number_of(presented.byom) == crate::json::number_of(presented2.byom),
        fenced_document(presented, bound, what)->Object_0.contains(number_member("presented_kovee_invocation_fence"@, presented.kovee)),
        crate::json::number_of(presented.kovee) == crate::json::number_of(presented2.kovee),
        fenced_document(presented, bound, what)->Object_0.contains(text_member("refused"@, what)),
        what == what2,
{
    let x = fenced_document(presented, bound, what)->Object_0;
    let y = fenced_document(presented2, bound2, what2)->Object_0;
    assert(x[0] == number_member("bound_byom_fence_epoch"@, bound.byom));
    assert(x[0] == y[0]);
    assert(x[1] == number_member("bound_kovee_invocation_fence"@, bound.kovee));
    assert(x[1] == y[1]);
    assert(x[2] == number_member("presented_byom_fence_epoch"@, presented.byom));
    assert(x[2] == y[2]);
    assert(x[3] == number_member("presented_kovee_invocation_fence"@, presented.kovee));
    assert(x[3] == y[3]);
    assert(x[4] == text_member("refused"@, what));
    assert(x[4] == y[4]);
}

/// Nothing that a document of this kind (released) is made of is lost: each part
/// stands under its own name, and two documents are the same only if all parts are.
pub proof fn released_documents_are_told_apart(
    b: EpisodeBinding,
    b2: EpisodeBinding,
)
    requires
        released_document(b)
            == released_document(b2),
    ensures
        released_document(b)->Object_0.contains(text_member("byom_budget_reservation_ref"@, b.byom_budget_reservation_ref@)),
        b.byom_budget_reservation_ref@ == b2.byom_budget_reservation_ref@,
        released_document(b)->Object_0.contains(text_member("episode_ref"@, b.episode_ref@)),
        b.episode_ref@ == b2.episode_ref@,
        released_document(b)->Object_0.contains(text_member("kovee_subordinate_reservation_ref"@, b.kovee_subordinate_reservation_ref@)),
        b.kovee_subordinate_reservation_ref@ == b2.kovee_subordinate_reservation_ref@,
        released_document(b)->Object_0.contains(text_member("settlement"@, "handed to §11.4 (usage_report is evidence only)"@)),
{
    let x = released_document(b)->Object_0;
    let y = released_document(b2)->Object_0;
    assert(x[0] == text_member("byom_budget_reservation_ref"@, b.byom_budget_reservation_ref@));
    assert(x[0] == y[0]);
    assert(x[1] == text_member("episode_ref"@, b.episode_ref@));
    assert(x[1] == y[1]);
    assert(x[2] == text_member("kovee_subordinate_reservation_ref"@, b.kovee_subordinate_reservation_ref@));
    assert(x[2] == y[2]);
    assert(x[3] == text_member("settlement"@, "handed to §11.4 (usage_report is evidence only)"@));
}

/// Nothing that a document of this kind (constraint) is made of is lost: each part
/// stands under its own name, and two documents are the same only if all parts are.
pub proof fn constraint_documents_are_told_apart(
    notice: Notice,
    notice2: Notice,
)
    requires
        constraint_document(notice)
            == constraint_document(notice2),
    ensures
        constraint_document(notice)->Object_0.contains(text_member("activity_stream_ref"@, notice.activity_stream_ref@)),
        notice.activity_stream_ref@ == notice2.activity_stream_ref@,
        constraint_document(notice)->Object_0.contains(number_member("generation"@, notice.generation)),
        crate::json::number_of(notice.generation) == crate::json::number_of(notice2.generation),
        constraint_document(notice)->Object_0.contains(("mandate_use_refs"@, text_list(views(notice.mandate_use_refs@)))),
        text_list(views(notice.mandate_use_refs@)) == text_list(views(notice2.mandate_use_refs@)),
        constraint_document(notice)->Object_0.contains(text_member("manifestation_ref"@, notice.manifestation_ref@)),
        notice.manifestation_ref@ == notice2.manifestation_ref@,
{
    let x = constraint_document(notice)->Object_0;
    let y = constraint_document(notice2)->Object_0;
    assert(x[0] == text_member("activity_stream_ref"@, notice.activity_stream_ref@));
    assert(x[0] == y[0]);
    assert(x[1] == number_member("generation"@, notice.generation));
    assert(x[1] == y[1]);
    assert(x[2] == ("mandate_use_refs"@, text_list(views(notice.mandate_use_refs@))));
    assert(x[2] == y[2]);
    assert(x[3] == text_member("manifestation_ref"@, notice.manifestation_ref@));
    assert(x[3] == y[3]);
}

/// Nothing that a document of this kind (allocation) is made of is lost: each part
/// stands under its own name, and two documents are the same only if all parts are.
pub proof fn allocation_documents_are_told_apart(
    notice: Notice,
    notice2: Notice,
)
    requires
        allocation_document(notice)
            == allocation_document(notice2),
    ensures
        allocation_document(notice)->Object_0.contains(text_member("resource_allocation_ref"@, notice.resource_allocation_ref@)),
        notice.resource_allocation_ref@ == notice2.resource_allocation_ref@,
{
    let x = allocation_document(notice)->Object_0;
    let y = allocation_document(notice2)->Object_0;
    assert(x[0] == text_member("resource_allocation_ref"@, notice.resource_allocation_ref@));
    assert(x[0] == y[0]);
}

/// Nothing that a document of this kind (manifestation) is made of is lost: each part
/// stands under its own name, and two documents are the same only if all parts are.
pub proof fn manifestation_documents_are_told_apart(
    notice: Notice,
    notice2: Notice,
)
    requires
        manifestation_document(notice)
            == manifestation_document(notice2),
    ensures
        manifestation_document(notice)->Object_0.contains(text_member("selected_manifestation_ref"@, notice.manifestation_ref@)),
        notice.manifestation_ref@ == notice2.manifestation_ref@,
{
    let x = manifestation_document(notice)->Object_0;
    let y = manifestation_document(notice2)->Object_0;
    assert(x[0] == text_member("selected_manifestation_ref"@, notice.manifestation_ref@));
    assert(x[0] == y[0]);
}

/// Nothing that a document of this kind (attempt) is made of is lost: each part
/// stands under its own name, and two documents are the same only if all parts are.
pub proof fn attempt_documents_are_told_apart(
    episode_ref: Seq<char>,
    byom_attempt_ref: Seq<char>,
    placed: PlacementRow,
    episode_ref2: Seq<char>,
    byom_attempt_ref2: Seq<char>,
    placed2: PlacementRow,
)
    requires
        attempt_document(episode_ref, byom_attempt_ref, placed)
            == attempt_document(episode_ref2, byom_attempt_ref2, placed2),
    ensures
        attempt_document(episode_ref, byom_attempt_ref, placed)->Object_0.contains(text_member("byom_attempt_ref"@, byom_attempt_ref)),
        byom_attempt_ref == byom_attempt_ref2,
        attempt_document(episode_ref, byom_attempt_ref, placed)->Object_0.contains(text_member("episode_ref"@, episode_ref)),
        episode_ref == episode_ref2,
        attempt_document(episode_ref, byom_attempt_ref, placed)->Object_0.contains(text_member("kovee_invocation_ref"@, placed.kovee_invocation_ref@)),
        placed.kovee_invocation_ref@ == placed2.kovee_invocation_ref@,
{
    let x = attempt_document(episode_ref, byom_attempt_ref, placed)->Object_0;
    let y = attempt_document(episode_ref2, byom_attempt_ref2, placed2)->Object_0;
    assert(x[0] == text_member("byom_attempt_ref"@, byom_attempt_ref));
    assert(x[0] == y[0]);
    assert(x[1] == text_member("episode_ref"@, episode_ref));
    assert(x[1] == y[1]);
    assert(x[2] == text_member("kovee_invocation_ref"@, placed.kovee_invocation_ref@));
    assert(x[2] == y[2]);
}

/// Nothing that a document of this kind (context source) is made of is lost: each part
/// stands under its own name, and two documents are the same only if all parts are.
pub proof fn context_source_documents_are_told_apart(
    notice: Notice,
    notice2: Notice,
)
    requires
        context_source_document(notice)
            == context_source_document(notice2),
    ensures
        context_source_document(notice)->Object_0.contains(text_member("activity_stream_ref"@, notice.activity_stream_ref@)),
        notice.activity_stream_ref@ == notice2.activity_stream_ref@,
        context_source_document(notice)->Object_0.contains(text_member("context_manifest_ref"@, notice.context_manifest_ref@)),
        notice.context_manifest_ref@ == notice2.context_manifest_ref@,
        context_source_document(notice)->Object_0.contains(number_member("generation"@, notice.generation)),
        crate::json::number_of(notice.generation) == crate::json::number_of(notice2.generation),
{
    let x = context_source_document(notice)->Object_0;
    let y = context_source_document(notice2)->Object_0;
    assert(x[0] == text_member("activity_stream_ref"@, notice.activity_stream_ref@));
    assert(x[0] == y[0]);
    assert(x[1] == text_member("context_manifest_ref"@, notice.context_manifest_ref@));
    assert(x[1] == y[1]);
    assert(x[2] == number_member("generation"@, notice.generation));
    assert(x[2] == y[2]);
}

/// Nothing that a document of this kind (reservation) is made of is lost: each part
/// stands under its own name, and two documents are the same only if all parts are.
pub proof fn reservation_documents_are_told_apart(
    notice: Notice,
    notice2: Notice,
)
    requires
        reservation_document(notice)
            == reservation_document(notice2),
    ensures
        reservation_document(notice)->Object_0.contains(text_member("byom_budget_reservation_ref"@, notice.byom_budget_reservation_ref@)),
        notice.byom_budget_reservation_ref@ == notice2.byom_budget_reservation_ref@,
{
    let x = reservation_document(notice)->Object_0;
    let y = reservation_document(notice2)->Object_0;
    assert(x[0] == text_member("byom_budget_reservation_ref"@, notice.byom_budget_reservation_ref@));
    assert(x[0] == y[0]);
}

/// Nothing that a document of this kind (dependency) is made of is lost: each part
/// stands under its own name, and two documents are the same only if all parts are.
pub proof fn dependency_documents_are_told_apart(
    placed: PlacementRow,
    notice: Notice,
    placed2: PlacementRow,
    notice2: Notice,
)
    requires
        dependency_document(placed, notice)
            == dependency_document(placed2, notice2),
    ensures
        dependency_document(placed, notice)->Object_0.contains(("admission_ref"@, nullable(opt_view(placed.admission_ref)))),
        opt_view(placed.admission_ref) == opt_view(placed2.admission_ref),
        dependency_document(placed, notice)->Object_0.contains(text_member("placement_id"@, placed.placement_id@)),
        placed.placement_id@ == placed2.placement_id@,
        dependency_document(placed, notice)->Object_0.contains(text_member("resource_allocation_ref"@, notice.resource_allocation_ref@)),
        notice.resource_allocation_ref@ == notice2.resource_allocation_ref@,
{
    let x = dependency_document(placed, notice)->Object_0;
    let y = dependency_document(placed2, notice2)->Object_0;
    assert(x[0] == ("admission_ref"@, nullable(opt_view(placed.admission_ref))));
    assert(x[0] == y[0]);
    assert(x[1] == text_member("placement_id"@, placed.placement_id@));
    assert(x[1] == y[1]);
    assert(x[2] == text_member("resource_allocation_ref"@, notice.resource_allocation_ref@));
    assert(x[2] == y[2]);
}

/// Nothing that a document of this kind (context manifest) is made of is lost: each part
/// stands under its own name, and two documents are the same only if all parts are.
pub proof fn context_manifest_documents_are_told_apart(
    notice: Notice,
    notice2: Notice,
)
    requires
        context_manifest_document(notice)
            == context_manifest_document(notice2),
    ensures
        context_manifest_document(notice)->Object_0.contains(text_member("context_manifest_ref"@, notice.context_manifest_ref@)),
        notice.context_manifest_ref@ == notice2.context_manifest_ref@,
{
    let x = context_manifest_document(notice)->Object_0;
    let y = context_manifest_document(notice2)->Object_0;
    assert(x[0] == text_member("context_manifest_ref"@, notice.context_manifest_ref@));
    assert(x[0] == y[0]);
}

/// Nothing that a document of this kind (placement admit) is made of is lost: each part
/// stands under its own name, and two documents are the same only if all parts are.
pub proof fn placement_admit_documents_are_told_apart(
    version: JsonView,
    placed: PlacementRow,
    version2: JsonView,
    placed2: PlacementRow,
)
    requires
        placement_admit_document(version, placed)
            == placement_admit_document(version2, placed2),
    ensures
        placement_admit_document(version, placed)->Object_0.contains(number_member("kovee_fence_epoch"@, placed.kovee_fence_epoch)),
        crate::json::number_of(placed.kovee_fence_epoch) == crate::json::number_of(placed2.kovee_fence_epoch),
        placement_admit_document(version, placed)->Object_0.contains(("kovee_placement_digest"@, stored(placed.digest@))),
        stored(placed.digest@) == stored(placed2.digest@),
        placement_admit_document(version, placed)->Object_0.contains(text_member("kovee_placement_ref"@, placed.placement_id@)),
        placed.placement_id@ == placed2.placement_id@,
        placement_admit_document(version, placed)->Object_0.contains(number_member("kovee_placement_revision"@, placed.revision)),
        crate::json::number_of(placed.revision) == crate::json::number_of(placed2.revision),
        placed.host_runtime_binding@ == placed2.host_runtime_binding@,
        "admit-"@ + placed.placement_id@ == "admit-"@ + placed2.placement_id@,
        "req-"@ + placed.placement_id@ == "req-"@ + placed2.placement_id@,
        placement_admit_document(version, placed)->Object_0.contains(text_member("op"@, "placement_admit"@)),
        placement_admit_document(version, placed)->Object_0.contains(("resource_allocation_digest"@, stored(placed.resource_allocation_digest@))),
        stored(placed.resource_allocation_digest@) == stored(placed2.resource_allocation_digest@),
        placement_admit_document(version, placed)->Object_0.contains(text_member("resource_allocation_ref"@, placed.resource_allocation_ref@)),
        placed.resource_allocation_ref@ == placed2.resource_allocation_ref@,
        placement_admit_document(version, placed)->Object_0.contains(("version"@, version)),
        version == version2,
{
    let x = placement_admit_document(version, placed)->Object_0;
    let y = placement_admit_document(version2, placed2)->Object_0;
    assert(x[0] == number_member("kovee_fence_epoch"@, placed.kovee_fence_epoch));
    assert(x[0] == y[0]);
    assert(x[1] == ("kovee_placement_digest"@, stored(placed.digest@)));
    assert(x[1] == y[1]);
    assert(x[2] == text_member("kovee_placement_ref"@, placed.placement_id@));
    assert(x[2] == y[2]);
    assert(x[3] == number_member("kovee_placement_revision"@, placed.revision));
    assert(x[3] == y[3]);
    assert(x[4] == y[4]);
    assert(x[5] == text_member("op"@, "placement_admit"@));
    assert(x[6] == ("resource_allocation_digest"@, stored(placed.resource_allocation_digest@)));
    assert(x[6] == y[6]);
    assert(x[7] == text_member("resource_allocation_ref"@, placed.resource_allocation_ref@));
    assert(x[7] == y[7]);
    assert(x[8] == ("version"@, version));
    assert(x[8] == y[8]);
    assert(x[4].1->Object_0 == y[4].1->Object_0);
    assert(x[4].1->Object_0[0] == y[4].1->Object_0[0] && x[4].1->Object_0[1] == y[4].1->Object_0[1] && x[4].1->Object_0[2] == y[4].1->Object_0[2] && x[4].1->Object_0[3] == y[4].1->Object_0[3]);
}

/// Nothing that a document of this kind (episode request) is made of is lost: each part
/// stands under its own name, and two documents are the same only if all parts are.
pub proof fn episode_request_documents_are_told_apart(
    version: JsonView,
    notice: Notice,
    version2: JsonView,
    notice2: Notice,
)
    requires
        episode_request_document(version, notice)
            == episode_request_document(version2, notice2),
    ensures
        episode_request_document(version, notice)->Object_0.contains(text_member("activity_stream_ref"@, notice.activity_stream_ref@)),
        notice.activity_stream_ref@ == notice2.activity_stream_ref@,
        episode_request_document(version, notice)->Object_0.contains(number_member("generation"@, notice.generation)),
        crate::json::number_of(notice.generation) == crate::json::number_of(notice2.generation),
        episode_request_document(version, notice)->Object_0.contains(text_member("op"@, "episode_request"@)),
        episode_request_document(version, notice)->Object_0.contains(text_member("participant_ref"@, notice.participant_ref@)),
        notice.participant_ref@ == notice2.participant_ref@,
        episode_request_document(version, notice)->Object_0.contains(text_member("resource_allocation_ref"@, notice.resource_allocation_ref@)),
        notice.resource_allocation_ref@ == notice2.resource_allocation_ref@,
        episode_request_document(version, notice)->Object_0.contains(("version"@, version)),
        version == version2,
{
    let x = episode_request_document(version, notice)->Object_0;
    let y = episode_request_document(version2, notice2)->Object_0;
    assert(x[0] == text_member("activity_stream_ref"@, notice.activity_stream_ref@));
    assert(x[0] == y[0]);
    assert(x[1] == number_member("generation"@, notice.generation));
    assert(x[1] == y[1]);
    assert(x[2] == text_member("op"@, "episode_request"@));
    assert(x[3] == text_member("participant_ref"@, notice.participant_ref@));
    assert(x[3] == y[3]);
    assert(x[4] == text_member("resource_allocation_ref"@, notice.resource_allocation_ref@));
    assert(x[4] == y[4]);
    assert(x[5] == ("version"@, version));
    assert(x[5] == y[5]);
}

/// Nothing that a document of this kind (episode claim) is made of is lost: each part
/// stands under its own name, and two documents are the same only if all parts are.
pub proof fn episode_claim_documents_are_told_apart(
    version: JsonView,
    episode_ref: Seq<char>,
    placed: PlacementRow,
    version2: JsonView,
    episode_ref2: Seq<char>,
    placed2: PlacementRow,
)
    requires
        episode_claim_document(version, episode_ref, placed)
            == episode_claim_document(version2, episode_ref2, placed2),
    ensures
        episode_claim_document(version, episode_ref, placed)->Object_0.contains(text_member("episode_ref"@, episode_ref)),
        episode_ref == episode_ref2,
        episode_claim_document(version, episode_ref, placed)->Object_0.contains(number_member("kovee_fence_epoch"@, placed.kovee_fence_epoch)),
        crate::json::number_of(placed.kovee_fence_epoch) == crate::json::number_of(placed2.kovee_fence_epoch),
        episode_claim_document(version, episode_ref, placed)->Object_0.contains(text_member("kovee_placement_ref"@, placed.placement_id@)),
        placed.placement_id@ == placed2.placement_id@,
        episode_claim_document(version, episode_ref, placed)->Object_0.contains(text_member("op"@, "episode_claim"@)),
        episode_claim_document(version, episode_ref, placed)->Object_0.contains(("version"@, version)),
        version == version2,
{
    let x = episode_claim_document(version, episode_ref, placed)->Object_0;
    let y = episode_claim_document(version2, episode_ref2, placed2)->Object_0;
    assert(x[0] == text_member("episode_ref"@, episode_ref));
    assert(x[0] == y[0]);
    assert(x[1] == number_member("kovee_fence_epoch"@, placed.kovee_fence_epoch));
    assert(x[1] == y[1]);
    assert(x[2] == text_member("kovee_placement_ref"@, placed.placement_id@));
    assert(x[2] == y[2]);
    assert(x[3] == text_member("op"@, "episode_claim"@));
    assert(x[4] == ("version"@, version));
    assert(x[4] == y[4]);
}

/// Nothing that a document of this kind (episode start) is made of is lost: each part
/// stands under its own name, and two documents are the same only if all parts are.
pub proof fn episode_start_documents_are_told_apart(
    version: JsonView,
    episode_ref: Seq<char>,
    byom_attempt_ref: Seq<char>,
    fences: Fences,
    version2: JsonView,
    episode_ref2: Seq<char>,
    byom_attempt_ref2: Seq<char>,
    fences2: Fences,
)
    requires
        episode_start_document(version, episode_ref, byom_attempt_ref, fences)
            == episode_start_document(version2, episode_ref2, byom_attempt_ref2, fences2),
    ensures
        episode_start_document(version, episode_ref, byom_attempt_ref, fences)->Object_0.contains(text_member("byom_attempt_ref"@, byom_attempt_ref)),
        byom_attempt_ref == byom_attempt_ref2,
        episode_start_document(version, episode_ref, byom_attempt_ref, fences)->Object_0.contains(number_member("byom_fence_epoch"@, fences.byom)),
        crate::json::number_of(fences.byom) == crate::json::number_of(fences2.byom),
        episode_start_document(version, episode_ref, byom_attempt_ref, fences)->Object_0.contains(text_member("episode_ref"@, episode_ref)),
        episode_ref == episode_ref2,
        episode_start_document(version, episode_ref, byom_attempt_ref, fences)->Object_0.contains(number_member("kovee_invocation_fence"@, fences.kovee)),
        crate::json::number_of(fences.kovee) == crate::json::number_of(fences2.kovee),
        episode_start_document(version, episode_ref, byom_attempt_ref, fences)->Object_0.contains(text_member("op"@, "episode_start"@)),
        episode_start_document(version, episode_ref, byom_attempt_ref, fences)->Object_0.contains(("version"@, version)),
        version == version2,
{
    let x = episode_start_document(version, episode_ref, byom_attempt_ref, fences)->Object_0;
    let y = episode_start_document(version2, episode_ref2, byom_attempt_ref2, fences2)->Object_0;
    assert(x[0] == text_member("byom_attempt_ref"@, byom_attempt_ref));
    assert(x[0] == y[0]);
    assert(x[1] == number_member("byom_fence_epoch"@, fences.byom));
    assert(x[1] == y[1]);
    assert(x[2] == text_member("episode_ref"@, episode_ref));
    assert(x[2] == y[2]);
    assert(x[3] == number_member("kovee_invocation_fence"@, fences.kovee));
    assert(x[3] == y[3]);
    assert(x[4] == text_member("op"@, "episode_start"@));
    assert(x[5] == ("version"@, version));
    assert(x[5] == y[5]);
}

/// A placement is owed where the realm has an active mapping of the notice's
/// society and epoch and the name is free, and is then made as the notice says:
/// revision one, not started, not admitted. Of a refused notice nothing stays.
pub proof fn a_placement_is_made_as_noticed<
    G: Fn(&str, &Json) -> Keyed,
    S: Fn(&PlacementRow) -> String,
>(
    before: Episodes,
    after: Episodes,
    gov: Governance,
    realm: Seq<char>,
    notice: Notice,
    invocation: Seq<char>,
    mint: PlacementMint,
    keyed: G,
    seal: S,
    r: Result<usize, Problem>,
)
    requires
        before.wf(),
        after.wf(),
        place_outcome(before, after, gov, realm, notice, invocation, mint, keyed, seal, r),
    ensures
        r is Err ==> after == before,
        seam_of(gov, realm) is None ==> r is Err && r->Err_0@.kind == ProblemKind::Forbidden,
        seam_of(gov, realm) matches Some(s) && s.1.society_ref@ != notice.society_ref@ ==> r is Err
            && r->Err_0@.kind == ProblemKind::Forbidden,
        seam_of(gov, realm) matches Some(s) && s.1.society_recovery_epoch
            != notice.recovery_epoch ==> r is Err && r->Err_0@.kind == ProblemKind::Forbidden,
        seam_of(gov, realm) matches Some(s) && s.1.society_ref@ == notice.society_ref@
            && s.1.society_recovery_epoch == notice.recovery_epoch && !before.placements@.contains_key(
            key1(mint.placement_id@),
        ) ==> r is Ok,
        r is Ok ==> {
            let p = after.placements.rows@[r->Ok_0 as int];
            &&& r->Ok_0 < after.placements.rows@.len()
            &&& p.realm_ref@ == realm
            &&& p.resource_allocation_ref@ == notice.resource_allocation_ref@
            &&& after.bindings == before.bindings
            &&& forall|i: int|
                0 <= i < before.placements.rows@.len() ==> after.placements.rows@[i]
                    == #[trigger] before.placements.rows@[i]
        },
        r is Ok && r->Ok_0 < before.placements.rows@.len() ==> after == before,
        r is Ok && r->Ok_0 >= before.placements.rows@.len() ==> {
            let p = after.placements.rows@[r->Ok_0 as int];
            &&& after.placements@ == before.placements@.insert(key1(mint.placement_id@), p)
            &&& !before.placements@.contains_key(key1(mint.placement_id@))
            &&& p.placement_id@ == mint.placement_id@
            &&& p.created_at@ == mint.created_at@
            &&& p.revision == 1
            &&& p.kovee_fence_epoch == 1
            &&& !p.started
            &&& p.admission_ref is None
            &&& p.admission_digest is None
            &&& p.admitted_at is None
            &&& p.selected_manifestation_ref@ == notice.manifestation_ref@
            &&& p.kovee_invocation_ref@ == invocation
            &&& p.host_runtime_binding@.len() == 14 + realm.len()
            &&& p.host_runtime_binding@.skip(14) == realm
            &&& keyed_text(
                keyed,
                "kovee-placement-binding-v1"@,
                allocation_document(notice),
                p.resource_allocation_digest@,
            )
            &&& keyed_text(
                keyed,
                "kovee-placement-binding-v1"@,
                manifestation_document(notice),
                p.selected_manifestation_digest@,
            )
            &&& keyed_text(
                keyed,
                "kovee-placement-constraint-v1"@,
                constraint_document(notice),
                p.placement_constraint_digest@,
            )
            &&& exists|draft: &PlacementRow, out: String|
                {
                    &&& draft.placement_id == p.placement_id
                    &&& draft.placement_constraint_digest == p.placement_constraint_digest
                    &&& draft.kovee_invocation_ref == p.kovee_invocation_ref
                    &&& draft.resource_allocation_digest == p.resource_allocation_digest
                    &&& out@ == p.digest@
                    &&& #[trigger] seal.ensures((draft,), out)
                }
        },
{
    reveal_strlit("kovee-runtime:");
    assert("kovee-runtime:"@.len() == 14);
    if r is Ok && r->Ok_0 >= before.placements.rows@.len() {
        let p = after.placements.rows@.last();
        assert(after.placements.rows@ == before.placements.rows@.push(p));
        crate::table::table_pushed(before.placements, after.placements, p);
        assert(p.host_runtime_binding@.skip(14) =~= realm);
    }
}

/// A resource allocation is placed once: asked for again, whatever else the
/// notice says, the placement that stands is given back and nothing changes.
pub proof fn an_allocation_is_placed_once<
    G: Fn(&str, &Json) -> Keyed,
    S: Fn(&PlacementRow) -> String,
>(
    before: Episodes,
    mid: Episodes,
    after: Episodes,
    gov: Governance,
    realm: Seq<char>,
    notice: Notice,
    again: Notice,
    invocation: Seq<char>,
    other: Seq<char>,
    mint: PlacementMint,
    mint_again: PlacementMint,
    keyed: G,
    seal: S,
    first: Result<usize, Problem>,
    second: Result<usize, Problem>,
)
    requires
        before.wf(),
        mid.wf(),
        again.society_ref@ == notice.society_ref@,
        again.recovery_epoch == notice.recovery_epoch,
        again.resource_allocation_ref@ == notice.resource_allocation_ref@,
        place_outcome(before, mid, gov, realm, notice, invocation, mint, keyed, seal, first),
        first is Ok,
        place_outcome(mid, after, gov, realm, again, other, mint_again, keyed, seal, second),
    ensures
        second == first,
        after == mid,
{
    assert(of_allocation(
        mid.placements.rows@,
        realm,
        notice.resource_allocation_ref@,
        first->Ok_0 as int,
    ));
    placed_once(
        mid,
        realm,
        notice.resource_allocation_ref@,
        first->Ok_0 as int,
        second->Ok_0 as int,
    );
}

/// An admission is kept as byom answered it, against the very revision that was
/// placed; another revision or a nameless admission is refused; an admitted
/// placement is not asked for again; and nothing else of the placement moves.
pub proof fn an_admission_is_kept_as_answered<
    A: FnOnce(&Json) -> Result<AdmissionReply, Problem>,
>(
    before: Episodes,
    after: Episodes,
    id: Seq<char>,
    other: Seq<char>,
    version: Json,
    ask: A,
    at: Seq<char>,
    r: Result<(), Problem>,
)
    requires
        placement_outcome(before, after, id, version, ask, at, r),
        other != id,
    ensures
        r is Err ==> after == before,
        r is Ok ==> before.placements@.contains_key(key1(id)),
        before.placements@.contains_key(key1(id)) && before.placements@[key1(id)].admission_ref
            is Some ==> r is Ok && after == before,
        r is Ok ==> {
            let p = before.placements@[key1(id)];
            let q = after.placements@[key1(id)];
            &&& after.placements@.contains_key(key1(id))
            &&& after.bindings == before.bindings
            &&& q.admission_ref is Some
            &&& q.revision == p.revision
            &&& q.started == p.started
            &&& q.digest == p.digest
            &&& q.kovee_fence_epoch == p.kovee_fence_epoch
            &&& q.kovee_invocation_ref == p.kovee_invocation_ref
            &&& q.resource_allocation_ref == p.resource_allocation_ref
            &&& q.realm_ref == p.realm_ref
            &&& after.placements@.contains_key(key1(other)) == before.placements@.contains_key(
                key1(other),
            )
            &&& before.placements@.contains_key(key1(other)) ==> after.placements@[key1(other)]
                == before.placements@[key1(other)]
        },
        before.placements@.contains_key(key1(id)) && before.placements@[key1(id)].admission_ref
            is None ==> exists|reply: Result<AdmissionReply, Problem>|
            {
                let p = before.placements@[key1(id)];
                &&& #[trigger] asked(
                    ask,
                    placement_admit_document(version@, before.placements@[key1(id)]),
                    reply,
                )
                &&& r is Ok <==> {
                    &&& reply is Ok
                    &&& reply->Ok_0.admission_id is Some
                    &&& reply->Ok_0.kovee_placement_revision == Some(p.revision)
                }
                &&& reply is Err ==> r is Err && r->Err_0 == reply->Err_0
                &&& reply is Ok && reply->Ok_0.admission_id is None ==> r is Err
                    && r->Err_0@.kind == ProblemKind::Unavailable
                &&& reply is Ok && reply->Ok_0.admission_id is Some
                    && reply->Ok_0.kovee_placement_revision != Some(p.revision) ==> r is Err
                    && r->Err_0@.kind == ProblemKind::Forbidden
                &&& r is Ok ==> {
                    let q = after.placements@[key1(id)];
                    &&& opt_view(q.admission_ref) == opt_view(reply->Ok_0.admission_id)
                    &&& opt_view(q.admission_digest) == Some(reply->Ok_0.digest@)
                    &&& opt_view(q.admitted_at) == Some(at)
                }
            },
{
    assert(key1(other).0 == other);
    assert(key1(id).0 == id);
    if before.placements@.contains_key(key1(id)) && before.placements@[key1(id)].admission_ref
        is None {
        let p = before.placements@[key1(id)];
        let reply = choose|reply: Result<AdmissionReply, Problem>|
            {
                &&& #[trigger] asked(ask, placement_admit_document(version@, p), reply)
                &&& admit_outcome(before, after, key1(id), reply, at, r)
            };
        assert(asked(ask, placement_admit_document(version@, p), reply));
    }
}

/// A new binding is of the placement, the notice, the attempt and the seam that
/// it was made under, under the fences that were claimed; it is bound and
/// running, it starts its placement and no other, and one event says so.
pub proof fn a_binding_is_made_as_claimed<
    G: Fn(&str, &Json) -> Keyed,
    S: Fn(&EpisodeBinding) -> String,
>(
    before: Episodes,
    after: Episodes,
    journal: JournalView,
    after_journal: JournalView,
    gov: Governance,
    res: Reservations,
    realm: Seq<char>,
    placed: int,
    notice: Notice,
    episode: Seq<char>,
    attempt: Seq<char>,
    fences: Fences,
    created_at: Seq<char>,
    keyed: G,
    seal: S,
    r: Result<usize, Problem>,
)
    requires
        before.wf(),
        after.wf(),
        0 <= placed < before.placements.rows@.len(),
        bind_outcome(
            before,
            after,
            journal,
            after_journal,
            gov,
            res,
            realm,
            placed,
            notice,
            episode,
            attempt,
            fences,
            created_at,
            keyed,
            seal,
            r,
        ),
    ensures
        r is Err ==> after == before && after_journal == journal,
        r is Ok ==> r->Ok_0 < after.bindings.rows@.len(),
        r is Ok ==> forall|i: int|
            0 <= i < before.bindings.rows@.len() ==> after.bindings.rows@[i]
                == #[trigger] before.bindings.rows@[i],
        r is Ok && r->Ok_0 < before.bindings.rows@.len() ==> after == before && after_journal
            == journal,
        r is Ok && r->Ok_0 >= before.bindings.rows@.len() ==> {
            let p = before.placements.rows@[placed];
            let b = after.bindings.rows@[r->Ok_0 as int];
            let e = after_journal.events.last();
            &&& seam_of(gov, realm) is Some
            &&& after.placements.rows@.len() == before.placements.rows@.len()
            &&& after.placements.rows@[placed].started
            &&& after.placements.rows@[placed].placement_id == p.placement_id
            &&& after.placements.rows@[placed].admission_ref == p.admission_ref
            &&& after.placements.rows@[placed].kovee_fence_epoch == p.kovee_fence_epoch
            &&& after.placements.rows@[placed].revision == p.revision
            &&& forall|i: int|
                0 <= i < before.placements.rows@.len() && i != placed ==> after.placements.rows@[i]
                    == #[trigger] before.placements.rows@[i]
            &&& b.realm_ref@ == realm
            &&& b.placement_id@ == p.placement_id@
            &&& b.kovee_invocation_ref@ == p.kovee_invocation_ref@
            &&& b.episode_ref@ == episode
            &&& b.byom_attempt_ref@ == attempt
            &&& b.fences.byom == fences.byom
            &&& b.fences.kovee == fences.kovee
            &&& b.byom_endpoint_ref@ == (seam_of(gov, realm)->0).0.byom_endpoint_ref@
            &&& b.endpoint_incarnation@ == (seam_of(gov, realm)->0).0.endpoint_incarnation@
            &&& b.society_ref@ == (seam_of(gov, realm)->0).1.society_ref@
            &&& b.recovery_epoch == (seam_of(gov, realm)->0).1.society_recovery_epoch
            &&& b.participant_ref@ == notice.participant_ref@
            &&& b.participant_binding_epoch == notice.participant_binding_epoch
            &&& b.manifestation_ref@ == notice.manifestation_ref@
            &&& b.activity_stream_ref@ == notice.activity_stream_ref@
            &&& b.generation == notice.generation
            &&& b.mandate_use_refs@ == notice.mandate_use_refs@
            &&& b.byom_budget_reservation_ref@ == notice.byom_budget_reservation_ref@
            &&& b.external_budget_bridge_ref@ == notice.external_budget_bridge_ref@
            &&& b.context_manifest_ref@ == notice.context_manifest_ref@
            &&& b.created_at@ == created_at
            &&& b.state is Bound
            &&& b.episode_state is Running
            &&& b.fenced_reason is None
            &&& b.allowed_local_commitments@.len() == 2
            &&& b.allowed_local_commitments@[0]@ == "contribution_append"@
            &&& b.allowed_local_commitments@[1]@ == "attention_mark"@
            &&& after_journal.events == journal.events.push(e)
            &&& after_journal.audits.len() == journal.audits.len() + 1
            &&& e.kind == EventKind::EpisodeBound
            &&& e.resource_ref == b.stable_binding_key@
            &&& e.stream_id == b.stable_binding_key@
            &&& e.correlation_ref == episode
            &&& e.once
        },
        r is Ok && r->Ok_0 >= before.bindings.rows@.len() ==> {
            let p = before.placements.rows@[placed];
            let b = after.bindings.rows@[r->Ok_0 as int];
            &&& keyed_text(
                keyed,
                "kovee-episode-context-source-v1"@,
                context_source_document(notice),
                b.context_source_digest@,
            )
            &&& keyed_text(
                keyed,
                "kovee-byom-episode-binding-v1"@,
                reservation_document(notice),
                b.byom_budget_reservation_digest@,
            )
            &&& keyed_text(
                keyed,
                "kovee-byom-episode-binding-v1"@,
                dependency_document(p, notice),
                b.dependency_digest@,
            )
            &&& keyed_text(
                keyed,
                "kovee-byom-episode-binding-v1"@,
                context_manifest_document(notice),
                b.context_manifest_digest@,
            )
            &&& exists|hex: Seq<char>|
                {
                    &&& #[trigger] keyed_hex(
                        keyed,
                        "kovee-byom-episode-binding-v1"@,
                        attempt_document(episode, attempt, p),
                        hex,
                    )
                    &&& b.stable_binding_key@ == "ebk-"@ + hex.take(32)
                }
        },
{
    let hex = choose|hex: Seq<char>|
        {
            &&& #[trigger] keyed_hex(
                keyed,
                "kovee-byom-episode-binding-v1"@,
                attempt_document(episode, attempt, before.placements.rows@[placed]),
                hex,
            )
            &&& bound_under(
                before,
                after,
                journal,
                after_journal,
                gov,
                res,
                realm,
                placed,
                notice,
                episode,
                attempt,
                fences,
                hex,
                created_at,
                keyed,
                seal,
                r,
            )
        };
    if r is Ok && r->Ok_0 >= before.bindings.rows@.len() {
        let b = after.bindings.rows@[r->Ok_0 as int];
        assert(b == after.bindings.rows@.last());
        let v = crate::text::views(b.allowed_local_commitments@);
        assert(v == local_commitments());
        assert(v.len() == 2);
        assert(v[0] == "contribution_append"@);
        assert(v[1] == "attention_mark"@);
    }
}

/// The subordinate reservation that a binding names is one of the bridge of its
/// notice, the first such; only of a bridge without any is it the absent one.
pub proof fn a_binding_names_its_bridges_reservation(
    res: Reservations,
    bridge: Seq<char>,
    reference: Seq<char>,
    digest: Seq<char>,
    i: int,
)
    requires
        bridge_reservation(res, bridge, reference, digest),
        0 <= i < res.table.rows@.len(),
        res.table.rows@[i].external_budget_bridge_ref@ == bridge,
    ensures
        exists|j: int|
            {
                &&& 0 <= j <= i
                &&& (#[trigger] res.table.rows@[j]).external_budget_bridge_ref@ == bridge
                &&& res.table.rows@[j].subordinate_reservation_ref@ == reference
                &&& res.table.rows@[j].digest@ == digest
            },
{
    let j = choose|j: int|
        {
            &&& 0 <= j < res.table.rows@.len()
            &&& (#[trigger] res.table.rows@[j]).external_budget_bridge_ref@ == bridge
            &&& reference == res.table.rows@[j].subordinate_reservation_ref@
            &&& digest == res.table.rows@[j].digest@
            &&& forall|k: int|
                0 <= k < j ==> (#[trigger] res.table.rows@[k]).external_budget_bridge_ref@ != bridge
        };
    assert(res.table.rows@[i].external_budget_bridge_ref@ == bridge);
    assert(res.table.rows@[j].external_budget_bridge_ref@ == bridge);
}

/// Without a reservation of its bridge a binding names the absent one.
pub proof fn a_bridge_without_reservation_is_absent(
    res: Reservations,
    bridge: Seq<char>,
    reference: Seq<char>,
    digest: Seq<char>,
)
    requires
        bridge_reservation(res, bridge, reference, digest),
        forall|j: int|
            0 <= j < res.table.rows@.len() ==> (
            #[trigger] res.table.rows@[j]).external_budget_bridge_ref@ != bridge,
    ensures
        reference == "ksr-absent"@,
        digest.len() == 64,
        forall|k: int| 0 <= k < 64 ==> #[trigger] digest[k] == '0',
{
}

/// No episode starts before its placement is admitted, byom names the episode,
/// the attempt and its fence, and says that it began; each refusal of byom is
/// handed on as it came, and leaves nothing behind.
pub proof fn a_start_skips_no_stage<
    G: Fn(&str, &Json) -> Keyed,
    S: Fn(&EpisodeBinding) -> String,
>(
    before: Episodes,
    after: Episodes,
    journal: JournalView,
    after_journal: JournalView,
    gov: Governance,
    res: Reservations,
    p: PlacementRow,
    notice: Notice,
    requested: Result<Option<String>, Problem>,
    claimed: Result<ClaimReply, Problem>,
    started: Result<(), Problem>,
    created_at: Seq<char>,
    keyed: G,
    seal: S,
    r: Result<usize, Problem>,
)
    requires
        before.wf(),
        after.wf(),
        start_outcome(
            before,
            after,
            journal,
            after_journal,
            gov,
            res,
            p,
            notice,
            requested,
            claimed,
            started,
            created_at,
            keyed,
            seal,
            r,
        ),
    ensures
        r is Err ==> after == before && after_journal == journal,
        r is Ok ==> {
            &&& p.admission_ref is Some
            &&& requested is Ok && requested->Ok_0 is Some
            &&& claimed is Ok
            &&& claimed->Ok_0.byom_attempt_ref is Some
            &&& claimed->Ok_0.byom_fence_epoch is Some
            &&& started is Ok
        },
        p.admission_ref is None ==> r is Err && r->Err_0@.kind == ProblemKind::Forbidden,
        p.admission_ref is Some && requested is Err ==> r is Err && r->Err_0 == requested->Err_0,
        p.admission_ref is Some && requested is Ok && requested->Ok_0 is None ==> r is Err
            && r->Err_0@.kind == ProblemKind::Unavailable,
        p.admission_ref is Some && requested is Ok && requested->Ok_0 is Some ==> {
            &&& claimed is Err ==> r is Err && r->Err_0 == claimed->Err_0
            &&& claimed is Ok && (claimed->Ok_0.byom_attempt_ref is None
                || claimed->Ok_0.byom_fence_epoch is None) ==> r is Err && r->Err_0@.kind
                == ProblemKind::Unavailable
            &&& claimed is Ok && claimed->Ok_0.byom_attempt_ref is Some
                && claimed->Ok_0.byom_fence_epoch is Some && started is Err ==> r is Err
                && r->Err_0 == started->Err_0
        },
        r is Ok && r->Ok_0 >= before.bindings.rows@.len() ==> {
            let b = after.bindings.rows@[r->Ok_0 as int];
            &&& b.realm_ref@ == p.realm_ref@
            &&& b.placement_id@ == p.placement_id@
            &&& b.episode_ref@ == requested->Ok_0->0@
            &&& b.byom_attempt_ref@ == claimed->Ok_0.byom_attempt_ref->0@
            &&& b.fences.byom == claimed->Ok_0.byom_fence_epoch->0
            &&& b.fences.kovee == p.kovee_fence_epoch
            &&& b.created_at@ == created_at
            &&& b.state is Bound
        },
{
    if start_stop(p, requested, claimed, started, r) is None {
        let placed = choose|placed: int|
            {
                &&& 0 <= placed < before.placements.rows@.len()
                &&& #[trigger] before.placements.rows@[placed] == p
                &&& bind_outcome(
                    before,
                    after,
                    journal,
                    after_journal,
                    gov,
                    res,
                    p.realm_ref@,
                    placed,
                    notice,
                    requested->Ok_0->0@,
                    claimed->Ok_0.byom_attempt_ref->0@,
                    (Fences {
                        byom: claimed->Ok_0.byom_fence_epoch->0,
                        kovee: p.kovee_fence_epoch,
                    }),
                    created_at,
                    keyed,
                    seal,
                    r,
                )
            };
        a_binding_is_made_as_claimed(
            before,
            after,
            journal,
            after_journal,
            gov,
            res,
            p.realm_ref@,
            placed,
            notice,
            requested->Ok_0->0@,
            claimed->Ok_0.byom_attempt_ref->0@,
            (Fences { byom: claimed->Ok_0.byom_fence_epoch->0, kovee: p.kovee_fence_epoch }),
            created_at,
            keyed,
            seal,
            r,
        );
    }
}

/// Byom is asked in order and of what it answered before: the claim is of the
/// episode it named, the start of the attempt and the fence it claimed.
pub proof fn byom_is_asked_of_what_it_answered<
    Q: FnOnce(&Json) -> Result<Option<String>, Problem>,
    L: FnOnce(&Json) -> Result<ClaimReply, Problem>,
    N: FnOnce(&Json) -> Result<(), Problem>,
>(
    request: Q,
    claim: L,
    begin: N,
    version: JsonView,
    p: PlacementRow,
    notice: Notice,
    requested: Result<Option<String>, Problem>,
    claimed: Result<ClaimReply, Problem>,
    started: Result<(), Problem>,
)
    requires
        start_asked(request, claim, begin, version, p, notice, requested, claimed, started),
        p.admission_ref is Some,
    ensures
        asked(request, episode_request_document(version, notice), requested),
        requested is Ok && requested->Ok_0 is Some ==> asked(
            claim,
            episode_claim_document(version, requested->Ok_0->0@, p),
            claimed,
        ),
        requested is Ok && requested->Ok_0 is Some && claimed is Ok
            && claimed->Ok_0.byom_attempt_ref is Some && claimed->Ok_0.byom_fence_epoch is Some
            ==> exists|f: Fences|
            {
                &&& f.byom == claimed->Ok_0.byom_fence_epoch->0
                &&& f.kovee == p.kovee_fence_epoch
                &&& #[trigger] asked(
                    begin,
                    episode_start_document(
                        version,
                        requested->Ok_0->0@,
                        claimed->Ok_0.byom_attempt_ref->0@,
                        f,
                    ),
                    started,
                )
            },
{
}

/// What a worker does under a binding is done while the binding is bound and
/// the worker presents both of its fences; a missed fence ends the binding,
/// keeps why, and is announced with what was refused; and no other binding and
/// no placement moves either way.
pub proof fn a_binding_is_worked_under_its_fences<M: FnOnce(Fences, Fences) -> String>(
    before: Episodes,
    after: Episodes,
    journal: JournalView,
    after_journal: JournalView,
    key: Seq<char>,
    other: Seq<char>,
    presented: Fences,
    what: Seq<char>,
    words: M,
    r: Result<usize, Problem>,
)
    requires
        fenced_outcome(before, after, journal, after_journal, key, presented, what, words, r),
        other != key,
    ensures
        r is Ok <==> {
            &&& before.bindings@.contains_key(key1(key))
            &&& before.bindings@[key1(key)].state is Bound
            &&& before.bindings@[key1(key)].fences.byom == presented.byom
            &&& before.bindings@[key1(key)].fences.kovee == presented.kovee
        },
        r is Ok ==> after == before && after_journal == journal,
        r is Ok ==> before.bindings.rows@[r->Ok_0 as int] == before.bindings@[key1(key)],
        after.placements == before.placements,
        after.bindings@.contains_key(key1(other)) == before.bindings@.contains_key(key1(other)),
        before.bindings@.contains_key(key1(other)) ==> after.bindings@[key1(other)]
            == before.bindings@[key1(other)],
        !before.bindings@.contains_key(key1(key)) ==> after == before && after_journal == journal,
        before.bindings@.contains_key(key1(key)) && before.bindings@[key1(key)].state !is Bound
            ==> after == before && after_journal == journal && r->Err_0@.kind
            == ProblemKind::Forbidden,
        before.bindings@.contains_key(key1(key)) && before.bindings@[key1(key)].state is Bound
            && r is Err ==> {
            let b = before.bindings@[key1(key)];
            let c = after.bindings@[key1(key)];
            let e = after_journal.events.last();
            &&& r->Err_0@.kind == ProblemKind::StaleLease
            &&& c.state is Fenced
            &&& c.fenced_reason is Some
            &&& c.fences == b.fences
            &&& c.episode_state == b.episode_state
            &&& c.episode_ref == b.episode_ref
            &&& c.digest == b.digest
            &&& exists|o: String|
                #[trigger] words.ensures((b.fences, presented), o) && o@ == c.fenced_reason->0@
            &&& after_journal.events == journal.events.push(e)
            &&& e.kind == EventKind::EpisodeFenced
            &&& e.resource_ref == b.stable_binding_key@
            &&& e.correlation_ref == b.episode_ref@
            &&& e.payload == Some(fenced_document(presented, b.fences, what))
        },
{
    assert(key1(other).0 == other);
    assert(key1(key).0 == key);
    let mismatch = choose|mismatch: Seq<char>|
        {
            &&& #[trigger] worded(words, before, key, presented, mismatch)
            &&& match mutation_refusal(before, key, presented, what, mismatch) {
                Some(p) => {
                    &&& r is Err
                    &&& r->Err_0@ == p
                    &&& refused_mutation(before, after, key, presented, mismatch)
                    &&& after_journal == refused_events(journal, before, key, presented, what)
                },
                None => {
                    &&& r is Ok
                    &&& r->Ok_0 < before.bindings.rows@.len()
                    &&& before.bindings.rows@[r->Ok_0 as int] == before.bindings@[key1(key)]
                    &&& after == before
                    &&& after_journal == journal
                },
            }
        };
    if before.bindings@.contains_key(key1(key)) {
        let b = before.bindings@[key1(key)];
        assert(b.fences.byom == presented.byom && b.fences.kovee == presented.kovee ==> b.fences
            == presented);
    }
}

/// A checkpoint, a yield and a completion are owed to the same presenter; the
/// first leaves the binding bound and running, the second bound and yielded, the
/// third released and completed.
pub proof fn each_step_leaves_its_own_state<M: FnOnce(Fences, Fences) -> String>(
    before: Episodes,
    checked: Episodes,
    yielded: Episodes,
    completed: Episodes,
    journal: JournalView,
    checked_journal: JournalView,
    yielded_journal: JournalView,
    completed_journal: JournalView,
    key: Seq<char>,
    other: Seq<char>,
    presented: Fences,
    continuation: Seq<char>,
    words: M,
    c: Result<(), Problem>,
    y: Result<Yielded, Problem>,
    d: Result<(), Problem>,
)
    requires
        checkpoint_outcome(before, checked, journal, checked_journal, key, presented, words, c),
        yield_outcome(
            before,
            yielded,
            journal,
            yielded_journal,
            key,
            presented,
            continuation,
            words,
            y,
        ),
        complete_outcome(before, completed, journal, completed_journal, key, presented, words, d),
        other != key,
    ensures
        (c is Ok) == (y is Ok),
        (c is Ok) == (d is Ok),
        c is Ok <==> {
            &&& before.bindings@.contains_key(key1(key))
            &&& before.bindings@[key1(key)].state is Bound
            &&& before.bindings@[key1(key)].fences.byom == presented.byom
            &&& before.bindings@[key1(key)].fences.kovee == presented.kovee
        },
        c is Ok ==> {
            let b = before.bindings@[key1(key)];
            let x = checked.bindings@[key1(key)];
            let z = yielded.bindings@[key1(key)];
            let w = completed.bindings@[key1(key)];
            &&& x.state is Bound && x.episode_state is Running
            &&& z.state is Bound && z.episode_state is Yielded
            &&& w.state is Released && w.episode_state is Completed
            &&& x.fences == b.fences && z.fences == b.fences && w.fences == b.fences
            &&& x.fenced_reason == b.fenced_reason && z.fenced_reason == b.fenced_reason
            &&& w.fenced_reason == b.fenced_reason && w.digest == b.digest
            &&& y->Ok_0.stable_binding_key@ == key
            &&& y->Ok_0.episode_ref@ == b.episode_ref@
            &&& y->Ok_0.continuation_ref@ == continuation
            &&& y->Ok_0.fences == b.fences
            &&& checked_journal == journal
            &&& yielded_journal == journal
            &&& completed_journal.events == journal.events.push(completed_journal.events.last())
            &&& completed_journal.events.last().kind == EventKind::EpisodeReleased
            &&& completed_journal.events.last().resource_ref == b.stable_binding_key@
            &&& completed_journal.events.last().correlation_ref == b.episode_ref@
            &&& completed_journal.events.last().payload == Some(released_document(b))
            &&& checked.placements == before.placements
            &&& yielded.placements == before.placements
            &&& completed.placements == before.placements
            &&& before.bindings@.contains_key(key1(other)) ==> {
                &&& checked.bindings@[key1(other)] == before.bindings@[key1(other)]
                &&& yielded.bindings@[key1(other)] == before.bindings@[key1(other)]
                &&& completed.bindings@[key1(other)] == before.bindings@[key1(other)]
            }
        },
        before.bindings@.contains_key(key1(key)) && before.bindings@[key1(key)].state is Bound
            && c is Err ==> {
            let b = before.bindings@[key1(key)];
            &&& checked.bindings@[key1(key)].state is Fenced
            &&& yielded.bindings@[key1(key)].state is Fenced
            &&& completed.bindings@[key1(key)].state is Fenced
            &&& c->Err_0@.kind == ProblemKind::StaleLease
            &&& y->Err_0@.kind == ProblemKind::StaleLease
            &&& d->Err_0@.kind == ProblemKind::StaleLease
            &&& checked_journal.events.last().kind == EventKind::EpisodeFenced
            &&& checked_journal.events.last().payload == Some(
                fenced_document(presented, b.fences, "checkpoint_commit"@),
            )
            &&& yielded_journal.events.last().kind == EventKind::EpisodeFenced
            &&& yielded_journal.events.last().payload == Some(
                fenced_document(presented, b.fences, "episode_yield"@),
            )
            &&& completed_journal.events.last().kind == EventKind::EpisodeFenced
            &&& completed_journal.events.last().payload == Some(
                fenced_document(presented, b.fences, "episode_complete"@),
            )
        },
{
    assert(key1(other).0 == other);
    assert(key1(key).0 == key);
    if before.bindings@.contains_key(key1(key)) {
        let b = before.bindings@[key1(key)];
        assert(b.fences.byom == presented.byom && b.fences.kovee == presented.kovee ==> b.fences
            == presented);
    }
}

/// A yielded binding can be taken up again under the same fences; a completed
/// one can not, whatever is presented.
pub proof fn a_yield_can_be_resumed<M: FnOnce(Fences, Fences) -> String>(
    before: Episodes,
    yielded: Episodes,
    completed: Episodes,
    journal: JournalView,
    yielded_journal: JournalView,
    completed_journal: JournalView,
    key: Seq<char>,
    presented: Fences,
    later: Fences,
    what: Seq<char>,
    mismatch: Seq<char>,
    continuation: Seq<char>,
    words: M,
    y: Result<Yielded, Problem>,
    d: Result<(), Problem>,
)
    requires
        yield_outcome(
            before,
            yielded,
            journal,
            yielded_journal,
            key,
            presented,
            continuation,
            words,
            y,
        ),
        complete_outcome(before, completed, journal, completed_journal, key, presented, words, d),
    ensures
        y is Ok ==> mutation_refusal(yielded, key, presented, what, mismatch) is None,
        y is Ok && later != presented ==> mutation_refusal(yielded, key, later, what, mismatch)
            is Some,
        d is Ok ==> mutation_refusal(completed, key, later, what, mismatch) is Some,
{
}

/// The states of a binding have names of their own.
pub proof fn binding_states_have_their_own_names(a: BindingState, b: BindingState)
    ensures
        a.name() == b.name() ==> a == b,
        BindingState::Bound.name() == "bound"@,
        BindingState::Fenced.name() == "fenced"@,
        BindingState::Released.name() == "released"@,
{
    reveal_strlit("bound");
    reveal_strlit("fenced");
    reveal_strlit("released");
    assert("bound"@.len() == 5);
    assert("fenced"@.len() == 6);
    assert("released"@.len() == 8);
}

/// Bindings are shown of their realm alone: by key the one of that key, else by
/// episode all of that episode, else all; once each, the older first. A key that
/// names none in the realm is not found, and nothing else is refused.
pub proof fn bindings_are_shown_as_asked(
    eps: Episodes,
    realm: Seq<char>,
    key: Option<String>,
    episode: Option<String>,
    r: Result<Vec<usize>, Problem>,
    i: int,
)
    requires
        eps.wf(),
        binding_show_outcome(eps, realm, key, episode, r),
        0 <= i < eps.bindings.rows@.len(),
    ensures
        key is None ==> r is Ok,
        r is Err ==> r->Err_0@ == not_found_view(),
        key is Some && eps.bindings.rows@[i].realm_ref@ == realm
            && eps.bindings.rows@[i].stable_binding_key@ == key->0@ ==> r is Ok,
        r is Ok ==> (r->Ok_0@.contains(i as usize) <==> {
            &&& eps.bindings.rows@[i].realm_ref@ == realm
            &&& key is Some ==> eps.bindings.rows@[i].stable_binding_key@ == key->0@
            &&& key is None && episode is Some ==> eps.bindings.rows@[i].episode_ref@
                == episode->0@
        }),
        r is Ok && key is Some ==> r->Ok_0@.len() >= 1,
        r is Ok ==> forall|a: int, b: int|
            0 <= a < b < r->Ok_0@.len() ==> #[trigger] r->Ok_0@[a] != #[trigger] r->Ok_0@[b]
                && !crate::text::before(
                eps.bindings.rows@[r->Ok_0@[b] as int].created_at@,
                eps.bindings.rows@[r->Ok_0@[a] as int].created_at@,
            ),
{
    let rows = eps.bindings.rows@;
    let keep = Seq::new(
        rows.len(),
        |j: int| binding_shown(rows[j], realm, opt_view(key), opt_view(episode)),
    );
    assert(keep[i] == binding_shown(rows[i], realm, opt_view(key), opt_view(episode)));
    assert(i < eps.bindings.rows.len());
    assert(i as usize as int == i);
    if r is Ok {
        let list = r->Ok_0@;
        if list.contains(i as usize) {
            let a = choose|a: int| 0 <= a < list.len() && list[a] == i as usize;
            assert(keep[list[a] as int]);
        }
        assert forall|a: int, b: int| 0 <= a < b < list.len() implies #[trigger] list[a]
            != #[trigger] list[b] && !crate::text::before(
            rows[list[b] as int].created_at@,
            rows[list[a] as int].created_at@,
        ) by {
            crate::listing::a_place_comes_once(rows, keep, rows.len() as int, list, a, b);
            let x = rows[list[a] as int];
            let y = rows[list[b] as int];
            crate::text::before_irreflexive(x.created_at@);
            if crate::text::before(y.created_at@, x.created_at@) {
                if crate::text::before(x.created_at@, y.created_at@) {
                    crate::text::before_transitive(x.created_at@, y.created_at@, x.created_at@);
                }
            }
        }
    }
}

/// A successor attempt is bound under the placement that was named, as any
/// attempt is, and without that placement nothing is.
pub proof fn a_successor_is_bound_under_its_placement<
    G: Fn(&str, &Json) -> Keyed,
    S: Fn(&EpisodeBinding) -> String,
>(
    before: Episodes,
    after: Episodes,
    journal: JournalView,
    after_journal: JournalView,
    gov: Governance,
    res: Reservations,
    realm: Seq<char>,
    placement_id: Seq<char>,
    notice: Notice,
    episode: Seq<char>,
    attempt: Seq<char>,
    fences: Fences,
    created_at: Seq<char>,
    keyed: G,
    seal: S,
    r: Result<usize, Problem>,
)
    requires
        before.wf(),
        after.wf(),
        rebind_outcome(
            before,
            after,
            journal,
            after_journal,
            gov,
            res,
            realm,
            placement_id,
            notice,
            episode,
            attempt,
            fences,
            created_at,
            keyed,
            seal,
            r,
        ),
    ensures
        r is Err ==> after == before && after_journal == journal,
        !before.placements@.contains_key(key1(placement_id)) ==> r is Err && r->Err_0@
            == not_found_view(),
        r is Ok && r->Ok_0 >= before.bindings.rows@.len() ==> {
            let b = after.bindings.rows@[r->Ok_0 as int];
            &&& b.placement_id@ == placement_id
            &&& b.realm_ref@ == realm
            &&& b.episode_ref@ == episode
            &&& b.byom_attempt_ref@ == attempt
            &&& b.fences == fences
            &&& b.created_at@ == created_at
            &&& b.state is Bound
            &&& b.episode_state is Running
        },
{
    if before.placements@.contains_key(key1(placement_id)) {
        let placed = choose|placed: int|
            {
                &&& 0 <= placed < before.placements.rows@.len()
                &&& (#[trigger] before.placements.rows@[placed]).placement_id@ == placement_id
                &&& bind_outcome(
                    before,
                    after,
                    journal,
                    after_journal,
                    gov,
                    res,
                    realm,
                    placed,
                    notice,
                    episode,
                    attempt,
                    fences,
                    created_at,
                    keyed,
                    seal,
                    r,
                )
            };
        a_binding_is_made_as_claimed(
            before,
            after,
            journal,
            after_journal,
            gov,
            res,
            realm,
            placed,
            notice,
            episode,
            attempt,
            fences,
            created_at,
            keyed,
            seal,
            r,
        );
    }
}

/// A start is of the placement that was named: without it nothing starts, and
/// without its admission byom is not asked and nothing starts either.
pub proof fn a_start_is_of_its_placement<
    Q: FnOnce(&Json) -> Result<Option<String>, Problem>,
    L: FnOnce(&Json) -> Result<ClaimReply, Problem>,
    N: FnOnce(&Json) -> Result<(), Problem>,
    G: Fn(&str, &Json) -> Keyed,
    S: Fn(&EpisodeBinding) -> String,
>(
    before: Episodes,
    after: Episodes,
    journal: JournalView,
    after_journal: JournalView,
    gov: Governance,
    res: Reservations,
    placement_id: Seq<char>,
    notice: Notice,
    version: Json,
    request: Q,
    claim: L,
    begin: N,
    created_at: Seq<char>,
    keyed: G,
    seal: S,
    r: Result<usize, Problem>,
)
    requires
        before.wf(),
        after.wf(),
        starting_outcome(
            before,
            after,
            journal,
            after_journal,
            gov,
            res,
            placement_id,
            notice,
            version,
            request,
            claim,
            begin,
            created_at,
            keyed,
            seal,
            r,
        ),
    ensures
        r is Err ==> after == before && after_journal == journal,
        !before.placements@.contains_key(key1(placement_id)) ==> r is Err && r->Err_0@
            == not_found_view(),
        before.placements@.contains_key(key1(placement_id))
            && before.placements@[key1(placement_id)].admission_ref is None ==> r is Err
            && r->Err_0@.kind == ProblemKind::Forbidden,
        before.placements@.contains_key(key1(placement_id))
            && before.placements@[key1(placement_id)].admission_ref is Some ==> exists|
            requested: Result<Option<String>, Problem>,
        |
            {
                &&& #[trigger] asked(request, episode_request_document(version@, notice), requested)
                &&& requested is Err ==> r is Err && r->Err_0 == requested->Err_0
                &&& r is Ok ==> requested is Ok && requested->Ok_0 is Some
            },
        r is Ok && r->Ok_0 >= before.bindings.rows@.len() ==> {
            let b = after.bindings.rows@[r->Ok_0 as int];
            let p = before.placements@[key1(placement_id)];
            &&& b.placement_id@ == p.placement_id@
            &&& b.realm_ref@ == p.realm_ref@
            &&& b.fences.kovee == p.kovee_fence_epoch
            &&& b.created_at@ == created_at
        },
{
    if before.placements@.contains_key(key1(placement_id)) {
        let p = before.placements@[key1(placement_id)];
        let (requested, claimed, started) = choose|
            requested: Result<Option<String>, Problem>,
            claimed: Result<ClaimReply, Problem>,
            started: Result<(), Problem>,
        |
            {
                &&& #[trigger] start_asked(
                    request,
                    claim,
                    begin,
                    version@,
                    p,
                    notice,
                    requested,
                    claimed,
                    started,
                )
                &&& start_outcome(
                    before,
                    after,
                    journal,
                    after_journal,
                    gov,
                    res,
                    p,
                    notice,
                    requested,
                    claimed,
                    started,
                    created_at,
                    keyed,
                    seal,
                    r,
                )
            };
        a_start_skips_no_stage(
            before,
            after,
            journal,
            after_journal,
            gov,
            res,
            p,
            notice,
            requested,
            claimed,
            started,
            created_at,
            keyed,
            seal,
            r,
        );
    }
}

} // verus!
