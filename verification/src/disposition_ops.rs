//! Dispositions: withdrawing, superseding and redacting a contribution, and
//! retracting a relation.
//!
//! A disposition stands beside what it disposes of and deletes nothing of it.
//! The one exception is redaction, which takes the retained text out wherever
//! a copy of it is.

use vstd::prelude::*;

use crate::handlers::contribution_visible;
use crate::journal::{EventKind, Journal, JournalView};
use crate::documents::{content_document, content_subject};
use crate::invoke::{Contexts, Invocations, ItemRef};
use crate::handlers::{content_minted, ContributionAppendArgs, ContributionMint};
use crate::json::{list_of, listed, parsed, rendered, well_formed, Json, JsonView};
use crate::listing::{order, ordered_listing, Listed};
use crate::problem::{check_expected_revision, internal, internal_view, not_found, not_found_view,
    problem, refusal, refusal_with, revision_agrees, stale_revision_view, Problem, ProblemKind,
    ProblemView};
use crate::records::{announced, append_command_event, command_event, command_name, headed, parts_written, scope_digest,
    visible, visible_space, writes_all, ContentState, Contribution, Meta, Part, Session, Space, SpaceStatus, Workspace};
use crate::redaction::{candidates, changed, erased, inert, mentions, needles_of,
    plaintext_needles, redacted_json, rewrites, rewritten, scrub_outcome, scrub_retention_graph,
    swept, Retained, Scrubbed};
use crate::retention::{contexts_swept, inputs_swept, relations_swept, sweep_contexts, sweep_inputs,
    sweep_relations};
use crate::table::{key1, Key, Row, Table};
use crate::text::{cat2, cat4, occurs, opt_view, same, views};

use vstd::string::*;

verus! {

#[derive(Debug, Clone, Copy, PartialEq, Eq, Structural)]
pub enum DispositionKind {
    Withdraw,
    Supersede,
    Redact,
}

impl DispositionKind {
    pub open spec fn event(self) -> EventKind {
        match self {
            DispositionKind::Withdraw => EventKind::ContributionWithdrawn,
            DispositionKind::Supersede => EventKind::ContributionSuperseded,
            DispositionKind::Redact => EventKind::ContributionRedacted,
        }
    }

    fn event_kind(self) -> (r: EventKind)
        ensures
            r == self.event(),
    {
        match self {
            DispositionKind::Withdraw => EventKind::ContributionWithdrawn,
            DispositionKind::Supersede => EventKind::ContributionSuperseded,
            DispositionKind::Redact => EventKind::ContributionRedacted,
        }
    }

    pub open spec fn audit_name(self) -> Seq<char> {
        match self {
            DispositionKind::Withdraw => "command.contribution_withdrawn"@,
            DispositionKind::Supersede => "command.contribution_superseded"@,
            DispositionKind::Redact => "command.contribution_redacted"@,
        }
    }

    fn audit_event(self) -> (r: &'static str)
        ensures
            r@ == self.audit_name(),
    {
        match self {
            DispositionKind::Withdraw => "command.contribution_withdrawn",
            DispositionKind::Supersede => "command.contribution_superseded",
            DispositionKind::Redact => "command.contribution_redacted",
        }
    }
}

#[derive(Debug)]
pub struct Disposition {
    pub disposition_id: String,
    pub contribution_ref: String,
    pub space_id: String,
    pub kind: DispositionKind,
    pub replacement_ref: Option<String>,
    pub reason_class: String,
    pub authorized_by_ref: String,
    pub payload_removed_at: Option<String>,
    pub created_at: String,
}

impl Row for Disposition {
    open spec fn key(&self) -> Key {
        key1(self.disposition_id@)
    }

    fn has_key(&self, a: &str, b: &str) -> (r: bool) {
        proof {
            crate::text::empty_is(b@);
        }
        same(self.disposition_id.as_str(), a) && b.is_empty()
    }
}

/// A relation that was asserted in a space. Each end pins its object by a
/// digest.
#[derive(Debug)]
pub struct Relation {
    pub relation_id: String,
    pub space_id: String,
    pub from_ref: ItemRef,
    pub to_ref: ItemRef,
    pub classification_ref: String,
}

impl Row for Relation {
    open spec fn key(&self) -> Key {
        key1(self.relation_id@)
    }

    fn has_key(&self, a: &str, b: &str) -> (r: bool) {
        proof {
            crate::text::empty_is(b@);
        }
        same(self.relation_id.as_str(), a) && b.is_empty()
    }
}

#[derive(Debug)]
pub struct Retraction {
    pub disposition_id: String,
    pub relation_ref: String,
    pub space_id: String,
    pub reason_class: String,
    pub authorized_by_ref: String,
    pub created_at: String,
}

impl Row for Retraction {
    open spec fn key(&self) -> Key {
        key1(self.disposition_id@)
    }

    fn has_key(&self, a: &str, b: &str) -> (r: bool) {
        proof {
            crate::text::empty_is(b@);
        }
        same(self.disposition_id.as_str(), a) && b.is_empty()
    }
}

/// The dispositions of a realm, and the relations that can be retracted.
pub struct Dispositions {
    pub dispositions: Table<Disposition>,
    pub relations: Table<Relation>,
    pub retractions: Table<Retraction>,
}

/// Whether a disposition is of a kind and of a contribution.
pub open spec fn disposes(d: Disposition, contribution: Seq<char>, kind: DispositionKind) -> bool {
    d.contribution_ref@ == contribution && d.kind == kind
}

/// A contribution is withdrawn once, and superseded once.
pub open spec fn disposed_once(rows: Seq<Disposition>) -> bool {
    forall|i: int, j: int|
        0 <= i < j < rows.len() && (#[trigger] rows[j]).kind !is Redact ==> !disposes(
            #[trigger] rows[i],
            rows[j].contribution_ref@,
            rows[j].kind,
        )
}

/// A relation is retracted once.
pub open spec fn retracted_once(rows: Seq<Retraction>) -> bool {
    forall|i: int, j: int|
        0 <= i < j < rows.len() ==> (#[trigger] rows[i]).relation_ref@ != (
        #[trigger] rows[j]).relation_ref@
}

impl Dispositions {
    pub open spec fn wf(&self) -> bool {
        &&& self.dispositions.wf()
        &&& self.relations.wf()
        &&& self.retractions.wf()
        &&& disposed_once(self.dispositions.rows@)
        &&& retracted_once(self.retractions.rows@)
    }

    pub fn new() -> (r: Dispositions)
        ensures
            r.wf(),
            r.dispositions.rows@.len() == 0,
            r.relations.rows@.len() == 0,
            r.retractions.rows@.len() == 0,
    {
        Dispositions {
            dispositions: Table::new(),
            relations: Table::new(),
            retractions: Table::new(),
        }
    }
}

pub open spec fn disposed_view(detail: Seq<char>) -> ProblemView {
    refusal_with(ProblemKind::Invalid, "invalid disposition"@, detail)
}

fn already_disposed(detail: &str) -> (r: Problem)
    ensures
        r@ == disposed_view(detail@),
{
    problem(ProblemKind::Invalid, "invalid disposition", detail)
}

// --------------------------------------------------------------- target ----

/// Why a contribution cannot be disposed of, whatever the disposition is.
pub open spec fn target_refusal(
    ws: Workspace,
    project: Seq<char>,
    id: Seq<char>,
    require_open: bool,
    meta: Meta,
) -> Option<ProblemView> {
    let c = ws.contributions@[key1(id)];
    let s = ws.spaces@[key1(c.space_id@)];
    if !contribution_visible(ws, project, id) || !visible(ws.spaces, project, c.space_id@) {
        Some(not_found_view())
    } else if require_open && s.status !is Open {
        Some(
            refusal_with(
                ProblemKind::StaleRevision,
                "space is not open for dispositions"@,
                "space status is "@ + s.status.name(),
            ),
        )
    } else if !revision_agrees(meta.expected_revision, s.revision) {
        Some(stale_revision_view(s.revision))
    } else {
        None
    }
}

/// Whether two positions are those of a contribution and of its space.
pub open spec fn target_rows(ws: Workspace, id: Seq<char>, at: (usize, usize)) -> bool {
    let c = ws.contributions.rows@[at.0 as int];
    &&& at.0 < ws.contributions.rows.len()
    &&& at.1 < ws.spaces.rows.len()
    &&& c == ws.contributions@[key1(id)]
    &&& c.contribution_id@ == id
    &&& ws.spaces.rows@[at.1 as int] == ws.spaces@[key1(c.space_id@)]
    &&& ws.spaces.rows@[at.1 as int].space_id@ == c.space_id@
}

/// Finds a contribution to dispose of, and its space. Redaction does not ask
/// for the space to be open: none shields a text from erasure.
fn disposition_target(
    ws: &Workspace,
    project_id: &str,
    contribution_ref: &str,
    require_open: bool,
    meta: &Meta,
) -> (r: Result<(usize, usize), Problem>)
    requires
        ws.wf(),
    ensures
        match target_refusal(*ws, project_id@, contribution_ref@, require_open, *meta) {
            Some(p) => r is Err && r->Err_0@ == p,
            None => r is Ok && target_rows(*ws, contribution_ref@, r->Ok_0),
        },
{
    proof {
        reveal_strlit("");
        crate::text::empty_is(""@);
    }
    let i = match ws.contributions.position(contribution_ref, "") {
        None => {
            return Err(not_found());
        },
        Some(i) => i,
    };
    if !same(ws.contributions.rows[i].project_id.as_str(), project_id) {
        return Err(not_found());
    }
    let j = visible_space(&ws.spaces, project_id, ws.contributions.rows[i].space_id.as_str())?;
    if require_open && ws.spaces.rows[j].status != SpaceStatus::Open {
        let detail = cat2("space status is ", ws.spaces.rows[j].status.as_str());
        return Err(
            problem(
                ProblemKind::StaleRevision,
                "space is not open for dispositions",
                detail.as_str(),
            ),
        );
    }
    check_expected_revision(meta.expected_revision, ws.spaces.rows[j].revision)?;
    Ok((i, j))
}

/// Whether a contribution is disposed of already.
pub open spec fn disposed(
    rows: Seq<Disposition>,
    contribution: Seq<char>,
    kind: DispositionKind,
) -> bool {
    exists|i: int| 0 <= i < rows.len() && disposes(#[trigger] rows[i], contribution, kind)
}

fn disposition_exists(rows: &Vec<Disposition>, contribution_ref: &str, kind: DispositionKind) -> (r:
    bool)
    ensures
        r == disposed(rows@, contribution_ref@, kind),
{
    let mut i: usize = 0;
    while i < rows.len()
        invariant
            i <= rows.len(),
            forall|j: int|
                0 <= j < i ==> !disposes(#[trigger] rows@[j], contribution_ref@, kind),
        decreases rows.len() - i,
    {
        if rows[i].kind == kind && same(rows[i].contribution_ref.as_str(), contribution_ref) {
            assert(disposes(rows@[i as int], contribution_ref@, kind));
            return true;
        }
        i = i + 1;
    }
    false
}

/// What a disposition writes down.
pub open spec fn disposition_journal(
    before: JournalView,
    d: Disposition,
    project: Seq<char>,
    classification: Seq<char>,
    meta: Meta,
) -> JournalView {
    before.with_event(
        command_event(
            d.kind.event(),
            d.space_id@,
            Some(project),
            "schema:contribution-disposition-v1"@,
            d.disposition_id@,
            1,
            meta,
            Some(classification),
        ),
    ).with_audit(
        d.kind.audit_name(),
        "disposition="@ + d.disposition_id@ + ";contribution="@ + d.contribution_ref@ + ";"@
            + command_name(meta),
    )
}

/// What a disposition makes of the space it is in: its next revision.
pub open spec fn space_moved(before: Workspace, after: Workspace, space: Seq<char>) -> bool {
    let k = key1(space);
    let s = before.spaces@[k];
    &&& after.spaces@ == before.spaces@.insert(
        k,
        Space { revision: (s.revision + 1) as u64, ..s },
    )
    &&& after.projects == before.projects
    &&& after.participants == before.participants
}

/// Moves the space at a position to its next revision.
fn move_space(ws: &mut Workspace, j: usize) -> (r: u64)
    requires
        old(ws).wf(),
        j < old(ws).spaces.rows.len(),
        old(ws).spaces.rows@[j as int].revision < u64::MAX,
    ensures
        final(ws).wf(),
        r == old(ws).spaces.rows@[j as int].revision + 1,
        space_moved(*old(ws), *final(ws), old(ws).spaces.rows@[j as int].space_id@),
        final(ws).contributions == old(ws).contributions,
{
    let next: u64 = ws.spaces.rows[j].revision + 1;
    ws.spaces.rows[j].revision = next;
    proof {
        crate::table::table_at(old(ws).spaces, j as int);
        crate::table::table_updated(
            old(ws).spaces,
            ws.spaces,
            j as int,
            ws.spaces.rows@[j as int],
        );
    }
    next
}

/// Records a disposition beside its contribution.
fn record_contribution_disposition(
    disp: &mut Dispositions,
    journal: &mut Journal,
    d: Disposition,
    project_id: &str,
    classification_ref: &str,
    meta: &Meta,
)
    requires
        old(disp).wf(),
        !old(disp).dispositions@.contains_key(key1(d.disposition_id@)),
        d.kind !is Redact ==> !disposed(
            old(disp).dispositions.rows@,
            d.contribution_ref@,
            d.kind,
        ),
    ensures
        final(disp).wf(),
        final(disp).relations == old(disp).relations,
        final(disp).retractions == old(disp).retractions,
        final(disp).dispositions.rows@ == old(disp).dispositions.rows@.push(d),
        final(journal)@ == disposition_journal(
            old(journal)@,
            d,
            project_id@,
            classification_ref@,
            *meta,
        ),
{
    append_command_event(
        journal,
        d.kind.event_kind(),
        d.space_id.as_str(),
        Some(project_id),
        "schema:contribution-disposition-v1",
        d.disposition_id.as_str(),
        1,
        meta,
        Some(classification_ref),
    );
    let key = scope_digest(meta);
    let mut detail = cat4(
        "disposition=",
        d.disposition_id.as_str(),
        ";contribution=",
        d.contribution_ref.as_str(),
    );
    detail.append(";");
    detail.append(key.as_str());
    journal.audit(d.kind.audit_event(), detail.as_str());
    let ghost dv = d;
    disp.dispositions.insert(d);
    proof {
        let b = old(disp).dispositions.rows@;
        let a = disp.dispositions.rows@;
        assert forall|i: int, j: int|
            0 <= i < j < a.len() && (#[trigger] a[j]).kind !is Redact implies !disposes(
            #[trigger] a[i],
            a[j].contribution_ref@,
            a[j].kind,
        ) by {
            assert(a[i] == b[i]);
            if j < b.len() {
                assert(a[j] == b[j]);
            } else {
                assert(!disposes(b[i], dv.contribution_ref@, dv.kind));
            }
        }
    }
}

// ------------------------------------------------ contribution_withdraw ----

#[derive(Debug)]
pub struct ContributionDispositionArgs {
    pub contribution_ref: String,
    pub reason_class: String,
}

/// The disposition that is recorded.
pub open spec fn disposition_row(
    d: Disposition,
    id: Seq<char>,
    contribution: Seq<char>,
    space: Seq<char>,
    kind: DispositionKind,
    replacement: Option<Seq<char>>,
    reason: Seq<char>,
    session: Session,
) -> bool {
    &&& d.disposition_id@ == id
    &&& d.contribution_ref@ == contribution
    &&& d.space_id@ == space
    &&& d.kind == kind
    &&& opt_view(d.replacement_ref) == replacement
    &&& d.reason_class@ == reason
    &&& d.authorized_by_ref@ == session.owner_actor_ref@
    &&& opt_view(d.payload_removed_at) == if kind is Redact {
        Some(session.now_ts@)
    } else {
        None::<Seq<char>>
    }
    &&& d.created_at@ == session.now_ts@
}

/// Why a contribution is not withdrawn.
pub open spec fn withdraw_refusal(
    disp: Dispositions,
    ws: Workspace,
    project: Seq<char>,
    args: ContributionDispositionArgs,
    meta: Meta,
    id: Seq<char>,
) -> Option<ProblemView> {
    match target_refusal(ws, project, args.contribution_ref@, true, meta) {
        Some(p) => Some(p),
        None => if disposed(
            disp.dispositions.rows@,
            args.contribution_ref@,
            DispositionKind::Withdraw,
        ) {
            Some(disposed_view("contribution is already withdrawn"@))
        } else if disp.dispositions@.contains_key(key1(id)) {
            Some(internal_view())
        } else {
            None
        },
    }
}

/// Whether the revision of a contribution's space can grow.
pub open spec fn space_has_room(ws: Workspace, contribution: Seq<char>) -> bool {
    let k = key1(contribution);
    ws.contributions@.contains_key(k) && ws.spaces@.contains_key(
        key1(ws.contributions@[k].space_id@),
    ) ==> ws.spaces@[key1(ws.contributions@[k].space_id@)].revision < u64::MAX
}

/// What withdrawing a contribution does and answers.
pub open spec fn withdraw_outcome(
    disp: Dispositions,
    disp_after: Dispositions,
    ws: Workspace,
    ws_after: Workspace,
    journal: JournalView,
    journal_after: JournalView,
    session: Session,
    project_id: Seq<char>,
    args: ContributionDispositionArgs,
    meta: Meta,
    disposition_id: Seq<char>,
    r: Result<u64, Problem>,
) -> bool {
    &&& ws_after.contributions == ws.contributions
    &&& r is Err ==> {
        &&& disp_after == disp
        &&& ws_after == ws
        &&& journal_after == journal
    }
    &&& match withdraw_refusal(disp, ws, project_id, args, meta, disposition_id) {
        Some(p) => r is Err && r->Err_0@ == p,
        None => {
            let c = ws.contributions@[key1(args.contribution_ref@)];
            let d = disp_after.dispositions.rows@.last();
            &&& r == Ok::<u64, Problem>(
                (ws.spaces@[key1(c.space_id@)].revision + 1) as u64,
            )
            &&& space_moved(ws, ws_after, c.space_id@)
            &&& disp_after.dispositions.rows@ == disp.dispositions.rows@.push(d)
            &&& disposition_row(
                d,
                disposition_id,
                args.contribution_ref@,
                c.space_id@,
                DispositionKind::Withdraw,
                None,
                args.reason_class@,
                session,
            )
            &&& disp_after.relations == disp.relations
            &&& disp_after.retractions == disp.retractions
            &&& journal_after == disposition_journal(
                journal,
                d,
                project_id,
                c.classification_ref@,
                meta,
            )
        },
    }
}

/// Withdraws a contribution. The answer is the revision that the space moves
/// to.
pub fn contribution_withdraw(
    disp: &mut Dispositions,
    ws: &mut Workspace,
    journal: &mut Journal,
    session: &Session,
    project_id: &str,
    args: &ContributionDispositionArgs,
    meta: &Meta,
    disposition_id: &str,
) -> (r: Result<u64, Problem>)
    requires
        old(disp).wf(),
        old(ws).wf(),
        space_has_room(*old(ws), args.contribution_ref@),
    ensures
        final(disp).wf(),
        final(ws).wf(),
        withdraw_outcome(
            *old(disp),
            *final(disp),
            *old(ws),
            *final(ws),
            old(journal)@,
            final(journal)@,
            *session,
            project_id@,
            *args,
            *meta,
            disposition_id@,
            r,
        ),
{
    let at = disposition_target(ws, project_id, args.contribution_ref.as_str(), true, meta)?;
    if disposition_exists(
        &disp.dispositions.rows,
        args.contribution_ref.as_str(),
        DispositionKind::Withdraw,
    ) {
        return Err(already_disposed("contribution is already withdrawn"));
    }
    proof {
        reveal_strlit("");
        crate::text::empty_is(""@);
    }
    if disp.dispositions.position(disposition_id, "").is_some() {
        return Err(internal());
    }
    let d = Disposition {
        disposition_id: disposition_id.to_owned(),
        contribution_ref: args.contribution_ref.clone(),
        space_id: ws.contributions.rows[at.0].space_id.clone(),
        kind: DispositionKind::Withdraw,
        replacement_ref: None,
        reason_class: args.reason_class.clone(),
        authorized_by_ref: session.owner_actor_ref.clone(),
        payload_removed_at: None,
        created_at: session.now_ts.clone(),
    };
    record_contribution_disposition(
        disp,
        journal,
        d,
        project_id,
        ws.contributions.rows[at.0].classification_ref.as_str(),
        meta,
    );
    Ok(move_space(ws, at.1))
}

// ----------------------------------------------- contribution_supersede ----

#[derive(Debug)]
pub struct ContributionSupersedeArgs {
    pub contribution_ref: String,
    pub replacement_ref: String,
    pub reason_class: String,
}

/// Why a contribution is not superseded. The replacement is another
/// contribution of the same space.
pub open spec fn supersede_refusal(
    disp: Dispositions,
    ws: Workspace,
    project: Seq<char>,
    args: ContributionSupersedeArgs,
    meta: Meta,
    id: Seq<char>,
) -> Option<ProblemView> {
    let c = ws.contributions@[key1(args.contribution_ref@)];
    let rk = key1(args.replacement_ref@);
    match target_refusal(ws, project, args.contribution_ref@, true, meta) {
        Some(p) => Some(p),
        None => if args.replacement_ref@ == args.contribution_ref@ {
            Some(disposed_view("a contribution cannot supersede itself"@))
        } else if !ws.contributions@.contains_key(rk) || ws.contributions@[rk].space_id@
            != c.space_id@ {
            Some(not_found_view())
        } else if disposed(
            disp.dispositions.rows@,
            args.contribution_ref@,
            DispositionKind::Supersede,
        ) {
            Some(disposed_view("contribution is already superseded"@))
        } else if disp.dispositions@.contains_key(key1(id)) {
            Some(internal_view())
        } else {
            None
        },
    }
}

/// What superseding a contribution does and answers.
pub open spec fn supersede_outcome(
    disp: Dispositions,
    disp_after: Dispositions,
    ws: Workspace,
    ws_after: Workspace,
    journal: JournalView,
    journal_after: JournalView,
    session: Session,
    project_id: Seq<char>,
    args: ContributionSupersedeArgs,
    meta: Meta,
    disposition_id: Seq<char>,
    r: Result<u64, Problem>,
) -> bool {
    &&& ws_after.contributions == ws.contributions
    &&& r is Err ==> {
        &&& disp_after == disp
        &&& ws_after == ws
        &&& journal_after == journal
    }
    &&& match supersede_refusal(disp, ws, project_id, args, meta, disposition_id) {
        Some(p) => r is Err && r->Err_0@ == p,
        None => {
            let c = ws.contributions@[key1(args.contribution_ref@)];
            let d = disp_after.dispositions.rows@.last();
            &&& r == Ok::<u64, Problem>(
                (ws.spaces@[key1(c.space_id@)].revision + 1) as u64,
            )
            &&& space_moved(ws, ws_after, c.space_id@)
            &&& disp_after.dispositions.rows@ == disp.dispositions.rows@.push(d)
            &&& disposition_row(
                d,
                disposition_id,
                args.contribution_ref@,
                c.space_id@,
                DispositionKind::Supersede,
                Some(args.replacement_ref@),
                args.reason_class@,
                session,
            )
            &&& disp_after.relations == disp.relations
            &&& disp_after.retractions == disp.retractions
            &&& journal_after == disposition_journal(
                journal,
                d,
                project_id,
                c.classification_ref@,
                meta,
            )
        },
    }
}

/// Supersedes a contribution by another one of its space. The answer is the
/// revision that the space moves to.
pub fn contribution_supersede(
    disp: &mut Dispositions,
    ws: &mut Workspace,
    journal: &mut Journal,
    session: &Session,
    project_id: &str,
    args: &ContributionSupersedeArgs,
    meta: &Meta,
    disposition_id: &str,
) -> (r: Result<u64, Problem>)
    requires
        old(disp).wf(),
        old(ws).wf(),
        space_has_room(*old(ws), args.contribution_ref@),
    ensures
        final(disp).wf(),
        final(ws).wf(),
        supersede_outcome(
            *old(disp),
            *final(disp),
            *old(ws),
            *final(ws),
            old(journal)@,
            final(journal)@,
            *session,
            project_id@,
            *args,
            *meta,
            disposition_id@,
            r,
        ),
{
    let at = disposition_target(ws, project_id, args.contribution_ref.as_str(), true, meta)?;
    if same(args.replacement_ref.as_str(), args.contribution_ref.as_str()) {
        return Err(already_disposed("a contribution cannot supersede itself"));
    }
    proof {
        reveal_strlit("");
        crate::text::empty_is(""@);
    }
    match ws.contributions.find(args.replacement_ref.as_str(), "") {
        None => {
            return Err(not_found());
        },
        Some(c) => {
            if !same(
                c.space_id.as_str(),
                ws.contributions.rows[at.0].space_id.as_str(),
            ) {
                return Err(not_found());
            }
        },
    }
    if disposition_exists(
        &disp.dispositions.rows,
        args.contribution_ref.as_str(),
        DispositionKind::Supersede,
    ) {
        return Err(already_disposed("contribution is already superseded"));
    }
    if disp.dispositions.position(disposition_id, "").is_some() {
        return Err(internal());
    }
    let d = Disposition {
        disposition_id: disposition_id.to_owned(),
        contribution_ref: args.contribution_ref.clone(),
        space_id: ws.contributions.rows[at.0].space_id.clone(),
        kind: DispositionKind::Supersede,
        replacement_ref: Some(args.replacement_ref.clone()),
        reason_class: args.reason_class.clone(),
        authorized_by_ref: session.owner_actor_ref.clone(),
        payload_removed_at: None,
        created_at: session.now_ts.clone(),
    };
    record_contribution_disposition(
        disp,
        journal,
        d,
        project_id,
        ws.contributions.rows[at.0].classification_ref.as_str(),
        meta,
    );
    Ok(move_space(ws, at.1))
}

// ----------------------------------------------------- relation_retract ----

#[derive(Debug)]
pub struct RelationRetractArgs {
    pub relation_ref: String,
    pub reason_class: String,
}

/// Whether a relation is retracted already.
pub open spec fn retracted(rows: Seq<Retraction>, relation: Seq<char>) -> bool {
    exists|i: int| 0 <= i < rows.len() && (#[trigger] rows[i]).relation_ref@ == relation
}

fn is_retracted(rows: &Vec<Retraction>, relation_ref: &str) -> (r: bool)
    ensures
        r == retracted(rows@, relation_ref@),
{
    let mut i: usize = 0;
    while i < rows.len()
        invariant
            i <= rows.len(),
            forall|j: int| 0 <= j < i ==> (#[trigger] rows@[j]).relation_ref@ != relation_ref@,
        decreases rows.len() - i,
    {
        if same(rows[i].relation_ref.as_str(), relation_ref) {
            return true;
        }
        i = i + 1;
    }
    false
}

/// Why a relation is not retracted.
pub open spec fn retract_refusal(
    disp: Dispositions,
    ws: Workspace,
    project: Seq<char>,
    relation: Seq<char>,
    meta: Meta,
    id: Seq<char>,
) -> Option<ProblemView> {
    let r = disp.relations@[key1(relation)];
    let s = ws.spaces@[key1(r.space_id@)];
    if !disp.relations@.contains_key(key1(relation)) || !visible(ws.spaces, project, r.space_id@) {
        Some(not_found_view())
    } else if s.status !is Open {
        Some(refusal(ProblemKind::StaleRevision, "space is not open for dispositions"@))
    } else if !revision_agrees(meta.expected_revision, s.revision) {
        Some(stale_revision_view(s.revision))
    } else if retracted(disp.retractions.rows@, relation) {
        Some(disposed_view("relation is already retracted"@))
    } else if disp.retractions@.contains_key(key1(id)) {
        Some(internal_view())
    } else {
        None
    }
}

pub open spec fn retraction_row(
    d: Retraction,
    id: Seq<char>,
    r: Relation,
    reason: Seq<char>,
    session: Session,
) -> bool {
    &&& d.disposition_id@ == id
    &&& d.relation_ref@ == r.relation_id@
    &&& d.space_id@ == r.space_id@
    &&& d.reason_class@ == reason
    &&& d.authorized_by_ref@ == session.owner_actor_ref@
    &&& d.created_at@ == session.now_ts@
}

/// What a retraction writes down.
pub open spec fn retraction_journal(
    before: JournalView,
    d: Retraction,
    project: Seq<char>,
    classification: Seq<char>,
    meta: Meta,
) -> JournalView {
    before.with_event(
        command_event(
            EventKind::RelationRetracted,
            d.space_id@,
            Some(project),
            "schema:relation-disposition-v1"@,
            d.disposition_id@,
            1,
            meta,
            Some(classification),
        ),
    ).with_audit(
        "command.relation_retracted"@,
        "disposition="@ + d.disposition_id@ + ";relation="@ + d.relation_ref@ + ";"@
            + command_name(meta),
    )
}

/// What retracting a relation does and answers.
pub open spec fn retract_outcome(
    disp: Dispositions,
    disp_after: Dispositions,
    ws: Workspace,
    ws_after: Workspace,
    journal: JournalView,
    journal_after: JournalView,
    session: Session,
    project_id: Seq<char>,
    args: RelationRetractArgs,
    meta: Meta,
    disposition_id: Seq<char>,
    r: Result<u64, Problem>,
) -> bool {
    &&& ws_after.contributions == ws.contributions
    &&& r is Err ==> {
        &&& disp_after == disp
        &&& ws_after == ws
        &&& journal_after == journal
    }
    &&& match retract_refusal(
        disp,
        ws,
        project_id,
        args.relation_ref@,
        meta,
        disposition_id,
    ) {
        Some(p) => r is Err && r->Err_0@ == p,
        None => {
            let rel = disp.relations@[key1(args.relation_ref@)];
            let d = disp_after.retractions.rows@.last();
            &&& r == Ok::<u64, Problem>(
                (ws.spaces@[key1(rel.space_id@)].revision + 1) as u64,
            )
            &&& space_moved(ws, ws_after, rel.space_id@)
            &&& disp_after.retractions.rows@ == disp.retractions.rows@.push(d)
            &&& retraction_row(d, disposition_id, rel, args.reason_class@, session)
            &&& disp_after.relations == disp.relations
            &&& disp_after.dispositions == disp.dispositions
            &&& journal_after == retraction_journal(
                journal,
                d,
                project_id,
                rel.classification_ref@,
                meta,
            )
        },
    }
}

/// Retracts a relation. The answer is the revision that the space moves to.
pub fn relation_retract(
    disp: &mut Dispositions,
    ws: &mut Workspace,
    journal: &mut Journal,
    session: &Session,
    project_id: &str,
    args: &RelationRetractArgs,
    meta: &Meta,
    disposition_id: &str,
) -> (r: Result<u64, Problem>)
    requires
        old(disp).wf(),
        old(ws).wf(),
        old(disp).relations@.contains_key(key1(args.relation_ref@)) ==> {
            let k = key1(old(disp).relations@[key1(args.relation_ref@)].space_id@);
            old(ws).spaces@.contains_key(k) ==> old(ws).spaces@[k].revision < u64::MAX
        },
    ensures
        final(disp).wf(),
        final(ws).wf(),
        retract_outcome(
            *old(disp),
            *final(disp),
            *old(ws),
            *final(ws),
            old(journal)@,
            final(journal)@,
            *session,
            project_id@,
            *args,
            *meta,
            disposition_id@,
            r,
        ),
{
    proof {
        reveal_strlit("");
        crate::text::empty_is(""@);
    }
    let i = match disp.relations.position(args.relation_ref.as_str(), "") {
        None => {
            return Err(not_found());
        },
        Some(i) => i,
    };
    let j = visible_space(&ws.spaces, project_id, disp.relations.rows[i].space_id.as_str())?;
    if ws.spaces.rows[j].status != SpaceStatus::Open {
        return Err(
            Problem::new(ProblemKind::StaleRevision, "space is not open for dispositions"),
        );
    }
    check_expected_revision(meta.expected_revision, ws.spaces.rows[j].revision)?;
    if is_retracted(&disp.retractions.rows, args.relation_ref.as_str()) {
        return Err(already_disposed("relation is already retracted"));
    }
    if disp.retractions.position(disposition_id, "").is_some() {
        return Err(internal());
    }
    let d = Retraction {
        disposition_id: disposition_id.to_owned(),
        relation_ref: args.relation_ref.clone(),
        space_id: disp.relations.rows[i].space_id.clone(),
        reason_class: args.reason_class.clone(),
        authorized_by_ref: session.owner_actor_ref.clone(),
        created_at: session.now_ts.clone(),
    };
    append_command_event(
        journal,
        EventKind::RelationRetracted,
        d.space_id.as_str(),
        Some(project_id),
        "schema:relation-disposition-v1",
        disposition_id,
        1,
        meta,
        Some(disp.relations.rows[i].classification_ref.as_str()),
    );
    let key = scope_digest(meta);
    let mut detail = cat4("disposition=", disposition_id, ";relation=", d.relation_ref.as_str());
    detail.append(";");
    detail.append(key.as_str());
    journal.audit("command.relation_retracted", detail.as_str());
    disp.retractions.insert(d);
    proof {
        let b = old(disp).retractions.rows@;
        let a = disp.retractions.rows@;
        assert forall|x: int, y: int| 0 <= x < y < a.len() implies (#[trigger] a[x]).relation_ref@
            != (#[trigger] a[y]).relation_ref@ by {
            assert(a[x] == b[x]);
            if y < b.len() {
                assert(a[y] == b[y]);
            }
        }
    }
    Ok(move_space(ws, j))
}

/// A disposition is recorded once: where one of its kind is there, another is
/// refused.
pub proof fn nothing_is_withdrawn_twice(
    disp: Dispositions,
    ws: Workspace,
    project: Seq<char>,
    args: ContributionDispositionArgs,
    meta: Meta,
    id: Seq<char>,
)
    requires
        disposed(disp.dispositions.rows@, args.contribution_ref@, DispositionKind::Withdraw),
    ensures
        withdraw_refusal(disp, ws, project, args, meta, id) is Some,
{
}

/// A frozen or archived space takes no withdrawal, no supersession and no
/// retraction.
pub proof fn a_closed_space_keeps_its_dispositions(
    disp: Dispositions,
    ws: Workspace,
    project: Seq<char>,
    args: ContributionDispositionArgs,
    other: ContributionSupersedeArgs,
    relation: Seq<char>,
    meta: Meta,
    id: Seq<char>,
    space: Seq<char>,
)
    requires
        ws.spaces@[key1(space)].status !is Open,
        ws.contributions@[key1(args.contribution_ref@)].space_id@ == space,
        ws.contributions@[key1(other.contribution_ref@)].space_id@ == space,
        disp.relations@[key1(relation)].space_id@ == space,
    ensures
        withdraw_refusal(disp, ws, project, args, meta, id) is Some,
        supersede_refusal(disp, ws, project, other, meta, id) is Some,
        retract_refusal(disp, ws, project, relation, meta, id) is Some,
{
}

// -------------------------------------------------------- branch ledger ----

/// One entry of a branch: the digest of what stands at a place in it.
#[derive(Debug)]
pub struct BranchEntry {
    pub branch_id: String,
    pub branch_sequence: u64,
    pub object_digest: String,
}

impl Listed for BranchEntry {
    open spec fn precedes(&self, other: &BranchEntry) -> bool {
        self.branch_sequence < other.branch_sequence
    }

    fn comes_before(&self, other: &BranchEntry) -> (r: bool) {
        self.branch_sequence < other.branch_sequence
    }

    proof fn weak_order(a: &BranchEntry, b: &BranchEntry, c: &BranchEntry) {
    }
}

/// Which entries belong to a branch.
pub open spec fn keep_branch(entries: Seq<BranchEntry>, branch: Seq<char>) -> Seq<bool> {
    Seq::new(entries.len(), |i: int| entries[i].branch_id@ == branch)
}

/// Whether a head comes from the genesis head by chaining the first `n` listed
/// entries, one after another.
pub open spec fn chained<F: Fn(&str, u64, &str) -> String>(
    next_head: F,
    entries: Seq<BranchEntry>,
    list: Seq<usize>,
    n: nat,
    genesis: Seq<char>,
    head: Seq<char>,
) -> bool
    decreases n,
{
    if n == 0 {
        head == genesis
    } else {
        let e = entries[list[n - 1] as int];
        exists|prior: &str, digest: &str, out: String|
            {
                &&& chained(next_head, entries, list, (n - 1) as nat, genesis, prior@)
                &&& digest@ == e.object_digest@
                &&& #[trigger] next_head.ensures((prior, e.branch_sequence, digest), out)
                &&& head == out@
            }
    }
}

/// One more entry moves the head by one step.
proof fn chained_step<F: Fn(&str, u64, &str) -> String>(
    next_head: F,
    entries: Seq<BranchEntry>,
    list: Seq<usize>,
    n: nat,
    genesis: Seq<char>,
    prior: &str,
    digest: &str,
    out: String,
)
    requires
        chained(next_head, entries, list, n, genesis, prior@),
        digest@ == entries[list[n as int] as int].object_digest@,
        next_head.ensures(
            (prior, entries[list[n as int] as int].branch_sequence, digest),
            out,
        ),
    ensures
        chained(next_head, entries, list, n + 1, genesis, out@),
{
    let e = entries[list[n as int] as int];
    assert(next_head.ensures((prior, e.branch_sequence, digest), out));
    assert(((n + 1) - 1) as nat == n);
    assert(list[(n + 1) - 1] == list[n as int]);
}

/// Whether a head is the one of a branch: every entry of it, in the order of
/// the branch, chained from the genesis head.
pub open spec fn head_of<F: Fn(&str, u64, &str) -> String>(
    next_head: F,
    entries: Seq<BranchEntry>,
    branch: Seq<char>,
    genesis: Seq<char>,
    head: Seq<char>,
) -> bool {
    exists|list: Seq<usize>|
        {
            &&& #[trigger] ordered_listing(
                entries,
                keep_branch(entries, branch),
                entries.len() as int,
                list,
            )
            &&& chained(next_head, entries, list, list.len(), genesis, head)
        }
}

/// A chain does not see what stands behind it in the ledger.
proof fn chained_in_longer<F: Fn(&str, u64, &str) -> String>(
    next_head: F,
    entries: Seq<BranchEntry>,
    entry: BranchEntry,
    list: Seq<usize>,
    more: Seq<usize>,
    n: nat,
    genesis: Seq<char>,
    head: Seq<char>,
)
    requires
        n <= list.len() <= more.len(),
        forall|i: int| 0 <= i < list.len() ==> (#[trigger] list[i]) < entries.len(),
        forall|i: int| 0 <= i < list.len() ==> #[trigger] more[i] == list[i],
        chained(next_head, entries, list, n, genesis, head),
    ensures
        chained(next_head, entries.push(entry), more, n, genesis, head),
    decreases n,
{
    if n > 0 {
        let e = entries[list[n - 1] as int];
        let (prior, digest, out) = choose|prior: &str, digest: &str, out: String|
            {
                &&& chained(next_head, entries, list, (n - 1) as nat, genesis, prior@)
                &&& digest@ == e.object_digest@
                &&& #[trigger] next_head.ensures((prior, e.branch_sequence, digest), out)
                &&& head == out@
            };
        chained_in_longer(
            next_head,
            entries,
            entry,
            list,
            more,
            (n - 1) as nat,
            genesis,
            prior@,
        );
        assert(more[n - 1] == list[n - 1]);
        assert(entries.push(entry)[more[n - 1] as int] == e);
        assert(next_head.ensures((prior, e.branch_sequence, digest), out));
    }
}

/// A branch without entries is at its genesis head.
pub proof fn a_new_branch_is_at_its_genesis<F: Fn(&str, u64, &str) -> String>(
    next_head: F,
    entries: Seq<BranchEntry>,
    branch: Seq<char>,
    genesis: Seq<char>,
)
    requires
        forall|i: int| 0 <= i < entries.len() ==> (#[trigger] entries[i]).branch_id@ != branch,
    ensures
        head_of(next_head, entries, branch, genesis, genesis),
{
    let list = Seq::<usize>::empty();
    let keep = keep_branch(entries, branch);
    assert(ordered_listing(entries, keep, entries.len() as int, list)) by {
        assert forall|i: int| 0 <= i < entries.len() && #[trigger] keep[i] implies list.contains(
            i as usize,
        ) by {
            assert(entries[i].branch_id@ != branch);
        }
    }
    assert(chained(next_head, entries, list, list.len(), genesis, genesis));
}

/// An append leaves a head that the ledger accounts for: where the head was the
/// chain over the branch's entries, the new one is the chain over those and the
/// appended one. Whoever folds the ledger finds the head that stands.
pub proof fn an_append_extends_the_chain<
    H: FnOnce(&str, &Json) -> String,
    W: FnOnce(&str) -> Vec<u8>,
    F: Fn(&str, u64, &str) -> String,
>(
    mint: ContributionMint,
    contribution_id: Seq<char>,
    s: Space,
    args: ContributionAppendArgs,
    parts: JsonView,
    keyed: H,
    wrap: W,
    next_head: F,
    entries: Seq<BranchEntry>,
    entry: BranchEntry,
    genesis: Seq<char>,
)
    requires
        content_minted(mint, contribution_id, s, args, parts, keyed, wrap, next_head),
        head_of(next_head, entries, s.main_branch_id@, genesis, s.head_digest@),
        entries.len() <= usize::MAX,
        forall|i: int|
            0 <= i < entries.len() && (#[trigger] entries[i]).branch_id@ == s.main_branch_id@
                ==> entries[i].branch_sequence < s.next_branch_sequence,
        entry.branch_id@ == s.main_branch_id@,
        entry.branch_sequence == s.next_branch_sequence,
        entry.object_digest@ == mint.content_digest@,
    ensures
        head_of(next_head, entries.push(entry), s.main_branch_id@, genesis, mint.new_head@),
{
    let branch = s.main_branch_id@;
    let keep = keep_branch(entries, branch);
    let list = choose|list: Seq<usize>|
        {
            &&& #[trigger] ordered_listing(entries, keep, entries.len() as int, list)
            &&& chained(next_head, entries, list, list.len(), genesis, s.head_digest@)
        };
    let all = entries.push(entry);
    let last = entries.len() as usize;
    let more = list.push(last);
    let keep2 = keep_branch(all, branch);
    assert(ordered_listing(all, keep2, all.len() as int, more)) by {
        assert forall|a: int| 0 <= a < more.len() implies (#[trigger] more[a]) < all.len()
            && keep2[more[a] as int] by {
            if a < list.len() {
                assert(more[a] == list[a]);
                assert(keep[list[a] as int]);
            }
        }
        assert forall|i: int| 0 <= i < all.len() && #[trigger] keep2[i] implies more.contains(
            i as usize,
        ) by {
            if i < entries.len() {
                assert(keep[i]);
                let a = choose|a: int| 0 <= a < list.len() && list[a] == i as usize;
                assert(more[a] == i as usize);
            } else {
                assert(more[list.len() as int] == last);
            }
        }
        assert forall|a: int, b: int| 0 <= a < b < more.len() implies {
            let x = all[#[trigger] more[a] as int];
            let y = all[#[trigger] more[b] as int];
            x.precedes(&y) || (!y.precedes(&x) && more[a] < more[b])
        } by {
            assert(more[a] == list[a]);
            if b < list.len() {
                assert(more[b] == list[b]);
            } else {
                assert(keep[list[a] as int]);
            }
        }
    }
    chained_in_longer(
        next_head,
        entries,
        entry,
        list,
        more,
        list.len(),
        genesis,
        s.head_digest@,
    );
    let (prior, digest, out) = choose|prior: &str, digest: &str, out: String|
        {
            &&& prior@ == s.head_digest@
            &&& digest@ == mint.content_digest@
            &&& #[trigger] next_head.ensures((prior, s.next_branch_sequence, digest), out)
            &&& mint.new_head@ == out@
        };
    chained_step(next_head, all, more, list.len(), genesis, prior, digest, out);
}

/// Whether the step of a chain takes any head, place and digest.
pub open spec fn always_steps<F: Fn(&str, u64, &str) -> String>(next_head: F) -> bool {
    forall|prior: &str, sequence: u64, digest: &str|
        #[trigger] next_head.requires((prior, sequence, digest))
}

/// Computes the head of a branch anew from its entries. How one entry moves a
/// head is the caller's to say.
pub fn recompute_branch_head<F: Fn(&str, u64, &str) -> String>(
    entries: &Vec<BranchEntry>,
    branch_id: &str,
    genesis_head: &str,
    next_head: F,
) -> (head: String)
    requires
        always_steps(next_head),
    ensures
        head_of(next_head, entries@, branch_id@, genesis_head@, head@),
{
    let mut keep: Vec<bool> = Vec::new();
    let mut i: usize = 0;
    while i < entries.len()
        invariant
            i <= entries.len(),
            keep.len() == i,
            forall|j: int|
                0 <= j < i ==> #[trigger] keep@[j] == (entries@[j].branch_id@ == branch_id@),
        decreases entries.len() - i,
    {
        keep.push(same(entries[i].branch_id.as_str(), branch_id));
        i = i + 1;
    }
    assert(keep@ =~= keep_branch(entries@, branch_id@));
    let list = order(entries, &keep);
    let mut head = genesis_head.to_owned();
    let mut n: usize = 0;
    while n < list.len()
        invariant
            always_steps(next_head),
            n <= list.len(),
            forall|a: int| 0 <= a < list@.len() ==> (#[trigger] list@[a]) < entries@.len(),
            chained(next_head, entries@, list@, n as nat, genesis_head@, head@),
        decreases list.len() - n,
    {
        let e = &entries[list[n]];
        let prior = head.as_str();
        let digest = e.object_digest.as_str();
        proof {
            assert(next_head.requires((prior, e.branch_sequence, digest)));
        }
        let out = next_head(prior, e.branch_sequence, digest);
        proof {
            chained_step(
                next_head,
                entries@,
                list@,
                n as nat,
                genesis_head@,
                prior,
                digest,
                out,
            );
        }
        head = out;
        n = n + 1;
    }
    head
}

/// What giving a place in a branch another digest makes of an entry.
pub open spec fn entry_redigested(
    before: BranchEntry,
    after: BranchEntry,
    branch: Seq<char>,
    sequence: u64,
    digest: Seq<char>,
) -> bool {
    if before.branch_id@ == branch && before.branch_sequence == sequence {
        &&& after == (BranchEntry { object_digest: after.object_digest, ..before })
        &&& after.object_digest@ == digest
    } else {
        after == before
    }
}

/// What it makes of all entries.
pub open spec fn redigested(
    before: Seq<BranchEntry>,
    after: Seq<BranchEntry>,
    branch: Seq<char>,
    sequence: u64,
    digest: Seq<char>,
) -> bool {
    &&& after.len() == before.len()
    &&& forall|i: int|
        0 <= i < before.len() ==> entry_redigested(
            #[trigger] before[i],
            after[i],
            branch,
            sequence,
            digest,
        )
}

fn redigest(entries: &mut Vec<BranchEntry>, branch_id: &str, sequence: u64, digest: &str)
    ensures
        redigested(old(entries)@, final(entries)@, branch_id@, sequence, digest@),
{
    let ghost before = entries@;
    let mut i: usize = 0;
    while i < entries.len()
        invariant
            entries@.len() == before.len(),
            i <= entries.len(),
            forall|j: int|
                0 <= j < i ==> entry_redigested(
                    #[trigger] before[j],
                    entries@[j],
                    branch_id@,
                    sequence,
                    digest@,
                ),
            forall|j: int| i <= j < before.len() ==> #[trigger] entries@[j] == before[j],
        decreases before.len() - i,
    {
        if entries[i].branch_sequence == sequence && same(entries[i].branch_id.as_str(), branch_id) {
            entries[i].object_digest = digest.to_owned();
        }
        i = i + 1;
    }
}

// -------------------------------------------------- contribution_redact ----

/// The artifacts that some parts refer to, in order.
pub open spec fn artifacts_of(parts: Seq<Part>) -> Seq<Seq<char>>
    decreases parts.len(),
{
    if parts.len() == 0 {
        Seq::empty()
    } else {
        match parts.last() {
            Part::Artifact { artifact_ref } => artifacts_of(parts.drop_last()).push(artifact_ref@),
            _ => artifacts_of(parts.drop_last()),
        }
    }
}

fn artifact_refs(parts: &Vec<Part>) -> (out: Vec<String>)
    ensures
        views(out@) == artifacts_of(parts@),
{
    let mut out: Vec<String> = Vec::new();
    let mut i: usize = 0;
    proof {
        assert(parts@.take(0).len() == 0);
        assert(views(out@) =~= artifacts_of(parts@.take(0)));
    }
    while i < parts.len()
        invariant
            i <= parts.len(),
            views(out@) == artifacts_of(parts@.take(i as int)),
        decreases parts.len() - i,
    {
        proof {
            assert(parts@.take(i + 1).drop_last() =~= parts@.take(i as int));
            assert(parts@.take(i + 1).last() == parts@[i as int]);
        }
        if let Part::Artifact { artifact_ref } = &parts[i] {
            let ghost before = views(out@);
            out.push(artifact_ref.clone());
            proof {
                assert(views(out@) =~= before.push(artifact_ref@));
            }
        }
        i = i + 1;
    }
    proof {
        assert(parts@.take(i as int) =~= parts@);
    }
    out
}

/// The digest of a contribution's content, and the wrapped secret that keys it
/// from the first append on.
#[derive(Debug)]
pub struct ContentKey {
    pub digest: String,
    pub wrapped_secret: Vec<u8>,
}

/// Whether a content was keyed as its own: its digest is the one of the content
/// under a secret, and that secret is wrapped under the contribution's name.
pub open spec fn content_keyed<
    H: FnOnce(&str, &Json) -> String,
    W: FnOnce(&str) -> Vec<u8>,
>(
    keyed: H,
    wrap: W,
    contribution_id: Seq<char>,
    content: JsonView,
    made: ContentKey,
) -> bool {
    &&& exists|tag: &str, doc: &Json, out: String|
        {
            &&& tag@ == "kovee-contribution-content"@
            &&& doc@ == content
            &&& out@ == made.digest@
            &&& #[trigger] keyed.ensures((tag, doc), out)
        }
    &&& exists|key_ref: &str, out: Vec<u8>|
        {
            &&& key_ref@ == "kovee-contribution-object:"@ + contribution_id
            &&& out@ == made.wrapped_secret@
            &&& #[trigger] wrap.ensures((key_ref,), out)
        }
}

/// Keys a content: its digest under a fresh secret of its own, which `wrap`
/// wraps under the contribution's name.
pub fn mint_content_digest<
    H: FnOnce(&str, &Json) -> String,
    W: FnOnce(&str) -> Vec<u8>,
>(
    contribution_id: &str,
    content: &Json,
    keyed: H,
    wrap: W,
) -> (r: ContentKey)
    requires
        forall|tag: &str, doc: &Json| #[trigger] keyed.requires((tag, doc)),
        forall|key_ref: &str| #[trigger] wrap.requires((key_ref,)),
    ensures
        content_keyed(keyed, wrap, contribution_id@, content@, r),
{
    let tag = "kovee-contribution-content";
    let digest = keyed(tag, content);
    let name = cat2("kovee-contribution-object:", contribution_id);
    let key_ref = name.as_str();
    let wrapped_secret = wrap(key_ref);
    proof {
        assert(keyed.ensures((tag, content), digest));
        assert(wrap.ensures((key_ref,), wrapped_secret));
    }
    ContentKey { digest, wrapped_secret }
}

/// What a redaction is minted with. The digest is the one of a content that
/// was not keyed yet, under a secret that is not kept.
#[derive(Debug)]
pub struct RedactMint {
    pub disposition_id: String,
    pub rekeyed_digest: String,
}

/// What a redaction asks for beyond the records: which artifacts to erase, and
/// how the retained texts change.
#[derive(Debug)]
pub struct Redacted {
    pub revision: u64,
    pub content_digest: String,
    pub digest_key_ref: String,
    pub artifacts: Vec<String>,
    pub needles: Vec<String>,
    pub scrubbed: Scrubbed,
}

/// The digest that a redacted contribution keeps: a keyed one stays.
pub open spec fn redacted_digest(c: Contribution, mint: RedactMint) -> Seq<char> {
    if c.object_secret is Some {
        c.content_digest@
    } else {
        mint.rekeyed_digest@
    }
}

/// What of a contribution must not survive its redaction.
pub open spec fn must_go(c: Contribution, mint: RedactMint) -> Seq<Seq<char>> {
    candidates(c.body_parts@, c.content_digest@, redacted_digest(c, mint) != c.content_digest@)
}

/// The placeholder body: one empty text.
pub open spec fn placeholder(parts: Seq<Part>) -> bool {
    &&& parts.len() == 1
    &&& match parts[0] {
        Part::Text { media_type, text, language } => {
            &&& media_type@ == "application/x.kovee.redacted"@
            &&& text@.len() == 0
            &&& language is None
        },
        _ => false,
    }
}

/// What a redaction makes of the contribution: its body and its secret are
/// gone, its place and its address stay.
pub open spec fn redacted_contribution(
    before: Contribution,
    after: Contribution,
    digest: Seq<char>,
) -> bool {
    &&& after == (Contribution {
        body_parts: after.body_parts,
        content_digest: after.content_digest,
        content_state: ContentState::Redacted,
        object_secret: None,
        ..before
    })
    &&& placeholder(after.body_parts@)
    &&& after.content_digest@ == digest
}

/// What a redaction makes of the space: its next revision, and the head of its
/// main branch computed anew where the contribution is on it.
pub open spec fn redacted_space<F: Fn(&str, u64, &str) -> String>(
    before: Space,
    after: Space,
    c: Contribution,
    next_head: F,
    entries: Seq<BranchEntry>,
    genesis: Seq<char>,
) -> bool {
    &&& after == (Space {
        revision: (before.revision + 1) as u64,
        head_digest: after.head_digest,
        ..before
    })
    &&& if before.main_branch_id@ == c.origin_branch_id@ {
        head_of(next_head, entries, c.origin_branch_id@, genesis, after.head_digest@)
    } else {
        after.head_digest == before.head_digest
    }
}

/// Why a contribution is not redacted, before its copies are looked at.
pub open spec fn redact_refusal(
    disp: Dispositions,
    ws: Workspace,
    project: Seq<char>,
    contribution: Seq<char>,
    meta: Meta,
    id: Seq<char>,
) -> Option<ProblemView> {
    match target_refusal(ws, project, contribution, false, meta) {
        Some(p) => Some(p),
        None => if ws.contributions@[key1(contribution)].content_state is Redacted {
            Some(disposed_view("contribution is already redacted"@))
        } else if disp.dispositions@.contains_key(key1(id)) {
            Some(internal_view())
        } else {
            None
        },
    }
}

/// What a redaction that goes through does and answers.
pub open spec fn redaction_done<F: Fn(&str, u64, &str) -> String>(
    ws: Workspace,
    after: Workspace,
    entries: Seq<BranchEntry>,
    entries_after: Seq<BranchEntry>,
    contribution: Seq<char>,
    mint: RedactMint,
    next_head: F,
    genesis: Seq<char>,
    retained: Retained,
    parts_value: JsonView,
    out: Redacted,
) -> bool {
    let k = key1(contribution);
    let c = ws.contributions@[k];
    let sk = key1(c.space_id@);
    let digest = redacted_digest(c, mint);
    &&& after.projects == ws.projects
    &&& after.participants == ws.participants
    &&& after.contributions@ == ws.contributions@.insert(k, after.contributions@[k])
    &&& redacted_contribution(c, after.contributions@[k], digest)
    &&& redigested(
        entries,
        entries_after,
        c.origin_branch_id@,
        c.origin_branch_sequence,
        digest,
    )
    &&& after.spaces@ == ws.spaces@.insert(sk, after.spaces@[sk])
    &&& redacted_space(ws.spaces@[sk], after.spaces@[sk], c, next_head, entries_after, genesis)
    &&& out.revision == ws.spaces@[sk].revision + 1
    &&& out.content_digest@ == digest
    &&& out.digest_key_ref@ == "kovee-contribution-object:"@ + contribution
    &&& views(out.artifacts@) == artifacts_of(c.body_parts@)
    &&& needles_of(views(out.needles@), must_go(c, mint))
    &&& scrub_outcome(
        Ok(out.scrubbed),
        retained,
        contribution,
        parts_value,
        digest,
        views(out.needles@),
    )
}

/// Puts the placeholder in place of a contribution's body.
fn erase_body(ws: &mut Workspace, i: usize, digest: &str)
    requires
        old(ws).wf(),
        i < old(ws).contributions.rows.len(),
    ensures
        final(ws).wf(),
        final(ws).projects == old(ws).projects,
        final(ws).participants == old(ws).participants,
        final(ws).spaces == old(ws).spaces,
        ({
            let b = old(ws).contributions.rows@[i as int];
            let a = final(ws).contributions.rows@[i as int];
            &&& redacted_contribution(b, a, digest@)
            &&& final(ws).contributions@ == old(ws).contributions@.insert(b.key(), a)
        }),
{
    ws.contributions.rows[i].body_parts = blank_parts();
    ws.contributions.rows[i].content_digest = digest.to_owned();
    ws.contributions.rows[i].content_state = ContentState::Redacted;
    ws.contributions.rows[i].object_secret = None;
    proof {
        crate::table::table_updated(
            old(ws).contributions,
            ws.contributions,
            i as int,
            ws.contributions.rows@[i as int],
        );
    }
}

/// What the digest of a contribution's content is made of.
pub open spec fn content_of(c: Contribution, parts: JsonView) -> JsonView {
    content_document(
        c.space_id@,
        c.origin_branch_id@,
        c.origin_branch_sequence,
        c.kind@,
        parts,
        listed(c.subject_refs@),
        listed(c.source_refs@),
        opt_view(c.epistemic_posture),
    )
}

/// Whether a redaction is minted for a contribution: one whose content was not
/// keyed yet is keyed now, under a secret that is not kept.
pub open spec fn redact_minted<
    H: FnOnce(&str, &Json) -> String,
    W: FnOnce(&str) -> Vec<u8>,
>(
    mint: RedactMint,
    disposition_id: Seq<char>,
    c: Contribution,
    parts: JsonView,
    keyed: H,
    wrap: W,
) -> bool {
    &&& mint.disposition_id@ == disposition_id
    &&& c.object_secret is None ==> exists|made: ContentKey|
        {
            &&& #[trigger] content_keyed(
                keyed,
                wrap,
                c.contribution_id@,
                content_of(c, parts),
                made,
            )
            &&& mint.rekeyed_digest@ == made.digest@
        }
}

/// What a redaction that is not refused does and answers.
pub open spec fn redact_outcome<F: Fn(&str, u64, &str) -> String>(
    disp: Dispositions,
    disp_after: Dispositions,
    ws: Workspace,
    ws_after: Workspace,
    ctx: Contexts,
    ctx_after: Contexts,
    inv: Invocations,
    inv_after: Invocations,
    entries: Seq<BranchEntry>,
    entries_after: Seq<BranchEntry>,
    journal: JournalView,
    journal_after: JournalView,
    session: Session,
    project: Seq<char>,
    args: ContributionDispositionArgs,
    meta: Meta,
    mint: RedactMint,
    genesis: Seq<char>,
    next_head: F,
    retained: Retained,
    placeholder: JsonView,
    r: Result<Redacted, Problem>,
) -> bool {
    let c = ws.contributions@[key1(args.contribution_ref@)];
    match r {
        Err(p) => {
            &&& p@ == internal_view()
            &&& exists|needles: Seq<Seq<char>>|
                {
                    &&& #[trigger] needles_of(needles, must_go(c, mint))
                    &&& scrub_outcome(
                        Err(p),
                        retained,
                        args.contribution_ref@,
                        placeholder,
                        redacted_digest(c, mint),
                        needles,
                    )
                }
        },
        Ok(out) => {
            let d = disp_after.dispositions.rows@.last();
            &&& redaction_done(
                ws,
                ws_after,
                entries,
                entries_after,
                args.contribution_ref@,
                mint,
                next_head,
                genesis,
                retained,
                placeholder,
                out,
            )
            &&& disp_after.dispositions.rows@ == disp.dispositions.rows@.push(d)
            &&& disposition_row(
                d,
                mint.disposition_id@,
                args.contribution_ref@,
                c.space_id@,
                DispositionKind::Redact,
                None,
                args.reason_class@,
                session,
            )
            &&& relations_swept(
                disp.relations.rows@,
                disp_after.relations.rows@,
                views(out.needles@),
                redacted_digest(c, mint),
            )
            &&& contexts_swept(ctx, ctx_after, views(out.needles@), redacted_digest(c, mint))
            &&& inputs_swept(inv, inv_after, views(out.needles@), redacted_digest(c, mint))
            &&& disp_after.retractions == disp.retractions
            &&& journal_after == disposition_journal(
                journal,
                d,
                project,
                c.classification_ref@,
                meta,
            )
        },
    }
}

/// Whether a document is how the placeholder is written.
pub open spec fn blank_written<P: Fn(&Vec<Part>) -> Json>(write: P, doc: JsonView) -> bool {
    exists|p: &Vec<Part>, out: Json|
        #[trigger] write.ensures((p,), out) && placeholder(p@) && out@ == doc
}

/// The placeholder body.
fn blank_parts() -> (r: Vec<Part>)
    ensures
        placeholder(r@),
{
    let mut parts: Vec<Part> = Vec::new();
    parts.push(
        Part::Text {
            media_type: "application/x.kovee.redacted".to_owned(),
            text: String::new(),
            language: None,
        },
    );
    parts
}

/// What redacting a contribution does and answers.
pub open spec fn redaction_outcome<
    H: FnOnce(&str, &Json) -> String,
    W: FnOnce(&str) -> Vec<u8>,
    F: Fn(&str, u64, &str) -> String,
    P: Fn(&Vec<Part>) -> Json,
    N: Fn(&str) -> String,
>(
    disp: Dispositions,
    disp_after: Dispositions,
    ws: Workspace,
    ws_after: Workspace,
    ctx: Contexts,
    ctx_after: Contexts,
    inv: Invocations,
    inv_after: Invocations,
    entries: Vec<BranchEntry>,
    entries_after: Vec<BranchEntry>,
    journal: JournalView,
    journal_after: JournalView,
    session: Session,
    project_id: Seq<char>,
    args: ContributionDispositionArgs,
    meta: Meta,
    disposition_id: Seq<char>,
    write: P,
    keyed: H,
    wrap: W,
    genesis: N,
    next_head: F,
    retained: Retained,
    r: Result<Redacted, Problem>,
) -> bool {
    &&& r is Err ==> {
        &&& disp_after == disp
        &&& ws_after == ws
        &&& ctx_after == ctx
        &&& inv_after == inv
        &&& entries_after@ == entries@
        &&& journal_after == journal
    }
    &&& match redact_refusal(
        disp,
        ws,
        project_id,
        args.contribution_ref@,
        meta,
        disposition_id,
    ) {
        Some(p) => r is Err && r->Err_0@ == p,
        None => {
            exists|mint: RedactMint, parts: JsonView, blank: JsonView, head: Seq<char>|
                {
                    &&& #[trigger] redact_minted(
                        mint,
                        disposition_id,
                        ws.contributions@[key1(args.contribution_ref@)],
                        parts,
                        keyed,
                        wrap,
                    )
                    &&& parts_written(
                        write,
                        ws.contributions@[key1(args.contribution_ref@)].body_parts,
                        parts,
                    )
                    &&& #[trigger] blank_written(write, blank)
                    &&& #[trigger] headed(
                        genesis,
                        ws.contributions@[key1(
                            args.contribution_ref@,
                        )].origin_branch_id@,
                        head,
                    )
                    &&& redact_outcome(
                        disp,
                        disp_after,
                        ws,
                        ws_after,
                        ctx,
                        ctx_after,
                        inv,
                        inv_after,
                        entries@,
                        entries_after@,
                        journal,
                        journal_after,
                        session,
                        project_id,
                        args,
                        meta,
                        mint,
                        head,
                        next_head,
                        retained,
                        blank,
                        r,
                    )
                }
        },
    }
}

/// Redacts a contribution: its body and the secret of its digest are gone, the
/// branch it stands in is chained anew, the records that pin it are swept, and
/// whatever else still holds a copy of its text is answered with what it
/// becomes. `write` is how a body is written in a document, and `genesis` the
/// head of a branch that holds nothing yet. A content that was
/// not keyed yet is keyed first, under a secret that is not kept.
pub fn contribution_redact<
    H: FnOnce(&str, &Json) -> String,
    W: FnOnce(&str) -> Vec<u8>,
    F: Fn(&str, u64, &str) -> String,
    P: Fn(&Vec<Part>) -> Json,
    N: Fn(&str) -> String,
>(
    disp: &mut Dispositions,
    ws: &mut Workspace,
    ctx: &mut Contexts,
    inv: &mut Invocations,
    entries: &mut Vec<BranchEntry>,
    journal: &mut Journal,
    session: &Session,
    project_id: &str,
    args: &ContributionDispositionArgs,
    meta: &Meta,
    disposition_id: &str,
    write: P,
    keyed: H,
    wrap: W,
    genesis: N,
    next_head: F,
    retained: &Retained,
) -> (r: Result<Redacted, Problem>)
    requires
        old(disp).wf(),
        old(ws).wf(),
        old(ctx).wf(),
        old(inv).wf(),
        space_has_room(*old(ws), args.contribution_ref@),
        forall|tag: &str, doc: &Json| #[trigger] keyed.requires((tag, doc)),
        forall|key_ref: &str| #[trigger] wrap.requires((key_ref,)),
        always_steps(next_head),
        writes_all(write),
        forall|b: &str| #[trigger] genesis.requires((b,)),
        forall|p: &Vec<Part>, out: Json| #[trigger]
            write.ensures((p,), out) && placeholder(p@) ==> inert(out@, args.contribution_ref@)
                && well_formed(out@),
    ensures
        final(disp).wf(),
        final(ws).wf(),
        final(ctx).wf(),
        final(inv).wf(),
        redaction_outcome(
            *old(disp),
            *final(disp),
            *old(ws),
            *final(ws),
            *old(ctx),
            *final(ctx),
            *old(inv),
            *final(inv),
            *old(entries),
            *final(entries),
            old(journal)@,
            final(journal)@,
            *session,
            project_id@,
            *args,
            *meta,
            disposition_id@,
            write,
            keyed,
            wrap,
            genesis,
            next_head,
            *retained,
            r,
        ),
{
    proof {
        reveal_strlit("");
        crate::text::empty_is(""@);
    }
    let blank = blank_parts();
    let placeholder_value = write(&blank);
    proof {
        assert(write.ensures((&blank,), placeholder_value));
        assert(blank_written(write, placeholder_value@));
    }
    let at = ws.contributions.position(args.contribution_ref.as_str(), "");
    let parts = match at {
        Some(i) => write(&ws.contributions.rows[i].body_parts),
        None => write(&blank),
    };
    let genesis_head = match at {
        Some(i) => {
            let branch = ws.contributions.rows[i].origin_branch_id.as_str();
            let head = genesis(branch);
            proof {
                assert(genesis.ensures((branch,), head));
                assert(headed(
                    genesis,
                    ws.contributions@[key1(args.contribution_ref@)].origin_branch_id@,
                    head@,
                ));
            }
            head
        },
        None => String::new(),
    };
    redact_written(
        disp,
        ws,
        ctx,
        inv,
        entries,
        journal,
        session,
        project_id,
        args,
        meta,
        disposition_id,
        &parts,
        keyed,
        wrap,
        genesis_head.as_str(),
        next_head,
        retained,
        &placeholder_value,
    )
}

/// Redacts a contribution of which its body and the placeholder are written.
fn redact_written<
    H: FnOnce(&str, &Json) -> String,
    W: FnOnce(&str) -> Vec<u8>,
    F: Fn(&str, u64, &str) -> String,
>(
    disp: &mut Dispositions,
    ws: &mut Workspace,
    ctx: &mut Contexts,
    inv: &mut Invocations,
    entries: &mut Vec<BranchEntry>,
    journal: &mut Journal,
    session: &Session,
    project_id: &str,
    args: &ContributionDispositionArgs,
    meta: &Meta,
    disposition_id: &str,
    parts: &Json,
    keyed: H,
    wrap: W,
    genesis_head: &str,
    next_head: F,
    retained: &Retained,
    placeholder_value: &Json,
) -> (r: Result<Redacted, Problem>)
    requires
        old(disp).wf(),
        old(ws).wf(),
        old(ctx).wf(),
        old(inv).wf(),
        space_has_room(*old(ws), args.contribution_ref@),
        forall|tag: &str, doc: &Json| #[trigger] keyed.requires((tag, doc)),
        forall|key_ref: &str| #[trigger] wrap.requires((key_ref,)),
        always_steps(next_head),
        inert(placeholder_value@, args.contribution_ref@),
        well_formed(placeholder_value@),
    ensures
        final(disp).wf(),
        final(ws).wf(),
        final(ctx).wf(),
        final(inv).wf(),
        r is Err ==> {
            &&& *final(disp) == *old(disp)
            &&& *final(ws) == *old(ws)
            &&& *final(ctx) == *old(ctx)
            &&& *final(inv) == *old(inv)
            &&& final(entries)@ == old(entries)@
            &&& final(journal)@ == old(journal)@
        },
        match redact_refusal(
            *old(disp),
            *old(ws),
            project_id@,
            args.contribution_ref@,
            *meta,
            disposition_id@,
        ) {
            Some(p) => r is Err && r->Err_0@ == p,
            None => {
                exists|mint: RedactMint|
                    {
                        &&& #[trigger] redact_minted(
                            mint,
                            disposition_id@,
                            old(ws).contributions@[key1(args.contribution_ref@)],
                            parts@,
                            keyed,
                            wrap,
                        )
                        &&& redact_outcome(
                            *old(disp),
                            *final(disp),
                            *old(ws),
                            *final(ws),
                            *old(ctx),
                            *final(ctx),
                            *old(inv),
                            *final(inv),
                            old(entries)@,
                            final(entries)@,
                            old(journal)@,
                            final(journal)@,
                            *session,
                            project_id@,
                            *args,
                            *meta,
                            mint,
                            genesis_head@,
                            next_head,
                            *retained,
                            placeholder_value@,
                            r,
                        )
                    }
            },
        },
{
    let at = disposition_target(ws, project_id, args.contribution_ref.as_str(), false, meta)?;
    let i = at.0;
    let j = at.1;
    if ws.contributions.rows[i].content_state == ContentState::Redacted {
        return Err(already_disposed("contribution is already redacted"));
    }
    proof {
        reveal_strlit("");
        crate::text::empty_is(""@);
    }
    if disp.dispositions.position(disposition_id, "").is_some() {
        return Err(internal());
    }
    let ghost c = ws.contributions.rows@[i as int];
    let mut rekeyed_digest = String::new();
    if ws.contributions.rows[i].object_secret.is_none() {
        let subject_refs = list_of(&ws.contributions.rows[i].subject_refs);
        let source_refs = list_of(&ws.contributions.rows[i].source_refs);
        let content = content_subject(
            ws.contributions.rows[i].space_id.as_str(),
            ws.contributions.rows[i].origin_branch_id.as_str(),
            ws.contributions.rows[i].origin_branch_sequence,
            ws.contributions.rows[i].kind.as_str(),
            parts,
            &subject_refs,
            &source_refs,
            &ws.contributions.rows[i].epistemic_posture,
        );
        let made = mint_content_digest(
            ws.contributions.rows[i].contribution_id.as_str(),
            &content,
            keyed,
            wrap,
        );
        proof {
            assert(content_keyed(
                keyed,
                wrap,
                c.contribution_id@,
                content_of(c, parts@),
                made,
            ));
        }
        rekeyed_digest = made.digest;
    }
    let mint = RedactMint { disposition_id: disposition_id.to_owned(), rekeyed_digest };
    proof {
        assert(redact_minted(mint, disposition_id@, c, parts@, keyed, wrap));
    }
    let digest = if ws.contributions.rows[i].object_secret.is_some() {
        ws.contributions.rows[i].content_digest.clone()
    } else {
        mint.rekeyed_digest.clone()
    };
    let rekeyed = !same(digest.as_str(), ws.contributions.rows[i].content_digest.as_str());
    let needles = plaintext_needles(
        &ws.contributions.rows[i].body_parts,
        ws.contributions.rows[i].content_digest.as_str(),
        rekeyed,
    );
    let scrubbed = match scrub_retention_graph(
        retained,
        args.contribution_ref.as_str(),
        placeholder_value,
        digest.as_str(),
        &needles,
    ) {
        Ok(s) => s,
        Err(e) => {
            assert(needles_of(views(needles@), must_go(c, mint)));
            return Err(e);
        },
    };
    let artifacts = artifact_refs(&ws.contributions.rows[i].body_parts);
    let branch_id = ws.contributions.rows[i].origin_branch_id.clone();
    let sequence: u64 = ws.contributions.rows[i].origin_branch_sequence;
    let d = Disposition {
        disposition_id: mint.disposition_id.clone(),
        contribution_ref: args.contribution_ref.clone(),
        space_id: ws.contributions.rows[i].space_id.clone(),
        kind: DispositionKind::Redact,
        replacement_ref: None,
        reason_class: args.reason_class.clone(),
        authorized_by_ref: session.owner_actor_ref.clone(),
        payload_removed_at: Some(session.now_ts.clone()),
        created_at: session.now_ts.clone(),
    };
    record_contribution_disposition(
        disp,
        journal,
        d,
        project_id,
        ws.contributions.rows[i].classification_ref.as_str(),
        meta,
    );
    sweep_relations(&mut disp.relations, &needles, digest.as_str());
    sweep_contexts(ctx, &needles, digest.as_str());
    sweep_inputs(inv, &needles, digest.as_str());
    redigest(entries, branch_id.as_str(), sequence, digest.as_str());
    let head = recompute_branch_head(entries, branch_id.as_str(), genesis_head, next_head);
    erase_body(ws, i, digest.as_str());
    let ghost mid = *ws;
    let revision: u64 = ws.spaces.rows[j].revision + 1;
    ws.spaces.rows[j].revision = revision;
    if same(ws.spaces.rows[j].main_branch_id.as_str(), branch_id.as_str()) {
        ws.spaces.rows[j].head_digest = head;
    }
    proof {
        crate::table::table_updated(
            mid.spaces,
            ws.spaces,
            j as int,
            ws.spaces.rows@[j as int],
        );
    }
    let digest_key_ref = cat2("kovee-contribution-object:", args.contribution_ref.as_str());
    Ok(
        Redacted {
            revision,
            content_digest: digest,
            digest_key_ref,
            artifacts,
            needles,
            scrubbed,
        },
    )
}

/// A redaction is final: the contribution is not redacted again, under whatever
/// key, and its digest has no key left.
pub proof fn a_redaction_is_final(
    disp: Dispositions,
    ws: Workspace,
    before: Contribution,
    project: Seq<char>,
    contribution: Seq<char>,
    digest: Seq<char>,
    meta: Meta,
    id: Seq<char>,
)
    requires
        redacted_contribution(before, ws.contributions@[key1(contribution)], digest),
    ensures
        redact_refusal(disp, ws, project, contribution, meta, id) is Some,
        target_refusal(ws, project, contribution, false, meta) is None ==> redact_refusal(
            disp,
            ws,
            project,
            contribution,
            meta,
            id,
        ) == Some(disposed_view("contribution is already redacted"@)),
        ws.contributions@[key1(contribution)].object_secret is None,
{
}

/// What a stored text is once a redaction is through.
pub open spec fn stored_after(before: String, change: Option<String>) -> Seq<char> {
    match change {
        Some(t) => t@,
        None => before@,
    }
}

/// A replay of the append gives the redacted body: the stored result of a
/// command on the contribution is afterwards the rendering of a document in
/// which every projection of the contribution has the placeholder for its body,
/// with what is left of its text swept out.
pub proof fn a_replay_gives_the_redacted_body<F: Fn(&str, u64, &str) -> String>(
    ws: Workspace,
    after: Workspace,
    entries: Seq<BranchEntry>,
    entries_after: Seq<BranchEntry>,
    contribution: Seq<char>,
    mint: RedactMint,
    next_head: F,
    genesis: Seq<char>,
    retained: Retained,
    parts_value: JsonView,
    out: Redacted,
    i: int,
    j: JsonView,
)
    requires
        inert(parts_value, contribution),
        redaction_done(
            ws,
            after,
            entries,
            entries_after,
            contribution,
            mint,
            next_head,
            genesis,
            retained,
            parts_value,
            out,
        ),
        0 <= i < retained.results@.len(),
        occurs(retained.results@[i]@, contribution),
        parsed(retained.results@[i]@) == Some(j),
    ensures
        ({
            let digest = redacted_digest(ws.contributions@[key1(contribution)], mint);
            let doc = redacted_json(j, contribution, parts_value, digest);
            &&& erased(doc, contribution, parts_value, digest)
            &&& rendered(doc) is Some
            &&& stored_after(retained.results@[i], out.scrubbed.results@[i]) == swept(
                rendered(doc)->0,
                views(out.needles@),
                digest,
            )
        }),
{
    let digest = redacted_digest(ws.contributions@[key1(contribution)], mint);
    crate::redaction::redaction_erases(j, contribution, parts_value, digest);
    let needles = views(out.needles@);
    assert(rewrites(
        out.scrubbed.results@,
        retained.results@,
        contribution,
        parts_value,
        digest,
        needles,
    ));
    assert(mentions(retained.results@[i]@, contribution, needles));
    let t = out.scrubbed.results@[i];
    assert(crate::text::opt_view(t) == changed(
        retained.results@[i]@,
        rewritten(retained.results@[i]@, contribution, parts_value, digest, needles)->0,
    ));
}

/// A keyed digest does not move: redacting leaves the address of a contribution
/// whose digest was keyed from the start.
pub proof fn a_keyed_digest_stays(before: Contribution, after: Contribution, mint: RedactMint)
    requires
        before.object_secret is Some,
        redacted_contribution(before, after, redacted_digest(before, mint)),
    ensures
        after.content_digest@ == before.content_digest@,
        after.contribution_id == before.contribution_id,
        after.space_sequence == before.space_sequence,
        after.origin_branch_sequence == before.origin_branch_sequence,
{
}

/// Redacting one contribution leaves every other entry of the branch with the
/// digest it had.
pub proof fn other_entries_stay(
    before: Seq<BranchEntry>,
    after: Seq<BranchEntry>,
    branch: Seq<char>,
    sequence: u64,
    digest: Seq<char>,
    i: int,
)
    requires
        redigested(before, after, branch, sequence, digest),
        0 <= i < before.len(),
        before[i].branch_id@ != branch || before[i].branch_sequence != sequence,
    ensures
        after[i] == before[i],
{
}

/// A withdrawal is owed for a contribution of the project whose space is open
/// and at the revision that was expected, once; it is kept as it was given, moves
/// the space one revision on and no other, and leaves every contribution.
pub proof fn a_withdrawal_is_kept_as_given(
    before: Dispositions,
    after: Dispositions,
    ws: Workspace,
    ws_after: Workspace,
    journal: JournalView,
    after_journal: JournalView,
    session: Session,
    project: Seq<char>,
    args: ContributionDispositionArgs,
    meta: Meta,
    id: Seq<char>,
    r: Result<u64, Problem>,
    other: Seq<char>,
)
    requires
        before.wf(),
        after.wf(),
        withdraw_outcome(
            before,
            after,
            ws,
            ws_after,
            journal,
            after_journal,
            session,
            project,
            args,
            meta,
            id,
            r,
        ),
        space_has_room(ws, args.contribution_ref@),
        other != ws.contributions@[key1(args.contribution_ref@)].space_id@,
    ensures
        r is Err ==> after == before && ws_after == ws && after_journal == journal,
        r is Ok <==> {
            let c = ws.contributions@[key1(args.contribution_ref@)];
            &&& disposable(ws, project, args.contribution_ref@, meta)
            &&& ws.spaces@[key1(c.space_id@)].status is Open
            &&& forall|i: int|
                0 <= i < before.dispositions.rows@.len() ==> !((
                #[trigger] before.dispositions.rows@[i]).contribution_ref@ == args.contribution_ref@
                    && before.dispositions.rows@[i].kind is Withdraw)
            &&& !before.dispositions@.contains_key(key1(id))
        },
        r is Ok ==> {
            let c = ws.contributions@[key1(args.contribution_ref@)];
            let s = ws.spaces@[key1(c.space_id@)];
            let d = after.dispositions@[key1(id)];
            &&& r->Ok_0 == s.revision + 1
            &&& after.dispositions@ == before.dispositions@.insert(key1(id), d)
            &&& d.contribution_ref@ == args.contribution_ref@
            &&& d.space_id@ == c.space_id@
            &&& d.kind is Withdraw
            &&& d.replacement_ref is None
            &&& d.reason_class@ == args.reason_class@
            &&& d.authorized_by_ref@ == session.owner_actor_ref@
            &&& d.payload_removed_at is None
            &&& d.created_at@ == session.now_ts@
            &&& after.relations == before.relations
            &&& after.retractions == before.retractions
            &&& ws_after.contributions == ws.contributions
            &&& ws_after.projects == ws.projects
            &&& ws_after.participants == ws.participants
            &&& ws_after.spaces@[key1(c.space_id@)].revision == s.revision + 1
            &&& ws_after.spaces@[key1(c.space_id@)].status == s.status
            &&& ws_after.spaces@[key1(c.space_id@)].head_digest == s.head_digest
            &&& ws_after.spaces@[key1(c.space_id@)].next_branch_sequence == s.next_branch_sequence
            &&& ws.spaces@.contains_key(key1(other)) ==> ws_after.spaces@[key1(other)]
                == ws.spaces@[key1(other)]
            &&& announced(
                journal,
                after_journal,
                EventKind::ContributionWithdrawn,
                Some(project),
                id,
                Some(1u64),
                meta,
            )
            &&& after_journal.events.last().stream_id == c.space_id@
            &&& after_journal.events.last().classification_ref == Some(c.classification_ref@)
        },
{
    assert(key1(other).0 == other);
    let space = ws.contributions@[key1(args.contribution_ref@)].space_id@;
    assert(key1(space).0 == space);
    if disposed(before.dispositions.rows@, args.contribution_ref@, DispositionKind::Withdraw) {
        let i = choose|i: int|
            0 <= i < before.dispositions.rows@.len() && disposes(
                #[trigger] before.dispositions.rows@[i],
                args.contribution_ref@,
                DispositionKind::Withdraw,
            );
        assert(before.dispositions.rows@[i].contribution_ref@ == args.contribution_ref@);
    } else {
        assert forall|i: int| 0 <= i < before.dispositions.rows@.len() implies !((
        #[trigger] before.dispositions.rows@[i]).contribution_ref@ == args.contribution_ref@
            && before.dispositions.rows@[i].kind is Withdraw) by {
            assert(!disposes(
                before.dispositions.rows@[i],
                args.contribution_ref@,
                DispositionKind::Withdraw,
            ));
        }
    }
    if r is Ok {
        let d = after.dispositions.rows@.last();
        crate::table::table_pushed(before.dispositions, after.dispositions, d);
        assert(d.key() == key1(id));
    }
}

/// Whether a contribution and its space are in the project and the space is at
/// the revision that was expected, where one was.
pub open spec fn disposable(
    ws: Workspace,
    project: Seq<char>,
    contribution: Seq<char>,
    meta: Meta,
) -> bool {
    let c = ws.contributions@[key1(contribution)];
    let s = ws.spaces@[key1(c.space_id@)];
    &&& ws.contributions@.contains_key(key1(contribution))
    &&& c.project_id@ == project
    &&& ws.spaces@.contains_key(key1(c.space_id@))
    &&& s.project_id@ == project
    &&& meta.expected_revision is Some ==> meta.expected_revision->0 == s.revision
}

/// A contribution is superseded by another of its own space, once, in an open
/// space at the revision that was expected; the disposition names the
/// replacement that was given, and both contributions stay.
pub proof fn a_supersession_is_kept_as_given(
    before: Dispositions,
    after: Dispositions,
    ws: Workspace,
    ws_after: Workspace,
    journal: JournalView,
    after_journal: JournalView,
    session: Session,
    project: Seq<char>,
    args: ContributionSupersedeArgs,
    meta: Meta,
    id: Seq<char>,
    r: Result<u64, Problem>,
    other: Seq<char>,
)
    requires
        before.wf(),
        after.wf(),
        supersede_outcome(
            before,
            after,
            ws,
            ws_after,
            journal,
            after_journal,
            session,
            project,
            args,
            meta,
            id,
            r,
        ),
        space_has_room(ws, args.contribution_ref@),
        other != ws.contributions@[key1(args.contribution_ref@)].space_id@,
    ensures
        r is Err ==> after == before && ws_after == ws && after_journal == journal,
        r is Ok <==> {
            let c = ws.contributions@[key1(args.contribution_ref@)];
            &&& disposable(ws, project, args.contribution_ref@, meta)
            &&& ws.spaces@[key1(c.space_id@)].status is Open
            &&& args.replacement_ref@ != args.contribution_ref@
            &&& ws.contributions@.contains_key(key1(args.replacement_ref@))
            &&& ws.contributions@[key1(args.replacement_ref@)].space_id@ == c.space_id@
            &&& forall|i: int|
                0 <= i < before.dispositions.rows@.len() ==> !((
                #[trigger] before.dispositions.rows@[i]).contribution_ref@ == args.contribution_ref@
                    && before.dispositions.rows@[i].kind is Supersede)
            &&& !before.dispositions@.contains_key(key1(id))
        },
        r is Ok ==> {
            let c = ws.contributions@[key1(args.contribution_ref@)];
            let s = ws.spaces@[key1(c.space_id@)];
            let d = after.dispositions@[key1(id)];
            &&& r->Ok_0 == s.revision + 1
            &&& after.dispositions@ == before.dispositions@.insert(key1(id), d)
            &&& d.contribution_ref@ == args.contribution_ref@
            &&& opt_view(d.replacement_ref) == Some(args.replacement_ref@)
            &&& d.space_id@ == c.space_id@
            &&& d.kind is Supersede
            &&& d.reason_class@ == args.reason_class@
            &&& d.authorized_by_ref@ == session.owner_actor_ref@
            &&& d.payload_removed_at is None
            &&& d.created_at@ == session.now_ts@
            &&& after.relations == before.relations
            &&& after.retractions == before.retractions
            &&& ws_after.contributions == ws.contributions
            &&& ws_after.projects == ws.projects
            &&& ws_after.participants == ws.participants
            &&& ws_after.spaces@[key1(c.space_id@)].revision == s.revision + 1
            &&& ws_after.spaces@[key1(c.space_id@)].status == s.status
            &&& ws_after.spaces@[key1(c.space_id@)].head_digest == s.head_digest
            &&& ws.spaces@.contains_key(key1(other)) ==> ws_after.spaces@[key1(other)]
                == ws.spaces@[key1(other)]
            &&& announced(
                journal,
                after_journal,
                EventKind::ContributionSuperseded,
                Some(project),
                id,
                Some(1u64),
                meta,
            )
            &&& after_journal.events.last().stream_id == c.space_id@
            &&& after_journal.events.last().classification_ref == Some(c.classification_ref@)
        },
{
    assert(key1(other).0 == other);
    let space = ws.contributions@[key1(args.contribution_ref@)].space_id@;
    assert(key1(space).0 == space);
    if disposed(before.dispositions.rows@, args.contribution_ref@, DispositionKind::Supersede) {
        let i = choose|i: int|
            0 <= i < before.dispositions.rows@.len() && disposes(
                #[trigger] before.dispositions.rows@[i],
                args.contribution_ref@,
                DispositionKind::Supersede,
            );
        assert(before.dispositions.rows@[i].contribution_ref@ == args.contribution_ref@);
    } else {
        assert forall|i: int| 0 <= i < before.dispositions.rows@.len() implies !((
        #[trigger] before.dispositions.rows@[i]).contribution_ref@ == args.contribution_ref@
            && before.dispositions.rows@[i].kind is Supersede) by {
            assert(!disposes(
                before.dispositions.rows@[i],
                args.contribution_ref@,
                DispositionKind::Supersede,
            ));
        }
    }
    if r is Ok {
        let d = after.dispositions.rows@.last();
        crate::table::table_pushed(before.dispositions, after.dispositions, d);
        assert(d.key() == key1(id));
    }
}

/// A relation is retracted once, in an open space at the revision that was
/// expected; the retraction is kept as it was given and the relation stays.
pub proof fn a_retraction_is_kept_as_given(
    before: Dispositions,
    after: Dispositions,
    ws: Workspace,
    ws_after: Workspace,
    journal: JournalView,
    after_journal: JournalView,
    session: Session,
    project: Seq<char>,
    args: RelationRetractArgs,
    meta: Meta,
    id: Seq<char>,
    r: Result<u64, Problem>,
    other: Seq<char>,
)
    requires
        before.wf(),
        after.wf(),
        retract_outcome(
            before,
            after,
            ws,
            ws_after,
            journal,
            after_journal,
            session,
            project,
            args,
            meta,
            id,
            r,
        ),
        ws.spaces@[key1(before.relations@[key1(args.relation_ref@)].space_id@)].revision < u64::MAX,
        other != before.relations@[key1(args.relation_ref@)].space_id@,
    ensures
        r is Err ==> after == before && ws_after == ws && after_journal == journal,
        r is Ok <==> {
            let rel = before.relations@[key1(args.relation_ref@)];
            let s = ws.spaces@[key1(rel.space_id@)];
            &&& before.relations@.contains_key(key1(args.relation_ref@))
            &&& ws.spaces@.contains_key(key1(rel.space_id@))
            &&& s.project_id@ == project
            &&& s.status is Open
            &&& meta.expected_revision is Some ==> meta.expected_revision->0 == s.revision
            &&& forall|i: int|
                0 <= i < before.retractions.rows@.len() ==> (
                #[trigger] before.retractions.rows@[i]).relation_ref@ != args.relation_ref@
            &&& !before.retractions@.contains_key(key1(id))
        },
        r is Ok ==> {
            let rel = before.relations@[key1(args.relation_ref@)];
            let s = ws.spaces@[key1(rel.space_id@)];
            let d = after.retractions@[key1(id)];
            &&& r->Ok_0 == s.revision + 1
            &&& after.retractions@ == before.retractions@.insert(key1(id), d)
            &&& d.relation_ref@ == args.relation_ref@
            &&& d.space_id@ == rel.space_id@
            &&& d.reason_class@ == args.reason_class@
            &&& d.authorized_by_ref@ == session.owner_actor_ref@
            &&& d.created_at@ == session.now_ts@
            &&& after.relations == before.relations
            &&& after.dispositions == before.dispositions
            &&& ws_after.contributions == ws.contributions
            &&& ws_after.projects == ws.projects
            &&& ws_after.spaces@[key1(rel.space_id@)].revision == s.revision + 1
            &&& ws_after.spaces@[key1(rel.space_id@)].status == s.status
            &&& ws_after.spaces@[key1(rel.space_id@)].head_digest == s.head_digest
            &&& ws.spaces@.contains_key(key1(other)) ==> ws_after.spaces@[key1(other)]
                == ws.spaces@[key1(other)]
            &&& announced(
                journal,
                after_journal,
                EventKind::RelationRetracted,
                Some(project),
                id,
                Some(1u64),
                meta,
            )
            &&& after_journal.events.last().stream_id == rel.space_id@
            &&& after_journal.events.last().classification_ref == Some(rel.classification_ref@)
        },
{
    assert(key1(other).0 == other);
    let space = before.relations@[key1(args.relation_ref@)].space_id@;
    assert(key1(space).0 == space);
    if before.relations@.contains_key(key1(args.relation_ref@)) {
        let n = crate::table::table_row(before.relations, key1(args.relation_ref@));
        assert(before.relations.rows@[n].key().0 == args.relation_ref@);
    }
    if r is Ok {
        let d = after.retractions.rows@.last();
        crate::table::table_pushed(before.retractions, after.retractions, d);
        assert(d.key() == key1(id));
    }
}

/// What was withdrawn, superseded or retracted can not be again, and a
/// withdrawal does not stand in the way of a supersession.
pub proof fn a_disposition_bars_its_own_kind(
    before: Dispositions,
    after: Dispositions,
    ws: Workspace,
    ws_after: Workspace,
    journal: JournalView,
    after_journal: JournalView,
    session: Session,
    project: Seq<char>,
    args: ContributionDispositionArgs,
    again: ContributionDispositionArgs,
    supersede: ContributionSupersedeArgs,
    meta: Meta,
    later: Meta,
    id: Seq<char>,
    later_id: Seq<char>,
    r: Result<u64, Problem>,
)
    requires
        before.wf(),
        after.wf(),
        withdraw_outcome(
            before,
            after,
            ws,
            ws_after,
            journal,
            after_journal,
            session,
            project,
            args,
            meta,
            id,
            r,
        ),
        r is Ok,
        again.contribution_ref@ == args.contribution_ref@,
        supersede.contribution_ref@ == args.contribution_ref@,
        later_id != id,
    ensures
        withdraw_refusal(after, ws_after, project, again, later, later_id) is Some,
        supersede_refusal(before, ws, project, supersede, meta, later_id) is None
            ==> supersede_refusal(after, ws, project, supersede, meta, later_id) is None,
{
    let d = after.dispositions.rows@.last();
    let n = after.dispositions.rows@.len() - 1;
    crate::table::table_pushed(before.dispositions, after.dispositions, d);
    assert(disposes(after.dispositions.rows@[n], args.contribution_ref@, DispositionKind::Withdraw));
    assert(key1(later_id).0 == later_id);
    assert(key1(id).0 == id);
    if disposed(after.dispositions.rows@, args.contribution_ref@, DispositionKind::Supersede) {
        let i = choose|i: int|
            0 <= i < after.dispositions.rows@.len() && disposes(
                #[trigger] after.dispositions.rows@[i],
                args.contribution_ref@,
                DispositionKind::Supersede,
            );
        assert(i < n);
        assert(disposes(
            before.dispositions.rows@[i],
            args.contribution_ref@,
            DispositionKind::Supersede,
        ));
    }
}

/// Each disposition is announced as what it is.
pub proof fn a_disposition_is_announced_as_itself(a: DispositionKind, b: DispositionKind)
    ensures
        a.event() == b.event() ==> a == b,
        a.audit_name() == b.audit_name() ==> a == b,
        DispositionKind::Withdraw.event() == EventKind::ContributionWithdrawn,
        DispositionKind::Supersede.event() == EventKind::ContributionSuperseded,
        DispositionKind::Redact.event() == EventKind::ContributionRedacted,
        DispositionKind::Redact.audit_name() == "command.contribution_redacted"@,
{
    reveal_strlit("command.contribution_withdrawn");
    reveal_strlit("command.contribution_superseded");
    reveal_strlit("command.contribution_redacted");
    assert("command.contribution_withdrawn"@.len() == 30);
    assert("command.contribution_superseded"@.len() == 31);
    assert("command.contribution_redacted"@.len() == 29);
}

/// Once redacted, a contribution has one empty part and no secret, keeps its
/// place and its digest where that was keyed, and takes the new one where it was
/// not; its space moves one revision on; the artifacts it held are told, in
/// order; and every other contribution and space stays.
pub proof fn a_redaction_takes_the_body<F: Fn(&str, u64, &str) -> String>(
    ws: Workspace,
    after: Workspace,
    entries: Seq<BranchEntry>,
    entries_after: Seq<BranchEntry>,
    id: Seq<char>,
    mint: RedactMint,
    next_head: F,
    genesis: Seq<char>,
    retained: Retained,
    blank: JsonView,
    out: Redacted,
    other: Seq<char>,
    other_space: Seq<char>,
)
    requires
        redaction_done(
            ws,
            after,
            entries,
            entries_after,
            id,
            mint,
            next_head,
            genesis,
            retained,
            blank,
            out,
        ),
        other != id,
        other_space != ws.contributions@[key1(id)].space_id@,
        ws.spaces@[key1(ws.contributions@[key1(id)].space_id@)].revision < u64::MAX,
    ensures
        ({
            let c = ws.contributions@[key1(id)];
            let d = after.contributions@[key1(id)];
            &&& d.content_state is Redacted
            &&& d.object_secret is None
            &&& d.body_parts@.len() == 1
            &&& d.body_parts@[0] matches Part::Text { media_type, text, language }
                && media_type@ == "application/x.kovee.redacted"@ && text@.len() == 0
                && language is None
            &&& c.object_secret is Some ==> d.content_digest@ == c.content_digest@
            &&& c.object_secret is None ==> d.content_digest@ == mint.rekeyed_digest@
            &&& out.content_digest@ == d.content_digest@
            &&& d.contribution_id == c.contribution_id
            &&& d.space_id == c.space_id
            &&& d.space_sequence == c.space_sequence
            &&& d.origin_branch_id == c.origin_branch_id
            &&& d.origin_branch_sequence == c.origin_branch_sequence
            &&& d.classification_ref == c.classification_ref
            &&& d.kind == c.kind
            &&& ws.contributions@.contains_key(key1(other)) ==> after.contributions@[key1(other)]
                == ws.contributions@[key1(other)]
        }),
        ({
            let c = ws.contributions@[key1(id)];
            let s = ws.spaces@[key1(c.space_id@)];
            let t = after.spaces@[key1(c.space_id@)];
            &&& t.revision == s.revision + 1
            &&& out.revision == t.revision
            &&& t.status == s.status
            &&& t.project_id == s.project_id
            &&& t.next_branch_sequence == s.next_branch_sequence
            &&& t.main_branch_id == s.main_branch_id
            &&& s.main_branch_id@ == c.origin_branch_id@ ==> head_of(
                next_head,
                entries_after,
                s.main_branch_id@,
                genesis,
                t.head_digest@,
            )
            &&& s.main_branch_id@ != c.origin_branch_id@ ==> t.head_digest == s.head_digest
            &&& ws.spaces@.contains_key(key1(other_space)) ==> after.spaces@[key1(other_space)]
                == ws.spaces@[key1(other_space)]
        }),
        after.projects == ws.projects,
        after.participants == ws.participants,
        out.digest_key_ref@ == "kovee-contribution-object:"@ + id,
        views(out.artifacts@) == artifacts_of(ws.contributions@[key1(id)].body_parts@),
        forall|i: int|
            0 <= i < entries.len() && (#[trigger] entries[i]).branch_id@
                == ws.contributions@[key1(id)].origin_branch_id@ && entries[i].branch_sequence
                == ws.contributions@[key1(id)].origin_branch_sequence ==> {
                &&& entries_after[i].object_digest@ == out.content_digest@
                &&& entries_after[i].branch_id == entries[i].branch_id
                &&& entries_after[i].branch_sequence == entries[i].branch_sequence
            },
{
    assert(key1(other).0 == other);
    assert(key1(id).0 == id);
    let space = ws.contributions@[key1(id)].space_id@;
    assert(key1(space).0 == space);
    assert(key1(other_space).0 == other_space);
    let c = ws.contributions@[key1(id)];
    assert forall|i: int|
        0 <= i < entries.len() && (#[trigger] entries[i]).branch_id@ == c.origin_branch_id@
            && entries[i].branch_sequence == c.origin_branch_sequence implies {
        &&& entries_after[i].object_digest@ == out.content_digest@
        &&& entries_after[i].branch_id == entries[i].branch_id
        &&& entries_after[i].branch_sequence == entries[i].branch_sequence
    } by {
        assert(entry_redigested(
            entries[i],
            entries_after[i],
            c.origin_branch_id@,
            c.origin_branch_sequence,
            redacted_digest(c, mint),
        ));
    }
}

/// The artifacts of a body are those of its parts, each as often as it is there.
pub proof fn every_artifact_is_told(parts: Seq<Part>, part: Part)
    ensures
        part matches Part::Artifact { artifact_ref } ==> artifacts_of(parts.push(part))
            == artifacts_of(parts).push(artifact_ref@),
        part !is Artifact ==> artifacts_of(parts.push(part)) == artifacts_of(parts),
        artifacts_of(Seq::<Part>::empty()).len() == 0,
{
    assert(parts.push(part).drop_last() =~= parts);
    assert(parts.push(part).last() == part);
}

/// A redaction is refused for what is not of the project, for another revision
/// than expected, and for what is redacted already, and then changes nothing;
/// a space that is not open does not stand in its way. One that is done is on
/// record as it was given.
pub proof fn a_redaction_is_kept_as_given<
    H: FnOnce(&str, &Json) -> String,
    W: FnOnce(&str) -> Vec<u8>,
    F: Fn(&str, u64, &str) -> String,
    P: Fn(&Vec<Part>) -> Json,
    N: Fn(&str) -> String,
>(
    disp: Dispositions,
    disp_after: Dispositions,
    ws: Workspace,
    ws_after: Workspace,
    ctx: Contexts,
    ctx_after: Contexts,
    inv: Invocations,
    inv_after: Invocations,
    entries: Vec<BranchEntry>,
    entries_after: Vec<BranchEntry>,
    journal: JournalView,
    after_journal: JournalView,
    session: Session,
    project: Seq<char>,
    args: ContributionDispositionArgs,
    meta: Meta,
    id: Seq<char>,
    write: P,
    keyed: H,
    wrap: W,
    genesis: N,
    next_head: F,
    retained: Retained,
    r: Result<Redacted, Problem>,
)
    requires
        disp.wf(),
        disp_after.wf(),
        redaction_outcome(
            disp,
            disp_after,
            ws,
            ws_after,
            ctx,
            ctx_after,
            inv,
            inv_after,
            entries,
            entries_after,
            journal,
            after_journal,
            session,
            project,
            args,
            meta,
            id,
            write,
            keyed,
            wrap,
            genesis,
            next_head,
            retained,
            r,
        ),
    ensures
        r is Err ==> {
            &&& disp_after == disp
            &&& ws_after == ws
            &&& ctx_after == ctx
            &&& inv_after == inv
            &&& entries_after@ == entries@
            &&& after_journal == journal
        },
        r is Ok ==> {
            &&& disposable(ws, project, args.contribution_ref@, meta)
            &&& ws.contributions@[key1(args.contribution_ref@)].content_state !is Redacted
            &&& !disp.dispositions@.contains_key(key1(id))
        },
        !ws.contributions@.contains_key(key1(args.contribution_ref@)) ==> r is Err && r->Err_0@
            == not_found_view(),
        disposable(ws, project, args.contribution_ref@, meta) && ws.contributions@[key1(
            args.contribution_ref@,
        )].content_state is Redacted ==> r is Err && r->Err_0@.kind == ProblemKind::Invalid,
        r is Ok ==> {
            let c = ws.contributions@[key1(args.contribution_ref@)];
            let d = disp_after.dispositions@[key1(id)];
            &&& disp_after.dispositions@ == disp.dispositions@.insert(key1(id), d)
            &&& d.contribution_ref@ == args.contribution_ref@
            &&& d.space_id@ == c.space_id@
            &&& d.kind is Redact
            &&& d.replacement_ref is None
            &&& d.reason_class@ == args.reason_class@
            &&& d.authorized_by_ref@ == session.owner_actor_ref@
            &&& opt_view(d.payload_removed_at) == Some(session.now_ts@)
            &&& d.created_at@ == session.now_ts@
            &&& disp_after.retractions == disp.retractions
            &&& relations_swept(
                disp.relations.rows@,
                disp_after.relations.rows@,
                views(r->Ok_0.needles@),
                r->Ok_0.content_digest@,
            )
            &&& contexts_swept(
                ctx,
                ctx_after,
                views(r->Ok_0.needles@),
                r->Ok_0.content_digest@,
            )
            &&& inputs_swept(inv, inv_after, views(r->Ok_0.needles@), r->Ok_0.content_digest@)
            &&& announced(
                journal,
                after_journal,
                EventKind::ContributionRedacted,
                Some(project),
                id,
                Some(1u64),
                meta,
            )
        },
{
    if r is Ok {
        let d = disp_after.dispositions.rows@.last();
        assert(disp_after.dispositions.rows@ == disp.dispositions.rows@.push(d));
        crate::table::table_pushed(disp.dispositions, disp_after.dispositions, d);
        assert(d.key() == key1(id));
    }
}

/// A digest that was not keyed is keyed anew when its contribution is redacted:
/// over the contribution's own content, for that contribution.
pub proof fn an_unkeyed_digest_is_keyed_anew<
    H: FnOnce(&str, &Json) -> String,
    W: FnOnce(&str) -> Vec<u8>,
>(
    mint: RedactMint,
    id: Seq<char>,
    c: Contribution,
    parts: JsonView,
    keyed: H,
    wrap: W,
)
    requires
        redact_minted(mint, id, c, parts, keyed, wrap),
        c.object_secret is None,
    ensures
        mint.disposition_id@ == id,
        exists|tag: &str, doc: &Json, out: String|
            {
                &&& tag@ == "kovee-contribution-content"@
                &&& doc@ == content_of(c, parts)
                &&& out@ == mint.rekeyed_digest@
                &&& out@ == redacted_digest(c, mint)
                &&& #[trigger] keyed.ensures((tag, doc), out)
            },
{
}

/// A disposition and a retraction go by the name they were given.
pub proof fn a_disposition_goes_by_its_name(
    d: Disposition,
    id: Seq<char>,
    contribution: Seq<char>,
    space: Seq<char>,
    kind: DispositionKind,
    replacement: Option<Seq<char>>,
    reason: Seq<char>,
    session: Session,
    e: Retraction,
    r: Relation,
)
    requires
        disposition_row(d, id, contribution, space, kind, replacement, reason, session),
        retraction_row(e, id, r, reason, session),
    ensures
        d.disposition_id@ == id,
        e.disposition_id@ == id,
        kind is Redact <==> d.payload_removed_at is Some,
{
}

/// The rows of a target are the contribution that was named and its space.
pub proof fn a_target_is_the_contribution_and_its_space(
    ws: Workspace,
    id: Seq<char>,
    at: (usize, usize),
)
    requires
        target_rows(ws, id, at),
    ensures
        at.0 < ws.contributions.rows@.len(),
        at.1 < ws.spaces.rows@.len(),
        ws.contributions.rows@[at.0 as int].contribution_id@ == id,
        ws.spaces.rows@[at.1 as int].space_id@ == ws.contributions.rows@[at.0 as int].space_id@,
{
}

/// A disposition is audited with its own name, what it is of, and its command.
pub proof fn a_disposition_is_audited_with_what_it_is_of(
    before: JournalView,
    d: Disposition,
    e: Retraction,
    project: Seq<char>,
    classification: Seq<char>,
    meta: Meta,
)
    ensures
        disposition_journal(before, d, project, classification, meta).audits == before.with_audit(
            d.kind.audit_name(),
            "disposition="@ + d.disposition_id@ + ";contribution="@ + d.contribution_ref@ + ";"@
                + ("idem="@ + meta.idempotency_key@),
        ).audits,
        retraction_journal(before, e, project, classification, meta).audits == before.with_audit(
            "command.relation_retracted"@,
            "disposition="@ + e.disposition_id@ + ";relation="@ + e.relation_ref@ + ";"@ + ("idem="@
                + meta.idempotency_key@),
        ).audits,
{
}

/// A redaction is owed for a contribution of the project that is not redacted, at
/// the revision that was expected, under a name that is free, where what is
/// retained of it can be written again.
pub proof fn a_redaction_is_owed(
    disp: Dispositions,
    ws: Workspace,
    project: Seq<char>,
    contribution: Seq<char>,
    meta: Meta,
    id: Seq<char>,
)
    ensures
        redact_refusal(disp, ws, project, contribution, meta, id) is None <==> {
            let c = ws.contributions@[key1(contribution)];
            let s = ws.spaces@[key1(c.space_id@)];
            &&& ws.contributions@.contains_key(key1(contribution))
            &&& c.project_id@ == project
            &&& ws.spaces@.contains_key(key1(c.space_id@))
            &&& s.project_id@ == project
            &&& meta.expected_revision is None || meta.expected_revision->0 == s.revision
            &&& c.content_state !is Redacted
            &&& !disp.dispositions@.contains_key(key1(id))
        },
{
}

} // verus!
