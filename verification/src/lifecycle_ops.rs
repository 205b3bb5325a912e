//! The lifecycle of projects and spaces. A direct command holds or narrows
//! access; whatever may widen it is prepared first, and confirmed against
//! exactly what was prepared. Nothing here deletes history.

use vstd::prelude::*;

use crate::digests::{digested, digests_all};
use crate::documents::{item_set_document, item_set_subject, policy_change_document,
    policy_change_subject, project_audience_document, project_audience_subject,
    space_audience_document, space_audience_subject, widening_document, widening_subject};
use crate::invoke::{Contexts, Frontier};
use crate::journal::{EventKind, Journal, JournalView};
use crate::json::Json;
use crate::listing::{by_two, by_two_weak, comes_first, order, ordered_listing, Listed};
use crate::problem::{check_expected_revision, internal, internal_view, not_found, not_found_view,
    problem, refusal_with, revision_agrees, stale_revision, stale_revision_view, Problem,
    ProblemKind, ProblemView};
use crate::records::{announced, append_command_event, command_event, command_name, given_or, or_else,
    scope_digest, visible, visible_space, Contribution, Meta, Project, ProjectStatus, Session,
    Space, SpaceStatus, Workspace};
use crate::table::{key1, Key, Row, Table};
use crate::text::{cat2, cat3, cat4, opt_view, same, views};

use vstd::string::*;

verus! {

pub open spec fn transition_view(detail: Seq<char>) -> ProblemView {
    refusal_with(ProblemKind::StaleRevision, "invalid lifecycle transition"@, detail)
}

fn invalid_transition(detail: &str) -> (r: Problem)
    ensures
        r@ == transition_view(detail@),
{
    problem(ProblemKind::StaleRevision, "invalid lifecycle transition", detail)
}

// ---------------------------------------------- project_update_metadata ----

/// Why a project is not renamed.
pub open spec fn rename_refusal(ws: Workspace, project: Seq<char>, meta: Meta) -> Option<
    ProblemView,
> {
    let p = ws.projects@[key1(project)];
    if !ws.projects@.contains_key(key1(project)) {
        Some(not_found_view())
    } else if p.status is Archived {
        Some(transition_view("project is archived"@))
    } else if !revision_agrees(meta.expected_revision, p.revision) {
        Some(stale_revision_view(p.revision))
    } else {
        None
    }
}

/// What renaming a project does and answers.
pub open spec fn metadata_outcome(
    ws: Workspace,
    ws_after: Workspace,
    journal: JournalView,
    journal_after: JournalView,
    project_id: Seq<char>,
    name: Seq<char>,
    meta: Meta,
    r: Result<u64, Problem>,
) -> bool {
    &&& r is Err ==> ws_after == ws && journal_after == journal
    &&& match rename_refusal(ws, project_id, meta) {
        Some(p) => r is Err && r->Err_0@ == p,
        None => {
            let k = key1(project_id);
            let p = ws.projects@[k];
            let q = ws_after.projects@[k];
            &&& r == Ok::<u64, Problem>((p.revision + 1) as u64)
            &&& ws_after.projects@ == ws.projects@.insert(k, q)
            &&& q == (Project { name: q.name, revision: (p.revision + 1) as u64, ..p })
            &&& q.name@ == name
            &&& ws_after.spaces == ws.spaces
            &&& ws_after.participants == ws.participants
            &&& ws_after.contributions == ws.contributions
            &&& journal_after == journal.with_event(
                command_event(
                    EventKind::ProjectUpdated,
                    project_id,
                    Some(project_id),
                    "schema:project-v1"@,
                    project_id,
                    (p.revision + 1) as u64,
                    meta,
                    Some(p.default_classification_ref@),
                ),
            ).with_audit(
                "command.project_updated"@,
                "project="@ + project_id + ";"@ + command_name(meta),
            )
        },
    }
}

/// Renames a project. The answer is the revision it moves to.
pub fn project_update_metadata(
    ws: &mut Workspace,
    journal: &mut Journal,
    project_id: &str,
    name: &str,
    meta: &Meta,
) -> (r: Result<u64, Problem>)
    requires
        old(ws).wf(),
        old(ws).projects@.contains_key(key1(project_id@)) ==> old(ws).projects@[key1(
            project_id@,
        )].revision < u64::MAX,
    ensures
        final(ws).wf(),
        metadata_outcome(
            *old(ws),
            *final(ws),
            old(journal)@,
            final(journal)@,
            project_id@,
            name@,
            *meta,
            r,
        ),
{
    proof {
        reveal_strlit("");
        crate::text::empty_is(""@);
    }
    let i = match ws.projects.position(project_id, "") {
        None => {
            return Err(not_found());
        },
        Some(i) => i,
    };
    if ws.projects.rows[i].status == ProjectStatus::Archived {
        return Err(invalid_transition("project is archived"));
    }
    check_expected_revision(meta.expected_revision, ws.projects.rows[i].revision)?;
    let next: u64 = ws.projects.rows[i].revision + 1;
    ws.projects.rows[i].name = name.to_owned();
    ws.projects.rows[i].revision = next;
    proof {
        crate::table::table_updated(
            old(ws).projects,
            ws.projects,
            i as int,
            ws.projects.rows@[i as int],
        );
    }
    append_command_event(
        journal,
        EventKind::ProjectUpdated,
        project_id,
        Some(project_id),
        "schema:project-v1",
        project_id,
        next,
        meta,
        Some(ws.projects.rows[i].default_classification_ref.as_str()),
    );
    let key = scope_digest(meta);
    let detail = cat4("project=", project_id, ";", key.as_str());
    journal.audit("command.project_updated", detail.as_str());
    Ok(next)
}

// ------------------------------------------------------ space_lifecycle ----

/// A direct command on a space.
#[derive(Debug)]
pub enum SpaceLifecycle {
    UpdateMetadata { title: Option<String>, purpose_contribution_ref: Option<String> },
    Freeze,
    Reopen,
    Archive,
    Restrict,
    PolicyNarrow { policy_set_ref: Option<String>, default_classification_ref: Option<String> },
}

impl SpaceLifecycle {
    pub open spec fn kind(self) -> EventKind {
        match self {
            SpaceLifecycle::UpdateMetadata { .. } => EventKind::SpaceUpdated,
            SpaceLifecycle::Freeze => EventKind::SpaceFrozen,
            SpaceLifecycle::Reopen => EventKind::SpaceReopened,
            SpaceLifecycle::Archive => EventKind::SpaceArchived,
            SpaceLifecycle::Restrict => EventKind::SpaceRestricted,
            SpaceLifecycle::PolicyNarrow { .. } => EventKind::SpacePolicyNarrowed,
        }
    }

    fn event_type(&self) -> (r: EventKind)
        ensures
            r == self.kind(),
    {
        match self {
            SpaceLifecycle::UpdateMetadata { .. } => EventKind::SpaceUpdated,
            SpaceLifecycle::Freeze => EventKind::SpaceFrozen,
            SpaceLifecycle::Reopen => EventKind::SpaceReopened,
            SpaceLifecycle::Archive => EventKind::SpaceArchived,
            SpaceLifecycle::Restrict => EventKind::SpaceRestricted,
            SpaceLifecycle::PolicyNarrow { .. } => EventKind::SpacePolicyNarrowed,
        }
    }

    pub open spec fn audit_name(self) -> Seq<char> {
        match self {
            SpaceLifecycle::UpdateMetadata { .. } => "command.space_updated"@,
            SpaceLifecycle::Freeze => "command.space_frozen"@,
            SpaceLifecycle::Reopen => "command.space_reopened"@,
            SpaceLifecycle::Archive => "command.space_archived"@,
            SpaceLifecycle::Restrict => "command.space_restricted"@,
            SpaceLifecycle::PolicyNarrow { .. } => "command.space_policy_narrowed"@,
        }
    }

    fn audit_event(&self) -> (r: &'static str)
        ensures
            r@ == self.audit_name(),
    {
        match self {
            SpaceLifecycle::UpdateMetadata { .. } => "command.space_updated",
            SpaceLifecycle::Freeze => "command.space_frozen",
            SpaceLifecycle::Reopen => "command.space_reopened",
            SpaceLifecycle::Archive => "command.space_archived",
            SpaceLifecycle::Restrict => "command.space_restricted",
            SpaceLifecycle::PolicyNarrow { .. } => "command.space_policy_narrowed",
        }
    }
}

/// Whether an object can be named as standing in a space.
pub open spec fn in_space(ws: Workspace, space: Seq<char>, object: Seq<char>) -> bool {
    ws.contributions@.contains_key(key1(object)) && ws.contributions@[key1(object)].space_id@
        == space
}

/// Finds an object of a space.
pub fn resolve_space_object(ws: &Workspace, space_id: &str, object_ref: &str) -> (r: Result<
    usize,
    Problem,
>)
    requires
        ws.wf(),
    ensures
        match r {
            Ok(i) => {
                &&& in_space(*ws, space_id@, object_ref@)
                &&& i < ws.contributions.rows.len()
                &&& ws.contributions.rows@[i as int] == ws.contributions@[key1(object_ref@)]
            },
            Err(p) => !in_space(*ws, space_id@, object_ref@) && p@ == not_found_view(),
        },
{
    proof {
        reveal_strlit("");
        crate::text::empty_is(""@);
    }
    match ws.contributions.position(object_ref, "") {
        None => Err(not_found()),
        Some(i) => if same(ws.contributions.rows[i].space_id.as_str(), space_id) {
            Ok(i)
        } else {
            Err(not_found())
        },
    }
}

/// Why a direct command does not apply to a space.
pub open spec fn apply_refusal(ws: Workspace, s: Space, l: SpaceLifecycle) -> Option<ProblemView> {
    match l {
        SpaceLifecycle::UpdateMetadata { title, purpose_contribution_ref } => if s.status
            is Archived {
            Some(transition_view("space is archived"@))
        } else if purpose_contribution_ref is Some && !in_space(
            ws,
            s.space_id@,
            purpose_contribution_ref->0@,
        ) {
            Some(not_found_view())
        } else {
            None
        },
        SpaceLifecycle::Freeze => if s.status !is Open {
            Some(transition_view("cannot freeze a "@ + s.status.name() + " space"@))
        } else {
            None
        },
        SpaceLifecycle::Reopen => if s.status !is Frozen {
            Some(transition_view("cannot reopen a "@ + s.status.name() + " space"@))
        } else {
            None
        },
        SpaceLifecycle::Archive => if s.status is Archived {
            Some(transition_view("space is already archived"@))
        } else {
            None
        },
        SpaceLifecycle::Restrict => if s.visibility@ == "restricted"@ {
            Some(transition_view("space is already restricted"@))
        } else {
            None
        },
        SpaceLifecycle::PolicyNarrow { .. } => if s.status is Archived {
            Some(transition_view("space is archived"@))
        } else {
            None
        },
    }
}

/// What a direct command makes of a space: one thing of it, and the next
/// revision.
pub open spec fn applied(before: Space, after: Space, l: SpaceLifecycle) -> bool {
    &&& after.revision == before.revision + 1
    &&& match l {
        SpaceLifecycle::UpdateMetadata { title, purpose_contribution_ref } => {
            &&& after == (Space {
                revision: after.revision,
                title: after.title,
                purpose_contribution_ref: after.purpose_contribution_ref,
                ..before
            })
            &&& after.title@ == or_else(title, before.title@)
            &&& opt_view(after.purpose_contribution_ref) == if purpose_contribution_ref is Some {
                opt_view(purpose_contribution_ref)
            } else {
                opt_view(before.purpose_contribution_ref)
            }
        },
        SpaceLifecycle::Freeze => after == (Space {
            revision: after.revision,
            status: SpaceStatus::Frozen,
            ..before
        }),
        SpaceLifecycle::Reopen => after == (Space {
            revision: after.revision,
            status: SpaceStatus::Open,
            ..before
        }),
        SpaceLifecycle::Archive => after == (Space {
            revision: after.revision,
            status: SpaceStatus::Archived,
            ..before
        }),
        SpaceLifecycle::Restrict => {
            &&& after == (Space {
                revision: after.revision,
                visibility: after.visibility,
                ..before
            })
            &&& after.visibility@ == "restricted"@
        },
        SpaceLifecycle::PolicyNarrow { policy_set_ref, default_classification_ref } => {
            &&& after == (Space {
                revision: after.revision,
                policy_set_ref: after.policy_set_ref,
                default_classification_ref: after.default_classification_ref,
                ..before
            })
            &&& after.policy_set_ref@ == or_else(policy_set_ref, before.policy_set_ref@)
            &&& after.default_classification_ref@ == or_else(
                default_classification_ref,
                before.default_classification_ref@,
            )
        },
    }
}

/// Why a direct command is refused.
pub open spec fn lifecycle_refusal(
    ws: Workspace,
    project: Seq<char>,
    space: Seq<char>,
    l: SpaceLifecycle,
    meta: Meta,
) -> Option<ProblemView> {
    let s = ws.spaces@[key1(space)];
    if !visible(ws.spaces, project, space) {
        Some(not_found_view())
    } else if !revision_agrees(meta.expected_revision, s.revision) {
        Some(stale_revision_view(s.revision))
    } else {
        apply_refusal(ws, s, l)
    }
}

fn check_apply(ws: &Workspace, i: usize, l: &SpaceLifecycle) -> (r: Result<(), Problem>)
    requires
        ws.wf(),
        i < ws.spaces.rows.len(),
    ensures
        match apply_refusal(*ws, ws.spaces.rows@[i as int], *l) {
            Some(p) => r is Err && r->Err_0@ == p,
            None => r is Ok,
        },
{
    let s = &ws.spaces.rows[i];
    match l {
        SpaceLifecycle::UpdateMetadata { title, purpose_contribution_ref } => {
            if s.status == SpaceStatus::Archived {
                return Err(invalid_transition("space is archived"));
            }
            if let Some(purpose) = purpose_contribution_ref {
                let at: usize = resolve_space_object(ws, s.space_id.as_str(), purpose.as_str())?;
            }
        },
        SpaceLifecycle::Freeze => {
            if s.status != SpaceStatus::Open {
                let detail = cat3("cannot freeze a ", s.status.as_str(), " space");
                return Err(invalid_transition(detail.as_str()));
            }
        },
        SpaceLifecycle::Reopen => {
            if s.status != SpaceStatus::Frozen {
                let detail = cat3("cannot reopen a ", s.status.as_str(), " space");
                return Err(invalid_transition(detail.as_str()));
            }
        },
        SpaceLifecycle::Archive => {
            if s.status == SpaceStatus::Archived {
                return Err(invalid_transition("space is already archived"));
            }
        },
        SpaceLifecycle::Restrict => {
            if same(s.visibility.as_str(), "restricted") {
                return Err(invalid_transition("space is already restricted"));
            }
        },
        SpaceLifecycle::PolicyNarrow { .. } => {
            if s.status == SpaceStatus::Archived {
                return Err(invalid_transition("space is archived"));
            }
        },
    }
    Ok(())
}

fn apply(s: &mut Space, l: &SpaceLifecycle)
    requires
        old(s).revision < u64::MAX,
    ensures
        applied(*old(s), *final(s), *l),
{
    s.revision = s.revision + 1;
    match l {
        SpaceLifecycle::UpdateMetadata { title, purpose_contribution_ref } => {
            if let Some(t) = title {
                s.title = t.clone();
            }
            if let Some(p) = purpose_contribution_ref {
                s.purpose_contribution_ref = Some(p.clone());
            }
        },
        SpaceLifecycle::Freeze => {
            s.status = SpaceStatus::Frozen;
        },
        SpaceLifecycle::Reopen => {
            s.status = SpaceStatus::Open;
        },
        SpaceLifecycle::Archive => {
            s.status = SpaceStatus::Archived;
        },
        SpaceLifecycle::Restrict => {
            s.visibility = "restricted".to_owned();
        },
        SpaceLifecycle::PolicyNarrow { policy_set_ref, default_classification_ref } => {
            if let Some(p) = policy_set_ref {
                s.policy_set_ref = p.clone();
            }
            if let Some(c) = default_classification_ref {
                s.default_classification_ref = c.clone();
            }
        },
    }
}

/// What moving a space on does and answers.
pub open spec fn lifecycle_outcome(
    ws: Workspace,
    ws_after: Workspace,
    journal: JournalView,
    journal_after: JournalView,
    project_id: Seq<char>,
    space_id: Seq<char>,
    lifecycle: SpaceLifecycle,
    meta: Meta,
    r: Result<u64, Problem>,
) -> bool {
    &&& ws_after.projects == ws.projects
    &&& ws_after.participants == ws.participants
    &&& ws_after.contributions == ws.contributions
    &&& r is Err ==> ws_after == ws && journal_after == journal
    &&& match lifecycle_refusal(ws, project_id, space_id, lifecycle, meta) {
        Some(p) => r is Err && r->Err_0@ == p,
        None => {
            let k = key1(space_id);
            let s = ws.spaces@[k];
            let t = ws_after.spaces@[k];
            &&& r == Ok::<u64, Problem>((s.revision + 1) as u64)
            &&& ws_after.spaces@ == ws.spaces@.insert(k, t)
            &&& applied(s, t, lifecycle)
            &&& journal_after == journal.with_event(
                command_event(
                    lifecycle.kind(),
                    space_id,
                    Some(project_id),
                    "schema:space-v1"@,
                    space_id,
                    t.revision,
                    meta,
                    Some(t.default_classification_ref@),
                ),
            ).with_audit(
                lifecycle.audit_name(),
                "space="@ + space_id + ";"@ + command_name(meta),
            )
        },
    }
}

/// Applies a direct command to a space. The answer is the revision that the
/// space moves to.
pub fn space_lifecycle(
    ws: &mut Workspace,
    journal: &mut Journal,
    project_id: &str,
    space_id: &str,
    lifecycle: &SpaceLifecycle,
    meta: &Meta,
) -> (r: Result<u64, Problem>)
    requires
        old(ws).wf(),
        old(ws).spaces@.contains_key(key1(space_id@)) ==> old(ws).spaces@[key1(
            space_id@,
        )].revision < u64::MAX,
    ensures
        final(ws).wf(),
        lifecycle_outcome(
            *old(ws),
            *final(ws),
            old(journal)@,
            final(journal)@,
            project_id@,
            space_id@,
            *lifecycle,
            *meta,
            r,
        ),
{
    let i = visible_space(&ws.spaces, project_id, space_id)?;
    check_expected_revision(meta.expected_revision, ws.spaces.rows[i].revision)?;
    check_apply(ws, i, lifecycle)?;
    apply(&mut ws.spaces.rows[i], lifecycle);
    proof {
        crate::table::table_updated(
            old(ws).spaces,
            ws.spaces,
            i as int,
            ws.spaces.rows@[i as int],
        );
    }
    let next: u64 = ws.spaces.rows[i].revision;
    append_command_event(
        journal,
        lifecycle.event_type(),
        space_id,
        Some(project_id),
        "schema:space-v1",
        space_id,
        next,
        meta,
        Some(ws.spaces.rows[i].default_classification_ref.as_str()),
    );
    let key = scope_digest(meta);
    let detail = cat4("space=", space_id, ";", key.as_str());
    journal.audit(lifecycle.audit_event(), detail.as_str());
    Ok(next)
}

/// A direct command never widens who sees a space: visibility stays, or
/// becomes restricted.
pub proof fn a_direct_command_never_widens(before: Space, after: Space, l: SpaceLifecycle)
    requires
        applied(before, after, l),
    ensures
        after.visibility@ == before.visibility@ || after.visibility@ == "restricted"@,
{
}

/// An archived space stays archived, whatever direct command applies to it.
pub proof fn archived_stays_archived(ws: Workspace, before: Space, after: Space, l: SpaceLifecycle)
    requires
        before.status is Archived,
        apply_refusal(ws, before, l) is None,
        applied(before, after, l),
    ensures
        after.status is Archived,
{
}

/// Reopening undoes freezing, but for the two revisions that both took.
pub proof fn reopening_undoes_freezing(ws: Workspace, first: Space, second: Space, third: Space)
    requires
        apply_refusal(ws, first, SpaceLifecycle::Freeze) is None,
        applied(first, second, SpaceLifecycle::Freeze),
        applied(second, third, SpaceLifecycle::Reopen),
    ensures
        apply_refusal(ws, second, SpaceLifecycle::Reopen) is None,
        third == (Space { revision: third.revision, ..first }),
        third.revision == first.revision + 2,
{
}

/// No direct command touches what a space holds or how it is numbered.
pub proof fn history_stays(before: Space, after: Space, l: SpaceLifecycle)
    requires
        applied(before, after, l),
    ensures
        after.space_id == before.space_id,
        after.main_branch_id == before.main_branch_id,
        after.head_digest == before.head_digest,
        after.next_space_sequence == before.next_space_sequence,
        after.next_branch_sequence == before.next_branch_sequence,
{
}

// ----------------------------------------------- what a change concerns ----

impl Listed for Space {
    open spec fn precedes(&self, other: &Space) -> bool {
        by_two(self.space_id@, self.space_id@, other.space_id@, other.space_id@)
    }

    fn comes_before(&self, other: &Space) -> (r: bool) {
        comes_first(
            self.space_id.as_str(),
            self.space_id.as_str(),
            other.space_id.as_str(),
            other.space_id.as_str(),
        )
    }

    proof fn weak_order(a: &Space, b: &Space, c: &Space) {
        by_two_weak(
            a.space_id@,
            a.space_id@,
            b.space_id@,
            b.space_id@,
            c.space_id@,
            c.space_id@,
        );
    }
}

impl Listed for Frontier {
    open spec fn precedes(&self, other: &Frontier) -> bool {
        by_two(self.frontier_id@, self.frontier_id@, other.frontier_id@, other.frontier_id@)
    }

    fn comes_before(&self, other: &Frontier) -> (r: bool) {
        comes_first(
            self.frontier_id.as_str(),
            self.frontier_id.as_str(),
            other.frontier_id.as_str(),
            other.frontier_id.as_str(),
        )
    }

    proof fn weak_order(a: &Frontier, b: &Frontier, c: &Frontier) {
        by_two_weak(
            a.frontier_id@,
            a.frontier_id@,
            b.frontier_id@,
            b.frontier_id@,
            c.frontier_id@,
            c.frontier_id@,
        );
    }
}

impl Listed for Contribution {
    open spec fn precedes(&self, other: &Contribution) -> bool {
        self.space_sequence < other.space_sequence
    }

    fn comes_before(&self, other: &Contribution) -> (r: bool) {
        self.space_sequence < other.space_sequence
    }

    proof fn weak_order(a: &Contribution, b: &Contribution, c: &Contribution) {
    }
}

/// A row that stands in a space.
pub trait InSpace: Listed {
    spec fn space(&self) -> Seq<char>;

    fn is_in(&self, space_id: &str) -> (r: bool)
        ensures
            r == (self.space() == space_id@),
    ;
}

impl InSpace for Frontier {
    open spec fn space(&self) -> Seq<char> {
        self.space_id@
    }

    fn is_in(&self, space_id: &str) -> (r: bool) {
        same(self.space_id.as_str(), space_id)
    }
}

impl InSpace for Contribution {
    open spec fn space(&self) -> Seq<char> {
        self.space_id@
    }

    fn is_in(&self, space_id: &str) -> (r: bool) {
        same(self.space_id.as_str(), space_id)
    }
}

/// Which rows stand in a space.
pub open spec fn keep_in<T: InSpace>(rows: Seq<T>, space: Seq<char>) -> Seq<bool> {
    Seq::new(rows.len(), |i: int| rows[i].space() == space)
}

/// Whether a list holds the rows of some spaces, space by space, and in order
/// within each.
pub open spec fn gathered<T: InSpace>(
    rows: Seq<T>,
    spaces: Seq<Seq<char>>,
    list: Seq<usize>,
) -> bool
    decreases spaces.len(),
{
    if spaces.len() == 0 {
        list.len() == 0
    } else {
        exists|n: int|
            {
                &&& 0 <= n <= list.len()
                &&& gathered(rows, spaces.drop_last(), #[trigger] list.take(n))
                &&& ordered_listing(
                    rows,
                    keep_in(rows, spaces.last()),
                    rows.len() as int,
                    list.skip(n),
                )
            }
    }
}

/// Behind the rows of some spaces come those of one more.
proof fn gathered_step<T: InSpace>(
    rows: Seq<T>,
    spaces: Seq<Seq<char>>,
    before: Seq<usize>,
    part: Seq<usize>,
)
    requires
        spaces.len() > 0,
        gathered(rows, spaces.drop_last(), before),
        ordered_listing(rows, keep_in(rows, spaces.last()), rows.len() as int, part),
    ensures
        gathered(rows, spaces, before + part),
{
    let list = before + part;
    let n = before.len() as int;
    assert(list.take(n) =~= before);
    assert(list.skip(n) =~= part);
    assert(gathered(rows, spaces.drop_last(), list.take(n)));
}

/// What is gathered are positions of rows.
pub proof fn gathered_in_range<T: InSpace>(
    rows: Seq<T>,
    spaces: Seq<Seq<char>>,
    list: Seq<usize>,
)
    requires
        gathered(rows, spaces, list),
    ensures
        forall|i: int| 0 <= i < list.len() ==> (#[trigger] list[i]) < rows.len(),
    decreases spaces.len(),
{
    if spaces.len() > 0 {
        let n = choose|n: int|
            {
                &&& 0 <= n <= list.len()
                &&& gathered(rows, spaces.drop_last(), #[trigger] list.take(n))
                &&& ordered_listing(
                    rows,
                    keep_in(rows, spaces.last()),
                    rows.len() as int,
                    list.skip(n),
                )
            };
        gathered_in_range(rows, spaces.drop_last(), list.take(n));
        assert forall|i: int| 0 <= i < list.len() implies (#[trigger] list[i]) < rows.len() by {
            if i < n {
                assert(list.take(n)[i] == list[i]);
            } else {
                assert(list.skip(n)[i - n] == list[i]);
            }
        }
    }
}

fn kept_in<T: InSpace>(rows: &Vec<T>, space_id: &str) -> (keep: Vec<bool>)
    ensures
        keep@ == keep_in(rows@, space_id@),
{
    let mut keep: Vec<bool> = Vec::new();
    let mut i: usize = 0;
    while i < rows.len()
        invariant
            i <= rows.len(),
            keep.len() == i,
            forall|j: int| 0 <= j < i ==> #[trigger] keep@[j] == (rows@[j].space() == space_id@),
        decreases rows.len() - i,
    {
        keep.push(rows[i].is_in(space_id));
        i = i + 1;
    }
    assert(keep@ =~= keep_in(rows@, space_id@));
    keep
}

/// Gathers the rows of some spaces.
pub fn gather<T: InSpace>(rows: &Vec<T>, spaces: &Vec<String>) -> (list: Vec<usize>)
    ensures
        gathered(rows@, views(spaces@), list@),
        forall|i: int| 0 <= i < list@.len() ==> (#[trigger] list@[i]) < rows@.len(),
{
    let ghost ids = views(spaces@);
    let mut list: Vec<usize> = Vec::new();
    let mut i: usize = 0;
    while i < spaces.len()
        invariant
            i <= spaces.len(),
            ids == views(spaces@),
            gathered(rows@, ids.take(i as int), list@),
            forall|j: int| 0 <= j < list@.len() ==> (#[trigger] list@[j]) < rows@.len(),
        decreases spaces.len() - i,
    {
        let keep = kept_in(rows, spaces[i].as_str());
        let mut part = order(rows, &keep);
        let ghost before = list@;
        let ghost behind = part@;
        list.append(&mut part);
        proof {
            assert(list@ =~= before + behind);
            assert(ids.take(i + 1).drop_last() =~= ids.take(i as int));
            gathered_step(rows@, ids.take(i + 1), before, behind);
        }
        i = i + 1;
    }
    proof {
        assert(ids.take(i as int) =~= ids);
    }
    list
}

/// Which spaces belong to a project.
pub open spec fn keep_project(rows: Seq<Space>, project: Seq<char>) -> Seq<bool> {
    Seq::new(rows.len(), |i: int| rows[i].project_id@ == project)
}

/// Whether some identifiers are those of a project's spaces, in order.
pub open spec fn spaces_of(ws: Workspace, project: Seq<char>, ids: Seq<Seq<char>>) -> bool {
    exists|list: Seq<usize>|
        {
            &&& #[trigger] ordered_listing(
                ws.spaces.rows@,
                keep_project(ws.spaces.rows@, project),
                ws.spaces.rows@.len() as int,
                list,
            )
            &&& ids == Seq::new(list.len(), |i: int| ws.spaces.rows@[list[i] as int].space_id@)
        }
}

/// The spaces of a project, in order.
pub fn project_spaces(ws: &Workspace, project_id: &str) -> (ids: Vec<String>)
    ensures
        spaces_of(*ws, project_id@, views(ids@)),
{
    let mut keep: Vec<bool> = Vec::new();
    let mut i: usize = 0;
    while i < ws.spaces.rows.len()
        invariant
            i <= ws.spaces.rows.len(),
            keep.len() == i,
            forall|j: int|
                0 <= j < i ==> #[trigger] keep@[j] == (ws.spaces.rows@[j].project_id@
                    == project_id@),
        decreases ws.spaces.rows.len() - i,
    {
        keep.push(same(ws.spaces.rows[i].project_id.as_str(), project_id));
        i = i + 1;
    }
    assert(keep@ =~= keep_project(ws.spaces.rows@, project_id@));
    let list = order(&ws.spaces.rows, &keep);
    let mut ids: Vec<String> = Vec::new();
    let mut j: usize = 0;
    while j < list.len()
        invariant
            j <= list.len(),
            ids.len() == j,
            forall|a: int| 0 <= a < list@.len() ==> (#[trigger] list@[a]) < ws.spaces.rows@.len(),
            forall|a: int|
                0 <= a < j ==> (#[trigger] ids@[a])@ == ws.spaces.rows@[list@[a] as int].space_id@,
        decreases list.len() - j,
    {
        ids.push(ws.spaces.rows[list[j]].space_id.clone());
        j = j + 1;
    }
    proof {
        assert(views(ids@) =~= Seq::new(
            list@.len(),
            |a: int| ws.spaces.rows@[list@[a] as int].space_id@,
        ));
    }
    ids
}

/// The frontier identifiers at some positions.
pub open spec fn frontier_ids(ctx: Contexts, list: Seq<usize>) -> Seq<Seq<char>> {
    Seq::new(list.len(), |i: int| ctx.frontiers.rows@[list[i] as int].frontier_id@)
}

/// Whether some identifiers are those of the frontiers of some spaces.
pub open spec fn frontiers_of(ctx: Contexts, spaces: Seq<Seq<char>>, ids: Seq<Seq<char>>) -> bool {
    exists|list: Seq<usize>|
        #[trigger] gathered(ctx.frontiers.rows@, spaces, list) && ids == frontier_ids(ctx, list)
}

/// The frontiers of some spaces.
pub fn frontier_refs(ctx: &Contexts, spaces: &Vec<String>) -> (ids: Vec<String>)
    ensures
        frontiers_of(*ctx, views(spaces@), views(ids@)),
{
    let list = gather(&ctx.frontiers.rows, spaces);
    let mut ids: Vec<String> = Vec::new();
    let mut j: usize = 0;
    while j < list.len()
        invariant
            j <= list.len(),
            ids.len() == j,
            forall|a: int|
                0 <= a < list@.len() ==> (#[trigger] list@[a]) < ctx.frontiers.rows@.len(),
            forall|a: int|
                0 <= a < j ==> (#[trigger] ids@[a])@
                    == ctx.frontiers.rows@[list@[a] as int].frontier_id@,
        decreases list.len() - j,
    {
        ids.push(ctx.frontiers.rows[list[j]].frontier_id.clone());
        j = j + 1;
    }
    proof {
        assert(views(ids@) =~= frontier_ids(*ctx, list@));
    }
    ids
}

/// The items of some spaces, by position: every contribution, space by space,
/// in the order of its number. Their digest is what a prepared change binds.
pub fn item_set(ws: &Workspace, spaces: &Vec<String>) -> (list: Vec<usize>)
    ensures
        gathered(ws.contributions.rows@, views(spaces@), list@),
{
    gather(&ws.contributions.rows, spaces)
}

/// Whether a text is the digest of the items of some spaces, as they stand.
pub open spec fn items_digested<D: Fn(&str, &str, &Json) -> String>(
    ws: Workspace,
    spaces: Seq<Seq<char>>,
    digest: D,
    out: Seq<char>,
) -> bool {
    exists|list: Seq<usize>|
        {
            &&& #[trigger] gathered(ws.contributions.rows@, spaces, list)
            &&& digested(
                digest,
                "kovee-item-set"@,
                "schema:kovee-item-set-v1"@,
                item_set_document(ws.contributions.rows@, list),
                out,
            )
        }
}

/// The digest of the items of some spaces, as they stand.
pub fn item_set_digest<D: Fn(&str, &str, &Json) -> String>(
    ws: &Workspace,
    spaces: &Vec<String>,
    digest: D,
) -> (r: String)
    requires
        digests_all(digest),
    ensures
        items_digested(*ws, views(spaces@), digest, r@),
{
    let doc = item_set_subject(ws, spaces);
    let r = digest("kovee-item-set", "schema:kovee-item-set-v1", &doc);
    proof {
        items_are_digested(*ws, views(spaces@), digest, doc, r);
    }
    r
}

proof fn items_are_digested<D: Fn(&str, &str, &Json) -> String>(
    ws: Workspace,
    spaces: Seq<Seq<char>>,
    digest: D,
    doc: Json,
    out: String,
)
    requires
        exists|list: Seq<usize>|
            {
                &&& #[trigger] gathered(ws.contributions.rows@, spaces, list)
                &&& doc@ == item_set_document(ws.contributions.rows@, list)
            },
        digested(
            digest,
            "kovee-item-set"@,
            "schema:kovee-item-set-v1"@,
            doc@,
            out@,
        ),
    ensures
        items_digested(ws, spaces, digest, out@),
{
    let list = choose|list: Seq<usize>|
        {
            &&& #[trigger] gathered(ws.contributions.rows@, spaces, list)
            &&& doc@ == item_set_document(ws.contributions.rows@, list)
        };
    assert(digested(
        digest,
        "kovee-item-set"@,
        "schema:kovee-item-set-v1"@,
        item_set_document(ws.contributions.rows@, list),
        out@,
    ));
}

/// What a prepared change writes down.
pub open spec fn change_journal(
    before: JournalView,
    kind: EventKind,
    project: Seq<char>,
    stream: Seq<char>,
    schema: Seq<char>,
    resource: Seq<char>,
    revision: u64,
    meta: Meta,
    audit: Seq<char>,
) -> JournalView {
    before.with_event(
        command_event(kind, stream, Some(project), schema, resource, revision, meta, None),
    ).with_audit(audit, "change="@ + resource + ";"@ + command_name(meta))
}

fn prepared_change_event(
    journal: &mut Journal,
    kind: EventKind,
    project: &str,
    stream: &str,
    schema: &str,
    resource: &str,
    revision: u64,
    meta: &Meta,
    audit: &str,
)
    ensures
        final(journal)@ == change_journal(
            old(journal)@,
            kind,
            project@,
            stream@,
            schema@,
            resource@,
            revision,
            *meta,
            audit@,
        ),
{
    append_command_event(
        journal,
        kind,
        stream,
        Some(project),
        schema,
        resource,
        revision,
        meta,
        None,
    );
    let key = scope_digest(meta);
    let detail = cat4("change=", resource, ";", key.as_str());
    journal.audit(audit, detail.as_str());
}

#[derive(Debug, Clone, Copy, PartialEq, Eq, Structural)]
pub enum ChangeState {
    Prepared,
    Confirmed,
    Canceled,
}

impl ChangeState {
    pub open spec fn name(self) -> Seq<char> {
        match self {
            ChangeState::Prepared => "prepared"@,
            ChangeState::Confirmed => "confirmed"@,
            ChangeState::Canceled => "canceled"@,
        }
    }

    pub fn as_str(self) -> (r: &'static str)
        ensures
            r@ == self.name(),
    {
        match self {
            ChangeState::Prepared => "prepared",
            ChangeState::Confirmed => "confirmed",
            ChangeState::Canceled => "canceled",
        }
    }
}

/// What a proposed policy does to the effective one. There is no comparing
/// two policies, so a proposal that changes anything is incomparable.
#[derive(Debug, Clone, Copy, PartialEq, Eq, Structural)]
pub enum EffectiveChange {
    Narrowing,
    Incomparable,
}

/// A prepared change of a project's access policy.
#[derive(Debug)]
pub struct PolicyChange {
    pub change_id: String,
    pub project_id: String,
    pub expected_project_revision: u64,
    pub prior_policy_set_ref: String,
    pub proposed_policy_set_ref: String,
    pub prior_default_classification_ref: String,
    pub proposed_default_classification_ref: String,
    pub affected_space_frontier_refs: Vec<String>,
    pub affected_item_set_digest: String,
    pub effective_change: EffectiveChange,
    pub classification_join_ref: String,
    pub destination_audience_digest: String,
    pub subject_digest: String,
    pub prepared_by_principal: String,
    pub state: ChangeState,
    pub revision: u64,
    pub created_at: String,
}

impl Row for PolicyChange {
    open spec fn key(&self) -> Key {
        key1(self.change_id@)
    }

    fn has_key(&self, a: &str, b: &str) -> (r: bool) {
        proof {
            crate::text::empty_is(b@);
        }
        same(self.change_id.as_str(), a) && b.is_empty()
    }
}

/// A prepared widening of the access to a space.
#[derive(Debug)]
pub struct Widening {
    pub widening_id: String,
    pub space_id: String,
    pub expected_space_revision: u64,
    pub prior_visibility: String,
    pub proposed_visibility: String,
    pub prior_policy_set_ref: String,
    pub proposed_policy_set_ref: String,
    pub prior_default_classification_ref: String,
    pub proposed_default_classification_ref: String,
    pub affected_frontier_refs: Vec<String>,
    pub affected_item_set_digest: String,
    pub classification_join_ref: String,
    pub destination_audience_digest: String,
    pub subject_digest: String,
    pub prepared_by_principal: String,
    pub state: ChangeState,
    pub revision: u64,
    pub created_at: String,
}

impl Row for Widening {
    open spec fn key(&self) -> Key {
        key1(self.widening_id@)
    }

    fn has_key(&self, a: &str, b: &str) -> (r: bool) {
        proof {
            crate::text::empty_is(b@);
        }
        same(self.widening_id.as_str(), a) && b.is_empty()
    }
}

/// The prepared changes of a realm.
pub struct Changes {
    pub policy_changes: Table<PolicyChange>,
    pub widenings: Table<Widening>,
}

impl Changes {
    pub open spec fn wf(&self) -> bool {
        self.policy_changes.wf() && self.widenings.wf()
    }

    pub fn new() -> (r: Changes)
        ensures
            r.wf(),
            r.policy_changes.rows@.len() == 0,
            r.widenings.rows@.len() == 0,
    {
        Changes { policy_changes: Table::new(), widenings: Table::new() }
    }
}

// -------------------------------------- project_access_policy_change_* ----

#[derive(Debug)]
pub struct PapcPrepareArgs {
    pub proposed_policy_set_ref: Option<String>,
    pub proposed_default_classification_ref: Option<String>,
}

/// Why no policy change is prepared.
pub open spec fn papc_prepare_refusal(
    ch: Changes,
    ws: Workspace,
    project: Seq<char>,
    meta: Meta,
    id: Seq<char>,
) -> Option<ProblemView> {
    let p = ws.projects@[key1(project)];
    if !ws.projects@.contains_key(key1(project)) {
        Some(not_found_view())
    } else if !revision_agrees(meta.expected_revision, p.revision) {
        Some(stale_revision_view(p.revision))
    } else if ch.policy_changes@.contains_key(key1(id)) {
        Some(internal_view())
    } else {
        None
    }
}

/// The change that is prepared: what stands is its prior, pinned by the
/// project's revision, and whatever is not proposed stays.
pub open spec fn prepared_policy_change<D: Fn(&str, &str, &Json) -> String>(
    c: PolicyChange,
    id: Seq<char>,
    p: Project,
    ws: Workspace,
    ctx: Contexts,
    session: Session,
    args: PapcPrepareArgs,
    digest: D,
) -> bool {
    &&& c.change_id@ == id
    &&& c.project_id@ == p.project_id@
    &&& c.expected_project_revision == p.revision
    &&& c.prior_policy_set_ref@ == p.policy_set_ref@
    &&& c.proposed_policy_set_ref@ == or_else(args.proposed_policy_set_ref, p.policy_set_ref@)
    &&& c.prior_default_classification_ref@ == p.default_classification_ref@
    &&& c.proposed_default_classification_ref@ == or_else(
        args.proposed_default_classification_ref,
        p.default_classification_ref@,
    )
    &&& exists|spaces: Seq<Seq<char>>|
        {
            &&& #[trigger] spaces_of(ws, p.project_id@, spaces)
            &&& frontiers_of(ctx, spaces, views(c.affected_space_frontier_refs@))
            &&& items_digested(ws, spaces, digest, c.affected_item_set_digest@)
        }
    &&& c.effective_change == if c.proposed_policy_set_ref@ == p.policy_set_ref@
        && c.proposed_default_classification_ref@ == p.default_classification_ref@ {
        EffectiveChange::Narrowing
    } else {
        EffectiveChange::Incomparable
    }
    &&& c.classification_join_ref@ == p.default_classification_ref@
    &&& digested(
        digest,
        "kovee-destination-audience"@,
        "schema:kovee-audience-v1"@,
        project_audience_document(p.project_id@),
        c.destination_audience_digest@,
    )
    &&& digested(
        digest,
        "kovee-prepared-subject"@,
        "schema:kovee-prepared-subject-v1"@,
        policy_change_document(c),
        c.subject_digest@,
    )
    &&& c.prepared_by_principal@ == session.owner_actor_ref@
    &&& c.state is Prepared
    &&& c.revision == 1
    &&& c.created_at@ == session.now_ts@
}

/// What preparing a policy change does and answers.
pub open spec fn change_prepare_outcome<D: Fn(&str, &str, &Json) -> String>(
    ch: Changes,
    ch_after: Changes,
    journal: JournalView,
    journal_after: JournalView,
    ws: Workspace,
    ctx: Contexts,
    session: Session,
    project_id: Seq<char>,
    args: PapcPrepareArgs,
    meta: Meta,
    change_id: Seq<char>,
    digest: D,
    r: Result<usize, Problem>,
) -> bool {
    &&& r is Err ==> ch_after == ch && journal_after == journal
    &&& match papc_prepare_refusal(ch, ws, project_id, meta, change_id) {
        Some(p) => r is Err && r->Err_0@ == p,
        None => {
            let c = ch_after.policy_changes.rows@.last();
            &&& r is Ok
            &&& r->Ok_0 == ch.policy_changes.rows@.len()
            &&& ch_after.policy_changes.rows@ == ch.policy_changes.rows@.push(c)
            &&& ch_after.widenings == ch.widenings
            &&& prepared_policy_change(
                c,
                change_id,
                ws.projects@[key1(project_id)],
                ws,
                ctx,
                session,
                args,
                digest,
            )
            &&& journal_after == change_journal(
                journal,
                EventKind::PolicyChangePrepared,
                project_id,
                project_id,
                "schema:project-access-policy-change-v1"@,
                change_id,
                1,
                meta,
                "command.project_policy_change_prepared"@,
            )
        },
    }
}

/// Prepares a change of a project's access policy. The answer is the change's
/// position.
pub fn papc_prepare<D: Fn(&str, &str, &Json) -> String>(
    ch: &mut Changes,
    journal: &mut Journal,
    ws: &Workspace,
    ctx: &Contexts,
    session: &Session,
    project_id: &str,
    args: &PapcPrepareArgs,
    meta: &Meta,
    change_id: &str,
    digest: D,
) -> (r: Result<usize, Problem>)
    requires
        old(ch).wf(),
        ws.wf(),
        digests_all(digest),
    ensures
        final(ch).wf(),
        change_prepare_outcome(
            *old(ch),
            *final(ch),
            old(journal)@,
            final(journal)@,
            *ws,
            *ctx,
            *session,
            project_id@,
            *args,
            *meta,
            change_id@,
            digest,
            r,
        ),
{
    proof {
        reveal_strlit("");
        crate::text::empty_is(""@);
    }
    let i = match ws.projects.position(project_id, "") {
        None => {
            return Err(not_found());
        },
        Some(i) => i,
    };
    let p = &ws.projects.rows[i];
    check_expected_revision(meta.expected_revision, p.revision)?;
    if ch.policy_changes.position(change_id, "").is_some() {
        return Err(internal());
    }
    let proposed_policy_set_ref = given_or(
        &args.proposed_policy_set_ref,
        p.policy_set_ref.as_str(),
    );
    let proposed_default_classification_ref = given_or(
        &args.proposed_default_classification_ref,
        p.default_classification_ref.as_str(),
    );
    let effective_change = if same(proposed_policy_set_ref.as_str(), p.policy_set_ref.as_str())
        && same(
        proposed_default_classification_ref.as_str(),
        p.default_classification_ref.as_str(),
    ) {
        EffectiveChange::Narrowing
    } else {
        EffectiveChange::Incomparable
    };
    let spaces = project_spaces(ws, project_id);
    let frontiers = frontier_refs(ctx, &spaces);
    let audience = project_audience_subject(p.project_id.as_str());
    let destination_audience_digest = digest(
        "kovee-destination-audience",
        "schema:kovee-audience-v1",
        &audience,
    );
    proof {
        assert(digested(
            digest,
            "kovee-destination-audience"@,
            "schema:kovee-audience-v1"@,
            audience@,
            destination_audience_digest@,
        ));
    }
    let items = item_set_subject(ws, &spaces);
    let affected_item_set_digest = digest(
        "kovee-item-set",
        "schema:kovee-item-set-v1",
        &items,
    );
    proof {
        items_are_digested(*ws, views(spaces@), digest, items, affected_item_set_digest);
    }
    let mut change = PolicyChange {
        change_id: change_id.to_owned(),
        project_id: p.project_id.clone(),
        expected_project_revision: p.revision,
        prior_policy_set_ref: p.policy_set_ref.clone(),
        proposed_policy_set_ref,
        prior_default_classification_ref: p.default_classification_ref.clone(),
        proposed_default_classification_ref,
        affected_space_frontier_refs: frontiers,
        affected_item_set_digest,
        effective_change,
        classification_join_ref: p.default_classification_ref.clone(),
        destination_audience_digest,
        subject_digest: String::new(),
        prepared_by_principal: session.owner_actor_ref.clone(),
        state: ChangeState::Prepared,
        revision: 1,
        created_at: session.now_ts.clone(),
    };
    let subject = policy_change_subject(&change);
    let subject_digest = digest(
        "kovee-prepared-subject",
        "schema:kovee-prepared-subject-v1",
        &subject,
    );
    change.subject_digest = subject_digest;
    proof {
        assert(spaces_of(*ws, p.project_id@, views(spaces@)));
        assert(digested(
            digest,
            "kovee-prepared-subject"@,
            "schema:kovee-prepared-subject-v1"@,
            subject@,
            change.subject_digest@,
        ));
        assert(subject@ == policy_change_document(change));
    }
    prepared_change_event(
        journal,
        EventKind::PolicyChangePrepared,
        project_id,
        project_id,
        "schema:project-access-policy-change-v1",
        change_id,
        1,
        meta,
        "command.project_policy_change_prepared",
    );
    let at: usize = ch.policy_changes.rows.len();
    ch.policy_changes.insert(change);
    Ok(at)
}

/// Whether a policy change is visible in a project.
pub open spec fn change_visible(ch: Changes, project: Seq<char>, id: Seq<char>) -> bool {
    ch.policy_changes@.contains_key(key1(id)) && ch.policy_changes@[key1(id)].project_id@ == project
}

fn papc_row(ch: &Changes, project_id: &str, change_id: &str) -> (r: Result<usize, Problem>)
    requires
        ch.wf(),
    ensures
        match r {
            Ok(i) => {
                &&& change_visible(*ch, project_id@, change_id@)
                &&& i < ch.policy_changes.rows.len()
                &&& ch.policy_changes.rows@[i as int] == ch.policy_changes@[key1(change_id@)]
                &&& ch.policy_changes.rows@[i as int].change_id@ == change_id@
            },
            Err(p) => !change_visible(*ch, project_id@, change_id@) && p@ == not_found_view(),
        },
{
    proof {
        reveal_strlit("");
        crate::text::empty_is(""@);
    }
    match ch.policy_changes.position(change_id, "") {
        None => Err(not_found()),
        Some(i) => if same(ch.policy_changes.rows[i].project_id.as_str(), project_id) {
            Ok(i)
        } else {
            Err(not_found())
        },
    }
}

/// Shows a policy change of a project.
pub fn papc_show<'a>(ch: &'a Changes, project_id: &str, change_id: &str) -> (r: Result<
    &'a PolicyChange,
    Problem,
>)
    requires
        ch.wf(),
    ensures
        match r {
            Ok(c) => change_visible(*ch, project_id@, change_id@) && *c
                == ch.policy_changes@[key1(change_id@)],
            Err(p) => !change_visible(*ch, project_id@, change_id@) && p@ == not_found_view(),
        },
{
    let i = papc_row(ch, project_id, change_id)?;
    Ok(&ch.policy_changes.rows[i])
}

/// Why a policy change cannot be decided any more.
pub open spec fn papc_decided(
    ch: Changes,
    project: Seq<char>,
    id: Seq<char>,
    meta: Meta,
) -> Option<ProblemView> {
    let c = ch.policy_changes@[key1(id)];
    if !change_visible(ch, project, id) {
        Some(not_found_view())
    } else if c.state !is Prepared {
        Some(transition_view("change is "@ + c.state.name()))
    } else if !revision_agrees(meta.expected_revision, c.revision) {
        Some(stale_revision_view(c.revision))
    } else {
        None
    }
}

fn papc_undecided(ch: &Changes, project_id: &str, change_id: &str, meta: &Meta) -> (r: Result<
    usize,
    Problem,
>)
    requires
        ch.wf(),
    ensures
        match papc_decided(*ch, project_id@, change_id@, *meta) {
            Some(p) => r is Err && r->Err_0@ == p,
            None => {
                &&& r is Ok
                &&& r->Ok_0 < ch.policy_changes.rows.len()
                &&& ch.policy_changes.rows@[r->Ok_0 as int] == ch.policy_changes@[key1(change_id@)]
                &&& ch.policy_changes.rows@[r->Ok_0 as int].change_id@ == change_id@
            },
        },
{
    let i = papc_row(ch, project_id, change_id)?;
    let state = ch.policy_changes.rows[i].state;
    if state != ChangeState::Prepared {
        let detail = cat2("change is ", state.as_str());
        return Err(invalid_transition(detail.as_str()));
    }
    check_expected_revision(meta.expected_revision, ch.policy_changes.rows[i].revision)?;
    Ok(i)
}

/// Why a policy change is not confirmed: it is decided, or what it was
/// prepared against has moved. `items` is the digest of the items that the
/// project's spaces hold now.
pub open spec fn papc_confirm_refusal(
    ch: Changes,
    ws: Workspace,
    project: Seq<char>,
    id: Seq<char>,
    meta: Meta,
    items: Seq<char>,
) -> Option<ProblemView> {
    let c = ch.policy_changes@[key1(id)];
    let p = ws.projects@[key1(project)];
    match papc_decided(ch, project, id, meta) {
        Some(e) => Some(e),
        None => if !ws.projects@.contains_key(key1(project)) {
            Some(not_found_view())
        } else if p.revision != c.expected_project_revision {
            Some(
                (ProblemView {
                    detail: Some("the project moved after preparation; the intent is stale"@),
                    ..stale_revision_view(p.revision)
                }),
            )
        } else if items != c.affected_item_set_digest@ {
            Some(
                (ProblemView {
                    detail: Some("the affected item set changed after preparation"@),
                    ..stale_revision_view(p.revision)
                }),
            )
        } else {
            None
        },
    }
}

/// What confirming makes of the project: exactly what was proposed.
pub open spec fn confirmed_project(before: Project, after: Project, c: PolicyChange) -> bool {
    &&& after == (Project {
        policy_set_ref: after.policy_set_ref,
        default_classification_ref: after.default_classification_ref,
        revision: (before.revision + 1) as u64,
        ..before
    })
    &&& after.policy_set_ref@ == c.proposed_policy_set_ref@
    &&& after.default_classification_ref@ == c.proposed_default_classification_ref@
}

/// What deciding makes of a policy change.
pub open spec fn decided_change(c: PolicyChange, state: ChangeState) -> PolicyChange {
    PolicyChange { state, revision: (c.revision + 1) as u64, ..c }
}

/// What confirming a policy change does and answers, with `items` as the digest
/// of the items that the project's spaces hold now.
pub open spec fn papc_confirm_outcome(
    before: Changes,
    after: Changes,
    ws: Workspace,
    after_ws: Workspace,
    journal: JournalView,
    after_journal: JournalView,
    project_id: Seq<char>,
    change_id: Seq<char>,
    decision_receipt_ref: Seq<char>,
    meta: Meta,
    item_set_digest: Seq<char>,
    r: Result<u64, Problem>,
) -> bool {
    &&& after.widenings == before.widenings
    &&& after_ws.spaces == ws.spaces
    &&& after_ws.participants == ws.participants
    &&& after_ws.contributions == ws.contributions
    &&& r is Err ==> {
        &&& after == before
        &&& after_ws == ws
        &&& after_journal == journal
    }
    &&& match papc_confirm_refusal(
        before,
        ws,
        project_id,
        change_id,
        meta,
        item_set_digest,
    ) {
        Some(p) => r is Err && r->Err_0@ == p,
        None => {
            let k = key1(change_id);
            let pk = key1(project_id);
            let c = before.policy_changes@[k];
            let q = after_ws.projects@[pk];
            &&& r == Ok::<u64, Problem>((c.revision + 1) as u64)
            &&& after.policy_changes@ == before.policy_changes@.insert(
                k,
                decided_change(c, ChangeState::Confirmed),
            )
            &&& after_ws.projects@ == ws.projects@.insert(pk, q)
            &&& confirmed_project(ws.projects@[pk], q, c)
            &&& after_journal == change_journal(
                journal.with_audit(
                    "command.project_policy_change_receipt"@,
                    "change="@ + change_id + ";receipt="@ + decision_receipt_ref,
                ),
                EventKind::PolicyChangeConfirmed,
                project_id,
                project_id,
                "schema:project-access-policy-change-v1"@,
                change_id,
                (c.revision + 1) as u64,
                meta,
                "command.project_policy_change_confirmed"@,
            )
        },
    }
}

fn confirm_change(
    ch: &mut Changes,
    ws: &mut Workspace,
    journal: &mut Journal,
    project_id: &str,
    change_id: &str,
    decision_receipt_ref: &str,
    meta: &Meta,
    item_set_digest: &str,
) -> (r: Result<u64, Problem>)
    requires
        old(ch).wf(),
        old(ws).wf(),
        old(ch).policy_changes@.contains_key(key1(change_id@)) ==> old(ch).policy_changes@[key1(
            change_id@,
        )].revision < u64::MAX,
        old(ws).projects@.contains_key(key1(project_id@)) ==> old(ws).projects@[key1(
            project_id@,
        )].revision < u64::MAX,
    ensures
        final(ch).wf(),
        final(ws).wf(),
        papc_confirm_outcome(
            *old(ch),
            *final(ch),
            *old(ws),
            *final(ws),
            old(journal)@,
            final(journal)@,
            project_id@,
            change_id@,
            decision_receipt_ref@,
            *meta,
            item_set_digest@,
            r,
        ),
{
    proof {
        reveal_strlit("");
        crate::text::empty_is(""@);
    }
    let i = papc_undecided(ch, project_id, change_id, meta)?;
    let p = match ws.projects.position(project_id, "") {
        None => {
            return Err(not_found());
        },
        Some(p) => p,
    };
    let revision: u64 = ws.projects.rows[p].revision;
    if revision != ch.policy_changes.rows[i].expected_project_revision {
        return Err(
            stale_revision(revision).with_detail(
                "the project moved after preparation; the intent is stale",
            ),
        );
    }
    if !same(item_set_digest, ch.policy_changes.rows[i].affected_item_set_digest.as_str()) {
        return Err(
            stale_revision(revision).with_detail(
                "the affected item set changed after preparation",
            ),
        );
    }
    ws.projects.rows[p].policy_set_ref = ch.policy_changes.rows[i].proposed_policy_set_ref.clone();
    ws.projects.rows[p].default_classification_ref =
    ch.policy_changes.rows[i].proposed_default_classification_ref.clone();
    ws.projects.rows[p].revision = revision + 1;
    let next: u64 = ch.policy_changes.rows[i].revision + 1;
    ch.policy_changes.rows[i].state = ChangeState::Confirmed;
    ch.policy_changes.rows[i].revision = next;
    proof {
        crate::table::table_updated(
            old(ws).projects,
            ws.projects,
            p as int,
            ws.projects.rows@[p as int],
        );
        crate::table::table_updated(
            old(ch).policy_changes,
            ch.policy_changes,
            i as int,
            ch.policy_changes.rows@[i as int],
        );
    }
    let receipt = cat4("change=", change_id, ";receipt=", decision_receipt_ref);
    journal.audit("command.project_policy_change_receipt", receipt.as_str());
    prepared_change_event(
        journal,
        EventKind::PolicyChangeConfirmed,
        project_id,
        project_id,
        "schema:project-access-policy-change-v1",
        change_id,
        next,
        meta,
        "command.project_policy_change_confirmed",
    );
    Ok(next)
}

/// What confirming a policy change does and answers.
pub open spec fn change_confirm_outcome<D: Fn(&str, &str, &Json) -> String>(
    ch: Changes,
    ch_after: Changes,
    ws: Workspace,
    ws_after: Workspace,
    journal: JournalView,
    journal_after: JournalView,
    project_id: Seq<char>,
    change_id: Seq<char>,
    decision_receipt_ref: Seq<char>,
    meta: Meta,
    digest: D,
    r: Result<u64, Problem>,
) -> bool {
    &&& exists|spaces: Seq<Seq<char>>, items: Seq<char>|
        {
            &&& spaces_of(ws, project_id, spaces)
            &&& #[trigger] items_digested(ws, spaces, digest, items)
            &&& papc_confirm_outcome(
                ch,
                ch_after,
                ws,
                ws_after,
                journal,
                journal_after,
                project_id,
                change_id,
                decision_receipt_ref,
                meta,
                items,
                r,
            )
        }
}

/// Confirms a prepared change of a project's access policy against what the
/// project's spaces hold now. The answer is the revision that the change moves
/// to.
pub fn papc_confirm<D: Fn(&str, &str, &Json) -> String>(
    ch: &mut Changes,
    ws: &mut Workspace,
    journal: &mut Journal,
    project_id: &str,
    change_id: &str,
    decision_receipt_ref: &str,
    meta: &Meta,
    digest: D,
) -> (r: Result<u64, Problem>)
    requires
        old(ch).wf(),
        old(ws).wf(),
        digests_all(digest),
        old(ch).policy_changes@.contains_key(key1(change_id@)) ==> old(ch).policy_changes@[key1(
            change_id@,
        )].revision < u64::MAX,
        old(ws).projects@.contains_key(key1(project_id@)) ==> old(ws).projects@[key1(
            project_id@,
        )].revision < u64::MAX,
    ensures
        final(ch).wf(),
        final(ws).wf(),
        change_confirm_outcome(
            *old(ch),
            *final(ch),
            *old(ws),
            *final(ws),
            old(journal)@,
            final(journal)@,
            project_id@,
            change_id@,
            decision_receipt_ref@,
            *meta,
            digest,
            r,
        ),
{
    let spaces = project_spaces(ws, project_id);
    let items = item_set_digest(ws, &spaces, digest);
    proof {
        assert(items_digested(*old(ws), views(spaces@), digest, items@));
    }
    confirm_change(
        ch,
        ws,
        journal,
        project_id,
        change_id,
        decision_receipt_ref,
        meta,
        items.as_str(),
    )
}

/// What canceling a policy change does and answers.
pub open spec fn change_cancel_outcome(
    ch: Changes,
    ch_after: Changes,
    journal: JournalView,
    journal_after: JournalView,
    project_id: Seq<char>,
    change_id: Seq<char>,
    meta: Meta,
    r: Result<u64, Problem>,
) -> bool {
    &&& ch_after.widenings == ch.widenings
    &&& r is Err ==> ch_after == ch && journal_after == journal
    &&& match papc_decided(ch, project_id, change_id, meta) {
        Some(p) => r is Err && r->Err_0@ == p,
        None => {
            let k = key1(change_id);
            let c = ch.policy_changes@[k];
            &&& r == Ok::<u64, Problem>((c.revision + 1) as u64)
            &&& ch_after.policy_changes@ == ch.policy_changes@.insert(
                k,
                decided_change(c, ChangeState::Canceled),
            )
            &&& journal_after == change_journal(
                journal,
                EventKind::PolicyChangeCanceled,
                project_id,
                project_id,
                "schema:project-access-policy-change-v1"@,
                change_id,
                (c.revision + 1) as u64,
                meta,
                "command.project_policy_change_canceled"@,
            )
        },
    }
}

/// Cancels a prepared change of a project's access policy. The answer is the
/// revision that the change moves to.
pub fn papc_cancel(
    ch: &mut Changes,
    journal: &mut Journal,
    project_id: &str,
    change_id: &str,
    meta: &Meta,
) -> (r: Result<u64, Problem>)
    requires
        old(ch).wf(),
        old(ch).policy_changes@.contains_key(key1(change_id@)) ==> old(ch).policy_changes@[key1(
            change_id@,
        )].revision < u64::MAX,
    ensures
        final(ch).wf(),
        change_cancel_outcome(
            *old(ch),
            *final(ch),
            old(journal)@,
            final(journal)@,
            project_id@,
            change_id@,
            *meta,
            r,
        ),
{
    let i = papc_undecided(ch, project_id, change_id, meta)?;
    let next: u64 = ch.policy_changes.rows[i].revision + 1;
    ch.policy_changes.rows[i].state = ChangeState::Canceled;
    ch.policy_changes.rows[i].revision = next;
    proof {
        crate::table::table_updated(
            old(ch).policy_changes,
            ch.policy_changes,
            i as int,
            ch.policy_changes.rows@[i as int],
        );
    }
    prepared_change_event(
        journal,
        EventKind::PolicyChangeCanceled,
        project_id,
        project_id,
        "schema:project-access-policy-change-v1",
        change_id,
        next,
        meta,
        "command.project_policy_change_canceled",
    );
    Ok(next)
}

/// A policy change is decided once: one that was confirmed or canceled is
/// neither confirmed nor canceled again.
pub proof fn a_policy_change_is_decided_once(
    ch: Changes,
    ws: Workspace,
    project: Seq<char>,
    id: Seq<char>,
    meta: Meta,
    items: Seq<char>,
)
    requires
        ch.policy_changes@.contains_key(key1(id)),
        ch.policy_changes@[key1(id)].state !is Prepared,
    ensures
        papc_decided(ch, project, id, meta) is Some,
        papc_confirm_refusal(ch, ws, project, id, meta, items) is Some,
{
}

/// A project that moved since makes a prepared change stale: only the exact
/// revision that was prepared against confirms it.
pub proof fn a_moved_project_is_not_confirmed(
    ch: Changes,
    ws: Workspace,
    project: Seq<char>,
    id: Seq<char>,
    meta: Meta,
    items: Seq<char>,
)
    requires
        ws.projects@.contains_key(key1(project)),
        ws.projects@[key1(project)].revision != ch.policy_changes@[key1(
            id,
        )].expected_project_revision,
    ensures
        papc_confirm_refusal(ch, ws, project, id, meta, items) is Some,
{
}

// ------------------------------------------------ space_access_widen_* ----

#[derive(Debug)]
pub struct WidenPrepareArgs {
    pub space_id: String,
    pub proposed_visibility: Option<String>,
    pub proposed_policy_set_ref: Option<String>,
    pub proposed_default_classification_ref: Option<String>,
}

/// Why no widening is prepared.
pub open spec fn widen_prepare_refusal(
    ch: Changes,
    ws: Workspace,
    project: Seq<char>,
    space: Seq<char>,
    meta: Meta,
    id: Seq<char>,
) -> Option<ProblemView> {
    let s = ws.spaces@[key1(space)];
    if !visible(ws.spaces, project, space) {
        Some(not_found_view())
    } else if s.status is Archived {
        Some(transition_view("space is archived"@))
    } else if !revision_agrees(meta.expected_revision, s.revision) {
        Some(stale_revision_view(s.revision))
    } else if ch.widenings@.contains_key(key1(id)) {
        Some(internal_view())
    } else {
        None
    }
}

/// The widening that is prepared: what stands is its prior, pinned by the
/// space's revision, and whatever is not proposed stays.
pub open spec fn prepared_widening<D: Fn(&str, &str, &Json) -> String>(
    w: Widening,
    id: Seq<char>,
    s: Space,
    ws: Workspace,
    ctx: Contexts,
    session: Session,
    args: WidenPrepareArgs,
    digest: D,
) -> bool {
    &&& w.widening_id@ == id
    &&& w.space_id@ == s.space_id@
    &&& w.expected_space_revision == s.revision
    &&& w.prior_visibility@ == s.visibility@
    &&& w.proposed_visibility@ == or_else(args.proposed_visibility, s.visibility@)
    &&& w.prior_policy_set_ref@ == s.policy_set_ref@
    &&& w.proposed_policy_set_ref@ == or_else(args.proposed_policy_set_ref, s.policy_set_ref@)
    &&& w.prior_default_classification_ref@ == s.default_classification_ref@
    &&& w.proposed_default_classification_ref@ == or_else(
        args.proposed_default_classification_ref,
        s.default_classification_ref@,
    )
    &&& frontiers_of(ctx, seq![s.space_id@], views(w.affected_frontier_refs@))
    &&& items_digested(ws, seq![s.space_id@], digest, w.affected_item_set_digest@)
    &&& w.classification_join_ref@ == s.default_classification_ref@
    &&& digested(
        digest,
        "kovee-destination-audience"@,
        "schema:kovee-audience-v1"@,
        space_audience_document(s.space_id@, w.proposed_visibility@),
        w.destination_audience_digest@,
    )
    &&& digested(
        digest,
        "kovee-prepared-subject"@,
        "schema:kovee-prepared-subject-v1"@,
        widening_document(w),
        w.subject_digest@,
    )
    &&& w.prepared_by_principal@ == session.owner_actor_ref@
    &&& w.state is Prepared
    &&& w.revision == 1
    &&& w.created_at@ == session.now_ts@
}

/// What preparing a widening does and answers.
pub open spec fn widen_prepare_outcome<D: Fn(&str, &str, &Json) -> String>(
    ch: Changes,
    ch_after: Changes,
    journal: JournalView,
    journal_after: JournalView,
    ws: Workspace,
    ctx: Contexts,
    session: Session,
    project_id: Seq<char>,
    args: WidenPrepareArgs,
    meta: Meta,
    widening_id: Seq<char>,
    digest: D,
    r: Result<usize, Problem>,
) -> bool {
    &&& r is Err ==> ch_after == ch && journal_after == journal
    &&& match widen_prepare_refusal(
        ch,
        ws,
        project_id,
        args.space_id@,
        meta,
        widening_id,
    ) {
        Some(p) => r is Err && r->Err_0@ == p,
        None => {
            let w = ch_after.widenings.rows@.last();
            &&& r is Ok
            &&& r->Ok_0 == ch.widenings.rows@.len()
            &&& ch_after.widenings.rows@ == ch.widenings.rows@.push(w)
            &&& ch_after.policy_changes == ch.policy_changes
            &&& prepared_widening(
                w,
                widening_id,
                ws.spaces@[key1(args.space_id@)],
                ws,
                ctx,
                session,
                args,
                digest,
            )
            &&& journal_after == change_journal(
                journal,
                EventKind::WideningPrepared,
                project_id,
                args.space_id@,
                "schema:space-access-widening-v1"@,
                widening_id,
                1,
                meta,
                "command.space_access_widening_prepared"@,
            )
        },
    }
}

/// Prepares a widening of the access to a space. The answer is the widening's
/// position.
pub fn widen_prepare<D: Fn(&str, &str, &Json) -> String>(
    ch: &mut Changes,
    journal: &mut Journal,
    ws: &Workspace,
    ctx: &Contexts,
    session: &Session,
    project_id: &str,
    args: &WidenPrepareArgs,
    meta: &Meta,
    widening_id: &str,
    digest: D,
) -> (r: Result<usize, Problem>)
    requires
        old(ch).wf(),
        ws.wf(),
        digests_all(digest),
    ensures
        final(ch).wf(),
        widen_prepare_outcome(
            *old(ch),
            *final(ch),
            old(journal)@,
            final(journal)@,
            *ws,
            *ctx,
            *session,
            project_id@,
            *args,
            *meta,
            widening_id@,
            digest,
            r,
        ),
{
    proof {
        reveal_strlit("");
        crate::text::empty_is(""@);
    }
    let i = visible_space(&ws.spaces, project_id, args.space_id.as_str())?;
    let s = &ws.spaces.rows[i];
    if s.status == SpaceStatus::Archived {
        return Err(invalid_transition("space is archived"));
    }
    check_expected_revision(meta.expected_revision, s.revision)?;
    if ch.widenings.position(widening_id, "").is_some() {
        return Err(internal());
    }
    let mut spaces: Vec<String> = Vec::new();
    spaces.push(s.space_id.clone());
    proof {
        assert(views(spaces@) =~= seq![s.space_id@]);
    }
    let frontiers = frontier_refs(ctx, &spaces);
    let proposed_visibility = given_or(&args.proposed_visibility, s.visibility.as_str());
    let audience = space_audience_subject(s.space_id.as_str(), proposed_visibility.as_str());
    let destination_audience_digest = digest(
        "kovee-destination-audience",
        "schema:kovee-audience-v1",
        &audience,
    );
    proof {
        assert(digested(
            digest,
            "kovee-destination-audience"@,
            "schema:kovee-audience-v1"@,
            audience@,
            destination_audience_digest@,
        ));
    }
    let items = item_set_subject(ws, &spaces);
    let affected_item_set_digest = digest(
        "kovee-item-set",
        "schema:kovee-item-set-v1",
        &items,
    );
    proof {
        items_are_digested(*ws, views(spaces@), digest, items, affected_item_set_digest);
    }
    let mut widening = Widening {
        widening_id: widening_id.to_owned(),
        space_id: s.space_id.clone(),
        expected_space_revision: s.revision,
        prior_visibility: s.visibility.clone(),
        proposed_visibility,
        prior_policy_set_ref: s.policy_set_ref.clone(),
        proposed_policy_set_ref: given_or(
            &args.proposed_policy_set_ref,
            s.policy_set_ref.as_str(),
        ),
        prior_default_classification_ref: s.default_classification_ref.clone(),
        proposed_default_classification_ref: given_or(
            &args.proposed_default_classification_ref,
            s.default_classification_ref.as_str(),
        ),
        affected_frontier_refs: frontiers,
        affected_item_set_digest,
        classification_join_ref: s.default_classification_ref.clone(),
        destination_audience_digest,
        subject_digest: String::new(),
        prepared_by_principal: session.owner_actor_ref.clone(),
        state: ChangeState::Prepared,
        revision: 1,
        created_at: session.now_ts.clone(),
    };
    let subject = widening_subject(&widening);
    let subject_digest = digest(
        "kovee-prepared-subject",
        "schema:kovee-prepared-subject-v1",
        &subject,
    );
    widening.subject_digest = subject_digest;
    proof {
        assert(digested(
            digest,
            "kovee-prepared-subject"@,
            "schema:kovee-prepared-subject-v1"@,
            subject@,
            widening.subject_digest@,
        ));
        assert(subject@ == widening_document(widening));
    }
    prepared_change_event(
        journal,
        EventKind::WideningPrepared,
        project_id,
        args.space_id.as_str(),
        "schema:space-access-widening-v1",
        widening_id,
        1,
        meta,
        "command.space_access_widening_prepared",
    );
    let at: usize = ch.widenings.rows.len();
    ch.widenings.insert(widening);
    Ok(at)
}

/// Whether a widening is visible in a project: its space is.
pub open spec fn widening_visible(
    ch: Changes,
    ws: Workspace,
    project: Seq<char>,
    id: Seq<char>,
) -> bool {
    ch.widenings@.contains_key(key1(id)) && visible(
        ws.spaces,
        project,
        ch.widenings@[key1(id)].space_id@,
    )
}

fn widening_row(ch: &Changes, ws: &Workspace, project_id: &str, widening_id: &str) -> (r: Result<
    (usize, usize),
    Problem,
>)
    requires
        ch.wf(),
        ws.wf(),
    ensures
        match r {
            Ok(at) => {
                let w = ch.widenings.rows@[at.0 as int];
                &&& widening_visible(*ch, *ws, project_id@, widening_id@)
                &&& at.0 < ch.widenings.rows.len()
                &&& w == ch.widenings@[key1(widening_id@)]
                &&& w.widening_id@ == widening_id@
                &&& at.1 < ws.spaces.rows.len()
                &&& ws.spaces.rows@[at.1 as int] == ws.spaces@[key1(w.space_id@)]
                &&& ws.spaces.rows@[at.1 as int].space_id@ == w.space_id@
            },
            Err(p) => !widening_visible(*ch, *ws, project_id@, widening_id@) && p@
                == not_found_view(),
        },
{
    proof {
        reveal_strlit("");
        crate::text::empty_is(""@);
    }
    match ch.widenings.position(widening_id, "") {
        None => Err(not_found()),
        Some(i) => {
            let j = visible_space(
                &ws.spaces,
                project_id,
                ch.widenings.rows[i].space_id.as_str(),
            )?;
            Ok((i, j))
        },
    }
}

/// Shows a widening of a project's space.
pub fn widen_show<'a>(
    ch: &'a Changes,
    ws: &Workspace,
    project_id: &str,
    widening_id: &str,
) -> (r: Result<&'a Widening, Problem>)
    requires
        ch.wf(),
        ws.wf(),
    ensures
        match r {
            Ok(w) => widening_visible(*ch, *ws, project_id@, widening_id@) && *w
                == ch.widenings@[key1(widening_id@)],
            Err(p) => !widening_visible(*ch, *ws, project_id@, widening_id@) && p@
                == not_found_view(),
        },
{
    let at = widening_row(ch, ws, project_id, widening_id)?;
    Ok(&ch.widenings.rows[at.0])
}

/// Why a widening cannot be decided any more.
pub open spec fn widen_decided(
    ch: Changes,
    ws: Workspace,
    project: Seq<char>,
    id: Seq<char>,
    meta: Meta,
) -> Option<ProblemView> {
    let w = ch.widenings@[key1(id)];
    if !widening_visible(ch, ws, project, id) {
        Some(not_found_view())
    } else if w.state !is Prepared {
        Some(transition_view("widening is "@ + w.state.name()))
    } else if !revision_agrees(meta.expected_revision, w.revision) {
        Some(stale_revision_view(w.revision))
    } else {
        None
    }
}

fn widen_undecided(
    ch: &Changes,
    ws: &Workspace,
    project_id: &str,
    widening_id: &str,
    meta: &Meta,
) -> (r: Result<(usize, usize), Problem>)
    requires
        ch.wf(),
        ws.wf(),
    ensures
        match widen_decided(*ch, *ws, project_id@, widening_id@, *meta) {
            Some(p) => r is Err && r->Err_0@ == p,
            None => {
                let at = r->Ok_0;
                let w = ch.widenings.rows@[at.0 as int];
                &&& r is Ok
                &&& at.0 < ch.widenings.rows.len()
                &&& w == ch.widenings@[key1(widening_id@)]
                &&& w.widening_id@ == widening_id@
                &&& at.1 < ws.spaces.rows.len()
                &&& ws.spaces.rows@[at.1 as int] == ws.spaces@[key1(w.space_id@)]
                &&& ws.spaces.rows@[at.1 as int].space_id@ == w.space_id@
            },
        },
{
    let at = widening_row(ch, ws, project_id, widening_id)?;
    let state = ch.widenings.rows[at.0].state;
    if state != ChangeState::Prepared {
        let detail = cat2("widening is ", state.as_str());
        return Err(invalid_transition(detail.as_str()));
    }
    check_expected_revision(meta.expected_revision, ch.widenings.rows[at.0].revision)?;
    Ok(at)
}

/// Why a widening is not confirmed: it is decided, or what it was prepared
/// against has moved. `items` is the digest of the items that the space holds
/// now.
pub open spec fn widen_confirm_refusal(
    ch: Changes,
    ws: Workspace,
    project: Seq<char>,
    id: Seq<char>,
    meta: Meta,
    items: Seq<char>,
) -> Option<ProblemView> {
    let w = ch.widenings@[key1(id)];
    let s = ws.spaces@[key1(w.space_id@)];
    match widen_decided(ch, ws, project, id, meta) {
        Some(e) => Some(e),
        None => if s.revision != w.expected_space_revision {
            Some(
                (ProblemView {
                    detail: Some("the space moved after preparation; the intent is stale"@),
                    ..stale_revision_view(s.revision)
                }),
            )
        } else if items != w.affected_item_set_digest@ {
            Some(
                (ProblemView {
                    detail: Some("the affected item set changed after preparation"@),
                    ..stale_revision_view(s.revision)
                }),
            )
        } else {
            None
        },
    }
}

/// What confirming makes of the space: exactly what was proposed.
pub open spec fn widened_space(before: Space, after: Space, w: Widening) -> bool {
    &&& after == (Space {
        visibility: after.visibility,
        policy_set_ref: after.policy_set_ref,
        default_classification_ref: after.default_classification_ref,
        revision: (before.revision + 1) as u64,
        ..before
    })
    &&& after.visibility@ == w.proposed_visibility@
    &&& after.policy_set_ref@ == w.proposed_policy_set_ref@
    &&& after.default_classification_ref@ == w.proposed_default_classification_ref@
}

/// What deciding makes of a widening.
pub open spec fn decided_widening(w: Widening, state: ChangeState) -> Widening {
    Widening { state, revision: (w.revision + 1) as u64, ..w }
}

/// What confirming a widening does and answers, with `items` as the digest of
/// the items that the space holds now.
pub open spec fn widen_confirm_outcome(
    before: Changes,
    after: Changes,
    ws: Workspace,
    after_ws: Workspace,
    journal: JournalView,
    after_journal: JournalView,
    project_id: Seq<char>,
    widening_id: Seq<char>,
    decision_receipt_ref: Seq<char>,
    meta: Meta,
    item_set_digest: Seq<char>,
    r: Result<u64, Problem>,
) -> bool {
    &&& after.policy_changes == before.policy_changes
    &&& after_ws.projects == ws.projects
    &&& after_ws.participants == ws.participants
    &&& after_ws.contributions == ws.contributions
    &&& r is Err ==> {
        &&& after == before
        &&& after_ws == ws
        &&& after_journal == journal
    }
    &&& match widen_confirm_refusal(
        before,
        ws,
        project_id,
        widening_id,
        meta,
        item_set_digest,
    ) {
        Some(p) => r is Err && r->Err_0@ == p,
        None => {
            let k = key1(widening_id);
            let w = before.widenings@[k];
            let sk = key1(w.space_id@);
            let t = after_ws.spaces@[sk];
            &&& r == Ok::<u64, Problem>((w.revision + 1) as u64)
            &&& after.widenings@ == before.widenings@.insert(
                k,
                decided_widening(w, ChangeState::Confirmed),
            )
            &&& after_ws.spaces@ == ws.spaces@.insert(sk, t)
            &&& widened_space(ws.spaces@[sk], t, w)
            &&& after_journal == change_journal(
                journal.with_audit(
                    "command.space_access_widening_receipt"@,
                    "widening="@ + widening_id + ";receipt="@ + decision_receipt_ref,
                ),
                EventKind::WideningConfirmed,
                project_id,
                w.space_id@,
                "schema:space-access-widening-v1"@,
                widening_id,
                (w.revision + 1) as u64,
                meta,
                "command.space_access_widening_confirmed"@,
            )
        },
    }
}

fn confirm_widening(
    ch: &mut Changes,
    ws: &mut Workspace,
    journal: &mut Journal,
    project_id: &str,
    widening_id: &str,
    decision_receipt_ref: &str,
    meta: &Meta,
    item_set_digest: &str,
) -> (r: Result<u64, Problem>)
    requires
        old(ch).wf(),
        old(ws).wf(),
        old(ch).widenings@.contains_key(key1(widening_id@)) ==> {
            let w = old(ch).widenings@[key1(widening_id@)];
            &&& w.revision < u64::MAX
            &&& old(ws).spaces@.contains_key(key1(w.space_id@)) ==> old(ws).spaces@[key1(
                w.space_id@,
            )].revision < u64::MAX
        },
    ensures
        final(ch).wf(),
        final(ws).wf(),
        widen_confirm_outcome(
            *old(ch),
            *final(ch),
            *old(ws),
            *final(ws),
            old(journal)@,
            final(journal)@,
            project_id@,
            widening_id@,
            decision_receipt_ref@,
            *meta,
            item_set_digest@,
            r,
        ),
{
    let at = widen_undecided(ch, ws, project_id, widening_id, meta)?;
    let i = at.0;
    let j = at.1;
    let revision: u64 = ws.spaces.rows[j].revision;
    if revision != ch.widenings.rows[i].expected_space_revision {
        return Err(
            stale_revision(revision).with_detail(
                "the space moved after preparation; the intent is stale",
            ),
        );
    }
    if !same(item_set_digest, ch.widenings.rows[i].affected_item_set_digest.as_str()) {
        return Err(
            stale_revision(revision).with_detail(
                "the affected item set changed after preparation",
            ),
        );
    }
    ws.spaces.rows[j].visibility = ch.widenings.rows[i].proposed_visibility.clone();
    ws.spaces.rows[j].policy_set_ref = ch.widenings.rows[i].proposed_policy_set_ref.clone();
    ws.spaces.rows[j].default_classification_ref =
    ch.widenings.rows[i].proposed_default_classification_ref.clone();
    ws.spaces.rows[j].revision = revision + 1;
    let next: u64 = ch.widenings.rows[i].revision + 1;
    ch.widenings.rows[i].state = ChangeState::Confirmed;
    ch.widenings.rows[i].revision = next;
    proof {
        crate::table::table_updated(
            old(ws).spaces,
            ws.spaces,
            j as int,
            ws.spaces.rows@[j as int],
        );
        crate::table::table_updated(
            old(ch).widenings,
            ch.widenings,
            i as int,
            ch.widenings.rows@[i as int],
        );
    }
    let receipt = cat4("widening=", widening_id, ";receipt=", decision_receipt_ref);
    journal.audit("command.space_access_widening_receipt", receipt.as_str());
    prepared_change_event(
        journal,
        EventKind::WideningConfirmed,
        project_id,
        ch.widenings.rows[i].space_id.as_str(),
        "schema:space-access-widening-v1",
        widening_id,
        next,
        meta,
        "command.space_access_widening_confirmed",
    );
    Ok(next)
}

/// The space of a widening, where it is on record.
pub open spec fn space_of_widening(ch: Changes, id: Seq<char>) -> Seq<Seq<char>> {
    if ch.widenings@.contains_key(key1(id)) {
        seq![ch.widenings@[key1(id)].space_id@]
    } else {
        Seq::empty()
    }
}

/// What confirming a widening does and answers.
pub open spec fn widening_outcome<D: Fn(&str, &str, &Json) -> String>(
    ch: Changes,
    ch_after: Changes,
    ws: Workspace,
    ws_after: Workspace,
    journal: JournalView,
    journal_after: JournalView,
    project_id: Seq<char>,
    widening_id: Seq<char>,
    decision_receipt_ref: Seq<char>,
    meta: Meta,
    digest: D,
    r: Result<u64, Problem>,
) -> bool {
    &&& exists|items: Seq<char>|
        {
            &&& #[trigger] items_digested(
                ws,
                space_of_widening(ch, widening_id),
                digest,
                items,
            )
            &&& widen_confirm_outcome(
                ch,
                ch_after,
                ws,
                ws_after,
                journal,
                journal_after,
                project_id,
                widening_id,
                decision_receipt_ref,
                meta,
                items,
                r,
            )
        }
}

/// Confirms a prepared widening against what the space holds now. The answer
/// is the revision that the widening moves to.
pub fn widen_confirm<D: Fn(&str, &str, &Json) -> String>(
    ch: &mut Changes,
    ws: &mut Workspace,
    journal: &mut Journal,
    project_id: &str,
    widening_id: &str,
    decision_receipt_ref: &str,
    meta: &Meta,
    digest: D,
) -> (r: Result<u64, Problem>)
    requires
        old(ch).wf(),
        old(ws).wf(),
        digests_all(digest),
        old(ch).widenings@.contains_key(key1(widening_id@)) ==> {
            let w = old(ch).widenings@[key1(widening_id@)];
            &&& w.revision < u64::MAX
            &&& old(ws).spaces@.contains_key(key1(w.space_id@)) ==> old(ws).spaces@[key1(
                w.space_id@,
            )].revision < u64::MAX
        },
    ensures
        final(ch).wf(),
        final(ws).wf(),
        widening_outcome(
            *old(ch),
            *final(ch),
            *old(ws),
            *final(ws),
            old(journal)@,
            final(journal)@,
            project_id@,
            widening_id@,
            decision_receipt_ref@,
            *meta,
            digest,
            r,
        ),
{
    proof {
        reveal_strlit("");
        crate::text::empty_is(""@);
    }
    let mut spaces: Vec<String> = Vec::new();
    if let Some(w) = ch.widenings.find(widening_id, "") {
        spaces.push(w.space_id.clone());
    }
    proof {
        assert(views(spaces@) =~= space_of_widening(*old(ch), widening_id@));
    }
    let items = item_set_digest(ws, &spaces, digest);
    proof {
        assert(items_digested(
            *old(ws),
            space_of_widening(*old(ch), widening_id@),
            digest,
            items@,
        ));
    }
    confirm_widening(
        ch,
        ws,
        journal,
        project_id,
        widening_id,
        decision_receipt_ref,
        meta,
        items.as_str(),
    )
}

/// What canceling a widening does and answers.
pub open spec fn widen_cancel_outcome(
    ch: Changes,
    ch_after: Changes,
    journal: JournalView,
    journal_after: JournalView,
    ws: Workspace,
    project_id: Seq<char>,
    widening_id: Seq<char>,
    meta: Meta,
    r: Result<u64, Problem>,
) -> bool {
    &&& ch_after.policy_changes == ch.policy_changes
    &&& r is Err ==> ch_after == ch && journal_after == journal
    &&& match widen_decided(ch, ws, project_id, widening_id, meta) {
        Some(p) => r is Err && r->Err_0@ == p,
        None => {
            let k = key1(widening_id);
            let w = ch.widenings@[k];
            &&& r == Ok::<u64, Problem>((w.revision + 1) as u64)
            &&& ch_after.widenings@ == ch.widenings@.insert(
                k,
                decided_widening(w, ChangeState::Canceled),
            )
            &&& journal_after == change_journal(
                journal,
                EventKind::WideningCanceled,
                project_id,
                w.space_id@,
                "schema:space-access-widening-v1"@,
                widening_id,
                (w.revision + 1) as u64,
                meta,
                "command.space_access_widening_canceled"@,
            )
        },
    }
}

/// Cancels a prepared widening. The answer is the revision that the widening
/// moves to.
pub fn widen_cancel(
    ch: &mut Changes,
    journal: &mut Journal,
    ws: &Workspace,
    project_id: &str,
    widening_id: &str,
    meta: &Meta,
) -> (r: Result<u64, Problem>)
    requires
        old(ch).wf(),
        ws.wf(),
        old(ch).widenings@.contains_key(key1(widening_id@)) ==> old(ch).widenings@[key1(
            widening_id@,
        )].revision < u64::MAX,
    ensures
        final(ch).wf(),
        widen_cancel_outcome(
            *old(ch),
            *final(ch),
            old(journal)@,
            final(journal)@,
            *ws,
            project_id@,
            widening_id@,
            *meta,
            r,
        ),
{
    let at = widen_undecided(ch, ws, project_id, widening_id, meta)?;
    let i = at.0;
    let next: u64 = ch.widenings.rows[i].revision + 1;
    ch.widenings.rows[i].state = ChangeState::Canceled;
    ch.widenings.rows[i].revision = next;
    proof {
        crate::table::table_updated(
            old(ch).widenings,
            ch.widenings,
            i as int,
            ch.widenings.rows@[i as int],
        );
    }
    prepared_change_event(
        journal,
        EventKind::WideningCanceled,
        project_id,
        ch.widenings.rows[i].space_id.as_str(),
        "schema:space-access-widening-v1",
        widening_id,
        next,
        meta,
        "command.space_access_widening_canceled",
    );
    Ok(next)
}

/// A widening is decided once: one that was confirmed or canceled is neither
/// confirmed nor canceled again.
pub proof fn a_widening_is_decided_once(
    ch: Changes,
    ws: Workspace,
    project: Seq<char>,
    id: Seq<char>,
    meta: Meta,
    items: Seq<char>,
)
    requires
        ch.widenings@.contains_key(key1(id)),
        ch.widenings@[key1(id)].state !is Prepared,
    ensures
        widen_decided(ch, ws, project, id, meta) is Some,
        widen_confirm_refusal(ch, ws, project, id, meta, items) is Some,
{
}

/// Any direct command on a space makes a widening that was prepared before it
/// stale.
pub proof fn a_direct_command_makes_a_widening_stale(
    ch: Changes,
    before: Workspace,
    after: Workspace,
    l: SpaceLifecycle,
    project: Seq<char>,
    id: Seq<char>,
    meta: Meta,
    items: Seq<char>,
)
    requires
        ({
            let k = key1(ch.widenings@[key1(id)].space_id@);
            &&& before.spaces@.contains_key(k)
            &&& before.spaces@[k].revision == ch.widenings@[key1(id)].expected_space_revision
            &&& applied(before.spaces@[k], after.spaces@[k], l)
        }),
    ensures
        widen_confirm_refusal(ch, after, project, id, meta, items) is Some,
{
}

/// So does an append: what a widening lets others see is exactly what stood
/// when it was prepared.
pub proof fn an_append_makes_a_widening_stale(
    ch: Changes,
    before: Workspace,
    after: Workspace,
    session: Session,
    args: crate::handlers::ContributionAppendArgs,
    meta: Meta,
    mint: crate::handlers::ContributionMint,
    project: Seq<char>,
    id: Seq<char>,
    meta2: Meta,
    items: Seq<char>,
)
    requires
        ch.widenings@[key1(id)].space_id@ == args.space_id@,
        before.spaces@[key1(args.space_id@)].revision == ch.widenings@[key1(
            id,
        )].expected_space_revision,
        crate::handlers::appended(before, after, session, args, meta, mint),
    ensures
        widen_confirm_refusal(ch, after, project, id, meta2, items) is Some,
{
}

/// A project is renamed as asked while it is not archived and at the revision
/// that was expected: it has the name that was given, one revision on, and
/// nothing else of it or besides it moves.
pub proof fn a_project_is_renamed_as_asked(
    ws: Workspace,
    after: Workspace,
    journal: JournalView,
    after_journal: JournalView,
    project: Seq<char>,
    other: Seq<char>,
    name: Seq<char>,
    meta: Meta,
    r: Result<u64, Problem>,
)
    requires
        metadata_outcome(ws, after, journal, after_journal, project, name, meta, r),
        ws.projects@[key1(project)].revision < u64::MAX,
        other != project,
    ensures
        r is Err ==> after == ws && after_journal == journal,
        r is Ok <==> {
            &&& ws.projects@.contains_key(key1(project))
            &&& ws.projects@[key1(project)].status !is Archived
            &&& meta.expected_revision is Some ==> meta.expected_revision->0
                == ws.projects@[key1(project)].revision
        },
        r is Ok ==> {
            let p = ws.projects@[key1(project)];
            let q = after.projects@[key1(project)];
            &&& r->Ok_0 == p.revision + 1
            &&& q.revision == p.revision + 1
            &&& q.name@ == name
            &&& q.status == p.status
            &&& q.policy_set_ref == p.policy_set_ref
            &&& q.default_classification_ref == p.default_classification_ref
            &&& q.project_id == p.project_id
            &&& after.spaces == ws.spaces
            &&& after.participants == ws.participants
            &&& after.contributions == ws.contributions
            &&& ws.projects@.contains_key(key1(other)) ==> after.projects@[key1(other)]
                == ws.projects@[key1(other)]
            &&& announced(
                journal,
                after_journal,
                EventKind::ProjectUpdated,
                Some(project),
                project,
                Some(q.revision),
                meta,
            )
        },
{
    assert(key1(other).0 == other);
    assert(key1(project).0 == project);
}

/// A space command is carried out for a space of the project at the revision
/// that was expected, moves that space one revision on and no other, leaves
/// every contribution, and is announced as what it did.
pub proof fn a_space_command_moves_one_space(
    ws: Workspace,
    after: Workspace,
    journal: JournalView,
    after_journal: JournalView,
    project: Seq<char>,
    space: Seq<char>,
    other: Seq<char>,
    l: SpaceLifecycle,
    meta: Meta,
    r: Result<u64, Problem>,
)
    requires
        lifecycle_outcome(ws, after, journal, after_journal, project, space, l, meta, r),
        ws.spaces@[key1(space)].revision < u64::MAX,
        other != space,
    ensures
        r is Err ==> after == ws && after_journal == journal,
        r is Ok ==> {
            &&& ws.spaces@.contains_key(key1(space))
            &&& ws.spaces@[key1(space)].project_id@ == project
            &&& meta.expected_revision is Some ==> meta.expected_revision->0
                == ws.spaces@[key1(space)].revision
        },
        !ws.spaces@.contains_key(key1(space)) || ws.spaces@[key1(space)].project_id@ != project
            ==> r is Err && r->Err_0@ == not_found_view(),
        ws.spaces@.contains_key(key1(space)) && ws.spaces@[key1(space)].project_id@ == project
            && meta.expected_revision is Some && meta.expected_revision->0
            != ws.spaces@[key1(space)].revision ==> r is Err && r->Err_0@ == stale_revision_view(
            ws.spaces@[key1(space)].revision,
        ),
        after.projects == ws.projects,
        after.participants == ws.participants,
        after.contributions == ws.contributions,
        ws.spaces@.contains_key(key1(other)) ==> after.spaces@[key1(other)] == ws.spaces@[key1(
            other,
        )],
        r is Ok ==> {
            let s = ws.spaces@[key1(space)];
            let t = after.spaces@[key1(space)];
            &&& r->Ok_0 == s.revision + 1
            &&& t.revision == s.revision + 1
            &&& t.project_id == s.project_id
            &&& announced(
                journal,
                after_journal,
                l.kind(),
                Some(project),
                space,
                Some(t.revision),
                meta,
            )
            &&& after_journal.events.last().classification_ref == Some(
                t.default_classification_ref@,
            )
        },
{
    assert(key1(other).0 == other);
    assert(key1(space).0 == space);
}

/// Each space command is owed in its own states and does what it says: a title,
/// a purpose, a policy and a classification that were given are the ones the
/// space has, and one that was not given stays; freezing, reopening and archiving
/// give their own status; restricting restricts; and each leaves the rest.
pub proof fn a_space_command_does_what_it_says(
    ws: Workspace,
    after: Workspace,
    journal: JournalView,
    after_journal: JournalView,
    project: Seq<char>,
    space: Seq<char>,
    l: SpaceLifecycle,
    meta: Meta,
    r: Result<u64, Problem>,
)
    requires
        lifecycle_outcome(ws, after, journal, after_journal, project, space, l, meta, r),
        ws.spaces@.contains_key(key1(space)),
        ws.spaces@[key1(space)].project_id@ == project,
        meta.expected_revision is None || meta.expected_revision->0 == ws.spaces@[key1(
            space,
        )].revision,
    ensures
        l is Freeze ==> {
            let s = ws.spaces@[key1(space)];
            let t = after.spaces@[key1(space)];
            &&& r is Ok <==> s.status is Open
            &&& r is Ok ==> t.status is Frozen && l.kind() == EventKind::SpaceFrozen
            &&& r is Ok ==> t.visibility == s.visibility && t.title == s.title && t.policy_set_ref
                == s.policy_set_ref && t.default_classification_ref == s.default_classification_ref
                && t.purpose_contribution_ref == s.purpose_contribution_ref
        },
        l is Reopen ==> {
            let s = ws.spaces@[key1(space)];
            let t = after.spaces@[key1(space)];
            &&& r is Ok <==> s.status is Frozen
            &&& r is Ok ==> t.status is Open && l.kind() == EventKind::SpaceReopened
            &&& r is Ok ==> t.visibility == s.visibility && t.title == s.title && t.policy_set_ref
                == s.policy_set_ref && t.default_classification_ref == s.default_classification_ref
                && t.purpose_contribution_ref == s.purpose_contribution_ref
        },
        l is Archive ==> {
            let s = ws.spaces@[key1(space)];
            let t = after.spaces@[key1(space)];
            &&& r is Ok <==> s.status !is Archived
            &&& r is Ok ==> t.status is Archived && l.kind() == EventKind::SpaceArchived
            &&& r is Ok ==> t.visibility == s.visibility && t.title == s.title && t.policy_set_ref
                == s.policy_set_ref && t.default_classification_ref == s.default_classification_ref
                && t.purpose_contribution_ref == s.purpose_contribution_ref
        },
        l is Restrict ==> {
            let s = ws.spaces@[key1(space)];
            let t = after.spaces@[key1(space)];
            &&& r is Ok <==> s.visibility@ != "restricted"@
            &&& r is Ok ==> t.visibility@ == "restricted"@ && l.kind()
                == EventKind::SpaceRestricted
            &&& r is Ok ==> t.status == s.status && t.title == s.title && t.policy_set_ref
                == s.policy_set_ref && t.default_classification_ref == s.default_classification_ref
                && t.purpose_contribution_ref == s.purpose_contribution_ref
        },
        l matches SpaceLifecycle::UpdateMetadata { title, purpose_contribution_ref } ==> {
            let s = ws.spaces@[key1(space)];
            let t = after.spaces@[key1(space)];
            &&& r is Ok <==> {
                &&& s.status !is Archived
                &&& purpose_contribution_ref is Some ==> ws.contributions@.contains_key(
                    key1(purpose_contribution_ref->0@),
                ) && ws.contributions@[key1(purpose_contribution_ref->0@)].space_id@ == s.space_id@
            }
            &&& r is Ok ==> {
                &&& l.kind() == EventKind::SpaceUpdated
                &&& title is Some ==> t.title@ == title->0@
                &&& title is None ==> t.title@ == s.title@
                &&& purpose_contribution_ref is Some ==> opt_view(t.purpose_contribution_ref)
                    == Some(purpose_contribution_ref->0@)
                &&& purpose_contribution_ref is None ==> opt_view(t.purpose_contribution_ref)
                    == opt_view(s.purpose_contribution_ref)
                &&& t.status == s.status && t.visibility == s.visibility && t.policy_set_ref
                    == s.policy_set_ref && t.default_classification_ref
                    == s.default_classification_ref
            }
        },
        l matches SpaceLifecycle::PolicyNarrow { policy_set_ref, default_classification_ref } ==> {
            let s = ws.spaces@[key1(space)];
            let t = after.spaces@[key1(space)];
            &&& r is Ok <==> s.status !is Archived
            &&& r is Ok ==> {
                &&& l.kind() == EventKind::SpacePolicyNarrowed
                &&& policy_set_ref is Some ==> t.policy_set_ref@ == policy_set_ref->0@
                &&& policy_set_ref is None ==> t.policy_set_ref@ == s.policy_set_ref@
                &&& default_classification_ref is Some ==> t.default_classification_ref@
                    == default_classification_ref->0@
                &&& default_classification_ref is None ==> t.default_classification_ref@
                    == s.default_classification_ref@
                &&& t.status == s.status && t.visibility == s.visibility && t.title == s.title
                    && t.purpose_contribution_ref == s.purpose_contribution_ref
            }
        },
{
}

/// A policy change is prepared as it was proposed, for the project as it stands:
/// a policy and a classification that were given are the proposed ones, and only
/// without one does the project's own stand in; it changes nothing by itself.
pub proof fn a_policy_change_is_prepared_as_proposed<D: Fn(&str, &str, &Json) -> String>(
    before: Changes,
    after: Changes,
    journal: JournalView,
    after_journal: JournalView,
    ws: Workspace,
    ctx: Contexts,
    session: Session,
    project: Seq<char>,
    args: PapcPrepareArgs,
    meta: Meta,
    id: Seq<char>,
    digest: D,
    r: Result<usize, Problem>,
)
    requires
        before.wf(),
        after.wf(),
        ws.wf(),
        change_prepare_outcome(
            before,
            after,
            journal,
            after_journal,
            ws,
            ctx,
            session,
            project,
            args,
            meta,
            id,
            digest,
            r,
        ),
    ensures
        r is Err ==> after == before && after_journal == journal,
        r is Ok <==> {
            &&& ws.projects@.contains_key(key1(project))
            &&& meta.expected_revision is Some ==> meta.expected_revision->0
                == ws.projects@[key1(project)].revision
            &&& !before.policy_changes@.contains_key(key1(id))
        },
        r is Ok ==> {
            let p = ws.projects@[key1(project)];
            let c = after.policy_changes@[key1(id)];
            &&& after.policy_changes.rows@[r->Ok_0 as int] == c
            &&& after.policy_changes@ == before.policy_changes@.insert(key1(id), c)
            &&& after.widenings == before.widenings
            &&& c.change_id@ == id
            &&& c.project_id@ == project
            &&& c.expected_project_revision == p.revision
            &&& c.prior_policy_set_ref@ == p.policy_set_ref@
            &&& c.prior_default_classification_ref@ == p.default_classification_ref@
            &&& args.proposed_policy_set_ref is Some ==> c.proposed_policy_set_ref@
                == args.proposed_policy_set_ref->0@
            &&& args.proposed_policy_set_ref is None ==> c.proposed_policy_set_ref@
                == p.policy_set_ref@
            &&& args.proposed_default_classification_ref is Some
                ==> c.proposed_default_classification_ref@
                == args.proposed_default_classification_ref->0@
            &&& args.proposed_default_classification_ref is None
                ==> c.proposed_default_classification_ref@ == p.default_classification_ref@
            &&& c.classification_join_ref@ == p.default_classification_ref@
            &&& c.effective_change is Narrowing <==> c.proposed_policy_set_ref@ == p.policy_set_ref@
                && c.proposed_default_classification_ref@ == p.default_classification_ref@
            &&& c.prepared_by_principal@ == session.owner_actor_ref@
            &&& c.state is Prepared
            &&& c.revision == 1
            &&& c.created_at@ == session.now_ts@
            &&& exists|spaces: Seq<Seq<char>>|
                {
                    &&& #[trigger] spaces_of(ws, project, spaces)
                    &&& frontiers_of(ctx, spaces, views(c.affected_space_frontier_refs@))
                    &&& items_digested(ws, spaces, digest, c.affected_item_set_digest@)
                }
            &&& digested(
                digest,
                "kovee-destination-audience"@,
                "schema:kovee-audience-v1"@,
                project_audience_document(project),
                c.destination_audience_digest@,
            )
            &&& digested(
                digest,
                "kovee-prepared-subject"@,
                "schema:kovee-prepared-subject-v1"@,
                policy_change_document(c),
                c.subject_digest@,
            )
            &&& announced(
                journal,
                after_journal,
                EventKind::PolicyChangePrepared,
                Some(project),
                id,
                Some(1u64),
                meta,
            )
        },
{
    if r is Ok {
        let c = after.policy_changes.rows@.last();
        crate::table::table_pushed(before.policy_changes, after.policy_changes, c);
        assert(c.key() == key1(id));
        let n = crate::table::table_row(ws.projects, key1(project));
        assert(ws.projects.rows@[n].key().0 == project);
    }
}

/// A confirmed policy change gives the project what was proposed, and only while
/// the project and its items are as they were when it was prepared; a canceled
/// one gives it nothing. Either way the change is decided, one revision on, and
/// no other change moves.
pub proof fn a_policy_change_is_decided_as_proposed(
    before: Changes,
    confirmed: Changes,
    canceled: Changes,
    ws: Workspace,
    ws_after: Workspace,
    journal: JournalView,
    confirmed_journal: JournalView,
    canceled_journal: JournalView,
    project: Seq<char>,
    id: Seq<char>,
    other: Seq<char>,
    other_project: Seq<char>,
    receipt: Seq<char>,
    meta: Meta,
    items: Seq<char>,
    r: Result<u64, Problem>,
    x: Result<u64, Problem>,
)
    requires
        papc_confirm_outcome(
            before,
            confirmed,
            ws,
            ws_after,
            journal,
            confirmed_journal,
            project,
            id,
            receipt,
            meta,
            items,
            r,
        ),
        change_cancel_outcome(
            before,
            canceled,
            journal,
            canceled_journal,
            project,
            id,
            meta,
            x,
        ),
        before.policy_changes@[key1(id)].revision < u64::MAX,
        ws.projects@[key1(project)].revision < u64::MAX,
        other != id,
        other_project != project,
    ensures
        r is Err ==> confirmed == before && ws_after == ws && confirmed_journal == journal,
        x is Err ==> canceled == before && canceled_journal == journal,
        x is Ok <==> {
            let c = before.policy_changes@[key1(id)];
            &&& before.policy_changes@.contains_key(key1(id))
            &&& c.project_id@ == project
            &&& c.state is Prepared
            &&& meta.expected_revision is Some ==> meta.expected_revision->0 == c.revision
        },
        r is Ok <==> {
            let c = before.policy_changes@[key1(id)];
            &&& x is Ok
            &&& ws.projects@.contains_key(key1(project))
            &&& ws.projects@[key1(project)].revision == c.expected_project_revision
            &&& items == c.affected_item_set_digest@
        },
        r is Ok ==> {
            let c = before.policy_changes@[key1(id)];
            let d = confirmed.policy_changes@[key1(id)];
            let p = ws.projects@[key1(project)];
            let q = ws_after.projects@[key1(project)];
            let e = confirmed_journal.events.last();
            &&& r->Ok_0 == c.revision + 1
            &&& d.state is Confirmed
            &&& d.revision == c.revision + 1
            &&& d.proposed_policy_set_ref == c.proposed_policy_set_ref
            &&& d.subject_digest == c.subject_digest
            &&& q.policy_set_ref@ == c.proposed_policy_set_ref@
            &&& q.default_classification_ref@ == c.proposed_default_classification_ref@
            &&& q.revision == p.revision + 1
            &&& q.name == p.name
            &&& q.status == p.status
            &&& confirmed_journal.events == journal.events.push(e)
            &&& confirmed_journal.audits.len() == journal.audits.len() + 2
            &&& e.kind == EventKind::PolicyChangeConfirmed
            &&& e.resource_ref == id
            &&& e.resource_revision == Some(d.revision)
            &&& e.project_id == Some(project)
            &&& e.correlation_ref == meta.request_id@
            &&& before.policy_changes@.contains_key(key1(other))
                ==> confirmed.policy_changes@[key1(other)] == before.policy_changes@[key1(other)]
            &&& ws.projects@.contains_key(key1(other_project))
                ==> ws_after.projects@[key1(other_project)] == ws.projects@[key1(other_project)]
        },
        confirmed.widenings == before.widenings,
        ws_after.spaces == ws.spaces,
        ws_after.contributions == ws.contributions,
        x is Ok ==> {
            let c = before.policy_changes@[key1(id)];
            let d = canceled.policy_changes@[key1(id)];
            &&& x->Ok_0 == c.revision + 1
            &&& d.state is Canceled
            &&& d.revision == c.revision + 1
            &&& d.subject_digest == c.subject_digest
            &&& canceled.widenings == before.widenings
            &&& before.policy_changes@.contains_key(key1(other))
                ==> canceled.policy_changes@[key1(other)] == before.policy_changes@[key1(other)]
            &&& announced(
                journal,
                canceled_journal,
                EventKind::PolicyChangeCanceled,
                Some(project),
                id,
                Some(d.revision),
                meta,
            )
        },
{
    assert(key1(other).0 == other);
    assert(key1(id).0 == id);
    assert(key1(other_project).0 == other_project);
    assert(key1(project).0 == project);
}

/// A widening is prepared as it was proposed, for the space as it stands: a
/// visibility, a policy and a classification that were given are the proposed
/// ones, and only without one does the space's own stand in.
pub proof fn a_widening_is_prepared_as_proposed<D: Fn(&str, &str, &Json) -> String>(
    before: Changes,
    after: Changes,
    journal: JournalView,
    after_journal: JournalView,
    ws: Workspace,
    ctx: Contexts,
    session: Session,
    project: Seq<char>,
    args: WidenPrepareArgs,
    meta: Meta,
    id: Seq<char>,
    digest: D,
    r: Result<usize, Problem>,
)
    requires
        before.wf(),
        after.wf(),
        ws.wf(),
        widen_prepare_outcome(
            before,
            after,
            journal,
            after_journal,
            ws,
            ctx,
            session,
            project,
            args,
            meta,
            id,
            digest,
            r,
        ),
    ensures
        r is Err ==> after == before && after_journal == journal,
        r is Ok <==> {
            let s = ws.spaces@[key1(args.space_id@)];
            &&& ws.spaces@.contains_key(key1(args.space_id@))
            &&& s.project_id@ == project
            &&& s.status !is Archived
            &&& meta.expected_revision is Some ==> meta.expected_revision->0 == s.revision
            &&& !before.widenings@.contains_key(key1(id))
        },
        r is Ok ==> {
            let s = ws.spaces@[key1(args.space_id@)];
            let w = after.widenings@[key1(id)];
            &&& after.widenings.rows@[r->Ok_0 as int] == w
            &&& after.widenings@ == before.widenings@.insert(key1(id), w)
            &&& after.policy_changes == before.policy_changes
            &&& w.widening_id@ == id
            &&& w.space_id@ == args.space_id@
            &&& w.expected_space_revision == s.revision
            &&& w.prior_visibility@ == s.visibility@
            &&& w.prior_policy_set_ref@ == s.policy_set_ref@
            &&& w.prior_default_classification_ref@ == s.default_classification_ref@
            &&& args.proposed_visibility is Some ==> w.proposed_visibility@
                == args.proposed_visibility->0@
            &&& args.proposed_visibility is None ==> w.proposed_visibility@ == s.visibility@
            &&& args.proposed_policy_set_ref is Some ==> w.proposed_policy_set_ref@
                == args.proposed_policy_set_ref->0@
            &&& args.proposed_policy_set_ref is None ==> w.proposed_policy_set_ref@
                == s.policy_set_ref@
            &&& args.proposed_default_classification_ref is Some
                ==> w.proposed_default_classification_ref@
                == args.proposed_default_classification_ref->0@
            &&& args.proposed_default_classification_ref is None
                ==> w.proposed_default_classification_ref@ == s.default_classification_ref@
            &&& w.classification_join_ref@ == s.default_classification_ref@
            &&& w.prepared_by_principal@ == session.owner_actor_ref@
            &&& w.state is Prepared
            &&& w.revision == 1
            &&& w.created_at@ == session.now_ts@
            &&& frontiers_of(ctx, seq![args.space_id@], views(w.affected_frontier_refs@))
            &&& items_digested(ws, seq![args.space_id@], digest, w.affected_item_set_digest@)
            &&& digested(
                digest,
                "kovee-destination-audience"@,
                "schema:kovee-audience-v1"@,
                space_audience_document(args.space_id@, w.proposed_visibility@),
                w.destination_audience_digest@,
            )
            &&& digested(
                digest,
                "kovee-prepared-subject"@,
                "schema:kovee-prepared-subject-v1"@,
                widening_document(w),
                w.subject_digest@,
            )
            &&& announced(
                journal,
                after_journal,
                EventKind::WideningPrepared,
                Some(project),
                id,
                Some(1u64),
                meta,
            )
            &&& after_journal.events.last().stream_id == args.space_id@
        },
{
    if r is Ok {
        let w = after.widenings.rows@.last();
        crate::table::table_pushed(before.widenings, after.widenings, w);
        assert(w.key() == key1(id));
        let n = crate::table::table_row(ws.spaces, key1(args.space_id@));
        assert(ws.spaces.rows@[n].key().0 == args.space_id@);
    }
}

/// A confirmed widening gives the space what was proposed, and only while the
/// space and its items are as they were when it was prepared; a canceled one
/// gives it nothing. Either way the widening is decided, one revision on, and no
/// other widening and no other space moves.
pub proof fn a_widening_is_decided_as_proposed(
    before: Changes,
    confirmed: Changes,
    canceled: Changes,
    ws: Workspace,
    ws_after: Workspace,
    journal: JournalView,
    confirmed_journal: JournalView,
    canceled_journal: JournalView,
    project: Seq<char>,
    id: Seq<char>,
    other: Seq<char>,
    other_space: Seq<char>,
    receipt: Seq<char>,
    meta: Meta,
    items: Seq<char>,
    r: Result<u64, Problem>,
    x: Result<u64, Problem>,
)
    requires
        widen_confirm_outcome(
            before,
            confirmed,
            ws,
            ws_after,
            journal,
            confirmed_journal,
            project,
            id,
            receipt,
            meta,
            items,
            r,
        ),
        widen_cancel_outcome(
            before,
            canceled,
            journal,
            canceled_journal,
            ws,
            project,
            id,
            meta,
            x,
        ),
        before.widenings@[key1(id)].revision < u64::MAX,
        ws.spaces@[key1(before.widenings@[key1(id)].space_id@)].revision < u64::MAX,
        other != id,
        other_space != before.widenings@[key1(id)].space_id@,
    ensures
        r is Err ==> confirmed == before && ws_after == ws && confirmed_journal == journal,
        x is Err ==> canceled == before && canceled_journal == journal,
        x is Ok <==> {
            let w = before.widenings@[key1(id)];
            &&& before.widenings@.contains_key(key1(id))
            &&& ws.spaces@.contains_key(key1(w.space_id@))
            &&& ws.spaces@[key1(w.space_id@)].project_id@ == project
            &&& w.state is Prepared
            &&& meta.expected_revision is Some ==> meta.expected_revision->0 == w.revision
        },
        r is Ok <==> {
            let w = before.widenings@[key1(id)];
            &&& x is Ok
            &&& ws.spaces@[key1(w.space_id@)].revision == w.expected_space_revision
            &&& items == w.affected_item_set_digest@
        },
        r is Ok ==> {
            let w = before.widenings@[key1(id)];
            let v = confirmed.widenings@[key1(id)];
            let s = ws.spaces@[key1(w.space_id@)];
            let t = ws_after.spaces@[key1(w.space_id@)];
            let e = confirmed_journal.events.last();
            &&& r->Ok_0 == w.revision + 1
            &&& v.state is Confirmed
            &&& v.revision == w.revision + 1
            &&& v.subject_digest == w.subject_digest
            &&& t.visibility@ == w.proposed_visibility@
            &&& t.policy_set_ref@ == w.proposed_policy_set_ref@
            &&& t.default_classification_ref@ == w.proposed_default_classification_ref@
            &&& t.revision == s.revision + 1
            &&& t.status == s.status
            &&& t.title == s.title
            &&& t.head_digest == s.head_digest
            &&& t.project_id == s.project_id
            &&& confirmed_journal.events == journal.events.push(e)
            &&& confirmed_journal.audits.len() == journal.audits.len() + 2
            &&& e.kind == EventKind::WideningConfirmed
            &&& e.resource_ref == id
            &&& e.resource_revision == Some(v.revision)
            &&& e.project_id == Some(project)
            &&& e.stream_id == w.space_id@
            &&& e.correlation_ref == meta.request_id@
            &&& before.widenings@.contains_key(key1(other)) ==> confirmed.widenings@[key1(other)]
                == before.widenings@[key1(other)]
            &&& ws.spaces@.contains_key(key1(other_space)) ==> ws_after.spaces@[key1(other_space)]
                == ws.spaces@[key1(other_space)]
        },
        confirmed.policy_changes == before.policy_changes,
        ws_after.projects == ws.projects,
        ws_after.contributions == ws.contributions,
        x is Ok ==> {
            let w = before.widenings@[key1(id)];
            let v = canceled.widenings@[key1(id)];
            &&& x->Ok_0 == w.revision + 1
            &&& v.state is Canceled
            &&& v.revision == w.revision + 1
            &&& v.subject_digest == w.subject_digest
            &&& canceled.policy_changes == before.policy_changes
            &&& before.widenings@.contains_key(key1(other)) ==> canceled.widenings@[key1(other)]
                == before.widenings@[key1(other)]
            &&& announced(
                journal,
                canceled_journal,
                EventKind::WideningCanceled,
                Some(project),
                id,
                Some(v.revision),
                meta,
            )
        },
{
    assert(key1(other).0 == other);
    assert(key1(id).0 == id);
    let space = before.widenings@[key1(id)].space_id@;
    assert(key1(other_space).0 == other_space);
    assert(key1(space).0 == space);
}

/// What is confirmed is held against the items as they are, of every space of
/// the project or of the one space that is widened.
pub proof fn a_decision_is_held_against_the_items<D: Fn(&str, &str, &Json) -> String>(
    before: Changes,
    after: Changes,
    ws: Workspace,
    ws_after: Workspace,
    journal: JournalView,
    after_journal: JournalView,
    project: Seq<char>,
    id: Seq<char>,
    receipt: Seq<char>,
    meta: Meta,
    digest: D,
    r: Result<u64, Problem>,
    widened: Changes,
    ws_widened: Workspace,
    widened_journal: JournalView,
    w: Result<u64, Problem>,
)
    requires
        change_confirm_outcome(
            before,
            after,
            ws,
            ws_after,
            journal,
            after_journal,
            project,
            id,
            receipt,
            meta,
            digest,
            r,
        ),
        widening_outcome(
            before,
            widened,
            ws,
            ws_widened,
            journal,
            widened_journal,
            project,
            id,
            receipt,
            meta,
            digest,
            w,
        ),
    ensures
        r is Ok ==> exists|spaces: Seq<Seq<char>>|
            {
                &&& #[trigger] spaces_of(ws, project, spaces)
                &&& items_digested(
                    ws,
                    spaces,
                    digest,
                    before.policy_changes@[key1(id)].affected_item_set_digest@,
                )
            },
        w is Ok ==> items_digested(
            ws,
            seq![before.widenings@[key1(id)].space_id@],
            digest,
            before.widenings@[key1(id)].affected_item_set_digest@,
        ),
{
}

/// What is gathered of spaces is every row of each of them and no other.
pub proof fn what_is_gathered_is_of_the_spaces<T: InSpace>(
    rows: Seq<T>,
    spaces: Seq<Seq<char>>,
    list: Seq<usize>,
    i: usize,
)
    requires
        gathered(rows, spaces, list),
        i < rows.len(),
    ensures
        list.contains(i) <==> spaces.contains(rows[i as int].space()),
    decreases spaces.len(),
{
    if spaces.len() == 0 {
    } else {
        let n = choose|n: int|
            {
                &&& 0 <= n <= list.len()
                &&& gathered(rows, spaces.drop_last(), #[trigger] list.take(n))
                &&& ordered_listing(
                    rows,
                    keep_in(rows, spaces.last()),
                    rows.len() as int,
                    list.skip(n),
                )
            };
        let a = list.take(n);
        let b = list.skip(n);
        let keep = keep_in(rows, spaces.last());
        what_is_gathered_is_of_the_spaces(rows, spaces.drop_last(), a, i);
        assert(keep[i as int] == (rows[i as int].space() == spaces.last()));
        if a.contains(i) {
            let k = choose|k: int| 0 <= k < a.len() && a[k] == i;
            assert(list[k] == i);
        }
        if b.contains(i) {
            let k = choose|k: int| 0 <= k < b.len() && b[k] == i;
            assert(list[n + k] == i);
            assert(keep[b[k] as int]);
        }
        if list.contains(i) {
            let k = choose|k: int| 0 <= k < list.len() && list[k] == i;
            if k < n {
                assert(a[k] == i);
            } else {
                assert(b[k - n] == i);
            }
        }
        if keep[i as int] {
            assert(b.contains((i as int) as usize));
        }
        let s = spaces.drop_last();
        let x = rows[i as int].space();
        if s.contains(x) {
            let k = choose|k: int| 0 <= k < s.len() && s[k] == x;
            assert(spaces[k] == x);
        }
        if spaces.contains(x) {
            let k = choose|k: int| 0 <= k < spaces.len() && spaces[k] == x;
            if k < s.len() {
                assert(s[k] == x);
            }
        }
        assert(spaces.last() == spaces[spaces.len() - 1]);
    }
}

/// The spaces of a project are all that belong to it and no other.
pub proof fn the_spaces_of_a_project_are_its_own(
    ws: Workspace,
    project: Seq<char>,
    ids: Seq<Seq<char>>,
    i: int,
)
    requires
        ws.wf(),
        spaces_of(ws, project, ids),
        0 <= i < ws.spaces.rows@.len(),
    ensures
        ids.contains(ws.spaces.rows@[i].space_id@) <==> ws.spaces.rows@[i].project_id@ == project,
{
    let rows = ws.spaces.rows@;
    let keep = keep_project(rows, project);
    let list = choose|list: Seq<usize>|
        {
            &&& #[trigger] ordered_listing(rows, keep, rows.len() as int, list)
            &&& ids == Seq::new(list.len(), |j: int| rows[list[j] as int].space_id@)
        };
    assert(i < ws.spaces.rows.len());
    assert(i as usize as int == i);
    assert(keep[i] == (rows[i].project_id@ == project));
    if keep[i] {
        let k = choose|k: int| 0 <= k < list.len() && list[k] == i as usize;
        assert(ids[k] == rows[i].space_id@);
    }
    if ids.contains(rows[i].space_id@) {
        let k = choose|k: int| 0 <= k < ids.len() && ids[k] == rows[i].space_id@;
        let m = list[k] as int;
        assert(keep[list[k] as int]);
        assert(rows[m].space_id@ == rows[i].space_id@);
        assert(rows[m].key() == rows[i].key());
        assert(m == i);
    }
}

/// A change is in one of three states, each with a name of its own.
pub proof fn change_states_have_their_own_names(a: ChangeState, b: ChangeState)
    ensures
        a.name() == b.name() ==> a == b,
        ChangeState::Prepared.name() == "prepared"@,
        ChangeState::Confirmed.name() == "confirmed"@,
        ChangeState::Canceled.name() == "canceled"@,
{
    reveal_strlit("prepared");
    reveal_strlit("confirmed");
    reveal_strlit("canceled");
    assert("prepared"@.len() == 8 && "prepared"@[0] == 'p');
    assert("confirmed"@.len() == 9);
    assert("canceled"@.len() == 8 && "canceled"@[0] == 'c');
}

/// Each space command has an event and a line of audit of its own.
pub proof fn space_commands_are_told_apart(a: SpaceLifecycle, b: SpaceLifecycle)
    ensures
        a.kind() == b.kind() ==> a.audit_name() == b.audit_name(),
        a.kind() == b.kind() ==> (a is Freeze) == (b is Freeze) && (a is Reopen) == (b is Reopen)
            && (a is Archive) == (b is Archive) && (a is Restrict) == (b is Restrict) && (a
            is UpdateMetadata) == (b is UpdateMetadata),
        SpaceLifecycle::Freeze.audit_name() == "command.space_frozen"@,
        SpaceLifecycle::Reopen.audit_name() == "command.space_reopened"@,
        SpaceLifecycle::Archive.audit_name() == "command.space_archived"@,
        SpaceLifecycle::Restrict.audit_name() == "command.space_restricted"@,
{
}

/// A change is audited with its name and its command, and a confirmed one, before
/// that, with the receipt of the decision.
pub proof fn a_decision_is_audited_with_its_receipt(
    before: Changes,
    after: Changes,
    ws: Workspace,
    ws_after: Workspace,
    journal: JournalView,
    after_journal: JournalView,
    project: Seq<char>,
    id: Seq<char>,
    receipt: Seq<char>,
    meta: Meta,
    items: Seq<char>,
    r: Result<u64, Problem>,
    widened: Changes,
    ws_widened: Workspace,
    widened_journal: JournalView,
    w: Result<u64, Problem>,
)
    requires
        papc_confirm_outcome(
            before,
            after,
            ws,
            ws_after,
            journal,
            after_journal,
            project,
            id,
            receipt,
            meta,
            items,
            r,
        ),
        widen_confirm_outcome(
            before,
            widened,
            ws,
            ws_widened,
            journal,
            widened_journal,
            project,
            id,
            receipt,
            meta,
            items,
            w,
        ),
    ensures
        ws_after.participants == ws.participants,
        ws_widened.participants == ws.participants,
        r is Ok ==> {
            let n = journal.audits.len() as int;
            let a = after_journal.audits;
            &&& a.len() == n + 2
            &&& a.take(n) == journal.audits
            &&& a[n].event == "command.project_policy_change_receipt"@
            &&& a[n].detail == "change="@ + id + ";receipt="@ + receipt
            &&& a[n + 1].event == "command.project_policy_change_confirmed"@
            &&& a[n + 1].detail == "change="@ + id + ";"@ + ("idem="@ + meta.idempotency_key@)
        },
        w is Ok ==> {
            let n = journal.audits.len() as int;
            let a = widened_journal.audits;
            &&& a.len() == n + 2
            &&& a.take(n) == journal.audits
            &&& a[n].event == "command.space_access_widening_receipt"@
            &&& a[n].detail == "widening="@ + id + ";receipt="@ + receipt
            &&& a[n + 1].event == "command.space_access_widening_confirmed"@
            &&& a[n + 1].detail == "change="@ + id + ";"@ + ("idem="@ + meta.idempotency_key@)
        },
{
    let n = journal.audits.len() as int;
    if r is Ok {
        assert(after_journal.audits.take(n) =~= journal.audits);
    }
    if w is Ok {
        assert(widened_journal.audits.take(n) =~= journal.audits);
    }
}

} // verus!
