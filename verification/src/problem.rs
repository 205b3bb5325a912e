//! The problem vocabulary that every refusal is phrased in.

use vstd::prelude::*;

use crate::text::{cat2, decimal, decimal_of, opt_view};

verus! {

/// The kinds of problem a reply can carry.
#[derive(Debug, Clone, Copy, PartialEq, Eq, Structural)]
pub enum ProblemKind {
    Invalid,
    NotFound,
    StaleRevision,
    StaleLease,
    Forbidden,
    ForbiddenSurface,
    UnknownOp,
    UnsupportedVersion,
    Internal,
    Unavailable,
    Ambiguous,
    AuthorizationStale,
    BudgetExceeded,
    IdempotencyMismatch,
    SnapshotExpired,
}

/// One refusal: its kind, a fixed title, and what the caller may learn more.
#[derive(Debug)]
pub struct Problem {
    pub kind: ProblemKind,
    pub title: String,
    pub detail: Option<String>,
}

/// The mathematical content of a [`Problem`].
pub struct ProblemView {
    pub kind: ProblemKind,
    pub title: Seq<char>,
    pub detail: Option<Seq<char>>,
}

impl View for Problem {
    type V = ProblemView;

    open spec fn view(&self) -> ProblemView {
        ProblemView { kind: self.kind, title: self.title@, detail: opt_view(self.detail) }
    }
}

/// A refusal with a title alone.
pub open spec fn refusal(kind: ProblemKind, title: Seq<char>) -> ProblemView {
    ProblemView { kind, title, detail: None }
}

/// A refusal with a title and a detail.
pub open spec fn refusal_with(kind: ProblemKind, title: Seq<char>, detail: Seq<char>) -> ProblemView {
    ProblemView { kind, title, detail: Some(detail) }
}

/// The refusal that an error carries.
pub open spec fn refused<T>(r: Result<T, Problem>, p: ProblemView) -> bool {
    match r {
        Ok(_) => false,
        Err(e) => e@ == p,
    }
}

impl Problem {
    pub fn new(kind: ProblemKind, title: &str) -> (r: Problem)
        ensures
            r@ == refusal(kind, title@),
    {
        Problem { kind, title: title.to_owned(), detail: None }
    }

    /// The same problem with its detail set, whatever it was before.
    pub fn with_detail(self, detail: &str) -> (r: Problem)
        ensures
            r@ == (ProblemView { detail: Some(detail@), ..self@ }),
    {
        Problem { kind: self.kind, title: self.title, detail: Some(detail.to_owned()) }
    }
}

/// A problem with both members given.
pub fn problem(kind: ProblemKind, title: &str, detail: &str) -> (r: Problem)
    ensures
        r@ == refusal_with(kind, title@, detail@),
{
    Problem::new(kind, title).with_detail(detail)
}

pub open spec fn internal_view() -> ProblemView {
    refusal(ProblemKind::Internal, "internal fault"@)
}

/// A fault of this process; nothing of it is the caller's to know.
pub fn internal() -> (r: Problem)
    ensures
        r@ == internal_view(),
{
    Problem::new(ProblemKind::Internal, "internal fault")
}

pub open spec fn not_found_view() -> ProblemView {
    refusal(ProblemKind::NotFound, "no visible resource"@)
}

/// The one answer for what is absent and for what is not visible.
pub fn not_found() -> (r: Problem)
    ensures
        r@ == not_found_view(),
{
    Problem::new(ProblemKind::NotFound, "no visible resource")
}

pub open spec fn stale_revision_view(current: u64) -> ProblemView {
    refusal_with(
        ProblemKind::StaleRevision,
        "optimistic revision mismatch"@,
        "current visible revision is "@ + decimal_of(current as nat),
    )
}

/// A compare-and-set against a revision that has moved.
pub fn stale_revision(current: u64) -> (r: Problem)
    ensures
        r@ == stale_revision_view(current),
{
    let n = decimal(current);
    let detail = cat2("current visible revision is ", n.as_str());
    problem(ProblemKind::StaleRevision, "optimistic revision mismatch", detail.as_str())
}

/// Whether an optional expected revision agrees with the current one; an
/// absent expectation always does.
pub open spec fn revision_agrees(expected: Option<u64>, current: u64) -> bool {
    expected is None || expected == Some(current)
}

/// Refuses an expected revision that differs from the current one.
pub fn check_expected_revision(expected: Option<u64>, current: u64) -> (r: Result<(), Problem>)
    ensures
        r is Ok <==> revision_agrees(expected, current),
        r is Err ==> refused(r, stale_revision_view(current)),
{
    match expected {
        Some(e) => if e != current {
            Err(stale_revision(current))
        } else {
            Ok(())
        },
        None => Ok(()),
    }
}

/// A stale revision is told with the current one, and two are told alike only
/// where the current one is the same.
pub proof fn a_stale_revision_tells_the_current_one(a: u64, b: u64)
    ensures
        stale_revision_view(a).kind == ProblemKind::StaleRevision,
        stale_revision_view(a).detail == Some(
            "current visible revision is "@ + decimal_of(a as nat),
        ),
        stale_revision_view(a) == stale_revision_view(b) ==> a == b,
{
    let p = "current visible revision is "@;
    let x = decimal_of(a as nat);
    let y = decimal_of(b as nat);
    if p + x == p + y {
        assert((p + x).skip(p.len() as int) =~= x);
        assert((p + y).skip(p.len() as int) =~= y);
        crate::text::decimals_are_told_apart(a as nat, b as nat);
    }
}

/// A revision that was not expected agrees with every one, an expected one with
/// itself alone.
pub proof fn an_expected_revision_agrees_with_itself(expected: Option<u64>, current: u64)
    ensures
        expected is None ==> revision_agrees(expected, current),
        expected is Some ==> (revision_agrees(expected, current) <==> expected->0 == current),
{
}

/// What is absent and what is at fault are told without a detail, and are not
/// told alike.
pub proof fn a_fault_is_not_an_absence()
    ensures
        not_found_view().kind == ProblemKind::NotFound,
        internal_view().kind == ProblemKind::Internal,
        not_found_view().detail is None,
        internal_view().detail is None,
        not_found_view() != internal_view(),
{
}

} // verus!
