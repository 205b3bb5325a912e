//! Reads in pages. A page belongs to a snapshot: further pages see the same
//! boundary, and a cursor of another one is refused. Lenses are presentation
//! only.

use vstd::prelude::*;

use crate::disposition_ops::Relation;
use crate::handlers::{events_readable, events_source};
use crate::invoke::{Assembly, Contexts, Frontier};
use crate::lifecycle_ops::{in_space, resolve_space_object};
use crate::listing::{order, ordered_listing, Listed};
use crate::problem::{not_found, not_found_view, problem, refusal, refusal_with, Problem,
    ProblemKind, ProblemView};
use crate::records::{dense, visible, visible_space, Contribution, Space, Workspace};
use crate::table::{key1, Key, Row, Table};
use crate::text::{before, cat2, chars_before, chars_of, decimal, decimal_of, number_of, opt_view,
    parse_number, same};

use vstd::string::*;

verus! {

// ----------------------------------------------------------- pagination ----

/// A place in a listing: the source it lists, the boundary of the snapshot,
/// and, in a cursor, the key behind which the listing goes on.
#[derive(Debug)]
pub struct Token {
    pub source: String,
    pub seq: u64,
    pub boundary: Option<u64>,
    pub key: Option<String>,
}

/// Whether a token opens a snapshot of a source at its current boundary.
pub open spec fn fresh_snapshot(t: Token, source: Seq<char>, seq: u64, boundary: u64) -> bool {
    &&& t.source@ == source
    &&& t.seq == seq
    &&& t.boundary == Some(boundary)
    &&& t.key is None
}

/// What opening a snapshot answers.
pub open spec fn snapshot_outcome(
    source: Seq<char>,
    current_domain_seq: u64,
    current_event_seq: u64,
    presented: Option<Result<Token, Problem>>,
    r: Result<Token, Problem>,
) -> bool {
    &&& match presented {
        None => r is Ok && fresh_snapshot(
            r->Ok_0,
            source,
            current_domain_seq,
            current_event_seq,
        ),
        Some(Err(p)) => r == Err::<Token, Problem>(p),
        Some(Ok(t)) => if t.boundary is None {
            r is Err && r->Err_0@ == refusal(
                ProblemKind::SnapshotExpired,
                "not a snapshot token for this query"@,
            )
        } else {
            r == Ok::<Token, Problem>(t)
        },
    }
}

/// Opens the snapshot of a listing, or goes on with the one that the caller
/// presents. `presented` is what reading the caller's token came to.
pub fn open_snapshot(
    source: &str,
    current_domain_seq: u64,
    current_event_seq: u64,
    presented: Option<Result<Token, Problem>>,
) -> (r: Result<Token, Problem>)
    ensures
        snapshot_outcome(
            source@,
            current_domain_seq,
            current_event_seq,
            presented,
            r,
        ),
{
    match presented {
        None => Ok(
            Token {
                source: source.to_owned(),
                seq: current_domain_seq,
                boundary: Some(current_event_seq),
                key: None,
            },
        ),
        Some(Err(p)) => Err(p),
        Some(Ok(t)) => if t.boundary.is_none() {
            Err(
                Problem::new(ProblemKind::SnapshotExpired, "not a snapshot token for this query"),
            )
        } else {
            Ok(t)
        },
    }
}

/// Why a cursor does not go on with a snapshot.
pub open spec fn cursor_refusal(snap: Token, t: Token) -> Option<ProblemView> {
    if t.seq != snap.seq || t.boundary != snap.boundary {
        Some(
            refusal(
                ProblemKind::SnapshotExpired,
                "cursor belongs to a different snapshot boundary"@,
            ),
        )
    } else {
        None
    }
}

/// What a presented cursor comes to.
pub open spec fn after_key_outcome(
    snap: Token,
    presented: Option<Result<Token, Problem>>,
    r: Result< Option<String>, Problem, >,
) -> bool {
    &&& match presented {
        None => r == Ok::<Option<String>, Problem>(None),
        Some(Err(p)) => r == Err::<Option<String>, Problem>(p),
        Some(Ok(t)) => match cursor_refusal(snap, t) {
            Some(p) => r is Err && r->Err_0@ == p,
            None => r == Ok::<Option<String>, Problem>(t.key),
        },
    }
}

/// The key behind which a listing goes on. A cursor of another boundary is
/// refused.
pub fn after_key(snap: &Token, presented: Option<Result<Token, Problem>>) -> (r: Result<
    Option<String>,
    Problem,
>)
    ensures
        after_key_outcome(
            *snap,
            presented,
            r,
        ),
{
    match presented {
        None => Ok(None),
        Some(Err(p)) => Err(p),
        Some(Ok(t)) => if t.seq != snap.seq || t.boundary != snap.boundary {
            Err(
                Problem::new(
                    ProblemKind::SnapshotExpired,
                    "cursor belongs to a different snapshot boundary",
                ),
            )
        } else {
            Ok(t.key)
        },
    }
}

/// The tokens of a page: the snapshot, the cursor of the next page where there
/// is one, and the event sequence of the boundary.
#[derive(Debug)]
pub struct PageTokens {
    pub snapshot: Token,
    pub next: Option<Token>,
    pub boundary_event_seq: u64,
}

/// Whether a token is one of a snapshot, with a key.
pub open spec fn token_of(t: Token, snap: Token, key: Option<Seq<char>>) -> bool {
    &&& t.source@ == snap.source@
    &&& t.seq == snap.seq
    &&& t.boundary == snap.boundary
    &&& opt_view(t.key) == key
}

pub open spec fn page_tokens_of(
    p: PageTokens,
    snap: Token,
    last_key: Option<Seq<char>>,
    has_more: bool,
) -> bool {
    &&& token_of(p.snapshot, snap, None)
    &&& match p.next {
        Some(t) => has_more && token_of(t, snap, last_key),
        None => !has_more,
    }
    &&& p.boundary_event_seq == match snap.boundary {
        Some(b) => b,
        None => 0,
    }
}

/// Makes the tokens of a page.
pub fn page_tokens(snap: &Token, last_key: Option<String>, has_more: bool) -> (r: PageTokens)
    ensures
        page_tokens_of(r, *snap, opt_view(last_key), has_more),
{
    let snapshot = Token {
        source: snap.source.clone(),
        seq: snap.seq,
        boundary: snap.boundary,
        key: None,
    };
    let next = if has_more {
        Some(
            Token {
                source: snap.source.clone(),
                seq: snap.seq,
                boundary: snap.boundary,
                key: last_key,
            },
        )
    } else {
        None
    };
    let boundary_event_seq: u64 = match snap.boundary {
        Some(b) => b,
        None => 0,
    };
    PageTokens { snapshot, next, boundary_event_seq }
}

/// A cursor that a page hands out goes on with the page's snapshot, at the
/// page's last key.
pub proof fn a_cursor_goes_on(snap: Token, p: PageTokens, last_key: Option<Seq<char>>)
    requires
        page_tokens_of(p, snap, last_key, true),
    ensures
        p.next is Some,
        cursor_refusal(p.snapshot, p.next->0) is None,
        opt_view(p.next->0.key) == last_key,
{
}

/// A page: the positions of its rows in order, and its tokens.
#[derive(Debug)]
pub struct Page {
    pub items: Vec<usize>,
    pub tokens: PageTokens,
}

/// The first rows of a listing, at most `limit`.
pub open spec fn first_rows(list: Seq<usize>, limit: nat) -> Seq<usize> {
    if list.len() <= limit {
        list
    } else {
        list.take(limit as int)
    }
}

/// Cuts a listing off behind its first `limit` rows. The answer says whether
/// there was more.
fn cut(list: Vec<usize>, limit: u64) -> (r: (Vec<usize>, bool))
    ensures
        r.0@ == first_rows(list@, limit as nat),
        r.1 == (list@.len() > limit),
{
    let mut list = list;
    if list.len() as u64 > limit {
        list.truncate(limit as usize);
        (list, true)
    } else {
        (list, false)
    }
}

// ----------------------------------------------------------- space_list ----

/// Which spaces a page lists: those of the project that were there at the
/// boundary, behind the key.
pub open spec fn keep_spaces(
    rows: Seq<Space>,
    project: Seq<char>,
    upto: u64,
    after: Option<Seq<char>>,
) -> Seq<bool> {
    Seq::new(
        rows.len(),
        |i: int|
            rows[i].project_id@ == project && i + 1 <= upto && (after is None || before(
                after->0,
                rows[i].space_id@,
            )),
    )
}

/// The boundary of a project's spaces: the place of the last one.
pub open spec fn spaces_boundary(rows: Seq<Space>, project: Seq<char>) -> nat
    decreases rows.len(),
{
    if rows.len() == 0 {
        0
    } else if rows.last().project_id@ == project {
        rows.len()
    } else {
        spaces_boundary(rows.drop_last(), project)
    }
}

fn boundary_of_spaces(rows: &Vec<Space>, project_id: &str) -> (r: u64)
    ensures
        r == spaces_boundary(rows@, project_id@),
{
    let mut n: usize = rows.len();
    proof {
        assert(rows@.take(n as int) =~= rows@);
    }
    while n > 0
        invariant
            n <= rows.len(),
            spaces_boundary(rows@, project_id@) == spaces_boundary(
                rows@.take(n as int),
                project_id@,
            ),
        decreases n,
    {
        proof {
            assert(rows@.take(n as int).drop_last() =~= rows@.take(n - 1));
            assert(rows@.take(n as int).last() == rows@[n - 1]);
        }
        if same(rows[n - 1].project_id.as_str(), project_id) {
            return n as u64;
        }
        n = n - 1;
    }
    0
}

fn kept_spaces(rows: &Vec<Space>, project_id: &str, upto: u64, after: &Option<String>) -> (keep: Vec<
    bool,
>)
    ensures
        keep@ == keep_spaces(rows@, project_id@, upto, opt_view(*after)),
{
    let mut keep: Vec<bool> = Vec::new();
    let mut i: usize = 0;
    while i < rows.len()
        invariant
            i <= rows.len(),
            keep.len() == i,
            forall|j: int|
                0 <= j < i ==> #[trigger] keep@[j] == keep_spaces(
                    rows@,
                    project_id@,
                    upto,
                    opt_view(*after),
                )[j],
        decreases rows.len() - i,
    {
        let behind = match after {
            None => true,
            Some(k) => {
                let a = chars_of(k.as_str());
                let b = chars_of(rows[i].space_id.as_str());
                chars_before(&a, &b)
            },
        };
        keep.push(
            same(rows[i].project_id.as_str(), project_id) && (i as u64) < upto && behind,
        );
        i = i + 1;
    }
    assert(keep@ =~= keep_spaces(rows@, project_id@, upto, opt_view(*after)));
    keep
}

/// What a page of a project's spaces holds.
pub open spec fn spaces_page(
    page: Page,
    ws: Workspace,
    project: Seq<char>,
    limit: u64,
    snap: Token,
    after: Option<Seq<char>>,
) -> bool {
    exists|list: Seq<usize>|
        {
            &&& #[trigger] ordered_listing(
                ws.spaces.rows@,
                keep_spaces(ws.spaces.rows@, project, snap.seq, after),
                ws.spaces.rows@.len() as int,
                list,
            )
            &&& page.items@ == first_rows(list, limit as nat)
            &&& page_tokens_of(
                page.tokens,
                snap,
                if page.items@.len() == 0 {
                    None
                } else {
                    Some(ws.spaces.rows@[page.items@.last() as int].space_id@)
                },
                list.len() > limit,
            )
        }
}

/// What listing the spaces of a project answers.
pub open spec fn space_list_outcome(
    ws: Workspace,
    project_id: Seq<char>,
    limit: u64,
    current_event_seq: u64,
    snapshot: Option<Result<Token, Problem>>,
    after: Option<Result<Token, Problem>>,
    r: Result<Page, Problem>,
) -> bool {
    &&& ({
        let source = "list:spaces:"@ + project_id;
        let seq = spaces_boundary(ws.spaces.rows@, project_id) as u64;
        if !ws.projects@.contains_key(key1(project_id)) {
            r is Err && r->Err_0@ == not_found_view()
        } else {
            match page_refusal(seq, current_event_seq, snapshot, after) {
                Some(p) => r is Err && r->Err_0@ == p,
                None => r is Ok && exists|snap: Token|
                    {
                        &&& #[trigger] snapshot_is(
                            snap,
                            source,
                            seq,
                            current_event_seq,
                            snapshot,
                        )
                        &&& spaces_page(
                            r->Ok_0,
                            ws,
                            project_id,
                            limit,
                            snap,
                            presented_key(after),
                        )
                    },
            }
        }
    })
}

/// Lists the spaces of a project by their identifiers.
pub fn space_list(
    ws: &Workspace,
    project_id: &str,
    limit: u64,
    current_event_seq: u64,
    snapshot: Option<Result<Token, Problem>>,
    after: Option<Result<Token, Problem>>,
) -> (r: Result<Page, Problem>)
    requires
        ws.wf(),
    ensures
        space_list_outcome(
            *ws,
            project_id@,
            limit,
            current_event_seq,
            snapshot,
            after,
            r,
        ),
{
    proof {
        reveal_strlit("");
        crate::text::empty_is(""@);
    }
    if ws.projects.position(project_id, "").is_none() {
        return Err(not_found());
    }
    let source = cat2("list:spaces:", project_id);
    let max = boundary_of_spaces(&ws.spaces.rows, project_id);
    let snap = open_snapshot(source.as_str(), max, current_event_seq, snapshot)?;
    let key = after_key(&snap, after)?;
    let keep = kept_spaces(&ws.spaces.rows, project_id, snap.seq, &key);
    let all = order(&ws.spaces.rows, &keep);
    let ghost list = all@;
    let (items, has_more) = cut(all, limit);
    let last_key = if items.len() > 0 {
        Some(ws.spaces.rows[items[items.len() - 1]].space_id.clone())
    } else {
        None
    };
    let tokens = page_tokens(&snap, last_key, has_more);
    let page = Page { items, tokens };
    proof {
        assert(snapshot_is(snap, source@, max, current_event_seq, snapshot));
        assert(opt_view(key) == presented_key(after));
        assert(ordered_listing(
            ws.spaces.rows@,
            keep_spaces(ws.spaces.rows@, project_id@, snap.seq, opt_view(key)),
            ws.spaces.rows@.len() as int,
            list,
        ));
        assert(spaces_page(page, *ws, project_id@, limit, snap, presented_key(after)));
    }
    Ok(page)
}

/// Whether a token is the snapshot that a listing runs under.
pub open spec fn snapshot_is(
    t: Token,
    source: Seq<char>,
    seq: u64,
    boundary: u64,
    presented: Option<Result<Token, Problem>>,
) -> bool {
    match presented {
        None => fresh_snapshot(t, source, seq, boundary),
        Some(Ok(p)) => t == p && p.boundary is Some,
        Some(Err(_)) => false,
    }
}

/// The key that a presented cursor carries.
pub open spec fn presented_key(after: Option<Result<Token, Problem>>) -> Option<Seq<char>> {
    match after {
        Some(Ok(t)) => opt_view(t.key),
        _ => None,
    }
}

/// Why a listing does not open: the snapshot or the cursor that is presented
/// was not read, the snapshot is none, or the cursor is of another boundary.
pub open spec fn page_refusal(
    seq: u64,
    boundary: u64,
    snapshot: Option<Result<Token, Problem>>,
    after: Option<Result<Token, Problem>>,
) -> Option<ProblemView> {
    match snapshot {
        Some(Err(p)) => Some(p@),
        Some(Ok(s)) => if s.boundary is None {
            Some(
                refusal(ProblemKind::SnapshotExpired, "not a snapshot token for this query"@),
            )
        } else {
            presented_refusal(s.seq, s.boundary, after)
        },
        None => presented_refusal(seq, Some(boundary), after),
    }
}

pub open spec fn presented_refusal(
    seq: u64,
    boundary: Option<u64>,
    after: Option<Result<Token, Problem>>,
) -> Option<ProblemView> {
    match after {
        None => None,
        Some(Err(p)) => Some(p@),
        Some(Ok(t)) => if t.seq != seq || t.boundary != boundary {
            Some(
                refusal(
                    ProblemKind::SnapshotExpired,
                    "cursor belongs to a different snapshot boundary"@,
                ),
            )
        } else {
            None
        },
    }
}

// ---------------------------------------------------- contribution_list ----

/// Which contributions a page lists: those of the space, and of the branch and
/// kind where one is asked for, numbered behind the key and not behind the
/// boundary.
pub open spec fn keep_contributions(
    rows: Seq<Contribution>,
    space: Seq<char>,
    branch: Option<Seq<char>>,
    kind: Option<Seq<char>>,
    after: u64,
    upto: u64,
) -> Seq<bool> {
    Seq::new(
        rows.len(),
        |i: int|
            {
                &&& rows[i].space_id@ == space
                &&& branch is None || rows[i].origin_branch_id@ == branch->0
                &&& kind is None || rows[i].kind@ == kind->0
                &&& after < rows[i].space_sequence <= upto
            },
    )
}

fn kept_contributions(
    rows: &Vec<Contribution>,
    space_id: &str,
    branch_id: &Option<String>,
    kind: &Option<String>,
    after: u64,
    upto: u64,
) -> (keep: Vec<bool>)
    ensures
        keep@ == keep_contributions(
            rows@,
            space_id@,
            opt_view(*branch_id),
            opt_view(*kind),
            after,
            upto,
        ),
{
    let mut keep: Vec<bool> = Vec::new();
    let mut i: usize = 0;
    while i < rows.len()
        invariant
            i <= rows.len(),
            keep.len() == i,
            forall|j: int|
                0 <= j < i ==> #[trigger] keep@[j] == keep_contributions(
                    rows@,
                    space_id@,
                    opt_view(*branch_id),
                    opt_view(*kind),
                    after,
                    upto,
                )[j],
        decreases rows.len() - i,
    {
        let on_branch = match branch_id {
            None => true,
            Some(b) => same(rows[i].origin_branch_id.as_str(), b.as_str()),
        };
        let of_kind = match kind {
            None => true,
            Some(k) => same(rows[i].kind.as_str(), k.as_str()),
        };
        keep.push(
            same(rows[i].space_id.as_str(), space_id) && on_branch && of_kind && after
                < rows[i].space_sequence && rows[i].space_sequence <= upto,
        );
        i = i + 1;
    }
    assert(keep@ =~= keep_contributions(
        rows@,
        space_id@,
        opt_view(*branch_id),
        opt_view(*kind),
        after,
        upto,
    ));
    keep
}

/// The number that a key names, and zero for none.
pub open spec fn key_sequence(key: Option<Seq<char>>) -> Option<u64> {
    match key {
        None => Some(0),
        Some(k) => number_of(k),
    }
}

pub open spec fn bad_cursor() -> ProblemView {
    refusal_with(ProblemKind::Invalid, "invalid cursor"@, "cursor position is not a sequence"@)
}

fn after_sequence(key: &Option<String>) -> (r: Result<u64, Problem>)
    ensures
        match key_sequence(opt_view(*key)) {
            Some(n) => r == Ok::<u64, Problem>(n),
            None => r is Err && r->Err_0@ == bad_cursor(),
        },
{
    match key {
        None => Ok(0),
        Some(k) => match parse_number(k.as_str()) {
            Some(n) => Ok(n),
            None => Err(
                problem(
                    ProblemKind::Invalid,
                    "invalid cursor",
                    "cursor position is not a sequence",
                ),
            ),
        },
    }
}

/// Why a listing by number does not open.
pub open spec fn sequence_refusal(
    seq: u64,
    boundary: u64,
    snapshot: Option<Result<Token, Problem>>,
    after: Option<Result<Token, Problem>>,
) -> Option<ProblemView> {
    match page_refusal(seq, boundary, snapshot, after) {
        Some(p) => Some(p),
        None => if key_sequence(presented_key(after)) is None {
            Some(bad_cursor())
        } else {
            None
        },
    }
}

/// The key of the last row of a page, if it has one.
pub open spec fn last_number(rows: Seq<Contribution>, items: Seq<usize>) -> Option<Seq<char>> {
    if items.len() == 0 {
        None
    } else {
        Some(decimal_of(rows[items.last() as int].space_sequence as nat))
    }
}

fn last_key_of(rows: &Vec<Contribution>, items: &Vec<usize>) -> (r: Option<String>)
    requires
        forall|i: int| 0 <= i < items@.len() ==> (#[trigger] items@[i]) < rows@.len(),
    ensures
        opt_view(r) == last_number(rows@, items@),
{
    if items.len() == 0 {
        None
    } else {
        let at: usize = items[items.len() - 1];
        Some(decimal(rows[at].space_sequence))
    }
}

/// How many rows of a page are of a classification.
pub open spec fn count_classified(
    rows: Seq<Contribution>,
    items: Seq<usize>,
    classification: Seq<char>,
) -> nat
    decreases items.len(),
{
    if items.len() == 0 {
        0
    } else {
        count_classified(rows, items.drop_last(), classification) + if rows[items.last() as int].classification_ref@
            == classification {
            1nat
        } else {
            0nat
        }
    }
}

fn count_sensitive(rows: &Vec<Contribution>, items: &Vec<usize>, classification: &str) -> (r: usize)
    requires
        forall|i: int| 0 <= i < items@.len() ==> (#[trigger] items@[i]) < rows@.len(),
    ensures
        r == count_classified(rows@, items@, classification@),
{
    let mut n: usize = 0;
    let mut i: usize = 0;
    proof {
        assert(items@.take(0).len() == 0);
    }
    while i < items.len()
        invariant
            i <= items.len(),
            n <= i,
            forall|j: int| 0 <= j < items@.len() ==> (#[trigger] items@[j]) < rows@.len(),
            n == count_classified(rows@, items@.take(i as int), classification@),
        decreases items.len() - i,
    {
        proof {
            assert(items@.take(i + 1).drop_last() =~= items@.take(i as int));
            assert(items@.take(i + 1).last() == items@[i as int]);
        }
        let at: usize = items[i];
        if same(rows[at].classification_ref.as_str(), classification) {
            n = n + 1;
        }
        i = i + 1;
    }
    proof {
        assert(items@.take(i as int) =~= items@);
    }
    n
}

#[derive(Debug)]
pub struct ContributionListArgs {
    pub space_id: String,
    pub branch_id: Option<String>,
    pub kind: Option<String>,
    pub limit: u64,
}

/// A page of contributions. Where any of them is sensitive, the access is
/// recorded before the page is handed out.
#[derive(Debug)]
pub struct ContributionPage {
    pub items: Vec<usize>,
    pub sensitive: usize,
    pub tokens: PageTokens,
}

/// What a page of contributions holds.
pub open spec fn contributions_page(
    page: ContributionPage,
    ws: Workspace,
    args: ContributionListArgs,
    snap: Token,
    after: u64,
    classification: Seq<char>,
) -> bool {
    let rows = ws.contributions.rows@;
    exists|list: Seq<usize>|
        {
            &&& #[trigger] ordered_listing(
                rows,
                keep_contributions(
                    rows,
                    args.space_id@,
                    opt_view(args.branch_id),
                    opt_view(args.kind),
                    after,
                    snap.seq,
                ),
                rows.len() as int,
                list,
            )
            &&& page.items@ == first_rows(list, args.limit as nat)
            &&& page.sensitive == count_classified(rows, page.items@, classification)
            &&& page_tokens_of(
                page.tokens,
                snap,
                last_number(rows, page.items@),
                list.len() > args.limit,
            )
        }
}

/// Why contributions are not listed, before the listing opens.
pub open spec fn contributions_hidden(ws: Workspace, project: Seq<char>, args: ContributionListArgs) -> bool {
    ||| !visible(ws.spaces, project, args.space_id@)
    ||| (args.branch_id is Some && args.branch_id->0@ != ws.spaces@[key1(
        args.space_id@,
    )].main_branch_id@)
}

/// What listing contributions answers.
pub open spec fn contribution_list_outcome(
    ws: Workspace,
    project_id: Seq<char>,
    args: ContributionListArgs,
    current_event_seq: u64,
    snapshot: Option<Result<Token, Problem>>,
    after: Option<Result<Token, Problem>>,
    sensitive_classification: Seq<char>,
    r: Result<ContributionPage, Problem>,
) -> bool {
    &&& ({
        let s = ws.spaces@[key1(args.space_id@)];
        let source = "list:contributions:"@ + args.space_id@;
        let seq = (s.next_space_sequence - 1) as u64;
        if contributions_hidden(ws, project_id, args) {
            r is Err && r->Err_0@ == not_found_view()
        } else {
            match sequence_refusal(seq, current_event_seq, snapshot, after) {
                Some(p) => r is Err && r->Err_0@ == p,
                None => r is Ok && exists|snap: Token|
                    {
                        &&& #[trigger] snapshot_is(
                            snap,
                            source,
                            seq,
                            current_event_seq,
                            snapshot,
                        )
                        &&& contributions_page(
                            r->Ok_0,
                            ws,
                            args,
                            snap,
                            key_sequence(presented_key(after))->0,
                            sensitive_classification,
                        )
                    },
            }
        }
    })
}

/// Lists the contributions of a space in the order of their numbers.
pub fn contribution_list(
    ws: &Workspace,
    project_id: &str,
    args: &ContributionListArgs,
    current_event_seq: u64,
    snapshot: Option<Result<Token, Problem>>,
    after: Option<Result<Token, Problem>>,
    sensitive_classification: &str,
) -> (r: Result<ContributionPage, Problem>)
    requires
        ws.wf(),
        ws.spaces@.contains_key(key1(args.space_id@)) ==> ws.spaces@[key1(
            args.space_id@,
        )].next_space_sequence >= 1,
    ensures
        contribution_list_outcome(
            *ws,
            project_id@,
            *args,
            current_event_seq,
            snapshot,
            after,
            sensitive_classification@,
            r,
        ),
{
    let i = visible_space(&ws.spaces, project_id, args.space_id.as_str())?;
    if let Some(b) = &args.branch_id {
        if !same(b.as_str(), ws.spaces.rows[i].main_branch_id.as_str()) {
            return Err(not_found());
        }
    }
    let source = cat2("list:contributions:", args.space_id.as_str());
    let seq: u64 = ws.spaces.rows[i].next_space_sequence - 1;
    let snap = open_snapshot(source.as_str(), seq, current_event_seq, snapshot)?;
    let key = after_key(&snap, after)?;
    let from = after_sequence(&key)?;
    let keep = kept_contributions(
        &ws.contributions.rows,
        args.space_id.as_str(),
        &args.branch_id,
        &args.kind,
        from,
        snap.seq,
    );
    let all = order(&ws.contributions.rows, &keep);
    let ghost list = all@;
    let (items, has_more) = cut(all, args.limit);
    let sensitive = count_sensitive(&ws.contributions.rows, &items, sensitive_classification);
    let last_key = last_key_of(&ws.contributions.rows, &items);
    let tokens = page_tokens(&snap, last_key, has_more);
    let page = ContributionPage { items, sensitive, tokens };
    proof {
        assert(snapshot_is(snap, source@, seq, current_event_seq, snapshot));
        assert(opt_view(key) == presented_key(after));
        let rows = ws.contributions.rows@;
        assert(ordered_listing(
            rows,
            keep_contributions(
                rows,
                args.space_id@,
                opt_view(args.branch_id),
                opt_view(args.kind),
                from,
                snap.seq,
            ),
            rows.len() as int,
            list,
        ));
        assert(contributions_page(page, *ws, *args, snap, from, sensitive_classification@));
    }
    Ok(page)
}

/// The next page goes on where a page ended: behind the last row of a page come
/// exactly the rows that it did not hold.
pub proof fn the_next_page_goes_on(
    rows: Seq<Contribution>,
    keep: Seq<bool>,
    list: Seq<usize>,
    limit: nat,
    i: int,
)
    requires
        keep.len() == rows.len(),
        ordered_listing(rows, keep, rows.len() as int, list),
        0 < limit < list.len(),
        rows.len() <= usize::MAX,
        0 <= i < rows.len(),
        keep[i],
        forall|a: int, b: int|
            0 <= a < b < rows.len() && keep[a] && keep[b] ==> (
            #[trigger] rows[a]).space_sequence != (#[trigger] rows[b]).space_sequence,
    ensures
        rows[list[limit - 1] as int].space_sequence < rows[i].space_sequence <==> !first_rows(
            list,
            limit,
        ).contains(i as usize),
{
    let page = first_rows(list, limit);
    let last = list[limit - 1] as int;
    assert(list.contains(i as usize));
    let a = choose|a: int| 0 <= a < list.len() && list[a] == i as usize;
    assert(rows[list[a] as int] == rows[i]);
    if a < limit {
        assert(page[a] == i as usize);
        if a < limit - 1 {
            assert(rows[list[a] as int].precedes(&rows[last]) || !rows[last].precedes(
                &rows[list[a] as int],
            ));
        }
    } else {
        assert(rows[last].precedes(&rows[list[a] as int]) || (!rows[list[a] as int].precedes(
            &rows[last],
        ) && list[limit - 1] < list[a]));
        assert(keep[last]);
        if page.contains(i as usize) {
            let b = choose|b: int| 0 <= b < page.len() && page[b] == i as usize;
            assert(list[b] == list[a]);
            assert(rows[list[b] as int].precedes(&rows[list[a] as int]) || (
            !rows[list[a] as int].precedes(&rows[list[b] as int]) && list[b] < list[a]));
        }
    }
}

// ------------------------------------------------------------ lens_read ----

#[derive(Debug, Clone, Copy, PartialEq, Eq, Structural)]
pub enum LensKind {
    Stream,
    Workbench,
    Other,
}

/// A way of presenting a space.
#[derive(Debug)]
pub struct Lens {
    pub lens_id: String,
    pub space_id: String,
    pub kind: LensKind,
}

impl Row for Lens {
    open spec fn key(&self) -> Key {
        key1(self.lens_id@)
    }

    fn has_key(&self, a: &str, b: &str) -> (r: bool) {
        proof {
            crate::text::empty_is(b@);
        }
        same(self.lens_id.as_str(), a) && b.is_empty()
    }
}

/// One contribution as a lens presents it; a card comes with the relations
/// that go out from it and into it.
#[derive(Debug)]
pub struct LensItem {
    pub contribution: usize,
    pub relations_out: Vec<usize>,
    pub relations_in: Vec<usize>,
}

#[derive(Debug)]
pub struct LensPage {
    pub items: Vec<LensItem>,
    pub sensitive: usize,
    pub tokens: PageTokens,
}

/// The cards among some rows: every kind but plain utterances.
pub open spec fn cards(rows: Seq<Contribution>, list: Seq<usize>) -> Seq<usize>
    decreases list.len(),
{
    if list.len() == 0 {
        list
    } else if rows[list.last() as int].kind@ != "utterance"@ {
        cards(rows, list.drop_last()).push(list.last())
    } else {
        cards(rows, list.drop_last())
    }
}

fn only_cards(rows: &Vec<Contribution>, list: &Vec<usize>) -> (out: Vec<usize>)
    requires
        forall|i: int| 0 <= i < list@.len() ==> (#[trigger] list@[i]) < rows@.len(),
    ensures
        out@ == cards(rows@, list@),
        forall|i: int| 0 <= i < out@.len() ==> (#[trigger] out@[i]) < rows@.len(),
{
    let mut out: Vec<usize> = Vec::new();
    let mut i: usize = 0;
    proof {
        assert(list@.take(0).len() == 0);
        assert(out@ =~= cards(rows@, list@.take(0)));
    }
    while i < list.len()
        invariant
            i <= list.len(),
            forall|j: int| 0 <= j < list@.len() ==> (#[trigger] list@[j]) < rows@.len(),
            forall|j: int| 0 <= j < out@.len() ==> (#[trigger] out@[j]) < rows@.len(),
            out@ == cards(rows@, list@.take(i as int)),
        decreases list.len() - i,
    {
        proof {
            assert(list@.take(i + 1).drop_last() =~= list@.take(i as int));
            assert(list@.take(i + 1).last() == list@[i as int]);
        }
        let at: usize = list[i];
        if !same(rows[at].kind.as_str(), "utterance") {
            out.push(at);
        }
        i = i + 1;
    }
    proof {
        assert(list@.take(i as int) =~= list@);
    }
    out
}

/// Whether a list holds the places of the relations of a space that go out
/// from an object, or into it, in table order.
pub open spec fn relations_at(
    list: Seq<usize>,
    rows: Seq<Relation>,
    space: Seq<char>,
    object: Seq<char>,
    out: bool,
) -> bool {
    list == related(rows, rows.len(), space, object, out)
}

/// Whether a relation of a space goes out from an object, or into it.
pub open spec fn relates(r: Relation, space: Seq<char>, object: Seq<char>, out: bool) -> bool {
    r.space_id@ == space && if out {
        r.from_ref.object_ref@ == object
    } else {
        r.to_ref.object_ref@ == object
    }
}

/// The places of the relations among the first `n` that relate to an object.
pub open spec fn related(
    rows: Seq<Relation>,
    n: nat,
    space: Seq<char>,
    object: Seq<char>,
    out: bool,
) -> Seq<usize>
    decreases n,
{
    if n == 0 {
        Seq::empty()
    } else if relates(rows[n - 1], space, object, out) {
        related(rows, (n - 1) as nat, space, object, out).push((n - 1) as usize)
    } else {
        related(rows, (n - 1) as nat, space, object, out)
    }
}

fn find_relations(rows: &Vec<Relation>, space_id: &str, object: &str, out: bool) -> (list: Vec<usize>)
    ensures
        relations_at(list@, rows@, space_id@, object@, out),
{
    let mut list: Vec<usize> = Vec::new();
    let mut i: usize = 0;
    while i < rows.len()
        invariant
            i <= rows.len(),
            list@ == related(rows@, i as nat, space_id@, object@, out),
        decreases rows.len() - i,
    {
        let end = if out {
            rows[i].from_ref.object_ref.as_str()
        } else {
            rows[i].to_ref.object_ref.as_str()
        };
        if same(rows[i].space_id.as_str(), space_id) && same(end, object) {
            list.push(i);
        }
        i = i + 1;
    }
    list
}

/// Whether an item presents a contribution through a lens of a kind.
pub open spec fn presents(
    item: LensItem,
    at: usize,
    kind: LensKind,
    rows: Seq<Contribution>,
    relations: Seq<Relation>,
    space: Seq<char>,
) -> bool {
    &&& item.contribution == at
    &&& if kind is Workbench {
        &&& relations_at(
            item.relations_out@,
            relations,
            space,
            rows[at as int].contribution_id@,
            true,
        )
        &&& relations_at(
            item.relations_in@,
            relations,
            space,
            rows[at as int].contribution_id@,
            false,
        )
    } else {
        item.relations_out@.len() == 0 && item.relations_in@.len() == 0
    }
}

/// The rows that a page goes through: a stream's the first of them; a
/// workbench's one more, unless these are cards throughout and one is left for
/// the next page.
pub open spec fn rows_read(
    kind: LensKind,
    rows: Seq<Contribution>,
    list: Seq<usize>,
    limit: u64,
) -> Seq<usize> {
    let more = first_rows(list, limit as nat + 1);
    if kind is Workbench && cards(rows, more).len() <= limit {
        more
    } else {
        first_rows(list, limit as nat)
    }
}

/// What a lens shows of some rows: a stream all of them, a workbench the cards.
pub open spec fn lensed(kind: LensKind, rows: Seq<Contribution>, list: Seq<usize>) -> Seq<usize> {
    if kind is Workbench {
        cards(rows, list)
    } else {
        list
    }
}

/// What a page of a lens shows of the contributions behind the key.
pub open spec fn lens_rows(
    kind: LensKind,
    rows: Seq<Contribution>,
    list: Seq<usize>,
    limit: u64,
) -> Seq<usize> {
    lensed(kind, rows, rows_read(kind, rows, list, limit))
}

/// What a page of a lens holds. Where there is more, the next page goes on
/// behind the last row that this one went through, shown or not.
pub open spec fn lens_page(
    page: LensPage,
    ws: Workspace,
    relations: Seq<Relation>,
    lens: Lens,
    limit: u64,
    snap: Token,
    after: u64,
    classification: Seq<char>,
) -> bool {
    let rows = ws.contributions.rows@;
    exists|list: Seq<usize>|
        {
            let shown = lens_rows(lens.kind, rows, list, limit);
            &&& #[trigger] ordered_listing(
                rows,
                keep_contributions(rows, lens.space_id@, None, None, after, snap.seq),
                rows.len() as int,
                list,
            )
            &&& page.items@.len() == shown.len()
            &&& page.items@.len() <= limit
            &&& forall|i: int|
                0 <= i < shown.len() ==> presents(
                    #[trigger] page.items@[i],
                    shown[i],
                    lens.kind,
                    rows,
                    relations,
                    lens.space_id@,
                )
            &&& page.sensitive == count_classified(rows, shown, classification)
            &&& page_tokens_of(
                page.tokens,
                snap,
                last_number(rows, rows_read(lens.kind, rows, list, limit)),
                list.len() > limit,
            )
        }
}

/// Goes through the rows of one page. The answer is the rows that the page went
/// through, and those that it shows.
fn go_through(rows: &Vec<Contribution>, kind: LensKind, list: Vec<usize>, limit: u64) -> (r: (
    Vec<usize>,
    Vec<usize>,
))
    requires
        limit < u64::MAX,
        forall|i: int| 0 <= i < list@.len() ==> (#[trigger] list@[i]) < rows@.len(),
    ensures
        r.0@ == rows_read(kind, rows@, list@, limit),
        r.1@ == lens_rows(kind, rows@, list@, limit),
        r.1@.len() <= limit,
        forall|i: int| 0 <= i < r.0@.len() ==> (#[trigger] r.0@[i]) < rows@.len(),
        forall|i: int| 0 <= i < r.1@.len() ==> (#[trigger] r.1@[i]) < rows@.len(),
{
    let ghost all = list@;
    if kind == LensKind::Workbench {
        let (more, _) = cut(list, limit + 1);
        proof {
            assert forall|j: int| 0 <= j < more@.len() implies (#[trigger] more@[j]) < rows@.len() by {
                assert(more@[j] == all[j]);
            }
        }
        let found = only_cards(rows, &more);
        if found.len() as u64 <= limit {
            return (more, found);
        }
        proof {
            cards_are_some(rows@, more@);
            assert(first_rows(more@, limit as nat) =~= first_rows(all, limit as nat));
        }
        let (read, _) = cut(more, limit);
        proof {
            assert forall|j: int| 0 <= j < read@.len() implies (#[trigger] read@[j]) < rows@.len() by {
                assert(read@[j] == all[j]);
            }
            cards_are_some(rows@, read@);
        }
        let shown = only_cards(rows, &read);
        (read, shown)
    } else {
        let (read, _) = cut(list, limit);
        let shown = copy_places(&read);
        proof {
            assert forall|j: int| 0 <= j < read@.len() implies (#[trigger] read@[j]) < rows@.len() by {
                assert(read@[j] == all[j]);
            }
        }
        (read, shown)
    }
}

fn copy_places(list: &Vec<usize>) -> (r: Vec<usize>)
    ensures
        r@ == list@,
{
    let mut r: Vec<usize> = Vec::new();
    let mut i: usize = 0;
    while i < list.len()
        invariant
            i <= list.len(),
            r@ == list@.take(i as int),
        decreases list.len() - i,
    {
        r.push(list[i]);
        proof {
            assert(r@ =~= list@.take(i + 1));
        }
        i = i + 1;
    }
    proof {
        assert(list@.take(i as int) =~= list@);
    }
    r
}

/// The cards among some rows are no more than the rows.
proof fn cards_are_some(rows: Seq<Contribution>, list: Seq<usize>)
    ensures
        cards(rows, list).len() <= list.len(),
    decreases list.len(),
{
    if list.len() > 0 {
        cards_are_some(rows, list.drop_last());
    }
}

fn present_all(
    ws: &Workspace,
    relations: &Vec<Relation>,
    space_id: &str,
    kind: LensKind,
    shown: &Vec<usize>,
) -> (items: Vec<LensItem>)
    requires
        forall|i: int|
            0 <= i < shown@.len() ==> (#[trigger] shown@[i]) < ws.contributions.rows@.len(),
    ensures
        items@.len() == shown@.len(),
        forall|i: int|
            0 <= i < shown@.len() ==> presents(
                #[trigger] items@[i],
                shown@[i],
                kind,
                ws.contributions.rows@,
                relations@,
                space_id@,
            ),
{
    let mut items: Vec<LensItem> = Vec::new();
    let mut i: usize = 0;
    while i < shown.len()
        invariant
            i <= shown.len(),
            items.len() == i,
            forall|j: int|
                0 <= j < shown@.len() ==> (#[trigger] shown@[j]) < ws.contributions.rows@.len(),
            forall|j: int|
                0 <= j < i ==> presents(
                    #[trigger] items@[j],
                    shown@[j],
                    kind,
                    ws.contributions.rows@,
                    relations@,
                    space_id@,
                ),
        decreases shown.len() - i,
    {
        let at: usize = shown[i];
        let item = if kind == LensKind::Workbench {
            let id = ws.contributions.rows[at].contribution_id.as_str();
            LensItem {
                contribution: at,
                relations_out: find_relations(relations, space_id, id, true),
                relations_in: find_relations(relations, space_id, id, false),
            }
        } else {
            LensItem { contribution: at, relations_out: Vec::new(), relations_in: Vec::new() }
        };
        items.push(item);
        i = i + 1;
    }
    items
}

/// What reading a lens answers.
pub open spec fn lens_read_outcome(
    ws: Workspace,
    lenses: Table<Lens>,
    relations: Table<Relation>,
    project_id: Seq<char>,
    lens_id: Seq<char>,
    limit: u64,
    current_event_seq: u64,
    snapshot: Option<Result<Token, Problem>>,
    after: Option<Result<Token, Problem>>,
    sensitive_classification: Seq<char>,
    r: Result<LensPage, Problem>,
) -> bool {
    &&& ({
        let lens = lenses@[key1(lens_id)];
        let s = ws.spaces@[key1(lens.space_id@)];
        let source = "list:lens:"@ + lens_id;
        let seq = (s.next_space_sequence - 1) as u64;
        if !lenses@.contains_key(key1(lens_id)) || !visible(
            ws.spaces,
            project_id,
            lens.space_id@,
        ) {
            r is Err && r->Err_0@ == not_found_view()
        } else {
            match sequence_refusal(seq, current_event_seq, snapshot, after) {
                Some(p) => r is Err && r->Err_0@ == p,
                None => if lens.kind is Other {
                    r is Err && r->Err_0@ == not_found_view()
                } else {
                    r is Ok && exists|snap: Token|
                        {
                            &&& #[trigger] snapshot_is(
                                snap,
                                source,
                                seq,
                                current_event_seq,
                                snapshot,
                            )
                            &&& lens_page(
                                r->Ok_0,
                                ws,
                                relations.rows@,
                                lens,
                                limit,
                                snap,
                                key_sequence(presented_key(after))->0,
                                sensitive_classification,
                            )
                        }
                },
            }
        }
    })
}

/// Reads a space through one of the two built-in lenses. Any other lens shows
/// nothing.
pub fn lens_read(
    ws: &Workspace,
    lenses: &Table<Lens>,
    relations: &Table<Relation>,
    project_id: &str,
    lens_id: &str,
    limit: u64,
    current_event_seq: u64,
    snapshot: Option<Result<Token, Problem>>,
    after: Option<Result<Token, Problem>>,
    sensitive_classification: &str,
) -> (r: Result<LensPage, Problem>)
    requires
        ws.wf(),
        lenses.wf(),
        limit < u64::MAX,
        lenses@.contains_key(key1(lens_id@)) && ws.spaces@.contains_key(
            key1(lenses@[key1(lens_id@)].space_id@),
        ) ==> ws.spaces@[key1(lenses@[key1(lens_id@)].space_id@)].next_space_sequence >= 1,
    ensures
        lens_read_outcome(
            *ws,
            *lenses,
            *relations,
            project_id@,
            lens_id@,
            limit,
            current_event_seq,
            snapshot,
            after,
            sensitive_classification@,
            r,
        ),
{
    proof {
        reveal_strlit("");
        crate::text::empty_is(""@);
    }
    let l = match lenses.position(lens_id, "") {
        None => {
            return Err(not_found());
        },
        Some(l) => l,
    };
    let lens = &lenses.rows[l];
    let i = visible_space(&ws.spaces, project_id, lens.space_id.as_str())?;
    let source = cat2("list:lens:", lens.lens_id.as_str());
    let seq: u64 = ws.spaces.rows[i].next_space_sequence - 1;
    let snap = open_snapshot(source.as_str(), seq, current_event_seq, snapshot)?;
    let key = after_key(&snap, after)?;
    let from = after_sequence(&key)?;
    if lens.kind == LensKind::Other {
        return Err(not_found());
    }
    let none: Option<String> = None;
    let keep = kept_contributions(
        &ws.contributions.rows,
        lens.space_id.as_str(),
        &none,
        &none,
        from,
        snap.seq,
    );
    let all = order(&ws.contributions.rows, &keep);
    let ghost list = all@;
    let has_more = all.len() as u64 > limit;
    let (read, shown) = go_through(&ws.contributions.rows, lens.kind, all, limit);
    let sensitive = count_sensitive(&ws.contributions.rows, &shown, sensitive_classification);
    let last_key = last_key_of(&ws.contributions.rows, &read);
    let items = present_all(ws, &relations.rows, lens.space_id.as_str(), lens.kind, &shown);
    let tokens = page_tokens(&snap, last_key, has_more);
    let page = LensPage { items, sensitive, tokens };
    proof {
        assert(snapshot_is(snap, source@, seq, current_event_seq, snapshot));
        assert(opt_view(key) == presented_key(after));
        let rows = ws.contributions.rows@;
        assert(ordered_listing(
            rows,
            keep_contributions(rows, lens.space_id@, None, None, from, snap.seq),
            rows.len() as int,
            list,
        ));
        assert(lens_page(
            page,
            *ws,
            relations.rows@,
            *lens,
            limit,
            snap,
            from,
            sensitive_classification@,
        ));
    }
    Ok(page)
}

/// The cards among two runs of rows are those of the one and those of the other.
proof fn cards_together(rows: Seq<Contribution>, a: Seq<usize>, b: Seq<usize>)
    ensures
        cards(rows, a + b) == cards(rows, a) + cards(rows, b),
    decreases b.len(),
{
    if b.len() == 0 {
        assert(a + b =~= a);
        assert(cards(rows, a) + cards(rows, b) =~= cards(rows, a));
    } else {
        cards_together(rows, a, b.drop_last());
        assert((a + b).drop_last() =~= a + b.drop_last());
        assert((a + b).last() == b.last());
        assert(cards(rows, a + b) =~= cards(rows, a) + cards(rows, b));
    }
}

/// Whether a list runs through rows in ascending order of their numbers.
pub open spec fn ascends(rows: Seq<Contribution>, list: Seq<usize>) -> bool {
    forall|a: int, b: int|
        0 <= a < b < list.len() ==> rows[#[trigger] list[a] as int].space_sequence
            < rows[#[trigger] list[b] as int].space_sequence
}

/// No two of some rows have one number.
pub open spec fn numbers_distinct(rows: Seq<Contribution>, keep: Seq<bool>) -> bool {
    forall|a: int, b: int|
        0 <= a < b < rows.len() && keep[a] && keep[b] ==> (#[trigger] rows[a]).space_sequence != (
        #[trigger] rows[b]).space_sequence
}

proof fn listing_ascends(rows: Seq<Contribution>, keep: Seq<bool>, list: Seq<usize>)
    requires
        keep.len() == rows.len(),
        ordered_listing(rows, keep, rows.len() as int, list),
        numbers_distinct(rows, keep),
    ensures
        ascends(rows, list),
{
    assert forall|a: int, b: int| 0 <= a < b < list.len() implies rows[
    #[trigger] list[a] as int].space_sequence < rows[#[trigger] list[b] as int].space_sequence by {
        let x = rows[list[a] as int];
        let y = rows[list[b] as int];
        assert(x.precedes(&y) || (!y.precedes(&x) && list[a] < list[b]));
        if list[a] < list[b] {
            assert(x.space_sequence != y.space_sequence);
        }
    }
}

/// An ascending list is fixed by what it holds.
proof fn ascending_is_one(rows: Seq<Contribution>, a: Seq<usize>, b: Seq<usize>)
    requires
        ascends(rows, a),
        ascends(rows, b),
        forall|x: usize| a.contains(x) <==> b.contains(x),
    ensures
        a == b,
    decreases a.len(),
{
    if a.len() == 0 {
        if b.len() > 0 {
            assert(b.contains(b[0]));
        }
        assert(a =~= b);
    } else {
        assert(a.contains(a.last()));
        assert(b.contains(a.last()));
        let i = choose|i: int| 0 <= i < b.len() && b[i] == a.last();
        assert(b.contains(b.last()));
        assert(a.contains(b.last()));
        let j = choose|j: int| 0 <= j < a.len() && a[j] == b.last();
        if i < b.len() - 1 {
            assert(rows[b[i] as int].space_sequence < rows[b[b.len() - 1] as int].space_sequence);
            if j < a.len() - 1 {
                assert(rows[a[j] as int].space_sequence < rows[a[a.len() - 1] as int].space_sequence);
            }
        }
        assert(a.last() == b.last());
        let c = a.drop_last();
        let d = b.drop_last();
        assert forall|p: int, q: int| 0 <= p < q < c.len() implies rows[
        #[trigger] c[p] as int].space_sequence < rows[#[trigger] c[q] as int].space_sequence by {
            assert(c[p] == a[p] && c[q] == a[q]);
        }
        assert forall|p: int, q: int| 0 <= p < q < d.len() implies rows[
        #[trigger] d[p] as int].space_sequence < rows[#[trigger] d[q] as int].space_sequence by {
            assert(d[p] == b[p] && d[q] == b[q]);
        }
        assert forall|x: usize| c.contains(x) <==> d.contains(x) by {
            if c.contains(x) {
                let p = choose|p: int| 0 <= p < c.len() && c[p] == x;
                assert(a[p] == x);
                assert(a.contains(x));
                assert(rows[a[p] as int].space_sequence < rows[a[a.len() - 1] as int].space_sequence);
                let q = choose|q: int| 0 <= q < b.len() && b[q] == x;
                assert(q < b.len() - 1);
                assert(d[q] == x);
            }
            if d.contains(x) {
                let p = choose|p: int| 0 <= p < d.len() && d[p] == x;
                assert(b[p] == x);
                assert(b.contains(x));
                assert(rows[b[p] as int].space_sequence < rows[b[b.len() - 1] as int].space_sequence);
                let q = choose|q: int| 0 <= q < a.len() && a[q] == x;
                assert(q < a.len() - 1);
                assert(c[q] == x);
            }
        }
        ascending_is_one(rows, c, d);
        assert(a =~= c.push(a.last()));
        assert(b =~= d.push(b.last()));
    }
}

/// Behind the last of the first `m` rows of a listing come exactly the others.
proof fn listing_behind(
    rows: Seq<Contribution>,
    space: Seq<char>,
    after: u64,
    upto: u64,
    list: Seq<usize>,
    m: int,
    rest: Seq<usize>,
)
    requires
        rows.len() <= usize::MAX,
        numbers_distinct(rows, keep_contributions(rows, space, None, None, 0, upto)),
        0 < m <= list.len(),
        ordered_listing(
            rows,
            keep_contributions(rows, space, None, None, after, upto),
            rows.len() as int,
            list,
        ),
        ordered_listing(
            rows,
            keep_contributions(
                rows,
                space,
                None,
                None,
                rows[list[m - 1] as int].space_sequence,
                upto,
            ),
            rows.len() as int,
            rest,
        ),
    ensures
        rest == list.skip(m),
{
    let all = keep_contributions(rows, space, None, None, 0, upto);
    let keep = keep_contributions(rows, space, None, None, after, upto);
    let last = rows[list[m - 1] as int].space_sequence;
    let behind = keep_contributions(rows, space, None, None, last, upto);
    assert(numbers_distinct(rows, keep)) by {
        assert forall|a: int, b: int| 0 <= a < b < rows.len() && keep[a] && keep[b] implies (
        #[trigger] rows[a]).space_sequence != (#[trigger] rows[b]).space_sequence by {
            assert(all[a] && all[b]);
        }
    }
    assert(numbers_distinct(rows, behind)) by {
        assert forall|a: int, b: int| 0 <= a < b < rows.len() && behind[a] && behind[b] implies (
        #[trigger] rows[a]).space_sequence != (#[trigger] rows[b]).space_sequence by {
            assert(all[a] && all[b]);
        }
    }
    listing_ascends(rows, keep, list);
    listing_ascends(rows, behind, rest);
    let tail = list.skip(m);
    assert(keep[list[m - 1] as int]);
    assert forall|p: int, q: int| 0 <= p < q < tail.len() implies rows[
    #[trigger] tail[p] as int].space_sequence < rows[#[trigger] tail[q] as int].space_sequence by {
        assert(tail[p] == list[p + m] && tail[q] == list[q + m]);
    }
    assert forall|x: usize| tail.contains(x) <==> rest.contains(x) by {
        if tail.contains(x) {
            let p = choose|p: int| 0 <= p < tail.len() && tail[p] == x;
            assert(list[p + m] == x);
            assert(rows[list[m - 1] as int].space_sequence < rows[list[p + m] as int].space_sequence);
            assert(keep[x as int]);
            assert(behind[x as int]);
            assert(rest.contains((x as int) as usize));
        }
        if rest.contains(x) {
            let p = choose|p: int| 0 <= p < rest.len() && rest[p] == x;
            assert(behind[rest[p] as int]);
            assert(keep[x as int]);
            assert(list.contains((x as int) as usize));
            let q = choose|q: int| 0 <= q < list.len() && list[q] == x;
            if q < m - 1 {
                assert(rows[list[q] as int].space_sequence < rows[list[m - 1] as int].space_sequence);
            }
            assert(q >= m);
            assert(tail[q - m] == x);
        }
    }
    ascending_is_one(rows, tail, rest);
}

/// Where the next page starts: behind the key of its cursor, and at the first
/// row for a page without one.
pub open spec fn starts_behind(pages: Seq<LensPage>, i: int) -> u64 {
    if i == 0 {
        0
    } else {
        key_sequence(opt_view(pages[i - 1].tokens.next->0.key))->0
    }
}

/// Whether pages follow each other under one boundary, each by the cursor of
/// the one before it, from a given start.
pub open spec fn pages_follow(
    pages: Seq<LensPage>,
    snaps: Seq<Token>,
    ws: Workspace,
    relations: Seq<Relation>,
    lens: Lens,
    limit: u64,
    upto: u64,
    start: u64,
    classification: Seq<char>,
) -> bool {
    &&& pages.len() > 0
    &&& snaps.len() == pages.len()
    &&& forall|i: int|
        0 <= i < pages.len() ==> {
            &&& (#[trigger] snaps[i]).seq == upto
            &&& lens_page(
                pages[i],
                ws,
                relations,
                lens,
                limit,
                snaps[i],
                if i == 0 {
                    start
                } else {
                    starts_behind(pages, i)
                },
                classification,
            )
        }
    &&& forall|i: int| 0 <= i < pages.len() - 1 ==> (#[trigger] pages[i]).tokens.next is Some
}

/// The contributions that pages show, in order.
pub open spec fn all_shown(pages: Seq<LensPage>) -> Seq<usize>
    decreases pages.len(),
{
    if pages.len() == 0 {
        Seq::empty()
    } else {
        page_shown(pages[0]) + all_shown(pages.skip(1))
    }
}

/// The contributions that one page shows, in order.
pub open spec fn page_shown(page: LensPage) -> Seq<usize> {
    Seq::new(page.items@.len(), |i: int| page.items@[i].contribution)
}

proof fn pages_go_through(
    pages: Seq<LensPage>,
    snaps: Seq<Token>,
    ws: Workspace,
    relations: Seq<Relation>,
    lens: Lens,
    limit: u64,
    upto: u64,
    start: u64,
    classification: Seq<char>,
) -> (list: Seq<usize>)
    requires
        ws.contributions.rows@.len() <= usize::MAX,
        numbers_distinct(
            ws.contributions.rows@,
            keep_contributions(ws.contributions.rows@, lens.space_id@, None, None, 0, upto),
        ),
        1 <= limit < u64::MAX,
        pages_follow(
            pages,
            snaps,
            ws,
            relations,
            lens,
            limit,
            upto,
            start,
            classification,
        ),
    ensures
        ordered_listing(
            ws.contributions.rows@,
            keep_contributions(ws.contributions.rows@, lens.space_id@, None, None, start, upto),
            ws.contributions.rows@.len() as int,
            list,
        ),
        pages.len() <= list.len() + 1,
        pages.last().tokens.next is None ==> all_shown(pages) == lensed(
            lens.kind,
            ws.contributions.rows@,
            list,
        ),
    decreases pages.len(),
{
    let rows = ws.contributions.rows@;
    let page = pages[0];
    let snap = snaps[0];
    assert(snap.seq == upto);
    let list = choose|list: Seq<usize>|
        {
            let shown = lens_rows(lens.kind, rows, list, limit);
            &&& #[trigger] ordered_listing(
                rows,
                keep_contributions(rows, lens.space_id@, None, None, start, snap.seq),
                rows.len() as int,
                list,
            )
            &&& page.items@.len() == shown.len()
            &&& page.items@.len() <= limit
            &&& forall|i: int|
                0 <= i < shown.len() ==> presents(
                    #[trigger] page.items@[i],
                    shown[i],
                    lens.kind,
                    rows,
                    relations,
                    lens.space_id@,
                )
            &&& page.sensitive == count_classified(rows, shown, classification)
            &&& page_tokens_of(
                page.tokens,
                snap,
                last_number(rows, rows_read(lens.kind, rows, list, limit)),
                list.len() > limit,
            )
        };
    let shown = lens_rows(lens.kind, rows, list, limit);
    let read = rows_read(lens.kind, rows, list, limit);
    assert(page_shown(page) =~= shown) by {
        assert forall|i: int| 0 <= i < shown.len() implies page_shown(page)[i] == shown[i] by {
            assert(presents(
                page.items@[i],
                shown[i],
                lens.kind,
                rows,
                relations,
                lens.space_id@,
            ));
        }
    }
    if pages.len() == 1 {
        if page.tokens.next is None {
            cards_are_some(rows, list);
            assert(first_rows(list, limit as nat + 1) == list);
            assert(read == list);
            assert(all_shown(pages.skip(1)) =~= Seq::<usize>::empty());
            assert(all_shown(pages) =~= shown);
        }
    } else {
        assert(pages[0].tokens.next is Some);
        let m = read.len() as int;
        assert(0 < m <= list.len());
        assert(read =~= list.take(m));
        let last = rows[read.last() as int].space_sequence;
        assert(read.last() == list[m - 1]);
        crate::text::decimal_reads_back(last);
        let rest = pages.skip(1);
        assert(starts_behind(pages, 1) == last);
        assert forall|i: int| 0 <= i < rest.len() implies {
            &&& (#[trigger] snaps.skip(1)[i]).seq == upto
            &&& lens_page(
                rest[i],
                ws,
                relations,
                lens,
                limit,
                snaps.skip(1)[i],
                if i == 0 {
                    last
                } else {
                    starts_behind(rest, i)
                },
                classification,
            )
        } by {
            assert(snaps.skip(1)[i] == snaps[i + 1]);
            assert(rest[i] == pages[i + 1]);
            if i > 0 {
                assert(rest[i - 1] == pages[i]);
                assert(starts_behind(rest, i) == starts_behind(pages, i + 1));
            }
        }
        assert forall|i: int| 0 <= i < rest.len() - 1 implies (#[trigger] rest[i]).tokens.next is Some by {
            assert(rest[i] == pages[i + 1]);
        }
        assert(rest.last() == pages.last());
        let behind = pages_go_through(
            rest,
            snaps.skip(1),
            ws,
            relations,
            lens,
            limit,
            upto,
            last,
            classification,
        );
        listing_behind(rows, lens.space_id@, start, upto, list, m, behind);
        assert(list =~= list.take(m) + list.skip(m));
        cards_together(rows, list.take(m), list.skip(m));
        assert(lensed(lens.kind, rows, list) =~= lensed(lens.kind, rows, list.take(m)) + lensed(
            lens.kind,
            rows,
            list.skip(m),
        ));
    }
    list
}

proof fn cards_of_ascending(rows: Seq<Contribution>, list: Seq<usize>)
    requires
        ascends(rows, list),
    ensures
        ascends(rows, cards(rows, list)),
        forall|x: usize| #[trigger]
            cards(rows, list).contains(x) <==> list.contains(x) && rows[x as int].kind@
                != "utterance"@,
    decreases list.len(),
{
    if list.len() > 0 {
        let front = list.drop_last();
        assert forall|p: int, q: int| 0 <= p < q < front.len() implies rows[
        #[trigger] front[p] as int].space_sequence < rows[#[trigger] front[q] as int].space_sequence by {
            assert(front[p] == list[p] && front[q] == list[q]);
        }
        cards_of_ascending(rows, front);
        let c = cards(rows, front);
        let d = cards(rows, list);
        assert forall|x: usize| #[trigger] d.contains(x) <==> list.contains(x) && rows[x as int].kind@
            != "utterance"@ by {
            if d.contains(x) {
                let p = choose|p: int| 0 <= p < d.len() && d[p] == x;
                if p < c.len() {
                    assert(c[p] == x);
                    assert(c.contains(x));
                    assert(front.contains(x));
                    let q = choose|q: int| 0 <= q < front.len() && front[q] == x;
                    assert(list[q] == x);
                } else {
                    assert(list[list.len() - 1] == x);
                }
                assert(list.contains(x));
            }
            if list.contains(x) && rows[x as int].kind@ != "utterance"@ {
                let q = choose|q: int| 0 <= q < list.len() && list[q] == x;
                if q < front.len() {
                    assert(front[q] == x);
                    assert(front.contains(x));
                    assert(c.contains(x));
                    let p = choose|p: int| 0 <= p < c.len() && c[p] == x;
                    assert(d[p] == x);
                } else {
                    assert(d[d.len() - 1] == x);
                }
            }
        }
        assert forall|p: int, q: int| 0 <= p < q < d.len() implies rows[
        #[trigger] d[p] as int].space_sequence < rows[#[trigger] d[q] as int].space_sequence by {
            if q < c.len() {
                assert(d[p] == c[p] && d[q] == c[q]);
            } else {
                assert(d[q] == list.last());
                assert(d[p] == c[p]);
                assert(c.contains(c[p]));
                let k = choose|k: int| 0 <= k < front.len() && front[k] == c[p];
                assert(list[k] == c[p]);
                assert(rows[list[k] as int].space_sequence < rows[list[list.len()
                    - 1] as int].space_sequence);
            }
        }
    }
}

/// Following a lens ends, and shows each of its contributions once, in order:
/// however long the pages go on, they are no more than the contributions and
/// one; and once there is no next page, all of them together show exactly the
/// contributions of the space up to the boundary, a workbench every one but the
/// utterances, by ascending number.
pub proof fn following_a_lens_shows_all(
    pages: Seq<LensPage>,
    snaps: Seq<Token>,
    ws: Workspace,
    relations: Seq<Relation>,
    lens: Lens,
    limit: u64,
    upto: u64,
    classification: Seq<char>,
)
    requires
        ws.contributions.rows@.len() <= usize::MAX,
        ws.spaces@.contains_key(key1(lens.space_id@)),
        ws.spaces@[key1(lens.space_id@)].space_id@ == lens.space_id@,
        dense(ws, ws.spaces@[key1(lens.space_id@)]),
        1 <= limit < u64::MAX,
        pages_follow(pages, snaps, ws, relations, lens, limit, upto, 0, classification),
    ensures
        pages.len() <= ws.contributions.rows@.len() + 1,
        forall|i: int| 0 <= i < pages.len() ==> (#[trigger] pages[i]).items@.len() <= limit,
        pages.last().tokens.next is None ==> {
            let rows = ws.contributions.rows@;
            &&& ascends(rows, all_shown(pages))
            &&& forall|i: int|
                0 <= i < rows.len() ==> (all_shown(pages).contains(i as usize) <==> {
                    &&& (#[trigger] rows[i]).space_id@ == lens.space_id@
                    &&& 0 < rows[i].space_sequence <= upto
                    &&& lens.kind is Workbench ==> rows[i].kind@ != "utterance"@
                })
        },
{
    let rows = ws.contributions.rows@;
    let keep = keep_contributions(rows, lens.space_id@, None, None, 0, upto);
    assert(numbers_distinct(rows, keep)) by {
        assert forall|a: int, b: int| 0 <= a < b < rows.len() && keep[a] && keep[b] implies (
        #[trigger] rows[a]).space_sequence != (#[trigger] rows[b]).space_sequence by {}
    }
    assert forall|i: int| 0 <= i < pages.len() implies (#[trigger] pages[i]).items@.len() <= limit by {
        assert(snaps[i].seq == upto);
    }
    let list = pages_go_through(
        pages,
        snaps,
        ws,
        relations,
        lens,
        limit,
        upto,
        0,
        classification,
    );
    listing_ascends(rows, keep, list);
    listing_is_short(rows, list);
    cards_of_ascending(rows, list);
    if pages.last().tokens.next is None {
        assert forall|i: int| 0 <= i < rows.len() implies (all_shown(pages).contains(i as usize) <==> {
            &&& (#[trigger] rows[i]).space_id@ == lens.space_id@
            &&& 0 < rows[i].space_sequence <= upto
            &&& lens.kind is Workbench ==> rows[i].kind@ != "utterance"@
        }) by {
            let x = i as usize;
            assert(x as int == i);
            if list.contains(x) {
                let p = choose|p: int| 0 <= p < list.len() && list[p] == x;
                assert(keep[list[p] as int]);
            }
            if keep[i] {
                assert(list.contains(i as usize));
            }
        }
    }
}

/// A list that holds no place twice is no longer than the rows.
proof fn listing_is_short(rows: Seq<Contribution>, list: Seq<usize>)
    requires
        ascends(rows, list),
        forall|a: int| 0 <= a < list.len() ==> (#[trigger] list[a]) < rows.len(),
    ensures
        list.len() <= rows.len(),
{
    let places = Set::new(|x: int| 0 <= x < rows.len());
    let ints = Seq::new(list.len(), |i: int| list[i] as int);
    vstd::set_lib::lemma_int_range(0, rows.len() as int);
    assert(places =~= vstd::set_lib::set_int_range(0, rows.len() as int));
    assert(ints.no_duplicates()) by {
        assert forall|i: int, j: int| 0 <= i < ints.len() && 0 <= j < ints.len() && i != j implies ints[i]
            != ints[j] by {
            if i < j {
                assert(rows[list[i] as int].space_sequence < rows[list[j] as int].space_sequence);
            } else {
                assert(rows[list[j] as int].space_sequence < rows[list[i] as int].space_sequence);
            }
        }
    }
    ints.unique_seq_to_set();
    assert(ints.to_set().subset_of(places)) by {
        assert forall|x: int| ints.to_set().contains(x) implies places.contains(x) by {
            let i = choose|i: int| 0 <= i < ints.len() && ints[i] == x;
            assert(list[i] < rows.len());
        }
    }
    vstd::set_lib::lemma_len_subset(ints.to_set(), places);
}

// -------------------------------------------------------- frontier_show ----

/// Whether a frontier is visible in a project: its space is.
pub open spec fn frontier_visible(ctx: Contexts, ws: Workspace, project: Seq<char>, id: Seq<char>) -> bool {
    ctx.frontiers@.contains_key(key1(id)) && visible(
        ws.spaces,
        project,
        ctx.frontiers@[key1(id)].space_id@,
    )
}

/// What showing a frontier answers.
pub open spec fn frontier_shown(
    ctx: Contexts,
    ws: Workspace,
    project_id: Seq<char>,
    frontier_id: Seq<char>,
    r: Result<&Frontier, Problem>,
) -> bool {
    &&& match r {
        Ok(f) => frontier_visible(ctx, ws, project_id, frontier_id) && *f
            == ctx.frontiers@[key1(frontier_id)],
        Err(p) => !frontier_visible(ctx, ws, project_id, frontier_id) && p@
            == not_found_view(),
    }
}

/// Shows a frontier of a project's space.
pub fn frontier_show<'a>(
    ctx: &'a Contexts,
    ws: &Workspace,
    project_id: &str,
    frontier_id: &str,
) -> (r: Result<&'a Frontier, Problem>)
    requires
        ctx.wf(),
        ws.wf(),
    ensures
        frontier_shown(
            *ctx,
            *ws,
            project_id@,
            frontier_id@,
            r,
        ),
{
    proof {
        reveal_strlit("");
        crate::text::empty_is(""@);
    }
    match ctx.frontiers.find(frontier_id, "") {
        None => Err(not_found()),
        Some(f) => {
            let at: usize = visible_space(&ws.spaces, project_id, f.space_id.as_str())?;
            Ok(f)
        },
    }
}

// ------------------------------------------------- context_assembly_show ----

/// What is wrong with an assembly's first `n` inputs, if anything is: the
/// first of them that is gone, or changed under its digest.
pub open spec fn inputs_refusal(ws: Workspace, a: Assembly, n: nat) -> Option<ProblemView>
    decreases n,
{
    if n == 0 {
        None
    } else {
        let earlier = inputs_refusal(ws, a, (n - 1) as nat);
        let item = a.items@[n - 1];
        if earlier is Some {
            earlier
        } else if !in_space(ws, a.space_id@, item.object_ref@) {
            Some(
                refusal_with(
                    ProblemKind::Unavailable,
                    "assembly is no longer materializable"@,
                    "an included item is no longer visible"@,
                ),
            )
        } else if ws.contributions@[key1(item.object_ref@)].content_digest@ != item.digest@ {
            Some(
                refusal_with(
                    ProblemKind::Unavailable,
                    "assembly is no longer materializable"@,
                    "an included item changed under its pinned digest"@,
                ),
            )
        } else {
            None
        }
    }
}

proof fn refusal_stays(ws: Workspace, a: Assembly, n: nat, m: nat)
    requires
        n <= m,
        inputs_refusal(ws, a, n) is Some,
    ensures
        inputs_refusal(ws, a, m) == inputs_refusal(ws, a, n),
    decreases m,
{
    if n < m {
        refusal_stays(ws, a, n, (m - 1) as nat);
    }
}

fn check_inputs(ws: &Workspace, a: &Assembly) -> (r: Result<(), Problem>)
    requires
        ws.wf(),
    ensures
        match inputs_refusal(*ws, *a, a.items@.len()) {
            Some(p) => r is Err && r->Err_0@ == p,
            None => r is Ok,
        },
{
    let mut i: usize = 0;
    while i < a.items.len()
        invariant
            ws.wf(),
            i <= a.items.len(),
            inputs_refusal(*ws, *a, i as nat) is None,
        decreases a.items.len() - i,
    {
        let item = &a.items[i];
        match resolve_space_object(ws, a.space_id.as_str(), item.object_ref.as_str()) {
            Err(_) => {
                proof {
                    refusal_stays(*ws, *a, (i + 1) as nat, a.items@.len());
                }
                return Err(
                    problem(
                        ProblemKind::Unavailable,
                        "assembly is no longer materializable",
                        "an included item is no longer visible",
                    ),
                );
            },
            Ok(at) => {
                if !same(
                    ws.contributions.rows[at].content_digest.as_str(),
                    item.digest.as_str(),
                ) {
                    proof {
                        refusal_stays(*ws, *a, (i + 1) as nat, a.items@.len());
                    }
                    return Err(
                        problem(
                            ProblemKind::Unavailable,
                            "assembly is no longer materializable",
                            "an included item changed under its pinned digest",
                        ),
                    );
                }
            },
        }
        i = i + 1;
    }
    Ok(())
}

/// What showing an assembly answers.
pub open spec fn assembly_show_outcome(
    ctx: Contexts,
    ws: Workspace,
    project_id: Seq<char>,
    assembly_id: Seq<char>,
    r: Result<&Assembly, Problem>,
) -> bool {
    &&& ({
        let k = key1(assembly_id);
        let a = ctx.assemblies@[k];
        if !ctx.assemblies@.contains_key(k) || a.project_id@ != project_id {
            r is Err && r->Err_0@ == not_found_view()
        } else {
            match inputs_refusal(ws, a, a.items@.len()) {
                Some(p) => r is Err && r->Err_0@ == p,
                None => r is Ok && *r->Ok_0 == a,
            }
        }
    })
}

/// Shows an assembly of a project, as long as every input of it stands as it
/// was pinned. Nothing is dropped from it or put in another's place.
pub fn context_assembly_show<'a>(
    ctx: &'a Contexts,
    ws: &Workspace,
    project_id: &str,
    assembly_id: &str,
) -> (r: Result<&'a Assembly, Problem>)
    requires
        ctx.wf(),
        ws.wf(),
    ensures
        assembly_show_outcome(
            *ctx,
            *ws,
            project_id@,
            assembly_id@,
            r,
        ),
{
    proof {
        reveal_strlit("");
        crate::text::empty_is(""@);
    }
    match ctx.assemblies.find(assembly_id, "") {
        None => Err(not_found()),
        Some(a) => {
            if !same(a.project_id.as_str(), project_id) {
                return Err(not_found());
            }
            check_inputs(ws, a)?;
            Ok(a)
        },
    }
}

/// An assembly can be shown exactly where every input of it stands; it is then
/// handed out with a claim, too.
pub proof fn shown_where_all_stand(ws: Workspace, a: Assembly)
    ensures
        inputs_refusal(ws, a, a.items@.len()) is None <==> crate::invoke::all_stand(ws, a),
{
    inputs_upto(ws, a, a.items@.len());
}

proof fn inputs_upto(ws: Workspace, a: Assembly, n: nat)
    requires
        n <= a.items@.len(),
    ensures
        inputs_refusal(ws, a, n) is None <==> forall|i: int|
            0 <= i < n ==> crate::invoke::item_stands(ws, a.space_id@, #[trigger] a.items@[i]),
    decreases n,
{
    if n > 0 {
        inputs_upto(ws, a, (n - 1) as nat);
        assert(a.items@[n - 1] == a.items@[n - 1]);
    }
}

// ---------------------------------------------------------- events_wait ----

/// What a waiter does next.
#[derive(Debug, Clone, Copy, PartialEq, Eq, Structural)]
pub enum WaitStep {
    Answer,
    Sleep { millis: u64 },
}

/// How long a waiter waits at most: what it asks for, up to half a minute.
pub open spec fn wait_limit(timeout_ms: u64) -> u64 {
    if timeout_ms <= 30_000 {
        timeout_ms
    } else {
        30_000
    }
}

/// What a waiter is told.
pub open spec fn events_wait_outcome(
    ws: Workspace,
    source: Seq<char>,
    envelope_project_id: Option<&str>,
    found: usize,
    waited_ms: u64,
    timeout_ms: u64,
    r: Result<WaitStep, Problem>,
) -> bool {
    &&& match r {
        Err(p) => !events_readable(ws, source, envelope_project_id, None) && p@
            == not_found_view(),
        Ok(step) => {
            &&& events_readable(ws, source, envelope_project_id, None)
            &&& step == if found == 0 && waited_ms < wait_limit(timeout_ms) {
                WaitStep::Sleep { millis: 20 }
            } else {
                WaitStep::Answer
            }
        },
    }
}

/// One look of a waiter: the source is checked anew, events are answered as
/// soon as there are any, and nothing is answered before the time is up.
pub fn events_wait(
    ws: &Workspace,
    source: &str,
    envelope_project_id: Option<&str>,
    found: usize,
    waited_ms: u64,
    timeout_ms: u64,
) -> (r: Result<WaitStep, Problem>)
    requires
        ws.wf(),
    ensures
        events_wait_outcome(
            *ws,
            source@,
            envelope_project_id,
            found,
            waited_ms,
            timeout_ms,
            r,
        ),
{
    events_source(ws, source, envelope_project_id, None)?;
    let limit: u64 = if timeout_ms <= 30_000 {
        timeout_ms
    } else {
        30_000
    };
    if found == 0 && waited_ms < limit {
        Ok(WaitStep::Sleep { millis: 20 })
    } else {
        Ok(WaitStep::Answer)
    }
}

/// A waiter is answered: after half a minute of waiting at the latest.
pub proof fn a_waiter_is_answered(waited_ms: u64, timeout_ms: u64)
    requires
        waited_ms >= 30_000,
    ensures
        !(waited_ms < wait_limit(timeout_ms)),
{
}

/// Counting the rows of a classification counts each listed row that has it, and
/// no other.
pub proof fn each_classified_row_counts(
    rows: Seq<Contribution>,
    items: Seq<usize>,
    classification: Seq<char>,
)
    ensures
        count_classified(rows, items, classification) == items.filter(
            |x: usize| rows[x as int].classification_ref@ == classification,
        ).len(),
    decreases items.len(),
{
    reveal(Seq::filter);
    if items.len() > 0 {
        each_classified_row_counts(rows, items.drop_last(), classification);
    }
}

/// A listing of contributions holds rows of the space that was asked for and of
/// no other, of the branch and of the kind where one was named, within the
/// snapshot and behind the cursor, each once and in the order of their numbers,
/// and no more of them than the limit. A row that is left out for the limit alone
/// stands behind all that are listed, and then the page names where to go on.
pub proof fn a_listing_holds_what_was_asked(
    ws: Workspace,
    project_id: Seq<char>,
    args: ContributionListArgs,
    current_event_seq: u64,
    snapshot: Option<Result<Token, Problem>>,
    after: Option<Result<Token, Problem>>,
    sensitive_classification: Seq<char>,
    r: Result<ContributionPage, Problem>,
    a: int,
    b: int,
    i: int,
)
    requires
        contribution_list_outcome(
            ws,
            project_id,
            args,
            current_event_seq,
            snapshot,
            after,
            sensitive_classification,
            r,
        ),
        r is Ok,
    ensures
        r->Ok_0.items@.len() <= args.limit,
        0 <= a < r->Ok_0.items@.len() ==> {
            let c = ws.contributions.rows@[r->Ok_0.items@[a] as int];
            &&& r->Ok_0.items@[a] < ws.contributions.rows@.len()
            &&& c.space_id@ == args.space_id@
            &&& args.branch_id is Some ==> c.origin_branch_id@ == args.branch_id->0@
            &&& args.kind is Some ==> c.kind@ == args.kind->0@
            &&& 0 < c.space_sequence
            &&& c.space_sequence <= r->Ok_0.tokens.snapshot.seq
            &&& after is Some && after->0->Ok_0.key is Some ==> number_of(
                after->0->Ok_0.key->0@,
            )->0 < c.space_sequence
        },
        0 <= a < b < r->Ok_0.items@.len() ==> {
            &&& r->Ok_0.items@[a] != r->Ok_0.items@[b]
            &&& ws.contributions.rows@[r->Ok_0.items@[a] as int].space_sequence
                <= ws.contributions.rows@[r->Ok_0.items@[b] as int].space_sequence
        },
        0 <= i < ws.contributions.rows@.len() && !r->Ok_0.items@.contains(i as usize) && ({
            let c = ws.contributions.rows@[i];
            &&& c.space_id@ == args.space_id@
            &&& args.branch_id is Some ==> c.origin_branch_id@ == args.branch_id->0@
            &&& args.kind is Some ==> c.kind@ == args.kind->0@
            &&& 0 < c.space_sequence
            &&& c.space_sequence <= r->Ok_0.tokens.snapshot.seq
            &&& after is Some && after->0->Ok_0.key is Some ==> number_of(
                after->0->Ok_0.key->0@,
            )->0 < c.space_sequence
        }) ==> {
            &&& r->Ok_0.tokens.next is Some
            &&& r->Ok_0.items@.len() == args.limit
            &&& 0 <= a < r->Ok_0.items@.len() ==> ws.contributions.rows@[r->Ok_0.items@[a] as int].space_sequence
                <= ws.contributions.rows@[i].space_sequence
        },
        r->Ok_0.sensitive == r->Ok_0.items@.filter(
            |x: usize|
                ws.contributions.rows@[x as int].classification_ref@ == sensitive_classification,
        ).len(),
        r->Ok_0.tokens.next is Some && r->Ok_0.items@.len() > 0 ==> opt_view(
            r->Ok_0.tokens.next->0.key,
        ) == Some(
            decimal_of(
                ws.contributions.rows@[r->Ok_0.items@.last() as int].space_sequence as nat,
            ),
        ),
        snapshot is None ==> {
            &&& r->Ok_0.tokens.snapshot.seq == (ws.spaces@[key1(
                args.space_id@,
            )].next_space_sequence - 1) as u64
            &&& r->Ok_0.tokens.boundary_event_seq == current_event_seq
        },
        snapshot is Some ==> {
            &&& snapshot->0 is Ok
            &&& r->Ok_0.tokens.snapshot.seq == snapshot->0->Ok_0.seq
            &&& Some(r->Ok_0.tokens.boundary_event_seq) == snapshot->0->Ok_0.boundary
        },
{
    let rows = ws.contributions.rows@;
    let s = ws.spaces@[key1(args.space_id@)];
    let source = "list:contributions:"@ + args.space_id@;
    let seq = (s.next_space_sequence - 1) as u64;
    let snap = choose|snap: Token|
        {
            &&& #[trigger] snapshot_is(snap, source, seq, current_event_seq, snapshot)
            &&& contributions_page(
                r->Ok_0,
                ws,
                args,
                snap,
                key_sequence(presented_key(after))->0,
                sensitive_classification,
            )
        };
    let behind = key_sequence(presented_key(after))->0;
    let keep = keep_contributions(
        rows,
        args.space_id@,
        opt_view(args.branch_id),
        opt_view(args.kind),
        behind,
        snap.seq,
    );
    let list = choose|list: Seq<usize>|
        {
            &&& #[trigger] ordered_listing(rows, keep, rows.len() as int, list)
            &&& r->Ok_0.items@ == first_rows(list, args.limit as nat)
            &&& r->Ok_0.sensitive == count_classified(rows, r->Ok_0.items@, sensitive_classification)
            &&& page_tokens_of(
                r->Ok_0.tokens,
                snap,
                last_number(rows, r->Ok_0.items@),
                list.len() > args.limit,
            )
        };
    let items = r->Ok_0.items@;
    assert(forall|k: int| 0 <= k < items.len() ==> items[k] == list[k]);
    if 0 <= a < items.len() {
        assert(list[a] < rows.len() && keep[list[a] as int]);
    }
    if 0 <= a < b < items.len() {
        crate::listing::a_place_comes_once(rows, keep, rows.len() as int, list, a, b);
    }
    if 0 <= i < rows.len() && keep[i] {
        assert(list.contains(i as usize));
        let k = choose|k: int| 0 <= k < list.len() && list[k] == i as usize;
        assert(ws.contributions.rows.len() == rows.len());
        assert(i as usize as int == i);
        if k < items.len() {
            assert(items[k] == i as usize);
        } else if 0 <= a < items.len() {
            crate::listing::a_place_comes_once(rows, keep, rows.len() as int, list, a, k);
        }
    }
    each_classified_row_counts(rows, items, sensitive_classification);
}

/// Where every contribution of a space is on its main branch, naming that branch
/// changes nothing of the listing.
pub proof fn the_main_branch_lists_all(
    ws: Workspace,
    project_id: Seq<char>,
    args: ContributionListArgs,
    whole: ContributionListArgs,
    current_event_seq: u64,
    snapshot: Option<Result<Token, Problem>>,
    after: Option<Result<Token, Problem>>,
    sensitive_classification: Seq<char>,
    r: Result<ContributionPage, Problem>,
    r_whole: Result<ContributionPage, Problem>,
)
    requires
        contribution_list_outcome(
            ws,
            project_id,
            args,
            current_event_seq,
            snapshot,
            after,
            sensitive_classification,
            r,
        ),
        contribution_list_outcome(
            ws,
            project_id,
            whole,
            current_event_seq,
            snapshot,
            after,
            sensitive_classification,
            r_whole,
        ),
        args.branch_id is Some,
        args.branch_id->0@ == ws.spaces@[key1(args.space_id@)].main_branch_id@,
        whole.branch_id is None,
        args.space_id@ == whole.space_id@,
        opt_view(args.kind) == opt_view(whole.kind),
        args.limit == whole.limit,
        forall|i: int|
            0 <= i < ws.contributions.rows@.len() && (#[trigger] ws.contributions.rows@[i]).space_id@
                == args.space_id@ ==> ws.contributions.rows@[i].origin_branch_id@
                == args.branch_id->0@,
    ensures
        r is Ok <==> r_whole is Ok,
        r is Err ==> r->Err_0@ == r_whole->Err_0@,
        r is Ok ==> {
            &&& r->Ok_0.items@ == r_whole->Ok_0.items@
            &&& r->Ok_0.sensitive == r_whole->Ok_0.sensitive
            &&& r->Ok_0.tokens.next is Some <==> r_whole->Ok_0.tokens.next is Some
        },
{
    if r is Ok {
        let rows = ws.contributions.rows@;
        let s = ws.spaces@[key1(args.space_id@)];
        let source = "list:contributions:"@ + args.space_id@;
        let seq = (s.next_space_sequence - 1) as u64;
        let behind = key_sequence(presented_key(after))->0;
        let snap = choose|snap: Token|
            {
                &&& #[trigger] snapshot_is(snap, source, seq, current_event_seq, snapshot)
                &&& contributions_page(r->Ok_0, ws, args, snap, behind, sensitive_classification)
            };
        let snap2 = choose|snap: Token|
            {
                &&& #[trigger] snapshot_is(snap, source, seq, current_event_seq, snapshot)
                &&& contributions_page(
                    r_whole->Ok_0,
                    ws,
                    whole,
                    snap,
                    behind,
                    sensitive_classification,
                )
            };
        let keep = keep_contributions(
            rows,
            args.space_id@,
            opt_view(args.branch_id),
            opt_view(args.kind),
            behind,
            snap.seq,
        );
        let keep2 = keep_contributions(
            rows,
            whole.space_id@,
            opt_view(whole.branch_id),
            opt_view(whole.kind),
            behind,
            snap2.seq,
        );
        assert(snap.seq == snap2.seq);
        assert(keep =~= keep2);
        let list = choose|list: Seq<usize>|
            {
                &&& #[trigger] ordered_listing(rows, keep, rows.len() as int, list)
                &&& r->Ok_0.items@ == first_rows(list, args.limit as nat)
                &&& r->Ok_0.sensitive == count_classified(
                    rows,
                    r->Ok_0.items@,
                    sensitive_classification,
                )
                &&& page_tokens_of(
                    r->Ok_0.tokens,
                    snap,
                    last_number(rows, r->Ok_0.items@),
                    list.len() > args.limit,
                )
            };
        let list2 = choose|list: Seq<usize>|
            {
                &&& #[trigger] ordered_listing(rows, keep2, rows.len() as int, list)
                &&& r_whole->Ok_0.items@ == first_rows(list, whole.limit as nat)
                &&& r_whole->Ok_0.sensitive == count_classified(
                    rows,
                    r_whole->Ok_0.items@,
                    sensitive_classification,
                )
                &&& page_tokens_of(
                    r_whole->Ok_0.tokens,
                    snap2,
                    last_number(rows, r_whole->Ok_0.items@),
                    list.len() > whole.limit,
                )
            };
        crate::listing::a_listing_is_the_only_one(rows, keep, rows.len() as int, list, list2);
    }
}

/// A first listing of a space that is there is answered; one of a space or a
/// branch that is not there is not, whatever else is asked.
pub proof fn a_first_listing_is_answered(
    ws: Workspace,
    project_id: Seq<char>,
    args: ContributionListArgs,
    current_event_seq: u64,
    snapshot: Option<Result<Token, Problem>>,
    after: Option<Result<Token, Problem>>,
    sensitive_classification: Seq<char>,
    r: Result<ContributionPage, Problem>,
)
    requires
        contribution_list_outcome(
            ws,
            project_id,
            args,
            current_event_seq,
            snapshot,
            after,
            sensitive_classification,
            r,
        ),
    ensures
        snapshot is None && after is None && ws.spaces@.contains_key(key1(args.space_id@))
            && ws.spaces@[key1(args.space_id@)].project_id@ == project_id && args.branch_id is None
            ==> r is Ok,
        r is Ok ==> ws.spaces@.contains_key(key1(args.space_id@)) && ws.spaces@[key1(
            args.space_id@,
        )].project_id@ == project_id,
        r is Ok && args.branch_id is Some ==> args.branch_id->0@ == ws.spaces@[key1(
            args.space_id@,
        )].main_branch_id@,
        snapshot is Some && snapshot->0 is Err ==> r is Err,
        after is Some && after->0 is Err ==> r is Err,
        snapshot is Some && snapshot->0 is Ok && snapshot->0->Ok_0.boundary is None ==> r is Err,
        snapshot is Some && snapshot->0 is Ok && after is Some && after->0 is Ok && (
        snapshot->0->Ok_0.seq != after->0->Ok_0.seq || snapshot->0->Ok_0.boundary
            != after->0->Ok_0.boundary) ==> r is Err,
        after is Some && after->0 is Ok && after->0->Ok_0.key is Some && number_of(
            after->0->Ok_0.key->0@,
        ) is None ==> r is Err,
{
}

/// The boundary of a project's spaces stands behind every one of them, and right
/// behind one of them where there is one.
pub proof fn the_boundary_is_behind_all(rows: Seq<Space>, project: Seq<char>, i: int)
    ensures
        spaces_boundary(rows, project) <= rows.len(),
        0 <= i < rows.len() && rows[i].project_id@ == project ==> i < spaces_boundary(rows, project),
        spaces_boundary(rows, project) > 0 ==> rows[spaces_boundary(rows, project)
            - 1].project_id@ == project,
    decreases rows.len(),
{
    if rows.len() > 0 && rows.last().project_id@ != project {
        the_boundary_is_behind_all(rows.drop_last(), project, i);
        if 0 <= i < rows.len() - 1 {
            assert(rows.drop_last()[i] == rows[i]);
        }
    }
}

/// A listing of spaces holds spaces of its project and of no other, behind the
/// cursor, each once and in the order of their names. The first listing without a
/// snapshot leaves none of them out, but for the limit; and a page that leaves
/// some out for the limit names where to go on.
pub proof fn a_space_listing_holds_the_project(
    ws: Workspace,
    project_id: Seq<char>,
    limit: u64,
    current_event_seq: u64,
    snapshot: Option<Result<Token, Problem>>,
    after: Option<Result<Token, Problem>>,
    r: Result<Page, Problem>,
    a: int,
    b: int,
    i: int,
)
    requires
        space_list_outcome(ws, project_id, limit, current_event_seq, snapshot, after, r),
        r is Ok,
        ws.spaces.rows@.len() <= u64::MAX,
    ensures
        ws.projects@.contains_key(key1(project_id)),
        r->Ok_0.items@.len() <= limit,
        0 <= a < r->Ok_0.items@.len() ==> {
            let s = ws.spaces.rows@[r->Ok_0.items@[a] as int];
            &&& r->Ok_0.items@[a] < ws.spaces.rows@.len()
            &&& s.project_id@ == project_id
            &&& r->Ok_0.items@[a] < r->Ok_0.tokens.snapshot.seq
            &&& after is Some && after->0->Ok_0.key is Some ==> before(
                after->0->Ok_0.key->0@,
                s.space_id@,
            )
        },
        0 <= a < b < r->Ok_0.items@.len() ==> {
            &&& r->Ok_0.items@[a] != r->Ok_0.items@[b]
            &&& !before(
                ws.spaces.rows@[r->Ok_0.items@[b] as int].space_id@,
                ws.spaces.rows@[r->Ok_0.items@[a] as int].space_id@,
            )
        },
        0 <= i < ws.spaces.rows@.len() && ws.spaces.rows@[i].project_id@ == project_id && (snapshot
            is Some ==> i < r->Ok_0.tokens.snapshot.seq) && (after is Some
            && after->0->Ok_0.key is Some ==> before(
            after->0->Ok_0.key->0@,
            ws.spaces.rows@[i].space_id@,
        )) && !r->Ok_0.items@.contains(i as usize) ==> {
            &&& r->Ok_0.tokens.next is Some
            &&& r->Ok_0.items@.len() == limit
        },
        r->Ok_0.tokens.next is Some && r->Ok_0.items@.len() > 0 ==> opt_view(
            r->Ok_0.tokens.next->0.key,
        ) == Some(ws.spaces.rows@[r->Ok_0.items@.last() as int].space_id@),
        snapshot is None ==> r->Ok_0.tokens.boundary_event_seq == current_event_seq,
        snapshot is Some ==> snapshot->0 is Ok && r->Ok_0.tokens.snapshot.seq
            == snapshot->0->Ok_0.seq,
{
    let rows = ws.spaces.rows@;
    let source = "list:spaces:"@ + project_id;
    let seq = spaces_boundary(rows, project_id) as u64;
    let snap = choose|snap: Token|
        {
            &&& #[trigger] snapshot_is(snap, source, seq, current_event_seq, snapshot)
            &&& spaces_page(r->Ok_0, ws, project_id, limit, snap, presented_key(after))
        };
    let keep = keep_spaces(rows, project_id, snap.seq, presented_key(after));
    let list = choose|list: Seq<usize>|
        {
            &&& #[trigger] ordered_listing(rows, keep, rows.len() as int, list)
            &&& r->Ok_0.items@ == first_rows(list, limit as nat)
            &&& page_tokens_of(
                r->Ok_0.tokens,
                snap,
                if r->Ok_0.items@.len() == 0 {
                    None
                } else {
                    Some(rows[r->Ok_0.items@.last() as int].space_id@)
                },
                list.len() > limit,
            )
        };
    let items = r->Ok_0.items@;
    the_boundary_is_behind_all(rows, project_id, i);
    assert(forall|k: int| 0 <= k < items.len() ==> items[k] == list[k]);
    if 0 <= a < items.len() {
        assert(list[a] < rows.len() && keep[list[a] as int]);
    }
    if 0 <= a < b < items.len() {
        crate::listing::a_place_comes_once(rows, keep, rows.len() as int, list, a, b);
        let x = rows[list[a] as int];
        let y = rows[list[b] as int];
        Space::weak_order(&x, &x, &y);
        crate::text::before_irreflexive(x.space_id@);
        if before(y.space_id@, x.space_id@) {
            assert(y.precedes(&x));
        }
    }
    if 0 <= i < rows.len() && keep[i] {
        assert(list.contains(i as usize));
        let k = choose|k: int| 0 <= k < list.len() && list[k] == i as usize;
        if k < items.len() {
            assert(items[k] == i as usize);
        }
    }
}

/// The relations given with an item are those of its space that lead from it, or
/// to it, and all of them.
pub proof fn related_are_all(
    rows: Seq<Relation>,
    n: nat,
    space: Seq<char>,
    object: Seq<char>,
    out: bool,
    i: int,
)
    requires
        n <= rows.len() <= usize::MAX,
    ensures
        forall|k: int|
            0 <= k < related(rows, n, space, object, out).len() ==> (#[trigger] related(
                rows,
                n,
                space,
                object,
                out,
            )[k]) < n,
        related(rows, n, space, object, out).contains(i as usize) && 0 <= i < n
            ==> rows[i].space_id@ == space && (if out {
            rows[i].from_ref.object_ref@ == object
        } else {
            rows[i].to_ref.object_ref@ == object
        }),
        0 <= i < n && rows[i].space_id@ == space && (if out {
            rows[i].from_ref.object_ref@ == object
        } else {
            rows[i].to_ref.object_ref@ == object
        }) ==> related(rows, n, space, object, out).contains(i as usize),
    decreases n,
{
    if n > 0 {
        let m = (n - 1) as nat;
        related_are_all(rows, m, space, object, out, i);
        let r = related(rows, m, space, object, out);
        let all = related(rows, n, space, object, out);
        assert(all == if relates(rows[n - 1], space, object, out) {
            r.push(m as usize)
        } else {
            r
        });
        if r.contains(i as usize) {
            let k = choose|k: int| 0 <= k < r.len() && r[k] == i as usize;
            assert(all[k] == i as usize);
        }
        if all.contains(i as usize) && 0 <= i < n {
            let k = choose|k: int| 0 <= k < all.len() && all[k] == i as usize;
            if k < r.len() {
                assert(r[k] == i as usize);
                if i == m {
                    assert(r[k] < m);
                }
            } else {
                assert(i == m);
            }
        }
        if i == m && relates(rows[i], space, object, out) {
            assert(all.last() == i as usize);
        }
    }
}

/// A lens shows contributions of its own space only, on a workbench no utterance,
/// and beside each on a workbench all the relations that lead from it and to it.
pub proof fn a_lens_shows_its_space(
    ws: Workspace,
    lenses: Table<Lens>,
    relations: Table<Relation>,
    project_id: Seq<char>,
    lens_id: Seq<char>,
    limit: u64,
    current_event_seq: u64,
    snapshot: Option<Result<Token, Problem>>,
    after: Option<Result<Token, Problem>>,
    sensitive_classification: Seq<char>,
    r: Result<LensPage, Problem>,
    a: int,
    j: int,
)
    requires
        lens_read_outcome(
            ws,
            lenses,
            relations,
            project_id,
            lens_id,
            limit,
            current_event_seq,
            snapshot,
            after,
            sensitive_classification,
            r,
        ),
        r is Ok,
        0 <= a < r->Ok_0.items@.len(),
        0 <= j < relations.rows@.len() <= usize::MAX,
    ensures
        lenses@.contains_key(key1(lens_id)),
        ws.spaces@[key1(lenses@[key1(lens_id)].space_id@)].project_id@ == project_id,
        r->Ok_0.items@.len() <= limit,
        ({
            let lens = lenses@[key1(lens_id)];
            let item = r->Ok_0.items@[a];
            let c = ws.contributions.rows@[item.contribution as int];
            let rel = relations.rows@[j];
            &&& item.contribution < ws.contributions.rows@.len()
            &&& c.space_id@ == lens.space_id@
            &&& c.space_sequence <= r->Ok_0.tokens.snapshot.seq
            &&& lens.kind is Workbench ==> c.kind@ != "utterance"@
            &&& lens.kind is Workbench ==> (item.relations_out@.contains(j as usize) <==> (
            rel.space_id@ == lens.space_id@ && rel.from_ref.object_ref@ == c.contribution_id@))
            &&& lens.kind is Workbench ==> (item.relations_in@.contains(j as usize) <==> (
            rel.space_id@ == lens.space_id@ && rel.to_ref.object_ref@ == c.contribution_id@))
            &&& lens.kind !is Workbench ==> item.relations_out@.len() == 0
                && item.relations_in@.len() == 0
        }),
{
    let lens = lenses@[key1(lens_id)];
    let rows = ws.contributions.rows@;
    let s = ws.spaces@[key1(lens.space_id@)];
    let source = "list:lens:"@ + lens_id;
    let seq = (s.next_space_sequence - 1) as u64;
    let behind = key_sequence(presented_key(after))->0;
    let snap = choose|snap: Token|
        {
            &&& #[trigger] snapshot_is(snap, source, seq, current_event_seq, snapshot)
            &&& lens_page(
                r->Ok_0,
                ws,
                relations.rows@,
                lens,
                limit,
                snap,
                behind,
                sensitive_classification,
            )
        };
    let page = r->Ok_0;
    let keep = keep_contributions(rows, lens.space_id@, None, None, behind, snap.seq);
    let list = choose|list: Seq<usize>|
        {
            let shown = lens_rows(lens.kind, rows, list, limit);
            &&& #[trigger] ordered_listing(rows, keep, rows.len() as int, list)
            &&& page.items@.len() == shown.len()
            &&& page.items@.len() <= limit
            &&& forall|i: int|
                0 <= i < shown.len() ==> presents(
                    #[trigger] page.items@[i],
                    shown[i],
                    lens.kind,
                    rows,
                    relations.rows@,
                    lens.space_id@,
                )
            &&& page.sensitive == count_classified(rows, shown, sensitive_classification)
            &&& page_tokens_of(
                page.tokens,
                snap,
                last_number(rows, rows_read(lens.kind, rows, list, limit)),
                list.len() > limit,
            )
        };
    let read = rows_read(lens.kind, rows, list, limit);
    let shown = lens_rows(lens.kind, rows, list, limit);
    let item = page.items@[a];
    assert(presents(item, shown[a], lens.kind, rows, relations.rows@, lens.space_id@));
    if lens.kind is Workbench {
        card_of_list(rows, read, a);
        let k = choose|k: int| 0 <= k < read.len() && read[k] == shown[a];
        assert(read[k] == list[k]);
        assert(keep[list[k] as int]);
        let id = rows[shown[a] as int].contribution_id@;
        related_are_all(relations.rows@, relations.rows@.len(), lens.space_id@, id, true, j);
        related_are_all(relations.rows@, relations.rows@.len(), lens.space_id@, id, false, j);
    } else {
        assert(shown[a] == list[a]);
        assert(keep[list[a] as int]);
    }
}

/// A card stands in the list that it was made of, and is no utterance.
proof fn card_of_list(rows: Seq<Contribution>, list: Seq<usize>, a: int)
    requires
        0 <= a < cards(rows, list).len(),
    ensures
        list.contains(cards(rows, list)[a]),
        rows[cards(rows, list)[a] as int].kind@ != "utterance"@,
    decreases list.len(),
{
    if list.len() > 0 {
        let less = list.drop_last();
        if a < cards(rows, less).len() {
            card_of_list(rows, less, a);
            let x = cards(rows, less)[a];
            let k = choose|k: int| 0 <= k < less.len() && less[k] == x;
            assert(list[k] == x);
            assert(cards(rows, list)[a] == x);
        } else {
            assert(cards(rows, list)[a] == list.last());
            assert(list[list.len() - 1] == list.last());
        }
    }
}

/// A snapshot that a page hands out is taken again, and with it the cursor of the
/// same page: both name the boundary at which the first page was read.
pub proof fn a_page_can_be_followed(
    source: Seq<char>,
    domain_seq: u64,
    event_seq: u64,
    opened: Result<Token, Problem>,
    tokens: PageTokens,
    last_key: Option<Seq<char>>,
    more: bool,
    later_domain_seq: u64,
    later_event_seq: u64,
    reopened: Result<Token, Problem>,
    key: Result<Option<String>, Problem>,
)
    requires
        snapshot_outcome(source, domain_seq, event_seq, None, opened),
        page_tokens_of(tokens, opened->Ok_0, last_key, more),
        snapshot_outcome(
            source,
            later_domain_seq,
            later_event_seq,
            Some(Ok(tokens.snapshot)),
            reopened,
        ),
        more,
        after_key_outcome(reopened->Ok_0, Some(Ok(tokens.next->0)), key),
    ensures
        opened is Ok,
        reopened is Ok,
        reopened->Ok_0.seq == domain_seq,
        reopened->Ok_0.boundary == Some(event_seq),
        reopened->Ok_0.source@ == source,
        tokens.boundary_event_seq == event_seq,
        tokens.next is Some,
        key is Ok,
        opt_view(key->Ok_0) == last_key,
{
}

/// A cursor is good for the boundary that it was made at and for no other.
pub proof fn a_cursor_keeps_to_its_boundary(
    snap: Token,
    presented: Option<Result<Token, Problem>>,
    key: Result<Option<String>, Problem>,
)
    requires
        after_key_outcome(snap, presented, key),
    ensures
        presented is None ==> key == Ok::<Option<String>, Problem>(None),
        presented is Some && presented->0 is Err ==> key is Err,
        presented is Some && presented->0 is Ok ==> (key is Ok <==> presented->0->Ok_0.seq
            == snap.seq && presented->0->Ok_0.boundary == snap.boundary),
        presented is Some && key is Ok ==> key->Ok_0 == presented->0->Ok_0.key,
{
}

/// A frontier is shown to its own project, and as it stands.
pub proof fn a_frontier_is_shown_to_its_project(
    ctx: Contexts,
    ws: Workspace,
    project_id: Seq<char>,
    frontier_id: Seq<char>,
    r: Result<&Frontier, Problem>,
)
    requires
        frontier_shown(ctx, ws, project_id, frontier_id, r),
    ensures
        r is Ok <==> {
            let f = ctx.frontiers@[key1(frontier_id)];
            &&& ctx.frontiers@.contains_key(key1(frontier_id))
            &&& ws.spaces@.contains_key(key1(f.space_id@))
            &&& ws.spaces@[key1(f.space_id@)].project_id@ == project_id
        },
        r is Ok ==> *r->Ok_0 == ctx.frontiers@[key1(frontier_id)],
{
}

/// An assembly is shown to its own project while every item that it pins stands
/// in its space under the pinned digest.
pub proof fn an_assembly_is_shown_while_it_stands(
    ctx: Contexts,
    ws: Workspace,
    project_id: Seq<char>,
    assembly_id: Seq<char>,
    r: Result<&Assembly, Problem>,
)
    requires
        assembly_show_outcome(ctx, ws, project_id, assembly_id, r),
    ensures
        r is Ok <==> {
            let a = ctx.assemblies@[key1(assembly_id)];
            &&& ctx.assemblies@.contains_key(key1(assembly_id))
            &&& a.project_id@ == project_id
            &&& forall|i: int|
                0 <= i < a.items@.len() ==> in_space(
                    ws,
                    a.space_id@,
                    (#[trigger] a.items@[i]).object_ref@,
                ) && ws.contributions@[key1(a.items@[i].object_ref@)].content_digest@
                    == a.items@[i].digest@
        },
        r is Ok ==> *r->Ok_0 == ctx.assemblies@[key1(assembly_id)],
{
    let a = ctx.assemblies@[key1(assembly_id)];
    shown_where_all_stand(ws, a);
    if forall|i: int|
        0 <= i < a.items@.len() ==> in_space(
            ws,
            a.space_id@,
            (#[trigger] a.items@[i]).object_ref@,
        ) && ws.contributions@[key1(a.items@[i].object_ref@)].content_digest@ == a.items@[i].digest@ {
        assert(crate::invoke::all_stand(ws, a));
    }
}

/// A waiter is answered at once where something was found or its time is over,
/// and sleeps otherwise, never beyond half a minute.
pub proof fn a_waiter_sleeps_for_nothing_found(
    ws: Workspace,
    source: Seq<char>,
    envelope_project_id: Option<&str>,
    found: usize,
    waited_ms: u64,
    timeout_ms: u64,
    r: Result<WaitStep, Problem>,
)
    requires
        events_wait_outcome(ws, source, envelope_project_id, found, waited_ms, timeout_ms, r),
    ensures
        r is Ok <==> ws.projects@.contains_key(key1(source)) && (envelope_project_id is Some
            ==> envelope_project_id->0@ == source),
        r is Ok && found > 0 ==> r->Ok_0 is Answer,
        r is Ok && waited_ms >= timeout_ms ==> r->Ok_0 is Answer,
        r is Ok && waited_ms >= 30_000 ==> r->Ok_0 is Answer,
        r is Ok && found == 0 && waited_ms < timeout_ms && waited_ms < 30_000 ==> r->Ok_0 is Sleep,
        r is Ok && r->Ok_0 is Sleep ==> 0 < r->Ok_0->millis <= 20,
{
}

/// A page of a lens says how many of the contributions it shows are of the
/// classification that was asked about: none where none is, and each that is.
pub proof fn a_lens_counts_what_is_sensitive(
    page: LensPage,
    ws: Workspace,
    relations: Seq<Relation>,
    lens: Lens,
    limit: u64,
    snap: Token,
    after: u64,
    classification: Seq<char>,
)
    requires
        lens_page(page, ws, relations, lens, limit, snap, after, classification),
    ensures
        exists|list: Seq<usize>|
            {
                let rows = ws.contributions.rows@;
                let shown = #[trigger] lens_rows(lens.kind, ws.contributions.rows@, list, limit);
                &&& shown.len() == page.items@.len()
                &&& page.sensitive == shown.filter(
                    |x: usize| rows[x as int].classification_ref@ == classification,
                ).len()
            },
{
    let rows = ws.contributions.rows@;
    let list = choose|list: Seq<usize>|
        {
            let shown = lens_rows(lens.kind, rows, list, limit);
            &&& #[trigger] ordered_listing(
                rows,
                keep_contributions(rows, lens.space_id@, None, None, after, snap.seq),
                rows.len() as int,
                list,
            )
            &&& page.items@.len() == shown.len()
            &&& page.sensitive == count_classified(rows, shown, classification)
        };
    let shown = lens_rows(lens.kind, rows, list, limit);
    each_classified_row_counts(rows, shown, classification);
    assert(page.sensitive == shown.filter(
        |x: usize| rows[x as int].classification_ref@ == classification,
    ).len());
}

} // verus!
