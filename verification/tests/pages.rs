use koveed::disposition_ops::Relation;
use koveed::invoke::{Assembly, Contexts, Frontier, ItemRef};
use koveed::problem::{Problem, ProblemKind};
use koveed::reads::{
    after_key, context_assembly_show, contribution_list, events_wait, frontier_show, lens_read,
    open_snapshot, page_tokens, space_list, ContributionListArgs, Lens, LensKind, Token, WaitStep,
};
use koveed::records::{
    ContentState, Contribution, Project, ProjectStatus, Space, SpaceStatus, Workspace,
};
use koveed::table::Table;

fn space(id: &str, project: &str, next: u64) -> Space {
    Space {
        space_id: id.to_string(),
        realm_id: "realm-personal".to_string(),
        project_id: project.to_string(),
        revision: 1,
        title: "t".to_string(),
        purpose_contribution_ref: None,
        visibility: "project".to_string(),
        status: SpaceStatus::Open,
        main_branch_id: "branch-1".to_string(),
        next_space_sequence: next,
        head_digest: "h".to_string(),
        next_branch_sequence: next,
        default_classification_ref: "class-default".to_string(),
        policy_set_ref: "policy-default".to_string(),
        created_by: "prin-owner".to_string(),
        created_at: "then".to_string(),
    }
}

fn contribution(n: u64, kind: &str, classification: &str) -> Contribution {
    Contribution {
        contribution_id: format!("contrib-{}", n),
        revision: 1,
        realm_id: "realm-personal".to_string(),
        project_id: "proj-1".to_string(),
        space_id: "space-b".to_string(),
        origin_branch_id: "branch-1".to_string(),
        origin_branch_sequence: n,
        space_sequence: n,
        author_actor_ref: "prin-owner".to_string(),
        kind: kind.to_string(),
        schema_ref: "s".to_string(),
        body_parts: vec![],
        subject_refs: vec![],
        source_refs: vec![],
        epistemic_posture: None,
        invocation_ref: None,
        context_assembly_ref: None,
        causation_ref: None,
        classification_ref: classification.to_string(),
        retention_policy_ref: "ret-default".to_string(),
        content_digest: format!("d{}", n),
        created_at: "then".to_string(),
        content_state: ContentState::Live,
        object_secret: None,
    }
}

fn workspace() -> Workspace {
    let mut ws = Workspace::new();
    ws.projects.rows.push(Project {
        project_id: "proj-1".to_string(),
        realm_id: "realm-personal".to_string(),
        revision: 1,
        name: "n".to_string(),
        status: ProjectStatus::Active,
        default_classification_ref: "c".to_string(),
        policy_set_ref: "p".to_string(),
        created_by: "o".to_string(),
        created_at: "then".to_string(),
    });
    ws.spaces.rows.push(space("space-b", "proj-1", 5));
    ws.spaces.rows.push(space("space-x", "proj-2", 1));
    ws.spaces.rows.push(space("space-a", "proj-1", 1));
    ws.spaces.rows.push(space("space-c", "proj-1", 1));
    ws.contributions.rows.push(contribution(2, "claim", "class-sensitive"));
    ws.contributions.rows.push(contribution(1, "utterance", "class-default"));
    ws.contributions.rows.push(contribution(3, "utterance", "class-default"));
    ws.contributions.rows.push(contribution(4, "claim", "class-default"));
    ws
}

fn token(source: &str, seq: u64, boundary: Option<u64>, key: Option<&str>) -> Token {
    Token {
        source: source.to_string(),
        seq,
        boundary,
        key: key.map(|k| k.to_string()),
    }
}

fn list_args(limit: u64) -> ContributionListArgs {
    ContributionListArgs { space_id: "space-b".to_string(), branch_id: None, kind: None, limit }
}

#[test]
fn a_snapshot_is_opened_or_gone_on_with() {
    let t = open_snapshot("src", 3, 9, None).unwrap();
    assert_eq!((t.seq, t.boundary), (3, Some(9)));
    let t = open_snapshot("src", 3, 9, Some(Ok(token("src", 1, Some(2), None)))).unwrap();
    assert_eq!((t.seq, t.boundary), (1, Some(2)));
    let e = open_snapshot("src", 3, 9, Some(Ok(token("src", 1, None, None)))).unwrap_err();
    assert_eq!(e.kind, ProblemKind::SnapshotExpired);
    assert_eq!(e.title, "not a snapshot token for this query");
    let e = open_snapshot("src", 3, 9, Some(Err(Problem::new(ProblemKind::Invalid, "bad")))).unwrap_err();
    assert_eq!(e.title, "bad");
}

#[test]
fn a_cursor_of_another_boundary_is_refused() {
    let snap = token("src", 3, Some(9), None);
    assert_eq!(after_key(&snap, None).unwrap(), None);
    let key = after_key(&snap, Some(Ok(token("src", 3, Some(9), Some("k"))))).unwrap();
    assert_eq!(key.as_deref(), Some("k"));
    for other in [token("src", 4, Some(9), None), token("src", 3, Some(8), None)] {
        let e = after_key(&snap, Some(Ok(other))).unwrap_err();
        assert_eq!(e.title, "cursor belongs to a different snapshot boundary");
    }
    let tokens = page_tokens(&snap, Some("k".to_string()), true);
    assert_eq!(tokens.next.as_ref().unwrap().key.as_deref(), Some("k"));
    assert_eq!(tokens.boundary_event_seq, 9);
    assert!(after_key(&tokens.snapshot, Some(Ok(tokens.next.unwrap()))).is_ok());
    assert!(page_tokens(&snap, None, false).next.is_none());
}

#[test]
fn spaces_are_listed_in_pages() {
    let mut ws = workspace();
    let first = space_list(&ws, "proj-1", 2, 7, None, None).unwrap();
    assert_eq!(first.items, vec![2, 0]);
    let next = first.tokens.next.unwrap();
    assert_eq!((next.source.as_str(), next.seq), ("list:spaces:proj-1", 4));
    assert_eq!(next.key.as_deref(), Some("space-b"));
    ws.spaces.rows.push(space("space-d", "proj-1", 1));
    let second = space_list(&ws, "proj-1", 2, 8, Some(Ok(first.tokens.snapshot)), Some(Ok(next))).unwrap();
    assert_eq!(second.items, vec![3]);
    assert!(second.tokens.next.is_none());
    assert!(space_list(&ws, "proj-9", 2, 7, None, None).is_err());
}

#[test]
fn the_next_page_goes_on() {
    let ws = workspace();
    let first = contribution_list(&ws, "proj-1", &list_args(3), 7, None, None, "class-sensitive").unwrap();
    assert_eq!(first.items, vec![1, 0, 2]);
    assert_eq!(first.sensitive, 1);
    let next = first.tokens.next.unwrap();
    assert_eq!(next.key.as_deref(), Some("3"));
    let second = contribution_list(
        &ws,
        "proj-1",
        &list_args(3),
        7,
        Some(Ok(first.tokens.snapshot)),
        Some(Ok(next)),
        "class-sensitive",
    )
    .unwrap();
    assert_eq!(second.items, vec![3]);
    assert_eq!(second.sensitive, 0);
    assert!(second.tokens.next.is_none());
}

#[test]
fn contributions_are_filtered() {
    let ws = workspace();
    let mut args = list_args(9);
    args.kind = Some("claim".to_string());
    let page = contribution_list(&ws, "proj-1", &args, 7, None, None, "x").unwrap();
    assert_eq!(page.items, vec![0, 3]);
    args.branch_id = Some("branch-9".to_string());
    assert_eq!(
        contribution_list(&ws, "proj-1", &args, 7, None, None, "x").unwrap_err().kind,
        ProblemKind::NotFound
    );
    assert!(contribution_list(&ws, "proj-2", &list_args(9), 7, None, None, "x").is_err());
    let bad = token("list:contributions:space-b", 4, Some(7), Some("x"));
    let e = contribution_list(&ws, "proj-1", &list_args(9), 7, None, Some(Ok(bad)), "x").unwrap_err();
    assert_eq!(e.title, "invalid cursor");
    assert_eq!(e.detail.as_deref(), Some("cursor position is not a sequence"));
}

fn lenses() -> Table<Lens> {
    let mut t = Table::new();
    for (id, kind) in [
        ("lens-s", LensKind::Stream),
        ("lens-w", LensKind::Workbench),
        ("lens-o", LensKind::Other),
    ] {
        t.rows.push(Lens { lens_id: id.to_string(), space_id: "space-b".to_string(), kind });
    }
    t
}

fn relations() -> Table<Relation> {
    let mut t = Table::new();
    for (id, from, to, space) in [
        ("r1", "contrib-2", "contrib-4", "space-b"),
        ("r2", "contrib-4", "contrib-2", "space-b"),
        ("r3", "contrib-2", "contrib-4", "space-x"),
    ] {
        t.rows.push(Relation {
            relation_id: id.to_string(),
            space_id: space.to_string(),
            from_ref: ItemRef { object_ref: from.to_string(), digest: "d".to_string() },
            to_ref: ItemRef { object_ref: to.to_string(), digest: "d".to_string() },
            classification_ref: "c".to_string(),
        });
    }
    t
}

#[test]
fn a_stream_shows_everything_in_order() {
    let ws = workspace();
    let page = lens_read(&ws, &lenses(), &relations(), "proj-1", "lens-s", 2, 7, None, None, "x").unwrap();
    let shown: Vec<usize> = page.items.iter().map(|i| i.contribution).collect();
    assert_eq!(shown, vec![1, 0]);
    assert!(page.items[1].relations_out.is_empty());
    assert_eq!(page.tokens.next.unwrap().key.as_deref(), Some("2"));
}

#[test]
fn a_workbench_shows_cards_with_their_relations() {
    let ws = workspace();
    let page = lens_read(&ws, &lenses(), &relations(), "proj-1", "lens-w", 9, 7, None, None, "x").unwrap();
    let shown: Vec<usize> = page.items.iter().map(|i| i.contribution).collect();
    assert_eq!(shown, vec![0, 3]);
    assert_eq!(page.items[0].relations_out, vec![0]);
    assert_eq!(page.items[0].relations_in, vec![1]);
    let short = lens_read(&ws, &lenses(), &relations(), "proj-1", "lens-w", 2, 7, None, None, "x").unwrap();
    let shown: Vec<usize> = short.items.iter().map(|i| i.contribution).collect();
    assert_eq!(shown, vec![0]);
    assert!(short.tokens.next.is_some());
}

#[test]
fn following_a_workbench_shows_every_card_once() {
    let ws = workspace();
    for limit in [1, 2, 3] {
        let mut shown: Vec<usize> = Vec::new();
        let mut from: Option<(Token, Token)> = None;
        let mut pages = 0;
        loop {
            let (snapshot, after) = match from.take() {
                None => (None, None),
                Some((s, a)) => (Some(Ok(s)), Some(Ok(a))),
            };
            let page =
                lens_read(&ws, &lenses(), &relations(), "proj-1", "lens-w", limit, 7, snapshot, after, "x")
                    .unwrap();
            assert!(page.items.len() <= limit as usize);
            shown.extend(page.items.iter().map(|i| i.contribution));
            pages += 1;
            assert!(pages < 9);
            match page.tokens.next {
                None => break,
                Some(next) => from = Some((page.tokens.snapshot, next)),
            }
        }
        assert_eq!(shown, vec![0, 3]);
    }
}

#[test]
fn another_lens_shows_nothing() {
    let ws = workspace();
    for (project, lens) in [("proj-1", "lens-o"), ("proj-2", "lens-s"), ("proj-1", "lens-9")] {
        let e = lens_read(&ws, &lenses(), &relations(), project, lens, 2, 7, None, None, "x").unwrap_err();
        assert_eq!(e.kind, ProblemKind::NotFound);
    }
}

fn contexts(digest: &str) -> Contexts {
    let mut ctx = Contexts::new();
    ctx.frontiers.rows.push(Frontier {
        frontier_id: "front-1".to_string(),
        space_id: "space-b".to_string(),
        branch_id: "branch-1".to_string(),
        branch_head_digest: "head".to_string(),
    });
    ctx.assemblies.rows.push(Assembly {
        assembly_id: "asm-1".to_string(),
        project_id: "proj-1".to_string(),
        space_id: "space-b".to_string(),
        digest: "ad".to_string(),
        frontier_ref: "front-1".to_string(),
        frontier_digest: "fd".to_string(),
        items: vec![ItemRef { object_ref: "contrib-1".to_string(), digest: digest.to_string() }],
    });
    ctx
}

#[test]
fn an_assembly_is_shown_as_it_was_pinned() {
    let mut ws = workspace();
    assert!(context_assembly_show(&contexts("d1"), &ws, "proj-1", "asm-1").is_ok());
    assert_eq!(
        context_assembly_show(&contexts("d1"), &ws, "proj-2", "asm-1").unwrap_err().kind,
        ProblemKind::NotFound
    );
    let e = context_assembly_show(&contexts("d9"), &ws, "proj-1", "asm-1").unwrap_err();
    assert_eq!(e.detail.as_deref(), Some("an included item changed under its pinned digest"));
    ws.contributions.rows.clear();
    let e = context_assembly_show(&contexts("d1"), &ws, "proj-1", "asm-1").unwrap_err();
    assert_eq!(e.detail.as_deref(), Some("an included item is no longer visible"));
    assert!(frontier_show(&contexts("d"), &ws, "proj-1", "front-1").is_ok());
    assert!(frontier_show(&contexts("d"), &ws, "proj-2", "front-1").is_err());
}

#[test]
fn a_waiter_sleeps_until_there_is_something() {
    let ws = workspace();
    let step = |found: usize, waited: u64, timeout: u64| {
        events_wait(&ws, "proj-1", None, found, waited, timeout).unwrap()
    };
    assert_eq!(step(0, 0, 50), WaitStep::Sleep { millis: 20 });
    assert_eq!(step(0, 50, 50), WaitStep::Answer);
    assert_eq!(step(1, 0, 50), WaitStep::Answer);
    assert_eq!(step(0, 29_999, 1_000_000), WaitStep::Sleep { millis: 20 });
    assert_eq!(step(0, 30_000, 1_000_000), WaitStep::Answer);
    assert_eq!(step(0, 0, 0), WaitStep::Answer);
    assert!(events_wait(&ws, "proj-1", Some("proj-2"), 0, 0, 50).is_err());
}
