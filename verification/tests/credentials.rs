use koveed::credentials::{
    consume, decide, invalidate, issue, mark_consumed, read, Consumed, Credential, Ledger,
};
use koveed::problem::{Problem, ProblemKind};

fn mint(nonce: &str, ops: &[&str]) -> Result<Credential, String> {
    Ok(Credential {
        credential_id: format!("dpc-{}", nonce),
        issuer_ref: "kovee-gateway:realm-personal".to_string(),
        nonce: nonce.to_string(),
        allowed_operations: ops.iter().map(|o| o.to_string()).collect(),
        record: "{\"society_ref\":\"soc-1\"}".to_string(),
        digest_hex: "a".repeat(64),
        issued_at: 1_800_000_000,
        expires_at: 1_800_000_120,
    })
}

#[test]
fn the_issuer_nonce_pair_is_atomic_and_single_use() {
    let mut ledger = Ledger::new();
    let dpc = issue(
        &mut ledger,
        "realm-personal",
        "binding-1",
        mint("nonce-1", &["kovee_endeavor_form"]),
    )
    .unwrap();

    let first = consume(&mut ledger, &dpc, "kovee_endeavor_form", 0, || {
        Ok(b"first".to_vec())
    })
    .unwrap();
    assert_eq!(first, Consumed::Fresh(b"first".to_vec()));

    let second = consume(&mut ledger, &dpc, "kovee_endeavor_form", 1, || {
        panic!("a spent nonce must never re-execute")
    })
    .unwrap();
    assert_eq!(second, Consumed::Replayed(b"first".to_vec()));
    assert_eq!(first.bytes(), second.bytes());
}

#[test]
fn a_second_minting_under_the_same_pair_is_refused() {
    let mut ledger = Ledger::new();
    issue(
        &mut ledger,
        "realm-personal",
        "binding-1",
        mint("nonce-1", &["kovee_endeavor_form"]),
    )
    .unwrap();
    let err = issue(
        &mut ledger,
        "realm-personal",
        "binding-1",
        mint("nonce-1", &["external_command_terminalize"]),
    )
    .unwrap_err();
    assert_eq!(err.kind, ProblemKind::IdempotencyMismatch);
    assert_eq!(err.title, "this (issuer, nonce) pair is already minted");
    assert_eq!(ledger.rows.len(), 1);
}

#[test]
fn a_credential_cannot_drive_an_operation_it_does_not_name() {
    let mut ledger = Ledger::new();
    let dpc = issue(
        &mut ledger,
        "realm-personal",
        "binding-1",
        mint("nonce-1", &["kovee_endeavor_form"]),
    )
    .unwrap();
    let err = consume(&mut ledger, &dpc, "external_command_terminalize", 0, || {
        panic!("never reached")
    })
    .unwrap_err();
    assert_eq!(err.kind, ProblemKind::Forbidden);
    assert!(ledger.rows[0].spent.is_none());
}

#[test]
fn an_invalidated_credential_is_unusable() {
    let mut ledger = Ledger::new();
    let dpc = issue(
        &mut ledger,
        "realm-personal",
        "binding-1",
        mint("nonce-1", &["kovee_endeavor_form"]),
    )
    .unwrap();
    invalidate(&mut ledger, "binding-1", "governance_disable", 1);
    let err = consume(&mut ledger, &dpc, "kovee_endeavor_form", 2, || {
        panic!("never reached")
    })
    .unwrap_err();
    assert_eq!(err.kind, ProblemKind::Forbidden);
}

#[test]
fn a_failed_execution_leaves_the_nonce_unspent() {
    let mut ledger = Ledger::new();
    let dpc = issue(
        &mut ledger,
        "realm-personal",
        "binding-1",
        mint("nonce-1", &["kovee_endeavor_form"]),
    )
    .unwrap();
    let err = consume(&mut ledger, &dpc, "kovee_endeavor_form", 0, || {
        Err(Problem::new(ProblemKind::Unavailable, "byom did not answer"))
    })
    .unwrap_err();
    assert_eq!(err.kind, ProblemKind::Unavailable);
    let retried = consume(&mut ledger, &dpc, "kovee_endeavor_form", 1, || {
        Ok(b"done".to_vec())
    })
    .unwrap();
    assert_eq!(retried, Consumed::Fresh(b"done".to_vec()));
}

#[test]
fn an_unmintable_credential_is_refused_with_its_reason() {
    let mut ledger = Ledger::new();
    let err = issue(&mut ledger, "realm-personal", "b", Err("no audience".to_string())).unwrap_err();
    assert_eq!(err.kind, ProblemKind::Forbidden);
    assert_eq!(err.detail.as_deref(), Some("no audience"));
    assert!(ledger.rows.is_empty());
}

#[test]
fn a_refused_operation_lists_what_is_allowed() {
    let mut ledger = Ledger::new();
    let dpc = issue(&mut ledger, "r", "b", mint("n", &["one", "two\"x"])).unwrap();
    let answer = decide(&ledger, &dpc, "three").unwrap();
    let err = answer.unwrap_err();
    assert!(err.detail.unwrap().contains("[\"one\", \"two\\\"x\"]"));
}

#[test]
fn an_unknown_pair_is_not_found() {
    let mut ledger = Ledger::new();
    let dpc = mint("n", &["one"]).unwrap();
    assert!(decide(&ledger, &dpc, "one").is_none());
    let err = consume(&mut ledger, &dpc, "one", 0, || Ok(vec![1])).unwrap_err();
    assert_eq!(err.kind, ProblemKind::NotFound);
    assert!(read(&ledger, "kovee-gateway:realm-personal", "n").is_none());
}

#[test]
fn invalidating_one_binding_leaves_the_others() {
    let mut ledger = Ledger::new();
    issue(&mut ledger, "r", "b1", mint("n1", &["one"])).unwrap();
    let other = issue(&mut ledger, "r", "b2", mint("n2", &["one"])).unwrap();
    invalidate(&mut ledger, "b1", "governance_disable", 7);
    let spent = ledger.rows[0].spent.as_ref().unwrap();
    assert_eq!(spent.at, 7);
    assert_eq!(spent.operation, "governance_disable");
    assert!(spent.result.is_none());
    assert!(ledger.rows[1].spent.is_none());
    let used = consume(&mut ledger, &other, "one", 8, || Ok(vec![1])).unwrap();
    assert_eq!(used, Consumed::Fresh(vec![1]));
}

#[test]
fn marking_twice_keeps_the_first_result() {
    let mut ledger = Ledger::new();
    let dpc = issue(&mut ledger, "r", "b", mint("n", &["one"])).unwrap();
    mark_consumed(&mut ledger, &dpc, "one", 3, &vec![1, 2]);
    mark_consumed(&mut ledger, &dpc, "two", 4, &vec![9]);
    let spent = ledger.rows[0].spent.as_ref().unwrap();
    assert_eq!(spent.at, 3);
    assert_eq!(spent.operation, "one");
    assert_eq!(spent.result.as_deref(), Some(&[1u8, 2][..]));
}
