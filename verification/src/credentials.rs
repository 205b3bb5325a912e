//! Delegated-principal credentials under the atomic `(issuer_ref, nonce)`
//! rule: one pair is minted once, spent once, and every later use of a spent
//! pair returns the bytes that its first use stored.

use vstd::prelude::*;

use crate::problem::{not_found, not_found_view, problem, refusal, refusal_with, Problem,
    ProblemKind, ProblemView};
use crate::table::{Key, Row, Table};
use crate::text::{cat3, list_holds, lists, quoted, quoted_text, same, views};

use vstd::string::*;

verus! {

/// One minted credential, as the gateway hands it out.
#[derive(Debug)]
pub struct Credential {
    pub credential_id: String,
    pub issuer_ref: String,
    pub nonce: String,
    pub allowed_operations: Vec<String>,
    /// The canonical text of the whole record.
    pub record: String,
    pub digest_hex: String,
    pub issued_at: i64,
    pub expires_at: i64,
}

/// How a pair was spent. A pair that was invalidated before use holds no
/// result.
#[derive(Debug)]
pub struct Spent {
    pub at: i64,
    pub operation: String,
    pub result: Option<Vec<u8>>,
}

/// The row of one credential.
#[derive(Debug)]
pub struct CredentialRow {
    pub credential_id: String,
    pub issuer_ref: String,
    pub nonce: String,
    pub realm_ref: String,
    pub binding_ref: String,
    pub record: String,
    pub digest_hex: String,
    pub issued_at: i64,
    pub expires_at: i64,
    pub spent: Option<Spent>,
}

impl Row for CredentialRow {
    open spec fn key(&self) -> Key {
        (self.issuer_ref@, self.nonce@)
    }

    fn has_key(&self, a: &str, b: &str) -> (r: bool) {
        same(self.issuer_ref.as_str(), a) && same(self.nonce.as_str(), b)
    }
}

/// The ledger of every credential this daemon minted.
pub type Ledger = Table<CredentialRow>;

/// The outcome of one `(issuer, nonce)` consumption.
#[derive(Debug, Clone, PartialEq, Eq)]
pub enum Consumed {
    /// This call executed the operation; its bytes are now stored.
    Fresh(Vec<u8>),
    /// The pair was already spent; these are the stored bytes.
    Replayed(Vec<u8>),
}

impl Consumed {
    pub open spec fn content(&self) -> Seq<u8> {
        match self {
            Consumed::Fresh(b) => b@,
            Consumed::Replayed(b) => b@,
        }
    }

    pub fn bytes(&self) -> (r: &[u8])
        ensures
            r@ == self.content(),
    {
        match self {
            Consumed::Fresh(b) => b.as_slice(),
            Consumed::Replayed(b) => b.as_slice(),
        }
    }
}

impl Credential {
    /// The pair under which the credential is minted and spent.
    pub open spec fn pair(&self) -> Key {
        (self.issuer_ref@, self.nonce@)
    }
}

/// Whether `row` is the unspent record of `dpc` under a realm and a binding.
pub open spec fn minted_row(
    row: CredentialRow,
    realm: Seq<char>,
    binding_ref: Seq<char>,
    dpc: Credential,
) -> bool {
    &&& row.credential_id@ == dpc.credential_id@
    &&& row.issuer_ref@ == dpc.issuer_ref@
    &&& row.nonce@ == dpc.nonce@
    &&& row.realm_ref@ == realm
    &&& row.binding_ref@ == binding_ref
    &&& row.record@ == dpc.record@
    &&& row.digest_hex@ == dpc.digest_hex@
    &&& row.issued_at == dpc.issued_at
    &&& row.expires_at == dpc.expires_at
    &&& row.spent is None
}

pub open spec fn already_minted() -> ProblemView {
    refusal(ProblemKind::IdempotencyMismatch, "this (issuer, nonce) pair is already minted"@)
}

pub open spec fn not_mintable(reason: Seq<char>) -> ProblemView {
    refusal_with(
        ProblemKind::Forbidden,
        "the delegated-principal credential is not mintable"@,
        reason,
    )
}

/// What recording a credential does.
pub open spec fn record_outcome(
    ledger: Ledger,
    ledger_after: Ledger,
    realm: Seq<char>,
    binding_ref: Seq<char>,
    dpc: Credential,
    r: Result< (), Problem, >,
) -> bool {
    &&& r is Err <==> ledger@.contains_key(dpc.pair())
    &&& match r {
        Ok(()) => {
            &&& ledger_after.rows@.len() == ledger.rows@.len() + 1
            &&& minted_row(ledger_after.rows@.last(), realm, binding_ref, dpc)
            &&& ledger_after.rows@ == ledger.rows@.push(ledger_after.rows@.last())
            &&& ledger_after@ == ledger@.insert(dpc.pair(), ledger_after.rows@.last())
        },
        Err(p) => p@ == already_minted() && ledger_after == ledger,
    }
}

/// Records one minted credential. A pair that already stands in the ledger
/// is refused, and the ledger stays as it was.
pub fn record(ledger: &mut Ledger, realm: &str, binding_ref: &str, dpc: &Credential) -> (r: Result<
    (),
    Problem,
>)
    requires
        old(ledger).wf(),
    ensures
        final(ledger).wf(),
        record_outcome(
            *old(ledger),
            *final(ledger),
            realm@,
            binding_ref@,
            *dpc,
            r,
        ),
{
    if ledger.position(dpc.issuer_ref.as_str(), dpc.nonce.as_str()).is_some() {
        return Err(
            Problem::new(
                ProblemKind::IdempotencyMismatch,
                "this (issuer, nonce) pair is already minted",
            ),
        );
    }
    let row = CredentialRow {
        credential_id: dpc.credential_id.clone(),
        issuer_ref: dpc.issuer_ref.clone(),
        nonce: dpc.nonce.clone(),
        realm_ref: realm.to_owned(),
        binding_ref: binding_ref.to_owned(),
        record: dpc.record.clone(),
        digest_hex: dpc.digest_hex.clone(),
        issued_at: dpc.issued_at,
        expires_at: dpc.expires_at,
        spent: None,
    };
    ledger.insert(row);
    Ok(())
}

/// What issuing a credential does and answers.
pub open spec fn issue_outcome(
    ledger: Ledger,
    ledger_after: Ledger,
    realm: Seq<char>,
    binding_ref: Seq<char>,
    minted: Result<Credential, String>,
    r: Result<Credential, Problem>,
) -> bool {
    &&& match minted {
        Err(e) => refused_unchanged(r, not_mintable(e@), ledger, ledger_after),
        Ok(dpc) => if ledger@.contains_key(dpc.pair()) {
            refused_unchanged(r, already_minted(), ledger, ledger_after)
        } else {
            &&& r == Ok::<Credential, Problem>(dpc)
            &&& minted_row(ledger_after.rows@.last(), realm, binding_ref, dpc)
            &&& ledger_after.rows@ == ledger.rows@.push(ledger_after.rows@.last())
            &&& ledger_after@ == ledger@.insert(dpc.pair(), ledger_after.rows@.last())
        },
    }
}

/// Records the credential that minting against a binding gave, or refuses
/// with the reason why it gave none.
pub fn issue(
    ledger: &mut Ledger,
    realm: &str,
    binding_ref: &str,
    minted: Result<Credential, String>,
) -> (r: Result<Credential, Problem>)
    requires
        old(ledger).wf(),
    ensures
        final(ledger).wf(),
        issue_outcome(
            *old(ledger),
            *final(ledger),
            realm@,
            binding_ref@,
            minted,
            r,
        ),
{
    match minted {
        Err(e) => Err(
            problem(
                ProblemKind::Forbidden,
                "the delegated-principal credential is not mintable",
                e.as_str(),
            ),
        ),
        Ok(dpc) => {
            match record(ledger, realm, binding_ref, &dpc) {
                Ok(()) => Ok(dpc),
                Err(p) => Err(p),
            }
        },
    }
}

/// A refusal that leaves the ledger as it was.
pub open spec fn refused_unchanged<T>(
    r: Result<T, Problem>,
    p: ProblemView,
    before: Ledger,
    after: Ledger,
) -> bool {
    r is Err && r->Err_0@ == p && after == before
}

/// The recorded text of one pair.
pub fn read<'a>(ledger: &'a Ledger, issuer_ref: &str, nonce: &str) -> (r: Option<&'a CredentialRow>)
    requires
        ledger.wf(),
    ensures
        match r {
            Some(row) => ledger@.contains_key((issuer_ref@, nonce@)) && *row == ledger@[(
                issuer_ref@,
                nonce@,
            )],
            None => !ledger@.contains_key((issuer_ref@, nonce@)),
        },
{
    ledger.find(issuer_ref, nonce)
}

/// Everything of a row but how it was spent.
pub open spec fn same_minting(a: CredentialRow, b: CredentialRow) -> bool {
    &&& a.credential_id == b.credential_id
    &&& a.issuer_ref == b.issuer_ref
    &&& a.nonce == b.nonce
    &&& a.realm_ref == b.realm_ref
    &&& a.binding_ref == b.binding_ref
    &&& a.record == b.record
    &&& a.digest_hex == b.digest_hex
    &&& a.issued_at == b.issued_at
    &&& a.expires_at == b.expires_at
}

fn with_spent(row: &CredentialRow, spent: Option<Spent>) -> (r: CredentialRow)
    ensures
        same_minting(r, *row),
        r.spent == spent,
{
    CredentialRow {
        credential_id: row.credential_id.clone(),
        issuer_ref: row.issuer_ref.clone(),
        nonce: row.nonce.clone(),
        realm_ref: row.realm_ref.clone(),
        binding_ref: row.binding_ref.clone(),
        record: row.record.clone(),
        digest_hex: row.digest_hex.clone(),
        issued_at: row.issued_at,
        expires_at: row.expires_at,
        spent,
    }
}

/// How marking a pair leaves it spent: each member keeps the value it was
/// first given.
pub open spec fn marked(
    before: Option<Spent>,
    after: Option<Spent>,
    operation: Seq<char>,
    now: i64,
    result: Seq<u8>,
) -> bool {
    &&& after is Some
    &&& match before {
        Some(s) => {
            &&& after->0.at == s.at
            &&& after->0.operation@ == s.operation@
            &&& after->0.result is Some
            &&& match s.result {
                Some(b) => after->0.result->0@ == b@,
                None => after->0.result->0@ == result,
            }
        },
        None => {
            &&& after->0.at == now
            &&& after->0.operation@ == operation
            &&& after->0.result is Some
            &&& after->0.result->0@ == result
        },
    }
}

/// Marks the pair of an issuer and a nonce spent.
pub(crate) fn mark_pair(
    ledger: &mut Ledger,
    issuer: &str,
    nonce: &str,
    operation: &str,
    now: i64,
    result: &Vec<u8>,
)
    requires
        old(ledger).wf(),
    ensures
        final(ledger).wf(),
        ({
            let k: Key = (issuer@, nonce@);
            if old(ledger)@.contains_key(k) {
                &&& final(ledger)@.contains_key(k)
                &&& final(ledger)@ == old(ledger)@.insert(k, final(ledger)@[k])
                &&& same_minting(final(ledger)@[k], old(ledger)@[k])
                &&& marked(
                    old(ledger)@[k].spent,
                    final(ledger)@[k].spent,
                    operation@,
                    now,
                    result@,
                )
            } else {
                *final(ledger) == *old(ledger)
            }
        }),
{
    match ledger.position(issuer, nonce) {
        None => {},
        Some(i) => {
            let row = &ledger.rows[i];
            let spent = match &row.spent {
                Some(s) => Spent {
                    at: s.at,
                    operation: s.operation.clone(),
                    result: match &s.result {
                        Some(b) => Some(b.clone()),
                        None => Some(result.clone()),
                    },
                },
                None => Spent {
                    at: now,
                    operation: operation.to_owned(),
                    result: Some(result.clone()),
                },
            };
            let next = with_spent(row, Some(spent));
            ledger.replace(next, issuer, nonce);
        },
    }
}

/// What marking a credential consumed does and answers.
pub open spec fn consumed_outcome(
    ledger: Ledger,
    ledger_after: Ledger,
    dpc: Credential,
    operation: Seq<char>,
    now: i64,
    result: Vec<u8>,
) -> bool {
    &&& if ledger@.contains_key(dpc.pair()) {
        &&& ledger_after@.contains_key(dpc.pair())
        &&& ledger_after@ == ledger@.insert(dpc.pair(), ledger_after@[dpc.pair()])
        &&& same_minting(ledger_after@[dpc.pair()], ledger@[dpc.pair()])
        &&& marked(
            ledger@[dpc.pair()].spent,
            ledger_after@[dpc.pair()].spent,
            operation,
            now,
            result@,
        )
    } else {
        ledger_after == ledger
    }
}

/// Marks a pair spent with the bytes that a replay must return. What an
/// earlier marking stored stays; an unknown pair changes nothing.
pub fn mark_consumed(
    ledger: &mut Ledger,
    dpc: &Credential,
    operation: &str,
    now: i64,
    result: &Vec<u8>,
)
    requires
        old(ledger).wf(),
    ensures
        final(ledger).wf(),
        consumed_outcome(
            *old(ledger),
            *final(ledger),
            *dpc,
            operation@,
            now,
            *result,
        ),
{
    mark_pair(ledger, dpc.issuer_ref.as_str(), dpc.nonce.as_str(), operation, now, result);
}

/// What invalidating credentials does.
pub open spec fn invalidate_outcome(
    ledger: Ledger,
    ledger_after: Ledger,
    binding_ref: Seq<char>,
    operation: Seq<char>,
    now: i64,
) -> bool {
    &&& ledger_after.rows@.len() == ledger.rows@.len()
    &&& forall|i: int|
        0 <= i < ledger.rows@.len() ==> invalidated(
            ledger.rows@[i],
            #[trigger] ledger_after.rows@[i],
            binding_ref,
            operation,
            now,
        )
}

/// Invalidates every credential of a binding that is not yet spent: it is
/// spent from then on, and holds no result.
pub fn invalidate(ledger: &mut Ledger, binding_ref: &str, operation: &str, now: i64)
    requires
        old(ledger).wf(),
    ensures
        final(ledger).wf(),
        invalidate_outcome(
            *old(ledger),
            *final(ledger),
            binding_ref@,
            operation@,
            now,
        ),
{
    let mut i: usize = 0;
    while i < ledger.rows.len()
        invariant
            old(ledger).wf(),
            i <= ledger.rows@.len(),
            ledger.rows@.len() == old(ledger).rows@.len(),
            forall|j: int|
                0 <= j < i ==> invalidated(
                    old(ledger).rows@[j],
                    #[trigger] ledger.rows@[j],
                    binding_ref@,
                    operation@,
                    now,
                ),
            forall|j: int| i <= j < ledger.rows@.len() ==> #[trigger] ledger.rows@[j] == old(ledger).rows@[j],
        decreases ledger.rows.len() - i,
    {
        if same(ledger.rows[i].binding_ref.as_str(), binding_ref) && ledger.rows[i].spent.is_none() {
            let next = with_spent(
                &ledger.rows[i],
                Some(Spent { at: now, operation: operation.to_owned(), result: None }),
            );
            ledger.rows.set(i, next);
        }
        i = i + 1;
    }
    proof {
        let before = old(ledger).rows@;
        assert forall|a: int, b: int| 0 <= a < b < ledger.rows@.len() implies #[trigger] ledger.rows@[a].key()
            != #[trigger] ledger.rows@[b].key() by {
            assert(before[a].key() != before[b].key());
        }
    }
}

/// What invalidating a binding makes of one row.
pub open spec fn invalidated(
    before: CredentialRow,
    after: CredentialRow,
    binding_ref: Seq<char>,
    operation: Seq<char>,
    now: i64,
) -> bool {
    if before.binding_ref@ == binding_ref && before.spent is None {
        &&& same_minting(after, before)
        &&& after.spent is Some
        &&& after.spent->0.at == now
        &&& after.spent->0.operation@ == operation
        &&& after.spent->0.result is None
    } else {
        after == before
    }
}

/// The list rendering of a text list: `["a", "b"]`.
pub open spec fn rendered_list(v: Seq<Seq<char>>) -> Seq<char> {
    "["@ + rendered_items(v) + "]"@
}

pub open spec fn rendered_items(v: Seq<Seq<char>>) -> Seq<char>
    decreases v.len(),
{
    if v.len() == 0 {
        Seq::<char>::empty()
    } else if v.len() == 1 {
        quoted_text(v[0])
    } else {
        rendered_items(v.drop_last()) + ", "@ + quoted_text(v.last())
    }
}

fn render_list(v: &Vec<String>) -> (r: String)
    ensures
        r@ == rendered_list(views(v@)),
{
    let mut items = String::new();
    let mut i: usize = 0;
    proof {
        assert(views(v@).take(0).len() == 0);
    }
    while i < v.len()
        invariant
            i <= v.len(),
            items@ == rendered_items(views(v@).take(i as int)),
        decreases v.len() - i,
    {
        let q = quoted(v[i].as_str());
        proof {
            assert(views(v@).take(i + 1).drop_last() =~= views(v@).take(i as int));
            assert(views(v@).take(i + 1).last() == v@[i as int]@);
        }
        if i > 0 {
            items.append(", ");
            items.append(q.as_str());
        } else {
            items = q;
        }
        i = i + 1;
    }
    proof {
        assert(views(v@).take(i as int) =~= views(v@));
    }
    cat3("[", items.as_str(), "]")
}

pub open spec fn not_allowed(dpc: Credential) -> ProblemView {
    refusal_with(
        ProblemKind::Forbidden,
        "the credential does not allow this operation"@,
        "allowed_operations is "@ + rendered_list(views(dpc.allowed_operations@)),
    )
}

pub open spec fn invalidated_before_use() -> ProblemView {
    refusal(ProblemKind::Forbidden, "the credential was invalidated before use"@)
}

/// How the first use of a pair leaves its row.
pub open spec fn spent_fresh(
    before: CredentialRow,
    after: CredentialRow,
    operation: Seq<char>,
    now: i64,
    bytes: Seq<u8>,
) -> bool {
    &&& same_minting(after, before)
    &&& after.spent is Some
    &&& after.spent->0.at == now
    &&& after.spent->0.operation@ == operation
    &&& after.spent->0.result is Some
    &&& after.spent->0.result->0@ == bytes
}

/// Whether a use of `dpc` for `operation` would execute: the credential
/// names the operation, and its pair is not spent.
pub open spec fn would_execute(ledger: Ledger, dpc: Credential, operation: Seq<char>) -> bool {
    &&& lists(dpc.allowed_operations@, operation)
    &&& ledger@.contains_key(dpc.pair()) ==> ledger@[dpc.pair()].spent is None
}

/// What a use answers when it does not execute; the ledger stays as it was.
pub open spec fn answered(
    ledger: Ledger,
    dpc: Credential,
    operation: Seq<char>,
    r: Result<Consumed, Problem>,
) -> bool {
    if !lists(dpc.allowed_operations@, operation) {
        r is Err && r->Err_0@ == not_allowed(dpc)
    } else {
        match ledger@[dpc.pair()].spent->0.result {
            Some(b) => r matches Ok(Consumed::Replayed(c)) && c@ == b@,
            None => r is Err && r->Err_0@ == invalidated_before_use(),
        }
    }
}

/// What a use answers, and leaves behind, once the operation gave `executed`.
pub open spec fn concluded(
    before: Ledger,
    after: Ledger,
    dpc: Credential,
    operation: Seq<char>,
    now: i64,
    executed: Result<Vec<u8>, Problem>,
    r: Result<Consumed, Problem>,
) -> bool {
    match executed {
        Err(p) => r == Err::<Consumed, Problem>(p) && after == before,
        Ok(b) => if before@.contains_key(dpc.pair()) {
            &&& r matches Ok(Consumed::Fresh(c)) && c@ == b@
            &&& after@.contains_key(dpc.pair())
            &&& after@ == before@.insert(dpc.pair(), after@[dpc.pair()])
            &&& spent_fresh(before@[dpc.pair()], after@[dpc.pair()], operation, now, b@)
        } else {
            r is Err && r->Err_0@ == not_found_view() && after == before
        },
    }
}

/// Decides a use without executing anything: the answer that stands already,
/// or `None` when the operation is to be executed.
pub fn decide(ledger: &Ledger, dpc: &Credential, operation: &str) -> (r: Option<
    Result<Consumed, Problem>,
>)
    requires
        ledger.wf(),
    ensures
        r is None <==> would_execute(*ledger, *dpc, operation@),
        r is Some ==> answered(*ledger, *dpc, operation@, r->0),
{
    if !list_holds(&dpc.allowed_operations, operation) {
        let listed = render_list(&dpc.allowed_operations);
        let detail = crate::text::cat2("allowed_operations is ", listed.as_str());
        return Some(
            Err(
                problem(
                    ProblemKind::Forbidden,
                    "the credential does not allow this operation",
                    detail.as_str(),
                ),
            ),
        );
    }
    match ledger.find(dpc.issuer_ref.as_str(), dpc.nonce.as_str()) {
        None => None,
        Some(row) => match &row.spent {
            None => None,
            Some(s) => match &s.result {
                Some(b) => Some(Ok(Consumed::Replayed(b.clone()))),
                None => Some(
                    Err(
                        Problem::new(
                            ProblemKind::Forbidden,
                            "the credential was invalidated before use",
                        ),
                    ),
                ),
            },
        },
    }
}

/// Concludes a use that executed: a failure leaves the pair unspent, a
/// success stores its bytes and spends the pair.
pub fn conclude(
    ledger: &mut Ledger,
    dpc: &Credential,
    operation: &str,
    now: i64,
    executed: Result<Vec<u8>, Problem>,
) -> (r: Result<Consumed, Problem>)
    requires
        old(ledger).wf(),
        would_execute(*old(ledger), *dpc, operation@),
    ensures
        final(ledger).wf(),
        concluded(*old(ledger), *final(ledger), *dpc, operation@, now, executed, r),
{
    match executed {
        Err(p) => Err(p),
        Ok(bytes) => {
            let issuer = dpc.issuer_ref.as_str();
            let nonce = dpc.nonce.as_str();
            match ledger.position(issuer, nonce) {
                None => Err(not_found()),
                Some(i) => {
                    let next = with_spent(
                        &ledger.rows[i],
                        Some(
                            Spent {
                                at: now,
                                operation: operation.to_owned(),
                                result: Some(bytes.clone()),
                            },
                        ),
                    );
                    ledger.replace(next, issuer, nonce);
                    Ok(Consumed::Fresh(bytes))
                },
            }
        },
    }
}

/// What presenting a credential does and answers.
pub open spec fn consume_outcome<F: FnOnce() -> Result<Vec<u8>, Problem>>(
    ledger: Ledger,
    ledger_after: Ledger,
    dpc: Credential,
    operation: Seq<char>,
    now: i64,
    execute: F,
    r: Result<Consumed, Problem>,
) -> bool {
    &&& if would_execute(ledger, dpc, operation) {
        exists|e: Result<Vec<u8>, Problem>| #[trigger]
            execute.ensures((), e) && concluded(
                ledger,
                ledger_after,
                dpc,
                operation,
                now,
                e,
                r,
            )
    } else {
        answered(ledger, dpc, operation, r) && ledger_after == ledger
    }
}

/// Consumes the credential exactly once. `execute` runs only on the first
/// consumption; every later call returns the stored bytes verbatim.
pub fn consume<F: FnOnce() -> Result<Vec<u8>, Problem>>(
    ledger: &mut Ledger,
    dpc: &Credential,
    operation: &str,
    now: i64,
    execute: F,
) -> (r: Result<Consumed, Problem>)
    requires
        old(ledger).wf(),
        execute.requires(()),
    ensures
        final(ledger).wf(),
        consume_outcome(
            *old(ledger),
            *final(ledger),
            *dpc,
            operation@,
            now,
            execute,
            r,
        ),
{
    match decide(ledger, dpc, operation) {
        Some(answer) => answer,
        None => {
            let executed = execute();
            conclude(ledger, dpc, operation, now, executed)
        },
    }
}

// ------------------------------------------------------------------ laws ----

/// A pair is spent once: after a use that executed, no use of it executes
/// again, and each answers with the bytes that the first use stored.
pub proof fn single_use(
    before: Ledger,
    after: Ledger,
    dpc: Credential,
    operation: Seq<char>,
    now: i64,
    bytes: Vec<u8>,
    r: Result<Consumed, Problem>,
    later_operation: Seq<char>,
    later: Result<Consumed, Problem>,
)
    requires
        concluded(before, after, dpc, operation, now, Ok(bytes), r),
        r is Ok,
        lists(dpc.allowed_operations@, later_operation),
        answered(after, dpc, later_operation, later),
    ensures
        !would_execute(after, dpc, later_operation),
        later is Ok,
        later->Ok_0.content() == r->Ok_0.content(),
        later->Ok_0 is Replayed,
{
}

/// A use whose execution failed spends nothing: the same use still executes.
pub proof fn failure_leaves_unspent(
    before: Ledger,
    after: Ledger,
    dpc: Credential,
    operation: Seq<char>,
    now: i64,
    p: Problem,
    r: Result<Consumed, Problem>,
)
    requires
        would_execute(before, dpc, operation),
        concluded(before, after, dpc, operation, now, Err(p), r),
    ensures
        would_execute(after, dpc, operation),
        after == before,
{
}

/// An invalidated credential never executes, and replays nothing.
pub proof fn invalidation_is_final(
    before: Ledger,
    after: Ledger,
    dpc: Credential,
    binding_ref: Seq<char>,
    voiding: Seq<char>,
    now: i64,
    operation: Seq<char>,
    later: Result<Consumed, Problem>,
)
    requires
        before.wf(),
        after.wf(),
        before@.contains_key(dpc.pair()),
        before@[dpc.pair()].spent is None,
        before@[dpc.pair()].binding_ref@ == binding_ref,
        after.rows@.len() == before.rows@.len(),
        forall|i: int|
            0 <= i < before.rows@.len() ==> invalidated(
                before.rows@[i],
                #[trigger] after.rows@[i],
                binding_ref,
                voiding,
                now,
            ),
        lists(dpc.allowed_operations@, operation),
        answered(after, dpc, operation, later),
    ensures
        !would_execute(after, dpc, operation),
        later is Err,
        later->Err_0@ == invalidated_before_use(),
{
    let i = crate::table::table_row(before, dpc.pair());
    assert(invalidated(before.rows@[i], after.rows@[i], binding_ref, voiding, now));
    crate::table::table_at(after, i);
}

/// A credential is minted as it was drawn up, unspent, and once for its issuer
/// and nonce; what is minted is what is handed out. A second minting of the pair
/// and a credential that cannot be minted leave the ledger as it was.
pub proof fn a_credential_is_minted_once(
    before: Ledger,
    after: Ledger,
    realm: Seq<char>,
    binding: Seq<char>,
    minted: Result<Credential, String>,
    r: Result<Credential, Problem>,
    other: Key,
)
    requires
        issue_outcome(before, after, realm, binding, minted, r),
        minted is Ok ==> other != minted->Ok_0.pair(),
    ensures
        r is Ok <==> minted is Ok && !before@.contains_key(minted->Ok_0.pair()),
        r is Err ==> after == before,
        minted is Err ==> r is Err && r->Err_0@.kind == ProblemKind::Forbidden && r->Err_0@.detail
            == Some(minted->Err_0@),
        minted is Ok && r is Err ==> r->Err_0@.kind == ProblemKind::IdempotencyMismatch,
        r is Ok ==> {
            let dpc = r->Ok_0;
            let row = after@[(dpc.issuer_ref@, dpc.nonce@)];
            &&& dpc == minted->Ok_0
            &&& after@.contains_key((dpc.issuer_ref@, dpc.nonce@))
            &&& row.credential_id@ == dpc.credential_id@
            &&& row.issuer_ref@ == dpc.issuer_ref@
            &&& row.nonce@ == dpc.nonce@
            &&& row.realm_ref@ == realm
            &&& row.binding_ref@ == binding
            &&& row.record@ == dpc.record@
            &&& row.digest_hex@ == dpc.digest_hex@
            &&& row.issued_at == dpc.issued_at
            &&& row.expires_at == dpc.expires_at
            &&& row.spent is None
            &&& after@.contains_key(other) == before@.contains_key(other)
            &&& before@.contains_key(other) ==> after@[other] == before@[other]
        },
{
}

/// A credential on record is there as it was drawn up, and a pair that is on
/// record is refused and left as it stands.
pub proof fn a_credential_is_recorded_once(
    before: Ledger,
    mid: Ledger,
    after: Ledger,
    realm: Seq<char>,
    binding: Seq<char>,
    dpc: Credential,
    again: Credential,
    r: Result<(), Problem>,
    second: Result<(), Problem>,
)
    requires
        record_outcome(before, mid, realm, binding, dpc, r),
        record_outcome(mid, after, realm, binding, again, second),
        again.pair() == dpc.pair(),
    ensures
        r is Ok <==> !before@.contains_key((dpc.issuer_ref@, dpc.nonce@)),
        r is Err ==> mid == before,
        r is Ok ==> {
            let row = mid@[(dpc.issuer_ref@, dpc.nonce@)];
            &&& row.credential_id@ == dpc.credential_id@
            &&& row.record@ == dpc.record@
            &&& row.digest_hex@ == dpc.digest_hex@
            &&& row.realm_ref@ == realm
            &&& row.binding_ref@ == binding
            &&& row.issued_at == dpc.issued_at
            &&& row.expires_at == dpc.expires_at
            &&& row.spent is None
        },
        second is Err,
        second->Err_0@.kind == ProblemKind::IdempotencyMismatch,
        after == mid,
{
}

/// A mark of use is made once: the first gives the time, the operation and the
/// result, a later one changes none of them but fills in a result that was not
/// known. What the credential was minted as stays, and so does every other.
pub proof fn a_use_is_marked_once(
    before: Ledger,
    mid: Ledger,
    after: Ledger,
    dpc: Credential,
    operation: Seq<char>,
    later_operation: Seq<char>,
    now: i64,
    later: i64,
    result: Vec<u8>,
    later_result: Vec<u8>,
    other: Key,
)
    requires
        before@.contains_key(dpc.pair()),
        consumed_outcome(before, mid, dpc, operation, now, result),
        consumed_outcome(mid, after, dpc, later_operation, later, later_result),
        other != dpc.pair(),
    ensures
        mid@[dpc.pair()].spent is Some,
        before@[dpc.pair()].spent is None ==> {
            let s = mid@[dpc.pair()].spent->0;
            &&& s.at == now
            &&& s.operation@ == operation
            &&& s.result is Some
            &&& s.result->0@ == result@
        },
        before@[dpc.pair()].spent is Some ==> {
            let s = before@[dpc.pair()].spent->0;
            let t = mid@[dpc.pair()].spent->0;
            &&& t.at == s.at
            &&& t.operation@ == s.operation@
            &&& t.result is Some
            &&& s.result is Some ==> t.result->0@ == s.result->0@
            &&& s.result is None ==> t.result->0@ == result@
        },
        ({
            let s = mid@[dpc.pair()].spent->0;
            let t = after@[dpc.pair()].spent->0;
            &&& t.at == s.at
            &&& t.operation@ == s.operation@
            &&& t.result->0@ == s.result->0@
        }),
        mid@[dpc.pair()].record == before@[dpc.pair()].record,
        mid@[dpc.pair()].digest_hex == before@[dpc.pair()].digest_hex,
        mid@[dpc.pair()].binding_ref == before@[dpc.pair()].binding_ref,
        mid@[dpc.pair()].expires_at == before@[dpc.pair()].expires_at,
        before@.contains_key(other) ==> mid@[other] == before@[other],
{
}

/// Voiding what a binding holds spends its unspent credentials without a result,
/// at the time and by the operation given, and touches no other credential: not
/// one of another binding, and not one that was used.
pub proof fn voiding_spends_what_was_not_used(
    before: Ledger,
    after: Ledger,
    binding: Seq<char>,
    operation: Seq<char>,
    now: i64,
    i: int,
)
    requires
        invalidate_outcome(before, after, binding, operation, now),
        0 <= i < before.rows@.len(),
    ensures
        after.rows@.len() == before.rows@.len(),
        before.rows@[i].binding_ref@ != binding ==> after.rows@[i] == before.rows@[i],
        before.rows@[i].spent is Some ==> after.rows@[i] == before.rows@[i],
        before.rows@[i].binding_ref@ == binding ==> after.rows@[i].spent is Some,
        before.rows@[i].binding_ref@ == binding && before.rows@[i].spent is None ==> {
            let s = after.rows@[i].spent->0;
            &&& s.at == now
            &&& s.operation@ == operation
            &&& s.result is None
            &&& after.rows@[i].record == before.rows@[i].record
            &&& after.rows@[i].digest_hex == before.rows@[i].digest_hex
            &&& after.rows@[i].credential_id == before.rows@[i].credential_id
            &&& after.rows@[i].binding_ref == before.rows@[i].binding_ref
            &&& after.rows@[i].issuer_ref == before.rows@[i].issuer_ref
            &&& after.rows@[i].nonce == before.rows@[i].nonce
        },
{
    assert(invalidated(before.rows@[i], after.rows@[i], binding, operation, now));
}

/// A credential is used for an operation it lists, and for no other; unspent it
/// is spent by the use, with the bytes that came of it; spent it gives those
/// bytes back and nothing runs; voided it gives nothing. A use that failed
/// spends nothing.
pub proof fn a_credential_gives_its_bytes<F: FnOnce() -> Result<Vec<u8>, Problem>>(
    before: Ledger,
    after: Ledger,
    dpc: Credential,
    operation: Seq<char>,
    now: i64,
    execute: F,
    r: Result<Consumed, Problem>,
    other: Key,
)
    requires
        consume_outcome(before, after, dpc, operation, now, execute, r),
        other != dpc.pair(),
    ensures
        r is Err ==> after == before,
        (forall|i: int|
            0 <= i < dpc.allowed_operations@.len() ==> #[trigger] dpc.allowed_operations@[i]@
                != operation) ==> r is Err && r->Err_0@.kind == ProblemKind::Forbidden,
        r is Ok && r->Ok_0 is Replayed ==> {
            &&& after == before
            &&& before@[dpc.pair()].spent is Some ==> before@[dpc.pair()].spent->0.result is Some
                && r->Ok_0.content() == before@[dpc.pair()].spent->0.result->0@
        },
        r is Ok && r->Ok_0 is Fresh ==> {
            let s = after@[dpc.pair()].spent;
            &&& before@.contains_key(dpc.pair())
            &&& before@[dpc.pair()].spent is None
            &&& s is Some
            &&& s->0.at == now
            &&& s->0.operation@ == operation
            &&& s->0.result is Some
            &&& s->0.result->0@ == r->Ok_0.content()
            &&& after@[dpc.pair()].record == before@[dpc.pair()].record
            &&& after@[dpc.pair()].binding_ref == before@[dpc.pair()].binding_ref
            &&& after@[dpc.pair()].digest_hex == before@[dpc.pair()].digest_hex
            &&& exists|e: Result<Vec<u8>, Problem>| #[trigger]
                execute.ensures((), e) && e is Ok && e->Ok_0@ == r->Ok_0.content()
        },
        before@.contains_key(dpc.pair()) && before@[dpc.pair()].spent is Some ==> after == before,
        before@.contains_key(dpc.pair()) && before@[dpc.pair()].spent is Some && lists(
            dpc.allowed_operations@,
            operation,
        ) ==> {
            &&& r is Ok <==> before@[dpc.pair()].spent->0.result is Some
            &&& r is Ok ==> r->Ok_0 is Replayed && r->Ok_0.content()
                == before@[dpc.pair()].spent->0.result->0@
            &&& r is Err ==> r->Err_0@.kind == ProblemKind::Forbidden
        },
        before@.contains_key(dpc.pair()) && before@[dpc.pair()].spent is None && lists(
            dpc.allowed_operations@,
            operation,
        ) && r is Err ==> exists|e: Result<Vec<u8>, Problem>| #[trigger]
            execute.ensures((), e) && e is Err && e->Err_0 == r->Err_0,
        before@.contains_key(other) ==> after@[other] == before@[other],
{
    if forall|i: int|
        0 <= i < dpc.allowed_operations@.len() ==> #[trigger] dpc.allowed_operations@[i]@
            != operation {
        assert(!lists(dpc.allowed_operations@, operation));
    }
}

/// What a credential was minted as, its time with it, is not touched by a use.
pub proof fn a_use_keeps_the_minting(before: CredentialRow, after: CredentialRow)
    requires
        same_minting(after, before),
    ensures
        after.credential_id == before.credential_id,
        after.issuer_ref == before.issuer_ref,
        after.nonce == before.nonce,
        after.realm_ref == before.realm_ref,
        after.binding_ref == before.binding_ref,
        after.record == before.record,
        after.digest_hex == before.digest_hex,
        after.issued_at == before.issued_at,
        after.expires_at == before.expires_at,
{
}

} // verus!
