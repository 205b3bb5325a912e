//! Artifacts: the credential to upload one, and showing what there is.

use vstd::prelude::*;

use crate::handlers::{answered, command_outcome_bytes, scope_for, scoped, CommandError, CommandScope};
use crate::problem::{internal, internal_view, not_found, not_found_view, problem, refusal_with,
    Problem, ProblemKind, ProblemView};
use crate::records::{Meta, Session};
use crate::table::{key1, Key, Row, Table};
use crate::text::{cat2, same};

use vstd::string::*;

verus! {

/// One upload. Its state is the artifact store's to name.
#[derive(Debug)]
pub struct Upload {
    pub upload_id: String,
    pub state: String,
    pub revision: u64,
    pub max_bytes: u64,
}

impl Row for Upload {
    open spec fn key(&self) -> Key {
        key1(self.upload_id@)
    }

    fn has_key(&self, a: &str, b: &str) -> (r: bool) {
        proof {
            crate::text::empty_is(b@);
        }
        same(self.upload_id.as_str(), a) && b.is_empty()
    }
}

/// One sealed artifact.
#[derive(Debug)]
pub struct Artifact {
    pub artifact_id: String,
    pub revision: u64,
}

impl Row for Artifact {
    open spec fn key(&self) -> Key {
        key1(self.artifact_id@)
    }

    fn has_key(&self, a: &str, b: &str) -> (r: bool) {
        proof {
            crate::text::empty_is(b@);
        }
        same(self.artifact_id.as_str(), a) && b.is_empty()
    }
}

/// A short-lived permission to write the staging file of an upload.
#[derive(Debug)]
pub struct UploadCredential {
    pub upload_id: String,
    pub kind: String,
    pub path: String,
    pub write_mode: String,
    pub max_bytes: u64,
    pub audience: String,
    pub expires_at: String,
}

/// Why no credential is handed out: bytes are taken only before the upload is
/// sealed.
pub open spec fn credential_refusal(uploads: Table<Upload>, id: Seq<char>) -> Option<ProblemView> {
    let u = uploads@[key1(id)];
    if !uploads@.contains_key(key1(id)) {
        Some(not_found_view())
    } else if u.state@ != "prepared"@ && u.state@ != "uploading"@ {
        Some(
            refusal_with(
                ProblemKind::StaleRevision,
                "upload no longer accepts bytes"@,
                "upload state is "@ + u.state@,
            ),
        )
    } else {
        None
    }
}

/// What asking for an upload credential answers.
pub open spec fn upload_credential_outcome(
    uploads: Table<Upload>,
    upload_id: Seq<char>,
    dirs: Result<(), String>,
    staging_path: Seq<char>,
    audience: Seq<char>,
    expires_at: Seq<char>,
    r: Result<UploadCredential, Problem>,
) -> bool {
    &&& match credential_refusal(uploads, upload_id) {
        Some(p) => r is Err && r->Err_0@ == p,
        None => match dirs {
            Err(_) => r is Err && r->Err_0@ == internal_view(),
            Ok(_) => {
                let c = r->Ok_0;
                &&& r is Ok
                &&& c.upload_id@ == upload_id
                &&& c.kind@ == "local-staging-file"@
                &&& c.path@ == staging_path
                &&& c.write_mode@ == "truncate-then-write"@
                &&& c.max_bytes == uploads@[key1(upload_id)].max_bytes
                &&& c.audience@ == audience
                &&& c.expires_at@ == expires_at
            },
        },
    }
}

/// Hands out a fresh credential for the staging file of an upload. `dirs` is
/// what making the directories came to.
pub fn artifact_upload_credential(
    uploads: &Table<Upload>,
    upload_id: &str,
    dirs: Result<(), String>,
    staging_path: &str,
    audience: &str,
    expires_at: &str,
) -> (r: Result<UploadCredential, Problem>)
    requires
        uploads.wf(),
    ensures
        upload_credential_outcome(
            *uploads,
            upload_id@,
            dirs,
            staging_path@,
            audience@,
            expires_at@,
            r,
        ),
{
    proof {
        reveal_strlit("");
        crate::text::empty_is(""@);
    }
    let upload = match uploads.find(upload_id, "") {
        None => {
            return Err(not_found());
        },
        Some(u) => u,
    };
    if !same(upload.state.as_str(), "prepared") && !same(upload.state.as_str(), "uploading") {
        let detail = cat2("upload state is ", upload.state.as_str());
        return Err(
            problem(
                ProblemKind::StaleRevision,
                "upload no longer accepts bytes",
                detail.as_str(),
            ),
        );
    }
    if dirs.is_err() {
        return Err(internal());
    }
    Ok(
        UploadCredential {
            upload_id: upload.upload_id.clone(),
            kind: "local-staging-file".to_owned(),
            path: staging_path.to_owned(),
            write_mode: "truncate-then-write".to_owned(),
            max_bytes: upload.max_bytes,
            audience: audience.to_owned(),
            expires_at: expires_at.to_owned(),
        },
    )
}

/// Whether the artifact store was asked for one command, in that command's own
/// scope, and answered with `out`.
pub open spec fn store_asked<E, F: FnOnce(&CommandScope, &str) -> Result<Vec<u8>, E>>(
    run: F,
    session: Session,
    operation: Seq<char>,
    meta: Meta,
    digest: Seq<char>,
    out: Result<Vec<u8>, E>,
) -> bool {
    exists|scope: &CommandScope, request_id: &str|
        {
            &&& scoped(
                *scope,
                "external_client"@,
                session.owner_actor_ref@,
                session.realm_id@,
                operation,
                meta.idempotency_key@,
                digest,
            )
            &&& request_id@ == meta.request_id@
            &&& #[trigger] run.ensures((scope, request_id), out)
        }
}

/// What beginning an upload answers.
pub open spec fn upload_begin_outcome<F: FnOnce(&CommandScope, &str) -> Result<Vec<u8>, CommandError>>(
    session: Session,
    meta: Option<Meta>,
    request_digest: Option<String>,
    run: F,
    r: Result<Vec<u8>, Problem>,
) -> bool {
    &&& match (meta, request_digest) {
        (Some(m), Some(d)) => exists|out: Result<Vec<u8>, CommandError>|
            {
                &&& #[trigger] store_asked(
                    run,
                    session,
                    "artifact_upload_begin"@,
                    m,
                    d@,
                    out,
                )
                &&& answered(out, r)
            },
        _ => r is Err && r->Err_0@ == internal_view(),
    }
}

/// Records an upload and its staging key.
pub fn artifact_upload_begin<F: FnOnce(&CommandScope, &str) -> Result<Vec<u8>, CommandError>>(
    session: &Session,
    meta: &Option<Meta>,
    request_digest: Option<String>,
    run: F,
) -> (r: Result<Vec<u8>, Problem>)
    requires
        forall|scope: &CommandScope, id: &str| #[trigger] run.requires((scope, id)),
    ensures
        upload_begin_outcome(
            *session,
            *meta,
            request_digest,
            run,
            r,
        ),
{
    let scope = scope_for(session, "artifact_upload_begin", meta, request_digest)?;
    match meta {
        None => Err(internal()),
        Some(m) => {
            let request_id = m.request_id.as_str();
            let out = run(&scope, request_id);
            proof {
                assert(run.ensures((&scope, request_id), out));
                assert(store_asked(
                    run,
                    *session,
                    "artifact_upload_begin"@,
                    *m,
                    request_digest->0@,
                    out,
                ));
            }
            command_outcome_bytes(out)
        },
    }
}

/// What aborting an upload answers.
pub open spec fn upload_abort_outcome<F: FnOnce(&CommandScope, &str) -> Result<Vec<u8>, CommandError>>(
    session: Session,
    meta: Option<Meta>,
    request_digest: Option<String>,
    run: F,
    r: Result<Vec<u8>, Problem>,
) -> bool {
    &&& match (meta, request_digest) {
        (Some(m), Some(d)) => exists|out: Result<Vec<u8>, CommandError>|
            {
                &&& #[trigger] store_asked(
                    run,
                    session,
                    "artifact_upload_abort"@,
                    m,
                    d@,
                    out,
                )
                &&& answered(out, r)
            },
        _ => r is Err && r->Err_0@ == internal_view(),
    }
}

/// Gives an upload up.
pub fn artifact_upload_abort<F: FnOnce(&CommandScope, &str) -> Result<Vec<u8>, CommandError>>(
    session: &Session,
    meta: &Option<Meta>,
    request_digest: Option<String>,
    run: F,
) -> (r: Result<Vec<u8>, Problem>)
    requires
        forall|scope: &CommandScope, id: &str| #[trigger] run.requires((scope, id)),
    ensures
        upload_abort_outcome(
            *session,
            *meta,
            request_digest,
            run,
            r,
        ),
{
    let scope = scope_for(session, "artifact_upload_abort", meta, request_digest)?;
    match meta {
        None => Err(internal()),
        Some(m) => {
            let request_id = m.request_id.as_str();
            let out = run(&scope, request_id);
            proof {
                assert(run.ensures((&scope, request_id), out));
                assert(store_asked(
                    run,
                    *session,
                    "artifact_upload_abort"@,
                    *m,
                    request_digest->0@,
                    out,
                ));
            }
            command_outcome_bytes(out)
        },
    }
}

/// How sealing an upload can fail.
#[derive(Debug)]
pub enum FinalizeError {
    Command(CommandError),
    SimulatedCrash,
}

/// The reply of sealing an upload: its bytes, its refusal, or a fault.
pub open spec fn sealed(outcome: Result<Vec<u8>, FinalizeError>, r: Result<Vec<u8>, Problem>) -> bool {
    match outcome {
        Ok(bytes) => r == Ok::<Vec<u8>, Problem>(bytes),
        Err(FinalizeError::Command(CommandError::Refused(p))) => r == Err::<Vec<u8>, Problem>(p),
        _ => r is Err && r->Err_0@ == internal_view(),
    }
}

/// What finalizing an upload answers.
pub open spec fn upload_finalize_outcome<F: FnOnce(&CommandScope, &str) -> Result<Vec<u8>, FinalizeError>>(
    session: Session,
    meta: Option<Meta>,
    request_digest: Option<String>,
    run: F,
    r: Result<Vec<u8>, Problem>,
) -> bool {
    &&& match (meta, request_digest) {
        (Some(m), Some(d)) => exists|out: Result<Vec<u8>, FinalizeError>|
            {
                &&& #[trigger] store_asked(
                    run,
                    session,
                    "artifact_upload_finalize"@,
                    m,
                    d@,
                    out,
                )
                &&& sealed(out, r)
            },
        _ => r is Err && r->Err_0@ == internal_view(),
    }
}

/// Seals an upload.
pub fn artifact_upload_finalize<F: FnOnce(&CommandScope, &str) -> Result<Vec<u8>, FinalizeError>>(
    session: &Session,
    meta: &Option<Meta>,
    request_digest: Option<String>,
    run: F,
) -> (r: Result<Vec<u8>, Problem>)
    requires
        forall|scope: &CommandScope, id: &str| #[trigger] run.requires((scope, id)),
    ensures
        upload_finalize_outcome(
            *session,
            *meta,
            request_digest,
            run,
            r,
        ),
{
    let scope = scope_for(session, "artifact_upload_finalize", meta, request_digest)?;
    match meta {
        None => Err(internal()),
        Some(m) => {
            let request_id = m.request_id.as_str();
            let out = run(&scope, request_id);
            proof {
                assert(run.ensures((&scope, request_id), out));
                assert(store_asked(
                    run,
                    *session,
                    "artifact_upload_finalize"@,
                    *m,
                    request_digest->0@,
                    out,
                ));
            }
            match out {
                Ok(bytes) => Ok(bytes),
                Err(FinalizeError::Command(CommandError::Refused(p))) => Err(p),
                Err(_) => Err(internal()),
            }
        },
    }
}

/// Shows an upload.
pub fn artifact_upload_show<'a>(uploads: &'a Table<Upload>, upload_id: &str) -> (r: Result<
    &'a Upload,
    Problem,
>)
    requires
        uploads.wf(),
    ensures
        match r {
            Ok(u) => uploads@.contains_key(key1(upload_id@)) && *u == uploads@[key1(upload_id@)],
            Err(p) => !uploads@.contains_key(key1(upload_id@)) && p@ == not_found_view(),
        },
{
    proof {
        reveal_strlit("");
        crate::text::empty_is(""@);
    }
    match uploads.find(upload_id, "") {
        Some(u) => Ok(u),
        None => Err(not_found()),
    }
}

/// Shows an artifact.
pub fn artifact_show<'a>(artifacts: &'a Table<Artifact>, artifact_id: &str) -> (r: Result<
    &'a Artifact,
    Problem,
>)
    requires
        artifacts.wf(),
    ensures
        match r {
            Ok(a) => artifacts@.contains_key(key1(artifact_id@)) && *a == artifacts@[key1(
                artifact_id@,
            )],
            Err(p) => !artifacts@.contains_key(key1(artifact_id@)) && p@ == not_found_view(),
        },
{
    proof {
        reveal_strlit("");
        crate::text::empty_is(""@);
    }
    match artifacts.find(artifact_id, "") {
        Some(a) => Ok(a),
        None => Err(not_found()),
    }
}

/// A place to upload to is given for an upload that still takes bytes, and says
/// what was asked of it; for another nothing is given.
pub proof fn an_upload_is_given_its_place(
    uploads: Table<Upload>,
    id: Seq<char>,
    dirs: Result<(), String>,
    path: Seq<char>,
    audience: Seq<char>,
    expires_at: Seq<char>,
    r: Result<UploadCredential, Problem>,
)
    requires
        upload_credential_outcome(uploads, id, dirs, path, audience, expires_at, r),
    ensures
        r is Ok <==> {
            &&& uploads@.contains_key(key1(id))
            &&& uploads@[key1(id)].state@ == "prepared"@ || uploads@[key1(id)].state@
                == "uploading"@
            &&& dirs is Ok
        },
        !uploads@.contains_key(key1(id)) ==> r->Err_0@ == not_found_view(),
        uploads@.contains_key(key1(id)) && uploads@[key1(id)].state@ != "prepared"@
            && uploads@[key1(id)].state@ != "uploading"@ ==> r->Err_0@.kind
            == ProblemKind::StaleRevision,
        r is Ok ==> {
            &&& r->Ok_0.upload_id@ == id
            &&& r->Ok_0.path@ == path
            &&& r->Ok_0.audience@ == audience
            &&& r->Ok_0.expires_at@ == expires_at
            &&& r->Ok_0.max_bytes == uploads@[key1(id)].max_bytes
            &&& r->Ok_0.kind@ == "local-staging-file"@
            &&& r->Ok_0.write_mode@ == "truncate-then-write"@
        },
{
}

/// Each upload command reaches the store under its own operation, with the key
/// and the digest it came with, and only with both.
pub proof fn upload_commands_are_told_apart<
    F: FnOnce(&CommandScope, &str) -> Result<Vec<u8>, CommandError>,
    G: FnOnce(&CommandScope, &str) -> Result<Vec<u8>, FinalizeError>,
>(
    session: Session,
    meta: Option<Meta>,
    digest: Option<String>,
    begin: F,
    abort: F,
    finalize: G,
    begun: Result<Vec<u8>, Problem>,
    aborted: Result<Vec<u8>, Problem>,
    finalized: Result<Vec<u8>, Problem>,
)
    requires
        upload_begin_outcome(session, meta, digest, begin, begun),
        upload_abort_outcome(session, meta, digest, abort, aborted),
        upload_finalize_outcome(session, meta, digest, finalize, finalized),
    ensures
        meta is None || digest is None ==> begun is Err && aborted is Err && finalized is Err,
        meta is Some && digest is Some ==> exists|
            scope: &CommandScope,
            request: &str,
            out: Result<Vec<u8>, CommandError>,
        |
            {
                &&& scope.operation@ == "artifact_upload_begin"@
                &&& scope.actor_scope@ == "external_client"@ + "/"@ + session.owner_actor_ref@ + "/"@
                    + session.realm_id@
                &&& scope.idempotency_key@ == meta->0.idempotency_key@
                &&& scope.request_digest@ == digest->0@
                &&& request@ == meta->0.request_id@
                &&& out is Ok ==> begun == Ok::<Vec<u8>, Problem>(out->Ok_0)
                &&& out is Err ==> begun is Err
                &&& #[trigger] begin.ensures((scope, request), out)
            },
        meta is Some && digest is Some ==> exists|
            scope: &CommandScope,
            request: &str,
            out: Result<Vec<u8>, CommandError>,
        |
            {
                &&& scope.operation@ == "artifact_upload_abort"@
                &&& scope.actor_scope@ == "external_client"@ + "/"@ + session.owner_actor_ref@ + "/"@
                    + session.realm_id@
                &&& scope.idempotency_key@ == meta->0.idempotency_key@
                &&& scope.request_digest@ == digest->0@
                &&& request@ == meta->0.request_id@
                &&& out is Ok ==> aborted == Ok::<Vec<u8>, Problem>(out->Ok_0)
                &&& out is Err ==> aborted is Err
                &&& #[trigger] abort.ensures((scope, request), out)
            },
        meta is Some && digest is Some ==> exists|
            scope: &CommandScope,
            request: &str,
            out: Result<Vec<u8>, FinalizeError>,
        |
            {
                &&& scope.operation@ == "artifact_upload_finalize"@
                &&& scope.actor_scope@ == "external_client"@ + "/"@ + session.owner_actor_ref@ + "/"@
                    + session.realm_id@
                &&& scope.idempotency_key@ == meta->0.idempotency_key@
                &&& scope.request_digest@ == digest->0@
                &&& request@ == meta->0.request_id@
                &&& out is Ok ==> finalized == Ok::<Vec<u8>, Problem>(out->Ok_0)
                &&& out is Err ==> finalized is Err
                &&& out matches Err(FinalizeError::Command(CommandError::Refused(p))) ==> finalized
                    == Err::<Vec<u8>, Problem>(p)
                &&& #[trigger] finalize.ensures((scope, request), out)
            },
{
}

} // verus!
