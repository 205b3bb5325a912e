//! From a request line to the operation it calls, on either of the two
//! surfaces.
//!
//! What a line may be is settled before what it says; which version it speaks
//! before what it asks for; and whether it is let in before any argument of it
//! is looked at. The two surfaces share nothing: a worker never reaches the
//! operations of a client, and a client never presents an attempt binding.

use vstd::prelude::*;

use crate::assistant_ops::unbound_worker;
use crate::invoke::{attempt_invocation_id, deployment_actor, deployment_actor_ref,
    invocation_exists, Invocations};
use crate::lifecycle_ops::SpaceLifecycle;
use crate::problem::{not_found, not_found_view, problem, refusal, refusal_with, Problem,
    ProblemKind, ProblemView};
use crate::table::key1;
use crate::text::{chars_of, opt_view, same, split_at_first, split_once, text_of};

use vstd::string::*;

verus! {

/// Which socket a request arrived on.
#[derive(Debug, Clone, Copy, PartialEq, Eq, Structural)]
pub enum Surface {
    External,
    Worker,
}

// ---------------------------------------------------------- crash hooks ----

/// Where to abort the process: at a named point of a named operation.
#[derive(Debug, Clone, PartialEq, Eq)]
pub struct AbortSpec {
    pub phase: String,
    pub op: String,
}

/// Whether a command aborts before or after it commits.
#[derive(Debug, Clone, Copy, PartialEq, Eq, Structural)]
pub struct CrashHooks {
    pub abort_before_commit: bool,
    pub abort_after_commit: bool,
}

/// Whether sealing an artifact aborts on the way.
#[derive(Debug, Clone, Copy, PartialEq, Eq, Structural)]
pub struct FinalizeHooks {
    pub abort_after_sealing_txn: bool,
    pub abort_after_seal: bool,
    pub store: CrashHooks,
}

/// Whether an instruction names a point of an operation.
pub open spec fn names_point(a: AbortSpec, phase: Seq<char>, op: Seq<char>) -> bool {
    a.phase@ == phase && a.op@ == op
}

/// The hooks of a command under an instruction.
pub open spec fn hooks_of(a: AbortSpec, op: Seq<char>) -> CrashHooks {
    CrashHooks {
        abort_before_commit: names_point(a, "before_commit"@, op),
        abort_after_commit: names_point(a, "after_commit"@, op),
    }
}

/// The hooks of sealing an artifact under an instruction.
pub open spec fn finalize_hooks_of(a: AbortSpec, op: Seq<char>) -> FinalizeHooks {
    FinalizeHooks {
        abort_after_sealing_txn: names_point(a, "after_seal_txn"@, op),
        abort_after_seal: names_point(a, "after_seal"@, op),
        store: hooks_of(a, op),
    }
}

impl AbortSpec {
    /// Reads an instruction: the point, a colon, and the operation. Anything
    /// without a colon is none.
    pub fn from_env(raw: Option<&str>) -> (r: Option<AbortSpec>)
        ensures
            match r {
                Some(a) => raw is Some && split_at_first(raw->0@, ':') == Some(
                    (a.phase@, a.op@),
                ),
                None => raw is None || split_at_first(raw->0@, ':') is None,
            },
    {
        match raw {
            None => None,
            Some(s) => match split_once(s, ':') {
                Some((phase, op)) => Some(AbortSpec { phase, op }),
                None => None,
            },
        }
    }

    pub fn hooks_for(&self, op: &str) -> (r: CrashHooks)
        ensures
            r == hooks_of(*self, op@),
    {
        CrashHooks {
            abort_before_commit: same(self.phase.as_str(), "before_commit") && same(
                self.op.as_str(),
                op,
            ),
            abort_after_commit: same(self.phase.as_str(), "after_commit") && same(
                self.op.as_str(),
                op,
            ),
        }
    }

    pub fn finalize_hooks_for(&self, op: &str) -> (r: FinalizeHooks)
        ensures
            r == finalize_hooks_of(*self, op@),
    {
        FinalizeHooks {
            abort_after_sealing_txn: same(self.phase.as_str(), "after_seal_txn") && same(
                self.op.as_str(),
                op,
            ),
            abort_after_seal: same(self.phase.as_str(), "after_seal") && same(
                self.op.as_str(),
                op,
            ),
            store: self.hooks_for(op),
        }
    }
}

/// The hooks of a command; without an instruction nothing aborts.
pub fn hooks(abort: &Option<AbortSpec>, op: &str) -> (r: CrashHooks)
    ensures
        match abort {
            Some(a) => r == hooks_of(*a, op@),
            None => !r.abort_before_commit && !r.abort_after_commit,
        },
{
    match abort {
        Some(a) => a.hooks_for(op),
        None => CrashHooks { abort_before_commit: false, abort_after_commit: false },
    }
}

/// The hooks of sealing an artifact; without an instruction nothing aborts.
pub fn finalize_hooks(abort: &Option<AbortSpec>, op: &str) -> (r: FinalizeHooks)
    ensures
        match abort {
            Some(a) => r == finalize_hooks_of(*a, op@),
            None => {
                &&& !r.abort_after_sealing_txn
                &&& !r.abort_after_seal
                &&& !r.store.abort_before_commit
                &&& !r.store.abort_after_commit
            },
        },
{
    match abort {
        Some(a) => a.finalize_hooks_for(op),
        None => FinalizeHooks {
            abort_after_sealing_txn: false,
            abort_after_seal: false,
            store: CrashHooks { abort_before_commit: false, abort_after_commit: false },
        },
    }
}

// ---------------------------------------------------------------- lines ----

/// A line without the one newline that ends it.
pub open spec fn unterminated(line: Seq<char>) -> Seq<char> {
    if line.len() > 0 && line.last() == '\n' {
        line.drop_last()
    } else {
        line
    }
}

/// Takes the newline off the end of a line that was read.
pub fn read_line_limited(line: &str) -> (r: String)
    ensures
        r@ == unterminated(line@),
{
    let v = chars_of(line);
    if v.len() > 0 && v[v.len() - 1] == '\n' {
        proof {
            assert(v@.subrange(0, v@.len() - 1) =~= v@.drop_last());
        }
        text_of(&v, 0, v.len() - 1)
    } else {
        line.to_owned()
    }
}

/// How a line was read as a command: it is not strict JSON, it is no command,
/// or it is one that speaks a version.
#[derive(Debug)]
pub enum Envelope {
    NotJson(String),
    NotCommand(Problem),
    Speaks(String),
}

/// Why a line is not dispatched.
pub open spec fn line_refusal(
    bytes: usize,
    request_max: usize,
    envelope: Envelope,
    protocol_version: Seq<char>,
) -> Option<ProblemView> {
    if bytes > request_max {
        Some(refusal(ProblemKind::Invalid, "request exceeds the §11.8 256 KiB cap"@))
    } else {
        match envelope {
            Envelope::NotJson(e) => Some(
                refusal_with(ProblemKind::Invalid, "not strict I-JSON"@, e@),
            ),
            Envelope::NotCommand(p) => Some(p@),
            Envelope::Speaks(v) => if v@ != protocol_version {
                Some(refusal(ProblemKind::UnsupportedVersion, "no common protocol version"@))
            } else {
                None
            },
        }
    }
}

/// Decides whether a line is dispatched. The cap comes first, and the version
/// before anything that the command asks for.
pub fn dispatch_inner(
    bytes: usize,
    request_max: usize,
    envelope: Envelope,
    protocol_version: &str,
) -> (r: Result<(), Problem>)
    ensures
        match line_refusal(bytes, request_max, envelope, protocol_version@) {
            Some(p) => r is Err && r->Err_0@ == p,
            None => r is Ok,
        },
{
    if bytes > request_max {
        return Err(Problem::new(ProblemKind::Invalid, "request exceeds the §11.8 256 KiB cap"));
    }
    match envelope {
        Envelope::NotJson(e) => Err(problem(ProblemKind::Invalid, "not strict I-JSON", e.as_str())),
        Envelope::NotCommand(p) => Err(p),
        Envelope::Speaks(v) => if !same(v.as_str(), protocol_version) {
            Err(Problem::new(ProblemKind::UnsupportedVersion, "no common protocol version"))
        } else {
            Ok(())
        },
    }
}

/// What a line is answered.
pub open spec fn line_outcome(
    reply: Result<Vec<u8>, Problem>,
    reply_max: usize,
    r: Result< Vec<u8>, Problem, >,
) -> bool {
    &&& match reply {
        Err(p) => r == Err::<Vec<u8>, Problem>(p),
        Ok(bytes) => if bytes@.len() > reply_max {
            r is Err && r->Err_0@ == refusal(
                ProblemKind::Internal,
                "reply exceeds the §11.8 cap"@,
            )
        } else {
            r == Ok::<Vec<u8>, Problem>(bytes)
        },
    }
}

/// What goes back on the line: the reply, unless it is over the cap, or the
/// refusal.
pub fn dispatch_line(reply: Result<Vec<u8>, Problem>, reply_max: usize) -> (r: Result<
    Vec<u8>,
    Problem,
>)
    ensures
        line_outcome(
            reply,
            reply_max,
            r,
        ),
{
    match reply {
        Err(p) => Err(p),
        Ok(bytes) => if bytes.len() > reply_max {
            Err(Problem::new(ProblemKind::Internal, "reply exceeds the §11.8 cap"))
        } else {
            Ok(bytes)
        },
    }
}

// ----------------------------------------------------- external surface ----

/// The operations of the external surface.
#[derive(Debug, Clone, Copy, PartialEq, Eq, Structural)]
pub enum Route {
    Hello,
    RealmShow,
    ProjectCreate,
    SpaceCreate,
    SpaceShow,
    SpaceList,
    ContributionAppend,
    ContributionShow,
    ContributionList,
    RelationAssert,
    FrontierPin,
    FrontierShow,
    LensRead,
    ContextAssemblyCreate,
    ContextAssemblyShow,
    EventsRead,
    EventsWait,
    ArtifactUploadBegin,
    ArtifactUploadCredential,
    ArtifactUploadFinalize,
    ArtifactUploadAbort,
    ArtifactUploadShow,
    ArtifactShow,
    InvocationCreate,
    InvocationShow,
    ProtocolInfo,
    Diagnose,
    ProjectShow,
    ProjectList,
    ProjectUpdateMetadata,
    ProjectAccessPolicyChangePrepare,
    ProjectAccessPolicyChangeConfirm,
    ProjectAccessPolicyChangeCancel,
    ProjectAccessPolicyChangeShow,
    ProjectAccessPolicyChangeList,
    SpaceUpdateMetadata,
    SpaceFreeze,
    SpaceReopen,
    SpaceArchive,
    SpaceRestrict,
    SpacePolicyNarrow,
    SpaceAccessWidenPrepare,
    SpaceAccessWidenConfirm,
    SpaceAccessWidenCancel,
    SpaceAccessWidenShow,
    SpaceAccessWidenList,
    SpaceParticipantAdd,
    SpaceParticipantActivate,
    SpaceParticipantUpdate,
    SpaceParticipantRemove,
    SpaceParticipantList,
    SpaceAccessGrantCreate,
    SpaceAccessGrantRevoke,
    SpaceAccessGrantList,
    ContributionWithdraw,
    ContributionSupersede,
    ContributionRedact,
    RelationRetract,
    LensCreate,
    LensUpdate,
    LensRevoke,
    LensShow,
    LensList,
    ReactionSet,
    EventPayload,
    SnapshotRead,
    DisclosureManifestShow,
    AssistantCreate,
    AssistantShow,
    AssistantList,
    AssistantRevisionRegister,
    AssistantRevisionShow,
    AssistantRevisionList,
    DeploymentCreate,
    DeploymentShow,
    DeploymentList,
    DeploymentActivate,
    DeploymentDrain,
    AssistantAliasBind,
    AssistantAliasUpdate,
    AssistantAliasRevoke,
    AssistantAliasShow,
    AssistantAliasList,
    InvocationList,
    InvocationCancel,
    GovernanceEnable,
    GovernanceShow,
    GovernanceDisable,
    EndeavorPromotionPrepare,
    EndeavorPromotionStart,
    EndeavorPromotionShow,
    EndeavorPromotionCancel,
    EndeavorPromotionReconcile,
    ByomEpisodeBindingShow,
}

impl Route {
    /// The name an operation is called by.
    pub open spec fn name(self) -> Seq<char> {
        match self {
            Route::Hello => "hello"@,
            Route::RealmShow => "realm_show"@,
            Route::ProjectCreate => "project_create"@,
            Route::SpaceCreate => "space_create"@,
            Route::SpaceShow => "space_show"@,
            Route::SpaceList => "space_list"@,
            Route::ContributionAppend => "contribution_append"@,
            Route::ContributionShow => "contribution_show"@,
            Route::ContributionList => "contribution_list"@,
            Route::RelationAssert => "relation_assert"@,
            Route::FrontierPin => "frontier_pin"@,
            Route::FrontierShow => "frontier_show"@,
            Route::LensRead => "lens_read"@,
            Route::ContextAssemblyCreate => "context_assembly_create"@,
            Route::ContextAssemblyShow => "context_assembly_show"@,
            Route::EventsRead => "events_read"@,
            Route::EventsWait => "events_wait"@,
            Route::ArtifactUploadBegin => "artifact_upload_begin"@,
            Route::ArtifactUploadCredential => "artifact_upload_credential"@,
            Route::ArtifactUploadFinalize => "artifact_upload_finalize"@,
            Route::ArtifactUploadAbort => "artifact_upload_abort"@,
            Route::ArtifactUploadShow => "artifact_upload_show"@,
            Route::ArtifactShow => "artifact_show"@,
            Route::InvocationCreate => "invocation_create"@,
            Route::InvocationShow => "invocation_show"@,
            Route::ProtocolInfo => "protocol_info"@,
            Route::Diagnose => "diagnose"@,
            Route::ProjectShow => "project_show"@,
            Route::ProjectList => "project_list"@,
            Route::ProjectUpdateMetadata => "project_update_metadata"@,
            Route::ProjectAccessPolicyChangePrepare => "project_access_policy_change_prepare"@,
            Route::ProjectAccessPolicyChangeConfirm => "project_access_policy_change_confirm"@,
            Route::ProjectAccessPolicyChangeCancel => "project_access_policy_change_cancel"@,
            Route::ProjectAccessPolicyChangeShow => "project_access_policy_change_show"@,
            Route::ProjectAccessPolicyChangeList => "project_access_policy_change_list"@,
            Route::SpaceUpdateMetadata => "space_update_metadata"@,
            Route::SpaceFreeze => "space_freeze"@,
            Route::SpaceReopen => "space_reopen"@,
            Route::SpaceArchive => "space_archive"@,
            Route::SpaceRestrict => "space_restrict"@,
            Route::SpacePolicyNarrow => "space_policy_narrow"@,
            Route::SpaceAccessWidenPrepare => "space_access_widen_prepare"@,
            Route::SpaceAccessWidenConfirm => "space_access_widen_confirm"@,
            Route::SpaceAccessWidenCancel => "space_access_widen_cancel"@,
            Route::SpaceAccessWidenShow => "space_access_widen_show"@,
            Route::SpaceAccessWidenList => "space_access_widen_list"@,
            Route::SpaceParticipantAdd => "space_participant_add"@,
            Route::SpaceParticipantActivate => "space_participant_activate"@,
            Route::SpaceParticipantUpdate => "space_participant_update"@,
            Route::SpaceParticipantRemove => "space_participant_remove"@,
            Route::SpaceParticipantList => "space_participant_list"@,
            Route::SpaceAccessGrantCreate => "space_access_grant_create"@,
            Route::SpaceAccessGrantRevoke => "space_access_grant_revoke"@,
            Route::SpaceAccessGrantList => "space_access_grant_list"@,
            Route::ContributionWithdraw => "contribution_withdraw"@,
            Route::ContributionSupersede => "contribution_supersede"@,
            Route::ContributionRedact => "contribution_redact"@,
            Route::RelationRetract => "relation_retract"@,
            Route::LensCreate => "lens_create"@,
            Route::LensUpdate => "lens_update"@,
            Route::LensRevoke => "lens_revoke"@,
            Route::LensShow => "lens_show"@,
            Route::LensList => "lens_list"@,
            Route::ReactionSet => "reaction_set"@,
            Route::EventPayload => "event_payload"@,
            Route::SnapshotRead => "snapshot_read"@,
            Route::DisclosureManifestShow => "disclosure_manifest_show"@,
            Route::AssistantCreate => "assistant_create"@,
            Route::AssistantShow => "assistant_show"@,
            Route::AssistantList => "assistant_list"@,
            Route::AssistantRevisionRegister => "assistant_revision_register"@,
            Route::AssistantRevisionShow => "assistant_revision_show"@,
            Route::AssistantRevisionList => "assistant_revision_list"@,
            Route::DeploymentCreate => "deployment_create"@,
            Route::DeploymentShow => "deployment_show"@,
            Route::DeploymentList => "deployment_list"@,
            Route::DeploymentActivate => "deployment_activate"@,
            Route::DeploymentDrain => "deployment_drain"@,
            Route::AssistantAliasBind => "assistant_alias_bind"@,
            Route::AssistantAliasUpdate => "assistant_alias_update"@,
            Route::AssistantAliasRevoke => "assistant_alias_revoke"@,
            Route::AssistantAliasShow => "assistant_alias_show"@,
            Route::AssistantAliasList => "assistant_alias_list"@,
            Route::InvocationList => "invocation_list"@,
            Route::InvocationCancel => "invocation_cancel"@,
            Route::GovernanceEnable => "governance_enable"@,
            Route::GovernanceShow => "governance_show"@,
            Route::GovernanceDisable => "governance_disable"@,
            Route::EndeavorPromotionPrepare => "endeavor_promotion_prepare"@,
            Route::EndeavorPromotionStart => "endeavor_promotion_start"@,
            Route::EndeavorPromotionShow => "endeavor_promotion_show"@,
            Route::EndeavorPromotionCancel => "endeavor_promotion_cancel"@,
            Route::EndeavorPromotionReconcile => "endeavor_promotion_reconcile"@,
            Route::ByomEpisodeBindingShow => "byom_episode_binding_show"@,
        }
    }

    /// Whether an operation is a mutation, and reached only as one.
    pub open spec fn mutates(self) -> bool {
        match self {
            Route::ProjectCreate
            | Route::SpaceCreate
            | Route::ContributionAppend
            | Route::RelationAssert
            | Route::FrontierPin
            | Route::ContextAssemblyCreate
            | Route::ArtifactUploadBegin
            | Route::ArtifactUploadFinalize
            | Route::ArtifactUploadAbort
            | Route::InvocationCreate
            | Route::ProjectUpdateMetadata
            | Route::ProjectAccessPolicyChangePrepare
            | Route::ProjectAccessPolicyChangeConfirm
            | Route::ProjectAccessPolicyChangeCancel
            | Route::SpaceUpdateMetadata
            | Route::SpaceFreeze
            | Route::SpaceReopen
            | Route::SpaceArchive
            | Route::SpaceRestrict
            | Route::SpacePolicyNarrow
            | Route::SpaceAccessWidenPrepare
            | Route::SpaceAccessWidenConfirm
            | Route::SpaceAccessWidenCancel
            | Route::SpaceParticipantAdd
            | Route::SpaceParticipantActivate
            | Route::SpaceParticipantUpdate
            | Route::SpaceParticipantRemove
            | Route::SpaceAccessGrantCreate
            | Route::SpaceAccessGrantRevoke
            | Route::ContributionWithdraw
            | Route::ContributionSupersede
            | Route::ContributionRedact
            | Route::RelationRetract
            | Route::LensCreate
            | Route::LensUpdate
            | Route::LensRevoke
            | Route::ReactionSet
            | Route::AssistantCreate
            | Route::AssistantRevisionRegister
            | Route::DeploymentCreate
            | Route::DeploymentActivate
            | Route::DeploymentDrain
            | Route::AssistantAliasBind
            | Route::AssistantAliasUpdate
            | Route::AssistantAliasRevoke
            | Route::InvocationCancel
            | Route::GovernanceEnable
            | Route::GovernanceDisable
            | Route::EndeavorPromotionPrepare
            | Route::EndeavorPromotionStart
            | Route::EndeavorPromotionCancel
            | Route::EndeavorPromotionReconcile => true,
            _ => false,
        }
    }
}

/// Whether an operation is the one that a name and a kind call.
pub open spec fn called(r: Route, name: Seq<char>, mutation: bool) -> bool {
    r.name() == name && (r.mutates() ==> mutation)
}

/// Finds the operation of the external surface that a name and a kind call.
pub fn route_of(name: &str, mutation: bool) -> (r: Option<Route>)
    ensures
        match r {
            Some(route) => called(route, name@, mutation),
            None => forall|route: Route| !called(route, name@, mutation),
        },
{
    if same(name, "hello") {
        return Some(Route::Hello);
    }
    if same(name, "realm_show") {
        return Some(Route::RealmShow);
    }
    if mutation && same(name, "project_create") {
        return Some(Route::ProjectCreate);
    }
    if mutation && same(name, "space_create") {
        return Some(Route::SpaceCreate);
    }
    if same(name, "space_show") {
        return Some(Route::SpaceShow);
    }
    if same(name, "space_list") {
        return Some(Route::SpaceList);
    }
    if mutation && same(name, "contribution_append") {
        return Some(Route::ContributionAppend);
    }
    if same(name, "contribution_show") {
        return Some(Route::ContributionShow);
    }
    if same(name, "contribution_list") {
        return Some(Route::ContributionList);
    }
    if mutation && same(name, "relation_assert") {
        return Some(Route::RelationAssert);
    }
    if mutation && same(name, "frontier_pin") {
        return Some(Route::FrontierPin);
    }
    if same(name, "frontier_show") {
        return Some(Route::FrontierShow);
    }
    if same(name, "lens_read") {
        return Some(Route::LensRead);
    }
    if mutation && same(name, "context_assembly_create") {
        return Some(Route::ContextAssemblyCreate);
    }
    if same(name, "context_assembly_show") {
        return Some(Route::ContextAssemblyShow);
    }
    if same(name, "events_read") {
        return Some(Route::EventsRead);
    }
    if same(name, "events_wait") {
        return Some(Route::EventsWait);
    }
    if mutation && same(name, "artifact_upload_begin") {
        return Some(Route::ArtifactUploadBegin);
    }
    if same(name, "artifact_upload_credential") {
        return Some(Route::ArtifactUploadCredential);
    }
    if mutation && same(name, "artifact_upload_finalize") {
        return Some(Route::ArtifactUploadFinalize);
    }
    if mutation && same(name, "artifact_upload_abort") {
        return Some(Route::ArtifactUploadAbort);
    }
    if same(name, "artifact_upload_show") {
        return Some(Route::ArtifactUploadShow);
    }
    if same(name, "artifact_show") {
        return Some(Route::ArtifactShow);
    }
    if mutation && same(name, "invocation_create") {
        return Some(Route::InvocationCreate);
    }
    if same(name, "invocation_show") {
        return Some(Route::InvocationShow);
    }
    if same(name, "protocol_info") {
        return Some(Route::ProtocolInfo);
    }
    if same(name, "diagnose") {
        return Some(Route::Diagnose);
    }
    if same(name, "project_show") {
        return Some(Route::ProjectShow);
    }
    if same(name, "project_list") {
        return Some(Route::ProjectList);
    }
    if mutation && same(name, "project_update_metadata") {
        return Some(Route::ProjectUpdateMetadata);
    }
    if mutation && same(name, "project_access_policy_change_prepare") {
        return Some(Route::ProjectAccessPolicyChangePrepare);
    }
    if mutation && same(name, "project_access_policy_change_confirm") {
        return Some(Route::ProjectAccessPolicyChangeConfirm);
    }
    if mutation && same(name, "project_access_policy_change_cancel") {
        return Some(Route::ProjectAccessPolicyChangeCancel);
    }
    if same(name, "project_access_policy_change_show") {
        return Some(Route::ProjectAccessPolicyChangeShow);
    }
    if same(name, "project_access_policy_change_list") {
        return Some(Route::ProjectAccessPolicyChangeList);
    }
    if mutation && same(name, "space_update_metadata") {
        return Some(Route::SpaceUpdateMetadata);
    }
    if mutation && same(name, "space_freeze") {
        return Some(Route::SpaceFreeze);
    }
    if mutation && same(name, "space_reopen") {
        return Some(Route::SpaceReopen);
    }
    if mutation && same(name, "space_archive") {
        return Some(Route::SpaceArchive);
    }
    if mutation && same(name, "space_restrict") {
        return Some(Route::SpaceRestrict);
    }
    if mutation && same(name, "space_policy_narrow") {
        return Some(Route::SpacePolicyNarrow);
    }
    if mutation && same(name, "space_access_widen_prepare") {
        return Some(Route::SpaceAccessWidenPrepare);
    }
    if mutation && same(name, "space_access_widen_confirm") {
        return Some(Route::SpaceAccessWidenConfirm);
    }
    if mutation && same(name, "space_access_widen_cancel") {
        return Some(Route::SpaceAccessWidenCancel);
    }
    if same(name, "space_access_widen_show") {
        return Some(Route::SpaceAccessWidenShow);
    }
    if same(name, "space_access_widen_list") {
        return Some(Route::SpaceAccessWidenList);
    }
    if mutation && same(name, "space_participant_add") {
        return Some(Route::SpaceParticipantAdd);
    }
    if mutation && same(name, "space_participant_activate") {
        return Some(Route::SpaceParticipantActivate);
    }
    if mutation && same(name, "space_participant_update") {
        return Some(Route::SpaceParticipantUpdate);
    }
    if mutation && same(name, "space_participant_remove") {
        return Some(Route::SpaceParticipantRemove);
    }
    if same(name, "space_participant_list") {
        return Some(Route::SpaceParticipantList);
    }
    if mutation && same(name, "space_access_grant_create") {
        return Some(Route::SpaceAccessGrantCreate);
    }
    if mutation && same(name, "space_access_grant_revoke") {
        return Some(Route::SpaceAccessGrantRevoke);
    }
    if same(name, "space_access_grant_list") {
        return Some(Route::SpaceAccessGrantList);
    }
    if mutation && same(name, "contribution_withdraw") {
        return Some(Route::ContributionWithdraw);
    }
    if mutation && same(name, "contribution_supersede") {
        return Some(Route::ContributionSupersede);
    }
    if mutation && same(name, "contribution_redact") {
        return Some(Route::ContributionRedact);
    }
    if mutation && same(name, "relation_retract") {
        return Some(Route::RelationRetract);
    }
    if mutation && same(name, "lens_create") {
        return Some(Route::LensCreate);
    }
    if mutation && same(name, "lens_update") {
        return Some(Route::LensUpdate);
    }
    if mutation && same(name, "lens_revoke") {
        return Some(Route::LensRevoke);
    }
    if same(name, "lens_show") {
        return Some(Route::LensShow);
    }
    if same(name, "lens_list") {
        return Some(Route::LensList);
    }
    if mutation && same(name, "reaction_set") {
        return Some(Route::ReactionSet);
    }
    if same(name, "event_payload") {
        return Some(Route::EventPayload);
    }
    if same(name, "snapshot_read") {
        return Some(Route::SnapshotRead);
    }
    if same(name, "disclosure_manifest_show") {
        return Some(Route::DisclosureManifestShow);
    }
    if mutation && same(name, "assistant_create") {
        return Some(Route::AssistantCreate);
    }
    if same(name, "assistant_show") {
        return Some(Route::AssistantShow);
    }
    if same(name, "assistant_list") {
        return Some(Route::AssistantList);
    }
    if mutation && same(name, "assistant_revision_register") {
        return Some(Route::AssistantRevisionRegister);
    }
    if same(name, "assistant_revision_show") {
        return Some(Route::AssistantRevisionShow);
    }
    if same(name, "assistant_revision_list") {
        return Some(Route::AssistantRevisionList);
    }
    if mutation && same(name, "deployment_create") {
        return Some(Route::DeploymentCreate);
    }
    if same(name, "deployment_show") {
        return Some(Route::DeploymentShow);
    }
    if same(name, "deployment_list") {
        return Some(Route::DeploymentList);
    }
    if mutation && same(name, "deployment_activate") {
        return Some(Route::DeploymentActivate);
    }
    if mutation && same(name, "deployment_drain") {
        return Some(Route::DeploymentDrain);
    }
    if mutation && same(name, "assistant_alias_bind") {
        return Some(Route::AssistantAliasBind);
    }
    if mutation && same(name, "assistant_alias_update") {
        return Some(Route::AssistantAliasUpdate);
    }
    if mutation && same(name, "assistant_alias_revoke") {
        return Some(Route::AssistantAliasRevoke);
    }
    if same(name, "assistant_alias_show") {
        return Some(Route::AssistantAliasShow);
    }
    if same(name, "assistant_alias_list") {
        return Some(Route::AssistantAliasList);
    }
    if same(name, "invocation_list") {
        return Some(Route::InvocationList);
    }
    if mutation && same(name, "invocation_cancel") {
        return Some(Route::InvocationCancel);
    }
    if mutation && same(name, "governance_enable") {
        return Some(Route::GovernanceEnable);
    }
    if same(name, "governance_show") {
        return Some(Route::GovernanceShow);
    }
    if mutation && same(name, "governance_disable") {
        return Some(Route::GovernanceDisable);
    }
    if mutation && same(name, "endeavor_promotion_prepare") {
        return Some(Route::EndeavorPromotionPrepare);
    }
    if mutation && same(name, "endeavor_promotion_start") {
        return Some(Route::EndeavorPromotionStart);
    }
    if same(name, "endeavor_promotion_show") {
        return Some(Route::EndeavorPromotionShow);
    }
    if mutation && same(name, "endeavor_promotion_cancel") {
        return Some(Route::EndeavorPromotionCancel);
    }
    if mutation && same(name, "endeavor_promotion_reconcile") {
        return Some(Route::EndeavorPromotionReconcile);
    }
    if same(name, "byom_episode_binding_show") {
        return Some(Route::ByomEpisodeBindingShow);
    }
    None
}

pub open spec fn unknown_op_view() -> ProblemView {
    refusal(ProblemKind::UnknownOp, "operation absent at the negotiated version"@)
}

fn unknown_op() -> (r: Problem)
    ensures
        r@ == unknown_op_view(),
{
    Problem::new(ProblemKind::UnknownOp, "operation absent at the negotiated version")
}

/// What the registry says of an operation.
#[derive(Debug)]
pub struct OpSpec {
    pub name: String,
    pub mutation: bool,
    pub pre_auth: bool,
}

/// What checking an envelope came to: its shape, where it is placed, and its
/// arguments.
#[derive(Debug)]
pub struct Checks {
    pub shape: Result<(), Problem>,
    pub placement: Result<(), Problem>,
    pub args: Result<(), Problem>,
}

/// Whether a command names the one realm that there is.
pub open spec fn in_personal_realm(realm_id: Option<String>) -> bool {
    opt_view(realm_id) == Some("realm-personal"@)
}

/// Why a command does not get past the external surface.
pub open spec fn external_refusal(
    spec_: Option<OpSpec>,
    checks: Checks,
    realm_id: Option<String>,
) -> Option<ProblemView> {
    match spec_ {
        None => Some(unknown_op_view()),
        Some(s) => if s.name@ == "application_event_emit"@ {
            Some(unknown_op_view())
        } else if checks.shape is Err {
            Some(checks.shape->Err_0@)
        } else if checks.placement is Err {
            Some(checks.placement->Err_0@)
        } else if checks.args is Err {
            Some(checks.args->Err_0@)
        } else if !s.pre_auth && !in_personal_realm(realm_id) {
            Some(not_found_view())
        } else {
            None
        },
    }
}

fn is_personal_realm(realm_id: &Option<String>) -> (r: bool)
    ensures
        r == in_personal_realm(*realm_id),
{
    match realm_id {
        Some(s) => same(s.as_str(), "realm-personal"),
        None => false,
    }
}

/// What a client's line is answered.
pub open spec fn external_outcome(
    spec_: Option<OpSpec>,
    checks: Checks,
    realm_id: Option<String>,
    r: Result<Route, Problem>,
) -> bool {
    &&& match external_refusal(spec_, checks, realm_id) {
        Some(p) => r is Err && r->Err_0@ == p,
        None => match r {
            Ok(route) => called(route, spec_->0.name@, spec_->0.mutation),
            Err(p) => {
                &&& p@ == unknown_op_view()
                &&& forall|route: Route|
                    !called(route, spec_->0.name@, spec_->0.mutation)
            },
        },
    }
}

/// Finds the operation that a command on the external surface calls. What the
/// registry does not have, and what only workers may call, is unknown here; a
/// command in another realm finds nothing.
pub fn dispatch_external(spec_: Option<OpSpec>, checks: Checks, realm_id: &Option<String>) -> (r:
    Result<Route, Problem>)
    ensures
        external_outcome(
            spec_,
            checks,
            *realm_id,
            r,
        ),
{
    let s = match spec_ {
        None => {
            return Err(unknown_op());
        },
        Some(s) => s,
    };
    if same(s.name.as_str(), "application_event_emit") {
        return Err(unknown_op());
    }
    checks.shape?;
    checks.placement?;
    checks.args?;
    if !s.pre_auth && !is_personal_realm(realm_id) {
        return Err(not_found());
    }
    match route_of(s.name.as_str(), s.mutation) {
        Some(route) => Ok(route),
        None => Err(unknown_op()),
    }
}

/// A client never reaches what only a worker may call.
pub proof fn a_client_emits_no_event(
    spec_: Option<OpSpec>,
    checks: Checks,
    realm_id: Option<String>,
)
    requires
        spec_ is Some,
        spec_->0.name@ == "application_event_emit"@,
    ensures
        external_refusal(spec_, checks, realm_id) == Some(unknown_op_view()),
{
}

/// Another realm is never told from one that does not exist: whatever passes
/// the checks there finds nothing.
pub proof fn another_realm_is_not_found(spec_: OpSpec, checks: Checks, realm_id: Option<String>)
    requires
        !spec_.pre_auth,
        spec_.name@ != "application_event_emit"@,
        checks.shape is Ok,
        checks.placement is Ok,
        checks.args is Ok,
        !in_personal_realm(realm_id),
    ensures
        external_refusal(Some(spec_), checks, realm_id) == Some(not_found_view()),
{
}

/// The operations that a worker calls under an attempt binding, and a client
/// without one.
pub open spec fn takes_binding(r: Route) -> bool {
    match r {
        Route::ContributionAppend
        | Route::RelationAssert
        | Route::ContextAssemblyCreate
        | Route::InvocationCancel => true,
        _ => false,
    }
}

/// What an attempt binding on the external surface is answered.
pub open spec fn unbound_outcome(
    route: Route,
    attempt_id: Option<String>,
    fence_epoch: Option<u64>,
    r: Result<(), Problem>,
) -> bool {
    if takes_binding(route) && (attempt_id is Some || fence_epoch is Some) {
        r is Err && r->Err_0@ == refusal(
            ProblemKind::ForbiddenSurface,
            "worker-surface binding on an external client channel"@,
        )
    } else {
        r is Ok
    }
}

/// Refuses an attempt binding on the external surface.
pub fn check_unbound(route: Route, attempt_id: &Option<String>, fence_epoch: Option<u64>) -> (r:
    Result<(), Problem>)
    ensures
        unbound_outcome(route, *attempt_id, fence_epoch, r),
{
    let takes = match route {
        Route::ContributionAppend
        | Route::RelationAssert
        | Route::ContextAssemblyCreate
        | Route::InvocationCancel => true,
        _ => false,
    };
    if takes && (attempt_id.is_some() || fence_epoch.is_some()) {
        Err(
            Problem::new(
                ProblemKind::ForbiddenSurface,
                "worker-surface binding on an external client channel",
            ),
        )
    } else {
        Ok(())
    }
}

/// The direct command on a space that an operation without arguments of its
/// own is.
pub open spec fn lifecycle_for(route: Route) -> Option<SpaceLifecycle> {
    match route {
        Route::SpaceFreeze => Some(SpaceLifecycle::Freeze),
        Route::SpaceReopen => Some(SpaceLifecycle::Reopen),
        Route::SpaceArchive => Some(SpaceLifecycle::Archive),
        Route::SpaceRestrict => Some(SpaceLifecycle::Restrict),
        _ => None,
    }
}

/// Finds [`lifecycle_for`].
pub fn lifecycle_of(route: Route) -> (r: Option<SpaceLifecycle>)
    ensures
        r == lifecycle_for(route),
{
    match route {
        Route::SpaceFreeze => Some(SpaceLifecycle::Freeze),
        Route::SpaceReopen => Some(SpaceLifecycle::Reopen),
        Route::SpaceArchive => Some(SpaceLifecycle::Archive),
        Route::SpaceRestrict => Some(SpaceLifecycle::Restrict),
        _ => None,
    }
}

// ------------------------------------------------------- worker surface ----

/// The operations of the worker surface.
#[derive(Debug, Clone, Copy, PartialEq, Eq, Structural)]
pub enum WorkerRoute {
    Hello,
    InvocationClaim,
    InvocationComplete,
    ContributionAppend,
    RelationAssert,
    ContextAssemblyCreate,
    InvocationCancel,
    ApplicationEventEmit,
    ModelComplete,
}

impl WorkerRoute {
    pub open spec fn name(self) -> Seq<char> {
        match self {
            WorkerRoute::Hello => "hello"@,
            WorkerRoute::InvocationClaim => "invocation_claim"@,
            WorkerRoute::InvocationComplete => "invocation_complete"@,
            WorkerRoute::ContributionAppend => "contribution_append"@,
            WorkerRoute::RelationAssert => "relation_assert"@,
            WorkerRoute::ContextAssemblyCreate => "context_assembly_create"@,
            WorkerRoute::InvocationCancel => "invocation_cancel"@,
            WorkerRoute::ApplicationEventEmit => "application_event_emit"@,
            WorkerRoute::ModelComplete => "model_complete"@,
        }
    }

    /// Whether an operation is one of the supervisor's own, which no registry
    /// places.
    pub open spec fn supervises(self) -> bool {
        self is InvocationClaim || self is InvocationComplete
    }
}

/// The operation of the worker surface by its name.
pub fn worker_route_of(name: &str) -> (r: Option<WorkerRoute>)
    ensures
        match r {
            Some(route) => route.name() == name@,
            None => forall|route: WorkerRoute| #[trigger] route.name() != name@,
        },
{
    if same(name, "hello") {
        return Some(WorkerRoute::Hello);
    }
    if same(name, "invocation_claim") {
        return Some(WorkerRoute::InvocationClaim);
    }
    if same(name, "invocation_complete") {
        return Some(WorkerRoute::InvocationComplete);
    }
    if same(name, "contribution_append") {
        return Some(WorkerRoute::ContributionAppend);
    }
    if same(name, "relation_assert") {
        return Some(WorkerRoute::RelationAssert);
    }
    if same(name, "context_assembly_create") {
        return Some(WorkerRoute::ContextAssemblyCreate);
    }
    if same(name, "invocation_cancel") {
        return Some(WorkerRoute::InvocationCancel);
    }
    if same(name, "application_event_emit") {
        return Some(WorkerRoute::ApplicationEventEmit);
    }
    if same(name, "model_complete") {
        return Some(WorkerRoute::ModelComplete);
    }
    None
}

/// Why a command does not get past the worker surface, once its operation is
/// found. `invocation` is what a supervisor's operation names.
pub open spec fn worker_refusal(
    route: WorkerRoute,
    checks: Checks,
    realm_id: Option<String>,
    inv: Invocations,
    invocation: Seq<char>,
) -> Option<ProblemView> {
    if route is Hello {
        if checks.args is Err {
            Some(checks.args->Err_0@)
        } else if checks.shape is Err {
            Some(checks.shape->Err_0@)
        } else {
            None
        }
    } else if checks.shape is Err {
        Some(checks.shape->Err_0@)
    } else if !route.supervises() && checks.placement is Err {
        Some(checks.placement->Err_0@)
    } else if !in_personal_realm(realm_id) {
        Some(not_found_view())
    } else if checks.args is Err {
        Some(checks.args->Err_0@)
    } else if route.supervises() && !inv.invocations@.contains_key(key1(invocation)) {
        Some(not_found_view())
    } else {
        None
    }
}

/// What a worker's line is answered.
pub open spec fn worker_outcome(
    op: Seq<char>,
    checks: Checks,
    realm_id: Option<String>,
    inv: Invocations,
    invocation_id: Seq<char>,
    r: Result<WorkerRoute, Problem>,
) -> bool {
    &&& match r {
        Ok(route) => route.name() == op && worker_refusal(
            route,
            checks,
            realm_id,
            inv,
            invocation_id,
        ) is None,
        Err(p) => {
            &&& (forall|route: WorkerRoute| #[trigger] route.name() != op) ==> p@
                == unknown_op_view()
            &&& forall|route: WorkerRoute| #[trigger]
                route.name() == op ==> worker_refusal(
                    route,
                    checks,
                    realm_id,
                    inv,
                    invocation_id,
                ) == Some(p@)
        },
    }
}

/// Finds the operation that a command on the worker surface calls. Everything
/// that is not a worker's is unknown here.
pub fn dispatch_worker(
    op: &str,
    checks: Checks,
    realm_id: &Option<String>,
    inv: &Invocations,
    invocation_id: &str,
) -> (r: Result<WorkerRoute, Problem>)
    requires
        inv.wf(),
    ensures
        worker_outcome(
            op@,
            checks,
            *realm_id,
            *inv,
            invocation_id@,
            r,
        ),
{
    let route = match worker_route_of(op) {
        None => {
            return Err(unknown_op());
        },
        Some(route) => route,
    };
    match check_worker(route, checks, realm_id, inv, invocation_id) {
        Ok(_) => Ok(route),
        Err(p) => {
            proof {
                assert forall|other: WorkerRoute| #[trigger] other.name() == op@ implies other
                    == route by {
                    worker_names_differ(other, route);
                }
            }
            Err(p)
        },
    }
}

/// No two operations of the worker surface share a name.
proof fn worker_names_differ(a: WorkerRoute, b: WorkerRoute)
    requires
        a.name() == b.name(),
    ensures
        a == b,
{
    reveal_strlit("hello");
    reveal_strlit("invocation_claim");
    reveal_strlit("invocation_complete");
    reveal_strlit("contribution_append");
    reveal_strlit("relation_assert");
    reveal_strlit("context_assembly_create");
    reveal_strlit("invocation_cancel");
    reveal_strlit("application_event_emit");
    reveal_strlit("model_complete");
    assert("hello"@.len() == 5);
    assert("invocation_claim"@.len() == 16);
    assert("invocation_complete"@.len() == 19);
    assert("contribution_append"@.len() == 19);
    assert("relation_assert"@.len() == 15);
    assert("context_assembly_create"@.len() == 23);
    assert("invocation_cancel"@.len() == 17);
    assert("application_event_emit"@.len() == 22);
    assert("model_complete"@.len() == 14);
    assert("invocation_complete"@[0] == 'i');
    assert("contribution_append"@[0] == 'c');
}

fn check_worker(
    route: WorkerRoute,
    checks: Checks,
    realm_id: &Option<String>,
    inv: &Invocations,
    invocation_id: &str,
) -> (r: Result<(), Problem>)
    requires
        inv.wf(),
    ensures
        match worker_refusal(route, checks, *realm_id, *inv, invocation_id@) {
            Some(p) => r is Err && r->Err_0@ == p,
            None => r is Ok,
        },
{
    if route == WorkerRoute::Hello {
        checks.args?;
        checks.shape?;
        return Ok(());
    }
    let supervises = route == WorkerRoute::InvocationClaim || route
        == WorkerRoute::InvocationComplete;
    checks.shape?;
    if !supervises {
        checks.placement?;
    }
    if !is_personal_realm(realm_id) {
        return Err(not_found());
    }
    checks.args?;
    if supervises && !invocation_exists(inv, invocation_id) {
        return Err(not_found());
    }
    Ok(())
}

/// A worker reaches only what is a worker's: no project or space is made or
/// read on its surface, and nothing is invoked.
pub proof fn a_worker_reaches_no_administration(route: WorkerRoute, other: Route)
    requires
        other is ProjectCreate || other is SpaceCreate || other is RealmShow
            || other is InvocationCreate || other is ContributionRedact
            || other is GovernanceEnable,
    ensures
        route.name() != other.name(),
{
    reveal_strlit("project_create");
    reveal_strlit("space_create");
    reveal_strlit("realm_show");
    reveal_strlit("invocation_create");
    reveal_strlit("contribution_redact");
    reveal_strlit("governance_enable");
    reveal_strlit("hello");
    reveal_strlit("invocation_claim");
    reveal_strlit("invocation_complete");
    reveal_strlit("contribution_append");
    reveal_strlit("relation_assert");
    reveal_strlit("context_assembly_create");
    reveal_strlit("invocation_cancel");
    reveal_strlit("application_event_emit");
    reveal_strlit("model_complete");
    if route.name() == other.name() {
        let a = route.name();
        let b = other.name();
        assert(a.len() == b.len());
        assert(a[0] == b[0] && a[4] == b[4] && a[a.len() - 1] == b[b.len() - 1] && a[a.len() - 2]
            == b[b.len() - 2] && a[a.len() - 3] == b[b.len() - 3] && a[a.len() - 4] == b[b.len()
            - 4]);
    }
}

/// What a worker presents.
#[derive(Debug)]
pub struct AttemptBinding {
    pub attempt_id: String,
    pub fence_epoch: u64,
}

/// Who appends, and under what.
#[derive(Debug)]
pub struct AppendAuthor {
    pub actor_ref: String,
    pub invocation_ref: Option<String>,
    pub context_assembly_ref: Option<String>,
    pub binding: Option<AttemptBinding>,
}

/// Why a worker is no author.
pub open spec fn author_refusal(
    inv: Invocations,
    attempt_id: Option<String>,
    fence_epoch: Option<u64>,
) -> Option<ProblemView> {
    if attempt_id is None || fence_epoch is None {
        Some(unbound_worker())
    } else {
        let k = key1(attempt_id->0@);
        if !inv.attempts@.contains_key(k) || !inv.invocations@.contains_key(
            key1(inv.attempts@[k].invocation_id@),
        ) {
            Some(not_found_view())
        } else {
            None
        }
    }
}

/// Whom a worker writes as.
pub open spec fn author_outcome(
    inv: Invocations,
    deployment_id: Seq<char>,
    attempt_id: Option<String>,
    fence_epoch: Option<u64>,
    r: Result<AppendAuthor, Problem>,
) -> bool {
    &&& match author_refusal(inv, attempt_id, fence_epoch) {
        Some(p) => r is Err && r->Err_0@ == p,
        None => {
            let a = inv.attempts@[key1(attempt_id->0@)];
            let v = inv.invocations@[key1(a.invocation_id@)];
            let author = r->Ok_0;
            &&& r is Ok
            &&& author.actor_ref@ == deployment_actor(deployment_id)
            &&& opt_view(author.invocation_ref) == Some(a.invocation_id@)
            &&& opt_view(author.context_assembly_ref) == opt_view(v.context_assembly_ref)
            &&& author.binding is Some
            &&& author.binding->0.attempt_id@ == attempt_id->0@
            &&& author.binding->0.fence_epoch == fence_epoch->0
        },
    }
}

/// The author that an attempt binding makes of a worker. Whether the binding
/// still holds is checked when the append runs.
pub fn worker_author(
    inv: &Invocations,
    deployment_id: &str,
    attempt_id: &Option<String>,
    fence_epoch: Option<u64>,
) -> (r: Result<AppendAuthor, Problem>)
    requires
        inv.wf(),
    ensures
        author_outcome(
            *inv,
            deployment_id@,
            *attempt_id,
            fence_epoch,
            r,
        ),
{
    let (attempt, fence) = match (attempt_id, fence_epoch) {
        (Some(a), Some(f)) => (a, f),
        _ => {
            return Err(
                Problem::new(
                    ProblemKind::ForbiddenSurface,
                    "worker operations require the attempt binding (§15.2)",
                ),
            );
        },
    };
    let invocation_id = attempt_invocation_id(inv, attempt.as_str())?;
    proof {
        reveal_strlit("");
        crate::text::empty_is(""@);
    }
    match inv.invocations.find(invocation_id.as_str(), "") {
        None => Err(not_found()),
        Some(v) => Ok(
            AppendAuthor {
                actor_ref: deployment_actor_ref(deployment_id),
                invocation_ref: Some(invocation_id),
                context_assembly_ref: v.context_assembly_ref.clone(),
                binding: Some(AttemptBinding { attempt_id: attempt.clone(), fence_epoch: fence }),
            },
        ),
    }
}

/// Each operation answers to the name that it has on the wire.
pub proof fn each_route_has_its_wire_name()
    ensures
        Route::Hello.name() == "hello"@,
        Route::RealmShow.name() == "realm_show"@,
        Route::ProjectCreate.name() == "project_create"@,
        Route::SpaceCreate.name() == "space_create"@,
        Route::SpaceShow.name() == "space_show"@,
        Route::SpaceList.name() == "space_list"@,
        Route::ContributionAppend.name() == "contribution_append"@,
        Route::ContributionShow.name() == "contribution_show"@,
        Route::ContributionList.name() == "contribution_list"@,
        Route::RelationAssert.name() == "relation_assert"@,
        Route::FrontierPin.name() == "frontier_pin"@,
        Route::FrontierShow.name() == "frontier_show"@,
        Route::LensRead.name() == "lens_read"@,
        Route::ContextAssemblyCreate.name() == "context_assembly_create"@,
        Route::ContextAssemblyShow.name() == "context_assembly_show"@,
        Route::EventsRead.name() == "events_read"@,
        Route::EventsWait.name() == "events_wait"@,
        Route::ArtifactUploadBegin.name() == "artifact_upload_begin"@,
        Route::ArtifactUploadCredential.name() == "artifact_upload_credential"@,
        Route::ArtifactUploadFinalize.name() == "artifact_upload_finalize"@,
        Route::ArtifactUploadAbort.name() == "artifact_upload_abort"@,
        Route::ArtifactUploadShow.name() == "artifact_upload_show"@,
        Route::ArtifactShow.name() == "artifact_show"@,
        Route::InvocationCreate.name() == "invocation_create"@,
        Route::InvocationShow.name() == "invocation_show"@,
        Route::ProtocolInfo.name() == "protocol_info"@,
        Route::Diagnose.name() == "diagnose"@,
        Route::ProjectShow.name() == "project_show"@,
        Route::ProjectList.name() == "project_list"@,
        Route::ProjectUpdateMetadata.name() == "project_update_metadata"@,
        Route::ProjectAccessPolicyChangePrepare.name() == "project_access_policy_change_prepare"@,
        Route::ProjectAccessPolicyChangeConfirm.name() == "project_access_policy_change_confirm"@,
        Route::ProjectAccessPolicyChangeCancel.name() == "project_access_policy_change_cancel"@,
        Route::ProjectAccessPolicyChangeShow.name() == "project_access_policy_change_show"@,
        Route::ProjectAccessPolicyChangeList.name() == "project_access_policy_change_list"@,
        Route::SpaceUpdateMetadata.name() == "space_update_metadata"@,
        Route::SpaceFreeze.name() == "space_freeze"@,
        Route::SpaceReopen.name() == "space_reopen"@,
        Route::SpaceArchive.name() == "space_archive"@,
        Route::SpaceRestrict.name() == "space_restrict"@,
        Route::SpacePolicyNarrow.name() == "space_policy_narrow"@,
        Route::SpaceAccessWidenPrepare.name() == "space_access_widen_prepare"@,
        Route::SpaceAccessWidenConfirm.name() == "space_access_widen_confirm"@,
        Route::SpaceAccessWidenCancel.name() == "space_access_widen_cancel"@,
        Route::SpaceAccessWidenShow.name() == "space_access_widen_show"@,
        Route::SpaceAccessWidenList.name() == "space_access_widen_list"@,
        Route::SpaceParticipantAdd.name() == "space_participant_add"@,
        Route::SpaceParticipantActivate.name() == "space_participant_activate"@,
        Route::SpaceParticipantUpdate.name() == "space_participant_update"@,
        Route::SpaceParticipantRemove.name() == "space_participant_remove"@,
        Route::SpaceParticipantList.name() == "space_participant_list"@,
        Route::SpaceAccessGrantCreate.name() == "space_access_grant_create"@,
        Route::SpaceAccessGrantRevoke.name() == "space_access_grant_revoke"@,
        Route::SpaceAccessGrantList.name() == "space_access_grant_list"@,
        Route::ContributionWithdraw.name() == "contribution_withdraw"@,
        Route::ContributionSupersede.name() == "contribution_supersede"@,
        Route::ContributionRedact.name() == "contribution_redact"@,
        Route::RelationRetract.name() == "relation_retract"@,
        Route::LensCreate.name() == "lens_create"@,
        Route::LensUpdate.name() == "lens_update"@,
        Route::LensRevoke.name() == "lens_revoke"@,
        Route::LensShow.name() == "lens_show"@,
        Route::LensList.name() == "lens_list"@,
        Route::ReactionSet.name() == "reaction_set"@,
        Route::EventPayload.name() == "event_payload"@,
        Route::SnapshotRead.name() == "snapshot_read"@,
        Route::DisclosureManifestShow.name() == "disclosure_manifest_show"@,
        Route::AssistantCreate.name() == "assistant_create"@,
        Route::AssistantShow.name() == "assistant_show"@,
        Route::AssistantList.name() == "assistant_list"@,
        Route::AssistantRevisionRegister.name() == "assistant_revision_register"@,
        Route::AssistantRevisionShow.name() == "assistant_revision_show"@,
        Route::AssistantRevisionList.name() == "assistant_revision_list"@,
        Route::DeploymentCreate.name() == "deployment_create"@,
        Route::DeploymentShow.name() == "deployment_show"@,
        Route::DeploymentList.name() == "deployment_list"@,
        Route::DeploymentActivate.name() == "deployment_activate"@,
        Route::DeploymentDrain.name() == "deployment_drain"@,
        Route::AssistantAliasBind.name() == "assistant_alias_bind"@,
        Route::AssistantAliasUpdate.name() == "assistant_alias_update"@,
        Route::AssistantAliasRevoke.name() == "assistant_alias_revoke"@,
        Route::AssistantAliasShow.name() == "assistant_alias_show"@,
        Route::AssistantAliasList.name() == "assistant_alias_list"@,
        Route::InvocationList.name() == "invocation_list"@,
        Route::InvocationCancel.name() == "invocation_cancel"@,
        Route::GovernanceEnable.name() == "governance_enable"@,
        Route::GovernanceShow.name() == "governance_show"@,
        Route::GovernanceDisable.name() == "governance_disable"@,
        Route::EndeavorPromotionPrepare.name() == "endeavor_promotion_prepare"@,
        Route::EndeavorPromotionStart.name() == "endeavor_promotion_start"@,
        Route::EndeavorPromotionShow.name() == "endeavor_promotion_show"@,
        Route::EndeavorPromotionCancel.name() == "endeavor_promotion_cancel"@,
        Route::EndeavorPromotionReconcile.name() == "endeavor_promotion_reconcile"@,
        Route::ByomEpisodeBindingShow.name() == "byom_episode_binding_show"@,
{
}

/// Whether a name ends with a text.
pub open spec fn ends(name: Seq<char>, with: Seq<char>) -> bool {
    name.len() >= with.len() && name.skip(name.len() - with.len()) == with
}

/// Whether a name says that its operation shows, lists or reads.
pub open spec fn says_reading(name: Seq<char>) -> bool {
    ends(name, "_show"@) || ends(name, "_list"@) || ends(name, "_read"@)
}

proof fn says_no_reading(name: Seq<char>)
    requires
        name.len() >= 5,
        name[name.len() - 5] != '_' || (name[name.len() - 4] != 's' && name[name.len() - 4] != 'l'
            && name[name.len() - 4] != 'r'),
    ensures
        !says_reading(name),
{
    reveal_strlit("_show");
    reveal_strlit("_list");
    reveal_strlit("_read");
    let e = name.skip(name.len() - 5);
    assert(e[0] == name[name.len() - 5]);
    assert(e[1] == name[name.len() - 4]);
}

/// An operation that shows, lists or reads changes nothing; every other needs
/// the scope of a mutation, but for the greeting, the two that tell of the
/// daemon, the wait, the payload and the credential to upload.
pub proof fn what_only_shows_needs_no_scope(route: Route)
    ensures
        !route.mutates() <==> says_reading(route.name()) || route is Hello || route is ProtocolInfo
            || route is Diagnose || route is EventsWait || route is EventPayload
            || route is ArtifactUploadCredential,
{
    reveal_strlit("_show");
    reveal_strlit("_list");
    reveal_strlit("_read");
    let n = route.name();
    match route {
        Route::RealmShow => {
            reveal_strlit("realm_show");
            assert(n.skip(5) =~= "_show"@);
        },
        Route::ProjectCreate => {
            reveal_strlit("project_create");
            assert(n[9] == 'r' && n[10] == 'e');
            says_no_reading(n);
        },
        Route::SpaceCreate => {
            reveal_strlit("space_create");
            assert(n[7] == 'r' && n[8] == 'e');
            says_no_reading(n);
        },
        Route::SpaceShow => {
            reveal_strlit("space_show");
            assert(n.skip(5) =~= "_show"@);
        },
        Route::SpaceList => {
            reveal_strlit("space_list");
            assert(n.skip(5) =~= "_list"@);
        },
        Route::ContributionAppend => {
            reveal_strlit("contribution_append");
            assert(n[14] == 'p' && n[15] == 'p');
            says_no_reading(n);
        },
        Route::ContributionShow => {
            reveal_strlit("contribution_show");
            assert(n.skip(12) =~= "_show"@);
        },
        Route::ContributionList => {
            reveal_strlit("contribution_list");
            assert(n.skip(12) =~= "_list"@);
        },
        Route::RelationAssert => {
            reveal_strlit("relation_assert");
            assert(n[10] == 's' && n[11] == 's');
            says_no_reading(n);
        },
        Route::FrontierPin => {
            reveal_strlit("frontier_pin");
            assert(n[7] == 'r' && n[8] == '_');
            says_no_reading(n);
        },
        Route::FrontierShow => {
            reveal_strlit("frontier_show");
            assert(n.skip(8) =~= "_show"@);
        },
        Route::LensRead => {
            reveal_strlit("lens_read");
            assert(n.skip(4) =~= "_read"@);
        },
        Route::ContextAssemblyCreate => {
            reveal_strlit("context_assembly_create");
            assert(n[18] == 'r' && n[19] == 'e');
            says_no_reading(n);
        },
        Route::ContextAssemblyShow => {
            reveal_strlit("context_assembly_show");
            assert(n.skip(16) =~= "_show"@);
        },
        Route::EventsRead => {
            reveal_strlit("events_read");
            assert(n.skip(6) =~= "_read"@);
        },
        Route::ArtifactUploadBegin => {
            reveal_strlit("artifact_upload_begin");
            assert(n[16] == 'b' && n[17] == 'e');
            says_no_reading(n);
        },
        Route::ArtifactUploadFinalize => {
            reveal_strlit("artifact_upload_finalize");
            assert(n[19] == 'a' && n[20] == 'l');
            says_no_reading(n);
        },
        Route::ArtifactUploadAbort => {
            reveal_strlit("artifact_upload_abort");
            assert(n[16] == 'a' && n[17] == 'b');
            says_no_reading(n);
        },
        Route::ArtifactUploadShow => {
            reveal_strlit("artifact_upload_show");
            assert(n.skip(15) =~= "_show"@);
        },
        Route::ArtifactShow => {
            reveal_strlit("artifact_show");
            assert(n.skip(8) =~= "_show"@);
        },
        Route::InvocationCreate => {
            reveal_strlit("invocation_create");
            assert(n[12] == 'r' && n[13] == 'e');
            says_no_reading(n);
        },
        Route::InvocationShow => {
            reveal_strlit("invocation_show");
            assert(n.skip(10) =~= "_show"@);
        },
        Route::ProjectShow => {
            reveal_strlit("project_show");
            assert(n.skip(7) =~= "_show"@);
        },
        Route::ProjectList => {
            reveal_strlit("project_list");
            assert(n.skip(7) =~= "_list"@);
        },
        Route::ProjectUpdateMetadata => {
            reveal_strlit("project_update_metadata");
            assert(n[18] == 'a' && n[19] == 'd');
            says_no_reading(n);
        },
        Route::ProjectAccessPolicyChangePrepare => {
            reveal_strlit("project_access_policy_change_prepare");
            assert(n[31] == 'e' && n[32] == 'p');
            says_no_reading(n);
        },
        Route::ProjectAccessPolicyChangeConfirm => {
            reveal_strlit("project_access_policy_change_confirm");
            assert(n[31] == 'n' && n[32] == 'f');
            says_no_reading(n);
        },
        Route::ProjectAccessPolicyChangeCancel => {
            reveal_strlit("project_access_policy_change_cancel");
            assert(n[30] == 'a' && n[31] == 'n');
            says_no_reading(n);
        },
        Route::ProjectAccessPolicyChangeShow => {
            reveal_strlit("project_access_policy_change_show");
            assert(n.skip(28) =~= "_show"@);
        },
        Route::ProjectAccessPolicyChangeList => {
            reveal_strlit("project_access_policy_change_list");
            assert(n.skip(28) =~= "_list"@);
        },
        Route::SpaceUpdateMetadata => {
            reveal_strlit("space_update_metadata");
            assert(n[16] == 'a' && n[17] == 'd');
            says_no_reading(n);
        },
        Route::SpaceFreeze => {
            reveal_strlit("space_freeze");
            assert(n[7] == 'r' && n[8] == 'e');
            says_no_reading(n);
        },
        Route::SpaceReopen => {
            reveal_strlit("space_reopen");
            assert(n[7] == 'e' && n[8] == 'o');
            says_no_reading(n);
        },
        Route::SpaceArchive => {
            reveal_strlit("space_archive");
            assert(n[8] == 'c' && n[9] == 'h');
            says_no_reading(n);
        },
        Route::SpaceRestrict => {
            reveal_strlit("space_restrict");
            assert(n[9] == 't' && n[10] == 'r');
            says_no_reading(n);
        },
        Route::SpacePolicyNarrow => {
            reveal_strlit("space_policy_narrow");
            assert(n[14] == 'a' && n[15] == 'r');
            says_no_reading(n);
        },
        Route::SpaceAccessWidenPrepare => {
            reveal_strlit("space_access_widen_prepare");
            assert(n[21] == 'e' && n[22] == 'p');
            says_no_reading(n);
        },
        Route::SpaceAccessWidenConfirm => {
            reveal_strlit("space_access_widen_confirm");
            assert(n[21] == 'n' && n[22] == 'f');
            says_no_reading(n);
        },
        Route::SpaceAccessWidenCancel => {
            reveal_strlit("space_access_widen_cancel");
            assert(n[20] == 'a' && n[21] == 'n');
            says_no_reading(n);
        },
        Route::SpaceAccessWidenShow => {
            reveal_strlit("space_access_widen_show");
            assert(n.skip(18) =~= "_show"@);
        },
        Route::SpaceAccessWidenList => {
            reveal_strlit("space_access_widen_list");
            assert(n.skip(18) =~= "_list"@);
        },
        Route::SpaceParticipantAdd => {
            reveal_strlit("space_participant_add");
            assert(n[16] == 't' && n[17] == '_');
            says_no_reading(n);
        },
        Route::SpaceParticipantActivate => {
            reveal_strlit("space_participant_activate");
            assert(n[21] == 'i' && n[22] == 'v');
            says_no_reading(n);
        },
        Route::SpaceParticipantUpdate => {
            reveal_strlit("space_participant_update");
            assert(n[19] == 'p' && n[20] == 'd');
            says_no_reading(n);
        },
        Route::SpaceParticipantRemove => {
            reveal_strlit("space_participant_remove");
            assert(n[19] == 'e' && n[20] == 'm');
            says_no_reading(n);
        },
        Route::SpaceParticipantList => {
            reveal_strlit("space_participant_list");
            assert(n.skip(17) =~= "_list"@);
        },
        Route::SpaceAccessGrantCreate => {
            reveal_strlit("space_access_grant_create");
            assert(n[20] == 'r' && n[21] == 'e');
            says_no_reading(n);
        },
        Route::SpaceAccessGrantRevoke => {
            reveal_strlit("space_access_grant_revoke");
            assert(n[20] == 'e' && n[21] == 'v');
            says_no_reading(n);
        },
        Route::SpaceAccessGrantList => {
            reveal_strlit("space_access_grant_list");
            assert(n.skip(18) =~= "_list"@);
        },
        Route::ContributionWithdraw => {
            reveal_strlit("contribution_withdraw");
            assert(n[16] == 'h' && n[17] == 'd');
            says_no_reading(n);
        },
        Route::ContributionSupersede => {
            reveal_strlit("contribution_supersede");
            assert(n[17] == 'r' && n[18] == 's');
            says_no_reading(n);
        },
        Route::ContributionRedact => {
            reveal_strlit("contribution_redact");
            assert(n[14] == 'e' && n[15] == 'd');
            says_no_reading(n);
        },
        Route::RelationRetract => {
            reveal_strlit("relation_retract");
            assert(n[11] == 't' && n[12] == 'r');
            says_no_reading(n);
        },
        Route::LensCreate => {
            reveal_strlit("lens_create");
            assert(n[6] == 'r' && n[7] == 'e');
            says_no_reading(n);
        },
        Route::LensUpdate => {
            reveal_strlit("lens_update");
            assert(n[6] == 'p' && n[7] == 'd');
            says_no_reading(n);
        },
        Route::LensRevoke => {
            reveal_strlit("lens_revoke");
            assert(n[6] == 'e' && n[7] == 'v');
            says_no_reading(n);
        },
        Route::LensShow => {
            reveal_strlit("lens_show");
            assert(n.skip(4) =~= "_show"@);
        },
        Route::LensList => {
            reveal_strlit("lens_list");
            assert(n.skip(4) =~= "_list"@);
        },
        Route::ReactionSet => {
            reveal_strlit("reaction_set");
            assert(n[7] == 'n' && n[8] == '_');
            says_no_reading(n);
        },
        Route::SnapshotRead => {
            reveal_strlit("snapshot_read");
            assert(n.skip(8) =~= "_read"@);
        },
        Route::DisclosureManifestShow => {
            reveal_strlit("disclosure_manifest_show");
            assert(n.skip(19) =~= "_show"@);
        },
        Route::AssistantCreate => {
            reveal_strlit("assistant_create");
            assert(n[11] == 'r' && n[12] == 'e');
            says_no_reading(n);
        },
        Route::AssistantShow => {
            reveal_strlit("assistant_show");
            assert(n.skip(9) =~= "_show"@);
        },
        Route::AssistantList => {
            reveal_strlit("assistant_list");
            assert(n.skip(9) =~= "_list"@);
        },
        Route::AssistantRevisionRegister => {
            reveal_strlit("assistant_revision_register");
            assert(n[22] == 'i' && n[23] == 's');
            says_no_reading(n);
        },
        Route::AssistantRevisionShow => {
            reveal_strlit("assistant_revision_show");
            assert(n.skip(18) =~= "_show"@);
        },
        Route::AssistantRevisionList => {
            reveal_strlit("assistant_revision_list");
            assert(n.skip(18) =~= "_list"@);
        },
        Route::DeploymentCreate => {
            reveal_strlit("deployment_create");
            assert(n[12] == 'r' && n[13] == 'e');
            says_no_reading(n);
        },
        Route::DeploymentShow => {
            reveal_strlit("deployment_show");
            assert(n.skip(10) =~= "_show"@);
        },
        Route::DeploymentList => {
            reveal_strlit("deployment_list");
            assert(n.skip(10) =~= "_list"@);
        },
        Route::DeploymentActivate => {
            reveal_strlit("deployment_activate");
            assert(n[14] == 'i' && n[15] == 'v');
            says_no_reading(n);
        },
        Route::DeploymentDrain => {
            reveal_strlit("deployment_drain");
            assert(n[11] == 'd' && n[12] == 'r');
            says_no_reading(n);
        },
        Route::AssistantAliasBind => {
            reveal_strlit("assistant_alias_bind");
            assert(n[15] == '_' && n[16] == 'b');
            says_no_reading(n);
        },
        Route::AssistantAliasUpdate => {
            reveal_strlit("assistant_alias_update");
            assert(n[17] == 'p' && n[18] == 'd');
            says_no_reading(n);
        },
        Route::AssistantAliasRevoke => {
            reveal_strlit("assistant_alias_revoke");
            assert(n[17] == 'e' && n[18] == 'v');
            says_no_reading(n);
        },
        Route::AssistantAliasShow => {
            reveal_strlit("assistant_alias_show");
            assert(n.skip(15) =~= "_show"@);
        },
        Route::AssistantAliasList => {
            reveal_strlit("assistant_alias_list");
            assert(n.skip(15) =~= "_list"@);
        },
        Route::InvocationList => {
            reveal_strlit("invocation_list");
            assert(n.skip(10) =~= "_list"@);
        },
        Route::InvocationCancel => {
            reveal_strlit("invocation_cancel");
            assert(n[12] == 'a' && n[13] == 'n');
            says_no_reading(n);
        },
        Route::GovernanceEnable => {
            reveal_strlit("governance_enable");
            assert(n[12] == 'n' && n[13] == 'a');
            says_no_reading(n);
        },
        Route::GovernanceShow => {
            reveal_strlit("governance_show");
            assert(n.skip(10) =~= "_show"@);
        },
        Route::GovernanceDisable => {
            reveal_strlit("governance_disable");
            assert(n[13] == 's' && n[14] == 'a');
            says_no_reading(n);
        },
        Route::EndeavorPromotionPrepare => {
            reveal_strlit("endeavor_promotion_prepare");
            assert(n[21] == 'e' && n[22] == 'p');
            says_no_reading(n);
        },
        Route::EndeavorPromotionStart => {
            reveal_strlit("endeavor_promotion_start");
            assert(n[19] == 's' && n[20] == 't');
            says_no_reading(n);
        },
        Route::EndeavorPromotionShow => {
            reveal_strlit("endeavor_promotion_show");
            assert(n.skip(18) =~= "_show"@);
        },
        Route::EndeavorPromotionCancel => {
            reveal_strlit("endeavor_promotion_cancel");
            assert(n[20] == 'a' && n[21] == 'n');
            says_no_reading(n);
        },
        Route::EndeavorPromotionReconcile => {
            reveal_strlit("endeavor_promotion_reconcile");
            assert(n[23] == 'n' && n[24] == 'c');
            says_no_reading(n);
        },
        Route::ByomEpisodeBindingShow => {
            reveal_strlit("byom_episode_binding_show");
            assert(n.skip(20) =~= "_show"@);
        },
        _ => {},
    }
}

/// An operation that goes by one word of a space does that to the space, and no
/// other operation goes by one word.
pub proof fn a_space_operation_does_what_its_name_says(
    route: Route,
    before: crate::records::Space,
    after: crate::records::Space,
)
    requires
        lifecycle_for(route) is Some,
        crate::lifecycle_ops::applied(before, after, lifecycle_for(route)->0),
    ensures
        route.name() == "space_freeze"@ || route.name() == "space_reopen"@ || route.name()
            == "space_archive"@ || route.name() == "space_restrict"@,
        route is SpaceFreeze ==> after.status is Frozen && after.visibility == before.visibility,
        route is SpaceReopen ==> after.status is Open && after.visibility == before.visibility,
        route is SpaceArchive ==> after.status is Archived && after.visibility == before.visibility,
        route is SpaceRestrict ==> after.visibility@ == "restricted"@ && after.status
            == before.status,
{
}

/// The four operations on a space that take no argument are all carried out.
pub proof fn each_word_of_a_space_is_known(route: Route)
    ensures
        lifecycle_for(route) is Some <==> route is SpaceFreeze || route is SpaceReopen
            || route is SpaceArchive || route is SpaceRestrict,
{
}

/// A client that presents a worker's binding is refused where an operation takes
/// one, and where it presents none nothing is refused.
pub proof fn a_client_presents_no_binding(
    route: Route,
    attempt: Option<String>,
    fence: Option<u64>,
    r: Result<(), Problem>,
)
    requires
        unbound_outcome(route, attempt, fence, r),
    ensures
        attempt is None && fence is None ==> r is Ok,
        r is Err ==> r->Err_0@.kind == ProblemKind::ForbiddenSurface,
        route is ContributionAppend && (attempt is Some || fence is Some) ==> r is Err,
        route is RelationAssert && (attempt is Some || fence is Some) ==> r is Err,
        route is ContextAssemblyCreate && (attempt is Some || fence is Some) ==> r is Err,
        route is InvocationCancel && (attempt is Some || fence is Some) ==> r is Err,
        r is Err ==> route is ContributionAppend || route is RelationAssert
            || route is ContextAssemblyCreate || route is InvocationCancel,
{
}

/// A crash is set for the one point and the one operation that it names.
pub proof fn a_crash_is_set_for_one_point(a: AbortSpec, op: Seq<char>)
    ensures
        a.op@ != op ==> {
            let f = finalize_hooks_of(a, op);
            &&& !f.abort_after_sealing_txn
            &&& !f.abort_after_seal
            &&& !f.store.abort_before_commit
            &&& !f.store.abort_after_commit
            &&& !hooks_of(a, op).abort_before_commit
            &&& !hooks_of(a, op).abort_after_commit
        },
        hooks_of(a, op).abort_before_commit <==> a.op@ == op && a.phase@ == "before_commit"@,
        hooks_of(a, op).abort_after_commit <==> a.op@ == op && a.phase@ == "after_commit"@,
        finalize_hooks_of(a, op).abort_after_sealing_txn <==> a.op@ == op && a.phase@
            == "after_seal_txn"@,
        finalize_hooks_of(a, op).abort_after_seal <==> a.op@ == op && a.phase@ == "after_seal"@,
        finalize_hooks_of(a, op).store == hooks_of(a, op),
        !(hooks_of(a, op).abort_before_commit && hooks_of(a, op).abort_after_commit),
{
    reveal_strlit("before_commit");
    reveal_strlit("after_commit");
    assert("before_commit"@.len() == 13);
    assert("after_commit"@.len() == 12);
}

/// A line loses the one newline that ends it and nothing else.
pub proof fn a_line_loses_its_newline(line: Seq<char>)
    ensures
        unterminated(line.push('\n')) == line,
        line.len() == 0 || line.last() != '\n' ==> unterminated(line) == line,
{
    assert(line.push('\n').drop_last() =~= line);
}

/// A request is read up to its limit and not beyond, has to be a command, and
/// speaks the version of the daemon.
pub proof fn a_request_is_read_within_its_limit(
    bytes: usize,
    limit: usize,
    envelope: Envelope,
    version: Seq<char>,
)
    ensures
        line_refusal(bytes, limit, envelope, version) is None <==> bytes <= limit
            && envelope is Speaks && envelope->Speaks_0@ == version,
        bytes > limit ==> line_refusal(bytes, limit, envelope, version)->0.kind
            == ProblemKind::Invalid,
        bytes <= limit && envelope is NotJson ==> line_refusal(
            bytes,
            limit,
            envelope,
            version,
        )->0.kind == ProblemKind::Invalid && line_refusal(bytes, limit, envelope, version)->0.detail
            == Some(envelope->NotJson_0@),
        bytes <= limit && envelope is NotCommand ==> line_refusal(bytes, limit, envelope, version)
            == Some(envelope->NotCommand_0@),
        bytes <= limit && envelope is Speaks && envelope->Speaks_0@ != version ==> line_refusal(
            bytes,
            limit,
            envelope,
            version,
        )->0.kind == ProblemKind::UnsupportedVersion,
{
}

/// A reply goes out as it is up to its limit; beyond it is a fault, and a refusal
/// goes out as it is.
pub proof fn a_reply_goes_out_whole(
    reply: Result<Vec<u8>, Problem>,
    limit: usize,
    r: Result<Vec<u8>, Problem>,
)
    requires
        line_outcome(reply, limit, r),
    ensures
        reply is Err ==> r is Err && r->Err_0 == reply->Err_0,
        reply is Ok && reply->Ok_0@.len() <= limit ==> r is Ok && r->Ok_0 == reply->Ok_0,
        reply is Ok && reply->Ok_0@.len() > limit ==> r is Err && r->Err_0@.kind
            == ProblemKind::Internal,
        r is Ok ==> r->Ok_0@.len() <= limit,
{
}

/// A client reaches the operation of the name it gave, and only with what it
/// sent in order and in its own realm, which before it is known it need not be
/// in; what fails first is what it is told.
pub proof fn a_client_reaches_what_it_named(
    op: Option<OpSpec>,
    checks: Checks,
    realm: Option<String>,
    r: Result<Route, Problem>,
)
    requires
        external_outcome(op, checks, realm, r),
    ensures
        r is Ok ==> {
            &&& op is Some
            &&& r->Ok_0.name() == op->0.name@
            &&& r->Ok_0.mutates() ==> op->0.mutation
            &&& op->0.name@ != "application_event_emit"@
            &&& checks.shape is Ok
            &&& checks.placement is Ok
            &&& checks.args is Ok
            &&& op->0.pre_auth || (realm is Some && realm->0@ == "realm-personal"@)
        },
        op is None ==> r is Err && r->Err_0@.kind == ProblemKind::UnknownOp,
        op is Some && op->0.name@ != "application_event_emit"@ ==> {
            &&& checks.shape is Err ==> r is Err && r->Err_0@ == checks.shape->Err_0@
            &&& checks.shape is Ok && checks.placement is Err ==> r is Err && r->Err_0@
                == checks.placement->Err_0@
            &&& checks.shape is Ok && checks.placement is Ok && checks.args is Err ==> r is Err
                && r->Err_0@ == checks.args->Err_0@
        },
{
}

/// A worker reaches the operation of the name it gave; all but the greeting are
/// in its own realm, and what starts or ends an invocation is for one that
/// there is.
pub proof fn a_worker_reaches_what_it_named(
    op: Seq<char>,
    checks: Checks,
    realm: Option<String>,
    inv: Invocations,
    id: Seq<char>,
    r: Result<WorkerRoute, Problem>,
)
    requires
        worker_outcome(op, checks, realm, inv, id, r),
    ensures
        r is Ok ==> {
            &&& r->Ok_0.name() == op
            &&& checks.shape is Ok
            &&& checks.args is Ok
            &&& r->Ok_0 !is Hello ==> realm is Some && realm->0@ == "realm-personal"@
            &&& r->Ok_0 is InvocationClaim ==> inv.invocations@.contains_key(key1(id))
            &&& r->Ok_0 is InvocationComplete ==> inv.invocations@.contains_key(key1(id))
            &&& r->Ok_0 !is Hello && r->Ok_0 !is InvocationClaim && r->Ok_0 !is InvocationComplete
                ==> checks.placement is Ok
        },
        (forall|route: WorkerRoute| #[trigger] route.name() != op) ==> r is Err && r->Err_0@.kind
            == ProblemKind::UnknownOp,
{
}

/// What a worker adds is by its deployment, for the invocation and under the
/// context of the attempt that it presents, under that attempt's binding.
pub proof fn a_worker_adds_under_its_attempt(
    inv: Invocations,
    deployment: Seq<char>,
    attempt: Option<String>,
    fence: Option<u64>,
    r: Result<AppendAuthor, Problem>,
)
    requires
        author_outcome(inv, deployment, attempt, fence, r),
    ensures
        r is Ok <==> {
            &&& attempt is Some
            &&& fence is Some
            &&& inv.attempts@.contains_key(key1(attempt->0@))
            &&& inv.invocations@.contains_key(
                key1(inv.attempts@[key1(attempt->0@)].invocation_id@),
            )
        },
        r is Ok ==> {
            let a = inv.attempts@[key1(attempt->0@)];
            let v = inv.invocations@[key1(a.invocation_id@)];
            &&& r->Ok_0.actor_ref@ == "asstdep-"@ + deployment
            &&& opt_view(r->Ok_0.invocation_ref) == Some(a.invocation_id@)
            &&& opt_view(r->Ok_0.context_assembly_ref) == opt_view(v.context_assembly_ref)
            &&& r->Ok_0.binding is Some
            &&& r->Ok_0.binding->0.attempt_id@ == attempt->0@
            &&& r->Ok_0.binding->0.fence_epoch == fence->0
        },
{
}

/// Each operation of the worker surface answers to the name that it has on the
/// wire.
pub proof fn each_worker_route_has_its_wire_name()
    ensures
        WorkerRoute::Hello.name() == "hello"@,
        WorkerRoute::InvocationClaim.name() == "invocation_claim"@,
        WorkerRoute::InvocationComplete.name() == "invocation_complete"@,
        WorkerRoute::ContributionAppend.name() == "contribution_append"@,
        WorkerRoute::RelationAssert.name() == "relation_assert"@,
        WorkerRoute::ContextAssemblyCreate.name() == "context_assembly_create"@,
        WorkerRoute::InvocationCancel.name() == "invocation_cancel"@,
        WorkerRoute::ApplicationEventEmit.name() == "application_event_emit"@,
        WorkerRoute::ModelComplete.name() == "model_complete"@,
{
}

} // verus!
